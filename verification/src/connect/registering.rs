//! Registering from one address: the ways to register, one after the other.

use vstd::prelude::*;
use vstd::string::*;

use crate::carrier::CarrierProfile;
use crate::channel::ImsRoute;
use crate::errors::{code, failure, opt_error, ErrorView, VolteError};
use crate::identity::{IdentityView, ImsIdentity};
use crate::ip::IpAddr;
use crate::register;
use crate::register::request::{
    register_request, register_request_uri_with_target, request_to, request_uri_of, IdsView,
    PartsView, RegisterParts, RegisterPhase, RegisterRequest, RegisterTarget, RequestIds,
    RequestView, TargetView,
};
use crate::register::{
    failure_error, profile_variant, retry_after, FailureView, RegisterFailure, RegisterRequestPolicy,
    RegisterRetry, RetryView, VariantView, VolteRegisterVariant,
};
use crate::runtime::{RegistrationMode, SnapshotView, VolteRuntime, VolteStage};
use crate::security::{client_offer, SecAgree};
use crate::session::initial_authorization;

verus! {

/// What to do next.
#[derive(Debug, PartialEq, Eq)]
pub enum RegisterStep {
    /// Register this way.
    Register(VolteRegisterVariant),
    /// The line could not be registered.
    Failed(VolteError),
}

pub enum RegisterStepView {
    Register(VariantView),
    Failed(ErrorView),
}

impl View for RegisterStep {
    type V = RegisterStepView;

    open spec fn view(&self) -> RegisterStepView {
        match *self {
            RegisterStep::Register(variant) => RegisterStepView::Register(variant@),
            RegisterStep::Failed(error) => RegisterStepView::Failed(error@),
        }
    }
}

/// Registering from one address.
#[derive(Debug, PartialEq, Eq)]
pub struct Registering {
    /// The ways in the list, and how many of them were taken from it.
    variants: Vec<VolteRegisterVariant>,
    next: usize,
    /// The line offers video.
    video: bool,
    /// The way at hand.
    current: Option<VolteRegisterVariant>,
    last_error: Option<VolteError>,
    /// The family of the address.
    family: &'static str,
}

pub struct RegisteringView {
    /// The ways that are left in the list.
    pub left: Seq<VariantView>,
    pub video: bool,
    pub current: Option<VariantView>,
    pub last_error: Option<ErrorView>,
    pub family: Seq<char>,
}

pub open spec fn variant_views(list: Seq<VolteRegisterVariant>) -> Seq<VariantView> {
    list.map_values(|variant: VolteRegisterVariant| variant@)
}

impl View for Registering {
    type V = RegisteringView;

    closed spec fn view(&self) -> RegisteringView {
        RegisteringView {
            left: variant_views(self.variants@).skip(self.next as int),
            video: self.video,
            current: register::opt_variant(self.current),
            last_error: opt_error(self.last_error),
            family: self.family@,
        }
    }
}

/// The way to register with the line's video capability.
pub open spec fn with_video(variant: VariantView, video: bool) -> VariantView {
    VariantView {
        policy: RegisterRequestPolicy { include_video_feature: video, ..variant.policy },
        ..variant
    }
}

/// What is noted of a way to register.
pub open spec fn variant_note(variant: VariantView) -> Seq<char> {
    "register_variant="@ + variant.label
}

impl RegisteringView {
    /// This way is taken.
    pub open spec fn take_variant(self, s: SnapshotView, variant: VariantView, at: Seq<char>) -> (
        RegisteringView,
        SnapshotView,
        RegisterStepView,
    ) {
        let variant = with_video(variant, self.video);
        (
            RegisteringView { current: Some(variant), ..self },
            s.recorded(
                VolteStage::RegisterInitial,
                Some(self.family),
                "started"@,
                None,
                Some(variant_note(variant)),
                at,
            ),
            RegisterStepView::Register(variant),
        )
    }

    /// The next way in the list.
    pub open spec fn next_variant(self, s: SnapshotView, at: Seq<char>) -> (
        RegisteringView,
        SnapshotView,
        RegisterStepView,
    ) {
        if self.left.len() == 0 {
            (
                self,
                s,
                RegisterStepView::Failed(
                    match self.last_error {
                        Some(error) => error,
                        None => failure(code::REGISTER_INITIAL_UNEXPECTED_STATUS@),
                    },
                ),
            )
        } else {
            RegisteringView { left: self.left.drop_first(), ..self }.take_variant(
                s,
                self.left[0],
                at,
            )
        }
    }

    /// The way at hand failed.
    pub open spec fn failed(self, s: SnapshotView, failure: FailureView, at: Seq<char>) -> (
        RegisteringView,
        SnapshotView,
        RegisterStepView,
    ) {
        let variant = self.current->0;
        let error = failure_error(failure);
        let noted = s.recorded(
            VolteStage::RegisterInitial,
            Some(self.family),
            "failed"@,
            Some(error),
            Some(variant_note(variant)),
            at,
        );
        let next = RegisteringView { last_error: Some(error), ..self };
        match retry_after(variant, failure, self.left.len() > 0) {
            RetryView::Again(again) => next.take_variant(noted, again, at),
            RetryView::Next => next.next_variant(noted, at),
            RetryView::GiveUp => (next, noted, RegisterStepView::Failed(error)),
        }
    }
}

fn noted(variant: &VolteRegisterVariant) -> (r: String)
    ensures
        r@ == variant_note(variant@),
{
    let mut note = "register_variant=".to_string();
    note.append(variant.label);
    note
}

impl Registering {
    pub closed spec fn wf(&self) -> bool {
        self.next <= self.variants@.len()
    }

    /// The first of the carrier's ways to register.
    pub fn begin(
        runtime: &mut VolteRuntime,
        profile: &CarrierProfile,
        video: bool,
        family: &'static str,
        at: &str,
    ) -> (r: (Self, RegisterStep))
        ensures
            r.0.wf(),
            r.0@.current is Some,
            final(runtime).generation == old(runtime).generation,
            (r.0@, final(runtime).snapshot@, r.1@) == (RegisteringView {
                left: seq![profile_variant(*profile)],
                video,
                current: None,
                last_error: None,
                family: family@,
            }).next_variant(old(runtime).snapshot@, at@),
    {
        let variants = register::register_variants(profile);
        let mut state = Registering {
            variants,
            next: 0,
            video,
            current: None,
            last_error: None,
            family,
        };
        proof {
            assert(state@.left =~= seq![profile_variant(*profile)]);
        }
        let step = state.next_variant(runtime, at);
        (state, step)
    }

    fn take_variant(&mut self, runtime: &mut VolteRuntime, variant: VolteRegisterVariant, at: &str)
        -> (r: RegisterStep)
        requires
            old(self).wf(),
        ensures
            final(self).wf(),
            final(self)@.current is Some,
            final(runtime).generation == old(runtime).generation,
            (final(self)@, final(runtime).snapshot@, r@) == old(self)@.take_variant(
                old(runtime).snapshot@,
                variant@,
                at@,
            ),
    {
        let mut variant = variant;
        variant.policy.include_video_feature = self.video;
        self.current = Some(variant);
        let note = noted(&variant);
        runtime.record_attempt(
            VolteStage::RegisterInitial,
            Some(self.family),
            "started",
            None,
            Some(note),
            at,
        );
        RegisterStep::Register(variant)
    }

    fn next_variant(&mut self, runtime: &mut VolteRuntime, at: &str) -> (r: RegisterStep)
        requires
            old(self).wf(),
        ensures
            final(self).wf(),
            old(self)@.current is Some || old(self)@.left.len() > 0 ==> final(self)@.current is Some,
            final(runtime).generation == old(runtime).generation,
            (final(self)@, final(runtime).snapshot@, r@) == old(self)@.next_variant(
                old(runtime).snapshot@,
                at@,
            ),
    {
        proof {
            assert(variant_views(self.variants@).len() == self.variants@.len());
        }
        let n = self.variants.len();
        if self.next >= n {
            return match &self.last_error {
                Some(error) => RegisterStep::Failed(error.clone()),
                None => RegisterStep::Failed(
                    VolteError::new(code::REGISTER_INITIAL_UNEXPECTED_STATUS),
                ),
            };
        }
        let variant = self.variants[self.next];
        proof {
            assert(self@.left[0] == variant@);
            assert(self@.left.drop_first() =~= variant_views(self.variants@).skip(
                self.next as int + 1,
            ));
        }
        self.next = self.next + 1;
        self.take_variant(runtime, variant, at)
    }

    /// The way at hand failed: it is changed as the registrar asks, or the next one
    /// is tried, or that is the end.
    pub fn failed(&mut self, runtime: &mut VolteRuntime, failure: &RegisterFailure, at: &str) -> (r:
        RegisterStep)
        requires
            old(self).wf(),
            old(self)@.current is Some,
        ensures
            final(self).wf(),
            final(self)@.current is Some,
            final(runtime).generation == old(runtime).generation,
            (final(self)@, final(runtime).snapshot@, r@) == old(self)@.failed(
                old(runtime).snapshot@,
                failure@,
                at@,
            ),
    {
        let error = register::map_register_failure(failure);
        let variant = match self.current {
            Some(variant) => variant,
            None => return RegisterStep::Failed(error),
        };
        runtime.record_attempt(
            VolteStage::RegisterInitial,
            Some(self.family),
            "failed",
            Some(&error),
            Some(noted(&variant)),
            at,
        );
        proof {
            assert(variant_views(self.variants@).len() == self.variants@.len());
        }
        let n = self.variants.len();
        let more = self.next < n;
        self.last_error = Some(error.clone());
        match register::next_register_attempt(variant, failure, more) {
            RegisterRetry::Again(again) => self.take_variant(runtime, again, at),
            RegisterRetry::Next => self.next_variant(runtime, at),
            RegisterRetry::GiveUp => RegisterStep::Failed(error),
        }
    }

    /// The line was registered in the way at hand. Without protection that is a stage
    /// of its own.
    pub fn succeeded(&self, runtime: &mut VolteRuntime, mode: RegistrationMode, at: &str)
        requires
            self@.current is Some,
        ensures
            final(runtime).generation == old(runtime).generation,
            ({
                let done = old(runtime).snapshot@.recorded(
                    VolteStage::Registered,
                    Some(self@.family),
                    "succeeded"@,
                    None,
                    Some(variant_note(self@.current->0)),
                    at@,
                );
                final(runtime).snapshot@ == (if mode == RegistrationMode::Udp {
                    SnapshotView { stage: VolteStage::RegisterUdp, ..done }
                } else {
                    done
                })
            }),
    {
        let note = match &self.current {
            Some(variant) => noted(variant),
            None => "".to_string(),
        };
        runtime.record_attempt(
            VolteStage::Registered,
            Some(self.family),
            "succeeded",
            None,
            Some(note),
            at,
        );
        if mode == RegistrationMode::Udp {
            runtime.snapshot.stage = VolteStage::RegisterUdp;
        }
    }
}

/// Notes that the P-CSCF is looked for.
pub fn note_pcscf_search(runtime: &mut VolteRuntime)
    ensures
        final(runtime).generation == old(runtime).generation,
        final(runtime).snapshot@ == (SnapshotView {
            stage: VolteStage::Pcscf,
            ..old(runtime).snapshot@
        }),
{
    runtime.snapshot.stage = VolteStage::Pcscf;
}

/// Notes that the P-CSCF was found and can be reached.
pub fn note_pcscf_reached(runtime: &mut VolteRuntime, pcscf: IpAddr)
    ensures
        final(runtime).generation == old(runtime).generation,
        final(runtime).snapshot@ == (SnapshotView {
            stage: VolteStage::RegisterInitial,
            pcscf: Some(pcscf.text()),
            ..old(runtime).snapshot@
        }),
{
    runtime.snapshot.stage = VolteStage::RegisterInitial;
    runtime.snapshot.pcscf = Some(pcscf.to_string());
}

/// The first REGISTER in one way to register. Security is offered where the carrier
/// has mechanisms for it.
pub open spec fn initial_view(
    profile: CarrierProfile,
    identity: IdentityView,
    route: ImsRoute,
    ids: IdsView,
    variant: VariantView,
    binding: SecAgree,
    target: TargetView,
    sip_instance: Seq<char>,
) -> RequestView {
    register_request(
        RegisterPhase::Initial,
        target,
        identity,
        route,
        ids,
        PartsView {
            expires_seconds: profile.ims.register.expires_seconds,
            authorization: initial_authorization(
                variant.authorization,
                target.realm,
                identity.private_user,
                request_uri_of(target),
            ),
            security_client: if register::security_enabled(profile) {
                Some(client_offer(variant.security_client_offer, binding, profile))
            } else {
                None
            },
            security_verify: None,
            sip_instance,
            policy: variant.policy,
        },
    )
}

/// Puts the first REGISTER in one way to register together.
pub fn initial_request(
    profile: &CarrierProfile,
    identity: &ImsIdentity,
    route: &ImsRoute,
    ids: &RequestIds,
    variant: &VolteRegisterVariant,
    binding: SecAgree,
    target: &RegisterTarget,
    sip_instance: &str,
) -> (r: RegisterRequest)
    ensures
        r@ == initial_view(
            *profile,
            identity@,
            *route,
            ids@,
            variant@,
            binding,
            target@,
            sip_instance@,
        ),
{
    let request_uri = register_request_uri_with_target(target);
    let authorization = variant.authorization.build(
        target.realm.as_str(),
        identity.private_user.as_str(),
        request_uri.as_str(),
    );
    let security_client = if register::offers_security(profile) {
        Some(variant.security_client_offer.build(binding, profile))
    } else {
        None
    };
    let parts = RegisterParts {
        expires_seconds: profile.ims.register.expires_seconds,
        authorization,
        security_client,
        security_verify: None,
        sip_instance: sip_instance.to_string(),
        policy: variant.policy,
    };
    request_to(RegisterPhase::Initial, target, identity, *route, ids, ids.cseq, parts)
}

/// Registering comes to an end: each failure leaves fewer ways in the list, or moves
/// the way at hand on, which it can do no more than four times.
pub proof fn registering_comes_to_an_end(
    state: RegisteringView,
    s: SnapshotView,
    failure: FailureView,
    at: Seq<char>,
)
    requires
        state.current is Some,
    ensures
        ({
            let (next, _, step) = state.failed(s, failure, at);
            step is Register ==> next.left.len() < state.left.len() || (next.left == state.left
                && register::retry_rank(next.current->0) > register::retry_rank(
                state.current->0,
            ))
        }),
        register::retry_rank(state.current->0) <= 4,
{
    register::retries_come_to_an_end(state.current->0, failure, state.left.len() > 0);
}

/// Every way that is tried offers video exactly where the line does.
pub proof fn video_follows_the_line(
    state: RegisteringView,
    s: SnapshotView,
    failure: FailureView,
    at: Seq<char>,
)
    requires
        state.current is Some,
    ensures
        ({
            let step = state.failed(s, failure, at).2;
            step is Register ==> step->Register_0.policy.include_video_feature == state.video
        }),
{
}

} // verus!
