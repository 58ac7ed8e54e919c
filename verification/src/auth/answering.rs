//! The steps of answering a challenge: the nonce is decoded, the card authenticates,
//! the association is set up where there is to be one, and the answer is written.

use vstd::prelude::*;
use vstd::slice::slice_to_vec;
use vstd::string::*;

use crate::auth::{
    answers, auth_plan, challenge_in, challenge_of, mode_of, parse_digest_challenge,
    parse_xcap_challenge, AuthPlan, AuthenticatedRequest, ChallengeView, DigestChallenge, PlanView,
    VolteRegisterAuthenticator,
};
use crate::carrier::CarrierProfile;
use crate::channel::ImsRoute;
use crate::errors::{ErrorView, VolteError};
use crate::identity::{IdentityView, ImsIdentity};
use crate::ip::{IpAddr, SocketAddr};
use crate::register;
use crate::register::request::{
    register_request, register_request_uri_with_target, request_to, request_uri_of, IdsView,
    PartsView, RegisterParts, RegisterPhase, RegisterRequest, RequestIds, RequestView, TargetView,
};
use crate::register::ImsError;
use crate::runtime::{RegistrationMode, SnapshotView, VolteRuntime, VolteStage};
use crate::security::SecAgree;
use crate::sip::headers_of;
use crate::text::opt;

verus! {

/// How often a nonce was used: each answer is the first.
pub const NONCE_COUNT: &'static str = "00000001";

/// The method of the request that carries the answer.
pub const REGISTER_METHOD: &'static str = "REGISTER";

/// What the header that answers a challenge is computed from, besides the challenge
/// and what the card returned.
#[derive(Debug, PartialEq, Eq)]
pub struct Signature {
    pub username: String,
    /// The method and the URI of the request that carries the answer.
    pub method: String,
    pub uri: String,
    /// The card's own counter, where the card is out of step.
    pub auts: Option<Vec<u8>>,
    /// How often the nonce was used, where the answer says so.
    pub count: Option<&'static str>,
}

pub struct SignatureView {
    pub username: Seq<char>,
    pub method: Seq<char>,
    pub uri: Seq<char>,
    pub auts: Option<Seq<u8>>,
    pub count: Option<Seq<char>>,
}

impl View for Signature {
    type V = SignatureView;

    open spec fn view(&self) -> SignatureView {
        SignatureView {
            username: self.username@,
            method: self.method@,
            uri: self.uri@,
            auts: opt_bytes(self.auts),
            count: opt_name(self.count),
        }
    }
}

/// What to do next for an answer.
#[derive(Debug, PartialEq, Eq)]
pub enum AnswerStep {
    /// Run the authentication on the card.
    Authenticate,
    /// Set the association up in the kernel, with the keys of the card.
    Install { local: IpAddr, remote: IpAddr, offer: SecAgree, server: SecAgree, verify: String },
    /// Move the channel onto the association.
    Activate {
        send_route: ImsRoute,
        receive_local: SocketAddr,
        receive_remote: SocketAddr,
        verify: String,
    },
    /// Take the association out of the kernel; the error is what came of the answer.
    Remove(ImsError),
    /// Write the answer.
    Sign(Signature),
    /// The answer is ready.
    Ready,
    Failed(ImsError),
}

pub enum AnswerStepView {
    Authenticate,
    Install { local: IpAddr, remote: IpAddr, offer: SecAgree, server: SecAgree, verify: Seq<char> },
    Activate {
        send_route: ImsRoute,
        receive_local: SocketAddr,
        receive_remote: SocketAddr,
        verify: Seq<char>,
    },
    Remove(Seq<char>),
    Sign(SignatureView),
    Ready,
    Failed(Seq<char>),
}

pub open spec fn opt_bytes(value: Option<Vec<u8>>) -> Option<Seq<u8>> {
    match value {
        Some(bytes) => Some(bytes@),
        None => None,
    }
}

pub open spec fn opt_name(value: Option<&'static str>) -> Option<Seq<char>> {
    match value {
        Some(name) => Some(name@),
        None => None,
    }
}

impl View for AnswerStep {
    type V = AnswerStepView;

    open spec fn view(&self) -> AnswerStepView {
        match *self {
            AnswerStep::Authenticate => AnswerStepView::Authenticate,
            AnswerStep::Install { local, remote, offer, server, verify } => {
                AnswerStepView::Install { local, remote, offer, server, verify: verify@ }
            },
            AnswerStep::Activate { send_route, receive_local, receive_remote, verify } => {
                AnswerStepView::Activate {
                    send_route,
                    receive_local,
                    receive_remote,
                    verify: verify@,
                }
            },
            AnswerStep::Remove(error) => AnswerStepView::Remove(error.code@),
            AnswerStep::Sign(signature) => AnswerStepView::Sign(signature@),
            AnswerStep::Ready => AnswerStepView::Ready,
            AnswerStep::Failed(error) => AnswerStepView::Failed(error.code@),
        }
    }
}

/// An answer in the making.
#[derive(Debug, PartialEq, Eq)]
pub struct Answering {
    pub challenge: DigestChallenge,
    /// The response that holds the challenge.
    pub frame: Vec<u8>,
    /// How the line protects what follows, once that is known.
    pub plan: Option<AuthPlan>,
    /// The channel runs on an association that was set up for the answer.
    pub held: bool,
}

/// What the answer of a REGISTER is computed from: the subscriber, and the very URI that
/// the request asks for. A card that is out of step gives its own counter, and then
/// the answer counts nothing.
pub open spec fn register_signature(
    authenticator: VolteRegisterAuthenticator,
    auts: Option<Seq<u8>>,
) -> AnswerStepView {
    AnswerStepView::Sign(
        SignatureView {
            username: authenticator.username@,
            method: REGISTER_METHOD@,
            uri: request_uri_of(authenticator.target@),
            auts,
            count: if auts is Some {
                None
            } else {
                Some(NONCE_COUNT@)
            },
        },
    )
}

/// What follows the card's own part, given the plan for it.
pub open spec fn planned(
    authenticator: VolteRegisterAuthenticator,
    plan: PlanView,
    auts: Option<Seq<u8>>,
    route: ImsRoute,
) -> AnswerStepView {
    match plan {
        PlanView::Resynchronize { .. } => register_signature(authenticator, auts),
        PlanView::Reuse { .. } => register_signature(authenticator, None),
        PlanView::Protect { server, verify, .. } => AnswerStepView::Install {
            local: route.local_addr.ip,
            remote: route.pcscf_addr.ip,
            offer: authenticator.offered_security_binding,
            server,
            verify,
        },
        PlanView::Plain => register_signature(authenticator, None),
        PlanView::Refuse(code) => AnswerStepView::Failed(code),
    }
}

/// The mode that is set before the answer is written: an association counts only once
/// the channel runs on it.
pub open spec fn planned_mode(plan: PlanView, before: RegistrationMode) -> RegistrationMode {
    if plan is Protect {
        before
    } else {
        mode_of(plan, before)
    }
}

/// Where the channel is moved to.
pub open spec fn activation(plan: PlanView) -> AnswerStepView {
    AnswerStepView::Activate {
        send_route: plan->send_route,
        receive_local: plan->receive_local,
        receive_remote: plan->receive_remote,
        verify: plan->Protect_verify,
    }
}

/// What follows the attempt to move the channel.
pub open spec fn activated_step(
    authenticator: VolteRegisterAuthenticator,
    refused: Option<Seq<char>>,
) -> AnswerStepView {
    match refused {
        Some(code) => AnswerStepView::Remove(code),
        None => register_signature(authenticator, None),
    }
}

pub open spec fn staged(s: SnapshotView, stage: VolteStage) -> SnapshotView {
    SnapshotView { stage, ..s }
}

impl Answering {
    /// Reads the challenge. The next step is to decode its nonce.
    pub fn begin(runtime: &mut VolteRuntime, frame: &[u8]) -> (r: Result<Self, ImsError>)
        ensures
            final(runtime).generation == old(runtime).generation,
            final(runtime).snapshot@ == staged(old(runtime).snapshot@, VolteStage::IdentityAka),
            match r {
                Ok(state) => challenge_of(frame@) == Ok::<ChallengeView, ErrorView>(
                    state.challenge@,
                ) && state.frame@ == frame@ && state.plan is None && !state.held,
                Err(error) => challenge_of(frame@) is Err && error.code@ == challenge_of(
                    frame@,
                )->Err_0.code,
            },
    {
        runtime.snapshot.stage = VolteStage::IdentityAka;
        match parse_digest_challenge(frame) {
            Ok(challenge) => Ok(
                Answering { challenge, frame: slice_to_vec(frame), plan: None, held: false },
            ),
            Err(error) => Err(register::to_ims_error(&error)),
        }
    }

    /// The nonce was decoded, or holds no challenge for the card.
    pub fn nonce_decoded(&self, outcome: Result<(), VolteError>) -> (r: AnswerStep)
        ensures
            r@ == match outcome {
                Ok(_) => AnswerStepView::Authenticate,
                Err(error) => AnswerStepView::Failed(error@.code),
            },
    {
        match outcome {
            Ok(_) => AnswerStep::Authenticate,
            Err(error) => AnswerStep::Failed(register::to_ims_error(&error)),
        }
    }

    /// The card authenticated, with its own counter where it is out of step.
    pub fn card_answered(
        &mut self,
        authenticator: &mut VolteRegisterAuthenticator,
        runtime: &mut VolteRuntime,
        profile: &CarrierProfile,
        verify_in_use: Option<&str>,
        route: ImsRoute,
        outcome: Result<Option<Vec<u8>>, VolteError>,
    ) -> (r: AnswerStep)
        ensures
            final(runtime).generation == old(runtime).generation,
            match outcome {
                Err(error) => r@ == AnswerStepView::Failed(error@.code) && *final(self) == *old(
                    self,
                ) && *final(authenticator) == *old(authenticator) && *final(runtime) == *old(
                    runtime,
                ),
                Ok(auts) => {
                    let plan = auth_plan(
                        *profile,
                        headers_of(old(self).frame@, "Security-Server"@),
                        auts is Some,
                        old(authenticator).reuse_security,
                        match verify_in_use {
                            Some(verify) => Some(verify@),
                            None => None,
                        },
                        route,
                        old(authenticator).offered_security_binding,
                        old(authenticator).offered_security@,
                    );
                    &&& final(self).plan is Some
                    &&& final(self).plan->0@ == plan
                    &&& *final(self) == (Answering { plan: final(self).plan, ..*old(self) })
                    &&& *final(authenticator) == (VolteRegisterAuthenticator {
                        mode: planned_mode(plan, old(authenticator).mode),
                        ..*old(authenticator)
                    })
                    &&& final(runtime).snapshot@ == (if plan is Protect {
                        staged(old(runtime).snapshot@, VolteStage::Ipsec)
                    } else {
                        old(runtime).snapshot@
                    })
                    &&& r@ == planned(*old(authenticator), plan, opt_bytes(auts), route)
                },
            },
    {
        let auts = match outcome {
            Ok(auts) => auts,
            Err(error) => return AnswerStep::Failed(register::to_ims_error(&error)),
        };
        let plan = authenticator.plan(
            profile,
            self.frame.as_slice(),
            auts.is_some(),
            verify_in_use,
            route,
        );
        let step = match &plan {
            AuthPlan::Resynchronize { .. } => authenticator.sign(auts),
            AuthPlan::Reuse { security_verify } => {
                authenticator.mode = if security_verify.is_some() {
                    RegistrationMode::Ipsec
                } else {
                    RegistrationMode::Udp
                };
                authenticator.sign(None)
            },
            AuthPlan::Protect { server, verify, .. } => {
                runtime.snapshot.stage = VolteStage::Ipsec;
                AnswerStep::Install {
                    local: route.local_addr.ip,
                    remote: route.pcscf_addr.ip,
                    offer: authenticator.offered_security_binding,
                    server: *server,
                    verify: verify.clone(),
                }
            },
            AuthPlan::Plain => {
                authenticator.mode = RegistrationMode::Udp;
                authenticator.sign(None)
            },
            AuthPlan::Refuse(error) => AnswerStep::Failed(*error),
        };
        self.plan = Some(plan);
        step
    }

    /// The association was set up in the kernel, or could not be.
    pub fn installed(&self, outcome: Result<(), VolteError>) -> (r: AnswerStep)
        requires
            self.plan is Some,
            self.plan->0 is Protect,
        ensures
            r@ == match outcome {
                Ok(_) => activation(self.plan->0@),
                Err(error) => AnswerStepView::Failed(error@.code),
            },
    {
        match (outcome, &self.plan) {
            (Err(error), _) => AnswerStep::Failed(register::to_ims_error(&error)),
            (
                Ok(_),
                Some(AuthPlan::Protect { send_route, receive_local, receive_remote, verify, .. }),
            ) => AnswerStep::Activate {
                send_route: *send_route,
                receive_local: *receive_local,
                receive_remote: *receive_remote,
                verify: verify.clone(),
            },
            (Ok(_), _) => AnswerStep::Ready,
        }
    }

    /// The channel was moved onto the association, or could not be.
    pub fn activated(
        &mut self,
        authenticator: &mut VolteRegisterAuthenticator,
        outcome: Result<(), ImsError>,
    ) -> (r: AnswerStep)
        requires
            old(self).plan is Some,
            old(self).plan->0 is Protect,
        ensures
            r@ == activated_step(
                *old(authenticator),
                match outcome {
                    Ok(_) => None,
                    Err(error) => Some(error.code@),
                },
            ),
            *final(self) == (Answering { held: outcome is Ok || old(self).held, ..*old(self) }),
            *final(authenticator) == (VolteRegisterAuthenticator {
                mode: if outcome is Ok {
                    RegistrationMode::Ipsec
                } else {
                    old(authenticator).mode
                },
                ..*old(authenticator)
            }),
    {
        match outcome {
            Err(error) => AnswerStep::Remove(error),
            Ok(_) => {
                self.held = true;
                authenticator.mode = RegistrationMode::Ipsec;
                authenticator.sign(None)
            },
        }
    }

    /// The answer was written, or could not be. It is kept for the next request.
    pub fn signed(
        &mut self,
        authenticator: &mut VolteRegisterAuthenticator,
        outcome: Result<String, VolteError>,
    ) -> (r: AnswerStep)
        requires
            old(self).plan is Some,
            !(old(self).plan->0 is Refuse),
        ensures
            match outcome {
                Err(error) => r@ == AnswerStepView::Failed(error@.code) && *final(self) == *old(
                    self,
                ) && *final(authenticator) == *old(authenticator),
                Ok(authorization) => {
                    &&& r@ == AnswerStepView::Ready
                    &&& *final(self) == (Answering { plan: None, ..*old(self) })
                    &&& *final(authenticator) == (VolteRegisterAuthenticator {
                        mode: mode_of(old(self).plan->0@, old(authenticator).mode),
                        pending: final(authenticator).pending,
                        ..*old(authenticator)
                    })
                    &&& final(authenticator).pending is Some
                    &&& answers(
                        final(authenticator).pending->0,
                        old(self).plan->0@,
                        authorization@,
                    )
                },
            },
    {
        let authorization = match outcome {
            Ok(authorization) => authorization,
            Err(error) => return AnswerStep::Failed(register::to_ims_error(&error)),
        };
        let mut plan: Option<AuthPlan> = None;
        core::mem::swap(&mut self.plan, &mut plan);
        match plan {
            Some(plan) => match authenticator.prepare(plan, authorization) {
                Ok(_) => AnswerStep::Ready,
                Err(error) => AnswerStep::Failed(error),
            },
            None => AnswerStep::Ready,
        }
    }
}

/// The REGISTER that carries an answer: with the identifiers of the first one, the
/// number that follows from the round, and the protection that was agreed on.
pub open spec fn authenticated_view(
    target: TargetView,
    identity: IdentityView,
    route: ImsRoute,
    ids: IdsView,
    request: AuthenticatedRequest,
    sip_instance: Seq<char>,
) -> RequestView {
    register_request(
        RegisterPhase::Authenticated,
        target,
        identity,
        route,
        IdsView { cseq: request.cseq, ..ids },
        PartsView {
            expires_seconds: request.expires_seconds,
            authorization: Some(request.prepared.authorization@),
            security_client: opt(request.prepared.security_client),
            security_verify: opt(request.prepared.security_verify),
            sip_instance,
            policy: request.policy,
        },
    )
}

impl VolteRegisterAuthenticator {
    fn sign(&self, auts: Option<Vec<u8>>) -> (r: AnswerStep)
        ensures
            r@ == register_signature(*self, opt_bytes(auts)),
    {
        let count = if auts.is_some() {
            None
        } else {
            Some(NONCE_COUNT)
        };
        AnswerStep::Sign(
            Signature {
                username: self.username.clone(),
                method: REGISTER_METHOD.to_string(),
                uri: register_request_uri_with_target(&self.target),
                auts,
                count,
            },
        )
    }

    /// Puts the REGISTER that answers the `round`-th challenge together. The answer is
    /// used up, and a second request wants a second answer.
    pub fn build_authenticated_request(
        &mut self,
        runtime: &mut VolteRuntime,
        identity: &ImsIdentity,
        route: &ImsRoute,
        ids: &RequestIds,
        sip_instance: &str,
        round: u32,
    ) -> (r: Result<RegisterRequest, ImsError>)
        ensures
            final(runtime).generation == old(runtime).generation,
            final(runtime).snapshot@ == staged(
                old(runtime).snapshot@,
                VolteStage::RegisterAuthenticated,
            ),
            *final(self) == (VolteRegisterAuthenticator { pending: None, ..*old(self) }),
            match r {
                Ok(built) => old(self).pending is Some && built@ == authenticated_view(
                    old(self).target@,
                    identity@,
                    *route,
                    ids@,
                    old(self).request_of(round),
                    sip_instance@,
                ),
                Err(error) => old(self).pending is None && error.code@
                    == "volte_register_auth_not_prepared"@,
            },
    {
        runtime.snapshot.stage = VolteStage::RegisterAuthenticated;
        let request = match self.authenticated_request(round) {
            Ok(request) => request,
            Err(error) => return Err(error),
        };
        let parts = RegisterParts {
            expires_seconds: request.expires_seconds,
            authorization: Some(request.prepared.authorization),
            security_client: request.prepared.security_client,
            security_verify: request.prepared.security_verify,
            sip_instance: sip_instance.to_string(),
            policy: request.policy,
        };
        Ok(
            request_to(
                RegisterPhase::Authenticated,
                &self.target,
                identity,
                *route,
                ids,
                request.cseq,
                parts,
            ),
        )
    }
}

// ---------------------------------------------------------------------------
// Challenges outside registration.

/// How often the nonce was used, as an answer outside registration says it. The one
/// of a card that is out of step says it only where the challenge names a quality of
/// protection.
pub open spec fn counted(challenge: ChallengeView, out_of_step: bool) -> Option<Seq<char>> {
    if !out_of_step || challenge.qop is Some {
        Some(NONCE_COUNT@)
    } else {
        None
    }
}

/// How often the nonce was used, as an answer outside registration says it.
pub fn answer_count(challenge: &DigestChallenge, out_of_step: bool) -> (r: Option<&'static str>)
    ensures
        opt_name(r) == counted(challenge@, out_of_step),
{
    if !out_of_step || challenge.qop.is_some() {
        Some(NONCE_COUNT)
    } else {
        None
    }
}

/// What to do next for an answer to a server for the line's settings.
#[derive(Debug, PartialEq, Eq)]
pub enum XcapStep {
    /// Run the authentication on the card.
    Authenticate,
    /// Write the answer.
    Sign(Signature),
    Failed(ImsError),
}

pub enum XcapStepView {
    Authenticate,
    Sign(SignatureView),
    Failed(Seq<char>),
}

impl View for XcapStep {
    type V = XcapStepView;

    open spec fn view(&self) -> XcapStepView {
        match *self {
            XcapStep::Authenticate => XcapStepView::Authenticate,
            XcapStep::Sign(signature) => XcapStepView::Sign(signature@),
            XcapStep::Failed(error) => XcapStepView::Failed(error.code@),
        }
    }
}

/// An answer to a server for the line's settings.
#[derive(Debug, PartialEq, Eq)]
pub struct XcapAnswering {
    pub challenge: DigestChallenge,
    pub username: String,
    /// The request that was challenged.
    pub method: String,
    pub uri: String,
}

/// What an answer outside registration is computed from.
pub open spec fn counted_signature(
    username: Seq<char>,
    method: Seq<char>,
    uri: Seq<char>,
    challenge: ChallengeView,
    auts: Option<Seq<u8>>,
) -> SignatureView {
    SignatureView { username, method, uri, auts, count: counted(challenge, auts is Some) }
}

/// What an answer outside registration is computed from.
pub fn sign_counted(
    username: &str,
    method: &str,
    uri: &str,
    challenge: &DigestChallenge,
    auts: Option<Vec<u8>>,
) -> (r: Signature)
    ensures
        r@ == counted_signature(username@, method@, uri@, challenge@, opt_bytes(auts)),
{
    let count = answer_count(challenge, auts.is_some());
    Signature {
        username: username.to_string(),
        method: method.to_string(),
        uri: uri.to_string(),
        auts,
        count,
    }
}

impl XcapAnswering {
    /// Reads the challenge. The next step is to decode its nonce.
    pub fn begin(value: &str, proxy: bool, username: &str, method: &str, uri: &str) -> (r: Result<
        Self,
        ImsError,
    >)
        ensures
            match r {
                Ok(state) => challenge_in(value@, proxy) == Ok::<ChallengeView, ErrorView>(
                    state.challenge@,
                ) && state.username@ == username@ && state.method@ == method@ && state.uri@ == uri@,
                Err(error) => challenge_in(value@, proxy) is Err && error.code@
                    == "ut_xcap_challenge_invalid"@,
            },
    {
        match parse_xcap_challenge(value, proxy) {
            Ok(challenge) => Ok(
                XcapAnswering {
                    challenge,
                    username: username.to_string(),
                    method: method.to_string(),
                    uri: uri.to_string(),
                },
            ),
            Err(error) => Err(error),
        }
    }

    /// The nonce was decoded, or holds no challenge for the card.
    pub fn nonce_decoded(&self, decoded: bool) -> (r: XcapStep)
        ensures
            r@ == if decoded {
                XcapStepView::Authenticate
            } else {
                XcapStepView::Failed("ut_xcap_challenge_invalid"@)
            },
    {
        if decoded {
            XcapStep::Authenticate
        } else {
            XcapStep::Failed(ImsError::new("ut_xcap_challenge_invalid"))
        }
    }

    /// The card authenticated, with its own counter where it is out of step, or did
    /// not.
    pub fn card_answered(&self, outcome: Result<Option<Vec<u8>>, VolteError>) -> (r: XcapStep)
        ensures
            r@ == match outcome {
                Err(_) => XcapStepView::Failed("ut_xcap_aka_failed"@),
                Ok(auts) => XcapStepView::Sign(
                    counted_signature(
                        self.username@,
                        self.method@,
                        self.uri@,
                        self.challenge@,
                        opt_bytes(auts),
                    ),
                ),
            },
    {
        match outcome {
            Err(_) => XcapStep::Failed(ImsError::new("ut_xcap_aka_failed")),
            Ok(auts) => XcapStep::Sign(
                sign_counted(
                    self.username.as_str(),
                    self.method.as_str(),
                    self.uri.as_str(),
                    &self.challenge,
                    auts,
                ),
            ),
        }
    }

    /// The answer was written, or could not be.
    pub fn signed(&self, outcome: Result<String, VolteError>) -> (r: Result<String, ImsError>)
        ensures
            match outcome {
                Ok(authorization) => r is Ok && r->Ok_0@ == authorization@,
                Err(_) => r is Err && r->Err_0.code@ == "ut_xcap_aka_failed"@,
            },
    {
        match outcome {
            Ok(authorization) => Ok(authorization),
            Err(_) => Err(ImsError::new("ut_xcap_aka_failed")),
        }
    }
}

// ---------------------------------------------------------------------------
// What holds of every answer.

/// Nothing is sent over a channel that could not be moved onto its association: the
/// association leaves the kernel, and the answer fails with the channel's error.
pub proof fn failed_activation_is_undone(
    authenticator: VolteRegisterAuthenticator,
    refused: Option<Seq<char>>,
)
    ensures
        refused is Some ==> activated_step(authenticator, refused) == AnswerStepView::Remove(
            refused->0,
        ),
        refused is None ==> activated_step(authenticator, refused) is Sign,
{
}

/// A card that is out of step is answered at once: no association is set up for it,
/// nothing is mirrored back, and the mode of the registration stays open.
pub proof fn resynchronization_sets_nothing_up(
    authenticator: VolteRegisterAuthenticator,
    profile: CarrierProfile,
    servers: Seq<Seq<char>>,
    verify_in_use: Option<Seq<char>>,
    route: ImsRoute,
    auts: Seq<u8>,
)
    ensures
        ({
            let plan = auth_plan(
                profile,
                servers,
                true,
                authenticator.reuse_security,
                verify_in_use,
                route,
                authenticator.offered_security_binding,
                authenticator.offered_security@,
            );
            planned(authenticator, plan, Some(auts), route) == register_signature(
                authenticator,
                Some(auts),
            ) && mode_of(plan, authenticator.mode) == authenticator.mode
        }),
{
}

/// A refresh goes on with the association in use: none is set up for it, whatever the
/// registrar offers, and none is refused.
pub proof fn refresh_sets_nothing_up(
    authenticator: VolteRegisterAuthenticator,
    profile: CarrierProfile,
    servers: Seq<Seq<char>>,
    verify_in_use: Option<Seq<char>>,
    route: ImsRoute,
)
    requires
        authenticator.reuse_security,
    ensures
        planned(
            authenticator,
            auth_plan(
                profile,
                servers,
                false,
                authenticator.reuse_security,
                verify_in_use,
                route,
                authenticator.offered_security_binding,
                authenticator.offered_security@,
            ),
            None,
            route,
        ) == register_signature(authenticator, None),
{
}

/// An answer is computed for the very URI that its request asks for.
pub proof fn answer_fits_its_request(
    authenticator: VolteRegisterAuthenticator,
    auts: Option<Seq<u8>>,
    identity: IdentityView,
    route: ImsRoute,
    ids: IdsView,
    request: AuthenticatedRequest,
    sip_instance: Seq<char>,
)
    ensures
        ({
            let step = register_signature(authenticator, auts);
            step is Sign && step->Sign_0.uri == authenticated_view(
                authenticator.target@,
                identity,
                route,
                ids,
                request,
                sip_instance,
            ).request_uri
        }),
{
}

} // verus!
