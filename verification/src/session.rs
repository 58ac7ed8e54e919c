//! A registered line: what the registrar gave it, how it is kept alive, and the
//! order in which it is taken down.

use vstd::prelude::*;
use vstd::string::*;

use crate::auth::{saturating, saturating_sum};
use crate::channel::ImsRoute;
use crate::connect::degraded;
use crate::errors::{failure, ErrorView, VolteError};
use crate::identity::{IdentityView, ImsIdentity};
use crate::register;
use crate::register::request::{
    register_request, register_request_uri_with_target, request_to, request_uri_of, IdsView,
    PartsView, RegisterParts, RegisterPhase, RegisterRequest, RegisterTarget, RequestIds,
    RequestView, TargetView,
};
use crate::register::{
    failure_error, RegisterFailure, RegisterRequestPolicy, VariantView, VolteInitialAuthorization,
    VolteRegisterVariant,
};
use crate::runtime::{SnapshotView, VoltePhase, VolteRuntime, VolteStage};
use crate::sip;
use crate::sip::{headers_of, items_of, requests, status_of, uri_of};
use crate::text;
use crate::text::{decimal, has_prefix, lower, opt, texts};

verus! {

// ---------------------------------------------------------------------------
// What the registrar gave.

/// The route that later requests take: all `Service-Route` values, in order.
pub open spec fn service_route_of(response: Seq<u8>) -> Option<Seq<char>> {
    let values = headers_of(response, "Service-Route"@);
    if values.len() == 0 {
        None
    } else {
        Some(crate::command::joined(values, ", "@))
    }
}

/// The route that later requests take.
pub fn register_service_route(response: &[u8]) -> (r: Option<String>)
    ensures
        opt(r) == service_route_of(response@),
{
    let values = sip::header_values(response, "Service-Route");
    proof {
        assert(texts(values@).len() == values@.len());
    }
    if values.len() == 0 {
        None
    } else {
        Some(crate::command::join(values.as_slice(), ", "))
    }
}

/// The scheme is one that a line can be addressed by.
pub open spec fn supported_uri(uri: Seq<char>) -> bool {
    has_prefix(lower(uri), "sip:"@) || has_prefix(lower(uri), "sips:"@) || has_prefix(
        lower(uri),
        "tel:"@,
    )
}

/// The identity that an item names.
pub open spec fn identity_in_item(item: Seq<char>) -> Option<Seq<char>> {
    match uri_of(item) {
        Some(uri) => if supported_uri(uri) {
            Some(uri)
        } else {
            None
        },
        None => None,
    }
}

/// The identities that items name, in order.
pub open spec fn identities_in(items: Seq<Seq<char>>) -> Seq<Seq<char>>
    decreases items.len(),
{
    if items.len() == 0 {
        Seq::empty()
    } else {
        let front = identities_in(items.drop_last());
        match identity_in_item(items.last()) {
            Some(uri) => front.push(uri),
            None => front,
        }
    }
}

/// The identities that the registrar returned, in order and across header lines.
pub open spec fn associated_of(response: Seq<u8>) -> Seq<Seq<char>> {
    identities_in(items_of(headers_of(response, "P-Associated-URI"@)))
}

/// The identity that the registrar put first.
pub open spec fn default_identity_of(response: Seq<u8>) -> Option<Seq<char>> {
    let all = associated_of(response);
    if all.len() == 0 {
        None
    } else {
        Some(all[0])
    }
}

fn is_supported_uri(uri: &str) -> (r: bool)
    ensures
        r == supported_uri(uri@),
{
    let folded = text::lower_case(uri);
    text::starts_with(folded.as_str(), "sip:") || text::starts_with(folded.as_str(), "sips:")
        || text::starts_with(folded.as_str(), "tel:")
}

/// The identities that the registrar returned.
pub fn register_associated_uris(response: &[u8]) -> (r: Vec<String>)
    ensures
        texts(r@) == associated_of(response@),
{
    let items = sip::header_items(response, "P-Associated-URI");
    let ghost all = texts(items@);
    let mut out: Vec<String> = Vec::new();
    let mut i: usize = 0;
    proof {
        assert(all.take(0) =~= Seq::<Seq<char>>::empty());
        assert(texts(out@) =~= Seq::<Seq<char>>::empty());
    }
    while i < items.len()
        invariant
            i <= items@.len(),
            all == texts(items@),
            texts(out@) == identities_in(all.take(i as int)),
        decreases items@.len() - i,
    {
        proof {
            assert(all.take(i as int + 1).drop_last() =~= all.take(i as int));
            assert(all.take(i as int + 1).last() == items@[i as int]@);
        }
        if let Some(uri) = sip::uri_in(items[i].as_str()) {
            if is_supported_uri(uri.as_str()) {
                let ghost before = out@;
                out.push(uri);
                proof {
                    assert(texts(out@) =~= texts(before).push(uri@));
                }
            }
        }
        i += 1;
    }
    proof {
        assert(all.take(all.len() as int) =~= all);
    }
    out
}

/// The identity that the registrar put first. It is the one that later requests are
/// made under.
pub fn register_associated_uri(response: &[u8]) -> (r: Option<String>)
    ensures
        opt(r) == default_identity_of(response@),
{
    let all = register_associated_uris(response);
    proof {
        assert(texts(all@).len() == all@.len());
    }
    if all.len() == 0 {
        None
    } else {
        proof {
            assert(texts(all@)[0] == all@[0]@);
        }
        Some(all[0].clone())
    }
}

/// A line as it is registered.
#[derive(Debug, PartialEq, Eq)]
pub struct RegisteredLine {
    pub identity: ImsIdentity,
    pub service_route: Option<String>,
    pub associated_uris: Vec<String>,
    /// The sequence number of the next REGISTER.
    pub next_register_cseq: u32,
}

pub struct LineView {
    pub identity: IdentityView,
    pub service_route: Option<Seq<char>>,
    pub associated_uris: Seq<Seq<char>>,
    pub next_register_cseq: u32,
}

impl View for RegisteredLine {
    type V = LineView;

    open spec fn view(&self) -> LineView {
        LineView {
            identity: self.identity@,
            service_route: opt(self.service_route),
            associated_uris: texts(self.associated_uris@),
            next_register_cseq: self.next_register_cseq,
        }
    }
}

/// The sequence number after a REGISTER and the challenges it met.
pub open spec fn cseq_after(cseq: u32, auth_rounds: u8) -> u32 {
    saturating(saturating(cseq, auth_rounds as int), 1)
}

/// The line after a REGISTER with this sequence number was answered.
pub open spec fn line_after(
    identity: IdentityView,
    cseq: u32,
    response: Seq<u8>,
    auth_rounds: u8,
) -> LineView {
    LineView {
        identity: match default_identity_of(response) {
            Some(uri) => IdentityView { public_uri: uri, ..identity },
            None => identity,
        },
        service_route: service_route_of(response),
        associated_uris: associated_of(response),
        next_register_cseq: cseq_after(cseq, auth_rounds),
    }
}

impl RegisteredLine {
    /// The line after its first REGISTER was answered.
    pub fn registered(identity: &ImsIdentity, cseq: u32, response: &[u8], auth_rounds: u8) -> (r:
        Self)
        ensures
            r@ == line_after(identity@, cseq, response@, auth_rounds),
    {
        let mut identity = identity.clone();
        if let Some(uri) = register_associated_uri(response) {
            identity.public_uri = uri;
        }
        RegisteredLine {
            identity,
            service_route: register_service_route(response),
            associated_uris: register_associated_uris(response),
            next_register_cseq: saturating_sum(saturating_sum(cseq, auth_rounds as u32), 1),
        }
    }

    /// The line after a REGISTER that refreshed it was answered.
    pub fn refreshed(&mut self, response: &[u8], auth_rounds: u8)
        ensures
            final(self)@ == line_after(
                old(self)@.identity,
                old(self)@.next_register_cseq,
                response@,
                auth_rounds,
            ),
    {
        let next = RegisteredLine::registered(
            &self.identity,
            self.next_register_cseq,
            response,
            auth_rounds,
        );
        *self = next;
    }

    /// What a REGISTER carries that refreshes or ends the registration: it asks for
    /// security agreement exactly where an association is in use.
    pub fn refresh_policy(policy: RegisterRequestPolicy, protected: bool) -> (r:
        RegisterRequestPolicy)
        ensures
            r == (RegisterRequestPolicy { require_sec_agree: protected, ..policy }),
    {
        RegisterRequestPolicy { require_sec_agree: protected, ..policy }
    }
}

/// The sequence numbers of REGISTER requests only go up, until they run out.
pub proof fn register_numbers_go_up(cseq: u32, auth_rounds: u8)
    ensures
        cseq_after(cseq, auth_rounds) >= cseq,
        cseq < u32::MAX ==> cseq_after(cseq, auth_rounds) > cseq,
        cseq + auth_rounds < u32::MAX ==> cseq_after(cseq, auth_rounds) == cseq + auth_rounds + 1,
{
}

/// A refresh changes no part of the identity but the public one, and that one only
/// where the registrar names another.
pub proof fn refresh_keeps_the_subscriber(
    identity: IdentityView,
    cseq: u32,
    response: Seq<u8>,
    auth_rounds: u8,
)
    ensures
        ({
            let after = line_after(identity, cseq, response, auth_rounds).identity;
            &&& after.private_user == identity.private_user
            &&& after.contact_user == identity.contact_user
            &&& after.home_domain == identity.home_domain
            &&& default_identity_of(response) is None ==> after == identity
            &&& default_identity_of(response) is Some ==> Some(after.public_uri)
                == default_identity_of(response)
        }),
{
}

// ---------------------------------------------------------------------------
// Refreshing the registration.

/// A refresh begins.
pub open spec fn refresh_begun(s: SnapshotView, family: Seq<char>, at: Seq<char>) -> SnapshotView {
    SnapshotView { stage: VolteStage::RegisterRefresh, ..s }.recorded(
        VolteStage::RegisterRefresh,
        Some(family),
        "started"@,
        None,
        None,
        at,
    )
}

/// Notes that a refresh begins.
pub fn note_refresh_begun(runtime: &mut VolteRuntime, family: &str, at: &str)
    ensures
        final(runtime).generation == old(runtime).generation,
        final(runtime).snapshot@ == refresh_begun(old(runtime).snapshot@, family@, at@),
{
    runtime.snapshot.stage = VolteStage::RegisterRefresh;
    runtime.record_attempt(
        VolteStage::RegisterRefresh,
        Some(family),
        "started",
        None,
        None,
        at,
    );
}

/// A refresh was answered.
pub open spec fn refresh_done(
    s: SnapshotView,
    family: Seq<char>,
    cseq: u32,
    at: Seq<char>,
) -> SnapshotView {
    let noted = s.recorded(
        VolteStage::RegisterRefresh,
        Some(family),
        "succeeded"@,
        None,
        Some("cseq="@ + decimal(cseq as nat)),
        at,
    );
    SnapshotView {
        phase: VoltePhase::Registered,
        stage: VolteStage::Registered,
        last_error: None,
        last_register_refresh_at: Some(at),
        last_tx_at: Some(at),
        register_refresh_count: if noted.register_refresh_count == u64::MAX {
            u64::MAX
        } else {
            (noted.register_refresh_count + 1) as u64
        },
        ..noted
    }
}

/// Notes that a refresh was answered.
pub fn note_refresh_done(runtime: &mut VolteRuntime, family: &str, cseq: u32, at: &str)
    ensures
        final(runtime).generation == old(runtime).generation,
        final(runtime).snapshot@ == refresh_done(old(runtime).snapshot@, family@, cseq, at@),
{
    let mut detail = "cseq=".to_string();
    let digits = text::decimal_string(cseq as u64);
    detail.append(digits.as_str());
    runtime.record_attempt(
        VolteStage::RegisterRefresh,
        Some(family),
        "succeeded",
        None,
        Some(detail),
        at,
    );
    runtime.snapshot.phase = VoltePhase::Registered;
    runtime.snapshot.stage = VolteStage::Registered;
    runtime.snapshot.last_error = None;
    runtime.snapshot.last_register_refresh_at = Some(at.to_string());
    runtime.snapshot.last_tx_at = Some(at.to_string());
    let count = runtime.snapshot.register_refresh_count;
    runtime.snapshot.register_refresh_count = if count == u64::MAX {
        u64::MAX
    } else {
        count + 1
    };
}

/// Notes that a refresh failed, and says why.
pub fn note_refresh_failed(
    runtime: &mut VolteRuntime,
    family: &str,
    failure: &RegisterFailure,
    at: &str,
) -> (r: VolteError)
    ensures
        r@ == failure_error(failure@),
        final(runtime).generation == old(runtime).generation,
        final(runtime).snapshot@ == old(runtime).snapshot@.recorded(
            VolteStage::RegisterRefresh,
            Some(family@),
            "failed"@,
            Some(failure_error(failure@)),
            None,
            at@,
        ),
{
    let error = register::map_register_failure(failure);
    runtime.record_attempt(
        VolteStage::RegisterRefresh,
        Some(family),
        "failed",
        Some(&error),
        None,
        at,
    );
    error
}

/// The registration is lost and the line has to connect anew.
pub open spec fn registration_lost(
    s: SnapshotView,
    reason: Seq<char>,
    error: ErrorView,
    at: Seq<char>,
) -> SnapshotView {
    let message = "volte_register_refresh_failed:"@ + reason + ":"@ + error.message();
    SnapshotView {
        reconnect_count: if s.reconnect_count == u64::MAX {
            u64::MAX
        } else {
            (s.reconnect_count + 1) as u64
        },
        ..degraded(s, message, at)
    }
}

/// Notes that the registration is lost.
pub fn note_registration_lost(
    runtime: &mut VolteRuntime,
    reason: &str,
    error: &VolteError,
    at: &str,
)
    ensures
        final(runtime).generation == old(runtime).generation,
        final(runtime).snapshot@ == registration_lost(
            old(runtime).snapshot@,
            reason@,
            error@,
            at@,
        ),
{
    let mut message = "volte_register_refresh_failed:".to_string();
    message.append(reason);
    message.append(":");
    let text = error.to_string();
    message.append(text.as_str());
    crate::connect::note_failure(runtime, message.as_str(), at);
    let count = runtime.snapshot.reconnect_count;
    runtime.snapshot.reconnect_count = if count == u64::MAX {
        u64::MAX
    } else {
        count + 1
    };
}

/// Whether the registration is to be ended at the registrar: it exists and has not
/// run out by itself.
pub fn unregister_due(registered: bool, age_seconds: u64, expires_seconds: u64) -> (r: bool)
    ensures
        r == (registered && age_seconds < expires_seconds),
{
    registered && age_seconds < expires_seconds
}

/// The authorization that a way to register begins with.
pub open spec fn initial_authorization(
    authorization: VolteInitialAuthorization,
    realm: Seq<char>,
    private_user: Seq<char>,
    request_uri: Seq<char>,
) -> Option<Seq<char>> {
    match authorization {
        VolteInitialAuthorization::UriFirstEmptyAka => Some(
            register::empty_aka_header(realm, private_user, request_uri),
        ),
        VolteInitialAuthorization::Absent => None,
    }
}

/// The REGISTER that refreshes a registration, or ends it: with the identifiers of
/// the first one and the next number. Protection that is in use is confirmed, and
/// none is offered anew.
pub open spec fn refresh_view(
    line: LineView,
    ids: IdsView,
    route: ImsRoute,
    variant: VariantView,
    target: TargetView,
    security_verify: Option<Seq<char>>,
    sip_instance: Seq<char>,
    expires_seconds: u32,
) -> RequestView {
    register_request(
        RegisterPhase::Refresh,
        target,
        line.identity,
        route,
        IdsView { cseq: line.next_register_cseq, ..ids },
        PartsView {
            expires_seconds,
            authorization: initial_authorization(
                variant.authorization,
                target.realm,
                line.identity.private_user,
                request_uri_of(target),
            ),
            security_client: None,
            security_verify,
            sip_instance,
            policy: RegisterRequestPolicy {
                require_sec_agree: security_verify is Some,
                ..variant.policy
            },
        },
    )
}

/// Puts the REGISTER that refreshes a registration together; with no time left to run
/// it ends it.
pub fn refresh_request(
    line: &RegisteredLine,
    ids: &RequestIds,
    route: &ImsRoute,
    variant: &VolteRegisterVariant,
    target: &RegisterTarget,
    security_verify: Option<String>,
    sip_instance: &str,
    expires_seconds: u32,
) -> (r: RegisterRequest)
    ensures
        r@ == refresh_view(
            line@,
            ids@,
            *route,
            variant@,
            target@,
            opt(security_verify),
            sip_instance@,
            expires_seconds,
        ),
{
    let policy = RegisteredLine::refresh_policy(variant.policy, security_verify.is_some());
    let request_uri = register_request_uri_with_target(target);
    let authorization = variant.authorization.build(
        target.realm.as_str(),
        line.identity.private_user.as_str(),
        request_uri.as_str(),
    );
    let parts = RegisterParts {
        expires_seconds,
        authorization,
        security_client: None,
        security_verify,
        sip_instance: sip_instance.to_string(),
        policy,
    };
    request_to(
        RegisterPhase::Refresh,
        target,
        &line.identity,
        *route,
        ids,
        line.next_register_cseq,
        parts,
    )
}

// ---------------------------------------------------------------------------
// The loop of a registered line.

/// How long a frame is waited for, in milliseconds.
pub const FRAME_WAIT_MS: u64 = 1000;

/// What a registered line does next.
#[derive(Debug, Clone, Copy, PartialEq, Eq, Structural)]
pub enum LoopStep {
    /// Leave the loop.
    Stop,
    /// Take the line down and leave the loop.
    CleanUp,
    /// Subscribe to the state of the mailbox.
    Subscribe,
    /// Refresh the registration.
    Refresh,
    /// Wait for a frame or a command.
    Wait,
}

/// Decides what a registered line does next. A teardown comes before everything, and
/// due work before new input.
pub fn loop_step(
    cancelled: bool,
    expiry_failed: bool,
    subscribe_due: bool,
    refresh_due: bool,
    has_session: bool,
) -> (r: LoopStep)
    ensures
        r == (if cancelled {
            LoopStep::Stop
        } else if expiry_failed {
            LoopStep::CleanUp
        } else if subscribe_due {
            LoopStep::Subscribe
        } else if !has_session {
            LoopStep::Stop
        } else if refresh_due {
            LoopStep::Refresh
        } else {
            LoopStep::Wait
        }),
{
    if cancelled {
        LoopStep::Stop
    } else if expiry_failed {
        LoopStep::CleanUp
    } else if subscribe_due {
        LoopStep::Subscribe
    } else if !has_session {
        LoopStep::Stop
    } else if refresh_due {
        LoopStep::Refresh
    } else {
        LoopStep::Wait
    }
}

/// Who a frame is handed to.
#[derive(Debug, Clone, Copy, PartialEq, Eq, Structural)]
pub enum FrameReader {
    /// The subscription to the mailbox.
    Mailbox,
    /// The calls.
    Calls,
    /// What is left: messages, stray requests and responses.
    Others,
}

/// Who a frame is handed to next: the mailbox first, then the calls, then the others,
/// until one of them has taken it.
pub fn next_reader(last: Option<FrameReader>, taken: bool) -> (r: Option<FrameReader>)
    ensures
        r == (match last {
            None => Some(FrameReader::Mailbox),
            Some(FrameReader::Mailbox) => if taken {
                None
            } else {
                Some(FrameReader::Calls)
            },
            Some(FrameReader::Calls) => if taken {
                None
            } else {
                Some(FrameReader::Others)
            },
            Some(FrameReader::Others) => None,
        }),
{
    match last {
        None => Some(FrameReader::Mailbox),
        Some(FrameReader::Mailbox) => if taken {
            None
        } else {
            Some(FrameReader::Calls)
        },
        Some(FrameReader::Calls) => if taken {
            None
        } else {
            Some(FrameReader::Others)
        },
        Some(FrameReader::Others) => None,
    }
}

/// What came in.
#[derive(Debug, Clone, Copy, PartialEq, Eq)]
pub enum LoopInput {
    /// A command of the operator's side.
    Command,
    /// Commands were missed.
    CommandsMissed,
    /// There will be no more commands.
    CommandsClosed,
    /// A frame.
    Frame,
    /// No frame, with the code of the channel's error.
    NoFrame(&'static str),
}

/// What to do with it.
#[derive(Debug, Clone, Copy, PartialEq, Eq, Structural)]
pub enum InputStep {
    HandleCommand,
    HandleFrame,
    Continue,
    Stop,
    /// Take the line down and leave the loop.
    CleanUp,
}

/// Takes what came in. A timeout is nothing; any other error of the channel ends the
/// session.
pub fn take_input(runtime: &mut VolteRuntime, input: LoopInput, at: &str) -> (r: InputStep)
    ensures
        final(runtime).generation == old(runtime).generation,
        match input {
            LoopInput::Command => r == InputStep::HandleCommand && final(runtime).snapshot@ == old(
                runtime,
            ).snapshot@,
            LoopInput::CommandsMissed => r == InputStep::Continue && final(runtime).snapshot@
                == old(runtime).snapshot@,
            LoopInput::CommandsClosed => r == InputStep::Stop && final(runtime).snapshot@ == old(
                runtime,
            ).snapshot@,
            LoopInput::Frame => r == InputStep::HandleFrame && final(runtime).snapshot@ == (
            SnapshotView { last_rx_at: Some(at@), ..old(runtime).snapshot@ }),
            LoopInput::NoFrame(reason) => if reason@ == "volte_channel_read_timeout"@ {
                r == InputStep::Continue && final(runtime).snapshot@ == old(runtime).snapshot@
            } else {
                r == InputStep::CleanUp && final(runtime).snapshot@ == degraded(
                    old(runtime).snapshot@,
                    reason@,
                    at@,
                )
            },
        },
{
    match input {
        LoopInput::Command => InputStep::HandleCommand,
        LoopInput::CommandsMissed => InputStep::Continue,
        LoopInput::CommandsClosed => InputStep::Stop,
        LoopInput::Frame => {
            runtime.snapshot.last_rx_at = Some(at.to_string());
            InputStep::HandleFrame
        },
        LoopInput::NoFrame(reason) => {
            if text::same(reason, "volte_channel_read_timeout") {
                return InputStep::Continue;
            }
            crate::connect::note_failure(runtime, reason, at);
            InputStep::CleanUp
        },
    }
}

/// A frame that belongs to no subscription and no call.
#[derive(Debug, Clone, Copy, PartialEq, Eq)]
pub enum OtherFrame {
    /// A message, to be taken in steps.
    Message,
    /// A response to something that is over.
    Ignore,
    /// A request: answer it.
    Answer { status: u16, reason: &'static str },
}

/// Decides what becomes of a frame that belongs to no subscription and no call. A
/// call that no one took is temporarily unavailable; any other request is accepted.
pub fn classify_other_frame(frame: &[u8]) -> (r: OtherFrame)
    ensures
        if requests(frame@, "MESSAGE"@) {
            r is Message
        } else if status_of(frame@) is Ok {
            r is Ignore
        } else if requests(frame@, "INVITE"@) {
            r is Answer && r->status == 480 && r->reason@ == "Temporarily Unavailable"@
        } else {
            r is Answer && r->status == 200 && r->reason@ == "OK"@
        },
{
    if sip::is_request(frame, "MESSAGE") {
        return OtherFrame::Message;
    }
    if sip::parse_status(frame).is_ok() {
        return OtherFrame::Ignore;
    }
    if sip::is_request(frame, "INVITE") {
        OtherFrame::Answer { status: 480, reason: "Temporarily Unavailable" }
    } else {
        OtherFrame::Answer { status: 200, reason: "OK" }
    }
}

/// What became of the last step of taking a message.
#[derive(Debug, Clone, Copy, PartialEq, Eq, Structural)]
pub enum MessageEvent {
    /// The message has come.
    Come,
    /// It was answered.
    Answered,
    /// What it carries was read, or cannot be.
    Read { readable: bool },
    /// What it carries was acknowledged.
    Acknowledged,
    /// It was put to the parts that had come before it; the text may be whole now.
    Joined { whole: bool },
    /// The text was stored.
    Stored,
}

/// What to do next with a message.
#[derive(Debug, PartialEq, Eq)]
pub enum MessageStep {
    /// Answer the request.
    Answer { status: u16, reason: &'static str },
    /// Read what it carries.
    Read,
    /// Acknowledge what it carries.
    Acknowledge,
    /// Put it to the parts that have come before it.
    Join,
    /// Store the text.
    Store,
    /// Nothing more.
    Done,
    Failed(VolteError),
}

/// Takes a message one step further. The request is answered, with 200, before anything
/// of it is read; what can be read is acknowledged before it is joined and stored.
pub fn message_step(event: MessageEvent) -> (r: MessageStep)
    ensures
        match event {
            MessageEvent::Come => r is Answer && r->status == 200 && r->reason@ == "OK"@,
            MessageEvent::Answered => r is Read,
            MessageEvent::Read { readable: true } => r is Acknowledge,
            MessageEvent::Read { readable: false } => r is Failed && r->Failed_0@ == failure(
                "volte_mt_rp_data_invalid"@,
            ),
            MessageEvent::Acknowledged => r is Join,
            MessageEvent::Joined { whole: true } => r is Store,
            MessageEvent::Joined { whole: false } => r is Done,
            MessageEvent::Stored => r is Done,
        },
{
    match event {
        MessageEvent::Come => MessageStep::Answer { status: 200, reason: "OK" },
        MessageEvent::Answered => MessageStep::Read,
        MessageEvent::Read { readable } => if readable {
            MessageStep::Acknowledge
        } else {
            MessageStep::Failed(VolteError::new("volte_mt_rp_data_invalid"))
        },
        MessageEvent::Acknowledged => MessageStep::Join,
        MessageEvent::Joined { whole } => if whole {
            MessageStep::Store
        } else {
            MessageStep::Done
        },
        MessageEvent::Stored => MessageStep::Done,
    }
}

// ---------------------------------------------------------------------------
// Taking a line down.

/// One step of taking a line down.
#[derive(Debug, Clone, Copy, PartialEq, Eq, Structural)]
pub enum CleanupStep {
    /// Remove the security association.
    RemoveSecurity,
    /// Remove the bearer's addresses and routes.
    RemoveNetwork,
    /// Release the bearer that was brought up beside ModemManager.
    ReleaseNative,
    /// Have ModemManager disconnect the bearer.
    Disconnect,
    /// Stop the reporting of P-CSCF addresses for a context.
    StopReporting { cid: u8 },
    /// Give the modem's profile back.
    ReleaseProfile,
    /// Tell the trunk that the line takes no calls.
    RefuseCalls,
    /// Forget the registration where the line's supplementary services are kept.
    ForgetRegistration,
    /// Release a bearer that was retained after an earlier failure.
    ReleaseRetained,
}

/// The steps that let go of what a session holds: protection first, then the network,
/// then the bearer, and what was set up on the modem last.
pub open spec fn takedown(
    secured: bool,
    native: bool,
    reporting: Option<u8>,
    leased: bool,
) -> Seq<CleanupStep> {
    (if secured {
        seq![CleanupStep::RemoveSecurity]
    } else {
        Seq::empty()
    }) + seq![
        CleanupStep::RemoveNetwork,
        if native {
            CleanupStep::ReleaseNative
        } else {
            CleanupStep::Disconnect
        },
    ] + profile_takedown(reporting, leased)
}

/// The steps that undo what was set up on the modem.
pub open spec fn profile_takedown(reporting: Option<u8>, leased: bool) -> Seq<CleanupStep> {
    (match reporting {
        Some(cid) => seq![CleanupStep::StopReporting { cid }],
        None => Seq::empty(),
    }) + (if leased {
        seq![CleanupStep::ReleaseProfile]
    } else {
        Seq::empty()
    })
}

/// The steps that undo what was set up on the modem.
pub fn profile_cleanup(reporting: Option<u8>, leased: bool) -> (r: Vec<CleanupStep>)
    ensures
        r@ == profile_takedown(reporting, leased),
{
    let mut steps: Vec<CleanupStep> = Vec::new();
    if let Some(cid) = reporting {
        steps.push(CleanupStep::StopReporting { cid });
    }
    if leased {
        steps.push(CleanupStep::ReleaseProfile);
    }
    proof {
        assert(steps@ =~= profile_takedown(reporting, leased));
    }
    steps
}

/// The steps that let go of what a session holds.
pub fn takedown_steps(secured: bool, native: bool, reporting: Option<u8>, leased: bool) -> (r:
    Vec<CleanupStep>)
    ensures
        r@ == takedown(secured, native, reporting, leased),
{
    let mut steps: Vec<CleanupStep> = Vec::new();
    if secured {
        steps.push(CleanupStep::RemoveSecurity);
    }
    steps.push(CleanupStep::RemoveNetwork);
    if native {
        steps.push(CleanupStep::ReleaseNative);
    } else {
        steps.push(CleanupStep::Disconnect);
    }
    let mut rest = profile_cleanup(reporting, leased);
    steps.append(&mut rest);
    proof {
        assert(steps@ =~= takedown(secured, native, reporting, leased));
    }
    steps
}

/// What a session holds.
#[derive(Debug, Clone, Copy, PartialEq, Eq, Structural)]
pub struct SessionHoldings {
    /// It is protected.
    pub secured: bool,
    /// Its bearer was brought up beside ModemManager.
    pub native: bool,
    /// The context that reporting was turned on for.
    pub reporting: Option<u8>,
    /// The modem's profile was activated for it.
    pub leased: bool,
}

/// The steps that take a line down. No call is taken from then on; the registration is
/// forgotten once the session is gone.
pub open spec fn closing(
    session: Option<SessionHoldings>,
    supplementary: bool,
    retained: bool,
) -> Seq<CleanupStep> {
    seq![CleanupStep::RefuseCalls] + (match session {
        Some(held) => takedown(held.secured, held.native, held.reporting, held.leased),
        None => Seq::empty(),
    }) + (if supplementary {
        seq![CleanupStep::ForgetRegistration]
    } else {
        Seq::empty()
    }) + (if retained {
        seq![CleanupStep::ReleaseRetained]
    } else {
        Seq::empty()
    })
}

/// The steps that take a line down, with or without a session.
pub fn cleanup_live_session(
    session: Option<SessionHoldings>,
    supplementary: bool,
    retained: bool,
) -> (r: Vec<CleanupStep>)
    ensures
        r@ == closing(session, supplementary, retained),
{
    let mut steps: Vec<CleanupStep> = Vec::new();
    steps.push(CleanupStep::RefuseCalls);
    if let Some(held) = session {
        let mut held = takedown_steps(held.secured, held.native, held.reporting, held.leased);
        steps.append(&mut held);
    }
    if supplementary {
        steps.push(CleanupStep::ForgetRegistration);
    }
    if retained {
        steps.push(CleanupStep::ReleaseRetained);
    }
    proof {
        assert(steps@ =~= closing(session, supplementary, retained));
    }
    steps
}

/// A bearer that was brought up beside ModemManager is released by who owns it and
/// never handed to ModemManager, and the other way round.
pub proof fn bearer_is_released_by_its_owner(
    secured: bool,
    native: bool,
    reporting: Option<u8>,
    leased: bool,
)
    ensures
        takedown(secured, native, reporting, leased).contains(CleanupStep::ReleaseNative) == native,
        takedown(secured, native, reporting, leased).contains(CleanupStep::Disconnect) == !native,
{
    let steps = takedown(secured, native, reporting, leased);
    let at: int = if secured {
        2
    } else {
        1
    };
    assert(steps[at] == (if native {
        CleanupStep::ReleaseNative
    } else {
        CleanupStep::Disconnect
    }));
    assert forall|i: int| 0 <= i < steps.len() && i != at implies steps[i]
        != CleanupStep::ReleaseNative && steps[i] != CleanupStep::Disconnect by {}
}

} // verus!
