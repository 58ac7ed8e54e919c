//! What a change of a call asks its owner to do.

use vstd::prelude::*;

use crate::calls::media::{activations, ActivationView, RelayActivation};
use crate::calls::table::CallMap;
use crate::calls::{CallView, DialogIds, DialogView, LiveVoiceCall};
use crate::errors::{failure, ErrorView, VolteError};
use crate::text::opt;

verus! {

/// A SIP message to put together and send.
#[derive(Debug, PartialEq, Eq)]
pub enum OutboundSip {
    Response {
        request: Vec<u8>,
        status: u16,
        reason: &'static str,
        local_tag: Option<String>,
        contact: Option<String>,
        answer: Option<String>,
    },
    Reinvite { dialog: DialogIds, target: String, body: String },
    Ack { dialog: DialogIds, target: String },
    Bye { dialog: DialogIds, target: String, cseq: u32 },
    Cancel { dialog: DialogIds, target: String, branch: String },
    Prack { dialog: DialogIds, target: String, cseq: u32, rseq: u32, invite_cseq: u32 },
    Info { dialog: DialogIds, target: String, cseq: u32, digit: char, duration_ms: u32 },
    Refer { dialog: DialogIds, target: String, to_value: String, cseq: u32, refer_to: String },
}

pub enum SipView {
    Response {
        request: Seq<u8>,
        status: u16,
        reason: Seq<char>,
        local_tag: Option<Seq<char>>,
        contact: Option<Seq<char>>,
        answer: Option<Seq<char>>,
    },
    Reinvite { dialog: DialogView, target: Seq<char>, body: Seq<char> },
    Ack { dialog: DialogView, target: Seq<char> },
    Bye { dialog: DialogView, target: Seq<char>, cseq: u32 },
    Cancel { dialog: DialogView, target: Seq<char>, branch: Seq<char> },
    Prack { dialog: DialogView, target: Seq<char>, cseq: u32, rseq: u32, invite_cseq: u32 },
    Info { dialog: DialogView, target: Seq<char>, cseq: u32, digit: char, duration_ms: u32 },
    Refer {
        dialog: DialogView,
        target: Seq<char>,
        to_value: Seq<char>,
        cseq: u32,
        refer_to: Seq<char>,
    },
}

impl View for OutboundSip {
    type V = SipView;

    open spec fn view(&self) -> SipView {
        match *self {
            OutboundSip::Response { request, status, reason, local_tag, contact, answer } =>
                SipView::Response {
                    request: request@,
                    status,
                    reason: reason@,
                    local_tag: opt(local_tag),
                    contact: opt(contact),
                    answer: opt(answer),
                },
            OutboundSip::Reinvite { dialog, target, body } => SipView::Reinvite {
                dialog: dialog@,
                target: target@,
                body: body@,
            },
            OutboundSip::Ack { dialog, target } => SipView::Ack {
                dialog: dialog@,
                target: target@,
            },
            OutboundSip::Bye { dialog, target, cseq } => SipView::Bye {
                dialog: dialog@,
                target: target@,
                cseq,
            },
            OutboundSip::Cancel { dialog, target, branch } => SipView::Cancel {
                dialog: dialog@,
                target: target@,
                branch: branch@,
            },
            OutboundSip::Prack { dialog, target, cseq, rseq, invite_cseq } => SipView::Prack {
                dialog: dialog@,
                target: target@,
                cseq,
                rseq,
                invite_cseq,
            },
            OutboundSip::Info { dialog, target, cseq, digit, duration_ms } => SipView::Info {
                dialog: dialog@,
                target: target@,
                cseq,
                digit,
                duration_ms,
            },
            OutboundSip::Refer { dialog, target, to_value, cseq, refer_to } => SipView::Refer {
                dialog: dialog@,
                target: target@,
                to_value: to_value@,
                cseq,
                refer_to: refer_to@,
            },
        }
    }
}

/// A keypress.
#[derive(Debug, Clone, Copy, PartialEq, Eq, Structural)]
pub struct DtmfSignal {
    pub digit: char,
    pub duration_ms: u32,
}

/// What the trunk is told of a call.
#[derive(Debug, PartialEq, Eq)]
pub enum OperatorEvent {
    Incoming { call_id: String, caller: String, body: String },
    Provisional { call_id: String, status: u16, answer: Option<String> },
    Answered { call_id: String, body: String },
    Rejected { call_id: String, status: u16 },
    Unavailable { call_id: String },
    Cancelled { call_id: String },
    Ended { call_id: String },
    Renegotiate { call_id: String, body: String },
    Dtmf { call_id: String, signal: DtmfSignal },
    TransferResponse { call_id: String, status: u16 },
    TransferNotify { call_id: String },
}

pub enum EventView {
    Incoming { call_id: Seq<char>, caller: Seq<char>, body: Seq<char> },
    Provisional { call_id: Seq<char>, status: u16, answer: Option<Seq<char>> },
    Answered { call_id: Seq<char>, body: Seq<char> },
    Rejected { call_id: Seq<char>, status: u16 },
    Unavailable { call_id: Seq<char> },
    Cancelled { call_id: Seq<char> },
    Ended { call_id: Seq<char> },
    Renegotiate { call_id: Seq<char>, body: Seq<char> },
    Dtmf { call_id: Seq<char>, signal: DtmfSignal },
    TransferResponse { call_id: Seq<char>, status: u16 },
    TransferNotify { call_id: Seq<char> },
}

impl View for OperatorEvent {
    type V = EventView;

    open spec fn view(&self) -> EventView {
        match *self {
            OperatorEvent::Incoming { call_id, caller, body } => EventView::Incoming {
                call_id: call_id@,
                caller: caller@,
                body: body@,
            },
            OperatorEvent::Provisional { call_id, status, answer } => EventView::Provisional {
                call_id: call_id@,
                status,
                answer: opt(answer),
            },
            OperatorEvent::Answered { call_id, body } => EventView::Answered {
                call_id: call_id@,
                body: body@,
            },
            OperatorEvent::Rejected { call_id, status } => EventView::Rejected {
                call_id: call_id@,
                status,
            },
            OperatorEvent::Unavailable { call_id } => EventView::Unavailable { call_id: call_id@ },
            OperatorEvent::Cancelled { call_id } => EventView::Cancelled { call_id: call_id@ },
            OperatorEvent::Ended { call_id } => EventView::Ended { call_id: call_id@ },
            OperatorEvent::Renegotiate { call_id, body } => EventView::Renegotiate {
                call_id: call_id@,
                body: body@,
            },
            OperatorEvent::Dtmf { call_id, signal } => EventView::Dtmf {
                call_id: call_id@,
                signal,
            },
            OperatorEvent::TransferResponse { call_id, status } => EventView::TransferResponse {
                call_id: call_id@,
                status,
            },
            OperatorEvent::TransferNotify { call_id } => EventView::TransferNotify {
                call_id: call_id@,
            },
        }
    }
}

/// One thing to do. A list of them is worked off in order, and given up at the
/// first message that cannot be sent; `VoiceCalls::unsent` then takes the rest.
#[derive(Debug, PartialEq, Eq)]
pub enum CallAction {
    /// Let a relay forward.
    Start(RelayActivation),
    /// Send a message to the P-CSCF.
    Send(OutboundSip),
    /// Tell the trunk.
    Emit(OperatorEvent),
    /// Answer the trunk with `body` once the relay sees the operator's first packet.
    AwaitFirstRtp { call_id: String, relay: u64, body: String },
    /// Let go of a call that has left the table.
    Release { call_id: String, call: LiveVoiceCall },
}

pub enum ActionView {
    Start(ActivationView),
    Send(SipView),
    Emit(EventView),
    AwaitFirstRtp { call_id: Seq<char>, relay: u64, body: Seq<char> },
    Release { call_id: Seq<char>, call: CallView },
}

impl View for CallAction {
    type V = ActionView;

    open spec fn view(&self) -> ActionView {
        match *self {
            CallAction::Start(activation) => ActionView::Start(activation@),
            CallAction::Send(sip) => ActionView::Send(sip@),
            CallAction::Emit(event) => ActionView::Emit(event@),
            CallAction::AwaitFirstRtp { call_id, relay, body } => ActionView::AwaitFirstRtp {
                call_id: call_id@,
                relay,
                body: body@,
            },
            CallAction::Release { call_id, call } => ActionView::Release {
                call_id: call_id@,
                call: call@,
            },
        }
    }
}

pub open spec fn actions_of(list: Seq<CallAction>) -> Seq<ActionView> {
    Seq::new(list.len(), |i: int| list[i]@)
}

/// The relays to start, as actions.
pub open spec fn starts(list: Seq<ActivationView>) -> Seq<ActionView> {
    Seq::new(list.len(), |i: int| ActionView::Start(list[i]))
}

/// A response without contact and body.
pub open spec fn plain_response(
    request: Seq<u8>,
    status: u16,
    reason: Seq<char>,
    local_tag: Option<Seq<char>>,
) -> ActionView {
    ActionView::Send(
        SipView::Response { request, status, reason, local_tag, contact: None, answer: None },
    )
}

/// The reason phrase of a status.
pub open spec fn reason_of(status: u16) -> Seq<char> {
    if status == 100 {
        "Trying"@
    } else if status == 180 {
        "Ringing"@
    } else if status == 183 {
        "Session Progress"@
    } else if status == 200 {
        "OK"@
    } else if status == 202 {
        "Accepted"@
    } else if status == 400 {
        "Bad Request"@
    } else if status == 403 {
        "Forbidden"@
    } else if status == 404 {
        "Not Found"@
    } else if status == 408 {
        "Request Timeout"@
    } else if status == 480 {
        "Temporarily Unavailable"@
    } else if status == 486 {
        "Busy Here"@
    } else if status == 487 {
        "Request Terminated"@
    } else if status == 488 {
        "Not Acceptable Here"@
    } else if status == 491 {
        "Request Pending"@
    } else if status == 500 {
        "Server Internal Error"@
    } else if status == 603 {
        "Decline"@
    } else {
        "Call Failed"@
    }
}

/// The reason phrase of a status.
pub fn ims_reason(status: u16) -> (r: &'static str)
    ensures
        r@ == reason_of(status),
{
    match status {
        100 => "Trying",
        180 => "Ringing",
        183 => "Session Progress",
        200 => "OK",
        202 => "Accepted",
        400 => "Bad Request",
        403 => "Forbidden",
        404 => "Not Found",
        408 => "Request Timeout",
        480 => "Temporarily Unavailable",
        486 => "Busy Here",
        487 => "Request Terminated",
        488 => "Not Acceptable Here",
        491 => "Request Pending",
        500 => "Server Internal Error",
        603 => "Decline",
        _ => "Call Failed",
    }
}

/// Appends one action.
pub fn act(actions: &mut Vec<CallAction>, action: CallAction)
    ensures
        actions_of(final(actions)@) == actions_of(old(actions)@).push(action@),
{
    actions.push(action);
    proof {
        assert(actions_of(actions@) =~= actions_of(old(actions)@).push(action@));
    }
}

/// Appends the start of each relay.
pub fn act_starts(actions: &mut Vec<CallAction>, started: Vec<RelayActivation>)
    ensures
        actions_of(final(actions)@) == actions_of(old(actions)@) + starts(activations(started@)),
{
    let ghost all = activations(started@);
    let ghost first = actions_of(actions@);
    let n = started.len();
    let mut rest = started;
    proof {
        assert(starts(all.take(0)) =~= Seq::<ActionView>::empty());
        assert(first + starts(all.take(0)) =~= first);
        assert(all.skip(0) =~= all);
    }
    let mut i: usize = 0;
    while i < n
        invariant
            i <= n,
            n == all.len(),
            rest@.len() == n - i,
            activations(rest@) == all.skip(i as int),
            actions_of(actions@) == first + starts(all.take(i as int)),
        decreases n - i,
    {
        let ghost before = rest@;
        let activation = rest.remove(0);
        proof {
            assert(activation@ == activations(before)[0]);
            assert(rest@ =~= before.skip(1));
            assert(activations(rest@) =~= activations(before).skip(1));
            assert(activations(rest@) =~= all.skip(i as int + 1));
            assert(first + starts(all.take(i as int + 1)) =~= (first + starts(
                all.take(i as int),
            )).push(ActionView::Start(all[i as int])));
        }
        act(actions, CallAction::Start(activation));
        i += 1;
    }
    proof {
        assert(all.take(all.len() as int) =~= all);
    }
}

/// A copy of bytes.
pub fn copy_bytes(bytes: &[u8]) -> (r: Vec<u8>)
    ensures
        r@ == bytes@,
{
    vstd::slice::slice_to_vec(bytes)
}

/// What a change leads to: the calls after it, what is to be done, and whether
/// it was refused.
pub struct Step<T> {
    pub calls: CallMap,
    pub actions: Seq<ActionView>,
    pub result: Result<T, ErrorView>,
}

/// A change that is refused and leaves everything as it was.
pub open spec fn refused<T>(calls: CallMap, code: Seq<char>) -> Step<T> {
    Step { calls, actions: Seq::empty(), result: Err(failure(code)) }
}

/// The step is what came about.
pub open spec fn stepped<T>(
    step: Step<T>,
    calls: CallMap,
    before: Seq<ActionView>,
    after: Seq<ActionView>,
    result: Result<T, VolteError>,
) -> bool {
    &&& calls == step.calls
    &&& after == before + step.actions
    &&& match result {
        Ok(value) => step.result == Ok::<T, ErrorView>(value),
        Err(error) => step.result == Err::<T, ErrorView>(error@),
    }
}

} // verus!
