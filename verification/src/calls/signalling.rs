//! What the operator and the trunk are owed: which answers and events every step holds.

use vstd::prelude::*;
use vstd::string::*;

use crate::calls::actions::{ActionView, DtmfSignal, EventView, SipView};
use crate::calls::commands::{
    accept_call_step, accept_renegotiation_step, callee_uri_of, cancel_step, command_call,
    command_step, dtmf_step, failed_step, hangup_step, outgoing_call, reject_call_step,
    reject_renegotiation_step, renegotiate_step, report_provisional_step, start_check,
    transfer_step, CommandContext, OperatorCommand,
};
use crate::calls::frames::{
    bye_frame_step, call_frame, caller_of, caller_or_anonymous, cancel_frame_step, incoming_actions,
    incoming_call, incoming_decision, info_frame_step, invite_dialog, provisional_step,
    refer_notify_step, refer_response_step, reinvite_decision, reinvite_step, rejection_step,
    success_step, CallFrame, DecisionView, ReferNotice, TrunkIpConnectMode, TrunkLink,
};
use crate::calls::lifecycle::{
    all_refer_timeouts, all_reinvite_timeouts, all_timeout_responses, expired, frame_step,
    FrameTask,
};
use crate::calls::media::{final_body_outcome, incoming_body_outcome};
use crate::calls::table::CallMap;
use crate::calls::{
    CallView, DialogView, LiveVoiceDirection, RelaySockets, MAX_CONCURRENT_CALLS,
    REINVITE_TIMEOUT_MS,
};
use crate::sdp::OfferView;
use crate::sip::{asks_reliable, body_of, cseq_number_of, header_of, parameter_of, rseq_of, to_tag_of};
use crate::text;
use crate::text::{has_prefix, is_digit, trimmed};

verus! {

/// The event ends the call `id` towards the trunk.
pub open spec fn ends(event: EventView, id: Seq<char>) -> bool {
    match event {
        EventView::Cancelled { call_id } => call_id == id,
        EventView::Ended { call_id } => call_id == id,
        EventView::Rejected { call_id, .. } => call_id == id,
        _ => false,
    }
}

/// The trunk is told that the call `id` is over.
pub open spec fn tells_the_end(actions: Seq<ActionView>, id: Seq<char>) -> bool {
    exists|k: int|
        0 <= k < actions.len() && (#[trigger] actions[k]) is Emit && ends(actions[k]->Emit_0, id)
}

/// The trunk is told of this event.
pub open spec fn tells(actions: Seq<ActionView>, event: EventView) -> bool {
    exists|k: int| 0 <= k < actions.len() && #[trigger] actions[k] == ActionView::Emit(event)
}

/// This request is answered with this status.
pub open spec fn answers_with(actions: Seq<ActionView>, request: Seq<u8>, status: u16) -> bool {
    exists|k: int|
        {
            &&& 0 <= k < actions.len()
            &&& (#[trigger] actions[k]) is Send
            &&& actions[k]->Send_0 is Response
            &&& actions[k]->Send_0->request == request
            &&& actions[k]->Send_0->status == status
        }
}

/// This request is answered with this status, from the call's own side of its dialog.
pub open spec fn answers_in_dialog(
    actions: Seq<ActionView>,
    request: Seq<u8>,
    status: u16,
    local_tag: Seq<char>,
) -> bool {
    exists|k: int|
        {
            &&& 0 <= k < actions.len()
            &&& (#[trigger] actions[k]) is Send
            &&& actions[k]->Send_0 is Response
            &&& actions[k]->Send_0->request == request
            &&& actions[k]->Send_0->status == status
            &&& actions[k]->Send_0->local_tag == Some(local_tag)
        }
}

/// The number that a request of ours bears within its dialog, and the dialog.
pub open spec fn numbered_request(message: SipView) -> Option<(DialogView, u32)> {
    match message {
        SipView::Bye { dialog, cseq, .. } => Some((dialog, cseq)),
        SipView::Prack { dialog, cseq, .. } => Some((dialog, cseq)),
        SipView::Info { dialog, cseq, .. } => Some((dialog, cseq)),
        SipView::Refer { dialog, cseq, .. } => Some((dialog, cseq)),
        SipView::Reinvite { dialog, .. } => Some((dialog, dialog.cseq)),
        _ => None,
    }
}

/// Both name the same dialog.
pub open spec fn same_dialog(a: DialogView, b: DialogView) -> bool {
    a.call_id == b.call_id && a.local_tag == b.local_tag && a.remote_tag == b.remote_tag
}

// ---------------------------------------------------------------------------
// Frames of the operator.

/// Whenever a frame of the operator takes a call out of the table, the trunk is told of
/// its end. The one frame that does so in silence is a CANCEL of a call that the trunk
/// itself began, which is left to others.
pub proof fn ended_calls_are_told(
    calls: CallMap,
    id: Seq<char>,
    frame: Seq<u8>,
    mode: TrunkIpConnectMode,
)
    requires
        calls.contains_key(id),
        !frame_step(calls, id, frame, mode).calls.contains_key(id),
    ensures
        ({
            let step = frame_step(calls, id, frame, mode);
            tells_the_end(step.actions, id) || (call_frame(frame) == Ok::<
                CallFrame,
                crate::errors::ErrorView,
            >(CallFrame::Cancel) && calls[id].direction == LiveVoiceDirection::MobileOriginated
                && step.result == Ok::<FrameTask, crate::errors::ErrorView>(FrameTask::Declined))
        }),
{
    let step = frame_step(calls, id, frame, mode);
    match call_frame(frame) {
        Ok(CallFrame::Cancel) => {
            if calls[id].direction == LiveVoiceDirection::MobileTerminated {
                let n = step.actions.len() - 1;
                assert(step.actions[n] is Emit && ends(step.actions[n]->Emit_0, id));
            }
        },
        Ok(CallFrame::Bye) => {
            assert(step.actions[2] is Emit && ends(step.actions[2]->Emit_0, id));
        },
        Ok(CallFrame::InviteResponse(status)) => {
            if 200 <= status < 300 {
                let n = step.actions.len() - 1;
                assert(step.actions[n] is Emit && ends(step.actions[n]->Emit_0, id));
            } else if status >= 300 || status < 100 {
                assert(step.actions[0] is Emit && ends(step.actions[0]->Emit_0, id));
            }
        },
        _ => {},
    }
}

/// The trunk is told that a call is over only where the call is gone, or where it had
/// offered new media that the operator turned down.
pub proof fn only_ended_calls_are_told(
    calls: CallMap,
    id: Seq<char>,
    frame: Seq<u8>,
    mode: TrunkIpConnectMode,
)
    requires
        calls.contains_key(id),
        !calls[id].pending_asterisk_reinvite,
        tells_the_end(frame_step(calls, id, frame, mode).actions, id),
    ensures
        !frame_step(calls, id, frame, mode).calls.contains_key(id),
{
    let step = frame_step(calls, id, frame, mode);
    let k = choose|k: int|
        0 <= k < step.actions.len() && (#[trigger] step.actions[k]) is Emit && ends(
            step.actions[k]->Emit_0,
            id,
        );
    match call_frame(frame) {
        Ok(CallFrame::InviteResponse(status)) => {
            if 100 <= status < 200 {
                lemma_provisional_ends_nothing(calls, id, frame, status, mode, k);
            } else if 200 <= status < 300 {
                lemma_success_ends_nothing(calls, id, frame, mode, k);
            }
        },
        _ => {},
    }
}

proof fn lemma_provisional_ends_nothing(
    calls: CallMap,
    id: Seq<char>,
    frame: Seq<u8>,
    status: u16,
    mode: TrunkIpConnectMode,
    k: int,
)
    ensures
        ({
            let actions = provisional_step(calls, id, frame, status, mode).actions;
            0 <= k < actions.len() && actions[k] is Emit ==> !ends(actions[k]->Emit_0, id)
        }),
{
}

proof fn lemma_success_ends_nothing(
    calls: CallMap,
    id: Seq<char>,
    frame: Seq<u8>,
    mode: TrunkIpConnectMode,
    k: int,
)
    ensures
        ({
            let step = success_step(calls, id, frame, mode);
            0 <= k < step.actions.len() && step.actions[k] is Emit && ends(
                step.actions[k]->Emit_0,
                id,
            ) ==> !step.calls.contains_key(id)
        }),
{
}

/// Every request of the operator that ends a call, or takes it back, is answered; a
/// caller that hangs up before the call is answered also has its INVITE ended.
pub proof fn ending_requests_are_answered(calls: CallMap, id: Seq<char>, frame: Seq<u8>)
    requires
        calls.contains_key(id),
    ensures
        ({
            let call = calls[id];
            let cancel = cancel_frame_step(calls, id, frame);
            let bye = bye_frame_step(calls, id, frame);
            &&& answers_with(bye.actions, frame, 200)
            &&& !bye.calls.contains_key(id)
            &&& call.operator_answered ==> answers_with(cancel.actions, frame, 481)
                && cancel.calls == calls
            &&& !call.operator_answered && call.direction == LiveVoiceDirection::MobileTerminated
                ==> {
                &&& answers_with(cancel.actions, frame, 200)
                &&& tells(cancel.actions, EventView::Cancelled { call_id: id })
                &&& call.initial_invite is Some ==> answers_in_dialog(
                    cancel.actions,
                    call.initial_invite->0,
                    487,
                    call.dialog.local_tag,
                )
                &&& !cancel.calls.contains_key(id)
            }
        }),
{
    let cancel = cancel_frame_step(calls, id, frame);
    let bye = bye_frame_step(calls, id, frame);
    assert(bye.actions[0] is Send);
    if cancel.actions.len() > 0 {
        assert(cancel.actions[0] is Send);
        let n = cancel.actions.len() - 1;
        assert(cancel.actions[n] == cancel.actions[n]);
        if cancel.actions.len() == 3 {
            assert(cancel.actions[1] is Send);
        }
    }
}

/// A keypress that the operator sends reaches the trunk as it was pressed, and its INFO is
/// answered; the call goes on.
pub proof fn keypresses_reach_the_trunk(
    calls: CallMap,
    id: Seq<char>,
    frame: Seq<u8>,
    signal: DtmfSignal,
)
    ensures
        ({
            let step = info_frame_step(calls, id, frame, Some(signal));
            &&& answers_with(step.actions, frame, 200)
            &&& tells(step.actions, EventView::Dtmf { call_id: id, signal })
            &&& step.calls == calls
        }),
        answers_with(info_frame_step(calls, id, frame, None).actions, frame, 200),
{
    let step = info_frame_step(calls, id, frame, Some(signal));
    assert(step.actions[0] is Send);
    assert(step.actions[1] == ActionView::Emit(EventView::Dtmf { call_id: id, signal }));
    assert(info_frame_step(calls, id, frame, None).actions[0] is Send);
}

/// A success response to a call of the trunk is acknowledged in the dialog that it
/// completes, whether or not its media can be used. With usable media the call is
/// answered: the trunk hears of it with the negotiated answer, at once or with the
/// operator's first packet. Without, the operator is told to end the call.
pub proof fn answered_calls_are_acknowledged(
    calls: CallMap,
    id: Seq<char>,
    frame: Seq<u8>,
    mode: TrunkIpConnectMode,
)
    requires
        calls.contains_key(id),
        to_tag_of(frame) is Some,
    ensures
        ({
            let call = calls[id];
            let step = success_step(calls, id, frame, mode);
            let completed = DialogView { remote_tag: to_tag_of(frame), ..call.dialog };
            let heard = final_body_outcome(CallView { dialog: completed, ..call }, body_of(frame));
            &&& exists|k: int|
                0 <= k < step.actions.len() && (#[trigger] step.actions[k]) is Send
                    && step.actions[k]->Send_0 is Ack && same_dialog(
                    step.actions[k]->Send_0->Ack_dialog,
                    heard.call.dialog,
                )
            &&& heard.result is Ok ==> {
                &&& step.calls.contains_key(id)
                &&& step.calls[id].operator_answered
                &&& !step.calls[id].pending_asterisk_reinvite
                &&& step.calls[id].early_answer is None
                &&& step.calls[id].pending_media_rollback is None
                &&& step.calls[id].renegotiation_deadline is None
                &&& mode == TrunkIpConnectMode::GsmAnswer || call.pending_asterisk_reinvite
                    ==> tells(
                    step.actions,
                    EventView::Answered { call_id: id, body: heard.result->Ok_0 },
                )
                &&& mode == TrunkIpConnectMode::FirstRtp && !call.pending_asterisk_reinvite
                    && !heard.call.ip_answer_wait_armed && heard.call.active_relay is Some
                    ==> step.calls[id].ip_answer_wait_armed && exists|k: int|
                    0 <= k < step.actions.len() && #[trigger] step.actions[k]
                        == (ActionView::AwaitFirstRtp {
                        call_id: id,
                        relay: heard.call.active_relay->0,
                        body: heard.result->Ok_0,
                    })
            }
            &&& heard.result is Err ==> {
                &&& !step.calls.contains_key(id)
                &&& tells(step.actions, EventView::Rejected { call_id: id, status: 488 })
                &&& exists|k: int|
                    0 <= k < step.actions.len() && (#[trigger] step.actions[k]) is Send
                        && step.actions[k]->Send_0 is Bye
            }
        }),
{
    let call = calls[id];
    let step = success_step(calls, id, frame, mode);
    let completed = DialogView { remote_tag: to_tag_of(frame), ..call.dialog };
    let heard = final_body_outcome(CallView { dialog: completed, ..call }, body_of(frame));
    let n = heard.activations.len() as int;
    assert(step.actions[n] is Send && step.actions[n]->Send_0 is Ack);
    if heard.result is Ok {
        if step.actions.len() > n + 1 {
            assert(step.actions[n + 1] == step.actions[n + 1]);
        }
    } else {
        assert(step.actions[n + 1] is Send && step.actions[n + 1]->Send_0 is Bye);
        assert(step.actions[n + 3] == ActionView::Emit(
            EventView::Rejected { call_id: id, status: 488 },
        ));
    }
}

/// Progress of a call reaches the trunk with its status, and with the answer where it
/// carries media that can be used; that answer is kept for a final response without one.
/// Progress that asks for it is acknowledged with its own number and the INVITE's, under
/// a number that is used up.
pub proof fn progress_reaches_the_trunk(
    calls: CallMap,
    id: Seq<char>,
    frame: Seq<u8>,
    status: u16,
    mode: TrunkIpConnectMode,
)
    requires
        calls.contains_key(id),
        !calls[id].pending_asterisk_reinvite,
        body_of(frame).len() == 0,
        !asks_reliable(frame) || rseq_of(frame) is Some,
    ensures
        ({
            let step = provisional_step(calls, id, frame, status, mode);
            &&& tells(step.actions, EventView::Provisional { call_id: id, status, answer: None })
            &&& step.calls.contains_key(id)
            &&& to_tag_of(frame) is Some ==> step.calls[id].dialog.remote_tag == to_tag_of(frame)
            &&& asks_reliable(frame) <==> exists|k: int|
                0 <= k < step.actions.len() && (#[trigger] step.actions[k]) is Send
            &&& asks_reliable(frame) ==> exists|k: int|
                {
                    &&& 0 <= k < step.actions.len()
                    &&& (#[trigger] step.actions[k]) is Send
                    &&& step.actions[k]->Send_0 is Prack
                    &&& step.actions[k]->Send_0->rseq == rseq_of(frame)->0 as u32
                    &&& step.actions[k]->Send_0->invite_cseq == calls[id].dialog.cseq
                    &&& step.actions[k]->Send_0->Prack_cseq == calls[id].next_cseq
                }
            &&& asks_reliable(frame) && calls[id].next_cseq < u32::MAX ==> step.calls[id].next_cseq
                == calls[id].next_cseq + 1
            &&& !asks_reliable(frame) ==> step.calls[id].next_cseq == calls[id].next_cseq
        }),
{
    let step = provisional_step(calls, id, frame, status, mode);
    let told = ActionView::Emit(EventView::Provisional { call_id: id, status, answer: None });
    if asks_reliable(frame) {
        assert(step.actions[0] is Send);
        assert(step.actions[1] == told);
    } else {
        assert(step.actions[0] == told);
    }
}

/// A call that the operator refuses is over for the trunk, with the operator's status; new
/// media that it refuses leaves the call with the media that was confirmed.
pub proof fn refusals_reach_the_trunk(calls: CallMap, id: Seq<char>, status: u16)
    requires
        calls.contains_key(id),
    ensures
        ({
            let step = rejection_step(calls, id, status);
            &&& tells(step.actions, EventView::Rejected { call_id: id, status })
            &&& step.calls.contains_key(id) <==> calls[id].pending_asterisk_reinvite
            &&& calls[id].pending_asterisk_reinvite ==> {
                &&& !step.calls[id].pending_asterisk_reinvite
                &&& step.calls[id].renegotiation_deadline is None
                &&& step.calls[id].pending_relay is None
                &&& step.calls[id].active_relay == calls[id].active_relay
                &&& calls[id].pending_media_rollback is Some ==> step.calls[id].confirmed_media()
                    == calls[id].pending_media_rollback->0
            }
        }),
{
    let step = rejection_step(calls, id, status);
    assert(step.actions[0] == ActionView::Emit(EventView::Rejected { call_id: id, status }));
}

/// What a response to a REFER says reaches the trunk, and a final one ends the wait for
/// it. A notification is accepted only for a transfer that was asked for.
pub proof fn transfers_are_reported(
    calls: CallMap,
    id: Seq<char>,
    frame: Seq<u8>,
    status: u16,
    finished: bool,
)
    requires
        calls.contains_key(id),
    ensures
        ({
            let heard = refer_response_step(calls, id, status, Ok(finished));
            let noticed = refer_notify_step(calls, id, frame, ReferNotice::Accepted { finished });
            let garbled = refer_notify_step(calls, id, frame, ReferNotice::Malformed);
            let unfit = refer_notify_step(calls, id, frame, ReferNotice::Refused);
            &&& calls[id].transfer is Some ==> {
                &&& tells(heard.actions, EventView::TransferResponse { call_id: id, status })
                &&& heard.calls[id].transfer is Some
                &&& heard.calls[id].transfer->0.finished == finished
                &&& status >= 200 ==> heard.calls[id].transfer_deadline is None
                &&& status < 200 ==> heard.calls[id].transfer_deadline
                    == calls[id].transfer_deadline
                &&& answers_with(noticed.actions, frame, 200)
                &&& tells(noticed.actions, EventView::TransferNotify { call_id: id })
            }
            &&& calls[id].transfer is None ==> heard.result is Err && heard.calls == calls
                && answers_with(noticed.actions, frame, 481) && noticed.calls == calls
            &&& answers_with(garbled.actions, frame, 400) && garbled.calls == calls
            &&& answers_with(unfit.actions, frame, 481) && unfit.calls == calls
        }),
{
    let heard = refer_response_step(calls, id, status, Ok(finished));
    let noticed = refer_notify_step(calls, id, frame, ReferNotice::Accepted { finished });
    let garbled = refer_notify_step(calls, id, frame, ReferNotice::Malformed);
    let unfit = refer_notify_step(calls, id, frame, ReferNotice::Refused);
    assert(noticed.actions[0] is Send);
    assert(garbled.actions[0] is Send);
    assert(unfit.actions[0] is Send);
    if calls[id].transfer is Some {
        assert(heard.actions[0] == ActionView::Emit(
            EventView::TransferResponse { call_id: id, status },
        ));
        assert(noticed.actions[1] == ActionView::Emit(EventView::TransferNotify { call_id: id }));
    }
}

// ---------------------------------------------------------------------------
// Calls that begin at the operator's side.

/// An INVITE is bound for only where the trunk can take it, the line has room, its media
/// can be used and it says all of its dialog; each obstacle has a status of its own, and
/// what hinders the line comes before what is wrong with the INVITE.
pub proof fn refused_invites_say_why(calls: CallMap, frame: Seq<u8>, link: TrunkLink)
    ensures
        ({
            let decision = incoming_decision(calls, frame, link);
            let linked = link.has_local_ip && link.available;
            let room = calls.dom().len() < MAX_CONCURRENT_CALLS;
            &&& decision is Bind ==> linked && room && invite_dialog(frame) is Some && (
            decision->Bind_0.video is Some ==> link.video_enabled)
            &&& decision == DecisionView::Reject(480) <==> !linked
            &&& decision == DecisionView::Reject(486) <==> linked && !room
            &&& linked && room && invite_dialog(frame) is None ==> decision == DecisionView::Reject(
                400,
            ) || decision == DecisionView::Reject(488)
            &&& decision is Reject ==> decision->Reject_0 == 480 || decision->Reject_0 == 486
                || decision->Reject_0 == 488 || decision->Reject_0 == 400
        }),
{
}

/// A re-INVITE that crosses another one is refused with 491; without the trunk it is
/// refused with 480, and video that the line does not have with 488.
pub proof fn crossing_reinvites_are_refused(
    calls: CallMap,
    id: Seq<char>,
    frame: Seq<u8>,
    link: TrunkLink,
)
    requires
        calls.contains_key(id),
    ensures
        ({
            let decision = reinvite_decision(calls, id, frame, link);
            let linked = link.has_local_ip && link.available;
            let crossing = calls[id].pending_asterisk_reinvite
                || calls[id].pending_operator_reinvite is Some;
            &&& decision is Ok && decision->Ok_0 == DecisionView::Reject(480) <==> !linked
            &&& decision is Ok && decision->Ok_0 == DecisionView::Reject(491) <==> linked
                && crossing
            &&& decision is Ok && decision->Ok_0 is Bind ==> linked && !crossing && (
            decision->Ok_0->Bind_0.video is Some ==> link.video_enabled)
        }),
{
}

/// A call that begins at the operator's side is recorded under its own dialog: with the
/// caller's tag and number, and a target that its requests go to. Both relays are bound
/// and none is in use yet. The INVITE is held, so that it can be answered.
pub proof fn incoming_call_is_recorded(
    ims_call_id: Seq<char>,
    local_tag: Seq<char>,
    frame: Seq<u8>,
    offer: OfferView,
    audio: RelaySockets,
    video: Option<RelaySockets>,
    immediately: bool,
)
    requires
        invite_dialog(frame) is Some,
        cseq_number_of(frame) is Some,
        cseq_number_of(frame)->0 <= u32::MAX,
    ensures
        ({
            let call = incoming_call(
                ims_call_id,
                local_tag,
                invite_dialog(frame)->0,
                frame,
                offer,
                audio,
                video,
                immediately,
            );
            &&& call.direction == LiveVoiceDirection::MobileTerminated
            &&& call.dialog.call_id == ims_call_id
            &&& call.dialog.local_tag == local_tag
            &&& header_of(frame, "From"@) is Some
            &&& call.dialog.remote_tag == parameter_of(header_of(frame, "From"@)->0, "tag"@)
            &&& call.dialog.cseq == cseq_number_of(frame)->0
            &&& call.initial_invite == Some(frame)
            &&& call.internal_offer == offer
            &&& call.pending_relay == Some(audio.relay) && call.active_relay is None
            &&& call.operator_local == audio.operator_local
            &&& call.internal_local == audio.internal_local
            &&& (video is Some <==> call.pending_video_relay is Some)
            &&& video is Some ==> call.pending_video_relay == Some(video->0.relay)
                && call.operator_video_local == Some(video->0.operator_local)
                && call.internal_video_local == Some(video->0.internal_local)
            &&& call.operator_answered == immediately
            &&& call.next_cseq >= 1
            &&& !call.pending_asterisk_reinvite && call.pending_operator_reinvite is None
            &&& call.transfer is None
        }),
{
}

/// The start of an incoming call: its INVITE is answered with 100 first, with 200 only
/// where the line answers at once, and last the trunk is told, under the dialog's
/// identifier, who calls.
pub proof fn incoming_call_is_announced(
    call: CallView,
    frame: Seq<u8>,
    caller: Seq<char>,
    contact: Seq<char>,
)
    ensures
        ({
            let actions = incoming_actions(call, frame, caller, contact);
            &&& answers_in_dialog(actions.take(1), frame, 100, call.dialog.local_tag)
            &&& answers_in_dialog(actions, frame, 200, call.dialog.local_tag)
                <==> call.operator_answered
            &&& actions.last() is Emit
            &&& actions.last()->Emit_0 is Incoming
            &&& actions.last()->Emit_0->Incoming_call_id == call.dialog.call_id
            &&& actions.last()->Emit_0->caller == caller
        }),
{
    let actions = incoming_actions(call, frame, caller, contact);
    assert(actions.take(1)[0] is Send);
    if call.operator_answered {
        assert(actions[1] is Send && actions[1]->Send_0 is Response);
    }
}

/// The trunk hears of a caller as a SIP address: a telephone number as one, a secured
/// address as a plain one; a SIP address stays as it is, and an unknown caller is named as
/// anonymous.
pub proof fn callers_are_sip_addresses(number: Seq<char>)
    ensures
        caller_of("tel:"@ + number) == "sip:"@ + number + "@simadmin"@,
        caller_of("sips:"@ + number) == "sip:"@ + number,
        caller_of("sip:"@ + number) == "sip:"@ + number,
        caller_or_anonymous(None) == "sip:anonymous@anonymous.invalid"@,
        caller_or_anonymous(Some("tel:"@ + number)) == "sip:"@ + number + "@simadmin"@,
{
    reveal_strlit("tel:");
    reveal_strlit("sips:");
    reveal_strlit("sip:");
    let t = "tel:"@ + number;
    let s = "sips:"@ + number;
    let p = "sip:"@ + number;
    assert(t.take(4) =~= "tel:"@);
    assert(t.skip(4) =~= number);
    assert(s.take(5) =~= "sips:"@);
    assert(s.skip(5) =~= number);
    assert(s[0] == 's' && p[0] == 's' && p[3] == ':' && "sips:"@[3] == 's');
    if has_prefix(s, "tel:"@) {
        assert(s.take(4)[0] == "tel:"@[0]);
    }
    if has_prefix(p, "tel:"@) {
        assert(p.take(4)[0] == "tel:"@[0]);
    }
    if has_prefix(p, "sips:"@) {
        assert(p.take(5)[3] == "sips:"@[3]);
    }
}

/// The operator's re-INVITE is answered with 100 and reaches the trunk; it is held until
/// the trunk answers it, for as long as a re-INVITE may take, and the media that was
/// confirmed is kept for the case that it does not.
pub proof fn reinvite_is_passed_on(
    calls: CallMap,
    id: Seq<char>,
    frame: Seq<u8>,
    offer: OfferView,
    audio: RelaySockets,
    video: Option<RelaySockets>,
    now: u64,
)
    requires
        calls.contains_key(id),
        now <= u64::MAX - REINVITE_TIMEOUT_MS,
    ensures
        ({
            let step = reinvite_step(calls, id, frame, offer, audio, video, now);
            let call = step.calls[id];
            &&& answers_in_dialog(step.actions, frame, 100, calls[id].dialog.local_tag)
            &&& exists|k: int|
                {
                    &&& 0 <= k < step.actions.len()
                    &&& (#[trigger] step.actions[k]) is Emit
                    &&& step.actions[k]->Emit_0 is Renegotiate
                    &&& step.actions[k]->Emit_0->Renegotiate_call_id == id
                }
            &&& call.pending_operator_reinvite == Some(frame)
            &&& call.renegotiation_deadline == Some((now + REINVITE_TIMEOUT_MS) as u64)
            &&& call.pending_media_rollback == Some(calls[id].confirmed_media())
            &&& call.internal_offer == offer
            &&& call.pending_relay == Some(audio.relay)
            &&& call.active_relay == calls[id].active_relay
            &&& call.operator_local == audio.operator_local
            &&& call.internal_local == audio.internal_local
            &&& call.dialog == calls[id].dialog
            &&& call.next_cseq == calls[id].next_cseq
        }),
{
    let step = reinvite_step(calls, id, frame, offer, audio, video, now);
    assert(step.actions[0] is Send);
    assert(step.actions[1] is Emit);
}

// ---------------------------------------------------------------------------
// Commands of the trunk.

/// A request of ours within a dialog bears the next number of its call, and names the
/// call's own dialog and target; the number is used up, so that no two bear the same.
pub proof fn requests_are_numbered_upwards(
    calls: CallMap,
    command: OperatorCommand,
    context: CommandContext,
    k: int,
)
    requires
        !(command is StartCall),
        !(command is Renegotiate),
        !(command is AcceptCall),
        calls.contains_key(command_call(command)),
    ensures
        ({
            let id = command_call(command);
            let step = command_step(calls, command, context);
            0 <= k < step.actions.len() && step.actions[k] is Send && numbered_request(
                step.actions[k]->Send_0,
            ) is Some ==> {
                let (dialog, cseq) = numbered_request(step.actions[k]->Send_0)->0;
                &&& dialog == calls[id].dialog
                &&& cseq == calls[id].next_cseq
                &&& step.calls.contains_key(id) && cseq < u32::MAX ==> step.calls[id].next_cseq
                    > cseq
            }
        }),
{
    let id = command_call(command);
    let step = command_step(calls, command, context);
    match command {
        OperatorCommand::AcceptRenegotiation { call_id, body } => {
            let n = incoming_body_outcome(calls[id], body@).activations.len();
            if 0 <= k < n {
                assert(step.actions[k] is Start);
            }
        },
        OperatorCommand::ReportProvisional { call_id, status, early } => {
            match early {
                Some(body) => {
                    let n = incoming_body_outcome(calls[id], body@).activations.len();
                },
                None => {},
            }
        },
        _ => {},
    }
}

/// The message belongs to this call: it names the call's dialog and target.
pub open spec fn of_call(message: SipView, call: CallView) -> bool {
    match message {
        SipView::Bye { dialog, target, .. } => dialog == call.dialog && target == call.callee_uri,
        SipView::Cancel { dialog, target, branch } => dialog == call.dialog && target
            == call.callee_uri && branch == call.invite_branch,
        SipView::Info { dialog, target, .. } => dialog == call.dialog && target == call.callee_uri,
        SipView::Refer { dialog, target, .. } => dialog == call.dialog && target
            == call.callee_uri,
        _ => false,
    }
}

/// Hanging up ends a call with one message: BYE where the dialog is complete, CANCEL of
/// the very INVITE where it is not. The call is gone.
pub proof fn hanging_up_ends_the_call(calls: CallMap, id: Seq<char>)
    requires
        calls.contains_key(id),
    ensures
        ({
            let hung = hangup_step(calls, id);
            let taken = cancel_step(calls, id);
            &&& hung.result is Ok && taken.result is Ok
            &&& !hung.calls.contains_key(id) && !taken.calls.contains_key(id)
            &&& hung.actions.len() == 1 && taken.actions.len() == 1
            &&& hung.actions[0] is Send && of_call(hung.actions[0]->Send_0, calls[id])
            &&& hung.actions[0]->Send_0 is Bye <==> calls[id].dialog.remote_tag is Some
            &&& hung.actions[0]->Send_0 is Cancel <==> calls[id].dialog.remote_tag is None
            &&& taken.actions[0] is Send && taken.actions[0]->Send_0 is Cancel && of_call(
                taken.actions[0]->Send_0,
                calls[id],
            )
        }),
{
}

/// A keypress of the trunk reaches the operator as it was pressed, within the call's
/// dialog; the call goes on with all it had.
pub proof fn keypresses_reach_the_operator(calls: CallMap, id: Seq<char>, signal: DtmfSignal)
    requires
        calls.contains_key(id),
    ensures
        ({
            let step = dtmf_step(calls, id, signal);
            &&& step.result is Ok
            &&& step.actions.len() == 1
            &&& step.actions[0] is Send
            &&& step.actions[0]->Send_0 is Info
            &&& of_call(step.actions[0]->Send_0, calls[id])
            &&& step.actions[0]->Send_0->digit == signal.digit
            &&& step.actions[0]->Send_0->duration_ms == signal.duration_ms
            &&& step.calls.contains_key(id)
            &&& step.calls[id] == (CallView { next_cseq: step.calls[id].next_cseq, ..calls[id] })
        }),
{
}

/// A transfer asks the operator, within the call's dialog, to send the other side to the
/// dialled number.
pub proof fn transfers_name_their_target(
    calls: CallMap,
    id: Seq<char>,
    refer_to: Seq<char>,
    domain: Seq<char>,
    now: u64,
)
    requires
        transfer_step(calls, id, refer_to, domain, None, now).result is Ok,
    ensures
        ({
            let step = transfer_step(calls, id, refer_to, domain, None, now);
            &&& calls.contains_key(id)
            &&& calls[id].operator_answered
            &&& calls[id].dialog.remote_tag is Some
            &&& step.actions.len() == 1
            &&& step.actions[0] is Send
            &&& step.actions[0]->Send_0 is Refer
            &&& of_call(step.actions[0]->Send_0, calls[id])
            &&& callee_uri_of(refer_to, domain) is Ok
            &&& step.actions[0]->Send_0->refer_to == callee_uri_of(refer_to, domain)->Ok_0
            &&& step.calls[id].transfer is Some
            &&& step.calls[id].transfer->0.refer_cseq == step.actions[0]->Send_0->Refer_cseq
            &&& !step.calls[id].transfer->0.finished
        }),
{
}

/// A call that the trunk accepts is answered towards the operator, once: with 200, the
/// line's contact and the negotiated answer, behind the relays that it needs. Media that
/// cannot be used ends the call on both sides.
pub proof fn accepted_calls_are_answered(
    calls: CallMap,
    id: Seq<char>,
    body: Seq<u8>,
    contact: Seq<char>,
)
    requires
        calls.contains_key(id),
        calls[id].direction == LiveVoiceDirection::MobileTerminated,
        calls[id].initial_invite is Some,
    ensures
        ({
            let call = calls[id];
            let step = accept_call_step(calls, id, body, contact);
            let outcome = incoming_body_outcome(call, body);
            let n = outcome.activations.len() as int;
            &&& step.result is Ok
            &&& forall|k: int|
                0 <= k < n ==> #[trigger] step.actions[k] == ActionView::Start(
                    outcome.activations[k],
                )
            &&& outcome.result is Ok ==> {
                &&& step.calls.contains_key(id)
                &&& call.operator_answered ==> step.actions.len() == n
                &&& !call.operator_answered ==> {
                    &&& step.actions.len() == n + 1
                    &&& step.actions[n] is Send
                    &&& step.actions[n]->Send_0 is Response
                    &&& step.actions[n]->Send_0->request == call.initial_invite->0
                    &&& step.actions[n]->Send_0->status == 200
                    &&& step.actions[n]->Send_0->local_tag == Some(call.dialog.local_tag)
                    &&& step.actions[n]->Send_0->contact == Some(contact)
                    &&& step.actions[n]->Send_0->answer == Some(outcome.result->Ok_0)
                }
            }
            &&& outcome.result is Err ==> {
                &&& !step.calls.contains_key(id)
                &&& tells_the_end(step.actions, id)
                &&& !call.operator_answered ==> answers_in_dialog(
                    step.actions,
                    call.initial_invite->0,
                    488,
                    call.dialog.local_tag,
                )
                &&& call.operator_answered ==> exists|k: int|
                    0 <= k < step.actions.len() && (#[trigger] step.actions[k]) is Send
                        && step.actions[k]->Send_0 is Bye
            }
        }),
{
    let call = calls[id];
    let step = accept_call_step(calls, id, body, contact);
    let outcome = incoming_body_outcome(call, body);
    let n = outcome.activations.len() as int;
    if outcome.result is Err {
        assert(step.actions[n] is Emit && ends(step.actions[n]->Emit_0, id));
        assert(step.actions[n + 1] is Send);
    }
}

/// Progress of the trunk reaches the operator with its status until the call is answered,
/// and with the answer where it carries early media; media that cannot be used ends the
/// call on both sides.
pub proof fn progress_reaches_the_operator(
    calls: CallMap,
    id: Seq<char>,
    status: u16,
    body: Option<Seq<u8>>,
)
    requires
        calls.contains_key(id),
        calls[id].direction == LiveVoiceDirection::MobileTerminated,
        calls[id].initial_invite is Some,
    ensures
        ({
            let call = calls[id];
            let step = report_provisional_step(calls, id, status, body);
            let usable = body is None || incoming_body_outcome(call, body->0).result is Ok;
            &&& call.operator_answered ==> step.actions.len() == 0 && step.calls == calls
            &&& !call.operator_answered && usable ==> answers_in_dialog(
                step.actions,
                call.initial_invite->0,
                status,
                call.dialog.local_tag,
            ) && step.calls.contains_key(id)
            &&& !call.operator_answered && usable && body is Some ==> {
                let last = step.actions.last();
                &&& last is Send
                &&& last->Send_0->answer == Some(incoming_body_outcome(call, body->0).result->Ok_0)
            }
            &&& !call.operator_answered && !usable ==> !step.calls.contains_key(id)
                && tells_the_end(step.actions, id) && answers_in_dialog(
                step.actions,
                call.initial_invite->0,
                488,
                call.dialog.local_tag,
            )
        }),
{
    let call = calls[id];
    let step = report_provisional_step(calls, id, status, body);
    if !call.operator_answered {
        match body {
            None => {
                assert(step.actions[0] is Send);
            },
            Some(body) => {
                let outcome = incoming_body_outcome(call, body);
                let n = outcome.activations.len() as int;
                if outcome.result is Ok {
                    assert(step.actions[n] is Send);
                } else {
                    assert(step.actions[n] is Emit && ends(step.actions[n]->Emit_0, id));
                    assert(step.actions[n + 1] is Send);
                }
            },
        }
    }
}

/// A call that the trunk turns down is gone, and its caller hears the trunk's status; one
/// that was answered already is ended with BYE.
pub proof fn rejected_calls_are_turned_down(calls: CallMap, id: Seq<char>, status: u16)
    requires
        calls.contains_key(id),
    ensures
        ({
            let call = calls[id];
            let step = reject_call_step(calls, id, status);
            &&& !step.calls.contains_key(id)
            &&& call.direction == LiveVoiceDirection::MobileTerminated && !call.operator_answered
                && call.initial_invite is Some ==> step.actions.len() == 1 && answers_in_dialog(
                step.actions,
                call.initial_invite->0,
                status,
                call.dialog.local_tag,
            )
            &&& call.direction == LiveVoiceDirection::MobileTerminated && call.operator_answered
                ==> step.actions.len() == 1 && step.actions[0] is Send
                && step.actions[0]->Send_0 is Bye && of_call(step.actions[0]->Send_0, call)
            &&& call.direction == LiveVoiceDirection::MobileOriginated ==> step.actions.len() == 0
                && step.result is Err
        }),
{
    let step = reject_call_step(calls, id, status);
    if step.actions.len() > 0 {
        assert(step.actions[0] is Send);
    }
}

/// New media is offered to the operator in the call's dialog under its next number, one
/// offer at a time and for as long as a re-INVITE may take. The media that was confirmed
/// is kept.
pub proof fn renegotiation_is_offered_once(
    calls: CallMap,
    id: Seq<char>,
    offer: OfferView,
    audio: RelaySockets,
    video: Option<RelaySockets>,
    now: u64,
)
    requires
        now <= u64::MAX - REINVITE_TIMEOUT_MS,
    ensures
        ({
            let step = renegotiate_step(calls, id, offer, audio, video, now);
            let again = renegotiate_step(step.calls, id, offer, audio, video, now);
            &&& step.result is Ok ==> {
                let sent = step.actions[0];
                &&& calls.contains_key(id)
                &&& step.actions.len() == 1
                &&& sent is Send
                &&& sent->Send_0 is Reinvite
                &&& same_dialog(sent->Send_0->Reinvite_dialog, calls[id].dialog)
                &&& sent->Send_0->Reinvite_target == calls[id].callee_uri
                &&& sent->Send_0->Reinvite_dialog.cseq == calls[id].next_cseq
                &&& calls[id].next_cseq < u32::MAX ==> step.calls[id].next_cseq
                    > calls[id].next_cseq
                &&& step.calls[id].pending_asterisk_reinvite
                &&& step.calls[id].pending_media_rollback == Some(calls[id].confirmed_media())
                &&& step.calls[id].renegotiation_deadline == Some(
                    (now + REINVITE_TIMEOUT_MS) as u64,
                )
                &&& step.calls[id].pending_relay == Some(audio.relay)
                &&& step.calls[id].active_relay == calls[id].active_relay
                &&& step.calls[id].internal_offer == offer
                &&& again.result is Err && again.calls == step.calls && again.actions.len() == 0
            }
            &&& step.result is Err ==> step.calls == calls && step.actions.len() == 0
            &&& step.result is Ok <==> calls.contains_key(id)
                && !calls[id].pending_asterisk_reinvite
                && calls[id].pending_operator_reinvite is None
        }),
{
}

/// The operator's re-INVITE is answered by the trunk's word: with 200 and the negotiated
/// answer where the trunk accepts it, with the trunk's status where it does not. Either
/// way it is no longer held, and a refusal brings the confirmed media back.
pub proof fn reinvites_are_answered(
    calls: CallMap,
    id: Seq<char>,
    body: Seq<u8>,
    contact: Seq<char>,
    status: u16,
)
    requires
        calls.contains_key(id),
        calls[id].pending_operator_reinvite is Some,
    ensures
        ({
            let call = calls[id];
            let request = call.pending_operator_reinvite->0;
            let taken = accept_renegotiation_step(calls, id, body, contact);
            let refused = reject_renegotiation_step(calls, id, status);
            let outcome = incoming_body_outcome(call, body);
            &&& taken.result is Ok ==> {
                let last = taken.actions.last();
                &&& outcome.result is Ok
                &&& last is Send
                &&& last->Send_0 is Response
                &&& last->Send_0->status == 200
                &&& last->Send_0->contact == Some(contact)
                &&& last->Send_0->answer == Some(outcome.result->Ok_0)
                &&& taken.calls[id].pending_operator_reinvite is None
                &&& taken.calls[id].pending_media_rollback is None
                &&& taken.calls[id].renegotiation_deadline is None
            }
            &&& outcome.result is Err ==> taken.result is Err
            &&& refused.result is Ok
            &&& answers_in_dialog(refused.actions, request, status, call.dialog.local_tag)
            &&& refused.calls[id].pending_operator_reinvite is None
            &&& refused.calls[id].renegotiation_deadline is None
            &&& refused.calls[id].active_relay == call.active_relay
            &&& call.pending_media_rollback is Some ==> refused.calls[id].confirmed_media()
                == call.pending_media_rollback->0
        }),
{
    let taken = accept_renegotiation_step(calls, id, body, contact);
    let refused = reject_renegotiation_step(calls, id, status);
    assert(refused.actions[0] is Send);
}

/// A call is started only under an identifier of its own, while the line has room, with
/// video only where the line has it, and to a number that can be dialled; the first
/// obstacle is the one that is named.
pub proof fn started_calls_have_room(
    calls: CallMap,
    id: Seq<char>,
    callee: Seq<char>,
    domain: Seq<char>,
    video: bool,
    enabled: bool,
)
    ensures
        ({
            let check = start_check(calls, id, callee, domain, video, enabled);
            &&& check is Ok <==> !calls.contains_key(id) && calls.dom().len()
                < MAX_CONCURRENT_CALLS && (video ==> enabled) && callee_uri_of(callee, domain) is Ok
            &&& check is Ok ==> check->Ok_0 == callee_uri_of(callee, domain)->Ok_0
            &&& calls.contains_key(id) ==> check is Err && check->Err_0.code
                == "volte_voice_call_duplicate"@
            &&& !calls.contains_key(id) && calls.dom().len() >= MAX_CONCURRENT_CALLS ==> check
                is Err && check->Err_0.code == "volte_concurrent_call_limit"@
        }),
{
}

/// The trunk hears of each call that could not be started and of each transfer that could
/// not be asked for; a line that is full is busy.
pub proof fn failures_reach_the_trunk(calls: CallMap, command: OperatorCommand, code: Seq<char>)
    ensures
        ({
            let id = command_call(command);
            let (after, actions) = failed_step(calls, command, code);
            &&& command is StartCall ==> after == calls && actions.len() == 1 && (tells(
                actions,
                EventView::Rejected { call_id: id, status: 486 },
            ) <==> code == "volte_concurrent_call_limit"@) && (tells(
                actions,
                EventView::Unavailable { call_id: id },
            ) <==> code != "volte_concurrent_call_limit"@)
            &&& command is TransferCall ==> after == calls && actions.len() == 1 && actions[0]
                is Emit && actions[0]->Emit_0 is TransferResponse
                && actions[0]->Emit_0->TransferResponse_call_id == id
                && actions[0]->Emit_0->TransferResponse_status >= 400
            &&& command is Renegotiate && calls.contains_key(id) ==> actions.len() == 0
                && !after[id].pending_asterisk_reinvite && after[id].renegotiation_deadline is None
                && after[id].pending_relay is None
        }),
{
    let id = command_call(command);
    let (after, actions) = failed_step(calls, command, code);
    if command is StartCall {
        assert(actions[0] is Emit);
    }
}

/// A call of the trunk is recorded under its dialog, with its relays bound and none in
/// use; its next request bears a number above the INVITE's.
pub proof fn outgoing_call_is_recorded(
    dialog: DialogView,
    callee: Seq<char>,
    branch: Seq<char>,
    offer: OfferView,
    audio: RelaySockets,
    video: Option<RelaySockets>,
)
    ensures
        ({
            let call = outgoing_call(dialog, callee, branch, offer, audio, video);
            &&& call.direction == LiveVoiceDirection::MobileOriginated
            &&& call.dialog == dialog
            &&& call.callee_uri == callee
            &&& call.invite_branch == branch
            &&& call.internal_offer == offer
            &&& call.pending_relay == Some(audio.relay) && call.active_relay is None
            &&& call.operator_local == audio.operator_local
            &&& call.internal_local == audio.internal_local
            &&& (video is Some <==> call.pending_video_relay is Some)
            &&& video is Some ==> call.pending_video_relay == Some(video->0.relay)
                && call.operator_video_local == Some(video->0.operator_local)
                && call.internal_video_local == Some(video->0.internal_local)
            &&& !call.operator_answered
            &&& dialog.cseq < u32::MAX ==> call.next_cseq == dialog.cseq + 1
        }),
{
}

/// What is dialled as a plain number, as a telephone address or as a SIP address of some
/// host goes to one and the same address: that number in the home domain.
pub proof fn dialled_forms_agree(number: Seq<char>, host: Seq<char>, domain: Seq<char>)
    requires
        number.len() > 0,
        forall|i: int| 0 <= i < number.len() ==> is_digit(#[trigger] number[i]),
        forall|i: int| 0 <= i < host.len() ==> !text::is_space(#[trigger] host[i]),
    ensures
        ({
            let address = "sip:"@ + number + "@"@ + domain + ";user=phone"@;
            &&& callee_uri_of(number, domain) is Ok
            &&& callee_uri_of(number, domain)->Ok_0 == address
            &&& callee_uri_of("+"@ + number, domain) is Ok
            &&& callee_uri_of("+"@ + number, domain)->Ok_0 == "sip:+"@ + number + "@"@ + domain
                + ";user=phone"@
            &&& callee_uri_of("tel:"@ + number, domain) is Ok
            &&& callee_uri_of("tel:"@ + number, domain)->Ok_0 == address
            &&& callee_uri_of("sip:"@ + number + "@"@ + host, domain) is Ok
            &&& callee_uri_of("sip:"@ + number + "@"@ + host, domain)->Ok_0 == address
        }),
{
    reveal_strlit("sip:");
    reveal_strlit("sips:");
    reveal_strlit("tel:");
    reveal_strlit("@");
    reveal_strlit("+");
    reveal_strlit("sip:+");
    assert("@"@ =~= seq!['@']);
    let plus = "+"@ + number;
    let tel = "tel:"@ + number;
    let sip = "sip:"@ + number + "@"@ + host;
    assert(is_digit(number[0]) && is_digit(number.last()));
    lemma_dialled(number, number);
    assert(plus.last() == number.last());
    assert(trimmed(plus) == plus);
    lemma_scheme(plus);
    assert forall|i: int| 0 <= i < plus.len() implies plus[i] != '@' && plus[i] != ';' by {
        if i > 0 {
            assert(plus[i] == number[i - 1]);
        }
    }
    text::lemma_no_separator(plus, '@');
    text::lemma_no_separator(plus, ';');
    assert forall|i: int| 0 <= i < plus.len() implies #[trigger] crate::calls::commands::is_dial_char(
        plus,
        i,
    ) by {
        if i > 0 {
            assert(plus[i] == number[i - 1]);
        }
    }
    assert("sip:"@ + plus =~= "sip:+"@ + number);
    assert(tel.last() == number.last());
    assert(tel[0] == 't');
    assert(trimmed(tel) == tel);
    assert(tel.take(4) =~= "tel:"@);
    assert(tel.skip(4) =~= number);
    if has_prefix(tel, "sip:"@) {
        assert(tel.take(4)[0] == "sip:"@[0]);
    }
    if has_prefix(tel, "sips:"@) {
        assert(tel.take(5)[0] == "sips:"@[0]);
    }
    assert(sip[0] == 's');
    if host.len() > 0 {
        assert(sip.last() == host.last());
        assert(host[host.len() - 1] == host.last());
    } else {
        assert(sip.last() == '@');
    }
    assert(trimmed(sip) == sip);
    assert(sip.take(4) =~= "sip:"@);
    let rest = sip.skip(4);
    assert(rest =~= number + seq!['@'] + host);
    assert forall|i: int| 0 <= i < number.len() implies number[i] != '@' by {
        assert(is_digit(number[i]));
    }
    text::lemma_first_piece(number, '@', host);
}

/// A text that begins with none of the schemes.
proof fn lemma_scheme(s: Seq<char>)
    requires
        s.len() > 0,
        s[0] != 's',
        s[0] != 't',
    ensures
        crate::calls::commands::without_scheme(s) == s,
{
    reveal_strlit("sip:");
    reveal_strlit("sips:");
    reveal_strlit("tel:");
    if has_prefix(s, "sip:"@) {
        assert(s.take(4)[0] == s[0]);
    }
    if has_prefix(s, "sips:"@) {
        assert(s.take(5)[0] == s[0]);
    }
    if has_prefix(s, "tel:"@) {
        assert(s.take(4)[0] == s[0]);
    }
}

proof fn lemma_dialled(s: Seq<char>, number: Seq<char>)
    requires
        s == number,
        number.len() > 0,
        forall|i: int| 0 <= i < number.len() ==> is_digit(#[trigger] number[i]),
    ensures
        trimmed(s) == number,
        crate::calls::commands::dial_user(s) == number,
        crate::calls::commands::is_dialable(number),
        text::index_of(number, '@') == number.len(),
        text::index_of(number, ';') == number.len(),
{
    assert(is_digit(number[0]) && is_digit(number.last()));
    assert(trimmed(s) == s);
    lemma_scheme(s);
    assert forall|i: int| 0 <= i < number.len() implies number[i] != '@' && number[i] != ';' by {
        assert(is_digit(number[i]));
    }
    text::lemma_no_separator(number, '@');
    text::lemma_no_separator(number, ';');
    assert forall|i: int| 0 <= i < number.len() implies #[trigger] crate::calls::commands::is_dial_char(
        number,
        i,
    ) by {
        assert(is_digit(number[i]));
    }
}

// ---------------------------------------------------------------------------
// Requests that stay unanswered.

/// Once its time has come, a re-INVITE of the operator is answered with 504 and one of
/// the trunk's is over for the trunk, and so is a transfer; nothing is said before. The
/// call keeps its relays, and gets back the media that was confirmed.
pub proof fn expiry_is_told_once(calls: CallMap, id: Seq<char>, now: u64)
    requires
        calls.contains_key(id),
    ensures
        ({
            let call = calls[id];
            let ids = seq![id];
            let after = expired(call, now);
            let answered = all_timeout_responses(calls, ids, now);
            let offers = all_reinvite_timeouts(calls, ids, now);
            let transfers = all_refer_timeouts(calls, ids, now);
            let reinvite_due = call.renegotiation_deadline is Some
                && call.renegotiation_deadline->0 <= now;
            let refer_due = call.transfer_deadline is Some && call.transfer_deadline->0 <= now;
            &&& !reinvite_due ==> answered.len() == 0 && offers.len() == 0
            &&& !refer_due ==> transfers.len() == 0
            &&& !reinvite_due && !refer_due ==> after == call
            &&& reinvite_due && call.pending_operator_reinvite is Some ==> answers_in_dialog(
                answered,
                call.pending_operator_reinvite->0,
                504,
                call.dialog.local_tag,
            )
            &&& reinvite_due && call.pending_asterisk_reinvite ==> tells(
                offers,
                EventView::Rejected { call_id: id, status: 408 },
            )
            &&& refer_due ==> tells(
                transfers,
                EventView::TransferResponse { call_id: id, status: 408 },
            )
            &&& reinvite_due ==> after.pending_operator_reinvite is None
                && !after.pending_asterisk_reinvite && after.renegotiation_deadline is None
                && after.pending_relay is None && after.active_relay == call.active_relay && (
            call.pending_media_rollback is Some ==> after.confirmed_media()
                == call.pending_media_rollback->0)
            &&& refer_due ==> after.transfer_deadline is None && (call.transfer is Some
                ==> after.transfer->0.finished)
            &&& expired(after, now) == after
        }),
{
    let call = calls[id];
    let ids = seq![id];
    let answered = all_timeout_responses(calls, ids, now);
    let offers = all_reinvite_timeouts(calls, ids, now);
    let transfers = all_refer_timeouts(calls, ids, now);
    reveal_with_fuel(all_timeout_responses, 3);
    reveal_with_fuel(all_reinvite_timeouts, 3);
    reveal_with_fuel(all_refer_timeouts, 3);
    assert(ids.drop_last() =~= Seq::<Seq<char>>::empty());
    if answered.len() > 0 {
        assert(answered[0] is Send);
    }
    if offers.len() > 0 {
        assert(offers[0] is Emit);
    }
    if transfers.len() > 0 {
        assert(transfers[0] is Emit);
    }
}

} // verus!
