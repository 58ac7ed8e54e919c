//! How calls begin at the operator's side, how frames reach them, and how
//! requests that stay unanswered expire.

use vstd::prelude::*;
use vstd::string::*;

use crate::calls::actions::{
    act, actions_of, copy_bytes, plain_response, stepped, ActionView, CallAction, EventView,
    OperatorEvent, OutboundSip, Step,
};
use crate::calls::commands::{
    agree_but, callee_uri_of, lemma_none, transfer_step, transferring,
};
use crate::calls::frames::{
    answered, bye_frame_step, call_frame, caller_or_anonymous, cancel_frame_step,
    classify_call_frame, incoming_actions, incoming_call, incoming_decision, invite_dialog,
    invite_response_step, normalize_incoming_caller, read_offer, refer_notify_step,
    refer_response_step, success_step, tagged, CallFrame, DecisionView, InviteDecision,
    ReferNotice, TrunkIpConnectMode, TrunkLink,
};
use crate::calls::media::final_body_outcome;
use crate::calls::table::{lemma_put_back, CallMap, VoiceCalls};
use crate::calls::{
    CallView, DialogIds, DialogTransfer, LiveVoiceCall, LiveVoiceDirection, RelaySockets,
    MAX_CONCURRENT_CALLS, REFER_RESPONSE_TIMEOUT_MS,
};
use crate::errors::{detailed, failure, ErrorView, VolteError};
use crate::sdp;
use crate::sdp::MediaOffer;
use crate::sip;
use crate::sip::{body_of, header_of, requests, to_tag_of};
use crate::text;
use crate::text::texts;

verus! {

/// What a new INVITE says of its dialog.
#[derive(Debug, PartialEq, Eq)]
pub struct InviteDialog {
    pub remote_target: String,
    pub remote_tag: String,
    pub cseq: u32,
}

/// Reads what a new INVITE says of its dialog.
pub fn read_invite_dialog(frame: &[u8]) -> (r: Option<InviteDialog>)
    ensures
        match r {
            Some(dialog) => invite_dialog(frame@) is Some && {
                let said = invite_dialog(frame@)->0;
                &&& dialog.remote_target@ == said.remote_target
                &&& dialog.remote_tag@ == said.remote_tag
                &&& dialog.cseq == said.cseq
            },
            None => invite_dialog(frame@) is None,
        },
{
    let from_uri = match sip::sip_header_uri(frame, "From") {
        Some(uri) => uri,
        None => return None,
    };
    let remote_target = match sip::sip_header_uri(frame, "Contact") {
        Some(contact) => contact,
        None => from_uri,
    };
    let remote_tag = match sip::header_value(frame, "From") {
        Some(value) => match sip::sip_parameter(value.as_str(), "tag") {
            Some(tag) => tag,
            None => return None,
        },
        None => return None,
    };
    match sip::cseq_number(frame) {
        Some(cseq) => Some(InviteDialog { remote_target, remote_tag, cseq }),
        None => None,
    }
}

/// What a frame asks of the line after what could be done at once was done.
#[derive(Debug, Clone, Copy, PartialEq, Eq, Structural)]
pub enum FrameTask {
    /// The frame belongs to no call.
    NotACall,
    /// A new INVITE: decide it, bind relays and record it.
    Incoming,
    /// A re-INVITE: decide it, bind relays and record it.
    Reinvite,
    /// A notification about a transfer: read it and apply it.
    ReferNotify,
    /// INFO: read a keypress and apply it.
    Info,
    /// A response to a REFER: apply it.
    ReferResponse(u16),
    /// The frame was dealt with.
    Handled,
    /// The frame was left for others.
    Declined,
}

pub open spec fn done(handled: bool) -> FrameTask {
    if handled {
        FrameTask::Handled
    } else {
        FrameTask::Declined
    }
}

/// The step, with what is left to do.
pub open spec fn settled(step: Step<bool>) -> Step<FrameTask> {
    Step {
        calls: step.calls,
        actions: step.actions,
        result: match step.result {
            Ok(handled) => Ok(done(handled)),
            Err(error) => Err(error),
        },
    }
}

/// A step that only says what is left to do.
pub open spec fn left_to_do(calls: CallMap, task: FrameTask) -> Step<FrameTask> {
    Step { calls, actions: Seq::empty(), result: Ok(task) }
}

/// What a frame of the call `id` leads to.
pub open spec fn frame_step(
    calls: CallMap,
    id: Seq<char>,
    frame: Seq<u8>,
    mode: TrunkIpConnectMode,
) -> Step<FrameTask> {
    match call_frame(frame) {
        Err(error) => Step { calls, actions: Seq::empty(), result: Err(error) },
        Ok(CallFrame::ReferNotify) => left_to_do(calls, FrameTask::ReferNotify),
        Ok(CallFrame::Invite) => left_to_do(calls, FrameTask::Reinvite),
        Ok(CallFrame::Cancel) => settled(cancel_frame_step(calls, id, frame)),
        Ok(CallFrame::Bye) => settled(bye_frame_step(calls, id, frame)),
        Ok(CallFrame::Info) => left_to_do(calls, FrameTask::Info),
        Ok(CallFrame::ReferResponse(status)) => left_to_do(calls, FrameTask::ReferResponse(status)),
        Ok(CallFrame::InviteResponse(status)) => settled(
            invite_response_step(calls, id, frame, status, mode),
        ),
        Ok(CallFrame::OtherResponse) => left_to_do(calls, FrameTask::Handled),
        Ok(CallFrame::Unknown) => left_to_do(calls, FrameTask::Declined),
    }
}

/// A frame that no call's dialog owns: a new call where it is an INVITE.
pub open spec fn stray_task(frame: Seq<u8>) -> FrameTask {
    if header_of(frame, "Call-ID"@) is Some && requests(frame, "INVITE"@) {
        FrameTask::Incoming
    } else {
        FrameTask::NotACall
    }
}

/// Some call has the dialog that the frame names.
pub open spec fn owned(calls: CallMap, frame: Seq<u8>) -> bool {
    match header_of(frame, "Call-ID"@) {
        Some(call_id) => exists|k: Seq<char>| #[trigger]
            calls.contains_key(k) && calls[k].dialog.call_id == call_id,
        None => false,
    }
}

fn settle(result: Result<bool, VolteError>) -> (r: Result<FrameTask, VolteError>)
    ensures
        match result {
            Ok(handled) => r == Ok::<FrameTask, VolteError>(done(handled)),
            Err(error) => r == Err::<FrameTask, VolteError>(error),
        },
{
    match result {
        Ok(true) => Ok(FrameTask::Handled),
        Ok(false) => Ok(FrameTask::Declined),
        Err(error) => Err(error),
    }
}

/// When a deadline has come.
pub open spec fn due(deadline: Option<u64>, now: u64) -> bool {
    match deadline {
        Some(at) => at <= now,
        None => false,
    }
}

/// The call after a re-INVITE that stayed unanswered for too long.
pub open spec fn reinvite_expired(call: CallView, now: u64) -> CallView {
    if due(call.renegotiation_deadline, now) {
        CallView {
            pending_operator_reinvite: None,
            pending_asterisk_reinvite: false,
            renegotiation_deadline: None,
            ..call.rolled_back()
        }
    } else {
        call
    }
}

/// The call after a REFER that stayed unanswered for too long.
pub open spec fn refer_expired(call: CallView, now: u64) -> CallView {
    if due(call.transfer_deadline, now) {
        CallView {
            transfer_deadline: None,
            transfer: match call.transfer {
                Some(transfer) => Some(DialogTransfer { finished: true, ..transfer }),
                None => None,
            },
            ..call
        }
    } else {
        call
    }
}

pub open spec fn expired(call: CallView, now: u64) -> CallView {
    refer_expired(reinvite_expired(call, now), now)
}

/// What the operator is answered when its re-INVITE has expired.
pub open spec fn timeout_responses(call: CallView, now: u64) -> Seq<ActionView> {
    match call.pending_operator_reinvite {
        Some(request) => if due(call.renegotiation_deadline, now) {
            seq![plain_response(request, 504, "Server Time-out"@, Some(call.dialog.local_tag))]
        } else {
            Seq::empty()
        },
        None => Seq::empty(),
    }
}

/// What the trunk is told when its own re-INVITE has expired.
pub open spec fn reinvite_timeouts(id: Seq<char>, call: CallView, now: u64) -> Seq<ActionView> {
    if due(call.renegotiation_deadline, now) && call.pending_asterisk_reinvite {
        seq![ActionView::Emit(EventView::Rejected { call_id: id, status: 408 })]
    } else {
        Seq::empty()
    }
}

/// What the trunk is told when its REFER has expired.
pub open spec fn refer_timeouts(id: Seq<char>, call: CallView, now: u64) -> Seq<ActionView> {
    if due(call.transfer_deadline, now) {
        seq![ActionView::Emit(EventView::TransferResponse { call_id: id, status: 408 })]
    } else {
        Seq::empty()
    }
}

/// The responses for the calls in the order of `ids`.
pub open spec fn all_timeout_responses(
    calls: CallMap,
    ids: Seq<Seq<char>>,
    now: u64,
) -> Seq<ActionView>
    decreases ids.len(),
{
    if ids.len() == 0 {
        Seq::empty()
    } else {
        all_timeout_responses(calls, ids.drop_last(), now) + timeout_responses(
            calls[ids.last()],
            now,
        )
    }
}

pub open spec fn all_reinvite_timeouts(
    calls: CallMap,
    ids: Seq<Seq<char>>,
    now: u64,
) -> Seq<ActionView>
    decreases ids.len(),
{
    if ids.len() == 0 {
        Seq::empty()
    } else {
        all_reinvite_timeouts(calls, ids.drop_last(), now) + reinvite_timeouts(
            ids.last(),
            calls[ids.last()],
            now,
        )
    }
}

pub open spec fn all_refer_timeouts(
    calls: CallMap,
    ids: Seq<Seq<char>>,
    now: u64,
) -> Seq<ActionView>
    decreases ids.len(),
{
    if ids.len() == 0 {
        Seq::empty()
    } else {
        all_refer_timeouts(calls, ids.drop_last(), now) + refer_timeouts(
            ids.last(),
            calls[ids.last()],
            now,
        )
    }
}

/// Every call of `ids` expired, the others as they were.
pub open spec fn expired_calls(calls: CallMap, ids: Seq<Seq<char>>, now: u64) -> CallMap {
    Map::new(
        |k: Seq<char>| calls.contains_key(k),
        |k: Seq<char>|
            if ids.contains(k) {
                expired(calls[k], now)
            } else {
                calls[k]
            },
    )
}

/// Why the sockets of a relay cannot be used.
#[derive(Debug, PartialEq, Eq)]
pub enum RelayFailure {
    /// They could not be bound.
    Bind(String),
    /// Their addresses could not be read.
    LocalAddr(String),
}

/// The error of a relay for video or audio.
pub open spec fn relay_error_view(video: bool, failure: RelayFailure) -> ErrorView {
    match failure {
        RelayFailure::Bind(reason) => detailed(
            if video {
                "vilte_rtp_bind_failed"@
            } else {
                "volte_rtp_bind_failed"@
            },
            reason@,
        ),
        RelayFailure::LocalAddr(reason) => detailed(
            if video {
                "vilte_rtp_local_addr_failed"@
            } else {
                "volte_rtp_local_addr_failed"@
            },
            reason@,
        ),
    }
}

/// The error of a relay for video or audio.
pub fn relay_error(video: bool, failure: &RelayFailure) -> (r: VolteError)
    ensures
        r@ == relay_error_view(video, *failure),
{
    match failure {
        RelayFailure::Bind(reason) => VolteError::with_detail(
            if video {
                "vilte_rtp_bind_failed"
            } else {
                "volte_rtp_bind_failed"
            },
            reason.as_str(),
        ),
        RelayFailure::LocalAddr(reason) => VolteError::with_detail(
            if video {
                "vilte_rtp_local_addr_failed"
            } else {
                "volte_rtp_local_addr_failed"
            },
            reason.as_str(),
        ),
    }
}

/// How a new INVITE is refused that has no relay. Only audio sockets that could not be
/// bound are answered, with 500; every other failure leaves the INVITE unanswered.
pub fn refuse_without_relay(video: bool, failure: &RelayFailure) -> (r: Result<u16, VolteError>)
    ensures
        match r {
            Ok(status) => !video && *failure is Bind && status == 500,
            Err(error) => (video || *failure is LocalAddr) && error@ == relay_error_view(
                video,
                *failure,
            ),
        },
{
    match failure {
        RelayFailure::Bind(_) if !video => Ok(500),
        _ => Err(relay_error(video, failure)),
    }
}

/// The calls once an action is taken back that could not be reached: a call that was
/// to be let go of stays, and one that the trunk was not told of is gone.
pub open spec fn taken_back(calls: CallMap, action: ActionView) -> CallMap {
    match action {
        ActionView::Release { call_id, call } => if calls.contains_key(call_id)
            || calls.dom().len() < MAX_CONCURRENT_CALLS {
            calls.insert(call_id, call)
        } else {
            calls
        },
        ActionView::Emit(EventView::Incoming { call_id, .. }) => calls.remove(call_id),
        _ => calls,
    }
}

/// The calls once the actions behind a message that could not be sent are taken back,
/// the last one first.
pub open spec fn undone(calls: CallMap, rest: Seq<ActionView>) -> CallMap
    decreases rest.len(),
{
    if rest.len() == 0 {
        calls
    } else {
        undone(taken_back(calls, rest.last()), rest.drop_last())
    }
}

impl VoiceCalls {
    /// Takes back what could not be reached: `rest` is what follows the first message
    /// that could not be sent.
    pub fn unsent(&mut self, rest: Vec<CallAction>)
        ensures
            final(self)@ == undone(old(self)@, actions_of(rest@)),
    {
        let ghost all = undone(self@, actions_of(rest@));
        let mut left = rest;
        while left.len() > 0
            invariant
                all == undone(self@, actions_of(left@)),
            decreases left@.len(),
        {
            let ghost before = self@;
            let ghost action = left@.last()@;
            proof {
                assert(actions_of(left@).drop_last() =~= actions_of(left@.drop_last()));
                assert(actions_of(left@).last() == action);
                assert(all == undone(taken_back(before, action), actions_of(left@).drop_last()));
            }
            match left.pop() {
                Some(CallAction::Release { call_id, call }) => {
                    if self.contains(call_id.as_str()) || self.len() < MAX_CONCURRENT_CALLS {
                        self.insert(call_id, call);
                    }
                    assert(self@ == taken_back(before, action));
                },
                Some(CallAction::Emit(OperatorEvent::Incoming { call_id, caller, body })) => {
                    let _unknown = self.remove(call_id.as_str());
                    assert(self@ == taken_back(before, action));
                },
                _ => {
                    assert(self@ == taken_back(before, action));
                },
            }
        }
        proof {
            assert(actions_of(left@) =~= Seq::<ActionView>::empty());
        }
    }

    /// How a new INVITE goes on.
    pub fn decide_incoming(&self, frame: &[u8], link: TrunkLink) -> (r: InviteDecision)
        ensures
            r@ == incoming_decision(self@, frame@, link),
            r is Bind ==> self@.dom().len() < MAX_CONCURRENT_CALLS && invite_dialog(
                frame@,
            ) is Some,
    {
        if !link.has_local_ip || !link.available {
            return InviteDecision::Reject(480);
        }
        if self.len() >= MAX_CONCURRENT_CALLS {
            return InviteDecision::Reject(486);
        }
        match read_offer(sip::sip_body(frame)) {
            Ok(offer) => {
                if offer.video.is_some() && !link.video_enabled {
                    return InviteDecision::Reject(488);
                }
                match read_invite_dialog(frame) {
                    Some(_) => InviteDecision::Bind(offer),
                    None => InviteDecision::Reject(400),
                }
            },
            Err(_) => InviteDecision::Reject(488),
        }
    }

    /// Records a call that the operator has begun. `local_tag` is fresh; `caller`
    /// is the identity that the network asserts.
    #[verifier::rlimit(40)]
    pub fn begin_incoming_call(
        &mut self,
        ims_call_id: String,
        frame: &[u8],
        local_tag: String,
        caller: Option<&str>,
        contact: &str,
        offer: MediaOffer,
        audio: RelaySockets,
        video: Option<RelaySockets>,
        answers_immediately: bool,
        actions: &mut Vec<CallAction>,
    )
        requires
            invite_dialog(frame@) is Some,
            old(self)@.contains_key(ims_call_id@) || old(self)@.dom().len() < MAX_CONCURRENT_CALLS,
        ensures
            ({
                let call = incoming_call(
                    ims_call_id@,
                    local_tag@,
                    invite_dialog(frame@)->0,
                    frame@,
                    offer@,
                    audio,
                    video,
                    answers_immediately,
                );
                let told = caller_or_anonymous(
                    match caller {
                        Some(caller) => Some(caller@),
                        None => None,
                    },
                );
                &&& final(self)@ == old(self)@.insert(ims_call_id@, call)
                &&& actions_of(final(actions)@) == actions_of(old(actions)@) + incoming_actions(
                    call,
                    frame@,
                    told,
                    contact@,
                )
            }),
    {
        let ghost first = actions_of(actions@);
        let dialog = match read_invite_dialog(frame) {
            Some(dialog) => dialog,
            None => return,
        };
        let (pending_video_relay, operator_video_local, internal_video_local) = match video {
            Some(sockets) => (
                Some(sockets.relay),
                Some(sockets.operator_local),
                Some(sockets.internal_local),
            ),
            None => (None, None, None),
        };
        let trunk_offer = sdp::relay_media_sdp(&offer, audio.internal_local, internal_video_local);
        act(
            actions,
            CallAction::Send(
                OutboundSip::Response {
                    request: copy_bytes(frame),
                    status: 100,
                    reason: "Trying",
                    local_tag: Some(local_tag.clone()),
                    contact: None,
                    answer: None,
                },
            ),
        );
        if answers_immediately {
            let answer = sdp::relay_media_sdp(&offer, audio.operator_local, operator_video_local);
            act(
                actions,
                CallAction::Send(
                    OutboundSip::Response {
                        request: copy_bytes(frame),
                        status: 200,
                        reason: "OK",
                        local_tag: Some(local_tag.clone()),
                        contact: Some(contact.to_string()),
                        answer: Some(answer),
                    },
                ),
            );
        }
        let told = match caller {
            Some(caller) => normalize_incoming_caller(caller),
            None => "sip:anonymous@anonymous.invalid".to_string(),
        };
        act(
            actions,
            CallAction::Emit(
                OperatorEvent::Incoming {
                    call_id: ims_call_id.clone(),
                    caller: told,
                    body: trunk_offer,
                },
            ),
        );
        let call = LiveVoiceCall {
            direction: LiveVoiceDirection::MobileTerminated,
            dialog: DialogIds {
                call_id: ims_call_id.clone(),
                local_tag,
                remote_tag: Some(dialog.remote_tag),
                cseq: dialog.cseq,
            },
            callee_uri: dialog.remote_target,
            invite_branch: String::new(),
            initial_invite: Some(copy_bytes(frame)),
            internal_offer: offer,
            operator_local: audio.operator_local,
            internal_local: audio.internal_local,
            pending_relay: Some(audio.relay),
            active_relay: None,
            ip_answer_wait_armed: false,
            operator_answered: answers_immediately,
            next_cseq: 1,
            pending_operator_reinvite: None,
            pending_asterisk_reinvite: false,
            pending_video_relay,
            active_video_relay: None,
            operator_video_local,
            internal_video_local,
            pending_media_rollback: None,
            renegotiation_deadline: None,
            early_answer: None,
            transfer: None,
            transfer_deadline: None,
        };
        proof {
            let wanted = incoming_call(
                ims_call_id@,
                local_tag@,
                invite_dialog(frame@)->0,
                frame@,
                offer@,
                audio,
                video,
                answers_immediately,
            );
            assert(call@ == wanted);
            assert(actions_of(actions@) =~= first + incoming_actions(
                wanted,
                frame@,
                told@,
                contact@,
            ));
        }
        self.insert(ims_call_id, call);
    }

    /// Applies a frame to the call that owns its dialog, as far as nothing else
    /// is needed for that, and says which call it is and what is left to do.
    pub fn handle_operator_sip_frame(
        &mut self,
        frame: &[u8],
        mode: TrunkIpConnectMode,
        actions: &mut Vec<CallAction>,
    ) -> (r: (Option<String>, Result<FrameTask, VolteError>))
        ensures
            match r.0 {
                Some(id) => {
                    &&& old(self)@.contains_key(id@)
                    &&& header_of(frame@, "Call-ID"@) == Some(old(self)@[id@].dialog.call_id)
                    &&& stepped(
                        frame_step(old(self)@, id@, frame@, mode),
                        final(self)@,
                        actions_of(old(actions)@),
                        actions_of(final(actions)@),
                        r.1,
                    )
                },
                None => {
                    &&& !owned(old(self)@, frame@)
                    &&& r.1 == Ok::<FrameTask, VolteError>(stray_task(frame@))
                    &&& final(self)@ == old(self)@
                    &&& final(actions)@ == old(actions)@
                },
            },
    {
        proof {
            lemma_none(actions_of(actions@));
        }
        let call_id = match sip::header_value(frame, "Call-ID") {
            Some(call_id) => call_id,
            None => return (None, Ok(FrameTask::NotACall)),
        };
        let id = match self.find_dialog(call_id.as_str()) {
            Some(id) => id,
            None => {
                let task = if sip::is_request(frame, "INVITE") {
                    FrameTask::Incoming
                } else {
                    FrameTask::NotACall
                };
                return (None, Ok(task));
            },
        };
        let kind = match classify_call_frame(frame) {
            Ok(kind) => kind,
            Err(error) => return (Some(id), Err(error)),
        };
        let result = match kind {
            CallFrame::ReferNotify => Ok(FrameTask::ReferNotify),
            CallFrame::Invite => Ok(FrameTask::Reinvite),
            CallFrame::Cancel => settle(self.on_cancel(id.as_str(), frame, actions)),
            CallFrame::Bye => settle(self.on_bye(id.as_str(), frame, actions)),
            CallFrame::Info => Ok(FrameTask::Info),
            CallFrame::ReferResponse(status) => Ok(FrameTask::ReferResponse(status)),
            CallFrame::InviteResponse(status) => if 100 <= status && status < 200 {
                settle(self.on_provisional(id.as_str(), frame, status, mode, actions))
            } else if 200 <= status && status < 300 {
                settle(self.on_success(id.as_str(), frame, mode, actions))
            } else {
                settle(self.on_rejection(id.as_str(), status, actions))
            },
            CallFrame::OtherResponse => Ok(FrameTask::Handled),
            CallFrame::Unknown => Ok(FrameTask::Declined),
        };
        (Some(id), result)
    }

    /// Gives up requests that stayed unanswered for too long, in all calls and in
    /// some order: the operator is answered first, then the trunk is told.
    pub fn expire_renegotiations(&mut self, now: u64, actions: &mut Vec<CallAction>)
        ensures
            exists|ids: Seq<Seq<char>>|
                ids.to_set() == old(self)@.dom() && ids.no_duplicates() && {
                    &&& final(self)@ == #[trigger] expired_calls(old(self)@, ids, now)
                    &&& actions_of(final(actions)@) == actions_of(old(actions)@)
                        + all_timeout_responses(old(self)@, ids, now) + all_reinvite_timeouts(
                        old(self)@,
                        ids,
                        now,
                    ) + all_refer_timeouts(old(self)@, ids, now)
                },
    {
        let keys = self.keys();
        let ghost ids = texts(keys@);
        let ghost start = self@;
        let ghost first = actions_of(actions@);
        let mut reinvites: Vec<CallAction> = Vec::new();
        let mut refers: Vec<CallAction> = Vec::new();
        let mut i: usize = 0;
        proof {
            assert(ids.take(0) =~= Seq::<Seq<char>>::empty());
            assert(expired_calls(start, ids.take(0), now) =~= start);
            assert(actions_of(reinvites@) =~= Seq::<ActionView>::empty());
            assert(actions_of(refers@) =~= Seq::<ActionView>::empty());
            lemma_none(first);
        }
        while i < keys.len()
            invariant
                i <= keys@.len(),
                ids == texts(keys@),
                ids.to_set() == start.dom(),
                ids.no_duplicates(),
                self@ == expired_calls(start, ids.take(i as int), now),
                actions_of(actions@) == first + all_timeout_responses(
                    start,
                    ids.take(i as int),
                    now,
                ),
                actions_of(reinvites@) == all_reinvite_timeouts(start, ids.take(i as int), now),
                actions_of(refers@) == all_refer_timeouts(start, ids.take(i as int), now),
            decreases keys@.len() - i,
        {
            let ghost id = ids[i as int];
            let ghost done = ids.take(i as int);
            let ghost next = ids.take(i as int + 1);
            proof {
                assert(id == keys@[i as int]@);
                assert(ids.to_set().contains(id));
                assert(!done.contains(id)) by {
                    if done.contains(id) {
                        let j = done.index_of(id);
                        assert(ids[j] == ids[i as int]);
                    }
                }
                assert(next.drop_last() =~= done);
                assert(next.last() == id);
            }
            self.expire_call(
                keys[i].as_str(),
                now,
                actions,
                &mut reinvites,
                &mut refers,
            );
            proof {
                let before = all_timeout_responses(start, done, now);
                let more = timeout_responses(start[id], now);
                assert((first + before) + more =~= first + (before + more));
                assert(next =~= done.push(id));
                assert forall|k: Seq<char>| next.contains(k) <==> done.contains(k) || k == id by {
                    if done.contains(k) {
                        assert(next[done.index_of(k)] == k);
                    }
                    if k == id {
                        assert(next[i as int] == id);
                    }
                }
                assert(self@ =~= expired_calls(start, next, now));
            }
            i += 1;
        }
        proof {
            assert(ids.take(ids.len() as int) =~= ids);
        }
        let ghost responses = all_timeout_responses(start, ids, now);
        append_actions(actions, &mut reinvites);
        append_actions(actions, &mut refers);
    }

    fn expire_call(
        &mut self,
        id: &str,
        now: u64,
        actions: &mut Vec<CallAction>,
        reinvites: &mut Vec<CallAction>,
        refers: &mut Vec<CallAction>,
    )
        requires
            old(self)@.contains_key(id@),
        ensures
            final(self)@ == old(self)@.insert(id@, expired(old(self)@[id@], now)),
            actions_of(final(actions)@) == actions_of(old(actions)@) + timeout_responses(
                old(self)@[id@],
                now,
            ),
            actions_of(final(reinvites)@) == actions_of(old(reinvites)@) + reinvite_timeouts(
                id@,
                old(self)@[id@],
                now,
            ),
            actions_of(final(refers)@) == actions_of(old(refers)@) + refer_timeouts(
                id@,
                old(self)@[id@],
                now,
            ),
    {
        let ghost a = actions_of(actions@);
        let ghost b = actions_of(reinvites@);
        let ghost c = actions_of(refers@);
        match self.remove(id) {
            Some(mut call) => {
                let ghost was = call@;
                let reinvite_due = match call.renegotiation_deadline {
                    Some(deadline) => deadline <= now,
                    None => false,
                };
                if reinvite_due {
                    call.renegotiation_deadline = None;
                    call.rollback_media_update();
                    match call.pending_operator_reinvite.take() {
                        Some(request) => {
                            act(
                                actions,
                                CallAction::Send(
                                    OutboundSip::Response {
                                        request,
                                        status: 504,
                                        reason: "Server Time-out",
                                        local_tag: Some(call.dialog.local_tag.clone()),
                                        contact: None,
                                        answer: None,
                                    },
                                ),
                            );
                        },
                        None => {},
                    }
                    if call.pending_asterisk_reinvite {
                        call.pending_asterisk_reinvite = false;
                        act(
                            reinvites,
                            CallAction::Emit(
                                OperatorEvent::Rejected { call_id: id.to_string(), status: 408 },
                            ),
                        );
                    }
                }
                proof {
                    assert(call@ == reinvite_expired(was, now));
                    assert(actions_of(actions@) =~= a + timeout_responses(was, now));
                    assert(actions_of(reinvites@) =~= b + reinvite_timeouts(id@, was, now));
                }
                let refer_due = match call.transfer_deadline {
                    Some(deadline) => deadline <= now,
                    None => false,
                };
                if refer_due {
                    call.transfer_deadline = None;
                    if let Some(transfer) = call.transfer {
                        call.transfer = Some(
                            DialogTransfer { refer_cseq: transfer.refer_cseq, finished: true },
                        );
                    }
                    act(
                        refers,
                        CallAction::Emit(
                            OperatorEvent::TransferResponse { call_id: id.to_string(), status: 408 },
                        ),
                    );
                }
                proof {
                    assert(actions_of(refers@) =~= c + refer_timeouts(id@, was, now));
                    assert(call@ == expired(was, now));
                    lemma_put_back(old(self)@, id@, call@);
                }
                self.insert(id.to_string(), call);
            },
            None => {},
        }
    }
}

fn append_actions(actions: &mut Vec<CallAction>, more: &mut Vec<CallAction>)
    ensures
        actions_of(final(actions)@) == actions_of(old(actions)@) + actions_of(old(more)@),
{
    let ghost a = actions@;
    let ghost b = more@;
    actions.append(more);
    proof {
        assert(actions_of(actions@) =~= actions_of(a) + actions_of(b));
    }
}

/// A frame changes no call but the one it belongs to.
pub proof fn frames_keep_dialogs_apart(
    calls: CallMap,
    id: Seq<char>,
    frame: Seq<u8>,
    mode: TrunkIpConnectMode,
)
    ensures
        agree_but(calls, frame_step(calls, id, frame, mode).calls, id),
{
}

/// Expiry keeps every call: it only gives up what was in flight.
pub proof fn expiry_keeps_calls(calls: CallMap, ids: Seq<Seq<char>>, now: u64)
    ensures
        expired_calls(calls, ids, now).dom() == calls.dom(),
        forall|k: Seq<char>| #[trigger]
            calls.contains_key(k) ==> {
                let after = expired_calls(calls, ids, now)[k];
                &&& after.active_relay == calls[k].active_relay
                &&& after.active_video_relay == calls[k].active_video_relay
                &&& after.dialog == calls[k].dialog
                &&& after.operator_answered == calls[k].operator_answered
            },
{
    assert(expired_calls(calls, ids, now).dom() =~= calls.dom());
}

/// A line that carries `MAX_CONCURRENT_CALLS` calls answers a further INVITE
/// with busy and binds nothing for it.
pub proof fn full_line_is_busy(calls: CallMap, frame: Seq<u8>, link: TrunkLink)
    requires
        calls.dom().len() >= MAX_CONCURRENT_CALLS,
        link.has_local_ip,
        link.available,
    ensures
        incoming_decision(calls, frame, link) == DecisionView::Reject(486),
{
}

/// Messages that were not sent leave nothing to take back.
proof fn lemma_sends_undo_nothing(calls: CallMap, rest: Seq<ActionView>)
    requires
        forall|i: int| 0 <= i < rest.len() ==> (#[trigger] rest[i]) is Send,
    ensures
        undone(calls, rest) == calls,
    decreases rest.len(),
{
    if rest.len() > 0 {
        assert(rest.last() is Send);
        let front = rest.drop_last();
        assert forall|i: int| 0 <= i < front.len() implies (#[trigger] front[i]) is Send by {
            assert(front[i] == rest[i]);
        }
        lemma_sends_undo_nothing(calls, front);
    }
}

/// A BYE that could not be answered leaves its call, and every other one, as it was.
pub proof fn unanswered_bye_keeps_the_call(calls: CallMap, id: Seq<char>, frame: Seq<u8>)
    requires
        calls.contains_key(id),
        calls.dom().finite(),
        calls.dom().len() <= MAX_CONCURRENT_CALLS,
    ensures
        ({
            let step = bye_frame_step(calls, id, frame);
            undone(step.calls, step.actions.skip(1)) == calls
        }),
{
    reveal_with_fuel(undone, 4);
    let step = bye_frame_step(calls, id, frame);
    let rest = step.actions.skip(1);
    assert(rest =~= seq![step.actions[1], step.actions[2]]);
    assert(rest.drop_last() =~= seq![step.actions[1]]);
    assert(rest.drop_last().drop_last() =~= Seq::<ActionView>::empty());
    assert(step.calls.dom() =~= calls.dom().remove(id));
    assert(calls.remove(id).insert(id, calls[id]) =~= calls);
}

/// A call whose answer cannot be used stays, acknowledged or not, until the operator
/// was told of its end.
pub proof fn unusable_answer_keeps_the_call_until_told(
    calls: CallMap,
    id: Seq<char>,
    frame: Seq<u8>,
    mode: TrunkIpConnectMode,
    acknowledged: bool,
)
    requires
        calls.contains_key(id),
        calls.dom().finite(),
        calls.dom().len() <= MAX_CONCURRENT_CALLS,
        to_tag_of(frame) is Some,
        final_body_outcome(tagged(calls[id], frame), body_of(frame)).result is Err,
    ensures
        ({
            let outcome = final_body_outcome(tagged(calls[id], frame), body_of(frame));
            let step = success_step(calls, id, frame, mode);
            let unsent = outcome.activations.len() as int + (if acknowledged {
                1int
            } else {
                0int
            });
            undone(step.calls, step.actions.skip(unsent + 1)) == calls.insert(
                id,
                answered(outcome.call, false),
            )
        }),
{
    reveal_with_fuel(undone, 5);
    let outcome = final_body_outcome(tagged(calls[id], frame), body_of(frame));
    let step = success_step(calls, id, frame, mode);
    let call = answered(outcome.call, false);
    let n = outcome.activations.len() as int;
    let told = step.actions.skip(n + 2);
    let release = ActionView::Release { call_id: id, call };
    assert(step.actions[n + 2] == release);
    assert(told =~= seq![release, step.actions[n + 3]]);
    assert(told.drop_last() =~= seq![release]);
    assert(told.drop_last().drop_last() =~= Seq::<ActionView>::empty());
    assert(step.calls.dom() =~= calls.dom().remove(id));
    assert(undone(step.calls, told) == step.calls.insert(id, call));
    let both = step.actions.skip(n + 1);
    assert(both =~= seq![step.actions[n + 1], release, step.actions[n + 3]]);
    assert(both.drop_last() =~= seq![step.actions[n + 1], release]);
    assert(both.drop_last().drop_last() =~= seq![step.actions[n + 1]]);
    assert(both.drop_last().drop_last().drop_last() =~= Seq::<ActionView>::empty());
    assert(undone(step.calls, both) == step.calls.insert(id, call));
    assert(calls.remove(id).insert(id, call) =~= calls.insert(id, call));
}

/// A call that begins at the operator's side holds no place on the line when a response
/// to its INVITE could not be sent.
pub proof fn unanswered_invite_leaves_no_call(
    calls: CallMap,
    call: CallView,
    frame: Seq<u8>,
    caller: Seq<char>,
    contact: Seq<char>,
    sent: nat,
)
    requires
        !calls.contains_key(call.dialog.call_id),
        sent < (if call.operator_answered {
            2nat
        } else {
            1nat
        }),
    ensures
        undone(
            calls.insert(call.dialog.call_id, call),
            incoming_actions(call, frame, caller, contact).skip(sent as int + 1),
        ) == calls,
{
    let id = call.dialog.call_id;
    let all = incoming_actions(call, frame, caller, contact);
    let rest = all.skip(sent as int + 1);
    let before = calls.insert(id, call);
    assert(rest.last() == all.last());
    assert(taken_back(before, all.last()) == before.remove(id));
    let front = rest.drop_last();
    assert forall|i: int| 0 <= i < front.len() implies (#[trigger] front[i]) is Send by {
        assert(front[i] == all[sent as int + 1 + i]);
    }
    lemma_sends_undo_nothing(before.remove(id), front);
    assert(undone(before, rest) == undone(taken_back(before, rest.last()), front));
    assert(before.remove(id) =~= calls);
}

/// One transfer at a time: once a transfer was accepted, another one of the same call is
/// refused and changes nothing, until the first is finished, by a response or a
/// notification, or has expired.
pub proof fn one_transfer_at_a_time(
    calls: CallMap,
    id: Seq<char>,
    refer_to: Seq<char>,
    domain: Seq<char>,
    started: u64,
    again_to: Seq<char>,
    unwritable: Option<Seq<char>>,
    now: u64,
    status: u16,
    frame: Seq<u8>,
    finished: bool,
)
    requires
        transfer_step(calls, id, refer_to, domain, None, started).result is Ok,
        started <= u64::MAX - REFER_RESPONSE_TIMEOUT_MS,
        callee_uri_of(again_to, domain) is Ok,
    ensures
        ({
            let asked = transfer_step(calls, id, refer_to, domain, None, started).calls;
            let waited = expired_calls(asked, seq![id], now);
            let due_at = started + REFER_RESPONSE_TIMEOUT_MS;
            let pending = Err::<(), ErrorView>(failure("volte_transfer_pending"@));
            &&& transfer_step(asked, id, again_to, domain, unwritable, now).result == pending
            &&& transfer_step(asked, id, again_to, domain, unwritable, now).calls == asked
            &&& now < due_at ==> transfer_step(
                waited,
                id,
                again_to,
                domain,
                unwritable,
                now,
            ).result == pending
            &&& now >= due_at ==> transfer_step(
                waited,
                id,
                again_to,
                domain,
                None,
                now,
            ).result is Ok
            &&& finished <==> transfer_step(
                refer_response_step(asked, id, status, Ok(finished)).calls,
                id,
                again_to,
                domain,
                None,
                now,
            ).result is Ok
            &&& finished <==> transfer_step(
                refer_notify_step(asked, id, frame, ReferNotice::Accepted { finished }).calls,
                id,
                again_to,
                domain,
                None,
                now,
            ).result is Ok
        }),
{
    let asked = transfer_step(calls, id, refer_to, domain, None, started).calls;
    assert(seq![id].contains(id)) by {
        assert(seq![id][0] == id);
    }
    assert(asked[id] == transferring(calls[id], started));
}

} // verus!
