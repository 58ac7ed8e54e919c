//! What SIP frames of the operator do to a line's calls.

use vstd::prelude::*;
use vstd::string::*;

use crate::calls::actions::{
    act, act_starts, actions_of, copy_bytes, plain_response, refused, starts, stepped, ActionView,
    CallAction, DtmfSignal, EventView, OperatorEvent, OutboundSip, SipView, Step,
};
use crate::calls::commands::{
    bye, lemma_fresh_starts, lemma_none, lemma_one, numbered, reinvite_pending,
    renegotiation_abandoned, say_bye,
};
use crate::calls::media;
use crate::calls::media::{
    armed, final_body_outcome, first_rtp_relay, operator_body_outcome, RelayActivation,
};
use crate::calls::table::{lemma_put_back, CallMap, VoiceCalls};
use crate::calls::{
    video_internal_local, video_operator_local, video_relay, CallView, DialogTransfer, DialogView,
    LiveVoiceCall, LiveVoiceDirection, RelaySockets, MAX_CONCURRENT_CALLS, REINVITE_TIMEOUT_MS,
};
use crate::errors::{detailed, failure, ErrorView, VolteError};
use crate::sdp;
use crate::sdp::{
    audio_endpoint, audio_of, event_of, relayed_offer, video_endpoint, video_of, AudioView,
    DtmfCapabilities, DtmfSource, MediaOffer, OfferView, VideoOffer, VideoOfferView,
};
use crate::sip;
use crate::sip::{
    asks_reliable, body_of, cseq_method_of, cseq_number_of, header_of, header_uri_of,
    is_refer_event, parameter_of, requests, responds, rseq_of, status_of, to_tag_of,
};
use crate::text;
use crate::text::{after_prefix, opt, same_folded};

verus! {

/// When the trunk side of an outgoing call is answered.
#[derive(Debug, Clone, Copy, PartialEq, Eq, Structural)]
pub enum TrunkIpConnectMode {
    /// As soon as the operator answers.
    GsmAnswer,
    /// With the first packet that the operator sends.
    FirstRtp,
}

/// What the trunk link is ready for.
#[derive(Debug, Clone, Copy, PartialEq, Eq, Structural)]
pub struct TrunkLink {
    /// The trunk has a local address for relay sockets.
    pub has_local_ip: bool,
    pub available: bool,
    pub video_enabled: bool,
    /// An incoming call is answered towards the operator at once.
    pub answers_immediately: bool,
}

/// What a frame of a known call is.
#[derive(Debug, Clone, Copy, PartialEq, Eq, Structural)]
pub enum CallFrame {
    ReferNotify,
    Invite,
    Cancel,
    Bye,
    Info,
    ReferResponse(u16),
    InviteResponse(u16),
    OtherResponse,
    Unknown,
}

/// What a frame of a known call is, or why its status cannot be read.
pub open spec fn call_frame(frame: Seq<u8>) -> Result<CallFrame, ErrorView> {
    if requests(frame, "NOTIFY"@) && is_refer_event(frame) {
        Ok(CallFrame::ReferNotify)
    } else if requests(frame, "INVITE"@) {
        Ok(CallFrame::Invite)
    } else if requests(frame, "CANCEL"@) {
        Ok(CallFrame::Cancel)
    } else if requests(frame, "BYE"@) {
        Ok(CallFrame::Bye)
    } else if requests(frame, "INFO"@) {
        Ok(CallFrame::Info)
    } else if responds(frame) {
        match status_of(frame) {
            Err(error) => Err(error),
            Ok(status) => match cseq_method_of(frame) {
                Some(method) => if same_folded(method, "REFER"@) {
                    Ok(CallFrame::ReferResponse(status as u16))
                } else if method == "INVITE"@ {
                    Ok(CallFrame::InviteResponse(status as u16))
                } else {
                    Ok(CallFrame::OtherResponse)
                },
                None => Ok(CallFrame::OtherResponse),
            },
        }
    } else {
        Ok(CallFrame::Unknown)
    }
}

/// Tells what a frame of a known call is.
pub fn classify_call_frame(frame: &[u8]) -> (r: Result<CallFrame, VolteError>)
    ensures
        match r {
            Ok(kind) => call_frame(frame@) == Ok::<CallFrame, ErrorView>(kind),
            Err(error) => call_frame(frame@) == Err::<CallFrame, ErrorView>(error@),
        },
{
    if sip::is_request(frame, "NOTIFY") && sip::names_refer_event(frame) {
        return Ok(CallFrame::ReferNotify);
    }
    if sip::is_request(frame, "INVITE") {
        return Ok(CallFrame::Invite);
    }
    if sip::is_request(frame, "CANCEL") {
        return Ok(CallFrame::Cancel);
    }
    if sip::is_request(frame, "BYE") {
        return Ok(CallFrame::Bye);
    }
    if sip::is_request(frame, "INFO") {
        return Ok(CallFrame::Info);
    }
    if !sip::is_response(frame) {
        return Ok(CallFrame::Unknown);
    }
    let status = match sip::parse_status(frame) {
        Ok(status) => status,
        Err(error) => return Err(error),
    };
    match sip::cseq_method(frame) {
        Some(method) => {
            if text::same_ignoring_case(method.as_str(), "REFER") {
                Ok(CallFrame::ReferResponse(status))
            } else if text::same(method.as_str(), "INVITE") {
                Ok(CallFrame::InviteResponse(status))
            } else {
                Ok(CallFrame::OtherResponse)
            }
        },
        None => Ok(CallFrame::OtherResponse),
    }
}

// ---------------------------------------------------------------------------
// Requests of the operator that end a call.

/// The operator takes an incoming call back. One that is answered already is
/// past that; an outgoing one is dropped and the frame left unanswered.
pub open spec fn cancel_frame_step(calls: CallMap, id: Seq<char>, frame: Seq<u8>) -> Step<bool> {
    let call = calls[id];
    if !calls.contains_key(id) {
        refused(calls, "volte_voice_call_unknown"@)
    } else if call.operator_answered {
        Step {
            calls,
            actions: seq![plain_response(frame, 481, "Call/Transaction Does Not Exist"@, None)],
            result: Ok(true),
        }
    } else if call.direction != LiveVoiceDirection::MobileTerminated {
        Step { calls: calls.remove(id), actions: Seq::empty(), result: Ok(false) }
    } else {
        let ok = plain_response(frame, 200, "OK"@, None);
        let told = ActionView::Emit(EventView::Cancelled { call_id: id });
        Step {
            calls: calls.remove(id),
            actions: match call.initial_invite {
                Some(invite) => seq![
                    ok,
                    plain_response(invite, 487, "Request Terminated"@, Some(call.dialog.local_tag)),
                    told,
                ],
                None => seq![ok, told],
            },
            result: Ok(true),
        }
    }
}

/// The operator ends a call. It is let go of once that is answered.
pub open spec fn bye_frame_step(calls: CallMap, id: Seq<char>, frame: Seq<u8>) -> Step<bool> {
    Step {
        calls: calls.remove(id),
        actions: seq![
            plain_response(frame, 200, "OK"@, None),
            ActionView::Release { call_id: id, call: calls[id] },
            ActionView::Emit(EventView::Ended { call_id: id }),
        ],
        result: Ok(true),
    }
}

/// The operator sends INFO, with a keypress where `signal` holds one.
pub open spec fn info_frame_step(
    calls: CallMap,
    id: Seq<char>,
    frame: Seq<u8>,
    signal: Option<DtmfSignal>,
) -> Step<bool> {
    let ok = plain_response(frame, 200, "OK"@, None);
    Step {
        calls,
        actions: match signal {
            Some(signal) => seq![ok, ActionView::Emit(EventView::Dtmf { call_id: id, signal })],
            None => seq![ok],
        },
        result: Ok(true),
    }
}

// ---------------------------------------------------------------------------
// Responses to an INVITE.

/// The call with the tag that the operator gave its side of the dialog.
pub open spec fn tagged(call: CallView, frame: Seq<u8>) -> CallView {
    match to_tag_of(frame) {
        Some(tag) => CallView {
            dialog: DialogView { remote_tag: Some(tag), ..call.dialog },
            ..call
        },
        None => call,
    }
}

pub open spec fn provisional(id: Seq<char>, status: u16, answer: Option<Seq<char>>) -> ActionView {
    ActionView::Emit(EventView::Provisional { call_id: id, status, answer })
}

/// Waiting for the operator's first packet with an answer ready.
pub open spec fn first_rtp_wait(
    id: Seq<char>,
    relay: Option<u64>,
    answer: Option<Seq<char>>,
) -> Seq<ActionView> {
    match (answer, relay) {
        (Some(body), Some(relay)) => seq![ActionView::AwaitFirstRtp { call_id: id, relay, body }],
        _ => Seq::empty(),
    }
}

/// What remains to do with a provisional response once its media is settled:
/// acknowledge it where it asks for that, and tell the trunk.
pub open spec fn provisional_tail(
    calls: CallMap,
    id: Seq<char>,
    frame: Seq<u8>,
    status: u16,
    delayed: bool,
    call: CallView,
    answer: Option<Seq<char>>,
) -> Step<bool> {
    let relay = if delayed {
        first_rtp_relay(call)
    } else {
        None
    };
    let waiting = if delayed {
        armed(call)
    } else {
        call
    };
    let told = seq![provisional(id, status, answer)] + first_rtp_wait(id, relay, answer);
    if !asks_reliable(frame) {
        Step { calls: calls.insert(id, waiting), actions: told, result: Ok(true) }
    } else {
        match rseq_of(frame) {
            None => Step {
                calls: calls.insert(id, waiting),
                actions: Seq::empty(),
                result: Err(failure("volte_voice_rseq_missing"@)),
            },
            Some(rseq) => Step {
                calls: calls.insert(id, numbered(waiting)),
                actions: seq![
                    ActionView::Send(
                        SipView::Prack {
                            dialog: waiting.dialog,
                            target: waiting.callee_uri,
                            cseq: waiting.next_cseq,
                            rseq: rseq as u32,
                            invite_cseq: waiting.dialog.cseq,
                        },
                    ),
                ] + told,
                result: Ok(true),
            },
        }
    }
}

/// A provisional response that carries media.
pub open spec fn provisional_media(
    calls: CallMap,
    id: Seq<char>,
    frame: Seq<u8>,
    status: u16,
    delayed: bool,
    call: CallView,
) -> Step<bool> {
    let outcome = operator_body_outcome(call, body_of(frame));
    let started = starts(outcome.activations);
    match outcome.result {
        Err(error) => Step {
            calls: calls.insert(id, outcome.call),
            actions: started,
            result: Err(error),
        },
        Ok(answer) => {
            let rest = provisional_tail(
                calls,
                id,
                frame,
                status,
                delayed,
                CallView { early_answer: Some(answer), ..outcome.call },
                Some(answer),
            );
            Step { actions: started + rest.actions, ..rest }
        },
    }
}

/// A provisional response. Media that it carries is negotiated at once, and the
/// answer kept for a final response without one.
pub open spec fn provisional_step(
    calls: CallMap,
    id: Seq<char>,
    frame: Seq<u8>,
    status: u16,
    mode: TrunkIpConnectMode,
) -> Step<bool> {
    let delayed = mode == TrunkIpConnectMode::FirstRtp;
    if !calls.contains_key(id) {
        refused(calls, "volte_voice_call_unknown"@)
    } else if calls[id].pending_asterisk_reinvite {
        Step { calls, actions: seq![provisional(id, status, None)], result: Ok(true) }
    } else if body_of(frame).len() == 0 {
        provisional_tail(calls, id, frame, status, delayed, tagged(calls[id], frame), None)
    } else {
        provisional_media(calls, id, frame, status, delayed, tagged(calls[id], frame))
    }
}

/// The call once the operator has answered it.
pub open spec fn answered(call: CallView, usable: bool) -> CallView {
    CallView {
        pending_asterisk_reinvite: false,
        operator_answered: true,
        pending_media_rollback: if usable {
            None
        } else {
            call.pending_media_rollback
        },
        early_answer: None,
        renegotiation_deadline: None,
        ..call
    }
}

/// A success response: acknowledged in any case. Media that cannot be used ends
/// the call.
pub open spec fn success_step(
    calls: CallMap,
    id: Seq<char>,
    frame: Seq<u8>,
    mode: TrunkIpConnectMode,
) -> Step<bool> {
    let immediate = mode == TrunkIpConnectMode::GsmAnswer;
    if !calls.contains_key(id) {
        refused(calls, "volte_voice_call_unknown"@)
    } else if to_tag_of(frame) is None {
        refused(calls, "volte_voice_remote_tag_missing"@)
    } else {
        let reinvite = calls[id].pending_asterisk_reinvite;
        let outcome = final_body_outcome(tagged(calls[id], frame), body_of(frame));
        let started = starts(outcome.activations);
        let usable = outcome.result is Ok;
        let waits = !reinvite && !immediate && usable;
        let relay = if waits {
            first_rtp_relay(outcome.call)
        } else {
            None
        };
        let call = answered(
            if waits {
                armed(outcome.call)
            } else {
                outcome.call
            },
            usable,
        );
        let ack = ActionView::Send(SipView::Ack { dialog: call.dialog, target: call.callee_uri });
        match outcome.result {
            Ok(answer) => Step {
                calls: calls.insert(id, call),
                actions: if immediate || reinvite {
                    started + seq![
                        ack,
                        ActionView::Emit(EventView::Answered { call_id: id, body: answer }),
                    ]
                } else {
                    started + (seq![ack] + first_rtp_wait(id, relay, Some(answer)))
                },
                result: Ok(true),
            },
            Err(_) => Step {
                calls: calls.remove(id),
                actions: started + seq![
                    ack,
                    bye(call),
                    ActionView::Release { call_id: id, call },
                    ActionView::Emit(EventView::Rejected { call_id: id, status: 488 }),
                ],
                result: Ok(true),
            },
        }
    }
}

/// Any other final response: new media is given up, a new call is over.
pub open spec fn rejection_step(calls: CallMap, id: Seq<char>, status: u16) -> Step<bool> {
    Step {
        calls: if calls.contains_key(id) && calls[id].pending_asterisk_reinvite {
            calls.insert(id, renegotiation_abandoned(calls[id]))
        } else {
            calls.remove(id)
        },
        actions: seq![ActionView::Emit(EventView::Rejected { call_id: id, status })],
        result: Ok(true),
    }
}

/// A response to an INVITE.
pub open spec fn invite_response_step(
    calls: CallMap,
    id: Seq<char>,
    frame: Seq<u8>,
    status: u16,
    mode: TrunkIpConnectMode,
) -> Step<bool> {
    if 100 <= status < 200 {
        provisional_step(calls, id, frame, status, mode)
    } else if 200 <= status < 300 {
        success_step(calls, id, frame, mode)
    } else {
        rejection_step(calls, id, status)
    }
}

// ---------------------------------------------------------------------------
// Transfers.

/// A response to a REFER. `progress` says whether it ends the transfer, or why
/// it does not fit.
pub open spec fn refer_response_step(
    calls: CallMap,
    id: Seq<char>,
    status: u16,
    progress: Result<bool, Seq<char>>,
) -> Step<bool> {
    if !calls.contains_key(id) {
        refused(calls, "volte_voice_call_unknown"@)
    } else {
        match (calls[id].transfer, progress) {
            (None, _) => refused(calls, "volte_transfer_not_pending"@),
            (Some(_), Err(reason)) => Step {
                calls,
                actions: Seq::empty(),
                result: Err(detailed("volte_transfer_response_invalid"@, reason)),
            },
            (Some(transfer), Ok(finished)) => Step {
                calls: calls.insert(
                    id,
                    CallView {
                        transfer: Some(DialogTransfer { finished, ..transfer }),
                        transfer_deadline: if status >= 200 {
                            None
                        } else {
                            calls[id].transfer_deadline
                        },
                        ..calls[id]
                    },
                ),
                actions: seq![
                    ActionView::Emit(EventView::TransferResponse { call_id: id, status }),
                ],
                result: Ok(true),
            },
        }
    }
}

/// What became of a notification about a transfer.
#[derive(Debug, Clone, Copy, PartialEq, Eq, Structural)]
pub enum ReferNotice {
    /// It cannot be read.
    Malformed,
    /// It can be read, but does not fit the transfer.
    Refused,
    /// It fits the transfer, and ends it where `finished`.
    Accepted { finished: bool },
}

/// A notification about a transfer: accepted only where a transfer was asked for.
pub open spec fn refer_notify_step(
    calls: CallMap,
    id: Seq<char>,
    frame: Seq<u8>,
    notice: ReferNotice,
) -> Step<bool> {
    let transfer = if calls.contains_key(id) {
        calls[id].transfer
    } else {
        None
    };
    match (notice, transfer) {
        (ReferNotice::Accepted { finished }, Some(transfer)) => Step {
            calls: calls.insert(
                id,
                CallView {
                    transfer: Some(DialogTransfer { finished, ..transfer }),
                    ..calls[id]
                },
            ),
            actions: seq![
                plain_response(frame, 200, "OK"@, None),
                ActionView::Emit(EventView::TransferNotify { call_id: id }),
            ],
            result: Ok(true),
        },
        (ReferNotice::Malformed, _) => Step {
            calls,
            actions: seq![plain_response(frame, 400, "Bad Request"@, None)],
            result: Ok(true),
        },
        _ => Step {
            calls,
            actions: seq![plain_response(frame, 481, "Call/Transaction Does Not Exist"@, None)],
            result: Ok(true),
        },
    }
}

// ---------------------------------------------------------------------------
// INVITEs of the operator.

/// The video that a body offers, where its endpoint can be used.
pub open spec fn video_offered(audio: AudioView, body: Seq<u8>) -> Option<VideoOfferView> {
    match video_of(body) {
        Some(description) => match video_endpoint(audio, description) {
            Ok(endpoint) => Some(VideoOfferView { description, endpoint }),
            Err(_) => None,
        },
        None => None,
    }
}

/// What a body offers, or why it cannot be used.
pub open spec fn offered(body: Seq<u8>) -> Result<OfferView, ErrorView> {
    match audio_of(body) {
        Err(reason) => Err(detailed("volte_voice_sdp_invalid"@, reason)),
        Ok(audio) => match audio_endpoint(audio) {
            Err(error) => Err(error),
            Ok(audio_endpoint) => Ok(
                OfferView {
                    audio,
                    audio_endpoint,
                    video: video_offered(audio, body),
                    event: event_of(body),
                    sip_info: true,
                    preferred: if event_of(body) is Some {
                        DtmfSource::RtpEvent
                    } else {
                        DtmfSource::SipInfo
                    },
                },
            ),
        },
    }
}

/// Reads what a body offers.
pub fn read_offer(body: &[u8]) -> (r: Result<MediaOffer, VolteError>)
    ensures
        match r {
            Ok(offer) => offered(body@) == Ok::<OfferView, ErrorView>(offer@),
            Err(error) => offered(body@) == Err::<OfferView, ErrorView>(error@),
        },
{
    let audio = match sdp::parse_audio_sdp(body) {
        Ok(audio) => audio,
        Err(reason) => return Err(VolteError::with_detail("volte_voice_sdp_invalid", reason)),
    };
    let audio_endpoint = match sdp::media_socket_addr(&audio) {
        Ok(endpoint) => endpoint,
        Err(error) => return Err(error),
    };
    let video = match sdp::parse_video_sdp(body) {
        Some(description) => match sdp::media_endpoint_for_video(&audio, &description) {
            Ok(endpoint) => Some(VideoOffer { description, endpoint }),
            Err(_) => None,
        },
        None => None,
    };
    let rtp_event = sdp::parse_rtp_telephone_event(body);
    let preferred = if rtp_event.is_some() {
        DtmfSource::RtpEvent
    } else {
        DtmfSource::SipInfo
    };
    Ok(
        MediaOffer {
            audio,
            audio_endpoint,
            video,
            dtmf: DtmfCapabilities { rtp_event, sip_info: true, preferred },
        },
    )
}

/// How an INVITE goes on.
#[derive(Debug, PartialEq, Eq)]
pub enum InviteDecision {
    /// Answer it with this status.
    Reject(u16),
    /// Bind relay sockets for this offer.
    Bind(MediaOffer),
}

pub enum DecisionView {
    Reject(u16),
    Bind(OfferView),
}

impl View for InviteDecision {
    type V = DecisionView;

    open spec fn view(&self) -> DecisionView {
        match *self {
            InviteDecision::Reject(status) => DecisionView::Reject(status),
            InviteDecision::Bind(offer) => DecisionView::Bind(offer@),
        }
    }
}

/// How a re-INVITE within the call `id` goes on.
pub open spec fn reinvite_decision(
    calls: CallMap,
    id: Seq<char>,
    frame: Seq<u8>,
    link: TrunkLink,
) -> Result<DecisionView, ErrorView> {
    if !link.has_local_ip || !link.available {
        Ok(DecisionView::Reject(480))
    } else if calls.contains_key(id) && reinvite_pending(calls[id]) {
        Ok(DecisionView::Reject(491))
    } else {
        match offered(body_of(frame)) {
            Err(error) => Err(error),
            Ok(offer) => if offer.video is Some && !link.video_enabled {
                Ok(DecisionView::Reject(488))
            } else {
                Ok(DecisionView::Bind(offer))
            },
        }
    }
}

/// The call with a re-INVITE of the operator under way.
pub open spec fn reinvited(
    call: CallView,
    frame: Seq<u8>,
    offer: OfferView,
    audio: RelaySockets,
    video: Option<RelaySockets>,
    now: u64,
) -> CallView {
    CallView {
        pending_operator_reinvite: Some(frame),
        renegotiation_deadline: Some((now + REINVITE_TIMEOUT_MS) as u64),
        ..call.staged(offer, audio, video)
    }
}

/// Passing the operator's re-INVITE on to the trunk.
pub open spec fn reinvite_step(
    calls: CallMap,
    id: Seq<char>,
    frame: Seq<u8>,
    offer: OfferView,
    audio: RelaySockets,
    video: Option<RelaySockets>,
    now: u64,
) -> Step<bool> {
    if !calls.contains_key(id) {
        refused(calls, "volte_voice_call_unknown"@)
    } else {
        Step {
            calls: calls.insert(id, reinvited(calls[id], frame, offer, audio, video, now)),
            actions: seq![
                plain_response(frame, 100, "Trying"@, Some(calls[id].dialog.local_tag)),
                ActionView::Emit(
                    EventView::Renegotiate {
                        call_id: id,
                        body: relayed_offer(
                            offer,
                            audio.internal_local,
                            video_internal_local(video),
                        ),
                    },
                ),
            ],
            result: Ok(true),
        }
    }
}

/// What a new INVITE says of its dialog.
pub struct InviteDialogView {
    pub remote_target: Seq<char>,
    pub remote_tag: Seq<char>,
    pub cseq: nat,
}

/// What a new INVITE says of its dialog, where it says all of it.
pub open spec fn invite_dialog(frame: Seq<u8>) -> Option<InviteDialogView> {
    match (header_uri_of(frame, "From"@), header_of(frame, "From"@), cseq_number_of(frame)) {
        (Some(from), Some(value), Some(cseq)) => match parameter_of(value, "tag"@) {
            Some(remote_tag) => Some(
                InviteDialogView {
                    remote_target: match header_uri_of(frame, "Contact"@) {
                        Some(contact) => contact,
                        None => from,
                    },
                    remote_tag,
                    cseq,
                },
            ),
            None => None,
        },
        _ => None,
    }
}

/// How a new INVITE goes on. A line that is full is busy before anything is
/// read of the offer.
pub open spec fn incoming_decision(
    calls: CallMap,
    frame: Seq<u8>,
    link: TrunkLink,
) -> DecisionView {
    if !link.has_local_ip || !link.available {
        DecisionView::Reject(480)
    } else if calls.dom().len() >= MAX_CONCURRENT_CALLS {
        DecisionView::Reject(486)
    } else {
        match offered(body_of(frame)) {
            Err(_) => DecisionView::Reject(488),
            Ok(offer) => if offer.video is Some && !link.video_enabled {
                DecisionView::Reject(488)
            } else if invite_dialog(frame) is None {
                DecisionView::Reject(400)
            } else {
                DecisionView::Bind(offer)
            },
        }
    }
}

/// The caller as the trunk is told: a SIP address in any case.
pub open spec fn caller_of(caller: Seq<char>) -> Seq<char> {
    match after_prefix(caller, "tel:"@) {
        Some(number) => "sip:"@ + number + "@simadmin"@,
        None => match after_prefix(caller, "sips:"@) {
            Some(rest) => "sip:"@ + rest,
            None => caller,
        },
    }
}

/// The caller, or the anonymous one where none is known.
pub open spec fn caller_or_anonymous(caller: Option<Seq<char>>) -> Seq<char> {
    match caller {
        Some(caller) => caller_of(caller),
        None => "sip:anonymous@anonymous.invalid"@,
    }
}

/// A call that the operator has just begun.
pub open spec fn incoming_call(
    ims_call_id: Seq<char>,
    local_tag: Seq<char>,
    dialog: InviteDialogView,
    frame: Seq<u8>,
    offer: OfferView,
    audio: RelaySockets,
    video: Option<RelaySockets>,
    operator_answered: bool,
) -> CallView {
    CallView {
        direction: LiveVoiceDirection::MobileTerminated,
        dialog: DialogView {
            call_id: ims_call_id,
            local_tag,
            remote_tag: Some(dialog.remote_tag),
            cseq: dialog.cseq as u32,
        },
        callee_uri: dialog.remote_target,
        invite_branch: Seq::empty(),
        initial_invite: Some(frame),
        internal_offer: offer,
        operator_local: audio.operator_local,
        internal_local: audio.internal_local,
        pending_relay: Some(audio.relay),
        active_relay: None,
        ip_answer_wait_armed: false,
        operator_answered,
        next_cseq: 1,
        pending_operator_reinvite: None,
        pending_asterisk_reinvite: false,
        pending_video_relay: video_relay(video),
        active_video_relay: None,
        operator_video_local: video_operator_local(video),
        internal_video_local: video_internal_local(video),
        pending_media_rollback: None,
        renegotiation_deadline: None,
        early_answer: None,
        transfer: None,
        transfer_deadline: None,
    }
}

/// What is said at the start of an incoming call.
pub open spec fn incoming_actions(
    call: CallView,
    frame: Seq<u8>,
    caller: Seq<char>,
    contact: Seq<char>,
) -> Seq<ActionView> {
    let trying = plain_response(frame, 100, "Trying"@, Some(call.dialog.local_tag));
    let told = ActionView::Emit(
        EventView::Incoming {
            call_id: call.dialog.call_id,
            caller,
            body: relayed_offer(call.internal_offer, call.internal_local, call.internal_video_local),
        },
    );
    if call.operator_answered {
        seq![
            trying,
            ActionView::Send(
                SipView::Response {
                    request: frame,
                    status: 200,
                    reason: "OK"@,
                    local_tag: Some(call.dialog.local_tag),
                    contact: Some(contact),
                    answer: Some(
                        relayed_offer(
                            call.internal_offer,
                            call.operator_local,
                            call.operator_video_local,
                        ),
                    ),
                },
            ),
            told,
        ]
    } else {
        seq![trying, told]
    }
}

/// The caller as the trunk is told.
pub fn normalize_incoming_caller(caller: &str) -> (r: String)
    ensures
        r@ == caller_of(caller@),
{
    match text::strip_prefix(caller, "tel:") {
        Some(number) => {
            let mut uri = "sip:".to_string();
            uri.append(number.as_str());
            uri.append("@simadmin");
            uri
        },
        None => match text::strip_prefix(caller, "sips:") {
            Some(rest) => {
                let mut uri = "sip:".to_string();
                uri.append(rest.as_str());
                uri
            },
            None => caller.to_string(),
        },
    }
}

// ---------------------------------------------------------------------------

fn answer_frame(frame: &[u8], status: u16, reason: &'static str) -> (r: CallAction)
    ensures
        r@ == plain_response(frame@, status, reason@, None),
{
    CallAction::Send(
        OutboundSip::Response {
            request: copy_bytes(frame),
            status,
            reason,
            local_tag: None,
            contact: None,
            answer: None,
        },
    )
}

fn set_remote_tag(call: &mut LiveVoiceCall, tag: Option<String>)
    ensures
        final(call)@ == (match tag {
            Some(tag) => CallView {
                dialog: DialogView { remote_tag: Some(tag@), ..old(call)@.dialog },
                ..old(call)@
            },
            None => old(call)@,
        }),
{
    match tag {
        Some(tag) => {
            call.dialog.remote_tag = Some(tag);
        },
        None => {},
    }
}

impl VoiceCalls {
    /// The operator takes a call back.
    pub fn on_cancel(
        &mut self,
        call_id: &str,
        frame: &[u8],
        actions: &mut Vec<CallAction>,
    ) -> (r: Result<bool, VolteError>)
        ensures
            stepped(
                cancel_frame_step(old(self)@, call_id@, frame@),
                final(self)@,
                actions_of(old(actions)@),
                actions_of(final(actions)@),
                r,
            ),
    {
        let ghost first = actions_of(actions@);
        proof {
            lemma_none(first);
        }
        match self.get(call_id) {
            Some(call) => {
                if call.operator_answered {
                    let action = answer_frame(frame, 481, "Call/Transaction Does Not Exist");
                    proof {
                        lemma_one(first, action@);
                    }
                    act(actions, action);
                    return Ok(true);
                }
            },
            None => return Err(VolteError::new("volte_voice_call_unknown")),
        }
        match self.remove(call_id) {
            Some(call) => {
                if call.direction != LiveVoiceDirection::MobileTerminated {
                    return Ok(false);
                }
                act(actions, answer_frame(frame, 200, "OK"));
                match call.initial_invite {
                    Some(invite) => {
                        act(
                            actions,
                            CallAction::Send(
                                OutboundSip::Response {
                                    request: invite,
                                    status: 487,
                                    reason: "Request Terminated",
                                    local_tag: Some(call.dialog.local_tag),
                                    contact: None,
                                    answer: None,
                                },
                            ),
                        );
                    },
                    None => {},
                }
                act(
                    actions,
                    CallAction::Emit(OperatorEvent::Cancelled { call_id: call_id.to_string() }),
                );
                proof {
                    let step = cancel_frame_step(old(self)@, call_id@, frame@);
                    assert(actions_of(actions@) =~= first + step.actions);
                }
                Ok(true)
            },
            None => Err(VolteError::new("volte_voice_call_unknown")),
        }
    }

    /// The operator ends a call.
    pub fn on_bye(&mut self, call_id: &str, frame: &[u8], actions: &mut Vec<CallAction>) -> (r:
        Result<bool, VolteError>)
        requires
            old(self)@.contains_key(call_id@),
        ensures
            stepped(
                bye_frame_step(old(self)@, call_id@, frame@),
                final(self)@,
                actions_of(old(actions)@),
                actions_of(final(actions)@),
                r,
            ),
    {
        let ghost first = actions_of(actions@);
        act(actions, answer_frame(frame, 200, "OK"));
        if let Some(call) = self.remove(call_id) {
            act(actions, CallAction::Release { call_id: call_id.to_string(), call });
        }
        act(actions, CallAction::Emit(OperatorEvent::Ended { call_id: call_id.to_string() }));
        proof {
            let step = bye_frame_step(old(self)@, call_id@, frame@);
            assert(actions_of(actions@) =~= first + step.actions);
        }
        Ok(true)
    }

    /// The operator sends INFO.
    pub fn on_info(
        &self,
        call_id: &str,
        frame: &[u8],
        signal: Option<DtmfSignal>,
        actions: &mut Vec<CallAction>,
    ) -> (r: Result<bool, VolteError>)
        ensures
            stepped(
                info_frame_step(self@, call_id@, frame@, signal),
                self@,
                actions_of(old(actions)@),
                actions_of(final(actions)@),
                r,
            ),
    {
        let ghost first = actions_of(actions@);
        act(actions, answer_frame(frame, 200, "OK"));
        match signal {
            Some(signal) => {
                act(
                    actions,
                    CallAction::Emit(OperatorEvent::Dtmf { call_id: call_id.to_string(), signal }),
                );
            },
            None => {},
        }
        proof {
            let step = info_frame_step(self@, call_id@, frame@, signal);
            assert(actions_of(actions@) =~= first + step.actions);
        }
        Ok(true)
    }

    /// What remains to do with a provisional response once its media is settled.
    fn finish_provisional(
        &mut self,
        call_id: &str,
        frame: &[u8],
        status: u16,
        delayed: bool,
        call: LiveVoiceCall,
        answer: Option<String>,
        actions: &mut Vec<CallAction>,
    ) -> (r: Result<bool, VolteError>)
        requires
            old(self)@.contains_key(call_id@) || old(self)@.dom().len() < MAX_CONCURRENT_CALLS,
        ensures
            stepped(
                provisional_tail(
                    old(self)@,
                    call_id@,
                    frame@,
                    status,
                    delayed,
                    call@,
                    opt(answer),
                ),
                final(self)@,
                actions_of(old(actions)@),
                actions_of(final(actions)@),
                r,
            ),
    {
        let ghost first = actions_of(actions@);
        let ghost step = provisional_tail(
            self@,
            call_id@,
            frame@,
            status,
            delayed,
            call@,
            opt(answer),
        );
        proof {
            lemma_none(first);
        }
        let mut call = call;
        let relay = if delayed {
            media::arm_first_rtp_ip_answer(&mut call)
        } else {
            None
        };
        if sip::requires_reliable(frame) {
            let rseq = match sip::response_rseq(frame) {
                Some(rseq) => rseq,
                None => {
                    self.insert(call_id.to_string(), call);
                    return Err(VolteError::new("volte_voice_rseq_missing"));
                },
            };
            let prack = CallAction::Send(
                OutboundSip::Prack {
                    dialog: call.dialog.clone(),
                    target: call.callee_uri.clone(),
                    cseq: call.next_cseq,
                    rseq,
                    invite_cseq: call.dialog.cseq,
                },
            );
            call.next_cseq = call.next_cseq.saturating_add(1);
            act(actions, prack);
        }
        self.insert(call_id.to_string(), call);
        let told = match &answer {
            Some(answer) => Some(answer.clone()),
            None => None,
        };
        act(
            actions,
            CallAction::Emit(
                OperatorEvent::Provisional { call_id: call_id.to_string(), status, answer: told },
            ),
        );
        match (answer, relay) {
            (Some(body), Some(relay)) => {
                act(
                    actions,
                    CallAction::AwaitFirstRtp { call_id: call_id.to_string(), relay, body },
                );
            },
            _ => {},
        }
        proof {
            assert(actions_of(actions@) =~= first + step.actions);
        }
        Ok(true)
    }

    /// A provisional response to an INVITE.
    pub fn on_provisional(
        &mut self,
        call_id: &str,
        frame: &[u8],
        status: u16,
        mode: TrunkIpConnectMode,
        actions: &mut Vec<CallAction>,
    ) -> (r: Result<bool, VolteError>)
        ensures
            stepped(
                provisional_step(old(self)@, call_id@, frame@, status, mode),
                final(self)@,
                actions_of(old(actions)@),
                actions_of(final(actions)@),
                r,
            ),
    {
        let ghost first = actions_of(actions@);
        proof {
            lemma_none(first);
        }
        let delayed = mode == TrunkIpConnectMode::FirstRtp;
        match self.get(call_id) {
            Some(call) => {
                if call.pending_asterisk_reinvite {
                    let action = CallAction::Emit(
                        OperatorEvent::Provisional {
                            call_id: call_id.to_string(),
                            status,
                            answer: None,
                        },
                    );
                    proof {
                        lemma_one(first, action@);
                    }
                    act(actions, action);
                    return Ok(true);
                }
            },
            None => return Err(VolteError::new("volte_voice_call_unknown")),
        }
        match self.remove(call_id) {
            Some(mut call) => {
                set_remote_tag(&mut call, sip::response_to_tag(frame));
                proof {
                    lemma_tail_on_rest(old(self)@, call_id@, frame@, status, delayed, call@, None);
                    lemma_media_on_rest(old(self)@, call_id@, frame@, status, delayed, call@);
                }
                if sip::sip_body(frame).len() == 0 {
                    self.finish_provisional(call_id, frame, status, delayed, call, None, actions)
                } else {
                    self.settle_provisional(call_id, frame, status, delayed, call, actions)
                }
            },
            None => Err(VolteError::new("volte_voice_call_unknown")),
        }
    }

    /// A provisional response that carries media.
    fn settle_provisional(
        &mut self,
        call_id: &str,
        frame: &[u8],
        status: u16,
        delayed: bool,
        call: LiveVoiceCall,
        actions: &mut Vec<CallAction>,
    ) -> (r: Result<bool, VolteError>)
        requires
            old(self)@.contains_key(call_id@) || old(self)@.dom().len() < MAX_CONCURRENT_CALLS,
        ensures
            stepped(
                provisional_media(old(self)@, call_id@, frame@, status, delayed, call@),
                final(self)@,
                actions_of(old(actions)@),
                actions_of(final(actions)@),
                r,
            ),
    {
        let ghost first = actions_of(actions@);
        let body = sip::sip_body(frame);
        let ghost outcome = operator_body_outcome(call@, body@);
        let mut call = call;
        let mut started: Vec<RelayActivation> = Vec::new();
        let prepared = media::prepare_operator_media(&mut call, body, &mut started);
        proof {
            lemma_fresh_starts(started@, outcome.activations);
        }
        act_starts(actions, started);
        match prepared {
            Ok(answer) => {
                call.early_answer = Some(answer.clone());
                let ghost rest = provisional_tail(
                    self@,
                    call_id@,
                    frame@,
                    status,
                    delayed,
                    call@,
                    Some(answer@),
                );
                proof {
                    let s = starts(outcome.activations);
                    assert((first + s) + rest.actions =~= first + (s + rest.actions));
                }
                self.finish_provisional(
                    call_id,
                    frame,
                    status,
                    delayed,
                    call,
                    Some(answer),
                    actions,
                )
            },
            Err(error) => {
                self.insert(call_id.to_string(), call);
                Err(error)
            },
        }
    }

    /// A success response to an INVITE.
    pub fn on_success(
        &mut self,
        call_id: &str,
        frame: &[u8],
        mode: TrunkIpConnectMode,
        actions: &mut Vec<CallAction>,
    ) -> (r: Result<bool, VolteError>)
        ensures
            stepped(
                success_step(old(self)@, call_id@, frame@, mode),
                final(self)@,
                actions_of(old(actions)@),
                actions_of(final(actions)@),
                r,
            ),
    {
        let ghost first = actions_of(actions@);
        proof {
            lemma_none(first);
        }
        let immediate = mode == TrunkIpConnectMode::GsmAnswer;
        if !self.contains(call_id) {
            return Err(VolteError::new("volte_voice_call_unknown"));
        }
        let tag = match sip::response_to_tag(frame) {
            Some(tag) => tag,
            None => return Err(VolteError::new("volte_voice_remote_tag_missing")),
        };
        match self.remove(call_id) {
            Some(mut call) => {
                let reinvite = call.pending_asterisk_reinvite;
                set_remote_tag(&mut call, Some(tag));
                let body = sip::sip_body(frame);
                let ghost outcome = final_body_outcome(call@, body@);
                let mut started: Vec<RelayActivation> = Vec::new();
                let prepared = media::prepare_final_operator_media(&mut call, body, &mut started);
                proof {
                    lemma_fresh_starts(started@, outcome.activations);
                }
                act_starts(actions, started);
                let ghost running = actions_of(actions@);
                let relay = if !reinvite && !immediate && prepared.is_ok() {
                    media::arm_first_rtp_ip_answer(&mut call)
                } else {
                    None
                };
                call.pending_asterisk_reinvite = false;
                call.operator_answered = true;
                if prepared.is_ok() {
                    call.commit_media_update();
                }
                call.early_answer = None;
                call.renegotiation_deadline = None;
                act(
                    actions,
                    CallAction::Send(
                        OutboundSip::Ack {
                            dialog: call.dialog.clone(),
                            target: call.callee_uri.clone(),
                        },
                    ),
                );
                match prepared {
                    Ok(answer) => {
                        if immediate || reinvite {
                            act(
                                actions,
                                CallAction::Emit(
                                    OperatorEvent::Answered {
                                        call_id: call_id.to_string(),
                                        body: answer,
                                    },
                                ),
                            );
                        } else if let Some(relay) = relay {
                            act(
                                actions,
                                CallAction::AwaitFirstRtp {
                                    call_id: call_id.to_string(),
                                    relay,
                                    body: answer,
                                },
                            );
                        }
                        proof {
                            lemma_put_back(old(self)@, call_id@, call@);
                        }
                        self.insert(call_id.to_string(), call);
                    },
                    Err(_) => {
                        act(actions, say_bye(&call));
                        act(actions, CallAction::Release { call_id: call_id.to_string(), call });
                        act(
                            actions,
                            CallAction::Emit(
                                OperatorEvent::Rejected {
                                    call_id: call_id.to_string(),
                                    status: 488,
                                },
                            ),
                        );
                    },
                }
                proof {
                    let step = success_step(old(self)@, call_id@, frame@, mode);
                    assert(actions_of(actions@) =~= first + step.actions);
                }
                Ok(true)
            },
            None => Err(VolteError::new("volte_voice_call_unknown")),
        }
    }

    /// Any other final response to an INVITE.
    pub fn on_rejection(
        &mut self,
        call_id: &str,
        status: u16,
        actions: &mut Vec<CallAction>,
    ) -> (r: Result<bool, VolteError>)
        requires
            old(self)@.contains_key(call_id@),
        ensures
            stepped(
                rejection_step(old(self)@, call_id@, status),
                final(self)@,
                actions_of(old(actions)@),
                actions_of(final(actions)@),
                r,
            ),
    {
        let ghost first = actions_of(actions@);
        match self.remove(call_id) {
            Some(mut call) => {
                if call.pending_asterisk_reinvite {
                    call.pending_asterisk_reinvite = false;
                    call.rollback_media_update();
                    call.renegotiation_deadline = None;
                    proof {
                        assert(call@ == renegotiation_abandoned(old(self)@[call_id@]));
                        lemma_put_back(old(self)@, call_id@, call@);
                    }
                    self.insert(call_id.to_string(), call);
                }
            },
            None => {},
        }
        let action = CallAction::Emit(
            OperatorEvent::Rejected { call_id: call_id.to_string(), status },
        );
        proof {
            lemma_one(first, action@);
        }
        act(actions, action);
        Ok(true)
    }

    /// A response to a REFER.
    pub fn on_refer_response(
        &mut self,
        call_id: &str,
        status: u16,
        progress: Result<bool, String>,
        actions: &mut Vec<CallAction>,
    ) -> (r: Result<bool, VolteError>)
        ensures
            stepped(
                refer_response_step(
                    old(self)@,
                    call_id@,
                    status,
                    match progress {
                        Ok(finished) => Ok(finished),
                        Err(reason) => Err(reason@),
                    },
                ),
                final(self)@,
                actions_of(old(actions)@),
                actions_of(final(actions)@),
                r,
            ),
    {
        let ghost first = actions_of(actions@);
        proof {
            lemma_none(first);
        }
        let transfer = match self.get(call_id) {
            Some(call) => match call.transfer {
                Some(transfer) => transfer,
                None => return Err(VolteError::new("volte_transfer_not_pending")),
            },
            None => return Err(VolteError::new("volte_voice_call_unknown")),
        };
        let finished = match progress {
            Ok(finished) => finished,
            Err(reason) => return Err(
                VolteError::with_detail("volte_transfer_response_invalid", reason.as_str()),
            ),
        };
        match self.remove(call_id) {
            Some(mut call) => {
                call.transfer = Some(DialogTransfer { refer_cseq: transfer.refer_cseq, finished });
                if status >= 200 {
                    call.transfer_deadline = None;
                }
                let action = CallAction::Emit(
                    OperatorEvent::TransferResponse { call_id: call_id.to_string(), status },
                );
                proof {
                    lemma_one(first, action@);
                    lemma_put_back(old(self)@, call_id@, call@);
                }
                act(actions, action);
                self.insert(call_id.to_string(), call);
                Ok(true)
            },
            None => Err(VolteError::new("volte_voice_call_unknown")),
        }
    }

    /// A notification about a transfer.
    pub fn on_refer_notify(
        &mut self,
        call_id: &str,
        frame: &[u8],
        notice: ReferNotice,
        actions: &mut Vec<CallAction>,
    ) -> (r: Result<bool, VolteError>)
        ensures
            stepped(
                refer_notify_step(old(self)@, call_id@, frame@, notice),
                final(self)@,
                actions_of(old(actions)@),
                actions_of(final(actions)@),
                r,
            ),
    {
        let ghost first = actions_of(actions@);
        let transfer = match self.get(call_id) {
            Some(call) => call.transfer,
            None => None,
        };
        match (notice, transfer) {
            (ReferNotice::Accepted { finished }, Some(transfer)) => {
                act(actions, answer_frame(frame, 200, "OK"));
                act(
                    actions,
                    CallAction::Emit(
                        OperatorEvent::TransferNotify { call_id: call_id.to_string() },
                    ),
                );
                match self.remove(call_id) {
                    Some(mut call) => {
                        call.transfer = Some(
                            DialogTransfer { refer_cseq: transfer.refer_cseq, finished },
                        );
                        proof {
                            lemma_put_back(old(self)@, call_id@, call@);
                        }
                        self.insert(call_id.to_string(), call);
                    },
                    None => {},
                }
            },
            (ReferNotice::Malformed, _) => {
                act(actions, answer_frame(frame, 400, "Bad Request"));
            },
            _ => {
                act(actions, answer_frame(frame, 481, "Call/Transaction Does Not Exist"));
            },
        }
        proof {
            let step = refer_notify_step(old(self)@, call_id@, frame@, notice);
            assert(actions_of(actions@) =~= first + step.actions);
        }
        Ok(true)
    }

    /// How a re-INVITE within a call goes on.
    pub fn decide_reinvite(&self, call_id: &str, frame: &[u8], link: TrunkLink) -> (r: Result<
        InviteDecision,
        VolteError,
    >)
        ensures
            match r {
                Ok(decision) => reinvite_decision(self@, call_id@, frame@, link) == Ok::<
                    DecisionView,
                    ErrorView,
                >(decision@),
                Err(error) => reinvite_decision(self@, call_id@, frame@, link) == Err::<
                    DecisionView,
                    ErrorView,
                >(error@),
            },
    {
        if !link.has_local_ip || !link.available {
            return Ok(InviteDecision::Reject(480));
        }
        if let Some(call) = self.get(call_id) {
            if call.pending_operator_reinvite.is_some() || call.pending_asterisk_reinvite {
                return Ok(InviteDecision::Reject(491));
            }
        }
        match read_offer(sip::sip_body(frame)) {
            Ok(offer) => if offer.video.is_some() && !link.video_enabled {
                Ok(InviteDecision::Reject(488))
            } else {
                Ok(InviteDecision::Bind(offer))
            },
            Err(error) => Err(error),
        }
    }

    /// Passes the operator's re-INVITE on to the trunk.
    pub fn on_reinvite(
        &mut self,
        call_id: &str,
        frame: &[u8],
        offer: MediaOffer,
        audio: RelaySockets,
        video: Option<RelaySockets>,
        now: u64,
        actions: &mut Vec<CallAction>,
    ) -> (r: Result<bool, VolteError>)
        requires
            now <= u64::MAX - REINVITE_TIMEOUT_MS,
        ensures
            stepped(
                reinvite_step(old(self)@, call_id@, frame@, offer@, audio, video, now),
                final(self)@,
                actions_of(old(actions)@),
                actions_of(final(actions)@),
                r,
            ),
    {
        let ghost first = actions_of(actions@);
        proof {
            lemma_none(first);
        }
        match self.remove(call_id) {
            Some(mut call) => {
                let video_local = match video {
                    Some(sockets) => Some(sockets.internal_local),
                    None => None,
                };
                let trunk_offer = sdp::relay_media_sdp(&offer, audio.internal_local, video_local);
                call.pending_operator_reinvite = Some(copy_bytes(frame));
                call.stage_media_update(offer, audio, video);
                call.renegotiation_deadline = Some(now + REINVITE_TIMEOUT_MS);
                act(
                    actions,
                    CallAction::Send(
                        OutboundSip::Response {
                            request: copy_bytes(frame),
                            status: 100,
                            reason: "Trying",
                            local_tag: Some(call.dialog.local_tag.clone()),
                            contact: None,
                            answer: None,
                        },
                    ),
                );
                act(
                    actions,
                    CallAction::Emit(
                        OperatorEvent::Renegotiate {
                            call_id: call_id.to_string(),
                            body: trunk_offer,
                        },
                    ),
                );
                proof {
                    let step = reinvite_step(
                        old(self)@,
                        call_id@,
                        frame@,
                        offer@,
                        audio,
                        video,
                        now,
                    );
                    assert(call@ == reinvited(
                        old(self)@[call_id@],
                        frame@,
                        offer@,
                        audio,
                        video,
                        now,
                    ));
                    assert(actions_of(actions@) =~= first + step.actions);
                    lemma_put_back(old(self)@, call_id@, call@);
                }
                self.insert(call_id.to_string(), call);
                Ok(true)
            },
            None => Err(VolteError::new("volte_voice_call_unknown")),
        }
    }
}

/// The tail of a provisional response writes the call back: whether it is still
/// in the table makes no difference.
proof fn lemma_tail_on_rest(
    calls: CallMap,
    id: Seq<char>,
    frame: Seq<u8>,
    status: u16,
    delayed: bool,
    call: CallView,
    answer: Option<Seq<char>>,
)
    ensures
        provisional_tail(calls.remove(id), id, frame, status, delayed, call, answer)
            == provisional_tail(calls, id, frame, status, delayed, call, answer),
{
    let waiting = if delayed {
        armed(call)
    } else {
        call
    };
    lemma_put_back(calls, id, waiting);
    lemma_put_back(calls, id, numbered(waiting));
}

proof fn lemma_media_on_rest(
    calls: CallMap,
    id: Seq<char>,
    frame: Seq<u8>,
    status: u16,
    delayed: bool,
    call: CallView,
)
    ensures
        provisional_media(calls.remove(id), id, frame, status, delayed, call) == provisional_media(
            calls,
            id,
            frame,
            status,
            delayed,
            call,
        ),
{
    let outcome = operator_body_outcome(call, body_of(frame));
    match outcome.result {
        Err(error) => {
            lemma_put_back(calls, id, outcome.call);
        },
        Ok(answer) => {
            lemma_tail_on_rest(
                calls,
                id,
                frame,
                status,
                delayed,
                CallView { early_answer: Some(answer), ..outcome.call },
                Some(answer),
            );
        },
    }
}

} // verus!
