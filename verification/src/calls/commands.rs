//! What the trunk asks of a line's calls.

use vstd::pervasive::unreached;
use vstd::prelude::*;
use vstd::string::*;

use crate::calls::actions::{
    act, act_starts, actions_of, copy_bytes, ims_reason, plain_response, reason_of, refused,
    starts, stepped, ActionView, CallAction, DtmfSignal, EventView, OperatorEvent, OutboundSip,
    SipView, Step,
};
use crate::calls::media;
use crate::calls::media::{incoming_body_outcome, RelayActivation};
use crate::calls::table::{lemma_put_back, CallMap, VoiceCalls};
use crate::calls::{
    video_internal_local, video_operator_local, video_relay, CallView, DialogIds, DialogTransfer,
    DialogView, LiveVoiceCall, LiveVoiceDirection, RelaySockets, MAX_CONCURRENT_CALLS,
    REFER_RESPONSE_TIMEOUT_MS, REINVITE_TIMEOUT_MS,
};
use crate::errors::{detailed, failure, ErrorView, VolteError};
use crate::sdp;
use crate::sdp::{relayed_offer, MediaOffer, OfferView};
use crate::sip;
use crate::sip::branch_of;
use crate::text;
use crate::text::{after_prefix, halves, has_suffix, is_digit, opt, trimmed};

verus! {

// ---------------------------------------------------------------------------
// Dialled numbers.

/// The part of a URI behind its scheme.
pub open spec fn without_scheme(uri: Seq<char>) -> Seq<char> {
    match after_prefix(uri, "sip:"@) {
        Some(rest) => rest,
        None => match after_prefix(uri, "sips:"@) {
            Some(rest) => rest,
            None => match after_prefix(uri, "tel:"@) {
                Some(rest) => rest,
                None => uri,
            },
        },
    }
}

/// What stands before the first `sep`, or everything.
pub open spec fn before(s: Seq<char>, sep: char) -> Seq<char> {
    match halves(s, sep) {
        Some((left, _)) => left,
        None => s,
    }
}

pub open spec fn is_dial_char(s: Seq<char>, i: int) -> bool {
    is_digit(s[i]) || s[i] == '*' || s[i] == '#' || (i == 0 && s[i] == '+' && s.len() > 1)
}

/// The user part that a dialled URI or number names.
pub open spec fn dial_user(callee: Seq<char>) -> Seq<char> {
    before(before(without_scheme(trimmed(callee)), '@'), ';')
}

/// The user part can be dialled.
pub open spec fn is_dialable(user: Seq<char>) -> bool {
    user.len() > 0 && forall|i: int| 0 <= i < user.len() ==> #[trigger] is_dial_char(user, i)
}

/// The address that a dialled number has in the home domain.
pub open spec fn callee_uri_of(callee: Seq<char>, domain: Seq<char>) -> Result<
    Seq<char>,
    ErrorView,
> {
    if is_dialable(dial_user(callee)) {
        Ok("sip:"@ + dial_user(callee) + "@"@ + domain + ";user=phone"@)
    } else {
        Err(failure("volte_voice_callee_invalid"@))
    }
}

fn left_of(s: &str, sep: char) -> (r: String)
    ensures
        r@ == before(s@, sep),
{
    match text::split_once(s, sep) {
        Some((left, _)) => left,
        None => s.to_string(),
    }
}

fn read_dial_user(callee: &str) -> (r: String)
    ensures
        r@ == dial_user(callee@),
{
    let uri = text::trim(callee);
    let rest = match text::strip_prefix(uri.as_str(), "sip:") {
        Some(rest) => rest,
        None => match text::strip_prefix(uri.as_str(), "sips:") {
            Some(rest) => rest,
            None => match text::strip_prefix(uri.as_str(), "tel:") {
                Some(rest) => rest,
                None => uri,
            },
        },
    };
    left_of(left_of(rest.as_str(), '@').as_str(), ';')
}

/// The address that a dialled number has in the home domain.
pub fn normalize_operator_callee(callee: &str, home_domain: &str) -> (r: Result<
    String,
    VolteError,
>)
    ensures
        match r {
            Ok(uri) => callee_uri_of(callee@, home_domain@) == Ok::<Seq<char>, ErrorView>(uri@),
            Err(error) => callee_uri_of(callee@, home_domain@) == Err::<Seq<char>, ErrorView>(
                error@,
            ),
        },
{
    let user = read_dial_user(callee);
    let c = text::chars(user.as_str());
    if c.len() == 0 {
        return Err(VolteError::new("volte_voice_callee_invalid"));
    }
    let mut i: usize = 0;
    while i < c.len()
        invariant
            i <= c@.len(),
            c@ == user@,
            user@ == dial_user(callee@),
            forall|j: int| 0 <= j < i ==> #[trigger] is_dial_char(user@, j),
        decreases c@.len() - i,
    {
        let ok = text::char_is_digit(c[i]) || c[i] == '*' || c[i] == '#' || (i == 0 && c[i] == '+'
            && c.len() > 1);
        if !ok {
            assert(!is_dial_char(user@, i as int));
            return Err(VolteError::new("volte_voice_callee_invalid"));
        }
        i += 1;
    }
    let mut uri = "sip:".to_string();
    uri.append(user.as_str());
    uri.append("@");
    uri.append(home_domain);
    uri.append(";user=phone");
    Ok(uri)
}

// ---------------------------------------------------------------------------
// What each command does.

/// Whether a call may be started, and the address it goes to.
pub open spec fn start_check(
    calls: CallMap,
    call_id: Seq<char>,
    callee: Seq<char>,
    domain: Seq<char>,
    video_wanted: bool,
    video_enabled: bool,
) -> Result<Seq<char>, ErrorView> {
    if calls.contains_key(call_id) {
        Err(failure("volte_voice_call_duplicate"@))
    } else if calls.dom().len() >= MAX_CONCURRENT_CALLS {
        Err(failure("volte_concurrent_call_limit"@))
    } else if video_wanted && !video_enabled {
        Err(failure("vilte_feature_disabled"@))
    } else {
        callee_uri_of(callee, domain)
    }
}

/// What the INVITE of a call offers.
pub open spec fn outgoing_offer(
    offer: OfferView,
    audio: RelaySockets,
    video: Option<RelaySockets>,
) -> Seq<char> {
    relayed_offer(
        offer,
        audio.operator_local,
        match video {
            Some(sockets) => Some(sockets.operator_local),
            None => None,
        },
    )
}

/// Writes what the INVITE of a call offers: its media, at the sockets on the operator's
/// side.
pub fn outgoing_body(offer: &MediaOffer, audio: RelaySockets, video: Option<RelaySockets>) -> (r:
    String)
    ensures
        r@ == outgoing_offer(offer@, audio, video),
{
    sdp::relay_media_sdp(
        offer,
        audio.operator_local,
        match video {
            Some(sockets) => Some(sockets.operator_local),
            None => None,
        },
    )
}

/// A call that the trunk has just started.
pub open spec fn outgoing_call(
    dialog: DialogView,
    callee_uri: Seq<char>,
    invite_branch: Seq<char>,
    offer: OfferView,
    audio: RelaySockets,
    video: Option<RelaySockets>,
) -> CallView {
    CallView {
        direction: LiveVoiceDirection::MobileOriginated,
        next_cseq: next_number(dialog.cseq),
        dialog,
        callee_uri,
        invite_branch,
        initial_invite: None,
        internal_offer: offer,
        operator_local: audio.operator_local,
        internal_local: audio.internal_local,
        pending_relay: Some(audio.relay),
        active_relay: None,
        ip_answer_wait_armed: false,
        operator_answered: false,
        pending_operator_reinvite: None,
        pending_asterisk_reinvite: false,
        pending_video_relay: video_relay(video),
        active_video_relay: None,
        operator_video_local: video_operator_local(video),
        internal_video_local: video_internal_local(video),
        pending_media_rollback: None,
        renegotiation_deadline: None,
        early_answer: None,
        transfer: None,
        transfer_deadline: None,
    }
}

/// The sequence number behind `n`; the last one stays.
pub open spec fn next_number(n: u32) -> u32 {
    if n < u32::MAX {
        (n + 1) as u32
    } else {
        n
    }
}

/// The call with its next sequence number used up.
pub open spec fn numbered(call: CallView) -> CallView {
    CallView { next_cseq: next_number(call.next_cseq), ..call }
}

pub open spec fn bye(call: CallView) -> ActionView {
    ActionView::Send(
        SipView::Bye { dialog: call.dialog, target: call.callee_uri, cseq: call.next_cseq },
    )
}

pub open spec fn cancel(call: CallView) -> ActionView {
    ActionView::Send(
        SipView::Cancel {
            dialog: call.dialog,
            target: call.callee_uri,
            branch: call.invite_branch,
        },
    )
}

/// Taking back a call that has not been answered.
pub open spec fn cancel_step(calls: CallMap, id: Seq<char>) -> Step<()> {
    if !calls.contains_key(id) {
        refused(calls, "volte_voice_call_unknown"@)
    } else {
        Step { calls: calls.remove(id), actions: seq![cancel(calls[id])], result: Ok(()) }
    }
}

/// Ending a call: BYE within a dialog, CANCEL before there is one.
pub open spec fn hangup_step(calls: CallMap, id: Seq<char>) -> Step<()> {
    if !calls.contains_key(id) {
        refused(calls, "volte_voice_call_unknown"@)
    } else {
        Step {
            calls: calls.remove(id),
            actions: if calls[id].dialog.remote_tag is Some {
                seq![bye(calls[id])]
            } else {
                seq![cancel(calls[id])]
            },
            result: Ok(()),
        }
    }
}

/// Sending a keypress.
pub open spec fn dtmf_step(calls: CallMap, id: Seq<char>, signal: DtmfSignal) -> Step<()> {
    if !calls.contains_key(id) {
        refused(calls, "volte_voice_call_unknown"@)
    } else {
        Step {
            calls: calls.insert(id, numbered(calls[id])),
            actions: seq![
                ActionView::Send(
                    SipView::Info {
                        dialog: calls[id].dialog,
                        target: calls[id].callee_uri,
                        cseq: calls[id].next_cseq,
                        digit: signal.digit,
                        duration_ms: signal.duration_ms,
                    },
                ),
            ],
            result: Ok(()),
        }
    }
}

/// A transfer of the call is under way.
pub open spec fn transfer_pending(call: CallView) -> bool {
    match call.transfer {
        Some(transfer) => !transfer.finished,
        None => false,
    }
}

/// The REFER that asks the operator to transfer a call: only in a confirmed dialog, and
/// one transfer at a time.
pub open spec fn transfer_check(
    calls: CallMap,
    id: Seq<char>,
    refer_to: Seq<char>,
    domain: Seq<char>,
) -> Result<SipView, ErrorView> {
    match callee_uri_of(refer_to, domain) {
        Err(error) => Err(error),
        Ok(target) => if !calls.contains_key(id) {
            Err(failure("volte_transfer_call_unknown"@))
        } else if !calls[id].operator_answered || calls[id].dialog.remote_tag is None {
            Err(failure("volte_transfer_call_not_confirmed"@))
        } else if transfer_pending(calls[id]) {
            Err(failure("volte_transfer_pending"@))
        } else {
            Ok(
                SipView::Refer {
                    dialog: calls[id].dialog,
                    target: calls[id].callee_uri,
                    to_value: "<"@ + calls[id].callee_uri + ">;tag="@
                        + calls[id].dialog.remote_tag->0,
                    cseq: calls[id].next_cseq,
                    refer_to: target,
                },
            )
        },
    }
}

/// The call once its REFER was put together.
pub open spec fn transferring(call: CallView, now: u64) -> CallView {
    CallView {
        transfer: Some(DialogTransfer { refer_cseq: call.next_cseq, finished: false }),
        transfer_deadline: Some((now + REFER_RESPONSE_TIMEOUT_MS) as u64),
        ..numbered(call)
    }
}

/// Asking the operator to transfer a call. A REFER that cannot be written, for the
/// reason in `unwritable`, uses its number up all the same.
pub open spec fn transfer_step(
    calls: CallMap,
    id: Seq<char>,
    refer_to: Seq<char>,
    domain: Seq<char>,
    unwritable: Option<Seq<char>>,
    now: u64,
) -> Step<()> {
    match transfer_check(calls, id, refer_to, domain) {
        Err(error) => Step { calls, actions: Seq::empty(), result: Err(error) },
        Ok(refer) => match unwritable {
            Some(reason) => Step {
                calls: calls.insert(id, numbered(calls[id])),
                actions: Seq::empty(),
                result: Err(detailed("volte_transfer_request_invalid"@, reason)),
            },
            None => Step {
                calls: calls.insert(id, transferring(calls[id], now)),
                actions: seq![ActionView::Send(refer)],
                result: Ok(()),
            },
        },
    }
}

/// A re-INVITE is in flight in either direction.
pub open spec fn reinvite_pending(call: CallView) -> bool {
    call.pending_operator_reinvite is Some || call.pending_asterisk_reinvite
}

/// The call with a re-INVITE of the trunk under way.
pub open spec fn renegotiating(
    call: CallView,
    offer: OfferView,
    audio: RelaySockets,
    video: Option<RelaySockets>,
    now: u64,
) -> CallView {
    let staged = call.staged(offer, audio, video);
    CallView {
        dialog: DialogView { cseq: call.next_cseq, ..call.dialog },
        next_cseq: next_number(call.next_cseq),
        pending_asterisk_reinvite: true,
        renegotiation_deadline: Some((now + REINVITE_TIMEOUT_MS) as u64),
        ..staged
    }
}

/// Offering new media to the operator: one re-INVITE at a time.
pub open spec fn renegotiate_step(
    calls: CallMap,
    id: Seq<char>,
    offer: OfferView,
    audio: RelaySockets,
    video: Option<RelaySockets>,
    now: u64,
) -> Step<()> {
    if !calls.contains_key(id) {
        refused(calls, "volte_voice_call_unknown"@)
    } else if reinvite_pending(calls[id]) {
        refused(calls, "volte_voice_reinvite_pending"@)
    } else {
        let call = renegotiating(calls[id], offer, audio, video, now);
        Step {
            calls: calls.insert(id, call),
            actions: seq![
                ActionView::Send(
                    SipView::Reinvite {
                        dialog: call.dialog,
                        target: call.callee_uri,
                        body: relayed_offer(offer, call.operator_local, call.operator_video_local),
                    },
                ),
            ],
            result: Ok(()),
        }
    }
}

/// Accepting the operator's re-INVITE with the trunk's answer.
pub open spec fn accept_renegotiation_step(
    calls: CallMap,
    id: Seq<char>,
    body: Seq<u8>,
    contact: Seq<char>,
) -> Step<()> {
    if !calls.contains_key(id) {
        refused(calls, "volte_voice_call_unknown"@)
    } else {
        let outcome = incoming_body_outcome(calls[id], body);
        let started = starts(outcome.activations);
        match outcome.result {
            Err(error) => Step {
                calls: calls.insert(id, outcome.call),
                actions: started,
                result: Err(error),
            },
            Ok(answer) => match outcome.call.pending_operator_reinvite {
                None => Step {
                    calls: calls.insert(id, outcome.call),
                    actions: started,
                    result: Err(failure("volte_voice_reinvite_not_pending"@)),
                },
                Some(request) => Step {
                    calls: calls.insert(
                        id,
                        CallView {
                            pending_operator_reinvite: None,
                            pending_media_rollback: None,
                            renegotiation_deadline: None,
                            ..outcome.call
                        },
                    ),
                    actions: started.push(
                        ActionView::Send(
                            SipView::Response {
                                request,
                                status: 200,
                                reason: "OK"@,
                                local_tag: Some(outcome.call.dialog.local_tag),
                                contact: Some(contact),
                                answer: Some(answer),
                            },
                        ),
                    ),
                    result: Ok(()),
                },
            },
        }
    }
}

/// The call with the operator's re-INVITE turned down.
pub open spec fn renegotiation_rejected(call: CallView) -> CallView {
    CallView {
        pending_operator_reinvite: None,
        renegotiation_deadline: None,
        ..call.rolled_back()
    }
}

/// Turning down the operator's re-INVITE: the confirmed media stays.
pub open spec fn reject_renegotiation_step(
    calls: CallMap,
    id: Seq<char>,
    status: u16,
) -> Step<()> {
    if !calls.contains_key(id) {
        refused(calls, "volte_voice_call_unknown"@)
    } else {
        match calls[id].pending_operator_reinvite {
            None => refused(calls, "volte_voice_reinvite_not_pending"@),
            Some(request) => Step {
                calls: calls.insert(id, renegotiation_rejected(calls[id])),
                actions: seq![
                    plain_response(
                        request,
                        status,
                        reason_of(status),
                        Some(calls[id].dialog.local_tag),
                    ),
                ],
                result: Ok(()),
            },
        }
    }
}

/// The answer to an incoming call whose media cannot be used.
pub open spec fn not_acceptable(call: CallView) -> ActionView {
    plain_response(
        call.initial_invite->0,
        488,
        "Not Acceptable Here"@,
        Some(call.dialog.local_tag),
    )
}

/// Passing the trunk's progress on to the operator. Early media that cannot be
/// used ends the call.
pub open spec fn report_provisional_step(
    calls: CallMap,
    id: Seq<char>,
    status: u16,
    body: Option<Seq<u8>>,
) -> Step<()> {
    if !calls.contains_key(id) {
        refused(calls, "volte_voice_call_unknown"@)
    } else if calls[id].direction != LiveVoiceDirection::MobileTerminated {
        refused(calls, "volte_voice_direction_mismatch"@)
    } else if calls[id].operator_answered {
        Step { calls, actions: Seq::empty(), result: Ok(()) }
    } else if calls[id].initial_invite is None {
        refused(calls, "volte_voice_initial_invite_missing"@)
    } else {
        match body {
            None => Step {
                calls,
                actions: seq![
                    plain_response(
                        calls[id].initial_invite->0,
                        status,
                        reason_of(status),
                        Some(calls[id].dialog.local_tag),
                    ),
                ],
                result: Ok(()),
            },
            Some(body) => {
                let outcome = incoming_body_outcome(calls[id], body);
                let started = starts(outcome.activations);
                match outcome.result {
                    Ok(answer) => Step {
                        calls: calls.insert(id, outcome.call),
                        actions: started.push(
                            ActionView::Send(
                                SipView::Response {
                                    request: calls[id].initial_invite->0,
                                    status,
                                    reason: reason_of(status),
                                    local_tag: Some(calls[id].dialog.local_tag),
                                    contact: None,
                                    answer: Some(answer),
                                },
                            ),
                        ),
                        result: Ok(()),
                    },
                    Err(_) => Step {
                        calls: calls.remove(id),
                        actions: started.push(
                            ActionView::Emit(EventView::Cancelled { call_id: id }),
                        ).push(not_acceptable(calls[id])),
                        result: Ok(()),
                    },
                }
            },
        }
    }
}

/// Accepting an incoming call with the trunk's answer. One that the operator
/// already sees as answered only starts its relays. An answer that cannot be
/// used ends the call.
pub open spec fn accept_call_step(
    calls: CallMap,
    id: Seq<char>,
    body: Seq<u8>,
    contact: Seq<char>,
) -> Step<()> {
    if !calls.contains_key(id) {
        refused(calls, "volte_voice_call_unknown"@)
    } else if calls[id].direction != LiveVoiceDirection::MobileTerminated {
        refused(calls, "volte_voice_direction_mismatch"@)
    } else if calls[id].initial_invite is None {
        refused(calls, "volte_voice_initial_invite_missing"@)
    } else {
        let outcome = incoming_body_outcome(calls[id], body);
        let started = starts(outcome.activations);
        match outcome.result {
            Ok(answer) => Step {
                calls: calls.insert(id, outcome.call),
                actions: if calls[id].operator_answered {
                    started
                } else {
                    started.push(
                        ActionView::Send(
                            SipView::Response {
                                request: calls[id].initial_invite->0,
                                status: 200,
                                reason: "OK"@,
                                local_tag: Some(calls[id].dialog.local_tag),
                                contact: Some(contact),
                                answer: Some(answer),
                            },
                        ),
                    )
                },
                result: Ok(()),
            },
            Err(_) => Step {
                calls: calls.remove(id),
                actions: started.push(ActionView::Emit(EventView::Ended { call_id: id })).push(
                    if calls[id].operator_answered {
                        bye(outcome.call)
                    } else {
                        not_acceptable(calls[id])
                    },
                ),
                result: Ok(()),
            },
        }
    }
}

/// Turning an incoming call down. The call is gone even where that cannot be said.
pub open spec fn reject_call_step(calls: CallMap, id: Seq<char>, status: u16) -> Step<()> {
    if !calls.contains_key(id) {
        refused(calls, "volte_voice_call_unknown"@)
    } else {
        let rest = calls.remove(id);
        let call = calls[id];
        if call.direction != LiveVoiceDirection::MobileTerminated {
            refused(rest, "volte_voice_direction_mismatch"@)
        } else if call.operator_answered {
            Step { calls: rest, actions: seq![bye(call)], result: Ok(()) }
        } else {
            match call.initial_invite {
                None => refused(rest, "volte_voice_initial_invite_missing"@),
                Some(request) => Step {
                    calls: rest,
                    actions: seq![
                        plain_response(
                            request,
                            status,
                            reason_of(status),
                            Some(call.dialog.local_tag),
                        ),
                    ],
                    result: Ok(()),
                },
            }
        }
    }
}

// ---------------------------------------------------------------------------

pub proof fn lemma_one(before: Seq<ActionView>, action: ActionView)
    ensures
        before.push(action) == before + seq![action],
{
    assert(before.push(action) =~= before + seq![action]);
}

pub proof fn lemma_none(before: Seq<ActionView>)
    ensures
        before + Seq::<ActionView>::empty() == before,
{
    assert(before + Seq::<ActionView>::empty() =~= before);
}

pub proof fn lemma_then(before: Seq<ActionView>, started: Seq<ActionView>, action: ActionView)
    ensures
        (before + started).push(action) == before + started.push(action),
{
    assert((before + started).push(action) =~= before + started.push(action));
}

pub(crate) fn say_bye(call: &LiveVoiceCall) -> (r: CallAction)
    ensures
        r@ == bye(call@),
{
    CallAction::Send(
        OutboundSip::Bye {
            dialog: call.dialog.clone(),
            target: call.callee_uri.clone(),
            cseq: call.next_cseq,
        },
    )
}

fn say_cancel(call: &LiveVoiceCall) -> (r: CallAction)
    ensures
        r@ == cancel(call@),
{
    CallAction::Send(
        OutboundSip::Cancel {
            dialog: call.dialog.clone(),
            target: call.callee_uri.clone(),
            branch: call.invite_branch.clone(),
        },
    )
}

fn respond(
    request: Vec<u8>,
    status: u16,
    reason: &'static str,
    local_tag: &str,
) -> (r: CallAction)
    ensures
        r@ == plain_response(request@, status, reason@, Some(local_tag@)),
{
    CallAction::Send(
        OutboundSip::Response {
            request,
            status,
            reason,
            local_tag: Some(local_tag.to_string()),
            contact: None,
            answer: None,
        },
    )
}

impl VoiceCalls {
    /// Whether a call may be started, and the address it goes to. Nothing is
    /// allocated for a call that is refused here.
    pub fn check_start(
        &self,
        call_id: &str,
        callee: &str,
        home_domain: &str,
        video_wanted: bool,
        video_enabled: bool,
    ) -> (r: Result<String, VolteError>)
        ensures
            match r {
                Ok(uri) => start_check(
                    self@,
                    call_id@,
                    callee@,
                    home_domain@,
                    video_wanted,
                    video_enabled,
                ) == Ok::<Seq<char>, ErrorView>(uri@),
                Err(error) => start_check(
                    self@,
                    call_id@,
                    callee@,
                    home_domain@,
                    video_wanted,
                    video_enabled,
                ) == Err::<Seq<char>, ErrorView>(error@),
            },
    {
        if self.contains(call_id) {
            return Err(VolteError::new("volte_voice_call_duplicate"));
        }
        if self.len() >= MAX_CONCURRENT_CALLS {
            return Err(VolteError::new("volte_concurrent_call_limit"));
        }
        if video_wanted && !video_enabled {
            return Err(VolteError::new("vilte_feature_disabled"));
        }
        normalize_operator_callee(callee, home_domain)
    }

    /// Records a call whose INVITE has been put together.
    pub fn start_call(
        &mut self,
        call_id: String,
        callee_uri: String,
        offer: MediaOffer,
        audio: RelaySockets,
        video: Option<RelaySockets>,
        dialog: DialogIds,
        invite: &[u8],
    ) -> (r: Result<(), VolteError>)
        requires
            !old(self)@.contains_key(call_id@),
            old(self)@.dom().len() < MAX_CONCURRENT_CALLS,
        ensures
            match branch_of(invite@) {
                Some(branch) => {
                    &&& r is Ok
                    &&& final(self)@ == old(self)@.insert(
                        call_id@,
                        outgoing_call(dialog@, callee_uri@, branch, offer@, audio, video),
                    )
                },
                None => {
                    &&& r is Err
                    &&& r->Err_0@ == failure("volte_voice_invite_branch_missing"@)
                    &&& final(self)@ == old(self)@
                },
            },
    {
        let invite_branch = match sip::top_via_branch(invite) {
            Some(branch) => branch,
            None => return Err(VolteError::new("volte_voice_invite_branch_missing")),
        };
        let next_cseq = dialog.cseq.saturating_add(1);
        let (pending_video_relay, operator_video_local, internal_video_local) = match video {
            Some(sockets) => (
                Some(sockets.relay),
                Some(sockets.operator_local),
                Some(sockets.internal_local),
            ),
            None => (None, None, None),
        };
        let call = LiveVoiceCall {
            direction: LiveVoiceDirection::MobileOriginated,
            dialog,
            callee_uri,
            invite_branch,
            initial_invite: None,
            internal_offer: offer,
            operator_local: audio.operator_local,
            internal_local: audio.internal_local,
            pending_relay: Some(audio.relay),
            active_relay: None,
            ip_answer_wait_armed: false,
            operator_answered: false,
            next_cseq,
            pending_operator_reinvite: None,
            pending_asterisk_reinvite: false,
            pending_video_relay,
            active_video_relay: None,
            operator_video_local,
            internal_video_local,
            pending_media_rollback: None,
            renegotiation_deadline: None,
            early_answer: None,
            transfer: None,
            transfer_deadline: None,
        };
        self.insert(call_id, call);
        Ok(())
    }

    /// Takes back a call that has not been answered.
    pub fn cancel_call(&mut self, call_id: &str, actions: &mut Vec<CallAction>) -> (r: Result<
        (),
        VolteError,
    >)
        ensures
            stepped(
                cancel_step(old(self)@, call_id@),
                final(self)@,
                actions_of(old(actions)@),
                actions_of(final(actions)@),
                r,
            ),
    {
        proof {
            lemma_none(actions_of(actions@));
        }
        match self.remove(call_id) {
            Some(call) => {
                proof {
                    lemma_one(actions_of(actions@), cancel(call@));
                }
                act(actions, say_cancel(&call));
                Ok(())
            },
            None => Err(VolteError::new("volte_voice_call_unknown")),
        }
    }

    /// Ends a call.
    pub fn hangup_call(&mut self, call_id: &str, actions: &mut Vec<CallAction>) -> (r: Result<
        (),
        VolteError,
    >)
        ensures
            stepped(
                hangup_step(old(self)@, call_id@),
                final(self)@,
                actions_of(old(actions)@),
                actions_of(final(actions)@),
                r,
            ),
    {
        proof {
            lemma_none(actions_of(actions@));
        }
        match self.remove(call_id) {
            Some(call) => {
                proof {
                    lemma_one(actions_of(actions@), cancel(call@));
                    lemma_one(actions_of(actions@), bye(call@));
                }
                if call.dialog.remote_tag.is_some() {
                    act(actions, say_bye(&call));
                } else {
                    act(actions, say_cancel(&call));
                }
                Ok(())
            },
            None => Err(VolteError::new("volte_voice_call_unknown")),
        }
    }

    /// Sends a keypress.
    pub fn send_dtmf(
        &mut self,
        call_id: &str,
        signal: DtmfSignal,
        actions: &mut Vec<CallAction>,
    ) -> (r: Result<(), VolteError>)
        ensures
            stepped(
                dtmf_step(old(self)@, call_id@, signal),
                final(self)@,
                actions_of(old(actions)@),
                actions_of(final(actions)@),
                r,
            ),
    {
        proof {
            lemma_none(actions_of(actions@));
        }
        match self.remove(call_id) {
            Some(mut call) => {
                let action = CallAction::Send(
                    OutboundSip::Info {
                        dialog: call.dialog.clone(),
                        target: call.callee_uri.clone(),
                        cseq: call.next_cseq,
                        digit: signal.digit,
                        duration_ms: signal.duration_ms,
                    },
                );
                call.next_cseq = call.next_cseq.saturating_add(1);
                proof {
                    lemma_one(actions_of(actions@), action@);
                    lemma_put_back(old(self)@, call_id@, call@);
                }
                act(actions, action);
                self.insert(call_id.to_string(), call);
                Ok(())
            },
            None => Err(VolteError::new("volte_voice_call_unknown")),
        }
    }

    /// The REFER that a transfer of a call would send, or why there is none.
    pub fn refer_request(&self, call_id: &str, refer_to: &str, home_domain: &str) -> (r: Result<
        OutboundSip,
        VolteError,
    >)
        ensures
            match r {
                Ok(refer) => transfer_check(self@, call_id@, refer_to@, home_domain@) == Ok::<
                    SipView,
                    ErrorView,
                >(refer@),
                Err(error) => transfer_check(self@, call_id@, refer_to@, home_domain@) == Err::<
                    SipView,
                    ErrorView,
                >(error@),
            },
    {
        let target = match normalize_operator_callee(refer_to, home_domain) {
            Ok(target) => target,
            Err(error) => return Err(error),
        };
        let call = match self.get(call_id) {
            Some(call) => call,
            None => return Err(VolteError::new("volte_transfer_call_unknown")),
        };
        if !call.operator_answered {
            return Err(VolteError::new("volte_transfer_call_not_confirmed"));
        }
        let tag = match &call.dialog.remote_tag {
            Some(tag) => tag,
            None => return Err(VolteError::new("volte_transfer_call_not_confirmed")),
        };
        if let Some(transfer) = call.transfer {
            if !transfer.finished {
                return Err(VolteError::new("volte_transfer_pending"));
            }
        }
        let mut to_value = "<".to_string();
        to_value.append(call.callee_uri.as_str());
        to_value.append(">;tag=");
        to_value.append(tag.as_str());
        Ok(
            OutboundSip::Refer {
                dialog: call.dialog.clone(),
                target: call.callee_uri.clone(),
                to_value,
                cseq: call.next_cseq,
                refer_to: target,
            },
        )
    }

    /// Asks the operator to transfer a call, at `now`. `unwritable` says why its REFER
    /// cannot be written, where it cannot.
    pub fn transfer_call(
        &mut self,
        call_id: &str,
        refer_to: &str,
        home_domain: &str,
        unwritable: Option<&str>,
        now: u64,
        actions: &mut Vec<CallAction>,
    ) -> (r: Result<(), VolteError>)
        requires
            now <= u64::MAX - REFER_RESPONSE_TIMEOUT_MS,
        ensures
            stepped(
                transfer_step(
                    old(self)@,
                    call_id@,
                    refer_to@,
                    home_domain@,
                    match unwritable {
                        Some(reason) => Some(reason@),
                        None => None,
                    },
                    now,
                ),
                final(self)@,
                actions_of(old(actions)@),
                actions_of(final(actions)@),
                r,
            ),
    {
        proof {
            lemma_none(actions_of(actions@));
        }
        let refer = match self.refer_request(call_id, refer_to, home_domain) {
            Ok(refer) => refer,
            Err(error) => return Err(error),
        };
        match self.remove(call_id) {
            Some(mut call) => {
                let cseq = call.next_cseq;
                call.next_cseq = call.next_cseq.saturating_add(1);
                if let Some(reason) = unwritable {
                    proof {
                        lemma_put_back(old(self)@, call_id@, call@);
                    }
                    self.insert(call_id.to_string(), call);
                    return Err(VolteError::with_detail("volte_transfer_request_invalid", reason));
                }
                call.transfer = Some(DialogTransfer { refer_cseq: cseq, finished: false });
                call.transfer_deadline = Some(now + REFER_RESPONSE_TIMEOUT_MS);
                let action = CallAction::Send(refer);
                proof {
                    lemma_one(actions_of(actions@), action@);
                    lemma_put_back(old(self)@, call_id@, call@);
                }
                act(actions, action);
                self.insert(call_id.to_string(), call);
                Ok(())
            },
            None => Err(VolteError::new("volte_transfer_call_unknown")),
        }
    }

    /// Whether the trunk may offer new media at all.
    pub fn check_renegotiate(video_wanted: bool, video_enabled: bool) -> (r: Result<(), VolteError>)
        ensures
            r is Err <==> video_wanted && !video_enabled,
            r is Err ==> r->Err_0@ == failure("vilte_feature_disabled"@),
    {
        if video_wanted && !video_enabled {
            Err(VolteError::new("vilte_feature_disabled"))
        } else {
            Ok(())
        }
    }

    /// Offers new media to the operator.
    pub fn renegotiate(
        &mut self,
        call_id: &str,
        offer: MediaOffer,
        audio: RelaySockets,
        video: Option<RelaySockets>,
        now: u64,
        actions: &mut Vec<CallAction>,
    ) -> (r: Result<(), VolteError>)
        requires
            now <= u64::MAX - REINVITE_TIMEOUT_MS,
        ensures
            stepped(
                renegotiate_step(old(self)@, call_id@, offer@, audio, video, now),
                final(self)@,
                actions_of(old(actions)@),
                actions_of(final(actions)@),
                r,
            ),
    {
        proof {
            lemma_none(actions_of(actions@));
        }
        match self.get(call_id) {
            Some(call) => {
                if call.pending_operator_reinvite.is_some() || call.pending_asterisk_reinvite {
                    return Err(VolteError::new("volte_voice_reinvite_pending"));
                }
            },
            None => return Err(VolteError::new("volte_voice_call_unknown")),
        }
        match self.remove(call_id) {
            Some(mut call) => {
                let video_local = match video {
                    Some(sockets) => Some(sockets.operator_local),
                    None => None,
                };
                let body = sdp::relay_media_sdp(&offer, audio.operator_local, video_local);
                call.dialog.cseq = call.next_cseq;
                call.next_cseq = call.next_cseq.saturating_add(1);
                call.stage_media_update(offer, audio, video);
                call.pending_asterisk_reinvite = true;
                call.renegotiation_deadline = Some(now + REINVITE_TIMEOUT_MS);
                let action = CallAction::Send(
                    OutboundSip::Reinvite {
                        dialog: call.dialog.clone(),
                        target: call.callee_uri.clone(),
                        body,
                    },
                );
                proof {
                    assert(call@ == renegotiating(old(self)@[call_id@], offer@, audio, video, now));
                    lemma_one(actions_of(actions@), action@);
                    lemma_put_back(old(self)@, call_id@, call@);
                }
                act(actions, action);
                self.insert(call_id.to_string(), call);
                Ok(())
            },
            None => Err(VolteError::new("volte_voice_call_unknown")),
        }
    }

    /// Accepts the operator's re-INVITE with the trunk's answer.
    pub fn accept_renegotiation(
        &mut self,
        call_id: &str,
        body: &[u8],
        contact: &str,
        actions: &mut Vec<CallAction>,
    ) -> (r: Result<(), VolteError>)
        ensures
            stepped(
                accept_renegotiation_step(old(self)@, call_id@, body@, contact@),
                final(self)@,
                actions_of(old(actions)@),
                actions_of(final(actions)@),
                r,
            ),
    {
        let ghost first = actions_of(actions@);
        proof {
            lemma_none(first);
        }
        match self.remove(call_id) {
            Some(mut call) => {
                let mut started: Vec<RelayActivation> = Vec::new();
                let prepared = media::prepare_incoming_media(&mut call, body, &mut started);
                let ghost outcome = incoming_body_outcome(old(self)@[call_id@], body@);
                proof {
                    lemma_fresh_starts(started@, outcome.activations);
                }
                act_starts(actions, started);
                let answer = match prepared {
                    Ok(answer) => answer,
                    Err(error) => {
                        proof {
                            lemma_put_back(old(self)@, call_id@, call@);
                        }
                        self.insert(call_id.to_string(), call);
                        return Err(error);
                    },
                };
                match call.pending_operator_reinvite.take() {
                    Some(request) => {
                        call.commit_media_update();
                        call.renegotiation_deadline = None;
                        let action = CallAction::Send(
                            OutboundSip::Response {
                                request,
                                status: 200,
                                reason: "OK",
                                local_tag: Some(call.dialog.local_tag.clone()),
                                contact: Some(contact.to_string()),
                                answer: Some(answer),
                            },
                        );
                        proof {
                            lemma_then(first, starts(outcome.activations), action@);
                            lemma_put_back(old(self)@, call_id@, call@);
                        }
                        act(actions, action);
                        self.insert(call_id.to_string(), call);
                        Ok(())
                    },
                    None => {
                        proof {
                            lemma_put_back(old(self)@, call_id@, call@);
                        }
                        self.insert(call_id.to_string(), call);
                        Err(VolteError::new("volte_voice_reinvite_not_pending"))
                    },
                }
            },
            None => Err(VolteError::new("volte_voice_call_unknown")),
        }
    }

    /// Turns down the operator's re-INVITE.
    pub fn reject_renegotiation(
        &mut self,
        call_id: &str,
        status: u16,
        actions: &mut Vec<CallAction>,
    ) -> (r: Result<(), VolteError>)
        ensures
            stepped(
                reject_renegotiation_step(old(self)@, call_id@, status),
                final(self)@,
                actions_of(old(actions)@),
                actions_of(final(actions)@),
                r,
            ),
    {
        proof {
            lemma_none(actions_of(actions@));
        }
        match self.get(call_id) {
            Some(call) => {
                if call.pending_operator_reinvite.is_none() {
                    return Err(VolteError::new("volte_voice_reinvite_not_pending"));
                }
            },
            None => return Err(VolteError::new("volte_voice_call_unknown")),
        }
        match self.remove(call_id) {
            Some(mut call) => {
                if let Some(request) = call.pending_operator_reinvite.take() {
                    let action = respond(
                        request,
                        status,
                        ims_reason(status),
                        call.dialog.local_tag.as_str(),
                    );
                    proof {
                        lemma_one(actions_of(actions@), action@);
                    }
                    act(actions, action);
                }
                call.rollback_media_update();
                call.renegotiation_deadline = None;
                proof {
                    assert(call@ == renegotiation_rejected(old(self)@[call_id@]));
                    lemma_put_back(old(self)@, call_id@, call@);
                }
                self.insert(call_id.to_string(), call);
                Ok(())
            },
            None => Err(VolteError::new("volte_voice_call_unknown")),
        }
    }

    /// Passes the trunk's progress on to the operator.
    pub fn report_provisional(
        &mut self,
        call_id: &str,
        status: u16,
        body: Option<&[u8]>,
        actions: &mut Vec<CallAction>,
    ) -> (r: Result<(), VolteError>)
        ensures
            stepped(
                report_provisional_step(
                    old(self)@,
                    call_id@,
                    status,
                    match body {
                        Some(body) => Some(body@),
                        None => None,
                    },
                ),
                final(self)@,
                actions_of(old(actions)@),
                actions_of(final(actions)@),
                r,
            ),
    {
        let ghost first = actions_of(actions@);
        proof {
            lemma_none(first);
        }
        let (request, local_tag) = match self.get(call_id) {
            Some(call) => {
                if call.direction != LiveVoiceDirection::MobileTerminated {
                    return Err(VolteError::new("volte_voice_direction_mismatch"));
                }
                if call.operator_answered {
                    return Ok(());
                }
                match &call.initial_invite {
                    Some(request) => (
                        copy_bytes(request.as_slice()),
                        call.dialog.local_tag.clone(),
                    ),
                    None => return Err(VolteError::new("volte_voice_initial_invite_missing")),
                }
            },
            None => return Err(VolteError::new("volte_voice_call_unknown")),
        };
        let body = match body {
            Some(body) => body,
            None => {
                let action = respond(request, status, ims_reason(status), local_tag.as_str());
                proof {
                    lemma_one(first, action@);
                }
                act(actions, action);
                return Ok(());
            },
        };
        match self.remove(call_id) {
            Some(mut call) => {
                let mut started: Vec<RelayActivation> = Vec::new();
                let prepared = media::prepare_incoming_media(&mut call, body, &mut started);
                let ghost outcome = incoming_body_outcome(old(self)@[call_id@], body@);
                proof {
                    lemma_fresh_starts(started@, outcome.activations);
                }
                act_starts(actions, started);
                match prepared {
                    Ok(answer) => {
                        let action = CallAction::Send(
                            OutboundSip::Response {
                                request,
                                status,
                                reason: ims_reason(status),
                                local_tag: Some(local_tag),
                                contact: None,
                                answer: Some(answer),
                            },
                        );
                        proof {
                            lemma_then(first, starts(outcome.activations), action@);
                            lemma_put_back(old(self)@, call_id@, call@);
                        }
                        act(actions, action);
                        self.insert(call_id.to_string(), call);
                    },
                    Err(_) => {
                        let event = CallAction::Emit(
                            OperatorEvent::Cancelled { call_id: call_id.to_string() },
                        );
                        let action = respond(
                            request,
                            488,
                            "Not Acceptable Here",
                            local_tag.as_str(),
                        );
                        proof {
                            let s = starts(outcome.activations);
                            lemma_then(first, s, event@);
                            lemma_then(first, s.push(event@), action@);
                        }
                        act(actions, event);
                        act(actions, action);
                    },
                }
                Ok(())
            },
            None => Err(VolteError::new("volte_voice_call_unknown")),
        }
    }

    /// Accepts an incoming call with the trunk's answer.
    pub fn accept_call(
        &mut self,
        call_id: &str,
        body: &[u8],
        contact: &str,
        actions: &mut Vec<CallAction>,
    ) -> (r: Result<(), VolteError>)
        ensures
            stepped(
                accept_call_step(old(self)@, call_id@, body@, contact@),
                final(self)@,
                actions_of(old(actions)@),
                actions_of(final(actions)@),
                r,
            ),
    {
        let ghost first = actions_of(actions@);
        proof {
            lemma_none(first);
        }
        let (request, local_tag, operator_answered) = match self.get(call_id) {
            Some(call) => {
                if call.direction != LiveVoiceDirection::MobileTerminated {
                    return Err(VolteError::new("volte_voice_direction_mismatch"));
                }
                match &call.initial_invite {
                    Some(request) => (
                        copy_bytes(request.as_slice()),
                        call.dialog.local_tag.clone(),
                        call.operator_answered,
                    ),
                    None => return Err(VolteError::new("volte_voice_initial_invite_missing")),
                }
            },
            None => return Err(VolteError::new("volte_voice_call_unknown")),
        };
        match self.remove(call_id) {
            Some(mut call) => {
                let mut started: Vec<RelayActivation> = Vec::new();
                let prepared = media::prepare_incoming_media(&mut call, body, &mut started);
                let ghost outcome = incoming_body_outcome(old(self)@[call_id@], body@);
                proof {
                    lemma_fresh_starts(started@, outcome.activations);
                }
                act_starts(actions, started);
                match prepared {
                    Ok(answer) => {
                        if !operator_answered {
                            let action = CallAction::Send(
                                OutboundSip::Response {
                                    request,
                                    status: 200,
                                    reason: "OK",
                                    local_tag: Some(local_tag),
                                    contact: Some(contact.to_string()),
                                    answer: Some(answer),
                                },
                            );
                            proof {
                                lemma_then(first, starts(outcome.activations), action@);
                            }
                            act(actions, action);
                        }
                        proof {
                            lemma_put_back(old(self)@, call_id@, call@);
                        }
                        self.insert(call_id.to_string(), call);
                    },
                    Err(_) => {
                        let event = CallAction::Emit(
                            OperatorEvent::Ended { call_id: call_id.to_string() },
                        );
                        let action = if operator_answered {
                            say_bye(&call)
                        } else {
                            respond(request, 488, "Not Acceptable Here", local_tag.as_str())
                        };
                        proof {
                            let s = starts(outcome.activations);
                            lemma_then(first, s, event@);
                            lemma_then(first, s.push(event@), action@);
                        }
                        act(actions, event);
                        act(actions, action);
                    },
                }
                Ok(())
            },
            None => Err(VolteError::new("volte_voice_call_unknown")),
        }
    }

    /// Turns an incoming call down.
    pub fn reject_call(
        &mut self,
        call_id: &str,
        status: u16,
        actions: &mut Vec<CallAction>,
    ) -> (r: Result<(), VolteError>)
        ensures
            stepped(
                reject_call_step(old(self)@, call_id@, status),
                final(self)@,
                actions_of(old(actions)@),
                actions_of(final(actions)@),
                r,
            ),
    {
        proof {
            lemma_none(actions_of(actions@));
        }
        match self.remove(call_id) {
            Some(call) => {
                if call.direction != LiveVoiceDirection::MobileTerminated {
                    return Err(VolteError::new("volte_voice_direction_mismatch"));
                }
                if call.operator_answered {
                    proof {
                        lemma_one(actions_of(actions@), bye(call@));
                    }
                    act(actions, say_bye(&call));
                    return Ok(());
                }
                match call.initial_invite {
                    Some(request) => {
                        let action = respond(
                            request,
                            status,
                            ims_reason(status),
                            call.dialog.local_tag.as_str(),
                        );
                        proof {
                            lemma_one(actions_of(actions@), action@);
                        }
                        act(actions, action);
                        Ok(())
                    },
                    None => Err(VolteError::new("volte_voice_initial_invite_missing")),
                }
            },
            None => Err(VolteError::new("volte_voice_call_unknown")),
        }
    }
}

/// What was started from nothing is the whole list.
pub proof fn lemma_fresh_starts(started: Seq<RelayActivation>, wanted: Seq<media::ActivationView>)
    requires
        media::activations(started) == media::activations(Seq::<RelayActivation>::empty())
            + wanted,
    ensures
        media::activations(started) == wanted,
{
    assert(media::activations(Seq::<RelayActivation>::empty()) + wanted =~= wanted);
}

// ---------------------------------------------------------------------------
// Commands as the trunk sends them.

/// What the trunk asks for.
#[derive(Debug, PartialEq, Eq)]
pub enum OperatorCommand {
    StartCall { call_id: String, callee: String, offer: MediaOffer },
    CancelCall { call_id: String },
    HangupCall { call_id: String },
    SendDtmf { call_id: String, signal: DtmfSignal },
    TransferCall { call_id: String, refer_to: String },
    Renegotiate { call_id: String, offer: MediaOffer },
    AcceptRenegotiation { call_id: String, body: Vec<u8> },
    RejectRenegotiation { call_id: String, status: u16 },
    ReportProvisional { call_id: String, status: u16, early: Option<Vec<u8>> },
    AcceptCall { call_id: String, body: Vec<u8> },
    RejectCall { call_id: String, status: u16 },
}

/// The call that a command is about.
pub open spec fn command_call(command: OperatorCommand) -> Seq<char> {
    match command {
        OperatorCommand::StartCall { call_id, .. } => call_id@,
        OperatorCommand::CancelCall { call_id } => call_id@,
        OperatorCommand::HangupCall { call_id } => call_id@,
        OperatorCommand::SendDtmf { call_id, .. } => call_id@,
        OperatorCommand::TransferCall { call_id, .. } => call_id@,
        OperatorCommand::Renegotiate { call_id, .. } => call_id@,
        OperatorCommand::AcceptRenegotiation { call_id, .. } => call_id@,
        OperatorCommand::RejectRenegotiation { call_id, .. } => call_id@,
        OperatorCommand::ReportProvisional { call_id, .. } => call_id@,
        OperatorCommand::AcceptCall { call_id, .. } => call_id@,
        OperatorCommand::RejectCall { call_id, .. } => call_id@,
    }
}

/// The call that a command is about.
pub fn operator_command_call_id(command: &OperatorCommand) -> (r: &str)
    ensures
        r@ == command_call(*command),
{
    match command {
        OperatorCommand::StartCall { call_id, .. } => call_id.as_str(),
        OperatorCommand::CancelCall { call_id } => call_id.as_str(),
        OperatorCommand::HangupCall { call_id } => call_id.as_str(),
        OperatorCommand::SendDtmf { call_id, .. } => call_id.as_str(),
        OperatorCommand::TransferCall { call_id, .. } => call_id.as_str(),
        OperatorCommand::Renegotiate { call_id, .. } => call_id.as_str(),
        OperatorCommand::AcceptRenegotiation { call_id, .. } => call_id.as_str(),
        OperatorCommand::RejectRenegotiation { call_id, .. } => call_id.as_str(),
        OperatorCommand::ReportProvisional { call_id, .. } => call_id.as_str(),
        OperatorCommand::AcceptCall { call_id, .. } => call_id.as_str(),
        OperatorCommand::RejectCall { call_id, .. } => call_id.as_str(),
    }
}

/// What a command needs of the line besides its calls.
#[derive(Debug, PartialEq, Eq)]
pub struct CommandContext {
    pub home_domain: String,
    /// The contact address that a final answer carries.
    pub contact: String,
    pub video_enabled: bool,
    /// Why the REFER of a transfer cannot be written, where it cannot.
    pub unwritable: Option<String>,
    /// The time in milliseconds.
    pub now: u64,
}

/// What has to be done before a command takes effect.
#[derive(Debug, PartialEq, Eq)]
pub enum Admission {
    /// Bind relay sockets, one pair more for video, and then start the call to `callee_uri`.
    BindForStart { callee_uri: String, video: bool },
    /// Bind relay sockets, one pair more for video, and then offer the new media.
    BindForRenegotiation { video: bool },
    /// Nothing.
    Ready,
}

/// Whether a command is admitted. Without a registered session none is.
pub open spec fn admitted(
    calls: Option<CallMap>,
    command: OperatorCommand,
    context: CommandContext,
) -> Result<Option<(Seq<char>, bool)>, ErrorView> {
    match calls {
        None => Err(failure("volte_runtime_not_registered"@)),
        Some(calls) => match command {
            OperatorCommand::StartCall { call_id, callee, offer } => match start_check(
                calls,
                call_id@,
                callee@,
                context.home_domain@,
                offer.video is Some,
                context.video_enabled,
            ) {
                Ok(uri) => Ok(Some((uri, offer.video is Some))),
                Err(error) => Err(error),
            },
            OperatorCommand::Renegotiate { call_id, offer } => if offer.video is Some
                && !context.video_enabled {
                Err(failure("vilte_feature_disabled"@))
            } else {
                Ok(None)
            },
            _ => Ok(None),
        },
    }
}

/// Decides what has to be done before a command takes effect.
pub fn admit_command(
    calls: Option<&VoiceCalls>,
    command: &OperatorCommand,
    context: &CommandContext,
) -> (r: Result<Admission, VolteError>)
    ensures
        ({
            let wanted = admitted(
                match calls {
                    Some(calls) => Some(calls@),
                    None => None,
                },
                *command,
                *context,
            );
            match r {
                Ok(Admission::BindForStart { callee_uri, video }) => command is StartCall && wanted
                    == Ok::<Option<(Seq<char>, bool)>, ErrorView>(Some((callee_uri@, video))),
                Ok(Admission::BindForRenegotiation { video }) => wanted == Ok::<
                    Option<(Seq<char>, bool)>,
                    ErrorView,
                >(None) && (command matches OperatorCommand::Renegotiate { call_id, offer }
                    && video == (offer.video is Some)),
                Ok(Admission::Ready) => wanted == Ok::<Option<(Seq<char>, bool)>, ErrorView>(None)
                    && !(command is StartCall) && !(command is Renegotiate),
                Err(error) => wanted == Err::<Option<(Seq<char>, bool)>, ErrorView>(error@),
            }
        }),
{
    let calls = match calls {
        Some(calls) => calls,
        None => return Err(VolteError::new("volte_runtime_not_registered")),
    };
    match command {
        OperatorCommand::StartCall { call_id, callee, offer } => {
            let video = offer.video.is_some();
            match calls.check_start(
                call_id.as_str(),
                callee.as_str(),
                context.home_domain.as_str(),
                video,
                context.video_enabled,
            ) {
                Ok(callee_uri) => Ok(Admission::BindForStart { callee_uri, video }),
                Err(error) => Err(error),
            }
        },
        OperatorCommand::Renegotiate { call_id: _, offer } => {
            let video = offer.video.is_some();
            match VoiceCalls::check_renegotiate(video, context.video_enabled) {
                Ok(()) => Ok(Admission::BindForRenegotiation { video }),
                Err(error) => Err(error),
            }
        },
        _ => Ok(Admission::Ready),
    }
}

/// What a command that needs no relay sockets leads to. Nothing is said of those that
/// need them: a call is started by `VoiceCalls::start_call`, and new media is offered by
/// `VoiceCalls::renegotiate`.
pub open spec fn command_step(
    calls: CallMap,
    command: OperatorCommand,
    context: CommandContext,
) -> Step<()> {
    match command {
        OperatorCommand::CancelCall { call_id } => cancel_step(calls, call_id@),
        OperatorCommand::HangupCall { call_id } => hangup_step(calls, call_id@),
        OperatorCommand::SendDtmf { call_id, signal } => dtmf_step(calls, call_id@, signal),
        OperatorCommand::TransferCall { call_id, refer_to } => transfer_step(
            calls,
            call_id@,
            refer_to@,
            context.home_domain@,
            opt(context.unwritable),
            context.now,
        ),
        OperatorCommand::AcceptRenegotiation { call_id, body } => accept_renegotiation_step(
            calls,
            call_id@,
            body@,
            context.contact@,
        ),
        OperatorCommand::RejectRenegotiation { call_id, status } => reject_renegotiation_step(
            calls,
            call_id@,
            status,
        ),
        OperatorCommand::ReportProvisional { call_id, status, early } => report_provisional_step(
            calls,
            call_id@,
            status,
            match early {
                Some(body) => Some(body@),
                None => None,
            },
        ),
        OperatorCommand::AcceptCall { call_id, body } => accept_call_step(
            calls,
            call_id@,
            body@,
            context.contact@,
        ),
        OperatorCommand::RejectCall { call_id, status } => reject_call_step(
            calls,
            call_id@,
            status,
        ),
        OperatorCommand::StartCall { .. } => arbitrary(),
        OperatorCommand::Renegotiate { .. } => arbitrary(),
    }
}

/// Carries out a command that needs no relay sockets.
pub fn handle_operator_command_inner(
    calls: &mut VoiceCalls,
    command: &OperatorCommand,
    context: &CommandContext,
    actions: &mut Vec<CallAction>,
) -> (r: Result<(), VolteError>)
    requires
        !(command is StartCall),
        !(command is Renegotiate),
        context.now <= u64::MAX - REFER_RESPONSE_TIMEOUT_MS,
    ensures
        stepped(
            command_step(old(calls)@, *command, *context),
            final(calls)@,
            actions_of(old(actions)@),
            actions_of(final(actions)@),
            r,
        ),
{
    match command {
        OperatorCommand::CancelCall { call_id } => calls.cancel_call(call_id.as_str(), actions),
        OperatorCommand::HangupCall { call_id } => calls.hangup_call(call_id.as_str(), actions),
        OperatorCommand::SendDtmf { call_id, signal } => calls.send_dtmf(
            call_id.as_str(),
            *signal,
            actions,
        ),
        OperatorCommand::TransferCall { call_id, refer_to } => calls.transfer_call(
            call_id.as_str(),
            refer_to.as_str(),
            context.home_domain.as_str(),
            match &context.unwritable {
                Some(reason) => Some(reason.as_str()),
                None => None,
            },
            context.now,
            actions,
        ),
        OperatorCommand::AcceptRenegotiation { call_id, body } => calls.accept_renegotiation(
            call_id.as_str(),
            body.as_slice(),
            context.contact.as_str(),
            actions,
        ),
        OperatorCommand::RejectRenegotiation { call_id, status } => calls.reject_renegotiation(
            call_id.as_str(),
            *status,
            actions,
        ),
        OperatorCommand::ReportProvisional { call_id, status, early } => {
            let body = match early {
                Some(body) => Some(body.as_slice()),
                None => None,
            };
            calls.report_provisional(call_id.as_str(), *status, body, actions)
        },
        OperatorCommand::AcceptCall { call_id, body } => calls.accept_call(
            call_id.as_str(),
            body.as_slice(),
            context.contact.as_str(),
            actions,
        ),
        OperatorCommand::RejectCall { call_id, status } => calls.reject_call(
            call_id.as_str(),
            *status,
            actions,
        ),
        OperatorCommand::StartCall { .. } => unreached(),
        OperatorCommand::Renegotiate { .. } => unreached(),
    }
}

/// The status that a refused transfer is answered with.
pub open spec fn transfer_failure_status(code: Seq<char>) -> u16 {
    if has_suffix(code, "_pending"@) {
        491
    } else if has_suffix(code, "_unknown"@) || has_suffix(code, "_not_confirmed"@) {
        481
    } else {
        500
    }
}

/// The call after an attempt to offer new media has failed.
pub open spec fn renegotiation_abandoned(call: CallView) -> CallView {
    CallView {
        pending_asterisk_reinvite: false,
        renegotiation_deadline: None,
        ..call.rolled_back()
    }
}

/// What follows when a command has failed: the trunk hears of a call that could
/// not be started and of a transfer that could not be asked for; new media that
/// could not be offered is given up.
pub open spec fn failed_step(
    calls: CallMap,
    command: OperatorCommand,
    code: Seq<char>,
) -> (CallMap, Seq<ActionView>) {
    let id = command_call(command);
    match command {
        OperatorCommand::StartCall { .. } => (
            calls,
            if code == "volte_concurrent_call_limit"@ {
                seq![ActionView::Emit(EventView::Rejected { call_id: id, status: 486 })]
            } else {
                seq![ActionView::Emit(EventView::Unavailable { call_id: id })]
            },
        ),
        OperatorCommand::Renegotiate { .. } => (
            if calls.contains_key(id) {
                calls.insert(id, renegotiation_abandoned(calls[id]))
            } else {
                calls
            },
            Seq::empty(),
        ),
        OperatorCommand::TransferCall { .. } => (
            calls,
            seq![
                ActionView::Emit(
                    EventView::TransferResponse {
                        call_id: id,
                        status: transfer_failure_status(code),
                    },
                ),
            ],
        ),
        _ => (calls, Seq::empty()),
    }
}

/// Follows up on a command that has failed.
pub fn command_failed(
    calls: &mut VoiceCalls,
    command: &OperatorCommand,
    error: &VolteError,
    actions: &mut Vec<CallAction>,
)
    ensures
        final(calls)@ == failed_step(old(calls)@, *command, error@.code).0,
        actions_of(final(actions)@) == actions_of(old(actions)@) + failed_step(
            old(calls)@,
            *command,
            error@.code,
        ).1,
{
    let ghost first = actions_of(actions@);
    proof {
        lemma_none(first);
    }
    match command {
        OperatorCommand::StartCall { call_id, .. } => {
            let event = if error.is("volte_concurrent_call_limit") {
                OperatorEvent::Rejected { call_id: call_id.clone(), status: 486 }
            } else {
                OperatorEvent::Unavailable { call_id: call_id.clone() }
            };
            let action = CallAction::Emit(event);
            proof {
                lemma_one(first, action@);
            }
            act(actions, action);
        },
        OperatorCommand::Renegotiate { call_id, .. } => {
            match calls.remove(call_id.as_str()) {
                Some(mut call) => {
                    call.pending_asterisk_reinvite = false;
                    call.rollback_media_update();
                    call.renegotiation_deadline = None;
                    proof {
                        assert(call@ == renegotiation_abandoned(old(calls)@[call_id@]));
                        lemma_put_back(old(calls)@, call_id@, call@);
                    }
                    calls.insert(call_id.clone(), call);
                },
                None => {},
            }
        },
        OperatorCommand::TransferCall { call_id, .. } => {
            let code = error.code();
            let status: u16 = if text::ends_with(code, "_pending") {
                491
            } else if text::ends_with(code, "_unknown") || text::ends_with(
                code,
                "_not_confirmed",
            ) {
                481
            } else {
                500
            };
            let action = CallAction::Emit(
                OperatorEvent::TransferResponse { call_id: call_id.clone(), status },
            );
            proof {
                lemma_one(first, action@);
            }
            act(actions, action);
        },
        _ => {},
    }
}

/// The two tables agree on every call but `id`.
pub open spec fn agree_but(a: CallMap, b: CallMap, id: Seq<char>) -> bool {
    forall|k: Seq<char>|
        k != id ==> (#[trigger] a.contains_key(k) <==> b.contains_key(k)) && (a.contains_key(k)
            ==> a[k] == b[k])
}

proof fn lemma_accept_renegotiation_apart(
    calls: CallMap,
    id: Seq<char>,
    body: Seq<u8>,
    contact: Seq<char>,
)
    ensures
        agree_but(calls, accept_renegotiation_step(calls, id, body, contact).calls, id),
{
    let outcome = incoming_body_outcome(calls[id], body);
    match outcome.result {
        Ok(answer) => {},
        Err(error) => {},
    }
}

proof fn lemma_report_provisional_apart(
    calls: CallMap,
    id: Seq<char>,
    status: u16,
    body: Option<Seq<u8>>,
)
    ensures
        agree_but(calls, report_provisional_step(calls, id, status, body).calls, id),
{
    match body {
        Some(body) => {
            let outcome = incoming_body_outcome(calls[id], body);
            match outcome.result {
                Ok(answer) => {},
                Err(error) => {},
            }
        },
        None => {},
    }
}

proof fn lemma_accept_call_apart(
    calls: CallMap,
    id: Seq<char>,
    body: Seq<u8>,
    contact: Seq<char>,
)
    ensures
        agree_but(calls, accept_call_step(calls, id, body, contact).calls, id),
{
    let outcome = incoming_body_outcome(calls[id], body);
    match outcome.result {
        Ok(answer) => {},
        Err(error) => {},
    }
}

proof fn lemma_other_commands_apart(
    calls: CallMap,
    id: Seq<char>,
    signal: DtmfSignal,
    refer_to: Seq<char>,
    context: CommandContext,
    status: u16,
)
    ensures
        agree_but(calls, cancel_step(calls, id).calls, id),
        agree_but(calls, hangup_step(calls, id).calls, id),
        agree_but(calls, dtmf_step(calls, id, signal).calls, id),
        agree_but(
            calls,
            transfer_step(
                calls,
                id,
                refer_to,
                context.home_domain@,
                opt(context.unwritable),
                context.now,
            ).calls,
            id,
        ),
        agree_but(calls, reject_renegotiation_step(calls, id, status).calls, id),
        agree_but(calls, reject_call_step(calls, id, status).calls, id),
{
}

/// A command changes no call but its own, and neither does its failure: two
/// dialogs keep their state apart.
pub proof fn commands_keep_dialogs_apart(
    calls: CallMap,
    command: OperatorCommand,
    context: CommandContext,
    code: Seq<char>,
)
    ensures
        !(command is StartCall) && !(command is Renegotiate) ==> agree_but(
            calls,
            command_step(calls, command, context).calls,
            command_call(command),
        ),
        agree_but(calls, failed_step(calls, command, code).0, command_call(command)),
{
    let id = command_call(command);
    let domain = context.home_domain@;
    let press = DtmfSignal { digit: '0', duration_ms: 0 };
    match command {
        OperatorCommand::SendDtmf { call_id, signal } => {
            lemma_other_commands_apart(calls, id, signal, domain, context, 0);
        },
        OperatorCommand::TransferCall { call_id, refer_to } => {
            lemma_other_commands_apart(calls, id, press, refer_to@, context, 0);
        },
        OperatorCommand::AcceptRenegotiation { call_id, body } => {
            lemma_accept_renegotiation_apart(calls, id, body@, context.contact@);
        },
        OperatorCommand::RejectRenegotiation { call_id, status } => {
            lemma_other_commands_apart(calls, id, press, domain, context, status);
        },
        OperatorCommand::ReportProvisional { call_id, status, early } => {
            let body = match early {
                Some(body) => Some(body@),
                None => None,
            };
            lemma_report_provisional_apart(calls, id, status, body);
        },
        OperatorCommand::AcceptCall { call_id, body } => {
            lemma_accept_call_apart(calls, id, body@, context.contact@);
        },
        OperatorCommand::RejectCall { call_id, status } => {
            lemma_other_commands_apart(calls, id, press, domain, context, status);
        },
        _ => {
            lemma_other_commands_apart(calls, id, press, domain, context, 0);
        },
    }
}

/// Offering new media changes no call but its own.
pub proof fn renegotiation_keeps_dialogs_apart(
    calls: CallMap,
    id: Seq<char>,
    offer: OfferView,
    audio: RelaySockets,
    video: Option<RelaySockets>,
    now: u64,
)
    ensures
        agree_but(calls, renegotiate_step(calls, id, offer, audio, video, now).calls, id),
{
}

/// New media that the operator refuses leaves the media that was confirmed, and
/// the relays that were in use.
pub proof fn abandoned_renegotiation_restores_media(
    call: CallView,
    offer: OfferView,
    audio: RelaySockets,
    video: Option<RelaySockets>,
    now: u64,
)
    ensures
        ({
            let after = renegotiation_abandoned(renegotiating(call, offer, audio, video, now));
            &&& after.confirmed_media() == call.confirmed_media()
            &&& after.active_relay == call.active_relay
            &&& after.active_video_relay == call.active_video_relay
            &&& !after.pending_asterisk_reinvite
            &&& after.renegotiation_deadline is None
        }),
{
}

} // verus!
