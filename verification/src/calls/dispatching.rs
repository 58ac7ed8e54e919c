//! Which frame leads to what: the method or the status of a frame decides, and its Call-ID
//! says whose it is.

use vstd::prelude::*;
use vstd::string::*;

use crate::calls::frames::{call_frame, CallFrame, TrunkIpConnectMode};
use crate::calls::lifecycle::{frame_step, owned, stray_task, FrameTask};
use crate::calls::table::CallMap;
use crate::sip::written::{cseq_is_read_back, is_atom, methods_are_read_back, statuses_are_read_back};
use crate::sip::{head_text, header_of, is_refer_event, start_line};
use crate::text::{decimal, lower, same_folded};

verus! {

/// The frame is a request: its start line is a method, a space and the rest.
pub open spec fn is_request_line(frame: Seq<u8>, method: Seq<char>, rest: Seq<char>) -> bool {
    start_line(frame) == method + " "@ + rest
}

proof fn lemma_methods()
    ensures
        "INVITE"@.len() == 6 && "CANCEL"@.len() == 6 && "NOTIFY"@.len() == 6,
        "BYE"@.len() == 3 && "INFO"@.len() == 4 && "REFER"@.len() == 5,
        "SIP/2.0"@.len() == 7,
        "INVITE"@[0] == 'I' && "CANCEL"@[0] == 'C' && "NOTIFY"@[0] == 'N',
        "SIP/2.0 "@ == "SIP/2.0"@ + " "@,
        no_space("INVITE"@) && no_space("CANCEL"@) && no_space("NOTIFY"@) && no_space("BYE"@)
            && no_space("INFO"@) && no_space("SIP/2.0"@),
{
    reveal_strlit("INVITE");
    reveal_strlit("CANCEL");
    reveal_strlit("NOTIFY");
    reveal_strlit("BYE");
    reveal_strlit("INFO");
    reveal_strlit("REFER");
    reveal_strlit("SIP/2.0");
    reveal_strlit("SIP/2.0 ");
    reveal_strlit(" ");
    assert("SIP/2.0 "@ =~= "SIP/2.0"@ + " "@);
}

/// A text without a space in it.
pub open spec fn no_space(s: Seq<char>) -> bool {
    forall|i: int| 0 <= i < s.len() ==> #[trigger] s[i] != ' '
}

proof fn lemma_request(frame: Seq<u8>, method: Seq<char>, rest: Seq<char>)
    requires
        is_request_line(frame, method, rest),
        no_space(method),
    ensures
        crate::sip::requests(frame, "INVITE"@) <==> method == "INVITE"@,
        crate::sip::requests(frame, "CANCEL"@) <==> method == "CANCEL"@,
        crate::sip::requests(frame, "NOTIFY"@) <==> method == "NOTIFY"@,
        crate::sip::requests(frame, "BYE"@) <==> method == "BYE"@,
        crate::sip::requests(frame, "INFO"@) <==> method == "INFO"@,
        crate::sip::responds(frame) <==> method == "SIP/2.0"@,
{
    lemma_methods();
    methods_are_read_back(frame, method, rest, "INVITE"@);
    methods_are_read_back(frame, method, rest, "CANCEL"@);
    methods_are_read_back(frame, method, rest, "NOTIFY"@);
    methods_are_read_back(frame, method, rest, "BYE"@);
    methods_are_read_back(frame, method, rest, "INFO"@);
    methods_are_read_back(frame, method, rest, "SIP/2.0"@);
}

/// A request of a known call is dealt with by its method: a new INVITE renegotiates, INFO
/// may be a keypress, a notification about a transfer is read as one. A request with
/// another method is left for others.
pub proof fn requests_go_by_their_method(
    calls: CallMap,
    id: Seq<char>,
    frame: Seq<u8>,
    method: Seq<char>,
    rest: Seq<char>,
    mode: TrunkIpConnectMode,
)
    requires
        is_request_line(frame, method, rest),
        no_space(method),
        method != "SIP/2.0"@,
    ensures
        ({
            let kind = call_frame(frame);
            let step = frame_step(calls, id, frame, mode);
            &&& kind is Ok
            &&& kind->Ok_0 == CallFrame::Invite <==> method == "INVITE"@
            &&& kind->Ok_0 == CallFrame::Cancel <==> method == "CANCEL"@
            &&& kind->Ok_0 == CallFrame::Bye <==> method == "BYE"@
            &&& kind->Ok_0 == CallFrame::Info <==> method == "INFO"@
            &&& kind->Ok_0 == CallFrame::ReferNotify <==> method == "NOTIFY"@ && is_refer_event(
                frame,
            )
            &&& method == "INVITE"@ ==> step.calls == calls && step.actions.len() == 0
                && step.result is Ok && step.result->Ok_0 == FrameTask::Reinvite
            &&& method == "INFO"@ ==> step.calls == calls && step.actions.len() == 0
                && step.result is Ok && step.result->Ok_0 == FrameTask::Info
            &&& method == "NOTIFY"@ && is_refer_event(frame) ==> step.calls == calls
                && step.result is Ok && step.result->Ok_0 == FrameTask::ReferNotify
            &&& method != "INVITE"@ && method != "CANCEL"@ && method != "BYE"@ && method
                != "INFO"@ && method != "NOTIFY"@ ==> step.calls == calls && step.actions.len() == 0
                && step.result is Ok && step.result->Ok_0 == FrameTask::Declined
        }),
{
    lemma_methods();
    lemma_request(frame, method, rest);
}

/// A response of a known call is dealt with by the request that it answers: one to INVITE
/// or to REFER with its status, any other without more.
pub proof fn responses_go_by_their_request(
    frame: Seq<u8>,
    status: u16,
    reason: Seq<char>,
    n: u32,
    method: Seq<char>,
)
    requires
        head_text(frame) is Some,
        start_line(frame) == "SIP/2.0 "@ + decimal(status as nat) + " "@ + reason,
        header_of(frame, "CSeq"@) == Some(decimal(n as nat) + " "@ + method),
        is_atom(method),
    ensures
        call_frame(frame) is Ok,
        method == "INVITE"@ ==> call_frame(frame)->Ok_0 == CallFrame::InviteResponse(status),
        same_folded(method, "REFER"@) ==> call_frame(frame)->Ok_0 == CallFrame::ReferResponse(
            status,
        ),
        method != "INVITE"@ && !same_folded(method, "REFER"@) ==> call_frame(frame)->Ok_0
            == CallFrame::OtherResponse,
{
    lemma_methods();
    let rest = decimal(status as nat) + " "@ + reason;
    assert(start_line(frame) =~= "SIP/2.0"@ + " "@ + rest);
    lemma_request(frame, "SIP/2.0"@, rest);
    statuses_are_read_back(frame, status, reason);
    cseq_is_read_back(frame, n, method);
    if same_folded(method, "REFER"@) {
        assert(lower(method).len() == lower("REFER"@).len());
    }
}

/// A frame belongs to the call whose dialog has its Call-ID. One that belongs to none is a
/// new call where it is an INVITE, and no call otherwise.
pub proof fn frames_belong_to_their_dialog(
    calls: CallMap,
    id: Seq<char>,
    frame: Seq<u8>,
    method: Seq<char>,
    rest: Seq<char>,
)
    requires
        is_request_line(frame, method, rest),
        no_space(method),
    ensures
        calls.contains_key(id) && header_of(frame, "Call-ID"@) == Some(calls[id].dialog.call_id)
            ==> owned(calls, frame),
        header_of(frame, "Call-ID"@) is None ==> !owned(calls, frame) && stray_task(frame)
            == FrameTask::NotACall,
        (forall|k: Seq<char>| #[trigger]
            calls.contains_key(k) ==> Some(calls[k].dialog.call_id) != header_of(
                frame,
                "Call-ID"@,
            )) ==> !owned(calls, frame),
        header_of(frame, "Call-ID"@) is Some ==> (stray_task(frame) == FrameTask::Incoming
            <==> method == "INVITE"@),
        method != "INVITE"@ ==> stray_task(frame) == FrameTask::NotACall,
{
    lemma_methods();
    lemma_request(frame, method, rest);
}

} // verus!
