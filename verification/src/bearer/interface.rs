//! The network interface of a bearer: its state and the one request that opens it.

use vstd::prelude::*;
use vstd::string::*;

use crate::errors::{code, detailed, ErrorView, VolteError};
use crate::ip::IpAddr;
use crate::text;
use crate::text::{decimal, opt, same_folded};

verus! {

// ---------------------------------------------------------------------------
// JSON documents.

/// What `serde_json` finds at a pointer of a document, where that is a text.
pub uninterp spec fn json_text(document: Seq<char>, pointer: Seq<char>) -> Option<Seq<char>>;

/// How long the array is that `serde_json` finds at a pointer of a document.
pub uninterp spec fn json_len(document: Seq<char>, pointer: Seq<char>) -> Option<usize>;

/// The text at a pointer of a JSON document: `serde_json::from_str` into a
/// `serde_json::Value`, then `Value::pointer` and `Value::as_str`. The claim is that
/// the result depends on the document and the pointer alone. A document that does
/// not parse, a place that does not exist and a value that is no text give nothing.
#[verifier::external_body]
fn json_text_at(document: &str, pointer: &str) -> (r: Option<String>)
    ensures
        opt(r) == json_text(document@, pointer@),
{
    let value = serde_json::from_str::<serde_json::Value>(document).ok()?;
    value.pointer(pointer)?.as_str().map(str::to_string)
}

/// The length of the array at a pointer of a JSON document: `serde_json::from_str`
/// into a `serde_json::Value`, then `Value::pointer` and `Value::as_array`. The
/// claim is that the result depends on the document and the pointer alone. A
/// document that does not parse, a place that does not exist and a value that is no
/// array give nothing.
#[verifier::external_body]
fn json_len_at(document: &str, pointer: &str) -> (r: Option<usize>)
    ensures
        r == json_len(document@, pointer@),
{
    let value = serde_json::from_str::<serde_json::Value>(document).ok()?;
    value.pointer(pointer)?.as_array().map(Vec::len)
}

/// The optional texts behind optional strings.
pub open spec fn opts(values: Seq<Option<String>>) -> Seq<Option<Seq<char>>> {
    values.map_values(|value: Option<String>| opt(value))
}

/// What the document holds at `prefix`, each index below `n`, and `suffix`.
pub open spec fn texts_at(
    document: Seq<char>,
    prefix: Seq<char>,
    suffix: Seq<char>,
    n: nat,
) -> Seq<Option<Seq<char>>> {
    Seq::new(n, |j: int| json_text(document, prefix + decimal(j as nat) + suffix))
}

pub open spec fn len_or_zero(len: Option<usize>) -> nat {
    match len {
        Some(n) => n as nat,
        None => 0,
    }
}

fn collect_texts(document: &str, prefix: &str, suffix: &str, n: usize) -> (r: Vec<Option<String>>)
    ensures
        opts(r@) == texts_at(document@, prefix@, suffix@, n as nat),
{
    let mut out: Vec<Option<String>> = Vec::new();
    let mut j: usize = 0;
    proof {
        assert(opts(out@) =~= texts_at(document@, prefix@, suffix@, 0));
    }
    while j < n
        invariant
            j <= n,
            opts(out@) == texts_at(document@, prefix@, suffix@, j as nat),
        decreases n - j,
    {
        let mut pointer = prefix.to_string();
        let index = text::decimal_string(j as u64);
        pointer.append(index.as_str());
        pointer.append(suffix);
        let ghost before = out@;
        let found = json_text_at(document, pointer.as_str());
        out.push(found);
        j += 1;
        proof {
            assert(opts(out@) =~= opts(before).push(opt(found)));
            assert(opts(out@) =~= texts_at(document@, prefix@, suffix@, j as nat));
        }
    }
    out
}

fn len_at(document: &str, pointer: &str) -> (r: usize)
    ensures
        r == len_or_zero(json_len(document@, pointer@)),
{
    match json_len_at(document, pointer) {
        Some(n) => n,
        None => 0,
    }
}

// ---------------------------------------------------------------------------
// The state of a link.

/// The flag says that the link is up.
pub open spec fn up_flag(flag: Option<Seq<char>>) -> bool {
    flag is Some && (same_folded(flag->0, "up"@) || same_folded(flag->0, "lower_up"@))
}

/// The link is up: by its state or by one of its flags.
pub open spec fn state_is_up(operstate: Option<Seq<char>>, flags: Seq<Option<Seq<char>>>) -> bool {
    ||| operstate is Some && same_folded(operstate->0, "up"@)
    ||| exists|j: int| 0 <= j < flags.len() && up_flag(#[trigger] flags[j])
}

/// Whether a link with this state and these flags is up.
pub fn link_state_is_up(operstate: &Option<String>, flags: &[Option<String>]) -> (r: bool)
    ensures
        r == state_is_up(opt(*operstate), opts(flags@)),
{
    if let Some(state) = operstate {
        if text::same_ignoring_case(state.as_str(), "up") {
            return true;
        }
    }
    let ghost all = opts(flags@);
    let mut j: usize = 0;
    while j < flags.len()
        invariant
            j <= flags@.len(),
            all == opts(flags@),
            forall|k: int| 0 <= k < j ==> !up_flag(#[trigger] all[k]),
        decreases flags@.len() - j,
    {
        proof {
            assert(all[j as int] == opt(flags@[j as int]));
        }
        if let Some(flag) = &flags[j] {
            if text::same_ignoring_case(flag.as_str(), "up") || text::same_ignoring_case(
                flag.as_str(),
                "lower_up",
            ) {
                assert(up_flag(all[j as int]));
                return true;
            }
        }
        j += 1;
    }
    false
}

/// The first link of an `ip -json link show` output is up.
pub open spec fn link_up(output: Seq<char>) -> bool {
    json_len(output, ""@) is Some && json_len(output, ""@)->0 > 0 && state_is_up(
        json_text(output, "/0/operstate"@),
        texts_at(output, "/0/flags/"@, ""@, len_or_zero(json_len(output, "/0/flags"@))),
    )
}

/// Whether the first link of an `ip -json link show` output is up.
pub fn link_output_is_up(output: &str) -> (r: bool)
    ensures
        r == link_up(output@),
{
    if len_at(output, "") == 0 {
        return false;
    }
    let operstate = json_text_at(output, "/0/operstate");
    let n = len_at(output, "/0/flags");
    let flags = collect_texts(output, "/0/flags/", "", n);
    link_state_is_up(&operstate, &flags)
}

/// One of the entries is the address.
pub open spec fn names_address(locals: Seq<Option<Seq<char>>>, address: IpAddr) -> bool {
    exists|j: int|
        0 <= j < locals.len() && (#[trigger] locals[j]) is Some && same_folded(
            locals[j]->0,
            address.text(),
        )
}

/// Whether one of the entries is the address.
pub fn entries_name_address(locals: &[Option<String>], address: IpAddr) -> (r: bool)
    ensures
        r == names_address(opts(locals@), address),
{
    let wanted = address.to_string();
    let ghost all = opts(locals@);
    let mut j: usize = 0;
    while j < locals.len()
        invariant
            j <= locals@.len(),
            all == opts(locals@),
            wanted@ == address.text(),
            forall|k: int|
                0 <= k < j ==> !((#[trigger] all[k]) is Some && same_folded(
                    all[k]->0,
                    address.text(),
                )),
        decreases locals@.len() - j,
    {
        proof {
            assert(all[j as int] == opt(locals@[j as int]));
        }
        if let Some(local) = &locals[j] {
            if text::same_ignoring_case(local.as_str(), wanted.as_str()) {
                assert(all[j as int] is Some);
                return true;
            }
        }
        j += 1;
    }
    false
}

/// The local addresses of the `i`-th link.
pub open spec fn link_locals(output: Seq<char>, i: nat) -> Seq<Option<Seq<char>>> {
    let entries = "/"@ + decimal(i) + "/addr_info"@;
    texts_at(output, entries + "/"@, "/local"@, len_or_zero(json_len(output, entries)))
}

/// The local addresses of the first `n` links.
pub open spec fn all_locals(output: Seq<char>, n: nat) -> Seq<Option<Seq<char>>>
    decreases n,
{
    if n == 0 {
        Seq::empty()
    } else {
        all_locals(output, (n - 1) as nat) + link_locals(output, (n - 1) as nat)
    }
}

/// An `ip -json address show` output lists the address.
pub open spec fn lists_address(output: Seq<char>, address: IpAddr) -> bool {
    names_address(all_locals(output, len_or_zero(json_len(output, ""@))), address)
}

fn collect_locals(output: &str) -> (r: Vec<Option<String>>)
    ensures
        opts(r@) == all_locals(output@, len_or_zero(json_len(output@, ""@))),
{
    let n = len_at(output, "");
    let mut out: Vec<Option<String>> = Vec::new();
    let mut i: usize = 0;
    proof {
        assert(opts(out@) =~= Seq::<Option<Seq<char>>>::empty());
    }
    while i < n
        invariant
            i <= n,
            opts(out@) == all_locals(output@, i as nat),
        decreases n - i,
    {
        let mut entries = "/".to_string();
        let index = text::decimal_string(i as u64);
        entries.append(index.as_str());
        entries.append("/addr_info");
        let count = len_at(output, entries.as_str());
        entries.append("/");
        let mut found = collect_texts(output, entries.as_str(), "/local", count);
        let ghost before = out@;
        let ghost more = found@;
        out.append(&mut found);
        i += 1;
        proof {
            assert(opts(out@) =~= opts(before) + opts(more));
        }
    }
    out
}

/// Whether an `ip -json address show` output lists the address.
pub fn addr_output_contains(output: &str, address: IpAddr) -> (r: bool)
    ensures
        r == lists_address(output@, address),
{
    let locals = collect_locals(output);
    entries_name_address(&locals, address)
}

// ---------------------------------------------------------------------------
// Opening the interface.

/// How often an opened interface is looked at.
pub const OPEN_POLLS: u32 = 4;

/// The pause between two looks, in milliseconds.
pub const OPEN_POLL_PAUSE_MS: u64 = 250;

/// What the platform knows of a fault of the baseband.
#[derive(Debug, PartialEq, Eq)]
pub struct BasebandFault {
    /// The interface may be brought up.
    pub permits_bring_up: bool,
    /// What the platform has to say of the fault.
    pub note: Option<String>,
}

/// What to do next.
#[derive(Debug, PartialEq, Eq)]
pub enum ReadyStep {
    /// The interface can be used.
    Ready,
    /// Request that the interface be opened.
    Open,
    /// Wait, and look again.
    Wait,
    /// The interface cannot be used.
    Failed(VolteError),
}

pub enum ReadyView {
    Ready,
    Open,
    Wait,
    Failed(ErrorView),
}

impl View for ReadyStep {
    type V = ReadyView;

    open spec fn view(&self) -> ReadyView {
        match *self {
            ReadyStep::Ready => ReadyView::Ready,
            ReadyStep::Open => ReadyView::Open,
            ReadyStep::Wait => ReadyView::Wait,
            ReadyStep::Failed(error) => ReadyView::Failed(error@),
        }
    }
}

/// The error of an interface whose baseband is at fault.
pub open spec fn fault_error(
    interface: Seq<char>,
    reason: Seq<char>,
    note: Option<Seq<char>>,
) -> ErrorView {
    detailed(
        code::BEARER_NETDEV_RUNTIME_ERROR@,
        match note {
            Some(note) => "interface="@ + interface + ": "@ + reason + " ("@ + note + ")"@,
            None => "interface="@ + interface + ": "@ + reason,
        },
    )
}

fn latched_error(interface: &str, reason: &str, note: &Option<String>) -> (r: VolteError)
    ensures
        r@ == fault_error(interface@, reason@, opt(*note)),
{
    let mut detail = "interface=".to_string();
    detail.append(interface);
    detail.append(": ");
    detail.append(reason);
    if let Some(note) = note {
        detail.append(" (");
        detail.append(note.as_str());
        detail.append(")");
    }
    VolteError::with_detail(code::BEARER_NETDEV_RUNTIME_ERROR, detail.as_str())
}

/// Opening an interface: how far it has come.
#[derive(Debug, PartialEq, Eq)]
pub struct InterfaceOpening {
    pub interface: String,
    /// The request was made.
    pub opened: bool,
    /// The looks since the request.
    pub polls: u32,
}

/// What to do once the interface was looked at.
pub open spec fn after_look(
    interface: Seq<char>,
    opened: bool,
    polls: u32,
    up: bool,
    permitted: bool,
    note: Option<Seq<char>>,
) -> ReadyView {
    if up {
        ReadyView::Ready
    } else if !permitted {
        ReadyView::Failed(
            fault_error(
                interface,
                if opened {
                    "runtime_status=error after OPEN"@
                } else {
                    "runtime_status=error before OPEN"@
                },
                note,
            ),
        )
    } else if !opened {
        ReadyView::Open
    } else if polls + 1 < OPEN_POLLS {
        ReadyView::Wait
    } else {
        ReadyView::Failed(
            detailed(
                code::BEARER_NETDEV_NOT_READY@,
                "interface="@ + interface + " remained down after one OPEN request"@,
            ),
        )
    }
}

/// What becomes of a request that failed.
pub open spec fn after_failed_open(
    interface: Seq<char>,
    error: ErrorView,
    up: bool,
    permitted: bool,
    note: Option<Seq<char>>,
) -> ReadyView {
    if up {
        ReadyView::Ready
    } else if !permitted {
        ReadyView::Failed(fault_error(interface, error.message(), note))
    } else {
        ReadyView::Failed(
            detailed(
                code::BEARER_NETDEV_NOT_UP@,
                "interface="@ + interface + ": "@ + error.message(),
            ),
        )
    }
}

impl InterfaceOpening {
    pub open spec fn wf(self) -> bool {
        self.polls <= OPEN_POLLS && (!self.opened ==> self.polls == 0)
    }

    /// Nothing was requested yet.
    pub fn new(interface: &str) -> (r: Self)
        ensures
            r.wf(),
            r.interface@ == interface@,
            !r.opened,
            r.polls == 0,
    {
        InterfaceOpening { interface: interface.to_string(), opened: false, polls: 0 }
    }

    /// The interface was looked at. The request is made once; later looks only
    /// observe what came of it.
    pub fn looked(&mut self, up: bool, fault: &BasebandFault) -> (r: ReadyStep)
        requires
            old(self).wf(),
        ensures
            r@ == after_look(
                old(self).interface@,
                old(self).opened,
                old(self).polls,
                up,
                fault.permits_bring_up,
                opt(fault.note),
            ),
            final(self).wf(),
            final(self).interface@ == old(self).interface@,
            final(self).opened == (old(self).opened || r@ is Open),
            final(self).polls == (if old(self).opened && old(self).polls < OPEN_POLLS {
                (old(self).polls + 1) as u32
            } else {
                old(self).polls
            }),
    {
        let opened = self.opened;
        let polls = self.polls;
        if opened && polls < OPEN_POLLS {
            self.polls = polls + 1;
        }
        if up {
            return ReadyStep::Ready;
        }
        if !fault.permits_bring_up {
            let reason = if opened {
                "runtime_status=error after OPEN"
            } else {
                "runtime_status=error before OPEN"
            };
            return ReadyStep::Failed(latched_error(self.interface.as_str(), reason, &fault.note));
        }
        if !opened {
            self.opened = true;
            return ReadyStep::Open;
        }
        if polls + 1 < OPEN_POLLS {
            return ReadyStep::Wait;
        }
        let mut detail = "interface=".to_string();
        detail.append(self.interface.as_str());
        detail.append(" remained down after one OPEN request");
        ReadyStep::Failed(VolteError::with_detail(code::BEARER_NETDEV_NOT_READY, detail.as_str()))
    }

    /// The request failed, and the interface was looked at once more.
    pub fn open_failed(&self, error: &VolteError, up: bool, fault: &BasebandFault) -> (r:
        ReadyStep)
        ensures
            r@ == after_failed_open(
                self.interface@,
                error@,
                up,
                fault.permits_bring_up,
                opt(fault.note),
            ),
    {
        if up {
            return ReadyStep::Ready;
        }
        let message = error.to_string();
        if !fault.permits_bring_up {
            return ReadyStep::Failed(
                latched_error(self.interface.as_str(), message.as_str(), &fault.note),
            );
        }
        let mut detail = "interface=".to_string();
        detail.append(self.interface.as_str());
        detail.append(": ");
        detail.append(message.as_str());
        ReadyStep::Failed(VolteError::with_detail(code::BEARER_NETDEV_NOT_UP, detail.as_str()))
    }
}

/// The request to open an interface is never repeated, and after it the interface
/// is looked at no more than four times.
pub proof fn one_open_request(
    interface: Seq<char>,
    polls: u32,
    up: bool,
    permitted: bool,
    note: Option<Seq<char>>,
)
    ensures
        !(after_look(interface, true, polls, up, permitted, note) is Open),
        after_look(interface, true, polls, up, permitted, note) is Wait ==> polls < 3,
{
}

} // verus!
