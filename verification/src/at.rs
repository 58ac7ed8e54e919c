//! PDP contexts as AT commands report them, and the IMS context among them.

use vstd::prelude::*;
use vstd::string::*;

use crate::ip::{address_of, octet, parse_ip, IpAddr};
use crate::ip_settings::push_new;
use crate::lists::has_number;
use crate::plan::{with, ImsConnectionPlan};
use crate::text;
use crate::text::{
    after_part, decimal, lines_of, number, opt, pieces, same_folded, texts, trimmed, unwrapped,
};

pub mod reported;

verus! {

/// The PDP context that IMS uses unless another is configured.
pub const DEFAULT_IMS_CID: u8 = 2;

/// How often the settings of an activated context are read.
pub const PROFILE_PCSCF_READ_ROUNDS: usize = 4;

// ---------------------------------------------------------------------------
// Fields of a reply.

pub open spec fn is_quote(c: char) -> bool {
    c == '\'' || c == '"'
}

pub open spec fn unquote_start(s: Seq<char>) -> Seq<char>
    decreases s.len(),
{
    if s.len() > 0 && is_quote(s[0]) {
        unquote_start(s.drop_first())
    } else {
        s
    }
}

pub open spec fn unquote_end(s: Seq<char>) -> Seq<char>
    decreases s.len(),
{
    if s.len() > 0 && is_quote(s.last()) {
        unquote_end(s.drop_last())
    } else {
        s
    }
}

/// The text without the quotes of either kind at its two ends.
pub open spec fn unquoted(s: Seq<char>) -> Seq<char> {
    unquote_end(unquote_start(s))
}

fn unquote(s: &str) -> (r: String)
    ensures
        r@ == unquoted(s@),
{
    let c = text::chars(s);
    let mut from: usize = 0;
    proof {
        assert(c@.skip(0) =~= c@);
    }
    while from < c.len() && (c[from] == '\'' || c[from] == '"')
        invariant
            from <= c.len(),
            unquote_start(c@) == unquote_start(c@.skip(from as int)),
        decreases c.len() - from,
    {
        proof {
            assert(c@.skip(from as int).drop_first() =~= c@.skip(from as int + 1));
        }
        from += 1;
    }
    let ghost rest = c@.skip(from as int);
    assert(unquote_start(c@) == rest);
    proof {
        assert(c@.subrange(from as int, c@.len() as int) =~= rest);
    }
    let mut to: usize = c.len();
    while to > from && (c[to - 1] == '\'' || c[to - 1] == '"')
        invariant
            from <= to <= c.len(),
            rest == c@.skip(from as int),
            unquote_end(rest) == unquote_end(c@.subrange(from as int, to as int)),
        decreases to,
    {
        proof {
            let now = c@.subrange(from as int, to as int);
            assert(now.drop_last() =~= c@.subrange(from as int, to as int - 1));
            assert(now.last() == c@[to as int - 1]);
        }
        to -= 1;
    }
    proof {
        let left = c@.subrange(from as int, to as int);
        if left.len() > 0 {
            assert(left.last() == c@[to as int - 1]);
        }
        assert(unquote_end(left) == left);
    }
    text::part(c.as_slice(), from, to)
}

/// The comma-separated fields behind `marker` in a line, trimmed.
pub open spec fn fields_of(line: Seq<char>, marker: Seq<char>) -> Option<Seq<Seq<char>>> {
    match after_part(line, marker) {
        Some(values) => Some(
            Seq::new(pieces(values, ',').len(), |i: int| trimmed(pieces(values, ',')[i])),
        ),
        None => None,
    }
}

fn read_fields(line: &str, marker: &str) -> (r: Option<Vec<String>>)
    ensures
        match r {
            Some(fields) => fields_of(line@, marker@) == Some(texts(fields@)),
            None => fields_of(line@, marker@) is None,
        },
{
    match text::split_after(line, marker) {
        Some(values) => {
            let p = text::split(values.as_str(), ',');
            let mut out: Vec<String> = Vec::new();
            let mut i: usize = 0;
            while i < p.len()
                invariant
                    i <= p@.len(),
                    out@.len() == i,
                    forall|j: int| 0 <= j < i ==> out@[j]@ == trimmed(p@[j]@),
                decreases p@.len() - i,
            {
                out.push(text::trim(p[i].as_str()));
                i += 1;
            }
            proof {
                let wanted = fields_of(line@, marker@)->0;
                assert forall|j: int| 0 <= j < p@.len() implies texts(out@)[j] == wanted[j] by {
                    assert(texts(p@)[j] == p@[j]@);
                }
                assert(texts(p@).len() == p@.len());
                assert(texts(out@) =~= wanted);
            }
            Some(out)
        },
        None => None,
    }
}

// ---------------------------------------------------------------------------
// Active contexts.

/// The active context that a line of `+CGACT` reports.
pub open spec fn active_cid_in(line: Seq<char>) -> Option<u8> {
    match fields_of(line, "+CGACT:"@) {
        Some(f) => if f.len() >= 2 && unwrapped(f[1], '\'') == "1"@ && number(
            unwrapped(f[0], '\''),
            255,
        ) is Some {
            Some(number(unwrapped(f[0], '\''), 255)->0 as u8)
        } else {
            None
        },
        None => None,
    }
}

/// The active contexts, each once.
pub open spec fn active_cids(lines: Seq<Seq<char>>) -> Seq<u8>
    decreases lines.len(),
{
    if lines.len() == 0 {
        Seq::empty()
    } else {
        match active_cid_in(lines.last()) {
            Some(cid) => with(active_cids(lines.drop_last()), cid),
            None => active_cids(lines.drop_last()),
        }
    }
}

fn read_active_cid(line: &str) -> (r: Option<u8>)
    ensures
        r == active_cid_in(line@),
{
    match read_fields(line, "+CGACT:") {
        Some(f) => {
            proof {
                assert(texts(f@).len() == f@.len());
            }
            if f.len() < 2 {
                return None;
            }
            proof {
                assert(texts(f@)[0] == f@[0]@);
                assert(texts(f@)[1] == f@[1]@);
            }
            if !text::same(text::trim_matches(f[1].as_str(), '\'').as_str(), "1") {
                return None;
            }
            match text::parse_number(text::trim_matches(f[0].as_str(), '\'').as_str(), 255) {
                Some(cid) => Some(cid as u8),
                None => None,
            }
        },
        None => None,
    }
}

/// The active contexts in a reply to `AT+CGACT?`.
pub fn parse_active_context_cids(output: &str) -> (r: Vec<u8>)
    ensures
        r@ == active_cids(lines_of(output@)),
{
    let lines = text::lines(output);
    let ghost all = texts(lines@);
    let mut cids: Vec<u8> = Vec::new();
    let mut i: usize = 0;
    proof {
        assert(all.take(0) =~= Seq::<Seq<char>>::empty());
    }
    while i < lines.len()
        invariant
            i <= lines@.len(),
            all == texts(lines@),
            cids@ == active_cids(all.take(i as int)),
        decreases lines@.len() - i,
    {
        proof {
            assert(all.take(i as int + 1).drop_last() =~= all.take(i as int));
            assert(all.take(i as int + 1).last() == lines@[i as int]@);
        }
        if let Some(cid) = read_active_cid(lines[i].as_str()) {
            if !has_number(&cids, cid) {
                cids.push(cid);
            }
        }
        i += 1;
    }
    proof {
        assert(all.take(all.len() as int) =~= all);
    }
    cids
}

// ---------------------------------------------------------------------------
// Defined contexts.

/// One PDP context definition.
#[derive(Debug, PartialEq, Eq)]
pub struct PdpContext {
    pub cid: u8,
    pub pdp_type: String,
    pub apn: String,
}

pub struct ContextView {
    pub cid: u8,
    pub pdp_type: Seq<char>,
    pub apn: Seq<char>,
}

impl View for PdpContext {
    type V = ContextView;

    open spec fn view(&self) -> ContextView {
        ContextView { cid: self.cid, pdp_type: self.pdp_type@, apn: self.apn@ }
    }
}

pub open spec fn contexts_of(list: Seq<PdpContext>) -> Seq<ContextView> {
    Seq::new(list.len(), |i: int| list[i]@)
}

/// The definition that a line of `+CGDCONT` reports.
pub open spec fn context_in(line: Seq<char>) -> Option<ContextView> {
    match fields_of(line, "+CGDCONT:"@) {
        Some(f) => if f.len() >= 3 && number(unquoted(f[0]), 255) is Some {
            Some(
                ContextView {
                    cid: number(unquoted(f[0]), 255)->0 as u8,
                    pdp_type: unquoted(f[1]),
                    apn: unquoted(f[2]),
                },
            )
        } else {
            None
        },
        None => None,
    }
}

pub open spec fn defines(list: Seq<ContextView>, cid: u8) -> bool {
    exists|i: int| 0 <= i < list.len() && (#[trigger] list[i]).cid == cid
}

/// The definitions, the first of each context.
pub open spec fn contexts_in(lines: Seq<Seq<char>>) -> Seq<ContextView>
    decreases lines.len(),
{
    if lines.len() == 0 {
        Seq::empty()
    } else {
        let front = contexts_in(lines.drop_last());
        match context_in(lines.last()) {
            Some(context) => if defines(front, context.cid) {
                front
            } else {
                front.push(context)
            },
            None => front,
        }
    }
}

fn read_context(line: &str) -> (r: Option<PdpContext>)
    ensures
        match r {
            Some(context) => context_in(line@) == Some(context@),
            None => context_in(line@) is None,
        },
{
    match read_fields(line, "+CGDCONT:") {
        Some(f) => {
            proof {
                assert(texts(f@).len() == f@.len());
            }
            if f.len() < 3 {
                return None;
            }
            proof {
                assert(texts(f@)[0] == f@[0]@);
                assert(texts(f@)[1] == f@[1]@);
                assert(texts(f@)[2] == f@[2]@);
            }
            match text::parse_number(unquote(f[0].as_str()).as_str(), 255) {
                Some(cid) => Some(
                    PdpContext {
                        cid: cid as u8,
                        pdp_type: unquote(f[1].as_str()),
                        apn: unquote(f[2].as_str()),
                    },
                ),
                None => None,
            }
        },
        None => None,
    }
}

fn is_defined(list: &Vec<PdpContext>, cid: u8) -> (r: bool)
    ensures
        r == defines(contexts_of(list@), cid),
{
    let ghost all = contexts_of(list@);
    let mut i: usize = 0;
    while i < list.len()
        invariant
            i <= list@.len(),
            all == contexts_of(list@),
            forall|j: int| 0 <= j < i ==> (#[trigger] all[j]).cid != cid,
        decreases list@.len() - i,
    {
        if list[i].cid == cid {
            assert(all[i as int].cid == cid);
            return true;
        }
        i += 1;
    }
    false
}

/// The definitions in a reply to `AT+CGDCONT?`.
pub fn parse_pdp_contexts(output: &str) -> (r: Vec<PdpContext>)
    ensures
        contexts_of(r@) == contexts_in(lines_of(output@)),
{
    let lines = text::lines(output);
    let ghost all = texts(lines@);
    let mut contexts: Vec<PdpContext> = Vec::new();
    let mut i: usize = 0;
    proof {
        assert(all.take(0) =~= Seq::<Seq<char>>::empty());
        assert(contexts_of(contexts@) =~= Seq::<ContextView>::empty());
    }
    while i < lines.len()
        invariant
            i <= lines@.len(),
            all == texts(lines@),
            contexts_of(contexts@) == contexts_in(all.take(i as int)),
        decreases lines@.len() - i,
    {
        proof {
            assert(all.take(i as int + 1).drop_last() =~= all.take(i as int));
            assert(all.take(i as int + 1).last() == lines@[i as int]@);
        }
        if let Some(context) = read_context(lines[i].as_str()) {
            if !is_defined(&contexts, context.cid) {
                let ghost before = contexts@;
                contexts.push(context);
                proof {
                    assert(contexts_of(contexts@) =~= contexts_of(before).push(context@));
                }
            }
        }
        i += 1;
    }
    proof {
        assert(all.take(all.len() as int) =~= all);
    }
    contexts
}

/// The contexts whose access point is `apn` in any case.
pub open spec fn cids_for(list: Seq<ContextView>, apn: Seq<char>) -> Seq<u8>
    decreases list.len(),
{
    if list.len() == 0 {
        Seq::empty()
    } else {
        let front = cids_for(list.drop_last(), apn);
        if same_folded(list.last().apn, apn) {
            front.push(list.last().cid)
        } else {
            front
        }
    }
}

fn select_cids(list: &[PdpContext], apn: &str) -> (r: Vec<u8>)
    ensures
        r@ == cids_for(contexts_of(list@), apn@),
{
    let ghost all = contexts_of(list@);
    let mut out: Vec<u8> = Vec::new();
    let mut i: usize = 0;
    proof {
        assert(all.take(0) =~= Seq::<ContextView>::empty());
    }
    while i < list.len()
        invariant
            i <= list@.len(),
            all == contexts_of(list@),
            out@ == cids_for(all.take(i as int), apn@),
        decreases list@.len() - i,
    {
        proof {
            assert(all.take(i as int + 1).drop_last() =~= all.take(i as int));
            assert(all.take(i as int + 1).last() == list@[i as int]@);
        }
        if text::same_ignoring_case(list[i].apn.as_str(), apn) {
            out.push(list[i].cid);
        }
        i += 1;
    }
    proof {
        assert(all.take(all.len() as int) =~= all);
    }
    out
}

/// The contexts in a reply to `AT+CGDCONT?` whose access point is `apn`.
pub fn parse_ims_context_cids(output: &str, apn: &str) -> (r: Vec<u8>)
    ensures
        r@ == cids_for(contexts_in(lines_of(output@)), apn@),
{
    select_cids(parse_pdp_contexts(output).as_slice(), apn)
}

// ---------------------------------------------------------------------------
// The IMS context.

/// The context chosen for IMS, and whether it has to be defined first.
#[derive(Debug, Clone, Copy, PartialEq, Eq, Structural)]
pub struct ImsProfileContext {
    pub cid: u8,
    pub created: bool,
}

/// The context that the environment names, where it is one of 1 to 16.
pub open spec fn ims_cid_of(raw: Option<Seq<char>>) -> u8 {
    match raw {
        Some(text) => match number(trimmed(text), 255) {
            Some(cid) => if 1 <= cid <= 16 {
                cid as u8
            } else {
                DEFAULT_IMS_CID
            },
            None => DEFAULT_IMS_CID,
        },
        None => DEFAULT_IMS_CID,
    }
}

/// The context to use for IMS, given what the environment names.
pub fn configured_ims_cid(raw: Option<&str>) -> (r: u8)
    ensures
        r == ims_cid_of(
            match raw {
                Some(text) => Some(text@),
                None => None,
            },
        ),
        1 <= r <= 16,
{
    match raw {
        Some(text) => match text::parse_number(text::trim(text).as_str(), 255) {
            Some(cid) => if 1 <= cid && cid <= 16 {
                cid as u8
            } else {
                DEFAULT_IMS_CID
            },
            None => DEFAULT_IMS_CID,
        },
        None => DEFAULT_IMS_CID,
    }
}

/// The context to use among those that are defined for IMS: the preferred one
/// where it is among them, or else the lowest.
pub open spec fn is_choice(cids: Seq<u8>, preferred: u8, choice: u8) -> bool {
    &&& cids.contains(choice)
    &&& cids.contains(preferred) ==> choice == preferred
    &&& !cids.contains(preferred) ==> forall|i: int|
        0 <= i < cids.len() ==> choice <= #[trigger] cids[i]
}

/// Chooses the context for IMS. Where none is defined for it, the preferred slot
/// is defined anew; no other slot is ever allocated.
pub fn select_ims_profile_context(contexts: &[PdpContext], preferred: u8, apn: &str) -> (r:
    ImsProfileContext)
    ensures
        ({
            let cids = cids_for(contexts_of(contexts@), apn@);
            if cids.len() == 0 {
                r == (ImsProfileContext { cid: preferred, created: true })
            } else {
                !r.created && is_choice(cids, preferred, r.cid)
            }
        }),
{
    let cids = select_cids(contexts, apn);
    if cids.len() == 0 {
        return ImsProfileContext { cid: preferred, created: true };
    }
    let mut best: u8 = cids[0];
    let mut i: usize = 0;
    while i < cids.len()
        invariant
            i <= cids@.len(),
            cids@.len() > 0,
            cids@ == cids_for(contexts_of(contexts@), apn@),
            cids@.contains(best),
            forall|j: int| 0 <= j < i ==> cids@[j] != preferred,
            forall|j: int| 0 <= j < i ==> best <= #[trigger] cids@[j],
            i == 0 ==> best == cids@[0],
        decreases cids@.len() - i,
    {
        if cids[i] == preferred {
            assert(cids@[i as int] == preferred);
            return ImsProfileContext { cid: preferred, created: false };
        }
        if cids[i] < best {
            best = cids[i];
            assert(cids@[i as int] == best);
        }
        i += 1;
    }
    ImsProfileContext { cid: best, created: false }
}

// ---------------------------------------------------------------------------
// Commands.

pub open spec fn define_text(cid: u8, pdp_type: Seq<char>, apn: Seq<char>) -> Seq<char> {
    "AT+CGDCONT="@ + decimal(cid as nat) + ",\""@ + pdp_type + "\",\""@ + apn + "\""@
}

pub open spec fn activation_text(cid: u8, active: bool) -> Seq<char> {
    if active {
        "AT+CGACT=1,"@ + decimal(cid as nat)
    } else {
        "AT+CGACT=0,"@ + decimal(cid as nat)
    }
}

pub open spec fn reporting_text(cid: u8, enabled: bool) -> Seq<char> {
    if enabled {
        "AT$QCPDPIMSCFGE="@ + decimal(cid as nat) + ",1,1,1"@
    } else {
        "AT$QCPDPIMSCFGE="@ + decimal(cid as nat) + ",0,0,0"@
    }
}

pub open spec fn read_text(cid: u8) -> Seq<char> {
    "AT+CGCONTRDP="@ + decimal(cid as nat)
}

fn with_cid(head: &str, cid: u8, tail: &str) -> (r: String)
    ensures
        r@ == head@ + decimal(cid as nat) + tail@,
{
    let mut s = head.to_string();
    let digits = text::decimal_string(cid as u64);
    s.append(digits.as_str());
    s.append(tail);
    s
}

/// The command that defines a context.
pub fn define_context_command(cid: u8, pdp_type: &str, apn: &str) -> (r: String)
    ensures
        r@ == define_text(cid, pdp_type@, apn@),
{
    let mut s = with_cid("AT+CGDCONT=", cid, ",\"");
    s.append(pdp_type);
    s.append("\",\"");
    s.append(apn);
    s.append("\"");
    s
}

/// The command that activates or deactivates a context.
pub fn activation_command(cid: u8, active: bool) -> (r: String)
    ensures
        r@ == activation_text(cid, active),
{
    let mut s = if active {
        "AT+CGACT=1,".to_string()
    } else {
        "AT+CGACT=0,".to_string()
    };
    let digits = text::decimal_string(cid as u64);
    s.append(digits.as_str());
    s
}

/// The command that switches the delivery of P-CSCF addresses.
pub fn pcscf_reporting_command(cid: u8, enabled: bool) -> (r: String)
    ensures
        r@ == reporting_text(cid, enabled),
{
    if enabled {
        with_cid("AT$QCPDPIMSCFGE=", cid, ",1,1,1")
    } else {
        with_cid("AT$QCPDPIMSCFGE=", cid, ",0,0,0")
    }
}

/// The command that reads the settings of an active context.
pub fn read_context_command(cid: u8) -> (r: String)
    ensures
        r@ == read_text(cid),
{
    let mut s = "AT+CGCONTRDP=".to_string();
    let digits = text::decimal_string(cid as u64);
    s.append(digits.as_str());
    s
}

/// The first definition of a context.
pub open spec fn definition_of(list: Seq<ContextView>, cid: u8) -> Option<ContextView>
    decreases list.len(),
{
    if list.len() == 0 {
        None
    } else if list[0].cid == cid {
        Some(list[0])
    } else {
        definition_of(list.drop_first(), cid)
    }
}

/// The command that brings a context back to what it was.
pub open spec fn restore_text(list: Seq<ContextView>, cid: u8) -> Seq<char> {
    match definition_of(list, cid) {
        Some(context) => define_text(cid, context.pdp_type, context.apn),
        None => define_text(cid, "IPV4V6"@, ""@),
    }
}

/// The command that brings a context back to what it was.
pub fn restore_profile_command(contexts: &[PdpContext], cid: u8) -> (r: String)
    ensures
        r@ == restore_text(contexts_of(contexts@), cid),
{
    let ghost all = contexts_of(contexts@);
    let mut i: usize = 0;
    proof {
        assert(all.skip(0) =~= all);
    }
    while i < contexts.len()
        invariant
            i <= contexts@.len(),
            all == contexts_of(contexts@),
            definition_of(all, cid) == definition_of(all.skip(i as int), cid),
        decreases contexts@.len() - i,
    {
        proof {
            assert(all.skip(i as int).drop_first() =~= all.skip(i as int + 1));
            assert(all.skip(i as int)[0] == contexts@[i as int]@);
        }
        if contexts[i].cid == cid {
            return define_context_command(
                cid,
                contexts[i].pdp_type.as_str(),
                contexts[i].apn.as_str(),
            );
        }
        i += 1;
    }
    define_context_command(cid, "IPV4V6", "")
}

/// The context for IMS and the command that defines it, where that is needed. It
/// is neither activated nor deactivated here: the bearer does that.
pub fn prepare_ims_profile_context(
    contexts_output: &str,
    plan: &ImsConnectionPlan,
    configured: u8,
    apn: &str,
) -> (r: (ImsProfileContext, Option<String>))
    ensures
        ({
            let cids = cids_for(contexts_in(lines_of(contexts_output@)), apn@);
            if cids.len() == 0 {
                &&& r.0 == (ImsProfileContext { cid: configured, created: true })
                &&& plan.attempts().len() > 0
                &&& opt(r.1) == Some(define_text(configured, plan.attempts()[0].pdp_name(), apn@))
            } else {
                !r.0.created && is_choice(cids, configured, r.0.cid) && r.1 is None
            }
        }),
{
    let contexts = parse_pdp_contexts(contexts_output);
    let profile = select_ims_profile_context(contexts.as_slice(), configured, apn);
    if !profile.created {
        return (profile, None);
    }
    let pdp_type = plan.initial_bearer_attempt().as_pdp_str();
    (profile, Some(define_context_command(profile.cid, pdp_type, apn)))
}

// ---------------------------------------------------------------------------
// P-CSCF addresses of a context.

/// The value of octets, the most significant first.
pub open spec fn octets_value(p: Seq<Seq<char>>) -> nat
    decreases p.len(),
{
    if p.len() == 0 {
        0
    } else {
        octets_value(p.drop_last()) * 256 + octet(p.last())->0
    }
}

pub open spec fn all_octet_texts(p: Seq<Seq<char>>) -> bool {
    forall|i: int| 0 <= i < p.len() ==> octet(#[trigger] p[i]) is Some
}

/// The address that a field writes: in the usual notation, or as sixteen decimal
/// octets with dots between them.
pub open spec fn field_address(field: Seq<char>) -> Option<IpAddr> {
    let value = unquoted(field);
    let p = pieces(value, '.');
    if address_of(value) is Some {
        address_of(value)
    } else if p.len() == 16 && all_octet_texts(p) {
        Some(IpAddr::V6(octets_value(p) as u128))
    } else {
        None
    }
}

fn read_octet_text(s: &str) -> (r: Option<u8>)
    ensures
        match r {
            Some(v) => octet(s@) == Some(v as nat),
            None => octet(s@) is None,
        },
{
    let c = text::chars(s);
    if c.len() == 0 || c.len() > 3 || (c.len() > 1 && c[0] == '0') || !text::only_digits(s) {
        return None;
    }
    proof {
        assert(text::is_digit(s@[0]));
    }
    match text::parse_number(s, 255) {
        Some(v) => Some(v as u8),
        None => None,
    }
}

fn read_dotted_ipv6(value: &str) -> (r: Option<IpAddr>)
    ensures
        ({
            let p = pieces(value@, '.');
            r == (if p.len() == 16 && all_octet_texts(p) {
                Some(IpAddr::V6(octets_value(p) as u128))
            } else {
                None
            })
        }),
{
    let list = text::split(value, '.');
    let ghost p = texts(list@);
    proof {
        assert(p.len() == list@.len());
    }
    if list.len() != 16 {
        return None;
    }
    let mut v: u128 = 0;
    let mut i: usize = 0;
    proof {
        assert(p.take(0) =~= Seq::<Seq<char>>::empty());
    }
    while i < 16
        invariant
            i <= 16,
            list@.len() == 16,
            p == texts(list@),
            p == pieces(value@, '.'),
            v == octets_value(p.take(i as int)),
            v < pow256(i as nat),
            forall|j: int| 0 <= j < i ==> octet(#[trigger] p[j]) is Some,
        decreases 16 - i,
    {
        proof {
            assert(p.take(i as int + 1).drop_last() =~= p.take(i as int));
            assert(p.take(i as int + 1).last() == list@[i as int]@);
            assert(p[i as int] == list@[i as int]@);
            lemma_pow256_limit((i + 1) as nat);
        }
        match read_octet_text(list[i].as_str()) {
            Some(octet) => {
                assert(v * 256 + octet < pow256((i + 1) as nat)) by (nonlinear_arith)
                    requires
                        v < pow256(i as nat),
                        octet <= 255,
                        pow256((i + 1) as nat) == 256 * pow256(i as nat),
                ;
                v = v * 256 + octet as u128;
            },
            None => {
                assert(octet(p[i as int]) is None);
                return None;
            },
        }
        i += 1;
    }
    proof {
        assert(p.take(16) =~= p);
    }
    Some(IpAddr::V6(v))
}

spec fn pow256(n: nat) -> nat
    decreases n,
{
    if n == 0 {
        1
    } else {
        256 * pow256((n - 1) as nat)
    }
}

proof fn lemma_pow256_limit(n: nat)
    requires
        n <= 16,
    ensures
        pow256(n) <= 0x1_0000_0000_0000_0000_0000_0000_0000_0000,
        n > 0 ==> pow256(n) == 256 * pow256((n - 1) as nat),
{
    reveal_with_fuel(pow256, 17);
}

/// Reads the address that a field writes.
pub fn parse_cgcontrdp_address(field: &str) -> (r: Option<IpAddr>)
    ensures
        r == field_address(field@),
{
    let value = unquote(field);
    match parse_ip(value.as_str()) {
        Some(addr) => Some(addr),
        None => read_dotted_ipv6(value.as_str()),
    }
}

/// The P-CSCF columns of a line: the eighth and the ninth field of the context
/// `cid` with the access point `apn`.
pub open spec fn pcscf_fields(line: Seq<char>, cid: u8, apn: Seq<char>) -> Seq<Seq<char>> {
    match fields_of(line, "+CGCONTRDP:"@) {
        Some(f) => if f.len() >= 8 && number(f[0], 255) == Some(cid as nat) && same_folded(
            unquoted(f[2]),
            apn,
        ) {
            if f.len() >= 9 {
                seq![f[7], f[8]]
            } else {
                seq![f[7]]
            }
        } else {
            Seq::empty()
        },
        None => Seq::empty(),
    }
}

/// The list with the addresses that the fields write, each once.
pub open spec fn with_fields(list: Seq<IpAddr>, fields: Seq<Seq<char>>) -> Seq<IpAddr>
    decreases fields.len(),
{
    if fields.len() == 0 {
        list
    } else {
        let front = with_fields(list, fields.drop_last());
        match field_address(fields.last()) {
            Some(addr) => with(front, addr),
            None => front,
        }
    }
}

/// The P-CSCF addresses that lines report, each once.
pub open spec fn pcscf_in(lines: Seq<Seq<char>>, cid: u8, apn: Seq<char>) -> Seq<IpAddr>
    decreases lines.len(),
{
    if lines.len() == 0 {
        Seq::empty()
    } else {
        with_fields(pcscf_in(lines.drop_last(), cid, apn), pcscf_fields(lines.last(), cid, apn))
    }
}

fn push_field(list: &mut Vec<IpAddr>, field: &str)
    ensures
        final(list)@ == (match field_address(field@) {
            Some(addr) => with(old(list)@, addr),
            None => old(list)@,
        }),
{
    match parse_cgcontrdp_address(field) {
        Some(addr) => push_new(list, addr),
        None => {},
    }
}

fn push_line_pcscf(list: &mut Vec<IpAddr>, line: &str, cid: u8, apn: &str)
    ensures
        final(list)@ == with_fields(old(list)@, pcscf_fields(line@, cid, apn@)),
{
    let ghost start = list@;
    proof {
        reveal_with_fuel(with_fields, 4);
    }
    match read_fields(line, "+CGCONTRDP:") {
        Some(f) => {
            proof {
                assert(texts(f@).len() == f@.len());
            }
            if f.len() < 8 {
                return;
            }
            proof {
                assert(texts(f@)[0] == f@[0]@);
                assert(texts(f@)[2] == f@[2]@);
                assert(texts(f@)[7] == f@[7]@);
            }
            let cid_matches = match text::parse_number(f[0].as_str(), 255) {
                Some(n) => n == cid as u64,
                None => false,
            };
            if !cid_matches || !text::same_ignoring_case(unquote(f[2].as_str()).as_str(), apn) {
                return;
            }
            push_field(list, f[7].as_str());
            if f.len() >= 9 {
                proof {
                    assert(texts(f@)[8] == f@[8]@);
                    assert(seq![f@[7]@, f@[8]@].drop_last() =~= seq![f@[7]@]);
                    assert(seq![f@[7]@].drop_last() =~= Seq::<Seq<char>>::empty());
                }
                push_field(list, f[8].as_str());
            } else {
                proof {
                    assert(seq![f@[7]@].drop_last() =~= Seq::<Seq<char>>::empty());
                }
            }
        },
        None => {},
    }
}

/// The P-CSCF addresses in a reply to `AT+CGCONTRDP`.
pub fn parse_cgcontrdp_pcscf(output: &str, expected_cid: u8, apn: &str) -> (r: Vec<IpAddr>)
    ensures
        r@ == pcscf_in(lines_of(output@), expected_cid, apn@),
{
    let lines = text::lines(output);
    let ghost all = texts(lines@);
    let mut candidates: Vec<IpAddr> = Vec::new();
    let mut i: usize = 0;
    proof {
        assert(all.take(0) =~= Seq::<Seq<char>>::empty());
    }
    while i < lines.len()
        invariant
            i <= lines@.len(),
            all == texts(lines@),
            candidates@ == pcscf_in(all.take(i as int), expected_cid, apn@),
        decreases lines@.len() - i,
    {
        proof {
            assert(all.take(i as int + 1).drop_last() =~= all.take(i as int));
            assert(all.take(i as int + 1).last() == lines@[i as int]@);
        }
        push_line_pcscf(&mut candidates, lines[i].as_str(), expected_cid, apn);
        i += 1;
    }
    proof {
        assert(all.take(all.len() as int) =~= all);
    }
    candidates
}

} // verus!
