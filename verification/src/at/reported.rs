//! What the modem reports of its contexts is read back as it was written.

use vstd::prelude::*;
use vstd::string::*;

use crate::at::{
    activation_text, active_cid_in, active_cids, cids_for, context_in, contexts_in, define_text,
    defines, definition_of, fields_of, ims_cid_of, is_quote, octets_value, pcscf_fields, pcscf_in,
    read_text, reporting_text, restore_text, unquoted, with_fields, ContextView,
};
use crate::ip::{address_of, octet, IpAddr};
use crate::plan::with;
use crate::text;
use crate::text::{
    after_part, decimal, has_prefix, is_digit, is_space, number, pieces, same_folded, trimmed,
    unwrapped,
};

verus! {

/// A text that stands between quotes as it is.
pub open spec fn quotable(s: Seq<char>) -> bool {
    forall|i: int| 0 <= i < s.len() ==> #[trigger] s[i] != ',' && !is_quote(s[i])
}

proof fn lemma_reply(marker: Seq<char>, values: Seq<char>)
    ensures
        after_part(marker + values, marker) == Some(values),
        fields_of(marker + values, marker) == Some(
            Seq::new(pieces(values, ',').len(), |i: int| trimmed(pieces(values, ',')[i])),
        ),
{
    let line = marker + values;
    assert(line.take(marker.len() as int) =~= marker);
    assert(line.skip(marker.len() as int) =~= values);
}

proof fn lemma_plain_trimmed(s: Seq<char>)
    requires
        s.len() > 0,
        !is_space(s[0]),
        !is_space(s.last()),
    ensures
        trimmed(s) == s,
        trimmed(seq![' '] + s) == s,
{
    let t = seq![' '] + s;
    assert(t.drop_first() =~= s);
    assert(text::trim_start(s) == s);
    assert(text::trim_start(t) == s);
}

proof fn lemma_digits(n: nat)
    ensures
        trimmed(decimal(n)) == decimal(n),
        trimmed(seq![' '] + decimal(n)) == decimal(n),
        unquoted(decimal(n)) == decimal(n),
        unwrapped(decimal(n), '\'') == decimal(n),
        decimal(n).len() > 0,
        forall|i: int| 0 <= i < decimal(n).len() ==> #[trigger] decimal(n)[i] != ',',
{
    let d = decimal(n);
    text::lemma_decimal_digits(n);
    assert(is_digit(d[0]) && is_digit(d[d.len() - 1]));
    lemma_plain_trimmed(d);
    assert forall|i: int| 0 <= i < d.len() implies #[trigger] d[i] != ',' by {
        assert(is_digit(d[i]));
    }
}

spec fn in_quotes(s: Seq<char>) -> Seq<char> {
    seq!['"'] + s + seq!['"']
}

proof fn lemma_quotes(s: Seq<char>)
    requires
        quotable(s),
    ensures
        trimmed(in_quotes(s)) == in_quotes(s),
        unquoted(in_quotes(s)) == s,
        forall|i: int| 0 <= i < in_quotes(s).len() ==> #[trigger] in_quotes(s)[i] != ',',
{
    let q = in_quotes(s);
    lemma_plain_trimmed(q);
    let a = q.drop_first();
    assert(a =~= s + seq!['"']);
    if s.len() > 0 {
        assert(a[0] == s[0]);
        assert(!is_quote(s[0]));
        assert(crate::at::unquote_start(a) == a);
        assert(crate::at::unquote_start(q) == a);
        assert(a.drop_last() =~= s);
        assert(s[s.len() - 1] == s.last());
        assert(crate::at::unquote_end(s) == s);
        assert(crate::at::unquote_end(a) == s);
    } else {
        assert(a.drop_first() =~= s);
        assert(crate::at::unquote_start(s) == s);
        assert(crate::at::unquote_start(a) == s);
        assert(crate::at::unquote_end(s) == s);
    }
    assert forall|i: int| 0 <= i < q.len() implies #[trigger] q[i] != ',' by {
        if 0 < i <= s.len() {
            assert(q[i] == s[i - 1]);
        }
    }
}

/// A context is reported as active exactly where its state is 1.
pub proof fn reported_states_are_read_back(cid: u8, state: u8)
    ensures
        active_cid_in("+CGACT: "@ + decimal(cid as nat) + ","@ + decimal(state as nat)) == (if state
            == 1 {
            Some(cid)
        } else {
            None
        }),
{
    let c = decimal(cid as nat);
    let s = decimal(state as nat);
    reveal_strlit("+CGACT: ");
    reveal_strlit("+CGACT:");
    reveal_strlit(",");
    reveal_strlit("1");
    let values = (seq![' '] + c) + seq![','] + s;
    assert("+CGACT: "@ + c + ","@ + s =~= "+CGACT:"@ + values);
    lemma_reply("+CGACT:"@, values);
    lemma_digits(cid as nat);
    lemma_digits(state as nat);
    let head = seq![' '] + c;
    assert forall|i: int| 0 <= i < head.len() implies #[trigger] head[i] != ',' by {
        if i > 0 {
            assert(head[i] == c[i - 1]);
        }
    }
    text::lemma_first_piece(head, ',', s);
    text::lemma_no_separator(s, ',');
    let p = pieces(values, ',');
    assert(p =~= seq![head, s]);
    assert(p[0] == head && p[1] == s);
    text::number_reads_decimal(cid as nat, 255);
    text::number_reads_decimal(state as nat, 255);
    text::number_reads_decimal(1, 255);
    assert(decimal(1) =~= "1"@) by {
        assert(text::digit_char(1) == '1');
    }
}

proof fn lemma_definition(cid: u8, pdp_type: Seq<char>, apn: Seq<char>, rest: Seq<char>)
    requires
        quotable(pdp_type),
        quotable(apn),
        rest.len() == 0 || rest[0] == ',',
    ensures
        context_in(
            "+CGDCONT:"@ + (seq![' '] + decimal(cid as nat) + seq![','] + in_quotes(pdp_type)
                + seq![','] + in_quotes(apn) + rest),
        ) == Some(ContextView { cid, pdp_type, apn }),
{
    let c = seq![' '] + decimal(cid as nat);
    let t = in_quotes(pdp_type);
    let a = in_quotes(apn);
    let values = c + seq![','] + t + seq![','] + a + rest;
    assert(values =~= seq![' '] + decimal(cid as nat) + seq![','] + t + seq![','] + a + rest);
    lemma_reply("+CGDCONT:"@, values);
    lemma_digits(cid as nat);
    lemma_quotes(pdp_type);
    lemma_quotes(apn);
    assert forall|i: int| 0 <= i < c.len() implies #[trigger] c[i] != ',' by {
        if i > 0 {
            assert(c[i] == decimal(cid as nat)[i - 1]);
        }
    }
    let after_type = a + rest;
    let after_cid = t + seq![','] + after_type;
    assert(values =~= c + seq![','] + after_cid);
    text::lemma_first_piece(c, ',', after_cid);
    text::lemma_first_piece(t, ',', after_type);
    let p = pieces(values, ',');
    let q = pieces(after_type, ',');
    assert(q[0] == a && q.len() >= 1) by {
        if rest.len() == 0 {
            assert(after_type =~= a);
            text::lemma_no_separator(a, ',');
        } else {
            assert(after_type =~= a + seq![','] + rest.drop_first());
            text::lemma_first_piece(a, ',', rest.drop_first());
        }
    }
    assert(p =~= seq![c] + (seq![t] + q));
    assert(p[0] == c && p[1] == t && p[2] == q[0]);
    text::number_reads_decimal(cid as nat, 255);
}

/// A context is reported as the command that defined it said: under its number, with its
/// type and its access point, whatever else the report holds.
pub proof fn defined_contexts_are_reported(
    cid: u8,
    pdp_type: Seq<char>,
    apn: Seq<char>,
    rest: Seq<char>,
)
    requires
        quotable(pdp_type),
        quotable(apn),
        rest.len() == 0 || rest[0] == ',',
    ensures
        has_prefix(define_text(cid, pdp_type, apn), "AT+CGDCONT="@),
        context_in("+CGDCONT: "@ + define_text(cid, pdp_type, apn).skip(11) + rest) == Some(
            ContextView { cid, pdp_type, apn },
        ),
{
    reveal_strlit("AT+CGDCONT=");
    reveal_strlit("+CGDCONT: ");
    reveal_strlit("+CGDCONT:");
    reveal_strlit(",\"");
    reveal_strlit("\",\"");
    reveal_strlit("\"");
    let d = define_text(cid, pdp_type, apn);
    assert(d.take(11) =~= "AT+CGDCONT="@);
    assert("+CGDCONT: "@ + d.skip(11) + rest =~= "+CGDCONT:"@ + (seq![' '] + decimal(cid as nat)
        + seq![','] + in_quotes(pdp_type) + seq![','] + in_quotes(apn) + rest));
    lemma_definition(cid, pdp_type, apn, rest);
}

/// The command that gives a context back, reported, is the definition that it had before;
/// a context that had none is left without an access point.
pub proof fn restored_contexts_are_as_before(list: Seq<ContextView>, k: int, cid: u8)
    requires
        forall|i: int|
            0 <= i < list.len() ==> quotable((#[trigger] list[i]).pdp_type) && quotable(list[i].apn),
    ensures
        0 <= k < list.len() && list[k].cid == cid && (forall|i: int|
            0 <= i < k ==> (#[trigger] list[i]).cid != cid) ==> context_in(
            "+CGDCONT: "@ + restore_text(list, cid).skip(11),
        ) == Some(list[k]),
        !defines(list, cid) ==> context_in("+CGDCONT: "@ + restore_text(list, cid).skip(11))
            == Some(ContextView { cid, pdp_type: "IPV4V6"@, apn: ""@ }),
{
    if 0 <= k < list.len() && list[k].cid == cid && (forall|i: int|
        0 <= i < k ==> (#[trigger] list[i]).cid != cid) {
        lemma_definition_of(list, k, cid);
        defined_contexts_are_reported(cid, list[k].pdp_type, list[k].apn, Seq::empty());
        let t = "+CGDCONT: "@ + restore_text(list, cid).skip(11);
        assert(t + Seq::<char>::empty() =~= t);
    }
    if !defines(list, cid) {
        reveal_strlit("IPV4V6");
        reveal_strlit("");
        lemma_no_definition(list, cid);
        defined_contexts_are_reported(cid, "IPV4V6"@, ""@, Seq::empty());
        let t = "+CGDCONT: "@ + restore_text(list, cid).skip(11);
        assert(t + Seq::<char>::empty() =~= t);
    }
}

proof fn lemma_definition_of(list: Seq<ContextView>, k: int, cid: u8)
    requires
        0 <= k < list.len(),
        list[k].cid == cid,
        forall|i: int| 0 <= i < k ==> (#[trigger] list[i]).cid != cid,
    ensures
        definition_of(list, cid) == Some(list[k]),
    decreases k,
{
    if k > 0 {
        let rest = list.drop_first();
        assert(list[0].cid != cid);
        assert forall|i: int| 0 <= i < k - 1 implies (#[trigger] rest[i]).cid != cid by {
            assert(rest[i] == list[i + 1]);
        }
        lemma_definition_of(rest, k - 1, cid);
    }
}

proof fn lemma_no_definition(list: Seq<ContextView>, cid: u8)
    requires
        !defines(list, cid),
    ensures
        definition_of(list, cid) is None,
    decreases list.len(),
{
    if list.len() > 0 {
        assert(list[0].cid != cid);
        let rest = list.drop_first();
        if defines(rest, cid) {
            let i = choose|i: int| 0 <= i < rest.len() && (#[trigger] rest[i]).cid == cid;
            assert(list[i + 1].cid == cid);
        }
        lemma_no_definition(rest, cid);
    }
}

/// The commands name their context and what becomes of it: 1 to activate and to have
/// addresses reported, 0 to stop.
pub proof fn commands_name_their_context(cid: u8)
    ensures
        has_prefix(activation_text(cid, true), "AT+CGACT=1,"@),
        has_prefix(activation_text(cid, false), "AT+CGACT=0,"@),
        number(activation_text(cid, true).skip(11), 255) == Some(cid as nat),
        number(activation_text(cid, false).skip(11), 255) == Some(cid as nat),
        has_prefix(reporting_text(cid, true), "AT$QCPDPIMSCFGE="@),
        has_prefix(reporting_text(cid, false), "AT$QCPDPIMSCFGE="@),
        text::has_suffix(reporting_text(cid, true), ",1,1,1"@),
        text::has_suffix(reporting_text(cid, false), ",0,0,0"@),
        number(
            reporting_text(cid, true).subrange(16, reporting_text(cid, true).len() - 6),
            255,
        ) == Some(cid as nat),
        number(
            reporting_text(cid, false).subrange(16, reporting_text(cid, false).len() - 6),
            255,
        ) == Some(cid as nat),
        has_prefix(read_text(cid), "AT+CGCONTRDP="@),
        number(read_text(cid).skip(13), 255) == Some(cid as nat),
{
    let d = decimal(cid as nat);
    reveal_strlit("AT+CGACT=1,");
    reveal_strlit("AT+CGACT=0,");
    reveal_strlit("AT$QCPDPIMSCFGE=");
    reveal_strlit(",1,1,1");
    reveal_strlit(",0,0,0");
    reveal_strlit("AT+CGCONTRDP=");
    text::number_reads_decimal(cid as nat, 255);
    let on = activation_text(cid, true);
    let off = activation_text(cid, false);
    assert(on.take(11) =~= "AT+CGACT=1,"@ && on.skip(11) =~= d);
    assert(off.take(11) =~= "AT+CGACT=0,"@ && off.skip(11) =~= d);
    let a = reporting_text(cid, true);
    let b = reporting_text(cid, false);
    assert(a.take(16) =~= "AT$QCPDPIMSCFGE="@ && a.subrange(16, a.len() - 6) =~= d && a.skip(
        a.len() - 6,
    ) =~= ",1,1,1"@);
    assert(b.take(16) =~= "AT$QCPDPIMSCFGE="@ && b.subrange(16, b.len() - 6) =~= d && b.skip(
        b.len() - 6,
    ) =~= ",0,0,0"@);
    assert(read_text(cid).take(13) =~= "AT+CGCONTRDP="@ && read_text(cid).skip(13) =~= d);
}

/// The environment may name the context for IMS by its number, from 1 to 16; anything else
/// leaves it at 2.
pub proof fn named_context_is_used(n: nat)
    ensures
        1 <= n <= 16 ==> ims_cid_of(Some(decimal(n))) == n,
        !(1 <= n <= 16) ==> ims_cid_of(Some(decimal(n))) == 2,
        ims_cid_of(None) == 2,
{
    lemma_digits(n);
    if n <= 255 {
        text::number_reads_decimal(n, 255);
    } else {
        text::number_reads_decimal(n, n);
    }
}

// ---------------------------------------------------------------------------
// Whole replies.

/// A context counts as active exactly where some line says so.
pub proof fn active_contexts_are_those_reported(lines: Seq<Seq<char>>, cid: u8)
    ensures
        active_cids(lines).contains(cid) <==> exists|i: int|
            0 <= i < lines.len() && #[trigger] reports_active(lines[i], cid),
    decreases lines.len(),
{
    if lines.len() > 0 {
        let d = lines.drop_last();
        let last = lines.last();
        active_contexts_are_those_reported(d, cid);
        let front = active_cids(d);
        if active_cid_in(last) is Some {
            lemma_with(front, active_cid_in(last)->0, cid);
        }
        if exists|i: int| 0 <= i < d.len() && #[trigger] reports_active(d[i], cid) {
            let i = choose|i: int| 0 <= i < d.len() && #[trigger] reports_active(d[i], cid);
            assert(reports_active(lines[i], cid));
        }
        if reports_active(last, cid) {
            assert(reports_active(lines[lines.len() - 1], cid));
        } else if exists|i: int| 0 <= i < lines.len() && #[trigger] reports_active(lines[i], cid) {
            let i = choose|i: int| 0 <= i < lines.len() && #[trigger] reports_active(lines[i], cid);
            assert(reports_active(d[i], cid));
        }
    }
}

/// The line reports the context as active.
pub open spec fn reports_active(line: Seq<char>, cid: u8) -> bool {
    active_cid_in(line) == Some(cid)
}

proof fn lemma_with<T>(front: Seq<T>, a: T, x: T)
    ensures
        with(front, a).contains(x) <==> front.contains(x) || x == a,
{
    let all = with(front, a);
    if front.contains(x) {
        let i = front.index_of(x);
        assert(all[i] == x);
    }
    if x == a && !front.contains(a) {
        assert(all[front.len() as int] == x);
    }
    if all.contains(x) && x != a {
        let i = all.index_of(x);
        assert(front[i] == x);
    }
}

/// The contexts with an access point are those whose definition names it, in any case.
pub proof fn contexts_are_found_by_their_access_point(
    list: Seq<ContextView>,
    apn: Seq<char>,
    cid: u8,
)
    ensures
        cids_for(list, apn).contains(cid) <==> exists|i: int|
            0 <= i < list.len() && #[trigger] is_for(list[i], cid, apn),
    decreases list.len(),
{
    if list.len() > 0 {
        let d = list.drop_last();
        let last = list.last();
        contexts_are_found_by_their_access_point(d, apn, cid);
        let front = cids_for(d, apn);
        let all = cids_for(list, apn);
        if front.contains(cid) {
            let i = front.index_of(cid);
            assert(all[i] == cid);
            let j = choose|i: int| 0 <= i < d.len() && #[trigger] is_for(d[i], cid, apn);
            assert(is_for(list[j], cid, apn));
        }
        if is_for(last, cid, apn) {
            assert(all.last() == cid);
            assert(is_for(list[list.len() - 1], cid, apn));
        } else if exists|i: int| 0 <= i < list.len() && #[trigger] is_for(list[i], cid, apn) {
            let i = choose|i: int| 0 <= i < list.len() && #[trigger] is_for(list[i], cid, apn);
            assert(is_for(d[i], cid, apn));
        }
        if all.contains(cid) && !is_for(last, cid, apn) {
            let i = all.index_of(cid);
            assert(front[i] == cid);
        }
    }
}

/// The definition is of this context, and its access point is `apn` in any case.
pub open spec fn is_for(context: ContextView, cid: u8, apn: Seq<char>) -> bool {
    context.cid == cid && same_folded(context.apn, apn)
}

/// Of each context the first definition that lines report is kept.
pub proof fn first_definitions_are_kept(lines: Seq<Seq<char>>, k: int, context: ContextView)
    requires
        0 <= k < lines.len(),
        context_in(lines[k]) == Some(context),
        forall|i: int|
            0 <= i < k && context_in(#[trigger] lines[i]) is Some ==> context_in(lines[i])->0.cid
                != context.cid,
    ensures
        contexts_in(lines).contains(context),
    decreases lines.len(),
{
    let d = lines.drop_last();
    let front = contexts_in(d);
    let all = contexts_in(lines);
    if k < d.len() {
        assert(d[k] == lines[k]);
        assert forall|i: int|
            0 <= i < k && context_in(#[trigger] d[i]) is Some implies context_in(d[i])->0.cid
            != context.cid by {
            assert(d[i] == lines[i]);
        }
        first_definitions_are_kept(d, k, context);
        let j = front.index_of(context);
        assert(all[j] == context);
    } else {
        assert forall|i: int|
            0 <= i < d.len() && context_in(#[trigger] d[i]) is Some implies context_in(d[i])->0.cid
            != context.cid by {
            assert(d[i] == lines[i]);
        }
        lemma_undefined(d, context.cid);
        assert(all.last() == context);
    }
}

proof fn lemma_undefined(lines: Seq<Seq<char>>, cid: u8)
    requires
        forall|i: int|
            0 <= i < lines.len() && context_in(#[trigger] lines[i]) is Some ==> context_in(
                lines[i],
            )->0.cid != cid,
    ensures
        !defines(contexts_in(lines), cid),
    decreases lines.len(),
{
    if lines.len() > 0 {
        let d = lines.drop_last();
        assert forall|i: int|
            0 <= i < d.len() && context_in(#[trigger] d[i]) is Some implies context_in(d[i])->0.cid
            != cid by {
            assert(d[i] == lines[i]);
        }
        lemma_undefined(d, cid);
        let all = contexts_in(lines);
        let front = contexts_in(d);
        assert(lines[lines.len() - 1] == lines.last());
        if defines(all, cid) {
            let i = choose|i: int| 0 <= i < all.len() && (#[trigger] all[i]).cid == cid;
            if i < front.len() {
                assert(front[i].cid == cid);
            }
        }
    }
}

// ---------------------------------------------------------------------------
// The P-CSCF addresses of a context.

/// The settings of a context give its P-CSCF addresses in the eighth and the ninth column,
/// in this order; the addresses of its name servers before them are not taken. A line of
/// another context, or of another access point, gives none.
pub proof fn pcscf_columns_are_read(
    values: Seq<char>,
    cid: u8,
    apn: Seq<char>,
    first: IpAddr,
    second: IpAddr,
)
    ensures
        ({
            let p = pieces(values, ',');
            let found = pcscf_in(seq!["+CGCONTRDP:"@ + values], cid, apn);
            let ours = p.len() >= 8 && number(trimmed(p[0]), 255) == Some(cid as nat)
                && same_folded(unquoted(trimmed(p[2])), apn);
            &&& !ours ==> found.len() == 0
            &&& ours && address_of(unquoted(trimmed(p[7]))) == Some(first) ==> found.len() > 0
                && found[0] == first
            &&& ours && p.len() >= 9 && address_of(unquoted(trimmed(p[7]))) == Some(first)
                && address_of(unquoted(trimmed(p[8]))) == Some(second) && first != second ==> found
                == seq![first, second]
            &&& ours && p.len() == 8 && address_of(unquoted(trimmed(p[7]))) == Some(first) ==> found
                == seq![first]
        }),
{
    let p = pieces(values, ',');
    let line = "+CGCONTRDP:"@ + values;
    let lines = seq![line];
    lemma_reply("+CGCONTRDP:"@, values);
    let fields = pcscf_fields(line, cid, apn);
    let e = Seq::<IpAddr>::empty();
    assert(lines.drop_last() =~= Seq::<Seq<char>>::empty());
    assert(lines.last() == line);
    assert(pcscf_in(lines.drop_last(), cid, apn) == e);
    assert(pcscf_in(lines, cid, apn) == with_fields(e, fields));
    if p.len() >= 8 && number(trimmed(p[0]), 255) == Some(cid as nat) && same_folded(
        unquoted(trimmed(p[2])),
        apn,
    ) {
        let a = trimmed(p[7]);
        assert(with_fields(e, Seq::empty()) == e);
        assert(seq![a].drop_last() =~= Seq::<Seq<char>>::empty());
        assert(seq![a].last() == a);
        assert(!e.contains(first));
        if p.len() >= 9 {
            let b = trimmed(p[8]);
            assert(fields =~= seq![a, b]);
            assert(fields.drop_last() =~= seq![a]);
            assert(fields.last() == b);
            if address_of(unquoted(a)) == Some(first) {
                assert(with_fields(e, seq![a]) =~= seq![first]);
                if address_of(unquoted(b)) == Some(second) && first != second {
                    assert(!seq![first].contains(second));
                    assert(with_fields(e, fields) =~= seq![first, second]);
                }
            }
        } else {
            assert(fields =~= seq![a]);
            if address_of(unquoted(a)) == Some(first) {
                assert(with_fields(e, fields) =~= seq![first]);
            }
        }
    }
}

/// What one line gave is not lost over later lines, and later lines come behind.
pub proof fn earlier_addresses_stay(lines: Seq<Seq<char>>, k: int, cid: u8, apn: Seq<char>)
    requires
        0 <= k <= lines.len(),
    ensures
        pcscf_in(lines.take(k), cid, apn).len() <= pcscf_in(lines, cid, apn).len(),
        pcscf_in(lines, cid, apn).take(pcscf_in(lines.take(k), cid, apn).len() as int) == pcscf_in(
            lines.take(k),
            cid,
            apn,
        ),
    decreases lines.len(),
{
    let all = pcscf_in(lines, cid, apn);
    if k == lines.len() {
        assert(lines.take(k) =~= lines);
        assert(all.take(all.len() as int) =~= all);
    } else {
        let d = lines.drop_last();
        assert(d.take(k) =~= lines.take(k));
        earlier_addresses_stay(d, k, cid, apn);
        let front = pcscf_in(d, cid, apn);
        lemma_fields_stay(front, pcscf_fields(lines.last(), cid, apn));
        let n = pcscf_in(lines.take(k), cid, apn).len() as int;
        assert(all.take(n) =~= front.take(n)) by {
            assert forall|i: int| 0 <= i < n implies all.take(n)[i] == front.take(n)[i] by {
                assert(all.take(front.len() as int)[i] == front[i]);
            }
        }
    }
}

proof fn lemma_fields_stay(list: Seq<IpAddr>, fields: Seq<Seq<char>>)
    ensures
        list.len() <= with_fields(list, fields).len(),
        with_fields(list, fields).take(list.len() as int) == list,
    decreases fields.len(),
{
    let all = with_fields(list, fields);
    if fields.len() == 0 {
        assert(all.take(list.len() as int) =~= list);
    } else {
        let front = with_fields(list, fields.drop_last());
        lemma_fields_stay(list, fields.drop_last());
        assert(all.take(list.len() as int) =~= front.take(list.len() as int));
    }
}

/// An address of sixteen decimal octets is the address of these octets, the first the most
/// significant.
pub proof fn octets_write_an_address(p: Seq<Seq<char>>, last: Seq<char>, n: nat)
    requires
        octet(last) == Some(n),
    ensures
        octets_value(p.push(last)) == octets_value(p) * 256 + n,
        octets_value(Seq::empty()) == 0,
{
    assert(p.push(last).drop_last() =~= p);
}

} // verus!
