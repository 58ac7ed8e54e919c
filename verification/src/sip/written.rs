//! Frames as they are written are read back: their head and body, their lines, and what
//! headers say.

use vstd::prelude::*;
use vstd::string::*;
use vstd::utf8::encode_utf8;

use crate::sip::{
    blank_at, body_of, branch_of, cseq_method_of, cseq_number_of, first_after_prefix, head_len,
    head_lines, head_text, header_lines, header_of, headers_of, items_of, parameter_of,
    parameter_value, requests, requires_only, responds, rseq_of, start_line, status_of, to_tag_of,
    uri_of, value_in_line, values_in,
};
use crate::text;
use crate::text::{
    decimal, has_prefix, is_digit, is_space, lines_of, number, pieces, same_folded, trimmed, words,
};

verus! {

/// What stands between the head of a frame and its body.
pub open spec fn blank() -> Seq<u8> {
    seq![13u8, 10u8, 13u8, 10u8]
}

proof fn lemma_head_len(head: Seq<u8>, body: Seq<u8>)
    requires
        forall|i: int| 0 <= i < head.len() ==> !#[trigger] blank_at(head + blank() + body, i),
    ensures
        head_len(head + blank() + body) == head.len(),
    decreases head.len(),
{
    let frame = head + blank() + body;
    if head.len() == 0 {
        assert(blank_at(frame, 0));
    } else {
        let d = head.drop_first();
        let rest = d + blank() + body;
        assert(!blank_at(frame, 0));
        assert(frame.drop_first() =~= rest);
        assert forall|i: int| 0 <= i < d.len() implies !#[trigger] blank_at(rest, i) by {
            assert(!blank_at(frame, i + 1));
            assert(rest[i] == frame[i + 1]);
        }
        lemma_head_len(d, body);
    }
}

/// A frame is parted at its first empty line: what stands before it is the head, read as
/// text, and all that follows is the body.
pub proof fn frames_are_parted(head: Seq<char>, body: Seq<u8>)
    requires
        forall|i: int|
            0 <= i < encode_utf8(head).len() ==> !#[trigger] blank_at(
                encode_utf8(head) + blank() + body,
                i,
            ),
    ensures
        ({
            let frame = encode_utf8(head) + blank() + body;
            &&& head_text(frame) == Some(head)
            &&& head_lines(frame) == lines_of(head)
            &&& body_of(frame) == body
        }),
{
    let h = encode_utf8(head);
    let frame = h + blank() + body;
    lemma_head_len(h, body);
    assert(frame.take(h.len() as int) =~= h);
    assert(frame.skip(h.len() as int + 4) =~= body);
    vstd::utf8::encode_utf8_valid_utf8(head);
    vstd::utf8::encode_utf8_decode_utf8(head);
}

// ---------------------------------------------------------------------------
// Header lines.

/// A header line with a name and a value.
pub open spec fn field(name: Seq<char>, value: Seq<char>) -> Seq<char> {
    name + ": "@ + value
}

/// A name that a header can have.
pub open spec fn is_name(s: Seq<char>) -> bool {
    s.len() > 0 && forall|i: int| 0 <= i < s.len() ==> #[trigger] s[i] != ':' && !is_space(s[i])
}

/// A header line is read under its name in any case, and under no other.
pub proof fn fields_are_read_by_name(name: Seq<char>, value: Seq<char>, wanted: Seq<char>)
    requires
        is_name(name),
    ensures
        value_in_line(field(name, value), wanted) == (if same_folded(name, wanted) {
            Some(trimmed(value))
        } else {
            None
        }),
{
    reveal_strlit(": ");
    let v = seq![' '] + value;
    assert(field(name, value) =~= name + seq![':'] + v);
    text::lemma_first_piece(name, ':', v);
    assert(!is_space(name[0]) && !is_space(name[name.len() - 1]));
    text::lemma_bare(name);
    assert(v.drop_first() =~= value);
    assert(text::trim_start(v) == text::trim_start(value));
}

/// The values of lines one after the other are the values of the first lines and then those
/// of the others.
pub proof fn lemma_values_concat(a: Seq<Seq<char>>, b: Seq<Seq<char>>, name: Seq<char>)
    ensures
        values_in(a + b, name) == values_in(a, name) + values_in(b, name),
    decreases b.len(),
{
    if b.len() == 0 {
        assert(a + b =~= a);
        assert(values_in(a, name) + values_in(b, name) =~= values_in(a, name));
    } else {
        let d = b.drop_last();
        lemma_values_concat(a, d, name);
        assert((a + b).drop_last() =~= a + d);
        assert((a + b).last() == b.last());
        assert(values_in(a + b, name) =~= values_in(a, name) + values_in(b, name));
    }
}

/// Of several header lines with one name the first gives the header; the values keep their
/// order, and lines with other names do not count.
pub proof fn first_field_gives_the_header(
    frame: Seq<u8>,
    before: Seq<Seq<char>>,
    value: Seq<char>,
    after: Seq<Seq<char>>,
    name: Seq<char>,
)
    requires
        is_name(name),
        header_lines(frame) == before + seq![field(name, value)] + after,
        forall|i: int| 0 <= i < before.len() ==> value_in_line(#[trigger] before[i], name) is None,
    ensures
        header_of(frame, name) == Some(trimmed(value)),
        headers_of(frame, name) == seq![trimmed(value)] + values_in(after, name),
{
    let one = seq![field(name, value)];
    fields_are_read_by_name(name, value, name);
    lemma_values_concat(before + one, after, name);
    lemma_values_concat(before, one, name);
    lemma_no_values(before, name);
    assert(one.drop_last() =~= Seq::<Seq<char>>::empty());
    assert(one.last() == field(name, value));
    assert(values_in(one.drop_last(), name) == Seq::<Seq<char>>::empty());
    assert(values_in(one, name) =~= seq![trimmed(value)]);
    assert(values_in(before, name) + values_in(one, name) =~= seq![trimmed(value)]);
}

proof fn lemma_no_values(l: Seq<Seq<char>>, name: Seq<char>)
    requires
        forall|i: int| 0 <= i < l.len() ==> value_in_line(#[trigger] l[i], name) is None,
    ensures
        values_in(l, name) == Seq::<Seq<char>>::empty(),
    decreases l.len(),
{
    if l.len() > 0 {
        let d = l.drop_last();
        assert forall|i: int| 0 <= i < d.len() implies value_in_line(#[trigger] d[i], name) is None by {
            assert(d[i] == l[i]);
        }
        lemma_no_values(d, name);
        assert(l[l.len() - 1] == l.last());
    }
}

// ---------------------------------------------------------------------------
// Start lines.

proof fn lemma_digits(n: nat)
    ensures
        decimal(n).len() > 0,
        forall|i: int| 0 <= i < decimal(n).len() ==> is_digit(#[trigger] decimal(n)[i]),
{
    text::lemma_decimal_digits(n);
}

/// A response has the status that its start line gives, whatever the reason behind it.
pub proof fn statuses_are_read_back(frame: Seq<u8>, status: u16, reason: Seq<char>)
    requires
        head_text(frame) is Some,
        start_line(frame) == "SIP/2.0 "@ + decimal(status as nat) + " "@ + reason,
    ensures
        responds(frame),
        status_of(frame) is Ok,
        status_of(frame)->Ok_0 == status,
{
    reveal_strlit("SIP/2.0 ");
    reveal_strlit(" ");
    let d = decimal(status as nat);
    let line = start_line(frame);
    let v = "SIP/2.0 "@.take(7);
    assert(line.take(8) =~= "SIP/2.0 "@);
    lemma_digits(status as nat);
    assert forall|i: int| 0 <= i < d.len() implies !is_space(#[trigger] d[i]) by {
        assert(is_digit(d[i]));
    }
    assert forall|i: int| 0 <= i < v.len() implies !is_space(#[trigger] v[i]) by {
        assert(v[i] == "SIP/2.0 "@[i]);
    }
    let tail = d + (seq![' '] + reason);
    assert(line =~= v + (seq![' '] + tail));
    text::lemma_first_word(v, seq![' '] + tail);
    text::lemma_space_in_front(tail);
    text::lemma_first_word(d, seq![' '] + reason);
    let w = words(line);
    assert(w[1] == d);
    text::number_reads_decimal(status as nat, 65535);
}

/// A request is of the method that its start line begins with, and of no other.
pub proof fn methods_are_read_back(frame: Seq<u8>, method: Seq<char>, rest: Seq<char>, wanted: Seq<char>)
    requires
        start_line(frame) == method + " "@ + rest,
        forall|i: int| 0 <= i < method.len() ==> #[trigger] method[i] != ' ',
        forall|i: int| 0 <= i < wanted.len() ==> #[trigger] wanted[i] != ' ',
    ensures
        requests(frame, wanted) <==> method == wanted,
{
    reveal_strlit(" ");
    let line = start_line(frame);
    let p = wanted + " "@;
    if method == wanted {
        assert(line.take(p.len() as int) =~= p);
    } else if requests(frame, wanted) {
        assert forall|i: int| 0 <= i < p.len() implies line[i] == #[trigger] p[i] by {
            assert(line.take(p.len() as int)[i] == line[i]);
        }
        if method.len() < wanted.len() {
            assert(line[method.len() as int] == ' ');
            assert(p[method.len() as int] == wanted[method.len() as int]);
        } else if method.len() > wanted.len() {
            assert(p[wanted.len() as int] == ' ');
            assert(line[wanted.len() as int] == method[wanted.len() as int]);
        } else {
            assert forall|i: int| 0 <= i < method.len() implies method[i] == wanted[i] by {
                assert(p[i] == wanted[i]);
            }
            assert(method =~= wanted);
        }
    }
}

// ---------------------------------------------------------------------------
// Values.

/// A text without white space or a semicolon.
pub open spec fn is_atom(s: Seq<char>) -> bool {
    s.len() > 0 && forall|i: int| 0 <= i < s.len() ==> #[trigger] s[i] != ';' && !is_space(s[i])
}

/// The CSeq header gives the number and the method of the request.
pub proof fn cseq_is_read_back(frame: Seq<u8>, n: u32, method: Seq<char>)
    requires
        header_of(frame, "CSeq"@) == Some(decimal(n as nat) + " "@ + method),
        is_atom(method),
    ensures
        cseq_number_of(frame) == Some(n as nat),
        cseq_method_of(frame) == Some(method),
{
    reveal_strlit(" ");
    let d = decimal(n as nat);
    let value = d + " "@ + method;
    lemma_digits(n as nat);
    assert forall|i: int| 0 <= i < d.len() implies !is_space(#[trigger] d[i]) by {
        assert(is_digit(d[i]));
    }
    assert(value =~= d + (seq![' '] + method));
    text::lemma_first_word(d, seq![' '] + method);
    text::lemma_space_in_front(method);
    text::lemma_first_word(method, Seq::empty());
    text::lemma_no_words();
    assert(method + Seq::<char>::empty() =~= method);
    let w = words(value);
    assert(w =~= seq![d, method]);
    assert(w[0] == d && w[1] == method);
    text::number_reads_decimal(n as nat, 0xffff_ffff);
}

/// The To header gives its tag; without parameters it has none.
pub proof fn tags_are_read_back(frame: Seq<u8>, address: Seq<char>, tag: Seq<char>)
    requires
        forall|i: int| 0 <= i < address.len() ==> #[trigger] address[i] != ';',
        !has_prefix(trimmed(address), "tag="@),
        is_atom(tag),
    ensures
        header_of(frame, "To"@) == Some(address + ";tag="@ + tag) ==> to_tag_of(frame) == Some(tag),
        header_of(frame, "To"@) == Some(address) ==> to_tag_of(frame) is None,
{
    reveal_strlit(";tag=");
    reveal_strlit("tag=");
    let parameter = "tag="@ + tag;
    assert(address + ";tag="@ + tag =~= address + seq![';'] + parameter);
    assert forall|i: int| 0 <= i < parameter.len() implies #[trigger] parameter[i] != ';' by {
        if i >= 4 {
            assert(parameter[i] == tag[i - 4]);
        }
    }
    text::lemma_first_piece(address, ';', parameter);
    text::lemma_no_separator(parameter, ';');
    text::lemma_no_separator(address, ';');
    assert(!is_space(tag[tag.len() - 1]));
    assert(parameter.last() == tag[tag.len() - 1]);
    text::lemma_bare(parameter);
    assert(parameter.take(4) =~= "tag="@);
    assert(parameter.skip(4) =~= tag);
    lemma_second_after(address, parameter, "tag="@);
    let one = seq![address];
    assert(one.drop_first() =~= Seq::<Seq<char>>::empty());
    assert(first_after_prefix(Seq::empty(), "tag="@) is None);
    assert(one[0] == address);
}

proof fn lemma_second_after(a: Seq<char>, b: Seq<char>, p: Seq<char>)
    requires
        !has_prefix(trimmed(a), p),
        has_prefix(trimmed(b), p),
    ensures
        first_after_prefix(seq![a] + seq![b], p) == Some(trimmed(b).skip(p.len() as int)),
{
    reveal_with_fuel(first_after_prefix, 3);
    let l = seq![a] + seq![b];
    assert(l[0] == a);
    assert(l.drop_first() =~= seq![b]);
    assert(seq![b][0] == b);
}

/// The top Via header gives the branch, whatever parameters follow it.
pub proof fn branches_are_read_back(
    frame: Seq<u8>,
    sent_by: Seq<char>,
    branch: Seq<char>,
    rest: Seq<char>,
)
    requires
        header_of(frame, "Via"@) == Some(sent_by + ";branch="@ + branch + rest),
        forall|i: int| 0 <= i < sent_by.len() ==> #[trigger] sent_by[i] != ';',
        !has_prefix(trimmed(sent_by), "branch="@),
        is_atom(branch),
        rest.len() == 0 || rest[0] == ';',
    ensures
        branch_of(frame) == Some(branch),
{
    reveal_strlit(";branch=");
    reveal_strlit("branch=");
    let parameter = "branch="@ + branch;
    let tail = parameter + rest;
    assert(sent_by + ";branch="@ + branch + rest =~= sent_by + seq![';'] + tail);
    assert forall|i: int| 0 <= i < parameter.len() implies #[trigger] parameter[i] != ';' by {
        if i >= 7 {
            assert(parameter[i] == branch[i - 7]);
        }
    }
    text::lemma_first_piece(sent_by, ';', tail);
    let q = pieces(tail, ';');
    assert(q.len() > 0 && q[0] == parameter) by {
        if rest.len() == 0 {
            assert(tail =~= parameter);
            text::lemma_no_separator(parameter, ';');
        } else {
            assert(tail =~= parameter + seq![';'] + rest.drop_first());
            text::lemma_first_piece(parameter, ';', rest.drop_first());
        }
    }
    assert(!is_space(branch[branch.len() - 1]));
    assert(parameter.last() == branch[branch.len() - 1]);
    text::lemma_bare(parameter);
    assert(parameter.take(7) =~= "branch="@);
    assert(parameter.skip(7) =~= branch);
    reveal_with_fuel(first_after_prefix, 3);
    let l = seq![sent_by] + q;
    assert(l[0] == sent_by);
    assert(l.drop_first() =~= q);
}

/// The address in angle brackets is the address of a header, whatever name stands before
/// and whatever parameters behind it; without brackets it ends at the first semicolon.
pub proof fn addresses_are_read_back(name: Seq<char>, uri: Seq<char>, rest: Seq<char>)
    requires
        is_atom(uri),
        forall|i: int| 0 <= i < name.len() ==> #[trigger] name[i] != '<',
        forall|i: int| 0 <= i < uri.len() ==> #[trigger] uri[i] != '<' && uri[i] != '>',
        rest.len() == 0 || rest[0] == ';',
        forall|i: int| 0 <= i < rest.len() ==> #[trigger] rest[i] != '<',
    ensures
        uri_of(name + "<"@ + uri + ">"@ + rest) == Some(uri),
        uri_of(uri + rest) == Some(uri),
{
    reveal_strlit("<");
    reveal_strlit(">");
    let value = name + "<"@ + uri + ">"@ + rest;
    let inner = uri + seq!['>'] + rest;
    assert(value =~= name + seq!['<'] + inner);
    lemma_index(name, '<', inner);
    assert(value.skip(name.len() as int + 1) =~= inner);
    lemma_index(uri, '>', rest);
    assert(inner.take(uri.len() as int) =~= uri);
    assert(!is_space(uri[0]) && !is_space(uri[uri.len() - 1]));
    text::lemma_bare(uri);
    let bare = uri + rest;
    assert forall|i: int| 0 <= i < bare.len() implies bare[i] != '<' by {
        if i < uri.len() {
            assert(bare[i] == uri[i]);
        } else {
            assert(bare[i] == rest[i - uri.len()]);
        }
    }
    text::lemma_no_separator(bare, '<');
    if rest.len() == 0 {
        assert(bare =~= uri);
        text::lemma_no_separator(uri, ';');
    } else {
        assert(bare =~= uri + seq![';'] + rest.drop_first());
        lemma_index(uri, ';', rest.drop_first());
    }
    assert(bare.take(uri.len() as int) =~= uri);
}

proof fn lemma_index(a: Seq<char>, c: char, rest: Seq<char>)
    requires
        forall|i: int| 0 <= i < a.len() ==> #[trigger] a[i] != c,
    ensures
        text::index_of(a + seq![c] + rest, c) == a.len(),
    decreases a.len(),
{
    let s = a + seq![c] + rest;
    if a.len() > 0 {
        let d = a.drop_first();
        assert(s[0] == a[0]);
        assert(s.drop_first() =~= d + seq![c] + rest);
        assert forall|i: int| 0 <= i < d.len() implies #[trigger] d[i] != c by {
            assert(d[i] == a[i + 1]);
        }
        lemma_index(d, c, rest);
    }
}

/// The first parameter of a header value is read under its name, with or without quotes
/// around what it says.
pub proof fn parameters_are_read_back(value: Seq<char>, name: Seq<char>, said: Seq<char>, rest: Seq<char>)
    requires
        forall|i: int| 0 <= i < value.len() ==> #[trigger] value[i] != ';',
        is_atom(name),
        forall|i: int| 0 <= i < name.len() ==> #[trigger] name[i] != '=',
        is_atom(said),
        forall|i: int| 0 <= i < said.len() ==> #[trigger] said[i] != '"',
        rest.len() == 0 || rest[0] == ';',
    ensures
        parameter_of(value + ";"@ + name + "="@ + said + rest, name) == Some(said),
        parameter_of(value + ";"@ + name + "=\""@ + said + "\""@ + rest, name) == Some(said),
        parameter_of(value, name) is None,
{
    reveal_strlit(";");
    reveal_strlit("=");
    reveal_strlit("=\"");
    reveal_strlit("\"");
    assert(!is_space(said[0]) && !is_space(said[said.len() - 1]));
    text::lemma_bare(said);
    assert(text::strip_start(said, '"') == said);
    assert(said[said.len() - 1] == said.last());
    assert(text::strip_end(said, '"') == said);
    let quoted = seq!['"'] + said + seq!['"'];
    let tail = said + seq!['"'];
    assert(quoted.drop_first() =~= tail);
    assert(tail[0] == said[0]);
    assert(text::strip_start(tail, '"') == tail);
    assert(text::strip_start(quoted, '"') == tail);
    assert(tail.drop_last() =~= said);
    assert(text::strip_end(tail, '"') == said);
    text::lemma_bare(quoted);
    assert(value + ";"@ + name + "="@ + said + rest =~= value + seq![';'] + (name + seq!['='] + said
        + rest));
    assert(value + ";"@ + name + "=\""@ + said + "\""@ + rest =~= value + seq![';'] + (name
        + seq!['='] + quoted + rest));
    assert forall|i: int| 0 <= i < quoted.len() implies #[trigger] quoted[i] != ';' by {
        if 0 < i <= said.len() {
            assert(quoted[i] == said[i - 1]);
        }
    }
    lemma_parameter(value, name, said, said, rest);
    lemma_parameter(value, name, quoted, said, rest);
    text::lemma_no_separator(value, ';');
    assert(pieces(value, ';').skip(1) =~= Seq::<Seq<char>>::empty());
}

proof fn lemma_parameter(
    value: Seq<char>,
    name: Seq<char>,
    written: Seq<char>,
    said: Seq<char>,
    rest: Seq<char>,
)
    requires
        forall|i: int| 0 <= i < value.len() ==> #[trigger] value[i] != ';',
        is_atom(name),
        forall|i: int| 0 <= i < name.len() ==> #[trigger] name[i] != '=',
        written.len() > 0,
        !is_space(written.last()),
        trimmed(written) == written,
        forall|i: int| 0 <= i < written.len() ==> #[trigger] written[i] != ';',
        text::unwrapped(written, '"') == said,
        rest.len() == 0 || rest[0] == ';',
    ensures
        parameter_of(value + seq![';'] + (name + seq!['='] + written + rest), name) == Some(said),
{
    let parameter = name + seq!['='] + written;
    let tail = name + seq!['='] + written + rest;
    assert forall|i: int| 0 <= i < parameter.len() implies #[trigger] parameter[i] != ';' by {
        if i < name.len() {
            assert(parameter[i] == name[i]);
        } else if i > name.len() {
            assert(parameter[i] == written[i - name.len() - 1]);
        }
    }
    text::lemma_first_piece(value, ';', tail);
    let q = pieces(tail, ';');
    assert(q.len() > 0 && q[0] == parameter) by {
        if rest.len() == 0 {
            assert(tail =~= parameter);
            text::lemma_no_separator(parameter, ';');
        } else {
            assert(tail =~= parameter + seq![';'] + rest.drop_first());
            text::lemma_first_piece(parameter, ';', rest.drop_first());
        }
    }
    assert(parameter[0] == name[0] && !is_space(name[0]));
    assert(parameter.last() == written.last());
    text::lemma_bare(parameter);
    text::lemma_first_piece(name, '=', written);
    assert(parameter_value(parameter, name) == Some(said));
    assert((seq![value] + q).skip(1) =~= q);
}

/// The RSeq header gives the number of a reliable response, with or without space around it.
pub proof fn rseq_is_read_back(frame: Seq<u8>, n: u32)
    requires
        header_of(frame, "RSeq"@) == Some(decimal(n as nat)),
    ensures
        rseq_of(frame) == Some(n as nat),
{
    let d = decimal(n as nat);
    lemma_digits(n as nat);
    assert(is_digit(d[0]) && is_digit(d[d.len() - 1]));
    text::lemma_bare(d);
    text::number_reads_decimal(n as nat, 0xffff_ffff);
}

/// A frame that requires one extension requires it in any case of letters; one that
/// requires nothing does not, nor one that requires another.
pub proof fn requirements_are_read_back(frame: Seq<u8>, item: Seq<char>, wanted: Seq<char>)
    requires
        is_atom(item),
        forall|i: int| 0 <= i < item.len() ==> #[trigger] item[i] != ',',
    ensures
        headers_of(frame, "Require"@) == seq![item] ==> (requires_only(frame, wanted)
            <==> same_folded(item, wanted)),
        headers_of(frame, "Require"@).len() == 0 ==> !requires_only(frame, wanted),
{
    let one = seq![item];
    let e = Seq::<Seq<char>>::empty();
    text::lemma_no_separator(item, ',');
    assert(!is_space(item[0]) && !is_space(item[item.len() - 1]));
    text::lemma_bare(item);
    assert(one.drop_last() =~= e);
    assert(one.last() == item);
    assert(items_of(e) == e);
    assert(crate::sip::filled(e) == e);
    assert(crate::sip::filled(one) =~= one);
    assert(items_of(one) =~= one);
    if headers_of(frame, "Require"@) == one {
        assert(items_of(one)[0] == item);
    }
    if headers_of(frame, "Require"@).len() == 0 {
        assert(headers_of(frame, "Require"@) =~= e);
    }
}

} // verus!
