//! Reading SIP frames: start line, headers, parameters and body.

use vstd::prelude::*;
use vstd::string::*;
use vstd::utf8::{decode_utf8, valid_utf8};

use crate::errors::{code, failure, ErrorView, VolteError};
use crate::text;
use crate::text::{
    after_prefix, halves, has_prefix, index_of, lines_of, number, opt, pieces, same_folded, texts,
    trimmed, unwrapped, words,
};

pub mod written;

verus! {

/// `std::str::from_utf8`: the text that the bytes encode, or nothing where they
/// are not well-formed UTF-8.
#[verifier::external_body]
pub(crate) fn utf8_text(bytes: &[u8]) -> (r: Option<String>)
    ensures
        match r {
            Some(s) => valid_utf8(bytes@) && s@ == decode_utf8(bytes@),
            None => !valid_utf8(bytes@),
        },
{
    std::str::from_utf8(bytes).ok().map(String::from)
}

/// An empty line begins at `i`: carriage return and line feed, twice.
pub open spec fn blank_at(frame: Seq<u8>, i: int) -> bool {
    0 <= i <= frame.len() - 4 && frame[i] == 13 && frame[i + 1] == 10 && frame[i + 2] == 13
        && frame[i + 3] == 10
}

/// The length of the part before the empty line.
pub open spec fn head_len(frame: Seq<u8>) -> int
    decreases frame.len(),
{
    if frame.len() == 0 || blank_at(frame, 0) {
        0
    } else {
        1 + head_len(frame.drop_first())
    }
}

/// What follows the empty line.
pub open spec fn body_of(frame: Seq<u8>) -> Seq<u8> {
    if head_len(frame) < frame.len() {
        frame.skip(head_len(frame) + 4)
    } else {
        Seq::empty()
    }
}

/// The start line and headers as text, where they are well-formed UTF-8.
pub open spec fn head_text(frame: Seq<u8>) -> Option<Seq<char>> {
    let head = frame.take(head_len(frame));
    if valid_utf8(head) {
        Some(decode_utf8(head))
    } else {
        None
    }
}

/// The lines before the empty line; none where they are not UTF-8.
pub open spec fn head_lines(frame: Seq<u8>) -> Seq<Seq<char>> {
    match head_text(frame) {
        Some(head) => lines_of(head),
        None => Seq::empty(),
    }
}

/// The lines behind the start line.
pub open spec fn header_lines(frame: Seq<u8>) -> Seq<Seq<char>> {
    if head_lines(frame).len() > 0 {
        head_lines(frame).skip(1)
    } else {
        Seq::empty()
    }
}

/// The value of a header line, where its name is `name` in any case.
pub open spec fn value_in_line(line: Seq<char>, name: Seq<char>) -> Option<Seq<char>> {
    match halves(line, ':') {
        Some((left, right)) => if same_folded(trimmed(left), name) {
            Some(trimmed(right))
        } else {
            None
        },
        None => None,
    }
}

/// The values of all lines that carry the header `name`, in order.
pub open spec fn values_in(lines: Seq<Seq<char>>, name: Seq<char>) -> Seq<Seq<char>>
    decreases lines.len(),
{
    if lines.len() == 0 {
        Seq::empty()
    } else {
        let front = values_in(lines.drop_last(), name);
        match value_in_line(lines.last(), name) {
            Some(value) => front.push(value),
            None => front,
        }
    }
}

/// The values of the header `name` in a frame, in order.
pub open spec fn headers_of(frame: Seq<u8>, name: Seq<char>) -> Seq<Seq<char>> {
    values_in(header_lines(frame), name)
}

/// The first value of the header `name`.
pub open spec fn header_of(frame: Seq<u8>, name: Seq<char>) -> Option<Seq<char>> {
    let values = headers_of(frame, name);
    if values.len() > 0 {
        Some(values[0])
    } else {
        None
    }
}

/// The start line, or the empty text where there is none.
pub open spec fn start_line(frame: Seq<u8>) -> Seq<char> {
    let lines = head_lines(frame);
    if lines.len() > 0 {
        lines[0]
    } else {
        Seq::empty()
    }
}

/// The frame is a request with this method.
pub open spec fn requests(frame: Seq<u8>, method: Seq<char>) -> bool {
    has_prefix(start_line(frame), method + " "@)
}

/// The frame is a response.
pub open spec fn responds(frame: Seq<u8>) -> bool {
    has_prefix(start_line(frame), "SIP/2.0 "@)
}

/// The status of a response, or why there is none.
pub open spec fn status_of(frame: Seq<u8>) -> Result<nat, ErrorView> {
    let w = words(start_line(frame));
    if head_text(frame) is None {
        Err(failure(code::SIP_NOT_UTF8@))
    } else if !responds(frame) {
        Err(failure(code::SIP_STATUS_INVALID@))
    } else if w.len() < 2 {
        Err(failure(code::SIP_STATUS_MISSING@))
    } else {
        match number(w[1], 65535) {
            Some(status) => Ok(status),
            None => Err(failure(code::SIP_STATUS_INVALID@)),
        }
    }
}

/// The status of a response, where it has one.
pub open spec fn status_opt(frame: Seq<u8>) -> Option<u16> {
    match status_of(frame) {
        Ok(status) => Some(status as u16),
        Err(_) => None,
    }
}

/// The first piece that begins with `prefix` once trimmed, without it.
pub open spec fn first_after_prefix(p: Seq<Seq<char>>, prefix: Seq<char>) -> Option<Seq<char>>
    decreases p.len(),
{
    if p.len() == 0 {
        None
    } else {
        match after_prefix(trimmed(p[0]), prefix) {
            Some(rest) => Some(rest),
            None => first_after_prefix(p.drop_first(), prefix),
        }
    }
}

/// The branch of the top Via header.
pub open spec fn branch_of(frame: Seq<u8>) -> Option<Seq<char>> {
    match header_of(frame, "Via"@) {
        Some(via) => first_after_prefix(pieces(via, ';'), "branch="@),
        None => None,
    }
}

/// The tag of the To header.
pub open spec fn to_tag_of(frame: Seq<u8>) -> Option<Seq<char>> {
    match header_of(frame, "To"@) {
        Some(to) => first_after_prefix(pieces(to, ';'), "tag="@),
        None => None,
    }
}

/// The value of one `name=value` parameter, where its name is `name` in any case.
pub open spec fn parameter_value(parameter: Seq<char>, name: Seq<char>) -> Option<Seq<char>> {
    match halves(trimmed(parameter), '=') {
        Some((left, right)) => if same_folded(left, name) {
            Some(unwrapped(trimmed(right), '"'))
        } else {
            None
        },
        None => None,
    }
}

pub open spec fn first_parameter(p: Seq<Seq<char>>, name: Seq<char>) -> Option<Seq<char>>
    decreases p.len(),
{
    if p.len() == 0 {
        None
    } else {
        match parameter_value(p[0], name) {
            Some(value) => Some(value),
            None => first_parameter(p.drop_first(), name),
        }
    }
}

/// The parameter `name` behind the first semicolon of a header value.
pub open spec fn parameter_of(value: Seq<char>, name: Seq<char>) -> Option<Seq<char>> {
    first_parameter(pieces(value, ';').skip(1), name)
}

/// The address of a name-addr: what stands between angle brackets, or else
/// everything before the first semicolon.
pub open spec fn uri_of(value: Seq<char>) -> Option<Seq<char>> {
    let open = index_of(value, '<');
    if open < value.len() {
        let inner = value.skip(open + 1);
        let close = index_of(inner, '>');
        if close < inner.len() {
            Some(trimmed(inner.take(close)))
        } else {
            None
        }
    } else {
        let bare = trimmed(value.take(index_of(value, ';')));
        if bare.len() > 0 {
            Some(bare)
        } else {
            None
        }
    }
}

pub open spec fn header_uri_of(frame: Seq<u8>, name: Seq<char>) -> Option<Seq<char>> {
    match header_of(frame, name) {
        Some(value) => uri_of(value),
        None => None,
    }
}

/// The non-empty trimmed items of comma-separated values.
pub open spec fn items_of(values: Seq<Seq<char>>) -> Seq<Seq<char>>
    decreases values.len(),
{
    if values.len() == 0 {
        Seq::empty()
    } else {
        items_of(values.drop_last()) + filled(pieces(values.last(), ','))
    }
}

/// The pieces that are not blank, trimmed.
pub open spec fn filled(p: Seq<Seq<char>>) -> Seq<Seq<char>>
    decreases p.len(),
{
    if p.len() == 0 {
        Seq::empty()
    } else {
        let front = filled(p.drop_last());
        let last = trimmed(p.last());
        if last.len() > 0 {
            front.push(last)
        } else {
            front
        }
    }
}

/// The Require headers name `extension` and nothing else.
pub open spec fn requires_only(frame: Seq<u8>, extension: Seq<char>) -> bool {
    let items = items_of(headers_of(frame, "Require"@));
    items.len() > 0 && forall|i: int|
        0 <= i < items.len() ==> same_folded(#[trigger] items[i], extension)
}

/// The response's first Require header asks for reliable provisional responses.
pub open spec fn asks_reliable(frame: Seq<u8>) -> bool {
    match header_of(frame, "Require"@) {
        Some(value) => lists(pieces(value, ','), "100rel"@),
        None => false,
    }
}

/// One of the pieces is `item`, once trimmed.
pub open spec fn lists(p: Seq<Seq<char>>, item: Seq<char>) -> bool {
    exists|i: int| 0 <= i < p.len() && trimmed(#[trigger] p[i]) == item
}

/// The sequence number of a reliable provisional response.
pub open spec fn rseq_of(frame: Seq<u8>) -> Option<nat> {
    match header_of(frame, "RSeq"@) {
        Some(value) => number(trimmed(value), 0xffff_ffff),
        None => None,
    }
}

/// The method that a frame's CSeq names.
pub open spec fn cseq_method_of(frame: Seq<u8>) -> Option<Seq<char>> {
    match header_of(frame, "CSeq"@) {
        Some(value) => if words(value).len() > 1 {
            Some(words(value)[1])
        } else {
            None
        },
        None => None,
    }
}

/// The number that a frame's CSeq carries.
pub open spec fn cseq_number_of(frame: Seq<u8>) -> Option<nat> {
    match header_of(frame, "CSeq"@) {
        Some(value) => if words(value).len() > 0 {
            number(words(value)[0], 0xffff_ffff)
        } else {
            None
        },
        None => None,
    }
}

/// The frame's Event header names the refer package.
pub open spec fn is_refer_event(frame: Seq<u8>) -> bool {
    match header_of(frame, "Event"@) {
        Some(value) => same_folded(trimmed(pieces(value, ';')[0]), "refer"@),
        None => false,
    }
}

fn find_blank(frame: &[u8]) -> (r: usize)
    ensures
        r == head_len(frame@),
        r <= frame@.len(),
        r < frame@.len() ==> r + 4 <= frame@.len(),
{
    let n = frame.len();
    let mut i: usize = 0;
    proof {
        assert(frame@.skip(0) =~= frame@);
    }
    while i < n && !(n - i >= 4 && frame[i] == 13 && frame[i + 1] == 10 && frame[i + 2] == 13
        && frame[i + 3] == 10)
        invariant
            n == frame@.len(),
            i <= n,
            head_len(frame@) == i + head_len(frame@.skip(i as int)),
        decreases n - i,
    {
        proof {
            let rest = frame@.skip(i as int);
            assert(rest.drop_first() =~= frame@.skip(i as int + 1));
            assert(!blank_at(rest, 0));
        }
        i += 1;
    }
    proof {
        if i < n {
            assert(blank_at(frame@.skip(i as int), 0));
        }
    }
    i
}

/// The body of a frame.
pub fn sip_body(frame: &[u8]) -> (r: &[u8])
    ensures
        r@ == body_of(frame@),
{
    let at = find_blank(frame);
    if at < frame.len() {
        let body = vstd::slice::slice_subrange(frame, at + 4, frame.len());
        proof {
            assert(body@ =~= frame@.skip(at as int + 4));
        }
        body
    } else {
        let body = vstd::slice::slice_subrange(frame, 0, 0);
        proof {
            assert(body@ =~= Seq::<u8>::empty());
        }
        body
    }
}

fn head(frame: &[u8]) -> (r: Option<String>)
    ensures
        opt(r) == head_text(frame@),
{
    let at = find_blank(frame);
    let bytes = vstd::slice::slice_subrange(frame, 0, at);
    proof {
        assert(bytes@ =~= frame@.take(at as int));
    }
    utf8_text(bytes)
}

fn head_line_list(frame: &[u8]) -> (r: Vec<String>)
    ensures
        texts(r@) == head_lines(frame@),
{
    match head(frame) {
        Some(head) => text::lines(head.as_str()),
        None => {
            let none: Vec<String> = Vec::new();
            proof {
                assert(texts(none@) =~= Seq::<Seq<char>>::empty());
            }
            none
        },
    }
}

/// The values of the header `name`, in order.
pub fn header_values(frame: &[u8], name: &str) -> (r: Vec<String>)
    ensures
        texts(r@) == headers_of(frame@, name@),
{
    let lines = head_line_list(frame);
    let ghost all = texts(lines@).skip(1);
    let mut out: Vec<String> = Vec::new();
    if lines.len() == 0 {
        proof {
            assert(texts(out@) =~= Seq::<Seq<char>>::empty());
            assert(texts(lines@).len() == 0);
        }
        return out;
    }
    let mut i: usize = 1;
    proof {
        assert(all.take(0) =~= Seq::<Seq<char>>::empty());
        assert(texts(out@) =~= Seq::<Seq<char>>::empty());
    }
    while i < lines.len()
        invariant
            1 <= i <= lines@.len(),
            all == texts(lines@).skip(1),
            texts(out@) == values_in(all.take(i - 1), name@),
        decreases lines@.len() - i,
    {
        proof {
            assert(all.take(i as int).drop_last() =~= all.take(i - 1));
            assert(all.take(i as int).last() == lines@[i as int]@);
        }
        let ghost before = out@;
        if let Some((left, right)) = text::split_once(lines[i].as_str(), ':') {
            if text::same_ignoring_case(text::trim(left.as_str()).as_str(), name) {
                let value = text::trim(right.as_str());
                out.push(value);
                proof {
                    assert(texts(out@) =~= texts(before).push(value@));
                }
            }
        }
        i += 1;
    }
    proof {
        assert(all.take(all.len() as int) =~= all);
    }
    out
}

/// The first value of the header `name`.
pub fn header_value(frame: &[u8], name: &str) -> (r: Option<String>)
    ensures
        opt(r) == header_of(frame@, name@),
{
    let mut values = header_values(frame, name);
    proof {
        assert(texts(values@).len() == values@.len());
    }
    if values.len() > 0 {
        proof {
            assert(texts(values@)[0] == values@[0]@);
        }
        let first = values.swap_remove(0);
        Some(first)
    } else {
        None
    }
}

fn first_line(frame: &[u8]) -> (r: String)
    ensures
        r@ == start_line(frame@),
{
    let mut lines = head_line_list(frame);
    proof {
        assert(texts(lines@).len() == lines@.len());
    }
    if lines.len() > 0 {
        proof {
            assert(texts(lines@)[0] == lines@[0]@);
        }
        lines.swap_remove(0)
    } else {
        String::new()
    }
}

/// The frame is a request with this method.
pub fn is_request(frame: &[u8], method: &str) -> (r: bool)
    ensures
        r == requests(frame@, method@),
{
    let mut wanted = method.to_string();
    wanted.append(" ");
    text::starts_with(first_line(frame).as_str(), wanted.as_str())
}

/// The frame is a response.
pub fn is_response(frame: &[u8]) -> (r: bool)
    ensures
        r == responds(frame@),
{
    text::starts_with(first_line(frame).as_str(), "SIP/2.0 ")
}

/// The status of a response.
pub fn parse_status(frame: &[u8]) -> (r: Result<u16, VolteError>)
    ensures
        match r {
            Ok(status) => status_of(frame@) == Ok::<nat, ErrorView>(status as nat),
            Err(error) => status_of(frame@) == Err::<nat, ErrorView>(error@),
        },
{
    if head(frame).is_none() {
        return Err(VolteError::new(code::SIP_NOT_UTF8));
    }
    if !is_response(frame) {
        return Err(VolteError::new(code::SIP_STATUS_INVALID));
    }
    let w = text::split_words(first_line(frame).as_str());
    proof {
        assert(texts(w@).len() == w@.len());
    }
    if w.len() < 2 {
        return Err(VolteError::new(code::SIP_STATUS_MISSING));
    }
    proof {
        assert(texts(w@)[1] == w@[1]@);
    }
    match text::parse_number(w[1].as_str(), 65535) {
        Some(status) => Ok(status as u16),
        None => Err(VolteError::new(code::SIP_STATUS_INVALID)),
    }
}

/// The first piece that begins with `prefix` once trimmed, without it.
pub fn find_after_prefix(p: &[String], prefix: &str) -> (r: Option<String>)
    ensures
        opt(r) == first_after_prefix(texts(p@), prefix@),
{
    let ghost all = texts(p@);
    let mut i: usize = 0;
    proof {
        assert(all.skip(0) =~= all);
    }
    while i < p.len()
        invariant
            i <= p@.len(),
            all == texts(p@),
            first_after_prefix(all, prefix@) == first_after_prefix(all.skip(i as int), prefix@),
        decreases p@.len() - i,
    {
        proof {
            assert(all.skip(i as int).drop_first() =~= all.skip(i as int + 1));
            assert(all.skip(i as int)[0] == p@[i as int]@);
        }
        let rest = text::strip_prefix(text::trim(p[i].as_str()).as_str(), prefix);
        if rest.is_some() {
            return rest;
        }
        i += 1;
    }
    None
}

/// The branch of the top Via header.
pub fn top_via_branch(frame: &[u8]) -> (r: Option<String>)
    ensures
        opt(r) == branch_of(frame@),
{
    match header_value(frame, "Via") {
        Some(via) => find_after_prefix(text::split(via.as_str(), ';').as_slice(), "branch="),
        None => None,
    }
}

/// The tag of the To header.
pub fn response_to_tag(frame: &[u8]) -> (r: Option<String>)
    ensures
        opt(r) == to_tag_of(frame@),
{
    match header_value(frame, "To") {
        Some(to) => find_after_prefix(text::split(to.as_str(), ';').as_slice(), "tag="),
        None => None,
    }
}

/// The parameter `expected` behind the first semicolon of a header value.
pub fn sip_parameter(value: &str, expected: &str) -> (r: Option<String>)
    ensures
        opt(r) == parameter_of(value@, expected@),
{
    let p = text::split(value, ';');
    let ghost all = texts(p@);
    proof {
        text::lemma_pieces_nonempty(value@, ';');
        assert(all.len() == p@.len());
    }
    let mut i: usize = 1;
    while i < p.len()
        invariant
            1 <= i <= p@.len(),
            all == texts(p@),
            all == pieces(value@, ';'),
            first_parameter(all.skip(1), expected@) == first_parameter(
                all.skip(i as int),
                expected@,
            ),
        decreases p@.len() - i,
    {
        proof {
            assert(all.skip(i as int).drop_first() =~= all.skip(i as int + 1));
            assert(all.skip(i as int)[0] == p@[i as int]@);
        }
        if let Some((name, raw)) = text::split_once(text::trim(p[i].as_str()).as_str(), '=') {
            if text::same_ignoring_case(name.as_str(), expected) {
                return Some(text::trim_matches(text::trim(raw.as_str()).as_str(), '"'));
            }
        }
        i += 1;
    }
    None
}

/// The address of a name-addr value.
pub fn uri_in(value: &str) -> (r: Option<String>)
    ensures
        opt(r) == uri_of(value@),
{
    proof {
        text::lemma_index_of(value@, '<');
        text::lemma_index_of(value@, ';');
    }
    match text::split_once(value, '<') {
        Some((_, inner)) => match text::split_once(inner.as_str(), '>') {
            Some((uri, _)) => Some(text::trim(uri.as_str())),
            None => None,
        },
        None => {
            let bare = match text::split_once(value, ';') {
                Some((left, _)) => text::trim(left.as_str()),
                None => {
                    proof {
                        assert(value@.take(value@.len() as int) =~= value@);
                    }
                    text::trim(value)
                },
            };
            if bare.as_str().is_empty() {
                None
            } else {
                Some(bare)
            }
        },
    }
}

/// The address in the header `name`.
pub fn sip_header_uri(frame: &[u8], name: &str) -> (r: Option<String>)
    ensures
        opt(r) == header_uri_of(frame@, name@),
{
    match header_value(frame, name) {
        Some(value) => uri_in(value.as_str()),
        None => None,
    }
}

/// Appends the non-blank trimmed comma-separated items of `value`.
fn push_items(out: &mut Vec<String>, value: &str)
    ensures
        texts(final(out)@) == texts(old(out)@) + filled(pieces(value@, ',')),
{
    let p = text::split(value, ',');
    let ghost all = texts(p@);
    let ghost start = texts(out@);
    let mut i: usize = 0;
    proof {
        assert(all.take(0) =~= Seq::<Seq<char>>::empty());
        assert(start + filled(all.take(0)) =~= start);
    }
    while i < p.len()
        invariant
            i <= p@.len(),
            all == texts(p@),
            texts(out@) == start + filled(all.take(i as int)),
        decreases p@.len() - i,
    {
        proof {
            assert(all.take(i as int + 1).drop_last() =~= all.take(i as int));
            assert(all.take(i as int + 1).last() == p@[i as int]@);
        }
        let ghost before = out@;
        let item = text::trim(p[i].as_str());
        if !item.as_str().is_empty() {
            out.push(item);
            proof {
                assert(texts(out@) =~= texts(before).push(item@));
                assert(start + filled(all.take(i as int)).push(item@) =~= texts(before).push(item@));
            }
        }
        i += 1;
    }
    proof {
        assert(all.take(all.len() as int) =~= all);
    }
}

/// The non-blank trimmed items of the comma-separated values of a header.
pub fn header_items(frame: &[u8], name: &str) -> (r: Vec<String>)
    ensures
        texts(r@) == items_of(headers_of(frame@, name@)),
{
    let values = header_values(frame, name);
    let ghost all = texts(values@);
    let mut out: Vec<String> = Vec::new();
    let mut i: usize = 0;
    proof {
        assert(all.take(0) =~= Seq::<Seq<char>>::empty());
        assert(texts(out@) =~= Seq::<Seq<char>>::empty());
    }
    while i < values.len()
        invariant
            i <= values@.len(),
            all == texts(values@),
            texts(out@) == items_of(all.take(i as int)),
        decreases values@.len() - i,
    {
        proof {
            assert(all.take(i as int + 1).drop_last() =~= all.take(i as int));
            assert(all.take(i as int + 1).last() == values@[i as int]@);
        }
        push_items(&mut out, values[i].as_str());
        i += 1;
    }
    proof {
        assert(all.take(all.len() as int) =~= all);
    }
    out
}

/// The Require headers name `supported_extension` and nothing else.
pub fn response_requires_only_extension(response: &[u8], supported_extension: &str) -> (r: bool)
    ensures
        r == requires_only(response@, supported_extension@),
{
    let items = header_items(response, "Require");
    let ghost all = texts(items@);
    proof {
        assert(all.len() == items@.len());
    }
    let mut i: usize = 0;
    while i < items.len()
        invariant
            i <= items@.len(),
            all == texts(items@),
            all == items_of(headers_of(response@, "Require"@)),
            forall|j: int| 0 <= j < i ==> same_folded(#[trigger] all[j], supported_extension@),
        decreases items@.len() - i,
    {
        if !text::same_ignoring_case(items[i].as_str(), supported_extension) {
            assert(all[i as int] == items@[i as int]@);
            return false;
        }
        i += 1;
    }
    items.len() > 0
}

/// The response asks for reliable provisional responses.
pub fn requires_reliable(frame: &[u8]) -> (r: bool)
    ensures
        r == asks_reliable(frame@),
{
    match header_value(frame, "Require") {
        Some(value) => {
            let p = text::split(value.as_str(), ',');
            let ghost all = texts(p@);
            proof {
                assert(all.len() == p@.len());
            }
            let mut i: usize = 0;
            while i < p.len()
                invariant
                    i <= p@.len(),
                    all == texts(p@),
                    all == pieces(value@, ','),
                    header_of(frame@, "Require"@) == Some(value@),
                    forall|j: int| 0 <= j < i ==> trimmed(#[trigger] all[j]) != "100rel"@,
                decreases p@.len() - i,
            {
                if text::same(text::trim(p[i].as_str()).as_str(), "100rel") {
                    assert(trimmed(all[i as int]) == "100rel"@);
                    assert(lists(all, "100rel"@));
                    return true;
                }
                i += 1;
            }
            false
        },
        None => false,
    }
}

/// The sequence number of a reliable provisional response.
pub fn response_rseq(frame: &[u8]) -> (r: Option<u32>)
    ensures
        match r {
            Some(n) => rseq_of(frame@) == Some(n as nat),
            None => rseq_of(frame@) is None,
        },
{
    match header_value(frame, "RSeq") {
        Some(value) => match text::parse_number(text::trim(value.as_str()).as_str(), 0xffff_ffff) {
            Some(n) => Some(n as u32),
            None => None,
        },
        None => None,
    }
}

/// The method that the frame's CSeq names.
pub fn cseq_method(frame: &[u8]) -> (r: Option<String>)
    ensures
        opt(r) == cseq_method_of(frame@),
{
    match header_value(frame, "CSeq") {
        Some(value) => {
            let mut w = text::split_words(value.as_str());
            proof {
                assert(texts(w@).len() == w@.len());
            }
            if w.len() > 1 {
                proof {
                    assert(texts(w@)[1] == w@[1]@);
                }
                Some(w.swap_remove(1))
            } else {
                None
            }
        },
        None => None,
    }
}

/// The number that the frame's CSeq carries.
pub fn cseq_number(frame: &[u8]) -> (r: Option<u32>)
    ensures
        match r {
            Some(n) => cseq_number_of(frame@) == Some(n as nat),
            None => cseq_number_of(frame@) is None,
        },
{
    match header_value(frame, "CSeq") {
        Some(value) => {
            let w = text::split_words(value.as_str());
            proof {
                assert(texts(w@).len() == w@.len());
            }
            if w.len() > 0 {
                proof {
                    assert(texts(w@)[0] == w@[0]@);
                }
                match text::parse_number(w[0].as_str(), 0xffff_ffff) {
                    Some(n) => Some(n as u32),
                    None => None,
                }
            } else {
                None
            }
        },
        None => None,
    }
}

/// The frame's Event header names the refer package.
pub fn names_refer_event(frame: &[u8]) -> (r: bool)
    ensures
        r == is_refer_event(frame@),
{
    match header_value(frame, "Event") {
        Some(value) => {
            let p = text::split(value.as_str(), ';');
            proof {
                text::lemma_pieces_nonempty(value@, ';');
                assert(texts(p@).len() == p@.len());
                assert(texts(p@)[0] == p@[0]@);
            }
            text::same_ignoring_case(text::trim(p[0].as_str()).as_str(), "refer")
        },
        None => false,
    }
}

} // verus!
