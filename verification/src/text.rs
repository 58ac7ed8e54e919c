//! Text as a sequence of characters.
//!
//! Modem replies, SIP headers and override documents are all read as text. The
//! spec functions of this module say what trimming, splitting and number
//! parsing mean; the executable functions are proved against them.

use vstd::prelude::*;
use vstd::string::*;

verus! {

/// The optional text behind an `Option<String>`.
pub open spec fn opt(value: Option<String>) -> Option<Seq<char>> {
    match value {
        Some(text) => Some(text@),
        None => None,
    }
}

/// The pair of texts behind an optional pair of strings.
pub open spec fn opt_pair(value: Option<(String, String)>) -> Option<(Seq<char>, Seq<char>)> {
    match value {
        Some((left, right)) => Some((left@, right@)),
        None => None,
    }
}

/// The texts of a list of strings.
pub open spec fn texts(values: Seq<String>) -> Seq<Seq<char>> {
    Seq::new(values.len(), |i: int| values[i]@)
}

/// A character with the Unicode `White_Space` property.
pub open spec fn is_space(c: char) -> bool {
    ||| '\u{9}' <= c <= '\u{d}'
    ||| c == ' ' || c == '\u{85}' || c == '\u{a0}' || c == '\u{1680}'
    ||| '\u{2000}' <= c <= '\u{200a}'
    ||| c == '\u{2028}' || c == '\u{2029}' || c == '\u{202f}' || c == '\u{205f}' || c == '\u{3000}'
}

/// A character of the Unicode general category `Cc`.
pub open spec fn is_control(c: char) -> bool {
    c <= '\u{1f}' || '\u{7f}' <= c <= '\u{9f}'
}

pub open spec fn is_digit(c: char) -> bool {
    '0' <= c <= '9'
}

pub open spec fn all_digits(s: Seq<char>) -> bool {
    forall|i: int| 0 <= i < s.len() ==> is_digit(#[trigger] s[i])
}

/// ASCII upper case folded to lower case; every other character kept.
pub open spec fn lower_char(c: char) -> char {
    if 'A' <= c <= 'Z' {
        (c as u8 + 32) as char
    } else {
        c
    }
}

pub open spec fn lower(s: Seq<char>) -> Seq<char> {
    Seq::new(s.len(), |i: int| lower_char(s[i]))
}

/// Equal once ASCII case is folded.
pub open spec fn same_folded(a: Seq<char>, b: Seq<char>) -> bool {
    lower(a) == lower(b)
}

pub open spec fn trim_start(s: Seq<char>) -> Seq<char>
    decreases s.len(),
{
    if s.len() > 0 && is_space(s[0]) {
        trim_start(s.drop_first())
    } else {
        s
    }
}

pub open spec fn trim_end(s: Seq<char>) -> Seq<char>
    decreases s.len(),
{
    if s.len() > 0 && is_space(s.last()) {
        trim_end(s.drop_last())
    } else {
        s
    }
}

/// The text without the white space at its two ends.
pub open spec fn trimmed(s: Seq<char>) -> Seq<char> {
    trim_end(trim_start(s))
}

/// The text without the run of `c` at its start.
pub open spec fn strip_start(s: Seq<char>, c: char) -> Seq<char>
    decreases s.len(),
{
    if s.len() > 0 && s[0] == c {
        strip_start(s.drop_first(), c)
    } else {
        s
    }
}

/// The text without the run of `c` at its end.
pub open spec fn strip_end(s: Seq<char>, c: char) -> Seq<char>
    decreases s.len(),
{
    if s.len() > 0 && s.last() == c {
        strip_end(s.drop_last(), c)
    } else {
        s
    }
}

/// The text without the runs of `c` at its two ends.
pub open spec fn unwrapped(s: Seq<char>, c: char) -> Seq<char> {
    strip_end(strip_start(s, c), c)
}

/// Where `c` stands first, or the length of the text.
pub open spec fn index_of(s: Seq<char>, c: char) -> int
    decreases s.len(),
{
    if s.len() == 0 || s[0] == c {
        0
    } else {
        1 + index_of(s.drop_first(), c)
    }
}

/// The pieces between the occurrences of `sep`: one more than there are of it.
pub open spec fn pieces(s: Seq<char>, sep: char) -> Seq<Seq<char>>
    decreases s.len(),
    via pieces_decreases
{
    let i = index_of(s, sep);
    if i < s.len() {
        seq![s.take(i)] + pieces(s.skip(i + 1), sep)
    } else {
        seq![s]
    }
}

#[via_fn]
proof fn pieces_decreases(s: Seq<char>, sep: char) {
    lemma_index_of(s, sep);
}

/// What stands before and after the first `sep`.
pub open spec fn halves(s: Seq<char>, sep: char) -> Option<(Seq<char>, Seq<char>)> {
    let i = index_of(s, sep);
    if i < s.len() {
        Some((s.take(i), s.skip(i + 1)))
    } else {
        None
    }
}

/// A line without the carriage return in front of its line feed.
pub open spec fn without_return(s: Seq<char>) -> Seq<char> {
    if s.len() > 0 && s.last() == '\r' {
        s.drop_last()
    } else {
        s
    }
}

/// The lines of a text: ended by a line feed with or without a carriage return
/// in front of it; nothing follows a line feed at the very end.
pub open spec fn lines_of(s: Seq<char>) -> Seq<Seq<char>>
    decreases s.len(),
    via lines_decreases
{
    let i = index_of(s, '\n');
    if s.len() == 0 {
        Seq::empty()
    } else if i < s.len() {
        seq![without_return(s.take(i))] + lines_of(s.skip(i + 1))
    } else {
        seq![s]
    }
}

#[via_fn]
proof fn lines_decreases(s: Seq<char>) {
    lemma_index_of(s, '\n');
}

/// `part` occurs in `s`.
pub open spec fn has_part(s: Seq<char>, part: Seq<char>) -> bool {
    exists|i: int| #[trigger] part_at(s, part, i)
}

pub open spec fn part_at(s: Seq<char>, part: Seq<char>, i: int) -> bool {
    0 <= i <= s.len() - part.len() && s.subrange(i, i + part.len()) == part
}

/// Where `part` stands first in `s`.
pub open spec fn find_part(s: Seq<char>, part: Seq<char>) -> Option<int>
    decreases s.len(),
{
    if has_prefix(s, part) {
        Some(0)
    } else if s.len() == 0 {
        None
    } else {
        match find_part(s.drop_first(), part) {
            Some(i) => Some(i + 1),
            None => None,
        }
    }
}

/// What follows the first `part` in `s`.
pub open spec fn after_part(s: Seq<char>, part: Seq<char>) -> Option<Seq<char>> {
    match find_part(s, part) {
        Some(i) => Some(s.skip(i + part.len())),
        None => None,
    }
}

pub open spec fn has_prefix(s: Seq<char>, prefix: Seq<char>) -> bool {
    prefix.len() <= s.len() && s.take(prefix.len() as int) == prefix
}

pub open spec fn has_suffix(s: Seq<char>, suffix: Seq<char>) -> bool {
    suffix.len() <= s.len() && s.skip(s.len() - suffix.len()) == suffix
}

/// The rest of the text behind `prefix`, where it begins with it.
pub open spec fn after_prefix(s: Seq<char>, prefix: Seq<char>) -> Option<Seq<char>> {
    if has_prefix(s, prefix) {
        Some(s.skip(prefix.len() as int))
    } else {
        None
    }
}

pub open spec fn digit_char(d: nat) -> char {
    (48 + d) as char
}

/// The decimal digits of a number, without leading zeros.
pub open spec fn decimal(n: nat) -> Seq<char>
    decreases n,
{
    if n < 10 {
        seq![digit_char(n)]
    } else {
        decimal(n / 10).push(digit_char(n % 10))
    }
}

/// The number that a run of decimal digits writes.
pub open spec fn decimal_value(s: Seq<char>) -> nat
    decreases s.len(),
{
    if s.len() == 0 {
        0
    } else {
        decimal_value(s.drop_last()) * 10 + (s.last() as nat - 48) as nat
    }
}

/// An unsigned decimal number of at most `max`: digits with an optional `+` in front.
pub open spec fn number(s: Seq<char>, max: nat) -> Option<nat> {
    let digits = if s.len() > 0 && s[0] == '+' {
        s.drop_first()
    } else {
        s
    };
    if digits.len() > 0 && all_digits(digits) && decimal_value(digits) <= max {
        Some(decimal_value(digits))
    } else {
        None
    }
}

/// The maximal runs of characters that are not white space.
pub open spec fn words(s: Seq<char>) -> Seq<Seq<char>>
    decreases s.len(),
    via words_decreases
{
    let rest = trim_start(s);
    if rest.len() == 0 {
        Seq::empty()
    } else {
        let n = word_len(rest);
        seq![rest.take(n)] + words(rest.skip(n))
    }
}

/// The length of the run of characters that are not white space at the start.
pub open spec fn word_len(s: Seq<char>) -> int
    decreases s.len(),
{
    if s.len() == 0 || is_space(s[0]) {
        0
    } else {
        1 + word_len(s.drop_first())
    }
}

#[via_fn]
proof fn words_decreases(s: Seq<char>) {
    lemma_trim_start_len(s);
    lemma_word_len(trim_start(s));
}

pub proof fn lemma_word_len(s: Seq<char>)
    ensures
        0 <= word_len(s) <= s.len(),
        s.len() > 0 && !is_space(s[0]) ==> word_len(s) > 0,
        word_len(s) < s.len() ==> is_space(s[word_len(s)]),
    decreases s.len(),
{
    if s.len() > 0 && !is_space(s[0]) {
        lemma_word_len(s.drop_first());
    }
}

pub proof fn lemma_trim_start_len(s: Seq<char>)
    ensures
        trim_start(s).len() <= s.len(),
        trim_start(s) == s.skip(s.len() - trim_start(s).len()),
        trim_start(s).len() > 0 ==> !is_space(trim_start(s)[0]),
    decreases s.len(),
{
    if s.len() > 0 && is_space(s[0]) {
        lemma_trim_start_len(s.drop_first());
        let rest = trim_start(s.drop_first());
        assert(s.drop_first().skip(s.drop_first().len() - rest.len()) =~= s.skip(
            s.len() - rest.len(),
        ));
    } else {
        assert(s.skip(0) =~= s);
    }
}

pub proof fn lemma_trim_end_len(s: Seq<char>)
    ensures
        trim_end(s).len() <= s.len(),
        trim_end(s) == s.take(trim_end(s).len() as int),
        trim_end(s).len() > 0 ==> !is_space(trim_end(s).last()),
    decreases s.len(),
{
    if s.len() > 0 && is_space(s.last()) {
        lemma_trim_end_len(s.drop_last());
        let rest = trim_end(s.drop_last());
        assert(s.drop_last().take(rest.len() as int) =~= s.take(rest.len() as int));
    } else {
        assert(s.take(s.len() as int) =~= s);
    }
}

pub proof fn lemma_index_of(s: Seq<char>, c: char)
    ensures
        0 <= index_of(s, c) <= s.len(),
        index_of(s, c) < s.len() ==> s[index_of(s, c)] == c,
        forall|i: int| 0 <= i < index_of(s, c) ==> s[i] != c,
    decreases s.len(),
{
    if s.len() > 0 && s[0] != c {
        lemma_index_of(s.drop_first(), c);
        assert forall|i: int| 0 <= i < index_of(s, c) implies s[i] != c by {
            if i > 0 {
                assert(s.drop_first()[i - 1] == s[i]);
            }
        }
    }
}

/// Concatenation is associative.
pub proof fn lemma_concat<T>(a: Seq<T>, b: Seq<T>, c: Seq<T>)
    ensures
        (a + b) + c == a + (b + c),
{
    assert((a + b) + c =~= a + (b + c));
}

/// A text without `sep` is its only piece.
pub proof fn lemma_no_separator(a: Seq<char>, sep: char)
    requires
        forall|i: int| 0 <= i < a.len() ==> a[i] != sep,
    ensures
        index_of(a, sep) == a.len(),
        pieces(a, sep) == seq![a],
    decreases a.len(),
{
    if a.len() > 0 {
        lemma_no_separator(a.drop_first(), sep);
    }
}

proof fn lemma_first_separator(a: Seq<char>, sep: char, rest: Seq<char>)
    requires
        forall|i: int| 0 <= i < a.len() ==> a[i] != sep,
    ensures
        index_of(a + seq![sep] + rest, sep) == a.len(),
    decreases a.len(),
{
    let s = a + seq![sep] + rest;
    if a.len() > 0 {
        lemma_first_separator(a.drop_first(), sep, rest);
        assert(s.drop_first() =~= a.drop_first() + seq![sep] + rest);
    }
}

/// A text whose first piece is `a`.
pub proof fn lemma_first_piece(a: Seq<char>, sep: char, rest: Seq<char>)
    requires
        forall|i: int| 0 <= i < a.len() ==> a[i] != sep,
    ensures
        pieces(a + seq![sep] + rest, sep) == seq![a] + pieces(rest, sep),
        halves(a + seq![sep] + rest, sep) == Some((a, rest)),
{
    let s = a + seq![sep] + rest;
    lemma_first_separator(a, sep, rest);
    assert(s.take(a.len() as int) =~= a);
    assert(s.skip(a.len() as int + 1) =~= rest);
}

/// Splitting always yields a piece.
pub proof fn lemma_pieces_nonempty(s: Seq<char>, sep: char)
    ensures
        pieces(s, sep).len() > 0,
{
}

/// A text that neither begins nor ends with white space is trimmed.
pub proof fn lemma_bare(s: Seq<char>)
    requires
        s.len() > 0,
        !is_space(s[0]),
        !is_space(s.last()),
    ensures
        trimmed(s) == s,
{
    assert(trim_start(s) == s);
}

proof fn lemma_word_run(w: Seq<char>, tail: Seq<char>)
    requires
        forall|i: int| 0 <= i < w.len() ==> !is_space(#[trigger] w[i]),
        tail.len() == 0 || is_space(tail[0]),
    ensures
        word_len(w + tail) == w.len(),
    decreases w.len(),
{
    if w.len() > 0 {
        let d = w.drop_first();
        assert((w + tail).drop_first() =~= d + tail);
        assert((w + tail)[0] == w[0]);
        assert forall|i: int| 0 <= i < d.len() implies !is_space(#[trigger] d[i]) by {
            assert(d[i] == w[i + 1]);
        }
        lemma_word_run(d, tail);
    } else {
        assert(w + tail =~= tail);
    }
}

/// A text whose first word is `w`.
pub proof fn lemma_first_word(w: Seq<char>, tail: Seq<char>)
    requires
        w.len() > 0,
        forall|i: int| 0 <= i < w.len() ==> !is_space(#[trigger] w[i]),
        tail.len() == 0 || is_space(tail[0]),
    ensures
        words(w + tail) == seq![w] + words(tail),
{
    let s = w + tail;
    assert(s[0] == w[0] && !is_space(w[0]));
    assert(trim_start(s) == s);
    lemma_word_run(w, tail);
    assert(s.take(w.len() as int) =~= w);
    assert(s.skip(w.len() as int) =~= tail);
}

/// A space in front adds no word.
pub proof fn lemma_space_in_front(s: Seq<char>)
    ensures
        words(seq![' '] + s) == words(s),
{
    let t = seq![' '] + s;
    assert(t.drop_first() =~= s);
    assert(trim_start(t) == trim_start(s));
}

/// A text without words.
pub proof fn lemma_no_words()
    ensures
        words(Seq::empty()) == Seq::<Seq<char>>::empty(),
{
}

/// Trimming a text that is already trimmed changes nothing.
pub proof fn lemma_trimmed_again(s: Seq<char>)
    ensures
        trimmed(trimmed(s)) == trimmed(s),
{
    let a = trim_start(s);
    let b = trim_end(a);
    lemma_trim_start_len(s);
    lemma_trim_end_len(a);
    if b.len() > 0 {
        assert(b[0] == a[0]);
    }
    assert(trim_start(b) == b);
    assert(trim_end(b) == b);
}

/// The characters of a string.
pub fn chars(s: &str) -> (v: Vec<char>)
    ensures
        v@ == s@,
{
    let mut v: Vec<char> = Vec::new();
    for c in it: s.chars()
        invariant
            v@ == s@.take(it.index() as int),
            it.seq() == s@,
    {
        proof {
            assert(s@.take(it.index() as int + 1) =~= s@.take(it.index() as int).push(c));
        }
        v.push(c);
    }
    proof {
        assert(s@.take(s@.len() as int) =~= s@);
    }
    v
}

/// `String::push`: appends one character at the end.
#[verifier::external_body]
fn push_char(s: &mut String, c: char)
    ensures
        final(s)@ == old(s)@.push(c),
{
    s.push(c)
}

/// The string made of the given characters.
pub fn string(c: &[char]) -> (s: String)
    ensures
        s@ == c@,
{
    let mut s = String::new();
    let mut i: usize = 0;
    while i < c.len()
        invariant
            i <= c.len(),
            s@ == c@.take(i as int),
        decreases c.len() - i,
    {
        push_char(&mut s, c[i]);
        proof {
            assert(c@.take(i as int + 1) =~= c@.take(i as int).push(c@[i as int]));
        }
        i += 1;
    }
    proof {
        assert(c@.take(c@.len() as int) =~= c@);
    }
    s
}

/// The characters from `from` up to `to` as a string.
pub fn part(c: &[char], from: usize, to: usize) -> (s: String)
    requires
        from <= to <= c@.len(),
    ensures
        s@ == c@.subrange(from as int, to as int),
{
    string(vstd::slice::slice_subrange(c, from, to))
}

pub fn same(a: &str, b: &str) -> (r: bool)
    ensures
        r == (a@ == b@),
{
    a.to_owned() == b.to_owned()
}

pub fn char_is_space(c: char) -> (r: bool)
    ensures
        r == is_space(c),
{
    ('\u{9}' <= c && c <= '\u{d}') || c == ' ' || c == '\u{85}' || c == '\u{a0}' || c == '\u{1680}'
        || ('\u{2000}' <= c && c <= '\u{200a}') || c == '\u{2028}' || c == '\u{2029}'
        || c == '\u{202f}' || c == '\u{205f}' || c == '\u{3000}'
}

pub fn char_is_digit(c: char) -> (r: bool)
    ensures
        r == is_digit(c),
{
    '0' <= c && c <= '9'
}

pub fn lower_case_char(c: char) -> (r: char)
    ensures
        r == lower_char(c),
{
    if 'A' <= c && c <= 'Z' {
        (c as u8 + 32) as char
    } else {
        c
    }
}

/// `s` with ASCII upper case folded.
pub fn lower_case(s: &str) -> (r: String)
    ensures
        r@ == lower(s@),
{
    let c = chars(s);
    let mut out: Vec<char> = Vec::new();
    let mut i: usize = 0;
    while i < c.len()
        invariant
            i <= c.len(),
            out@ == lower(c@).take(i as int),
        decreases c.len() - i,
    {
        out.push(lower_case_char(c[i]));
        i += 1;
        proof {
            assert(lower(c@).take(i as int) =~= lower(c@).take(i as int - 1).push(
                lower(c@)[i as int - 1],
            ));
        }
    }
    proof {
        assert(lower(c@).take(c@.len() as int) =~= lower(c@));
    }
    string(out.as_slice())
}

pub fn same_ignoring_case(a: &str, b: &str) -> (r: bool)
    ensures
        r == same_folded(a@, b@),
{
    lower_case(a) == lower_case(b)
}

/// Every character of `s` is a decimal digit.
pub fn only_digits(s: &str) -> (r: bool)
    ensures
        r == all_digits(s@),
{
    let c = chars(s);
    let mut i: usize = 0;
    while i < c.len()
        invariant
            i <= c.len(),
            c@ == s@,
            all_digits(c@.take(i as int)),
        decreases c.len() - i,
    {
        if !char_is_digit(c[i]) {
            assert(!is_digit(s@[i as int]));
            return false;
        }
        i += 1;
        proof {
            assert forall|j: int| 0 <= j < i implies is_digit(#[trigger] c@.take(i as int)[j]) by {
                if j < i - 1 {
                    assert(c@.take(i as int - 1)[j] == c@[j]);
                }
            }
        }
    }
    proof {
        assert(c@.take(c@.len() as int) =~= c@);
    }
    true
}

/// `s` without the white space at its two ends.
pub fn trim(s: &str) -> (r: String)
    ensures
        r@ == trimmed(s@),
{
    let c = chars(s);
    let mut from: usize = 0;
    proof {
        assert(c@.skip(0) =~= c@);
    }
    while from < c.len() && char_is_space(c[from])
        invariant
            from <= c.len(),
            trim_start(c@) == trim_start(c@.skip(from as int)),
        decreases c.len() - from,
    {
        proof {
            assert(c@.skip(from as int).drop_first() =~= c@.skip(from as int + 1));
        }
        from += 1;
    }
    let ghost rest = c@.skip(from as int);
    assert(trim_start(c@) == rest);
    proof {
        assert(c@.subrange(from as int, c@.len() as int) =~= rest);
    }
    let mut to: usize = c.len();
    while to > from && char_is_space(c[to - 1])
        invariant
            from <= to <= c.len(),
            rest == c@.skip(from as int),
            trim_end(rest) == trim_end(c@.subrange(from as int, to as int)),
        decreases to,
    {
        proof {
            assert(c@.subrange(from as int, to as int).drop_last() =~= c@.subrange(
                from as int,
                to as int - 1,
            ));
            assert(c@.subrange(from as int, to as int).last() == c@[to as int - 1]);
        }
        to -= 1;
    }
    proof {
        let left = c@.subrange(from as int, to as int);
        if left.len() > 0 {
            assert(left.last() == c@[to as int - 1]);
        }
        assert(trim_end(left) == left);
    }
    part(c.as_slice(), from, to)
}

/// `s` without the runs of `ch` at its two ends.
pub fn trim_matches(s: &str, ch: char) -> (r: String)
    ensures
        r@ == unwrapped(s@, ch),
{
    let c = chars(s);
    let mut from: usize = 0;
    proof {
        assert(c@.skip(0) =~= c@);
    }
    while from < c.len() && c[from] == ch
        invariant
            from <= c.len(),
            strip_start(c@, ch) == strip_start(c@.skip(from as int), ch),
        decreases c.len() - from,
    {
        proof {
            assert(c@.skip(from as int).drop_first() =~= c@.skip(from as int + 1));
        }
        from += 1;
    }
    let ghost rest = c@.skip(from as int);
    assert(strip_start(c@, ch) == rest);
    proof {
        assert(c@.subrange(from as int, c@.len() as int) =~= rest);
    }
    let mut to: usize = c.len();
    while to > from && c[to - 1] == ch
        invariant
            from <= to <= c.len(),
            rest == c@.skip(from as int),
            strip_end(rest, ch) == strip_end(c@.subrange(from as int, to as int), ch),
        decreases to,
    {
        proof {
            assert(c@.subrange(from as int, to as int).drop_last() =~= c@.subrange(
                from as int,
                to as int - 1,
            ));
            assert(c@.subrange(from as int, to as int).last() == c@[to as int - 1]);
        }
        to -= 1;
    }
    proof {
        let left = c@.subrange(from as int, to as int);
        if left.len() > 0 {
            assert(left.last() == c@[to as int - 1]);
        }
        assert(strip_end(left, ch) == left);
    }
    part(c.as_slice(), from, to)
}

/// Where `ch` stands first at or behind `from`, or the length.
fn find_from(c: &[char], from: usize, ch: char) -> (r: usize)
    requires
        from <= c@.len(),
    ensures
        r == from + index_of(c@.skip(from as int), ch),
        from <= r <= c@.len(),
{
    let mut i: usize = from;
    while i < c.len() && c[i] != ch
        invariant
            from <= i <= c@.len(),
            index_of(c@.skip(from as int), ch) == i - from + index_of(c@.skip(i as int), ch),
        decreases c@.len() - i,
    {
        proof {
            assert(c@.skip(i as int).drop_first() =~= c@.skip(i as int + 1));
            assert(c@.skip(i as int)[0] == c@[i as int]);
        }
        i += 1;
    }
    proof {
        if i < c@.len() {
            assert(c@.skip(i as int)[0] == c@[i as int]);
        }
    }
    i
}

/// The pieces of `s` between the occurrences of `sep`.
pub fn split(s: &str, sep: char) -> (r: Vec<String>)
    ensures
        texts(r@) == pieces(s@, sep),
{
    let c = chars(s);
    let mut out: Vec<String> = Vec::new();
    let mut from: usize = 0;
    proof {
        assert(c@.skip(0) =~= c@);
        assert(texts(out@) + pieces(c@.skip(0), sep) =~= pieces(c@, sep));
    }
    loop
        invariant
            from <= c@.len(),
            c@ == s@,
            texts(out@) + pieces(c@.skip(from as int), sep) == pieces(s@, sep),
        decreases c@.len() - from,
    {
        let at = find_from(c.as_slice(), from, sep);
        let ghost rest = c@.skip(from as int);
        let ghost before = texts(out@);
        let piece = part(c.as_slice(), from, at);
        out.push(piece);
        proof {
            assert(texts(out@) =~= before.push(piece@));
            assert(piece@ =~= rest.take(at - from));
        }
        if at < c.len() {
            proof {
                assert(rest.skip(at - from + 1) =~= c@.skip(at as int + 1));
                assert(before + (seq![piece@] + pieces(c@.skip(at as int + 1), sep)) =~= before.push(
                    piece@,
                ) + pieces(c@.skip(at as int + 1), sep));
            }
            from = at + 1;
        } else {
            proof {
                assert(rest.take(at - from) =~= rest);
                assert(before + seq![rest] =~= before.push(rest));
            }
            return out;
        }
    }
}

/// What stands before and after the first `sep`.
pub fn split_once(s: &str, sep: char) -> (r: Option<(String, String)>)
    ensures
        opt_pair(r) == halves(s@, sep),
{
    let c = chars(s);
    let at = find_from(c.as_slice(), 0, sep);
    proof {
        assert(c@.skip(0) =~= c@);
    }
    if at < c.len() {
        let left = part(c.as_slice(), 0, at);
        let right = part(c.as_slice(), at + 1, c.len());
        proof {
            assert(left@ =~= s@.take(at as int));
            assert(right@ =~= s@.skip(at as int + 1));
        }
        Some((left, right))
    } else {
        None
    }
}

/// The lines of `s`.
pub fn lines(s: &str) -> (r: Vec<String>)
    ensures
        texts(r@) == lines_of(s@),
{
    let c = chars(s);
    let mut out: Vec<String> = Vec::new();
    let mut from: usize = 0;
    proof {
        assert(c@.skip(0) =~= c@);
        assert(texts(out@) + lines_of(c@) =~= lines_of(c@));
    }
    while from < c.len()
        invariant
            from <= c@.len(),
            c@ == s@,
            texts(out@) + lines_of(c@.skip(from as int)) == lines_of(s@),
        decreases c@.len() - from,
    {
        let at = find_from(c.as_slice(), from, '\n');
        let ghost rest = c@.skip(from as int);
        let ghost before = texts(out@);
        if at < c.len() {
            let end: usize = if at > from && c[at - 1] == '\r' {
                at - 1
            } else {
                at
            };
            let line = part(c.as_slice(), from, end);
            out.push(line);
            proof {
                assert(texts(out@) =~= before.push(line@));
                assert(line@ =~= without_return(rest.take(at - from)));
                assert(rest.skip(at - from + 1) =~= c@.skip(at as int + 1));
                assert(before + (seq![line@] + lines_of(c@.skip(at as int + 1))) =~= before.push(
                    line@,
                ) + lines_of(c@.skip(at as int + 1)));
            }
            from = at + 1;
        } else {
            let line = part(c.as_slice(), from, c.len());
            out.push(line);
            proof {
                assert(texts(out@) =~= before.push(line@));
                assert(line@ =~= rest);
                assert(before + seq![rest] =~= before.push(rest));
                assert(c@.skip(c@.len() as int) =~= Seq::<char>::empty());
                assert(texts(out@) + lines_of(Seq::<char>::empty()) =~= texts(out@));
            }
            from = c.len();
        }
    }
    proof {
        assert(c@.skip(c@.len() as int) =~= Seq::<char>::empty());
        assert(texts(out@) + lines_of(Seq::<char>::empty()) =~= texts(out@));
    }
    out
}

/// The words of `s`: its maximal runs without white space.
pub fn split_words(s: &str) -> (r: Vec<String>)
    ensures
        texts(r@) == words(s@),
{
    let c = chars(s);
    let mut out: Vec<String> = Vec::new();
    let mut from: usize = 0;
    proof {
        assert(c@.skip(0) =~= c@);
        assert(texts(out@) + words(c@) =~= words(c@));
    }
    loop
        invariant
            from <= c@.len(),
            c@ == s@,
            texts(out@) + words(c@.skip(from as int)) == words(s@),
        decreases c@.len() - from,
    {
        let ghost start = c@.skip(from as int);
        let mut at: usize = from;
        while at < c.len() && char_is_space(c[at])
            invariant
                from <= at <= c@.len(),
                start == c@.skip(from as int),
                trim_start(start) == trim_start(c@.skip(at as int)),
            decreases c@.len() - at,
        {
            proof {
                assert(c@.skip(at as int).drop_first() =~= c@.skip(at as int + 1));
                assert(c@.skip(at as int)[0] == c@[at as int]);
            }
            at += 1;
        }
        let ghost rest = c@.skip(at as int);
        proof {
            if at < c@.len() {
                assert(rest[0] == c@[at as int]);
            }
            assert(trim_start(start) == rest);
        }
        if at >= c.len() {
            proof {
                assert(texts(out@) + Seq::<Seq<char>>::empty() =~= texts(out@));
            }
            return out;
        }
        let mut end: usize = at;
        while end < c.len() && !char_is_space(c[end])
            invariant
                at <= end <= c@.len(),
                rest == c@.skip(at as int),
                word_len(rest) == end - at + word_len(c@.skip(end as int)),
            decreases c@.len() - end,
        {
            proof {
                assert(c@.skip(end as int).drop_first() =~= c@.skip(end as int + 1));
                assert(c@.skip(end as int)[0] == c@[end as int]);
            }
            end += 1;
        }
        proof {
            if end < c@.len() {
                assert(c@.skip(end as int)[0] == c@[end as int]);
            }
            assert(word_len(rest) == end - at);
            lemma_word_len(rest);
        }
        let ghost before = texts(out@);
        let word = part(c.as_slice(), at, end);
        out.push(word);
        proof {
            assert(texts(out@) =~= before.push(word@));
            assert(word@ =~= rest.take(end - at));
            assert(rest.skip(end - at) =~= c@.skip(end as int));
            assert(before + (seq![word@] + words(c@.skip(end as int))) =~= before.push(word@)
                + words(c@.skip(end as int)));
        }
        from = end;
    }
}

/// `p` stands in `c` at `at`.
fn stands_at(c: &[char], p: &[char], at: usize) -> (r: bool)
    requires
        at + p@.len() <= c@.len(),
    ensures
        r == (c@.subrange(at as int, at + p@.len()) == p@),
{
    let n = c.len();
    let mut i: usize = 0;
    while i < p.len()
        invariant
            i <= p@.len(),
            n == c@.len(),
            at + p@.len() <= c@.len(),
            forall|j: int| 0 <= j < i ==> c@[at + j] == p@[j],
        decreases p@.len() - i,
    {
        if c[at + i] != p[i] {
            assert(c@.subrange(at as int, at + p@.len())[i as int] != p@[i as int]);
            return false;
        }
        i += 1;
    }
    proof {
        assert(c@.subrange(at as int, at + p@.len()) =~= p@);
    }
    true
}

/// `wanted` occurs in `s`.
pub fn contains(s: &str, wanted: &str) -> (r: bool)
    ensures
        r == has_part(s@, wanted@),
{
    let c = chars(s);
    let p = chars(wanted);
    if p.len() > c.len() {
        return false;
    }
    let mut at: usize = 0;
    while at <= c.len() - p.len()
        invariant
            p@.len() <= c@.len(),
            at <= c@.len() - p@.len() + 1,
            c@ == s@,
            p@ == wanted@,
            forall|j: int| 0 <= j < at ==> !part_at(s@, wanted@, j),
        decreases c@.len() - at,
    {
        if stands_at(c.as_slice(), p.as_slice(), at) {
            assert(part_at(s@, wanted@, at as int));
            return true;
        }
        if at == c.len() {
            assert(p@.len() == 0);
            return false;
        }
        at += 1;
    }
    false
}

/// Where `wanted` stands first in `c`.
pub fn position_of(c: &[char], wanted: &[char]) -> (r: Option<usize>)
    ensures
        match r {
            Some(i) => find_part(c@, wanted@) == Some(i as int) && i + wanted@.len() <= c@.len(),
            None => find_part(c@, wanted@) is None,
        },
{
    let n = c.len();
    let mut i: usize = 0;
    proof {
        assert(c@.skip(0) =~= c@);
    }
    while i <= n
        invariant
            n == c@.len(),
            i <= n,
            find_part(c@, wanted@) == (match find_part(c@.skip(i as int), wanted@) {
                Some(k) => Some(k + i),
                None => None,
            }),
        decreases n - i,
    {
        let ghost rest = c@.skip(i as int);
        if wanted.len() <= n - i {
            proof {
                assert(c@.subrange(i as int, i + wanted@.len()) =~= rest.take(wanted@.len() as int));
            }
            if stands_at(c, wanted, i) {
                return Some(i);
            }
        }
        if i == n {
            return None;
        }
        proof {
            assert(rest.drop_first() =~= c@.skip(i as int + 1));
        }
        i += 1;
    }
    None
}

/// What follows the first `wanted` in `s`.
pub fn split_after(s: &str, wanted: &str) -> (r: Option<String>)
    ensures
        opt(r) == after_part(s@, wanted@),
{
    let c = chars(s);
    let p = chars(wanted);
    match position_of(c.as_slice(), p.as_slice()) {
        Some(i) => {
            let n = c.len();
            let rest = part(c.as_slice(), i + p.len(), n);
            proof {
                assert(rest@ =~= s@.skip(i as int + wanted@.len()));
            }
            Some(rest)
        },
        None => None,
    }
}

pub fn starts_with(s: &str, prefix: &str) -> (r: bool)
    ensures
        r == has_prefix(s@, prefix@),
{
    let c = chars(s);
    let p = chars(prefix);
    if p.len() > c.len() {
        return false;
    }
    proof {
        assert(c@.subrange(0, p@.len() as int) =~= c@.take(p@.len() as int));
    }
    stands_at(c.as_slice(), p.as_slice(), 0)
}

pub fn ends_with(s: &str, suffix: &str) -> (r: bool)
    ensures
        r == has_suffix(s@, suffix@),
{
    let c = chars(s);
    let p = chars(suffix);
    if p.len() > c.len() {
        return false;
    }
    let at = c.len() - p.len();
    proof {
        assert(c@.subrange(at as int, at + p@.len()) =~= c@.skip(at as int));
    }
    stands_at(c.as_slice(), p.as_slice(), at)
}

/// The rest of `s` behind `prefix`, where it begins with it.
pub fn strip_prefix(s: &str, prefix: &str) -> (r: Option<String>)
    ensures
        opt(r) == after_prefix(s@, prefix@),
{
    if starts_with(s, prefix) {
        let c = chars(s);
        let n = chars(prefix).len();
        let rest = part(c.as_slice(), n, c.len());
        proof {
            assert(rest@ =~= s@.skip(prefix@.len() as int));
        }
        Some(rest)
    } else {
        None
    }
}

pub proof fn lemma_decimal_value_grows(s: Seq<char>, n: int)
    requires
        0 <= n <= s.len(),
    ensures
        decimal_value(s.take(n)) <= decimal_value(s),
    decreases s.len(),
{
    if n < s.len() {
        lemma_decimal_value_grows(s.drop_last(), n);
        assert(s.drop_last().take(n) =~= s.take(n));
        assert(decimal_value(s.drop_last()) <= decimal_value(s)) by (nonlinear_arith)
            requires
                decimal_value(s) == decimal_value(s.drop_last()) * 10 + (s.last() as nat
                    - 48) as nat,
        ;
    } else {
        assert(s.take(n) =~= s);
    }
}

/// The number that `s` writes, where it writes one of at most `max`.
pub fn parse_number(s: &str, max: u64) -> (r: Option<u64>)
    ensures
        match r {
            Some(n) => number(s@, max as nat) == Some(n as nat),
            None => number(s@, max as nat) is None,
        },
{
    let c = chars(s);
    let from: usize = if c.len() > 0 && c[0] == '+' {
        1
    } else {
        0
    };
    let ghost digits = if s@.len() > 0 && s@[0] == '+' {
        s@.drop_first()
    } else {
        s@
    };
    proof {
        assert(c@.skip(from as int) =~= digits);
    }
    if c.len() == from {
        return None;
    }
    let mut value: u64 = 0;
    let mut i: usize = from;
    while i < c.len()
        invariant
            from <= i <= c@.len(),
            from <= 1,
            digits == c@.skip(from as int),
            all_digits(digits.take(i - from)),
            value == decimal_value(digits.take(i - from)),
            value <= max,
            digits.len() > 0,
            digits == (if s@.len() > 0 && s@[0] == '+' {
                s@.drop_first()
            } else {
                s@
            }),
        decreases c@.len() - i,
    {
        let ch = c[i];
        proof {
            assert(digits[i - from] == ch);
        }
        if !char_is_digit(ch) {
            assert(!all_digits(digits));
            return None;
        }
        let d: u64 = (ch as u32 - 48) as u64;
        proof {
            let next = digits.take(i - from + 1);
            assert(next.drop_last() =~= digits.take(i - from));
            assert(next.last() == ch);
            assert(decimal_value(next) == value * 10 + d);
            lemma_decimal_value_grows(digits, i - from + 1);
            assert forall|j: int| 0 <= j < next.len() implies is_digit(#[trigger] next[j]) by {
                if j < i - from {
                    assert(digits.take(i - from)[j] == next[j]);
                }
            }
        }
        if d > max || value > (max - d) / 10 {
            assert(value * 10 + d > max);
            return None;
        }
        value = value * 10 + d;
        i += 1;
    }
    proof {
        assert(digits.take(digits.len() as int) =~= digits);
    }
    Some(value)
}

/// `n` in decimal digits.
pub fn decimal_string(n: u64) -> (s: String)
    ensures
        s@ == decimal(n as nat),
    decreases n,
{
    let d: u8 = (48 + n % 10) as u8;
    if n < 10 {
        let mut s = String::new();
        push_char(&mut s, d as char);
        proof {
            assert(s@ =~= seq![digit_char(n as nat)]);
        }
        s
    } else {
        let mut s = decimal_string(n / 10);
        push_char(&mut s, d as char);
        s
    }
}

pub proof fn lemma_decimal_digits(n: nat)
    ensures
        all_digits(decimal(n)),
        decimal(n).len() > 0,
        decimal_value(decimal(n)) == n,
    decreases n,
{
    if n >= 10 {
        lemma_decimal_digits(n / 10);
        let d = decimal(n);
        assert(d.drop_last() =~= decimal(n / 10));
    } else {
        let d = seq![digit_char(n)];
        assert(d.drop_last() =~= Seq::<char>::empty());
        assert(decimal_value(Seq::<char>::empty()) == 0);
        assert(d.last() == digit_char(n));
    }
}

/// A number written in decimal is read back as itself.
pub proof fn number_reads_decimal(n: nat, max: nat)
    requires
        n <= max,
    ensures
        number(decimal(n), max) == Some(n),
{
    lemma_decimal_digits(n);
    assert(is_digit(decimal(n)[0]));
}

} // verus!
