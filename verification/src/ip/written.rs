//! Addresses as they are written are read back as themselves.

use vstd::prelude::*;
use vstd::string::*;

use crate::ip::{
    address_of, double_colon, double_colon_at, group_list, groups_value, hex_char, hex_digit,
    hex_group, hex_text, hex_value, ipv4_of, ipv4_text, ipv6_groups, ipv6_text, is_hex,
    joined_groups, longest_zero_run, octet, side, split_groups, zero_run, zeros, IpAddr,
};
use crate::text;
use crate::text::{decimal, is_digit, pieces};

verus! {

// ---------------------------------------------------------------------------
// Dotted quads.

proof fn lemma_octet(n: nat)
    requires
        n <= 255,
    ensures
        octet(decimal(n)) == Some(n),
        forall|i: int| 0 <= i < decimal(n).len() ==> is_digit(#[trigger] decimal(n)[i]),
        decimal(n).len() > 0,
{
    let d = decimal(n);
    text::lemma_decimal_digits(n);
    if n >= 10 {
        let tens = decimal(n / 10);
        assert(d == tens.push(text::digit_char(n % 10)));
        if n >= 100 {
            let hundreds = decimal(n / 10 / 10);
            assert(tens == hundreds.push(text::digit_char(n / 10 % 10)));
            assert(n / 10 / 10 < 10);
            assert(hundreds == seq![text::digit_char(n / 10 / 10)]);
            assert(d[0] == text::digit_char(n / 10 / 10));
        } else {
            assert(tens == seq![text::digit_char(n / 10)]);
            assert(d[0] == text::digit_char(n / 10));
        }
    } else {
        assert(d == seq![text::digit_char(n)]);
    }
}

proof fn lemma_quad_value(v: nat)
    requires
        v < 0x1_0000_0000,
    ensures
        v / 16777216 <= 255,
        v / 65536 % 256 <= 255,
        v / 256 % 256 <= 255,
        v % 256 <= 255,
        (v / 16777216) * 16777216 + (v / 65536 % 256) * 65536 + (v / 256 % 256) * 256 + v % 256
            == v,
{
}

/// A dotted quad that was written is read back, and holds digits and dots alone.
proof fn lemma_quad(v: nat)
    requires
        v < 0x1_0000_0000,
    ensures
        ipv4_of(ipv4_text(v)) == Some(v),
        ipv4_text(v).len() > 0,
        forall|i: int|
            0 <= i < ipv4_text(v).len() ==> is_digit(#[trigger] ipv4_text(v)[i]) || ipv4_text(v)[i]
                == '.',
{
    let a = decimal(v / 16777216);
    let b = decimal(v / 65536 % 256);
    let c = decimal(v / 256 % 256);
    let d = decimal(v % 256);
    lemma_quad_value(v);
    lemma_octet(v / 16777216);
    lemma_octet(v / 65536 % 256);
    lemma_octet(v / 256 % 256);
    lemma_octet(v % 256);
    reveal_strlit(".");
    assert("."@ =~= seq!['.']);
    let s = ipv4_text(v);
    assert(s =~= a + seq!['.'] + (b + seq!['.'] + (c + seq!['.'] + d)));
    text::lemma_first_piece(a, '.', b + seq!['.'] + (c + seq!['.'] + d));
    text::lemma_first_piece(b, '.', c + seq!['.'] + d);
    text::lemma_first_piece(c, '.', d);
    text::lemma_no_separator(d, '.');
    let p = pieces(s, '.');
    assert(p =~= seq![a, b, c, d]);
    assert forall|i: int| 0 <= i < s.len() implies is_digit(#[trigger] s[i]) || s[i] == '.' by {
        let la = a.len() as int;
        let lb = b.len() as int;
        let lc = c.len() as int;
        if i < la {
            assert(s[i] == a[i]);
        } else if i == la {
        } else if i < la + 1 + lb {
            assert(s[i] == b[i - la - 1]);
        } else if i == la + 1 + lb {
        } else if i < la + lb + lc + 2 {
            assert(s[i] == c[i - la - lb - 2]);
        } else if i == la + lb + lc + 2 {
        } else {
            assert(s[i] == d[i - la - lb - lc - 3]);
        }
    }
}

/// A piece holds each character that is no separator.
proof fn lemma_in_a_piece(s: Seq<char>, i: int)
    requires
        0 <= i < s.len(),
        s[i] != '.',
    ensures
        exists|k: int|
            0 <= k < pieces(s, '.').len() && (#[trigger] pieces(s, '.')[k]).contains(s[i]),
    decreases s.len(),
{
    let at = text::index_of(s, '.');
    text::lemma_index_of(s, '.');
    let p = pieces(s, '.');
    if at < s.len() {
        let rest = s.skip(at + 1);
        assert(p == seq![s.take(at)] + pieces(rest, '.'));
        if i < at {
            assert(s.take(at)[i] == s[i]);
            assert(p[0].contains(s[i]));
        } else {
            assert(i != at);
            lemma_in_a_piece(rest, i - at - 1);
            assert(rest[i - at - 1] == s[i]);
            let k = choose|k: int|
                0 <= k < pieces(rest, '.').len() && (#[trigger] pieces(rest, '.')[k]).contains(
                    s[i],
                );
            assert(p[k + 1] == pieces(rest, '.')[k]);
        }
    } else {
        assert(p[0] == s);
        assert(p[0].contains(s[i]));
    }
}

/// A text with a colon is no dotted quad.
proof fn lemma_colon_is_no_quad(s: Seq<char>, i: int)
    requires
        0 <= i < s.len(),
        s[i] == ':',
    ensures
        ipv4_of(s) is None,
{
    lemma_in_a_piece(s, i);
    let p = pieces(s, '.');
    let k = choose|k: int| 0 <= k < p.len() && (#[trigger] p[k]).contains(s[i]);
    let j = p[k].index_of(':');
    assert(p[k][j] == ':');
    assert(!is_digit(p[k][j]));
    assert(octet(p[k]) is None);
    if p.len() == 4 {
        assert(k == 0 || k == 1 || k == 2 || k == 3);
    }
}

// ---------------------------------------------------------------------------
// Groups.

proof fn lemma_hex_char(d: nat)
    requires
        d < 16,
    ensures
        is_hex(hex_char(d)),
        hex_digit(hex_char(d)) == d,
{
}

spec fn all_hex(s: Seq<char>) -> bool {
    forall|i: int| 0 <= i < s.len() ==> is_hex(#[trigger] s[i])
}

proof fn lemma_hex_text(n: nat)
    ensures
        hex_text(n).len() > 0,
        all_hex(hex_text(n)),
        hex_value(hex_text(n)) == n,
        n < 16 ==> hex_text(n).len() == 1,
    decreases n,
{
    let t = hex_text(n);
    if n < 16 {
        lemma_hex_char(n);
        assert(t.drop_last() =~= Seq::<char>::empty());
        assert(hex_value(Seq::<char>::empty()) == 0);
        assert(t.last() == hex_char(n));
    } else {
        lemma_hex_text(n / 16);
        lemma_hex_char(n % 16);
        assert(t.drop_last() =~= hex_text(n / 16));
        assert(t.last() == hex_char(n % 16));
    }
}

/// A group that was written is read back, and is no dotted quad.
proof fn lemma_hex_group(g: nat)
    requires
        g < 65536,
    ensures
        hex_group(hex_text(g)) == Some(g),
        ipv4_of(hex_text(g)) is None,
        hex_text(g).len() > 0,
        all_hex(hex_text(g)),
{
    lemma_hex_text(g);
    if g >= 16 {
        lemma_hex_text(g / 16);
        assert(hex_text(g).len() == hex_text(g / 16).len() + 1);
        if g / 16 >= 16 {
            lemma_hex_text(g / 16 / 16);
            assert(hex_text(g / 16).len() == hex_text(g / 16 / 16).len() + 1);
            if g / 16 / 16 >= 16 {
                lemma_hex_text(g / 16 / 16 / 16);
                assert(hex_text(g / 16 / 16).len() == hex_text(g / 16 / 16 / 16).len() + 1);
                assert(g / 16 / 16 / 16 < 16);
            }
        }
    }
    let t = hex_text(g);
    assert forall|i: int| 0 <= i < t.len() implies t[i] != '.' by {
        assert(is_hex(t[i]));
    }
    text::lemma_no_separator(t, '.');
    assert(pieces(t, '.').len() == 1);
}

spec fn all_groups(g: Seq<nat>) -> bool {
    forall|i: int| 0 <= i < g.len() ==> #[trigger] g[i] < 65536
}

spec fn written(g: Seq<nat>) -> Seq<Seq<char>> {
    g.map_values(|n: nat| hex_text(n))
}

proof fn lemma_joined_front(g: Seq<nat>)
    requires
        g.len() > 1,
    ensures
        joined_groups(g) == hex_text(g[0]) + ":"@ + joined_groups(g.drop_first()),
    decreases g.len(),
{
    let rest = g.drop_first();
    if g.len() == 2 {
        assert(g.drop_last() =~= seq![g[0]]);
        assert(joined_groups(seq![g[0]]) == hex_text(g[0]));
        assert(joined_groups(rest) == hex_text(g[1]));
    } else {
        let front = g.drop_last();
        lemma_joined_front(front);
        assert(front.drop_first() =~= rest.drop_last());
        assert(front[0] == g[0]);
        assert(rest.last() == g.last());
        let a = hex_text(g[0]);
        let b = joined_groups(rest.drop_last());
        let c = hex_text(g.last());
        assert(a + ":"@ + b + ":"@ + c =~= a + ":"@ + (b + ":"@ + c));
    }
}

proof fn lemma_no_colon(g: nat)
    requires
        g < 65536,
    ensures
        forall|i: int| 0 <= i < hex_text(g).len() ==> #[trigger] hex_text(g)[i] != ':',
        hex_text(g).len() > 0,
{
    lemma_hex_group(g);
    let t = hex_text(g);
    assert forall|i: int| 0 <= i < t.len() implies #[trigger] t[i] != ':' by {
        assert(is_hex(t[i]));
    }
}

proof fn lemma_joined_pieces(g: Seq<nat>)
    requires
        g.len() > 0,
        all_groups(g),
    ensures
        pieces(joined_groups(g), ':') == written(g),
        joined_groups(g).len() > 0,
    decreases g.len(),
{
    reveal_strlit(":");
    assert(":"@ =~= seq![':']);
    assert(g[0] < 65536);
    lemma_no_colon(g[0]);
    let t = hex_text(g[0]);
    if g.len() == 1 {
        text::lemma_no_separator(t, ':');
        assert(written(g) =~= seq![t]);
    } else {
        let rest = g.drop_first();
        assert(all_groups(rest)) by {
            assert forall|i: int| 0 <= i < rest.len() implies #[trigger] rest[i] < 65536 by {
                assert(rest[i] == g[i + 1]);
            }
        }
        lemma_joined_pieces(rest);
        lemma_joined_front(g);
        text::lemma_first_piece(t, ':', joined_groups(rest));
        assert(written(g) =~= seq![t] + written(rest));
    }
}

proof fn lemma_group_list(g: Seq<nat>, quad: bool)
    requires
        all_groups(g),
    ensures
        group_list(written(g), quad) == Some(g),
    decreases g.len(),
{
    let p = written(g);
    if g.len() > 0 {
        let front = g.drop_last();
        assert(all_groups(front)) by {
            assert forall|i: int| 0 <= i < front.len() implies #[trigger] front[i] < 65536 by {
                assert(front[i] == g[i]);
            }
        }
        lemma_group_list(front, false);
        assert(g[g.len() - 1] < 65536);
        lemma_hex_group(g.last());
        assert(p.drop_last() =~= written(front));
        assert(p.last() == hex_text(g.last()));
        assert(front.push(g.last()) =~= g);
    } else {
        assert(g =~= Seq::<nat>::empty());
    }
}

/// The groups of one side are read back.
proof fn lemma_side(g: Seq<nat>, quad: bool)
    requires
        all_groups(g),
    ensures
        side(joined_groups(g), quad) == Some(g),
{
    if g.len() == 0 {
        assert(g =~= Seq::<nat>::empty());
    } else {
        lemma_joined_pieces(g);
        lemma_group_list(g, quad);
    }
}

// ---------------------------------------------------------------------------
// The double colon.

spec fn single_colons(s: Seq<char>) -> bool {
    &&& forall|i: int| !#[trigger] double_colon_at(s, i)
    &&& s.len() > 0 ==> s.last() != ':' && s[0] != ':'
}

proof fn lemma_single_colons(g: Seq<nat>)
    requires
        all_groups(g),
    ensures
        single_colons(joined_groups(g)),
    decreases g.len(),
{
    reveal_strlit(":");
    let s = joined_groups(g);
    if g.len() == 1 {
        assert(g[0] < 65536);
        lemma_no_colon(g[0]);
    } else if g.len() > 1 {
        let front = g.drop_last();
        assert(all_groups(front)) by {
            assert forall|i: int| 0 <= i < front.len() implies #[trigger] front[i] < 65536 by {
                assert(front[i] == g[i]);
            }
        }
        lemma_single_colons(front);
        lemma_joined_pieces(front);
        assert(g[g.len() - 1] < 65536);
        lemma_no_colon(g.last());
        let a = joined_groups(front);
        let t = hex_text(g.last());
        assert(s == a + ":"@ + t);
        assert forall|i: int| !#[trigger] double_colon_at(s, i) by {
            if double_colon_at(s, i) {
                if i + 1 < a.len() {
                    assert(s[i] == a[i] && s[i + 1] == a[i + 1]);
                    assert(double_colon_at(a, i));
                } else if i + 1 == a.len() {
                    assert(s[i] == a.last());
                } else if i == a.len() {
                    assert(s[i + 1] == t[0]);
                } else {
                    assert(s[i] == t[i - a.len() - 1]);
                }
            }
        }
        assert(s[0] == a[0]);
        assert(s.last() == t.last());
    }
}

proof fn lemma_no_double_colon(s: Seq<char>)
    requires
        forall|i: int| !#[trigger] double_colon_at(s, i),
    ensures
        double_colon(s) == s.len(),
    decreases s.len(),
{
    if s.len() > 0 {
        let rest = s.drop_first();
        assert(!double_colon_at(s, 0));
        assert forall|i: int| !#[trigger] double_colon_at(rest, i) by {
            if double_colon_at(rest, i) {
                assert(double_colon_at(s, i + 1));
            }
        }
        lemma_no_double_colon(rest);
    }
}

proof fn lemma_first_double_colon(a: Seq<char>, b: Seq<char>)
    requires
        forall|i: int| !#[trigger] double_colon_at(a, i),
        a.len() > 0 ==> a.last() != ':',
    ensures
        double_colon(a + seq![':', ':'] + b) == a.len(),
    decreases a.len(),
{
    let s = a + seq![':', ':'] + b;
    if a.len() == 0 {
        assert(double_colon_at(s, 0));
    } else {
        let rest = a.drop_first();
        assert(!double_colon_at(s, 0)) by {
            if double_colon_at(s, 0) {
                assert(s[0] == a[0]);
                if a.len() > 1 {
                    assert(s[1] == a[1]);
                    assert(double_colon_at(a, 0));
                } else {
                    assert(a[0] == a.last());
                }
            }
        }
        assert forall|i: int| !#[trigger] double_colon_at(rest, i) by {
            if double_colon_at(rest, i) {
                assert(double_colon_at(a, i + 1));
            }
        }
        if rest.len() > 0 {
            assert(rest.last() == a.last());
        }
        lemma_first_double_colon(rest, b);
        assert(s.drop_first() =~= rest + seq![':', ':'] + b);
    }
}

// ---------------------------------------------------------------------------
// Whole addresses.

proof fn lemma_zero_run(g: Seq<nat>, i: int)
    requires
        0 <= i <= g.len(),
    ensures
        0 <= zero_run(g, i) <= g.len() - i,
        forall|j: int| i <= j < i + zero_run(g, i) ==> #[trigger] g[j] == 0,
    decreases g.len() - i,
{
    if i < g.len() && g[i] == 0 {
        lemma_zero_run(g, i + 1);
    }
}

proof fn lemma_longest(g: Seq<nat>, n: int)
    requires
        n >= 1,
    ensures
        0 <= longest_zero_run(g, n) < n,
    decreases n,
{
    if n > 1 {
        lemma_longest(g, n - 1);
    }
}

spec fn power(n: nat) -> nat
    decreases n,
{
    if n == 0 {
        1
    } else {
        65536 * power((n - 1) as nat)
    }
}

proof fn lemma_split(v: nat, n: nat)
    requires
        v < power(n),
    ensures
        split_groups(v, n).len() == n,
        all_groups(split_groups(v, n)),
        groups_value(split_groups(v, n)) == v,
    decreases n,
{
    if n > 0 {
        let m = (n - 1) as nat;
        assert(v / 65536 < power(m)) by (nonlinear_arith)
            requires
                v < 65536 * power(m),
        ;
        lemma_split(v / 65536, m);
        let g = split_groups(v, n);
        let front = split_groups(v / 65536, m);
        assert(g.drop_last() =~= front);
        assert(g.last() == v % 65536);
        assert forall|i: int| 0 <= i < g.len() implies #[trigger] g[i] < 65536 by {
            if i < m {
                assert(g[i] == front[i]);
            }
        }
    }
}

proof fn lemma_eight(v: nat)
    requires
        v < 0x1_0000_0000_0000_0000_0000_0000_0000_0000,
    ensures
        v < power(8),
{
    reveal_with_fuel(power, 9);
    assert(power(8) == 65536 * (65536 * (65536 * (65536 * (65536 * (65536 * (65536 * 65536)))))));
}

proof fn lemma_compressed(g: Seq<nat>, at: int, run: int)
    requires
        g.len() == 8,
        all_groups(g),
        0 <= at,
        run > 1,
        at + run <= 8,
        forall|j: int| at <= j < at + run ==> #[trigger] g[j] == 0,
    ensures
        ipv6_groups(joined_groups(g.take(at)) + "::"@ + joined_groups(g.skip(at + run))) == Some(g),
{
    let head = g.take(at);
    let tail = g.skip(at + run);
    reveal_strlit("::");
    assert("::"@ =~= seq![':', ':']);
    assert(all_groups(head)) by {
        assert forall|i: int| 0 <= i < head.len() implies #[trigger] head[i] < 65536 by {
            assert(head[i] == g[i]);
        }
    }
    assert(all_groups(tail)) by {
        assert forall|i: int| 0 <= i < tail.len() implies #[trigger] tail[i] < 65536 by {
            assert(tail[i] == g[at + run + i]);
        }
    }
    lemma_side(head, false);
    lemma_side(tail, true);
    lemma_single_colons(head);
    let a = joined_groups(head);
    let b = joined_groups(tail);
    let s = a + "::"@ + b;
    lemma_first_double_colon(a, b);
    assert(double_colon(s) == a.len());
    assert(s.take(a.len() as int) =~= a);
    assert(s.skip(a.len() as int + 2) =~= b);
    assert(head + zeros((8 - head.len() - tail.len()) as nat) + tail =~= g);
}

proof fn lemma_plain(g: Seq<nat>)
    requires
        g.len() == 8,
        all_groups(g),
    ensures
        ipv6_groups(joined_groups(g)) == Some(g),
{
    lemma_side(g, true);
    lemma_single_colons(g);
    lemma_no_double_colon(joined_groups(g));
}

proof fn lemma_mapped(w: nat)
    requires
        w < 0x1_0000_0000,
    ensures
        ({
            let g = ipv6_groups("::ffff:"@ + ipv4_text(w));
            g is Some && groups_value(g->0) == 0xffff * 0x1_0000_0000 + w
        }),
{
    let q = ipv4_text(w);
    let s = "::ffff:"@ + q;
    reveal_strlit("::ffff:");
    lemma_quad(w);
    let f = seq!['f', 'f', 'f', 'f'];
    let rest = s.skip(2);
    assert(double_colon_at(s, 0));
    assert(double_colon(s) == 0);
    assert(s.take(0) =~= Seq::<char>::empty());
    assert(rest =~= f + seq![':'] + q);
    text::lemma_first_piece(f, ':', q);
    assert forall|i: int| 0 <= i < q.len() implies q[i] != ':' by {
        assert(is_digit(q[i]) || q[i] == '.');
    }
    text::lemma_no_separator(q, ':');
    let p = pieces(rest, ':');
    assert(p =~= seq![f, q]);
    assert(p.drop_last() =~= seq![f]);
    assert(seq![f].drop_last() =~= Seq::<Seq<char>>::empty());
    assert(hex_value(f) == 65535) by {
        let f3 = seq!['f', 'f', 'f'];
        let f2 = seq!['f', 'f'];
        let f1 = seq!['f'];
        assert(f.drop_last() =~= f3);
        assert(f3.drop_last() =~= f2);
        assert(f2.drop_last() =~= f1);
        assert(f1.drop_last() =~= Seq::<char>::empty());
        assert(hex_digit('f') == 15);
        assert(hex_value(Seq::<char>::empty()) == 0);
        assert(hex_value(f1) == 15);
        assert(hex_value(f2) == 255);
        assert(hex_value(f3) == 4095);
    }
    assert(hex_group(f) == Some(65535nat));
    assert(group_list(Seq::<Seq<char>>::empty(), false) == Some(Seq::<nat>::empty()));
    let one = Seq::<nat>::empty().push(65535);
    assert(group_list(seq![f], false) == Some(one));
    let tail = one.push(w / 65536).push(w % 65536);
    assert(side(rest, true) == Some(tail));
    assert(side(Seq::<char>::empty(), false) == Some(Seq::<nat>::empty()));
    let g = Seq::<nat>::empty() + zeros(5) + tail;
    assert(ipv6_groups(s) == Some(g));
    let e = Seq::<nat>::empty();
    assert(g =~= e.push(0).push(0).push(0).push(0).push(0).push(65535).push(w / 65536).push(
        w % 65536,
    ));
    lemma_pushed(e, 0);
    lemma_pushed(e.push(0), 0);
    lemma_pushed(e.push(0).push(0), 0);
    lemma_pushed(e.push(0).push(0).push(0), 0);
    lemma_pushed(e.push(0).push(0).push(0).push(0), 0);
    let z = e.push(0).push(0).push(0).push(0).push(0);
    lemma_pushed(z, 65535);
    lemma_pushed(z.push(65535), w / 65536);
    lemma_pushed(z.push(65535).push(w / 65536), w % 65536);
}

proof fn lemma_pushed(g: Seq<nat>, n: nat)
    ensures
        groups_value(g.push(n)) == groups_value(g) * 65536 + n,
{
    assert(g.push(n).drop_last() =~= g);
}

/// An address that was written is read back as itself.
pub proof fn written_address_is_read_back(address: IpAddr)
    ensures
        address_of(address.text()) == Some(address),
{
    match address {
        IpAddr::V4(v) => {
            lemma_quad(v as nat);
        },
        IpAddr::V6(v) => {
            let n = v as nat;
            let s = ipv6_text(n);
            let g = split_groups(n, 8);
            let at = longest_zero_run(g, 8);
            let run = zero_run(g, at);
            lemma_eight(n);
            lemma_split(n, 8);
            lemma_longest(g, 8);
            lemma_zero_run(g, at);
            if n / 0x1_0000_0000 == 0xffff {
                let w = n % 0x1_0000_0000;
                lemma_mapped(w);
                reveal_strlit("::ffff:");
                assert(s[0] == ':');
                lemma_colon_is_no_quad(s, 0);
            } else if run > 1 {
                lemma_compressed(g, at, run);
                reveal_strlit("::");
                let a = joined_groups(g.take(at));
                assert(s[a.len() as int] == ':');
                lemma_colon_is_no_quad(s, a.len() as int);
            } else {
                lemma_plain(g);
                lemma_joined_front(g);
                reveal_strlit(":");
                let a = hex_text(g[0]);
                assert(s[a.len() as int] == ':');
                lemma_colon_is_no_quad(s, a.len() as int);
            }
        },
    }
}

/// A character of a written address.
pub open spec fn is_address_char(c: char) -> bool {
    is_digit(c) || is_hex(c) || c == ':' || c == '.'
}

/// A text of such characters alone.
pub open spec fn is_address_text(s: Seq<char>) -> bool {
    forall|i: int| 0 <= i < s.len() ==> is_address_char(#[trigger] s[i])
}

proof fn lemma_address_concat(a: Seq<char>, b: Seq<char>)
    requires
        is_address_text(a),
        is_address_text(b),
    ensures
        is_address_text(a + b),
{
    let s = a + b;
    assert forall|i: int| 0 <= i < s.len() implies is_address_char(#[trigger] s[i]) by {
        if i < a.len() {
            assert(s[i] == a[i]);
        } else {
            assert(s[i] == b[i - a.len()]);
        }
    }
}

proof fn lemma_decimal_text(n: nat)
    ensures
        is_address_text(decimal(n)),
{
    text::lemma_decimal_digits(n);
    let d = decimal(n);
    assert forall|i: int| 0 <= i < d.len() implies is_address_char(#[trigger] d[i]) by {
        assert(is_digit(d[i]));
    }
}

proof fn lemma_quad_text(v: nat)
    ensures
        is_address_text(ipv4_text(v)),
        ipv4_text(v).len() > 0,
{
    reveal_strlit(".");
    let a = decimal(v / 16777216);
    let b = decimal(v / 65536 % 256);
    let c = decimal(v / 256 % 256);
    let d = decimal(v % 256);
    lemma_decimal_text(v / 16777216);
    lemma_decimal_text(v / 65536 % 256);
    lemma_decimal_text(v / 256 % 256);
    lemma_decimal_text(v % 256);
    lemma_address_concat(a, "."@);
    lemma_address_concat(a + "."@, b);
    lemma_address_concat(a + "."@ + b, "."@);
    lemma_address_concat(a + "."@ + b + "."@, c);
    lemma_address_concat(a + "."@ + b + "."@ + c, "."@);
    lemma_address_concat(a + "."@ + b + "."@ + c + "."@, d);
}

proof fn lemma_groups_text(g: Seq<nat>)
    ensures
        is_address_text(joined_groups(g)),
        g.len() > 0 ==> joined_groups(g).len() > 0,
    decreases g.len(),
{
    if g.len() > 0 {
        let h = hex_text(g.last());
        lemma_hex_text(g.last());
        assert forall|i: int| 0 <= i < h.len() implies is_address_char(#[trigger] h[i]) by {
            assert(is_hex(h[i]));
        }
        if g.len() > 1 {
            reveal_strlit(":");
            lemma_groups_text(g.drop_last());
            lemma_address_concat(joined_groups(g.drop_last()), ":"@);
            lemma_address_concat(joined_groups(g.drop_last()) + ":"@, h);
        }
    }
}

/// A written address is not empty, and holds digits, colons and dots alone.
pub proof fn written_addresses_are_plain(address: IpAddr)
    ensures
        address.text().len() > 0,
        is_address_text(address.text()),
{
    match address {
        IpAddr::V4(v) => {
            lemma_quad_text(v as nat);
        },
        IpAddr::V6(v) => {
            let n = v as nat;
            let g = split_groups(n, 8);
            let at = longest_zero_run(g, 8);
            let run = zero_run(g, at);
            lemma_eight(n);
            lemma_groups_text(g);
            reveal_strlit("::ffff:");
            reveal_strlit("::");
            if n / 0x1_0000_0000 == 0xffff {
                lemma_quad_text(n % 0x1_0000_0000);
                lemma_address_concat("::ffff:"@, ipv4_text(n % 0x1_0000_0000));
            } else if run > 1 {
                lemma_groups_text(g.take(at));
                lemma_groups_text(g.skip(at + run));
                let a = joined_groups(g.take(at));
                lemma_address_concat(a, "::"@);
                lemma_address_concat(a + "::"@, joined_groups(g.skip(at + run)));
            }
        },
    }
}

} // verus!
