//! IP addresses: their value, the text that writes them and the text they print as.

use vstd::prelude::*;
use vstd::string::*;

use crate::text;
use crate::text::{decimal, pieces};

pub mod written;

verus! {

/// An IPv4 address as its 32-bit value or an IPv6 address as its 128-bit value.
#[derive(Debug, Clone, Copy, PartialEq, Eq, Structural)]
pub enum IpAddr {
    V4(u32),
    V6(u128),
}

/// A transport endpoint.
#[derive(Debug, Clone, Copy, PartialEq, Eq, Structural)]
pub struct SocketAddr {
    pub ip: IpAddr,
    pub port: u16,
}

pub open spec fn is_hex(c: char) -> bool {
    '0' <= c <= '9' || 'a' <= c <= 'f' || 'A' <= c <= 'F'
}

pub open spec fn hex_digit(c: char) -> nat {
    if '0' <= c <= '9' {
        (c as nat - 48) as nat
    } else if 'a' <= c <= 'f' {
        (c as nat - 87) as nat
    } else {
        (c as nat - 55) as nat
    }
}

/// The number that a run of hexadecimal digits writes.
pub open spec fn hex_value(s: Seq<char>) -> nat
    decreases s.len(),
{
    if s.len() == 0 {
        0
    } else {
        hex_value(s.drop_last()) * 16 + hex_digit(s.last())
    }
}

pub open spec fn hex_char(d: nat) -> char {
    if d < 10 {
        (48 + d) as char
    } else {
        (87 + d) as char
    }
}

/// Lower-case hexadecimal digits, without leading zeros.
pub open spec fn hex_text(n: nat) -> Seq<char>
    decreases n,
{
    if n < 16 {
        seq![hex_char(n)]
    } else {
        hex_text(n / 16).push(hex_char(n % 16))
    }
}

/// One octet of a dotted quad: up to three digits, no leading zero, at most 255.
pub open spec fn octet(s: Seq<char>) -> Option<nat> {
    if 1 <= s.len() <= 3 && text::all_digits(s) && (s.len() > 1 ==> s[0] != '0')
        && text::decimal_value(s) <= 255 {
        Some(text::decimal_value(s))
    } else {
        None
    }
}

/// The value of a dotted quad.
pub open spec fn ipv4_of(s: Seq<char>) -> Option<nat> {
    let p = pieces(s, '.');
    if p.len() == 4 && octet(p[0]) is Some && octet(p[1]) is Some && octet(p[2]) is Some && octet(
        p[3],
    ) is Some {
        Some(
            octet(p[0])->0 * 16777216 + octet(p[1])->0 * 65536 + octet(p[2])->0 * 256 + octet(
                p[3],
            )->0,
        )
    } else {
        None
    }
}

/// One 16-bit group: one to four hexadecimal digits.
pub open spec fn hex_group(s: Seq<char>) -> Option<nat> {
    if 1 <= s.len() <= 4 && (forall|i: int| 0 <= i < s.len() ==> is_hex(#[trigger] s[i])) {
        Some(hex_value(s))
    } else {
        None
    }
}

/// The groups that colon-separated pieces write; the last piece may be a dotted
/// quad, which stands for two groups, where `quad` allows it.
pub open spec fn group_list(p: Seq<Seq<char>>, quad: bool) -> Option<Seq<nat>>
    decreases p.len(),
{
    if p.len() == 0 {
        Some(Seq::empty())
    } else if quad && ipv4_of(p.last()) is Some {
        let v = ipv4_of(p.last())->0;
        match group_list(p.drop_last(), false) {
            Some(front) => Some(front.push(v / 65536).push(v % 65536)),
            None => None,
        }
    } else {
        match (group_list(p.drop_last(), false), hex_group(p.last())) {
            (Some(front), Some(g)) => Some(front.push(g)),
            _ => None,
        }
    }
}

/// The groups of one side of a `::`, or of a whole address.
pub open spec fn side(s: Seq<char>, quad: bool) -> Option<Seq<nat>> {
    if s.len() == 0 {
        Some(Seq::empty())
    } else {
        group_list(pieces(s, ':'), quad)
    }
}

pub open spec fn double_colon_at(s: Seq<char>, i: int) -> bool {
    0 <= i < s.len() - 1 && s[i] == ':' && s[i + 1] == ':'
}

/// Where `::` stands first, or the length.
pub open spec fn double_colon(s: Seq<char>) -> int
    decreases s.len(),
{
    if s.len() == 0 || double_colon_at(s, 0) {
        0
    } else {
        1 + double_colon(s.drop_first())
    }
}

pub open spec fn zeros(n: nat) -> Seq<nat> {
    Seq::new(n, |i: int| 0nat)
}

/// The eight groups of an IPv6 text; `::` stands for one or more zero groups.
pub open spec fn ipv6_groups(s: Seq<char>) -> Option<Seq<nat>> {
    let k = double_colon(s);
    if k < s.len() {
        match (side(s.take(k), false), side(s.skip(k + 2), true)) {
            (Some(head), Some(tail)) => if head.len() + tail.len() <= 7 {
                Some(head + zeros((8 - head.len() - tail.len()) as nat) + tail)
            } else {
                None
            },
            _ => None,
        }
    } else {
        match side(s, true) {
            Some(all) => if all.len() == 8 {
                Some(all)
            } else {
                None
            },
            None => None,
        }
    }
}

/// The value of 16-bit groups, the most significant first.
pub open spec fn groups_value(g: Seq<nat>) -> nat
    decreases g.len(),
{
    if g.len() == 0 {
        0
    } else {
        groups_value(g.drop_last()) * 65536 + g.last()
    }
}

/// The address that a text writes.
pub open spec fn address_of(s: Seq<char>) -> Option<IpAddr> {
    if ipv4_of(s) is Some {
        Some(IpAddr::V4(ipv4_of(s)->0 as u32))
    } else if ipv6_groups(s) is Some {
        Some(IpAddr::V6(groups_value(ipv6_groups(s)->0) as u128))
    } else {
        None
    }
}

/// The `n` least significant 16-bit groups of a value, the most significant first.
pub open spec fn split_groups(v: nat, n: nat) -> Seq<nat>
    decreases n,
{
    if n == 0 {
        Seq::empty()
    } else {
        split_groups(v / 65536, (n - 1) as nat).push(v % 65536)
    }
}

/// How many zero groups follow one another from `i` on.
pub open spec fn zero_run(g: Seq<nat>, i: int) -> int
    decreases g.len() - i,
{
    if 0 <= i < g.len() && g[i] == 0 {
        1 + zero_run(g, i + 1)
    } else {
        0
    }
}

/// Among the first `n` positions, the first with the longest run of zero groups.
pub open spec fn longest_zero_run(g: Seq<nat>, n: int) -> int
    decreases n,
{
    if n <= 1 {
        0
    } else {
        let best = longest_zero_run(g, n - 1);
        if zero_run(g, n - 1) > zero_run(g, best) {
            n - 1
        } else {
            best
        }
    }
}

/// Groups in hexadecimal with a colon between any two.
pub open spec fn joined_groups(g: Seq<nat>) -> Seq<char>
    decreases g.len(),
{
    if g.len() == 0 {
        Seq::empty()
    } else if g.len() == 1 {
        hex_text(g[0])
    } else {
        joined_groups(g.drop_last()) + ":"@ + hex_text(g.last())
    }
}

pub open spec fn ipv4_text(v: nat) -> Seq<char> {
    decimal(v / 16777216) + "."@ + decimal(v / 65536 % 256) + "."@ + decimal(v / 256 % 256) + "."@
        + decimal(v % 256)
}

/// An IPv6 address as it is printed: an IPv4-mapped address with its dotted
/// quad, otherwise the first longest run of two or more zero groups as `::`.
pub open spec fn ipv6_text(v: nat) -> Seq<char> {
    let g = split_groups(v, 8);
    let at = longest_zero_run(g, 8);
    let run = zero_run(g, at);
    if v / 0x1_0000_0000 == 0xffff {
        "::ffff:"@ + ipv4_text(v % 0x1_0000_0000)
    } else if run > 1 {
        joined_groups(g.take(at)) + "::"@ + joined_groups(g.skip(at + run))
    } else {
        joined_groups(g)
    }
}

impl IpAddr {
    pub open spec fn spec_is_ipv6(self) -> bool {
        self is V6
    }

    /// The address as it is printed.
    pub open spec fn text(self) -> Seq<char> {
        match self {
            IpAddr::V4(v) => ipv4_text(v as nat),
            IpAddr::V6(v) => ipv6_text(v as nat),
        }
    }

    /// The address as the host part of a URI: an IPv6 address in brackets.
    pub open spec fn host(self) -> Seq<char> {
        match self {
            IpAddr::V4(v) => self.text(),
            IpAddr::V6(v) => "["@ + self.text() + "]"@,
        }
    }

    #[verifier::when_used_as_spec(spec_is_ipv6)]
    pub fn is_ipv6(self) -> (r: bool)
        ensures
            r == self.is_ipv6(),
    {
        matches!(self, IpAddr::V6(_))
    }

    pub fn is_ipv4(self) -> (r: bool)
        ensures
            r == !self.is_ipv6(),
    {
        matches!(self, IpAddr::V4(_))
    }

    pub fn to_string(self) -> (s: String)
        ensures
            s@ == self.text(),
    {
        match self {
            IpAddr::V4(v) => ipv4_string(v),
            IpAddr::V6(v) => ipv6_string(v),
        }
    }

    pub fn to_host(self) -> (s: String)
        ensures
            s@ == self.host(),
    {
        match self {
            IpAddr::V4(_) => self.to_string(),
            IpAddr::V6(_) => {
                let mut s = "[".to_string();
                let inner = self.to_string();
                s.append(inner.as_str());
                s.append("]");
                s
            },
        }
    }
}

impl SocketAddr {
    /// The endpoint as it is printed: host, colon, port.
    pub open spec fn text(self) -> Seq<char> {
        self.ip.host() + ":"@ + decimal(self.port as nat)
    }

    pub fn new(ip: IpAddr, port: u16) -> (r: Self)
        ensures
            r == (SocketAddr { ip, port }),
    {
        SocketAddr { ip, port }
    }

    pub fn to_string(self) -> (s: String)
        ensures
            s@ == self.text(),
    {
        let mut s = self.ip.to_host();
        s.append(":");
        let port = text::decimal_string(self.port as u64);
        s.append(port.as_str());
        s
    }
}

/// `n` in lower-case hexadecimal digits.
pub fn hex_string(n: u64) -> (s: String)
    ensures
        s@ == hex_text(n as nat),
    decreases n,
{
    let d = (n % 16) as u8;
    let c = if d < 10 {
        (48 + d) as char
    } else {
        (87 + d) as char
    };
    if n < 16 {
        let one = [c];
        let s = text::string(&one);
        proof {
            assert(s@ =~= seq![hex_char(n as nat)]);
        }
        s
    } else {
        let mut s = hex_string(n / 16);
        let one = [c];
        let last = text::string(&one);
        proof {
            assert(s@ + last@ =~= s@.push(hex_char(n as nat % 16)));
        }
        s.append(last.as_str());
        s
    }
}

fn ipv4_string(v: u32) -> (s: String)
    ensures
        s@ == ipv4_text(v as nat),
{
    let mut s = text::decimal_string((v / 16777216) as u64);
    s.append(".");
    let b = text::decimal_string((v / 65536 % 256) as u64);
    s.append(b.as_str());
    s.append(".");
    let c = text::decimal_string((v / 256 % 256) as u64);
    s.append(c.as_str());
    s.append(".");
    let d = text::decimal_string((v % 256) as u64);
    s.append(d.as_str());
    s
}

/// The numbers of a list of groups.
pub open spec fn nats(g: Seq<u16>) -> Seq<nat> {
    Seq::new(g.len(), |i: int| g[i] as nat)
}

fn groups_vec(v: u128, n: u8) -> (g: Vec<u16>)
    ensures
        nats(g@) == split_groups(v as nat, n as nat),
        g@.len() == n,
    decreases n,
{
    if n == 0 {
        let g: Vec<u16> = Vec::new();
        proof {
            assert(nats(g@) =~= Seq::<nat>::empty());
        }
        g
    } else {
        let mut g = groups_vec(v / 65536, n - 1);
        let ghost front = g@;
        let low = (v % 65536) as u16;
        g.push(low);
        proof {
            assert(nats(g@) =~= nats(front).push(low as nat));
        }
        g
    }
}

fn joined_string(g: &[u16]) -> (s: String)
    ensures
        s@ == joined_groups(nats(g@)),
{
    let mut s = String::new();
    let mut i: usize = 0;
    proof {
        assert(nats(g@).take(0) =~= Seq::<nat>::empty());
    }
    while i < g.len()
        invariant
            i <= g@.len(),
            s@ == joined_groups(nats(g@).take(i as int)),
        decreases g@.len() - i,
    {
        let h = hex_string(g[i] as u64);
        proof {
            let next = nats(g@).take(i as int + 1);
            assert(next.drop_last() =~= nats(g@).take(i as int));
            assert(next.last() == g@[i as int] as nat);
            if i == 0 {
                assert(s@ + h@ =~= h@);
            }
        }
        if i > 0 {
            s.append(":");
        }
        s.append(h.as_str());
        i += 1;
    }
    proof {
        assert(nats(g@).take(g@.len() as int) =~= nats(g@));
    }
    s
}

fn zero_run_len(g: &[u16], from: usize) -> (r: usize)
    requires
        from <= g@.len(),
    ensures
        r == zero_run(nats(g@), from as int),
        from + r <= g@.len(),
{
    let mut i: usize = from;
    while i < g.len() && g[i] == 0
        invariant
            from <= i <= g@.len(),
            zero_run(nats(g@), from as int) == i - from + zero_run(nats(g@), i as int),
        decreases g@.len() - i,
    {
        i += 1;
    }
    i - from
}

fn ipv6_string(v: u128) -> (s: String)
    ensures
        s@ == ipv6_text(v as nat),
{
    if v / 0x1_0000_0000 == 0xffff {
        let mut s = "::ffff:".to_string();
        let quad = ipv4_string((v % 0x1_0000_0000) as u32);
        s.append(quad.as_str());
        return s;
    }
    let g = groups_vec(v, 8);
    let mut best: usize = 0;
    let mut n: usize = 1;
    while n < 8
        invariant
            1 <= n <= 8,
            g@.len() == 8,
            0 <= best < n,
            best == longest_zero_run(nats(g@), n as int),
        decreases 8 - n,
    {
        if zero_run_len(g.as_slice(), n) > zero_run_len(g.as_slice(), best) {
            best = n;
        }
        n += 1;
    }
    let run = zero_run_len(g.as_slice(), best);
    if run > 1 {
        let mut s = joined_string(vstd::slice::slice_subrange(g.as_slice(), 0, best));
        let tail = joined_string(vstd::slice::slice_subrange(g.as_slice(), best + run, 8));
        proof {
            assert(nats(g@.subrange(0, best as int)) =~= nats(g@).take(best as int));
            assert(nats(g@.subrange(best + run, 8)) =~= nats(g@).skip(best + run));
        }
        s.append("::");
        s.append(tail.as_str());
        s
    } else {
        joined_string(g.as_slice())
    }
}

fn read_octet(s: &str) -> (r: Option<u32>)
    ensures
        match r {
            Some(v) => octet(s@) == Some(v as nat) && v <= 255,
            None => octet(s@) is None,
        },
{
    let c = text::chars(s);
    if c.len() == 0 || c.len() > 3 || (c.len() > 1 && c[0] == '0') || !text::only_digits(s) {
        return None;
    }
    proof {
        assert(text::is_digit(s@[0]));
    }
    match text::parse_number(s, 255) {
        Some(v) => Some(v as u32),
        None => None,
    }
}

/// The value of a dotted quad.
pub fn parse_ipv4(s: &str) -> (r: Option<u32>)
    ensures
        match r {
            Some(v) => ipv4_of(s@) == Some(v as nat),
            None => ipv4_of(s@) is None,
        },
{
    let p = text::split(s, '.');
    proof {
        assert(text::texts(p@) == pieces(s@, '.'));
        assert(text::texts(p@).len() == p@.len());
    }
    if p.len() != 4 {
        return None;
    }
    proof {
        assert(text::texts(p@)[0] == p@[0]@);
        assert(text::texts(p@)[1] == p@[1]@);
        assert(text::texts(p@)[2] == p@[2]@);
        assert(text::texts(p@)[3] == p@[3]@);
    }
    match (
        read_octet(p[0].as_str()),
        read_octet(p[1].as_str()),
        read_octet(p[2].as_str()),
        read_octet(p[3].as_str()),
    ) {
        (Some(a), Some(b), Some(c), Some(d)) => Some(a * 16777216 + b * 65536 + c * 256 + d),
        _ => None,
    }
}

fn read_group(s: &str) -> (r: Option<u16>)
    ensures
        match r {
            Some(v) => hex_group(s@) == Some(v as nat),
            None => hex_group(s@) is None,
        },
{
    let c = text::chars(s);
    if c.len() == 0 || c.len() > 4 {
        return None;
    }
    let mut value: u32 = 0;
    let mut limit: u32 = 1;
    let mut i: usize = 0;
    while i < c.len()
        invariant
            i <= c@.len() <= 4,
            c@ == s@,
            value == hex_value(c@.take(i as int)),
            value < limit,
            limit == if i == 0 {
                1u32
            } else if i == 1 {
                16u32
            } else if i == 2 {
                256u32
            } else if i == 3 {
                4096u32
            } else {
                65536u32
            },
            forall|j: int| 0 <= j < i ==> is_hex(#[trigger] c@[j]),
        decreases c@.len() - i,
    {
        let ch = c[i];
        let d: u32 = if '0' <= ch && ch <= '9' {
            ch as u32 - 48
        } else if 'a' <= ch && ch <= 'f' {
            ch as u32 - 87
        } else if 'A' <= ch && ch <= 'F' {
            ch as u32 - 55
        } else {
            assert(!is_hex(s@[i as int]));
            return None;
        };
        proof {
            let next = c@.take(i as int + 1);
            assert(next.drop_last() =~= c@.take(i as int));
            assert(next.last() == ch);
        }
        value = value * 16 + d;
        limit = limit * 16;
        i += 1;
    }
    proof {
        assert(c@.take(c@.len() as int) =~= c@);
    }
    Some(value as u16)
}

fn read_groups(p: &[String], quad: bool) -> (r: Option<Vec<u16>>)
    ensures
        match r {
            Some(g) => group_list(text::texts(p@), quad) == Some(nats(g@)),
            None => group_list(text::texts(p@), quad) is None,
        },
    decreases p@.len(),
{
    let n = p.len();
    if n == 0 {
        let g: Vec<u16> = Vec::new();
        proof {
            assert(nats(g@) =~= Seq::<nat>::empty());
        }
        return Some(g);
    }
    let front = vstd::slice::slice_subrange(p, 0, n - 1);
    proof {
        assert(text::texts(p@).drop_last() =~= text::texts(front@));
        assert(text::texts(p@).last() == p@[n - 1]@);
    }
    if quad {
        if let Some(v) = parse_ipv4(p[n - 1].as_str()) {
            return match read_groups(front, false) {
                Some(mut g) => {
                    let ghost before = g@;
                    let high = (v / 65536) as u16;
                    let low = (v % 65536) as u16;
                    g.push(high);
                    g.push(low);
                    proof {
                        assert(nats(g@) =~= nats(before).push(high as nat).push(low as nat));
                    }
                    Some(g)
                },
                None => None,
            };
        }
    }
    match (read_groups(front, false), read_group(p[n - 1].as_str())) {
        (Some(mut g), Some(last)) => {
            let ghost before = g@;
            g.push(last);
            proof {
                assert(nats(g@) =~= nats(before).push(last as nat));
            }
            Some(g)
        },
        _ => None,
    }
}

fn read_side(s: &str, quad: bool) -> (r: Option<Vec<u16>>)
    ensures
        match r {
            Some(g) => side(s@, quad) == Some(nats(g@)),
            None => side(s@, quad) is None,
        },
{
    let c = text::chars(s);
    if c.len() == 0 {
        let g: Vec<u16> = Vec::new();
        proof {
            assert(nats(g@) =~= Seq::<nat>::empty());
        }
        Some(g)
    } else {
        let p = text::split(s, ':');
        read_groups(p.as_slice(), quad)
    }
}

fn value_of_groups(g: &[u16]) -> (v: u128)
    requires
        g@.len() <= 8,
    ensures
        v == groups_value(nats(g@)),
{
    let mut v: u128 = 0;
    let mut limit: u128 = 1;
    let mut i: usize = 0;
    proof {
        assert(nats(g@).take(0) =~= Seq::<nat>::empty());
    }
    while i < g.len()
        invariant
            i <= g@.len() <= 8,
            v == groups_value(nats(g@).take(i as int)),
            v < limit || (i == 8 && limit == 0),
            i == 0 ==> limit == 1,
            i == 1 ==> limit == 0x1_0000,
            i == 2 ==> limit == 0x1_0000_0000,
            i == 3 ==> limit == 0x1_0000_0000_0000,
            i == 4 ==> limit == 0x1_0000_0000_0000_0000,
            i == 5 ==> limit == 0x1_0000_0000_0000_0000_0000,
            i == 6 ==> limit == 0x1_0000_0000_0000_0000_0000_0000,
            i == 7 ==> limit == 0x1_0000_0000_0000_0000_0000_0000_0000,
            i == 8 ==> limit == 0,
        decreases g@.len() - i,
    {
        proof {
            let next = nats(g@).take(i as int + 1);
            assert(next.drop_last() =~= nats(g@).take(i as int));
            assert(next.last() == g@[i as int] as nat);
        }
        v = v * 65536 + g[i] as u128;
        if i < 7 {
            limit = limit * 65536;
        } else {
            limit = 0;
        }
        i += 1;
    }
    proof {
        assert(nats(g@).take(g@.len() as int) =~= nats(g@));
    }
    v
}

fn find_double_colon(c: &[char]) -> (k: usize)
    ensures
        k == double_colon(c@),
        k < c@.len() ==> k + 2 <= c@.len(),
        k <= c@.len(),
{
    let mut i: usize = 0;
    proof {
        assert(c@.skip(0) =~= c@);
    }
    while i < c.len() && !(i + 1 < c.len() && c[i] == ':' && c[i + 1] == ':')
        invariant
            i <= c@.len(),
            double_colon(c@) == i + double_colon(c@.skip(i as int)),
        decreases c@.len() - i,
    {
        proof {
            let rest = c@.skip(i as int);
            assert(rest.drop_first() =~= c@.skip(i as int + 1));
            assert(!double_colon_at(rest, 0));
        }
        i += 1;
    }
    proof {
        if i < c@.len() {
            assert(double_colon_at(c@.skip(i as int), 0));
        }
    }
    i
}

fn parse_ipv6(s: &str) -> (r: Option<u128>)
    ensures
        match r {
            Some(v) => ipv6_groups(s@) is Some && v == groups_value(ipv6_groups(s@)->0),
            None => ipv6_groups(s@) is None,
        },
{
    let c = text::chars(s);
    let k = find_double_colon(c.as_slice());
    if k < c.len() {
        let left = text::part(c.as_slice(), 0, k);
        let right = text::part(c.as_slice(), k + 2, c.len());
        proof {
            assert(left@ =~= s@.take(k as int));
            assert(right@ =~= s@.skip(k as int + 2));
        }
        match (read_side(left.as_str(), false), read_side(right.as_str(), true)) {
            (Some(mut head), Some(tail)) => {
                let ghost h = nats(head@);
                let ghost t = nats(tail@);
                if head.len() > 7 || tail.len() > 7 || head.len() + tail.len() > 7 {
                    return None;
                }
                let want: usize = 8 - tail.len();
                while head.len() < want
                    invariant
                        h.len() <= head@.len() <= want,
                        nats(head@) == h + zeros((head@.len() - h.len()) as nat),
                    decreases want - head@.len(),
                {
                    let ghost before = head@;
                    head.push(0);
                    proof {
                        assert(nats(head@) =~= nats(before).push(0));
                        assert(h + zeros((head@.len() - h.len()) as nat) =~= (h + zeros(
                            (before.len() - h.len()) as nat,
                        )).push(0));
                    }
                }
                let ghost padded = nats(head@);
                let mut i: usize = 0;
                while i < tail.len()
                    invariant
                        i <= tail@.len(),
                        head@.len() == want + i,
                        want + tail@.len() == 8,
                        padded.len() == want,
                        nats(head@) == padded + t.take(i as int),
                        t == nats(tail@),
                    decreases tail@.len() - i,
                {
                    let ghost before = head@;
                    head.push(tail[i]);
                    i += 1;
                    proof {
                        assert(nats(head@) =~= nats(before).push(t[i - 1]));
                        assert(padded + t.take(i as int) =~= (padded + t.take(i - 1)).push(t[i - 1]));
                    }
                }
                proof {
                    assert(t.take(t.len() as int) =~= t);
                }
                Some(value_of_groups(head.as_slice()))
            },
            _ => None,
        }
    } else {
        match read_side(s, true) {
            Some(all) => if all.len() == 8 {
                Some(value_of_groups(all.as_slice()))
            } else {
                None
            },
            None => None,
        }
    }
}

/// The address that `s` writes.
pub fn parse_ip(s: &str) -> (r: Option<IpAddr>)
    ensures
        r == address_of(s@),
{
    match parse_ipv4(s) {
        Some(v) => Some(IpAddr::V4(v)),
        None => match parse_ipv6(s) {
            Some(v) => Some(IpAddr::V6(v)),
            None => None,
        },
    }
}

} // verus!
