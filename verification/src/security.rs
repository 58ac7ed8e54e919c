//! Security agreement: the offers of the two sides and how they are written.

use vstd::prelude::*;
use vstd::string::*;

use crate::carrier::CarrierProfile;
use crate::sip;
use crate::sip::parameter_of;
use crate::text;
use crate::text::{
    decimal, halves, lower, number, opt, pieces, same_folded, texts, trimmed, unwrapped,
};

verus! {

/// The SPIs and protected ports of one side.
#[derive(Debug, Clone, Copy, PartialEq, Eq, Structural)]
pub struct SecAgree {
    pub spi_c: u32,
    pub spi_s: u32,
    pub port_c: u16,
    pub port_s: u16,
}

/// The four numbers of a binding, with `separator` in front of each.
pub open spec fn binding_text(binding: SecAgree, separator: Seq<char>) -> Seq<char> {
    separator + "spi-c="@ + decimal(binding.spi_c as nat) + separator + "spi-s="@ + decimal(
        binding.spi_s as nat,
    ) + separator + "port-c="@ + decimal(binding.port_c as nat) + separator + "port-s="@ + decimal(
        binding.port_s as nat,
    )
}

/// An SPI from random bits: below 100 000 000, so that its digits read the same
/// in decimal and hexadecimal notation, and never zero.
pub open spec fn spi_of(random: u32) -> u32 {
    if random % 100_000_000 != 0 {
        random % 100_000_000
    } else {
        1
    }
}

fn spi_from(random: u32) -> (r: u32)
    ensures
        r == spi_of(random),
{
    let spi = random % 100_000_000;
    if spi != 0 {
        spi
    } else {
        1
    }
}

/// The binding that a line offers on its two ports, with fresh random bits.
pub fn offered_security(send_port: u16, receive_port: u16, random_c: u32, random_s: u32) -> (r:
    SecAgree)
    ensures
        r == (SecAgree {
            spi_c: spi_of(random_c),
            spi_s: spi_of(random_s),
            port_c: send_port,
            port_s: receive_port,
        }),
        0 < r.spi_c < 100_000_000,
        0 < r.spi_s < 100_000_000,
{
    SecAgree {
        spi_c: spi_from(random_c),
        spi_s: spi_from(random_s),
        port_c: send_port,
        port_s: receive_port,
    }
}

fn push_binding(out: &mut String, binding: SecAgree, separator: &str)
    ensures
        final(out)@ == old(out)@ + binding_text(binding, separator@),
{
    let ghost before = out@;
    let mut part = separator.to_string();
    part.append("spi-c=");
    let n = text::decimal_string(binding.spi_c as u64);
    part.append(n.as_str());
    part.append(separator);
    part.append("spi-s=");
    let n = text::decimal_string(binding.spi_s as u64);
    part.append(n.as_str());
    part.append(separator);
    part.append("port-c=");
    let n = text::decimal_string(binding.port_c as u64);
    part.append(n.as_str());
    part.append(separator);
    part.append("port-s=");
    let n = text::decimal_string(binding.port_s as u64);
    part.append(n.as_str());
    out.append(part.as_str());
}

impl SecAgree {
    /// The value of a Security-Client header that offers this binding alone.
    pub fn security_client_value(&self) -> (r: String)
        ensures
            r@ == "ipsec-3gpp"@ + binding_text(*self, ";"@),
    {
        let mut out = "ipsec-3gpp".to_string();
        push_binding(&mut out, *self, ";");
        out
    }
}

/// The binding that a Security-Server value names.
pub open spec fn server_binding(value: Seq<char>) -> Option<SecAgree> {
    match (
        parameter_number(value, "spi-c"@, 0xffff_ffff),
        parameter_number(value, "spi-s"@, 0xffff_ffff),
        parameter_number(value, "port-c"@, 0xffff),
        parameter_number(value, "port-s"@, 0xffff),
    ) {
        (Some(spi_c), Some(spi_s), Some(port_c), Some(port_s)) => Some(
            SecAgree {
                spi_c: spi_c as u32,
                spi_s: spi_s as u32,
                port_c: port_c as u16,
                port_s: port_s as u16,
            },
        ),
        _ => None,
    }
}

/// The number that a parameter carries.
pub open spec fn parameter_number(value: Seq<char>, name: Seq<char>, max: nat) -> Option<nat> {
    match parameter_of(value, name) {
        Some(text) => number(text, max),
        None => None,
    }
}

fn read_parameter_number(value: &str, name: &str, max: u64) -> (r: Option<u64>)
    ensures
        match r {
            Some(n) => parameter_number(value@, name@, max as nat) == Some(n as nat) && n <= max,
            None => parameter_number(value@, name@, max as nat) is None,
        },
{
    match sip::sip_parameter(value, name) {
        Some(text) => text::parse_number(text.as_str(), max),
        None => None,
    }
}

/// Reads the binding that a Security-Server value names.
pub fn parse_security_server(value: &str) -> (r: Option<SecAgree>)
    ensures
        r == server_binding(value@),
{
    match (
        read_parameter_number(value, "spi-c", 0xffff_ffff),
        read_parameter_number(value, "spi-s", 0xffff_ffff),
        read_parameter_number(value, "port-c", 0xffff),
        read_parameter_number(value, "port-s", 0xffff),
    ) {
        (Some(spi_c), Some(spi_s), Some(port_c), Some(port_s)) => Some(
            SecAgree {
                spi_c: spi_c as u32,
                spi_s: spi_s as u32,
                port_c: port_c as u16,
                port_s: port_s as u16,
            },
        ),
        _ => None,
    }
}

/// A parameter that carries a number.
spec fn number_parameter(name: Seq<char>, n: nat) -> Seq<char> {
    name + "="@ + decimal(n)
}

proof fn lemma_number_parameter(name: Seq<char>, n: nat, wanted: Seq<char>)
    requires
        name.len() > 0,
        forall|i: int| 0 <= i < name.len() ==> name[i] != '=' && name[i] != ';' && !text::is_space(
            #[trigger] name[i],
        ),
    ensures
        sip::parameter_value(number_parameter(name, n), wanted) == (if text::same_folded(
            name,
            wanted,
        ) {
            Some(decimal(n))
        } else {
            None
        }),
        forall|i: int| 0 <= i < number_parameter(name, n).len() ==> #[trigger] number_parameter(
            name,
            n,
        )[i] != ';',
{
    let d = decimal(n);
    let p = number_parameter(name, n);
    text::lemma_decimal_digits(n);
    reveal_strlit("=");
    assert("="@ =~= seq!['=']);
    text::lemma_first_piece(name, '=', d);
    assert(text::is_digit(d[0]));
    assert(text::is_digit(d.last()));
    assert(p.last() == d.last());
    assert(p[0] == name[0]);
    assert(text::trim_start(p) == p);
    assert(text::trimmed(p) == p);
    assert(text::trimmed(d) == d);
    assert(text::strip_start(d, '"') == d);
    assert(text::unwrapped(d, '"') == d);
    assert forall|i: int| 0 <= i < p.len() implies #[trigger] p[i] != ';' by {
        if i < name.len() {
            assert(p[i] == name[i]);
        } else if i > name.len() {
            assert(p[i] == d[i - name.len() - 1]);
            assert(text::is_digit(d[i - name.len() - 1]));
        }
    }
}

/// A binding that was written is read back as itself.
pub proof fn binding_is_read_back(binding: SecAgree)
    ensures
        server_binding("ipsec-3gpp"@ + binding_text(binding, ";"@)) == Some(binding),
{
    reveal_strlit("ipsec-3gpp");
    reveal_strlit(";");
    reveal_strlit("spi-c=");
    reveal_strlit("spi-s=");
    reveal_strlit("port-c=");
    reveal_strlit("port-s=");
    reveal_strlit("spi-c");
    reveal_strlit("spi-s");
    reveal_strlit("port-c");
    reveal_strlit("port-s");
    reveal_strlit("=");
    assert(";"@ =~= seq![';']);
    let sep = seq![';'];
    let a = number_parameter("spi-c"@, binding.spi_c as nat);
    let b = number_parameter("spi-s"@, binding.spi_s as nat);
    let c = number_parameter("port-c"@, binding.port_c as nat);
    let d = number_parameter("port-s"@, binding.port_s as nat);
    assert("spi-c="@ + decimal(binding.spi_c as nat) =~= a);
    assert("spi-s="@ + decimal(binding.spi_s as nat) =~= b);
    assert("port-c="@ + decimal(binding.port_c as nat) =~= c);
    assert("port-s="@ + decimal(binding.port_s as nat) =~= d);
    let value = "ipsec-3gpp"@ + binding_text(binding, ";"@);
    assert(value =~= "ipsec-3gpp"@ + sep + (a + sep + (b + sep + (c + sep + d))));
    lemma_number_parameter("spi-c"@, binding.spi_c as nat, "spi-c"@);
    lemma_number_parameter("spi-s"@, binding.spi_s as nat, "spi-s"@);
    lemma_number_parameter("port-c"@, binding.port_c as nat, "port-c"@);
    lemma_number_parameter("port-s"@, binding.port_s as nat, "port-s"@);
    text::lemma_first_piece("ipsec-3gpp"@, ';', a + sep + (b + sep + (c + sep + d)));
    text::lemma_first_piece(a, ';', b + sep + (c + sep + d));
    text::lemma_first_piece(b, ';', c + sep + d);
    text::lemma_first_piece(c, ';', d);
    text::lemma_no_separator(d, ';');
    let p = pieces(value, ';').skip(1);
    assert(p =~= seq![a, b, c, d]);
    lemma_parameters(p, binding);
}

proof fn lemma_parameters(p: Seq<Seq<char>>, binding: SecAgree)
    requires
        p == seq![
            number_parameter("spi-c"@, binding.spi_c as nat),
            number_parameter("spi-s"@, binding.spi_s as nat),
            number_parameter("port-c"@, binding.port_c as nat),
            number_parameter("port-s"@, binding.port_s as nat),
        ],
    ensures
        sip::first_parameter(p, "spi-c"@) == Some(decimal(binding.spi_c as nat)),
        sip::first_parameter(p, "spi-s"@) == Some(decimal(binding.spi_s as nat)),
        sip::first_parameter(p, "port-c"@) == Some(decimal(binding.port_c as nat)),
        sip::first_parameter(p, "port-s"@) == Some(decimal(binding.port_s as nat)),
        number(decimal(binding.spi_c as nat), 0xffff_ffff) == Some(binding.spi_c as nat),
        number(decimal(binding.spi_s as nat), 0xffff_ffff) == Some(binding.spi_s as nat),
        number(decimal(binding.port_c as nat), 0xffff) == Some(binding.port_c as nat),
        number(decimal(binding.port_s as nat), 0xffff) == Some(binding.port_s as nat),
{
    reveal_strlit("spi-c");
    reveal_strlit("spi-s");
    reveal_strlit("port-c");
    reveal_strlit("port-s");
    text::number_reads_decimal(binding.spi_c as nat, 0xffff_ffff);
    text::number_reads_decimal(binding.spi_s as nat, 0xffff_ffff);
    text::number_reads_decimal(binding.port_c as nat, 0xffff);
    text::number_reads_decimal(binding.port_s as nat, 0xffff);
    assert(lower("spi-c"@)[4] == 'c');
    assert(lower("spi-s"@)[4] == 's');
    assert(lower("port-c"@)[5] == 'c' && lower("port-c"@).len() == 6);
    assert(lower("port-s"@)[5] == 's' && lower("port-s"@).len() == 6);
    assert(lower("spi-c"@).len() == 5 && lower("spi-s"@).len() == 5);
    lemma_number_parameter("spi-c"@, binding.spi_c as nat, "spi-c"@);
    lemma_number_parameter("spi-c"@, binding.spi_c as nat, "spi-s"@);
    lemma_number_parameter("spi-c"@, binding.spi_c as nat, "port-c"@);
    lemma_number_parameter("spi-c"@, binding.spi_c as nat, "port-s"@);
    lemma_number_parameter("spi-s"@, binding.spi_s as nat, "spi-s"@);
    lemma_number_parameter("spi-s"@, binding.spi_s as nat, "port-c"@);
    lemma_number_parameter("spi-s"@, binding.spi_s as nat, "port-s"@);
    lemma_number_parameter("port-c"@, binding.port_c as nat, "port-c"@);
    lemma_number_parameter("port-c"@, binding.port_c as nat, "port-s"@);
    lemma_number_parameter("port-s"@, binding.port_s as nat, "port-s"@);
    let q = p.drop_first();
    let r = q.drop_first();
    let t = r.drop_first();
    assert(q[0] == p[1] && r[0] == p[2] && t[0] == p[3]);
    assert(sip::first_parameter(t, "port-s"@) == Some(decimal(binding.port_s as nat)));
    assert(sip::first_parameter(r, "port-s"@) == sip::first_parameter(t, "port-s"@));
    assert(sip::first_parameter(q, "port-s"@) == sip::first_parameter(r, "port-s"@));
    assert(sip::first_parameter(r, "port-c"@) == Some(decimal(binding.port_c as nat)));
    assert(sip::first_parameter(q, "port-c"@) == sip::first_parameter(r, "port-c"@));
    assert(sip::first_parameter(q, "spi-s"@) == Some(decimal(binding.spi_s as nat)));
}

// ---------------------------------------------------------------------------
// What the carrier's profile asks of an offer.

/// The value of the last parameter called `name` in a list of parameters, both
/// case-folded and the value without quotes.
pub open spec fn last_parameter(p: Seq<Seq<char>>, name: Seq<char>) -> Option<Seq<char>>
    decreases p.len(),
{
    if p.len() == 0 {
        None
    } else {
        match halves(p.last(), '=') {
            Some((left, right)) => if lower(trimmed(left)) == name {
                Some(lower(unwrapped(trimmed(right), '"')))
            } else {
                last_parameter(p.drop_last(), name)
            },
            None => last_parameter(p.drop_last(), name),
        }
    }
}

/// The names that the parts of a mechanism stand for, in order.
pub open spec fn mechanism_name(i: int) -> Seq<char> {
    if i == 0 {
        "alg"@
    } else if i == 1 {
        "ealg"@
    } else if i == 2 {
        "prot"@
    } else {
        "mod"@
    }
}

/// The offer carries what part `i` of a mechanism names.
pub open spec fn part_offered(mechanism: Seq<char>, value: Seq<char>, i: int) -> bool {
    match last_parameter(pieces(value, ';').skip(1), mechanism_name(i)) {
        Some(actual) => same_folded(actual, pieces(mechanism, '/')[i]),
        None => false,
    }
}

/// The offer carries everything that a mechanism names.
pub open spec fn mechanism_offered(mechanism: Seq<char>, value: Seq<char>) -> bool {
    forall|i: int|
        0 <= i < 4 && i < pieces(mechanism, '/').len() ==> #[trigger] part_offered(
            mechanism,
            value,
            i,
        )
}

/// The offer is one of the mechanisms in the list.
pub open spec fn offer_matches(mechanisms: Seq<&'static str>, value: Seq<char>) -> bool {
    exists|i: int| 0 <= i < mechanisms.len() && mechanism_offered((#[trigger] mechanisms[i])@, value)
}

fn find_last_parameter(p: &Vec<String>, name: &str) -> (r: Option<String>)
    requires
        p@.len() > 0,
    ensures
        opt(r) == last_parameter(texts(p@).skip(1), name@),
{
    let ghost all = texts(p@).skip(1);
    let mut n: usize = p.len();
    proof {
        assert(all.take(all.len() as int) =~= all);
    }
    while n > 1
        invariant
            1 <= n <= p@.len(),
            all == texts(p@).skip(1),
            last_parameter(all, name@) == last_parameter(all.take(n - 1), name@),
        decreases n,
    {
        proof {
            let now = all.take(n - 1);
            assert(now.last() == p@[n - 1]@);
            assert(now.drop_last() =~= all.take(n - 2));
        }
        if let Some((left, right)) = text::split_once(p[n - 1].as_str(), '=') {
            let left = text::lower_case(text::trim(left.as_str()).as_str());
            if text::same(left.as_str(), name) {
                let raw = text::trim_matches(text::trim(right.as_str()).as_str(), '"');
                return Some(text::lower_case(raw.as_str()));
            }
        }
        n -= 1;
    }
    None
}

fn mechanism_label(i: usize) -> (r: &'static str)
    ensures
        r@ == mechanism_name(i as int),
{
    if i == 0 {
        "alg"
    } else if i == 1 {
        "ealg"
    } else if i == 2 {
        "prot"
    } else {
        "mod"
    }
}

fn mechanism_is_offered(mechanism: &str, value: &str) -> (r: bool)
    ensures
        r == mechanism_offered(mechanism@, value@),
{
    let wanted = text::split(mechanism, '/');
    let offered = text::split(value, ';');
    proof {
        text::lemma_pieces_nonempty(value@, ';');
        assert(texts(offered@).len() == offered@.len());
        assert(texts(wanted@).len() == wanted@.len());
    }
    let mut i: usize = 0;
    while i < 4 && i < wanted.len()
        invariant
            i <= 4,
            i <= wanted@.len(),
            texts(wanted@) == pieces(mechanism@, '/'),
            texts(offered@) == pieces(value@, ';'),
            offered@.len() > 0,
            forall|j: int| 0 <= j < i ==> #[trigger] part_offered(mechanism@, value@, j),
        decreases 4 - i,
    {
        let name = mechanism_label(i);
        let found = match find_last_parameter(&offered, name) {
            Some(actual) => text::same_ignoring_case(actual.as_str(), wanted[i].as_str()),
            None => false,
        };
        proof {
            assert(texts(wanted@)[i as int] == wanted@[i as int]@);
            assert(found == part_offered(mechanism@, value@, i as int));
        }
        if !found {
            return false;
        }
        i += 1;
    }
    proof {
        assert(texts(wanted@).len() == wanted@.len());
    }
    true
}

/// Whether a Security-Server value is one of the carrier's mechanisms.
pub fn security_server_matches_profile(profile: &CarrierProfile, value: &str) -> (r: bool)
    ensures
        r == offer_matches(profile.ims.register.security_client_mechanisms@, value@),
{
    let mechanisms = &profile.ims.register.security_client_mechanisms;
    let mut i: usize = 0;
    while i < mechanisms.len()
        invariant
            i <= mechanisms@.len(),
            mechanisms@ == profile.ims.register.security_client_mechanisms@,
            forall|j: int|
                0 <= j < i ==> !mechanism_offered((#[trigger] mechanisms@[j])@, value@),
        decreases mechanisms@.len() - i,
    {
        if mechanism_is_offered(mechanisms[i], value) {
            assert(mechanism_offered(mechanisms@[i as int]@, value@));
            return true;
        }
        i += 1;
    }
    false
}

/// A Security-Server value that can be used, and its binding.
pub open spec fn usable_server(
    profile: CarrierProfile,
    value: Seq<char>,
) -> Option<SecAgree> {
    if profile.ims.register.strict_security_server_offer && !offer_matches(
        profile.ims.register.security_client_mechanisms@,
        value,
    ) {
        None
    } else {
        server_binding(value)
    }
}

/// The first value that can be used, and its binding.
pub open spec fn first_usable_server(
    profile: CarrierProfile,
    values: Seq<Seq<char>>,
) -> Option<(SecAgree, Seq<char>)>
    decreases values.len(),
{
    if values.len() == 0 {
        None
    } else {
        match usable_server(profile, values[0]) {
            Some(binding) => Some((binding, values[0])),
            None => first_usable_server(profile, values.drop_first()),
        }
    }
}

/// Finds the first Security-Server value that can be used.
pub fn select_security_server(profile: &CarrierProfile, values: &Vec<String>) -> (r: Option<
    (SecAgree, String),
>)
    ensures
        match r {
            Some((binding, value)) => first_usable_server(*profile, texts(values@)) == Some(
                (binding, value@),
            ),
            None => first_usable_server(*profile, texts(values@)) is None,
        },
{
    let ghost all = texts(values@);
    let mut i: usize = 0;
    proof {
        assert(all.skip(0) =~= all);
    }
    while i < values.len()
        invariant
            i <= values@.len(),
            all == texts(values@),
            first_usable_server(*profile, all) == first_usable_server(
                *profile,
                all.skip(i as int),
            ),
        decreases values@.len() - i,
    {
        proof {
            assert(all.skip(i as int).drop_first() =~= all.skip(i as int + 1));
            assert(all.skip(i as int)[0] == values@[i as int]@);
        }
        let value = values[i].as_str();
        let refused = profile.ims.register.strict_security_server_offer
            && !security_server_matches_profile(profile, value);
        if !refused {
            if let Some(binding) = parse_security_server(value) {
                return Some((binding, value.to_string()));
            }
        }
        i += 1;
    }
    None
}

// ---------------------------------------------------------------------------
// The line's own offer.

/// How the Security-Client header is written.
#[derive(Debug, Clone, Copy, PartialEq, Eq, Structural)]
pub enum VolteSecurityClientOffer {
    Full,
    FullSpaced,
    Compact,
}

/// Piece `i` of a text, or the empty text where there are fewer.
pub open spec fn piece_or_empty(p: Seq<Seq<char>>, i: int) -> Seq<char> {
    if i < p.len() {
        p[i]
    } else {
        Seq::empty()
    }
}

/// The carrier's first mechanism, or the empty text.
pub open spec fn first_mechanism(profile: CarrierProfile) -> Seq<char> {
    let list = profile.ims.register.security_client_mechanisms@;
    if list.len() > 0 {
        list[0]@
    } else {
        Seq::empty()
    }
}

/// The value of the Security-Client header.
pub open spec fn client_offer(
    offer: VolteSecurityClientOffer,
    binding: SecAgree,
    profile: CarrierProfile,
) -> Seq<char> {
    let p = pieces(first_mechanism(profile), '/');
    let sep = if offer == VolteSecurityClientOffer::FullSpaced {
        "; "@
    } else {
        ";"@
    };
    let algorithms = "ipsec-3gpp"@ + sep + "alg="@ + piece_or_empty(p, 0) + sep + "ealg="@
        + piece_or_empty(p, 1);
    let shape = if offer == VolteSecurityClientOffer::Compact {
        algorithms
    } else {
        algorithms + sep + "prot="@ + piece_or_empty(p, 2) + sep + "mod="@ + piece_or_empty(p, 3)
    };
    shape + binding_text(binding, sep)
}

fn piece_at(p: &Vec<String>, i: usize) -> (r: String)
    ensures
        r@ == piece_or_empty(texts(p@), i as int),
{
    proof {
        assert(texts(p@).len() == p@.len());
    }
    if i < p.len() {
        p[i].clone()
    } else {
        String::new()
    }
}

impl VolteSecurityClientOffer {
    /// Writes the Security-Client header.
    pub fn build(self, binding: SecAgree, profile: &CarrierProfile) -> (r: String)
        ensures
            r@ == client_offer(self, binding, *profile),
    {
        let mechanism = if profile.ims.register.security_client_mechanisms.len() > 0 {
            profile.ims.register.security_client_mechanisms[0].to_string()
        } else {
            String::new()
        };
        let p = text::split(mechanism.as_str(), '/');
        let separator = match self {
            VolteSecurityClientOffer::FullSpaced => "; ",
            _ => ";",
        };
        let mut out = "ipsec-3gpp".to_string();
        out.append(separator);
        out.append("alg=");
        out.append(piece_at(&p, 0).as_str());
        out.append(separator);
        out.append("ealg=");
        out.append(piece_at(&p, 1).as_str());
        if self != VolteSecurityClientOffer::Compact {
            out.append(separator);
            out.append("prot=");
            out.append(piece_at(&p, 2).as_str());
            out.append(separator);
            out.append("mod=");
            out.append(piece_at(&p, 3).as_str());
        }
        push_binding(&mut out, binding, separator);
        out
    }
}

} // verus!
