//! IMS identities: the home network, the identities derived from an IMSI, and the
//! applications of the card.

use vstd::prelude::*;
use vstd::string::*;
use vstd::utf8::encode_utf8;

use crate::errors::{code, detailed, failure, VolteError};
use crate::ip::{hex_digit, hex_value, is_hex};
use crate::modem_output;
use crate::modem_output::{home_plmn_valid, value_of};
use crate::profile_override::{hex_bytes, hex_string_of};
use crate::text;
use crate::text::{
    after_part, all_digits, find_part, has_prefix, is_digit, lines_of, lower_char, opt, pieces,
    texts, trimmed, unwrapped,
};

verus! {

/// The application identifiers that the card lists.
#[derive(Debug, PartialEq, Eq)]
pub struct UiccApplications {
    pub usim_aid: Option<Vec<u8>>,
    pub isim_aid: Option<Vec<u8>>,
}

impl Default for UiccApplications {
    fn default() -> (r: Self)
        ensures
            r.usim_aid is None,
            r.isim_aid is None,
    {
        UiccApplications { usim_aid: None, isim_aid: None }
    }
}

/// The home network of an IMSI, and what its code length was taken from.
#[derive(Debug, PartialEq, Eq)]
pub struct HomePlmn {
    pub mcc: String,
    pub mnc: String,
    pub mnc_length_source: &'static str,
}

/// The identities that a line registers with.
#[derive(Debug, PartialEq, Eq)]
pub struct ImsIdentity {
    pub private_user: String,
    pub public_uri: String,
    pub contact_user: String,
    pub home_domain: String,
    pub contact_user_phone: bool,
}

pub struct IdentityView {
    pub private_user: Seq<char>,
    pub public_uri: Seq<char>,
    pub contact_user: Seq<char>,
    pub home_domain: Seq<char>,
    pub contact_user_phone: bool,
}

impl View for ImsIdentity {
    type V = IdentityView;

    open spec fn view(&self) -> IdentityView {
        IdentityView {
            private_user: self.private_user@,
            public_uri: self.public_uri@,
            contact_user: self.contact_user@,
            home_domain: self.home_domain@,
            contact_user_phone: self.contact_user_phone,
        }
    }
}

impl Clone for ImsIdentity {
    fn clone(&self) -> (r: Self)
        ensures
            r@ == self@,
    {
        ImsIdentity {
            private_user: self.private_user.clone(),
            public_uri: self.public_uri.clone(),
            contact_user: self.contact_user.clone(),
            home_domain: self.home_domain.clone(),
            contact_user_phone: self.contact_user_phone,
        }
    }
}

// ---------------------------------------------------------------------------
// IMSI and home network.

/// The length of the run of digits at the start.
pub open spec fn digit_run(s: Seq<char>) -> int
    decreases s.len(),
{
    if s.len() > 0 && is_digit(s[0]) {
        1 + digit_run(s.drop_first())
    } else {
        0
    }
}

proof fn lemma_digit_run(s: Seq<char>)
    ensures
        0 <= digit_run(s) <= s.len(),
    decreases s.len(),
{
    if s.len() > 0 && is_digit(s[0]) {
        lemma_digit_run(s.drop_first());
    }
}

/// The first whole run of 14 to 16 digits.
pub open spec fn imsi_in(s: Seq<char>) -> Option<Seq<char>>
    decreases s.len(),
    via imsi_in_decreases
{
    let n = digit_run(s);
    if 14 <= n <= 16 {
        Some(s.take(n))
    } else if n < s.len() {
        imsi_in(s.skip(n + 1))
    } else {
        None
    }
}

#[via_fn]
proof fn imsi_in_decreases(s: Seq<char>) {
    lemma_digit_run(s);
}

/// The IMSI in the modem's reply to `AT+CIMI`, whatever stands around it.
pub fn parse_cimi_response(output: &str) -> (r: Option<String>)
    ensures
        opt(r) == imsi_in(output@),
{
    let c = text::chars(output);
    let n = c.len();
    let mut from: usize = 0;
    proof {
        assert(c@.skip(0) =~= c@);
    }
    loop
        invariant
            n == c@.len(),
            from <= n,
            imsi_in(output@) == imsi_in(c@.skip(from as int)),
        decreases n - from,
    {
        let ghost rest = c@.skip(from as int);
        let mut to: usize = from;
        while to < n && text::char_is_digit(c[to])
            invariant
                n == c@.len(),
                from <= to <= n,
                rest == c@.skip(from as int),
                digit_run(rest) == to - from + digit_run(c@.skip(to as int)),
            decreases n - to,
        {
            proof {
                assert(c@.skip(to as int).drop_first() =~= c@.skip(to as int + 1));
                assert(c@.skip(to as int)[0] == c@[to as int]);
            }
            to += 1;
        }
        proof {
            if to < n {
                assert(c@.skip(to as int)[0] == c@[to as int]);
            }
            assert(digit_run(rest) == to - from);
        }
        if 14 <= to - from && to - from <= 16 {
            let imsi = text::part(c.as_slice(), from, to);
            proof {
                assert(imsi@ =~= rest.take(to - from));
            }
            return Some(imsi);
        }
        if to >= n {
            return None;
        }
        proof {
            assert(rest.skip(to - from + 1) =~= c@.skip(to as int + 1));
        }
        from = to + 1;
    }
}

/// The octets of a colon-separated line, without quotes.
pub open spec fn octets_of(line: Seq<char>) -> Seq<Seq<char>> {
    let p = pieces(unwrapped(trimmed(line), '\''), ':');
    Seq::new(p.len(), |i: int| unwrapped(trimmed(p[i]), '\''))
}

/// A text of two hexadecimal digits.
pub open spec fn is_octet(s: Seq<char>) -> bool {
    s.len() == 2 && is_hex(s[0]) && is_hex(s[1])
}

pub open spec fn all_octets(list: Seq<Seq<char>>) -> bool {
    forall|i: int| 0 <= i < list.len() ==> is_octet(#[trigger] list[i])
}

/// The first line that is a list of at least four octets, among the first
/// `limit` lines.
pub open spec fn first_octets(lines: Seq<Seq<char>>, limit: nat) -> Option<Seq<Seq<char>>>
    decreases lines.len(),
{
    if lines.len() == 0 || limit == 0 {
        None
    } else if unwrapped(trimmed(lines[0]), '\'').len() > 0 && octets_of(lines[0]).len() >= 4
        && all_octets(octets_of(lines[0])) {
        Some(octets_of(lines[0]))
    } else {
        first_octets(lines.drop_first(), (limit - 1) as nat)
    }
}

/// The length of the network code that EF_AD gives: its fourth octet, where that
/// is 2 or 3.
pub open spec fn ef_ad_length(output: Seq<char>) -> Option<usize> {
    match after_part(output, "Read result:"@) {
        Some(payload) => match first_octets(lines_of(payload), 3) {
            Some(octets) => if hex_value(octets[3]) == 2 {
                Some(2usize)
            } else if hex_value(octets[3]) == 3 {
                Some(3usize)
            } else {
                None
            },
            None => None,
        },
        None => None,
    }
}

fn hex_digit_of(c: char) -> (r: Option<u8>)
    ensures
        match r {
            Some(d) => is_hex(c) && d == hex_digit(c) && d < 16,
            None => !is_hex(c),
        },
{
    if '0' <= c && c <= '9' {
        Some(c as u8 - 48)
    } else if 'a' <= c && c <= 'f' {
        Some(c as u8 - 87)
    } else if 'A' <= c && c <= 'F' {
        Some(c as u8 - 55)
    } else {
        None
    }
}

fn octet_value(s: &str) -> (r: Option<u8>)
    ensures
        match r {
            Some(v) => is_octet(s@) && v == hex_value(s@),
            None => !is_octet(s@),
        },
{
    let c = text::chars(s);
    if c.len() != 2 {
        return None;
    }
    match (hex_digit_of(c[0]), hex_digit_of(c[1])) {
        (Some(high), Some(low)) => {
            proof {
                assert(s@.drop_last() =~= seq![s@[0]]);
                assert(seq![s@[0]].drop_last() =~= Seq::<char>::empty());
                assert(hex_value(Seq::<char>::empty()) == 0);
                assert(hex_value(seq![s@[0]]) == high);
                assert(s@.last() == s@[1]);
            }
            Some(high * 16 + low)
        },
        _ => None,
    }
}

/// The values of a line's octets, where it is a list of at least four.
fn read_octets(line: &str) -> (r: Option<Vec<u8>>)
    ensures
        ({
            let wanted = unwrapped(trimmed(line@), '\'').len() > 0 && octets_of(line@).len() >= 4
                && all_octets(octets_of(line@));
            match r {
                Some(values) => wanted && values@.len() == octets_of(line@).len() && forall|i: int|
                    0 <= i < values@.len() ==> #[trigger] values@[i] == hex_value(
                        octets_of(line@)[i],
                    ),
                None => !wanted,
            }
        }),
{
    let candidate = text::trim_matches(text::trim(line).as_str(), '\'');
    let ghost list = octets_of(line@);
    if candidate.as_str().is_empty() {
        return None;
    }
    let p = text::split(candidate.as_str(), ':');
    proof {
        assert(texts(p@).len() == p@.len());
    }
    if p.len() < 4 {
        return None;
    }
    let mut values: Vec<u8> = Vec::new();
    let mut i: usize = 0;
    while i < p.len()
        invariant
            i <= p@.len(),
            p@.len() >= 4,
            values@.len() == i,
            list == octets_of(line@),
            list.len() == p@.len(),
            texts(p@) == pieces(unwrapped(trimmed(line@), '\''), ':'),
            unwrapped(trimmed(line@), '\'').len() > 0,
            forall|j: int| 0 <= j < i ==> is_octet(#[trigger] list[j]),
            forall|j: int| 0 <= j < i ==> #[trigger] values@[j] == hex_value(list[j]),
        decreases p@.len() - i,
    {
        let octet = text::trim_matches(text::trim(p[i].as_str()).as_str(), '\'');
        proof {
            assert(texts(p@)[i as int] == p@[i as int]@);
            assert(octet@ == list[i as int]);
        }
        match octet_value(octet.as_str()) {
            Some(value) => {
                values.push(value);
            },
            None => {
                assert(!is_octet(list[i as int]));
                return None;
            },
        }
        i += 1;
    }
    Some(values)
}

/// The length of the network code that EF_AD gives in `qmicli` output.
pub fn parse_ef_ad_mnc_length(output: &str) -> (r: Option<usize>)
    ensures
        r == ef_ad_length(output@),
{
    let payload = match text::split_after(output, "Read result:") {
        Some(payload) => payload,
        None => return None,
    };
    let lines = text::lines(payload.as_str());
    let ghost all = texts(lines@);
    let mut i: usize = 0;
    proof {
        assert(all.skip(0) =~= all);
    }
    while i < lines.len() && i < 3
        invariant
            i <= lines@.len(),
            i <= 3,
            all == texts(lines@),
            after_part(output@, "Read result:"@) == Some(payload@),
            all == lines_of(payload@),
            first_octets(all, 3) == first_octets(all.skip(i as int), (3 - i) as nat),
        decreases lines@.len() - i,
    {
        proof {
            assert(all.skip(i as int).drop_first() =~= all.skip(i as int + 1));
            assert(all.skip(i as int)[0] == lines@[i as int]@);
        }
        if let Some(values) = read_octets(lines[i].as_str()) {
            proof {
                assert(first_octets(all, 3) == Some(octets_of(lines@[i as int]@)));
                assert(values@[3] == hex_value(octets_of(lines@[i as int]@)[3]));
            }
            return if values[3] == 2 {
                Some(2)
            } else if values[3] == 3 {
                Some(3)
            } else {
                None
            };
        }
        i += 1;
    }
    proof {
        assert(all.len() == lines@.len());
    }
    None
}

/// The length of the home network code of an IMSI, and what it is taken from:
/// the registered operator where it is the IMSI's own network, then EF_AD, then
/// the rule of thumb.
pub open spec fn home_mnc_length(
    imsi: Seq<char>,
    operator: Option<Seq<char>>,
    ef_ad: Option<usize>,
) -> (int, Seq<char>) {
    if operator is Some && home_plmn_valid(imsi, operator->0) {
        (operator->0.len() - 3, "modemmanager_home_operator"@)
    } else if ef_ad == Some(2usize) || ef_ad == Some(3usize) {
        (ef_ad->0 as int, "sim_ef_ad"@)
    } else if has_prefix(imsi, "460"@) {
        (2, "china_compatibility_fallback"@)
    } else {
        (3, "three_digit_fallback"@)
    }
}

/// The number of digits that the network code is taken to have.
pub open spec fn clamped(mnc_len: int) -> int {
    if mnc_len <= 2 {
        2
    } else {
        3
    }
}

/// An IMSI is at least five digits.
pub open spec fn imsi_valid(imsi: Seq<char>) -> bool {
    imsi.len() >= 5 && all_digits(imsi)
}

/// Splits an IMSI into country and network code.
pub fn split_imsi(imsi: &str, mnc_len: usize) -> (r: Result<(String, String), VolteError>)
    requires
        imsi_valid(imsi@) ==> imsi@.len() >= 3 + clamped(mnc_len as int),
    ensures
        match r {
            Ok((mcc, mnc)) => imsi_valid(imsi@) && mcc@ == imsi@.subrange(0, 3) && mnc@
                == imsi@.subrange(3, 3 + clamped(mnc_len as int)),
            Err(error) => !imsi_valid(imsi@) && error@ == failure(code::IMSI_MISSING@),
        },
{
    let c = text::chars(imsi);
    if c.len() < 5 || !text::only_digits(imsi) {
        return Err(VolteError::new(code::IMSI_MISSING));
    }
    let n: usize = if mnc_len <= 2 {
        2
    } else {
        3
    };
    Ok((text::part(c.as_slice(), 0, 3), text::part(c.as_slice(), 3, 3 + n)))
}

/// Resolves the home network of an IMSI.
pub fn resolve_home_plmn(
    imsi: &str,
    registered_operator: Option<&str>,
    ef_ad_mnc_length: Option<usize>,
) -> (r: Result<HomePlmn, VolteError>)
    requires
        imsi_valid(imsi@) ==> imsi@.len() >= 3 + home_mnc_length(
            imsi@,
            match registered_operator {
                Some(operator) => Some(operator@),
                None => None,
            },
            ef_ad_mnc_length,
        ).0,
    ensures
        ({
            let (length, source) = home_mnc_length(
                imsi@,
                match registered_operator {
                    Some(operator) => Some(operator@),
                    None => None,
                },
                ef_ad_mnc_length,
            );
            match r {
                Ok(home) => imsi_valid(imsi@) && home.mcc@ == imsi@.subrange(0, 3) && home.mnc@
                    == imsi@.subrange(3, 3 + length) && home.mnc_length_source@ == source,
                Err(error) => !imsi_valid(imsi@) && error@ == failure(code::IMSI_MISSING@),
            }
        }),
{
    let operator_length = match registered_operator {
        Some(operator) => if modem_output::valid_home_plmn(imsi, operator) {
            Some(text::chars(operator).len() - 3)
        } else {
            None
        },
        None => None,
    };
    let (mnc_length, mnc_length_source): (usize, &'static str) = match operator_length {
        Some(length) => (length, "modemmanager_home_operator"),
        None => match ef_ad_mnc_length {
            Some(2) => (2, "sim_ef_ad"),
            Some(3) => (3, "sim_ef_ad"),
            _ => if text::starts_with(imsi, "460") {
                (2, "china_compatibility_fallback")
            } else {
                (3, "three_digit_fallback")
            },
        },
    };
    match split_imsi(imsi, mnc_length) {
        Ok((mcc, mnc)) => Ok(HomePlmn { mcc, mnc, mnc_length_source }),
        Err(error) => Err(error),
    }
}

/// A visited network never replaces the IMSI's own: an operator that is no prefix
/// of the IMSI changes nothing.
pub proof fn visited_operator_is_ignored(
    imsi: Seq<char>,
    operator: Seq<char>,
    ef_ad: Option<usize>,
)
    requires
        !has_prefix(imsi, operator),
    ensures
        home_mnc_length(imsi, Some(operator), ef_ad) == home_mnc_length(imsi, None, ef_ad),
{
}

// ---------------------------------------------------------------------------
// Derived identities.

/// `n` zeros.
pub open spec fn zeros_text(n: int) -> Seq<char> {
    Seq::new(
        if n > 0 {
            n as nat
        } else {
            0
        },
        |i: int| '0',
    )
}

/// A network code padded to three digits.
pub open spec fn padded_mnc(mnc: Seq<char>) -> Seq<char> {
    if encode_utf8(mnc).len() >= 3 {
        mnc
    } else {
        zeros_text(3 - mnc.len()) + mnc
    }
}

/// The IMS home domain of a network.
pub open spec fn domain_of(mcc: Seq<char>, mnc: Seq<char>) -> Seq<char> {
    "ims.mnc"@ + padded_mnc(mnc) + ".mcc"@ + mcc + ".3gppnetwork.org"@
}

fn pad_mnc(mnc: &str) -> (r: String)
    ensures
        r@ == padded_mnc(mnc@),
{
    if mnc.as_bytes().len() >= 3 {
        return mnc.to_string();
    }
    let n = text::chars(mnc).len();
    let mut out = if n == 0 {
        "000".to_string()
    } else if n == 1 {
        "00".to_string()
    } else if n == 2 {
        "0".to_string()
    } else {
        String::new()
    };
    proof {
        reveal_strlit("000");
        reveal_strlit("00");
        reveal_strlit("0");
        assert(out@ =~= zeros_text(3 - mnc@.len()));
    }
    out.append(mnc);
    out
}

/// The IMS home domain of a network.
pub fn home_domain(mcc: &str, mnc: &str) -> (r: String)
    ensures
        r@ == domain_of(mcc@, mnc@),
{
    let mut out = "ims.mnc".to_string();
    out.append(pad_mnc(mnc).as_str());
    out.append(".mcc");
    out.append(mcc);
    out.append(".3gppnetwork.org");
    out
}

/// The identities of an IMSI in a realm and a domain.
pub open spec fn identity_of(imsi: Seq<char>, realm: Seq<char>, domain: Seq<char>) -> IdentityView {
    IdentityView {
        private_user: imsi + "@"@ + realm,
        public_uri: "sip:"@ + imsi + "@"@ + domain,
        contact_user: imsi,
        home_domain: domain,
        contact_user_phone: false,
    }
}

/// The identities of an IMSI in a realm and a domain.
pub fn identity_in(imsi: &str, realm: &str, domain: &str) -> (r: ImsIdentity)
    ensures
        r@ == identity_of(imsi@, realm@, domain@),
{
    let mut private_user = imsi.to_string();
    private_user.append("@");
    private_user.append(realm);
    let mut public_uri = "sip:".to_string();
    public_uri.append(imsi);
    public_uri.append("@");
    public_uri.append(domain);
    ImsIdentity {
        private_user,
        public_uri,
        contact_user: imsi.to_string(),
        home_domain: domain.to_string(),
        contact_user_phone: false,
    }
}

/// The identities of an IMSI in a home domain.
pub fn derive_identity_with_domain(imsi: &str, domain: &str) -> (r: ImsIdentity)
    ensures
        r@ == identity_of(imsi@, domain@, domain@),
{
    identity_in(imsi, domain, domain)
}

/// The identities of an IMSI in the domain of its home network.
pub fn derive_identity(imsi: &str, mcc: &str, mnc: &str) -> (r: ImsIdentity)
    ensures
        r@ == identity_of(imsi@, domain_of(mcc@, mnc@), domain_of(mcc@, mnc@)),
{
    let domain = home_domain(mcc, mnc);
    derive_identity_with_domain(imsi, domain.as_str())
}

// ---------------------------------------------------------------------------
// Card applications.

/// The registered identifier of USIM applications.
pub open spec fn usim_prefix() -> Seq<u8> {
    seq![0xa0u8, 0x00, 0x00, 0x00, 0x87, 0x10, 0x02]
}

/// The registered identifier of ISIM applications.
pub open spec fn isim_prefix() -> Seq<u8> {
    seq![0xa0u8, 0x00, 0x00, 0x00, 0x87, 0x10, 0x04]
}

/// The registered identifier of USIM applications.
pub fn usim_aid_prefix() -> (r: Vec<u8>)
    ensures
        r@ == usim_prefix(),
{
    vec![0xa0, 0x00, 0x00, 0x00, 0x87, 0x10, 0x02]
}

/// The registered identifier of ISIM applications.
pub fn isim_aid_prefix() -> (r: Vec<u8>)
    ensures
        r@ == isim_prefix(),
{
    vec![0xa0, 0x00, 0x00, 0x00, 0x87, 0x10, 0x04]
}

/// `aid` begins with `prefix`.
pub open spec fn begins_with(aid: Seq<u8>, prefix: Seq<u8>) -> bool {
    prefix.len() <= aid.len() && aid.take(prefix.len() as int) == prefix
}

fn has_aid_prefix(aid: &[u8], prefix: &Vec<u8>) -> (r: bool)
    ensures
        r == begins_with(aid@, prefix@),
{
    if prefix.len() > aid.len() {
        return false;
    }
    let mut i: usize = 0;
    while i < prefix.len()
        invariant
            i <= prefix@.len() <= aid@.len(),
            forall|j: int| 0 <= j < i ==> aid@[j] == prefix@[j],
        decreases prefix@.len() - i,
    {
        if aid[i] != prefix[i] {
            assert(aid@.take(prefix@.len() as int)[i as int] != prefix@[i as int]);
            return false;
        }
        i += 1;
    }
    proof {
        assert(aid@.take(prefix@.len() as int) =~= prefix@);
    }
    true
}

/// Whether an application is a USIM.
pub fn is_usim_aid(aid: &[u8]) -> (r: bool)
    ensures
        r == begins_with(aid@, usim_prefix()),
{
    has_aid_prefix(aid, &usim_aid_prefix())
}

/// The application to authenticate with: the discovered one where it is a USIM,
/// or else the registered identifier.
pub open spec fn usim_aid_of(discovered: Option<Seq<u8>>) -> Seq<u8> {
    match discovered {
        Some(aid) => if begins_with(aid, usim_prefix()) {
            aid
        } else {
            usim_prefix()
        },
        None => usim_prefix(),
    }
}

/// The application to authenticate with.
pub fn resolve_usim_aid(discovered: Option<&[u8]>) -> (r: Vec<u8>)
    ensures
        r@ == usim_aid_of(
            match discovered {
                Some(aid) => Some(aid@),
                None => None,
            },
        ),
        begins_with(r@, usim_prefix()),
{
    proof {
        assert(usim_prefix().take(7) =~= usim_prefix());
    }
    match discovered {
        Some(aid) => if is_usim_aid(aid) {
            vstd::slice::slice_to_vec(aid)
        } else {
            usim_aid_prefix()
        },
        None => usim_aid_prefix(),
    }
}

/// An application identifier in hexadecimal.
pub fn aid_hex(aid: &[u8]) -> (r: String)
    ensures
        r@ == hex_bytes(aid@),
{
    hex_string_of(aid)
}

/// The hexadecimal digits of a line, in lower case and in order.
pub open spec fn compact_hex(line: Seq<char>) -> Seq<char>
    decreases line.len(),
{
    if line.len() == 0 {
        Seq::empty()
    } else {
        let front = compact_hex(line.drop_last());
        if is_hex(line.last()) {
            front.push(lower_char(line.last()))
        } else {
            front
        }
    }
}

/// The bytes that pairs of hexadecimal digits write; a digit left over is dropped.
pub open spec fn bytes_of_hex(s: Seq<char>) -> Seq<u8> {
    Seq::new(
        s.len() / 2,
        |i: int| (hex_digit(s[2 * i]) * 16 + hex_digit(s[2 * i + 1])) as u8,
    )
}

/// The application identifier in a line that begins with `prefix`.
pub open spec fn aid_in_line(line: Seq<char>, prefix: Seq<char>) -> Option<Seq<u8>> {
    match find_part(compact_hex(line), prefix) {
        Some(start) => Some(bytes_of_hex(compact_hex(line).skip(start))),
        None => None,
    }
}

/// The longest application identifier with `prefix`; the first of equal length.
pub open spec fn longest_aid(lines: Seq<Seq<char>>, prefix: Seq<char>) -> Option<Seq<u8>>
    decreases lines.len(),
{
    if lines.len() == 0 {
        None
    } else {
        let best = longest_aid(lines.drop_last(), prefix);
        match aid_in_line(lines.last(), prefix) {
            Some(aid) => match best {
                Some(current) => if aid.len() > current.len() {
                    Some(aid)
                } else {
                    best
                },
                None => Some(aid),
            },
            None => best,
        }
    }
}

fn compact_line(line: &str) -> (r: Vec<char>)
    ensures
        r@ == compact_hex(line@),
        forall|i: int| 0 <= i < r@.len() ==> is_hex(#[trigger] r@[i]),
{
    let c = text::chars(line);
    let mut out: Vec<char> = Vec::new();
    let mut i: usize = 0;
    proof {
        assert(c@.take(0) =~= Seq::<char>::empty());
    }
    while i < c.len()
        invariant
            i <= c@.len(),
            out@ == compact_hex(c@.take(i as int)),
            forall|j: int| 0 <= j < out@.len() ==> is_hex(#[trigger] out@[j]),
        decreases c@.len() - i,
    {
        proof {
            assert(c@.take(i as int + 1).drop_last() =~= c@.take(i as int));
        }
        if hex_digit_of(c[i]).is_some() {
            out.push(text::lower_case_char(c[i]));
        }
        i += 1;
    }
    proof {
        assert(c@.take(c@.len() as int) =~= c@);
    }
    out
}

fn decode_hex_aid(c: &[char]) -> (r: Vec<u8>)
    requires
        forall|i: int| 0 <= i < c@.len() ==> is_hex(#[trigger] c@[i]),
    ensures
        r@ == bytes_of_hex(c@),
{
    let len = c.len();
    let n = len / 2;
    let mut out: Vec<u8> = Vec::new();
    let mut i: usize = 0;
    while i < n
        invariant
            i <= n,
            len == c@.len(),
            n == len / 2,
            out@.len() == i,
            forall|j: int| 0 <= j < c@.len() ==> is_hex(#[trigger] c@[j]),
            forall|j: int|
                0 <= j < i ==> #[trigger] out@[j] == (hex_digit(c@[2 * j]) * 16 + hex_digit(
                    c@[2 * j + 1],
                )) as u8,
        decreases n - i,
    {
        assert(is_hex(c@[2 * i as int]));
        assert(is_hex(c@[2 * i as int + 1]));
        let byte: u8 = match (hex_digit_of(c[2 * i]), hex_digit_of(c[2 * i + 1])) {
            (Some(high), Some(low)) => high * 16 + low,
            _ => 0,
        };
        out.push(byte);
        i += 1;
    }
    proof {
        assert(out@ =~= bytes_of_hex(c@));
    }
    out
}

fn read_aid(line: &str, prefix: &str) -> (r: Option<Vec<u8>>)
    ensures
        match r {
            Some(aid) => aid_in_line(line@, prefix@) == Some(aid@),
            None => aid_in_line(line@, prefix@) is None,
        },
{
    let compact = compact_line(line);
    let wanted = text::chars(prefix);
    match text::position_of(compact.as_slice(), wanted.as_slice()) {
        Some(start) => {
            let rest = vstd::slice::slice_subrange(compact.as_slice(), start, compact.len());
            proof {
                assert(rest@ =~= compact@.skip(start as int));
                assert forall|i: int| 0 <= i < rest@.len() implies is_hex(#[trigger] rest@[i]) by {
                    assert(rest@[i] == compact@[start + i]);
                }
            }
            Some(decode_hex_aid(rest))
        },
        None => None,
    }
}

/// The bytes behind an optional identifier.
pub open spec fn opt_aid(aid: Option<Vec<u8>>) -> Option<Seq<u8>> {
    match aid {
        Some(bytes) => Some(bytes@),
        None => None,
    }
}

fn find_aid(lines: &Vec<String>, prefix: &str) -> (r: Option<Vec<u8>>)
    ensures
        opt_aid(r) == longest_aid(texts(lines@), prefix@),
{
    let ghost all = texts(lines@);
    let mut best: Option<Vec<u8>> = None;
    let mut i: usize = 0;
    proof {
        assert(all.take(0) =~= Seq::<Seq<char>>::empty());
    }
    while i < lines.len()
        invariant
            i <= lines@.len(),
            all == texts(lines@),
            opt_aid(best) == longest_aid(all.take(i as int), prefix@),
        decreases lines@.len() - i,
    {
        proof {
            assert(all.take(i as int + 1).drop_last() =~= all.take(i as int));
            assert(all.take(i as int + 1).last() == lines@[i as int]@);
        }
        if let Some(aid) = read_aid(lines[i].as_str(), prefix) {
            let longer = match &best {
                Some(current) => aid.len() > current.len(),
                None => true,
            };
            if longer {
                best = Some(aid);
            }
        }
        i += 1;
    }
    proof {
        assert(all.take(all.len() as int) =~= all);
    }
    best
}

/// The USIM and ISIM applications in `qmicli` output, recognized by their
/// registered identifiers alone.
pub fn parse_uicc_applications(output: &str) -> (r: UiccApplications)
    ensures
        opt_aid(r.usim_aid) == longest_aid(lines_of(output@), "a0000000871002"@),
        opt_aid(r.isim_aid) == longest_aid(lines_of(output@), "a0000000871004"@),
{
    let lines = text::lines(output);
    UiccApplications {
        usim_aid: find_aid(&lines, "a0000000871002"),
        isim_aid: find_aid(&lines, "a0000000871004"),
    }
}

/// What the card returns from authentication.
#[derive(Debug, PartialEq, Eq)]
pub struct UsimAkaApduResult {
    pub res: Vec<u8>,
    pub ck: Vec<u8>,
    pub ik: Vec<u8>,
    /// Where the card asks for resynchronization.
    pub auts: Option<Vec<u8>>,
}

/// The outcome of an authentication on the card, given what the card returned or
/// the reason why it did not.
pub fn run_usim_aka(outcome: Result<UsimAkaApduResult, &'static str>) -> (r: Result<
    UsimAkaApduResult,
    VolteError,
>)
    ensures
        match outcome {
            Ok(result) => r == Ok::<UsimAkaApduResult, VolteError>(result),
            Err(reason) => r is Err && r->Err_0@ == detailed(code::USIM_AKA_FAILED@, reason@),
        },
{
    match outcome {
        Ok(result) => Ok(result),
        Err(reason) => Err(VolteError::with_detail(code::USIM_AKA_FAILED, reason)),
    }
}

// ---------------------------------------------------------------------------
// The subscriber of a line.

/// An IMSI that the SIM object reports, where it can be one.
pub open spec fn sim_imsi_of(sim: Seq<char>) -> Option<Seq<char>> {
    match value_of(sim, "sim.properties.imsi"@) {
        Some(imsi) => if imsi_valid(imsi) {
            Some(imsi)
        } else {
            None
        },
        None => None,
    }
}

/// The IMSI of a line and where it comes from: the modem's own reply, or else
/// the SIM object.
pub open spec fn line_imsi(cimi: Option<Seq<char>>, sim: Seq<char>) -> Option<(Seq<char>, bool)> {
    match cimi {
        Some(output) => match imsi_in(output) {
            Some(imsi) => Some((imsi, true)),
            None => match sim_imsi_of(sim) {
                Some(imsi) => Some((imsi, false)),
                None => None,
            },
        },
        None => match sim_imsi_of(sim) {
            Some(imsi) => Some((imsi, false)),
            None => None,
        },
    }
}

fn read_sim_imsi(sim: &str) -> (r: Option<String>)
    ensures
        opt(r) == sim_imsi_of(sim@),
{
    match modem_output::key_value(sim, "sim.properties.imsi") {
        Some(imsi) => if text::chars(imsi.as_str()).len() >= 5 && text::only_digits(
            imsi.as_str(),
        ) {
            Some(imsi)
        } else {
            None
        },
        None => None,
    }
}

/// The IMSI of a line; `true` where it is the modem's own reply. A command that
/// failed gave no output.
pub fn select_imsi(cimi_output: Option<&str>, sim_output: &str) -> (r: Result<
    (String, bool),
    VolteError,
>)
    ensures
        ({
            let wanted = line_imsi(
                match cimi_output {
                    Some(output) => Some(output@),
                    None => None,
                },
                sim_output@,
            );
            match r {
                Ok((imsi, own)) => wanted == Some((imsi@, own)),
                Err(error) => wanted is None && error@ == failure(code::IMSI_MISSING@),
            }
        }),
{
    if let Some(output) = cimi_output {
        if let Some(imsi) = parse_cimi_response(output) {
            return Ok((imsi, true));
        }
    }
    match read_sim_imsi(sim_output) {
        Some(imsi) => Ok((imsi, false)),
        None => Err(VolteError::new(code::IMSI_MISSING)),
    }
}

/// The first of the reported networks that is the IMSI's home.
pub open spec fn reported_home(imsi: Seq<char>, sim: Seq<char>, modem: Seq<char>) -> Option<
    Seq<char>,
> {
    let a = value_of(sim, "sim.properties.operator-id"@);
    let b = value_of(sim, "sim.properties.operator-identifier"@);
    let c = value_of(modem, "modem.3gpp.operator-code"@);
    if a is Some && home_plmn_valid(imsi, a->0) {
        a
    } else if b is Some && home_plmn_valid(imsi, b->0) {
        b
    } else if c is Some && home_plmn_valid(imsi, c->0) {
        c
    } else {
        None
    }
}

fn home_or_none(imsi: &str, candidate: Option<String>) -> (r: Option<String>)
    ensures
        opt(r) == (if opt(candidate) is Some && home_plmn_valid(imsi@, opt(candidate)->0) {
            opt(candidate)
        } else {
            None
        }),
{
    match candidate {
        Some(plmn) => if modem_output::valid_home_plmn(imsi, plmn.as_str()) {
            Some(plmn)
        } else {
            None
        },
        None => None,
    }
}

/// Finds the first of the reported networks that is the IMSI's home.
pub fn select_home_plmn(imsi: &str, sim_output: &str, modem_output: &str) -> (r: Option<String>)
    ensures
        opt(r) == reported_home(imsi@, sim_output@, modem_output@),
{
    let a = home_or_none(
        imsi,
        modem_output::key_value(sim_output, "sim.properties.operator-id"),
    );
    if a.is_some() {
        return a;
    }
    let b = home_or_none(
        imsi,
        modem_output::key_value(sim_output, "sim.properties.operator-identifier"),
    );
    if b.is_some() {
        return b;
    }
    home_or_none(imsi, modem_output::key_value(modem_output, "modem.3gpp.operator-code"))
}

/// How an identity was found.
pub open spec fn identity_source_of(own: bool, isim: bool) -> Seq<char> {
    if own && isim {
        "at_cimi_isim_detected"@
    } else if own {
        "at_cimi"@
    } else if isim {
        "sim_imsi_fallback_isim_detected"@
    } else {
        "sim_imsi_fallback"@
    }
}

/// How an identity was found.
pub fn identity_source(own: bool, isim: bool) -> (r: &'static str)
    ensures
        r@ == identity_source_of(own, isim),
{
    match (own, isim) {
        (true, true) => "at_cimi_isim_detected",
        (true, false) => "at_cimi",
        (false, true) => "sim_imsi_fallback_isim_detected",
        (false, false) => "sim_imsi_fallback",
    }
}

} // verus!
