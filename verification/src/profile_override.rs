//! What a user changed for one SIM, and the record that binds it to that SIM.

use vstd::prelude::*;
use vstd::string::*;
use vstd::utf8::encode_utf8;

use crate::ip::hex_char;
use crate::text;
use crate::text::{decimal, is_digit, is_space, opt, texts};

verus! {

/// The version of stored override records.
pub const OVERRIDE_SCHEMA_VERSION: u32 = 1;

/// Where a value came from.
#[derive(Debug, Clone, Copy, PartialEq, Eq, Structural)]
pub enum OverrideSource {
    Catalog,
    SimOverride,
    Modem,
    Network,
}

/// Why an override could not be bound, read or stored.
#[derive(Debug, PartialEq, Eq)]
pub struct OverrideError {
    pub code: String,
}

impl OverrideError {
    pub fn new(code: &str) -> (r: Self)
        ensures
            r.code@ == code@,
    {
        OverrideError { code: code.to_string() }
    }

    pub fn with_number(code: &str, number: u32) -> (r: Self)
        ensures
            r.code@ == code@ + decimal(number as nat),
    {
        let mut code = code.to_string();
        let digits = text::decimal_string(number as u64);
        code.append(digits.as_str());
        OverrideError { code }
    }

    /// The error of a record that cannot be read, with the reason.
    pub fn corrupt(reason: &str) -> (r: Self)
        ensures
            r.code@ == "sim_override_corrupt:"@ + reason@,
    {
        let mut code = "sim_override_corrupt:".to_string();
        code.append(reason);
        OverrideError { code }
    }

    pub fn code(&self) -> (r: &str)
        ensures
            r@ == self.code@,
    {
        self.code.as_str()
    }

    /// The code.
    pub fn to_string(&self) -> (r: String)
        ensures
            r@ == self.code@,
    {
        self.code.clone()
    }
}

// ---------------------------------------------------------------------------
// SIM identity.

/// The digits of a text, in order.
pub open spec fn digits_of(s: Seq<char>) -> Seq<char> {
    s.filter(|c: char| is_digit(c))
}

/// The text without white space, in order.
pub open spec fn without_space(s: Seq<char>) -> Seq<char> {
    s.filter(|c: char| !is_space(c))
}

/// An EID: exactly 32 digits once white space is gone; anything else is none.
pub open spec fn eid_of(s: Seq<char>) -> Seq<char> {
    let cleaned = without_space(s);
    if cleaned.len() == 32 && text::all_digits(cleaned) {
        cleaned
    } else {
        Seq::empty()
    }
}

fn keep_digits(s: &str) -> (r: String)
    ensures
        r@ == digits_of(s@),
{
    let c = text::chars(s);
    let mut out: Vec<char> = Vec::new();
    let mut i: usize = 0;
    proof {
        reveal(Seq::filter);
        assert(c@.take(0) =~= Seq::<char>::empty());
    }
    while i < c.len()
        invariant
            i <= c@.len(),
            out@ == digits_of(c@.take(i as int)),
        decreases c@.len() - i,
    {
        proof {
            reveal(Seq::filter);
            assert(c@.take(i as int + 1).drop_last() =~= c@.take(i as int));
        }
        if text::char_is_digit(c[i]) {
            out.push(c[i]);
        }
        i += 1;
    }
    proof {
        assert(c@.take(c@.len() as int) =~= c@);
    }
    text::string(out.as_slice())
}

fn drop_space(s: &str) -> (r: String)
    ensures
        r@ == without_space(s@),
{
    let c = text::chars(s);
    let mut out: Vec<char> = Vec::new();
    let mut i: usize = 0;
    proof {
        reveal(Seq::filter);
        assert(c@.take(0) =~= Seq::<char>::empty());
    }
    while i < c.len()
        invariant
            i <= c@.len(),
            out@ == without_space(c@.take(i as int)),
        decreases c@.len() - i,
    {
        proof {
            reveal(Seq::filter);
            assert(c@.take(i as int + 1).drop_last() =~= c@.take(i as int));
        }
        if !text::char_is_space(c[i]) {
            out.push(c[i]);
        }
        i += 1;
    }
    proof {
        assert(c@.take(c@.len() as int) =~= c@);
    }
    text::string(out.as_slice())
}

/// The ICCID that a reader's text writes: its digits.
pub fn normalize_iccid(iccid: &str) -> (r: String)
    ensures
        r@ == digits_of(iccid@),
{
    keep_digits(iccid)
}

/// The EID that a reader's text writes: exactly 32 digits, or the empty text.
pub fn normalize_eid(eid: &str) -> (r: String)
    ensures
        r@ == eid_of(eid@),
{
    let cleaned = drop_space(eid);
    if text::chars(cleaned.as_str()).len() == 32 && text::only_digits(cleaned.as_str()) {
        cleaned
    } else {
        String::new()
    }
}

/// Normalizing an EID again changes nothing.
pub proof fn eid_is_normal(s: Seq<char>)
    ensures
        eid_of(eid_of(s)) == eid_of(s),
{
    let e = eid_of(s);
    reveal(Seq::filter);
    assert forall|i: int| 0 <= i < e.len() implies !is_space(#[trigger] e[i]) by {
        assert(is_digit(e[i]));
    }
    lemma_nothing_to_drop(e);
}

proof fn lemma_nothing_to_drop(s: Seq<char>)
    requires
        forall|i: int| 0 <= i < s.len() ==> !is_space(#[trigger] s[i]),
    ensures
        without_space(s) == s,
    decreases s.len(),
{
    reveal(Seq::filter);
    if s.len() > 0 {
        assert forall|i: int| 0 <= i < s.drop_last().len() implies !is_space(
            #[trigger] s.drop_last()[i],
        ) by {
            assert(!is_space(s[i]));
        }
        lemma_nothing_to_drop(s.drop_last());
        assert(!is_space(s[s.len() - 1]));
        assert(s.drop_last().push(s.last()) =~= s);
    }
}

/// The identity of one SIM for the purposes of user overrides. It does not
/// depend on the slot that the SIM sits in.
#[derive(Debug, PartialEq, Eq)]
pub enum SimBindingKey {
    /// A plain SIM, or a eUICC whose EID could not be read.
    Plain { iccid: String },
    /// A eUICC with its EID and the ICCID of the enabled profile.
    Euicc { eid: String, profile_iccid: String },
}

pub enum KeyView {
    Plain { iccid: Seq<char> },
    Euicc { eid: Seq<char>, profile_iccid: Seq<char> },
}

impl View for SimBindingKey {
    type V = KeyView;

    open spec fn view(&self) -> KeyView {
        match *self {
            SimBindingKey::Plain { iccid } => KeyView::Plain { iccid: iccid@ },
            SimBindingKey::Euicc { eid, profile_iccid } => KeyView::Euicc {
                eid: eid@,
                profile_iccid: profile_iccid@,
            },
        }
    }
}

impl KeyView {
    /// The text that is hashed: the kind and its identifiers, set off by a null.
    pub open spec fn canonical(self) -> Seq<char> {
        match self {
            KeyView::Plain { iccid } => "plain\0"@ + iccid,
            KeyView::Euicc { eid, profile_iccid } => "euicc\0"@ + eid + "\0"@ + profile_iccid,
        }
    }

    pub open spec fn spec_iccid(self) -> Seq<char> {
        match self {
            KeyView::Plain { iccid } => iccid,
            KeyView::Euicc { eid, profile_iccid } => profile_iccid,
        }
    }

    /// The name that the key is stored under: the SHA-256 digest of its text, in
    /// hexadecimal.
    pub open spec fn hash(self) -> Seq<char> {
        hex_bytes(sha256_digest(encode_utf8(self.canonical())))
    }

    /// The text is short enough to be hashed.
    pub open spec fn hashable(self) -> bool {
        encode_utf8(self.canonical()).len() < 0x2000_0000_0000_0000
    }
}

/// The key of a SIM whose readable identity is given; none without an ICCID.
pub open spec fn binding_of(iccid: Option<Seq<char>>, eid: Option<Seq<char>>) -> Option<KeyView> {
    let digits = digits_of(
        match iccid {
            Some(text) => text,
            None => Seq::empty(),
        },
    );
    let eid = match eid {
        Some(text) => eid_of(text),
        None => Seq::empty(),
    };
    if digits.len() == 0 {
        None
    } else if eid.len() > 0 {
        Some(KeyView::Euicc { eid, profile_iccid: digits })
    } else {
        Some(KeyView::Plain { iccid: digits })
    }
}

/// The SHA-256 digest of `data`.
pub uninterp spec fn sha256_digest(data: Seq<u8>) -> Seq<u8>;

/// `ring::digest::digest` with `SHA256`: 32 bytes that depend on the data alone.
/// It takes inputs of less than 2^64 bits.
#[verifier::external_body]
fn sha256_bytes(data: &[u8]) -> (r: Vec<u8>)
    requires
        data@.len() < 0x2000_0000_0000_0000,
    ensures
        r@ == sha256_digest(data@),
        r@.len() == 32,
{
    ring::digest::digest(&ring::digest::SHA256, data).as_ref().to_vec()
}

/// Two lower-case hexadecimal digits for each byte.
pub open spec fn hex_bytes(bytes: Seq<u8>) -> Seq<char>
    decreases bytes.len(),
{
    if bytes.len() == 0 {
        Seq::empty()
    } else {
        hex_bytes(bytes.drop_last()).push(hex_char((bytes.last() / 16) as nat)).push(
            hex_char((bytes.last() % 16) as nat),
        )
    }
}

pub proof fn lemma_hex_len(bytes: Seq<u8>)
    ensures
        hex_bytes(bytes).len() == 2 * bytes.len(),
    decreases bytes.len(),
{
    if bytes.len() > 0 {
        lemma_hex_len(bytes.drop_last());
    }
}

fn hex_digit_char(d: u8) -> (r: char)
    requires
        d < 16,
    ensures
        r == hex_char(d as nat),
{
    if d < 10 {
        (48 + d) as char
    } else {
        (87 + d) as char
    }
}

/// `bytes` in hexadecimal.
pub fn hex_string_of(bytes: &[u8]) -> (r: String)
    ensures
        r@ == hex_bytes(bytes@),
{
    let mut out: Vec<char> = Vec::new();
    let mut i: usize = 0;
    proof {
        assert(bytes@.take(0) =~= Seq::<u8>::empty());
    }
    while i < bytes.len()
        invariant
            i <= bytes@.len(),
            out@ == hex_bytes(bytes@.take(i as int)),
        decreases bytes@.len() - i,
    {
        proof {
            assert(bytes@.take(i as int + 1).drop_last() =~= bytes@.take(i as int));
        }
        out.push(hex_digit_char(bytes[i] / 16));
        out.push(hex_digit_char(bytes[i] % 16));
        i += 1;
    }
    proof {
        assert(bytes@.take(bytes@.len() as int) =~= bytes@);
    }
    text::string(out.as_slice())
}

impl SimBindingKey {
    /// The key of a SIM. Without an ICCID it fails; an EID that is not one is
    /// passed over.
    pub fn resolve(iccid: Option<&str>, eid: Option<&str>) -> (r: Result<Self, OverrideError>)
        ensures
            ({
                let wanted = binding_of(
                    match iccid {
                        Some(text) => Some(text@),
                        None => None,
                    },
                    match eid {
                        Some(text) => Some(text@),
                        None => None,
                    },
                );
                match r {
                    Ok(key) => wanted == Some(key@),
                    Err(error) => wanted is None && error.code@ == "sim_identity_not_ready"@,
                }
            }),
    {
        let digits = match iccid {
            Some(text) => normalize_iccid(text),
            None => {
                proof {
                    reveal(Seq::filter);
                }
                String::new()
            },
        };
        if digits.as_str().is_empty() {
            return Err(OverrideError::new("sim_identity_not_ready"));
        }
        match eid {
            Some(text) => {
                let eid = normalize_eid(text);
                if eid.as_str().is_empty() {
                    Ok(SimBindingKey::Plain { iccid: digits })
                } else {
                    Ok(SimBindingKey::Euicc { eid, profile_iccid: digits })
                }
            },
            None => Ok(SimBindingKey::Plain { iccid: digits }),
        }
    }

    /// The EID of a eUICC.
    pub fn normalized_eid(&self) -> (r: Option<&str>)
        ensures
            match (r, self@) {
                (Some(text), KeyView::Euicc { eid, profile_iccid }) => text@ == eid,
                (None, KeyView::Plain { iccid }) => true,
                _ => false,
            },
    {
        match self {
            SimBindingKey::Euicc { eid, .. } => Some(eid.as_str()),
            SimBindingKey::Plain { .. } => None,
        }
    }

    /// The ICCID; that of the enabled profile on a eUICC.
    pub fn iccid(&self) -> (r: &str)
        ensures
            r@ == self@.spec_iccid(),
    {
        match self {
            SimBindingKey::Plain { iccid } => iccid.as_str(),
            SimBindingKey::Euicc { profile_iccid, .. } => profile_iccid.as_str(),
        }
    }

    fn canonical_text(&self) -> (r: String)
        ensures
            r@ == self@.canonical(),
    {
        match self {
            SimBindingKey::Plain { iccid } => {
                let mut s = "plain\0".to_string();
                s.append(iccid.as_str());
                s
            },
            SimBindingKey::Euicc { eid, profile_iccid } => {
                let mut s = "euicc\0".to_string();
                s.append(eid.as_str());
                s.append("\0");
                s.append(profile_iccid.as_str());
                s
            },
        }
    }

    /// The name that the key is stored under.
    pub fn sha256(&self) -> (r: String)
        requires
            self@.hashable(),
        ensures
            r@ == self@.hash(),
            r@.len() == 64,
    {
        let canonical = self.canonical_text();
        let digest = sha256_bytes(canonical.as_str().as_bytes());
        proof {
            lemma_hex_len(digest@);
        }
        hex_string_of(digest.as_slice())
    }

    /// The name that the key is stored under, unless its identifiers are too long
    /// to be hashed.
    pub fn checked_sha256(&self) -> (r: Option<String>)
        ensures
            match r {
                Some(hash) => self@.hashable() && hash@ == self@.hash(),
                None => !self@.hashable(),
            },
    {
        let canonical = self.canonical_text();
        let bytes = canonical.as_str().as_bytes();
        if (bytes.len() as u64) < 0x2000_0000_0000_0000 {
            Some(self.sha256())
        } else {
            None
        }
    }

    /// The two keys are the same.
    pub fn same(&self, other: &SimBindingKey) -> (r: bool)
        ensures
            r == (self@ == other@),
    {
        match (self, other) {
            (SimBindingKey::Plain { iccid: a }, SimBindingKey::Plain { iccid: b }) => text::same(
                a.as_str(),
                b.as_str(),
            ),
            (
                SimBindingKey::Euicc { eid: a, profile_iccid: c },
                SimBindingKey::Euicc { eid: b, profile_iccid: d },
            ) => text::same(a.as_str(), b.as_str()) && text::same(c.as_str(), d.as_str()),
            _ => false,
        }
    }
}

impl Clone for SimBindingKey {
    fn clone(&self) -> (r: Self)
        ensures
            r@ == self@,
    {
        match self {
            SimBindingKey::Plain { iccid } => SimBindingKey::Plain { iccid: iccid.clone() },
            SimBindingKey::Euicc { eid, profile_iccid } => SimBindingKey::Euicc {
                eid: eid.clone(),
                profile_iccid: profile_iccid.clone(),
            },
        }
    }
}

/// A eUICC whose enabled profile changes has another key, and so has one whose
/// EID differs.
pub proof fn profile_switch_changes_binding(
    eid: Seq<char>,
    other_eid: Seq<char>,
    iccid: Seq<char>,
    other_iccid: Seq<char>,
)
    requires
        digits_of(iccid).len() > 0,
        digits_of(other_iccid).len() > 0,
        digits_of(iccid) != digits_of(other_iccid) || eid_of(eid) != eid_of(other_eid),
    ensures
        binding_of(Some(iccid), Some(eid)) != binding_of(Some(other_iccid), Some(other_eid)),
{
}

/// The identifiers of a key hold no null, as those that were normalized hold none.
pub open spec fn without_null(key: KeyView) -> bool {
    match key {
        KeyView::Plain { iccid } => !iccid.contains('\0'),
        KeyView::Euicc { eid, profile_iccid } => !eid.contains('\0') && !profile_iccid.contains(
            '\0',
        ),
    }
}

proof fn lemma_split_once(a: Seq<char>, b: Seq<char>, r: Seq<char>, t: Seq<char>)
    requires
        !a.contains('\0'),
        !b.contains('\0'),
        a + seq!['\0'] + r == b + seq!['\0'] + t,
    ensures
        a == b,
        r == t,
{
    let s = a + seq!['\0'] + r;
    assert(s[a.len() as int] == '\0');
    assert(s[b.len() as int] == '\0');
    if a.len() < b.len() {
        assert(b[a.len() as int] == s[a.len() as int]);
    } else if b.len() < a.len() {
        assert(a[b.len() as int] == s[b.len() as int]);
    }
    assert(a =~= s.take(a.len() as int));
    assert(b =~= s.take(a.len() as int));
    assert(r =~= s.skip(a.len() as int + 1));
    assert(t =~= s.skip(a.len() as int + 1));
}

/// The keys of different SIMs have different texts to be hashed.
pub proof fn keys_have_distinct_texts(a: KeyView, b: KeyView)
    requires
        a != b,
        without_null(a),
        without_null(b),
    ensures
        a.canonical() != b.canonical(),
{
    reveal_strlit("plain\0");
    reveal_strlit("euicc\0");
    reveal_strlit("\0");
    assert("\0"@ =~= seq!['\0']);
    if a.canonical() == b.canonical() {
        assert(a.canonical()[0] == b.canonical()[0]);
        match (a, b) {
            (KeyView::Plain { iccid }, KeyView::Plain { iccid: other }) => {
                assert(a.canonical().skip(6) =~= iccid);
                assert(b.canonical().skip(6) =~= other);
            },
            (
                KeyView::Euicc { eid, profile_iccid },
                KeyView::Euicc { eid: other, profile_iccid: iccid },
            ) => {
                assert(a.canonical().skip(6) =~= eid + seq!['\0'] + profile_iccid);
                assert(b.canonical().skip(6) =~= other + seq!['\0'] + iccid);
                lemma_split_once(eid, other, profile_iccid, iccid);
            },
            _ => {},
        }
    }
}

/// The identifiers of a key that was resolved hold no null.
pub proof fn resolved_keys_hold_no_null(iccid: Option<Seq<char>>, eid: Option<Seq<char>>)
    ensures
        match binding_of(iccid, eid) {
            Some(key) => without_null(key),
            None => true,
        },
{
    if let Some(text) = iccid {
        let kept = digits_of(text);
        if kept.contains('\0') {
            text.lemma_filter_contains_rev(|c: char| is_digit(c), '\0');
            assert(is_digit('\0'));
        }
    }
    if let Some(text) = eid {
        let kept = eid_of(text);
        if kept.contains('\0') {
            assert(is_digit('\0'));
        }
    }
}

// ---------------------------------------------------------------------------
// What a user may change.

/// Connection facts that the user may change for one access. A fact that is
/// absent is inherited from the carrier catalog.
#[derive(Debug, PartialEq, Eq)]
pub struct ImsAccessOverride {
    pub profile_id: Option<String>,
    pub apn: Option<String>,
    pub domain: Option<String>,
    pub realm: Option<String>,
    pub registrar: Option<String>,
    pub pcscf: Option<Vec<String>>,
    pub epdg_host: Option<String>,
    pub epdg_port: Option<u16>,
    pub ip_stack: Option<String>,
    pub dns: Option<Vec<String>>,
    /// Present another subscriber identity to the carrier.
    pub spoof_imsi: bool,
    /// The identity to present then.
    pub custom_imsi: Option<String>,
}

pub struct AccessView {
    pub profile_id: Option<Seq<char>>,
    pub apn: Option<Seq<char>>,
    pub domain: Option<Seq<char>>,
    pub realm: Option<Seq<char>>,
    pub registrar: Option<Seq<char>>,
    pub pcscf: Option<Seq<Seq<char>>>,
    pub epdg_host: Option<Seq<char>>,
    pub epdg_port: Option<u16>,
    pub ip_stack: Option<Seq<char>>,
    pub dns: Option<Seq<Seq<char>>>,
    pub spoof_imsi: bool,
    pub custom_imsi: Option<Seq<char>>,
}

/// The texts of an optional list.
pub open spec fn opt_texts(list: Option<Vec<String>>) -> Option<Seq<Seq<char>>> {
    match list {
        Some(list) => Some(texts(list@)),
        None => None,
    }
}

impl View for ImsAccessOverride {
    type V = AccessView;

    open spec fn view(&self) -> AccessView {
        AccessView {
            profile_id: opt(self.profile_id),
            apn: opt(self.apn),
            domain: opt(self.domain),
            realm: opt(self.realm),
            registrar: opt(self.registrar),
            pcscf: opt_texts(self.pcscf),
            epdg_host: opt(self.epdg_host),
            epdg_port: self.epdg_port,
            ip_stack: opt(self.ip_stack),
            dns: opt_texts(self.dns),
            spoof_imsi: self.spoof_imsi,
            custom_imsi: opt(self.custom_imsi),
        }
    }
}

/// An access that changes nothing.
pub open spec fn no_access() -> AccessView {
    AccessView {
        profile_id: None,
        apn: None,
        domain: None,
        realm: None,
        registrar: None,
        pcscf: None,
        epdg_host: None,
        epdg_port: None,
        ip_stack: None,
        dns: None,
        spoof_imsi: false,
        custom_imsi: None,
    }
}

/// A copy of a list of texts.
pub fn copy_texts(list: &Vec<String>) -> (r: Vec<String>)
    ensures
        texts(r@) == texts(list@),
{
    let mut out: Vec<String> = Vec::new();
    let mut i: usize = 0;
    while i < list.len()
        invariant
            i <= list@.len(),
            out@.len() == i,
            forall|j: int| 0 <= j < i ==> out@[j]@ == list@[j]@,
        decreases list@.len() - i,
    {
        out.push(list[i].clone());
        i += 1;
    }
    proof {
        assert(texts(out@) =~= texts(list@));
    }
    out
}

fn copy_opt_texts(list: &Option<Vec<String>>) -> (r: Option<Vec<String>>)
    ensures
        opt_texts(r) == opt_texts(*list),
{
    match list {
        Some(list) => Some(copy_texts(list)),
        None => None,
    }
}

impl ImsAccessOverride {
    /// Nothing is changed.
    pub fn is_empty(&self) -> (r: bool)
        ensures
            r == (self@ == no_access()),
    {
        self.profile_id.is_none() && self.apn.is_none() && self.domain.is_none()
            && self.realm.is_none() && self.registrar.is_none() && self.pcscf.is_none()
            && self.epdg_host.is_none() && self.epdg_port.is_none() && self.ip_stack.is_none()
            && self.dns.is_none() && !self.spoof_imsi && self.custom_imsi.is_none()
    }
}

impl Clone for ImsAccessOverride {
    fn clone(&self) -> (r: Self)
        ensures
            r@ == self@,
    {
        ImsAccessOverride {
            profile_id: self.profile_id.clone(),
            apn: self.apn.clone(),
            domain: self.domain.clone(),
            realm: self.realm.clone(),
            registrar: self.registrar.clone(),
            pcscf: copy_opt_texts(&self.pcscf),
            epdg_host: self.epdg_host.clone(),
            epdg_port: self.epdg_port,
            ip_stack: self.ip_stack.clone(),
            dns: copy_opt_texts(&self.dns),
            spoof_imsi: self.spoof_imsi,
            custom_imsi: self.custom_imsi.clone(),
        }
    }
}

impl Default for ImsAccessOverride {
    fn default() -> (r: Self)
        ensures
            r@ == no_access(),
    {
        ImsAccessOverride {
            profile_id: None,
            apn: None,
            domain: None,
            realm: None,
            registrar: None,
            pcscf: None,
            epdg_host: None,
            epdg_port: None,
            ip_stack: None,
            dns: None,
            spoof_imsi: false,
            custom_imsi: None,
        }
    }
}

/// Facts that follow the SIM on every access.
#[derive(Debug, PartialEq, Eq)]
pub struct ImsCommonOverride {
    /// The IMEI to present in place of the device's own.
    pub custom_imei: Option<String>,
    pub voicemail_number: Option<String>,
}

impl ImsCommonOverride {
    pub fn is_empty(&self) -> (r: bool)
        ensures
            r == (self.custom_imei is None && self.voicemail_number is None),
    {
        self.custom_imei.is_none() && self.voicemail_number.is_none()
    }
}

impl Clone for ImsCommonOverride {
    fn clone(&self) -> (r: Self)
        ensures
            r == *self,
    {
        ImsCommonOverride {
            custom_imei: self.custom_imei.clone(),
            voicemail_number: self.voicemail_number.clone(),
        }
    }
}

impl Default for ImsCommonOverride {
    fn default() -> (r: Self)
        ensures
            r.custom_imei is None,
            r.voicemail_number is None,
    {
        ImsCommonOverride { custom_imei: None, voicemail_number: None }
    }
}

/// Supplementary-service preferences that follow the SIM.
#[derive(Debug, Clone, Copy, PartialEq, Eq, Structural)]
pub struct ServicesOverride {
    pub call_waiting: Option<bool>,
    pub caller_id_restriction: Option<bool>,
}

impl ServicesOverride {
    pub fn is_empty(&self) -> (r: bool)
        ensures
            r == (self.call_waiting is None && self.caller_id_restriction is None),
    {
        self.call_waiting.is_none() && self.caller_id_restriction.is_none()
    }
}

impl Default for ServicesOverride {
    fn default() -> (r: Self)
        ensures
            r.call_waiting is None,
            r.caller_id_restriction is None,
    {
        ServicesOverride { call_waiting: None, caller_id_restriction: None }
    }
}

/// Emergency facts that the user entered. They prove nothing about what the
/// carrier has confirmed.
#[derive(Debug, PartialEq, Eq)]
pub struct EmergencyOverride {
    pub e911_address: Option<String>,
}

impl EmergencyOverride {
    pub fn is_empty(&self) -> (r: bool)
        ensures
            r == (self.e911_address is None),
    {
        self.e911_address.is_none()
    }
}

impl Clone for EmergencyOverride {
    fn clone(&self) -> (r: Self)
        ensures
            r == *self,
    {
        EmergencyOverride { e911_address: self.e911_address.clone() }
    }
}

impl Default for EmergencyOverride {
    fn default() -> (r: Self)
        ensures
            r.e911_address is None,
    {
        EmergencyOverride { e911_address: None }
    }
}

/// Everything that the user changed for one SIM.
#[derive(Debug, PartialEq, Eq)]
pub struct SimOverride {
    pub ims_common: ImsCommonOverride,
    pub ims_volte: ImsAccessOverride,
    pub ims_vowifi: ImsAccessOverride,
    pub services: ServicesOverride,
    pub emergency: EmergencyOverride,
}

pub struct OverrideView {
    pub custom_imei: Option<Seq<char>>,
    pub voicemail_number: Option<Seq<char>>,
    pub volte: AccessView,
    pub vowifi: AccessView,
    pub services: ServicesOverride,
    pub e911_address: Option<Seq<char>>,
}

impl View for SimOverride {
    type V = OverrideView;

    open spec fn view(&self) -> OverrideView {
        OverrideView {
            custom_imei: opt(self.ims_common.custom_imei),
            voicemail_number: opt(self.ims_common.voicemail_number),
            volte: self.ims_volte@,
            vowifi: self.ims_vowifi@,
            services: self.services,
            e911_address: opt(self.emergency.e911_address),
        }
    }
}

/// An override that changes nothing.
pub open spec fn no_override() -> OverrideView {
    OverrideView {
        custom_imei: None,
        voicemail_number: None,
        volte: no_access(),
        vowifi: no_access(),
        services: ServicesOverride { call_waiting: None, caller_id_restriction: None },
        e911_address: None,
    }
}

impl SimOverride {
    /// Nothing is changed. Such an override is removed instead of stored.
    pub fn is_empty(&self) -> (r: bool)
        ensures
            r == (self@ == no_override()),
    {
        self.ims_common.is_empty() && self.ims_volte.is_empty() && self.ims_vowifi.is_empty()
            && self.services.is_empty() && self.emergency.is_empty()
    }

    /// The override as it is shown.
    pub fn sanitized(&self) -> (r: Self)
        ensures
            r@ == self@,
    {
        self.clone()
    }
}

impl Clone for SimOverride {
    fn clone(&self) -> (r: Self)
        ensures
            r@ == self@,
    {
        SimOverride {
            ims_common: self.ims_common.clone(),
            ims_volte: self.ims_volte.clone(),
            ims_vowifi: self.ims_vowifi.clone(),
            services: self.services,
            emergency: self.emergency.clone(),
        }
    }
}

impl Default for SimOverride {
    fn default() -> (r: Self)
        ensures
            r@ == no_override(),
    {
        SimOverride {
            ims_common: ImsCommonOverride::default(),
            ims_volte: ImsAccessOverride::default(),
            ims_vowifi: ImsAccessOverride::default(),
            services: ServicesOverride::default(),
            emergency: EmergencyOverride::default(),
        }
    }
}

// ---------------------------------------------------------------------------
// Stored records.

/// The IMS sections of a stored record.
#[derive(Debug, PartialEq, Eq)]
pub struct StoredImsOverrides {
    pub common: ImsCommonOverride,
    pub volte: ImsAccessOverride,
    pub vowifi: ImsAccessOverride,
}

/// A stored record: an override and the SIM that it belongs to.
#[derive(Debug, PartialEq, Eq)]
pub struct OverrideFile {
    pub schema_version: u32,
    pub binding: SimBindingKey,
    pub ims: StoredImsOverrides,
    pub services: ServicesOverride,
    pub emergency: EmergencyOverride,
}

impl OverrideFile {
    /// The override that a record holds.
    pub open spec fn held(self) -> OverrideView {
        OverrideView {
            custom_imei: opt(self.ims.common.custom_imei),
            voicemail_number: opt(self.ims.common.voicemail_number),
            volte: self.ims.volte@,
            vowifi: self.ims.vowifi@,
            services: self.services,
            e911_address: opt(self.emergency.e911_address),
        }
    }

    /// The record of `override_` for the SIM `key`.
    pub fn from_override(key: &SimBindingKey, override_: &SimOverride) -> (r: Self)
        ensures
            r.schema_version == OVERRIDE_SCHEMA_VERSION,
            r.binding@ == key@,
            r.held() == override_@,
    {
        OverrideFile {
            schema_version: OVERRIDE_SCHEMA_VERSION,
            binding: key.clone(),
            ims: StoredImsOverrides {
                common: override_.ims_common.clone(),
                volte: override_.ims_volte.clone(),
                vowifi: override_.ims_vowifi.clone(),
            },
            services: override_.services,
            emergency: override_.emergency.clone(),
        }
    }

    /// The override that the record holds.
    pub fn into_override(self) -> (r: SimOverride)
        ensures
            r@ == self.held(),
    {
        SimOverride {
            ims_common: self.ims.common,
            ims_volte: self.ims.volte,
            ims_vowifi: self.ims.vowifi,
            services: self.services,
            emergency: self.emergency,
        }
    }
}

/// What reading the record `stored` for the SIM `key` yields.
pub open spec fn loaded(
    stored: Option<Result<OverrideFile, Seq<char>>>,
    key: KeyView,
) -> Result<Option<OverrideView>, Seq<char>> {
    match stored {
        None => Ok(None),
        Some(Err(reason)) => Err("sim_override_corrupt:"@ + reason),
        Some(Ok(file)) => if file.schema_version != OVERRIDE_SCHEMA_VERSION {
            Err("sim_override_unsupported_schema:"@ + decimal(file.schema_version as nat))
        } else if file.binding@ != key {
            Err("sim_override_binding_mismatch"@)
        } else {
            Ok(Some(file.held()))
        },
    }
}

/// What reading a database row for the SIM `key` yields: the row repeats the
/// version of the record.
pub open spec fn loaded_row(
    row_version: u32,
    document: Result<OverrideFile, Seq<char>>,
    key: KeyView,
) -> Result<OverrideView, Seq<char>> {
    if row_version != OVERRIDE_SCHEMA_VERSION {
        Err("sim_override_unsupported_schema:"@ + decimal(row_version as nat))
    } else {
        match document {
            Err(reason) => Err("sim_override_corrupt:"@ + reason),
            Ok(file) => if file.schema_version != row_version {
                Err("sim_override_schema_mismatch"@)
            } else if file.binding@ != key {
                Err("sim_override_binding_mismatch"@)
            } else {
                Ok(file.held())
            },
        }
    }
}

/// How an override is stored. Records go by the hash of their SIM's key.
#[derive(Debug, PartialEq, Eq)]
pub enum SaveAction {
    /// Remove the record, where there is one.
    Remove { record: String },
    /// Replace the record.
    Write { record: String, file: OverrideFile },
}

/// The records of a store by the hashes that they go by.
pub type Records = Map<Seq<char>, OverrideFile>;

/// The records once an action is carried out.
pub open spec fn records_after(records: Records, action: SaveAction) -> Records {
    match action {
        SaveAction::Remove { record } => records.remove(record@),
        SaveAction::Write { record, file } => records.insert(record@, file),
    }
}

/// A record that was read, or why it cannot be.
pub open spec fn stored_view(stored: Option<Result<OverrideFile, String>>) -> Option<
    Result<OverrideFile, Seq<char>>,
> {
    match stored {
        None => None,
        Some(Ok(file)) => Some(Ok(file)),
        Some(Err(reason)) => Some(Err(reason@)),
    }
}

/// What is loaded for a SIM.
pub open spec fn loaded_from(records: Records, key: KeyView) -> Result<
    Option<OverrideView>,
    Seq<char>,
> {
    loaded(
        if records.contains_key(key.hash()) {
            Some(Ok(records[key.hash()]))
        } else {
            None
        },
        key,
    )
}

/// Where overrides are kept: in one file for each SIM below a directory, or in a
/// database.
#[derive(Debug, PartialEq, Eq)]
pub struct SimOverrideStore {
    directory: Option<String>,
}

impl SimOverrideStore {
    /// The directory of the store; none where it is a database.
    pub closed spec fn directory_path(&self) -> Option<Seq<char>> {
        opt(self.directory)
    }

    /// A store below `dir`.
    pub fn new(dir: &str) -> (r: Self)
        ensures
            r.directory_path() == Some(dir@),
    {
        SimOverrideStore { directory: Some(dir.to_string()) }
    }

    /// A store in the application's database.
    pub fn database() -> (r: Self)
        ensures
            r.directory_path() is None,
    {
        SimOverrideStore { directory: None }
    }

    /// The store of this process: `directory` is the recovery directory that the
    /// environment names.
    pub fn resolve(directory: Option<&str>) -> (r: Self)
        ensures
            match directory {
                Some(dir) => if dir@.len() > 0 {
                    r.directory_path() == Some(dir@)
                } else {
                    r.directory_path() is None
                },
                None => r.directory_path() is None,
            },
    {
        match directory {
            Some(dir) => if dir.is_empty() {
                Self::database()
            } else {
                Self::new(dir)
            },
            None => Self::database(),
        }
    }

    /// The directory of the store, or the empty text where it is a database.
    pub fn dir(&self) -> (r: &str)
        ensures
            match self.directory_path() {
                Some(dir) => r@ == dir,
                None => r@ == ""@,
            },
    {
        match &self.directory {
            Some(dir) => dir.as_str(),
            None => "",
        }
    }

    /// The name of the file that holds the override of `key`.
    pub fn file_name_for(&self, key: &SimBindingKey) -> (r: String)
        requires
            key@.hashable(),
        ensures
            r@ == key@.hash() + ".json"@,
    {
        let mut name = key.sha256();
        name.append(".json");
        name
    }

    /// The override of `key`, given the record that was read under its name, or why
    /// that cannot be read. A record of another version or another SIM is refused.
    pub fn load(
        &self,
        key: &SimBindingKey,
        stored: Option<Result<OverrideFile, String>>,
    ) -> (r: Result<Option<SimOverride>, OverrideError>)
        ensures
            ({
                let wanted = loaded(stored_view(stored), key@);
                match r {
                    Ok(None) => wanted == Ok::<Option<OverrideView>, Seq<char>>(None),
                    Ok(Some(found)) => wanted == Ok::<Option<OverrideView>, Seq<char>>(
                        Some(found@),
                    ),
                    Err(error) => wanted == Err::<Option<OverrideView>, Seq<char>>(error.code@),
                }
            }),
    {
        match stored {
            None => Ok(None),
            Some(Err(reason)) => Err(OverrideError::corrupt(reason.as_str())),
            Some(Ok(file)) => {
                if file.schema_version != OVERRIDE_SCHEMA_VERSION {
                    return Err(
                        OverrideError::with_number(
                            "sim_override_unsupported_schema:",
                            file.schema_version,
                        ),
                    );
                }
                if !file.binding.same(key) {
                    return Err(OverrideError::new("sim_override_binding_mismatch"));
                }
                Ok(Some(file.into_override()))
            },
        }
    }

    /// How `override_` is stored for `key`: an empty one leaves nothing behind.
    pub fn save(&self, key: &SimBindingKey, override_: &SimOverride) -> (r: SaveAction)
        requires
            key@.hashable(),
        ensures
            match r {
                SaveAction::Remove { record } => {
                    &&& override_@ == no_override()
                    &&& record@ == key@.hash()
                },
                SaveAction::Write { record, file } => {
                    &&& override_@ != no_override()
                    &&& record@ == key@.hash()
                    &&& file.schema_version == OVERRIDE_SCHEMA_VERSION
                    &&& file.binding@ == key@
                    &&& file.held() == override_@
                },
            },
    {
        if override_.is_empty() {
            SaveAction::Remove { record: key.sha256() }
        } else {
            SaveAction::Write {
                record: key.sha256(),
                file: OverrideFile::from_override(key, override_),
            }
        }
    }

    /// How the override of `key` is removed.
    pub fn delete(&self, key: &SimBindingKey) -> (r: SaveAction)
        requires
            key@.hashable(),
        ensures
            r is Remove,
            r->Remove_record@ == key@.hash(),
    {
        SaveAction::Remove { record: key.sha256() }
    }
}

/// The override of `key`, given a database row and the record in it.
pub fn read_stored_override(
    schema_version: u32,
    document: Result<OverrideFile, String>,
    key: &SimBindingKey,
) -> (r: Result<SimOverride, OverrideError>)
    ensures
        ({
            let wanted = loaded_row(
                schema_version,
                match document {
                    Ok(file) => Ok(file),
                    Err(reason) => Err(reason@),
                },
                key@,
            );
            match r {
                Ok(found) => wanted == Ok::<OverrideView, Seq<char>>(found@),
                Err(error) => wanted == Err::<OverrideView, Seq<char>>(error.code@),
            }
        }),
{
    if schema_version != OVERRIDE_SCHEMA_VERSION {
        return Err(
            OverrideError::with_number("sim_override_unsupported_schema:", schema_version),
        );
    }
    match document {
        Err(reason) => Err(OverrideError::corrupt(reason.as_str())),
        Ok(file) => {
            if file.schema_version != schema_version {
                return Err(OverrideError::new("sim_override_schema_mismatch"));
            }
            if !file.binding.same(key) {
                return Err(OverrideError::new("sim_override_binding_mismatch"));
            }
            Ok(file.into_override())
        },
    }
}

/// Whether an imported record may be stored under `binding_hash`: a forged name
/// never becomes visible to another SIM.
pub open spec fn import_check(
    binding_hash: Seq<char>,
    row_version: u32,
    document: Option<OverrideFile>,
) -> Result<(), Seq<char>> {
    if row_version != OVERRIDE_SCHEMA_VERSION {
        Err("sim_override_unsupported_schema"@)
    } else {
        match document {
            None => Err("sim_override_corrupt"@),
            Some(file) => if file.schema_version != row_version {
                Err("sim_override_schema_mismatch"@)
            } else if !file.binding@.hashable() || file.binding@.hash() != binding_hash {
                Err("sim_override_binding_hash_mismatch"@)
            } else {
                Ok(())
            },
        }
    }
}

/// Checks an imported record.
pub fn validate_stored_override_document(
    binding_hash: &str,
    schema_version: u32,
    document: Option<&OverrideFile>,
) -> (r: Result<(), OverrideError>)
    ensures
        ({
            let wanted = import_check(
                binding_hash@,
                schema_version,
                match document {
                    Some(file) => Some(*file),
                    None => None,
                },
            );
            match r {
                Ok(()) => wanted == Ok::<(), Seq<char>>(()),
                Err(error) => wanted == Err::<(), Seq<char>>(error.code@),
            }
        }),
{
    if schema_version != OVERRIDE_SCHEMA_VERSION {
        return Err(OverrideError::new("sim_override_unsupported_schema"));
    }
    match document {
        None => Err(OverrideError::new("sim_override_corrupt")),
        Some(file) => {
            if file.schema_version != schema_version {
                return Err(OverrideError::new("sim_override_schema_mismatch"));
            }
            match file.binding.checked_sha256() {
                Some(hash) => {
                    if text::same(hash.as_str(), binding_hash) {
                        Ok(())
                    } else {
                        Err(OverrideError::new("sim_override_binding_hash_mismatch"))
                    }
                },
                None => Err(OverrideError::new("sim_override_binding_hash_mismatch")),
            }
        },
    }
}

/// What was stored for a SIM is what is loaded for it.
pub proof fn load_gives_back_what_was_saved(
    file: OverrideFile,
    key: KeyView,
    override_: OverrideView,
)
    requires
        file.schema_version == OVERRIDE_SCHEMA_VERSION,
        file.binding@ == key,
        file.held() == override_,
    ensures
        loaded(Some(Ok(file)), key) == Ok::<Option<OverrideView>, Seq<char>>(Some(override_)),
        loaded_row(OVERRIDE_SCHEMA_VERSION, Ok(file), key) == Ok::<OverrideView, Seq<char>>(
            override_,
        ),
{
}

/// Saving for a SIM leaves what is loaded for every other one, and gives back what was
/// saved. Two keys with one hash share a record, of which at most one is served.
pub proof fn saving_concerns_one_sim(
    records: Records,
    action: SaveAction,
    key: KeyView,
    override_: OverrideView,
    other: KeyView,
)
    requires
        match action {
            SaveAction::Remove { record } => record@ == key.hash() && override_ == no_override(),
            SaveAction::Write { record, file } => {
                &&& record@ == key.hash()
                &&& override_ != no_override()
                &&& file.schema_version == OVERRIDE_SCHEMA_VERSION
                &&& file.binding@ == key
                &&& file.held() == override_
            },
        },
        other.hash() != key.hash(),
    ensures
        loaded_from(records_after(records, action), key) == Ok::<
            Option<OverrideView>,
            Seq<char>,
        >(
            if override_ == no_override() {
                None
            } else {
                Some(override_)
            },
        ),
        loaded_from(records_after(records, action), other) == loaded_from(records, other),
{
}

/// Deleting leaves nothing for a SIM, whether or not there was a record, and what is
/// loaded for every other one stays. Deleting twice is deleting once.
pub proof fn deleting_concerns_one_sim(
    records: Records,
    action: SaveAction,
    key: KeyView,
    other: KeyView,
)
    requires
        action is Remove,
        action->Remove_record@ == key.hash(),
        other.hash() != key.hash(),
    ensures
        loaded_from(records_after(records, action), key) == Ok::<Option<OverrideView>, Seq<char>>(
            None,
        ),
        loaded_from(records_after(records, action), other) == loaded_from(records, other),
        records_after(records_after(records, action), action) == records_after(records, action),
{
    assert(records.remove(key.hash()).remove(key.hash()) =~= records.remove(key.hash()));
}

/// A record is never applied to a SIM that it was not stored for.
pub proof fn foreign_record_is_refused(file: OverrideFile, key: KeyView)
    requires
        file.binding@ != key,
    ensures
        loaded(Some(Ok(file)), key) is Err,
        loaded_row(OVERRIDE_SCHEMA_VERSION, Ok(file), key) is Err,
{
}

} // verus!
