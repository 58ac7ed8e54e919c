//! The carrier catalog merged, field by field, with what the user changed for a
//! SIM. Each effective value carries its source.

use vstd::prelude::*;
use vstd::string::*;

use crate::carrier::CarrierProfile;
use crate::profile_override::{
    AccessView, ImsAccessOverride, OverrideSource, OverrideView, SimOverride,
};
use crate::text;
use crate::text::{decimal, is_digit, opt, texts, trimmed};

verus! {

/// An effective value and where it came from.
#[derive(Debug, PartialEq, Eq)]
pub struct EffectiveField {
    pub value: String,
    pub source: OverrideSource,
}

pub struct FieldView {
    pub value: Seq<char>,
    pub source: OverrideSource,
}

impl View for EffectiveField {
    type V = FieldView;

    open spec fn view(&self) -> FieldView {
        FieldView { value: self.value@, source: self.source }
    }
}

pub open spec fn from_catalog(value: Seq<char>) -> FieldView {
    FieldView { value, source: OverrideSource::Catalog }
}

pub open spec fn from_user(value: Seq<char>) -> FieldView {
    FieldView { value, source: OverrideSource::SimOverride }
}

/// The field behind an option.
pub open spec fn opt_field(field: Option<EffectiveField>) -> Option<FieldView> {
    match field {
        Some(field) => Some(field@),
        None => None,
    }
}

pub open spec fn fields(list: Seq<EffectiveField>) -> Seq<FieldView> {
    Seq::new(list.len(), |i: int| list[i]@)
}

/// The text behind an optional literal.
pub open spec fn opt_str(value: Option<&'static str>) -> Option<Seq<char>> {
    match value {
        Some(text) => Some(text@),
        None => None,
    }
}

/// What the user entered, where it is not empty.
pub open spec fn entered(value: Option<Seq<char>>) -> Option<Seq<char>> {
    match value {
        Some(text) => if text.len() > 0 {
            Some(text)
        } else {
            None
        },
        None => None,
    }
}

/// The user's value, or else the catalog's.
pub open spec fn merged(user: Option<Seq<char>>, catalog: Seq<char>) -> FieldView {
    match entered(user) {
        Some(text) => from_user(text),
        None => from_catalog(catalog),
    }
}

/// The user's value, or else the catalog's, where either is there.
pub open spec fn merged_opt(user: Option<Seq<char>>, catalog: Option<Seq<char>>) -> Option<
    FieldView,
> {
    match entered(user) {
        Some(text) => Some(from_user(text)),
        None => match catalog {
            Some(text) => Some(from_catalog(text)),
            None => None,
        },
    }
}

/// The texts with a comma between any two.
pub open spec fn joined(list: Seq<Seq<char>>) -> Seq<char>
    decreases list.len(),
{
    if list.len() == 0 {
        Seq::empty()
    } else if list.len() == 1 {
        list[0]
    } else {
        joined(list.drop_last()) + ","@ + list.last()
    }
}

fn catalog_field(value: &str) -> (r: EffectiveField)
    ensures
        r@ == from_catalog(value@),
{
    EffectiveField { value: value.to_string(), source: OverrideSource::Catalog }
}

fn user_field(value: &str) -> (r: EffectiveField)
    ensures
        r@ == from_user(value@),
{
    EffectiveField { value: value.to_string(), source: OverrideSource::SimOverride }
}

fn merge(user: Option<&String>, catalog: &str) -> (r: EffectiveField)
    ensures
        r@ == merged(
            match user {
                Some(text) => Some(text@),
                None => None,
            },
            catalog@,
        ),
{
    match user {
        Some(text) => if text.as_str().is_empty() {
            catalog_field(catalog)
        } else {
            user_field(text.as_str())
        },
        None => catalog_field(catalog),
    }
}

fn merge_opt(user: Option<&String>, catalog: Option<&'static str>) -> (r: Option<EffectiveField>)
    ensures
        opt_field(r) == merged_opt(
            match user {
                Some(text) => Some(text@),
                None => None,
            },
            opt_str(catalog),
        ),
{
    if let Some(text) = user {
        if !text.as_str().is_empty() {
            return Some(user_field(text.as_str()));
        }
    }
    match catalog {
        Some(text) => Some(catalog_field(text)),
        None => None,
    }
}

fn join_texts(list: &Vec<String>) -> (r: String)
    ensures
        r@ == joined(texts(list@)),
{
    let ghost all = texts(list@);
    let mut out = String::new();
    let mut i: usize = 0;
    proof {
        assert(all.take(0) =~= Seq::<Seq<char>>::empty());
    }
    while i < list.len()
        invariant
            i <= list@.len(),
            all == texts(list@),
            out@ == joined(all.take(i as int)),
        decreases list@.len() - i,
    {
        proof {
            let next = all.take(i as int + 1);
            assert(next.drop_last() =~= all.take(i as int));
            assert(next.last() == list@[i as int]@);
            if i == 0 {
                assert(out@ + list@[0]@ =~= list@[0]@);
            }
        }
        if i > 0 {
            out.append(",");
        }
        out.append(list[i].as_str());
        i += 1;
    }
    proof {
        assert(all.take(all.len() as int) =~= all);
    }
    out
}

// ---------------------------------------------------------------------------
// VoWiFi.

/// Effective VoWiFi connection facts.
#[derive(Debug, PartialEq, Eq)]
pub struct EffectiveVowifiProfile {
    pub profile_id: String,
    pub epdg_host: EffectiveField,
    pub epdg_port: u16,
    pub epdg_port_source: OverrideSource,
    pub apn: Option<EffectiveField>,
    pub ip_stack: EffectiveField,
    pub dns_servers: Vec<EffectiveField>,
}

pub struct VowifiView {
    pub profile_id: Seq<char>,
    pub epdg_host: FieldView,
    pub epdg_port: u16,
    pub epdg_port_source: OverrideSource,
    pub apn: Option<FieldView>,
    pub ip_stack: FieldView,
    pub dns_servers: Seq<FieldView>,
}

impl View for EffectiveVowifiProfile {
    type V = VowifiView;

    open spec fn view(&self) -> VowifiView {
        VowifiView {
            profile_id: self.profile_id@,
            epdg_host: self.epdg_host@,
            epdg_port: self.epdg_port,
            epdg_port_source: self.epdg_port_source,
            apn: opt_field(self.apn),
            ip_stack: self.ip_stack@,
            dns_servers: fields(self.dns_servers@),
        }
    }
}

/// The catalog's name servers: the list, and then the single one.
pub open spec fn catalog_dns(catalog: CarrierProfile) -> Seq<FieldView> {
    let list = Seq::new(
        catalog.epdg.dns_servers@.len(),
        |i: int| from_catalog(catalog.epdg.dns_servers@[i]@),
    );
    match catalog.epdg.dns_server {
        Some(server) => list.push(from_catalog(server@)),
        None => list,
    }
}

/// The user's name servers replace the catalog's as a whole.
pub open spec fn merged_dns(
    user: Option<Seq<Seq<char>>>,
    catalog: CarrierProfile,
) -> Seq<FieldView> {
    match user {
        Some(list) => if list.len() > 0 {
            Seq::new(list.len(), |i: int| from_user(list[i]))
        } else {
            catalog_dns(catalog)
        },
        None => catalog_dns(catalog),
    }
}

/// The effective VoWiFi facts for what the user changed on that access.
pub open spec fn vowifi_profile(catalog: CarrierProfile, user: AccessView) -> VowifiView {
    VowifiView {
        profile_id: catalog.meta.profile_id@,
        epdg_host: merged(user.epdg_host, catalog.epdg.host@),
        epdg_port: match user.epdg_port {
            Some(port) => port,
            None => catalog.epdg.port,
        },
        epdg_port_source: if user.epdg_port is Some {
            OverrideSource::SimOverride
        } else {
            OverrideSource::Catalog
        },
        apn: merged_opt(user.apn, opt_str(catalog.epdg.apn)),
        ip_stack: merged(user.ip_stack, catalog.epdg.ip_stack@),
        dns_servers: merged_dns(user.dns, catalog),
    }
}

/// What an optional override changes; nothing without one.
pub open spec fn changes(override_: Option<&SimOverride>) -> OverrideView {
    match override_ {
        Some(o) => o@,
        None => crate::profile_override::no_override(),
    }
}

fn merge_dns(user: Option<&Vec<String>>, catalog: &CarrierProfile) -> (r: Vec<EffectiveField>)
    ensures
        fields(r@) == merged_dns(
            match user {
                Some(list) => Some(texts(list@)),
                None => None,
            },
            *catalog,
        ),
{
    let mut out: Vec<EffectiveField> = Vec::new();
    if let Some(list) = user {
        if list.len() > 0 {
            let mut i: usize = 0;
            while i < list.len()
                invariant
                    i <= list@.len(),
                    out@.len() == i,
                    forall|j: int| 0 <= j < i ==> (#[trigger] out@[j])@ == from_user(list@[j]@),
                decreases list@.len() - i,
            {
                out.push(user_field(list[i].as_str()));
                i += 1;
            }
            proof {
                assert(fields(out@) =~= merged_dns(Some(texts(list@)), *catalog));
            }
            return out;
        }
    }
    let mut i: usize = 0;
    while i < catalog.epdg.dns_servers.len()
        invariant
            i <= catalog.epdg.dns_servers@.len(),
            out@.len() == i,
            forall|j: int|
                0 <= j < i ==> (#[trigger] out@[j])@ == from_catalog(
                    catalog.epdg.dns_servers@[j]@,
                ),
        decreases catalog.epdg.dns_servers@.len() - i,
    {
        out.push(catalog_field(catalog.epdg.dns_servers[i]));
        i += 1;
    }
    if let Some(server) = catalog.epdg.dns_server {
        out.push(catalog_field(server));
    }
    proof {
        assert(fields(out@) =~= catalog_dns(*catalog));
    }
    out
}

/// Resolves the effective VoWiFi profile of a line.
pub fn resolve_effective_vowifi_profile(
    catalog: &CarrierProfile,
    override_: Option<&SimOverride>,
) -> (r: EffectiveVowifiProfile)
    ensures
        r@ == vowifi_profile(*catalog, changes(override_).vowifi),
{
    match override_ {
        Some(o) => vowifi_of(catalog, &o.ims_vowifi),
        None => vowifi_of(catalog, &ImsAccessOverride::default()),
    }
}

fn vowifi_of(catalog: &CarrierProfile, access: &ImsAccessOverride) -> (r: EffectiveVowifiProfile)
    ensures
        r@ == vowifi_profile(*catalog, access@),
{
    let (epdg_port, epdg_port_source) = match access.epdg_port {
        Some(port) => (port, OverrideSource::SimOverride),
        None => (catalog.epdg.port, OverrideSource::Catalog),
    };
    EffectiveVowifiProfile {
        profile_id: catalog.meta.profile_id.to_string(),
        epdg_host: merge(access.epdg_host.as_ref(), catalog.epdg.host),
        epdg_port,
        epdg_port_source,
        apn: merge_opt(access.apn.as_ref(), catalog.epdg.apn),
        ip_stack: merge(access.ip_stack.as_ref(), catalog.epdg.ip_stack),
        dns_servers: merge_dns(access.dns.as_ref(), catalog),
    }
}

// ---------------------------------------------------------------------------
// IMS.

/// Effective IMS connection facts of one access.
#[derive(Debug, PartialEq, Eq)]
pub struct EffectiveImsProfile {
    pub profile_id: String,
    pub domain: EffectiveField,
    pub realm: EffectiveField,
    pub pcscf: Option<EffectiveField>,
    pub registrar: Option<EffectiveField>,
    /// The APN of the IMS bearer.
    pub ims_apn: Option<EffectiveField>,
    /// The preferred IP stack of this access.
    pub ip_stack: EffectiveField,
    /// The carrier profile that the user pinned.
    pub pinned_profile_id: Option<EffectiveField>,
}

pub struct ImsView {
    pub profile_id: Seq<char>,
    pub domain: FieldView,
    pub realm: FieldView,
    pub pcscf: Option<FieldView>,
    pub registrar: Option<FieldView>,
    pub ims_apn: Option<FieldView>,
    pub ip_stack: FieldView,
    pub pinned_profile_id: Option<FieldView>,
}

impl View for EffectiveImsProfile {
    type V = ImsView;

    open spec fn view(&self) -> ImsView {
        ImsView {
            profile_id: self.profile_id@,
            domain: self.domain@,
            realm: self.realm@,
            pcscf: opt_field(self.pcscf),
            registrar: opt_field(self.registrar),
            ims_apn: opt_field(self.ims_apn),
            ip_stack: self.ip_stack@,
            pinned_profile_id: opt_field(self.pinned_profile_id),
        }
    }
}

/// The access whose own changes are merged.
#[derive(Debug, Clone, Copy, PartialEq, Eq, Structural)]
pub enum EffectiveImsAccess {
    Volte,
    Vowifi,
}

/// What the user changed for an access.
pub open spec fn access_changes(override_: OverrideView, access: EffectiveImsAccess) -> AccessView {
    match access {
        EffectiveImsAccess::Volte => override_.volte,
        EffectiveImsAccess::Vowifi => override_.vowifi,
    }
}

/// The user's P-CSCF list as one value.
pub open spec fn entered_list(list: Option<Seq<Seq<char>>>) -> Option<FieldView> {
    match list {
        Some(list) => if list.len() > 0 {
            Some(from_user(joined(list)))
        } else {
            None
        },
        None => None,
    }
}

/// The effective IMS facts for what the user changed on one access.
pub open spec fn ims_profile(catalog: CarrierProfile, user: AccessView) -> ImsView {
    ImsView {
        profile_id: catalog.meta.profile_id@,
        domain: merged(user.domain, catalog.ims.domain@),
        realm: merged(user.realm, catalog.ims.realm@),
        pcscf: match entered_list(user.pcscf) {
            Some(field) => Some(field),
            None => match catalog.ims.pcscf {
                Some(text) => Some(from_catalog(text@)),
                None => None,
            },
        },
        registrar: merged_opt(user.registrar, opt_str(catalog.ims.registrar)),
        ims_apn: merged_opt(user.apn, opt_str(catalog.epdg.apn)),
        ip_stack: merged(user.ip_stack, catalog.epdg.ip_stack@),
        pinned_profile_id: merged_opt(user.profile_id, None),
    }
}

fn merge_pcscf(user: Option<&Vec<String>>, catalog: Option<&'static str>) -> (r: Option<
    EffectiveField,
>)
    ensures
        opt_field(r) == (match entered_list(
            match user {
                Some(list) => Some(texts(list@)),
                None => None,
            },
        ) {
            Some(field) => Some(field),
            None => match catalog {
                Some(text) => Some(from_catalog(text@)),
                None => None,
            },
        }),
{
    if let Some(list) = user {
        if list.len() > 0 {
            let joined = join_texts(list);
            return Some(user_field(joined.as_str()));
        }
    }
    match catalog {
        Some(text) => Some(catalog_field(text)),
        None => None,
    }
}

fn ims_of(catalog: &CarrierProfile, access: &ImsAccessOverride) -> (r: EffectiveImsProfile)
    ensures
        r@ == ims_profile(*catalog, access@),
{
    EffectiveImsProfile {
        profile_id: catalog.meta.profile_id.to_string(),
        domain: merge(access.domain.as_ref(), catalog.ims.domain),
        realm: merge(access.realm.as_ref(), catalog.ims.realm),
        pcscf: merge_pcscf(access.pcscf.as_ref(), catalog.ims.pcscf),
        registrar: merge_opt(access.registrar.as_ref(), catalog.ims.registrar),
        ims_apn: merge_opt(access.apn.as_ref(), catalog.epdg.apn),
        ip_stack: merge(access.ip_stack.as_ref(), catalog.epdg.ip_stack),
        pinned_profile_id: merge_opt(access.profile_id.as_ref(), None),
    }
}

/// Resolves the effective IMS profile of one access.
pub fn resolve_effective_ims_profile_for_access(
    catalog: &CarrierProfile,
    override_: Option<&SimOverride>,
    access_kind: EffectiveImsAccess,
) -> (r: EffectiveImsProfile)
    ensures
        r@ == ims_profile(*catalog, access_changes(changes(override_), access_kind)),
{
    match override_ {
        Some(o) => match access_kind {
            EffectiveImsAccess::Volte => ims_of(catalog, &o.ims_volte),
            EffectiveImsAccess::Vowifi => ims_of(catalog, &o.ims_vowifi),
        },
        None => ims_of(catalog, &ImsAccessOverride::default()),
    }
}

/// Resolves the effective IMS profile of VoLTE.
pub fn resolve_effective_ims_profile(
    catalog: &CarrierProfile,
    override_: Option<&SimOverride>,
) -> (r: EffectiveImsProfile)
    ensures
        r@ == ims_profile(*catalog, changes(override_).volte),
{
    resolve_effective_ims_profile_for_access(catalog, override_, EffectiveImsAccess::Volte)
}

/// Resolves the effective IMS profile of VoWiFi.
pub fn resolve_effective_vowifi_ims_profile(
    catalog: &CarrierProfile,
    override_: Option<&SimOverride>,
) -> (r: EffectiveImsProfile)
    ensures
        r@ == ims_profile(*catalog, changes(override_).vowifi),
{
    resolve_effective_ims_profile_for_access(catalog, override_, EffectiveImsAccess::Vowifi)
}

/// Every source of an effective IMS profile is the catalog.
pub open spec fn all_catalog(p: ImsView) -> bool {
    &&& p.domain.source == OverrideSource::Catalog
    &&& p.realm.source == OverrideSource::Catalog
    &&& p.pcscf is Some ==> p.pcscf->0.source == OverrideSource::Catalog
    &&& p.registrar is Some ==> p.registrar->0.source == OverrideSource::Catalog
    &&& p.ims_apn is Some ==> p.ims_apn->0.source == OverrideSource::Catalog
    &&& p.ip_stack.source == OverrideSource::Catalog
    &&& p.pinned_profile_id is None
}

/// Without an override every effective value is the catalog's.
pub proof fn no_override_means_catalog(catalog: CarrierProfile, access: EffectiveImsAccess)
    ensures
        ({
            let none = crate::profile_override::no_override();
            let ims = ims_profile(catalog, access_changes(none, access));
            let vowifi = vowifi_profile(catalog, none.vowifi);
            &&& all_catalog(ims)
            &&& ims.domain.value == catalog.ims.domain@
            &&& ims.realm.value == catalog.ims.realm@
            &&& ims.ip_stack.value == catalog.epdg.ip_stack@
            &&& vowifi.epdg_host == from_catalog(catalog.epdg.host@)
            &&& vowifi.epdg_port == catalog.epdg.port
            &&& vowifi.epdg_port_source == OverrideSource::Catalog
            &&& vowifi.dns_servers == catalog_dns(catalog)
        }),
{
}

/// What is changed for one access never reaches the other.
pub proof fn accesses_are_independent(
    catalog: CarrierProfile,
    a: OverrideView,
    b: OverrideView,
)
    ensures
        a.volte == b.volte ==> ims_profile(
            catalog,
            access_changes(a, EffectiveImsAccess::Volte),
        ) == ims_profile(catalog, access_changes(b, EffectiveImsAccess::Volte)),
        a.vowifi == b.vowifi ==> ims_profile(
            catalog,
            access_changes(a, EffectiveImsAccess::Vowifi),
        ) == ims_profile(catalog, access_changes(b, EffectiveImsAccess::Vowifi)) && vowifi_profile(
            catalog,
            a.vowifi,
        ) == vowifi_profile(catalog, b.vowifi),
{
}

// ---------------------------------------------------------------------------
// Device identity.

/// The effective device identity of a line.
#[derive(Debug, PartialEq, Eq)]
pub struct EffectiveDeviceIdentity {
    /// The IMEI to present; none where the device's own is not known.
    pub imei: Option<String>,
    pub source: OverrideSource,
}

/// The weight of a digit in the check sum: every second one is doubled, with
/// its two digits added up.
pub open spec fn luhn_weight(d: nat, doubled: bool) -> nat {
    if !doubled {
        d
    } else if 2 * d > 9 {
        (2 * d - 9) as nat
    } else {
        2 * d
    }
}

/// The check sum of digits, counted from the last one, which is not doubled.
pub open spec fn luhn_sum(s: Seq<char>, doubled: bool) -> nat
    decreases s.len(),
{
    if s.len() == 0 {
        0
    } else {
        luhn_weight((s.last() as nat - 48) as nat, doubled) + luhn_sum(s.drop_last(), !doubled)
    }
}

/// An IMEI: 15 digits whose check sum is a multiple of ten.
pub open spec fn imei_valid(s: Seq<char>) -> bool {
    let digits = trimmed(s);
    digits.len() == 15 && text::all_digits(digits) && luhn_sum(digits, false) % 10 == 0
}

fn luhn_check(c: &[char]) -> (r: bool)
    requires
        text::all_digits(c@),
        c@.len() <= 1000,
    ensures
        r == (luhn_sum(c@, false) % 10 == 0),
{
    let mut sum: u32 = 0;
    let mut doubled = false;
    let mut n: usize = c.len();
    proof {
        assert(c@.take(c@.len() as int) =~= c@);
    }
    while n > 0
        invariant
            n <= c@.len() <= 1000,
            text::all_digits(c@),
            sum <= 9 * (c@.len() - n),
            luhn_sum(c@, false) == sum + luhn_sum(c@.take(n as int), doubled),
        decreases n,
    {
        proof {
            assert(c@.take(n as int).last() == c@[n - 1]);
            assert(c@.take(n as int).drop_last() =~= c@.take(n - 1));
            assert(is_digit(c@[n - 1]));
        }
        let d: u32 = c[n - 1] as u32 - 48;
        let value: u32 = if doubled {
            if 2 * d > 9 {
                2 * d - 9
            } else {
                2 * d
            }
        } else {
            d
        };
        sum += value;
        doubled = !doubled;
        n -= 1;
    }
    sum % 10 == 0
}

/// Whether a text is an IMEI.
pub fn is_valid_imei(imei: &str) -> (r: bool)
    ensures
        r == imei_valid(imei@),
{
    let cleaned = text::trim(imei);
    let c = text::chars(cleaned.as_str());
    if c.len() != 15 || !text::only_digits(cleaned.as_str()) {
        return false;
    }
    luhn_check(c.as_slice())
}

/// The user's IMEI where it is one; otherwise the device's own.
pub open spec fn device_identity(custom: Option<Seq<char>>, device: Option<Seq<char>>) -> (
    Option<Seq<char>>,
    OverrideSource,
) {
    if custom is Some && imei_valid(custom->0) {
        (custom, OverrideSource::SimOverride)
    } else if device is Some && trimmed(device->0).len() > 0 {
        (Some(trimmed(device->0)), OverrideSource::Modem)
    } else {
        (None, OverrideSource::Network)
    }
}

/// Resolves the device identity of a line.
pub fn resolve_effective_device_identity(
    override_: Option<&SimOverride>,
    device_imei: Option<&str>,
) -> (r: EffectiveDeviceIdentity)
    ensures
        (opt(r.imei), r.source) == device_identity(
            changes(override_).custom_imei,
            match device_imei {
                Some(imei) => Some(imei@),
                None => None,
            },
        ),
{
    if let Some(o) = override_ {
        if let Some(custom) = &o.ims_common.custom_imei {
            if is_valid_imei(custom.as_str()) {
                return EffectiveDeviceIdentity {
                    imei: Some(custom.clone()),
                    source: OverrideSource::SimOverride,
                };
            }
        }
    }
    if let Some(imei) = device_imei {
        let imei = text::trim(imei);
        if !imei.as_str().is_empty() {
            return EffectiveDeviceIdentity { imei: Some(imei), source: OverrideSource::Modem };
        }
    }
    EffectiveDeviceIdentity { imei: None, source: OverrideSource::Network }
}

// ---------------------------------------------------------------------------
// Common facts, services and emergency.

/// Effective facts that follow the SIM on every access.
#[derive(Debug, PartialEq, Eq)]
pub struct EffectiveCommon {
    pub voicemail_number: Option<String>,
    pub voicemail_number_source: Option<OverrideSource>,
}

/// The voicemail number: the user's, or else the SIM's, or else the catalog's. A
/// blank one counts as entered and leaves none.
pub open spec fn voicemail(
    user: Option<Seq<char>>,
    sim: Option<Seq<char>>,
    catalog: Option<Seq<char>>,
) -> Option<FieldView> {
    let candidate = match (user, sim, catalog) {
        (Some(text), _, _) => Some(FieldView { value: text, source: OverrideSource::SimOverride }),
        (None, Some(text), _) => Some(FieldView { value: text, source: OverrideSource::Modem }),
        (None, None, Some(text)) => Some(FieldView { value: text, source: OverrideSource::Catalog }),
        (None, None, None) => None,
    };
    match candidate {
        Some(field) => if trimmed(field.value).len() > 0 {
            Some(FieldView { value: trimmed(field.value), source: field.source })
        } else {
            None
        },
        None => None,
    }
}

/// The text behind an optional reference.
pub open spec fn opt_ref(value: Option<&str>) -> Option<Seq<char>> {
    match value {
        Some(text) => Some(text@),
        None => None,
    }
}

/// Resolves the voicemail number.
pub fn resolve_effective_common_with_sources(
    override_: Option<&SimOverride>,
    sim_voicemail_number: Option<&str>,
    catalog_voicemail_number: Option<&str>,
) -> (r: EffectiveCommon)
    ensures
        match voicemail(
            changes(override_).voicemail_number,
            opt_ref(sim_voicemail_number),
            opt_ref(catalog_voicemail_number),
        ) {
            Some(field) => opt(r.voicemail_number) == Some(field.value)
                && r.voicemail_number_source == Some(field.source),
            None => r.voicemail_number is None && r.voicemail_number_source is None,
        },
{
    let user = match override_ {
        Some(o) => match &o.ims_common.voicemail_number {
            Some(number) => Some(number.as_str()),
            None => None,
        },
        None => None,
    };
    let (candidate, source) = match (user, sim_voicemail_number, catalog_voicemail_number) {
        (Some(text), _, _) => (text, OverrideSource::SimOverride),
        (None, Some(text), _) => (text, OverrideSource::Modem),
        (None, None, Some(text)) => (text, OverrideSource::Catalog),
        (None, None, None) => return EffectiveCommon {
            voicemail_number: None,
            voicemail_number_source: None,
        },
    };
    let value = text::trim(candidate);
    if value.as_str().is_empty() {
        EffectiveCommon { voicemail_number: None, voicemail_number_source: None }
    } else {
        EffectiveCommon { voicemail_number: Some(value), voicemail_number_source: Some(source) }
    }
}

/// Effective supplementary-service preferences.
#[derive(Debug, Clone, Copy, PartialEq, Eq, Structural)]
pub struct EffectiveServices {
    pub call_waiting: Option<bool>,
    pub call_waiting_source: Option<OverrideSource>,
    pub caller_id_restriction: Option<bool>,
    pub caller_id_restriction_source: Option<OverrideSource>,
}

/// The source of a preference that only the user sets.
pub open spec fn user_source(value: Option<bool>) -> Option<OverrideSource> {
    if value is Some {
        Some(OverrideSource::SimOverride)
    } else {
        None
    }
}

fn source_of_user(value: Option<bool>) -> (r: Option<OverrideSource>)
    ensures
        r == user_source(value),
{
    if value.is_some() {
        Some(OverrideSource::SimOverride)
    } else {
        None
    }
}

impl EffectiveServices {
    /// The preferences of an override.
    pub fn from_override(override_: Option<&SimOverride>) -> (r: Self)
        ensures
            ({
                let s = changes(override_).services;
                r == (EffectiveServices {
                    call_waiting: s.call_waiting,
                    call_waiting_source: user_source(s.call_waiting),
                    caller_id_restriction: s.caller_id_restriction,
                    caller_id_restriction_source: user_source(s.caller_id_restriction),
                })
            }),
    {
        match override_ {
            Some(o) => EffectiveServices {
                call_waiting: o.services.call_waiting,
                call_waiting_source: source_of_user(o.services.call_waiting),
                caller_id_restriction: o.services.caller_id_restriction,
                caller_id_restriction_source: source_of_user(o.services.caller_id_restriction),
            },
            None => EffectiveServices {
                call_waiting: None,
                call_waiting_source: None,
                caller_id_restriction: None,
                caller_id_restriction_source: None,
            },
        }
    }
}

/// Effective emergency facts.
#[derive(Debug, PartialEq, Eq)]
pub struct EffectiveEmergency {
    /// The address that the user entered.
    pub e911_address: Option<String>,
    pub address_saved_locally: bool,
    pub address_source: Option<OverrideSource>,
}

/// An address that is not blank.
pub open spec fn address_given(address: Option<Seq<char>>) -> bool {
    address is Some && trimmed(address->0).len() > 0
}

/// Resolves the emergency facts.
pub fn resolve_effective_emergency(override_: Option<&SimOverride>) -> (r: EffectiveEmergency)
    ensures
        ({
            let address = changes(override_).e911_address;
            &&& opt(r.e911_address) == address
            &&& r.address_saved_locally == address_given(address)
            &&& r.address_source == (if address_given(address) {
                Some(OverrideSource::SimOverride)
            } else {
                None
            })
        }),
{
    match override_ {
        Some(o) => {
            let given = match &o.emergency.e911_address {
                Some(address) => !text::trim(address.as_str()).as_str().is_empty(),
                None => false,
            };
            EffectiveEmergency {
                e911_address: o.emergency.e911_address.clone(),
                address_saved_locally: given,
                address_source: if given {
                    Some(OverrideSource::SimOverride)
                } else {
                    None
                },
            }
        },
        None => EffectiveEmergency {
            e911_address: None,
            address_saved_locally: false,
            address_source: None,
        },
    }
}

// ---------------------------------------------------------------------------
// Problems of an override.

/// `problem`, where the condition holds.
pub open spec fn when(condition: bool, problem: Seq<char>) -> Seq<Seq<char>> {
    if condition {
        seq![problem]
    } else {
        Seq::empty()
    }
}

pub open spec fn given_blank(value: Option<Seq<char>>) -> bool {
    value is Some && trimmed(value->0).len() == 0
}

/// An entered IMEI that is not one.
pub open spec fn imei_problem(imei: Option<Seq<char>>) -> bool {
    imei is Some && trimmed(imei->0).len() > 0 && !imei_valid(imei->0)
}

/// An entered IMSI that is not made of 5 to 16 digits.
pub open spec fn imsi_problem(imsi: Option<Seq<char>>) -> bool {
    imsi is Some && {
        let digits = trimmed(imsi->0);
        digits.len() > 0 && !(5 <= digits.len() <= 16 && text::all_digits(digits))
    }
}

pub open spec fn is_number_char(c: char) -> bool {
    is_digit(c) || c == '+' || c == '*' || c == '#'
}

/// An entered voicemail number that cannot be dialled.
pub open spec fn voicemail_problem(number: Option<Seq<char>>) -> bool {
    number is Some && {
        let digits = trimmed(number->0);
        digits.len() > 0 && !(digits.len() <= 32 && only_number_chars(digits))
    }
}

pub open spec fn only_number_chars(s: Seq<char>) -> bool {
    forall|i: int| 0 <= i < s.len() ==> is_number_char(#[trigger] s[i])
}

/// An address of more than 512 bytes.
pub open spec fn address_problem(address: Option<Seq<char>>) -> bool {
    address is Some && vstd::utf8::encode_utf8(trimmed(address->0)).len() > 512
}

pub open spec fn ip_stack_problem(stack: Option<Seq<char>>) -> bool {
    stack is Some && trimmed(stack->0) != "ipv4"@ && trimmed(stack->0) != "ipv6"@ && trimmed(
        stack->0,
    ) != "ipv4v6"@
}

pub open spec fn has_blank(list: Option<Seq<Seq<char>>>) -> bool {
    list is Some && blank_in(list->0)
}

pub open spec fn blank_in(list: Seq<Seq<char>>) -> bool {
    exists|i: int| 0 <= i < list.len() && trimmed(#[trigger] list[i]).len() == 0
}

/// What is wrong with the changes to one access.
pub open spec fn access_problems(a: AccessView, name: Seq<char>) -> Seq<Seq<char>> {
    when(ip_stack_problem(a.ip_stack), name + ".ip_stack_invalid"@) + when(
        given_blank(a.epdg_host),
        name + ".epdg_host_must_not_be_empty"@,
    ) + when(a.epdg_port == Some(0u16), name + ".epdg_port_must_not_be_zero"@) + when(
        has_blank(a.pcscf),
        name + ".pcscf_must_not_contain_empty_entry"@,
    ) + when(given_blank(a.domain), name + ".domain_must_not_be_empty"@) + when(
        given_blank(a.realm),
        name + ".realm_must_not_be_empty"@,
    ) + when(given_blank(a.registrar), name + ".registrar_must_not_be_empty"@)
}

/// What is wrong with an override, in the order in which it is reported.
pub open spec fn problems_of(o: OverrideView) -> Seq<Seq<char>> {
    when(imei_problem(o.custom_imei), "custom_imei_must_be_15_digits"@) + when(
        o.vowifi.spoof_imsi && !(o.vowifi.custom_imsi is Some && trimmed(
            o.vowifi.custom_imsi->0,
        ).len() > 0),
        "ims_vowifi.custom_imsi_required_when_spoof_enabled"@,
    ) + when(
        imsi_problem(o.vowifi.custom_imsi),
        "ims_vowifi.custom_imsi_must_be_5_to_16_digits"@,
    ) + when(voicemail_problem(o.voicemail_number), "voicemail_number_invalid"@)
        + access_problems(o.vowifi, "ims_vowifi"@) + access_problems(o.volte, "ims_volte"@) + when(
        address_problem(o.e911_address),
        "e911_address_too_long"@,
    )
}

fn report(problems: &mut Vec<String>, condition: bool, problem: &str)
    ensures
        texts(final(problems)@) == texts(old(problems)@) + when(condition, problem@),
{
    let ghost before = problems@;
    if condition {
        problems.push(problem.to_string());
    }
    proof {
        assert(texts(problems@) =~= texts(before) + when(condition, problem@));
    }
}

fn report_field(problems: &mut Vec<String>, condition: bool, name: &str, problem: &str)
    ensures
        texts(final(problems)@) == texts(old(problems)@) + when(condition, name@ + problem@),
{
    let mut full = name.to_string();
    full.append(problem);
    report(problems, condition, full.as_str());
}

fn is_given_blank(value: &Option<String>) -> (r: bool)
    ensures
        r == given_blank(opt(*value)),
{
    match value {
        Some(text) => text::trim(text.as_str()).as_str().is_empty(),
        None => false,
    }
}

fn has_blank_entry(list: &Option<Vec<String>>) -> (r: bool)
    ensures
        r == has_blank(crate::profile_override::opt_texts(*list)),
{
    match list {
        Some(entries) => {
            let ghost all = texts(entries@);
            let mut i: usize = 0;
            while i < entries.len()
                invariant
                    i <= entries@.len(),
                    all == texts(entries@),
                    crate::profile_override::opt_texts(*list) == Some(all),
                    forall|j: int| 0 <= j < i ==> trimmed(#[trigger] all[j]).len() > 0,
                decreases entries@.len() - i,
            {
                if text::trim(entries[i].as_str()).as_str().is_empty() {
                    assert(trimmed(all[i as int]).len() == 0);
                    assert(blank_in(all));
                    return true;
                }
                i += 1;
            }
            false
        },
        None => false,
    }
}

fn validate_access(access: &ImsAccessOverride, name: &str, problems: &mut Vec<String>)
    ensures
        texts(final(problems)@) == texts(old(problems)@) + access_problems(access@, name@),
{
    let ghost before = texts(problems@);
    let ghost a = access@;
    let ghost w1 = when(ip_stack_problem(a.ip_stack), name@ + ".ip_stack_invalid"@);
    let ghost w2 = when(given_blank(a.epdg_host), name@ + ".epdg_host_must_not_be_empty"@);
    let ghost w3 = when(a.epdg_port == Some(0u16), name@ + ".epdg_port_must_not_be_zero"@);
    let ghost w4 = when(has_blank(a.pcscf), name@ + ".pcscf_must_not_contain_empty_entry"@);
    let ghost w5 = when(given_blank(a.domain), name@ + ".domain_must_not_be_empty"@);
    let ghost w6 = when(given_blank(a.realm), name@ + ".realm_must_not_be_empty"@);
    let ghost w7 = when(given_blank(a.registrar), name@ + ".registrar_must_not_be_empty"@);
    let stack_wrong = match &access.ip_stack {
        Some(stack) => {
            let stack = text::trim(stack.as_str());
            !text::same(stack.as_str(), "ipv4") && !text::same(stack.as_str(), "ipv6")
                && !text::same(stack.as_str(), "ipv4v6")
        },
        None => false,
    };
    let host_blank = is_given_blank(&access.epdg_host);
    let port_zero = match access.epdg_port {
        Some(port) => port == 0,
        None => false,
    };
    let pcscf_blank = has_blank_entry(&access.pcscf);
    let domain_blank = is_given_blank(&access.domain);
    let realm_blank = is_given_blank(&access.realm);
    let registrar_blank = is_given_blank(&access.registrar);
    report_field(problems, stack_wrong, name, ".ip_stack_invalid");
    report_field(problems, host_blank, name, ".epdg_host_must_not_be_empty");
    report_field(problems, port_zero, name, ".epdg_port_must_not_be_zero");
    report_field(problems, pcscf_blank, name, ".pcscf_must_not_contain_empty_entry");
    report_field(problems, domain_blank, name, ".domain_must_not_be_empty");
    report_field(problems, realm_blank, name, ".realm_must_not_be_empty");
    report_field(problems, registrar_blank, name, ".registrar_must_not_be_empty");
    proof {
        text::lemma_concat(before, w1, w2);
        text::lemma_concat(before, w1 + w2, w3);
        text::lemma_concat(before, w1 + w2 + w3, w4);
        text::lemma_concat(before, w1 + w2 + w3 + w4, w5);
        text::lemma_concat(before, w1 + w2 + w3 + w4 + w5, w6);
        text::lemma_concat(before, w1 + w2 + w3 + w4 + w5 + w6, w7);
    }
}

fn has_voicemail_problem(number: &Option<String>) -> (r: bool)
    ensures
        r == voicemail_problem(opt(*number)),
{
    match number {
        Some(entered_number) => {
            let digits = text::trim(entered_number.as_str());
            let c = text::chars(digits.as_str());
            if c.len() == 0 {
                return false;
            }
            if c.len() > 32 {
                return true;
            }
            let mut i: usize = 0;
            while i < c.len()
                invariant
                    i <= c@.len(),
                    c@ == digits@,
                    digits@ == trimmed(entered_number@),
                    opt(*number) == Some(entered_number@),
                    0 < c@.len() <= 32,
                    forall|j: int| 0 <= j < i ==> is_number_char(#[trigger] c@[j]),
                decreases c@.len() - i,
            {
                let ok = text::char_is_digit(c[i]) || c[i] == '+' || c[i] == '*' || c[i] == '#';
                if !ok {
                    assert(!is_number_char(digits@[i as int]));
                    assert(!only_number_chars(digits@));
                    return true;
                }
                i += 1;
            }
            false
        },
        None => false,
    }
}

fn has_imsi_problem(imsi: &Option<String>) -> (r: bool)
    ensures
        r == imsi_problem(opt(*imsi)),
{
    match imsi {
        Some(imsi) => {
            let digits = text::trim(imsi.as_str());
            let n = text::chars(digits.as_str()).len();
            n > 0 && (n < 5 || n > 16 || !text::only_digits(digits.as_str()))
        },
        None => false,
    }
}

/// Checks an override. No problem means that it may be stored.
pub fn validate_override(override_: &SimOverride) -> (r: Vec<String>)
    ensures
        texts(r@) == problems_of(override_@),
{
    let mut problems: Vec<String> = Vec::new();
    proof {
        assert(texts(problems@) =~= Seq::<Seq<char>>::empty());
    }
    let imei_wrong = match &override_.ims_common.custom_imei {
        Some(imei) => !text::trim(imei.as_str()).as_str().is_empty() && !is_valid_imei(
            imei.as_str(),
        ),
        None => false,
    };
    report(&mut problems, imei_wrong, "custom_imei_must_be_15_digits");
    let vowifi = &override_.ims_vowifi;
    let no_imsi = match &vowifi.custom_imsi {
        Some(imsi) => text::trim(imsi.as_str()).as_str().is_empty(),
        None => true,
    };
    report(
        &mut problems,
        vowifi.spoof_imsi && no_imsi,
        "ims_vowifi.custom_imsi_required_when_spoof_enabled",
    );
    report(
        &mut problems,
        has_imsi_problem(&vowifi.custom_imsi),
        "ims_vowifi.custom_imsi_must_be_5_to_16_digits",
    );
    report(
        &mut problems,
        has_voicemail_problem(&override_.ims_common.voicemail_number),
        "voicemail_number_invalid",
    );
    validate_access(vowifi, "ims_vowifi", &mut problems);
    validate_access(&override_.ims_volte, "ims_volte", &mut problems);
    let address_long = match &override_.emergency.e911_address {
        Some(address) => text::trim(address.as_str()).as_str().as_bytes().len() > 512,
        None => false,
    };
    report(&mut problems, address_long, "e911_address_too_long");
    proof {
        assert(texts(problems@) =~= problems_of(override_@));
    }
    problems
}

/// An override that changes nothing has no problems.
pub proof fn empty_override_is_valid()
    ensures
        problems_of(crate::profile_override::no_override()) == Seq::<Seq<char>>::empty(),
{
    assert(problems_of(crate::profile_override::no_override()) =~= Seq::<Seq<char>>::empty());
}

// ---------------------------------------------------------------------------
// Source map.

/// One entry of a source map.
pub type SourceEntry = (String, OverrideSource);

pub open spec fn entries(map: Seq<SourceEntry>) -> Seq<(Seq<char>, OverrideSource)> {
    Seq::new(map.len(), |i: int| (map[i].0@, map[i].1))
}

pub open spec fn entry(name: Seq<char>, source: OverrideSource) -> Seq<(
    Seq<char>,
    OverrideSource,
)> {
    seq![(name, source)]
}

/// The entry of a field that may be absent.
pub open spec fn field_entry(name: Seq<char>, field: Option<FieldView>) -> Seq<(
    Seq<char>,
    OverrideSource,
)> {
    match field {
        Some(field) => entry(name, field.source),
        None => Seq::empty(),
    }
}

/// The entry of a source that may be absent.
pub open spec fn source_entry(name: Seq<char>, source: Option<OverrideSource>) -> Seq<(
    Seq<char>,
    OverrideSource,
)> {
    match source {
        Some(source) => entry(name, source),
        None => Seq::empty(),
    }
}

/// The numbered entries of the name servers.
pub open spec fn dns_entries(servers: Seq<FieldView>) -> Seq<(Seq<char>, OverrideSource)> {
    Seq::new(
        servers.len(),
        |i: int| ("vowifi.dns["@ + decimal(i as nat) + "]"@, servers[i].source),
    )
}

pub open spec fn ims_entries(prefix: Seq<char>, ims: ImsView) -> Seq<(Seq<char>, OverrideSource)> {
    entry(prefix + ".domain"@, ims.domain.source) + entry(prefix + ".realm"@, ims.realm.source)
        + field_entry(prefix + ".pcscf"@, ims.pcscf) + field_entry(
        prefix + ".registrar"@,
        ims.registrar,
    ) + field_entry(prefix + ".apn"@, ims.ims_apn) + entry(
        prefix + ".ip_stack"@,
        ims.ip_stack.source,
    ) + field_entry(prefix + ".profile_id"@, ims.pinned_profile_id)
}

pub open spec fn source_map(
    vowifi: VowifiView,
    volte_ims: ImsView,
    vowifi_ims: ImsView,
    imei: OverrideSource,
    voicemail: Option<OverrideSource>,
    services: EffectiveServices,
    address: Option<OverrideSource>,
) -> Seq<(Seq<char>, OverrideSource)> {
    entry("profile_id"@, OverrideSource::Catalog) + entry(
        "vowifi.epdg_host"@,
        vowifi.epdg_host.source,
    ) + entry("vowifi.epdg_port"@, vowifi.epdg_port_source) + field_entry(
        "vowifi.apn"@,
        vowifi.apn,
    ) + entry("vowifi.ip_stack"@, vowifi.ip_stack.source) + dns_entries(vowifi.dns_servers)
        + ims_entries("volte_ims"@, volte_ims) + ims_entries("vowifi_ims"@, vowifi_ims) + entry(
        "identity.imei"@,
        imei,
    ) + source_entry("common.voicemail_number"@, voicemail) + source_entry(
        "services.call_waiting"@,
        services.call_waiting_source,
    ) + source_entry("services.caller_id_restriction"@, services.caller_id_restriction_source)
        + source_entry("emergency.e911_address"@, address)
}

fn push_source(map: &mut Vec<SourceEntry>, name: &str, source: OverrideSource)
    ensures
        entries(final(map)@) == entries(old(map)@) + entry(name@, source),
{
    let ghost before = map@;
    map.push((name.to_string(), source));
    proof {
        assert(entries(map@) =~= entries(before) + entry(name@, source));
    }
}

fn push_opt_source(map: &mut Vec<SourceEntry>, name: &str, source: Option<OverrideSource>)
    ensures
        entries(final(map)@) == entries(old(map)@) + source_entry(name@, source),
{
    match source {
        Some(source) => push_source(map, name, source),
        None => {
            proof {
                assert(entries(map@) + Seq::<(Seq<char>, OverrideSource)>::empty() =~= entries(
                    map@,
                ));
            }
        },
    }
}

fn push_named(map: &mut Vec<SourceEntry>, prefix: &str, name: &str, source: OverrideSource)
    ensures
        entries(final(map)@) == entries(old(map)@) + entry(prefix@ + name@, source),
{
    let mut full = prefix.to_string();
    full.append(name);
    push_source(map, full.as_str(), source);
}

fn push_opt_named(
    map: &mut Vec<SourceEntry>,
    prefix: &str,
    name: &str,
    field: &Option<EffectiveField>,
)
    ensures
        entries(final(map)@) == entries(old(map)@) + field_entry(
            prefix@ + name@,
            opt_field(*field),
        ),
{
    match field {
        Some(field) => push_named(map, prefix, name, field.source),
        None => {
            proof {
                assert(entries(map@) + Seq::<(Seq<char>, OverrideSource)>::empty() =~= entries(
                    map@,
                ));
            }
        },
    }
}

fn push_ims(map: &mut Vec<SourceEntry>, prefix: &str, ims: &EffectiveImsProfile)
    ensures
        entries(final(map)@) == entries(old(map)@) + ims_entries(prefix@, ims@),
{
    let ghost before = entries(map@);
    push_named(map, prefix, ".domain", ims.domain.source);
    push_named(map, prefix, ".realm", ims.realm.source);
    push_opt_named(map, prefix, ".pcscf", &ims.pcscf);
    push_opt_named(map, prefix, ".registrar", &ims.registrar);
    push_opt_named(map, prefix, ".apn", &ims.ims_apn);
    push_named(map, prefix, ".ip_stack", ims.ip_stack.source);
    push_opt_named(map, prefix, ".profile_id", &ims.pinned_profile_id);
    proof {
        assert(entries(map@) =~= before + ims_entries(prefix@, ims@));
    }
}

fn push_dns(map: &mut Vec<SourceEntry>, servers: &Vec<EffectiveField>)
    ensures
        entries(final(map)@) == entries(old(map)@) + dns_entries(fields(servers@)),
{
    let ghost before = entries(map@);
    let ghost all = dns_entries(fields(servers@));
    let mut i: usize = 0;
    proof {
        assert(before + all.take(0) =~= before);
    }
    while i < servers.len()
        invariant
            i <= servers@.len(),
            all == dns_entries(fields(servers@)),
            entries(map@) == before + all.take(i as int),
        decreases servers@.len() - i,
    {
        let mut name = "vowifi.dns[".to_string();
        let index = text::decimal_string(i as u64);
        name.append(index.as_str());
        name.append("]");
        push_source(map, name.as_str(), servers[i].source);
        proof {
            assert(all[i as int] == (name@, servers@[i as int].source));
            assert(before + all.take(i as int + 1) =~= (before + all.take(i as int)) + entry(
                name@,
                servers@[i as int].source,
            ));
        }
        i += 1;
    }
    proof {
        assert(all.take(all.len() as int) =~= all);
    }
}

/// Where each effective value came from.
pub fn source_map_of(
    vowifi: &EffectiveVowifiProfile,
    volte_ims: &EffectiveImsProfile,
    vowifi_ims: &EffectiveImsProfile,
    identity: &EffectiveDeviceIdentity,
    common: &EffectiveCommon,
    services: &EffectiveServices,
    emergency: &EffectiveEmergency,
) -> (r: Vec<SourceEntry>)
    ensures
        entries(r@) == source_map(
            vowifi@,
            volte_ims@,
            vowifi_ims@,
            identity.source,
            common.voicemail_number_source,
            *services,
            emergency.address_source,
        ),
{
    let mut map: Vec<SourceEntry> = Vec::new();
    push_source(&mut map, "profile_id", OverrideSource::Catalog);
    push_source(&mut map, "vowifi.epdg_host", vowifi.epdg_host.source);
    push_source(&mut map, "vowifi.epdg_port", vowifi.epdg_port_source);
    let apn_source = match &vowifi.apn {
        Some(apn) => Some(apn.source),
        None => None,
    };
    push_opt_source(&mut map, "vowifi.apn", apn_source);
    push_source(&mut map, "vowifi.ip_stack", vowifi.ip_stack.source);
    push_dns(&mut map, &vowifi.dns_servers);
    push_ims(&mut map, "volte_ims", volte_ims);
    push_ims(&mut map, "vowifi_ims", vowifi_ims);
    push_source(&mut map, "identity.imei", identity.source);
    push_opt_source(&mut map, "common.voicemail_number", common.voicemail_number_source);
    push_opt_source(&mut map, "services.call_waiting", services.call_waiting_source);
    push_opt_source(
        &mut map,
        "services.caller_id_restriction",
        services.caller_id_restriction_source,
    );
    push_opt_source(&mut map, "emergency.e911_address", emergency.address_source);
    proof {
        assert(entries(map@) =~= source_map(
            vowifi@,
            volte_ims@,
            vowifi_ims@,
            identity.source,
            common.voicemail_number_source,
            *services,
            emergency.address_source,
        ));
    }
    map
}

} // verus!
