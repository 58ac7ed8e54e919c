//! The device behind a line and the subscriber on it.

use vstd::prelude::*;
use vstd::string::*;

use crate::carrier::CarrierProfile;
use crate::effective_profile;
use crate::effective_profile::{
    changes, device_identity, ims_profile, EffectiveDeviceIdentity, EffectiveImsProfile,
};
use crate::errors::{code, failure, VolteError};
use crate::identity;
use crate::identity::{identity_of, identity_source_of, ImsIdentity, UiccApplications};
use crate::modem_output;
use crate::modem_output::value_of;
use crate::profile_override::SimOverride;
use crate::register::request::{RegisterTarget, TargetView};
use crate::text;
use crate::text::{opt, trimmed};

verus! {

/// A modem as it was discovered.
#[derive(Debug, PartialEq, Eq)]
pub struct ModemBinding {
    pub line_id: String,
    pub modem_id: String,
    pub qmi_device: Option<String>,
    pub uim_slot: u8,
    pub equipment_identifier: String,
}

impl Default for ModemBinding {
    fn default() -> (r: Self)
        ensures
            r.line_id@ == ""@,
            r.modem_id@ == ""@,
            r.qmi_device is None,
            r.uim_slot == 0,
            r.equipment_identifier@ == ""@,
    {
        ModemBinding {
            line_id: "".to_string(),
            modem_id: "".to_string(),
            qmi_device: None,
            uim_slot: 0,
            equipment_identifier: "".to_string(),
        }
    }
}

/// The device that a line uses.
#[derive(Debug, PartialEq, Eq)]
pub struct VolteDeviceBinding {
    pub line_id: String,
    pub modem_id: String,
    pub qmi_device: String,
    pub uim_slot: u8,
    pub equipment_identifier: String,
}

impl Clone for VolteDeviceBinding {
    fn clone(&self) -> (r: Self)
        ensures
            r == *self,
    {
        VolteDeviceBinding {
            line_id: self.line_id.clone(),
            modem_id: self.modem_id.clone(),
            qmi_device: self.qmi_device.clone(),
            uim_slot: self.uim_slot,
            equipment_identifier: self.equipment_identifier.clone(),
        }
    }
}

impl VolteDeviceBinding {
    /// The device of a modem, which needs a QMI control port.
    pub fn from_modem(binding: &ModemBinding) -> (r: Result<Self, VolteError>)
        ensures
            match r {
                Ok(device) => binding.qmi_device == Some(device.qmi_device) && device.line_id
                    == binding.line_id && device.modem_id == binding.modem_id && device.uim_slot
                    == binding.uim_slot && device.equipment_identifier
                    == binding.equipment_identifier,
                Err(error) => binding.qmi_device is None && error@ == failure(
                    "volte_qmi_device_missing"@,
                ),
            },
    {
        match &binding.qmi_device {
            Some(qmi_device) => Ok(
                VolteDeviceBinding {
                    line_id: binding.line_id.clone(),
                    modem_id: binding.modem_id.clone(),
                    qmi_device: qmi_device.clone(),
                    uim_slot: binding.uim_slot,
                    equipment_identifier: binding.equipment_identifier.clone(),
                },
            ),
            None => Err(VolteError::new("volte_qmi_device_missing")),
        }
    }
}

// ---------------------------------------------------------------------------
// The instance that a registration is bound to.

/// A fresh instance: a token of 32 hexadecimal digits in the groups of a UUID.
pub open spec fn uuid_instance(token: Seq<char>) -> Seq<char> {
    "urn:uuid:"@ + token.subrange(0, 8) + "-"@ + token.subrange(8, 12) + "-"@ + token.subrange(
        12,
        16,
    ) + "-"@ + token.subrange(16, 20) + "-"@ + token.subrange(20, 32)
}

/// A fresh instance from a random token.
pub fn new_sip_instance(token: &str) -> (r: String)
    requires
        token@.len() == 32,
    ensures
        r@ == uuid_instance(token@),
{
    let c = text::chars(token);
    let mut out = "urn:uuid:".to_string();
    let a = text::part(c.as_slice(), 0, 8);
    out.append(a.as_str());
    out.append("-");
    let b = text::part(c.as_slice(), 8, 12);
    out.append(b.as_str());
    out.append("-");
    let d = text::part(c.as_slice(), 12, 16);
    out.append(d.as_str());
    out.append("-");
    let e = text::part(c.as_slice(), 16, 20);
    out.append(e.as_str());
    out.append("-");
    let f = text::part(c.as_slice(), 20, 32);
    out.append(f.as_str());
    out
}

/// The instance of a line: its IMEI where the carrier's policy wants that and the
/// IMEI is valid, and a fresh one otherwise.
pub open spec fn sip_instance(
    profile: CarrierProfile,
    imei: Option<Seq<char>>,
    token: Seq<char>,
) -> Seq<char> {
    if profile.identity.device_identity_enabled && profile.ims.register.always_add_sip_instance
        && imei is Some && effective_profile::imei_valid(trimmed(imei->0)) {
        "urn:imei:"@ + trimmed(imei->0)
    } else {
        uuid_instance(token)
    }
}

/// The instance of a line, given its IMEI and a random token.
pub fn sip_instance_for_profile(
    profile: &CarrierProfile,
    effective_imei: Option<&str>,
    token: &str,
) -> (r: String)
    requires
        token@.len() == 32,
    ensures
        r@ == sip_instance(
            *profile,
            match effective_imei {
                Some(imei) => Some(imei@),
                None => None,
            },
            token@,
        ),
{
    if profile.identity.device_identity_enabled && profile.ims.register.always_add_sip_instance {
        if let Some(imei) = effective_imei {
            let imei = text::trim(imei);
            if effective_profile::is_valid_imei(imei.as_str()) {
                let mut out = "urn:imei:".to_string();
                out.append(imei.as_str());
                return out;
            }
        }
    }
    new_sip_instance(token)
}

// ---------------------------------------------------------------------------
// The subscriber.

/// The path of the SIM that the modem's output names.
pub fn sim_path(modem_output: &str) -> (r: Result<String, VolteError>)
    ensures
        match r {
            Ok(path) => value_of(modem_output@, "modem.generic.sim"@) == Some(path@),
            Err(error) => value_of(modem_output@, "modem.generic.sim"@) is None && error@
                == failure(code::MM_IMSI_MISSING@),
        },
{
    match modem_output::key_value(modem_output, "modem.generic.sim") {
        Some(path) => Ok(path),
        None => Err(VolteError::new(code::MM_IMSI_MISSING)),
    }
}

/// The subscriber on a line, with the profile that applies.
#[derive(Debug, PartialEq, Eq)]
pub struct DeviceIdentity {
    pub ims: ImsIdentity,
    pub effective_ims: EffectiveImsProfile,
    pub effective_device_identity: EffectiveDeviceIdentity,
    /// The application that authentication runs on.
    pub aka_aid: Vec<u8>,
    pub usim_aid: String,
    pub isim_aid: Option<String>,
    /// How the identity was found.
    pub source: &'static str,
}

/// The IMEI of the device, where it has one.
pub open spec fn equipment(identifier: Seq<char>) -> Option<Seq<char>> {
    if trimmed(identifier).len() == 0 {
        None
    } else {
        Some(identifier)
    }
}

/// Puts the subscriber of a line together from what the card and the modem report,
/// the carrier's profile and the user's changes. `own` says that the IMSI is the
/// modem's own reply.
pub fn load_device_identity(
    imsi: &str,
    own: bool,
    applications: &UiccApplications,
    profile: &CarrierProfile,
    sim_override: &SimOverride,
    equipment_identifier: &str,
) -> (r: DeviceIdentity)
    ensures
        r.effective_ims@ == ims_profile(*profile, changes(Some(sim_override)).volte),
        r.ims@ == identity_of(
            imsi@,
            r.effective_ims@.realm.value,
            r.effective_ims@.domain.value,
        ),
        (opt(r.effective_device_identity.imei), r.effective_device_identity.source)
            == device_identity(
            changes(Some(sim_override)).custom_imei,
            equipment(equipment_identifier@),
        ),
        r.aka_aid@ == identity::usim_aid_of(identity::opt_aid(applications.usim_aid)),
        r.usim_aid@ == crate::profile_override::hex_bytes(r.aka_aid@),
        opt(r.isim_aid) == (match identity::opt_aid(applications.isim_aid) {
            Some(aid) => Some(crate::profile_override::hex_bytes(aid)),
            None => None,
        }),
        r.source@ == identity_source_of(own, applications.isim_aid is Some),
{
    let effective_ims = effective_profile::resolve_effective_ims_profile(
        profile,
        Some(sim_override),
    );
    let trimmed_identifier = text::trim(equipment_identifier);
    let device_imei = if trimmed_identifier.as_str().is_empty() {
        None
    } else {
        Some(equipment_identifier)
    };
    let effective_device_identity = effective_profile::resolve_effective_device_identity(
        Some(sim_override),
        device_imei,
    );
    let discovered = match &applications.usim_aid {
        Some(aid) => Some(aid.as_slice()),
        None => None,
    };
    let aka_aid = identity::resolve_usim_aid(discovered);
    let usim_aid = identity::aid_hex(aka_aid.as_slice());
    let isim_aid = match &applications.isim_aid {
        Some(aid) => Some(identity::aid_hex(aid.as_slice())),
        None => None,
    };
    let source = identity::identity_source(own, applications.isim_aid.is_some());
    let ims = identity::identity_in(
        imsi,
        effective_ims.realm.value.as_str(),
        effective_ims.domain.value.as_str(),
    );
    DeviceIdentity {
        ims,
        effective_ims,
        effective_device_identity,
        aka_aid,
        usim_aid,
        isim_aid,
        source,
    }
}

/// What a REGISTER of this profile is addressed to.
pub fn effective_register_target(profile: &EffectiveImsProfile) -> (r: RegisterTarget)
    ensures
        r@ == (TargetView {
            domain: profile@.domain.value,
            realm: profile@.realm.value,
            registrar: match profile@.registrar {
                Some(field) => Some(field.value),
                None => None,
            },
        }),
{
    RegisterTarget {
        domain: profile.domain.value.clone(),
        realm: profile.realm.value.clone(),
        registrar: match &profile.registrar {
            Some(field) => Some(field.value.clone()),
            None => None,
        },
    }
}

} // verus!
