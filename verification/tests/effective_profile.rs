use volte_ims::carrier::{
    CarrierEpdg, CarrierIdentity, CarrierIms, CarrierMeta, CarrierProfile, CarrierRegister,
};
use volte_ims::effective_profile::{
    is_valid_imei, resolve_effective_common_with_sources, resolve_effective_device_identity,
    resolve_effective_emergency, resolve_effective_ims_profile,
    resolve_effective_vowifi_ims_profile, resolve_effective_vowifi_profile, source_map_of,
    validate_override, EffectiveServices,
};
use volte_ims::profile_override::{
    ImsAccessOverride, ImsCommonOverride, OverrideSource, SimOverride,
};

/// The catalog entry of a carrier with VoWiFi over IPv6.
fn gb_ee() -> CarrierProfile {
    CarrierProfile {
        meta: CarrierMeta { profile_id: "gb-ee-23433" },
        identity: CarrierIdentity { device_identity_enabled: false },
        epdg: CarrierEpdg {
            host: "epdg.epc.mnc033.mcc234.pub.3gppnetwork.org",
            port: 500,
            apn: Some("ims"),
            ip_stack: "ipv6",
            dns_servers: vec!["198.51.100.53"],
            dns_server: None,
        },
        ims: CarrierIms {
            domain: "ims.mnc033.mcc234.3gppnetwork.org",
            realm: "ims.mnc033.mcc234.3gppnetwork.org",
            pcscf: None,
            registrar: None,
            user_agent: "volte",
            register: CarrierRegister {
                initial_authorization: "aka_empty",
                sec_agree_mode: "optional",
                require_sec_agree_headers: false,
                proxy_require_sec_agree_headers: false,
                supported_header: "path,sec-agree",
                live_header_variant_set: "catalog",
                include_mmtel_features: true,
                include_route_header: true,
                include_visited_network: true,
                security_client_mechanisms: vec!["hmac-md5-96/null/esp/trans"],
                strict_security_server_offer: false,
                expires_seconds: 600_000,
                always_add_sip_instance: false,
            },
        },
    }
}


fn no_override_ref() -> Option<&'static SimOverride> {
    None
}

#[test]
fn vowifi_merge_prefers_override_fields() {
    let mut override_ = SimOverride {
        ims_vowifi: ImsAccessOverride {
            epdg_host: Some("override.epdg.example".to_string()),
            epdg_port: Some(4500),
            ..Default::default()
        },
        ..Default::default()
    };
    let effective = resolve_effective_vowifi_profile(&gb_ee(), Some(&override_));
    assert_eq!(effective.epdg_host.value, "override.epdg.example");
    assert_eq!(effective.epdg_host.source, OverrideSource::SimOverride);
    assert_eq!(effective.epdg_port, 4500);
    assert_eq!(effective.epdg_port_source, OverrideSource::SimOverride);
    assert_eq!(effective.ip_stack.value, "ipv6");
    assert_eq!(effective.ip_stack.source, OverrideSource::Catalog);

    override_.ims_vowifi.epdg_host = None;
    override_.ims_vowifi.epdg_port = None;
    let effective = resolve_effective_vowifi_profile(&gb_ee(), Some(&override_));
    assert_eq!(
        effective.epdg_host.value,
        "epdg.epc.mnc033.mcc234.pub.3gppnetwork.org"
    );
    assert_eq!(effective.epdg_host.source, OverrideSource::Catalog);
    assert_eq!(effective.epdg_port, 500);
    assert_eq!(effective.epdg_port_source, OverrideSource::Catalog);
}

#[test]
fn no_override_means_pure_catalog() {
    let vowifi = resolve_effective_vowifi_profile(&gb_ee(), no_override_ref());
    let ims = resolve_effective_ims_profile(&gb_ee(), no_override_ref());
    assert_eq!(vowifi.epdg_host.source, OverrideSource::Catalog);
    assert_eq!(vowifi.epdg_port_source, OverrideSource::Catalog);
    assert_eq!(
        vowifi
            .dns_servers
            .iter()
            .all(|d| d.source == OverrideSource::Catalog),
        true
    );
    assert_eq!(ims.domain.source, OverrideSource::Catalog);
    assert_eq!(ims.ip_stack.value, "ipv6");
    assert_eq!(ims.ip_stack.source, OverrideSource::Catalog);
    assert!(ims.pinned_profile_id.is_none());
}

#[test]
fn dns_override_replaces_catalog_servers() {
    let override_ = SimOverride {
        ims_vowifi: ImsAccessOverride {
            dns: Some(vec!["9.9.9.9".to_string()]),
            ..Default::default()
        },
        ..Default::default()
    };
    let effective = resolve_effective_vowifi_profile(&gb_ee(), Some(&override_));
    assert_eq!(effective.dns_servers.len(), 1);
    assert_eq!(effective.dns_servers[0].value, "9.9.9.9");
    assert_eq!(effective.dns_servers[0].source, OverrideSource::SimOverride);
}

#[test]
fn device_identity_prefers_custom_imei() {
    let override_ = SimOverride {
        ims_common: ImsCommonOverride {
            custom_imei: Some("490154203237518".to_string()),
            ..Default::default()
        },
        ..Default::default()
    };
    let identity = resolve_effective_device_identity(Some(&override_), Some("999999999999999"));
    assert_eq!(identity.imei.as_deref(), Some("490154203237518"));
    assert_eq!(identity.source, OverrideSource::SimOverride);
}

#[test]
fn device_identity_uses_modem_imei_when_not_overridden() {
    let identity =
        resolve_effective_device_identity(no_override_ref(), Some("999999999999999"));
    assert_eq!(identity.imei.as_deref(), Some("999999999999999"));
    assert_eq!(identity.source, OverrideSource::Modem);
    let missing = resolve_effective_device_identity(no_override_ref(), None);
    assert!(missing.imei.is_none());
    assert_eq!(missing.source, OverrideSource::Network);
}

#[test]
fn invalid_custom_imei_is_ignored() {
    let override_ = SimOverride {
        ims_common: ImsCommonOverride {
            custom_imei: Some("12345".to_string()),
            ..Default::default()
        },
        ..Default::default()
    };
    let identity = resolve_effective_device_identity(Some(&override_), Some("999999999999999"));
    assert_eq!(identity.imei.as_deref(), Some("999999999999999"));
    assert_eq!(identity.source, OverrideSource::Modem);
}

#[test]
fn voicemail_source_order_is_override_then_sim_then_catalog() {
    let mut override_ = SimOverride::default();
    override_.ims_common.voicemail_number = Some("*86".to_string());
    let common =
        resolve_effective_common_with_sources(Some(&override_), Some("123"), Some("456"));
    assert_eq!(common.voicemail_number.as_deref(), Some("*86"));
    assert_eq!(
        common.voicemail_number_source,
        Some(OverrideSource::SimOverride)
    );

    override_.ims_common.voicemail_number = None;
    let common =
        resolve_effective_common_with_sources(Some(&override_), Some("123"), Some("456"));
    assert_eq!(common.voicemail_number.as_deref(), Some("123"));
    assert_eq!(common.voicemail_number_source, Some(OverrideSource::Modem));

    let common = resolve_effective_common_with_sources(None, None, Some("456"));
    assert_eq!(common.voicemail_number.as_deref(), Some("456"));
    assert_eq!(
        common.voicemail_number_source,
        Some(OverrideSource::Catalog)
    );
}

#[test]
fn imei_validation_accepts_gsma_valid_and_rejects_bad_checksum() {
    assert!(is_valid_imei("490154203237518"));
    assert!(is_valid_imei("351234567890124"));
    assert!(!is_valid_imei("351234567890123"));
    assert!(!is_valid_imei("12345"));
    assert!(!is_valid_imei("35123456789012a"));
    assert!(!is_valid_imei("3512345678901234"));
}

#[test]
fn validate_override_reports_diagnosable_problems() {
    let override_ = SimOverride {
        ims_common: ImsCommonOverride {
            custom_imei: Some("12345".to_string()),
            ..Default::default()
        },
        ims_vowifi: ImsAccessOverride {
            epdg_host: Some("  ".to_string()),
            epdg_port: Some(0),
            ..Default::default()
        },
        ..Default::default()
    };
    let problems = validate_override(&override_);
    assert!(problems.contains(&"custom_imei_must_be_15_digits".to_string()));
    assert!(problems.contains(&"ims_vowifi.epdg_host_must_not_be_empty".to_string()));
    assert!(problems.contains(&"ims_vowifi.epdg_port_must_not_be_zero".to_string()));
}

#[test]
fn valid_override_has_no_problems() {
    let override_ = SimOverride {
        ims_vowifi: ImsAccessOverride {
            epdg_host: Some("epdg.example".to_string()),
            epdg_port: Some(4500),
            ..Default::default()
        },
        ..Default::default()
    };
    assert!(validate_override(&override_).is_empty());
}

#[test]
fn spoofed_vowifi_imsi_requires_a_valid_decimal_identity() {
    let mut override_ = SimOverride::default();
    override_.ims_vowifi.spoof_imsi = true;
    assert!(validate_override(&override_)
        .contains(&"ims_vowifi.custom_imsi_required_when_spoof_enabled".to_string()));

    override_.ims_vowifi.custom_imsi = Some("46000invalid".to_string());
    assert!(validate_override(&override_)
        .contains(&"ims_vowifi.custom_imsi_must_be_5_to_16_digits".to_string()));

    override_.ims_vowifi.custom_imsi = Some("460001234567890".to_string());
    assert!(validate_override(&override_).is_empty());
}

#[test]
fn source_map_lists_only_present_sources() {
    let override_ = SimOverride {
        ims_vowifi: ImsAccessOverride {
            epdg_host: Some("override.epdg.example".to_string()),
            ..Default::default()
        },
        ..Default::default()
    };
    let vowifi = resolve_effective_vowifi_profile(&gb_ee(), Some(&override_));
    let volte_ims = resolve_effective_ims_profile(&gb_ee(), Some(&override_));
    let vowifi_ims = resolve_effective_vowifi_ims_profile(&gb_ee(), Some(&override_));
    let identity = resolve_effective_device_identity(Some(&override_), None);
    let common = resolve_effective_common_with_sources(Some(&override_), None, None);
    let services = EffectiveServices::from_override(Some(&override_));
    let emergency = resolve_effective_emergency(Some(&override_));
    let map = source_map_of(
        &vowifi,
        &volte_ims,
        &vowifi_ims,
        &identity,
        &common,
        &services,
        &emergency,
    );
    assert!(map.contains(&("vowifi.epdg_host".to_string(), OverrideSource::SimOverride)));
    assert!(map.contains(&("vowifi.epdg_port".to_string(), OverrideSource::Catalog)));
    assert!(map.contains(&("volte_ims.domain".to_string(), OverrideSource::Catalog)));
    assert!(map.contains(&("vowifi_ims.domain".to_string(), OverrideSource::Catalog)));
    assert!(map.contains(&("identity.imei".to_string(), OverrideSource::Network)));
}

#[test]
fn volte_and_vowifi_ims_overrides_remain_independent() {
    let override_ = SimOverride {
        ims_volte: ImsAccessOverride {
            domain: Some("volte.example".to_string()),
            realm: Some("volte-realm.example".to_string()),
            registrar: Some("sip:volte-reg.example".to_string()),
            ..Default::default()
        },
        ims_vowifi: ImsAccessOverride {
            domain: Some("vowifi.example".to_string()),
            realm: Some("vowifi-realm.example".to_string()),
            registrar: Some("sip:vowifi-reg.example".to_string()),
            ..Default::default()
        },
        ..Default::default()
    };
    let volte = resolve_effective_ims_profile(&gb_ee(), Some(&override_));
    let vowifi = resolve_effective_vowifi_ims_profile(&gb_ee(), Some(&override_));
    assert_eq!(volte.domain.value, "volte.example");
    assert_eq!(volte.realm.value, "volte-realm.example");
    assert_eq!(volte.registrar.unwrap().value, "sip:volte-reg.example");
    assert_eq!(vowifi.domain.value, "vowifi.example");
    assert_eq!(vowifi.realm.value, "vowifi-realm.example");
    assert_eq!(vowifi.registrar.unwrap().value, "sip:vowifi-reg.example");
}

#[test]
fn volte_connection_snapshot_uses_only_volte_access_fields() {
    let override_ = SimOverride {
        ims_volte: ImsAccessOverride {
            profile_id: Some("volte-profile".to_string()),
            apn: Some("volte-ims".to_string()),
            pcscf: Some(vec!["192.0.2.10".to_string(), "192.0.2.11".to_string()]),
            ..Default::default()
        },
        ims_vowifi: ImsAccessOverride {
            profile_id: Some("vowifi-profile".to_string()),
            apn: Some("vowifi-ims".to_string()),
            pcscf: Some(vec!["198.51.100.10".to_string()]),
            ..Default::default()
        },
        ..Default::default()
    };

    let effective = resolve_effective_ims_profile(&gb_ee(), Some(&override_));
    assert_eq!(effective.pinned_profile_id.unwrap().value, "volte-profile");
    assert_eq!(effective.ims_apn.unwrap().value, "volte-ims");
    assert_eq!(effective.pcscf.unwrap().value, "192.0.2.10,192.0.2.11");
}

#[test]
fn volte_ip_stack_override_wins_over_lte_catalog_hint() {
    let override_ = SimOverride {
        ims_volte: ImsAccessOverride {
            ip_stack: Some("ipv4".to_string()),
            ..Default::default()
        },
        ..Default::default()
    };
    let effective = resolve_effective_ims_profile(&gb_ee(), Some(&override_));
    assert_eq!(effective.ip_stack.value, "ipv4");
    assert_eq!(effective.ip_stack.source, OverrideSource::SimOverride);
}
