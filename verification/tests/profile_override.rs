use volte_ims::carrier::{
    CarrierEpdg, CarrierIdentity, CarrierIms, CarrierMeta, CarrierProfile, CarrierRegister,
};
use volte_ims::effective_profile::{
    resolve_effective_device_identity, resolve_effective_emergency, resolve_effective_ims_profile,
    resolve_effective_vowifi_ims_profile,
};
use volte_ims::profile_override::{
    normalize_eid, read_stored_override, validate_stored_override_document, EmergencyOverride,
    ImsAccessOverride, ImsCommonOverride, OverrideError, OverrideFile, SaveAction, SimBindingKey,
    SimOverride, SimOverrideStore, OVERRIDE_SCHEMA_VERSION,
};

/// Records by the name of their file.
struct Disk {
    store: SimOverrideStore,
    records: Vec<(String, OverrideFile)>,
}

fn temp_store() -> Disk {
    Disk { store: SimOverrideStore::new("/data/simadmin/ims-overrides"), records: Vec::new() }
}

impl Disk {
    fn apply(&mut self, action: SaveAction) {
        let (record, file) = match action {
            SaveAction::Remove { record } => (record, None),
            SaveAction::Write { record, file } => (record, Some(file)),
        };
        let name = format!("{record}.json");
        self.records.retain(|(known, _)| *known != name);
        if let Some(file) = file {
            self.records.push((name, file));
        }
    }

    fn save(&mut self, key: &SimBindingKey, override_: &SimOverride) {
        let action = self.store.save(key, override_);
        self.apply(action);
    }

    fn delete(&mut self, key: &SimBindingKey) {
        let action = self.store.delete(key);
        self.apply(action);
    }

    fn put(&mut self, key: &SimBindingKey, file: OverrideFile) {
        self.apply(SaveAction::Write { record: key.sha256(), file });
    }

    fn holds(&self, key: &SimBindingKey) -> bool {
        let name = self.store.file_name_for(key);
        self.records.iter().any(|(known, _)| *known == name)
    }

    fn load(&mut self, key: &SimBindingKey) -> Result<Option<SimOverride>, OverrideError> {
        let name = self.store.file_name_for(key);
        let at = self.records.iter().position(|(known, _)| *known == name);
        let stored = at.map(|at| self.records.remove(at).1);
        let again = stored.as_ref().map(|file| OverrideFile {
            schema_version: file.schema_version,
            ..OverrideFile::from_override(
                &file.binding,
                &SimOverride {
                    ims_common: file.ims.common.clone(),
                    ims_volte: file.ims.volte.clone(),
                    ims_vowifi: file.ims.vowifi.clone(),
                    services: file.services,
                    emergency: file.emergency.clone(),
                },
            )
        });
        if let Some(file) = again {
            self.records.push((name, file));
        }
        self.store.load(key, stored.map(Ok))
    }
}

/// The catalog entry of a carrier with VoWiFi over IPv6.
fn gb_ee() -> CarrierProfile {
    CarrierProfile {
        meta: CarrierMeta { profile_id: "gb-ee-23433" },
        identity: CarrierIdentity { device_identity_enabled: false },
        epdg: CarrierEpdg {
            host: "epdg.epc.mnc033.mcc234.pub.3gppnetwork.org",
            port: 500,
            apn: Some("ims"),
            ip_stack: "ipv6",
            dns_servers: vec!["198.51.100.53"],
            dns_server: None,
        },
        ims: CarrierIms {
            domain: "ims.mnc033.mcc234.3gppnetwork.org",
            realm: "ims.mnc033.mcc234.3gppnetwork.org",
            pcscf: None,
            registrar: None,
            user_agent: "volte",
            register: CarrierRegister {
                initial_authorization: "aka_empty",
                sec_agree_mode: "optional",
                require_sec_agree_headers: false,
                proxy_require_sec_agree_headers: false,
                supported_header: "path,sec-agree",
                live_header_variant_set: "catalog",
                include_mmtel_features: true,
                include_route_header: true,
                include_visited_network: true,
                security_client_mechanisms: vec!["hmac-md5-96/null/esp/trans"],
                strict_security_server_offer: false,
                expires_seconds: 600_000,
                always_add_sip_instance: false,
            },
        },
    }
}

fn sample_override() -> SimOverride {
    SimOverride {
        ims_common: ImsCommonOverride {
            custom_imei: Some("351234567890123".to_string()),
            voicemail_number: None,
        },
        ims_vowifi: ImsAccessOverride {
            profile_id: Some("cn-cmcc-vowifi".to_string()),
            epdg_host: Some("epdg.example.com".to_string()),
            ..Default::default()
        },
        ..Default::default()
    }
}

#[test]
fn plain_binding_normalizes_iccid() {
    let key = SimBindingKey::resolve(Some("898600F1234567890123"), None).unwrap();
    assert_eq!(
        key,
        SimBindingKey::Plain {
            iccid: "8986001234567890123".to_string()
        }
    );
    assert_eq!(key.iccid(), "8986001234567890123");
    assert!(key.normalized_eid().is_none());
}

#[test]
fn euicc_binding_uses_eid_and_profile_iccid() {
    let key = SimBindingKey::resolve(
        Some("8986001234567890123"),
        Some("89086030123456789012345678901234"),
    )
    .unwrap();
    match &key {
        SimBindingKey::Euicc { eid, profile_iccid } => {
            assert_eq!(eid, "89086030123456789012345678901234");
            assert_eq!(profile_iccid, "8986001234567890123");
        }
        _ => panic!("expected euicc binding"),
    }
    assert_eq!(
        key.normalized_eid(),
        Some("89086030123456789012345678901234")
    );
    assert_eq!(key.iccid(), "8986001234567890123");
}

#[test]
fn invalid_eid_degrades_to_plain_binding() {
    let key = SimBindingKey::resolve(Some("8986001234567890123"), Some("short")).unwrap();
    assert_eq!(
        key,
        SimBindingKey::Plain {
            iccid: "8986001234567890123".to_string()
        }
    );
    let key2 = SimBindingKey::resolve(
        Some("8986001234567890123"),
        Some("abcdef012345678901234567890123456"),
    )
    .unwrap();
    assert_eq!(
        key2,
        SimBindingKey::Plain {
            iccid: "8986001234567890123".to_string()
        }
    );
}

#[test]
fn missing_iccid_fails_closed() {
    let error =
        SimBindingKey::resolve(None, Some("89086030123456789012345678901234")).unwrap_err();
    assert_eq!(error.code(), "sim_identity_not_ready");
    let error = SimBindingKey::resolve(Some("   "), None).unwrap_err();
    assert_eq!(error.code(), "sim_identity_not_ready");
}

#[test]
fn switching_profile_iccid_changes_euicc_binding() {
    let profile_a = SimBindingKey::resolve(
        Some("8986001111111111111"),
        Some("89086030123456789012345678901234"),
    )
    .unwrap();
    let profile_b = SimBindingKey::resolve(
        Some("8986002222222222222"),
        Some("89086030123456789012345678901234"),
    )
    .unwrap();
    assert_ne!(profile_a, profile_b);
    assert_ne!(profile_a.sha256(), profile_b.sha256());
}

#[test]
fn round_trip_persists_only_user_fields() {
    let mut store = temp_store();
    let key = SimBindingKey::resolve(Some("8986001234567890123"), None).unwrap();
    let override_ = sample_override();
    store.save(&key, &override_);

    let loaded = store.load(&key).unwrap().expect("override should exist");
    assert_eq!(
        loaded.ims_common.custom_imei.as_deref(),
        Some("351234567890123")
    );
    assert_eq!(
        loaded.ims_vowifi.profile_id.as_deref(),
        Some("cn-cmcc-vowifi")
    );
    assert_eq!(
        loaded.ims_vowifi.epdg_host.as_deref(),
        Some("epdg.example.com")
    );
    assert!(loaded.ims_volte.is_empty());
    assert!(loaded.services.is_empty());
}

#[test]
fn empty_override_removes_file() {
    let mut store = temp_store();
    let key = SimBindingKey::resolve(Some("8986001234567890123"), None).unwrap();
    store.save(&key, &sample_override());
    assert!(store.load(&key).unwrap().is_some());

    store.save(&key, &SimOverride::default());
    assert!(store.load(&key).unwrap().is_none());
    assert!(!store.holds(&key));
}

#[test]
fn delete_missing_file_is_not_an_error() {
    let mut store = temp_store();
    let key = SimBindingKey::resolve(Some("8986001234567890123"), None).unwrap();
    store.delete(&key);
    assert!(store.load(&key).unwrap().is_none());
}

#[test]
fn delete_leaves_the_records_of_other_sims() {
    let mut store = temp_store();
    let key = SimBindingKey::resolve(Some("8986001234567890123"), None).unwrap();
    let other = SimBindingKey::resolve(Some("8986001234567890124"), None).unwrap();
    store.save(&key, &sample_override());
    store.save(&other, &sample_override());
    store.delete(&key);
    store.delete(&key);
    assert!(store.load(&key).unwrap().is_none());
    assert_eq!(store.load(&other).unwrap(), Some(sample_override()));
}

#[test]
fn corrupt_file_fails_closed() {
    let key = SimBindingKey::resolve(Some("8986001234567890123"), None).unwrap();
    let error =
        read_stored_override(OVERRIDE_SCHEMA_VERSION, Err("syntax".to_string()), &key).unwrap_err();
    assert!(error.code().starts_with("sim_override_corrupt"));
    assert_eq!(error.code(), "sim_override_corrupt:syntax");
    let store = temp_store().store;
    let error = store.load(&key, Some(Err("syntax".to_string()))).unwrap_err();
    assert_eq!(error.code(), "sim_override_corrupt:syntax");
}

#[test]
fn unsupported_schema_fails_closed() {
    let mut store = temp_store();
    let key = SimBindingKey::resolve(Some("8986001234567890123"), None).unwrap();
    let file = OverrideFile {
        schema_version: 999,
        ..OverrideFile::from_override(&key, &SimOverride::default())
    };
    store.put(&key, file);
    let error = store.load(&key).unwrap_err();
    assert!(error.code().starts_with("sim_override_unsupported_schema"));
    assert_eq!(error.code(), "sim_override_unsupported_schema:999");
}

#[test]
fn binding_mismatch_fails_closed() {
    let mut store = temp_store();
    let key = SimBindingKey::resolve(Some("8986001234567890123"), None).unwrap();
    let other = SimBindingKey::resolve(Some("8986009999999999999"), None).unwrap();
    let file = OverrideFile {
        schema_version: OVERRIDE_SCHEMA_VERSION,
        binding: other,
        ..OverrideFile::from_override(&key, &sample_override())
    };
    store.put(&key, file);
    let error = store.load(&key).unwrap_err();
    assert_eq!(error.code(), "sim_override_binding_mismatch");
}

#[test]
fn filename_hashes_sensitive_identifiers() {
    let key = SimBindingKey::resolve(Some("8986001234567890123"), None).unwrap();
    let hash = key.sha256();
    assert_eq!(hash.len(), 64);
    assert!(!hash.contains("8986001234567890123"));
    assert!(store_path_is_within_dir(&key));
}

fn store_path_is_within_dir(key: &SimBindingKey) -> bool {
    let name = SimOverrideStore::new("/data/simadmin/ims-overrides").file_name_for(key);
    !name.contains('/') && name.ends_with(".json")
}

#[test]
fn name_is_the_digest_of_the_canonical_key() {
    let plain = SimBindingKey::resolve(Some("8986001234567890123"), None).unwrap();
    assert_eq!(
        plain.sha256(),
        "e0bd12b70cf78f7ca73170c2088474148f0ba4cb6c79ebafd48e764156df4821"
    );
    let euicc = SimBindingKey::resolve(
        Some("8986001234567890123"),
        Some("89086030123456789012345678901234"),
    )
    .unwrap();
    assert_eq!(
        euicc.sha256(),
        "bc357b52ccf51b712c926fdcf6cfab6dc11ab82c1b18062d5904ec739321364b"
    );
    assert_eq!(euicc.checked_sha256(), Some(euicc.sha256()));
}

#[test]
fn imported_records_are_checked_against_their_name() {
    let key = SimBindingKey::resolve(Some("8986001234567890123"), None).unwrap();
    let file = OverrideFile::from_override(&key, &sample_override());
    let hash = key.sha256();
    assert!(validate_stored_override_document(&hash, OVERRIDE_SCHEMA_VERSION, Some(&file)).is_ok());
    let code = |result: Result<(), OverrideError>| result.unwrap_err().code().to_string();
    assert_eq!(
        code(validate_stored_override_document("forged", OVERRIDE_SCHEMA_VERSION, Some(&file))),
        "sim_override_binding_hash_mismatch"
    );
    assert_eq!(
        code(validate_stored_override_document(&hash, 999, Some(&file))),
        "sim_override_unsupported_schema"
    );
    assert_eq!(
        code(validate_stored_override_document(&hash, OVERRIDE_SCHEMA_VERSION, None)),
        "sim_override_corrupt"
    );
    let odd = OverrideFile { schema_version: 999, ..file };
    assert_eq!(
        code(validate_stored_override_document(&hash, OVERRIDE_SCHEMA_VERSION, Some(&odd))),
        "sim_override_schema_mismatch"
    );
}

#[test]
fn rows_repeat_the_version_of_their_record() {
    let key = SimBindingKey::resolve(Some("8986001234567890123"), None).unwrap();
    let file = || OverrideFile::from_override(&key, &sample_override());
    let found = read_stored_override(OVERRIDE_SCHEMA_VERSION, Ok(file()), &key).unwrap();
    assert_eq!(found.ims_vowifi.profile_id.as_deref(), Some("cn-cmcc-vowifi"));
    assert_eq!(
        read_stored_override(999, Ok(file()), &key).unwrap_err().code(),
        "sim_override_unsupported_schema:999"
    );
    let odd = OverrideFile { schema_version: 999, ..file() };
    assert_eq!(
        read_stored_override(OVERRIDE_SCHEMA_VERSION, Ok(odd), &key).unwrap_err().code(),
        "sim_override_schema_mismatch"
    );
    let other = SimBindingKey::resolve(Some("8986009999999999999"), None).unwrap();
    assert_eq!(
        read_stored_override(OVERRIDE_SCHEMA_VERSION, Ok(file()), &other).unwrap_err().code(),
        "sim_override_binding_mismatch"
    );
}

#[test]
fn database_store_round_trips_distinct_bindings() {
    let mut store = temp_store();
    let first = SimBindingKey::resolve(Some("8986001111111111111"), None).unwrap();
    let second = SimBindingKey::resolve(Some("8986002222222222222"), None).unwrap();
    let mut first_override = sample_override();
    first_override.ims_common.voicemail_number = Some("111".to_string());
    let mut second_override = sample_override();
    second_override.ims_common.voicemail_number = Some("222".to_string());

    store.save(&first, &first_override);
    store.save(&second, &second_override);
    assert_eq!(
        store
            .load(&first)
            .unwrap()
            .unwrap()
            .ims_common
            .voicemail_number
            .as_deref(),
        Some("111")
    );
    assert_eq!(
        store
            .load(&second)
            .unwrap()
            .unwrap()
            .ims_common
            .voicemail_number
            .as_deref(),
        Some("222")
    );
    assert_eq!(store.records.len(), 2);
}

#[test]
fn same_catalog_multi_sim_access_and_hotplug_contract_stays_isolated() {
    let mut store = temp_store();
    let first = SimBindingKey::resolve(Some("8986001111111111111"), None).unwrap();
    let second = SimBindingKey::resolve(Some("8986002222222222222"), None).unwrap();
    let make_override = |imei: &str, suffix: &str| SimOverride {
        ims_common: ImsCommonOverride {
            custom_imei: Some(imei.to_string()),
            voicemail_number: Some(format!("*8{suffix}")),
        },
        ims_volte: ImsAccessOverride {
            domain: Some(format!("volte-{suffix}.ims.example")),
            ..Default::default()
        },
        ims_vowifi: ImsAccessOverride {
            domain: Some(format!("vowifi-{suffix}.ims.example")),
            epdg_host: Some(format!("epdg-{suffix}.example")),
            ..Default::default()
        },
        emergency: EmergencyOverride {
            e911_address: Some(format!("address-{suffix}")),
        },
        ..Default::default()
    };
    store.save(&first, &make_override("490154203237518", "a"));
    store.save(&second, &make_override("351234567890124", "b"));

    let first_loaded = store.load(&first).unwrap().unwrap();
    let second_loaded = store.load(&second).unwrap().unwrap();
    for (loaded, suffix, imei) in [
        (&first_loaded, "a", "490154203237518"),
        (&second_loaded, "b", "351234567890124"),
    ] {
        assert_eq!(
            resolve_effective_ims_profile(&gb_ee(), Some(loaded))
                .domain
                .value,
            format!("volte-{suffix}.ims.example")
        );
        assert_eq!(
            resolve_effective_vowifi_ims_profile(&gb_ee(), Some(loaded))
                .domain
                .value,
            format!("vowifi-{suffix}.ims.example")
        );
        assert_eq!(
            resolve_effective_device_identity(Some(loaded), None)
                .imei
                .as_deref(),
            Some(imei)
        );
        assert_eq!(
            resolve_effective_emergency(Some(loaded))
                .e911_address
                .as_deref(),
            Some(format!("address-{suffix}").as_str())
        );
    }

    let eid = "89086030123456789012345678901234";
    let esim_profile_a = SimBindingKey::resolve(Some("8986003333333333333"), Some(eid)).unwrap();
    let esim_profile_b = SimBindingKey::resolve(Some("8986004444444444444"), Some(eid)).unwrap();
    store.save(&esim_profile_a, &make_override("490154203237518", "esim-a"));
    assert!(store.load(&esim_profile_b).unwrap().is_none());
}

#[test]
fn database_empty_override_deletes_row() {
    let mut store = temp_store();
    let key = SimBindingKey::resolve(Some("8986001234567890123"), None).unwrap();
    store.save(&key, &sample_override());
    store.save(&key, &SimOverride::default());
    assert!(store.load(&key).unwrap().is_none());
    assert_eq!(store.records.len(), 0);
}

#[test]
fn resolve_prefers_the_override_dir_escape_hatch() {
    let from_database = SimOverrideStore::resolve(None);
    assert_eq!(from_database.dir(), "");

    let from_env = SimOverrideStore::resolve(Some("/tmp/overrides"));
    assert_eq!(from_env.dir(), "/tmp/overrides");
}

#[test]
fn normalize_eid_accepts_only_32_digits() {
    assert_eq!(
        normalize_eid("89086030123456789012345678901234"),
        "89086030123456789012345678901234"
    );
    assert_eq!(
        normalize_eid(" 8908 6030 1234 5678 9012 3456 7890 1234 "),
        "89086030123456789012345678901234"
    );
    assert_eq!(normalize_eid("8908603012345678901234567890123"), "");
    assert_eq!(normalize_eid("abc"), "");
}

#[test]
fn sanitized_override_is_the_override() {
    assert_eq!(sample_override().sanitized(), sample_override());
}
