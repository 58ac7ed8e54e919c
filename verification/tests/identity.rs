use volte_ims::errors::code;
use volte_ims::identity::{
    derive_identity, home_domain, is_usim_aid, isim_aid_prefix, parse_cimi_response,
    parse_ef_ad_mnc_length, parse_uicc_applications, resolve_home_plmn, resolve_usim_aid,
    split_imsi, usim_aid_prefix,
};

#[test]
fn home_domain_pads_two_digit_mnc_to_three() {
    assert_eq!(
        home_domain("460", "01"),
        "ims.mnc001.mcc460.3gppnetwork.org"
    );
    assert_eq!(
        home_domain("310", "260"),
        "ims.mnc260.mcc310.3gppnetwork.org"
    );
}

#[test]
fn derive_identity_builds_impi_impu() {
    let id = derive_identity("460001234567890", "460", "00");
    assert_eq!(
        id.private_user,
        "460001234567890@ims.mnc000.mcc460.3gppnetwork.org"
    );
    assert_eq!(
        id.public_uri,
        "sip:460001234567890@ims.mnc000.mcc460.3gppnetwork.org"
    );
    assert_eq!(id.contact_user, "460001234567890");
}

#[test]
fn split_imsi_extracts_mcc_mnc() {
    let (mcc, mnc) = split_imsi("460001234567890", 2).unwrap();
    assert_eq!(mcc, "460");
    assert_eq!(mnc, "00");
    let (mcc3, mnc3) = split_imsi("310260123456789", 3).unwrap();
    assert_eq!(mcc3, "310");
    assert_eq!(mnc3, "260");
}

#[test]
fn split_imsi_rejects_non_digits() {
    assert_eq!(
        split_imsi("46zzz", 2).unwrap_err().code(),
        code::IMSI_MISSING
    );
}

#[test]
fn parses_modemmanager_cimi_response() {
    assert_eq!(
        parse_cimi_response("response: '460001234567890'\n").as_deref(),
        Some("460001234567890")
    );
    assert_eq!(parse_cimi_response("error: command rejected"), None);
}

#[test]
fn parses_qmicli_ef_ad_mnc_length() {
    assert_eq!(
        parse_ef_ad_mnc_length("Read result:\n\t00:00:01:02\n"),
        Some(2)
    );
    assert_eq!(
        parse_ef_ad_mnc_length("Read result: '00:00:01:03'\n"),
        Some(3)
    );
    assert_eq!(
        parse_ef_ad_mnc_length("Read result:\n\t00:00:01:04\n"),
        None
    );
}

#[test]
fn visited_operator_does_not_replace_imsi_home_plmn() {
    let home = resolve_home_plmn("460001234567890", Some("46011"), Some(2)).unwrap();
    assert_eq!(home.mcc, "460");
    assert_eq!(home.mnc, "00");
    assert_eq!(home.mnc_length_source, "sim_ef_ad");
}

#[test]
fn matching_registered_operator_can_supply_mnc_length() {
    let home = resolve_home_plmn("310260123456789", Some("310260"), Some(2)).unwrap();
    assert_eq!(home.mcc, "310");
    assert_eq!(home.mnc, "260");
    assert_eq!(home.mnc_length_source, "modemmanager_home_operator");
}

#[test]
fn home_plmn_fallback_matches_beta8_policy() {
    let china = resolve_home_plmn("460001234567890", None, None).unwrap();
    assert_eq!(china.mnc, "00");
    assert_eq!(china.mnc_length_source, "china_compatibility_fallback");

    let global = resolve_home_plmn("310260123456789", None, None).unwrap();
    assert_eq!(global.mnc, "260");
    assert_eq!(global.mnc_length_source, "three_digit_fallback");
}

#[test]
fn resolve_usim_aid_prefers_valid_discovered() {
    let mut good = usim_aid_prefix();
    good.extend_from_slice(&[0xff, 0xff]);
    assert_eq!(resolve_usim_aid(Some(&good)), good);
    assert_eq!(
        resolve_usim_aid(Some(&[0x01, 0x02])),
        usim_aid_prefix()
    );
    assert_eq!(resolve_usim_aid(None), usim_aid_prefix());
}

#[test]
fn parses_qmicli_usim_and_isim_application_ids() {
    let output = r#"
Application type: 'usim (2)'
Application ID: 'A0:00:00:00:87:10:02:FF:86:FF'
Application type: 'isim (5)'
Application ID: 'A0:00:00:00:87:10:04:FF:86:FF'
"#;
    let applications = parse_uicc_applications(output);
    assert!(applications.usim_aid.as_deref().is_some_and(is_usim_aid));
    assert!(applications
        .isim_aid
        .as_deref()
        .is_some_and(|aid| aid.starts_with(&isim_aid_prefix())));
}
