use volte_ims::at::configured_ims_cid;
use volte_ims::bearer::{is_valid_bearer_path, BearerRequest};
use volte_ims::errors::code;
use volte_ims::ip::{parse_ip, IpAddr};
use volte_ims::native_bearer::{
    forced_qmi_family, ims_context_cid, is_native_bearer, qmi_families_for, to_bearer_connection,
    volte_error_from_ims_bearer, ImsBearerError, ImsBearerErrorKind, ImsBearerInfo,
};
use volte_ims::plan::{FailureClass, ImsConnectionPlan, VolteIpFamilyPreference};

fn ip(text: &str) -> IpAddr {
    parse_ip(text).unwrap()
}


fn reference_info() -> ImsBearerInfo {
    ImsBearerInfo {
        interface: "wwan0".to_string(),
        netdev_method: "probe_answered",
        ip_type: "ipv4".to_string(),
        path_device: "/dev/wwan0qmi1".to_string(),
        path_handle: "3263198272".to_string(),
        ipv4_address: Some(ip("10.129.39.207")),
        ipv4_gateway: Some(ip("10.129.39.208")),
        ipv4_dns: vec![
            ip("172.17.163.218"),
            ip("172.17.167.218"),
        ],
        ipv4_prefix: Some(27),
        pcscf: vec![ip("10.11.12.13")],
        ..Default::default()
    }
}

#[test]
fn reference_session_maps_onto_the_bearer_contract() {
    let bearer = to_bearer_connection(&reference_info()).unwrap();
    assert_eq!(bearer.interface, "wwan0");
    assert_eq!(bearer.ip_type, "ipv4");
    assert_eq!(bearer.ipv4_prefix, Some(27));
    assert_eq!(
        bearer.local_addr().unwrap(),
        ip("10.129.39.207")
    );
    assert_eq!(bearer.settings.ipv4_dns.len(), 2);
    assert_eq!(
        bearer.settings.pcscf,
        vec![ip("10.11.12.13")]
    );
}

#[test]
fn native_path_is_recognisable_and_never_sent_to_modemmanager() {
    let bearer = to_bearer_connection(&reference_info()).unwrap();
    assert!(is_native_bearer(&bearer.path), "{}", bearer.path);
    assert!(!bearer.path.starts_with("/org/freedesktop/"));
    assert!(!is_valid_bearer_path(&bearer.path));
    assert!(!is_native_bearer("/org/freedesktop/ModemManager1/Bearer/4"));
}

#[test]
fn a_session_without_any_address_is_rejected() {
    let empty = ImsBearerInfo {
        path_device: "/dev/wwan0qmi1".to_string(),
        path_handle: "1".to_string(),
        ..Default::default()
    };
    let error = to_bearer_connection(&empty).unwrap_err();
    assert_eq!(error.code(), code::IP_SETTINGS_MISSING);
}

#[test]
fn families_follow_the_plan_order() {
    let v4 = ImsConnectionPlan::from_preference(VolteIpFamilyPreference::Ipv4First);
    assert_eq!(qmi_families_for(&v4), vec![4, 6]);
    let v6 = ImsConnectionPlan::from_preference(VolteIpFamilyPreference::Ipv6First);
    assert_eq!(qmi_families_for(&v6), vec![6, 4]);
    let only4 = ImsConnectionPlan::from_preference(VolteIpFamilyPreference::Ipv4Only);
    assert_eq!(qmi_families_for(&only4), vec![4]);
    let only6 = ImsConnectionPlan::from_preference(VolteIpFamilyPreference::Ipv6Only);
    assert_eq!(qmi_families_for(&only6), vec![6]);
    assert_eq!(forced_qmi_family(FailureClass::NetworkForcedIpv4), Some(4));
    assert_eq!(forced_qmi_family(FailureClass::NetworkForcedIpv6), Some(6));
    assert_eq!(forced_qmi_family(FailureClass::PrefixUnavailable), None);
}

#[test]
fn ims_context_cid_prefers_the_started_profile() {
    let mut request = BearerRequest::ims(false);
    request.profile_id = Some(2);
    assert_eq!(ims_context_cid(&request, None), 2);
    request.profile_id = Some(99);
    assert_eq!(ims_context_cid(&request, None), configured_ims_cid(None));
    request.profile_id = None;
    assert_eq!(ims_context_cid(&request, None), configured_ims_cid(None));
}

#[test]
fn a_wedge_signature_from_the_secondary_start_is_classified_unsafe() {
    assert_eq!(
        FailureClass::from_details("secondary_qmi_start_failed:endpoint hangup"),
        FailureClass::BasebandWedged
    );
    assert_ne!(
        FailureClass::from_details(
            "secondary_qmi_start_failed:verbose call end reason (2,201): [internal] error"
        ),
        FailureClass::BasebandWedged
    );
}

#[test]
fn a_forced_family_error_keeps_the_wedge_code() {
    let error = volte_error_from_ims_bearer(ImsBearerError {
        kind: ImsBearerErrorKind::SessionStartFailed,
        detail: "secondary_qmi_start_failed:endpoint hangup".to_string(),
    });
    assert_eq!(error.code(), code::RUNTIME_MM_BEARER_CONNECT_FAILED);
    let ordinary = volte_error_from_ims_bearer(ImsBearerError {
        kind: ImsBearerErrorKind::SessionStartFailed,
        detail: "secondary_qmi_start_failed:verbose call end reason (2,201): [internal] error"
            .to_string(),
    });
    assert_eq!(ordinary.code(), code::RUNTIME_IMS_BEARER_START_FAILED);
}
