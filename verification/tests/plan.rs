use volte_ims::errors::{code, VolteError};
use volte_ims::ip::parse_ip;
use volte_ims::plan::{
    FailureClass, ImsConnectionPlan, IpFamily, IpType, VolteIpFamily, VolteIpFamilyPreference,
};

#[test]
fn real_device_bearer_internal_error_is_classified_as_wedged() {
    let detail = "volte_command_failed:mmcli:1:-b /org/freedesktop/ModemManager1/Bearer/4 \
         --connect:error: couldn't connect the bearer: \
         'GDBus.Error:org.freedesktop.ModemManager1.Error.MobileEquipment.Unknown: \
         Unknown error: Call failed: internal error: error'";
    let class = FailureClass::from_details(detail);
    assert_eq!(class, FailureClass::BasebandWedged);
    assert!(class.is_unsafe_to_retry());
}

#[test]
fn qmi_interface_contention_and_endpoint_hangup_are_wedge_signatures() {
    for detail in [
        "QMI protocol error (14): CallFailed - interface-in-use-config-match",
        "CID allocation failed in the CTL client: endpoint hangup",
    ] {
        assert_eq!(
            FailureClass::from_details(detail),
            FailureClass::BasebandWedged,
            "{detail}"
        );
    }
}

#[test]
fn recoverable_failures_are_not_treated_as_wedged() {
    for (detail, expected) in [
        ("[3gpp] ipv4-only-allowed", FailureClass::NetworkForcedIpv4),
        ("ipv6-only-allowed", FailureClass::NetworkForcedIpv6),
        ("prefix-unavailable", FailureClass::PrefixUnavailable),
        ("operation-failed", FailureClass::Other),
    ] {
        let class = FailureClass::from_details(detail);
        assert_eq!(class, expected, "{detail}");
        assert!(!class.is_unsafe_to_retry(), "{detail}");
    }
}

#[test]
fn dual_stack_default_leads_with_ipv4v6() {
    let plan = ImsConnectionPlan::from_preference(VolteIpFamilyPreference::Ipv6First);
    assert_eq!(plan.initial_bearer_attempt(), IpType::Ipv4v6);
    assert_eq!(
        plan.single_family_fallbacks(),
        vec![IpType::Ipv6, IpType::Ipv4]
    );
    let plan4 = ImsConnectionPlan::from_preference(VolteIpFamilyPreference::Ipv4First);
    assert_eq!(
        plan4.single_family_fallbacks(),
        vec![IpType::Ipv4, IpType::Ipv6]
    );
}

#[test]
fn network_forced_family_collapses_fallback() {
    let plan = ImsConnectionPlan::from_preference(VolteIpFamilyPreference::Ipv6First);
    assert_eq!(
        plan.bearer_fallbacks_after(FailureClass::NetworkForcedIpv4),
        vec![IpType::Ipv4]
    );
    assert_eq!(
        plan.bearer_fallbacks_after(FailureClass::NetworkForcedIpv6),
        vec![IpType::Ipv6]
    );
}

#[test]
fn unclear_failure_uses_preference_order() {
    let plan = ImsConnectionPlan::from_preference(VolteIpFamilyPreference::Ipv4First);
    assert_eq!(
        plan.bearer_fallbacks_after(FailureClass::PrefixUnavailable),
        vec![IpType::Ipv4, IpType::Ipv6]
    );
}

#[test]
fn catalog_ip_stack_hint_reorders_only_single_family_fallbacks() {
    let base = ImsConnectionPlan::from_preference(VolteIpFamilyPreference::Ipv4First);
    assert_eq!(
        base.clone().with_catalog_ip_stack_hint("ipv6").pdp_types(),
        vec!["IPV4V6", "IPV6", "IP"]
    );
    assert_eq!(
        base.clone().with_catalog_ip_stack_hint("ipv4").pdp_types(),
        vec!["IPV4V6", "IP", "IPV6"]
    );
    assert_eq!(
        base.clone()
            .with_catalog_ip_stack_hint("ipv4v6")
            .pdp_types(),
        base.pdp_types()
    );
}

#[test]
fn from_families_reproduces_the_legacy_presets() {
    for (families, preference) in [
        (
            vec![VolteIpFamily::Ipv4v6, VolteIpFamily::Ipv4, VolteIpFamily::Ipv6],
            VolteIpFamilyPreference::Ipv4First,
        ),
        (
            vec![VolteIpFamily::Ipv4v6, VolteIpFamily::Ipv6, VolteIpFamily::Ipv4],
            VolteIpFamilyPreference::Ipv6First,
        ),
        (vec![VolteIpFamily::Ipv4], VolteIpFamilyPreference::Ipv4Only),
        (vec![VolteIpFamily::Ipv6], VolteIpFamilyPreference::Ipv6Only),
    ] {
        let from_list = ImsConnectionPlan::from_families(&families);
        let from_preset = ImsConnectionPlan::from_preference(preference);
        assert_eq!(
            from_list.pdp_types(),
            from_preset.pdp_types(),
            "{families:?} should match {preference:?}"
        );
        assert_eq!(
            from_list.pcscf_order(),
            from_preset.pcscf_order(),
            "{families:?} should match {preference:?}"
        );
    }
}

#[test]
fn from_families_honors_dual_stack_position_and_omission() {
    let v4_then_dual = ImsConnectionPlan::from_families(&[VolteIpFamily::Ipv4, VolteIpFamily::Ipv4v6]);
    assert_eq!(v4_then_dual.initial_bearer_attempt(), IpType::Ipv4);
    assert_eq!(v4_then_dual.single_family_fallbacks(), vec![IpType::Ipv4v6]);

    let no_dual = ImsConnectionPlan::from_families(&[VolteIpFamily::Ipv6, VolteIpFamily::Ipv4]);
    assert_eq!(no_dual.pdp_types(), vec!["IPV6", "IP"]);
    assert_eq!(no_dual.pcscf_order(), &[IpFamily::Ipv6, IpFamily::Ipv4]);

    let dual_only = ImsConnectionPlan::from_families(&[VolteIpFamily::Ipv4v6]);
    assert_eq!(dual_only.pdp_types(), vec!["IPV4V6"]);
    assert_eq!(dual_only.pcscf_order(), &[IpFamily::Ipv4, IpFamily::Ipv6]);

    let empty = ImsConnectionPlan::from_families(&[]);
    assert_eq!(
        empty.pdp_types(),
        ImsConnectionPlan::from_preference(VolteIpFamilyPreference::default()).pdp_types()
    );
}

#[test]
fn single_only_modes_never_try_the_other_family() {
    let v6 = ImsConnectionPlan::from_preference(VolteIpFamilyPreference::Ipv6Only);
    assert_eq!(v6.initial_bearer_attempt(), IpType::Ipv6);
    assert!(v6.single_family_fallbacks().is_empty());
    assert_eq!(v6.pcscf_order(), &[IpFamily::Ipv6]);
    let v4 = ImsConnectionPlan::from_preference(VolteIpFamilyPreference::Ipv4Only);
    assert_eq!(v4.pdp_types(), vec!["IP"]);
    assert_eq!(v4.pcscf_order(), &[IpFamily::Ipv4]);
}

#[test]
fn pdp_types_match_legacy_ordered_pdp_types() {
    assert_eq!(
        ImsConnectionPlan::from_preference(VolteIpFamilyPreference::Ipv6First).pdp_types(),
        vec!["IPV4V6", "IPV6", "IP"]
    );
    assert_eq!(
        ImsConnectionPlan::from_preference(VolteIpFamilyPreference::Ipv4First).pdp_types(),
        vec!["IPV4V6", "IP", "IPV6"]
    );
}

#[test]
fn failure_class_from_details_recognizes_forced_families() {
    assert_eq!(
        FailureClass::from_details(
            "org.freedesktop.ModemManager1.Error.MobileEquipment.Ipv6OnlyAllowed"
        ),
        FailureClass::NetworkForcedIpv6
    );
    assert_eq!(
        FailureClass::from_details("only ipv4 allowed"),
        FailureClass::NetworkForcedIpv4
    );
    assert_eq!(
        FailureClass::from_details("ipv6 error: prefix-unavailable"),
        FailureClass::PrefixUnavailable
    );
    assert_eq!(
        FailureClass::from_details("some other failure"),
        FailureClass::Other
    );
}

#[test]
fn family_of_address() {
    assert_eq!(
        IpFamily::of(parse_ip("::1").unwrap()),
        IpFamily::Ipv6
    );
    assert_eq!(
        IpFamily::of(parse_ip("127.0.0.1").unwrap()),
        IpFamily::Ipv4
    );
}

#[test]
fn retryable_family_only_for_pcscf_class() {
    assert!(FailureClass::PcscfFailed.is_retryable_family());
    assert!(!FailureClass::NetworkForcedIpv6.is_retryable_family());
    assert!(!FailureClass::Other.is_retryable_family());
}

#[test]
fn native_qmi_call_failure_is_unsafe_to_retry() {
    let detail = "secondary_qmi_action_failed:[/dev/wwan0at2] Client ID not released:\n        Service: 'wds'\n            CID: '4'\n[/dev/wwan0at2] couldn't detect transport type of port: unsupported wwan port\n[/dev/wwan0at2] requested QMI mode but unexpected transport type found\nerror: couldn't start network: QMI protocol error (14): 'CallFailed'\ncall end reason (12): (null)\nverbose call end reason (2,201): [internal] error";

    let class = FailureClass::from_details(detail);
    assert_eq!(class, FailureClass::BasebandWedged, "detail: {detail}");
    assert!(
        class.is_unsafe_to_retry(),
        "an [internal] error refusal escalates to a subsystem restart if retried"
    );
}

#[test]
fn pdn_contention_stays_retryable_despite_the_cid_notice() {
    let detail = "secondary_qmi_data_action_failed:[/dev/wwan0at2] Client ID not released: Service: 'wds' CID: '4' -Warning ** [/dev/wwan0at2] couldn't detect transport type of port: unsupported wwan port -Warning ** [/dev/wwan0at2] requested QMI mode but unexpected transport type found error: couldn't start network: QMI protocol error (14): 'CallFailed' call end reason (1): generic-unspecified verbose call end reason (49372,1380): [(null)] (null)";

    let class = FailureClass::from_details(detail);
    assert_ne!(
        class,
        FailureClass::BasebandWedged,
        "PDN contention is transient; abandoning the batch strands the data path \
         until the next watchdog pass -- detail: {detail}"
    );
    assert!(!class.is_unsafe_to_retry());
}

#[test]
fn the_cid_notice_alone_decides_nothing() {
    assert_eq!(
        FailureClass::from_details(
            "secondary_qmi_data_action_failed:[/dev/wwan0at2] Client ID not released: \
             Service: 'wds' CID: '4'"
        ),
        FailureClass::Other
    );
}

#[test]
fn modemmanager_call_failure_still_needs_both_halves() {
    assert_eq!(
        FailureClass::from_details("Call failed: internal error"),
        FailureClass::BasebandWedged
    );
    assert_eq!(
        FailureClass::from_details("call failed: no service"),
        FailureClass::Other
    );
    assert_eq!(
        FailureClass::from_details("internal error while reading state"),
        FailureClass::Other
    );
}

#[test]
fn bearer_netdev_errors_have_explicit_retry_safety() {
    let runtime_error =
        VolteError::with_detail(code::BEARER_NETDEV_RUNTIME_ERROR, "interface=wwan0");
    let runtime_class = FailureClass::from_error(&runtime_error);
    assert_eq!(runtime_class, FailureClass::BasebandWedged);
    assert!(!runtime_class.is_retryable_family());
    assert!(runtime_class.is_unsafe_to_retry());

    for code in [code::BEARER_NETDEV_NOT_UP, code::BEARER_NETDEV_NOT_READY] {
        let error = VolteError::with_detail(code, "interface=wwan0");
        let class = FailureClass::from_error(&error);
        assert_eq!(class, FailureClass::Other);
        assert!(!class.is_retryable_family());
        assert!(!class.is_unsafe_to_retry());
    }
}

#[test]
fn terminal_sip_status_is_not_retried_as_an_ip_family_failure() {
    let rejection = VolteError::with_detail(
        code::REGISTER_INITIAL_UNEXPECTED_STATUS,
        "ims_register_initial_unexpected_status:sip_status=400",
    );
    assert_eq!(FailureClass::from_error(&rejection), FailureClass::Other);

    let timeout = VolteError::with_detail(
        code::REGISTER_INITIAL_UNEXPECTED_STATUS,
        "ims_register_initial_receive_failed",
    );
    assert!(FailureClass::from_error(&timeout).is_retryable_family());
}

#[test]
fn modemmanager_names_are_read_back() {
    for ip_type in [IpType::Ipv4v6, IpType::Ipv4, IpType::Ipv6] {
        assert_eq!(IpType::from_mm_str(ip_type.as_mm_str()), Some(ip_type));
    }
    assert_eq!(IpType::from_mm_str("ipv6").unwrap().as_mm_str(), "ipv6");
    assert_eq!(IpType::from_mm_str("IPV4"), None);
    assert_eq!(IpType::from_mm_str(""), None);
}

#[test]
fn neither_case_nor_the_client_id_notice_decides_the_class() {
    let notice = " Client ID not released: Service: 'wds' CID: '4'";
    for detail in [
        "",
        "secondary_qmi_data_action_failed:[/dev/wwan0at2]",
        "endpoint hangup",
        "Call failed: internal error",
        "call failed: internal",
        "ipv6-only-allowed",
        "only ipv4 allowed",
        "prefix-unavailable",
        code::BEARER_NETDEV_RUNTIME_ERROR,
        code::BEARER_NETDEV_NOT_UP,
    ] {
        let class = FailureClass::from_details(detail);
        assert_eq!(FailureClass::from_details(&format!("{detail}{notice}")), class);
        assert_eq!(FailureClass::from_details(&detail.to_ascii_uppercase()), class);
    }
    let detail = format!("secondary_qmi_data_action_failed:[/dev/wwan0at2]{notice}");
    assert_eq!(FailureClass::from_details(&detail), FailureClass::Other);
}
