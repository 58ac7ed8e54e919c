use volte_ims::bearer::interface::{addr_output_contains, link_output_is_up};
use volte_ims::bearer::{
    bearer_profile_matches, bearer_roaming_policy_matches, check_roaming, create_bearer_properties,
    is_dual_stack_bearer, is_valid_bearer_path, parse_bearer_connection, parse_bearer_paths,
    parse_created_bearer_path, BearerRequest,
};
use volte_ims::errors::code;
use volte_ims::ip::{parse_ip, IpAddr};
use volte_ims::plan::{FailureClass, ImsConnectionPlan, IpType, VolteIpFamilyPreference};

fn ip(text: &str) -> IpAddr {
    parse_ip(text).unwrap()
}

#[test]
fn address_liveness_follows_the_interface_not_the_snapshot() {
    let configured = r#"[{"ifname":"wwan1","addr_info":[
        {"family":"inet","local":"2.188.57.65","prefixlen":30},
        {"family":"inet6","local":"2001:d08:1504:2c26::1","prefixlen":64}]}]"#;

    assert!(addr_output_contains(
        configured,
        ip("2.188.57.65")
    ));
    assert!(!addr_output_contains(
        configured,
        ip("2.181.21.248")
    ));
    assert!(addr_output_contains(
        configured,
        ip("2001:d08:1504:2c26::1")
    ));

    assert!(!addr_output_contains(
        r#"[{"ifname":"wwan1","addr_info":[]}]"#,
        ip("2.188.57.65")
    ));
    assert!(!addr_output_contains(
        "not json",
        ip("2.188.57.65")
    ));
}

#[test]
fn wds_arg_with_and_without_profile() {
    let r = BearerRequest::default();
    assert_eq!(r.wds_start_network_arg(), "--wds-start-network=apn=ims");
    let r2 = BearerRequest {
        apn: "ims".to_string(),
        allow_roaming: true,
        profile_id: Some(3),
    };
    assert_eq!(
        r2.wds_start_network_arg(),
        "--wds-start-network=apn=ims,3gpp-profile=3"
    );
}

#[test]
fn bearer_path_validation() {
    assert!(is_valid_bearer_path(
        "/org/freedesktop/ModemManager1/Bearer/1"
    ));
    assert!(is_valid_bearer_path(
        "/org/freedesktop/ModemManager1/Bearer/42"
    ));
    assert!(!is_valid_bearer_path(
        "/org/freedesktop/ModemManager1/Bearer/"
    ));
    assert!(!is_valid_bearer_path(
        "/org/freedesktop/ModemManager1/Bearer/abc"
    ));
    assert!(!is_valid_bearer_path("/wrong/prefix/1"));
}

#[test]
fn roaming_gate() {
    assert!(check_roaming(false, false).is_ok());
    assert!(check_roaming(true, true).is_ok());
    assert!(check_roaming(false, true).is_ok());
    assert_eq!(
        check_roaming(true, false).unwrap_err().code(),
        code::RUNTIME_MM_BEARER_ROAMING_FORBIDDEN
    );
}

#[test]
fn parses_ip_json_link_state_without_substring_false_positives() {
    assert!(link_output_is_up(
        r#"[{"ifname":"wwan0","flags":["POINTOPOINT","UP","LOWER_UP"],"operstate":"UNKNOWN"}]"#
    ));
    assert!(link_output_is_up(
        r#"[{"ifname":"wwan0","flags":["POINTOPOINT"],"operstate":"UP"}]"#
    ));
    assert!(!link_output_is_up(
        r#"[{"ifname":"backup0","flags":["POINTOPOINT"],"operstate":"DOWN"}]"#
    ));
    assert!(!link_output_is_up("not-json"));
}

#[test]
fn default_request_uses_ims_apn() {
    assert_eq!(BearerRequest::default().apn, "ims");
    assert!(!BearerRequest::default().allow_roaming);
    assert!(BearerRequest::ims(true).allow_roaming);
}

#[test]
fn modemmanager_properties_include_requested_3gpp_profile() {
    let mut request = BearerRequest::ims(true);
    request.profile_id = Some(2);
    assert_eq!(
        create_bearer_properties(&request, "ipv4v6"),
        "profile-id=2,apn=ims,ip-type=ipv4v6,allow-roaming=yes"
    );

    request.profile_id = None;
    assert_eq!(
        create_bearer_properties(&request, "ipv4"),
        "apn=ims,ip-type=ipv4,allow-roaming=yes"
    );
}

#[test]
fn requested_profile_rejects_unbound_or_different_bearers() {
    let exact = "bearer.properties.profile-id : 2\n";
    let different = "bearer.properties.profile-id : 1\n";
    let unbound = "bearer.properties.profile-id : --\n";

    assert!(bearer_profile_matches(exact, Some(2)));
    assert!(!bearer_profile_matches(different, Some(2)));
    assert!(!bearer_profile_matches(unbound, Some(2)));
    assert!(bearer_profile_matches(unbound, None));
}

#[test]
fn matches_modemmanager_roaming_policy_renderings() {
    let allowed = "bearer.properties.roaming-allowance : allowed\n";
    let forbidden = "bearer.properties.roaming-allowance : forbidden\n";
    let legacy_yes = "bearer.properties.allow-roaming : yes\n";
    let legacy_no = "bearer.properties.allow-roaming : no\n";

    assert!(bearer_roaming_policy_matches(allowed, true));
    assert!(bearer_roaming_policy_matches(forbidden, false));
    assert!(bearer_roaming_policy_matches(legacy_yes, true));
    assert!(bearer_roaming_policy_matches(legacy_no, false));
    assert!(!bearer_roaming_policy_matches(allowed, false));
    assert!(!bearer_roaming_policy_matches(forbidden, true));
}

#[test]
fn unknown_roaming_policy_does_not_churn_a_profile_bound_bearer() {
    assert!(bearer_roaming_policy_matches(
        "bearer.properties.apn : ims\n",
        true
    ));
    assert!(bearer_roaming_policy_matches(
        "bearer.properties.apn : ims\n",
        false
    ));
}

#[test]
fn network_family_rejection_selects_required_bearer_type() {
    let plan_v6 = ImsConnectionPlan::from_preference(VolteIpFamilyPreference::Ipv6First);
    let plan_v4 = ImsConnectionPlan::from_preference(VolteIpFamilyPreference::Ipv4First);
    let ipv6 = "bearer.status.connection-error.name : org.freedesktop.ModemManager1.Error.MobileEquipment.Ipv6OnlyAllowed\n";
    assert_eq!(
        FailureClass::from_details(ipv6),
        FailureClass::NetworkForcedIpv6
    );
    let ipv4 = "bearer.status.connection-error.name : org.freedesktop.ModemManager1.Error.MobileEquipment.Ipv4OnlyAllowed\n";
    assert_eq!(
        FailureClass::from_details(ipv4),
        FailureClass::NetworkForcedIpv4
    );
    let generic = "bearer.status.connection-error.name : org.example.Failed\n";
    assert_eq!(FailureClass::from_details(generic), FailureClass::Other);
    assert_eq!(
        plan_v4.bearer_fallbacks_after(FailureClass::from_details(ipv6)),
        vec![IpType::Ipv6]
    );
    assert_eq!(
        plan_v6.bearer_fallbacks_after(FailureClass::from_details(ipv4)),
        vec![IpType::Ipv4]
    );
    assert_eq!(
        plan_v4.bearer_fallbacks_after(FailureClass::from_details(generic)),
        vec![IpType::Ipv4, IpType::Ipv6]
    );
    assert_eq!(
        plan_v6.bearer_fallbacks_after(FailureClass::from_details(generic)),
        vec![IpType::Ipv6, IpType::Ipv4]
    );
}

#[test]
fn only_explicit_dual_stack_bearers_are_reused() {
    assert!(is_dual_stack_bearer("bearer.properties.ip-type: ipv4v6"));
    assert!(is_dual_stack_bearer("bearer.properties.ip-type: IPV4V6"));
    assert!(!is_dual_stack_bearer("bearer.properties.ip-type: ipv6"));
    assert!(!is_dual_stack_bearer("bearer.status.connected: yes"));
}

#[test]
fn parses_connected_ipv6_only_bearer_without_default_route_assumptions() {
    let output = r#"
bearer.status.connected                  : yes
bearer.status.interface                  : wwan0
bearer.properties.apn                    : ims
bearer.ipv4-config.address               : --
bearer.ipv6-config.address               : 2001:db8:1::20
bearer.ipv6-config.prefix                : 64
bearer.ipv6-config.gateway               : 2001:db8:1::1
bearer.ipv6-config.dns.length            : 2
bearer.ipv6-config.dns.value[1]          : 2001:db8:53::1
bearer.ipv6-config.dns.value[2]          : 2001:db8:53::2
bearer.ipv6-config.mtu                   : 1500
"#;
    let bearer =
        parse_bearer_connection("/org/freedesktop/ModemManager1/Bearer/2", output).unwrap();
    assert_eq!(bearer.interface, "wwan0");
    assert!(bearer.local_addr().unwrap().is_ipv6());
    assert_eq!(bearer.settings.ipv6_dns.len(), 2);
    assert_eq!(bearer.ipv6_prefix, Some(64));
    assert_eq!(bearer.mtu, Some(1500));
}

#[test]
fn parses_dual_stack_bearer_without_dropping_either_family() {
    let output = r#"
bearer.status.connected                  : yes
bearer.status.interface                  : wwan0
bearer.properties.apn                    : ims
bearer.ipv4-config.address               : 10.23.4.5
bearer.ipv4-config.prefix                : 30
bearer.ipv4-config.gateway               : 10.23.4.6
bearer.ipv4-config.dns.value[1]          : 10.23.4.53
bearer.ipv6-config.address               : 2001:db8:1::20
bearer.ipv6-config.prefix                : 64
bearer.ipv6-config.gateway               : 2001:db8:1::1
bearer.ipv6-config.dns.value[1]          : 2001:db8:53::1
bearer.ipv6-config.mtu                   : 1428
"#;
    let bearer =
        parse_bearer_connection("/org/freedesktop/ModemManager1/Bearer/9", output).unwrap();

    assert_eq!(
        bearer.settings.ipv4_address,
        Some(ip("10.23.4.5"))
    );
    assert_eq!(
        bearer.settings.ipv6_address,
        Some(ip("2001:db8:1::20"))
    );
    assert_eq!(
        bearer.settings.ipv4_dns,
        vec![ip("10.23.4.53")]
    );
    assert_eq!(
        bearer.settings.ipv6_dns,
        vec![ip("2001:db8:53::1")]
    );
    assert_eq!(bearer.ipv4_prefix, Some(30));
    assert_eq!(bearer.ipv6_prefix, Some(64));
    assert_eq!(bearer.mtu, Some(1428));
}

#[test]
fn extracts_created_and_existing_bearer_paths() {
    let path = "/org/freedesktop/ModemManager1/Bearer/7";
    assert_eq!(
        parse_created_bearer_path(&format!("Successfully created new bearer:\n {path}")),
        Some(path.to_string())
    );
    assert_eq!(
        parse_bearer_paths(&format!("modem.generic.bearers.value[1] : {path}")),
        vec![path]
    );
}
