use volte_ims::bearer::attempt::{AttemptStep, BearerTry};
use volte_ims::bearer::ensure::{
    begin_ensure_bearer, disconnect_bearer, BearerAttempt, EnsureStep,
};
use volte_ims::bearer::interface::{
    addr_output_contains, entries_name_address, link_output_is_up, link_state_is_up, BasebandFault,
    InterfaceOpening, ReadyStep,
};
use volte_ims::bearer::routing::{
    apply_worker_ops, configure_bearer_network_in_worker, configure_family, families_configured,
    host_selector, mtu_args, open_args, route_host_on_bearer, teardown_bearer_network,
    teardown_bearer_network_in_worker, worker_host_route_op, NetConfigOp, SourceRouting,
    WorkerReply,
};
use volte_ims::bearer::{
    bearer_path_override, parse_bearer_connection, BearerConnection, BearerRequest,
};
use volte_ims::command::{command_output, join, signed_string};
use volte_ims::errors::{code, VolteError};
use volte_ims::ip::{parse_ip, IpAddr};
use volte_ims::ip_settings::ImsIpSettings;
use volte_ims::plan::{ImsConnectionPlan, IpType, VolteIpFamily, VolteIpFamilyPreference};

const FIRST: &str = "/org/freedesktop/ModemManager1/Bearer/1";
const SECOND: &str = "/org/freedesktop/ModemManager1/Bearer/2";

fn ip(text: &str) -> IpAddr {
    parse_ip(text).unwrap()
}

fn details(apn: &str, ip_type: &str, connected: bool) -> String {
    format!(
        "bearer.properties.apn : {apn}\nbearer.properties.ip-type : {ip_type}\nbearer.status.connected : {}\nbearer.status.interface : wwan0\nbearer.ipv4-config.address : 10.0.0.2\n",
        if connected { "yes" } else { "no" }
    )
}

fn plan() -> ImsConnectionPlan {
    ImsConnectionPlan::from_preference(VolteIpFamilyPreference::Ipv6First)
}

fn failed(step: EnsureStep) -> VolteError {
    match step {
        EnsureStep::Failed(error) => error,
        other => panic!("unexpected step {other:?}"),
    }
}

#[test]
fn pinned_bearer_is_the_only_one_considered() {
    let request = BearerRequest::ims(false);
    let (_, step) = begin_ensure_bearer(Some(FIRST.to_string()), &request, &plan());
    assert_eq!(step, EnsureStep::ConnectPinned { path: FIRST.to_string() });
    assert_eq!(bearer_path_override(Some(&format!(" {FIRST} "))).as_deref(), Some(FIRST));
    assert_eq!(bearer_path_override(Some("/elsewhere/1")), None);
    assert_eq!(bearer_path_override(None), None);
}

#[test]
fn connected_dual_stack_bearer_is_reused_and_foreign_ones_are_passed_over() {
    let (mut machine, step) = begin_ensure_bearer(None, &BearerRequest::ims(false), &plan());
    assert_eq!(step, EnsureStep::ListBearers);
    let listing = format!(
        "modem.generic.bearers.value[1] : {FIRST}\nmodem.generic.bearers.value[2] : {SECOND}\n"
    );
    assert_eq!(machine.listed(&listing), EnsureStep::Inspect { path: FIRST.to_string() });
    let next = machine.inspected(FIRST, &details("internet", "ipv4v6", true));
    assert_eq!(next, EnsureStep::Inspect { path: SECOND.to_string() });
    match machine.inspected(SECOND, &details("IMS", "ipv4v6", true)) {
        EnsureStep::Reused(connection) => {
            assert_eq!(connection.path, SECOND);
            assert_eq!(connection.interface, "wwan0");
        }
        other => panic!("unexpected step {other:?}"),
    }
}

#[test]
fn bearer_with_another_policy_is_recreated() {
    let (mut machine, _) = begin_ensure_bearer(None, &BearerRequest::ims(true), &plan());
    machine.listed(&format!("modem.generic.bearers.value[1] : {FIRST}\n"));
    let other = format!("{}bearer.properties.allow-roaming : no\n", details("ims", "ipv4v6", true));
    assert_eq!(
        machine.inspected(FIRST, &other),
        EnsureStep::Remove { path: FIRST.to_string(), disconnect: true }
    );
    assert_eq!(machine.removed(), EnsureStep::Create { ip_type: IpType::Ipv4v6 });
}

#[test]
fn failed_reconnect_leaves_the_family_that_the_network_forces() {
    let (mut machine, _) = begin_ensure_bearer(None, &BearerRequest::ims(false), &plan());
    machine.listed(&format!("modem.generic.bearers.value[1] : {FIRST}\n"));
    assert_eq!(
        machine.inspected(FIRST, &details("ims", "ipv4v6", false)),
        EnsureStep::Reconnect { path: FIRST.to_string() }
    );
    let error = VolteError::new(code::RUNTIME_MM_BEARER_CONNECT_FAILED);
    assert_eq!(
        machine.reconnect_failed(FIRST, error),
        EnsureStep::InspectFailure { path: FIRST.to_string() }
    );
    assert_eq!(
        machine.failure_inspected(FIRST, "ipv4-only-allowed"),
        EnsureStep::Remove { path: FIRST.to_string(), disconnect: false }
    );
    assert_eq!(machine.removed(), EnsureStep::Create { ip_type: IpType::Ipv4 });
    let last = VolteError::with_detail(code::COMMAND_FAILED, "last");
    assert_eq!(failed(machine.create_failed(last.clone(), "")), last);
}

#[test]
fn types_follow_the_plan_and_never_repeat() {
    let (mut machine, _) = begin_ensure_bearer(None, &BearerRequest::ims(false), &plan());
    let error = || VolteError::new(code::COMMAND_FAILED);
    assert_eq!(machine.listed(""), EnsureStep::Create { ip_type: IpType::Ipv4v6 });
    assert_eq!(
        machine.create_failed(error(), "operation-failed"),
        EnsureStep::Create { ip_type: IpType::Ipv6 }
    );
    assert_eq!(
        machine.create_failed(error(), ""),
        EnsureStep::Create { ip_type: IpType::Ipv4 }
    );
    assert_eq!(failed(machine.create_failed(error(), "")), error());
}

/// The types that are created when every attempt fails with these details.
fn created(families: &[VolteIpFamily], details: &str) -> Vec<&'static str> {
    let plan = ImsConnectionPlan::from_families(families);
    let (mut machine, _) = begin_ensure_bearer(None, &BearerRequest::ims(false), &plan);
    let mut step = machine.listed("");
    let mut types = Vec::new();
    while let EnsureStep::Create { ip_type } = step {
        types.push(ip_type.as_mm_str());
        step = machine.create_failed(VolteError::new(code::COMMAND_FAILED), details);
    }
    assert_eq!(failed(step), VolteError::new(code::COMMAND_FAILED));
    types
}

#[test]
fn line_list_is_walked_in_its_order() {
    let (v4, v6, both) = (VolteIpFamily::Ipv4, VolteIpFamily::Ipv6, VolteIpFamily::Ipv4v6);
    assert_eq!(created(&[v4, both], ""), ["ipv4", "ipv4v6"]);
    assert_eq!(created(&[v4, v6], ""), ["ipv4", "ipv6"]);
    assert_eq!(created(&[v6, both, v4], ""), ["ipv6", "ipv4v6", "ipv4"]);
    assert_eq!(created(&[both, v6, v4], ""), ["ipv4v6", "ipv6", "ipv4"]);
    assert_eq!(created(&[v4], ""), ["ipv4"]);
    assert_eq!(created(&[both, v4], "ipv6-only-allowed"), ["ipv4v6", "ipv6"]);
    assert_eq!(created(&[v4, both, v6], "ipv4-only-allowed"), ["ipv4"]);
}

#[test]
fn family_that_was_forced_is_the_last_one_tried() {
    let (mut machine, _) = begin_ensure_bearer(None, &BearerRequest::ims(false), &plan());
    let error = || VolteError::new(code::COMMAND_FAILED);
    machine.listed("");
    assert_eq!(
        machine.create_failed(error(), "ipv4-only-allowed"),
        EnsureStep::Create { ip_type: IpType::Ipv4 }
    );
    assert_eq!(failed(machine.create_failed(error(), "operation-failed")), error());
}

#[test]
fn wedged_baseband_is_not_asked_again() {
    let (v4, v6, both) = (VolteIpFamily::Ipv4, VolteIpFamily::Ipv6, VolteIpFamily::Ipv4v6);
    assert_eq!(created(&[both, v4, v6], "endpoint hangup"), ["ipv4v6"]);
    let (mut machine, _) = begin_ensure_bearer(None, &BearerRequest::ims(false), &plan());
    machine.listed(&format!("modem.generic.bearers.value[1] : {FIRST}\n"));
    machine.inspected(FIRST, &details("ims", "ipv4v6", false));
    let error = VolteError::new(code::RUNTIME_MM_BEARER_CONNECT_FAILED);
    machine.reconnect_failed(FIRST, error.clone());
    machine.failure_inspected(FIRST, "Call failed: internal error");
    assert_eq!(failed(machine.removed()), error);
}

#[test]
fn single_family_bearer_is_discarded() {
    let (mut machine, _) = begin_ensure_bearer(None, &BearerRequest::ims(false), &plan());
    machine.listed(&format!(
        "modem.generic.bearers.value[1] : {FIRST}\nmodem.generic.bearers.value[2] : {SECOND}\n"
    ));
    assert_eq!(
        machine.inspected(FIRST, &details("ims", "ipv4", true)),
        EnsureStep::Remove { path: FIRST.to_string(), disconnect: true }
    );
    assert_eq!(machine.removed(), EnsureStep::Create { ip_type: IpType::Ipv4v6 });
}

fn args(step: AttemptStep) -> Vec<String> {
    match step {
        AttemptStep::Run(args) => args,
        other => panic!("unexpected step {other:?}"),
    }
}

#[test]
fn created_bearer_is_connected_and_read() {
    let (mut attempt, step) = BearerTry::create("7", &BearerRequest::ims(false), IpType::Ipv6);
    assert_eq!(
        args(step),
        ["-m", "7", "--create-bearer=apn=ims,ip-type=ipv6,allow-roaming=no"]
    );
    let step = attempt.ran(Ok(format!("Successfully created new bearer: {FIRST}")));
    assert_eq!(args(step), ["-b", FIRST, "--output-keyvalue"]);
    let step = attempt.ran(Ok(details("ims", "ipv6", false)));
    assert_eq!(args(step), ["-b", FIRST, "--connect"]);
    let step = attempt.ran(Ok(String::new()));
    assert_eq!(args(step), ["-b", FIRST, "--output-keyvalue"]);
    match attempt.ran(Ok(details("ims", "ipv6", true))) {
        AttemptStep::Connected(connection) => assert_eq!(connection.path, FIRST),
        other => panic!("unexpected step {other:?}"),
    }
}

#[test]
fn failed_temporary_bearer_is_deleted_before_the_failure_counts() {
    let (mut attempt, _) = BearerTry::create("7", &BearerRequest::ims(false), IpType::Ipv4v6);
    attempt.ran(Ok(FIRST.to_string()));
    attempt.ran(Ok(details("ims", "ipv4v6", false)));
    let refused = VolteError::with_detail(code::COMMAND_FAILED, "mmcli:1");
    let step = attempt.ran(Err(refused));
    assert_eq!(args(step), ["-b", FIRST, "--output-keyvalue"]);
    let step = attempt.ran(Ok("ipv6-only-allowed".to_string()));
    assert_eq!(args(step), ["-m", "7", &format!("--delete-bearer={FIRST}")]);
    match attempt.ran(Ok(String::new())) {
        AttemptStep::Failed { error, details } => {
            assert_eq!(error.code(), code::RUNTIME_MM_BEARER_CONNECT_FAILED);
            assert_eq!(error.detail(), Some("volte_command_failed:mmcli:1"));
            assert_eq!(details, "ipv6-only-allowed");
        }
        other => panic!("unexpected step {other:?}"),
    }
}

#[test]
fn failed_cleanup_is_what_an_attempt_reports() {
    let (mut attempt, _) = BearerTry::create("7", &BearerRequest::ims(false), IpType::Ipv4);
    attempt.ran(Ok(FIRST.to_string()));
    attempt.ran(Err(VolteError::new(code::COMMAND_TIMEOUT)));
    attempt.ran(Err(VolteError::new(code::COMMAND_TIMEOUT)));
    match attempt.ran(Err(VolteError::new(code::COMMAND_WAIT_FAILED))) {
        AttemptStep::Failed { error, details } => {
            assert_eq!(error.code(), code::COMMAND_WAIT_FAILED);
            assert_eq!(details, "");
        }
        other => panic!("unexpected step {other:?}"),
    }
}

#[test]
fn existing_bearer_fails_without_being_deleted() {
    let (mut attempt, step) = BearerTry::connect("7", FIRST);
    assert_eq!(args(step), ["-b", FIRST, "--output-keyvalue"]);
    match attempt.ran(Err(VolteError::new(code::COMMAND_TIMEOUT))) {
        AttemptStep::Failed { error, .. } => assert_eq!(error.code(), code::COMMAND_TIMEOUT),
        other => panic!("unexpected step {other:?}"),
    }
    let (mut attempt, _) = BearerTry::create("7", &BearerRequest::ims(false), IpType::Ipv4);
    match attempt.ran(Ok("no path here".to_string())) {
        AttemptStep::Failed { error, .. } => {
            assert_eq!(error.code(), code::RUNTIME_MM_BEARER_PATH_MISSING)
        }
        other => panic!("unexpected step {other:?}"),
    }
}

#[test]
fn native_bearers_are_not_disconnected_by_modemmanager() {
    assert_eq!(disconnect_bearer("qmi-wds:/dev/wwan0qmi1#1"), None);
    assert_eq!(disconnect_bearer(FIRST).unwrap(), ["-b", FIRST, "--disconnect"]);
}

#[test]
fn attempts_are_reported_with_their_outcome() {
    let started = BearerAttempt::started("ipv4v6", "created");
    assert_eq!(started.outcome, "started");
    let error = VolteError::new(code::COMMAND_FAILED);
    let ended = BearerAttempt::finished("ipv4v6", "created", Some(&error));
    assert_eq!(ended.outcome, "failed");
    assert_eq!(ended.error, Some(error));
    assert_eq!(BearerAttempt::finished("ipv4v6", "reused", None).outcome, "succeeded");
}

#[test]
fn bearer_without_connection_interface_or_address_is_refused() {
    let code_of = |output: &str| parse_bearer_connection(FIRST, output).unwrap_err().code();
    assert_eq!(
        code_of("bearer.status.connected : no\n"),
        code::RUNTIME_MM_BEARER_NOT_CONNECTED
    );
    assert_eq!(
        code_of("bearer.status.connected : yes\nbearer.status.interface : --\n"),
        code::IP_SETTINGS_MISSING
    );
    assert_eq!(
        code_of("bearer.status.connected : yes\nbearer.status.interface : wwan0\n"),
        code::IP_SETTINGS_MISSING
    );
    let bearer = parse_bearer_connection(
        FIRST,
        "bearer.status.connected : yes\nbearer.status.interface : wwan0\nbearer.ipv4-config.address : 10.0.0.2\nbearer.ipv4-config.prefix : 300\nbearer.ipv4-config.mtu : 1400\n",
    )
    .unwrap();
    assert_eq!(bearer.ip_type, "unknown");
    assert_eq!(bearer.ipv4_prefix, None);
    assert_eq!(bearer.mtu, Some(1400));
}

#[test]
fn link_state_needs_an_array_with_a_link() {
    assert!(!link_output_is_up("[]"));
    assert!(!link_output_is_up(r#"{"0":{"operstate":"UP"}}"#));
    assert!(link_output_is_up(r#"[{"operstate":"up"}]"#));
    assert!(!link_output_is_up(r#"[{"flags":{"0":"UP"},"operstate":"DOWN"}]"#));
    assert!(!link_output_is_up(r#"[{"operstate":"DOWN"},{"operstate":"UP"}]"#));
    assert!(link_state_is_up(&None, &[None, Some("Lower_Up".to_string())]));
    assert!(!link_state_is_up(&Some("unknown".to_string()), &[Some("NO-CARRIER".to_string())]));
}

#[test]
fn addresses_are_found_on_any_link() {
    let output = r#"[{"addr_info":[{"local":"10.0.0.1"}]},{"addr_info":[{"family":"inet6"},{"local":"2001:DB8::1"}]}]"#;
    assert!(addr_output_contains(output, ip("10.0.0.1")));
    assert!(addr_output_contains(output, ip("2001:db8::1")));
    assert!(!addr_output_contains(output, ip("10.0.0.2")));
    assert!(entries_name_address(&[None, Some("10.0.0.1".to_string())], ip("10.0.0.1")));
}

fn fault(permits_bring_up: bool, note: Option<&str>) -> BasebandFault {
    BasebandFault { permits_bring_up, note: note.map(str::to_string) }
}

#[test]
fn interface_is_opened_once_and_watched_four_times() {
    let mut opening = InterfaceOpening::new("wwan0");
    assert_eq!(opening.looked(false, &fault(true, None)), ReadyStep::Open);
    for _ in 0..3 {
        assert_eq!(opening.looked(false, &fault(true, None)), ReadyStep::Wait);
    }
    match opening.looked(false, &fault(true, None)) {
        ReadyStep::Failed(error) => {
            assert_eq!(error.code(), code::BEARER_NETDEV_NOT_READY);
            assert_eq!(
                error.detail(),
                Some("interface=wwan0 remained down after one OPEN request")
            );
        }
        other => panic!("unexpected step {other:?}"),
    }
    let mut ready = InterfaceOpening::new("wwan0");
    assert_eq!(ready.looked(true, &fault(false, None)), ReadyStep::Ready);
}

#[test]
fn baseband_fault_keeps_an_interface_closed() {
    let mut opening = InterfaceOpening::new("wwan0");
    match opening.looked(false, &fault(false, Some("latched"))) {
        ReadyStep::Failed(error) => {
            assert_eq!(error.code(), code::BEARER_NETDEV_RUNTIME_ERROR);
            assert_eq!(
                error.detail(),
                Some("interface=wwan0: runtime_status=error before OPEN (latched)")
            );
        }
        other => panic!("unexpected step {other:?}"),
    }
    let mut opening = InterfaceOpening::new("wwan0");
    opening.looked(false, &fault(true, None));
    match opening.looked(false, &fault(false, None)) {
        ReadyStep::Failed(error) => assert_eq!(
            error.detail(),
            Some("interface=wwan0: runtime_status=error after OPEN")
        ),
        other => panic!("unexpected step {other:?}"),
    }
}

#[test]
fn failed_open_is_forgiven_where_the_interface_is_up() {
    let opening = InterfaceOpening::new("wwan0");
    let error = VolteError::with_detail(code::COMMAND_FAILED, "ip:2");
    assert_eq!(opening.open_failed(&error, true, &fault(true, None)), ReadyStep::Ready);
    match opening.open_failed(&error, false, &fault(true, None)) {
        ReadyStep::Failed(error) => {
            assert_eq!(error.code(), code::BEARER_NETDEV_NOT_UP);
            assert_eq!(error.detail(), Some("interface=wwan0: volte_command_failed:ip:2"));
        }
        other => panic!("unexpected step {other:?}"),
    }
    match opening.open_failed(&error, false, &fault(false, None)) {
        ReadyStep::Failed(error) => {
            assert_eq!(error.code(), code::BEARER_NETDEV_RUNTIME_ERROR)
        }
        other => panic!("unexpected step {other:?}"),
    }
}

fn bearer() -> BearerConnection {
    BearerConnection {
        path: FIRST.to_string(),
        interface: "wwan0".to_string(),
        ip_type: "ipv4v6".to_string(),
        settings: ImsIpSettings {
            ipv4_address: Some(ip("10.0.0.2")),
            ipv6_address: Some(ip("2001:db8::2")),
            ipv6_dns: vec![ip("2001:db8::53")],
            ..Default::default()
        },
        ipv4_prefix: None,
        ipv6_prefix: Some(56),
        mtu: Some(1428),
    }
}

fn routing() -> SourceRouting {
    SourceRouting {
        table: 1001,
        priority: 2001,
        source: "2001:db8::2/128".to_string(),
        connected: "2001:db8::/56".to_string(),
    }
}

#[test]
fn family_is_configured_by_address_rule_and_connected_route() {
    let commands = configure_family(&bearer(), true, &routing()).unwrap();
    let lines: Vec<(String, bool)> =
        commands.iter().map(|command| (command.args.join(" "), command.required)).collect();
    assert_eq!(
        lines,
        vec![
            ("-6 address replace 2001:db8::2/56 dev wwan0".to_string(), true),
            ("-6 route flush table 1001".to_string(), false),
            ("-6 rule del priority 2001".to_string(), false),
            (
                "-6 rule add priority 2001 from 2001:db8::2/128 table 1001".to_string(),
                true
            ),
            (
                "-6 route replace 2001:db8::/56 dev wwan0 table 1001".to_string(),
                true
            ),
        ]
    );
    let commands = configure_family(&bearer(), false, &routing()).unwrap();
    assert_eq!(commands[0].args.join(" "), "address replace 10.0.0.2/32 dev wwan0");
    let mut wrong = bearer();
    wrong.settings.ipv6_address = Some(ip("10.0.0.9"));
    assert_eq!(
        configure_family(&wrong, true, &routing()).unwrap_err().code(),
        code::IP_SETTINGS_MISSING
    );
    wrong.settings.ipv6_address = None;
    assert!(configure_family(&wrong, true, &routing()).is_err());
}

#[test]
fn hosts_are_routed_by_their_own_family() {
    assert_eq!(
        route_host_on_bearer(&bearer(), ip("192.0.2.1"), 7).unwrap().join(" "),
        "route replace 192.0.2.1/32 dev wwan0 table 7"
    );
    assert_eq!(
        route_host_on_bearer(&bearer(), ip("2001:db8::99"), 7).unwrap().join(" "),
        "-6 route replace 2001:db8::99/128 dev wwan0 table 7"
    );
    let mut v4_only = bearer();
    v4_only.settings.ipv6_address = None;
    assert_eq!(
        route_host_on_bearer(&v4_only, ip("2001:db8::99"), 7).unwrap_err().code(),
        "volte_route_family_mismatch"
    );
    assert_eq!(host_selector(ip("10.0.0.1")), "10.0.0.1/32");
    assert_eq!(mtu_args("wwan0", 1400).join(" "), "link set dev wwan0 mtu 1400");
    assert_eq!(open_args("wwan0").join(" "), "link set dev wwan0 up");
}

#[test]
fn one_configured_family_is_enough() {
    let error = || VolteError::new(code::COMMAND_FAILED);
    assert!(families_configured(Some(Err(error())), Some(Ok(()))).is_ok());
    assert!(families_configured(Some(Ok(())), Some(Err(error()))).is_ok());
    assert!(families_configured(Some(Ok(())), None).is_ok());
    assert_eq!(families_configured(Some(Err(error())), None), Err(error()));
    assert_eq!(
        families_configured(None, None).unwrap_err().code(),
        code::IP_SETTINGS_MISSING
    );
}

#[test]
fn teardown_clears_both_families_and_the_interface() {
    let commands = teardown_bearer_network(&bearer(), &routing(), &routing());
    assert!(commands.iter().all(|command| !command.required));
    let lines: Vec<String> = commands.iter().map(|command| command.args.join(" ")).collect();
    assert_eq!(
        lines,
        vec![
            "route flush table 1001",
            "rule del priority 2001",
            "-6 route flush table 1001",
            "-6 rule del priority 2001",
            "-6 route flush dev wwan0",
            "route flush dev wwan0",
            "address flush dev wwan0",
        ]
    );
}

#[test]
fn worker_gets_addresses_name_servers_and_its_link() {
    let name = || "wwan0".to_string();
    let ops = configure_bearer_network_in_worker(&bearer()).unwrap();
    assert_eq!(
        ops,
        vec![
            NetConfigOp::LinkSetMtu { ifname: name(), mtu: 1428 },
            NetConfigOp::AddrReplace { ifname: name(), cidr: "2001:db8::2/56".to_string() },
            NetConfigOp::RouteReplace {
                target: "2001:db8::53/128".to_string(),
                via: None,
                dev: Some(name()),
                src: Some("2001:db8::2".to_string()),
                table: None,
            },
            NetConfigOp::AddrReplace { ifname: name(), cidr: "10.0.0.2/32".to_string() },
            NetConfigOp::LinkSetUp { ifname: name() },
        ]
    );
    assert_eq!(
        teardown_bearer_network_in_worker(&bearer()),
        vec![
            NetConfigOp::FlushRoutesForDevice { ifname: name(), ipv6: true },
            NetConfigOp::FlushRoutesForDevice { ifname: name(), ipv6: false },
            NetConfigOp::AddrDel { ifname: name(), cidr: "2001:db8::2/56".to_string() },
            NetConfigOp::AddrDel { ifname: name(), cidr: "10.0.0.2/32".to_string() },
        ]
    );
    let mut empty = bearer();
    empty.settings = ImsIpSettings::default();
    assert_eq!(
        configure_bearer_network_in_worker(&empty).unwrap_err().code(),
        code::IP_SETTINGS_MISSING
    );
    let mut mixed = bearer();
    mixed.settings.ipv4_address = None;
    mixed.settings.ipv6_dns = vec![ip("10.0.0.53")];
    assert_eq!(
        configure_bearer_network_in_worker(&mixed).unwrap_err().code(),
        "volte_route_family_mismatch"
    );
    assert!(worker_host_route_op(&mixed, ip("10.0.0.1")).is_err());
}

#[test]
fn worker_replies_become_errors() {
    assert!(apply_worker_ops(&WorkerReply::Applied).is_ok());
    let detail = |reply: WorkerReply| {
        apply_worker_ops(&reply).unwrap_err().detail().map(str::to_string)
    };
    assert_eq!(
        detail(WorkerReply::Refused(None)).as_deref(),
        Some("worker net-config failed")
    );
    assert_eq!(
        detail(WorkerReply::Refused(Some("busy".to_string()))).as_deref(),
        Some("busy")
    );
    assert_eq!(
        detail(WorkerReply::Unreachable("gone".to_string())).as_deref(),
        Some("worker net-config: gone")
    );
}

#[test]
fn command_failures_are_described_on_one_line() {
    let args = vec!["-b".to_string(), "1".to_string()];
    assert_eq!(command_output("mmcli", &args, true, Some(0), "out", "").unwrap(), "out");
    let error = command_output("mmcli", &args, false, Some(1), "", " one\ntwo \n").unwrap_err();
    assert_eq!(error.code(), code::COMMAND_FAILED);
    assert_eq!(error.detail(), Some("mmcli:1:-b 1:one two"));
    let killed = command_output("mmcli", &[], false, None, "", "").unwrap_err();
    assert_eq!(killed.detail(), Some("mmcli:-1::"));
    assert_eq!(signed_string(i32::MIN), "-2147483648");
    assert_eq!(join(&args, ", "), "-b, 1");
}
