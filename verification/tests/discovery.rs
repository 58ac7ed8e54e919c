use volte_ims::access_network::{
    incomplete_snapshot_error, serving_access_snapshot, CellInfo, CellsData, NetworkInfo,
};
use volte_ims::at::{configured_ims_cid, prepare_ims_profile_context};
use volte_ims::dns::{build_dns_query, dns_query_id, parse_dns_response, read_dns_name, DnsRecords};
use volte_ims::errors::{code, VolteError};
use volte_ims::identity::{identity_source, select_home_plmn, select_imsi};
use volte_ims::ip::{parse_ip, IpAddr};
use volte_ims::ip_settings::ImsIpSettings;
use volte_ims::modem_output::{modem_wait_step, ModemWait};
use volte_ims::native_bearer::{
    native_bearer_path, BearerInterfaceOwnership, ImsBearerError, ImsBearerErrorKind,
    MoveDecision, NativeAttempts, NativeNetdev, NativeStep,
};
use volte_ims::pcscf::{
    begin_active_context_scan, begin_pcscf_search, begin_profile_prefetch, collect_prefetched,
    configured_host, next_read, ImsProfileLease, PcscfSearch, PcscfStart, ReadStep,
};
use volte_ims::plan::{ImsConnectionPlan, VolteIpFamilyPreference};
use volte_ims::security::SecAgree;
use volte_ims::sip;
use volte_ims::text;

fn ip(text: &str) -> IpAddr {
    parse_ip(text).unwrap()
}

fn plan(preference: VolteIpFamilyPreference) -> ImsConnectionPlan {
    ImsConnectionPlan::from_preference(preference)
}

fn search(start: PcscfStart) -> PcscfSearch {
    match start {
        PcscfStart::Search(search) => search,
        other => panic!("unexpected start {other:?}"),
    }
}

#[test]
fn known_addresses_come_before_any_question() {
    let settings = ImsIpSettings {
        pcscf: vec![ip("192.0.2.1")],
        ipv4_dns: vec![ip("10.0.0.53")],
        ..Default::default()
    };
    let local = ip("10.0.0.2");
    assert_eq!(
        begin_pcscf_search(&settings, "ims.example", None, Some("192.0.2.9"), local),
        PcscfStart::Known(ip("192.0.2.9"))
    );
    assert_eq!(
        begin_pcscf_search(&settings, "ims.example", None, Some("2001:db8::9"), local),
        PcscfStart::Known(ip("192.0.2.1"))
    );
    assert_eq!(
        begin_pcscf_search(
            &ImsIpSettings::default(),
            "ims.example",
            Some("192.0.2.7"),
            None,
            local
        ),
        PcscfStart::Known(ip("192.0.2.7"))
    );
}

#[test]
fn search_asks_for_addresses_services_and_their_targets() {
    let settings = ImsIpSettings { ipv4_dns: vec![ip("10.0.0.53")], ..Default::default() };
    let mut search = search(begin_pcscf_search(
        &settings,
        "ims.example",
        Some("sip:pcscf.carrier.example"),
        None,
        ip("10.0.0.2"),
    ));
    let question = search.question().unwrap();
    assert_eq!(question.server, ip("10.0.0.53"));
    assert_eq!(question.name, configured_host("sip:pcscf.carrier.example"));
    assert_eq!(question.record_type, 1);
    assert_eq!(search.answered(None), None);
    assert_eq!(search.question().unwrap().name, "pcscf.ims.example");
    let v6_only = DnsRecords { addresses: vec![ip("2001:db8::1")], srv_targets: Vec::new() };
    assert_eq!(search.answered(Some(v6_only)), None);
    let service = search.question().unwrap();
    assert_eq!(service.name, "_sip._udp.pcscf.ims.example");
    assert_eq!(service.record_type, 33);
    let targets = DnsRecords {
        addresses: Vec::new(),
        srv_targets: vec!["a.example".to_string(), "b.example".to_string()],
    };
    assert_eq!(search.answered(Some(targets)), None);
    assert_eq!(search.question().unwrap().name, "a.example");
    assert_eq!(search.answered(None), None);
    assert_eq!(search.question().unwrap().name, "b.example");
    let found = DnsRecords { addresses: vec![ip("192.0.2.5")], srv_targets: Vec::new() };
    assert_eq!(search.answered(Some(found)), Some(ip("192.0.2.5")));
}

#[test]
fn search_ends_when_nothing_answers() {
    let settings = ImsIpSettings {
        ipv6_dns: vec![ip("2001:db8::53"), ip("2001:db8::54")],
        ..Default::default()
    };
    let mut search = search(begin_pcscf_search(
        &settings,
        "ims.example",
        None,
        None,
        ip("2001:db8::2"),
    ));
    let mut questions = 0;
    while search.question().is_some() {
        questions += 1;
        assert_eq!(search.answered(None), None);
    }
    assert_eq!(questions, 10);
    assert_eq!(PcscfSearch::exhausted().code(), code::RUNTIME_ALL_PCSCF_FAILED);
}

#[test]
fn active_contexts_are_read_ims_first() {
    let active = "+CGACT: 1,1\n+CGACT: 2,0\n+CGACT: 5,1\n";
    let contexts = "+CGDCONT: 1,\"IP\",\"internet\"\n+CGDCONT: 5,\"IP\",\"ims\"\n";
    let mut scan = begin_active_context_scan(active, contexts, 2, "ims").unwrap();
    assert_eq!(scan.current(), Some(5));
    assert_eq!(scan.read(None, "ims"), None);
    assert_eq!(scan.current(), Some(1));
    let reply = "+CGCONTRDP: 1,5,ims,10.0.0.2,10.0.0.1,10.0.0.53,10.0.0.54,192.0.2.1";
    let found = scan.read(Some(reply), "ims").unwrap();
    assert_eq!(found.cid, 1);
    assert_eq!(found.candidates, vec![ip("192.0.2.1")]);
    assert_eq!(scan.current(), None);
    assert_eq!(
        scan.exhausted().detail(),
        Some("at_active_ims_context_no_pcscf:cids=[5, 1]:ims=[5]")
    );
    assert_eq!(
        begin_active_context_scan("", contexts, 2, "ims").unwrap_err().detail(),
        Some("at_active_context_missing:ims=[5]")
    );
}

#[test]
fn profile_attempts_walk_types_and_then_contexts() {
    let mut prefetch = begin_profile_prefetch(
        "+CGDCONT: 3,\"IPV6\",\"old\"\n",
        &plan(VolteIpFamilyPreference::Ipv4Only),
        3,
        "ims",
    );
    let attempt = prefetch.attempt().unwrap();
    assert_eq!(attempt.cid, 3);
    assert_eq!(attempt.define, "AT+CGDCONT=3,\"IP\",\"ims\"");
    assert_eq!(attempt.restore, "AT+CGDCONT=3,\"IPV6\",\"old\"");
    prefetch.failed(VolteError::new(code::COMMAND_FAILED));
    assert_eq!(prefetch.attempt().unwrap().cid, 2);
    prefetch.failed(VolteError::new(code::COMMAND_FAILED));
    assert_eq!(prefetch.attempt().unwrap().cid, 1);
    prefetch.failed(VolteError::new(code::COMMAND_TIMEOUT));
    assert_eq!(prefetch.attempt(), None);
    assert_eq!(prefetch.exhausted().code(), code::COMMAND_TIMEOUT);

    let lease = ImsProfileLease {
        modem: "7".to_string(),
        cid: 3,
        restore_command: attempt.restore,
    };
    let commands = lease.cleanup();
    assert_eq!(commands.len(), 3);
    assert_eq!(commands[0], "AT+CGACT=0,3");
    assert_eq!(commands[2], "AT+CGDCONT=3,\"IPV6\",\"old\"");

    let mut found = Vec::new();
    assert_eq!(next_read(0, false), ReadStep::Read);
    assert_eq!(next_read(3, false), ReadStep::WaitThenRead);
    assert_eq!(next_read(4, false), ReadStep::Stop);
    assert_eq!(next_read(1, true), ReadStep::Stop);
    assert!(!collect_prefetched(&mut found, None, 3, "ims"));
    let reply = "+CGCONTRDP: 3,5,ims,10.0.0.2,10.0.0.1,10.0.0.53,10.0.0.54,192.0.2.1";
    assert!(collect_prefetched(&mut found, Some(reply), 3, "ims"));
    assert_eq!(found, vec![ip("192.0.2.1")]);
}

#[test]
fn profile_is_defined_only_where_none_fits() {
    let first = plan(VolteIpFamilyPreference::Ipv6First);
    let (profile, command) =
        prepare_ims_profile_context("+CGDCONT: 4,\"IP\",\"IMS\"\n", &first, 2, "ims");
    assert_eq!((profile.cid, profile.created), (4, false));
    assert_eq!(command, None);
    let (profile, command) = prepare_ims_profile_context("", &first, 2, "ims");
    assert_eq!((profile.cid, profile.created), (2, true));
    assert_eq!(command.as_deref(), Some("AT+CGDCONT=2,\"IPV4V6\",\"ims\""));
    assert_eq!(configured_ims_cid(Some(" 7 ")), 7);
    assert_eq!(configured_ims_cid(Some("17")), configured_ims_cid(None));
}

#[test]
fn query_name_is_read_back() {
    for (name, read) in [
        ("pcscf.ims.example", "pcscf.ims.example"),
        ("ims.example..", "ims.example"),
    ] {
        let query = build_dns_query(dns_query_id(name, 1), name, 1).unwrap();
        assert_eq!(read_dns_name(&query, 12).unwrap(), (read.to_string(), query.len() - 4));
    }
    assert!(build_dns_query(1, "a..b", 1).is_err());
    assert!(build_dns_query(1, &"x".repeat(64), 1).is_err());
    assert!(build_dns_query(1, "", 1).is_err());
}

#[test]
fn answers_with_another_number_or_an_error_are_refused() {
    let mut packet = build_dns_query(7, "a.example", 1).unwrap();
    assert!(parse_dns_response(8, &packet).is_err());
    assert!(parse_dns_response(7, &packet).unwrap().addresses.is_empty());
    packet[3] = 3;
    assert!(parse_dns_response(7, &packet).is_err());
    assert!(parse_dns_response(7, &packet[..11]).is_err());
    let looped = [0xc0u8, 0x00];
    assert!(read_dns_name(&looped, 0).is_err());
}

fn start_failed(detail: &str) -> ImsBearerError {
    ImsBearerError {
        kind: ImsBearerErrorKind::SessionStartFailed,
        detail: detail.to_string(),
    }
}

fn families(step: NativeStep) -> Vec<u8> {
    match step {
        NativeStep::Try { families } => families,
        other => panic!("unexpected step {other:?}"),
    }
}

#[test]
fn native_attempts_follow_the_plan_and_the_network() {
    let (mut attempts, step) = NativeAttempts::begin(&plan(VolteIpFamilyPreference::Ipv6First));
    assert_eq!(families(step), vec![6, 4]);
    assert_eq!(families(attempts.failed(start_failed("no answer"))), vec![6]);
    assert_eq!(families(attempts.failed(start_failed("ipv4-only-allowed"))), vec![4]);
    match attempts.failed(start_failed("ipv6-only-allowed")) {
        NativeStep::Failed(error) => {
            assert_eq!(error.code(), code::RUNTIME_IMS_BEARER_START_FAILED)
        }
        other => panic!("unexpected step {other:?}"),
    }
}

#[test]
fn native_attempts_stop_at_a_wedged_baseband() {
    let (mut attempts, _) = NativeAttempts::begin(&plan(VolteIpFamilyPreference::Ipv4First));
    match attempts.failed(start_failed("endpoint hangup")) {
        NativeStep::Failed(error) => {
            assert_eq!(error.code(), code::RUNTIME_MM_BEARER_CONNECT_FAILED)
        }
        other => panic!("unexpected step {other:?}"),
    }
    let (mut attempts, step) = NativeAttempts::begin(&plan(VolteIpFamilyPreference::Ipv4Only));
    assert_eq!(families(step), vec![4]);
    let missing = ImsBearerError {
        kind: ImsBearerErrorKind::EndpointUnavailable,
        detail: "busy".to_string(),
    };
    match attempts.failed(missing) {
        NativeStep::Failed(error) => {
            assert_eq!(error.code(), code::RUNTIME_IMS_ENDPOINT_UNAVAILABLE);
            assert_eq!(error.detail(), Some("busy"));
        }
        other => panic!("unexpected step {other:?}"),
    }
    assert_eq!(native_bearer_path("/dev/a", "7"), "qmi-wds:/dev/a#7");
}

fn netdev(ownership: BearerInterfaceOwnership) -> NativeNetdev {
    NativeNetdev { interface: "wwan1".to_string(), ownership, in_worker: false, moved: false }
}

#[test]
fn only_own_interfaces_move_into_the_worker() {
    let refused = |ownership| match netdev(ownership).decide_move() {
        MoveDecision::Refused(error) => error.detail().unwrap().to_string(),
        other => panic!("unexpected decision {other:?}"),
    };
    assert_eq!(
        refused(BearerInterfaceOwnership::HostManagedPrimary),
        "native bearer refuses to move host-managed interface wwan1"
    );
    assert_eq!(
        refused(BearerInterfaceOwnership::Unknown),
        "native bearer ownership is unknown; refusing to move wwan1"
    );
    let mut there = netdev(BearerInterfaceOwnership::WorkerNative);
    assert_eq!(there.decide_move(), MoveDecision::Done);
    assert!(there.in_worker);
    assert!(!there.restore());

    let mut own = netdev(BearerInterfaceOwnership::SimAdminOwnedSecondary);
    assert_eq!(own.decide_move(), MoveDecision::Move);
    assert_eq!(
        own.move_failed("ue-1", "busy").detail(),
        Some("move native bearer wwan1 into ue-1: busy")
    );
    assert!(own.moved_into_worker(Some(&["lo".to_string()])).is_err());
    assert!(own.moved_into_worker(None).is_err());
    assert!(own.moved_into_worker(Some(&["lo".to_string(), "wwan1".to_string()])).is_ok());
    assert_eq!(own.decide_move(), MoveDecision::Done);
    assert!(own.restore());
    assert!(!own.in_worker && !own.moved);
}

#[test]
fn modem_is_waited_for_ten_times() {
    assert_eq!(
        modem_wait_step(0, Some("modem.generic.state : registered\n")),
        ModemWait::Ready
    );
    assert_eq!(modem_wait_step(0, None), ModemWait::Again);
    assert_eq!(
        modem_wait_step(9, Some("modem.generic.state : enabling\n")),
        ModemWait::TimedOut
    );
}

#[test]
fn subscriber_falls_back_to_the_sim_object() {
    let sim = "sim.properties.imsi : 234330000000001\nsim.properties.operator-id : 23433\n";
    assert_eq!(
        select_imsi(Some("response: '460001234567890'"), sim).unwrap(),
        ("460001234567890".to_string(), true)
    );
    assert_eq!(
        select_imsi(None, sim).unwrap(),
        ("234330000000001".to_string(), false)
    );
    assert_eq!(select_imsi(Some("error"), "").unwrap_err().code(), code::IMSI_MISSING);
    assert_eq!(select_home_plmn("234330000000001", sim, "").as_deref(), Some("23433"));
    assert_eq!(
        select_home_plmn("234330000000001", "", "modem.3gpp.operator-code : 46011\n"),
        None
    );
    assert_eq!(identity_source(false, true), "sim_imsi_fallback_isim_detected");
}

#[test]
fn serving_cell_is_taken_from_the_list_where_the_summary_is_empty() {
    let network = |status: &str| NetworkInfo {
        registration_status: status.to_string(),
        mcc: Some("234".to_string()),
        mnc: None,
    };
    let cells = CellsData {
        serving_tech: "".to_string(),
        serving_cell_id: 0,
        serving_tac: 7,
        cells: vec![
            CellInfo { is_serving: false, tech: "gsm".to_string(), cell_id: 1, band: "1".to_string() },
            CellInfo { is_serving: true, tech: "lte".to_string(), cell_id: 2, band: "3".to_string() },
        ],
    };
    assert_eq!(
        serving_access_snapshot(&network("searching"), &cells).unwrap_err(),
        "access_network_not_registered:searching"
    );
    let access = serving_access_snapshot(&network("roaming"), &cells).unwrap();
    assert_eq!(access.technology, "lte");
    assert_eq!(access.cell_id, 2);
    assert_eq!(access.tac, 7);
    assert_eq!(
        incomplete_snapshot_error(&network("roaming"), &access),
        "access_network_snapshot_incomplete:tech=lte;plmn=missing;cell=present;tac=present"
    );
}

#[test]
fn frames_are_read_as_utf8_text() {
    let frame = "SIP/2.0 200 OK\r\nSubject: gr\u{fc}\u{df}e\r\nCSeq: 7 INVITE\r\n\r\nbody".as_bytes();
    assert_eq!(sip::header_value(frame, "subject").as_deref(), Some("gr\u{fc}\u{df}e"));
    assert_eq!(sip::sip_body(frame), b"body");
    assert_eq!(sip::cseq_method(frame).as_deref(), Some("INVITE"));
    assert_eq!(sip::parse_status(b"SIP/2.0 \xff\r\n\r\n").unwrap_err().code(), code::SIP_NOT_UTF8);
    assert_eq!(
        sip::parse_status(b"INVITE sip:a SIP/2.0\r\n\r\n").unwrap_err().code(),
        code::SIP_STATUS_INVALID
    );
    assert_eq!(
        sip::parse_status(b"SIP/2.0 \r\n\r\n").unwrap_err().code(),
        code::SIP_STATUS_MISSING
    );
}

#[test]
fn texts_are_built_character_by_character() {
    assert_eq!(text::lower_case("Gr\u{dc}\u{df}E-\u{1f600}"), "gr\u{dc}\u{df}e-\u{1f600}");
    assert_eq!(text::decimal_string(u64::MAX), "18446744073709551615");
    assert_eq!(text::parse_number("+0042", 42), Some(42));
    assert_eq!(text::parse_number("43", 42), None);
    assert_eq!(text::trim("\u{2003} a b \u{85}"), "a b");
}

#[test]
fn addresses_are_written_in_their_shortest_form() {
    for text in ["::", "::1", "2001:db8::1:0:0:1", "fe80::1", "1:2:3:4:5:6:7:8"] {
        assert_eq!(ip(text).to_string(), text);
    }
    assert_eq!(ip("2001:0db8:0:0:1:0:0:1").to_string(), "2001:db8::1:0:0:1");
    assert_eq!(ip("::ffff:192.0.2.1").to_string(), "::ffff:192.0.2.1");
    assert_eq!(parse_ip("256.0.0.1"), None);
    assert_eq!(parse_ip("01.0.0.1"), None);
    assert_eq!(parse_ip("1::2::3"), None);
}

#[test]
fn binding_is_read_back() {
    let binding = SecAgree { spi_c: 4_294_967_295, spi_s: 7, port_c: 65_535, port_s: 0 };
    let value = binding.security_client_value();
    assert_eq!(value, "ipsec-3gpp;spi-c=4294967295;spi-s=7;port-c=65535;port-s=0");
    assert_eq!(volte_ims::security::parse_security_server(&value), Some(binding));
}
