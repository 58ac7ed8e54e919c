use volte_ims::auth::answering::{AnswerStep, Answering, Signature, XcapAnswering, XcapStep};
use volte_ims::auth::{
    parse_challenge, parse_digest_challenge, parse_xcap_challenge, AuthPlan,
    VolteRegisterAuthenticator,
};
use volte_ims::bearer::ensure::BearerAttempt;
use volte_ims::bearer::BearerConnection;
use volte_ims::carrier::{
    CarrierEpdg, CarrierIdentity, CarrierIms, CarrierMeta, CarrierProfile, CarrierRegister,
};
use volte_ims::channel::{ImsRoute, SipTransport};
use volte_ims::connect::device::{
    effective_register_target, load_device_identity, sim_path,
};
use volte_ims::connect::registering::{
    initial_request, note_pcscf_reached, note_pcscf_search, RegisterStep, Registering,
};
use volte_ims::connect::{
    note_connection_begun, note_connection_made, note_failure, observe_bearer_attempt,
    retention_left, Cleanup, ConnectStep, Connecting, LineIdentity, NativeSession,
};
use volte_ims::data_slot::DataSlotMode;
use volte_ims::errors::{code, VolteError};
use volte_ims::identity::{ImsIdentity, UiccApplications};
use volte_ims::ip::{parse_ip, IpAddr, SocketAddr};
use volte_ims::ip_settings::ImsIpSettings;
use volte_ims::plan::{ImsConnectionPlan, VolteIpFamilyPreference};
use volte_ims::profile_override::{ImsAccessOverride, SimOverride};
use volte_ims::register::request::{
    build_register_with_policy, register_request_uri_with_target, RegisterPhase, RegisterRequest,
    RegisterTarget, RequestIds,
};
use volte_ims::register::{
    reference_variants, ImsError, RegisterFailure, RegisterRequestPolicy,
    VolteInitialAuthorization, VolteRegisterVariant,
};
use volte_ims::runtime::{
    RegistrationMode, VoltePhase, VolteRecoveryState, VolteRuntime, VolteStage,
};
use volte_ims::security::SecAgree;
use volte_ims::sip;

const NOW: &str = "2026-01-01T00:00:00+00:00";

fn ip(text: &str) -> IpAddr {
    parse_ip(text).unwrap()
}

fn addr(text: &str, port: u16) -> SocketAddr {
    SocketAddr::new(ip(text), port)
}

/// The catalog entry of a carrier with VoWiFi over IPv6.
fn gb_ee() -> CarrierProfile {
    CarrierProfile {
        meta: CarrierMeta { profile_id: "gb-ee-23433" },
        identity: CarrierIdentity { device_identity_enabled: false },
        epdg: CarrierEpdg {
            host: "epdg.epc.mnc033.mcc234.pub.3gppnetwork.org",
            port: 500,
            apn: Some("ims"),
            ip_stack: "ipv6",
            dns_servers: vec!["198.51.100.53"],
            dns_server: None,
        },
        ims: CarrierIms {
            domain: "ims.mnc033.mcc234.3gppnetwork.org",
            realm: "ims.mnc033.mcc234.3gppnetwork.org",
            pcscf: None,
            registrar: None,
            user_agent: "volte",
            register: CarrierRegister {
                initial_authorization: "aka_empty",
                sec_agree_mode: "optional",
                require_sec_agree_headers: false,
                proxy_require_sec_agree_headers: false,
                supported_header: "path,sec-agree",
                live_header_variant_set: "catalog",
                include_mmtel_features: true,
                include_route_header: true,
                include_visited_network: true,
                security_client_mechanisms: vec!["hmac-md5-96/null/esp/trans"],
                strict_security_server_offer: false,
                expires_seconds: 600_000,
                always_add_sip_instance: false,
            },
        },
    }
}

fn plan() -> ImsConnectionPlan {
    ImsConnectionPlan::from_preference(VolteIpFamilyPreference::Ipv6First)
}

fn line(apn: Option<&str>) -> LineIdentity {
    LineIdentity {
        ims_apn: apn.map(str::to_string),
        source: "at_cimi".to_string(),
        usim_aid: "a0000000871002".to_string(),
        isim_aid: None,
    }
}

fn bearer(pcscf: Vec<IpAddr>) -> BearerConnection {
    BearerConnection {
        path: "/org/freedesktop/ModemManager1/Bearer/1".to_string(),
        interface: "wwan0".to_string(),
        ip_type: "ipv4v6".to_string(),
        settings: ImsIpSettings {
            ipv4_address: Some(ip("10.0.0.2")),
            ipv6_address: Some(ip("2001:db8::2")),
            pcscf,
            ..Default::default()
        },
        ipv4_prefix: None,
        ipv6_prefix: None,
        mtu: None,
    }
}

fn connecting(mode: DataSlotMode) -> (Connecting, VolteRuntime) {
    let mut runtime = VolteRuntime::new();
    let (mut state, step) = Connecting::begin(0, &plan(), true, mode, "/dev/cdc-wdm0");
    assert_eq!(step, ConnectStep::AwaitModem);
    assert_eq!(state.modem_ready(&mut runtime), ConnectStep::LoadIdentity);
    assert_eq!(
        state.identified(&mut runtime, &line(Some(" ims "))),
        ConnectStep::AwaitModem
    );
    (state, runtime)
}

fn failed(step: ConnectStep) -> (VolteError, Cleanup) {
    match step {
        ConnectStep::Failed { error, cleanup } => (error, cleanup),
        other => panic!("unexpected step {other:?}"),
    }
}

#[test]
fn line_connects_over_modemmanager() {
    let (mut state, mut runtime) = connecting(DataSlotMode::PrimaryImsOnly);
    assert_eq!(runtime.snapshot.stage, VolteStage::ImsContext);
    assert_eq!(runtime.snapshot.identity_source.as_deref(), Some("at_cimi"));
    assert_eq!(
        state.select_profile(&mut runtime),
        ConnectStep::PrepareProfile { apn: "ims".to_string() }
    );
    assert_eq!(
        state.profile_prepared(&mut runtime, Some(2), NOW),
        ConnectStep::EnableReporting { cid: 2 }
    );
    match state.reporting_enabled(&mut runtime, true, NOW) {
        ConnectStep::EnsureBearer { request } => {
            assert_eq!(request.apn, "ims");
            assert_eq!(request.profile_id, Some(2));
            assert!(request.allow_roaming);
        }
        other => panic!("unexpected step {other:?}"),
    }
    assert_eq!(state.reporting_cid(), Some(2));
    let refused = VolteError::with_detail(code::RUNTIME_MM_BEARER_CONNECT_FAILED, "refused");
    match state.bearer_ensured(&mut runtime, Err(refused.clone()), NOW) {
        ConnectStep::EnsureBearer { request } => assert_eq!(request.profile_id, None),
        other => panic!("unexpected step {other:?}"),
    }
    assert_eq!(
        state.bearer_ensured(&mut runtime, Ok(bearer(Vec::new())), NOW),
        ConnectStep::DiscoverActiveContext { apn: "ims".to_string() }
    );
    let found = vec![ip("192.0.2.1"), ip("192.0.2.1")];
    match state.context_discovered(&mut runtime, Ok((3, found)), NOW) {
        ConnectStep::ConfigureNetwork { bearer } => {
            assert_eq!(bearer.settings.pcscf, vec![ip("192.0.2.1")])
        }
        other => panic!("unexpected step {other:?}"),
    }
    assert_eq!(runtime.snapshot.at_cid, Some(3));
    assert_eq!(runtime.snapshot.stage, VolteStage::IpConfig);
    assert_eq!(
        state.network_configured(&mut runtime, Ok(()), NOW),
        ConnectStep::ConnectFamily { local: ip("2001:db8::2") }
    );
    let pcscf = VolteError::new(code::RUNTIME_ALL_PCSCF_FAILED);
    assert_eq!(
        state.family_connected(&mut runtime, Err(pcscf), NOW),
        ConnectStep::ConnectFamily { local: ip("10.0.0.2") }
    );
    assert_eq!(runtime.snapshot.current_ip_family.as_deref(), Some("ipv4"));
    assert_eq!(
        state.family_connected(&mut runtime, Ok(()), NOW),
        ConnectStep::Connected
    );
    let details: Vec<Option<String>> =
        runtime.snapshot.connection_attempts.iter().map(|a| a.detail.clone()).collect();
    assert_eq!(details[1].as_deref(), Some("at_cgcontrdp_fallback:cid=3"));
    assert_eq!(details[4].as_deref(), Some("trying_next_family"));
}

#[test]
fn second_profile_failure_and_wedged_baseband_end_the_connection() {
    let (mut state, mut runtime) = connecting(DataSlotMode::PrimaryImsOnly);
    state.profile_prepared(&mut runtime, Some(2), NOW);
    state.reporting_enabled(&mut runtime, false, NOW);
    let wedged =
        VolteError::with_detail(code::RUNTIME_MM_BEARER_CONNECT_FAILED, "endpoint hangup");
    assert_eq!(
        failed(state.bearer_ensured(&mut runtime, Err(wedged.clone()), NOW)),
        (wedged, Cleanup::Profile)
    );
}

#[test]
fn native_line_prefetches_its_profile_and_never_falls_back() {
    let (mut state, mut runtime) = connecting(DataSlotMode::SecondaryImsPrimaryData);
    assert_eq!(
        state.select_profile(&mut runtime),
        ConnectStep::PrefetchProfile { apn: "ims".to_string() }
    );
    match state.profile_prefetched(&mut runtime, Some((5, vec![ip("192.0.2.9")])), NOW) {
        ConnectStep::EstablishNative { request } => assert_eq!(request.profile_id, Some(5)),
        other => panic!("unexpected step {other:?}"),
    }
    let session = NativeSession {
        connection: bearer(Vec::new()),
        interface: "wwan1".to_string(),
        netdev_method: "probe_answered".to_string(),
    };
    match state.native_established(&mut runtime, Ok(session), NOW) {
        ConnectStep::ConfigureNetwork { bearer } => {
            assert_eq!(bearer.settings.pcscf, vec![ip("192.0.2.9")])
        }
        other => panic!("unexpected step {other:?}"),
    }
    assert_eq!(
        runtime.snapshot.connection_attempts[1].detail.as_deref(),
        Some("native_qmi:/dev/cdc-wdm0:netdev=wwan1:probe_answered")
    );

    let (mut state, mut runtime) = connecting(DataSlotMode::SecondaryImsPrimaryData);
    assert_eq!(
        state.profile_prefetched(&mut runtime, None, NOW),
        ConnectStep::PrepareProfile { apn: "ims".to_string() }
    );
    state.profile_prepared(&mut runtime, None, NOW);
    let error = VolteError::new(code::RUNTIME_IMS_BEARER_START_FAILED);
    assert_eq!(
        failed(state.native_established(&mut runtime, Err(error.clone()), NOW)),
        (error, Cleanup::Profile)
    );
}

#[test]
fn missing_access_point_and_cancellation_end_the_connection_early() {
    let mut runtime = VolteRuntime::new();
    let (mut state, _) =
        Connecting::begin(0, &plan(), false, DataSlotMode::PrimaryImsOnly, "/dev/cdc-wdm0");
    for apn in [None, Some("  ")] {
        let (error, cleanup) = failed(state.identified(&mut runtime, &line(apn)));
        assert_eq!(error.code(), code::CARRIER_IMS_APN_MISSING);
        assert_eq!(cleanup, Cleanup::Nothing);
    }
    runtime.reset_runtime("");
    let (error, cleanup) = failed(state.identified(&mut runtime, &line(Some("ims"))));
    assert_eq!(error.code(), code::RUNTIME_NOT_RUNNING);
    assert_eq!(cleanup, Cleanup::Nothing);
}

#[test]
fn failures_on_the_bearer_tear_it_down_or_retain_it() {
    let (mut state, mut runtime) = connecting(DataSlotMode::PrimaryImsOnly);
    state.profile_prepared(&mut runtime, None, NOW);
    state.bearer_ensured(&mut runtime, Ok(bearer(vec![ip("192.0.2.1")])), NOW);
    let down = VolteError::new(code::BEARER_NETDEV_NOT_UP);
    assert_eq!(
        failed(state.network_configured(&mut runtime, Err(down.clone()), NOW)),
        (down, Cleanup::Bearer)
    );

    let (mut state, mut runtime) = connecting(DataSlotMode::PrimaryImsOnly);
    state.profile_prepared(&mut runtime, None, NOW);
    state.bearer_ensured(&mut runtime, Ok(bearer(vec![ip("192.0.2.1")])), NOW);
    state.network_configured(&mut runtime, Ok(()), NOW);
    let rejected = VolteError::with_detail(
        code::REGISTER_INITIAL_UNEXPECTED_STATUS,
        "ims_register_initial_unexpected_status:sip_status=403",
    );
    assert_eq!(
        failed(state.family_connected(&mut runtime, Err(rejected.clone()), NOW)),
        (rejected, Cleanup::Retain)
    );

    let (mut state, mut runtime) = connecting(DataSlotMode::PrimaryImsOnly);
    state.profile_prepared(&mut runtime, None, NOW);
    state.bearer_ensured(&mut runtime, Ok(bearer(vec![ip("192.0.2.1")])), NOW);
    runtime.reset_runtime("");
    let (error, cleanup) = failed(state.network_configured(&mut runtime, Ok(()), NOW));
    assert_eq!(error.code(), code::RUNTIME_NOT_RUNNING);
    assert_eq!(cleanup, Cleanup::Bearer);
}

#[test]
fn bearer_in_the_wrong_family_is_unsupported() {
    let only4 = ImsConnectionPlan::from_preference(VolteIpFamilyPreference::Ipv4Only);
    for (v6, expected) in [
        (Some(ip("2001:db8::2")), code::RUNTIME_IMS_FAMILY_UNSUPPORTED),
        (None, code::IP_SETTINGS_MISSING),
    ] {
        let mut runtime = VolteRuntime::new();
        let (mut state, _) =
            Connecting::begin(0, &only4, false, DataSlotMode::PrimaryImsOnly, "/dev/cdc-wdm0");
        state.identified(&mut runtime, &line(Some("ims")));
        state.profile_prepared(&mut runtime, None, NOW);
        let mut bearer = bearer(vec![ip("192.0.2.1")]);
        bearer.settings.ipv4_address = None;
        bearer.settings.ipv6_address = v6;
        state.bearer_ensured(&mut runtime, Ok(bearer), NOW);
        let (error, _) = failed(state.network_configured(&mut runtime, Ok(()), NOW));
        assert_eq!(error.code(), expected);
    }
}

#[test]
fn runtime_shows_begin_success_and_failure() {
    let mut runtime = VolteRuntime::new();
    runtime.record_attempt(VolteStage::Pcscf, None, "started", None, None, NOW);
    note_connection_begun(&mut runtime, "/dev/cdc-wdm0", NOW);
    assert_eq!(runtime.snapshot.phase, VoltePhase::Starting);
    assert!(runtime.snapshot.connection_attempts.is_empty());
    assert_eq!(runtime.snapshot.qmi_device.as_deref(), Some("/dev/cdc-wdm0"));
    note_connection_made(
        &mut runtime,
        true,
        "192.0.2.1:5060",
        DataSlotMode::PrimaryImsSecondaryData,
        NOW,
    );
    assert_eq!(runtime.snapshot.registration_mode, RegistrationMode::Ipsec);
    assert_eq!(runtime.snapshot.data_path_mode.as_deref(), Some("secondary_qmi_data"));
    assert_eq!(runtime.snapshot.recovery_state, VolteRecoveryState::Registered);
    note_failure(&mut runtime, "volte_command_failed", NOW);
    assert_eq!(runtime.snapshot.phase, VoltePhase::Degraded);
    assert_eq!(runtime.snapshot.last_error.as_deref(), Some("volte_command_failed"));
    assert_eq!(retention_left(1000), 2000);
    assert_eq!(retention_left(3000), 0);
}

#[test]
fn bearer_attempts_set_the_stage() {
    let mut runtime = VolteRuntime::new();
    for (ip_type, stage, family) in [
        ("ipv4v6", VolteStage::BearerDual, Some("dual")),
        ("ipv4", VolteStage::BearerIpv4, Some("ipv4")),
        ("ipv6", VolteStage::BearerIpv6, Some("ipv6")),
        ("override", VolteStage::Bearer, None),
    ] {
        observe_bearer_attempt(&mut runtime, &BearerAttempt::started(ip_type, "created"), NOW);
        assert_eq!(runtime.snapshot.stage, stage);
        assert_eq!(runtime.snapshot.bearer_ip_type.as_deref(), Some(ip_type));
        let last = runtime.snapshot.connection_attempts.last().unwrap();
        assert_eq!(last.ip_family.as_deref(), family);
        assert_eq!(last.detail.as_deref(), Some("created"));
    }
}

fn rejection(status: u16, head: &str) -> RegisterFailure {
    RegisterFailure {
        error: ImsError::new("ims_register_initial_unexpected_status"),
        response: Some(
            format!("SIP/2.0 {status} X\r\n{head}Content-Length: 0\r\n\r\n").into_bytes(),
        ),
        auth_rounds: 0,
    }
}

#[test]
fn registering_follows_the_registrar_to_the_end() {
    let mut runtime = VolteRuntime::new();
    let (mut state, step) = Registering::begin(&mut runtime, &gb_ee(), true, "ipv4", NOW);
    let first = match step {
        RegisterStep::Register(variant) => variant,
        other => panic!("unexpected step {other:?}"),
    };
    assert_eq!(first.label, "catalog");
    assert!(first.policy.include_video_feature);
    assert!(!first.policy.require_sec_agree);
    let asks = rejection(421, "Require: sec-agree\r\n");
    let second = match state.failed(&mut runtime, &asks, NOW) {
        RegisterStep::Register(variant) => variant,
        other => panic!("unexpected step {other:?}"),
    };
    assert!(second.policy.require_sec_agree);
    assert!(second.policy.include_video_feature);
    let mut labels = Vec::new();
    let mut last = None;
    for _ in 0..5 {
        match state.failed(&mut runtime, &rejection(400, ""), NOW) {
            RegisterStep::Register(variant) => labels.push(variant.security_client_offer),
            RegisterStep::Failed(error) => {
                last = Some(error);
                break;
            }
        }
    }
    assert_eq!(labels.len(), 3);
    let error = last.unwrap();
    assert_eq!(error.code(), code::REGISTER_INITIAL_UNEXPECTED_STATUS);
    assert_eq!(
        error.detail(),
        Some("ims_register_initial_unexpected_status:sip_status=400")
    );
    state.succeeded(&mut runtime, RegistrationMode::Udp, NOW);
    assert_eq!(runtime.snapshot.stage, VolteStage::RegisterUdp);
}

fn identity() -> ImsIdentity {
    ImsIdentity {
        private_user: "234330000000001@ims.example".into(),
        public_uri: "sip:+441234567890@ims.example".into(),
        contact_user: "234330000000001".into(),
        home_domain: "ims.example".into(),
        contact_user_phone: false,
    }
}

fn target(domain: &str, registrar: Option<&str>) -> RegisterTarget {
    RegisterTarget {
        domain: domain.to_string(),
        realm: "realm.example".to_string(),
        registrar: registrar.map(str::to_string),
    }
}

fn register_signature(auts: Option<Vec<u8>>, count: Option<&'static str>) -> AnswerStep {
    AnswerStep::Sign(Signature {
        username: "234330000000001@ims.example".to_string(),
        method: "REGISTER".to_string(),
        uri: "sip:reg.example".to_string(),
        auts,
        count,
    })
}

/// The request as text, with nothing of a carrier's own.
fn written(request: &RegisterRequest) -> Vec<u8> {
    build_register_with_policy(&request.identity, &request.route, &request.ids, &request.parts)
        .into_bytes()
}

fn route() -> ImsRoute {
    ImsRoute {
        local_addr: addr("192.0.2.2", 5060),
        pcscf_addr: addr("192.0.2.1", 5060),
        transport: SipTransport::Udp,
    }
}

#[test]
fn first_request_offers_security_where_the_carrier_has_it() {
    let ids = RequestIds {
        branch: "z9hG4bK1".to_string(),
        from_tag: "tag".to_string(),
        call_id: "id".to_string(),
        cseq: 1,
    };
    let binding = SecAgree { spi_c: 1, spi_s: 2, port_c: 5060, port_s: 5062 };
    let variant = reference_variants()[1];
    let request = written(&initial_request(
        &gb_ee(),
        &identity(),
        &route(),
        &ids,
        &variant,
        binding,
        &target("ims.example", None),
        "urn:imei:490154203237518",
    ));
    assert_eq!(
        sip::header_value(&request, "Security-Client").as_deref(),
        Some("ipsec-3gpp;alg=hmac-md5-96;ealg=null;prot=esp;mod=trans;spi-c=1;spi-s=2;port-c=5060;port-s=5062")
    );
    assert_eq!(sip::header_value(&request, "Expires").as_deref(), Some("600000"));
    assert_eq!(sip::header_value(&request, "CSeq").as_deref(), Some("1 REGISTER"));
    let mut plain = gb_ee();
    plain.ims.register.sec_agree_mode = "disabled";
    let request = written(&initial_request(
        &plain,
        &identity(),
        &route(),
        &ids,
        &variant,
        binding,
        &target("ims.example", None),
        "urn:imei:490154203237518",
    ));
    assert!(sip::header_value(&request, "Security-Client").is_none());
}

const SERVER: &str = "ipsec-3gpp;alg=hmac-md5-96;ealg=null;prot=esp;mod=trans;spi-c=11;spi-s=12;port-c=6000;port-s=6001";

fn challenge(head: &str) -> Vec<u8> {
    format!(
        "SIP/2.0 401 Unauthorized\r\nWWW-Authenticate: Digest realm=\"ims.example\",nonce=\"YWJj\",algorithm=AKAv1-MD5,qop=\"auth,auth-int\"\r\n{head}Content-Length: 0\r\n\r\n"
    )
    .into_bytes()
}

fn authenticator(profile: &CarrierProfile, reuse: bool) -> VolteRegisterAuthenticator {
    VolteRegisterAuthenticator::new(
        &identity(),
        &target("ims.example", Some("reg.example")),
        7,
        SecAgree { spi_c: 1, spi_s: 2, port_c: 5060, port_s: 5062 },
        "offered".to_string(),
        reuse,
        RegisterRequestPolicy::features(),
        profile,
    )
}

#[test]
fn challenge_reads_quoted_lists_and_reports_what_is_missing() {
    let read = parse_digest_challenge(&challenge("")).unwrap();
    assert_eq!(read.nonce, "YWJj");
    assert_eq!(read.algorithm, "AKAv1-MD5");
    assert_eq!(read.qop.as_deref(), Some("auth,auth-int"));
    assert_eq!(read.opaque, None);
    let proxy = b"SIP/2.0 407 X\r\nProxy-Authenticate: digest nonce=\"n\", realm=\"r\"\r\n\r\n";
    let read = parse_digest_challenge(proxy).unwrap();
    assert!(read.proxy);
    assert_eq!(read.algorithm, "MD5");
    let code_of = |value: &str| parse_challenge(value, false).unwrap_err().code();
    assert_eq!(code_of("Basic realm=\"r\""), code::DIGEST_CHALLENGE_MISSING);
    assert_eq!(code_of("Digest"), code::DIGEST_CHALLENGE_MISSING);
    assert_eq!(code_of("Digest nonce=\"n\""), code::DIGEST_REALM_MISSING);
    assert_eq!(code_of("Digest realm=\"r\""), code::DIGEST_NONCE_MISSING);
    assert_eq!(
        parse_digest_challenge(b"SIP/2.0 401 X\r\n\r\n").unwrap_err().code(),
        code::DIGEST_CHALLENGE_MISSING
    );
    assert_eq!(
        parse_xcap_challenge("Basic", true).unwrap_err().code(),
        "ut_xcap_challenge_invalid"
    );
}

#[test]
fn offered_server_is_protected_on_the_negotiated_ports() {
    let profile = gb_ee();
    let mut auth = authenticator(&profile, false);
    let frame = challenge(&format!("Security-Server: {SERVER}\r\n"));
    let plan = auth.plan(&profile, &frame, false, None, route());
    match &plan {
        AuthPlan::Protect { server, verify, send_route, receive_local, receive_remote, .. } => {
            assert_eq!(server.spi_s, 12);
            assert_eq!(verify, SERVER);
            assert_eq!(send_route.local_addr, addr("192.0.2.2", 5060));
            assert_eq!(send_route.pcscf_addr, addr("192.0.2.1", 6001));
            assert_eq!(*receive_local, addr("192.0.2.2", 5062));
            assert_eq!(*receive_remote, addr("192.0.2.1", 6000));
        }
        other => panic!("unexpected plan {other:?}"),
    }
    auth.prepare(plan, "Authorization: Digest".to_string()).unwrap();
    assert_eq!(auth.mode, RegistrationMode::Ipsec);
    let request = auth.authenticated_request(3).unwrap();
    assert_eq!(request.cseq, 9);
    assert!(request.policy.require_sec_agree);
    assert_eq!(request.prepared.security_client.as_deref(), Some("offered"));
    assert_eq!(request.prepared.security_verify.as_deref(), Some(SERVER));
    assert_eq!(request.expires_seconds, 600_000);
    assert_eq!(
        auth.authenticated_request(4).unwrap_err().code(),
        "volte_register_auth_not_prepared"
    );
}

#[test]
fn missing_server_is_refused_or_goes_plain_as_the_carrier_says() {
    let mut profile = gb_ee();
    let mut auth = authenticator(&profile, false);
    assert_eq!(auth.plan(&profile, &challenge(""), false, None, route()), AuthPlan::Plain);
    auth.prepare(AuthPlan::Plain, "a".to_string()).unwrap();
    assert_eq!(auth.mode, RegistrationMode::Udp);

    profile.ims.register.strict_security_server_offer = true;
    let other = challenge("Security-Server: ipsec-3gpp;alg=hmac-sha-1-96;ealg=null;spi-c=1;spi-s=2;port-c=1;port-s=2\r\n");
    match auth.plan(&profile, &other, false, None, route()) {
        AuthPlan::Refuse(error) => assert_eq!(error.code(), code::SECURITY_SERVER_MISSING),
        other => panic!("unexpected plan {other:?}"),
    }
    profile.ims.register.strict_security_server_offer = false;
    profile.ims.register.sec_agree_mode = "required";
    let refused = auth.plan(&profile, &challenge(""), false, None, route());
    assert!(matches!(refused, AuthPlan::Refuse(_)));
    assert!(auth.prepare(refused, "a".to_string()).is_err());
}

#[test]
fn resynchronization_and_reuse_keep_to_what_is_in_use() {
    let profile = gb_ee();
    let mut auth = authenticator(&profile, true).with_expires_seconds(0);
    assert_eq!(
        auth.plan(&profile, &challenge(""), true, None, route()),
        AuthPlan::Resynchronize {
            security_client: Some("offered".to_string()),
            require_sec_agree: false,
        }
    );
    let reuse = auth.plan(&profile, &challenge(""), false, Some("verify"), route());
    assert_eq!(reuse, AuthPlan::Reuse { security_verify: Some("verify".to_string()) });
    auth.prepare(reuse, "a".to_string()).unwrap();
    assert_eq!(auth.mode, RegistrationMode::Ipsec);
    let request = auth.authenticated_request(0).unwrap();
    assert_eq!(request.cseq, 7);
    assert_eq!(request.expires_seconds, 0);
    assert!(request.policy.require_sec_agree);
    assert_eq!(request.prepared.security_client, None);
}

#[test]
fn answer_is_signed_once_the_channel_runs_on_the_association() {
    let profile = gb_ee();
    let mut runtime = VolteRuntime::new();
    let mut auth = authenticator(&profile, false);
    let frame = challenge(&format!("Security-Server: {SERVER}\r\n"));
    let mut answering = Answering::begin(&mut runtime, &frame).unwrap();
    assert_eq!(runtime.snapshot.stage, VolteStage::IdentityAka);
    assert_eq!(answering.challenge.nonce, "YWJj");
    assert_eq!(answering.nonce_decoded(Ok(())), AnswerStep::Authenticate);
    let step =
        answering.card_answered(&mut auth, &mut runtime, &profile, None, route(), Ok(None));
    assert_eq!(
        step,
        AnswerStep::Install {
            local: ip("192.0.2.2"),
            remote: ip("192.0.2.1"),
            offer: SecAgree { spi_c: 1, spi_s: 2, port_c: 5060, port_s: 5062 },
            server: SecAgree { spi_c: 11, spi_s: 12, port_c: 6000, port_s: 6001 },
            verify: SERVER.to_string(),
        }
    );
    assert_eq!(runtime.snapshot.stage, VolteStage::Ipsec);
    assert_eq!(auth.mode, RegistrationMode::Unselected);
    match answering.installed(Ok(())) {
        AnswerStep::Activate { send_route, receive_local, receive_remote, verify } => {
            assert_eq!(send_route.local_addr, addr("192.0.2.2", 5060));
            assert_eq!(send_route.pcscf_addr, addr("192.0.2.1", 6001));
            assert_eq!(receive_local, addr("192.0.2.2", 5062));
            assert_eq!(receive_remote, addr("192.0.2.1", 6000));
            assert_eq!(verify, SERVER);
        }
        other => panic!("unexpected step {other:?}"),
    }
    let step = answering.activated(&mut auth, Ok(()));
    assert_eq!(step, register_signature(None, Some("00000001")));
    assert!(answering.held);
    assert_eq!(auth.mode, RegistrationMode::Ipsec);
    let header = "Authorization: Digest response=\"r\"".to_string();
    assert_eq!(answering.signed(&mut auth, Ok(header)), AnswerStep::Ready);

    let ids = RequestIds {
        branch: "z9hG4bKa".to_string(),
        from_tag: "tag".to_string(),
        call_id: "call".to_string(),
        cseq: 7,
    };
    let request = auth
        .build_authenticated_request(&mut runtime, &identity(), &route(), &ids, "urn:x", 2)
        .unwrap();
    assert_eq!(runtime.snapshot.stage, VolteStage::RegisterAuthenticated);
    assert_eq!(request.phase, RegisterPhase::Authenticated);
    assert_eq!(request.request_uri, "sip:reg.example");
    assert_eq!(request.ids.cseq, 8);
    let text = String::from_utf8(written(&request)).unwrap();
    assert!(text.contains("\r\nCSeq: 8 REGISTER\r\n"));
    assert!(text.contains("\r\nAuthorization: Digest response=\"r\"\r\n"));
    assert!(text.contains(&format!("\r\nSecurity-Verify: {SERVER}\r\n")));
    assert!(text.contains("\r\nSecurity-Client: offered\r\n"));
    assert_eq!(
        auth.build_authenticated_request(&mut runtime, &identity(), &route(), &ids, "urn:x", 3)
            .unwrap_err()
            .code(),
        "volte_register_auth_not_prepared"
    );
}

#[test]
fn failed_answers_leave_no_association_behind() {
    let profile = gb_ee();
    let mut runtime = VolteRuntime::new();
    assert_eq!(
        Answering::begin(&mut runtime, b"SIP/2.0 401 X\r\n\r\n").unwrap_err().code(),
        code::DIGEST_CHALLENGE_MISSING
    );
    let mut auth = authenticator(&profile, false);
    let frame = challenge(&format!("Security-Server: {SERVER}\r\n"));
    let mut answering = Answering::begin(&mut runtime, &frame).unwrap();
    let broken = VolteError::new(code::DIGEST_NONCE_DECODE_FAILED);
    assert_eq!(
        answering.nonce_decoded(Err(broken)),
        AnswerStep::Failed(ImsError::new(code::DIGEST_NONCE_DECODE_FAILED))
    );
    let silent = VolteError::new(code::USIM_AKA_FAILED);
    let step =
        answering.card_answered(&mut auth, &mut runtime, &profile, None, route(), Err(silent));
    assert_eq!(step, AnswerStep::Failed(ImsError::new(code::USIM_AKA_FAILED)));
    answering.card_answered(&mut auth, &mut runtime, &profile, None, route(), Ok(None));
    let refused = VolteError::new("volte_ipsec_xfrm_failed");
    assert_eq!(
        answering.installed(Err(refused)),
        AnswerStep::Failed(ImsError::new("volte_ipsec_xfrm_failed"))
    );
    let step = answering.activated(&mut auth, Err(ImsError::new("bind_failed")));
    assert_eq!(step, AnswerStep::Remove(ImsError::new("bind_failed")));
    assert!(!answering.held);
    assert_eq!(auth.mode, RegistrationMode::Unselected);
    let step =
        answering.signed(&mut auth, Err(VolteError::new(code::DIGEST_ALGORITHM_UNSUPPORTED)));
    assert_eq!(step, AnswerStep::Failed(ImsError::new(code::DIGEST_ALGORITHM_UNSUPPORTED)));
    assert!(auth.pending.is_none());
}

#[test]
fn cards_out_of_step_are_answered_without_protection() {
    let profile = gb_ee();
    let mut runtime = VolteRuntime::new();
    let mut auth = authenticator(&profile, false);
    let frame = challenge(&format!("Security-Server: {SERVER}\r\n"));
    let mut answering = Answering::begin(&mut runtime, &frame).unwrap();
    let step = answering.card_answered(
        &mut auth,
        &mut runtime,
        &profile,
        None,
        route(),
        Ok(Some(vec![1, 2])),
    );
    assert_eq!(step, register_signature(Some(vec![1, 2]), None));
    assert_eq!(runtime.snapshot.stage, VolteStage::IdentityAka);
    assert_eq!(answering.signed(&mut auth, Ok("a".to_string())), AnswerStep::Ready);
    assert_eq!(auth.mode, RegistrationMode::Unselected);
    assert_eq!(auth.pending.as_ref().unwrap().security_verify, None);

    let mut refresh = authenticator(&profile, true);
    let mut answering = Answering::begin(&mut runtime, &frame).unwrap();
    let step = answering.card_answered(
        &mut refresh,
        &mut runtime,
        &profile,
        None,
        route(),
        Ok(None),
    );
    assert_eq!(step, register_signature(None, Some("00000001")));
    assert_eq!(refresh.mode, RegistrationMode::Udp);
}

#[test]
fn settings_server_is_answered_with_its_own_errors() {
    assert_eq!(
        XcapAnswering::begin("Basic", false, "user", "PUT", "/simservs").unwrap_err().code(),
        "ut_xcap_challenge_invalid"
    );
    let begin = |value: &str, proxy| {
        XcapAnswering::begin(value, proxy, "user", "PUT", "/simservs").unwrap()
    };
    let signature = |auts, count| {
        XcapStep::Sign(Signature {
            username: "user".to_string(),
            method: "PUT".to_string(),
            uri: "/simservs".to_string(),
            auts,
            count,
        })
    };
    let plain = begin("Digest realm=\"r\",nonce=\"n\"", false);
    assert_eq!(plain.nonce_decoded(true), XcapStep::Authenticate);
    assert_eq!(
        plain.nonce_decoded(false),
        XcapStep::Failed(ImsError::new("ut_xcap_challenge_invalid"))
    );
    assert_eq!(
        plain.card_answered(Err(VolteError::new(code::USIM_AKA_FAILED))),
        XcapStep::Failed(ImsError::new("ut_xcap_aka_failed"))
    );
    assert_eq!(
        plain.card_answered(Ok(None)),
        signature(None, Some("00000001"))
    );
    assert_eq!(
        plain.card_answered(Ok(Some(vec![3]))),
        signature(Some(vec![3]), None)
    );
    let qop = begin("Digest realm=\"r\",nonce=\"n\",qop=auth", true);
    assert_eq!(
        qop.card_answered(Ok(Some(vec![3]))),
        signature(Some(vec![3]), Some("00000001"))
    );
    assert_eq!(qop.signed(Ok("h".to_string())).unwrap(), "h");
    assert_eq!(
        qop.signed(Err(VolteError::new("x"))).unwrap_err().code(),
        "ut_xcap_aka_failed"
    );
}

#[test]
fn subscriber_is_put_together_from_card_modem_and_profile() {
    assert_eq!(
        sim_path("modem.generic.sim : /org/freedesktop/ModemManager1/SIM/0\n").unwrap(),
        "/org/freedesktop/ModemManager1/SIM/0"
    );
    assert_eq!(sim_path("").unwrap_err().code(), code::MM_IMSI_MISSING);
    let applications = UiccApplications {
        usim_aid: None,
        isim_aid: Some(vec![0xa0, 0x00, 0x04]),
    };
    let device = load_device_identity(
        "234330000000001",
        true,
        &applications,
        &gb_ee(),
        &SimOverride::default(),
        "490154203237518",
    );
    assert_eq!(
        device.ims.private_user,
        "234330000000001@ims.mnc033.mcc234.3gppnetwork.org"
    );
    assert_eq!(device.usim_aid, "a0000000871002");
    assert_eq!(device.isim_aid.as_deref(), Some("a00004"));
    assert_eq!(device.source, "at_cimi_isim_detected");
    assert_eq!(
        device.effective_device_identity.imei.as_deref(),
        Some("490154203237518")
    );
    let target = effective_register_target(&device.effective_ims);
    assert_eq!(target.domain, "ims.mnc033.mcc234.3gppnetwork.org");
    assert_eq!(target.registrar, None);
}

#[test]
fn pcscf_is_shown_once_it_is_reached() {
    let mut runtime = VolteRuntime::new();
    note_pcscf_search(&mut runtime);
    assert_eq!(runtime.snapshot.stage, VolteStage::Pcscf);
    assert_eq!(runtime.snapshot.pcscf, None);
    note_pcscf_reached(&mut runtime, ip("2001:db8::1"));
    assert_eq!(runtime.snapshot.stage, VolteStage::RegisterInitial);
    assert_eq!(runtime.snapshot.pcscf.as_deref(), Some("2001:db8::1"));
}

#[test]
fn registrar_is_what_a_register_asks_for() {
    let uri = |registrar| register_request_uri_with_target(&target("ims.example", registrar));
    assert_eq!(uri(None), "sip:ims.example");
    assert_eq!(uri(Some("reg.example")), "sip:reg.example");
    assert_eq!(uri(Some("sip:reg.example;lr")), "sip:reg.example;lr");
    assert_eq!(uri(Some(" SIPS:reg.example ")), "SIPS:reg.example");

    let applications = UiccApplications { usim_aid: None, isim_aid: None };
    let override_ = SimOverride {
        ims_volte: ImsAccessOverride {
            registrar: Some("sip:volte-reg.example".to_string()),
            ..ImsAccessOverride::default()
        },
        ..SimOverride::default()
    };
    let device = load_device_identity(
        "234330000000001",
        true,
        &applications,
        &gb_ee(),
        &override_,
        "490154203237518",
    );
    let target = effective_register_target(&device.effective_ims);
    let ids = RequestIds {
        branch: "z9hG4bKa".to_string(),
        from_tag: "tag".to_string(),
        call_id: "call".to_string(),
        cseq: 1,
    };
    let signs = |variant: &VolteRegisterVariant| {
        variant.authorization == VolteInitialAuthorization::UriFirstEmptyAka
    };
    let variant = reference_variants().into_iter().find(signs).unwrap();
    let binding = SecAgree { spi_c: 1, spi_s: 2, port_c: 5060, port_s: 5062 };
    let request = initial_request(
        &gb_ee(),
        &device.ims,
        &route(),
        &ids,
        &variant,
        binding,
        &target,
        "urn:x",
    );
    assert_eq!(request.phase, RegisterPhase::Initial);
    assert_eq!(request.request_uri, "sip:volte-reg.example");
    assert_eq!(request.target, target);
    let authorization = request.parts.authorization.unwrap();
    assert!(authorization.contains("uri=\"sip:volte-reg.example\""));
}
