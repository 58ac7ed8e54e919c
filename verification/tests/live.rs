use volte_ims::auth::parse_digest_challenge;
use volte_ims::bearer::{
    may_retry_modemmanager_profile_binding, modemmanager_bearer_requests, BearerRequest,
};
use volte_ims::calls::commands::normalize_operator_callee;
use volte_ims::calls::frames::normalize_incoming_caller;
use volte_ims::carrier::{
    CarrierEpdg, CarrierIdentity, CarrierIms, CarrierMeta, CarrierProfile, CarrierRegister,
};
use volte_ims::channel::{ImsRoute, SipTransport};
use volte_ims::connect::device::{sip_instance_for_profile, ModemBinding, VolteDeviceBinding};
use volte_ims::connect::{
    active_ims_profile_prefetch_required, ip_family_name, native_ims_bearer_required,
};
use volte_ims::data_slot::DataSlotMode;
use volte_ims::errors::{code, VolteError};
use volte_ims::identity::ImsIdentity;
use volte_ims::ip::{parse_ip, SocketAddr};
use volte_ims::modem_output::{key_value, modem_is_ready};
use volte_ims::plan::FailureClass;
use volte_ims::register::request::{build_register_with_policy, RegisterParts, RequestIds};
use volte_ims::register::{
    map_register_error, map_register_failure, reference_variants,
    sec_agree_compact_security_retry_variant, sec_agree_require_only_retry_variant,
    sec_agree_require_only_was_rejected, sec_agree_retry_variant,
    sec_agree_spaced_security_retry_variant, should_retain_failed_bearer, ImsError,
    RegisterFailure, RegisterRequestPolicy, VolteInitialAuthorization, VolteRegisterVariant,
};
use volte_ims::sdp::{
    media_endpoint_for_video, parse_audio_sdp, parse_video_sdp, relay_audio_sdp, relay_media_sdp,
    DtmfCapabilities, DtmfSource, MediaOffer, RtpTelephoneEvent, VideoOffer,
};
use volte_ims::security::{offered_security, parse_security_server, VolteSecurityClientOffer};
use volte_ims::session::{register_associated_uri, register_service_route};
use volte_ims::sip;
use volte_ims::sms::{mo_sms_uris, phone_uri};

const TOKEN: &str = "00112233445566778899aabbccddeeff";

fn addr(ip: &str, port: u16) -> SocketAddr {
    SocketAddr::new(parse_ip(ip).unwrap(), port)
}

/// The catalog entry of a carrier with VoWiFi over IPv6.
fn gb_ee() -> CarrierProfile {
    CarrierProfile {
        meta: CarrierMeta { profile_id: "gb-ee-23433" },
        identity: CarrierIdentity { device_identity_enabled: false },
        epdg: CarrierEpdg {
            host: "epdg.epc.mnc033.mcc234.pub.3gppnetwork.org",
            port: 500,
            apn: Some("ims"),
            ip_stack: "ipv6",
            dns_servers: vec!["198.51.100.53"],
            dns_server: None,
        },
        ims: CarrierIms {
            domain: "ims.mnc033.mcc234.3gppnetwork.org",
            realm: "ims.mnc033.mcc234.3gppnetwork.org",
            pcscf: None,
            registrar: None,
            user_agent: "volte",
            register: CarrierRegister {
                initial_authorization: "aka_empty",
                sec_agree_mode: "optional",
                require_sec_agree_headers: false,
                proxy_require_sec_agree_headers: false,
                supported_header: "path,sec-agree",
                live_header_variant_set: "catalog",
                include_mmtel_features: true,
                include_route_header: true,
                include_visited_network: true,
                security_client_mechanisms: vec!["hmac-md5-96/null/esp/trans"],
                strict_security_server_offer: false,
                expires_seconds: 600_000,
                always_add_sip_instance: false,
            },
        },
    }
}

fn register_variant(label: &str) -> VolteRegisterVariant {
    *reference_variants()
        .iter()
        .find(|variant| variant.label == label)
        .unwrap_or_else(|| panic!("missing REGISTER variant: {label}"))
}

fn request_ids() -> RequestIds {
    RequestIds {
        branch: "z9hG4bKtest".to_string(),
        from_tag: "from".to_string(),
        call_id: "call@test".to_string(),
        cseq: 1,
    }
}

fn identity() -> ImsIdentity {
    ImsIdentity {
        private_user: "460001234567890@ims.example".to_string(),
        public_uri: "sip:460001234567890@ims.example".to_string(),
        contact_user: "460001234567890".to_string(),
        home_domain: "ims.example".to_string(),
        contact_user_phone: false,
    }
}

fn route() -> ImsRoute {
    ImsRoute {
        local_addr: addr("192.0.2.2", 5060),
        pcscf_addr: addr("192.0.2.1", 5060),
        transport: SipTransport::Udp,
    }
}

#[test]
fn modemmanager_prefers_explicit_profile_before_apn_only_fallback() {
    let request = BearerRequest {
        apn: "ims".into(),
        allow_roaming: true,
        profile_id: Some(2),
    };
    let candidates = modemmanager_bearer_requests(&request);
    assert_eq!(candidates.len(), 2);
    assert_eq!(candidates[0].profile_id, Some(2));
    assert_eq!(candidates[1].profile_id, None);

    let unbound = BearerRequest::for_apn("ims", true);
    assert_eq!(modemmanager_bearer_requests(&unbound), vec![unbound]);
}

#[test]
fn modemmanager_profile_fallback_never_retries_a_wedged_baseband() {
    let rejected = VolteError::with_detail(
        code::RUNTIME_MM_BEARER_CONNECT_FAILED,
        "verbose call end reason (6,32): option-not-supported",
    );
    assert!(may_retry_modemmanager_profile_binding(&rejected));

    let wedged =
        VolteError::with_detail(code::RUNTIME_MM_BEARER_CONNECT_FAILED, "endpoint hangup");
    assert!(!may_retry_modemmanager_profile_binding(&wedged));
}

#[test]
fn reference_sms_sec_agree_variant_is_attempted_first() {
    let first = reference_variants()[0];

    assert_eq!(first.label, "reference_sms_sec_agree");
    assert_eq!(first.authorization, VolteInitialAuthorization::Absent);
    assert_eq!(first.policy, RegisterRequestPolicy::legacy());
    assert_eq!(first.security_client_offer, VolteSecurityClientOffer::Full);
}

#[test]
fn bearer_backend_follows_the_selected_ims_endpoint() {
    assert!(!native_ims_bearer_required(DataSlotMode::PrimaryImsOnly));
    assert!(!native_ims_bearer_required(
        DataSlotMode::PrimaryImsSecondaryData
    ));
    assert!(native_ims_bearer_required(
        DataSlotMode::SecondaryImsPrimaryData
    ));
}

#[test]
fn primary_ims_with_secondary_data_does_not_pre_activate_the_profile() {
    assert!(!active_ims_profile_prefetch_required(
        DataSlotMode::PrimaryImsSecondaryData
    ));
}

#[test]
fn secondary_ims_with_primary_data_keeps_native_profile_prefetch() {
    assert!(active_ims_profile_prefetch_required(
        DataSlotMode::SecondaryImsPrimaryData
    ));
}

#[test]
fn device_binding_uses_discovered_modem_qmi_and_slot() {
    let modem = ModemBinding {
        line_id: "line-0123456789abcdef0123456789abcdef".to_string(),
        modem_id: "7".to_string(),
        qmi_device: Some("/dev/cdc-wdm3".to_string()),
        uim_slot: 2,
        equipment_identifier: "490154203237518".to_string(),
    };
    let device = VolteDeviceBinding::from_modem(&modem).unwrap();
    assert_eq!(device.modem_id, "7");
    assert_eq!(device.qmi_device, "/dev/cdc-wdm3");
    assert_eq!(device.uim_slot, 2);
    assert_eq!(device.equipment_identifier, "490154203237518");
}

#[test]
fn sip_instance_imei_is_strictly_carrier_policy_gated() {
    let mut profile = gb_ee();
    profile.ims.register.always_add_sip_instance = true;
    profile.identity.device_identity_enabled = false;
    assert!(
        sip_instance_for_profile(&profile, Some("490154203237518"), TOKEN).starts_with("urn:uuid:")
    );

    profile.identity.device_identity_enabled = true;
    assert_eq!(
        sip_instance_for_profile(&profile, Some("490154203237518"), TOKEN),
        "urn:imei:490154203237518"
    );
    assert!(sip_instance_for_profile(&profile, Some("12345"), TOKEN).starts_with("urn:uuid:"));
    assert!(sip_instance_for_profile(&profile, None, TOKEN).starts_with("urn:uuid:"));
    assert_eq!(
        sip_instance_for_profile(&profile, None, TOKEN),
        "urn:uuid:00112233-4455-6677-8899-aabbccddeeff"
    );
}

#[test]
fn device_binding_rejects_modem_without_qmi_control_port() {
    assert!(VolteDeviceBinding::from_modem(&ModemBinding::default()).is_err());
}

#[test]
fn parses_device_identity_without_serializing_it() {
    let modem = "modem.generic.sim : /org/freedesktop/ModemManager1/SIM/0\nmodem.3gpp.operator-code : 46011\n";
    assert_eq!(
        key_value(modem, "modem.3gpp.operator-code").as_deref(),
        Some("46011")
    );
    assert!(!format!("{modem:?}").contains("460111234567890"));
}

#[test]
fn modem_readiness_waits_for_registration() {
    assert!(modem_is_ready("modem.generic.state : registered\n"));
    assert!(modem_is_ready("modem.generic.state : connected\n"));
    assert!(!modem_is_ready("modem.generic.state : enabling\n"));
    assert!(!modem_is_ready("modem.generic.state : disabled\n"));
}

#[test]
fn prefix_unavailable_failure_is_classified_distinctly() {
    let prefix = VolteError::with_detail(
        code::RUNTIME_MM_BEARER_CONNECT_FAILED,
        "volte_command_failed:mmcli:prefix-unavailable",
    );
    assert_eq!(
        FailureClass::from_details(prefix.detail().unwrap_or("")),
        FailureClass::PrefixUnavailable
    );
    let generic = VolteError::with_detail(
        code::RUNTIME_MM_BEARER_CONNECT_FAILED,
        "volte_command_failed:mmcli:operation-failed",
    );
    assert_ne!(
        FailureClass::from_details(generic.detail().unwrap_or("")),
        FailureClass::PrefixUnavailable
    );
    assert_ne!(
        FailureClass::from_details(
            VolteError::new(code::RUNTIME_ALL_PCSCF_FAILED)
                .detail()
                .unwrap_or("")
        ),
        FailureClass::PrefixUnavailable
    );
}

#[test]
fn security_offer_contains_nonzero_spis_and_distinct_send_receive_ports() {
    for (random_c, random_s) in [(0, 0), (100_000_000, 7), (u32::MAX, 200_000_000)] {
        let offer = offered_security(42799, 45652, random_c, random_s);
        let parsed = parse_security_server(&offer.security_client_value()).unwrap();
        assert_ne!(parsed.spi_c, 0);
        assert_ne!(parsed.spi_s, 0);
        assert_eq!(parsed.port_c, 42799);
        assert_eq!(parsed.port_s, 45652);
    }
}

#[test]
fn phone_uri_accepts_e164_and_rejects_non_phone_text() {
    assert_eq!(
        phone_uri("+8613800138000", "ims.example").unwrap(),
        "sip:+8613800138000@ims.example;user=phone"
    );
    assert!(phone_uri("+86-138", "ims.example").is_err());
    assert!(phone_uri("", "ims.example").is_err());
}

#[test]
fn mo_sms_routes_via_service_center_but_targets_recipient() {
    let (request_uri, to_uri) =
        mo_sms_uris("+8619399144749", "+8613800100500", "ims.example").unwrap();
    assert_eq!(request_uri, "sip:+8613800100500@ims.example;user=phone");
    assert_eq!(to_uri, "sip:+8619399144749@ims.example;user=phone");
}

#[test]
fn register_service_route_is_preserved_for_later_requests() {
    let response = b"SIP/2.0 200 OK\r\nService-Route: <sip:pcscf.example:9900;lr>\r\nContent-Length: 0\r\n\r\n";
    assert_eq!(
        register_service_route(response).as_deref(),
        Some("<sip:pcscf.example:9900;lr>")
    );
    assert!(register_service_route(b"SIP/2.0 200 OK\r\n\r\n").is_none());
}

#[test]
fn register_default_associated_uri_is_preserved_for_later_requests() {
    let response = b"SIP/2.0 200 OK\r\nP-Associated-URI: <sip:+8613800138000@ims.example;user=phone>, <tel:+8613800138000>\r\nContent-Length: 0\r\n\r\n";
    assert_eq!(
        register_associated_uri(response).as_deref(),
        Some("sip:+8613800138000@ims.example;user=phone")
    );
    assert!(register_associated_uri(b"SIP/2.0 200 OK\r\n\r\n").is_none());
}

#[test]
fn register_associated_uri_accepts_repeated_bare_tel_header() {
    let response = b"SIP/2.0 200 OK\r\nP-Associated-URI: tel:+8613800138000\r\nP-Associated-URI: <sip:460001234567890@ims.example>\r\n\r\n";
    assert_eq!(
        register_associated_uri(response).as_deref(),
        Some("tel:+8613800138000")
    );
}

#[test]
fn digest_challenge_prefers_www_then_proxy() {
    let frame = b"SIP/2.0 401 Unauthorized\r\nWWW-Authenticate: Digest realm=\"ims.example\",nonce=\"YWJj\",algorithm=AKAv1-MD5\r\nContent-Length: 0\r\n\r\n";
    let challenge = parse_digest_challenge(frame).unwrap();
    assert_eq!(challenge.realm, "ims.example");
    assert!(!challenge.proxy);
}

#[test]
fn sec_agree_421_upgrades_the_same_ims_register_variant() {
    let failure = RegisterFailure {
        error: ImsError::new("ims_register_initial_unexpected_status"),
        response: Some(
            b"SIP/2.0 421 Extension Required\r\nRequire: SEC-AGREE\r\nContent-Length: 0\r\n\r\n"
                .to_vec(),
        ),
        auth_rounds: 0,
    };
    let base = register_variant("ims_features_aka_uri_first");
    let upgraded = sec_agree_retry_variant(base, &failure).unwrap();

    assert_eq!(
        upgraded.label,
        "ims_features_aka_uri_first_sec_agree_required"
    );
    assert_eq!(upgraded.authorization, base.authorization);
    assert_eq!(
        upgraded.policy,
        RegisterRequestPolicy {
            advertise_sec_agree: true,
            require_sec_agree: true,
            proxy_require_sec_agree: true,
            ..base.policy
        }
    );

    let identity = identity();
    let authorization = upgraded
        .authorization
        .build(
            gb_ee().ims.realm,
            &identity.private_user,
            "sip:ims.example",
        )
        .unwrap();
    let request = build_register_with_policy(
        &identity,
        &route(),
        &request_ids(),
        &RegisterParts {
            expires_seconds: 3600,
            authorization: Some(authorization),
            security_client: Some(
                "ipsec-3gpp;alg=hmac-md5-96;ealg=null;spi-c=1;spi-s=2;port-c=5060;port-s=5062"
                    .to_string(),
            ),
            security_verify: None,
            sip_instance: "urn:uuid:00000000-0000-4000-8000-000000000000".to_string(),
            policy: upgraded.policy,
        },
    )
    .into_bytes();

    assert!(sip::header_value(&request, "Authorization")
        .is_some_and(|value| value.starts_with("Digest uri=\"sip:ims.example\",username=")));
    assert!(sip::header_value(&request, "Contact")
        .is_some_and(|value| value.contains(";+g.3gpp.icsi-ref=")));
    assert!(sip::header_values(&request, "Accept-Contact").is_empty());
    assert_eq!(
        sip::header_value(&request, "Route").as_deref(),
        Some("<sip:192.0.2.1:5060;lr>")
    );
    assert_eq!(
        sip::header_value(&request, "P-Visited-Network-ID").as_deref(),
        Some("\"ims.example\"")
    );
    assert_eq!(
        sip::header_value(&request, "Require").as_deref(),
        Some("sec-agree")
    );
    assert_eq!(
        sip::header_value(&request, "Proxy-Require").as_deref(),
        Some("sec-agree")
    );
}

#[test]
fn server_required_sec_agree_400_retries_formats_then_without_proxy_require() {
    let failure = RegisterFailure {
        error: ImsError::new("ims_register_initial_unexpected_status"),
        response: Some(b"SIP/2.0 400 Bad Request\r\nContent-Length: 0\r\n\r\n".to_vec()),
        auth_rounds: 0,
    };
    let base = register_variant("ims_features_aka_uri_first");
    assert!(sec_agree_require_only_retry_variant(base, &failure).is_none());
    assert!(sec_agree_spaced_security_retry_variant(base, &failure).is_none());
    assert!(sec_agree_compact_security_retry_variant(base, &failure).is_none());

    let require_and_proxy = base.requiring_sec_agree();
    assert!(sec_agree_require_only_retry_variant(require_and_proxy, &failure).is_none());
    assert!(sec_agree_compact_security_retry_variant(require_and_proxy, &failure).is_none());
    let spaced_security =
        sec_agree_spaced_security_retry_variant(require_and_proxy, &failure).unwrap();
    assert_eq!(
        spaced_security.label,
        "ims_features_aka_uri_first_sec_agree_spaced_security"
    );
    assert_eq!(
        spaced_security.security_client_offer,
        VolteSecurityClientOffer::FullSpaced
    );
    let compact_security =
        sec_agree_compact_security_retry_variant(spaced_security, &failure).unwrap();
    assert_eq!(
        compact_security.label,
        "ims_features_aka_uri_first_sec_agree_compact_security"
    );
    assert_eq!(
        compact_security.security_client_offer,
        VolteSecurityClientOffer::Compact
    );
    let require_only = sec_agree_require_only_retry_variant(compact_security, &failure).unwrap();
    assert_eq!(
        require_only.label,
        "ims_features_aka_uri_first_sec_agree_require_only"
    );
    assert_eq!(require_only.authorization, base.authorization);
    assert!(require_only.policy.require_sec_agree);
    assert!(!require_only.policy.proxy_require_sec_agree);
    assert!(require_only.policy.include_mmtel_features);
    assert!(require_only.policy.include_route_header);

    let require_only_rejection = RegisterFailure {
        error: ImsError::new("ims_register_initial_unexpected_status"),
        response: Some(
            b"SIP/2.0 421 Extension Required\r\nRequire: sec-agree\r\nContent-Length: 0\r\n\r\n"
                .to_vec(),
        ),
        auth_rounds: 0,
    };
    assert!(sec_agree_require_only_was_rejected(
        require_only,
        &require_only_rejection
    ));
    assert!(!sec_agree_require_only_was_rejected(
        base,
        &require_only_rejection
    ));

    let identity = identity();
    let request = build_register_with_policy(
        &identity,
        &route(),
        &request_ids(),
        &RegisterParts {
            expires_seconds: 3600,
            authorization: require_only.authorization.build(
                gb_ee().ims.realm,
                &identity.private_user,
                "sip:ims.example",
            ),
            security_client: Some(
                "ipsec-3gpp;alg=hmac-md5-96;ealg=null;spi-c=1;spi-s=2;port-c=5060;port-s=5062"
                    .to_string(),
            ),
            security_verify: None,
            sip_instance: "urn:uuid:00000000-0000-4000-8000-000000000000".to_string(),
            policy: require_only.policy,
        },
    )
    .into_bytes();
    assert_eq!(
        sip::header_value(&request, "Require").as_deref(),
        Some("sec-agree")
    );
    assert!(sip::header_value(&request, "Proxy-Require").is_none());
    assert!(sip::header_value(&request, "Authorization")
        .is_some_and(|value| value.starts_with("Digest uri=\"sip:ims.example\",username=")));
    assert_eq!(
        sip::header_value(&request, "Route").as_deref(),
        Some("<sip:192.0.2.1:5060;lr>")
    );
}

#[test]
fn other_421_requirements_do_not_select_a_retry_variant() {
    for require in ["timer", "sec-agree, timer"] {
        let failure = RegisterFailure {
            error: ImsError::new("ims_register_initial_unexpected_status"),
            response: Some(
                format!(
                    "SIP/2.0 421 Extension Required\r\nRequire: {require}\r\nContent-Length: 0\r\n\r\n"
                )
                .into_bytes(),
            ),
            auth_rounds: 0,
        };

        assert!(sec_agree_retry_variant(
            register_variant("ims_features_aka_uri_first"),
            &failure
        )
        .is_none());
    }
}

#[test]
fn register_transport_errors_preserve_initial_vs_authenticated_stage() {
    let initial = map_register_error(ImsError::new("ims_register_initial_receive_failed"));
    assert_eq!(initial.code(), code::REGISTER_INITIAL_UNEXPECTED_STATUS);
    assert_eq!(
        initial.detail(),
        Some("ims_register_initial_receive_failed")
    );

    let authenticated =
        map_register_error(ImsError::new("ims_register_authenticated_receive_failed"));
    assert_eq!(authenticated.code(), code::REGISTER_AUTH_UNEXPECTED_STATUS);
    assert_eq!(
        authenticated.detail(),
        Some("ims_register_authenticated_receive_failed")
    );
}

#[test]
fn bearer_retention_requires_a_terminal_register_response() {
    let terminal = RegisterFailure {
        error: ImsError::new("ims_register_initial_unexpected_status"),
        response: Some(b"SIP/2.0 400 Bad Request\r\nContent-Length: 0\r\n\r\n".to_vec()),
        auth_rounds: 0,
    };
    let terminal_error = map_register_failure(&terminal);
    assert!(should_retain_failed_bearer(&terminal_error));
    assert!(terminal_error
        .detail()
        .is_some_and(|detail| detail.contains("sip_status=400")));

    let local_auth_failure = RegisterFailure {
        error: ImsError::new(code::USIM_AKA_FAILED),
        response: Some(b"SIP/2.0 401 Unauthorized\r\nContent-Length: 0\r\n\r\n".to_vec()),
        auth_rounds: 1,
    };
    let local_error = map_register_failure(&local_auth_failure);
    assert!(!should_retain_failed_bearer(&local_error));
    assert!(!local_error
        .detail()
        .is_some_and(|detail| detail.contains("sip_status=")));
}

#[test]
fn family_fallback_is_limited_to_discovery_and_initial_transport_failures() {
    assert!(
        FailureClass::from_error(&VolteError::new(code::RUNTIME_ALL_PCSCF_FAILED))
            .is_retryable_family()
    );
    assert!(FailureClass::from_error(&VolteError::new(
        code::REGISTER_INITIAL_UNEXPECTED_STATUS
    ))
    .is_retryable_family());
    assert!(
        !FailureClass::from_error(&VolteError::new(code::REGISTER_AUTH_UNEXPECTED_STATUS))
            .is_retryable_family()
    );
    assert!(
        !FailureClass::from_error(&VolteError::new(code::USIM_AKA_FAILED)).is_retryable_family()
    );
    assert_eq!(ip_family_name(parse_ip("2001:db8::1").unwrap()), "ipv6");
    assert_eq!(ip_family_name(parse_ip("192.0.2.1").unwrap()), "ipv4");
}

#[test]
fn operator_callee_uses_request_user_and_ims_home_domain() {
    assert_eq!(
        normalize_operator_callee("sip:+8613800138000@10.0.0.116", "ims.example").unwrap(),
        "sip:+8613800138000@ims.example;user=phone"
    );
    assert_eq!(
        normalize_operator_callee("*86", "ims.example").unwrap(),
        "sip:*86@ims.example;user=phone"
    );
    assert!(normalize_operator_callee("sip:not-a-number@pbx", "ims.example").is_err());
    assert_eq!(
        normalize_incoming_caller("tel:+8613800138000"),
        "sip:+8613800138000@simadmin"
    );
    assert_eq!(
        normalize_incoming_caller("sips:+8613800138000@ims.example"),
        "sip:+8613800138000@ims.example"
    );
}

#[test]
fn relay_sdp_advertises_allocated_endpoint_and_dtmf() {
    let source = b"v=0\r\no=- 1 1 IN IP4 10.0.0.3\r\ns=call\r\nc=IN IP4 10.0.0.3\r\nt=0 0\r\nm=audio 40000 RTP/AVP 0\r\na=rtpmap:0 PCMU/8000\r\na=sendrecv\r\n";
    let audio = parse_audio_sdp(source).unwrap();
    let sdp = relay_audio_sdp(
        &audio,
        Some(&RtpTelephoneEvent {
            payload_type: 101,
            clock_rate: 8000,
            events: Some("0-16".into()),
        }),
        addr("192.0.2.10", 32000),
    );
    assert!(sdp.contains("c=IN IP4 192.0.2.10\r\n"));
    assert!(sdp.contains("m=audio 32000 RTP/AVP 0 101\r\n"));
    assert!(sdp.contains("a=rtpmap:101 telephone-event/8000\r\n"));
    assert!(sdp.contains("a=fmtp:101 0-16\r\n"));
}

#[test]
fn relay_sdp_preserves_independent_video_addressing() {
    let source = b"v=0\r\no=- 1 1 IN IP4 10.0.0.3\r\ns=call\r\nc=IN IP4 10.0.0.3\r\nt=0 0\r\nm=audio 40000 RTP/AVP 0\r\na=rtpmap:0 PCMU/8000\r\na=sendrecv\r\nm=video 50000 RTP/AVP 99\r\nc=IN IP4 10.0.0.4\r\na=rtpmap:99 H264/90000\r\na=sendrecv\r\n";
    let audio = parse_audio_sdp(source).unwrap();
    let video = parse_video_sdp(source).unwrap();
    assert_eq!(
        media_endpoint_for_video(&audio, &video).unwrap(),
        addr("10.0.0.4", 50000)
    );
    let offer = MediaOffer {
        audio_endpoint: addr("10.0.0.3", 40000),
        audio,
        video: Some(VideoOffer {
            description: video,
            endpoint: addr("10.0.0.4", 50000),
        }),
        dtmf: DtmfCapabilities {
            rtp_event: None,
            sip_info: true,
            preferred: DtmfSource::SipInfo,
        },
    };
    let sdp = relay_media_sdp(
        &offer,
        addr("192.0.2.10", 32000),
        Some(addr("198.51.100.20", 33000)),
    );
    assert!(sdp.contains("c=IN IP4 192.0.2.10\r\n"));
    assert!(sdp.contains("m=video 33000 RTP/AVP 99\r\nc=IN IP4 198.51.100.20\r\n"));
}
