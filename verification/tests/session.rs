use volte_ims::auth::answering::answer_count;
use volte_ims::carrier::{
    CarrierEpdg, CarrierIdentity, CarrierIms, CarrierMeta, CarrierProfile, CarrierRegister,
};
use volte_ims::channel::{ImsRoute, SipTransport};
use volte_ims::errors::{code, VolteError};
use volte_ims::identity::ImsIdentity;
use volte_ims::ip::{parse_ip, SocketAddr};
use volte_ims::mwi::{
    access_headers, answered_subscribe, handle_volte_mwi_frame, may_authenticate,
    next_subscribe_ids, note_authenticated, note_subscribed, read_challenge, refresh_due,
    retry_subscription, split_authorization, start_volte_mwi_subscription, subscribe_signature,
    subscription_sent, unanswered_subscribe, MwiIncomingFrame, MwiReaction, SubscribeStart,
    MWI_REFRESH_SECONDS, MWI_SUBSCRIBE_EXPIRES_SECONDS,
};
use volte_ims::register::request::{
    build_register_with_policy, RegisterPhase, RegisterRequest, RegisterTarget, RequestIds,
};
use volte_ims::register::{
    reference_variants, ImsError, RegisterFailure, VolteInitialAuthorization, VolteRegisterVariant,
};
use volte_ims::runtime::{VoltePhase, VolteRuntime, VolteStage};
use volte_ims::session::{
    classify_other_frame, cleanup_live_session, loop_step, message_step, next_reader,
    note_refresh_begun, note_refresh_done, note_refresh_failed, note_registration_lost,
    profile_cleanup, refresh_request, register_associated_uris, register_service_route,
    take_input, takedown_steps, unregister_due, CleanupStep, FrameReader, InputStep, LoopInput,
    LoopStep, MessageEvent, MessageStep, OtherFrame, RegisteredLine, SessionHoldings,
};
use volte_ims::sip;
use volte_ims::sms::{
    check_sms, encode_error, ims_contact, note_received, note_sent, note_stored, phone_uri,
    take_received, ReceivedSms, ReceivedStep, SmsSending, SmsSubmission,
};

const NOW: &str = "2026-01-01T00:00:00+00:00";

fn identity() -> ImsIdentity {
    ImsIdentity {
        private_user: "234330000000001@ims.example".into(),
        public_uri: "sip:234330000000001@ims.example".into(),
        contact_user: "234330000000001".into(),
        home_domain: "ims.example".into(),
        contact_user_phone: false,
    }
}

fn carrier() -> CarrierProfile {
    CarrierProfile {
        meta: CarrierMeta { profile_id: "gb-ee-23433" },
        identity: CarrierIdentity { device_identity_enabled: false },
        epdg: CarrierEpdg {
            host: "epdg.epc.mnc033.mcc234.pub.3gppnetwork.org",
            port: 500,
            apn: Some("ims"),
            ip_stack: "ipv6",
            dns_servers: vec!["198.51.100.53"],
            dns_server: None,
        },
        ims: CarrierIms {
            domain: "ims.mnc033.mcc234.3gppnetwork.org",
            realm: "ims.mnc033.mcc234.3gppnetwork.org",
            pcscf: None,
            registrar: None,
            user_agent: "carrier-agent",
            register: CarrierRegister {
                initial_authorization: "aka_empty",
                sec_agree_mode: "optional",
                require_sec_agree_headers: false,
                proxy_require_sec_agree_headers: false,
                supported_header: "path,sec-agree",
                live_header_variant_set: "catalog",
                include_mmtel_features: true,
                include_route_header: true,
                include_visited_network: true,
                security_client_mechanisms: vec!["hmac-md5-96/null/esp/trans"],
                strict_security_server_offer: false,
                expires_seconds: 600_000,
                always_add_sip_instance: false,
            },
        },
    }
}

/// The request as text, with nothing of a carrier's own.
fn written(request: &RegisterRequest) -> Vec<u8> {
    build_register_with_policy(&request.identity, &request.route, &request.ids, &request.parts)
        .into_bytes()
}

fn route() -> ImsRoute {
    ImsRoute {
        local_addr: SocketAddr::new(parse_ip("127.0.0.1").unwrap(), 5070),
        pcscf_addr: SocketAddr::new(parse_ip("127.0.0.1").unwrap(), 5060),
        transport: SipTransport::Udp,
    }
}

#[test]
fn explicit_unregister_reuses_register_dialog_and_requires_final_success() {
    let ids = RequestIds {
        branch: "z9hG4bKreg".to_string(),
        from_tag: "register-tag".to_string(),
        call_id: "register@test".to_string(),
        cseq: 1,
    };
    let line = RegisteredLine::registered(&identity(), ids.cseq, b"SIP/2.0 200 OK\r\n\r\n", 0);
    let expected_cseq = line.next_register_cseq;
    assert_eq!(expected_cseq, 2);
    assert!(unregister_due(true, 10, 3600));
    let request = written(&refresh_request(
        &line,
        &ids,
        &route(),
        &reference_variants()[0],
        &RegisterTarget {
            domain: "ims.example".to_string(),
            realm: "ims.example".to_string(),
            registrar: None,
        },
        None,
        "urn:uuid:00000000-0000-4000-8000-000000000000",
        0,
    ));
    assert!(request.starts_with(b"REGISTER "));
    assert_eq!(
        sip::header_value(&request, "Call-ID").as_deref(),
        Some("register@test")
    );
    assert!(sip::header_value(&request, "From")
        .is_some_and(|value| value.contains(";tag=register-tag")));
    assert_eq!(
        sip::header_value(&request, "CSeq").as_deref(),
        Some(format!("{expected_cseq} REGISTER").as_str())
    );
    assert_eq!(sip::header_value(&request, "Expires").as_deref(), Some("0"));
    assert!(sip::header_value(&request, "Contact").is_some());
    assert!(sip::header_value(&request, "Require").is_none());
    assert!(sip::header_value(&request, "Security-Client").is_none());
    let protected = written(&refresh_request(
        &line,
        &ids,
        &route(),
        &reference_variants()[0],
        &RegisterTarget {
            domain: "ims.example".to_string(),
            realm: "ims.example".to_string(),
            registrar: None,
        },
        Some("verify".to_string()),
        "urn:uuid:00000000-0000-4000-8000-000000000000",
        3600,
    ));
    assert_eq!(sip::header_value(&protected, "Require").as_deref(), Some("sec-agree"));
    assert_eq!(
        sip::header_value(&protected, "Security-Verify").as_deref(),
        Some("verify")
    );
}

#[test]
fn registration_takes_what_the_registrar_gave() {
    let response = b"SIP/2.0 200 OK\r\nService-Route: <sip:a;lr>\r\nService-Route: <sip:b;lr>\r\nP-Associated-URI: <urn:x>, <tel:+441234567890>, <sip:+441234567890@ims.example>\r\n\r\n";
    assert_eq!(
        register_service_route(response).as_deref(),
        Some("<sip:a;lr>, <sip:b;lr>")
    );
    assert_eq!(
        register_associated_uris(response),
        vec!["tel:+441234567890", "sip:+441234567890@ims.example"]
    );
    let mut line = RegisteredLine::registered(&identity(), 5, response, 2);
    assert_eq!(line.identity.public_uri, "tel:+441234567890");
    assert_eq!(line.identity.private_user, identity().private_user);
    assert_eq!(line.next_register_cseq, 8);
    line.refreshed(b"SIP/2.0 200 OK\r\n\r\n", 1);
    assert_eq!(line.identity.public_uri, "tel:+441234567890");
    assert_eq!(line.service_route, None);
    assert_eq!(line.next_register_cseq, 10);
    let last = RegisteredLine::registered(&identity(), u32::MAX - 1, response, 200);
    assert_eq!(last.next_register_cseq, u32::MAX);
}

#[test]
fn expired_registration_is_not_ended_again() {
    assert!(!unregister_due(false, 0, 3600));
    assert!(!unregister_due(true, 3600, 3600));
    assert!(unregister_due(true, 3599, 3600));
}

#[test]
fn refresh_is_noted_from_begin_to_end() {
    let mut runtime = VolteRuntime::new();
    note_refresh_begun(&mut runtime, "ipv6", NOW);
    assert_eq!(runtime.snapshot.stage, VolteStage::RegisterRefresh);
    runtime.snapshot.last_error = Some("old".to_string());
    note_refresh_done(&mut runtime, "ipv6", 12, NOW);
    assert_eq!(runtime.snapshot.phase, VoltePhase::Registered);
    assert_eq!(runtime.snapshot.last_error, None);
    assert_eq!(runtime.snapshot.register_refresh_count, 1);
    assert_eq!(runtime.snapshot.last_register_refresh_at.as_deref(), Some(NOW));
    let last = runtime.snapshot.connection_attempts.last().unwrap();
    assert_eq!(last.detail.as_deref(), Some("cseq=12"));
    assert_eq!(last.outcome, "succeeded");

    let failure = RegisterFailure {
        error: ImsError::new("ims_register_auth_rejected"),
        response: Some(b"SIP/2.0 403 Forbidden\r\n\r\n".to_vec()),
        auth_rounds: 1,
    };
    let error = note_refresh_failed(&mut runtime, "ipv6", &failure, NOW);
    assert_eq!(error.code(), code::REGISTER_AUTH_UNEXPECTED_STATUS);
    note_registration_lost(&mut runtime, "rejected", &error, NOW);
    assert_eq!(runtime.snapshot.phase, VoltePhase::Degraded);
    assert_eq!(runtime.snapshot.reconnect_count, 1);
    assert_eq!(
        runtime.snapshot.last_error.as_deref(),
        Some("volte_register_refresh_failed:rejected:volte_register_auth_unexpected_status:ims_register_auth_rejected:sip_status=403")
    );
}

#[test]
fn loop_puts_teardown_before_due_work_and_that_before_input() {
    assert_eq!(loop_step(true, true, true, true, true), LoopStep::Stop);
    assert_eq!(loop_step(false, true, true, true, true), LoopStep::CleanUp);
    assert_eq!(loop_step(false, false, true, true, true), LoopStep::Subscribe);
    assert_eq!(loop_step(false, false, false, true, true), LoopStep::Refresh);
    assert_eq!(loop_step(false, false, false, true, false), LoopStep::Stop);
    assert_eq!(loop_step(false, false, false, false, true), LoopStep::Wait);
}

#[test]
fn only_a_broken_channel_ends_the_session() {
    let mut runtime = VolteRuntime::new();
    assert_eq!(take_input(&mut runtime, LoopInput::Command, NOW), InputStep::HandleCommand);
    assert_eq!(take_input(&mut runtime, LoopInput::CommandsMissed, NOW), InputStep::Continue);
    assert_eq!(take_input(&mut runtime, LoopInput::CommandsClosed, NOW), InputStep::Stop);
    assert_eq!(
        take_input(&mut runtime, LoopInput::NoFrame("volte_channel_read_timeout"), NOW),
        InputStep::Continue
    );
    assert_eq!(runtime.snapshot.phase, VoltePhase::Disabled);
    assert_eq!(take_input(&mut runtime, LoopInput::Frame, NOW), InputStep::HandleFrame);
    assert_eq!(runtime.snapshot.last_rx_at.as_deref(), Some(NOW));
    assert_eq!(
        take_input(&mut runtime, LoopInput::NoFrame("volte_channel_read_failed"), NOW),
        InputStep::CleanUp
    );
    assert_eq!(runtime.snapshot.last_error.as_deref(), Some("volte_channel_read_failed"));
}

#[test]
fn stray_frames_are_answered_by_what_they_are() {
    assert_eq!(
        classify_other_frame(b"MESSAGE sip:line SIP/2.0\r\n\r\n"),
        OtherFrame::Message
    );
    assert_eq!(classify_other_frame(b"SIP/2.0 200 OK\r\n\r\n"), OtherFrame::Ignore);
    assert_eq!(
        classify_other_frame(b"INVITE sip:line SIP/2.0\r\n\r\n"),
        OtherFrame::Answer { status: 480, reason: "Temporarily Unavailable" }
    );
    assert_eq!(
        classify_other_frame(b"OPTIONS sip:line SIP/2.0\r\n\r\n"),
        OtherFrame::Answer { status: 200, reason: "OK" }
    );
}

#[test]
fn message_is_answered_then_acknowledged_then_stored() {
    let step = message_step(MessageEvent::Come);
    assert_eq!(step, MessageStep::Answer { status: 200, reason: "OK" });
    assert_eq!(message_step(MessageEvent::Answered), MessageStep::Read);
    assert_eq!(message_step(MessageEvent::Read { readable: true }), MessageStep::Acknowledge);
    assert_eq!(
        message_step(MessageEvent::Read { readable: false }),
        MessageStep::Failed(VolteError::new("volte_mt_rp_data_invalid"))
    );
    assert_eq!(message_step(MessageEvent::Acknowledged), MessageStep::Join);
    assert_eq!(message_step(MessageEvent::Joined { whole: false }), MessageStep::Done);
    assert_eq!(message_step(MessageEvent::Joined { whole: true }), MessageStep::Store);
    assert_eq!(message_step(MessageEvent::Stored), MessageStep::Done);
}

#[test]
fn line_is_taken_down_in_order() {
    assert_eq!(
        takedown_steps(true, true, Some(2), true),
        vec![
            CleanupStep::RemoveSecurity,
            CleanupStep::RemoveNetwork,
            CleanupStep::ReleaseNative,
            CleanupStep::StopReporting { cid: 2 },
            CleanupStep::ReleaseProfile,
        ]
    );
    assert_eq!(
        takedown_steps(false, false, None, false),
        vec![CleanupStep::RemoveNetwork, CleanupStep::Disconnect]
    );
    assert!(profile_cleanup(None, false).is_empty());
    let held = SessionHoldings { secured: false, native: true, reporting: None, leased: false };
    assert_eq!(
        cleanup_live_session(Some(held), true, true),
        vec![
            CleanupStep::RefuseCalls,
            CleanupStep::RemoveNetwork,
            CleanupStep::ReleaseNative,
            CleanupStep::ForgetRegistration,
            CleanupStep::ReleaseRetained,
        ]
    );
    assert_eq!(cleanup_live_session(None, false, false), vec![CleanupStep::RefuseCalls]);
}

#[test]
fn mailbox_subscription_is_begun_refreshed_or_dropped() {
    assert_eq!(start_volte_mwi_subscription(false, true, true), SubscribeStart::Nothing);
    assert_eq!(start_volte_mwi_subscription(true, false, false), SubscribeStart::Begin);
    assert_eq!(start_volte_mwi_subscription(true, true, true), SubscribeStart::Refresh);
    assert_eq!(start_volte_mwi_subscription(true, true, false), SubscribeStart::Drop);
    assert_eq!(MWI_REFRESH_SECONDS, 3300);
    assert_eq!(MWI_SUBSCRIBE_EXPIRES_SECONDS, 3600);

    let first = next_subscribe_ids(None, "b1", "from", "call");
    assert_eq!(first.cseq, 1);
    assert_eq!(first.to_tag, None);
    assert_eq!(subscription_sent(first.clone(), false, 100), None);
    let mut held = subscription_sent(first, true, 100);
    assert!(!refresh_due(held.as_ref(), 3399));
    assert!(refresh_due(held.as_ref(), 3400));
    note_subscribed(&mut held, Some("remote".to_string()));
    let again = next_subscribe_ids(held.as_ref(), "b2", "other", "other");
    assert_eq!(again.branch, "b2");
    assert_eq!(again.from_tag, "from");
    assert_eq!(again.to_tag.as_deref(), Some("remote"));
    assert_eq!(again.call_id, "call");
    assert_eq!(again.cseq, 2);
}

#[test]
fn subscription_is_authenticated_once() {
    let mut none = None;
    assert_eq!(
        may_authenticate(&none).unwrap_err().code(),
        "mwi_subscription_missing"
    );
    assert!(retry_subscription(&mut none, "b").is_err());
    let mut held = subscription_sent(next_subscribe_ids(None, "b1", "from", "call"), true, 0);
    let ids = retry_subscription(&mut held, "b2").unwrap();
    assert_eq!(ids.cseq, 2);
    assert_eq!(ids.branch, "b2");
    assert_eq!(ids.call_id, "call");
    note_authenticated(&mut held);
    assert_eq!(
        retry_subscription(&mut held, "b3").unwrap_err().code(),
        "mwi_subscribe_authentication_rejected"
    );
    assert_eq!(
        split_authorization("Authorization: Digest a:b").unwrap(),
        ("Authorization".to_string(), "Digest a:b".to_string())
    );
    assert_eq!(
        split_authorization("nothing").unwrap_err().code(),
        "mwi_authorization_header_invalid"
    );
}

#[test]
fn subscribe_carries_the_answer_between_access_and_protection() {
    let frame = b"SIP/2.0 401 X\r\nWWW-Authenticate: Digest realm=\"r\",nonce=\"n\"\r\n\r\n";
    assert_eq!(
        read_challenge(&None, frame).unwrap_err().code(),
        "mwi_subscription_missing"
    );
    let mut held = subscription_sent(next_subscribe_ids(None, "b1", "from", "call"), true, 0);
    let challenge = read_challenge(&held, frame).unwrap();
    assert_eq!(challenge.nonce, "n");
    assert_eq!(
        read_challenge(&held, b"SIP/2.0 401 X\r\n\r\n").unwrap_err().code(),
        code::DIGEST_CHALLENGE_MISSING
    );
    assert_eq!(answer_count(&challenge, false), Some("00000001"));
    assert_eq!(answer_count(&challenge, true), None);
    note_authenticated(&mut held);
    assert_eq!(
        read_challenge(&held, frame).unwrap_err().code(),
        "mwi_subscribe_authentication_rejected"
    );

    let header = |name: &str, value: &str| (name.to_string(), value.to_string());
    assert_eq!(
        access_headers("3GPP-E-UTRAN-FDD", None, None),
        vec![header("P-Access-Network-Info", "3GPP-E-UTRAN-FDD")]
    );
    assert_eq!(
        access_headers("a", Some(header("Authorization", "Digest")), Some("v".to_string())),
        vec![
            header("P-Access-Network-Info", "a"),
            header("Authorization", "Digest"),
            header("Security-Verify", "v"),
        ]
    );
}

#[test]
fn answered_subscribe_is_signed_for_the_subscriber() {
    let frame = b"SIP/2.0 401 X\r\nWWW-Authenticate: Digest realm=\"r\",nonce=\"n\"\r\n\r\n";
    let held = subscription_sent(next_subscribe_ids(None, "b1", "from", "call"), true, 0);
    let challenge = read_challenge(&held, frame).unwrap();
    let signature = subscribe_signature(&identity(), &challenge, None);
    assert_eq!(signature.method, "SUBSCRIBE");
    assert_eq!(signature.username, identity().private_user);
    assert_eq!(signature.uri, identity().public_uri);
    assert_eq!(signature.count, Some("00000001"));
    let ids = next_subscribe_ids(None, "b1", "from", "call");
    let parts = unanswered_subscribe(ids.clone(), "access", "stack", None);
    assert_eq!(parts.user_agent, "stack");
    assert_eq!(parts.expires_seconds, 3600);
    assert_eq!(parts.headers.len(), 1);
    let header = ("Authorization".to_string(), "Digest".to_string());
    let parts = answered_subscribe(ids, "access", &carrier(), header, None);
    assert_eq!(parts.user_agent, "carrier-agent");
    assert_eq!(parts.headers.len(), 2);
}

#[test]
fn refresh_asks_for_the_registrar() {
    let ids = RequestIds {
        branch: "z9hG4bKreg".to_string(),
        from_tag: "register-tag".to_string(),
        call_id: "register@test".to_string(),
        cseq: 1,
    };
    let line = RegisteredLine::registered(&identity(), ids.cseq, b"SIP/2.0 200 OK\r\n\r\n", 0);
    let target = RegisterTarget {
        domain: "ims.example".to_string(),
        realm: "ims.example".to_string(),
        registrar: Some("reg.example".to_string()),
    };
    let signs = |variant: &VolteRegisterVariant| {
        variant.authorization == VolteInitialAuthorization::UriFirstEmptyAka
    };
    let variant = reference_variants().into_iter().find(signs).unwrap();
    let request =
        refresh_request(&line, &ids, &route(), &variant, &target, None, "urn:x", 3600);
    assert_eq!(request.phase, RegisterPhase::Refresh);
    assert_eq!(request.request_uri, "sip:reg.example");
    assert_eq!(request.ids.cseq, line.next_register_cseq);
    assert!(request.parts.authorization.unwrap().contains("uri=\"sip:reg.example\""));
}

#[test]
fn frame_goes_to_the_mailbox_then_the_calls_then_the_others() {
    assert_eq!(next_reader(None, false), Some(FrameReader::Mailbox));
    assert_eq!(next_reader(Some(FrameReader::Mailbox), true), None);
    assert_eq!(next_reader(Some(FrameReader::Mailbox), false), Some(FrameReader::Calls));
    assert_eq!(next_reader(Some(FrameReader::Calls), true), None);
    assert_eq!(next_reader(Some(FrameReader::Calls), false), Some(FrameReader::Others));
    assert_eq!(next_reader(Some(FrameReader::Others), false), None);
}

#[test]
fn mailbox_frames_are_answered_and_classified() {
    let reply = |status, to_tag: Option<&str>| MwiIncomingFrame::SubscribeResponse {
        status,
        to_tag: to_tag.map(str::to_string),
    };
    assert_eq!(
        handle_volte_mwi_frame(&MwiIncomingFrame::Other, true),
        MwiReaction::NotHandled
    );
    assert_eq!(
        handle_volte_mwi_frame(&MwiIncomingFrame::Notify { response_status: 200 }, true),
        MwiReaction::Answer { status: 200, reason: "OK" }
    );
    assert_eq!(
        handle_volte_mwi_frame(&MwiIncomingFrame::Notify { response_status: 481 }, false),
        MwiReaction::Answer { status: 481, reason: "Call/Transaction Does Not Exist" }
    );
    assert_eq!(handle_volte_mwi_frame(&reply(Some(200), None), false), MwiReaction::Done);
    assert_eq!(
        handle_volte_mwi_frame(&reply(Some(202), Some("t")), true),
        MwiReaction::Subscribed { to_tag: Some("t".to_string()) }
    );
    assert_eq!(handle_volte_mwi_frame(&reply(Some(407), None), true), MwiReaction::Authenticate);
    for status in [Some(403), Some(180), None] {
        assert_eq!(
            handle_volte_mwi_frame(&reply(status, None), true),
            MwiReaction::Failed { code: "mwi_subscribe_rejected" }
        );
    }
}

#[test]
fn message_is_sent_part_by_part() {
    let mut runtime = VolteRuntime::new();
    assert_eq!(
        check_sms(&runtime, "+44").unwrap_err().code(),
        "volte_runtime_not_registered"
    );
    runtime.snapshot.phase = VoltePhase::Registered;
    assert_eq!(check_sms(&runtime, "  ").unwrap_err().code(), "volte_smsc_missing");
    assert!(check_sms(&runtime, "+44").is_ok());
    assert_eq!(
        SmsSending::begin(&[]).unwrap_err().code(),
        "volte_sms_encode_failed"
    );
    assert_eq!(encode_error("too long").to_string(), "volte_sms_encode_failed:too long");
    let part = |id: &str| SmsSubmission {
        message_id: id.to_string(),
        trace_id: format!("trace-{id}"),
        body: vec![1],
    };
    let parts = [part("first"), part("second")];
    let mut sending = SmsSending::begin(&parts).unwrap();
    sending.part_answered(202).unwrap();
    note_sent(&mut runtime, NOW);
    note_received(&mut runtime, NOW);
    sending.part_answered(200).unwrap();
    let result = sending.finish(&mut runtime);
    assert_eq!(result.message_id, "first");
    assert_eq!(result.trace_id, "trace-first");
    assert_eq!(result.part_count, 2);
    assert_eq!(result.sip_statuses, vec![202, 200]);
    assert_eq!(runtime.snapshot.sent_count, 1);
    assert_eq!(runtime.snapshot.last_tx_at.as_deref(), Some(NOW));

    let mut rejected = SmsSending::begin(&parts).unwrap();
    let error: VolteError = rejected.part_answered(488).unwrap_err();
    assert_eq!(error.code(), "volte_sms_message_rejected");
    assert_eq!(error.detail(), Some("488"));
    assert!(rejected.statuses.is_empty());
}

#[test]
fn received_message_is_stored_once() {
    let mut runtime = VolteRuntime::new();
    let message = ReceivedSms {
        originator: "+441234567890".to_string(),
        text: "hello".to_string(),
        service_center_timestamp: " ".to_string(),
        dedup_marker: "marker".to_string(),
    };
    for (claimed, stored) in [(Some(false), false), (None, true)] {
        assert_eq!(
            take_received(&mut runtime, &message, claimed, stored, "volte", "line", NOW),
            ReceivedStep::Duplicate
        );
    }
    assert_eq!(runtime.snapshot.duplicate_count, 2);
    match take_received(&mut runtime, &message, Some(true), false, "volte", "line", NOW) {
        ReceivedStep::Store(sms) => {
            assert_eq!(sms.direction, "incoming");
            assert_eq!(sms.phone_number, "+441234567890");
            assert_eq!(sms.content, "hello");
            assert_eq!(sms.timestamp, NOW);
            assert_eq!(sms.status, "received");
            assert_eq!(sms.pdu.as_deref(), Some("marker"));
            assert_eq!(sms.transport, "volte");
            assert_eq!(sms.line_id.as_deref(), Some("line"));
        }
        other => panic!("unexpected step {other:?}"),
    }
    note_stored(&mut runtime);
    assert_eq!(runtime.snapshot.received_count, 1);
    assert_eq!(runtime.snapshot.duplicate_count, 2);
}

#[test]
fn contact_and_phone_addresses_are_written() {
    assert_eq!(
        ims_contact(&identity(), &route()),
        "sip:234330000000001@127.0.0.1:5070;transport=udp"
    );
    let v6 = ImsRoute {
        local_addr: SocketAddr::new(parse_ip("2001:db8::2").unwrap(), 5060),
        ..route()
    };
    assert_eq!(
        ims_contact(&identity(), &v6),
        "sip:234330000000001@[2001:db8::2]:5060;transport=udp"
    );
    assert_eq!(phone_uri(" 112 ", "ims.example").unwrap(), "sip:112@ims.example;user=phone");
    assert_eq!(
        phone_uri("1+1", "ims.example").unwrap_err().code(),
        "volte_phone_uri_invalid"
    );
}
