use volte_ims::calls::actions::{CallAction, DtmfSignal, OperatorEvent, OutboundSip};
use volte_ims::calls::commands::{
    admit_command, command_failed, handle_operator_command_inner, operator_command_call_id,
    outgoing_body, Admission, CommandContext, OperatorCommand,
};
use volte_ims::calls::frames::{InviteDecision, TrunkIpConnectMode, TrunkLink};
use volte_ims::calls::lifecycle::{
    read_invite_dialog, refuse_without_relay, relay_error, FrameTask, RelayFailure,
};
use volte_ims::calls::media::{
    arm_first_rtp_ip_answer, prepare_final_operator_media, prepare_incoming_media,
    prepare_operator_media,
};
use volte_ims::calls::table::VoiceCalls;
use volte_ims::calls::{
    DialogIds, DialogTransfer, LiveVoiceCall, LiveVoiceDirection, RelaySockets,
    REFER_RESPONSE_TIMEOUT_MS, REINVITE_TIMEOUT_MS,
};
use volte_ims::errors::VolteError;
use volte_ims::ip::{parse_ip, SocketAddr};
use volte_ims::sdp::{
    parse_audio_sdp, DtmfCapabilities, DtmfSource, MediaDirection, MediaOffer, RtpTelephoneEvent,
    SdpAudioDescription, VideoMediaDescription, VideoOffer,
};

fn local(port: u16) -> SocketAddr {
    SocketAddr::new(parse_ip("127.0.0.1").unwrap(), port)
}

fn sockets(relay: u64) -> RelaySockets {
    RelaySockets {
        relay,
        operator_local: local(20000 + relay as u16 * 2),
        internal_local: local(30000 + relay as u16 * 2),
    }
}

fn audio_sdp(port: u16, event: u8, direction: MediaDirection) -> String {
    format!(
        "v=0\r\no=- 1 1 IN IP4 127.0.0.1\r\ns=call\r\nc=IN IP4 127.0.0.1\r\nt=0 0\r\nm=audio {port} RTP/AVP 0 {event}\r\na=rtpmap:0 PCMU/8000\r\na=rtpmap:{event} telephone-event/8000\r\na=fmtp:{event} 0-16\r\na={}\r\n",
        direction.as_str()
    )
}

fn plain_sdp(port: u16) -> String {
    format!(
        "v=0\r\no=- 1 1 IN IP4 127.0.0.1\r\ns=call\r\nc=IN IP4 127.0.0.1\r\nt=0 0\r\nm=audio {port} RTP/AVP 0\r\na=rtpmap:0 PCMU/8000\r\na=sendrecv\r\n"
    )
}

fn test_audio_offer(endpoint: SocketAddr, direction: MediaDirection) -> MediaOffer {
    MediaOffer {
        audio_endpoint: endpoint,
        audio: parse_audio_sdp(audio_sdp(endpoint.port, 101, direction).as_bytes()).unwrap(),
        video: None,
        dtmf: DtmfCapabilities {
            rtp_event: Some(RtpTelephoneEvent {
                payload_type: 101,
                clock_rate: 8000,
                events: Some("0-16".into()),
            }),
            sip_info: true,
            preferred: DtmfSource::RtpEvent,
        },
    }
}

fn plain_offer(endpoint: SocketAddr) -> MediaOffer {
    MediaOffer {
        audio: parse_audio_sdp(plain_sdp(endpoint.port).as_bytes()).unwrap(),
        audio_endpoint: endpoint,
        video: None,
        dtmf: DtmfCapabilities {
            rtp_event: None,
            sip_info: true,
            preferred: DtmfSource::SipInfo,
        },
    }
}

fn context() -> CommandContext {
    CommandContext {
        home_domain: "ims.example".to_string(),
        contact: "sip:line@127.0.0.1:5060".to_string(),
        video_enabled: false,
        unwritable: None,
        now: 1_000,
    }
}

fn link() -> TrunkLink {
    TrunkLink {
        has_local_ip: true,
        available: true,
        video_enabled: false,
        answers_immediately: false,
    }
}

fn invite(call_id: &str, branch: &str, cseq: u32) -> Vec<u8> {
    format!(
        "INVITE sip:callee@ims.example SIP/2.0\r\nVia: SIP/2.0/UDP 127.0.0.1:5060;branch={branch}\r\nFrom: <sip:line@ims.example>;tag=local\r\nTo: <sip:callee@ims.example>\r\nCall-ID: {call_id}\r\nCSeq: {cseq} INVITE\r\nContent-Length: 0\r\n\r\n"
    )
    .into_bytes()
}

fn response(call_id: &str, cseq: u32, status: u16, tag: &str, body: &str) -> Vec<u8> {
    format!(
        "SIP/2.0 {status} X\r\nVia: SIP/2.0/UDP 127.0.0.1:5060;branch=z9hG4bK1\r\nFrom: <sip:line@ims.example>;tag=local\r\nTo: <sip:callee@ims.example>;tag={tag}\r\nCall-ID: {call_id}\r\nCSeq: {cseq} INVITE\r\nContent-Length: {}\r\n\r\n{body}",
        body.len()
    )
    .into_bytes()
}

fn start(calls: &mut VoiceCalls, id: &str, callee: &str, port: u16, relay: u64) -> String {
    let offer = || test_audio_offer(local(port), MediaDirection::SendRecv);
    let command = OperatorCommand::StartCall {
        call_id: id.to_string(),
        callee: callee.to_string(),
        offer: offer(),
    };
    assert_eq!(operator_command_call_id(&command), id);
    let uri = match admit_command(Some(calls), &command, &context()).unwrap() {
        Admission::BindForStart { callee_uri, video } => {
            assert!(!video);
            callee_uri
        }
        other => panic!("unexpected admission {other:?}"),
    };
    let ims_call_id = format!("ims-{id}");
    calls
        .start_call(
            id.to_string(),
            uri,
            offer(),
            sockets(relay),
            None,
            DialogIds {
                call_id: ims_call_id.clone(),
                local_tag: "local".to_string(),
                remote_tag: None,
                cseq: 1,
            },
            &invite(&ims_call_id, "z9hG4bK1", 1),
        )
        .unwrap();
    ims_call_id
}

fn frame(calls: &mut VoiceCalls, frame: &[u8]) -> (Option<String>, FrameTask, Vec<CallAction>) {
    let mut actions = Vec::new();
    let (owner, task) =
        calls.handle_operator_sip_frame(frame, TrunkIpConnectMode::GsmAnswer, &mut actions);
    (owner, task.unwrap(), actions)
}

fn events(actions: &[CallAction]) -> Vec<&OperatorEvent> {
    actions
        .iter()
        .filter_map(|action| match action {
            CallAction::Emit(event) => Some(event),
            _ => None,
        })
        .collect()
}

fn sent(actions: &[CallAction]) -> Vec<&OutboundSip> {
    actions
        .iter()
        .filter_map(|action| match action {
            CallAction::Send(message) => Some(message),
            _ => None,
        })
        .collect()
}

#[test]
fn two_dialogs_keep_progress_media_dtmf_and_reinvite_state_independent() {
    let mut calls = VoiceCalls::new();
    let ims_a = start(&mut calls, "matrix-call-a", "+441234567891", 40000, 1);
    let ims_b = start(&mut calls, "matrix-call-b", "+441234567892", 40002, 2);
    assert_ne!(ims_a, ims_b);

    let third = OperatorCommand::StartCall {
        call_id: "matrix-call-x".into(),
        callee: "+441234567899".into(),
        offer: test_audio_offer(local(40009), MediaDirection::SendRecv),
    };
    assert!(admit_command(Some(&calls), &third, &context()).is_err());

    let (owner, task, actions) = frame(&mut calls, &response(&ims_a, 1, 180, "network-a", ""));
    assert_eq!(owner.as_deref(), Some("matrix-call-a"));
    assert_eq!(task, FrameTask::Handled);
    assert_eq!(
        events(&actions),
        vec![&OperatorEvent::Provisional {
            call_id: "matrix-call-a".into(),
            status: 180,
            answer: None,
        }]
    );

    let (_, _, actions) = frame(&mut calls, &response(&ims_b, 1, 486, "network-b", ""));
    assert!(events(&actions).contains(&&OperatorEvent::Rejected {
        call_id: "matrix-call-b".into(),
        status: 486,
    }));
    assert!(calls.contains("matrix-call-a"));
    assert!(!calls.contains("matrix-call-b"));

    let ims_c = start(&mut calls, "matrix-call-c", "+441234567893", 40004, 3);
    assert_ne!(ims_a, ims_c);
    let answer_a = audio_sdp(50000, 96, MediaDirection::SendRecv);
    let answer_c = audio_sdp(50004, 96, MediaDirection::SendRecv);

    let (_, _, actions) = frame(&mut calls, &response(&ims_c, 1, 183, "network-c", &answer_c));
    assert!(events(&actions).iter().any(|event| matches!(
        event,
        OperatorEvent::Provisional { call_id, status: 183, answer: Some(_) }
            if call_id == "matrix-call-c"
    )));

    for (ims, answer, id, tag) in [
        (&ims_a, &answer_a, "matrix-call-a", "network-a"),
        (&ims_c, &answer_c, "matrix-call-c", "network-c"),
    ] {
        let (owner, _, actions) = frame(&mut calls, &response(ims, 1, 200, tag, answer));
        assert_eq!(owner.as_deref(), Some(id));
        assert!(sent(&actions).iter().any(|message| matches!(
            message,
            OutboundSip::Ack { dialog, .. } if dialog.call_id == *ims
        )));
        assert!(events(&actions).iter().any(|event| matches!(
            event,
            OperatorEvent::Answered { call_id, .. } if call_id == id
        )));
    }

    let mut actions = Vec::new();
    calls
        .renegotiate(
            "matrix-call-a",
            test_audio_offer(local(40006), MediaDirection::Inactive),
            sockets(4),
            None,
            2_000,
            &mut actions,
        )
        .unwrap();
    let hold = sent(&actions);
    match hold[0] {
        OutboundSip::Reinvite { dialog, body, .. } => {
            assert_eq!(dialog.call_id, ims_a);
            assert_eq!(
                parse_audio_sdp(body.as_bytes()).unwrap().direction,
                MediaDirection::Inactive
            );
        }
        other => panic!("unexpected message {other:?}"),
    }
    let cseq = calls.get("matrix-call-a").unwrap().dialog.cseq;
    let inactive = audio_sdp(50000, 96, MediaDirection::Inactive);
    let (_, _, actions) = frame(&mut calls, &response(&ims_a, cseq, 200, "network-a", &inactive));
    assert!(matches!(sent(&actions)[0], OutboundSip::Ack { .. }));
    assert!(events(&actions).iter().any(|event| matches!(
        event,
        OperatorEvent::Answered { call_id, body }
            if call_id == "matrix-call-a"
                && parse_audio_sdp(body.as_bytes()).unwrap().direction == MediaDirection::Inactive
    )));

    let before_a = calls.get("matrix-call-a").unwrap().next_cseq;
    let mut actions = Vec::new();
    handle_operator_command_inner(
        &mut calls,
        &OperatorCommand::SendDtmf {
            call_id: "matrix-call-c".into(),
            signal: DtmfSignal { digit: '7', duration_ms: 200 },
        },
        &context(),
        &mut actions,
    )
    .unwrap();
    match sent(&actions)[0] {
        OutboundSip::Info { dialog, digit, duration_ms, .. } => {
            assert_eq!(dialog.call_id, ims_c);
            assert_eq!(*digit, '7');
            assert_eq!(*duration_ms, 200);
        }
        other => panic!("unexpected message {other:?}"),
    }
    assert_eq!(calls.get("matrix-call-a").unwrap().next_cseq, before_a);

    let mut actions = Vec::new();
    calls
        .renegotiate(
            "matrix-call-a",
            test_audio_offer(local(40008), MediaDirection::SendRecv),
            sockets(5),
            None,
            3_000,
            &mut actions,
        )
        .unwrap();
    match sent(&actions)[0] {
        OutboundSip::Reinvite { body, .. } => assert_eq!(
            parse_audio_sdp(body.as_bytes()).unwrap().direction,
            MediaDirection::SendRecv
        ),
        other => panic!("unexpected message {other:?}"),
    }
    let cseq = calls.get("matrix-call-a").unwrap().dialog.cseq;
    let (_, _, actions) = frame(&mut calls, &response(&ims_a, cseq, 200, "network-a", &answer_a));
    assert!(events(&actions).iter().any(|event| matches!(
        event,
        OperatorEvent::Answered { call_id, .. } if call_id == "matrix-call-a"
    )));

    for (id, ims) in [("matrix-call-a", &ims_a), ("matrix-call-c", &ims_c)] {
        let mut actions = Vec::new();
        handle_operator_command_inner(
            &mut calls,
            &OperatorCommand::HangupCall { call_id: id.into() },
            &context(),
            &mut actions,
        )
        .unwrap();
        assert!(sent(&actions).iter().any(|message| matches!(
            message,
            OutboundSip::Bye { dialog, .. } if dialog.call_id == *ims
        )));
    }
    assert_eq!(calls.len(), 0);
}

fn mobile_call(direction: LiveVoiceDirection, offer: MediaOffer) -> LiveVoiceCall {
    let relay = sockets(1);
    LiveVoiceCall {
        direction,
        dialog: DialogIds {
            call_id: "ims-1".into(),
            local_tag: "local".into(),
            remote_tag: None,
            cseq: 1,
        },
        callee_uri: "sip:+601112023012@ims.example;user=phone".into(),
        invite_branch: "z9hG4bKearly".into(),
        initial_invite: None,
        internal_offer: offer,
        operator_local: relay.operator_local,
        internal_local: relay.internal_local,
        pending_relay: Some(relay.relay),
        active_relay: None,
        ip_answer_wait_armed: false,
        operator_answered: false,
        next_cseq: 2,
        pending_operator_reinvite: None,
        pending_asterisk_reinvite: false,
        pending_video_relay: None,
        active_video_relay: None,
        operator_video_local: None,
        internal_video_local: None,
        pending_media_rollback: None,
        renegotiation_deadline: None,
        early_answer: None,
        transfer: None,
        transfer_deadline: None,
    }
}

#[test]
fn empty_final_answer_reuses_early_provisional_answer() {
    let mut call = mobile_call(LiveVoiceDirection::MobileOriginated, plain_offer(local(40000)));
    let mut starts = Vec::new();
    let early =
        prepare_operator_media(&mut call, plain_sdp(50000).as_bytes(), &mut starts).unwrap();
    call.early_answer = Some(early.clone());
    assert!(early.contains("m=audio"));
    assert_eq!(
        prepare_final_operator_media(&mut call, b"", &mut starts).unwrap(),
        early
    );
}

#[test]
fn operator_answer_activates_relay_and_maps_dtmf_payload() {
    let mut call = mobile_call(
        LiveVoiceDirection::MobileOriginated,
        test_audio_offer(local(40000), MediaDirection::SendRecv),
    );
    let mut starts = Vec::new();
    let answer = prepare_operator_media(
        &mut call,
        audio_sdp(50000, 96, MediaDirection::SendRecv).as_bytes(),
        &mut starts,
    )
    .unwrap();
    assert!(answer.contains(&format!("m=audio {} RTP/AVP 0 101", call.internal_local.port)));
    assert!(call.active_relay.is_some());
    assert_eq!(starts.len(), 1);
    assert_eq!(starts[0].operator_remote, local(50000));
    assert_eq!(starts[0].internal_remote, local(40000));
    assert!(starts[0]
        .mappings
        .iter()
        .any(|mapping| mapping.operator == 96 && mapping.internal == 101));
    assert!(arm_first_rtp_ip_answer(&mut call).is_some());
    assert!(arm_first_rtp_ip_answer(&mut call).is_none());
}

#[test]
fn asterisk_answer_activates_mt_relay_and_maps_dtmf_payload() {
    let mut offer = test_audio_offer(local(50000), MediaDirection::SendRecv);
    offer.audio =
        parse_audio_sdp(audio_sdp(50000, 96, MediaDirection::SendRecv).as_bytes()).unwrap();
    offer.dtmf.rtp_event = Some(RtpTelephoneEvent {
        payload_type: 96,
        clock_rate: 8000,
        events: Some("0-16".into()),
    });
    let mut call = mobile_call(LiveVoiceDirection::MobileTerminated, offer);
    call.initial_invite = Some(Vec::new());
    let mut starts = Vec::new();
    let answer = prepare_incoming_media(
        &mut call,
        audio_sdp(40000, 101, MediaDirection::SendRecv).as_bytes(),
        &mut starts,
    )
    .unwrap();
    assert!(answer.contains(&format!("m=audio {} RTP/AVP 0 96", call.operator_local.port)));
    assert!(call.active_relay.is_some());
    assert!(starts[0]
        .mappings
        .iter()
        .any(|mapping| mapping.operator == 96 && mapping.internal == 101));
}

#[test]
fn rejected_video_reinvite_restores_confirmed_audio_relay() {
    let mut call = mobile_call(LiveVoiceDirection::MobileOriginated, plain_offer(local(40000)));
    call.pending_relay = None;
    call.active_relay = Some(1);
    call.operator_answered = true;
    call.pending_asterisk_reinvite = true;
    call.renegotiation_deadline = Some(1_000 + REINVITE_TIMEOUT_MS);
    let confirmed_operator_local = call.operator_local;
    let confirmed_internal_local = call.internal_local;

    let mut upgraded = plain_offer(local(40010));
    upgraded.video = Some(VideoOffer {
        description: VideoMediaDescription {
            connection_addr: None,
            addr_type: None,
            media_port: 40012,
            payload_type: 99,
            codec: "H264".to_string(),
            clock_rate: 90000,
            fmtp: Some("packetization-mode=1;profile-level-id=42e01f".to_string()),
            direction: MediaDirection::SendRecv,
        },
        endpoint: local(40012),
    });
    call.stage_media_update(upgraded, sockets(2), Some(sockets(3)));
    assert_eq!(call.operator_local, sockets(2).operator_local);
    assert_eq!(call.pending_video_relay, Some(3));

    call.pending_asterisk_reinvite = false;
    call.renegotiation_deadline = None;
    call.rollback_media_update();
    assert_eq!(call.internal_offer, plain_offer(local(40000)));
    assert_eq!(call.operator_local, confirmed_operator_local);
    assert_eq!(call.internal_local, confirmed_internal_local);
    assert!(call.active_relay.is_some());
    assert!(call.pending_relay.is_none());
    assert!(call.active_video_relay.is_none());
    assert!(call.pending_video_relay.is_none());
}

fn mt_invite(call_id: &str, body: &str) -> Vec<u8> {
    format!(
        "INVITE sip:line@127.0.0.1 SIP/2.0\r\nVia: SIP/2.0/UDP 127.0.0.1:5060;branch=z9hG4bKmt\r\nFrom: <sip:+441234567890@ims.example>;tag=remote\r\nTo: <sip:line@ims.example>\r\nContact: <sip:+441234567890@10.0.0.1:5060>\r\nCall-ID: {call_id}\r\nCSeq: 7 INVITE\r\nContent-Type: application/sdp\r\nContent-Length: {}\r\n\r\n{body}",
        body.len()
    )
    .into_bytes()
}

#[test]
fn incoming_call_is_read_announced_and_ended() {
    let mut calls = VoiceCalls::new();
    let body = audio_sdp(50000, 96, MediaDirection::SendRecv);
    let request = mt_invite("ims-mt-1", &body);
    let (owner, task, _) = frame(&mut calls, &request);
    assert_eq!(owner, None);
    assert_eq!(task, FrameTask::Incoming);

    let dialog = read_invite_dialog(&request).unwrap();
    assert_eq!(dialog.remote_tag, "remote");
    assert_eq!(dialog.cseq, 7);

    let no_link = TrunkLink { available: false, ..link() };
    assert_eq!(calls.decide_incoming(&request, no_link), InviteDecision::Reject(480));
    let offer = match calls.decide_incoming(&request, link()) {
        InviteDecision::Bind(offer) => offer,
        other => panic!("unexpected decision {other:?}"),
    };
    let mut actions = Vec::new();
    calls.begin_incoming_call(
        "ims-mt-1".to_string(),
        &request,
        "local".to_string(),
        Some("sip:+441234567890@ims.example"),
        "sip:line@127.0.0.1:5060",
        offer,
        sockets(1),
        None,
        false,
        &mut actions,
    );
    assert!(events(&actions).iter().any(|event| matches!(
        event,
        OperatorEvent::Incoming { call_id, .. } if call_id == "ims-mt-1"
    )));
    assert_eq!(calls.len(), 1);

    let bye = b"BYE sip:line@127.0.0.1 SIP/2.0\r\nVia: SIP/2.0/UDP 127.0.0.1:5060;branch=z9hG4bKbye\r\nFrom: <sip:+441234567890@ims.example>;tag=remote\r\nTo: <sip:line@ims.example>;tag=local\r\nCall-ID: ims-mt-1\r\nCSeq: 8 BYE\r\nContent-Length: 0\r\n\r\n";
    let (owner, _, actions) = frame(&mut calls, bye);
    assert_eq!(owner.as_deref(), Some("ims-mt-1"));
    assert!(events(&actions).contains(&&OperatorEvent::Ended { call_id: "ims-mt-1".into() }));
    assert_eq!(calls.len(), 0);
}

fn transfer(
    calls: &mut VoiceCalls,
    id: &str,
    context: &CommandContext,
) -> Result<Vec<CallAction>, VolteError> {
    let command =
        OperatorCommand::TransferCall { call_id: id.to_string(), refer_to: "+441234500000".into() };
    let mut actions = Vec::new();
    handle_operator_command_inner(calls, &command, context, &mut actions)?;
    Ok(actions)
}

#[test]
fn one_transfer_is_asked_for_at_a_time() {
    let mut calls = VoiceCalls::new();
    let ims = start(&mut calls, "a", "+441234567891", 40000, 1);
    let code_of = |result: Result<Vec<CallAction>, VolteError>| result.unwrap_err().code();
    assert_eq!(code_of(transfer(&mut calls, "b", &context())), "volte_transfer_call_unknown");
    assert_eq!(code_of(transfer(&mut calls, "a", &context())), "volte_transfer_call_not_confirmed");
    let body = audio_sdp(50000, 96, MediaDirection::SendRecv);
    frame(&mut calls, &response(&ims, 1, 200, "remote", &body));

    let before = calls.get("a").unwrap().next_cseq;
    let unwritable = CommandContext { unwritable: Some("bad".to_string()), ..context() };
    let error = transfer(&mut calls, "a", &unwritable).unwrap_err();
    assert_eq!(error.to_string(), "volte_transfer_request_invalid:bad");
    assert_eq!(calls.get("a").unwrap().next_cseq, before + 1);
    assert_eq!(calls.get("a").unwrap().transfer, None);

    let refer = calls.refer_request("a", "+441234500000", "ims.example").unwrap();
    let actions = transfer(&mut calls, "a", &context()).unwrap();
    assert_eq!(sent(&actions), vec![&refer]);
    let call = calls.get("a").unwrap();
    assert_eq!(
        call.transfer,
        Some(DialogTransfer { refer_cseq: before + 1, finished: false })
    );
    assert_eq!(call.transfer_deadline, Some(1_000 + REFER_RESPONSE_TIMEOUT_MS));
    assert_eq!(code_of(transfer(&mut calls, "a", &context())), "volte_transfer_pending");

    let mut actions = Vec::new();
    calls.expire_renegotiations(999 + REFER_RESPONSE_TIMEOUT_MS, &mut actions);
    assert_eq!(code_of(transfer(&mut calls, "a", &context())), "volte_transfer_pending");
    calls.expire_renegotiations(1_000 + REFER_RESPONSE_TIMEOUT_MS, &mut actions);
    assert!(events(&actions)
        .contains(&&OperatorEvent::TransferResponse { call_id: "a".into(), status: 408 }));
    assert!(transfer(&mut calls, "a", &context()).is_ok());

    calls.on_refer_response("a", 202, Ok(false), &mut actions).unwrap();
    assert_eq!(code_of(transfer(&mut calls, "a", &context())), "volte_transfer_pending");
    calls.on_refer_response("a", 603, Ok(true), &mut actions).unwrap();
    assert!(transfer(&mut calls, "a", &context()).is_ok());
}

#[test]
fn outgoing_call_offers_the_sockets_on_the_operators_side() {
    let offer = test_audio_offer(local(40000), MediaDirection::SendRecv);
    let body = outgoing_body(&offer, sockets(1), None);
    assert!(body.contains("m=audio 20002 "));
    assert!(!body.contains("m=video"));
}

#[test]
fn unsent_answers_are_taken_back() {
    let mut calls = VoiceCalls::new();
    let request = mt_invite("ims-mt-1", &audio_sdp(50000, 96, MediaDirection::SendRecv));
    let begin = |calls: &mut VoiceCalls, immediately| {
        let offer = match calls.decide_incoming(&request, link()) {
            InviteDecision::Bind(offer) => offer,
            other => panic!("unexpected decision {other:?}"),
        };
        let mut actions = Vec::new();
        calls.begin_incoming_call(
            "ims-mt-1".to_string(),
            &request,
            "local".to_string(),
            None,
            "sip:line@127.0.0.1:5060",
            offer,
            sockets(1),
            None,
            immediately,
            &mut actions,
        );
        actions
    };
    for (immediately, sent) in [(false, 0), (true, 0), (true, 1)] {
        let mut actions = begin(&mut calls, immediately);
        assert_eq!(calls.len(), 1);
        calls.unsent(actions.split_off(sent + 1));
        assert_eq!(calls.len(), 0);
    }

    begin(&mut calls, false);
    let bye = b"BYE sip:line@127.0.0.1 SIP/2.0\r\nCall-ID: ims-mt-1\r\nCSeq: 8 BYE\r\n\r\n";
    let (_, _, mut actions) = frame(&mut calls, bye);
    assert_eq!(calls.len(), 0);
    calls.unsent(actions.split_off(1));
    assert_eq!(calls.get("ims-mt-1").unwrap().dialog.call_id, "ims-mt-1");
    let (_, _, actions) = frame(&mut calls, bye);
    assert!(events(&actions).contains(&&OperatorEvent::Ended { call_id: "ims-mt-1".into() }));
    assert_eq!(calls.len(), 0);
}

#[test]
fn unusable_answer_keeps_its_call_until_the_operator_was_told() {
    let mut calls = VoiceCalls::new();
    let ims = start(&mut calls, "a", "+441234567891", 40000, 1);
    let answer = response(&ims, 1, 200, "remote", "v=0\r\n");
    let (_, _, mut actions) = frame(&mut calls, &answer);
    assert_eq!(calls.len(), 0);
    assert_eq!(sent(&actions).len(), 2);
    calls.unsent(actions.split_off(2));
    let call = calls.get("a").unwrap();
    assert!(call.operator_answered);
    assert_eq!(call.dialog.remote_tag.as_deref(), Some("remote"));
}

#[test]
fn invite_without_relay_is_refused_or_left_unanswered() {
    let bind = RelayFailure::Bind("in use".to_string());
    let local_addr = RelayFailure::LocalAddr("gone".to_string());
    assert_eq!(refuse_without_relay(false, &bind), Ok(500));
    let error = refuse_without_relay(true, &bind).unwrap_err();
    assert_eq!(error.to_string(), "vilte_rtp_bind_failed:in use");
    let error = refuse_without_relay(false, &local_addr).unwrap_err();
    assert_eq!(error.to_string(), "volte_rtp_local_addr_failed:gone");
    assert_eq!(relay_error(true, &local_addr).code(), "vilte_rtp_local_addr_failed");
    assert_eq!(relay_error(false, &bind).code(), "volte_rtp_bind_failed");
}

#[test]
fn full_line_is_busy() {
    let mut calls = VoiceCalls::new();
    start(&mut calls, "a", "+441234567891", 40000, 1);
    start(&mut calls, "b", "+441234567892", 40002, 2);
    let request = mt_invite("ims-mt-2", &audio_sdp(50000, 96, MediaDirection::SendRecv));
    assert_eq!(calls.decide_incoming(&request, link()), InviteDecision::Reject(486));
}

#[test]
fn commands_need_a_session_and_a_call() {
    let command = OperatorCommand::HangupCall { call_id: "none".into() };
    assert_eq!(
        admit_command(None, &command, &context()).unwrap_err().code(),
        "volte_runtime_not_registered"
    );
    let mut calls = VoiceCalls::new();
    let mut actions = Vec::new();
    assert!(
        handle_operator_command_inner(&mut calls, &command, &context(), &mut actions).is_err()
    );
    assert!(actions.is_empty());
}

#[test]
fn failed_start_is_reported_to_the_trunk() {
    let mut calls = VoiceCalls::new();
    let command = OperatorCommand::StartCall {
        call_id: "gone".into(),
        callee: "+441234567891".into(),
        offer: plain_offer(local(40000)),
    };
    let mut actions = Vec::new();
    command_failed(&mut calls, &command, &VolteError::new("volte_channel_send_failed"), &mut actions);
    assert!(!events(&actions).is_empty());
}

#[test]
fn unanswered_renegotiation_times_out_and_keeps_the_call() {
    let mut calls = VoiceCalls::new();
    let ims = start(&mut calls, "a", "+441234567891", 40000, 1);
    let answer = audio_sdp(50000, 96, MediaDirection::SendRecv);
    frame(&mut calls, &response(&ims, 1, 200, "remote", &answer));
    let confirmed = calls.get("a").unwrap().internal_local;
    let mut actions = Vec::new();
    calls
        .renegotiate(
            "a",
            test_audio_offer(local(40006), MediaDirection::SendRecv),
            sockets(4),
            None,
            1_000,
            &mut actions,
        )
        .unwrap();
    let mut actions = Vec::new();
    calls.expire_renegotiations(1_000 + REINVITE_TIMEOUT_MS - 1, &mut actions);
    assert!(actions.is_empty());
    calls.expire_renegotiations(1_000 + REINVITE_TIMEOUT_MS, &mut actions);
    assert_eq!(
        events(&actions),
        vec![&OperatorEvent::Rejected { call_id: "a".into(), status: 408 }]
    );
    assert_eq!(calls.get("a").unwrap().internal_local, confirmed);
    let _: &SdpAudioDescription = &calls.get("a").unwrap().internal_offer.audio;
}
