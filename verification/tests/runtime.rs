use volte_ims::errors::{code, VolteError};
use volte_ims::runtime::{
    ImsServiceState, RegistrationMode, VoltePhase, VolteProfileCandidate, VolteProfileSource,
    VolteRecoveryState, VolteRuntime, VolteRuntimeStatus, VolteSnapshot, VolteStage,
    MAX_CONNECTION_ATTEMPTS, MAX_PROFILE_ATTEMPT_RESULTS,
};

const NOW: &str = "2026-01-01T00:00:00+00:00";

fn update(rt: &mut VolteRuntime, change: impl FnOnce(&mut VolteSnapshot)) {
    change(&mut rt.snapshot);
}

#[test]
fn stage_strings_match_frontend_contract() {
    assert_eq!(VolteStage::Disabled.as_str(), "disabled");
    assert_eq!(VolteStage::Starting.as_str(), "starting");
    assert_eq!(VolteStage::Identity.as_str(), "identity");
    assert_eq!(VolteStage::CarrierProfile.as_str(), "carrier_profile");
    assert_eq!(VolteStage::IdentityAka.as_str(), "identity_aka");
    assert_eq!(VolteStage::Radio.as_str(), "radio");
    assert_eq!(VolteStage::Pcscf.as_str(), "pcscf");
    assert_eq!(VolteStage::Modem.as_str(), "modem");
    assert_eq!(VolteStage::Bearer.as_str(), "bearer");
    assert_eq!(VolteStage::RegisterIpsec.as_str(), "register_ipsec");
    assert_eq!(VolteStage::RegisterUdp.as_str(), "register_udp");
    assert_eq!(VolteStage::Registered.as_str(), "registered");
    assert_eq!(VolteStage::Stopping.as_str(), "stopping");
}

#[test]
fn phase_strings_match_frontend_contract() {
    assert_eq!(VoltePhase::Disabled.as_str(), "disabled");
    assert_eq!(VoltePhase::Starting.as_str(), "starting");
    assert_eq!(VoltePhase::Registered.as_str(), "registered");
    assert_eq!(VoltePhase::Degraded.as_str(), "degraded");
    assert_eq!(VoltePhase::Stopping.as_str(), "stopping");
}

#[test]
fn registration_mode_strings_match_frontend_contract() {
    assert_eq!(RegistrationMode::Unselected.as_str(), "");
    assert_eq!(RegistrationMode::Ipsec.as_str(), "ipsec");
    assert_eq!(RegistrationMode::Udp.as_str(), "udp");
}

#[test]
fn recovery_state_strings_are_stable() {
    assert_eq!(VolteRecoveryState::Idle.as_str(), "idle");
    assert_eq!(VolteRecoveryState::WaitingModem.as_str(), "waiting_modem");
    assert_eq!(
        VolteRecoveryState::RestartingBaseband.as_str(),
        "restarting_baseband"
    );
    assert_eq!(VolteRecoveryState::Connecting.as_str(), "connecting");
    assert_eq!(VolteRecoveryState::Registered.as_str(), "registered");
    assert_eq!(VolteRecoveryState::Exhausted.as_str(), "exhausted");
}

#[test]
fn default_snapshot_is_disabled_and_unregistered() {
    let s = VolteSnapshot::default();
    assert_eq!(s.phase, VoltePhase::Disabled);
    assert_eq!(s.stage, VolteStage::Disabled);
    assert!(!s.registered());
    let status = VolteRuntimeStatus::from(&s);
    assert_eq!(status.phase, "disabled");
    assert_eq!(status.stage, "disabled");
    assert_eq!(status.registration_mode, "");
    assert!(!status.registered);
    assert_eq!(status.recovery_state, "idle");
    assert_eq!(status.retry_max, 3);
    assert_eq!(status.modem_restart_max, 3);
}

#[test]
fn profile_attempt_records_requested_and_effective_identity() {
    let mut rt = VolteRuntime::new();
    let candidate = VolteProfileCandidate {
        source: VolteProfileSource::Database,
        profile_id: Some("user-profile-a".to_string()),
    };

    rt.begin_profile_attempt(2, &candidate);
    let started = rt.status();
    assert_eq!(started.profile_candidate_index, Some(2));
    assert_eq!(
        started.profile_candidate_source.as_deref(),
        Some("database")
    );
    assert_eq!(
        started.profile_candidate_profile_id.as_deref(),
        Some("user-profile-a")
    );
    assert!(started.profile_id.is_none());
    assert!(started.profile_attempt_results.is_empty());

    update(&mut rt, |snapshot| {
        snapshot.profile_source = Some("derived".to_string());
        snapshot.profile_id = Some("derived-00101".to_string());
        snapshot.profile_fallback_reason = Some("database_profile_not_found".to_string());
    })
    ;
    let error = VolteError::with_detail(
        code::CARRIER_PROFILE_MISSING,
        "fixture",
    );
    rt.finish_profile_attempt(2, &candidate, "failed", Some(&error), NOW);

    let result = rt
        .status()
        
        .profile_attempt_results
        .into_iter()
        .next()
        .expect("profile attempt result");
    assert_eq!(result.index, 2);
    assert_eq!(result.requested_source, "database");
    assert_eq!(
        result.requested_profile_id.as_deref(),
        Some("user-profile-a")
    );
    assert_eq!(result.effective_source.as_deref(), Some("derived"));
    assert_eq!(
        result.effective_profile_id.as_deref(),
        Some("derived-00101")
    );
    assert_eq!(
        result.fallback_reason.as_deref(),
        Some("database_profile_not_found")
    );
    assert_eq!(result.outcome, "failed");
    assert_eq!(
        result.error_code.as_deref(),
        Some(code::CARRIER_PROFILE_MISSING)
    );
}

#[test]
fn profile_attempt_batch_clears_history_and_history_is_bounded() {
    let mut rt = VolteRuntime::new();
    let candidate =
        VolteProfileCandidate::automatic(VolteProfileSource::Derived);

    for index in 1..=(MAX_PROFILE_ATTEMPT_RESULTS as u32 + 3) {
        rt.begin_profile_attempt(index, &candidate);
        rt.finish_profile_attempt(index, &candidate, "failed", None, NOW);
    }
    let status = rt.status();
    assert_eq!(
        status.profile_attempt_results.len(),
        MAX_PROFILE_ATTEMPT_RESULTS
    );
    assert_eq!(status.profile_attempt_results[0].index, 4);

    rt.begin_profile_attempt_batch();
    let cleared = rt.status();
    assert!(cleared.profile_candidate_index.is_none());
    assert!(cleared.profile_candidate_source.is_none());
    assert!(cleared.profile_candidate_profile_id.is_none());
    assert!(cleared.profile_attempt_results.is_empty());

    rt.begin_profile_attempt(1, &candidate);
    let restarted = rt.status();
    assert_eq!(restarted.profile_candidate_index, Some(1));
    assert_eq!(restarted.profile_attempt_results.len(), 0);
}

#[test]
fn profile_switch_clears_session_ownership_without_cancelling_the_batch() {
    let mut rt = VolteRuntime::new();
    let candidate =
        VolteProfileCandidate::automatic(VolteProfileSource::Database);
    rt.begin_profile_attempt(1, &candidate);
    update(&mut rt, |snapshot| {
        snapshot.phase = VoltePhase::Registered;
        snapshot.stage = VolteStage::Registered;
        snapshot.registration_mode = RegistrationMode::Ipsec;
        snapshot.pcscf = Some("192.0.2.10:5060".to_string());
        snapshot.session_started_at = Some("started".to_string());
        snapshot.registered_at = Some("registered".to_string());
        snapshot.last_register_refresh_at = Some("refresh".to_string());
        snapshot.last_rx_at = Some("rx".to_string());
        snapshot.last_tx_at = Some("tx".to_string());
        snapshot.data_path_mode = Some("native".to_string());
        snapshot.secondary_qmi_device = Some("/dev/cdc-wdm9".to_string());
        snapshot.secondary_qmi_channel = Some("DATA6_CNTL".to_string());
        snapshot.bearer_interface = Some("rmnet_ims0".to_string());
        snapshot.bearer_ip_type = Some("ipv6".to_string());
        snapshot.bearer_path = Some("/bearer/ims".to_string());
        snapshot.at_cid = Some(5);
        snapshot.current_ip_family = Some("ipv6".to_string());
        snapshot.identity_source = Some("isim".to_string());
        snapshot.public_uri = Some("sip:old@ims.example".to_string());
        snapshot.associated_uris = vec!["sip:old@ims.example".to_string()];
        snapshot.voice_service = ImsServiceState::RegistrarAccepted.as_str();
        snapshot.voice_service_code = "ims_voice_service_available";
        snapshot.voice_service_reason = Some("old".to_string());
        snapshot.voice_alternative_service = Some("iwlan".to_string());
        snapshot.profile_id = Some("old-profile".to_string());
        snapshot.profile_source = Some("database".to_string());
        snapshot.profile_fallback_reason = Some("old-fallback".to_string());
        snapshot.usim_aid = Some("old-usim".to_string());
        snapshot.isim_aid = Some("old-isim".to_string());
        snapshot.retry_attempt = 1;
        snapshot.retry_max = 3;
        snapshot.reconnect_count = 9;
    })
    ;
    rt.finish_profile_attempt(1, &candidate, "failed", None, NOW);
    let generation = rt.generation();

    rt.prepare_profile_switch();

    assert_eq!(
        rt.generation(),
        generation,
        "slot changes stay in one batch"
    );
    let status = rt.status();
    assert_eq!(status.phase, "starting");
    assert_eq!(status.stage, "starting");
    assert_eq!(status.registration_mode, "");
    assert!(status.pcscf.is_none());
    assert!(status.session_started_at.is_none());
    assert!(status.registered_at.is_none());
    assert!(status.last_register_refresh_at.is_none());
    assert!(status.last_rx_at.is_none());
    assert!(status.last_tx_at.is_none());
    assert!(status.data_path_mode.is_none());
    assert!(status.secondary_qmi_device.is_none());
    assert!(status.secondary_qmi_channel.is_none());
    assert!(status.bearer_interface.is_none());
    assert!(status.bearer_ip_type.is_none());
    assert!(status.current_ip_family.is_none());
    assert!(status.identity_source.is_none());
    assert!(status.public_uri.is_none());
    assert!(status.associated_uris.is_empty());
    assert_eq!(status.voice_service, "unknown");
    assert!(status.voice_service_reason.is_none());
    assert!(status.voice_alternative_service.is_none());
    assert!(status.profile_id.is_none());
    assert!(status.profile_source.is_none());
    assert!(status.profile_fallback_reason.is_none());
    assert!(status.usim_aid.is_none());
    assert!(status.isim_aid.is_none());
    assert_eq!(status.retry_attempt, 1);
    assert_eq!(status.retry_max, 3);
    assert_eq!(status.reconnect_count, 9);
    assert_eq!(status.profile_attempt_results.len(), 1);
    let snapshot = rt.snapshot();
    assert!(snapshot.bearer_path.is_none());
    assert!(snapshot.at_cid.is_none());
}

#[test]
fn a_new_manual_retry_batch_restarts_at_slot_one() {
    let mut rt = VolteRuntime::new();
    let candidate =
        VolteProfileCandidate::automatic(VolteProfileSource::Derived);
    rt.begin_profile_attempt(3, &candidate);
    rt.finish_profile_attempt(3, &candidate, "failed", None, NOW);
    update(&mut rt, |snapshot| snapshot.retry_attempt = 3);

    rt.begin_profile_attempt_batch();
    update(&mut rt, |snapshot| snapshot.retry_attempt = 0);
    rt.begin_profile_attempt(1, &candidate);
    update(&mut rt, |snapshot| snapshot.retry_attempt = 1);

    let status = rt.status();
    assert_eq!(status.retry_attempt, 1);
    assert_eq!(status.profile_candidate_index, Some(1));
    assert!(status.profile_attempt_results.is_empty());
}

#[test]
fn reset_runtime_bumps_generation_and_disables() {
    let mut rt = VolteRuntime::new();
    let g0 = rt.generation();
    update(&mut rt, |s| {
        s.phase = VoltePhase::Registered;
        s.stage = VolteStage::Registered;
        s.reconnect_count = 5;
    })
    ;
    let snap = rt.reset_runtime("volte_disabled");
    assert_eq!(snap.phase, VoltePhase::Disabled);
    assert_eq!(snap.stage, VolteStage::Disabled);
    assert_eq!(
        snap.reconnect_count, 5,
        "reconnect count is preserved across reset"
    );
    assert_eq!(snap.last_error.as_deref(), Some("volte_disabled"));
    assert_eq!(rt.generation(), g0 + 1);
}

#[test]
fn attempts_capture_what_the_snapshot_knows() {
    let mut rt = VolteRuntime::new();
    update(&mut rt, |s| {
        s.at_cid = Some(5);
        s.qmi_device = Some("/dev/cdc-wdm0".to_string());
        s.bearer_interface = Some("wwan0".to_string());
        s.bearer_path = Some("/bearer/1".to_string());
        s.pcscf = Some("192.0.2.1".to_string());
    });
    let error = VolteError::with_detail(code::COMMAND_FAILED, "mmcli:1");
    rt.record_attempt(VolteStage::Bearer, Some("ipv6"), "failed", Some(&error), None, NOW);
    rt.record_attempt(
        VolteStage::Pcscf,
        None,
        "started",
        Some(&error),
        Some("own detail".to_string()),
        NOW,
    );
    let attempts = rt.status().connection_attempts;
    assert_eq!(attempts.len(), 2);
    assert_eq!(attempts[0].sequence, 1);
    assert_eq!(attempts[0].stage, "bearer");
    assert_eq!(attempts[0].ip_family.as_deref(), Some("ipv6"));
    assert_eq!(attempts[0].outcome, "failed");
    assert_eq!(attempts[0].error_code.as_deref(), Some("volte_command_failed"));
    assert_eq!(attempts[0].detail.as_deref(), Some("mmcli:1"));
    assert_eq!(attempts[0].at_cid, Some(5));
    assert_eq!(attempts[0].qmi_device.as_deref(), Some("/dev/cdc-wdm0"));
    assert_eq!(attempts[0].interface.as_deref(), Some("wwan0"));
    assert_eq!(attempts[0].bearer_path.as_deref(), Some("/bearer/1"));
    assert_eq!(attempts[0].pcscf.as_deref(), Some("192.0.2.1"));
    assert_eq!(attempts[0].at, NOW);
    assert_eq!(attempts[1].sequence, 2);
    assert_eq!(attempts[1].detail.as_deref(), Some("own detail"));
}

#[test]
fn attempt_history_keeps_the_newest() {
    let mut rt = VolteRuntime::new();
    for _ in 0..MAX_CONNECTION_ATTEMPTS + 5 {
        rt.record_attempt(VolteStage::Pcscf, None, "started", None, None, NOW);
    }
    let attempts = rt.status().connection_attempts;
    assert_eq!(attempts.len(), MAX_CONNECTION_ATTEMPTS);
    assert_eq!(attempts[0].sequence, 6);
    assert_eq!(attempts[MAX_CONNECTION_ATTEMPTS - 1].sequence, 105);
}

#[test]
fn attempt_numbers_stop_at_the_largest() {
    let mut rt = VolteRuntime::new();
    rt.record_attempt(VolteStage::Pcscf, None, "started", None, None, NOW);
    rt.snapshot.connection_attempts[0].sequence = u32::MAX;
    rt.record_attempt(VolteStage::Pcscf, None, "started", None, None, NOW);
    assert_eq!(rt.snapshot.connection_attempts[1].sequence, u32::MAX);
}

#[test]
fn bearer_and_signaling_follow_stage_and_mode() {
    let mut s = VolteSnapshot::default();
    assert!(!s.bearer_up());
    assert!(!s.signaling_ready());
    for (stage, up) in [
        (VolteStage::Modem, false),
        (VolteStage::Stopping, false),
        (VolteStage::Bearer, true),
        (VolteStage::BearerDual, true),
        (VolteStage::IpConfig, true),
        (VolteStage::RegisterUdp, true),
        (VolteStage::Registered, true),
    ] {
        s.stage = stage;
        assert_eq!(s.bearer_up(), up, "{stage:?}");
    }
    s.registration_mode = RegistrationMode::Udp;
    assert!(s.signaling_ready());
}

#[test]
fn reset_without_a_reason_leaves_no_error() {
    let mut rt = VolteRuntime::new();
    update(&mut rt, |s| {
        s.last_error = Some("old".to_string());
        s.register_refresh_count = 7;
        s.sent_count = 3;
    });
    let snap = rt.reset_runtime("");
    assert!(snap.last_error.is_none());
    assert_eq!(snap.register_refresh_count, 7);
    assert_eq!(snap.sent_count, 0);
}
