use volte_ims::errors::{code, VolteError};

#[test]
fn display_without_detail_is_bare_code() {
    assert_eq!(
        VolteError::new(code::IMSI_MISSING).to_string(),
        "volte_imsi_missing"
    );
}

#[test]
fn display_with_detail_uses_colon_suffix() {
    assert_eq!(
        VolteError::with_detail(code::COMMAND_FAILED, "mmcli").to_string(),
        "volte_command_failed:mmcli"
    );
}

#[test]
fn frontend_contract_substrings_present() {
    let contract = [
        code::IMSI_MISSING,
        code::RUNTIME_MM_BEARER_ROAMING_FORBIDDEN,
        code::DEPENDENCY_MISSING_IP,
        code::RUNTIME_MM_MODEM_WAIT_TIMEOUT,
        code::AKA_RES_EMPTY,
        code::USIM_AKA_FAILED,
        code::AKA_MATERIAL_INVALID,
    ];
    for c in contract {
        assert!(c.starts_with("volte_"), "unexpected code shape: {c}");
    }
    assert!("volte_at_timeout".starts_with("volte_at_"));
}
