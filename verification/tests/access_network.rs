use volte_ims::access_network::normalize_modem_path;

#[test]
fn modem_path_accepts_full_paths_and_numeric_ids_only() {
    assert_eq!(
        normalize_modem_path("/org/freedesktop/ModemManager1/Modem/7"),
        Some("/org/freedesktop/ModemManager1/Modem/7".to_string())
    );
    assert_eq!(
        normalize_modem_path("7"),
        Some("/org/freedesktop/ModemManager1/Modem/7".to_string())
    );
    assert_eq!(normalize_modem_path("reader:7"), None);
    assert_eq!(normalize_modem_path("7\r\n/evil"), None);
}
