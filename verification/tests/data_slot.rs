use volte_ims::data_slot::{select_data_slot_mode, DataSlotInputs, DataSlotMode};
use volte_ims::errors::code;

#[test]
fn volte_only_line_keeps_ims_on_primary_with_no_data_slot() {
    let mode = select_data_slot_mode(DataSlotInputs {
        data_requested: false,
        ..Default::default()
    })
    .unwrap();
    assert_eq!(mode, DataSlotMode::PrimaryImsOnly);
    assert!(mode.ims_on_primary());
    assert!(!mode.reserves_data_slot());
    assert_eq!(
        mode.allocation_message(),
        "IMS allocated to primary qmi0; DATA6 is reserved for data"
    );
    assert_eq!(mode.as_str(), "independent_wwan1");
}

#[test]
fn primary_data_never_moves_ims_to_data6() {
    let mode = select_data_slot_mode(DataSlotInputs {
        data_requested: true,
        secondary_endpoint_available: true,
        primary_data_active: true,
        secondary_data_active: false,
    })
    .unwrap();
    assert_eq!(mode, DataSlotMode::PrimaryImsSecondaryData);
    assert!(mode.ims_on_primary());
    assert!(mode.reserves_data_slot());
    assert_eq!(mode.as_str(), "secondary_qmi_data");
    assert!(
        mode.requires_primary_data_release(true),
        "user data on qmi0 has to be released so IMS can own that port"
    );
}

#[test]
fn secondary_data_keeps_ims_on_primary() {
    let mode = select_data_slot_mode(DataSlotInputs {
        data_requested: true,
        secondary_endpoint_available: true,
        primary_data_active: false,
        secondary_data_active: true,
    })
    .unwrap();
    assert_eq!(mode, DataSlotMode::PrimaryImsSecondaryData);
    assert!(mode.ims_on_primary());
    assert_eq!(mode.as_str(), "secondary_qmi_data");
    assert!(!mode.requires_primary_data_release(false));
}

#[test]
fn requested_data_without_an_active_bearer_reserves_data6() {
    let mode = select_data_slot_mode(DataSlotInputs {
        data_requested: true,
        secondary_endpoint_available: true,
        ..Default::default()
    })
    .unwrap();
    assert_eq!(mode, DataSlotMode::PrimaryImsSecondaryData);
    assert!(mode.ims_on_primary());
}

#[test]
fn both_slots_busy_releases_the_primary_instead_of_failing() {
    let mode = select_data_slot_mode(DataSlotInputs {
        data_requested: true,
        secondary_endpoint_available: true,
        primary_data_active: true,
        secondary_data_active: true,
    })
    .unwrap();
    assert_eq!(mode, DataSlotMode::PrimaryImsSecondaryData);
    assert!(mode.requires_primary_data_release(true));
}

#[test]
fn data_requested_without_a_secondary_endpoint_is_missing() {
    let error = select_data_slot_mode(DataSlotInputs {
        data_requested: true,
        secondary_endpoint_available: false,
        ..Default::default()
    })
    .unwrap_err();
    assert_eq!(error.code(), code::DATA_SLOT_MODE_MISSING);
}

#[test]
fn every_allocation_keeps_ims_on_the_modemmanager_port() {
    for data_requested in [false, true] {
        for primary_data_active in [false, true] {
            for secondary_data_active in [false, true] {
                let inputs = DataSlotInputs {
                    data_requested,
                    primary_data_active,
                    secondary_data_active,
                    secondary_endpoint_available: true,
                };
                let mode = select_data_slot_mode(inputs).expect("satisfiable");
                assert!(mode.ims_on_primary(), "{inputs:?}");
                assert_eq!(
                    mode.allocation_message(),
                    "IMS allocated to primary qmi0; DATA6 is reserved for data",
                    "{inputs:?}"
                );
            }
        }
    }
}

#[test]
fn a_volte_only_line_never_asks_to_release_primary_data() {
    assert!(!DataSlotMode::PrimaryImsOnly.requires_primary_data_release(true));
}
