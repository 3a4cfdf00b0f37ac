use padproxy::slots::{SlotError, SlotStore, DEFAULT_SELECTED_SLOT, SLOT_COUNT};

#[test]
fn assigns_selects_and_clears_device_slots() {
    let mut store = SlotStore::default();
    assert_eq!(store.selected_slot("device-1"), DEFAULT_SELECTED_SLOT);
    assert!(store.profile_for_slot("device-1", 1).is_none());

    store.assign_profile("device-1", 2, "nes").unwrap();
    assert_eq!(store.selected_slot("device-1"), 2);
    assert_eq!(store.profile_for_slot("device-1", 2), Some("nes"));

    store.select_slot("device-1", 4).unwrap();
    assert_eq!(store.selected_slot("device-1"), 4);

    store.clear_slot("device-1", 2).unwrap();
    assert!(store.profile_for_slot("device-1", 2).is_none());
    assert_eq!(store.selected_slot("device-1"), 4);
}

#[test]
fn rejects_slots_outside_supported_range() {
    let mut store = SlotStore::default();
    assert!(store.assign_profile("device-1", 0, "nes").is_err());
    assert!(store.select_slot("device-1", SLOT_COUNT + 1).is_err());
    assert!(store.clear_slot("", 1).is_err());
}

#[test]
fn reports_each_refusal() {
    let mut store = SlotStore::default();
    assert_eq!(store.assign_profile("dev", 9, "x"), Err(SlotError::InvalidSlot));
    assert_eq!(store.assign_profile("  ", 1, "x"), Err(SlotError::EmptyDeviceId));
    assert_eq!(store.assign_profile("dev", 1, " "), Err(SlotError::EmptyProfileId));
    assert_eq!(store.devices().len(), 0);
}

#[test]
fn clearing_the_last_slot_of_an_unselected_device_forgets_it() {
    let mut store = SlotStore::default();
    store.assign_profile("dev", 3, "game").unwrap();
    assert_eq!(store.devices().len(), 1);
    store.clear_slot("dev", 3).unwrap();
    // The device still has a selected slot, so it stays.
    assert_eq!(store.devices().len(), 1);
    assert_eq!(store.selected_slot("dev"), 3);
    assert_eq!(store.profile_for_slot("dev", 3), None);
}
