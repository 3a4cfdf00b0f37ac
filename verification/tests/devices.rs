use padproxy::devices::{device_label, fallback_absolute_device, find_device, resolve_device_info, DeviceInfo};
use padproxy::linux::resolve_device;

fn device(id: &str, name: &str, path: &str) -> DeviceInfo {
    DeviceInfo {
        id: id.to_string(),
        name: name.to_string(),
        path: path.to_string(),
        device_kind: "physical".to_string(),
        phys: String::new(),
        uniq: String::new(),
        bus: 3,
        vendor: 0x045e,
        product: 0x028e,
        version: 0x114,
        capabilities: Vec::new(),
    }
}

#[test]
fn hardware_id_is_lower_case_hex() {
    assert_eq!(device("a", "b", "c").hardware_id(), "045e:028e");
}

#[test]
fn selects_devices_by_id_name_or_path() {
    let devices = vec![device("one", "Pad", "/dev/input/event1"), device("two", "Pad", "/dev/input/event2")];
    assert_eq!(find_device(&devices, "Pad"), Some(0));
    assert_eq!(find_device(&devices, "/dev/input/event2"), Some(1));
    assert_eq!(resolve_device_info(&devices, "two").map(|d| d.path), Some("/dev/input/event2".to_string()));
    assert_eq!(resolve_device(&devices, "one"), Some("/dev/input/event1".to_string()));
    assert_eq!(resolve_device(&devices, "/dev/input/event9"), Some("/dev/input/event9".to_string()));
    assert_eq!(resolve_device(&devices, "nope"), None);
}

#[test]
fn unknown_absolute_paths_become_path_devices() {
    let d = fallback_absolute_device("/dev/input/event-test").unwrap();
    assert_eq!(d.id, "path:/dev/input/event-test");
    assert_eq!(d.device_kind, "path");
    assert!(fallback_absolute_device("relative").is_none());
    assert_eq!(device_label(&d), "path:/dev/input/event-test");
    assert_eq!(device_label(&device("x", "Pad", "/p")), "Pad (x)");
}
