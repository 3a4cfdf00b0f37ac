use padproxy::bluetooth::{bluetooth_address, is_mac_address};
use padproxy::devices::DeviceInfo;

fn device(uniq: &str, phys: &str) -> DeviceInfo {
    DeviceInfo {
        id: "id".to_string(),
        name: "Wireless Controller".to_string(),
        path: "/dev/input/event0".to_string(),
        device_kind: "physical".to_string(),
        phys: phys.to_string(),
        uniq: uniq.to_string(),
        bus: 0,
        vendor: 0,
        product: 0,
        version: 0,
        capabilities: Vec::new(),
    }
}

#[test]
fn recognizes_mac_addresses() {
    assert!(is_mac_address("a4:c1:38:9f:00:11"));
    assert!(is_mac_address("A4:C1:38:9F:00:11"));
    assert!(!is_mac_address("not-a-mac"));
    assert!(!is_mac_address("a4:c1:38:9f:00")); // too short
    assert!(!is_mac_address("a4:c1:38:9f:00:zz")); // non-hex
}

#[test]
fn resolves_address_from_uniq_or_phys() {
    assert_eq!(
        bluetooth_address(&device("a4:c1:38:9f:00:11", "")),
        Some("A4:C1:38:9F:00:11".to_string())
    );
    assert_eq!(
        bluetooth_address(&device("", "00:1a:7d:da:71:13/a4:c1:38:9f:00:11")),
        Some("A4:C1:38:9F:00:11".to_string())
    );
    assert_eq!(bluetooth_address(&device("usb-0000:00", "usb-phys")), None);
}

#[test]
fn mac_address_separators_must_be_colons() {
    assert!(!is_mac_address("a4-c1-38-9f-00-11"));
    assert!(!is_mac_address("a4:c1:38:9f:00:11:"));
    assert_eq!(bluetooth_address(&device("", "host/dev/a4:c1:38:9f:00:11")), None);
}
