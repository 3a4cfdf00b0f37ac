use padproxy::power::{list_batteries, parse_power_supply_uevent, BatteryInfo};

#[test]
fn parses_device_scoped_controller_battery() {
    let uevent = "\
DEVTYPE=power_supply
POWER_SUPPLY_NAME=hid-001122-battery
POWER_SUPPLY_TYPE=Battery
POWER_SUPPLY_STATUS=Discharging
POWER_SUPPLY_PRESENT=1
POWER_SUPPLY_ONLINE=1
POWER_SUPPLY_CAPACITY=72
POWER_SUPPLY_SCOPE=Device
POWER_SUPPLY_MODEL_NAME=Wireless Controller
";
    let info = parse_power_supply_uevent("hid-001122-battery", uevent).unwrap();
    assert_eq!(
        info,
        BatteryInfo {
            name: "hid-001122-battery".to_string(),
            model: Some("Wireless Controller".to_string()),
            status: Some("Discharging".to_string()),
            capacity: Some(72),
            capacity_level: None,
            present: Some(true),
            online: Some(true),
        }
    );
}

#[test]
fn ignores_system_battery_and_mains_adapter() {
    let laptop = "\
POWER_SUPPLY_NAME=BAT0
POWER_SUPPLY_TYPE=Battery
POWER_SUPPLY_SCOPE=System
POWER_SUPPLY_CAPACITY=55
";
    assert!(parse_power_supply_uevent("BAT0", laptop).is_none());

    let mains = "\
POWER_SUPPLY_NAME=AC
POWER_SUPPLY_TYPE=Mains
POWER_SUPPLY_ONLINE=1
";
    assert!(parse_power_supply_uevent("AC", mains).is_none());
}

#[test]
fn falls_back_to_node_name_and_capacity_level() {
    let uevent = "\
POWER_SUPPLY_TYPE=Battery
POWER_SUPPLY_SCOPE=Device
POWER_SUPPLY_CAPACITY_LEVEL=Low
";
    let info = parse_power_supply_uevent("hid-aabb-battery", uevent).unwrap();
    assert_eq!(info.name, "hid-aabb-battery");
    assert_eq!(info.capacity, None);
    assert_eq!(info.capacity_level.as_deref(), Some("Low"));
    assert_eq!(info.model, None);
}

#[test]
fn later_fields_win_and_capacity_must_fit_a_byte() {
    let uevent = "POWER_SUPPLY_TYPE=battery\nPOWER_SUPPLY_SCOPE=DEVICE\nPOWER_SUPPLY_CAPACITY=300\nPOWER_SUPPLY_ONLINE=yes\nPOWER_SUPPLY_ONLINE=0\n";
    let info = parse_power_supply_uevent("node", uevent).unwrap();
    assert_eq!(info.capacity, None);
    assert_eq!(info.online, Some(false));
    let plus = parse_power_supply_uevent("n", "POWER_SUPPLY_TYPE=Battery\nPOWER_SUPPLY_SCOPE=Device\nPOWER_SUPPLY_CAPACITY=+007\n").unwrap();
    assert_eq!(plus.capacity, Some(7));
}

#[test]
fn lists_device_batteries_sorted_by_name() {
    let device = "POWER_SUPPLY_TYPE=Battery\nPOWER_SUPPLY_SCOPE=Device\n";
    let nodes = vec![
        ("hid-b".to_string(), device.to_string()),
        ("BAT0".to_string(), "POWER_SUPPLY_TYPE=Battery\nPOWER_SUPPLY_SCOPE=System\n".to_string()),
        ("hid-a".to_string(), device.to_string()),
    ];
    let batteries = list_batteries(&nodes);
    let names: Vec<&str> = batteries.iter().map(|b| b.name.as_str()).collect();
    assert_eq!(names, vec!["hid-a", "hid-b"]);
}
