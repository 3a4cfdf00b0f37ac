use padproxy::outputs::{
    normalize_output_type, output_device, output_devices, output_type_supported,
    supported_output_ids,
};

#[test]
fn normalizes_common_output_aliases() {
    assert_eq!(normalize_output_type("Xbox 360"), "xbox360");
    assert_eq!(normalize_output_type("xinput"), "xbox360");
    assert_eq!(normalize_output_type("DualShock 4"), "ds4");
    assert_eq!(normalize_output_type("Switch Pro"), "switchpro");
}

#[test]
fn reports_supported_outputs() {
    assert!(output_type_supported("xbox360"));
    assert!(output_type_supported("dualsense"));
    assert_eq!(
        output_device("xboxone").map(|output| output.label),
        Some("Xbox One / Series")
    );
}

#[test]
fn carries_distinct_usb_identities_per_output() {
    let ds4 = output_device("ds4").expect("ds4 descriptor");
    assert_eq!(ds4.vendor, 0x054c);
    assert_eq!(ds4.product, 0x09cc);
    assert_eq!(ds4.virtual_name, "PadProxy Virtual DualShock 4 Controller");

    let switchpro = output_device("switchpro").expect("switchpro descriptor");
    assert_eq!(switchpro.vendor, 0x057e);

    // Every supported output advertises a unique vendor/product pair.
    let mut identities: Vec<(u16, u16)> = output_devices()
        .iter()
        .map(|output| (output.vendor, output.product))
        .collect();
    identities.sort_unstable();
    let unique = identities.len();
    identities.dedup();
    assert_eq!(identities.len(), unique, "duplicate USB identity");
}

#[test]
fn lists_supported_output_ids() {
    let ids = supported_output_ids();
    assert!(ids.contains(&"xbox360"));
    assert_eq!(normalize_output_type("  PS5 "), "dualsense");
    assert!(output_device("nonexistent").is_none());
}
