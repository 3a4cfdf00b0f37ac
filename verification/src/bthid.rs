//! The HID gamepad report used to present the controller to another host
//! (over Bluetooth HID or a USB gadget): its report descriptor and the
//! matching input report encoding.

use vstd::prelude::*;
use crate::gimx::{le16, GamepadState};

verus! {

/// Length of an encoded HID input report: 16-bit buttons, four `i16` axes and
/// two `u8` triggers.
pub const HID_REPORT_LEN: usize = 12;

/// Length of [`HID_REPORT_DESCRIPTOR`].
pub const HID_REPORT_DESCRIPTOR_LEN: usize = 60;

/// HID report descriptor for a standard gamepad: 16 buttons, X/Y/Rx/Ry sticks
/// (16-bit signed) and Z/Rz triggers (8-bit). The input report layout matches
/// [`encode_hid_report`].
pub const HID_REPORT_DESCRIPTOR: [u8; 60] = [
    0x05, 0x01, // Usage Page (Generic Desktop)
    0x09, 0x05, // Usage (Game Pad)
    0xA1, 0x01, // Collection (Application)
    0x05, 0x09, //   Usage Page (Button)
    0x19, 0x01, //   Usage Minimum (1)
    0x29, 0x10, //   Usage Maximum (16)
    0x15, 0x00, //   Logical Minimum (0)
    0x25, 0x01, //   Logical Maximum (1)
    0x75, 0x01, //   Report Size (1)
    0x95, 0x10, //   Report Count (16)
    0x81, 0x02, //   Input (Data,Var,Abs)
    0x05, 0x01, //   Usage Page (Generic Desktop)
    0x09, 0x30, //   Usage (X)
    0x09, 0x31, //   Usage (Y)
    0x09, 0x33, //   Usage (Rx)
    0x09, 0x34, //   Usage (Ry)
    0x16, 0x00, 0x80, //   Logical Minimum (-32768)
    0x26, 0xFF, 0x7F, //   Logical Maximum (32767)
    0x75, 0x10, //   Report Size (16)
    0x95, 0x04, //   Report Count (4)
    0x81, 0x02, //   Input (Data,Var,Abs)
    0x09, 0x32, //   Usage (Z)
    0x09, 0x35, //   Usage (Rz)
    0x15, 0x00, //   Logical Minimum (0)
    0x26, 0xFF, 0x00, //   Logical Maximum (255)
    0x75, 0x08, //   Report Size (8)
    0x95, 0x02, //   Report Count (2)
    0x81, 0x02, //   Input (Data,Var,Abs)
    0xC0, // End Collection
];

/// The report a state encodes to: buttons, left stick X and Y, right stick X
/// and Y (each little-endian), then the left and right trigger.
pub open spec fn hid_report_of(s: GamepadState) -> Seq<u8> {
    le16(s.buttons) + le16(s.left_x as u16) + le16(s.left_y as u16) + le16(s.right_x as u16) + le16(
        s.right_y as u16,
    ) + seq![s.left_trigger, s.right_trigger]
}

/// Encodes a gamepad state into a HID input report matching
/// [`HID_REPORT_DESCRIPTOR`].
pub fn encode_hid_report(state: &GamepadState) -> (r: [u8; 12])
    ensures
        r@ == hid_report_of(*state),
{
    let lx = state.left_x as u16;
    let ly = state.left_y as u16;
    let rx = state.right_x as u16;
    let ry = state.right_y as u16;
    let b = state.buttons;
    let report: [u8; 12] = [
        (b % 256) as u8,
        (b / 256) as u8,
        (lx % 256) as u8,
        (lx / 256) as u8,
        (ly % 256) as u8,
        (ly / 256) as u8,
        (rx % 256) as u8,
        (rx / 256) as u8,
        (ry % 256) as u8,
        (ry / 256) as u8,
        state.left_trigger,
        state.right_trigger,
    ];
    assert(report@ =~= hid_report_of(*state));
    report
}

} // verus!
