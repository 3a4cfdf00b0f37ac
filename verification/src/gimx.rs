//! A controller's state as fixed-size binary frames for a GIMX-style serial
//! adapter, which relays it to a console.
//!
//! Frame layout (little-endian, 14 bytes): byte 0 is the start marker `0xA5`;
//! bytes 1..5 hold the left stick X and Y as `i16`; bytes 5..9 the right
//! stick; byte 9 the left trigger and byte 10 the right trigger; bytes 11..13
//! the 16-bit button mask; byte 13 the additive checksum of bytes 0..13.

use vstd::prelude::*;
use crate::event_code::{event_from_input, event_name, event_of};
use crate::text::str_eq;

verus! {

pub const FRAME_START: u8 = 0xA5;

pub const FRAME_LEN: usize = 14;

/// Standard gamepad buttons, each a bit of the frame's button mask.
#[derive(Clone, Copy, Debug, PartialEq, Eq, Structural)]
pub enum GimxButton {
    South,
    East,
    North,
    West,
    L1,
    R1,
    L2,
    R2,
    Select,
    Start,
    Mode,
    ThumbL,
    ThumbR,
}

/// The bit a button occupies in the mask (South is bit 0, ThumbR bit 12).
pub open spec fn button_bit(b: GimxButton) -> u16 {
    match b {
        GimxButton::South => 0,
        GimxButton::East => 1,
        GimxButton::North => 2,
        GimxButton::West => 3,
        GimxButton::L1 => 4,
        GimxButton::R1 => 5,
        GimxButton::L2 => 6,
        GimxButton::R2 => 7,
        GimxButton::Select => 8,
        GimxButton::Start => 9,
        GimxButton::Mode => 10,
        GimxButton::ThumbL => 11,
        GimxButton::ThumbR => 12,
    }
}

impl GimxButton {
    /// The bit this button occupies in the mask.
    pub fn bit(self) -> (r: u16)
        ensures
            r == button_bit(self),
    {
        match self {
            GimxButton::South => 0,
            GimxButton::East => 1,
            GimxButton::North => 2,
            GimxButton::West => 3,
            GimxButton::L1 => 4,
            GimxButton::R1 => 5,
            GimxButton::L2 => 6,
            GimxButton::R2 => 7,
            GimxButton::Select => 8,
            GimxButton::Start => 9,
            GimxButton::Mode => 10,
            GimxButton::ThumbL => 11,
            GimxButton::ThumbR => 12,
        }
    }
}

/// The gamepad state streamed to the adapter.
#[derive(Clone, Copy, Debug, PartialEq, Eq, Structural)]
pub struct GamepadState {
    pub left_x: i16,
    pub left_y: i16,
    pub right_x: i16,
    pub right_y: i16,
    pub left_trigger: u8,
    pub right_trigger: u8,
    pub buttons: u16,
}

/// The state at rest: sticks centered, triggers and buttons released.
pub open spec fn rest_state() -> GamepadState {
    GamepadState {
        left_x: 0,
        left_y: 0,
        right_x: 0,
        right_y: 0,
        left_trigger: 0,
        right_trigger: 0,
        buttons: 0,
    }
}

impl Default for GamepadState {
    fn default() -> (r: Self)
        ensures
            r == rest_state(),
    {
        GamepadState {
            left_x: 0,
            left_y: 0,
            right_x: 0,
            right_y: 0,
            left_trigger: 0,
            right_trigger: 0,
            buttons: 0,
        }
    }
}

/// The mask with the button's bit set (`pressed`) or cleared.
pub open spec fn mask_with(buttons: u16, b: GimxButton, pressed: bool) -> u16 {
    if pressed {
        buttons | (1u16 << button_bit(b))
    } else {
        buttons & !(1u16 << button_bit(b))
    }
}

/// The state with one button pressed or released.
pub open spec fn with_button(s: GamepadState, b: GimxButton, pressed: bool) -> GamepadState {
    GamepadState { buttons: mask_with(s.buttons, b, pressed), ..s }
}

/// The two little-endian bytes of a 16-bit value.
pub open spec fn le16(v: u16) -> Seq<u8> {
    seq![(v % 256) as u8, (v / 256) as u8]
}

/// The sum of some bytes.
pub open spec fn byte_sum(b: Seq<u8>) -> nat
    decreases b.len(),
{
    if b.len() == 0 {
        0
    } else {
        byte_sum(b.drop_last()) + b.last() as nat
    }
}

/// The first 13 bytes of a frame, before the checksum.
pub open spec fn frame_body(s: GamepadState) -> Seq<u8> {
    seq![FRAME_START] + le16(s.left_x as u16) + le16(s.left_y as u16) + le16(s.right_x as u16)
        + le16(s.right_y as u16) + seq![s.left_trigger, s.right_trigger] + le16(s.buttons)
}

/// A whole frame: the body and its checksum, the body's byte sum modulo 256.
pub open spec fn frame_of(s: GamepadState) -> Seq<u8> {
    frame_body(s).push((byte_sum(frame_body(s)) % 256) as u8)
}

/// An axis value clamped to the `i16` range.
pub open spec fn clamped_axis(value: i32) -> i16 {
    if value < -32768 {
        -32768i16
    } else if value > 32767 {
        32767
    } else {
        value as i16
    }
}

/// A trigger value clamped to 0..=255.
pub open spec fn clamped_trigger(value: i32) -> u8 {
    if value < 0 {
        0
    } else if value > 255 {
        255
    } else {
        value as u8
    }
}

pub fn clamp_axis(value: i32) -> (r: i16)
    ensures
        r == clamped_axis(value),
{
    if value < -32768 {
        -32768
    } else if value > 32767 {
        32767
    } else {
        value as i16
    }
}

pub fn clamp_trigger(value: i32) -> (r: u8)
    ensures
        r == clamped_trigger(value),
{
    if value < 0 {
        0
    } else if value > 255 {
        255
    } else {
        value as u8
    }
}

/// The state after an input event (its Linux type, code and value): the
/// standard buttons set their bit (pressed when the value is nonzero), the
/// stick axes take the clamped value, the triggers the value clamped to
/// 0..=255; every other event leaves the state as it is.
pub open spec fn applied(s: GamepadState, event_type: u16, code: u16, value: i32) -> GamepadState {
    match event_of(event_type, code) {
        None => s,
        Some(c) => {
            let n = event_name(c);
            let p = value != 0;
            if n == "btn:south"@ {
                with_button(s, GimxButton::South, p)
            } else if n == "btn:east"@ {
                with_button(s, GimxButton::East, p)
            } else if n == "btn:north"@ {
                with_button(s, GimxButton::North, p)
            } else if n == "btn:west"@ {
                with_button(s, GimxButton::West, p)
            } else if n == "btn:tl"@ {
                with_button(s, GimxButton::L1, p)
            } else if n == "btn:tr"@ {
                with_button(s, GimxButton::R1, p)
            } else if n == "btn:tl2"@ {
                with_button(s, GimxButton::L2, p)
            } else if n == "btn:tr2"@ {
                with_button(s, GimxButton::R2, p)
            } else if n == "btn:select"@ {
                with_button(s, GimxButton::Select, p)
            } else if n == "btn:start"@ {
                with_button(s, GimxButton::Start, p)
            } else if n == "btn:mode"@ {
                with_button(s, GimxButton::Mode, p)
            } else if n == "btn:thumbl"@ {
                with_button(s, GimxButton::ThumbL, p)
            } else if n == "btn:thumbr"@ {
                with_button(s, GimxButton::ThumbR, p)
            } else if n == "abs:x"@ {
                GamepadState { left_x: clamped_axis(value), ..s }
            } else if n == "abs:y"@ {
                GamepadState { left_y: clamped_axis(value), ..s }
            } else if n == "abs:rx"@ {
                GamepadState { right_x: clamped_axis(value), ..s }
            } else if n == "abs:ry"@ {
                GamepadState { right_y: clamped_axis(value), ..s }
            } else if n == "abs:z"@ {
                GamepadState { left_trigger: clamped_trigger(value), ..s }
            } else if n == "abs:rz"@ {
                GamepadState { right_trigger: clamped_trigger(value), ..s }
            } else {
                s
            }
        },
    }
}

fn low_byte(v: u16) -> (r: u8)
    ensures
        r == (v % 256) as u8,
{
    (v % 256) as u8
}

fn high_byte(v: u16) -> (r: u8)
    ensures
        r == (v / 256) as u8,
{
    (v / 256) as u8
}

impl GamepadState {
    /// Presses or releases a button: sets or clears its bit of the mask.
    pub fn set_button(&mut self, button: GimxButton, pressed: bool)
        ensures
            *final(self) == with_button(*old(self), button, pressed),
    {
        let bit: u16 = 1u16 << button.bit();
        if pressed {
            self.buttons = self.buttons | bit;
        } else {
            self.buttons = self.buttons & !bit;
        }
    }

    /// Encodes the state as a serial frame.
    pub fn encode_frame(&self) -> (r: [u8; 14])
        ensures
            r@ == frame_of(*self),
    {
        let lx = self.left_x as u16;
        let ly = self.left_y as u16;
        let rx = self.right_x as u16;
        let ry = self.right_y as u16;
        let b = self.buttons;
        let body: [u8; 13] = [
            FRAME_START,
            low_byte(lx),
            high_byte(lx),
            low_byte(ly),
            high_byte(ly),
            low_byte(rx),
            high_byte(rx),
            low_byte(ry),
            high_byte(ry),
            self.left_trigger,
            self.right_trigger,
            low_byte(b),
            high_byte(b),
        ];
        assert(body@ =~= frame_body(*self));
        let mut sum: u32 = 0;
        let mut i: usize = 0;
        while i < 13
            invariant
                i <= 13,
                body@ == frame_body(*self),
                sum == byte_sum(body@.subrange(0, i as int)),
                sum <= 255 * i,
            decreases 13 - i,
        {
            assert(body@.subrange(0, i + 1).drop_last() =~= body@.subrange(0, i as int));
            sum = sum + body[i] as u32;
            i = i + 1;
        }
        assert(body@.subrange(0, 13) =~= body@);
        let check = (sum % 256) as u8;
        let frame: [u8; 14] = [
            body[0],
            body[1],
            body[2],
            body[3],
            body[4],
            body[5],
            body[6],
            body[7],
            body[8],
            body[9],
            body[10],
            body[11],
            body[12],
            check,
        ];
        assert(frame@ =~= frame_of(*self));
        frame
    }

    /// Updates the state from a source controller's input event (its Linux
    /// type, code and value). Returns true if the state changed.
    pub fn apply_event(&mut self, event_type: u16, code: u16, value: i32) -> (changed: bool)
        ensures
            *final(self) == applied(*old(self), event_type, code, value),
            changed == (*final(self) != *old(self)),
    {
        let before = *self;
        let c = match event_from_input(event_type, code) {
            Some(c) => c,
            None => {
                return false;
            },
        };
        let n = c.name();
        let n = n.as_str();
        let p = value != 0;
        if str_eq(n, "btn:south") {
            self.set_button(GimxButton::South, p);
        } else if str_eq(n, "btn:east") {
            self.set_button(GimxButton::East, p);
        } else if str_eq(n, "btn:north") {
            self.set_button(GimxButton::North, p);
        } else if str_eq(n, "btn:west") {
            self.set_button(GimxButton::West, p);
        } else if str_eq(n, "btn:tl") {
            self.set_button(GimxButton::L1, p);
        } else if str_eq(n, "btn:tr") {
            self.set_button(GimxButton::R1, p);
        } else if str_eq(n, "btn:tl2") {
            self.set_button(GimxButton::L2, p);
        } else if str_eq(n, "btn:tr2") {
            self.set_button(GimxButton::R2, p);
        } else if str_eq(n, "btn:select") {
            self.set_button(GimxButton::Select, p);
        } else if str_eq(n, "btn:start") {
            self.set_button(GimxButton::Start, p);
        } else if str_eq(n, "btn:mode") {
            self.set_button(GimxButton::Mode, p);
        } else if str_eq(n, "btn:thumbl") {
            self.set_button(GimxButton::ThumbL, p);
        } else if str_eq(n, "btn:thumbr") {
            self.set_button(GimxButton::ThumbR, p);
        } else if str_eq(n, "abs:x") {
            self.left_x = clamp_axis(value);
        } else if str_eq(n, "abs:y") {
            self.left_y = clamp_axis(value);
        } else if str_eq(n, "abs:rx") {
            self.right_x = clamp_axis(value);
        } else if str_eq(n, "abs:ry") {
            self.right_y = clamp_axis(value);
        } else if str_eq(n, "abs:z") {
            self.left_trigger = clamp_trigger(value);
        } else if str_eq(n, "abs:rz") {
            self.right_trigger = clamp_trigger(value);
        }
        *self != before
    }
}

/// Pressing a button sets its bit, releasing clears it, and no other bit or
/// field changes.
pub proof fn lemma_set_button_touches_one_bit(s: GamepadState, b: GimxButton, pressed: bool, k: u16)
    requires
        k < 16,
    ensures
        ((with_button(s, b, pressed).buttons >> k) & 1 == 1) == (if k == button_bit(b) {
            pressed
        } else {
            (s.buttons >> k) & 1 == 1
        }),
        with_button(s, b, pressed).left_x == s.left_x,
        with_button(s, b, pressed).left_y == s.left_y,
        with_button(s, b, pressed).right_x == s.right_x,
        with_button(s, b, pressed).right_y == s.right_y,
        with_button(s, b, pressed).left_trigger == s.left_trigger,
        with_button(s, b, pressed).right_trigger == s.right_trigger,
{
    let m = s.buttons;
    let i = button_bit(b);
    assert(i < 16);
    if pressed {
        assert(((m | (1u16 << i)) >> k) & 1 == 1 <==> (if k == i { true } else { (m >> k) & 1 == 1 }))
            by (bit_vector)
            requires
                i < 16,
                k < 16,
        ;
    } else {
        assert(((m & !(1u16 << i)) >> k) & 1 == 1 <==> (if k == i { false } else { (m >> k) & 1 == 1 }))
            by (bit_vector)
            requires
                i < 16,
                k < 16,
        ;
    }
}

/// Pressing and then releasing a button that was released leaves the state
/// as it was.
pub proof fn lemma_press_release_restores(s: GamepadState, b: GimxButton)
    requires
        (s.buttons >> button_bit(b)) & 1 == 0,
    ensures
        with_button(with_button(s, b, true), b, false) == s,
{
    let m = s.buttons;
    let i = button_bit(b);
    assert(i < 16);
    assert((m | (1u16 << i)) & !(1u16 << i) == m) by (bit_vector)
        requires
            i < 16,
            (m >> i) & 1 == 0,
    ;
}

} // verus!
