//! HID keyboard usage codes as plain bytes, and the modifier range.
//!
//! Codes `0xE0..=0xE7` are the eight modifiers; a report stores them as a
//! bitmask rather than in the key slots.

use vstd::prelude::*;

verus! {

pub const KC_NO: u8 = 0x00;
pub const KC_A: u8 = 0x04;
pub const KC_B: u8 = 0x05;
pub const KC_C: u8 = 0x06;
pub const KC_D: u8 = 0x07;
pub const KC_E: u8 = 0x08;
pub const KC_F: u8 = 0x09;
pub const KC_G: u8 = 0x0A;
pub const KC_H: u8 = 0x0B;
pub const KC_I: u8 = 0x0C;
pub const KC_J: u8 = 0x0D;
pub const KC_K: u8 = 0x0E;
pub const KC_L: u8 = 0x0F;
pub const KC_M: u8 = 0x10;
pub const KC_N: u8 = 0x11;
pub const KC_O: u8 = 0x12;
pub const KC_P: u8 = 0x13;
pub const KC_Q: u8 = 0x14;
pub const KC_R: u8 = 0x15;
pub const KC_S: u8 = 0x16;
pub const KC_T: u8 = 0x17;
pub const KC_U: u8 = 0x18;
pub const KC_V: u8 = 0x19;
pub const KC_W: u8 = 0x1A;
pub const KC_X: u8 = 0x1B;
pub const KC_Y: u8 = 0x1C;
pub const KC_Z: u8 = 0x1D;
pub const KC_KB1: u8 = 0x1E;
pub const KC_KB2: u8 = 0x1F;
pub const KC_KB3: u8 = 0x20;
pub const KC_KB4: u8 = 0x21;
pub const KC_KB5: u8 = 0x22;
pub const KC_KB6: u8 = 0x23;
pub const KC_KB7: u8 = 0x24;
pub const KC_KB8: u8 = 0x25;
pub const KC_KB9: u8 = 0x26;
pub const KC_KB0: u8 = 0x27;
pub const KC_ENTER: u8 = 0x28;
pub const KC_ESCAPE: u8 = 0x29;
pub const KC_BSPACE: u8 = 0x2A;
pub const KC_TAB: u8 = 0x2B;
pub const KC_SPACE: u8 = 0x2C;
pub const KC_MINUS: u8 = 0x2D;
pub const KC_EQUAL: u8 = 0x2E;
pub const KC_LBRACKET: u8 = 0x2F;
pub const KC_RBRACKET: u8 = 0x30;
pub const KC_BSLASH: u8 = 0x31;
pub const KC_SCOLON: u8 = 0x33;
pub const KC_QUOTE: u8 = 0x34;
pub const KC_GRAVE: u8 = 0x35;
pub const KC_COMMA: u8 = 0x36;
pub const KC_DOT: u8 = 0x37;
pub const KC_SLASH: u8 = 0x38;
pub const KC_F1: u8 = 0x3A;
pub const KC_F2: u8 = 0x3B;
pub const KC_F3: u8 = 0x3C;
pub const KC_F4: u8 = 0x3D;
pub const KC_F5: u8 = 0x3E;
pub const KC_F6: u8 = 0x3F;
pub const KC_F7: u8 = 0x40;
pub const KC_F8: u8 = 0x41;
pub const KC_F9: u8 = 0x42;
pub const KC_F10: u8 = 0x43;
pub const KC_F11: u8 = 0x44;
pub const KC_F12: u8 = 0x45;
pub const KC_DELETE: u8 = 0x4C;
pub const KC_END: u8 = 0x4D;
pub const KC_PGUP: u8 = 0x4B;
pub const KC_PGDOWN: u8 = 0x4E;
pub const KC_RIGHT: u8 = 0x4F;
pub const KC_LEFT: u8 = 0x50;
pub const KC_DOWN: u8 = 0x51;
pub const KC_UP: u8 = 0x52;
pub const KC_LCTRL: u8 = 0xE0;
pub const KC_LSHIFT: u8 = 0xE1;
pub const KC_LALT: u8 = 0xE2;
pub const KC_LGUI: u8 = 0xE3;
pub const KC_RCTRL: u8 = 0xE4;
pub const KC_RSHIFT: u8 = 0xE5;
pub const KC_RALT: u8 = 0xE6;
pub const KC_RGUI: u8 = 0xE7;
pub const KC_MEDIA_NEXT_SONG: u8 = 0xAB;
pub const KC_MEDIA_PLAY_PAUSE: u8 = 0xA8;
pub const KC_MEDIA_VOL_UP: u8 = 0xAD;
pub const KC_MEDIA_VOL_DOWN: u8 = 0xAE;

/// A code in the modifier range `0xE0..=0xE7`.
pub open spec fn spec_is_modifier(code: u8) -> bool {
    0xE0 <= code <= 0xE7
}

/// Tells a modifier usage code from an ordinary one.
pub fn is_modifier(code: u8) -> (r: bool)
    ensures
        r == spec_is_modifier(code),
{
    0xE0 <= code && code <= 0xE7
}

/// The bit a modifier occupies in the report's modifier byte.
pub open spec fn spec_modifier_bit(code: u8) -> u8
    recommends
        spec_is_modifier(code),
{
    (1u8 << (code - 0xE0) as u8) as u8
}

/// Maps a modifier code to its bit in the modifier bitmask.
pub fn modifier_bit(code: u8) -> (r: u8)
    requires
        spec_is_modifier(code),
    ensures
        r == spec_modifier_bit(code),
{
    1u8 << (code - 0xE0)
}

} // verus!
