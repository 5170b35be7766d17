//! Key events by scancode.

use vstd::prelude::*;

use crate::input::keymap::scan_parts;

verus! {

/// The flags of a key event.
pub const KEYEVENTF_EXTENDEDKEY: u32 = 1;

pub const KEYEVENTF_KEYUP: u32 = 2;

pub const KEYEVENTF_SCANCODE: u32 = 8;

/// A key event: the scancode without its prefix, and the flags.
#[derive(Debug, Clone, Copy, PartialEq, Eq, Structural)]
pub struct KeyEvent {
    pub scan: u16,
    pub flags: u32,
}

/// The event for a press or release of the key with a scancode of set 1, where
/// `0xe0` in the high byte marks an extended key.
pub fn send_scancode(scan: u16, pressed: bool) -> (r: KeyEvent)
    ensures
        r.scan == scan % 256,
        r.flags == 8 + (if scan / 256 == 0xe0 {
            1int
        } else {
            0
        }) + (if pressed {
            0int
        } else {
            2
        }),
{
    let (low, extended): (u16, bool) = scan_parts(scan);
    let mut flags: u32 = KEYEVENTF_SCANCODE;
    if extended {
        flags = flags + KEYEVENTF_EXTENDEDKEY;
    }
    if !pressed {
        flags = flags + KEYEVENTF_KEYUP;
    }
    KeyEvent { scan: low, flags }
}

} // verus!
