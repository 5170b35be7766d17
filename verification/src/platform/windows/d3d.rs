//! Whether the video driver is up to Windows Graphics Capture.

use vstd::prelude::*;

verus! {

/// Direct3D feature level 11_0.
pub const FEATURE_LEVEL_11_0: u32 = 0xb000;

/// The feature levels to ask for, highest first: 11_1 down to 9_1.
pub const FEATURE_LEVELS: [u32; 7] = [0xb100, 0xb000, 0xa100, 0xa000, 0x9300, 0x9200, 0x9100];

/// Windows Graphics Capture needs a device of feature level 11_0. `level` is the
/// one that the driver offers; `None` where no device could be created.
pub fn wgc_supported(level: Option<u32>) -> (r: bool)
    ensures
        r == (level matches Some(l) && l >= 0xb000),
{
    match level {
        Some(l) => l >= FEATURE_LEVEL_11_0,
        None => false,
    }
}

} // verus!
