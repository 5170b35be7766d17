//! Absolute moves of the pointer, which Windows takes in units of the whole
//! virtual desktop.

use vstd::prelude::*;

verus! {

/// Division that rounds toward zero.
pub open spec fn quotient(a: int, b: int) -> int {
    if a >= 0 {
        a / b
    } else {
        -((-a) / b)
    }
}

/// A pixel position in units of which the desktop has 65536 in each direction,
/// to the nearest; 0 on a desktop of less than two pixels.
pub open spec fn normalized(value: int, origin: int, extent: int) -> int {
    if extent <= 1 {
        0
    } else {
        quotient((value - origin) * 65535 + (extent - 1) / 2, extent - 1)
    }
}

/// Maps a position on a desktop that starts at `origin` and is `extent` pixels
/// long. Of a result that does not fit, the low 32 bits remain.
pub fn normalize(value: i32, origin: i32, extent: i32) -> (r: i32)
    requires
        extent > 1 ==> i32::MIN <= value - origin <= i32::MAX,
    ensures
        r == normalized(value as int, origin as int, extent as int) as i32,
{
    if extent <= 1 {
        return 0;
    }
    let offset: i64 = (value - origin) as i64;
    let span: i64 = (extent - 1) as i64;
    let scaled: i64 = offset * 65535 + span / 2;
    let quotient: i64 = if scaled >= 0 {
        scaled / span
    } else {
        -((-scaled) / span)
    };
    quotient as i32
}

/// The virtual desktop: its origin and its size.
#[derive(Debug, Clone, Copy, PartialEq, Eq, Structural)]
pub struct Desktop {
    pub x: i32,
    pub y: i32,
    pub width: i32,
    pub height: i32,
}

/// A move that is absolute, and relative to the virtual desktop rather than to
/// the primary monitor.
pub const MOVE_FLAGS: u32 = 0xc001;

/// A mouse event.
#[derive(Debug, Clone, Copy, PartialEq, Eq, Structural)]
pub struct MouseMove {
    pub dx: i32,
    pub dy: i32,
    pub flags: u32,
}

/// The event that moves the pointer to a pixel of the virtual desktop.
pub fn move_to(x: i32, y: i32, desktop: Desktop) -> (r: MouseMove)
    requires
        desktop.width > 1 ==> i32::MIN <= x - desktop.x <= i32::MAX,
        desktop.height > 1 ==> i32::MIN <= y - desktop.y <= i32::MAX,
    ensures
        r.dx == normalized(x as int, desktop.x as int, desktop.width as int) as i32,
        r.dy == normalized(y as int, desktop.y as int, desktop.height as int) as i32,
        r.flags == 0x8000 + 0x4000 + 0x0001,
{
    MouseMove {
        dx: normalize(x, desktop.x, desktop.width),
        dy: normalize(y, desktop.y, desktop.height),
        flags: MOVE_FLAGS,
    }
}

/// Every pixel of the desktop has a place within it, the first one at its start
/// and the last one at its end.
pub proof fn law_pixels_stay_on_the_desktop(value: int, origin: int, extent: int)
    requires
        extent > 1,
        origin <= value < origin + extent,
    ensures
        0 <= normalized(value, origin, extent) <= 65535,
        value == origin ==> normalized(value, origin, extent) == 0,
        value == origin + extent - 1 ==> normalized(value, origin, extent) == 65535,
{
    let span = extent - 1;
    let a = (value - origin) * 65535 + span / 2;
    assert(0 <= a / span <= 65535) by (nonlinear_arith)
        requires
            span > 0,
            0 <= value - origin <= span,
            a == (value - origin) * 65535 + span / 2,
    ;
    if value == origin {
        assert(a / span == 0) by (nonlinear_arith)
            requires
                span > 0,
                a == span / 2,
        ;
    }
    if value == origin + extent - 1 {
        assert(a / span == 65535) by (nonlinear_arith)
            requires
                span > 0,
                a == span * 65535 + span / 2,
        ;
    }
}

/// A pixel of the desktop comes out at the nearest unit: no more than half a unit
/// from where it lies.
pub proof fn law_pixels_go_to_the_nearest_unit(value: int, origin: int, extent: int)
    requires
        extent > 1,
        origin <= value < origin + extent,
    ensures
        ({
            let off = normalized(value, origin, extent) * (extent - 1) - (value - origin) * 65535;
            -(extent - 1) <= 2 * off <= extent - 1
        }),
{
    let span = extent - 1;
    let a = (value - origin) * 65535 + span / 2;
    vstd::arithmetic::div_mod::lemma_fundamental_div_mod(a, span);
    vstd::arithmetic::div_mod::lemma_mod_bound(a, span);
    assert(a / span * span == span * (a / span)) by (nonlinear_arith);
}

/// A pixel further right, or further down, never comes out before another.
pub proof fn law_pixels_keep_their_order(a: int, b: int, origin: int, extent: int)
    requires
        origin <= a <= b < origin + extent,
    ensures
        normalized(a, origin, extent) <= normalized(b, origin, extent),
{
    if extent > 1 {
        let span = extent - 1;
        vstd::arithmetic::div_mod::lemma_div_is_ordered(
            (a - origin) * 65535 + span / 2,
            (b - origin) * 65535 + span / 2,
            span,
        );
    }
}

} // verus!
