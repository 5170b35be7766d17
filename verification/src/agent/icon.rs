//! Draws the tray icon: the silhouette of a monitor whose screen shows the
//! agent's state. macOS menu-bar icons carry their shape in the alpha channel
//! and are tinted by the system; elsewhere the icon has colours of its own.

use vstd::prelude::*;

verus! {

/// The looks of the tray icon.
#[derive(Debug, Clone, Copy, PartialEq, Eq, Structural)]
pub enum IconState {
    /// Registered or connecting, no session.
    Idle,
    Session,
    /// Disconnected.
    Offline,
}

/// A colour: red, green, blue and alpha.
#[derive(Debug, Clone, Copy, PartialEq, Eq, Structural)]
pub struct Rgba {
    pub r: u8,
    pub g: u8,
    pub b: u8,
    pub a: u8,
}

pub open spec fn bezel_color(macos: bool) -> Rgba {
    if macos {
        Rgba { r: 0, g: 0, b: 0, a: 255 }
    } else {
        Rgba { r: 90, g: 90, b: 90, a: 255 }
    }
}

pub open spec fn screen_color(state: IconState, macos: bool) -> Rgba {
    match (state, macos) {
        (IconState::Idle, true) => Rgba { r: 0, g: 0, b: 0, a: 90 },
        (IconState::Session, true) => Rgba { r: 0, g: 0, b: 0, a: 220 },
        (IconState::Offline, true) => Rgba { r: 0, g: 0, b: 0, a: 25 },
        (IconState::Idle, false) => Rgba { r: 190, g: 190, b: 190, a: 255 },
        (IconState::Session, false) => Rgba { r: 40, g: 170, b: 70, a: 255 },
        (IconState::Offline, false) => Rgba { r: 220, g: 130, b: 30, a: 255 },
    }
}

/// Left and top edge of the monitor: a sixth of the icon.
pub open spec fn inset(s: int) -> int {
    s / 6
}

/// Its right edge.
pub open spec fn right_edge(s: int) -> int {
    s - s / 6
}

/// Its lower edge: three quarters of its width below the upper one.
pub open spec fn lower_edge(s: int) -> int {
    inset(s) + (right_edge(s) - inset(s)) * 3 / 4
}

/// Thickness of the bezel, at least one pixel.
pub open spec fn stroke(s: int) -> int {
    crate::arith::max(s / 12, 1)
}

/// Width of the stand: a third of the monitor's.
pub open spec fn stand_width(s: int) -> int {
    (right_edge(s) - inset(s)) / 3
}

/// Left edge of the stand, which is centred.
pub open spec fn stand_left(s: int) -> int {
    (inset(s) + right_edge(s)) / 2 - stand_width(s) / 2
}

/// Within the monitor, bezel included.
pub open spec fn in_monitor(s: int, x: int, y: int) -> bool {
    inset(s) <= x < right_edge(s) && inset(s) <= y < lower_edge(s)
}

/// Within the monitor, and no further from its edge than the bezel is thick.
pub open spec fn on_bezel(s: int, x: int, y: int) -> bool {
    in_monitor(s, x, y) && (x < inset(s) + stroke(s) || x >= right_edge(s) - stroke(s) || y < inset(
        s,
    ) + stroke(s) || y >= lower_edge(s) - stroke(s))
}

/// Within the stand, right below the monitor.
pub open spec fn on_stand(s: int, x: int, y: int) -> bool {
    &&& lower_edge(s) <= y < lower_edge(s) + stroke(s)
    &&& stand_left(s) <= x < stand_left(s) + stand_width(s)
}

/// The colour of pixel (`x`, `y`) of an icon of size `s`; transparent outside
/// the silhouette.
pub open spec fn pixel(state: IconState, macos: bool, s: int, x: int, y: int) -> Rgba {
    if on_bezel(s, x, y) || on_stand(s, x, y) {
        bezel_color(macos)
    } else if in_monitor(s, x, y) {
        screen_color(state, macos)
    } else {
        Rgba { r: 0, g: 0, b: 0, a: 0 }
    }
}

/// Byte `c` of a colour.
pub open spec fn channel(px: Rgba, c: int) -> u8 {
    if c == 0 {
        px.r
    } else if c == 1 {
        px.g
    } else if c == 2 {
        px.b
    } else {
        px.a
    }
}

/// The bytes of an icon, row by row.
pub open spec fn icon_bytes(state: IconState, macos: bool, s: int) -> Seq<u8> {
    Seq::new(
        (s * s * 4) as nat,
        |k: int| channel(pixel(state, macos, s, k / 4 % s, k / 4 / s), k % 4),
    )
}

fn colors(state: IconState, macos: bool) -> (r: (Rgba, Rgba))
    ensures
        r.0 == bezel_color(macos),
        r.1 == screen_color(state, macos),
{
    if macos {
        let alpha: u8 = match state {
            IconState::Idle => 90,
            IconState::Session => 220,
            IconState::Offline => 25,
        };
        (Rgba { r: 0, g: 0, b: 0, a: 255 }, Rgba { r: 0, g: 0, b: 0, a: alpha })
    } else {
        let screen: Rgba = match state {
            IconState::Idle => Rgba { r: 190, g: 190, b: 190, a: 255 },
            IconState::Session => Rgba { r: 40, g: 170, b: 70, a: 255 },
            IconState::Offline => Rgba { r: 220, g: 130, b: 30, a: 255 },
        };
        (Rgba { r: 90, g: 90, b: 90, a: 255 }, screen)
    }
}

/// Renders an icon of `size` by `size` pixels, four bytes each.
pub fn render_icon(state: IconState, size: u32, macos: bool) -> (r: Vec<u8>)
    requires
        size * size * 4 <= usize::MAX,
    ensures
        r@ == icon_bytes(state, macos, size as int),
{
    let ghost spec = icon_bytes(state, macos, size as int);
    let s: i64 = size as i64;
    let left: i64 = s / 6;
    let right: i64 = s - s / 6;
    let bottom: i64 = left + (right - left) * 3 / 4;
    let stroke_w: i64 = if s / 12 >= 1 {
        s / 12
    } else {
        1
    };
    let stand_w: i64 = (right - left) / 3;
    let stand_x: i64 = (left + right) / 2 - stand_w / 2;
    let (bezel, screen) = colors(state, macos);
    let n: usize = size as usize;
    proof {
        assert(0 <= n * n <= n * n * 4) by (nonlinear_arith);
    }
    let pixels: usize = n * n;
    let mut out: Vec<u8> = Vec::new();
    let mut p: usize = 0;
    while p < pixels
        invariant
            s == size,
            n == size,
            left == inset(s as int),
            right == right_edge(s as int),
            bottom == lower_edge(s as int),
            stroke_w == stroke(s as int),
            stand_w == stand_width(s as int),
            stand_x == stand_left(s as int),
            bezel == bezel_color(macos),
            screen == screen_color(state, macos),
            pixels == n * n,
            n * n * 4 <= usize::MAX,
            spec == icon_bytes(state, macos, s as int),
            p <= pixels,
            out@.len() == p * 4,
            forall|k: int| 0 <= k < out@.len() ==> out@[k] == #[trigger] spec[k],
        decreases pixels - p,
    {
        proof {
            assert(n > 0) by (nonlinear_arith)
                requires
                    0 <= p < n * n,
                    n >= 0,
            ;
            vstd::arithmetic::div_mod::lemma_fundamental_div_mod(p as int, n as int);
            vstd::arithmetic::div_mod::lemma_mod_bound(p as int, n as int);
            assert(0 <= p as int / n as int <= p) by (nonlinear_arith)
                requires
                    p >= 0,
                    n > 0,
            ;
            assert(p as int / n as int <= n) by (nonlinear_arith)
                requires
                    0 <= p < n * n,
                    n > 0,
            ;
        }
        let x: i64 = (p % n) as i64;
        let y: i64 = (p / n) as i64;
        let monitor: bool = left <= x && x < right && left <= y && y < bottom;
        let edge: bool = x < left + stroke_w || x >= right - stroke_w || y < left + stroke_w || y
            >= bottom - stroke_w;
        let stand: bool = bottom <= y && y < bottom + stroke_w && stand_x <= x && x < stand_x
            + stand_w;
        let px: Rgba = if (monitor && edge) || stand {
            bezel
        } else if monitor {
            screen
        } else {
            Rgba { r: 0, g: 0, b: 0, a: 0 }
        };
        assert(px == pixel(state, macos, s as int, x as int, y as int));
        out.push(px.r);
        out.push(px.g);
        out.push(px.b);
        out.push(px.a);
        p = p + 1;
    }
    assert(out@ =~= spec);
    out
}

/// Every icon shows something: the upper left corner of the bezel is opaque.
pub proof fn law_icons_are_visible(state: IconState, macos: bool, s: int)
    requires
        s >= 2,
    ensures
        pixel(state, macos, s, inset(s), inset(s)).a == 255,
{
}

/// The states can be told apart: they differ in the first pixel of the screen.
pub proof fn law_states_look_different(a: IconState, b: IconState, macos: bool, s: int)
    requires
        s >= 4,
        a != b,
    ensures
        pixel(a, macos, s, inset(s) + stroke(s), inset(s) + stroke(s)) != pixel(
            b,
            macos,
            s,
            inset(s) + stroke(s),
            inset(s) + stroke(s),
        ),
{
}

/// The monitor stands a sixth of the icon away from the left, the right and the
/// upper edge, and is three quarters as high as it is wide. Its bezel is a twelfth
/// of the icon thick, and everything within shows the state.
pub proof fn law_the_monitor_fills_its_place(state: IconState, macos: bool, s: int, x: int, y: int)
    requires
        s >= 12,
    ensures
        ({
            let edge = s / 6;
            let width = s - 2 * edge;
            let low = edge + width * 3 / 4;
            let thick = s / 12;
            let within = edge <= x < s - edge && edge <= y < low;
            let inside = edge + thick <= x < s - edge - thick && edge + thick <= y < low - thick;
            &&& inside ==> pixel(state, macos, s, x, y) == screen_color(state, macos)
            &&& within && !inside ==> pixel(state, macos, s, x, y) == bezel_color(macos)
            &&& x < edge || x >= s - edge || y < edge || y >= low + thick ==> pixel(
                state,
                macos,
                s,
                x,
                y,
            ).a == 0
        }),
{
}

/// The stand is right below the monitor, as thick as the bezel and a third as wide
/// as the monitor, with as much to its left as to its right but for a pixel or two.
pub proof fn law_the_stand_is_centred(state: IconState, macos: bool, s: int, x: int, y: int)
    requires
        s >= 12,
    ensures
        ({
            let edge = s / 6;
            let width = s - 2 * edge;
            let low = edge + width * 3 / 4;
            let left = stand_left(s);
            &&& low <= y < low + s / 12 ==> {
                if left <= x < left + width / 3 {
                    pixel(state, macos, s, x, y) == bezel_color(macos)
                } else {
                    pixel(state, macos, s, x, y).a == 0
                }
            }
            &&& -2 <= left - (s - (left + width / 3)) <= 2
        }),
{
}

/// On macOS the icon is drawn in alpha alone, fainter without a session and fainter
/// still when offline; elsewhere it is opaque, green in a session and grey without.
pub proof fn law_colours_mean_what_they_show(macos: bool)
    ensures
        ({
            let idle = screen_color(IconState::Idle, macos);
            let session = screen_color(IconState::Session, macos);
            let offline = screen_color(IconState::Offline, macos);
            let bezel = bezel_color(macos);
            &&& bezel.a == 255
            &&& bezel.r == bezel.g && bezel.g == bezel.b
            &&& macos ==> {
                &&& 0 < offline.a < idle.a < session.a < 255
                &&& bezel.r == 0
                &&& idle.r == 0 && idle.g == 0 && idle.b == 0
                &&& session.r == 0 && session.g == 0 && session.b == 0
                &&& offline.r == 0 && offline.g == 0 && offline.b == 0
            }
            &&& !macos ==> {
                &&& idle.a == 255 && session.a == 255 && offline.a == 255
                &&& session.g > session.r && session.g > session.b
                &&& offline.r > offline.g && offline.g > offline.b
                &&& idle.r == idle.g && idle.g == idle.b
            }
        }),
{
}

/// Four bytes for each pixel, row by row: red, green, blue and alpha.
pub proof fn law_icons_are_drawn_row_by_row(
    state: IconState,
    macos: bool,
    s: int,
    x: int,
    y: int,
)
    requires
        0 <= x < s,
        0 <= y < s,
    ensures
        ({
            let out = icon_bytes(state, macos, s);
            let px = pixel(state, macos, s, x, y);
            let at = (y * s + x) * 4;
            &&& out.len() == s * s * 4
            &&& out[at] == px.r
            &&& out[at + 1] == px.g
            &&& out[at + 2] == px.b
            &&& out[at + 3] == px.a
        }),
{
    let i = y * s + x;
    crate::encode::convert::lemma_dense_index(y, x, s, s);
    assert(s * s * 4 >= i * 4 + 4);
    assert((i * 4) / 4 == i && (i * 4 + 1) / 4 == i && (i * 4 + 2) / 4 == i && (i * 4 + 3) / 4
        == i);
}

/// Where nothing is drawn the icon is see-through, and holds no colour either.
pub proof fn law_the_rest_is_blank(state: IconState, macos: bool, s: int, x: int, y: int)
    requires
        pixel(state, macos, s, x, y).a == 0,
    ensures
        pixel(state, macos, s, x, y).r == 0,
        pixel(state, macos, s, x, y).g == 0,
        pixel(state, macos, s, x, y).b == 0,
{
}

} // verus!
