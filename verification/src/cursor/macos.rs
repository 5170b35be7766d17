//! The system cursor of macOS: picks the bitmap that is drawn on screen among
//! the representations of the cursor's image, and turns it into RGBA.

use vstd::prelude::*;

use super::{CursorImage, CursorState, FailureLog};
use crate::proto::COORD_ONE;

verus! {

/// A bitmap representation of a cursor image.
#[derive(Debug)]
pub struct BitmapRep {
    pub pixels_wide: i32,
    pub pixels_high: i32,
    pub samples_per_pixel: i32,
    pub bytes_per_row: usize,
    /// Alpha comes before the colours.
    pub alpha_first: bool,
    /// The pixels, where they could be read.
    pub data: Option<Vec<u8>>,
}

/// What the system says of its cursor. Sizes and points count in units of
/// `1 / COORD_ONE`.
#[derive(Debug)]
pub struct SystemCursor {
    pub logical_width: i64,
    pub logical_height: i64,
    pub hotspot_x: i64,
    pub hotspot_y: i64,
    /// Its representations; `None` for one that is no bitmap.
    pub representations: Vec<Option<BitmapRep>>,
}

/// Why a reading failed.
#[derive(Debug, Clone, Copy, PartialEq, Eq, Structural)]
pub enum CursorFailure {
    LogicalSize,
    NoBitmap,
    BitmapSize,
    Samples,
    NoData,
}

impl CursorFailure {
    pub open spec fn spec_reason(self) -> &'static str {
        match self {
            CursorFailure::LogicalSize => "cursor image has non-positive logical size",
            CursorFailure::NoBitmap =>
                "no usable NSBitmapImageRep in cursor image representations",
            CursorFailure::BitmapSize => "cursor bitmap has non-positive dimensions",
            CursorFailure::Samples => "cursor bitmap is not 4 samples per pixel",
            CursorFailure::NoData => "NSBitmapImageRep.bitmapData returned null",
        }
    }

    pub fn reason(self) -> (r: &'static str)
        ensures
            r == self.spec_reason(),
    {
        match self {
            CursorFailure::LogicalSize => "cursor image has non-positive logical size",
            CursorFailure::NoBitmap =>
                "no usable NSBitmapImageRep in cursor image representations",
            CursorFailure::BitmapSize => "cursor bitmap has non-positive dimensions",
            CursorFailure::Samples => "cursor bitmap is not 4 samples per pixel",
            CursorFailure::NoData => "NSBitmapImageRep.bitmapData returned null",
        }
    }
}

/// A bitmap that could be the one on screen: not empty, and at most four pixels
/// to a point. Anything larger is meant for the enlarged pointer.
pub open spec fn usable(rep: Option<BitmapRep>, logical_width: int) -> bool {
    rep matches Some(b) && b.pixels_wide > 0 && b.pixels_wide * COORD_ONE <= 4 * logical_width
}

/// How far a width is from the nearest plausible display scale, one or two
/// pixels to a point.
pub open spec fn score(pixels_wide: int, logical_width: int) -> int {
    let p = pixels_wide * COORD_ONE;
    crate::arith::min(abs(p - logical_width), abs(p - 2 * logical_width))
}

pub open spec fn abs(x: int) -> int {
    if x < 0 {
        -x
    } else {
        x
    }
}

/// `i` is the first usable representation with the least score.
pub open spec fn is_best(reps: Seq<Option<BitmapRep>>, logical_width: int, i: int) -> bool {
    &&& 0 <= i < reps.len()
    &&& usable(reps[i], logical_width)
    &&& forall|j: int|
        0 <= j < reps.len() && usable(#[trigger] reps[j], logical_width) ==> score(
            reps[i]->0.pixels_wide as int,
            logical_width,
        ) <= score(reps[j]->0.pixels_wide as int, logical_width) && (j < i ==> score(
            reps[i]->0.pixels_wide as int,
            logical_width,
        ) < score(reps[j]->0.pixels_wide as int, logical_width))
}

fn distance(a: i128, b: i128) -> (r: i128)
    requires
        -0x1_0000_0000_0000_0000_0000 <= a <= 0x1_0000_0000_0000_0000_0000,
        -0x1_0000_0000_0000_0000_0000 <= b <= 0x1_0000_0000_0000_0000_0000,
    ensures
        r == abs(a - b),
{
    if a < b {
        b - a
    } else {
        a - b
    }
}

/// A width in units of `1 / COORD_ONE` pixels.
fn fine_width(wide: i32) -> (r: i128)
    ensures
        r == wide * COORD_ONE,
{
    proof {
        assert(-0x8000_0000_0000_0000 <= wide * COORD_ONE <= 0x7fff_ffff_ffff_ffff)
            by (nonlinear_arith)
            requires
                -0x8000_0000 <= wide <= 0x7fff_ffff,
                COORD_ONE == 0x1_0000_0000,
        ;
    }
    (wide as i128) * (COORD_ONE as i128)
}

/// Picks the representation that is drawn on screen.
pub fn pick_representation(reps: &[Option<BitmapRep>], logical_width: i64) -> (r: Option<usize>)
    requires
        logical_width > 0,
    ensures
        match r {
            Some(i) => is_best(reps@, logical_width as int, i as int),
            None => forall|j: int|
                0 <= j < reps@.len() ==> !usable(#[trigger] reps@[j], logical_width as int),
        },
{
    let w: i128 = logical_width as i128;
    let mut best: Option<usize> = None;
    let mut best_score: i128 = 0;
    let mut i: usize = 0;
    while i < reps.len()
        invariant
            w == logical_width,
            w > 0,
            i <= reps@.len(),
            match best {
                Some(b) => {
                    &&& b < i
                    &&& is_best(reps@.take(i as int), w as int, b as int)
                    &&& best_score == score(reps@[b as int]->0.pixels_wide as int, w as int)
                },
                None => forall|j: int|
                    0 <= j < i ==> !usable(#[trigger] reps@[j], w as int),
            },
        decreases reps@.len() - i,
    {
        let ghost seen = reps@.take(i as int);
        let ghost next = reps@.take(i + 1);
        let mut took: bool = false;
        if let Some(bitmap) = &reps[i] {
            let wide: i32 = bitmap.pixels_wide;
            let p: i128 = fine_width(wide);
            if wide > 0 && p <= 4 * w {
                let one: i128 = distance(p, w);
                let two: i128 = distance(p, 2 * w);
                let s: i128 = if one <= two {
                    one
                } else {
                    two
                };
                assert(usable(reps@[i as int], w as int));
                assert(s == score(reps@[i as int]->0.pixels_wide as int, w as int));
                let better: bool = match best {
                    Some(_) => s < best_score,
                    None => true,
                };
                if better {
                    best = Some(i);
                    best_score = s;
                    took = true;
                }
            }
        }
        proof {
            assert(next =~= seen.push(reps@[i as int]));
            assert forall|j: int| 0 <= j < i implies #[trigger] next[j] == seen[j] && seen[j]
                == reps@[j] by {}
            if took {
                assert(is_best(next, w as int, i as int));
            } else if best is Some {
                assert(is_best(next, w as int, best->0 as int));
            }
        }
        i = i + 1;
    }
    assert(reps@.take(reps@.len() as int) =~= reps@);
    best
}

/// The RGBA bytes of a bitmap of `w` by `h` pixels whose rows are `row` bytes
/// apart.
pub open spec fn rgba_of(data: Seq<u8>, w: int, h: int, row: int, alpha_first: bool) -> Seq<u8> {
    Seq::new(
        (w * h * 4) as nat,
        |k: int|
            {
                let at = k / 4 / w * row + k / 4 % w * 4;
                if alpha_first {
                    data[at + (k % 4 + 1) % 4]
                } else {
                    data[at + k % 4]
                }
            },
    )
}

fn rgba_from(data: &[u8], w: usize, h: usize, row: usize, alpha_first: bool) -> (r: Vec<u8>)
    requires
        w * h * 4 <= usize::MAX,
        w * 4 <= row,
        row * h <= data@.len(),
    ensures
        r@ == rgba_of(data@, w as int, h as int, row as int, alpha_first),
{
    let ghost spec = rgba_of(data@, w as int, h as int, row as int, alpha_first);
    proof {
        assert(w * h <= w * h * 4) by (nonlinear_arith)
            requires
                w * h >= 0,
        ;
    }
    let pixels: usize = w * h;
    let len: usize = data.len();
    let mut out: Vec<u8> = Vec::new();
    let mut p: usize = 0;
    while p < pixels
        invariant
            pixels == w * h,
            w * h * 4 <= usize::MAX,
            w * 4 <= row,
            row * h <= len,
            len == data@.len(),
            spec == rgba_of(data@, w as int, h as int, row as int, alpha_first),
            p <= pixels,
            out@.len() == p * 4,
            forall|k: int| 0 <= k < out@.len() ==> out@[k] == #[trigger] spec[k],
        decreases pixels - p,
    {
        proof {
            lemma_pixel_offset(p as int, w as int, h as int, row as int);
        }
        let at: usize = p / w * row + p % w * 4;
        if alpha_first {
            out.push(data[at + 1]);
            out.push(data[at + 2]);
            out.push(data[at + 3]);
            out.push(data[at]);
        } else {
            out.push(data[at]);
            out.push(data[at + 1]);
            out.push(data[at + 2]);
            out.push(data[at + 3]);
        }
        p = p + 1;
    }
    assert(out@ =~= spec);
    out
}

proof fn lemma_pixel_offset(p: int, w: int, h: int, row: int)
    requires
        0 <= p < w * h,
        0 <= w,
        w * 4 <= row,
    ensures
        w > 0,
        0 <= p / w < h,
        0 <= p % w < w,
        0 <= p / w * row <= row * h,
        0 <= p / w * row + p % w * 4,
        p / w * row + p % w * 4 + 4 <= row * h,
{
    assert(w > 0) by (nonlinear_arith)
        requires
            0 <= p < w * h,
            0 <= w,
    ;
    vstd::arithmetic::div_mod::lemma_fundamental_div_mod(p, w);
    vstd::arithmetic::div_mod::lemma_mod_bound(p, w);
    let y = p / w;
    let x = p % w;
    assert(0 <= y < h) by (nonlinear_arith)
        requires
            p == w * y + x,
            0 <= x < w,
            0 <= p < w * h,
    ;
    assert(0 <= y * row && y * row + row <= row * h) by (nonlinear_arith)
        requires
            0 <= y,
            y + 1 <= h,
            0 <= row,
    ;
}

/// Pixels per point, to the nearest unit of `1 / COORD_ONE`.
pub open spec fn scale_of(pixels_wide: int, logical_width: int) -> int {
    (pixels_wide * COORD_ONE * COORD_ONE + logical_width / 2) / logical_width
}

/// The bitmap's pixels lie within its data.
pub open spec fn readable(rep: BitmapRep) -> bool {
    rep.pixels_wide > 0 && rep.pixels_high > 0 && rep.samples_per_pixel == 4 ==> (
    rep.data matches Some(data) ==> {
        &&& rep.pixels_wide * rep.pixels_high * 4 <= usize::MAX
        &&& rep.pixels_wide * 4 <= rep.bytes_per_row
        &&& rep.bytes_per_row * rep.pixels_high <= data@.len()
    })
}

/// The chosen bitmap `b` of `cursor` gives this outcome.
pub open spec fn is_shape_of(
    r: Result<CursorState, CursorFailure>,
    cursor: SystemCursor,
    b: BitmapRep,
) -> bool {
    if b.pixels_high <= 0 {
        r == Err::<CursorState, CursorFailure>(CursorFailure::BitmapSize)
    } else if b.samples_per_pixel != 4 {
        r == Err::<CursorState, CursorFailure>(CursorFailure::Samples)
    } else {
        match b.data {
            None => r == Err::<CursorState, CursorFailure>(CursorFailure::NoData),
            Some(data) => {
                &&& r matches Ok(CursorState::Shape(image))
                &&& image@ == (super::ImageView {
                    width: b.pixels_wide as u32,
                    height: b.pixels_high as u32,
                    hotspot_x: cursor.hotspot_x as i128,
                    hotspot_y: cursor.hotspot_y as i128,
                    scale: scale_of(b.pixels_wide as int, cursor.logical_width as int) as i64,
                    rgba: rgba_of(
                        data@,
                        b.pixels_wide as int,
                        b.pixels_high as int,
                        b.bytes_per_row as int,
                        b.alpha_first,
                    ),
                })
            },
        }
    }
}

/// The cursor's state, from what the system says of it. Without a cursor there
/// is nothing to show, as if it were hidden.
pub fn read_cursor(cursor: Option<&SystemCursor>) -> (r: Result<CursorState, CursorFailure>)
    requires
        cursor matches Some(c) ==> forall|i: int|
            0 <= i < c.representations@.len() ==> (#[trigger] c.representations@[i] matches Some(b)
                ==> readable(b)),
    ensures
        match cursor {
            None => r == Ok::<CursorState, CursorFailure>(CursorState::Hidden),
            Some(c) => if c.logical_width <= 0 || c.logical_height <= 0 {
                r == Err::<CursorState, CursorFailure>(CursorFailure::LogicalSize)
            } else if forall|j: int|
                0 <= j < c.representations@.len() ==> !usable(
                    #[trigger] c.representations@[j],
                    c.logical_width as int,
                ) {
                r == Err::<CursorState, CursorFailure>(CursorFailure::NoBitmap)
            } else {
                exists|i: int|
                    is_best(c.representations@, c.logical_width as int, i) && is_shape_of(
                        r,
                        *c,
                        c.representations@[i]->0,
                    )
            },
        },
{
    let c: &SystemCursor = match cursor {
        Some(c) => c,
        None => return Ok(CursorState::Hidden),
    };
    if c.logical_width <= 0 || c.logical_height <= 0 {
        return Err(CursorFailure::LogicalSize);
    }
    let best: usize = match pick_representation(c.representations.as_slice(), c.logical_width) {
        Some(i) => i,
        None => return Err(CursorFailure::NoBitmap),
    };
    assert(is_best(c.representations@, c.logical_width as int, best as int));
    let r: Result<CursorState, CursorFailure> = match &c.representations[best] {
        Some(bitmap) => read_bitmap(c, bitmap),
        None => Err(CursorFailure::NoBitmap),
    };
    assert(is_shape_of(r, *c, c.representations@[best as int]->0));
    r
}

fn read_bitmap(c: &SystemCursor, bitmap: &BitmapRep) -> (r: Result<CursorState, CursorFailure>)
    requires
        c.logical_width > 0,
        usable(Some(*bitmap), c.logical_width as int),
        readable(*bitmap),
    ensures
        is_shape_of(r, *c, *bitmap),
{
    if bitmap.pixels_high <= 0 {
        return Err(CursorFailure::BitmapSize);
    }
    if bitmap.samples_per_pixel != 4 {
        return Err(CursorFailure::Samples);
    }
    let data: &Vec<u8> = match &bitmap.data {
        Some(data) => data,
        None => return Err(CursorFailure::NoData),
    };
    let w: usize = bitmap.pixels_wide as usize;
    let h: usize = bitmap.pixels_high as usize;
    let rgba: Vec<u8> = rgba_from(data.as_slice(), w, h, bitmap.bytes_per_row, bitmap.alpha_first);
    let lw: i128 = c.logical_width as i128;
    let fine: i128 = fine_width(bitmap.pixels_wide);
    proof {
        let n = fine * COORD_ONE + lw / 2;
        assert(n / (lw as int) <= 4 * COORD_ONE + 1) by (nonlinear_arith)
            requires
                n == fine * COORD_ONE + lw / 2,
                fine <= 4 * lw,
                lw > 0,
                COORD_ONE == 0x1_0000_0000,
        ;
        assert(n / (lw as int) >= 0) by (nonlinear_arith)
            requires
                n == fine * COORD_ONE + lw / 2,
                fine >= 0,
                lw > 0,
                COORD_ONE == 0x1_0000_0000,
        ;
    }
    let scale: i64 = ((fine * (COORD_ONE as i128) + lw / 2) / lw) as i64;
    Ok(
        CursorState::Shape(
            CursorImage {
                width: bitmap.pixels_wide as u32,
                height: bitmap.pixels_high as u32,
                hotspot_x: c.hotspot_x as i128,
                hotspot_y: c.hotspot_y as i128,
                scale,
                rgba,
            },
        ),
    )
}

/// Reads the system cursor, keeping reports of failures rare.
#[derive(Debug)]
pub struct MacCursorSource {
    pub failures: FailureLog,
}

impl MacCursorSource {
    pub fn new() -> (r: Self)
        ensures
            r.failures.last_log is None,
    {
        MacCursorSource { failures: FailureLog::new() }
    }

    /// Turns an outcome into a reading, with the reason to report where it
    /// failed and a report is due.
    pub fn settle(&mut self, outcome: Result<CursorState, CursorFailure>, now: u64) -> (r: (
        Option<CursorState>,
        Option<&'static str>,
    ))
        ensures
            match outcome {
                Ok(state) => r == (Some(state), None::<&'static str>) && *final(self) == *old(self),
                Err(failure) => {
                    &&& r.0 is None
                    &&& r.1 == if old(self).failures.reports(now) {
                        Some(failure.spec_reason())
                    } else {
                        None
                    }
                    &&& final(self).failures.last_log == if old(self).failures.reports(now) {
                        Some(now)
                    } else {
                        old(self).failures.last_log
                    }
                },
            },
    {
        match outcome {
            Ok(state) => (Some(state), None),
            Err(failure) => {
                if self.failures.note(now) {
                    (None, Some(failure.reason()))
                } else {
                    (None, None)
                }
            },
        }
    }
}

/// A bitmap counts where it has pixels and at most four of them to a point; what
/// is no bitmap does not.
pub proof fn law_enlarged_bitmaps_do_not_count(b: BitmapRep, logical_width: int)
    ensures
        usable(Some(b), logical_width) == (1 <= b.pixels_wide && b.pixels_wide * 0x1_0000_0000 <= 4
            * logical_width),
        !usable(None, logical_width),
{
}

/// The score of a width is how far it is from one pixel to a point or from two,
/// whichever is nearer.
pub proof fn law_the_score_is_the_nearer_distance(pixels_wide: int, logical_width: int)
    ensures
        ({
            let p = pixels_wide * 0x1_0000_0000;
            let s = score(pixels_wide, logical_width);
            &&& s >= 0
            &&& p - logical_width >= s || logical_width - p >= s
            &&& p - 2 * logical_width >= s || 2 * logical_width - p >= s
            &&& p == logical_width + s || p == logical_width - s || p == 2 * logical_width + s || p
                == 2 * logical_width - s
        }),
{
}

/// There is one best bitmap: none that counts scores better, and of those that
/// score the same it is the first.
pub proof fn law_the_best_bitmap_comes_first(
    reps: Seq<Option<BitmapRep>>,
    logical_width: int,
    i: int,
    j: int,
)
    requires
        is_best(reps, logical_width, i),
        0 <= j < reps.len(),
        usable(reps[j], logical_width),
    ensures
        usable(reps[i], logical_width),
        ({
            let a = score(reps[i]->0.pixels_wide as int, logical_width);
            let b = score(reps[j]->0.pixels_wide as int, logical_width);
            a < b || (a == b && i <= j)
        }),
{
}

/// Pixel `x` of row `y` keeps its place and its colours, wherever the bitmap has
/// the alpha: red, green, blue and alpha come out in that order.
pub proof fn law_colours_come_out_in_order(
    data: Seq<u8>,
    w: int,
    h: int,
    row: int,
    alpha_first: bool,
    x: int,
    y: int,
)
    requires
        0 <= x < w,
        0 <= y < h,
    ensures
        ({
            let out = rgba_of(data, w, h, row, alpha_first);
            let to = (y * w + x) * 4;
            let from = y * row + x * 4;
            let first: int = if alpha_first {
                1
            } else {
                0
            };
            &&& out.len() == w * h * 4
            &&& out[to] == data[from + first]
            &&& out[to + 1] == data[from + first + 1]
            &&& out[to + 2] == data[from + first + 2]
            &&& out[to + 3] == data[if alpha_first {
                from
            } else {
                from + 3
            }]
        }),
{
    let i = y * w + x;
    crate::encode::convert::lemma_dense_index(y, x, w, h);
    assert(w * h * 4 >= i * 4 + 4);
    assert((i * 4) / 4 == i && (i * 4 + 1) / 4 == i && (i * 4 + 2) / 4 == i && (i * 4 + 3) / 4
        == i);
}

/// The scale is the number of pixels to a point, to the nearest of its units.
pub proof fn law_the_scale_is_the_nearest(pixels_wide: int, logical_width: int)
    requires
        logical_width > 0,
    ensures
        ({
            let s = scale_of(pixels_wide, logical_width);
            let exact = pixels_wide * 0x1_0000_0000 * 0x1_0000_0000;
            -logical_width <= 2 * (s * logical_width - exact) <= logical_width
        }),
{
    let exact = pixels_wide * 0x1_0000_0000 * 0x1_0000_0000;
    let n = exact + logical_width / 2;
    let s = scale_of(pixels_wide, logical_width);
    assert(s == n / logical_width);
    vstd::arithmetic::div_mod::lemma_fundamental_div_mod(n, logical_width);
    vstd::arithmetic::div_mod::lemma_mod_bound(n, logical_width);
    assert(s * logical_width == logical_width * s) by (nonlinear_arith);
}

/// A bitmap of four samples to a pixel is shown in its own size, with the system's
/// hotspot and all of its pixels; one that has no rows, other samples or no data is
/// a failure of its own kind.
pub proof fn law_bitmaps_are_shown_in_full(
    r: Result<CursorState, CursorFailure>,
    cursor: SystemCursor,
    b: BitmapRep,
)
    requires
        is_shape_of(r, cursor, b),
        0 < b.pixels_wide <= u32::MAX,
        b.pixels_high <= u32::MAX,
    ensures
        b.pixels_high <= 0 ==> r == Err::<CursorState, CursorFailure>(CursorFailure::BitmapSize),
        b.pixels_high > 0 && b.samples_per_pixel != 4 ==> r == Err::<CursorState, CursorFailure>(
            CursorFailure::Samples,
        ),
        b.pixels_high > 0 && b.samples_per_pixel == 4 && b.data is None ==> r == Err::<
            CursorState,
            CursorFailure,
        >(CursorFailure::NoData),
        b.pixels_high > 0 && b.samples_per_pixel == 4 && b.data is Some ==> (r matches Ok(
            CursorState::Shape(image),
        ) && {
            &&& image.width == b.pixels_wide
            &&& image.height == b.pixels_high
            &&& image.hotspot_x == cursor.hotspot_x
            &&& image.hotspot_y == cursor.hotspot_y
            &&& image.rgba@.len() == image.width * image.height * 4
        }),
{
    let w = b.pixels_wide as int;
    let h = b.pixels_high as int;
    if h > 0 {
        assert(w * h * 4 >= 0) by (nonlinear_arith)
            requires
                w > 0,
                h > 0,
        ;
    }
}

/// Every failure is reported in words of its own.
pub proof fn law_reasons_differ(a: CursorFailure, b: CursorFailure)
    requires
        a != b,
    ensures
        a.spec_reason()@ != b.spec_reason()@,
{
    reveal_strlit("cursor image has non-positive logical size");
    reveal_strlit("no usable NSBitmapImageRep in cursor image representations");
    reveal_strlit("cursor bitmap has non-positive dimensions");
    reveal_strlit("cursor bitmap is not 4 samples per pixel");
    reveal_strlit("NSBitmapImageRep.bitmapData returned null");
    let s = a.spec_reason()@;
    let t = b.spec_reason()@;
    assert(s.len() != t.len() || s[0] != t[0] || s[7] != t[7]);
}

} // verus!
