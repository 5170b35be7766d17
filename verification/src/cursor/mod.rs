//! The shape of the system cursor: what is read of it, and which readings are
//! worth sending.

use vstd::prelude::*;

pub mod macos;
pub mod windows;

verus! {

/// A cursor image, in device pixels. Hotspot (in logical points) and scale
/// (pixels per point) count in units of `1 / COORD_ONE`.
#[derive(Debug, Clone, PartialEq, Eq)]
pub struct CursorImage {
    pub width: u32,
    pub height: u32,
    pub hotspot_x: i128,
    pub hotspot_y: i128,
    pub scale: i64,
    /// `width * height * 4` bytes.
    pub rgba: Vec<u8>,
}

/// What was read of the system cursor.
#[derive(Debug, Clone, PartialEq, Eq)]
pub enum CursorState {
    Shape(CursorImage),
    Hidden,
}

/// A cursor image as a value.
pub struct ImageView {
    pub width: u32,
    pub height: u32,
    pub hotspot_x: i128,
    pub hotspot_y: i128,
    pub scale: i64,
    pub rgba: Seq<u8>,
}

impl View for CursorImage {
    type V = ImageView;

    open spec fn view(&self) -> ImageView {
        ImageView {
            width: self.width,
            height: self.height,
            hotspot_x: self.hotspot_x,
            hotspot_y: self.hotspot_y,
            scale: self.scale,
            rgba: self.rgba@,
        }
    }
}

impl View for CursorState {
    type V = Option<ImageView>;

    /// The image, or nothing where the cursor is hidden.
    open spec fn view(&self) -> Option<ImageView> {
        match self {
            CursorState::Shape(image) => Some(image@),
            CursorState::Hidden => None,
        }
    }
}

/// Something that reads the shape of the system cursor. `None` is a failed
/// reading: whatever was shown stays.
pub trait CursorSource {
    fn current(&mut self) -> Option<CursorState>;
}

/// A source for platforms without one: it never reads anything.
#[derive(Debug, Default)]
pub struct NoopCursorSource;

impl NoopCursorSource {
    pub fn new() -> (r: Self) {
        NoopCursorSource
    }
}

impl CursorSource for NoopCursorSource {
    fn current(&mut self) -> (r: Option<CursorState>)
        ensures
            r is None,
    {
        None
    }
}

/// A browser cannot show a larger cursor, so larger images are not sent.
pub const MAX_CURSOR_DIMENSION: u32 = 128;

fn same_bytes(a: &[u8], b: &[u8]) -> (r: bool)
    ensures
        r == (a@ == b@),
{
    if a.len() != b.len() {
        return false;
    }
    let mut i: usize = 0;
    while i < a.len()
        invariant
            a@.len() == b@.len(),
            i <= a@.len(),
            forall|j: int| 0 <= j < i ==> a@[j] == b@[j],
        decreases a@.len() - i,
    {
        if a[i] != b[i] {
            return false;
        }
        i = i + 1;
    }
    assert(a@ =~= b@);
    true
}

impl CursorState {
    /// Whether two readings show the same cursor.
    pub fn same_as(&self, other: &CursorState) -> (r: bool)
        ensures
            r == (self@ == other@),
    {
        match (self, other) {
            (CursorState::Shape(a), CursorState::Shape(b)) => a.width == b.width && a.height
                == b.height && a.hotspot_x == b.hotspot_x && a.hotspot_y == b.hotspot_y && a.scale
                == b.scale && same_bytes(a.rgba.as_slice(), b.rgba.as_slice()),
            (CursorState::Hidden, CursorState::Hidden) => true,
            _ => false,
        }
    }

    /// A second copy of a reading.
    pub fn duplicate(&self) -> (r: CursorState)
        ensures
            r@ == self@,
    {
        match self {
            CursorState::Shape(image) => {
                let mut rgba: Vec<u8> = Vec::new();
                rgba.extend_from_slice(image.rgba.as_slice());
                assert(rgba@ =~= image.rgba@);
                CursorState::Shape(
                    CursorImage {
                        width: image.width,
                        height: image.height,
                        hotspot_x: image.hotspot_x,
                        hotspot_y: image.hotspot_y,
                        scale: image.scale,
                        rgba,
                    },
                )
            },
            CursorState::Hidden => CursorState::Hidden,
        }
    }
}

/// Too large in either dimension.
pub open spec fn oversized(state: Option<ImageView>) -> bool {
    state matches Some(image) && (image.width > MAX_CURSOR_DIMENSION || image.height
        > MAX_CURSOR_DIMENSION)
}

/// Finds the changes in a series of readings.
#[derive(Debug)]
pub struct CursorWatch {
    /// The reading last sent.
    pub last: Option<CursorState>,
}

/// The reading last sent, as a value.
pub open spec fn last_sent(w: CursorWatch) -> Option<Option<ImageView>> {
    match w.last {
        Some(state) => Some(state@),
        None => None,
    }
}

/// A reading is sent: it is not too large and differs from the last one sent.
/// The first one always counts as a change.
pub open spec fn is_news(last: Option<Option<ImageView>>, state: Option<ImageView>) -> bool {
    !oversized(state) && last != Some(state)
}

impl CursorWatch {
    pub fn new() -> (r: Self)
        ensures
            r.last is None,
    {
        CursorWatch { last: None }
    }

    /// Takes in a reading; returns it where it is to be sent. Failed readings
    /// and images too large to show change nothing.
    pub fn observe(&mut self, reading: Option<CursorState>) -> (r: Option<CursorState>)
        ensures
            match reading {
                None => r is None && *final(self) == *old(self),
                Some(state) => if is_news(last_sent(*old(self)), state@) {
                    &&& r matches Some(sent) && sent@ == state@
                    &&& last_sent(*final(self)) == Some(state@)
                } else {
                    r is None && *final(self) == *old(self)
                },
            },
    {
        let state: CursorState = match reading {
            Some(state) => state,
            None => return None,
        };
        if let CursorState::Shape(image) = &state {
            if image.width > MAX_CURSOR_DIMENSION || image.height > MAX_CURSOR_DIMENSION {
                return None;
            }
        }
        let known: bool = match &self.last {
            Some(last) => last.same_as(&state),
            None => false,
        };
        if known {
            return None;
        }
        let sent: CursorState = state.duplicate();
        self.last = Some(state);
        Some(sent)
    }
}

/// Least time between two reports of failed readings, in nanoseconds.
pub const LOG_INTERVAL: u64 = 1_000_000_000;

/// Keeps reports of failed readings to one per [`LOG_INTERVAL`].
#[derive(Debug, Clone, Copy)]
pub struct FailureLog {
    pub last_log: Option<u64>,
}

impl FailureLog {
    /// A failure at `now` is reported.
    pub open spec fn reports(self, now: u64) -> bool {
        match self.last_log {
            Some(t) => now >= t && now - t >= LOG_INTERVAL,
            None => true,
        }
    }

    pub fn new() -> (r: Self)
        ensures
            r.last_log is None,
    {
        FailureLog { last_log: None }
    }

    /// Whether to report a failure at `now`.
    pub fn note(&mut self, now: u64) -> (r: bool)
        ensures
            r == old(self).reports(now),
            final(self).last_log == if r {
                Some(now)
            } else {
                old(self).last_log
            },
    {
        let report: bool = match self.last_log {
            Some(t) => now >= t && now - t >= LOG_INTERVAL,
            None => true,
        };
        if report {
            self.last_log = Some(now);
        }
        report
    }
}

/// A reading that was sent is not sent again while nothing else is.
pub proof fn law_a_reading_is_sent_once(state: Option<ImageView>)
    ensures
        !is_news(Some(state), state),
{
}

/// Every reading that can be shown and differs in any way from the one last sent
/// is sent: in its size, its hotspot, its scale or a byte of its pixels, or in
/// being hidden. The first one always is.
pub proof fn law_every_change_is_sent(last: Option<Option<ImageView>>, state: Option<ImageView>)
    requires
        state matches Some(image) ==> image.width <= 128 && image.height <= 128,
        last matches Some(shown) ==> {
            ||| shown is None && state is Some
            ||| shown is Some && state is None
            ||| shown is Some && state is Some && (shown->0.width != state->0.width
                || shown->0.height != state->0.height || shown->0.hotspot_x != state->0.hotspot_x
                || shown->0.hotspot_y != state->0.hotspot_y || shown->0.scale != state->0.scale
                || shown->0.rgba != state->0.rgba)
        },
    ensures
        is_news(last, state),
{
}

/// An image of more than 128 pixels in either direction is never sent.
pub proof fn law_a_large_cursor_is_not_sent(last: Option<Option<ImageView>>, image: ImageView)
    requires
        image.width > 128 || image.height > 128,
    ensures
        !is_news(last, Some(image)),
{
}

/// Two readings count as the same cursor only where all of their fields agree.
pub proof fn law_the_view_leaves_nothing_out(a: CursorImage, b: CursorImage)
    requires
        CursorState::Shape(a)@ == CursorState::Shape(b)@,
    ensures
        a.width == b.width,
        a.height == b.height,
        a.hotspot_x == b.hotspot_x,
        a.hotspot_y == b.hotspot_y,
        a.scale == b.scale,
        a.rgba@ == b.rgba@,
        CursorState::Shape(a)@ != CursorState::Hidden@,
{
}

/// The first failure is reported, and after that one that comes a second or more
/// behind the last report; none that comes sooner.
pub proof fn law_failures_are_reported_once_a_second(log: FailureLog, now: u64)
    ensures
        log.last_log is None ==> log.reports(now),
        log.last_log matches Some(t) ==> log.reports(now) == (now - t >= 1_000_000_000),
{
}

} // verus!
