//! Frame sources: what produces raw video frames for the encode stage.
//!
//! Nothing here touches the screen or the clock. A source is handed the pixels
//! or the capture instant (nanoseconds on the caller's monotonic clock) and
//! decides what comes out.

use vstd::prelude::*;

use crate::proto::HostOs;
use crate::text::concat;

pub mod gdi;
pub mod scap;
pub mod synthetic;

verus! {

/// A raw video frame. `Nv12` is what macOS captures (biplanar 4:2:0), `Bgra`
/// what Windows captures.
#[derive(Debug, Clone)]
pub enum RawFrame {
    Nv12 {
        width: u32,
        height: u32,
        y: Vec<u8>,
        y_stride: usize,
        uv: Vec<u8>,
        uv_stride: usize,
        ts: u64,
    },
    Bgra { width: u32, height: u32, data: Vec<u8>, stride: usize, ts: u64 },
}

impl RawFrame {
    /// When the frame was captured.
    pub open spec fn spec_ts(self) -> u64 {
        match self {
            RawFrame::Nv12 { ts, .. } => ts,
            RawFrame::Bgra { ts, .. } => ts,
        }
    }

    pub fn ts(&self) -> (r: u64)
        ensures
            r == self.spec_ts(),
    {
        match self {
            RawFrame::Nv12 { ts, .. } => *ts,
            RawFrame::Bgra { ts, .. } => *ts,
        }
    }
}

/// Something that produces raw frames, one call at a time.
pub trait FrameSource {
    /// The source can be asked for another frame.
    open spec fn ready(&self) -> bool {
        true
    }

    /// The next frame, stamped with the capture instant `ts`.
    fn next_frame(&mut self, ts: u64) -> Result<RawFrame, CaptureError>
        requires
            old(self).ready(),
    ;

    fn size(&self) -> (u32, u32);
}

/// A capturable display and its place on the virtual screen.
#[derive(Debug, Clone)]
pub struct DisplayInfo {
    pub id: u32,
    pub title: String,
    pub x: i32,
    pub y: i32,
    pub width: u32,
    pub height: u32,
    pub primary: bool,
}

#[derive(Debug, Clone)]
pub enum CaptureError {
    PermissionDenied,
    Unsupported,
    Backend(String),
    Stopped,
}

impl CaptureError {
    /// The text shown to the user.
    pub open spec fn spec_message(self) -> Seq<char> {
        match self {
            CaptureError::PermissionDenied => "screen recording permission not granted"@,
            CaptureError::Unsupported => "screen capture is not supported on this platform"@,
            CaptureError::Backend(detail) => "capture backend error: "@ + detail@,
            CaptureError::Stopped => "capture source stopped"@,
        }
    }

    pub fn message(&self) -> (r: String)
        ensures
            r@ == self.spec_message(),
    {
        match self {
            CaptureError::PermissionDenied => String::from_str(
                "screen recording permission not granted",
            ),
            CaptureError::Unsupported => String::from_str(
                "screen capture is not supported on this platform",
            ),
            CaptureError::Backend(detail) => concat("capture backend error: ", detail.as_str()),
            CaptureError::Stopped => String::from_str("capture source stopped"),
        }
    }
}

/// What the capture backend offers: a display, or a window (never listed).
#[derive(Debug)]
pub enum CaptureTarget {
    Display(DisplayInfo),
    Window,
}

/// The displays among `targets`, in their order.
pub open spec fn displays_of(targets: Seq<CaptureTarget>) -> Seq<DisplayInfo>
    decreases targets.len(),
{
    if targets.len() == 0 {
        Seq::empty()
    } else {
        match targets.last() {
            CaptureTarget::Display(d) => displays_of(targets.drop_last()).push(d),
            CaptureTarget::Window => displays_of(targets.drop_last()),
        }
    }
}

/// Lists the displays among the capture backend's targets. Where capture is not
/// supported, or the user has not granted the permission, that is reported;
/// nothing ever prompts for it.
pub fn list_displays(
    os: HostOs,
    supported: bool,
    permitted: bool,
    targets: Vec<CaptureTarget>,
) -> (r: Result<Vec<DisplayInfo>, CaptureError>)
    ensures
        match r {
            Ok(displays) => os != HostOs::Other && supported && permitted && displays@
                == displays_of(targets@),
            Err(CaptureError::Unsupported) => os == HostOs::Other || !supported,
            Err(CaptureError::PermissionDenied) => os != HostOs::Other && supported && !permitted,
            Err(_) => false,
        },
{
    if os == HostOs::Other || !supported {
        return Err(CaptureError::Unsupported);
    }
    if !permitted {
        return Err(CaptureError::PermissionDenied);
    }
    let mut out: Vec<DisplayInfo> = Vec::new();
    let ghost all = targets@;
    for target in it: targets
        invariant
            it.seq() == all,
            out@ == displays_of(all.take(it.index())),
    {
        proof {
            assert(all.take(it.index() + 1).drop_last() =~= all.take(it.index()));
        }
        match target {
            CaptureTarget::Display(d) => out.push(d),
            CaptureTarget::Window => {},
        }
    }
    proof {
        assert(all.take(all.len() as int) =~= all);
    }
    Ok(out)
}

/// `i` is the display captured when none was asked for: the first primary one,
/// or the very first where none is primary.
pub open spec fn is_default(displays: Seq<DisplayInfo>, i: int) -> bool {
    &&& 0 <= i < displays.len()
    &&& if displays[i].primary {
        forall|j: int| 0 <= j < i ==> !displays[j].primary
    } else {
        i == 0 && forall|j: int| 0 <= j < displays.len() ==> !displays[j].primary
    }
}

/// The display to capture when none was asked for; `None` without displays.
pub fn default_display(displays: &[DisplayInfo]) -> (r: Option<&DisplayInfo>)
    ensures
        match r {
            Some(d) => exists|i: int| is_default(displays@, i) && displays@[i] == *d,
            None => displays@.len() == 0,
        },
{
    let mut i: usize = 0;
    while i < displays.len()
        invariant
            i <= displays.len(),
            forall|j: int| 0 <= j < i ==> !displays@[j].primary,
        decreases displays.len() - i,
    {
        if displays[i].primary {
            assert(is_default(displays@, i as int));
            return Some(&displays[i]);
        }
        i = i + 1;
    }
    if displays.len() == 0 {
        return None;
    }
    assert(is_default(displays@, 0));
    Some(&displays[0])
}

/// Fixed-rate schedule for sources that poll on a timer.
#[derive(Debug, Clone, Copy)]
pub struct FramePacer {
    pub next_tick: u64,
    pub interval: u64,
}

/// How many intervals behind schedule are made up for with shorter waits
/// before the schedule starts anew.
pub const CATCH_UP_LIMIT: u64 = 4;

/// Nanoseconds of one frame at `fps` (at least 1): `10^9 / fps` to the nearest
/// whole one, ties to even.
pub open spec fn frame_interval(fps: u32) -> int {
    let d = if fps == 0 {
        1int
    } else {
        fps as int
    };
    let q = 1_000_000_000int / d;
    let r = 1_000_000_000int % d;
    if 2 * r > d || 2 * r == d && q % 2 == 1 {
        q + 1
    } else {
        q
    }
}

impl FramePacer {
    /// The tick after `now` can be represented.
    pub open spec fn has_room(self, now: u64) -> bool {
        &&& self.interval <= 1_000_000_000
        &&& self.next_tick + self.interval <= u64::MAX
        &&& now + self.interval <= u64::MAX
    }

    /// More than [`CATCH_UP_LIMIT`] intervals late at `now`.
    pub open spec fn hopelessly_late(self, now: u64) -> bool {
        now >= self.next_tick && now - self.next_tick > self.interval * CATCH_UP_LIMIT
    }

    /// A schedule whose first tick is due at once.
    pub fn new(fps: u32, now: u64) -> (r: Self)
        ensures
            r.next_tick == now,
            r.interval == frame_interval(fps),
            r.interval <= 1_000_000_000,
    {
        let d: u32 = if fps == 0 {
            1
        } else {
            fps
        };
        let q: u64 = 1_000_000_000 / (d as u64);
        let r: u64 = 1_000_000_000 % (d as u64);
        proof {
            let dd = d as int;
            assert(q <= 1_000_000_000 && (d >= 2 ==> q <= 500_000_000)) by (nonlinear_arith)
                requires
                    q == 1_000_000_000int / dd,
                    dd == d,
                    d >= 1,
            ;
            assert(d == 1 ==> r == 0);
        }
        let interval: u64 = if 2 * r > d as u64 || 2 * r == d as u64 && q % 2 == 1 {
            q + 1
        } else {
            q
        };
        FramePacer { next_tick: now, interval }
    }

    /// How long to wait from `now` for the next tick; moves the schedule on by
    /// one interval. Ordinary lateness is made up for by shorter waits, so the
    /// average rate holds; a caller who fell behind too far starts anew from
    /// `now` instead of getting a burst of ticks.
    pub fn wait(&mut self, now: u64) -> (sleep: u64)
        requires
            old(self).has_room(now),
        ensures
            sleep == sleep_of(*old(self), now),
            sleep == crate::arith::monus(old(self).next_tick as int, now as int),
            *final(self) == waited(*old(self), now),
            final(self).interval == old(self).interval,
            final(self).next_tick == old(self).interval + if old(self).hopelessly_late(now) {
                now
            } else {
                old(self).next_tick
            },
    {
        let mut sleep: u64 = 0;
        if now < self.next_tick {
            sleep = self.next_tick - now;
        } else if now - self.next_tick > self.interval * CATCH_UP_LIMIT {
            self.next_tick = now;
        }
        self.next_tick = self.next_tick + self.interval;
        sleep
    }
}

/// How long a wait begun at `now` takes.
pub open spec fn sleep_of(p: FramePacer, now: u64) -> int {
    crate::arith::monus(p.next_tick as int, now as int)
}

/// The schedule after a wait begun at `now`.
pub open spec fn waited(p: FramePacer, now: u64) -> FramePacer {
    FramePacer {
        next_tick: (p.interval + if p.hopelessly_late(now) {
            now
        } else {
            p.next_tick
        }) as u64,
        ..p
    }
}

/// A wait never leaves more than three intervals of backlog, however far the
/// caller had fallen behind.
pub proof fn law_backlog_is_bounded(p: FramePacer, now: u64)
    requires
        p.has_room(now),
    ensures
        now <= waited(p, now).next_tick + p.interval * (CATCH_UP_LIMIT - 1),
        p.hopelessly_late(now) ==> waited(p, now).next_tick >= now,
{
    assert(p.interval * (CATCH_UP_LIMIT - 1) == p.interval * CATCH_UP_LIMIT - p.interval)
        by (nonlinear_arith);
}

/// A caller who keeps up is never given ticks faster than one per interval.
pub proof fn law_ticks_are_an_interval_apart(p: FramePacer, now: u64)
    requires
        p.has_room(now),
    ensures
        waited(p, now).next_tick >= p.next_tick + p.interval,
        !p.hopelessly_late(now) ==> waited(p, now).next_tick == p.next_tick + p.interval,
{
}

/// Whether `cur` holds the very bytes of the previous frame. Without a previous
/// frame nothing is unchanged.
pub fn frame_unchanged(prev: Option<&[u8]>, cur: &[u8]) -> (r: bool)
    ensures
        r == (prev matches Some(p) && p@ == cur@),
{
    match prev {
        Some(p) => {
            if p.len() != cur.len() {
                return false;
            }
            let mut i: usize = 0;
            while i < p.len()
                invariant
                    p@.len() == cur@.len(),
                    i <= p@.len(),
                    forall|j: int| 0 <= j < i ==> p@[j] == cur@[j],
                    prev == Some(p),
                decreases p@.len() - i,
            {
                if p[i] != cur[i] {
                    return false;
                }
                i = i + 1;
            }
            assert(p@ =~= cur@);
            true
        },
        None => false,
    }
}

/// A wait ends at the tick it is for, or at once where that has passed.
pub proof fn law_a_wait_ends_at_its_tick(p: FramePacer, now: u64)
    ensures
        sleep_of(p, now) >= 0,
        now + sleep_of(p, now) >= p.next_tick,
        now + sleep_of(p, now) == p.next_tick || (sleep_of(p, now) == 0 && now > p.next_tick),
{
}

/// Up to four intervals of delay are made up for, and a schedule that is later
/// than that starts anew from now.
pub proof fn law_a_schedule_is_kept_or_started_anew(p: FramePacer, now: u64)
    requires
        p.has_room(now),
    ensures
        now - p.next_tick <= 4 * p.interval ==> waited(p, now).next_tick == p.next_tick
            + p.interval,
        now - p.next_tick > 4 * p.interval ==> waited(p, now).next_tick == now + p.interval,
        waited(p, now).interval == p.interval,
{
}

/// The interval of a frame rate is the whole number of nanoseconds nearest to a
/// second's share.
pub proof fn law_intervals_are_nearest(fps: u32)
    requires
        fps > 0,
    ensures
        -fps <= 2 * (frame_interval(fps) * fps) - 2_000_000_000 <= fps,
{
    let d = fps as int;
    let q = 1_000_000_000int / d;
    let r = 1_000_000_000int % d;
    vstd::arithmetic::div_mod::lemma_fundamental_div_mod(1_000_000_000, d);
    vstd::arithmetic::div_mod::lemma_mod_bound(1_000_000_000, d);
    assert(q * d == d * q && (q + 1) * d == d * q + d) by (nonlinear_arith);
}

/// Of what can be captured the displays are listed, all of them, in their order,
/// and nothing else.
pub proof fn law_displays_are_listed_in_order(
    a: Seq<CaptureTarget>,
    d: DisplayInfo,
    b: Seq<CaptureTarget>,
)
    ensures
        displays_of(a + b) == displays_of(a) + displays_of(b),
        displays_of(seq![CaptureTarget::Display(d)]) == seq![d],
        displays_of(seq![CaptureTarget::Window]).len() == 0,
    decreases b.len(),
{
    let one = seq![CaptureTarget::Display(d)];
    let window = seq![CaptureTarget::Window];
    assert(one.drop_last() =~= Seq::empty());
    assert(window.drop_last() =~= Seq::empty());
    assert(displays_of(Seq::<CaptureTarget>::empty()) =~= Seq::empty());
    assert(displays_of(one) =~= seq![d]);
    if b.len() == 0 {
        assert(a + b =~= a);
        assert(displays_of(a) + displays_of(b) =~= displays_of(a));
    } else {
        law_displays_are_listed_in_order(a, d, b.drop_last());
        assert((a + b).drop_last() =~= a + b.drop_last());
        assert(displays_of(a + b) =~= displays_of(a) + displays_of(b));
    }
}

/// Every error is told in words of its own, and what a backend says is passed on.
pub proof fn law_errors_are_told_apart(a: CaptureError, b: CaptureError)
    requires
        a.spec_message() == b.spec_message(),
    ensures
        a is PermissionDenied <==> b is PermissionDenied,
        a is Unsupported <==> b is Unsupported,
        a is Stopped <==> b is Stopped,
        a matches CaptureError::Backend(s) ==> (b matches CaptureError::Backend(t) && s@ == t@),
{
    reveal_strlit("screen recording permission not granted");
    reveal_strlit("screen capture is not supported on this platform");
    reveal_strlit("capture backend error: ");
    reveal_strlit("capture source stopped");
    let m = a.spec_message();
    let n = b.spec_message();
    assert(m[0] == n[0] && m[1] == n[1] && m[7] == n[7] && m[8] == n[8]);
    if let (CaptureError::Backend(s), CaptureError::Backend(t)) = (a, b) {
        assert(m.skip(23) =~= s@);
        assert(n.skip(23) =~= t@);
    }
}

/// The display captured when none was asked for is the first primary one; where
/// none is primary it is the first.
pub proof fn law_the_primary_display_is_the_default(displays: Seq<DisplayInfo>, i: int, j: int)
    requires
        is_default(displays, i),
        0 <= j < displays.len(),
    ensures
        0 <= i < displays.len(),
        displays[j].primary ==> displays[i].primary && i <= j,
        !displays[i].primary ==> i == 0 && !displays[j].primary,
{
}

} // verus!
