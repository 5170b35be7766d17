//! The rules of the video pipeline between a frame source and an encoder: the
//! single-slot mailbox from the capture to the encode side, the pacer that
//! holds the encoder to the target frame rate, rate changes and keyframe
//! requests. The threads that run it share one [`Pipeline`] behind a lock.

use vstd::prelude::*;

use crate::arith::wide_mul;
use crate::capture::RawFrame;
use crate::encode::RateTarget;

verus! {

/// Encoded frames that may sit in the output channel.
pub const FRAME_CHANNEL_CAPACITY: usize = 4;

/// How long the encode side waits for a frame before it looks at the stop flag
/// again, in nanoseconds.
pub const SLOT_WAIT_TIMEOUT: u64 = 100_000_000;

/// One token of the pacer, in its unit (a billionth of a token).
pub const PACER_TOKEN: u64 = 1_000_000_000;

/// The most the pacer's bucket holds: three tokens. Enough for the frames that
/// a source owes after it overslept by a couple of intervals.
pub const PACER_BURST: u64 = 3_000_000_000;

/// Counters of what became of the frames. They wrap around.
#[derive(Debug, Clone, Copy, PartialEq, Eq, Structural)]
pub struct PipelineStats {
    pub captured: u64,
    pub encoded: u64,
    /// Encoded and not delivered.
    pub dropped: u64,
    pub keyframes: u64,
    /// Skipped by the pacer.
    pub paced_out: u64,
    /// Replaced in the slot before the encode side took them.
    pub overwritten: u64,
}

/// One more, around the end of the range.
pub open spec fn bumped(n: u64) -> u64 {
    if n == u64::MAX {
        0
    } else {
        (n + 1) as u64
    }
}

fn bump(n: u64) -> (r: u64)
    ensures
        r == bumped(n),
{
    if n == u64::MAX {
        0
    } else {
        n + 1
    }
}

impl PipelineStats {
    pub open spec fn zero() -> PipelineStats {
        PipelineStats {
            captured: 0,
            encoded: 0,
            dropped: 0,
            keyframes: 0,
            paced_out: 0,
            overwritten: 0,
        }
    }
}

/// The rate target shared with whoever drives adaptation.
#[derive(Debug, Clone, Copy, PartialEq, Eq, Structural)]
pub struct RateControl {
    /// Staged for the encoder.
    pub pending: Option<RateTarget>,
    /// What the pacer goes by.
    pub fps: u32,
}

impl RateControl {
    pub fn new(initial: RateTarget) -> (r: Self)
        ensures
            r == (RateControl { pending: None, fps: initial.fps }),
    {
        RateControl { pending: None, fps: initial.fps }
    }

    /// Stages `target` for the encoder; the pacer goes by it at once.
    pub fn set(&mut self, target: RateTarget)
        ensures
            *final(self) == (RateControl { pending: Some(target), fps: target.fps }),
    {
        self.pending = Some(target);
        self.fps = target.fps;
    }

    /// The frame rate the pacer goes by.
    pub fn fps(&self) -> (r: u32)
        ensures
            r == self.fps,
    {
        self.fps
    }

    /// Hands the staged target over, once.
    pub fn take(&mut self) -> (r: Option<RateTarget>)
        ensures
            r == old(self).pending,
            *final(self) == (RateControl { pending: None, fps: old(self).fps }),
    {
        let target: Option<RateTarget> = self.pending;
        self.pending = None;
        target
    }
}

/// A token bucket along the capture clock: tokens accrue at the target frame
/// rate, and each encoded frame costs one.
#[derive(Debug, Clone, Copy, PartialEq, Eq, Structural)]
pub struct Pacer {
    /// In units of `1 / PACER_TOKEN`.
    pub tokens: u64,
    pub last_captured_at: Option<u64>,
}

impl Pacer {
    pub open spec fn wf(self) -> bool {
        self.tokens <= PACER_BURST
    }

    /// A full bucket, so that the first frames go straight through.
    pub open spec fn full() -> Pacer {
        Pacer { tokens: PACER_BURST, last_captured_at: None }
    }

    /// The bucket's content when a frame captured at `at` arrives: topped up by
    /// the time since the previous frame, up to the burst.
    pub open spec fn topped_up(self, at: u64, fps: u32) -> int {
        match self.last_captured_at {
            Some(last) => crate::arith::min(
                self.tokens + crate::arith::monus(at as int, last as int) * crate::arith::max(
                    fps as int,
                    1,
                ),
                PACER_BURST as int,
            ),
            None => self.tokens as int,
        }
    }

    /// Whether that frame is let through.
    pub open spec fn admits(self, at: u64, fps: u32) -> bool {
        self.topped_up(at, fps) >= PACER_TOKEN
    }

    /// The pacer after that frame.
    pub open spec fn after(self, at: u64, fps: u32) -> Pacer {
        Pacer {
            tokens: (self.topped_up(at, fps) - if self.admits(at, fps) {
                PACER_TOKEN as int
            } else {
                0
            }) as u64,
            last_captured_at: Some(at),
        }
    }

    pub fn new() -> (r: Self)
        ensures
            r == Pacer::full(),
            r.wf(),
    {
        Pacer { tokens: PACER_BURST, last_captured_at: None }
    }

    /// Decides whether the frame captured at `at` is encoded.
    pub fn pass(&mut self, at: u64, fps: u32) -> (r: bool)
        requires
            old(self).wf(),
        ensures
            r == old(self).admits(at, fps),
            *final(self) == old(self).after(at, fps),
            final(self).wf(),
    {
        let rate: u32 = if fps == 0 {
            1
        } else {
            fps
        };
        if let Some(last) = self.last_captured_at {
            let elapsed: u64 = at.saturating_sub(last);
            let room: u64 = PACER_BURST - self.tokens;
            let earned: u128 = wide_mul(elapsed, rate as u64);
            if earned >= room as u128 {
                self.tokens = PACER_BURST;
            } else {
                self.tokens = self.tokens + earned as u64;
            }
        }
        self.last_captured_at = Some(at);
        if self.tokens < PACER_TOKEN {
            return false;
        }
        self.tokens = self.tokens - PACER_TOKEN;
        true
    }
}

/// What to do with a frame that was taken out of the slot.
#[derive(Debug, Clone, Copy, PartialEq, Eq, Structural)]
pub struct FramePlan {
    /// A rate to apply to the encoder first.
    pub rate: Option<RateTarget>,
    /// Encode the frame, as a forced keyframe where the value is `true`; `None`
    /// skips it.
    pub encode: Option<bool>,
}

/// What came of encoding a frame.
#[derive(Debug, Clone, Copy, PartialEq, Eq, Structural)]
pub enum EncodeOutcome {
    /// A frame came out; `delivered` says whether the channel took it.
    Encoded { keyframe: bool, delivered: bool },
    /// The encoder skipped the frame.
    Nothing,
    Failed,
}

/// The state that the capture side, the encode side and the session share.
#[derive(Debug)]
pub struct Pipeline {
    /// The newest frame that the encode side has not taken.
    pub slot: Option<RawFrame>,
    pub rate_control: RateControl,
    pub keyframe_requested: bool,
    pub pacer: Pacer,
    pub stats: PipelineStats,
    pub stopped: bool,
}

impl Pipeline {
    pub open spec fn wf(self) -> bool {
        self.pacer.wf()
    }

    /// A pipeline that has seen no frame.
    pub fn start(initial: RateTarget) -> (r: Self)
        ensures
            r.wf(),
            r == (Pipeline {
                slot: None,
                rate_control: RateControl { pending: None, fps: initial.fps },
                keyframe_requested: false,
                pacer: Pacer::full(),
                stats: PipelineStats::zero(),
                stopped: false,
            }),
    {
        Pipeline {
            slot: None,
            rate_control: RateControl::new(initial),
            keyframe_requested: false,
            pacer: Pacer::new(),
            stats: PipelineStats {
                captured: 0,
                encoded: 0,
                dropped: 0,
                keyframes: 0,
                paced_out: 0,
                overwritten: 0,
            },
            stopped: false,
        }
    }

    /// The state after a frame was captured.
    pub open spec fn with_captured(self, frame: RawFrame) -> Pipeline {
        Pipeline {
            slot: Some(frame),
            stats: PipelineStats {
                captured: bumped(self.stats.captured),
                overwritten: if self.slot is Some {
                    bumped(self.stats.overwritten)
                } else {
                    self.stats.overwritten
                },
                ..self.stats
            },
            ..self
        }
    }

    /// Takes in a captured frame. A frame still in the slot is overwritten and
    /// counted: the encoder has not kept up.
    pub fn captured(&mut self, frame: RawFrame)
        requires
            old(self).wf(),
        ensures
            final(self).wf(),
            *final(self) == old(self).with_captured(frame),
    {
        self.stats.captured = bump(self.stats.captured);
        if self.slot.is_some() {
            self.stats.overwritten = bump(self.stats.overwritten);
        }
        self.slot = Some(frame);
    }

    /// Takes the newest frame out of the slot.
    pub fn take_frame(&mut self) -> (r: Option<RawFrame>)
        requires
            old(self).wf(),
        ensures
            final(self).wf(),
            r == old(self).slot,
            *final(self) == (Pipeline { slot: None, ..*old(self) }),
    {
        self.slot.take()
    }

    /// The pacer lets a frame captured at `at` through, and the output channel,
    /// with room for `capacity` more frames, can take the result. A frame that
    /// nobody can take is never encoded: losing an encoded frame would break
    /// the decoder's chain of references.
    pub open spec fn encodes(self, at: u64, capacity: usize) -> bool {
        self.pacer.admits(at, self.rate_control.fps) && capacity > 0
    }

    /// The plan for a frame captured at `at`.
    pub open spec fn plan(self, at: u64, capacity: usize) -> FramePlan {
        FramePlan {
            rate: self.rate_control.pending,
            encode: if self.encodes(at, capacity) {
                Some(self.keyframe_requested)
            } else {
                None
            },
        }
    }

    /// The state after that plan was made.
    pub open spec fn planned(self, at: u64, capacity: usize) -> Pipeline {
        Pipeline {
            rate_control: RateControl { pending: None, ..self.rate_control },
            pacer: self.pacer.after(at, self.rate_control.fps),
            keyframe_requested: self.keyframe_requested && !self.encodes(at, capacity),
            stats: if !self.pacer.admits(at, self.rate_control.fps) {
                PipelineStats { paced_out: bumped(self.stats.paced_out), ..self.stats }
            } else {
                self.stats
            },
            ..self
        }
    }

    /// Decides what to do with a frame captured at `at`. A staged rate is to be
    /// applied whether or not the frame is encoded.
    pub fn plan_frame(&mut self, at: u64, capacity: usize) -> (r: FramePlan)
        requires
            old(self).wf(),
        ensures
            final(self).wf(),
            r == old(self).plan(at, capacity),
            *final(self) == old(self).planned(at, capacity),
    {
        let rate: Option<RateTarget> = self.rate_control.take();
        let fps: u32 = self.rate_control.fps();
        if !self.pacer.pass(at, fps) {
            self.stats.paced_out = bump(self.stats.paced_out);
            return FramePlan { rate, encode: None };
        }
        if capacity == 0 {
            return FramePlan { rate, encode: None };
        }
        let force: bool = self.keyframe_requested;
        self.keyframe_requested = false;
        FramePlan { rate, encode: Some(force) }
    }

    /// The state after an encoded frame. Where it was not delivered the stream
    /// misses a reference frame, so a keyframe is asked for.
    pub open spec fn finished(self, outcome: EncodeOutcome) -> Pipeline {
        match outcome {
            EncodeOutcome::Encoded { keyframe, delivered } => Pipeline {
                keyframe_requested: self.keyframe_requested || !delivered,
                stats: PipelineStats {
                    encoded: bumped(self.stats.encoded),
                    keyframes: if keyframe {
                        bumped(self.stats.keyframes)
                    } else {
                        self.stats.keyframes
                    },
                    dropped: if delivered {
                        self.stats.dropped
                    } else {
                        bumped(self.stats.dropped)
                    },
                    ..self.stats
                },
                ..self
            },
            _ => self,
        }
    }

    /// Takes in what came of encoding; returns whether to go on.
    pub fn finish_frame(&mut self, outcome: EncodeOutcome) -> (r: bool)
        requires
            old(self).wf(),
        ensures
            final(self).wf(),
            *final(self) == old(self).finished(outcome),
            r == !(outcome is Failed),
    {
        match outcome {
            EncodeOutcome::Encoded { keyframe, delivered } => {
                self.stats.encoded = bump(self.stats.encoded);
                if keyframe {
                    self.stats.keyframes = bump(self.stats.keyframes);
                }
                if !delivered {
                    self.stats.dropped = bump(self.stats.dropped);
                    self.keyframe_requested = true;
                }
                true
            },
            EncodeOutcome::Nothing => true,
            EncodeOutcome::Failed => false,
        }
    }

    /// Asks for a keyframe on the next encoded frame.
    pub fn request_keyframe(&mut self)
        requires
            old(self).wf(),
        ensures
            final(self).wf(),
            *final(self) == (Pipeline { keyframe_requested: true, ..*old(self) }),
    {
        self.keyframe_requested = true;
    }

    /// Tells both sides to stop.
    pub fn stop(&mut self)
        requires
            old(self).wf(),
        ensures
            final(self).wf(),
            *final(self) == (Pipeline { stopped: true, ..*old(self) }),
    {
        self.stopped = true;
    }
}

/// The pacer after frames captured at `times`.
pub open spec fn paced(p: Pacer, times: Seq<u64>, fps: u32) -> Pacer
    decreases times.len(),
{
    if times.len() == 0 {
        p
    } else {
        paced(p, times.drop_last(), fps).after(times.last(), fps)
    }
}

/// How many of the frames captured at `times` the pacer lets through.
pub open spec fn admitted(p: Pacer, times: Seq<u64>, fps: u32) -> int
    decreases times.len(),
{
    if times.len() == 0 {
        0
    } else {
        admitted(p, times.drop_last(), fps) + if paced(p, times.drop_last(), fps).admits(
            times.last(),
            fps,
        ) {
            1int
        } else {
            0
        }
    }
}

/// In the order of capture.
pub open spec fn in_order(times: Seq<u64>) -> bool {
    forall|i: int, j: int| 0 <= i <= j < times.len() ==> times[i] <= times[j]
}

/// The pacer caps throughput, whatever it has let through before: of frames
/// captured within some stretch of time it lets through no more than the target
/// frame rate allows for that stretch, plus the burst of three.
pub proof fn law_pacer_caps_throughput(p: Pacer, times: Seq<u64>, fps: u32)
    requires
        p.wf(),
        times.len() > 0,
        in_order(times),
    ensures
        admitted(p, times, fps) * PACER_TOKEN <= PACER_BURST + (times.last() - times[0])
            * crate::arith::max(fps as int, 1),
{
    lemma_pacer_account(p, times, fps);
}

proof fn lemma_pacer_account(p: Pacer, times: Seq<u64>, fps: u32)
    requires
        p.wf(),
        times.len() > 0,
        in_order(times),
    ensures
        ({
            let q = paced(p, times, fps);
            &&& q.wf()
            &&& q.last_captured_at == Some(times.last())
            &&& admitted(p, times, fps) * PACER_TOKEN + q.tokens <= PACER_BURST + (times.last()
                - times[0]) * crate::arith::max(fps as int, 1)
        }),
    decreases times.len(),
{
    let rate = crate::arith::max(fps as int, 1);
    let front = times.drop_last();
    let n = admitted(p, front, fps);
    if front.len() > 0 {
        assert(in_order(front));
        lemma_pacer_account(p, front, fps);
        assert(paced(p, front, fps).wf());
        assert(front.last() <= times.last());
        let earned = (times.last() - front.last()) * rate;
        assert((front.last() - times[0]) * rate + earned == (times.last() - times[0]) * rate)
            by (nonlinear_arith)
            requires
                earned == (times.last() - front.last()) * rate,
        ;
        assert(earned >= 0) by (nonlinear_arith)
            requires
                earned == (times.last() - front.last()) * rate,
                times.last() >= front.last(),
                rate >= 1,
        ;
        assert((n + 1) * PACER_TOKEN == n * PACER_TOKEN + PACER_TOKEN) by (nonlinear_arith);
    } else {
        assert(times.last() == times[0]);
        assert((times.last() - times[0]) * rate == 0);
        if p.last_captured_at is Some {
            let since = crate::arith::monus(times[0] as int, p.last_captured_at->0 as int);
            assert(since * rate >= 0) by (nonlinear_arith)
                requires
                    since >= 0,
                    rate >= 1,
            ;
        }
        assert(paced(p, front, fps) == p);
        assert(0 <= p.topped_up(times[0], fps) <= PACER_BURST);
    }
}

/// A source no faster than the target loses nothing to the pacer: where each
/// frame comes at least one frame time after the one before, all are let
/// through once the first one is.
pub proof fn law_pacer_passes_a_slow_source(p: Pacer, times: Seq<u64>, fps: u32)
    requires
        p.wf(),
        fps > 0,
        times.len() > 0 ==> p.admits(times[0], fps),
        forall|i: int, j: int|
            0 <= i && j == i + 1 && j < times.len() ==> #[trigger] times[i] <= #[trigger] times[j]
                && (times[j] - times[i]) * fps >= PACER_TOKEN,
    ensures
        admitted(p, times, fps) == times.len(),
    decreases times.len(),
{
    if times.len() > 0 {
        let front = times.drop_last();
        if front.len() > 0 {
            assert(front[0] == times[0]);
        }
        law_pacer_passes_a_slow_source(p, front, fps);
        if front.len() > 0 {
            let i = times.len() - 2;
            assert(front.last() == times[i] && times.last() == times[i + 1]);
            assert((times[i + 1] - times[i]) * fps >= PACER_TOKEN);
            assert(paced(p, front, fps).last_captured_at == Some(front.last()));
        }
    }
}

/// A frame that was encoded and lost makes the next encoded frame a keyframe.
pub proof fn law_a_lost_frame_forces_a_keyframe(
    p: Pipeline,
    keyframe: bool,
    at: u64,
    capacity: usize,
)
    ensures
        ({
            let next = p.finished(EncodeOutcome::Encoded { keyframe, delivered: false });
            next.plan(at, capacity).encode != Some(false)
        }),
{
}

/// A keyframe request is kept until a frame is encoded, and spent on the first
/// one that is.
pub proof fn law_a_keyframe_request_is_spent_once(p: Pipeline, at: u64, capacity: usize)
    requires
        p.keyframe_requested,
    ensures
        p.plan(at, capacity).encode is None ==> p.planned(at, capacity).keyframe_requested,
        p.plan(at, capacity).encode is Some ==> p.plan(at, capacity).encode == Some(true)
            && !p.planned(at, capacity).keyframe_requested,
{
}

/// Nothing is encoded that nobody can take.
pub proof fn law_full_channel_encodes_nothing(p: Pipeline, at: u64)
    ensures
        p.plan(at, 0).encode is None,
{
}

/// The counters tell apart why a frame did not get through: the pacer's are
/// counted as paced out, and only frames that were encoded as dropped.
pub proof fn law_losses_are_told_apart(
    p: Pipeline,
    at: u64,
    capacity: usize,
    outcome: EncodeOutcome,
)
    ensures
        p.planned(at, capacity).stats.dropped == p.stats.dropped,
        p.planned(at, capacity).stats.paced_out != p.stats.paced_out <==> !p.pacer.admits(
            at,
            p.rate_control.fps,
        ),
        p.finished(outcome).stats.paced_out == p.stats.paced_out,
        p.finished(outcome).stats.dropped != p.stats.dropped <==> (outcome matches
            EncodeOutcome::Encoded { delivered, .. } && !delivered),
{
}

/// A frame that the pacer admits is encoded whenever the output channel has room
/// for one more, and no other frame is.
pub proof fn law_room_for_one_is_enough(p: Pipeline, at: u64, capacity: usize)
    ensures
        p.pacer.admits(at, p.rate_control.fps) && capacity >= 1 ==> p.plan(at, capacity).encode
            is Some,
        !p.pacer.admits(at, p.rate_control.fps) || capacity == 0 ==> p.plan(at, capacity).encode
            is None,
{
}

/// One frame time after the last frame the pacer admits another, however empty
/// its bucket was: the target rate is always reached.
pub proof fn law_the_pacer_refills(p: Pacer, at: u64, fps: u32)
    requires
        p.wf(),
        p.last_captured_at matches Some(last) && last <= at && (at - last) * fps
            >= 1_000_000_000,
    ensures
        p.admits(at, fps),
{
    if fps == 0 {
        assert((at - p.last_captured_at->0) * fps == 0) by (nonlinear_arith)
            requires
                fps == 0,
        ;
    }
}

/// With an empty bucket a frame that comes sooner is skipped: frames do not pass
/// faster than the target rate.
pub proof fn law_the_pacer_waits_a_frame_time(p: Pacer, at: u64, fps: u32)
    requires
        p.tokens == 0,
        fps > 0,
        p.last_captured_at matches Some(last) && last <= at && (at - last) * fps
            < 1_000_000_000,
    ensures
        !p.admits(at, fps),
{
}

/// A fresh pacer lets three frames through, at whatever times they come, and of
/// more frames at one instant only three.
pub proof fn law_three_frames_may_burst(times: Seq<u64>, fps: u32, t: u64)
    requires
        times.len() <= 3,
    ensures
        admitted(Pacer::full(), times, fps) == times.len(),
        admitted(Pacer::full(), seq![t, t, t, t], fps) == 3,
{
    lemma_burst(times, fps);
    let three = seq![t, t, t];
    lemma_burst(three, fps);
    let four = seq![t, t, t, t];
    assert(four.drop_last() =~= three);
    law_pacer_caps_throughput(Pacer::full(), four, fps);
    assert((four.last() - four[0]) * crate::arith::max(fps as int, 1) == 0) by (nonlinear_arith)
        requires
            four.last() == four[0],
    ;
}

proof fn lemma_burst(times: Seq<u64>, fps: u32)
    requires
        times.len() <= 3,
    ensures
        admitted(Pacer::full(), times, fps) == times.len(),
        paced(Pacer::full(), times, fps).tokens >= (3 - times.len()) * 1_000_000_000,
        paced(Pacer::full(), times, fps).wf(),
    decreases times.len(),
{
    if times.len() > 0 {
        let front = times.drop_last();
        lemma_burst(front, fps);
        let p = paced(Pacer::full(), front, fps);
        if p.last_captured_at is Some {
            let since = crate::arith::monus(times.last() as int, p.last_captured_at->0 as int);
            let rate = crate::arith::max(fps as int, 1);
            assert(since * rate >= 0) by (nonlinear_arith)
                requires
                    since >= 0,
                    rate >= 1,
            ;
        }
    }
}

/// A staged rate is handed over with the next plan, whether or not that frame is
/// encoded, and only with that one.
pub proof fn law_a_staged_rate_is_handed_over_once(
    p: Pipeline,
    at: u64,
    capacity: usize,
    later: u64,
    room: usize,
)
    ensures
        p.plan(at, capacity).rate == p.rate_control.pending,
        p.planned(at, capacity).plan(later, room).rate is None,
        p.planned(at, capacity).rate_control.fps == p.rate_control.fps,
{
}

/// The newest frame is the one that is kept, and a frame it pushes out is counted.
pub proof fn law_the_newest_frame_is_kept(p: Pipeline, frame: RawFrame)
    requires
        p.stats.captured < u64::MAX,
        p.stats.overwritten < u64::MAX,
    ensures
        p.with_captured(frame).slot == Some(frame),
        p.with_captured(frame).stats.captured == p.stats.captured + 1,
        p.with_captured(frame).stats.overwritten == p.stats.overwritten + if p.slot is Some {
            1int
        } else {
            0
        },
        p.with_captured(frame).keyframe_requested == p.keyframe_requested,
        p.with_captured(frame).pacer == p.pacer,
        p.with_captured(frame).rate_control == p.rate_control,
{
}

/// An encoded frame is counted, as a keyframe too where it is one, and asks for a
/// keyframe only where it was lost. A skipped one changes nothing.
pub proof fn law_outcomes_are_counted(p: Pipeline, keyframe: bool, delivered: bool)
    requires
        p.stats.encoded < u64::MAX,
        p.stats.keyframes < u64::MAX,
        p.stats.dropped < u64::MAX,
    ensures
        ({
            let q = p.finished(EncodeOutcome::Encoded { keyframe, delivered });
            &&& q.stats.encoded == p.stats.encoded + 1
            &&& q.stats.keyframes == p.stats.keyframes + if keyframe {
                1int
            } else {
                0
            }
            &&& q.stats.dropped == p.stats.dropped + if delivered {
                0int
            } else {
                1
            }
            &&& q.keyframe_requested == (p.keyframe_requested || !delivered)
            &&& q.slot == p.slot && q.pacer == p.pacer && q.rate_control == p.rate_control
        }),
        p.finished(EncodeOutcome::Nothing) == p,
        p.finished(EncodeOutcome::Failed) == p,
{
}

/// Counting goes up by one, and from the largest number on to zero. A new pipeline
/// has counted nothing.
pub proof fn law_counting_wraps_around(n: u64)
    ensures
        bumped(n) == (n + 1) % 0x1_0000_0000_0000_0000,
        ({
            let none = PipelineStats::zero();
            &&& none.captured == 0 && none.encoded == 0 && none.dropped == 0
            &&& none.keyframes == 0 && none.paced_out == 0 && none.overwritten == 0
        }),
{
}

} // verus!
