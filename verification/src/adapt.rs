//! Bitrate and frame-rate adaptation: watches the receiver's bandwidth
//! estimate (REMB), packet loss and the capture pipeline's own overruns, and
//! decides the [`RateTarget`] the encoder is driven at.
//!
//! The controller does no I/O and reads no clock: every instant is an argument,
//! a count of nanoseconds on the caller's monotonic clock. All arithmetic is
//! exact: ratios are compared by cross-multiplication and a bitrate between two
//! whole kbit/s is held as a multiple of `1 / BITRATE_SCALE` kbit/s.
//!
//! Three observations shape the rules:
//! - REMB is a receive-side estimate capped at about 1.5 times what was
//!   received, so on a mostly static screen it sits far below the encoder's
//!   target without saying anything about the network. It counts only while
//!   the link is loaded, and only when it stays below the sent rate.
//! - REMB never says that there is room for more: growth is the controller's
//!   own probing.
//! - That the encoder cannot keep up shows in captured frames overwritten
//!   before they were encoded, not in absolute latency.

use vstd::prelude::*;

use crate::arith::{max_u32, min_u32, wide_mul, wide_mul_u32};
use crate::encode::RateTarget;
use crate::proto::QualityPreset;

pub mod laws;

verus! {

/// How often [`Controller::tick`] is expected to be called, in nanoseconds.
pub const TICK: u64 = 1_000_000_000;

/// The bitrate is never adapted below this.
pub const MIN_BITRATE_KBPS: u32 = 300;

/// The frame rate is never adapted below this.
pub const MIN_FPS: u32 = 5;

/// A REMB older than this many nanoseconds is ignored.
pub const REMB_FRESH: u64 = 3_000_000_000;

/// A REMB below this share (in hundredths) of what was sent signals congestion.
pub const REMB_CONGESTION_RATIO: u64 = 90;

/// REMB is trusted as a congestion signal only while the sent rate is at least
/// this share (in hundredths) of the current target.
pub const REMB_LOADED_RATIO: u64 = 80;

/// Ticks in a row for which the loaded-link REMB signal must persist before the
/// bitrate is cut to it.
pub const REMB_CONGESTION_TICKS: u32 = 2;

/// One whole in the fixed-point unit of packet loss.
pub const LOSS_ONE: u64 = 0x1_0000_0000;

/// Loss above this cuts the bitrate whatever REMB says. In units of
/// `1 / LOSS_ONE`: the single-precision value closest to 0.10.
pub const LOSS_HIGH: u64 = 429_496_736;

/// Loss below this lets the controller probe for more bandwidth. In units of
/// `1 / LOSS_ONE`: the single-precision value closest to 0.02.
pub const LOSS_LOW: u64 = 85_899_344;

/// Growth of the bitrate per tick while probing, in hundredths.
pub const PROBE_UP: u64 = 110;

/// Smallest relative bitrate change worth publishing, in hundredths.
pub const HYSTERESIS: u64 = 5;

/// Candidate frame rates, highest first.
pub const FPS_LADDER: [u32; 8] = [60, 30, 24, 20, 15, 12, 10, 8];

/// Overwritten frames in one tick from which the encoder counts as too slow.
pub const ENCODER_OVERRUN_FRAMES: u64 = 2;

/// Clean ticks in a row that are needed before the frame rate steps back up.
pub const ENCODER_FAST_TICKS: u32 = 5;

/// Bits per pixel and frame (in hundredths) that bitrate and frame rate must
/// afford under [`QualityPreset::Auto`].
pub const MIN_BITS_PER_PIXEL_PER_FRAME: u32 = 2;

/// What [`QualityPreset::Sharp`] multiplies the bit budget by, in hundredths.
pub const SHARP_BPP_MULTIPLIER: u32 = 300;

/// What [`QualityPreset::Smooth`] multiplies the bit budget by, in hundredths.
pub const SMOOTH_BPP_MULTIPLIER: u32 = 50;

/// Frame-rate ceiling of [`QualityPreset::Sharp`].
pub const SHARP_FPS_CEILING: u32 = 15;

/// Frame-rate floor of [`QualityPreset::Smooth`].
pub const SMOOTH_FPS_FLOOR: u32 = 15;

/// Units of a fine bitrate in one kbit/s. Divisible by 1000 (so that a REMB in
/// bit/s is whole), by twice [`LOSS_ONE`] after a factor of 125, and by 100.
pub const BITRATE_SCALE: u128 = 1_073_741_824_000;

/// Units of a fine bitrate in one bit/s.
pub const BITRATE_SCALE_BPS: u128 = 1_073_741_824;

/// The session's configured limits. `width` and `height` size the bit budget
/// of a frame.
#[derive(Debug, Clone, Copy)]
pub struct AdaptConfig {
    pub max_bitrate_kbps: u32,
    pub min_bitrate_kbps: u32,
    pub max_fps: u32,
    pub min_fps: u32,
    pub width: u32,
    pub height: u32,
}

/// One piece of feedback fed to the controller between ticks.
#[derive(Debug, Clone, Copy)]
pub enum Feedback {
    /// The receiver's bandwidth estimate.
    Remb { bitrate_bps: u64 },
    /// Share of packets lost, in units of `1 / LOSS_ONE`.
    Loss { fraction: u64 },
    /// One encoded frame.
    Frame { bytes: usize },
    /// Captured frames that were overwritten before the encoder took them.
    Overrun { frames: u64 },
    /// The viewer chose a preset; applied at once.
    Preset { preset: QualityPreset },
}

/// A new rate target, with the reason shown to the viewer.
#[derive(Debug, Clone, PartialEq, Eq)]
pub struct Decision {
    pub target: RateTarget,
    pub reason: &'static str,
}

/// Frame-rate bounds and bit budget of the current preset.
#[derive(Debug, Clone, Copy)]
pub struct QualityPolicy {
    pub max_fps: u32,
    pub min_fps: u32,
    /// Bits per pixel and frame, in hundredths.
    pub bpp_budget: u32,
}

/// The policy of each preset: `Sharp` lowers the ceiling, `Smooth` raises the
/// floor (never above the ceiling), and both scale the bit budget.
pub open spec fn policy_for(preset: QualityPreset, cfg: AdaptConfig) -> QualityPolicy {
    match preset {
        QualityPreset::Auto => QualityPolicy {
            max_fps: cfg.max_fps,
            min_fps: cfg.min_fps,
            bpp_budget: MIN_BITS_PER_PIXEL_PER_FRAME,
        },
        QualityPreset::Sharp => QualityPolicy {
            max_fps: crate::arith::min(cfg.max_fps as int, SHARP_FPS_CEILING as int) as u32,
            min_fps: cfg.min_fps,
            bpp_budget: (MIN_BITS_PER_PIXEL_PER_FRAME * SHARP_BPP_MULTIPLIER / 100) as u32,
        },
        QualityPreset::Smooth => QualityPolicy {
            max_fps: cfg.max_fps,
            min_fps: crate::arith::min(
                crate::arith::max(cfg.min_fps as int, SMOOTH_FPS_FLOOR as int),
                cfg.max_fps as int,
            ) as u32,
            bpp_budget: (MIN_BITS_PER_PIXEL_PER_FRAME * SMOOTH_BPP_MULTIPLIER / 100) as u32,
        },
    }
}

impl QualityPolicy {
    pub fn for_preset(preset: QualityPreset, cfg: &AdaptConfig) -> (r: Self)
        ensures
            r == policy_for(preset, *cfg),
    {
        match preset {
            QualityPreset::Auto => QualityPolicy {
                max_fps: cfg.max_fps,
                min_fps: cfg.min_fps,
                bpp_budget: MIN_BITS_PER_PIXEL_PER_FRAME,
            },
            QualityPreset::Sharp => QualityPolicy {
                max_fps: min_u32(cfg.max_fps, SHARP_FPS_CEILING),
                min_fps: cfg.min_fps,
                bpp_budget: MIN_BITS_PER_PIXEL_PER_FRAME * SHARP_BPP_MULTIPLIER / 100,
            },
            QualityPreset::Smooth => QualityPolicy {
                max_fps: cfg.max_fps,
                min_fps: min_u32(max_u32(cfg.min_fps, SMOOTH_FPS_FLOOR), cfg.max_fps),
                bpp_budget: MIN_BITS_PER_PIXEL_PER_FRAME * SMOOTH_BPP_MULTIPLIER / 100,
            },
        }
    }
}

/// Feedback accumulated since the last tick.
#[derive(Debug, Clone, Copy)]
pub struct Window {
    pub bytes: u64,
    pub frames: u32,
    pub overruns: u64,
}

/// A window with nothing in it.
pub open spec fn empty_window() -> Window {
    Window { bytes: 0, frames: 0, overruns: 0 }
}

impl Window {
    pub fn reset(&mut self)
        ensures
            *final(self) == empty_window(),
    {
        *self = Window { bytes: 0, frames: 0, overruns: 0 };
    }
}

/// The bitrate and frame-rate controller.
#[derive(Debug)]
pub struct Controller {
    pub cfg: AdaptConfig,
    /// Derived from `preset`; changed only together with it.
    pub policy: QualityPolicy,
    pub preset: QualityPreset,
    /// The next tick publishes the target with reason `"preset"`.
    pub preset_announce_pending: bool,
    /// The committed rate target.
    pub target: RateTarget,
    pub last_remb_bps: Option<u64>,
    pub last_remb_at: Option<u64>,
    /// The fresh REMB seen by the previous tick.
    pub prev_tick_remb_bps: Option<u64>,
    /// In units of `1 / LOSS_ONE`.
    pub last_loss: u64,
    pub window: Window,
    /// Ticks in a row for which REMB has said "congested".
    pub congested_ticks: u32,
    /// Ticks in a row for which the encoder has kept up.
    pub fast_ticks: u32,
    pub last_tick_at: u64,
}

/// The rung list of a policy: its ceiling, then every entry of [`FPS_LADDER`]
/// below the ceiling and not below the floor.
pub open spec fn ladder_of(policy: QualityPolicy) -> Seq<u32> {
    seq![policy.max_fps] + FPS_LADDER@.filter(
        |f: u32| policy.min_fps <= f && f < policy.max_fps,
    )
}

/// The next lower rung than `current` in `steps`, a falling list: the first that
/// is lower. `current` where none is.
pub open spec fn lower_rung(steps: Seq<u32>, current: u32) -> u32
    decreases steps.len(),
{
    if steps.len() == 0 {
        current
    } else if steps[0] < current {
        steps[0]
    } else {
        lower_rung(steps.drop_first(), current)
    }
}

/// The next higher rung than `current` in `steps`, a falling list: the last that
/// is higher. `current` where none is.
pub open spec fn higher_rung(steps: Seq<u32>, current: u32) -> u32
    decreases steps.len(),
{
    if steps.len() == 0 {
        current
    } else if steps.last() > current {
        steps.last()
    } else {
        higher_rung(steps.drop_last(), current)
    }
}

/// A list of rungs, the highest first.
pub open spec fn falling(steps: Seq<u32>) -> bool {
    forall|i: int, j: int| 0 <= i < j < steps.len() ==> steps[i] > steps[j]
}

/// Whether a fine bitrate pays for `fps` frames per second: at least
/// `bpp_budget` hundredths of a bit for each pixel of each frame.
pub open spec fn affords(cfg: AdaptConfig, policy: QualityPolicy, b: int, fps: u32) -> bool {
    if fps == 0 {
        b > 0
    } else {
        b * 100 >= cfg.width * cfg.height * (policy.bpp_budget * fps) * BITRATE_SCALE_BPS
    }
}

/// The first of `steps` that `b` affords, the policy's floor where none is.
pub open spec fn affordable_fps(
    cfg: AdaptConfig,
    policy: QualityPolicy,
    steps: Seq<u32>,
    b: int,
) -> u32
    decreases steps.len(),
{
    if steps.len() == 0 {
        policy.min_fps
    } else if affords(cfg, policy, b, steps[0]) {
        steps[0]
    } else {
        affordable_fps(cfg, policy, steps.drop_first(), b)
    }
}

/// What the tick's bitrate rule answers to.
pub enum BitrateMove {
    Loss,
    Remb,
    Probe,
    Hold,
}

impl Controller {
    /// The configured range is not empty, the policy is that of the preset and
    /// the target lies within both.
    pub open spec fn wf(self) -> bool {
        &&& self.cfg.min_bitrate_kbps <= self.cfg.max_bitrate_kbps
        &&& self.policy == policy_for(self.preset, self.cfg)
        &&& self.cfg.min_bitrate_kbps <= self.target.bitrate_kbps <= self.cfg.max_bitrate_kbps
        &&& self.policy.min_fps <= self.policy.max_fps ==> self.policy.min_fps <= self.target.fps
            <= self.policy.max_fps
        &&& self.fast_ticks < ENCODER_FAST_TICKS
    }

    /// Nanoseconds since the last tick.
    pub open spec fn elapsed(self, now: u64) -> int {
        crate::arith::monus(now as int, self.last_tick_at as int)
    }

    /// The last REMB, where it is at most [`REMB_FRESH`] old.
    pub open spec fn fresh_remb(self, now: u64) -> Option<u64> {
        match self.last_remb_at {
            Some(at) if crate::arith::monus(now as int, at as int) <= REMB_FRESH =>
                self.last_remb_bps,
            _ => None,
        }
    }

    /// The sent rate is at least [`REMB_LOADED_RATIO`] hundredths of the target.
    /// Sent kbit/s are `bytes * 8 / 1000` per second, none where no time passed.
    pub open spec fn link_loaded(self, now: u64) -> bool {
        if self.elapsed(now) == 0 {
            self.target.bitrate_kbps == 0
        } else {
            self.window.bytes * 800_000_000 >= REMB_LOADED_RATIO * (self.target.bitrate_kbps
                * self.elapsed(now))
        }
    }

    /// `remb` is below [`REMB_CONGESTION_RATIO`] hundredths of the sent rate.
    pub open spec fn remb_undercuts(self, remb_bps: u64, now: u64) -> bool {
        self.elapsed(now) > 0 && remb_bps * self.elapsed(now) < REMB_CONGESTION_RATIO * 80_000_000
            * self.window.bytes
    }

    /// The estimate is above the one that the previous tick saw.
    pub open spec fn remb_rising(self, now: u64) -> bool {
        match (self.fresh_remb(now), self.prev_tick_remb_bps) {
            (Some(cur), Some(prev)) => cur > prev,
            _ => false,
        }
    }

    /// REMB says "congested": on a loaded link it undercuts the sent rate and
    /// is not rising.
    pub open spec fn remb_congested(self, now: u64) -> bool {
        &&& self.link_loaded(now)
        &&& !self.remb_rising(now)
        &&& self.fresh_remb(now) is Some
        &&& self.remb_undercuts(self.fresh_remb(now)->0, now)
    }

    /// The congestion streak after a tick at `now`.
    pub open spec fn congestion_streak(self, now: u64) -> int {
        if self.remb_congested(now) {
            self.congested_ticks + 1
        } else {
            0
        }
    }

    /// Loss comes first, then a persistent REMB signal; with neither, and with
    /// low loss, the bitrate probes upward until it reaches the ceiling.
    pub open spec fn bitrate_move(self, now: u64) -> BitrateMove {
        if self.last_loss > LOSS_HIGH {
            BitrateMove::Loss
        } else if self.congestion_streak(now) >= REMB_CONGESTION_TICKS {
            BitrateMove::Remb
        } else if !self.remb_congested(now) && self.last_loss < LOSS_LOW
            && self.target.bitrate_kbps < self.cfg.max_bitrate_kbps {
            BitrateMove::Probe
        } else {
            BitrateMove::Hold
        }
    }

    /// The fine bitrate the move asks for: on loss the target less half the
    /// lost share, on REMB the lower of target and estimate.
    pub open spec fn wanted_bitrate(self, now: u64) -> int {
        let old_b = self.target.bitrate_kbps as int;
        match self.bitrate_move(now) {
            BitrateMove::Loss => old_b * 125 * crate::arith::monus(
                2 * LOSS_ONE,
                self.last_loss as int,
            ),
            BitrateMove::Remb => crate::arith::min(
                old_b * BITRATE_SCALE,
                self.fresh_remb(now)->0 * BITRATE_SCALE_BPS,
            ),
            BitrateMove::Probe => old_b * PROBE_UP * (BITRATE_SCALE / 100),
            BitrateMove::Hold => old_b * BITRATE_SCALE,
        }
    }

    /// The wanted bitrate within the configured range.
    pub open spec fn next_bitrate(self, now: u64) -> int {
        crate::arith::clamp(
            self.wanted_bitrate(now),
            self.cfg.min_bitrate_kbps * BITRATE_SCALE,
            self.cfg.max_bitrate_kbps * BITRATE_SCALE,
        )
    }

    /// The encoder fell behind during this window.
    pub open spec fn encoder_slow(self) -> bool {
        self.window.overruns >= ENCODER_OVERRUN_FRAMES
    }

    /// The encoder kept up during this window and a higher rung exists.
    pub open spec fn encoder_fast(self) -> bool {
        &&& !self.encoder_slow()
        &&& self.window.frames > 0
        &&& self.window.overruns == 0
        &&& higher_rung(ladder_of(self.policy), self.target.fps) != self.target.fps
    }

    /// The streak of clean ticks is long enough for a step up.
    pub open spec fn encoder_steps_up(self) -> bool {
        self.encoder_fast() && self.fast_ticks + 1 >= ENCODER_FAST_TICKS
    }

    /// The rung the encoder's own speed asks for.
    pub open spec fn encoder_fps(self) -> u32 {
        if self.encoder_slow() {
            lower_rung(ladder_of(self.policy), self.target.fps)
        } else if self.encoder_steps_up() {
            higher_rung(ladder_of(self.policy), self.target.fps)
        } else {
            self.target.fps
        }
    }

    /// The streak of clean ticks after this one; a window without evidence
    /// keeps it.
    pub open spec fn next_fast_ticks(self) -> int {
        if self.encoder_slow() || self.encoder_steps_up() {
            0
        } else if self.encoder_fast() {
            self.fast_ticks + 1
        } else {
            self.fast_ticks as int
        }
    }

    /// The rung the bit budget asks for.
    pub open spec fn bitrate_fps(self, now: u64) -> u32 {
        affordable_fps(self.cfg, self.policy, ladder_of(self.policy), self.next_bitrate(now))
    }

    /// The lowest of ceiling, encoder rung and bit-budget rung, at least the
    /// floor.
    pub open spec fn next_fps(self, now: u64) -> int {
        crate::arith::max(
            crate::arith::min(
                crate::arith::min(self.policy.max_fps as int, self.encoder_fps() as int),
                self.bitrate_fps(now) as int,
            ),
            self.policy.min_fps as int,
        )
    }

    /// The bit budget is what holds the frame rate below the ceiling.
    pub open spec fn bitrate_limits_fps(self, now: u64) -> bool {
        &&& self.next_fps(now) == self.bitrate_fps(now)
        &&& self.bitrate_fps(now) < self.policy.max_fps
        &&& self.bitrate_fps(now) <= self.encoder_fps()
    }

    /// The frame rate changes, or the bitrate by at least [`HYSTERESIS`].
    pub open spec fn worth_publishing(self, now: u64) -> bool {
        let old_b = self.target.bitrate_kbps * BITRATE_SCALE;
        let diff = if self.next_bitrate(now) >= old_b {
            self.next_bitrate(now) - old_b
        } else {
            old_b - self.next_bitrate(now)
        };
        ||| self.next_fps(now) != self.target.fps
        ||| old_b > 0 && diff * 100 >= HYSTERESIS * old_b
    }

    /// The next bitrate to the nearest kbit/s (halves up), and the next rate.
    pub open spec fn next_target(self, now: u64) -> RateTarget {
        RateTarget {
            bitrate_kbps: ((self.next_bitrate(now) + BITRATE_SCALE / 2) / BITRATE_SCALE as int)
                as u32,
            fps: self.next_fps(now) as u32,
        }
    }

    /// Why the target changed: loss and REMB first, then the encoder, then a
    /// bit budget that limits the frame rate.
    pub open spec fn reason(self, now: u64) -> &'static str {
        match self.bitrate_move(now) {
            BitrateMove::Loss => "loss",
            BitrateMove::Remb => "remb",
            BitrateMove::Probe =>
                if self.encoder_fps() != self.target.fps {
                    "encoder"
                } else if self.bitrate_limits_fps(now) {
                    "bitrate"
                } else {
                    "probe"
                },
            BitrateMove::Hold =>
                if self.encoder_fps() != self.target.fps {
                    "encoder"
                } else {
                    "bitrate"
                },
        }
    }

    /// What a tick at `now` publishes.
    pub open spec fn tick_decision(self, now: u64) -> Option<Decision> {
        if self.preset_announce_pending {
            Some(Decision { target: self.target, reason: "preset" })
        } else if self.worth_publishing(now) {
            Some(Decision { target: self.next_target(now), reason: self.reason(now) })
        } else {
            None
        }
    }

    /// The controller after a tick at `now`. Only a published decision moves
    /// the target; a pending announcement skips the feedback rules.
    pub open spec fn ticked(self, now: u64) -> Controller {
        if self.preset_announce_pending {
            Controller {
                preset_announce_pending: false,
                window: empty_window(),
                last_tick_at: now,
                ..self
            }
        } else {
            Controller {
                target: if self.worth_publishing(now) {
                    self.next_target(now)
                } else {
                    self.target
                },
                prev_tick_remb_bps: self.fresh_remb(now),
                window: empty_window(),
                congested_ticks: self.congestion_streak(now) as u32,
                fast_ticks: self.next_fast_ticks() as u32,
                last_tick_at: now,
                ..self
            }
        }
    }

    /// The controller after a switch to `preset`: frame rate at the new
    /// ceiling, the window started anew and the announcement pending.
    pub open spec fn with_preset(self, preset: QualityPreset, now: u64) -> Controller {
        Controller {
            preset,
            policy: policy_for(preset, self.cfg),
            preset_announce_pending: true,
            target: RateTarget {
                bitrate_kbps: crate::arith::clamp(
                    self.target.bitrate_kbps as int,
                    self.cfg.min_bitrate_kbps as int,
                    self.cfg.max_bitrate_kbps as int,
                ) as u32,
                fps: policy_for(preset, self.cfg).max_fps,
            },
            window: empty_window(),
            last_tick_at: now,
            ..self
        }
    }

    /// The counters of the window have room for `fb`.
    pub open spec fn has_room_for(self, fb: Feedback) -> bool {
        match fb {
            Feedback::Frame { bytes } => self.window.bytes + bytes <= u64::MAX
                && self.window.frames < u32::MAX,
            Feedback::Overrun { frames } => self.window.overruns + frames <= u64::MAX,
            _ => true,
        }
    }

    /// The controller after `fb` at `now`.
    pub open spec fn fed(self, fb: Feedback, now: u64) -> Controller {
        match fb {
            Feedback::Remb { bitrate_bps } => Controller {
                last_remb_bps: Some(bitrate_bps),
                last_remb_at: Some(now),
                ..self
            },
            Feedback::Loss { fraction } => Controller { last_loss: fraction, ..self },
            Feedback::Frame { bytes } => Controller {
                window: Window {
                    bytes: (self.window.bytes + bytes) as u64,
                    frames: (self.window.frames + 1) as u32,
                    ..self.window
                },
                ..self
            },
            Feedback::Overrun { frames } => Controller {
                window: Window { overruns: (self.window.overruns + frames) as u64, ..self.window },
                ..self
            },
            Feedback::Preset { preset } => self.with_preset(preset, now),
        }
    }

    /// The controller after several pieces of feedback, each with its time.
    pub open spec fn fed_all(self, fbs: Seq<(Feedback, u64)>) -> Controller
        decreases fbs.len(),
    {
        if fbs.len() == 0 {
            self
        } else {
            self.fed(fbs[0].0, fbs[0].1).fed_all(fbs.drop_first())
        }
    }

    /// Starts at the configured ceiling under [`QualityPreset::Auto`].
    pub fn new(cfg: AdaptConfig, now: u64) -> (r: Self)
        requires
            cfg.min_bitrate_kbps <= cfg.max_bitrate_kbps,
        ensures
            r.wf(),
            r == (Controller {
                cfg,
                policy: policy_for(QualityPreset::Auto, cfg),
                preset: QualityPreset::Auto,
                preset_announce_pending: false,
                target: RateTarget { bitrate_kbps: cfg.max_bitrate_kbps, fps: cfg.max_fps },
                last_remb_bps: None,
                last_remb_at: None,
                prev_tick_remb_bps: None,
                last_loss: 0,
                window: empty_window(),
                congested_ticks: 0,
                fast_ticks: 0,
                last_tick_at: now,
            }),
    {
        let target = RateTarget { bitrate_kbps: cfg.max_bitrate_kbps, fps: cfg.max_fps };
        Controller {
            cfg,
            policy: QualityPolicy::for_preset(QualityPreset::Auto, &cfg),
            preset: QualityPreset::Auto,
            preset_announce_pending: false,
            target,
            last_remb_bps: None,
            last_remb_at: None,
            prev_tick_remb_bps: None,
            last_loss: 0,
            window: Window { bytes: 0, frames: 0, overruns: 0 },
            congested_ticks: 0,
            fast_ticks: 0,
            last_tick_at: now,
        }
    }

    /// The committed rate target.
    pub fn target(&self) -> (r: RateTarget)
        ensures
            r == self.target,
    {
        self.target
    }

    /// The current quality preset.
    pub fn preset(&self) -> (r: QualityPreset)
        ensures
            r == self.preset,
    {
        self.preset
    }

    /// Takes in one piece of feedback.
    pub fn feedback(&mut self, fb: Feedback, now: u64)
        requires
            old(self).wf(),
            old(self).has_room_for(fb),
        ensures
            final(self).wf(),
            *final(self) == old(self).fed(fb, now),
    {
        match fb {
            Feedback::Remb { bitrate_bps } => {
                self.last_remb_bps = Some(bitrate_bps);
                self.last_remb_at = Some(now);
            },
            Feedback::Loss { fraction } => {
                self.last_loss = fraction;
            },
            Feedback::Frame { bytes } => {
                self.window.bytes = self.window.bytes + bytes as u64;
                self.window.frames = self.window.frames + 1;
            },
            Feedback::Overrun { frames } => {
                self.window.overruns = self.window.overruns + frames;
            },
            Feedback::Preset { preset } => {
                self.set_preset(preset, now);
            },
        }
    }

    /// Switches the quality preset. The target moves at once: the frame rate to
    /// the new ceiling, the bitrate into the configured range.
    pub fn set_preset(&mut self, preset: QualityPreset, now: u64)
        requires
            old(self).wf(),
        ensures
            final(self).wf(),
            *final(self) == old(self).with_preset(preset, now),
    {
        self.preset = preset;
        self.policy = QualityPolicy::for_preset(preset, &self.cfg);
        let fps: u32 = self.policy.max_fps;
        let bitrate_kbps: u32 = min_u32(
            max_u32(self.target.bitrate_kbps, self.cfg.min_bitrate_kbps),
            self.cfg.max_bitrate_kbps,
        );
        self.target = RateTarget { bitrate_kbps, fps };
        self.window.reset();
        self.last_tick_at = now;
        self.preset_announce_pending = true;
    }

    /// The rungs of the current policy, highest first.
    pub fn ladder(&self) -> (steps: Vec<u32>)
        ensures
            steps@ == ladder_of(self.policy),
    {
        let mut steps: Vec<u32> = Vec::new();
        steps.push(self.policy.max_fps);
        let ghost keep = |f: u32| self.policy.min_fps <= f && f < self.policy.max_fps;
        let mut i: usize = 0;
        proof {
            reveal(Seq::filter);
            assert(FPS_LADDER@.take(0).filter(keep) =~= Seq::<u32>::empty());
        }
        while i < 8
            invariant
                i <= 8,
                FPS_LADDER@.len() == 8,
                keep == (|f: u32| self.policy.min_fps <= f && f < self.policy.max_fps),
                steps@ == seq![self.policy.max_fps] + FPS_LADDER@.take(i as int).filter(keep),
            decreases 8 - i,
        {
            let f: u32 = FPS_LADDER[i];
            proof {
                reveal(Seq::filter);
                assert(FPS_LADDER@.take(i + 1).drop_last() =~= FPS_LADDER@.take(i as int));
            }
            if self.policy.min_fps <= f && f < self.policy.max_fps {
                steps.push(f);
            }
            i = i + 1;
        }
        proof {
            assert(FPS_LADDER@.take(8) =~= FPS_LADDER@);
        }
        steps
    }

    /// The first of `steps` that the fine bitrate `b` affords under the current
    /// policy, its floor where none is: fewer, better frames beat more, worse
    /// ones.
    pub fn bitrate_fps_step(&self, steps: &[u32], b: u128) -> (r: u32)
        requires
            b <= u128::MAX / 100,
        ensures
            r == affordable_fps(self.cfg, self.policy, steps@, b as int),
    {
        let pixels: u64 = wide_mul_u32(self.cfg.width, self.cfg.height);
        let mut i: usize = 0;
        proof {
            assert(steps@.skip(0) =~= steps@);
        }
        while i < steps.len()
            invariant
                i <= steps.len(),
                b <= u128::MAX / 100,
                pixels == self.cfg.width * self.cfg.height,
                affordable_fps(self.cfg, self.policy, steps@, b as int) == affordable_fps(
                    self.cfg,
                    self.policy,
                    steps@.skip(i as int),
                    b as int,
                ),
            decreases steps.len() - i,
        {
            let fps: u32 = steps[i];
            let ok: bool = if fps == 0 {
                b > 0
            } else {
                let frame_bits: u64 = wide_mul_u32(self.policy.bpp_budget, fps);
                let needed: u128 = wide_mul(pixels, frame_bits);
                b * 100 / BITRATE_SCALE_BPS >= needed
            };
            proof {
                assert(steps@.skip(i as int)[0] == fps);
                assert(steps@.skip(i as int).drop_first() =~= steps@.skip(i + 1));
            }
            if ok {
                return fps;
            }
            i = i + 1;
        }
        self.policy.min_fps
    }

    /// The last REMB, unless it is stale.
    fn current_remb(&self, now: u64) -> (r: Option<u64>)
        ensures
            r == self.fresh_remb(now),
    {
        match self.last_remb_at {
            Some(at) => if now.saturating_sub(at) <= REMB_FRESH {
                self.last_remb_bps
            } else {
                None
            },
            None => None,
        }
    }

    /// Whether `remb`, the fresh estimate, says "congested".
    fn is_congested(&self, remb: Option<u64>, now: u64) -> (r: bool)
        requires
            remb == self.fresh_remb(now),
        ensures
            r == self.remb_congested(now),
    {
        let elapsed: u64 = now.saturating_sub(self.last_tick_at);
        let kbps: u32 = self.target.bitrate_kbps;
        proof {
            assert(kbps * elapsed <= 0xffff_ffff * 0xffff_ffff_ffff_ffff) by (nonlinear_arith)
                requires
                    0 <= kbps <= 0xffff_ffff,
                    0 <= elapsed <= 0xffff_ffff_ffff_ffff,
            ;
        }
        let loaded: bool = if elapsed == 0 {
            kbps == 0
        } else {
            let target_bits: u128 = wide_mul(kbps as u64, elapsed);
            assert(target_bits * REMB_LOADED_RATIO <= u128::MAX) by (nonlinear_arith)
                requires
                    target_bits <= 0xffff_ffff * 0xffff_ffff_ffff_ffff,
                    REMB_LOADED_RATIO == 80,
            ;
            (self.window.bytes as u128) * 800_000_000 >= target_bits * (REMB_LOADED_RATIO as u128)
        };
        let rising: bool = match (remb, self.prev_tick_remb_bps) {
            (Some(cur), Some(prev)) => cur > prev,
            _ => false,
        };
        match remb {
            Some(bps) => {
                let bound: u128 = wide_mul(REMB_CONGESTION_RATIO * 80_000_000, self.window.bytes);
                loaded && !rising && elapsed > 0 && wide_mul(bps, elapsed) < bound
            },
            None => false,
        }
    }

    /// The bitrate rule: which signal it answers to and the fine bitrate that
    /// follows.
    fn plan_bitrate(&self, remb: Option<u64>, congested: bool, streak: u32, now: u64) -> (r: (
        u128,
        BitrateMove,
    ))
        requires
            self.wf(),
            remb == self.fresh_remb(now),
            congested == self.remb_congested(now),
            streak == self.congestion_streak(now),
        ensures
            r.0 == self.next_bitrate(now),
            r.1 == self.bitrate_move(now),
            self.cfg.min_bitrate_kbps * BITRATE_SCALE <= r.0 <= self.cfg.max_bitrate_kbps
                * BITRATE_SCALE,
    {
        let kbps: u32 = self.target.bitrate_kbps;
        let old_b: u128 = (kbps as u128) * BITRATE_SCALE;
        let (wanted, bitrate_move): (u128, BitrateMove) = if self.last_loss > LOSS_HIGH {
            let kept: u64 = (2 * LOSS_ONE).saturating_sub(self.last_loss);
            (wide_mul((kbps as u64) * 125, kept), BitrateMove::Loss)
        } else if streak >= REMB_CONGESTION_TICKS {
            let remb_b: u128 = match remb {
                Some(bps) => (bps as u128) * BITRATE_SCALE_BPS,
                None => old_b,
            };
            (if old_b <= remb_b {
                old_b
            } else {
                remb_b
            }, BitrateMove::Remb)
        } else if !congested && self.last_loss < LOSS_LOW && kbps < self.cfg.max_bitrate_kbps {
            ((kbps as u128) * (PROBE_UP as u128) * (BITRATE_SCALE / 100), BitrateMove::Probe)
        } else {
            (old_b, BitrateMove::Hold)
        };
        assert(wanted == self.wanted_bitrate(now));
        let lo: u128 = (self.cfg.min_bitrate_kbps as u128) * BITRATE_SCALE;
        let hi: u128 = (self.cfg.max_bitrate_kbps as u128) * BITRATE_SCALE;
        let b: u128 = if wanted < lo {
            lo
        } else if wanted > hi {
            hi
        } else {
            wanted
        };
        (b, bitrate_move)
    }

    /// The encoder rule: the rung its speed asks for, and the streak of clean
    /// ticks.
    fn plan_encoder_fps(&self, steps: &[u32]) -> (r: (u32, u32))
        requires
            self.wf(),
            steps@ == ladder_of(self.policy),
        ensures
            r.0 == self.encoder_fps(),
            r.1 == self.next_fast_ticks(),
            r.1 < ENCODER_FAST_TICKS,
    {
        let current: u32 = self.target.fps;
        if self.window.overruns >= ENCODER_OVERRUN_FRAMES {
            return (step_down(steps, current), 0);
        }
        if self.window.frames > 0 && self.window.overruns == 0 {
            let higher: u32 = step_up(steps, current);
            if higher != current {
                if self.fast_ticks + 1 >= ENCODER_FAST_TICKS {
                    return (higher, 0);
                }
                return (current, self.fast_ticks + 1);
            }
        }
        (current, self.fast_ticks)
    }

    /// Called once per [`TICK`]. Returns the new target where it changed enough
    /// to be worth publishing; otherwise the committed target stays.
    pub fn tick(&mut self, now: u64) -> (r: Option<Decision>)
        requires
            old(self).wf(),
            old(self).congested_ticks < u32::MAX,
        ensures
            final(self).wf(),
            r == old(self).tick_decision(now),
            *final(self) == old(self).ticked(now),
    {
        if self.preset_announce_pending {
            self.preset_announce_pending = false;
            self.window.reset();
            self.last_tick_at = now;
            return Some(Decision { target: self.target, reason: "preset" });
        }
        let remb: Option<u64> = self.current_remb(now);
        let congested: bool = self.is_congested(remb, now);
        let streak: u32 = if congested {
            self.congested_ticks + 1
        } else {
            0
        };
        let (b, bitrate_move): (u128, BitrateMove) = self.plan_bitrate(remb, congested, streak, now);
        let steps: Vec<u32> = self.ladder();
        let current_fps: u32 = self.target.fps;
        let (encoder_fps, fast_ticks): (u32, u32) = self.plan_encoder_fps(&steps);
        let encoder_fired: bool = encoder_fps != current_fps;
        let bitrate_fps: u32 = self.bitrate_fps_step(&steps, b);
        let new_fps: u32 = max_u32(
            min_u32(min_u32(self.policy.max_fps, encoder_fps), bitrate_fps),
            self.policy.min_fps,
        );
        let bitrate_limited_fps: bool = new_fps == bitrate_fps && bitrate_fps < self.policy.max_fps
            && bitrate_fps <= encoder_fps;
        let old_b: u128 = (self.target.bitrate_kbps as u128) * BITRATE_SCALE;
        self.prev_tick_remb_bps = remb;
        self.congested_ticks = streak;
        self.fast_ticks = fast_ticks;
        self.window.reset();
        self.last_tick_at = now;
        let diff: u128 = if b >= old_b {
            b - old_b
        } else {
            old_b - b
        };
        let bitrate_changed: bool = old_b > 0 && diff * 100 >= (HYSTERESIS as u128) * old_b;
        if new_fps == current_fps && !bitrate_changed {
            return None;
        }
        let reason: &'static str = match bitrate_move {
            BitrateMove::Loss => "loss",
            BitrateMove::Remb => "remb",
            BitrateMove::Probe => if encoder_fired {
                "encoder"
            } else if bitrate_limited_fps {
                "bitrate"
            } else {
                "probe"
            },
            BitrateMove::Hold => if encoder_fired {
                "encoder"
            } else {
                "bitrate"
            },
        };
        let new_target = RateTarget {
            bitrate_kbps: ((b + BITRATE_SCALE / 2) / BITRATE_SCALE) as u32,
            fps: new_fps,
        };
        self.target = new_target;
        Some(Decision { target: new_target, reason })
    }
}

/// The next lower rung than `current` in `steps` (highest first), or `current`
/// where no rung is lower. `current` need not be a rung itself.
pub fn step_down(steps: &[u32], current: u32) -> (r: u32)
    ensures
        r == lower_rung(steps@, current),
{
    let mut i: usize = 0;
    assert(steps@.skip(0) =~= steps@);
    while i < steps.len()
        invariant
            i <= steps.len(),
            lower_rung(steps@, current) == lower_rung(steps@.skip(i as int), current),
        decreases steps.len() - i,
    {
        if steps[i] < current {
            return steps[i];
        }
        assert(steps@.skip(i as int).drop_first() =~= steps@.skip(i + 1));
        i = i + 1;
    }
    current
}

/// The next higher rung than `current` in `steps` (highest first), or `current`
/// where no rung is higher. `current` need not be a rung itself.
pub fn step_up(steps: &[u32], current: u32) -> (r: u32)
    ensures
        r == higher_rung(steps@, current),
{
    let mut i: usize = steps.len();
    assert(steps@.take(i as int) =~= steps@);
    while i > 0
        invariant
            i <= steps.len(),
            higher_rung(steps@, current) == higher_rung(steps@.take(i as int), current),
        decreases i,
    {
        if steps[i - 1] > current {
            return steps[i - 1];
        }
        assert(steps@.take(i as int).drop_last() =~= steps@.take(i - 1));
        i = i - 1;
    }
    current
}

/// On a falling list a step ends on the neighbouring rung: no rung lies between
/// it and `current`. It stays only where there is no rung in its direction.
pub proof fn law_steps_skip_no_rung(steps: Seq<u32>, current: u32)
    requires
        falling(steps),
    ensures
        ({
            let up = higher_rung(steps, current);
            ||| up > current && steps.contains(up) && forall|i: int|
                0 <= i < steps.len() && current < #[trigger] steps[i] ==> up <= steps[i]
            ||| up == current && forall|i: int|
                0 <= i < steps.len() ==> #[trigger] steps[i] <= current
        }),
        ({
            let down = lower_rung(steps, current);
            ||| down < current && steps.contains(down) && forall|i: int|
                0 <= i < steps.len() && #[trigger] steps[i] < current ==> steps[i] <= down
            ||| down == current && forall|i: int|
                0 <= i < steps.len() ==> current <= #[trigger] steps[i]
        }),
{
    lemma_higher_rung(steps, current);
    lemma_lower_rung(steps, current);
}

proof fn lemma_higher_rung(steps: Seq<u32>, current: u32)
    requires
        falling(steps),
    ensures
        ({
            let up = higher_rung(steps, current);
            ||| up > current && steps.contains(up) && forall|i: int|
                0 <= i < steps.len() && current < #[trigger] steps[i] ==> up <= steps[i]
            ||| up == current && forall|i: int|
                0 <= i < steps.len() ==> #[trigger] steps[i] <= current
        }),
    decreases steps.len(),
{
    if steps.len() > 0 {
        let front = steps.drop_last();
        let up = higher_rung(steps, current);
        if steps.last() > current {
            assert(steps[steps.len() - 1] == up);
        } else {
            lemma_higher_rung(front, current);
            assert forall|i: int| 0 <= i < steps.len() && current < #[trigger] steps[i] implies up
                <= steps[i] by {
                assert(steps[i] == front[i]);
            }
            if up == current {
                assert forall|i: int| 0 <= i < steps.len() implies #[trigger] steps[i]
                    <= current by {
                    assert(i < front.len() ==> steps[i] == front[i]);
                }
            } else {
                let k = choose|k: int| 0 <= k < front.len() && front[k] == up;
                assert(steps[k] == up);
            }
        }
    }
}

proof fn lemma_lower_rung(steps: Seq<u32>, current: u32)
    requires
        falling(steps),
    ensures
        ({
            let down = lower_rung(steps, current);
            ||| down < current && steps.contains(down) && forall|i: int|
                0 <= i < steps.len() && #[trigger] steps[i] < current ==> steps[i] <= down
            ||| down == current && forall|i: int|
                0 <= i < steps.len() ==> current <= #[trigger] steps[i]
        }),
    decreases steps.len(),
{
    if steps.len() > 0 {
        let rest = steps.drop_first();
        let down = lower_rung(steps, current);
        if steps[0] >= current {
            lemma_lower_rung(rest, current);
            assert forall|i: int| 0 <= i < steps.len() && #[trigger] steps[i] < current implies steps[i]
                <= down by {
                assert(steps[i] == rest[i - 1]);
            }
            if down == current {
                assert forall|i: int| 0 <= i < steps.len() implies current
                    <= #[trigger] steps[i] by {
                    assert(i > 0 ==> steps[i] == rest[i - 1]);
                }
            } else {
                let k = choose|k: int| 0 <= k < rest.len() && rest[k] == down;
                assert(steps[k + 1] == down);
            }
        }
    }
}

/// A frame rate below the ceiling never gets stuck, a rung or not: a step up
/// leads to a higher rate, and not beyond the ceiling.
pub proof fn law_a_lower_rate_can_rise(c: Controller)
    requires
        c.target.fps < c.policy.max_fps,
    ensures
        c.target.fps < higher_rung(ladder_of(c.policy), c.target.fps) <= c.policy.max_fps,
{
    let steps = ladder_of(c.policy);
    law_ladder_falls(c.policy);
    law_steps_skip_no_rung(steps, c.target.fps);
    assert(steps[0] == c.policy.max_fps);
}

/// A ladder falls strictly and starts at the policy's ceiling; its other rungs
/// are exactly the standard rates from the floor up to below the ceiling.
pub proof fn law_ladder_falls(policy: QualityPolicy)
    ensures
        ladder_of(policy)[0] == policy.max_fps,
        falling(ladder_of(policy)),
        forall|f: u32|
            ladder_of(policy).contains(f) <==> f == policy.max_fps || (FPS_LADDER@.contains(f)
                && policy.min_fps <= f < policy.max_fps),
{
    let keep = |f: u32| policy.min_fps <= f && f < policy.max_fps;
    let rest = FPS_LADDER@.filter(keep);
    let steps = ladder_of(policy);
    assert(FPS_LADDER@.len() == 8);
    lemma_filter_keeps_order(FPS_LADDER@, keep);
    assert forall|i: int, j: int| 0 <= i < j < steps.len() implies steps[i] > steps[j] by {
        assert(steps[j] == rest[j - 1]);
        assert(keep(rest[j - 1]));
        if i > 0 {
            assert(steps[i] == rest[i - 1]);
        }
    }
    assert forall|f: u32| steps.contains(f) <==> f == policy.max_fps || (FPS_LADDER@.contains(f)
        && policy.min_fps <= f < policy.max_fps) by {
        if steps.contains(f) {
            let k = choose|k: int| 0 <= k < steps.len() && steps[k] == f;
            if k > 0 {
                assert(rest[k - 1] == f);
                assert(rest.contains(f));
                FPS_LADDER@.lemma_filter_contains_rev(keep, f);
            }
        }
        if FPS_LADDER@.contains(f) && policy.min_fps <= f < policy.max_fps {
            let k = choose|k: int| 0 <= k < FPS_LADDER@.len() && FPS_LADDER@[k] == f;
            assert(keep(FPS_LADDER@[k]));
            assert(rest.contains(FPS_LADDER@[k]));
            let m = choose|m: int| 0 <= m < rest.len() && rest[m] == f;
            assert(steps[m + 1] == f);
        }
        assert(steps[0] == policy.max_fps);
    }
}

/// Filtering a strictly falling sequence leaves it strictly falling.
proof fn lemma_filter_keeps_order(s: Seq<u32>, keep: spec_fn(u32) -> bool)
    requires
        forall|i: int, j: int| 0 <= i < j < s.len() ==> s[i] > s[j],
    ensures
        forall|i: int, j: int|
            0 <= i < j < s.filter(keep).len() ==> s.filter(keep)[i] > s.filter(keep)[j],
    decreases s.len(),
{
    reveal(Seq::filter);
    if s.len() > 0 {
        let front = s.drop_last();
        lemma_filter_keeps_order(front, keep);
        assert forall|i: int, j: int| 0 <= i < j < s.filter(keep).len() implies s.filter(keep)[i]
            > s.filter(keep)[j] by {
            if j == front.filter(keep).len() {
                assert(front.filter(keep).contains(front.filter(keep)[i]));
                front.lemma_filter_contains_rev(keep, front.filter(keep)[i]);
            }
        }
    }
}

/// Only a published decision moves the committed target, and it moves it to
/// what was published.
pub proof fn law_only_decisions_move_the_target(c: Controller, now: u64)
    ensures
        c.tick_decision(now) is None ==> c.ticked(now).target == c.target,
        c.tick_decision(now) matches Some(d) ==> c.ticked(now).target == d.target,
{
}

/// The first tick after a preset switch publishes the new ceiling with reason
/// `"preset"`, whatever other feedback came in between, each piece with its time,
/// and only that tick does.
pub proof fn law_preset_is_announced(
    c: Controller,
    preset: QualityPreset,
    at: u64,
    between: Seq<(Feedback, u64)>,
    now: u64,
)
    requires
        c.wf(),
        forall|i: int| 0 <= i < between.len() ==> !((#[trigger] between[i]).0 is Preset),
    ensures
        c.with_preset(preset, at).fed_all(between).tick_decision(now) == Some(
            Decision {
                target: RateTarget {
                    bitrate_kbps: c.target.bitrate_kbps,
                    fps: policy_for(preset, c.cfg).max_fps,
                },
                reason: "preset",
            },
        ),
        !c.with_preset(preset, at).fed_all(between).ticked(now).preset_announce_pending,
{
    lemma_feedback_keeps_the_target(c.with_preset(preset, at), between);
}

proof fn lemma_feedback_keeps_the_target(c: Controller, fbs: Seq<(Feedback, u64)>)
    requires
        forall|i: int| 0 <= i < fbs.len() ==> !((#[trigger] fbs[i]).0 is Preset),
    ensures
        c.fed_all(fbs).target == c.target,
        c.fed_all(fbs).preset_announce_pending == c.preset_announce_pending,
    decreases fbs.len(),
{
    if fbs.len() > 0 {
        let rest = fbs.drop_first();
        assert forall|i: int| 0 <= i < rest.len() implies !((#[trigger] rest[i]).0 is Preset) by {
            assert(rest[i] == fbs[i + 1]);
        }
        assert(!(fbs[0].0 is Preset));
        lemma_feedback_keeps_the_target(c.fed(fbs[0].0, fbs[0].1), rest);
    }
}

/// A preset switch depends on nothing but the preset: going back to a preset
/// restores its policy and ceiling.
pub proof fn law_presets_do_not_accumulate(
    c: Controller,
    first: QualityPreset,
    second: QualityPreset,
    at: u64,
    now: u64,
)
    requires
        c.wf(),
    ensures
        c.with_preset(first, at).with_preset(second, now) == c.with_preset(second, now),
{
    assert(c.with_preset(first, at).with_preset(second, now).target == c.with_preset(
        second,
        now,
    ).target);
}

/// Under `Sharp` no tick runs the frame rate above its ceiling, under `Smooth`
/// none runs it below its floor, as far as the configured range allows.
pub proof fn law_presets_bound_the_frame_rate(c: Controller, now: u64)
    requires
        c.wf(),
        c.cfg.min_fps <= c.cfg.max_fps,
    ensures
        c.preset == QualityPreset::Sharp && c.cfg.min_fps <= SHARP_FPS_CEILING ==> c.ticked(
            now,
        ).target.fps <= SHARP_FPS_CEILING,
        c.preset == QualityPreset::Smooth && c.cfg.max_fps >= SMOOTH_FPS_FLOOR ==> c.ticked(
            now,
        ).target.fps >= SMOOTH_FPS_FLOOR,
        c.cfg.min_fps <= c.policy.max_fps ==> c.cfg.min_fps <= c.ticked(now).target.fps
            <= c.cfg.max_fps,
{
}

/// A cut is a cut: a decision for loss or REMB never raises the bitrate.
pub proof fn law_cuts_never_raise_the_bitrate(c: Controller, now: u64)
    requires
        c.wf(),
        !c.preset_announce_pending,
        c.bitrate_move(now) is Loss || c.bitrate_move(now) is Remb,
    ensures
        c.ticked(now).target.bitrate_kbps <= c.target.bitrate_kbps,
{
    let old_b = c.target.bitrate_kbps as int;
    let kept = crate::arith::monus(2 * LOSS_ONE, c.last_loss as int);
    assert(old_b * 125 * kept <= old_b * BITRATE_SCALE) by (nonlinear_arith)
        requires
            old_b >= 0,
            0 <= kept <= 0x2_0000_0000,
            BITRATE_SCALE == 125 * 0x2_0000_0000,
    ;
    assert(c.next_bitrate(now) <= old_b * BITRATE_SCALE);
    lemma_rounding(c.next_bitrate(now), old_b);
}

/// Whatever the feedback, one tick raises the bitrate by no more than a tenth,
/// to the nearest kbit/s.
pub proof fn law_growth_is_bounded(c: Controller, now: u64)
    requires
        c.wf(),
    ensures
        c.ticked(now).target.bitrate_kbps * 10 <= c.target.bitrate_kbps * 11 + 5,
{
    if !c.preset_announce_pending && (c.bitrate_move(now) is Loss || c.bitrate_move(now) is Remb) {
        law_cuts_never_raise_the_bitrate(c, now);
    }
}

/// One congested tick is not enough: with no congestion before and no high
/// loss, a tick does not lower the bitrate.
pub proof fn law_one_congested_tick_does_not_cut(c: Controller, now: u64)
    requires
        c.wf(),
        c.congested_ticks == 0,
        c.last_loss <= LOSS_HIGH,
    ensures
        c.ticked(now).target.bitrate_kbps >= c.target.bitrate_kbps,
{
    let old_b = c.target.bitrate_kbps as int;
    if !c.preset_announce_pending {
        assert(!(c.bitrate_move(now) is Loss || c.bitrate_move(now) is Remb));
        assert(old_b * PROBE_UP * (BITRATE_SCALE / 100) >= old_b * BITRATE_SCALE) by (nonlinear_arith)
            requires
                old_b >= 0,
                PROBE_UP * (BITRATE_SCALE / 100) >= BITRATE_SCALE,
        ;
        assert(c.wanted_bitrate(now) >= old_b * BITRATE_SCALE);
        assert(c.next_bitrate(now) >= old_b * BITRATE_SCALE);
        lemma_rounding(c.next_bitrate(now), old_b);
    }
}

/// On a link that is not loaded, or while it rises, REMB never cuts.
pub proof fn law_remb_counts_only_on_a_loaded_link(c: Controller, now: u64)
    requires
        !c.link_loaded(now) || c.remb_rising(now),
    ensures
        !(c.bitrate_move(now) is Remb),
        c.congestion_streak(now) == 0,
{
}

/// `Sharp` asks for more bits per frame than `Auto`, and `Smooth` for fewer: a
/// rate that `Sharp` affords `Auto` affords too, and `Smooth` every one of those.
pub proof fn law_budgets_are_ordered(cfg: AdaptConfig, b: int, fps: u32)
    ensures
        affords(cfg, policy_for(QualityPreset::Sharp, cfg), b, fps) ==> affords(
            cfg,
            policy_for(QualityPreset::Auto, cfg),
            b,
            fps,
        ),
        affords(cfg, policy_for(QualityPreset::Auto, cfg), b, fps) ==> affords(
            cfg,
            policy_for(QualityPreset::Smooth, cfg),
            b,
            fps,
        ),
{
    let pixels = cfg.width * cfg.height;
    let unit = BITRATE_SCALE_BPS as int;
    let smooth = policy_for(QualityPreset::Smooth, cfg).bpp_budget * fps;
    let auto = policy_for(QualityPreset::Auto, cfg).bpp_budget * fps;
    let sharp = policy_for(QualityPreset::Sharp, cfg).bpp_budget * fps;
    assert(pixels >= 0) by (nonlinear_arith)
        requires
            pixels == cfg.width * cfg.height,
    ;
    assert(smooth == fps && auto == 2 * fps && sharp == 6 * fps) by (nonlinear_arith)
        requires
            smooth == policy_for(QualityPreset::Smooth, cfg).bpp_budget * fps,
            auto == policy_for(QualityPreset::Auto, cfg).bpp_budget * fps,
            sharp == policy_for(QualityPreset::Sharp, cfg).bpp_budget * fps,
            policy_for(QualityPreset::Smooth, cfg).bpp_budget == 1,
            policy_for(QualityPreset::Auto, cfg).bpp_budget == 2,
            policy_for(QualityPreset::Sharp, cfg).bpp_budget == 6,
    ;
    assert(pixels * smooth * unit <= pixels * auto * unit) by (nonlinear_arith)
        requires
            pixels >= 0,
            smooth <= auto,
            unit > 0,
    ;
    assert(pixels * auto * unit <= pixels * sharp * unit) by (nonlinear_arith)
        requires
            pixels >= 0,
            auto <= sharp,
            unit > 0,
    ;
}

/// A window without frames and without overruns is no evidence about the
/// encoder: its rung and its streak stay.
pub proof fn law_static_screen_is_no_evidence(c: Controller)
    requires
        c.window.frames == 0,
        c.window.overruns == 0,
    ensures
        c.encoder_fps() == c.target.fps,
        c.next_fast_ticks() == c.fast_ticks,
{
}

/// Rounding to the nearest kbit/s respects whole bounds.
proof fn lemma_rounding(b: int, kbps: int)
    ensures
        b <= kbps * BITRATE_SCALE ==> (b + BITRATE_SCALE / 2) / BITRATE_SCALE as int <= kbps,
        b >= kbps * BITRATE_SCALE ==> (b + BITRATE_SCALE / 2) / BITRATE_SCALE as int >= kbps,
{
}

} // verus!
