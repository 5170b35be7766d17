//! What the controller does in the terms of the network and the encoder, whatever
//! its rules are made of. Rates are in kbit/s unless a name says otherwise.

use vstd::prelude::*;

use super::{Controller, Decision, Feedback, BITRATE_SCALE, FPS_LADDER, LOSS_HIGH, LOSS_LOW, LOSS_ONE};
use crate::proto::QualityPreset;

verus! {

/// A tick that finds two percent of loss or more never raises the bitrate: the
/// link is not healthy enough to probe.
pub proof fn law_a_lossy_link_never_grows(c: Controller, now: u64)
    requires
        c.wf(),
        c.last_loss >= LOSS_LOW || c.last_loss * 50 >= LOSS_ONE,
    ensures
        c.ticked(now).target.bitrate_kbps <= c.target.bitrate_kbps,
{
    let old_b = c.target.bitrate_kbps as int;
    if !c.preset_announce_pending {
        let kept = crate::arith::monus(2 * LOSS_ONE, c.last_loss as int);
        assert(old_b * 125 * kept <= old_b * BITRATE_SCALE) by (nonlinear_arith)
            requires
                old_b >= 0,
                0 <= kept <= 0x2_0000_0000,
                BITRATE_SCALE == 125 * 0x2_0000_0000,
        ;
        assert(c.next_bitrate(now) <= old_b * BITRATE_SCALE);
    }
}

/// A tick that finds less than two percent of loss, and no estimate of the
/// receiver's, raises the bitrate by a tenth, to the nearest kbit/s. Where that
/// leads beyond the ceiling it goes to the ceiling, or stays where less than a
/// twentieth is missing.
pub proof fn law_a_healthy_link_grows(c: Controller, now: u64)
    requires
        c.wf(),
        !c.preset_announce_pending,
        c.last_loss * 51 < LOSS_ONE,
        c.last_remb_at is None,
        c.target.bitrate_kbps > 0,
    ensures
        ({
            let old_b = c.target.bitrate_kbps;
            let new_b = c.ticked(now).target.bitrate_kbps;
            let max_b = c.cfg.max_bitrate_kbps;
            if old_b * 11 <= max_b * 10 {
                -5 <= new_b * 10 - old_b * 11 <= 5 && c.tick_decision(now) is Some
            } else {
                new_b == max_b || (new_b == old_b && (max_b - old_b) * 20 < old_b)
            }
        }),
{
}

/// Above a tenth of loss the bitrate loses half the lost share, to the nearest
/// kbit/s. The floor stops the cut.
pub proof fn law_heavy_loss_cuts_by_half_its_share(c: Controller, now: u64)
    requires
        c.wf(),
        !c.preset_announce_pending,
        c.last_loss > LOSS_HIGH || c.last_loss * 10 > LOSS_ONE + 64,
        c.last_loss <= LOSS_ONE,
        c.target.bitrate_kbps > 0,
    ensures
        ({
            let old_b = c.target.bitrate_kbps;
            let new_b = c.ticked(now).target.bitrate_kbps;
            let min_b = c.cfg.min_bitrate_kbps;
            let kept = old_b * (2 * LOSS_ONE - c.last_loss);
            &&& kept >= min_b * (2 * LOSS_ONE) ==> -LOSS_ONE <= new_b * (2 * LOSS_ONE) - kept
                <= LOSS_ONE
            &&& kept < min_b * (2 * LOSS_ONE) ==> new_b == min_b || (new_b == old_b && (old_b
                - min_b) * 20 < old_b)
        }),
{
    let old_b = c.target.bitrate_kbps as int;
    let left = 2 * LOSS_ONE - c.last_loss;
    let kept = old_b * left;
    assert(old_b * 125 * left == 125 * kept) by (nonlinear_arith)
        requires
            kept == old_b * left,
    ;
    let lost = old_b * c.last_loss;
    assert(kept == old_b * 0x2_0000_0000 - lost) by (nonlinear_arith)
        requires
            kept == old_b * left,
            lost == old_b * c.last_loss,
            left == 0x2_0000_0000 - c.last_loss,
    ;
    assert(lost * 10 >= old_b * 0x1_0000_0000) by (nonlinear_arith)
        requires
            old_b >= 0,
            lost == old_b * c.last_loss,
            c.last_loss * 10 >= 0x1_0000_0000,
    ;
    assert(BITRATE_SCALE == 250 * LOSS_ONE);
    assert(lost >= 0) by (nonlinear_arith)
        requires
            lost == old_b * c.last_loss,
            old_b >= 0,
    ;
    assert(c.bitrate_move(now) is Loss);
    assert(c.wanted_bitrate(now) == 125 * kept);
    assert(125 * kept <= old_b * BITRATE_SCALE);
    if kept >= c.cfg.min_bitrate_kbps * (2 * LOSS_ONE) {
        assert(c.next_bitrate(now) == 125 * kept);
        assert((old_b * BITRATE_SCALE - 125 * kept) * 100 >= 5 * (old_b * BITRATE_SCALE));
        assert(c.worth_publishing(now));
    } else {
        assert(c.next_bitrate(now) == c.cfg.min_bitrate_kbps * BITRATE_SCALE);
    }
}

/// The receiver's estimate cuts the bitrate down to it once it says "congested"
/// for the second tick in a row: at most three seconds old, the link loaded to
/// four fifths of the target, the estimate below nine tenths of what was sent and
/// no higher than a tick ago.
pub proof fn law_a_lasting_estimate_is_obeyed(c: Controller, now: u64, remb_bps: u64, at: u64)
    requires
        c.wf(),
        !c.preset_announce_pending,
        c.last_loss <= LOSS_HIGH,
        c.congested_ticks >= 1,
        c.last_remb_bps == Some(remb_bps),
        c.last_remb_at == Some(at),
        now - at <= 3_000_000_000,
        c.prev_tick_remb_bps matches Some(prev) ==> remb_bps <= prev,
        c.last_tick_at < now,
        ({
            let elapsed = now - c.last_tick_at;
            let sent_bits = c.window.bytes * 8;
            &&& sent_bits * 1_000_000_000 * 10 >= c.target.bitrate_kbps * 1000 * elapsed * 8
            &&& remb_bps * elapsed * 10 < sent_bits * 1_000_000_000 * 9
        }),
    ensures
        ({
            let old_b = c.target.bitrate_kbps;
            let new_b = c.ticked(now).target.bitrate_kbps;
            &&& new_b <= old_b
            &&& c.cfg.min_bitrate_kbps * 1000 <= remb_bps && remb_bps * 20 <= old_b * 1000 * 19
                && old_b > 0 ==> -500 <= new_b * 1000 - remb_bps <= 500
            &&& remb_bps < c.cfg.min_bitrate_kbps * 1000 && old_b >= c.cfg.min_bitrate_kbps * 2
                && old_b > 0 ==> new_b == c.cfg.min_bitrate_kbps
        }),
{
    let elapsed = now - c.last_tick_at;
    let product = c.target.bitrate_kbps * elapsed;
    assert(c.target.bitrate_kbps * 1000 * elapsed * 8 == product * 8000) by (nonlinear_arith)
        requires
            product == c.target.bitrate_kbps * elapsed,
    ;
    assert(c.link_loaded(now));
    assert(c.remb_congested(now));
}

/// The estimate never cuts on less than that: not when there is none, when it is
/// stale or rising, when it does not undercut what was sent, when the link is not
/// loaded, nor on the first tick that says so.
pub proof fn law_an_estimate_alone_is_no_cut(c: Controller, now: u64)
    requires
        c.wf(),
        c.last_loss <= LOSS_HIGH,
        ({
            let elapsed = now - c.last_tick_at;
            let sent = c.window.bytes * 8 * 1_000_000_000;
            ||| c.last_remb_at is None
            ||| c.last_remb_bps is None
            ||| now - c.last_remb_at->0 > 3_000_000_000
            ||| (c.prev_tick_remb_bps is Some && c.last_remb_bps->0 > c.prev_tick_remb_bps->0)
            ||| elapsed <= 0
            ||| c.last_remb_bps->0 * elapsed * 10 >= sent * 9
            ||| sent * 10 < c.target.bitrate_kbps * 1000 * elapsed * 8
            ||| c.congested_ticks == 0
        }),
    ensures
        c.ticked(now).target.bitrate_kbps >= c.target.bitrate_kbps,
{
    let old_b = c.target.bitrate_kbps as int;
    if !c.preset_announce_pending {
        let elapsed = now - c.last_tick_at;
        let product = c.target.bitrate_kbps * elapsed;
        assert(c.target.bitrate_kbps * 1000 * elapsed * 8 == product * 8000) by (nonlinear_arith)
            requires
                product == c.target.bitrate_kbps * elapsed,
        ;
        if c.last_remb_bps is Some {
            let remb = c.last_remb_bps->0;
            assert(remb * elapsed * 10 == (remb * elapsed) * 10);
        }
        assert(elapsed > 0 ==> c.elapsed(now) == elapsed);
        if c.congested_ticks > 0 && c.fresh_remb(now) is Some && !c.remb_rising(now) && elapsed > 0 {
            let remb = c.last_remb_bps->0;
            assert(remb == c.fresh_remb(now)->0);
            assert(remb * elapsed * 10 >= c.window.bytes * 8 * 1_000_000_000 * 9 ==> !c.remb_undercuts(remb, now));
            assert(c.window.bytes * 8 * 1_000_000_000 * 10 < product * 8000 ==> !c.link_loaded(now));
            assert(!c.remb_congested(now));
        }
        assert(c.congestion_streak(now) < 2);
        assert(!(c.bitrate_move(now) is Loss || c.bitrate_move(now) is Remb));
        assert(c.next_bitrate(now) >= old_b * BITRATE_SCALE);
    }
}

/// The bitrate stays within the configured range.
pub proof fn law_the_bitrate_stays_in_range(c: Controller, now: u64)
    requires
        c.wf(),
    ensures
        c.cfg.min_bitrate_kbps <= c.ticked(now).target.bitrate_kbps <= c.cfg.max_bitrate_kbps,
        c.ticked(now).cfg == c.cfg,
{
}

/// A tick starts the next window: nothing counted yet, from now on.
pub proof fn law_a_tick_starts_a_window(c: Controller, now: u64)
    ensures
        c.ticked(now).window.bytes == 0,
        c.ticked(now).window.frames == 0,
        c.ticked(now).window.overruns == 0,
        c.ticked(now).last_tick_at == now,
        !c.ticked(now).preset_announce_pending,
        c.ticked(now).last_loss == c.last_loss,
        c.ticked(now).last_remb_bps == c.last_remb_bps,
        c.ticked(now).last_remb_at == c.last_remb_at,
{
}

/// The first rate of a falling list that a bitrate affords is no lower than any
/// that it affords.
proof fn lemma_affordable(
    c: Controller,
    steps: Seq<u32>,
    b: int,
    f: u32,
)
    requires
        super::falling(steps),
    ensures
        ({
            let r = super::affordable_fps(c.cfg, c.policy, steps, b);
            &&& steps.contains(f) && super::affords(c.cfg, c.policy, b, f) ==> r >= f
            &&& r == c.policy.min_fps || (steps.contains(r) && super::affords(
                c.cfg,
                c.policy,
                b,
                r,
            ))
        }),
    decreases steps.len(),
{
    if steps.len() > 0 {
        let rest = steps.drop_first();
        let r = super::affordable_fps(c.cfg, c.policy, steps, b);
        if super::affords(c.cfg, c.policy, b, steps[0]) {
            assert(steps.contains(steps[0]));
            if steps.contains(f) {
                let k = choose|k: int| 0 <= k < steps.len() && steps[k] == f;
                assert(k > 0 ==> steps[0] > steps[k]);
            }
        } else {
            lemma_affordable(c, rest, b, f);
            if steps.contains(f) {
                let k = choose|k: int| 0 <= k < steps.len() && steps[k] == f;
                if k > 0 {
                    assert(rest[k - 1] == f);
                    assert(rest.contains(f));
                }
            }
            if rest.contains(r) {
                let k = choose|k: int| 0 <= k < rest.len() && rest[k] == r;
                assert(steps[k + 1] == r);
            }
        }
    }
}

/// Bits that a second of frames needs, in hundredths: each pixel of each frame
/// has its budget.
pub open spec fn needed_bits(c: Controller, fps: u32) -> int {
    c.cfg.width * c.cfg.height * (c.policy.bpp_budget * fps)
}

proof fn lemma_needed_grows(c: Controller, a: u32, b: u32)
    requires
        a <= b,
    ensures
        0 <= needed_bits(c, a) <= needed_bits(c, b),
{
    let pixels = c.cfg.width * c.cfg.height;
    let budget = c.policy.bpp_budget as int;
    assert(0 <= pixels) by (nonlinear_arith)
        requires
            pixels == c.cfg.width * c.cfg.height,
    ;
    assert(0 <= budget * a <= budget * b) by (nonlinear_arith)
        requires
            0 <= a <= b,
            budget >= 0,
    ;
    assert(0 <= pixels * (budget * a) <= pixels * (budget * b)) by (nonlinear_arith)
        requires
            pixels >= 0,
            0 <= budget * a <= budget * b,
    ;
}

/// What is published fits the bit budget: the bitrate, to the nearest kbit/s,
/// pays for every frame, or the frame rate is at the preset's floor.
pub proof fn law_a_published_rate_fits_the_budget(c: Controller, now: u64, d: Decision)
    requires
        c.wf(),
        !c.preset_announce_pending,
        c.policy.min_fps <= c.policy.max_fps,
        c.tick_decision(now) == Some(d),
    ensures
        d.target.fps <= c.policy.min_fps || (d.target.bitrate_kbps * 1000 + 500) * 100
            >= needed_bits(c, d.target.fps),
{
    let steps = super::ladder_of(c.policy);
    super::law_ladder_falls(c.policy);
    let b = c.next_bitrate(now);
    let r = c.bitrate_fps(now);
    lemma_affordable(c, steps, b, r);
    if d.target.fps > c.policy.min_fps {
        assert(d.target.fps <= r);
        lemma_needed_grows(c, d.target.fps, r);
        assert(super::affords(c.cfg, c.policy, b, r));
        assert(b * 100 >= needed_bits(c, r) * super::BITRATE_SCALE_BPS);
    }
}

/// The bit budget slows no one down without need: a rate of the ladder, no higher
/// than the current one, that the published bitrate affords with half a kbit/s to
/// spare is not fallen below, unless the encoder is too slow.
pub proof fn law_an_affordable_rate_is_kept(c: Controller, now: u64, f: u32)
    requires
        c.wf(),
        !c.preset_announce_pending,
        c.policy.min_fps <= c.policy.max_fps,
        c.window.overruns < 2,
        f == c.policy.max_fps || (FPS_LADDER@.contains(f) && c.policy.min_fps <= f
            < c.policy.max_fps),
        0 < f <= c.target.fps,
        (c.ticked(now).target.bitrate_kbps * 1000 - 500) * 100 >= needed_bits(c, f),
    ensures
        c.ticked(now).target.fps >= f,
{
    let steps = super::ladder_of(c.policy);
    super::law_ladder_falls(c.policy);
    super::law_steps_skip_no_rung(steps, c.target.fps);
    assert(steps.contains(f));
    if c.worth_publishing(now) {
        let b = c.next_bitrate(now);
        assert(b * 100 >= needed_bits(c, f) * super::BITRATE_SCALE_BPS);
        lemma_affordable(c, steps, b, f);
    }
}

/// An encoder that fell behind by two frames or more is slowed down, as long as
/// the ladder has a lower rate `f`, and starts its streak of clean ticks anew.
pub proof fn law_a_slow_encoder_is_slowed_down(c: Controller, now: u64, f: u32)
    requires
        c.wf(),
        !c.preset_announce_pending,
        c.window.overruns >= 2,
        FPS_LADDER@.contains(f),
        c.policy.min_fps <= f < c.target.fps <= c.policy.max_fps,
    ensures
        c.ticked(now).target.fps < c.target.fps,
        c.ticked(now).fast_ticks == 0,
{
    let steps = super::ladder_of(c.policy);
    super::law_ladder_falls(c.policy);
    super::law_steps_skip_no_rung(steps, c.target.fps);
    let k = choose|k: int| 0 <= k < steps.len() && steps[k] == f;
    assert(steps[k] < c.target.fps);
}

/// The encoder loses one rung at a time: a rate `f` of the ladder below the
/// current one is not skipped while the published bitrate affords it.
pub proof fn law_a_slow_encoder_loses_one_rung(c: Controller, now: u64, f: u32)
    requires
        c.wf(),
        !c.preset_announce_pending,
        FPS_LADDER@.contains(f),
        c.policy.min_fps <= f < c.target.fps <= c.policy.max_fps,
        0 < f,
        (c.ticked(now).target.bitrate_kbps * 1000 - 500) * 100 >= needed_bits(c, f),
    ensures
        c.ticked(now).target.fps >= f,
{
    let steps = super::ladder_of(c.policy);
    super::law_ladder_falls(c.policy);
    super::law_steps_skip_no_rung(steps, c.target.fps);
    let k = choose|k: int| 0 <= k < steps.len() && steps[k] == f;
    assert(steps[k] < c.target.fps);
    if c.worth_publishing(now) {
        let b = c.next_bitrate(now);
        assert(b * 100 >= needed_bits(c, f) * super::BITRATE_SCALE_BPS);
        lemma_affordable(c, steps, b, f);
    }
}

/// The frame rate rises only on the fifth clean tick in a row, each with frames
/// and without an overwritten one, and then by one rung: never past a rate `f` of
/// the ladder that is above the current one.
pub proof fn law_the_rate_rises_with_patience(c: Controller, now: u64, f: u32)
    requires
        c.wf(),
        c.policy.min_fps <= c.policy.max_fps,
        c.ticked(now).target.fps > c.target.fps,
        f == c.policy.max_fps || (FPS_LADDER@.contains(f) && c.policy.min_fps <= f
            < c.policy.max_fps),
        f > c.target.fps,
    ensures
        c.fast_ticks >= 4,
        c.window.frames > 0,
        c.window.overruns == 0,
        c.ticked(now).target.fps <= f,
{
    let steps = super::ladder_of(c.policy);
    super::law_ladder_falls(c.policy);
    super::law_steps_skip_no_rung(steps, c.target.fps);
    let k = choose|k: int| 0 <= k < steps.len() && steps[k] == f;
    assert(steps[k] > c.target.fps);
}

/// And on that tick it does rise, to the next rung `f`, where nothing holds the
/// bitrate down and it affords that rate.
pub proof fn law_a_patient_encoder_is_rewarded(c: Controller, now: u64, f: u32)
    requires
        c.wf(),
        !c.preset_announce_pending,
        c.policy.min_fps <= c.policy.max_fps,
        c.fast_ticks >= 4,
        c.window.frames > 0,
        c.window.overruns == 0,
        c.last_loss <= LOSS_HIGH,
        c.congested_ticks == 0,
        f == c.policy.max_fps || (FPS_LADDER@.contains(f) && c.policy.min_fps <= f
            < c.policy.max_fps),
        f > c.target.fps,
        forall|g: u32|
            #[trigger] FPS_LADDER@.contains(g) && c.policy.min_fps <= g && c.target.fps < g
                ==> f <= g,
        c.target.bitrate_kbps * 1000 * 100 >= needed_bits(c, f),
    ensures
        c.ticked(now).target.fps == f,
        c.ticked(now).fast_ticks == 0,
{
    let steps = super::ladder_of(c.policy);
    super::law_ladder_falls(c.policy);
    super::law_steps_skip_no_rung(steps, c.target.fps);
    assert(steps.contains(f));
    let k = choose|k: int| 0 <= k < steps.len() && steps[k] == f;
    let up = super::higher_rung(steps, c.target.fps);
    assert(steps[k] > c.target.fps);
    assert(up <= f);
    assert(steps.contains(up));
    assert(f <= up);
    let b = c.next_bitrate(now);
    assert(c.bitrate_move(now) is Probe || c.bitrate_move(now) is Hold);
    assert(b >= c.target.bitrate_kbps * BITRATE_SCALE);
    assert(b * 100 >= needed_bits(c, f) * super::BITRATE_SCALE_BPS);
    lemma_affordable(c, steps, b, f);
}

/// Clean ticks below the ceiling are counted, too many overwritten frames undo
/// the count, and a tick without evidence leaves it.
pub proof fn law_clean_ticks_are_counted(c: Controller, now: u64)
    requires
        c.wf(),
        !c.preset_announce_pending,
    ensures
        c.window.frames > 0 && c.window.overruns == 0 && c.target.fps < c.policy.max_fps
            && c.fast_ticks < 4 ==> c.ticked(now).fast_ticks == c.fast_ticks + 1,
        c.window.overruns >= 2 ==> c.ticked(now).fast_ticks == 0,
        c.window.overruns == 1 || (c.window.frames == 0 && c.window.overruns == 0) ==> c.ticked(
            now,
        ).fast_ticks == c.fast_ticks,
{
    if c.target.fps < c.policy.max_fps {
        super::law_a_lower_rate_can_rise(c);
    }
}

/// A decision says what moved it: heavy loss first; then, with no estimate from
/// the receiver, the encoder that fell behind where a lower rate `f` is left, the
/// budget that lowers the frame rate, or the probing that alone raised the
/// bitrate.
pub proof fn law_reasons_are_true(c: Controller, now: u64, d: Decision, f: u32)
    requires
        c.wf(),
        !c.preset_announce_pending,
        c.policy.min_fps <= c.policy.max_fps,
        c.tick_decision(now) == Some(d),
    ensures
        c.last_loss > LOSS_HIGH ==> d.reason == "loss",
        c.last_loss <= LOSS_HIGH && c.last_remb_at is None ==> {
            &&& c.window.overruns >= 2 && FPS_LADDER@.contains(f) && c.policy.min_fps <= f
                < c.target.fps <= c.policy.max_fps ==> d.reason == "encoder"
            &&& c.window.overruns < 2 && c.fast_ticks < 4 && d.target.fps < c.target.fps
                ==> d.reason == "bitrate"
            &&& c.window.overruns < 2 && d.target.fps > c.target.fps ==> d.reason == "encoder"
            &&& c.window.frames == 0 && c.window.overruns == 0 && d.target.fps == c.target.fps
                && c.target.fps == c.policy.max_fps ==> d.reason == "probe"
        },
{
    let steps = super::ladder_of(c.policy);
    super::law_ladder_falls(c.policy);
    super::law_steps_skip_no_rung(steps, c.target.fps);
    lemma_affordable(c, steps, c.next_bitrate(now), c.bitrate_fps(now));
    assert(c.bitrate_fps(now) >= c.policy.min_fps);
    if c.window.overruns >= 2 && FPS_LADDER@.contains(f) && c.policy.min_fps <= f < c.target.fps
        <= c.policy.max_fps {
        let k = choose|k: int| 0 <= k < steps.len() && steps[k] == f;
        assert(steps[k] < c.target.fps);
    }
}

/// A decision is worth its message: the frame rate changes, or the bitrate by a
/// twentieth, to the nearest kbit/s. Nothing is published where neither loss nor
/// an estimate nor the encoder has anything to say at the ceiling.
pub proof fn law_decisions_are_worth_it(c: Controller, now: u64)
    requires
        c.wf(),
        !c.preset_announce_pending,
    ensures
        c.tick_decision(now) matches Some(d) ==> d.target.fps != c.target.fps || 20 * (
        d.target.bitrate_kbps - c.target.bitrate_kbps) + 10 >= c.target.bitrate_kbps || 20 * (
        c.target.bitrate_kbps - d.target.bitrate_kbps) + 10 >= c.target.bitrate_kbps,
{
}

/// Each kind of feedback is taken for what it is and changes nothing else.
pub proof fn law_feedback_is_taken_in(c: Controller, fb: Feedback, at: u64)
    requires
        c.has_room_for(fb),
        !(fb is Preset),
    ensures
        ({
            let r = c.fed(fb, at);
            let remb = fb is Remb;
            &&& r.last_remb_bps == if remb {
                Some(fb->bitrate_bps)
            } else {
                c.last_remb_bps
            }
            &&& r.last_remb_at == if remb {
                Some(at)
            } else {
                c.last_remb_at
            }
            &&& r.last_loss == if fb is Loss {
                fb->fraction
            } else {
                c.last_loss
            }
            &&& r.window.bytes == c.window.bytes + if fb is Frame {
                fb->bytes as int
            } else {
                0
            }
            &&& r.window.frames == c.window.frames + if fb is Frame {
                1int
            } else {
                0
            }
            &&& r.window.overruns == c.window.overruns + if fb is Overrun {
                fb->Overrun_frames as int
            } else {
                0
            }
            &&& r.target == c.target && r.cfg == c.cfg && r.policy == c.policy && r.preset
                == c.preset
            &&& r.last_tick_at == c.last_tick_at && r.congested_ticks == c.congested_ticks
                && r.fast_ticks == c.fast_ticks && r.prev_tick_remb_bps == c.prev_tick_remb_bps
        }),
{
}

/// A tick remembers the estimate that was fresh, and how long it has said
/// "congested": a streak that ends as soon as the estimate is gone or rising.
pub proof fn law_the_estimate_is_remembered(c: Controller, now: u64)
    requires
        !c.preset_announce_pending,
        c.last_remb_at is Some ==> c.last_remb_bps is Some && c.last_remb_at->0 <= now,
    ensures
        c.last_remb_at matches Some(at) ==> c.ticked(now).prev_tick_remb_bps == if now - at
            <= 3_000_000_000 {
            c.last_remb_bps
        } else {
            None
        },
        c.last_remb_at is None ==> c.ticked(now).prev_tick_remb_bps is None && c.ticked(
            now,
        ).congested_ticks == 0,
        c.last_remb_at matches Some(at) ==> now - at > 3_000_000_000 ==> c.ticked(
            now,
        ).congested_ticks == 0,
        c.prev_tick_remb_bps is Some && c.last_remb_bps is Some && c.last_remb_bps->0
            > c.prev_tick_remb_bps->0 ==> c.ticked(now).congested_ticks == 0,
{
}

/// The presets in numbers: `Sharp` runs at 15 frames per second at most and spends
/// three times the bits on each, `Smooth` at 15 at least, as far as the session
/// allows, and spends half; `Auto` takes the session's own limits.
pub proof fn law_presets_in_numbers(cfg: super::AdaptConfig)
    ensures
        ({
            let auto = super::policy_for(QualityPreset::Auto, cfg);
            let sharp = super::policy_for(QualityPreset::Sharp, cfg);
            let smooth = super::policy_for(QualityPreset::Smooth, cfg);
            &&& auto.max_fps == cfg.max_fps && auto.min_fps == cfg.min_fps && auto.bpp_budget == 2
            &&& sharp.bpp_budget == 6 && sharp.min_fps == cfg.min_fps
            &&& sharp.max_fps <= 15 && sharp.max_fps <= cfg.max_fps && (sharp.max_fps == 15
                || sharp.max_fps == cfg.max_fps)
            &&& smooth.bpp_budget == 1 && smooth.max_fps == cfg.max_fps
            &&& smooth.min_fps <= cfg.max_fps
            &&& smooth.min_fps == cfg.max_fps || (smooth.min_fps >= 15 && smooth.min_fps
                >= cfg.min_fps && (smooth.min_fps == 15 || smooth.min_fps == cfg.min_fps))
            &&& smooth.min_fps < cfg.max_fps || cfg.max_fps <= 15 || cfg.max_fps <= cfg.min_fps
        }),
{
}

/// A switch of the preset moves the frame rate to its ceiling and nothing else of
/// the target, and starts a window; what is known of the network stays known.
pub proof fn law_a_switch_starts_at_the_ceiling(c: Controller, preset: QualityPreset, at: u64)
    requires
        c.wf(),
    ensures
        ({
            let r = c.with_preset(preset, at);
            &&& r.preset == preset && r.policy == super::policy_for(preset, c.cfg)
            &&& r.target.fps == r.policy.max_fps && r.target.bitrate_kbps == c.target.bitrate_kbps
            &&& r.preset_announce_pending
            &&& r.window.bytes == 0 && r.window.frames == 0 && r.window.overruns == 0
            &&& r.last_tick_at == at
            &&& r.last_loss == c.last_loss && r.last_remb_bps == c.last_remb_bps && r.last_remb_at
                == c.last_remb_at
            &&& r.congested_ticks == c.congested_ticks && r.fast_ticks == c.fast_ticks
        }),
{
}

} // verus!
