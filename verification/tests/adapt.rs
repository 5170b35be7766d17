//! The bitrate and frame-rate controller.

use rcdesk_host::adapt::{
    step_down, step_up, AdaptConfig, Controller, Feedback, BITRATE_SCALE, LOSS_HIGH, LOSS_ONE, MIN_BITRATE_KBPS, MIN_FPS,
    TICK,
};
use rcdesk_host::encode::RateTarget;
use rcdesk_host::proto::QualityPreset;

/// Some instant of the clock.
const START: u64 = 5_000_000_000;

/// A share of lost packets in the controller's unit.
fn loss(fraction: f32) -> u64 {
    (f64::from(fraction) * LOSS_ONE as f64) as u64
}


/// 1280x720 with a ceiling of 30 fps and 6000 kbit/s: a bit budget large enough
/// that the ladder never limits the frame rate at the full bitrate.
fn cfg() -> AdaptConfig {
    AdaptConfig {
        max_bitrate_kbps: 6000,
        min_bitrate_kbps: MIN_BITRATE_KBPS,
        max_fps: 30,
        min_fps: MIN_FPS,
        width: 1280,
        height: 720,
    }
}

/// One tick's worth of encoded frames totalling `bytes` -- fed as a
/// single `Frame` since only the byte sum and "any frames at all" matter
/// to the controller.
fn frames(c: &mut Controller, now: u64, bytes: usize) {
    c.feedback(Feedback::Frame { bytes }, now);
}

fn remb(c: &mut Controller, now: u64, bitrate_bps: u64) {
    c.feedback(Feedback::Remb { bitrate_bps }, now);
}

#[test]
fn starts_at_max_and_holds_without_feedback() {
    let t0 = START;
    let mut c = Controller::new(cfg(), t0);
    assert_eq!(
        c.target(),
        RateTarget {
            bitrate_kbps: 6000,
            fps: 30
        }
    );

    let mut now = t0;
    for _ in 0..6 {
        now += TICK;
        // Frames and no overruns every tick -- already at the top fps
        // rung and the max bitrate, so nothing can step or probe up.
        frames(&mut c, now, 25_000);
        assert_eq!(c.tick(now), None);
    }
    assert_eq!(c.target().bitrate_kbps, 6000);
    assert_eq!(c.target().fps, 30);
}

#[test]
fn remb_below_sent_rate_on_loaded_link_caps_bitrate_after_two_ticks() {
    let t0 = START;
    let mut c = Controller::new(cfg(), t0);

    // 750_000 bytes/s = 6000 kbps sent (>= 0.8 * 6000: loaded), REMB
    // 2000 kbps < 0.9 * 6000: congested. First tick only counts.
    let mut now = t0 + TICK;
    frames(&mut c, now, 750_000);
    remb(&mut c, now, 2_000_000);
    assert_eq!(c.tick(now), None);
    assert_eq!(c.target().bitrate_kbps, 6000);

    // Second consecutive congested tick: cut to REMB.
    now += TICK;
    frames(&mut c, now, 750_000);
    remb(&mut c, now, 2_000_000);
    let decision = c.tick(now).expect("expected a decision");
    assert_eq!(decision.reason, "remb");
    assert_eq!(decision.target.bitrate_kbps, 2000);
    assert_eq!(decision.target.fps, 30);
}

#[test]
fn remb_below_sent_rate_on_unloaded_link_is_ignored() {
    // The bench scenario: static screen with typing bursts. 1000 kbps
    // sent is far below 0.8 * 6000, so REMB (300 kbps, capped by the
    // tiny received rate) says nothing about the network -- and since
    // b is already at max there's nothing to probe either: hold.
    let t0 = START;
    let mut c = Controller::new(cfg(), t0);
    let mut now = t0;
    for _ in 0..4 {
        now += TICK;
        frames(&mut c, now, 125_000);
        remb(&mut c, now, 300_000);
        assert_eq!(c.tick(now), None);
    }
    assert_eq!(c.target().bitrate_kbps, 6000);
    assert_eq!(c.target().fps, 30);
}

#[test]
fn rising_remb_below_sent_rate_is_ramping_not_congestion() {
    // The bench's false positive: a video starts, 6000 kbps go out, and
    // the browser's estimate trails behind while climbing 8 %/s. While
    // it rises no cut happens even though it undercuts the sent rate
    // for many ticks in a row.
    let t0 = START;
    let mut c = Controller::new(cfg(), t0);
    let mut now = t0;
    let mut estimate = 2_000_000u64;
    for _ in 0..6 {
        now += TICK;
        frames(&mut c, now, 750_000);
        remb(&mut c, now, estimate);
        assert_eq!(c.tick(now), None);
        estimate = estimate * 108 / 100;
    }
    assert_eq!(c.target().bitrate_kbps, 6000);

    // The estimate then *falls* two ticks in a row: that is overuse.
    now += TICK;
    frames(&mut c, now, 750_000);
    remb(&mut c, now, 2_500_000);
    assert_eq!(c.tick(now), None);
    now += TICK;
    frames(&mut c, now, 750_000);
    remb(&mut c, now, 2_400_000);
    let decision = c.tick(now).expect("expected a remb cut");
    assert_eq!(decision.reason, "remb");
    assert_eq!(decision.target.bitrate_kbps, 2400);
}

#[test]
fn remb_above_sent_rate_is_not_congestion() {
    let t0 = START;
    let mut c = Controller::new(cfg(), t0);
    let now = t0 + TICK;

    // 6000 kbps sent, REMB 9000 >= 0.9 * sent: not congestion, and b is
    // already at max: hold.
    frames(&mut c, now, 750_000);
    remb(&mut c, now, 9_000_000);
    assert_eq!(c.tick(now), None);
    assert_eq!(c.target().bitrate_kbps, 6000);
}

#[test]
fn probe_ramps_up_after_remb_cap() {
    let t0 = START;
    let mut c = Controller::new(cfg(), t0);
    let mut now = t0;
    for _ in 0..2 {
        now += TICK;
        frames(&mut c, now, 750_000);
        remb(&mut c, now, 2_000_000);
        c.tick(now);
    }
    assert_eq!(c.target().bitrate_kbps, 2000);

    // Now sending 2000 kbps and REMB says 5000: not congested, so
    // probe +10 % per tick.
    now += TICK;
    frames(&mut c, now, 250_000);
    remb(&mut c, now, 5_000_000);
    let d1 = c.tick(now).expect("expected a probe decision");
    assert_eq!(d1.reason, "probe");
    assert_eq!(d1.target.bitrate_kbps, 2200);

    now += TICK;
    frames(&mut c, now, 275_000);
    remb(&mut c, now, 5_000_000);
    let d2 = c.tick(now).expect("expected a probe decision");
    assert_eq!(d2.reason, "probe");
    assert_eq!(d2.target.bitrate_kbps, 2420);
    assert!(d2.target.bitrate_kbps <= 6000);
}

#[test]
fn probe_continues_on_static_screen_regardless_of_remb() {
    // After a cut, a mostly static screen (100 kbps sent, REMB 50 kbps
    // -- below 0.9 * sent, but the link isn't loaded) must not pin the
    // target: without probing here the target could never recover
    // until the user happened to produce enough motion.
    let t0 = START;
    let mut c = Controller::new(cfg(), t0);
    c.target = RateTarget {
        bitrate_kbps: 2000,
        fps: 30,
    };
    let now = t0 + TICK;
    frames(&mut c, now, 12_500);
    remb(&mut c, now, 50_000);
    let decision = c.tick(now).expect("expected a probe decision");
    assert_eq!(decision.reason, "probe");
    assert_eq!(decision.target.bitrate_kbps, 2200);
}

#[test]
fn probe_without_any_remb() {
    let t0 = START;
    let mut c = Controller::new(cfg(), t0);
    c.target = RateTarget {
        bitrate_kbps: 2000,
        fps: 30,
    };
    let now = t0 + TICK;
    frames(&mut c, now, 250_000);
    let decision = c.tick(now).expect("expected a probe decision");
    assert_eq!(decision.reason, "probe");
    assert_eq!(decision.target.bitrate_kbps, 2200);
}

#[test]
fn high_loss_cuts_bitrate() {
    let t0 = START;
    let mut c = Controller::new(cfg(), t0);
    let now = t0 + TICK;

    c.feedback(Feedback::Loss { fraction: loss(0.2) }, now);
    let decision = c.tick(now).expect("expected a decision");
    assert_eq!(decision.reason, "loss");
    assert_eq!(decision.target.bitrate_kbps, 5400);
    assert_eq!(decision.target.fps, 30);
}

#[test]
fn encoder_overruns_step_fps_down() {
    let t0 = START;
    let mut c = Controller::new(cfg(), t0);
    let mut now = t0;

    for expected in [24u32, 20, 15] {
        now += TICK;
        frames(&mut c, now, 25_000);
        c.feedback(Feedback::Overrun { frames: 5 }, now);
        let decision = c.tick(now).expect("expected an encoder step down");
        assert_eq!(decision.reason, "encoder");
        assert_eq!(decision.target.fps, expected);
    }

    // A single stray overrun is below the threshold: hold.
    now += TICK;
    frames(&mut c, now, 25_000);
    c.feedback(Feedback::Overrun { frames: 1 }, now);
    assert_eq!(c.tick(now), None);
    assert_eq!(c.target().fps, 15);
}

#[test]
fn clean_ticks_step_fps_back_up_after_five() {
    let t0 = START;
    let mut c = Controller::new(cfg(), t0);
    let mut now = t0;

    for _ in 0..3 {
        now += TICK;
        frames(&mut c, now, 25_000);
        c.feedback(Feedback::Overrun { frames: 5 }, now);
        c.tick(now);
    }
    assert_eq!(c.target().fps, 15);

    // Frames and no overruns: four ticks hold, the fifth steps up.
    for _ in 0..4 {
        now += TICK;
        frames(&mut c, now, 25_000);
        assert_eq!(c.tick(now), None);
    }
    now += TICK;
    frames(&mut c, now, 25_000);
    let decision = c.tick(now).expect("expected an encoder step up");
    assert_eq!(decision.reason, "encoder");
    assert_eq!(decision.target.fps, 20);
}

#[test]
fn static_screen_does_not_count_toward_step_up() {
    let t0 = START;
    let mut c = Controller::new(cfg(), t0);
    let mut now = t0 + TICK;
    frames(&mut c, now, 25_000);
    c.feedback(Feedback::Overrun { frames: 5 }, now);
    c.tick(now);
    assert_eq!(c.target().fps, 24);

    // Ten ticks with no frames at all: no evidence the encoder keeps
    // up, so no step up.
    for _ in 0..10 {
        now += TICK;
        assert_eq!(c.tick(now), None);
    }
    assert_eq!(c.target().fps, 24);
}

#[test]
fn low_bitrate_limits_fps() {
    // 1920x1080: threshold = 1920*1080*0.02 = 41_472 bits/frame.
    let cfg = AdaptConfig {
        max_bitrate_kbps: 6000,
        min_bitrate_kbps: MIN_BITRATE_KBPS,
        max_fps: 30,
        min_fps: MIN_FPS,
        width: 1920,
        height: 1080,
    };
    let t0 = START;
    let mut c = Controller::new(cfg, t0);
    let mut now = t0;

    // 6000 kbps sent on a loaded link, REMB 300 kbps for two ticks.
    now += TICK;
    frames(&mut c, now, 750_000);
    remb(&mut c, now, 300_000);
    assert_eq!(c.tick(now), None);
    now += TICK;
    frames(&mut c, now, 750_000);
    remb(&mut c, now, 300_000);
    let decision = c.tick(now).expect("expected a decision");
    // 300_000 bits/s / 41_472 bits/frame = 7.23: no ladder step
    // (30/24/20/15/12/10/8) fits -- even the smallest, 8, needs
    // 300_000/8 = 37_500 < 41_472 -- so fps falls back to min_fps (5).
    assert_eq!(decision.reason, "remb");
    assert_eq!(decision.target.bitrate_kbps, 300);
    assert_eq!(decision.target.fps, 5);
}

#[test]
fn bitrate_change_under_hysteresis_is_not_published() {
    // Target already at 5400 with 6000 kbps sent (loaded). REMB 5300
    // is a 1.85 % drop: congested but held; REMB 5000 (7.4 %) publishes.
    let t0 = START;
    let mut c = Controller::new(cfg(), t0);
    c.target = RateTarget {
        bitrate_kbps: 5400,
        fps: 30,
    };

    let mut now = t0;
    for _ in 0..2 {
        now += TICK;
        frames(&mut c, now, 750_000);
        remb(&mut c, now, 5_300_000);
        assert_eq!(c.tick(now), None);
    }
    assert_eq!(c.target().bitrate_kbps, 5400);

    now += TICK;
    frames(&mut c, now, 750_000);
    remb(&mut c, now, 5_000_000);
    let decision = c.tick(now).expect("expected a decision");
    assert_eq!(decision.reason, "remb");
    assert_eq!(decision.target.bitrate_kbps, 5000);
}

#[test]
fn clamps_to_min_bitrate() {
    // Sustained loss halves-ish b every tick (x0.55) until the *clamped*
    // candidate lands within HYSTERESIS of the last published value, at
    // which point it stops being published at all (an unpublished tick
    // doesn't move the committed target) -- so the sequence settles
    // just above MIN_BITRATE_KBPS rather than exactly on it:
    // 6000 -> 3300 -> 1815 -> 998 -> 549 -> 302, then 302*0.55=166.1
    // clamps to 300, but (302-300)/302 = 0.66% < 5% is never published.
    // The invariant that matters is the floor itself.
    let t0 = START;
    let mut c = Controller::new(cfg(), t0);
    let mut now = t0;

    c.feedback(Feedback::Loss { fraction: loss(0.9) }, now);
    for _ in 0..10 {
        now += TICK;
        c.tick(now);
        assert!(
            c.target().bitrate_kbps >= MIN_BITRATE_KBPS,
            "bitrate must never drop below the floor, got {}",
            c.target().bitrate_kbps
        );
    }
    assert_eq!(c.target().bitrate_kbps, 302);
}

#[test]
fn set_preset_sharp_clamps_fps_ceiling_and_announces_next_tick() {
    let t0 = START;
    let mut c = Controller::new(cfg(), t0);
    assert_eq!(c.target().fps, 30);

    let now = t0 + TICK;
    c.feedback(
        Feedback::Preset {
            preset: QualityPreset::Sharp,
        },
        now,
    );
    assert_eq!(c.preset(), QualityPreset::Sharp);
    // Clamped immediately by `set_preset`, before any `tick()` call.
    assert_eq!(c.target().fps, 15);
    assert_eq!(c.target().bitrate_kbps, 6000);

    let decision = c
        .tick(now + TICK)
        .expect("expected the forced preset announcement");
    assert_eq!(decision.reason, "preset");
    assert_eq!(decision.target.fps, 15);
    assert_eq!(decision.target.bitrate_kbps, 6000);
}

#[test]
fn set_preset_starts_at_the_new_ceiling_even_from_a_low_fps() {
    let t0 = START;
    let mut c = Controller::new(cfg(), t0);
    // Drive fps down well below 15 via sustained encoder overruns
    // (auto's floor is `MIN_FPS` = 5).
    let mut now = t0;
    for _ in 0..5 {
        now += TICK;
        frames(&mut c, now, 25_000);
        c.feedback(Feedback::Overrun { frames: 5 }, now);
        c.tick(now);
    }
    assert!(
        c.target().fps < 15,
        "fps must have dropped below 15 by now, got {}",
        c.target().fps
    );

    now += TICK;
    c.set_preset(QualityPreset::Smooth, now);
    assert_eq!(c.target().fps, 30);
}

#[test]
fn sharp_bit_budget_steps_fps_down_before_auto_at_the_same_bitrate() {
    // max_fps=10 keeps `SHARP_FPS_CEILING` (15) from being the reason
    // sharp differs here -- only the 3x bit budget is under test.
    let cfg = AdaptConfig {
        max_bitrate_kbps: 6000,
        min_bitrate_kbps: MIN_BITRATE_KBPS,
        max_fps: 10,
        min_fps: MIN_FPS,
        width: 1280,
        height: 720,
    };
    let t0 = START;
    let auto = Controller::new(cfg, t0);
    let mut sharp = Controller::new(cfg, t0);
    sharp.set_preset(QualityPreset::Sharp, t0);

    // 1280x720: auto threshold = 921_600 * 0.02 = 18_432 bits/frame,
    // sharp threshold = 921_600 * 0.06 = 55_296 bits/frame. At 450 kbps,
    // auto's top rung (10fps, 45_000 bits/frame) affords it; sharp's
    // doesn't (45_000 < 55_296), so sharp steps down to 8fps (56_250
    // bits/frame, which does fit) on the exact same input.
    let steps_auto = auto.ladder();
    let steps_sharp = sharp.ladder();
    assert_eq!(auto.bitrate_fps_step(&steps_auto, 450 * BITRATE_SCALE), 10);
    assert_eq!(sharp.bitrate_fps_step(&steps_sharp, 450 * BITRATE_SCALE), 8);
}

#[test]
fn smooth_never_steps_fps_below_the_floor_on_sustained_overruns() {
    let t0 = START;
    let mut c = Controller::new(cfg(), t0);
    let mut now = t0 + TICK;
    c.set_preset(QualityPreset::Smooth, now);
    let announce = c.tick(now).expect("expected the preset announcement");
    assert_eq!(announce.reason, "preset");
    assert_eq!(announce.target.fps, 30);

    for expected in [24u32, 20, 15] {
        now += TICK;
        frames(&mut c, now, 25_000);
        c.feedback(Feedback::Overrun { frames: 5 }, now);
        let decision = c.tick(now).expect("expected an encoder step down");
        assert_eq!(decision.target.fps, expected);
    }

    // Further overruns cannot push fps below the smooth floor (15):
    // `ladder()` itself has no rung below it while this preset is
    // active, so `step_down` has nowhere left to go.
    for _ in 0..5 {
        now += TICK;
        frames(&mut c, now, 25_000);
        c.feedback(Feedback::Overrun { frames: 5 }, now);
        assert_eq!(c.tick(now), None);
        assert_eq!(c.target().fps, 15);
    }
}

#[test]
fn smooth_floors_fps_and_cuts_bitrate_instead_when_the_bit_budget_is_too_tight() {
    // 1920x1080, smooth budget = 1920*1080*0.01 = 20_736 bits/frame --
    // even the smooth floor (15fps) doesn't afford a REMB-capped 300
    // kbps (300_000/15 = 20_000 < 20_736), but `bitrate_fps_step` must
    // still floor at 15 rather than falling through to `MIN_FPS` (5) the
    // way `low_bitrate_limits_fps` (auto) does at the same resolution.
    let cfg = AdaptConfig {
        max_bitrate_kbps: 6000,
        min_bitrate_kbps: MIN_BITRATE_KBPS,
        max_fps: 30,
        min_fps: MIN_FPS,
        width: 1920,
        height: 1080,
    };
    let t0 = START;
    let mut c = Controller::new(cfg, t0);
    c.set_preset(QualityPreset::Smooth, t0);
    c.tick(t0).expect("expected the preset announcement");
    let mut now = t0;

    // Loaded-link REMB pins bitrate to 300 kbps over two ticks (same
    // scenario as `low_bitrate_limits_fps`).
    now += TICK;
    frames(&mut c, now, 750_000);
    remb(&mut c, now, 300_000);
    assert_eq!(c.tick(now), None);
    now += TICK;
    frames(&mut c, now, 750_000);
    remb(&mut c, now, 300_000);
    let decision = c.tick(now).expect("expected a decision");
    assert_eq!(decision.reason, "remb");
    assert_eq!(decision.target.bitrate_kbps, 300);
    assert_eq!(
        decision.target.fps, 15,
        "smooth must floor fps at 15, never fall through to MIN_FPS"
    );
}

#[test]
fn switching_back_to_auto_restores_the_original_policy() {
    let t0 = START;
    let mut c = Controller::new(cfg(), t0);
    let mut now = t0;

    c.set_preset(QualityPreset::Sharp, now);
    c.tick(now).expect("expected the preset announcement");
    assert_eq!(c.target().fps, 15);

    now += TICK;
    c.set_preset(QualityPreset::Auto, now);
    assert_eq!(c.preset(), QualityPreset::Auto);
    let announce = c.tick(now).expect("expected the preset announcement");
    assert_eq!(announce.reason, "preset");

    // Bounds/budget are back to auto's, even though the committed fps
    // itself only recovers through the usual feedback-driven probing
    // (not an automatic jump on preset switch -- see `set_preset`'s doc
    // comment).
    let steps = c.ladder();
    assert_eq!(steps, vec![30, 24, 20, 15, 12, 10, 8]);
    assert_eq!(c.bitrate_fps_step(&steps, 6000 * BITRATE_SCALE), 30);
}

#[test]
fn a_loss_right_at_the_limit_is_not_a_cut() {
    let mut c = Controller::new(cfg(), START);
    let now = START + TICK;
    c.feedback(Feedback::Loss { fraction: LOSS_HIGH }, now);
    assert_eq!(c.tick(now), None);
    c.feedback(
        Feedback::Loss {
            fraction: LOSS_HIGH + 1,
        },
        now,
    );
    let decision = c.tick(now + TICK).expect("expected a cut");
    assert_eq!(decision.reason, "loss");
    assert_eq!(decision.target.bitrate_kbps, 5700);
}

#[test]
fn presets_do_not_accumulate() {
    let mut c = Controller::new(cfg(), START);
    c.set_preset(QualityPreset::Sharp, START);
    c.set_preset(QualityPreset::Smooth, START);
    let mut direct = Controller::new(cfg(), START);
    direct.set_preset(QualityPreset::Smooth, START);
    assert_eq!(c.target(), direct.target());
    assert_eq!(c.ladder(), direct.ladder());
    assert_eq!(c.ladder(), vec![30, 24, 20, 15]);
}

#[test]
fn one_tick_grows_the_bitrate_by_a_tenth_at_most() {
    let mut c = Controller::new(cfg(), START);
    c.target = RateTarget {
        bitrate_kbps: 1001,
        fps: 30,
    };
    let now = START + TICK;
    frames(&mut c, now, 1000);
    let decision = c.tick(now).expect("expected a probe");
    assert_eq!(decision.target.bitrate_kbps, 1101);
}

#[test]
fn a_step_leads_to_the_neighbouring_rung() {
    let steps = [30, 24, 20, 15, 12, 10, 8];
    assert_eq!(step_up(&steps, 5), 8);
    assert_eq!(step_up(&steps, 8), 10);
    assert_eq!(step_up(&steps, 9), 10);
    assert_eq!(step_up(&steps, 24), 30);
    assert_eq!(step_up(&steps, 30), 30);
    assert_eq!(step_up(&steps, 60), 60);
    assert_eq!(step_up(&[], 5), 5);
    assert_eq!(step_down(&steps, 60), 30);
    assert_eq!(step_down(&steps, 30), 24);
    assert_eq!(step_down(&steps, 9), 8);
    assert_eq!(step_down(&steps, 8), 8);
    assert_eq!(step_down(&steps, 5), 5);
    assert_eq!(step_down(&[], 5), 5);
}

#[test]
fn a_rate_below_the_lowest_rung_recovers() {
    let mut c = Controller::new(cfg(), START);
    c.target = RateTarget {
        bitrate_kbps: 6000,
        fps: 5,
    };
    let mut now = START;
    for _ in 0..60 {
        now += TICK;
        frames(&mut c, now, 1000);
        if let Some(decision) = c.tick(now) {
            assert_eq!(decision.reason, "encoder");
            assert_eq!(decision.target.fps, 8);
            return;
        }
    }
    panic!("stuck at {} fps", c.target().fps);
}

#[test]
fn feedback_between_a_switch_and_its_announcement_changes_nothing() {
    let mut c = Controller::new(cfg(), START);
    c.set_preset(QualityPreset::Sharp, START);
    let now = START + TICK;
    frames(&mut c, now, 750_000);
    remb(&mut c, now, 300_000);
    c.feedback(Feedback::Loss { fraction: LOSS_ONE }, now);
    c.feedback(Feedback::Overrun { frames: 40 }, now);
    let decision = c.tick(now).expect("expected the preset announcement");
    assert_eq!(decision.reason, "preset");
    assert_eq!((decision.target.bitrate_kbps, decision.target.fps), (6000, 15));
    assert!(c.tick(now + TICK).map_or(true, |d| d.reason != "preset"));
}
