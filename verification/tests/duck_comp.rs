use duck_comp::SCALE;
use duck_comp::comp::{DuckComp, Strategy, DEFAULT_SAMPLE_RATE};
use duck_comp::curves::{db_to_gain, gain_to_db, sigmoid_fx, DB_MAX, DB_MIN};
use duck_comp::comp::rectify;
use duck_comp::fixed::{fx_mul, fx_sqrt};

#[test]
fn it_works() {
}

#[test]
fn default_construction() {
    let c = DuckComp::default();
    assert_eq!(c.strategy, Strategy::FeedforwardRms);
    assert_eq!(c.sample_rate, DEFAULT_SAMPLE_RATE);
    assert_eq!(c.attack, 30_000);
    assert_eq!(c.release, 400_000);
    assert_eq!(c.threshold, 1_000_000);
    assert_eq!(c.ratio, 100_000);
    assert_eq!(c.makeup, 1_000_000);
    assert_eq!(c.range, 0);
    assert_eq!(c.q, 0);
    assert_eq!(c.rms_filter_q, 0);
}

#[test]
fn attack_mapping_range() {
    let mut c = DuckComp::default();
    c.set_parameter(0, 0);
    assert_eq!(c.attack, 5_000);
    c.set_parameter(0, SCALE);
    assert_eq!(c.attack, 300_000);
    c.set_parameter(0, 500_000);
    assert_eq!(c.attack, 152_500);
}

#[test]
fn release_mapping_range() {
    let mut c = DuckComp::default();
    c.set_parameter(1, 0);
    assert_eq!(c.release, 10_000);
    c.set_parameter(1, SCALE);
    assert_eq!(c.release, 1_000_000);
}

#[test]
fn threshold_mapping_range() {
    let mut c = DuckComp::default();
    c.set_parameter(2, SCALE);
    assert_eq!(c.threshold, 1_000_000);
    c.set_parameter(2, 0);
    assert_eq!(c.threshold, 10_000);
}

#[test]
fn ratio_mapping_range() {
    let mut c = DuckComp::default();
    c.set_parameter(3, 0);
    assert_eq!(c.ratio, 1_000_000);
    c.set_parameter(3, SCALE);
    assert_eq!(c.ratio, 100_000_000);
}

#[test]
fn makeup_mapping_range() {
    let mut c = DuckComp::default();
    c.set_parameter(4, 0);
    assert_eq!(c.makeup, 260_868);
    c.set_parameter(4, SCALE);
    assert_eq!(c.makeup, 10_000_000);
}

#[test]
fn range_mapping_range() {
    let mut c = DuckComp::default();
    c.set_parameter(5, 0);
    assert_eq!(c.range, 1_000);
    c.set_parameter(5, SCALE);
    assert_eq!(c.range, 1_000_000);
}

#[test]
fn unknown_parameter_index_ignored() {
    let mut c = DuckComp::default();
    let before = c;
    c.set_parameter(6, 700_000);
    c.set_parameter(-1, 700_000);
    assert_eq!(c, before);
    assert_eq!(c.get_parameter(6), 0);
    assert_eq!(c.get_parameter(-1), 0);
}

#[test]
fn parameter_read_back() {
    let mut c = DuckComp::default();
    c.set_parameter(0, 250_000);
    assert_eq!(c.get_parameter(0), c.attack);
    assert_eq!(c.get_parameter(1), c.release);
    assert_eq!(c.get_parameter(2), c.threshold);
    assert_eq!(c.get_parameter(3), c.ratio);
    assert_eq!(c.get_parameter(4), c.makeup);
    assert_eq!(c.get_parameter(5), c.range);
}

#[test]
fn parameter_names() {
    let c = DuckComp::default();
    assert_eq!(c.get_parameter_name(0), "Attack");
    assert_eq!(c.get_parameter_name(1), "Release");
    assert_eq!(c.get_parameter_name(2), "Threshold");
    assert_eq!(c.get_parameter_name(3), "Ratio");
    assert_eq!(c.get_parameter_name(4), "Make-up gain");
    assert_eq!(c.get_parameter_name(5), "Range");
    assert_eq!(c.get_parameter_name(6), "");
    assert_eq!(c.get_parameter_count(), 6);
}

#[test]
fn parameter_text() {
    let c = DuckComp::default();
    assert_eq!(c.get_parameter_text(0), "30.00 ms");
    assert_eq!(c.get_parameter_text(1), "400.00 ms");
    assert_eq!(c.get_parameter_text(2), "0.00 dB");
    assert_eq!(c.get_parameter_text(3), "1:0.10");
    assert_eq!(c.get_parameter_text(4), "0.00 dB");
    assert_eq!(c.get_parameter_text(5), "-80.00 dB");
    assert_eq!(c.get_parameter_text(9), "");
}

#[test]
fn parameter_text_after_write() {
    let mut c = DuckComp::default();
    c.set_parameter(0, 500_000);
    assert_eq!(c.get_parameter_text(0), "152.50 ms");
    // The dB display uses the lower inverse of the gain curve: the
    // greatest level whose gain does not exceed the stored threshold,
    // which sits just above the exact -40 dB the mapping produced.
    c.set_parameter(2, 0);
    assert_eq!(c.get_parameter_text(2), "-39.99 dB");
}

#[test]
fn db_to_gain_exact_points() {
    assert_eq!(db_to_gain(0), 1_000_000);
    assert_eq!(db_to_gain(20_000_000), 10_000_000);
    assert_eq!(db_to_gain(-40_000_000), 10_000);
    assert_eq!(db_to_gain(-60_000_000), 1_000);
    assert_eq!(db_to_gain(6_000_000), 2_055_078);
    assert_eq!(db_to_gain(DB_MAX), 100_000_000);
    assert_eq!(db_to_gain(DB_MIN), 100);
    assert_eq!(db_to_gain(DB_MIN - 1_000_000), 100);
    assert_eq!(db_to_gain(DB_MAX + 1_000_000), 100_000_000);
}

#[test]
fn gain_to_db_exact_points() {
    assert_eq!(gain_to_db(10_000_000), 20_000_000);
    assert_eq!(gain_to_db(0), DB_MIN);
    assert_eq!(gain_to_db(100_000_000), DB_MAX);
}

#[test]
fn db_gain_round_trip() {
    for &g in &[100_i64, 177, 1_000, 10_000, 999_999, 1_000_000, 1_234_567, 55_555_555,
        99_999_999, 100_000_000] {
        let d = gain_to_db(g);
        let back = db_to_gain(d);
        assert!(back <= g);
        assert!(g - back <= 8);
        if d < DB_MAX {
            assert!(db_to_gain(d + 1) > g);
        }
    }
}

#[test]
fn sigmoid_curve() {
    assert_eq!(sigmoid_fx(0), 500_000);
    assert_eq!(sigmoid_fx(8_000_000), 999_665);
    assert_eq!(sigmoid_fx(-8_000_000), 335);
    assert_eq!(sigmoid_fx(20_000_000), 999_665);
    assert_eq!(sigmoid_fx(-20_000_000), 335);
    assert_eq!(sigmoid_fx(250_000), 561_229);
    let mut prev = sigmoid_fx(-8_000_000);
    let mut x: i64 = -8_000_000;
    while x <= 8_000_000 {
        let s = sigmoid_fx(x);
        assert!(s >= prev);
        assert!(s > 0 && s < SCALE);
        prev = s;
        x += 250_000;
    }
}

#[test]
fn rectify_noise_floor() {
    assert_eq!(rectify(0), 100_000);
    assert_eq!(rectify(50_000), 100_000);
    assert_eq!(rectify(-50_000), 100_000);
    assert_eq!(rectify(150_000), 150_000);
    assert_eq!(rectify(-2_000_000), 2_000_000);
}

#[test]
fn fixed_sqrt() {
    assert_eq!(fx_sqrt(0), 0);
    assert_eq!(fx_sqrt(1_000_000), 1_000_000);
    assert_eq!(fx_sqrt(4_000_000), 2_000_000);
    assert_eq!(fx_sqrt(2_000_000), 1_414_213);
}

#[test]
fn gain_at_rest() {
    let c = DuckComp::default();
    assert_eq!(c.gain(), 512_246);
}

#[test]
fn gain_stays_in_bounds_over_q_sweep() {
    let mut c = DuckComp::default();
    c.set_parameter(3, SCALE);
    c.set_parameter(5, 300_000);
    let mut q: i64 = 0;
    while q <= 10_000_000 {
        c.q = q;
        let g = c.gain();
        assert!(g >= c.range);
        assert!(g <= SCALE);
        q += 100_000;
    }
}

#[test]
fn silence_in_silence_out() {
    let mut c = DuckComp::default();
    let input: Vec<(i64, i64)> = vec![(0, 0); 200];
    let out = c.process(&input);
    assert_eq!(out.len(), 200);
    for o in &out {
        assert_eq!(*o, (0, 0));
    }
    assert_eq!(c.q, 0);
    assert_eq!(c.rms_filter_q, 0);
}

#[test]
fn silence_decays_detector() {
    let mut c = DuckComp::default();
    // Charge the detector with a loud tone, then feed silence.
    let loud: Vec<(i64, i64)> = vec![(2_000_000, 2_000_000); 2_000];
    c.process(&loud);
    assert!(c.q > 0);
    assert!(c.rms_filter_q > 0);
    let mut prev_rms = c.rms_filter_q;
    for _ in 0..150_000 {
        let o = c.process_sample(0, 0);
        assert_eq!(o, (0, 0));
        assert!(c.rms_filter_q <= prev_rms);
        prev_rms = c.rms_filter_q;
    }
    // Long enough silence drives the gain reduction down to the
    // quantization floor of the release integrator: one release time
    // constant's worth of samples (0.4 s * 41400 Hz).
    assert!(c.q < 16_560);
}

#[test]
fn steady_tone_at_threshold_is_steady() {
    // The construction defaults: threshold exactly at the tone level,
    // so the smoothed level never overshoots and the gain holds still.
    let mut c = DuckComp::default();
    for _ in 0..1_000 {
        let o = c.process_sample(1_000_000, 1_000_000);
        assert_eq!(o, (512_246, 512_246));
    }
    assert_eq!(c.q, 0);
}

#[test]
fn steady_loud_tone_ducks_monotonically() {
    let mut c = DuckComp::default();
    let mut prev_gain = c.gain();
    for _ in 0..1_000 {
        let o = c.process_sample(2_000_000, 2_000_000);
        let g = c.gain();
        // Gain declines monotonically as the reduction state rises.
        assert!(g <= prev_gain);
        assert!(g >= c.range && g <= SCALE);
        // Output tracks input * gain * makeup.
        assert_eq!(o.0, 2 * g);
        assert_eq!(o.1, 2 * g);
        prev_gain = g;
    }
    assert!(c.q > 0);
    assert!(prev_gain < 512_246);
}

#[test]
fn determinism_two_runs_agree() {
    let mut input: Vec<(i64, i64)> = Vec::new();
    for i in 0..500_i64 {
        let l = ((i * 37) % 2_001 - 1_000) * 1_000;
        let r = ((i * 53) % 2_001 - 1_000) * 1_000;
        input.push((l, r));
    }
    let mut c1 = DuckComp::default();
    let mut c2 = DuckComp::default();
    c1.set_parameter(3, 800_000);
    c2.set_parameter(3, 800_000);
    let o1 = c1.process(&input);
    let o2 = c2.process(&input);
    assert_eq!(o1, o2);
    assert_eq!(c1, c2);
}

#[test]
fn block_and_per_sample_agree() {
    let input: Vec<(i64, i64)> = vec![(1_500_000, -700_000); 300];
    let mut c1 = DuckComp::default();
    let mut c2 = DuckComp::default();
    let block = c1.process(&input);
    let mut single: Vec<(i64, i64)> = Vec::new();
    for f in &input {
        single.push(c2.process_sample(f.0, f.1));
    }
    assert_eq!(block, single);
    assert_eq!(c1, c2);
}

#[test]
fn reset_clears_state_only() {
    let mut c = DuckComp::default();
    let loud: Vec<(i64, i64)> = vec![(2_000_000, 2_000_000); 1_000];
    c.process(&loud);
    assert!(c.rms_filter_q > 0);
    c.reset();
    assert_eq!(c.q, 0);
    assert_eq!(c.rms_filter_q, 0);
    assert_eq!(c.attack, 30_000);
    assert_eq!(c.release, 400_000);
}

#[test]
fn feedback_strategy_silence() {
    let mut c = DuckComp::new_configured(
        Strategy::FeedbackRectified,
        41_400,
        500_000,
        500_000,
        1_000_000,
        0,
        1_000_000,
        0,
    );
    assert_eq!(c.get_parameter_count(), 4);
    let o = c.process_sample(0, 0);
    assert_eq!(o, (0, 0));
    // The rectifier's noise floor drives the state toward a small
    // positive resting point even at exact silence.
    assert_eq!(c.q, 500);
    for _ in 0..2_000 {
        let o = c.process_sample(0, 0);
        assert_eq!(o, (0, 0));
    }
    assert!(c.q >= 49_901 && c.q <= 50_000);
}

#[test]
fn feedback_strategy_tone() {
    let mut c = DuckComp::new_configured(
        Strategy::FeedbackRectified,
        41_400,
        500_000,
        500_000,
        1_000_000,
        0,
        1_000_000,
        0,
    );
    let o = c.process_sample(1_000_000, 1_000_000);
    // First frame passes at unity gain times the doubled make-up.
    assert_eq!(o, (4_000_000, 4_000_000));
    assert!(c.q > 0);
    // The loud feedback signal pushes the gain down on later frames.
    let mut last: (i64, i64) = o;
    for _ in 0..500 {
        last = c.process_sample(1_000_000, 1_000_000);
    }
    assert!(last.0 < 4_000_000);
}
