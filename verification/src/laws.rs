//! The behavioural laws of the compressor, stated over the spec-level
//! semantics and proved once and for all.

use vstd::prelude::*;
use vstd::arithmetic::div_mod::{
    lemma_div_is_ordered, lemma_fundamental_div_mod, lemma_hoist_over_denominator,
};
use crate::fixed::{
    SCALE, FX_MAX, mul_fx, div_fx, add_fx, trunc_div, lemma_trunc_div_mono,
    lemma_trunc_div_bound, lemma_mul_fx_mono, lemma_mul_fx_unit_interval,
};
use crate::curves::{
    DB_MIN, DB_MAX, DB_STEP, db_gain_table, db_to_gain_spec, g2d_search, gain_to_db_spec,
    sigmoid_spec, lemma_db_to_gain_bounds, lemma_sigmoid_mono, lemma_sigmoid_bounds, interp,
};
use crate::comp::{
    DuckComp, Strategy, overshoot, gain_of, step_state, step_out, run_state, run_out, HALF,
};

verus! {

/// No two adjacent gain-table entries are further apart than the
/// steepest span at the top of the table.
proof fn lemma_db_table_diff(i: int)
    ensures
        0 <= db_gain_table(i + 1) - db_gain_table(i) <= 43_765_867,
{
}

/// The downward search lands on a level whose gain does not exceed the
/// target, and one step higher the gain already exceeds it.
proof fn lemma_g2d_props(g: int, e: int)
    requires
        DB_MIN as int <= e <= DB_MAX as int,
    ensures
        DB_MIN as int <= g2d_search(g, e) <= e,
        g2d_search(g, e) > DB_MIN as int ==> db_to_gain_spec(g2d_search(g, e)) <= g,
        g2d_search(g, e) < e ==> db_to_gain_spec(g2d_search(g, e) + 1) > g,
    decreases e - DB_MIN as int,
{
    if e > DB_MIN as int && db_to_gain_spec(e) > g {
        lemma_g2d_props(g, e - 1);
    }
}

/// One millionth of a decibel moves the interpolated gain by at most
/// nine millionths.
proof fn lemma_db_gain_step(d: int)
    requires
        DB_MIN as int <= d < DB_MAX as int,
    ensures
        db_to_gain_spec(d + 1) <= db_to_gain_spec(d) + 9,
{
    let s = DB_STEP as int;
    let off1 = d - DB_MIN as int;
    let off2 = off1 + 1;
    let i1 = off1 / s;
    let f1 = off1 % s;
    let i2 = off2 / s;
    let f2 = off2 % s;
    lemma_fundamental_div_mod(off1, s);
    lemma_fundamental_div_mod(off2, s);
    let dd = db_gain_table(i1 + 1) - db_gain_table(i1);
    lemma_db_table_diff(i1);
    assert((43_765_867int) / 5_000_000 == 8);
    lemma_div_is_ordered(dd, 43_765_867, s);
    if f1 < s - 1 {
        assert(i2 == i1 && f2 == f1 + 1);
        let q = (dd * f1) / s;
        let r = (dd * f1) % s;
        lemma_fundamental_div_mod(dd * f1, s);
        assert(dd * f2 == q * s + (r + dd)) by (nonlinear_arith)
            requires
                f2 == f1 + 1,
                dd * f1 == q * s + r,
        ;
        lemma_hoist_over_denominator(r + dd, q, s as nat);
        lemma_div_is_ordered(r + dd, s - 1 + dd, s);
        lemma_hoist_over_denominator(dd - 1, 1, s as nat);
        lemma_div_is_ordered(dd - 1, dd, s);
    } else {
        assert(i2 == i1 + 1 && f2 == 0);
        assert(db_gain_table(i2) + (db_gain_table(i2 + 1) - db_gain_table(i2)) * 0 / s
            == db_gain_table(i2));
        assert(dd * (s - 1) == -dd + dd * s) by (nonlinear_arith);
        lemma_hoist_over_denominator(-dd, dd, s as nat);
        lemma_div_is_ordered(-43_765_867, -dd, s);
        assert((-43_765_867int) / 5_000_000 == -9);
    }
}

/// Converting a positive linear gain to decibels and back recovers the
/// gain: exactly up to the next representable micro-decibel, and in
/// value to within nine millionths.
pub proof fn lemma_db_gain_round_trip(g: int)
    requires
        100 <= g <= 100_000_000,
    ensures
        db_to_gain_spec(gain_to_db_spec(g)) <= g,
        gain_to_db_spec(g) < DB_MAX as int ==> g < db_to_gain_spec(gain_to_db_spec(g) + 1),
        g - 8 <= db_to_gain_spec(gain_to_db_spec(g)),
{
    let d = gain_to_db_spec(g);
    lemma_g2d_props(g, DB_MAX as int);
    if d == DB_MIN as int {
        assert((0int) / (DB_STEP as int) == 0);
        assert((0int) % (DB_STEP as int) == 0);
        assert(interp(100, 178, 0, DB_STEP as int) == 100);
        assert(db_to_gain_spec(DB_MIN as int) == interp(100, 178, 0, DB_STEP as int));
    }
    if d < DB_MAX as int {
        lemma_db_gain_step(d);
    } else {
        lemma_db_to_gain_bounds(d);
        assert(db_to_gain_spec(DB_MAX as int) >= 100_000_000) by {
            assert((120_000_000int) / 5_000_000 == 24);
            assert((120_000_000int) % 5_000_000 == 0);
            assert(interp(100_000_000, 100_000_000, 0, DB_STEP as int) == 100_000_000);
            assert(db_to_gain_spec(DB_MAX as int) == interp(
                100_000_000,
                100_000_000,
                0,
                DB_STEP as int,
            ));
        }
    }
}

/// Silence in, silence out: a zero input frame produces a zero output
/// frame, never raises the smoothed detector level, and, once the
/// detector has fallen to the threshold, never raises the
/// gain-reduction state either.
pub proof fn lemma_silence_step(c: DuckComp)
    requires
        c.wf(),
        c.strategy == Strategy::FeedforwardRms,
    ensures
        step_out(c, 0, 0) == (0int, 0int),
        step_state(c, 0, 0).rms_filter_q <= c.rms_filter_q,
        overshoot(c.rms_next(0), c.threshold as int) <= c.q as int ==> step_state(c, 0, 0).q
            <= c.q,
{
    let s = SCALE as int;
    assert((0int) / 2 == 0);
    c.lemma_rms_next_bounds(0);
    assert(mul_fx(0, 0) == 0) by {
        assert((0int) / s == 0);
    }
    let k = c.rms_coeff();
    lemma_trunc_div_bound(100 * s, c.sample_rate as int);
    vstd::arithmetic::div_mod::lemma_div_is_ordered_by_denominator(
        100 * s,
        100,
        c.sample_rate as int,
    );
    assert(mul_fx(0, k) == 0) by {
        assert(0 * k == 0) by (nonlinear_arith);
        assert((0int) / s == 0);
    }
    lemma_mul_fx_unit_interval(c.rms_filter_q as int, s - k);
    let rms2 = c.rms_next(0);
    let x = overshoot(rms2, c.threshold as int);
    c.lemma_dq_bounds(x);
    let g = gain_of(step_state(c, 0, 0).q as int, c.ratio as int, c.range as int);
    lemma_sigmoid_bounds(mul_fx(c.ratio as int, step_state(c, 0, 0).q as int - HALF as int));
    lemma_mul_fx_unit_interval(
        s - c.range as int,
        sigmoid_spec(mul_fx(c.ratio as int, step_state(c, 0, 0).q as int - HALF as int)),
    );
    assert(mul_fx(0, g) == 0) by {
        assert(0 * g == 0) by (nonlinear_arith);
        assert((0int) / s == 0);
    }
    assert(mul_fx(0, c.makeup as int) == 0) by {
        assert(0 * c.makeup as int == 0) by (nonlinear_arith);
        assert((0int) / s == 0);
    }
}

/// Above the quantization floor of one release time constant per
/// sample period, silence strictly lowers the gain-reduction state, so
/// sustained silence drives it down to that floor.
pub proof fn lemma_silence_strict_decay(c: DuckComp)
    requires
        c.wf(),
        c.strategy == Strategy::FeedforwardRms,
        overshoot(c.rms_next(0), c.threshold as int) <= c.q as int,
        c.q as int * SCALE as int >= c.release as int * c.sample_rate as int,
    ensures
        step_state(c, 0, 0).q < c.q,
{
    let s = SCALE as int;
    let q = c.q as int;
    let rel = c.release as int;
    let sr = c.sample_rate as int;
    assert((0int) / 2 == 0);
    c.lemma_decay_le_q();
    assert(q * s >= rel * sr);
    vstd::arithmetic::div_mod::lemma_div_by_multiple(sr, rel);
    assert(sr * rel == rel * sr) by (nonlinear_arith);
    lemma_div_is_ordered(rel * sr, q * s, rel);
    let dec_fx = div_fx(q, rel);
    assert(dec_fx >= sr);
    vstd::arithmetic::div_mod::lemma_div_by_self(sr);
    lemma_div_is_ordered(sr, dec_fx, sr);
    assert(trunc_div(dec_fx, sr) >= 1);
}

/// Under a steady drive signal above the current gain-reduction state,
/// the state rises whenever the attack slope dominates the release
/// decay, and it never overshoots the drive signal itself.
pub proof fn lemma_drive_monotone(c: DuckComp, x: int)
    requires
        c.wf(),
        c.strategy == Strategy::FeedforwardRms,
        0 <= x <= FX_MAX as int,
        x > c.q as int,
        div_fx(x - c.q as int, c.attack as int) >= div_fx(c.q as int, c.release as int),
    ensures
        c.q as int <= add_fx(c.q as int, c.dq_of(x)) <= x,
{
    c.lemma_dq_bounds(x);
    lemma_trunc_div_mono(
        div_fx(c.q as int, c.release as int),
        div_fx(x - c.q as int, c.attack as int),
        c.sample_rate as int,
    );
}

/// With release no faster than attack, a drive signal at least twice
/// the current gain-reduction state always wins over the decay: the
/// state climbs toward the drive without overshooting it.
pub proof fn lemma_loud_drive_rises(c: DuckComp, x: int)
    requires
        c.wf(),
        c.strategy == Strategy::FeedforwardRms,
        0 <= x <= FX_MAX as int,
        x > c.q as int,
        x >= 2 * c.q as int,
        c.release as int >= c.attack as int,
    ensures
        c.q as int <= add_fx(c.q as int, c.dq_of(x)) <= x,
{
    let s = SCALE as int;
    let q = c.q as int;
    let atk = c.attack as int;
    let rel = c.release as int;
    assert(0 <= q * s && q * s <= (x - q) * s) by (nonlinear_arith)
        requires
            0 <= q,
            x - q >= q,
            s >= 1,
    ;
    vstd::arithmetic::div_mod::lemma_div_is_ordered_by_denominator(q * s, atk, rel);
    lemma_div_is_ordered(q * s, (x - q) * s, atk);
    crate::fixed::lemma_clamp_mono(trunc_div(q * s, rel), trunc_div(q * s, atk));
    crate::fixed::lemma_clamp_mono(trunc_div(q * s, atk), trunc_div((x - q) * s, atk));
    lemma_drive_monotone(c, x);
}

/// The soft-knee gain curve never leaves `[range, 1]`, whatever the
/// gain-reduction state.
pub proof fn lemma_gain_bounds(q: int, ratio: int, range: int)
    requires
        0 <= range <= SCALE as int,
    ensures
        range <= gain_of(q, ratio, range) <= SCALE as int,
{
    let arg = mul_fx(ratio, q - HALF as int);
    lemma_sigmoid_bounds(arg);
    lemma_mul_fx_unit_interval(SCALE as int - range, sigmoid_spec(arg));
}

/// A higher gain-reduction state never yields a higher gain.
pub proof fn lemma_gain_antitone(q1: int, q2: int, ratio: int, range: int)
    requires
        0 <= ratio,
        0 <= range <= SCALE as int,
        q1 <= q2,
    ensures
        gain_of(q2, ratio, range) <= gain_of(q1, ratio, range),
{
    lemma_mul_fx_mono(ratio, q1 - HALF as int, q2 - HALF as int);
    lemma_sigmoid_mono(mul_fx(ratio, q1 - HALF as int), mul_fx(ratio, q2 - HALF as int));
    lemma_sigmoid_bounds(mul_fx(ratio, q1 - HALF as int));
    lemma_sigmoid_bounds(mul_fx(ratio, q2 - HALF as int));
    lemma_mul_fx_mono(
        SCALE as int - range,
        sigmoid_spec(mul_fx(ratio, q1 - HALF as int)),
        sigmoid_spec(mul_fx(ratio, q2 - HALF as int)),
    );
}

/// Determinism: two processors with equal parameters and state, fed the
/// same input block, traverse the same states and emit the same output,
/// because the whole semantics is a function of state and input alone.
pub proof fn lemma_deterministic(c1: DuckComp, c2: DuckComp, s1: Seq<(i64, i64)>, s2: Seq<(i64, i64)>)
    requires
        c1 == c2,
        s1 == s2,
    ensures
        run_state(c1, s1) == run_state(c2, s2),
        run_out(c1, s1) == run_out(c2, s2),
{
}

} // verus!
