//! The nonlinear mapping curves of the compressor, in fixed point.
//!
//! `db_to_gain` turns a level in micro-decibels into a linear gain in
//! micro-units through a table of `10^(d/20)` sampled every 5 dB, with
//! linear interpolation between entries.  `gain_to_db` is its exact
//! lower inverse: the greatest representable level whose gain does not
//! exceed the argument.  `sigmoid_fx` is the logistic curve
//! `e^x / (1 + e^x)` sampled every half unit on `[-8, 8]`, clamped
//! outside, which shapes the soft-knee gain-reduction curve.

use vstd::prelude::*;
use vstd::arithmetic::div_mod::*;
use crate::fixed::SCALE;

verus! {

/// Lowest representable level, in micro-decibels.
pub const DB_MIN: i64 = -80_000_000;

/// Highest representable level, in micro-decibels.
pub const DB_MAX: i64 = 40_000_000;

/// Table spacing: one entry every 5 dB.
pub const DB_STEP: i64 = 5_000_000;

/// `10^(d/20)` in micro-units at `d = DB_MIN + i * DB_STEP`, clamped at
/// the table's edges.
pub open spec fn db_gain_table(i: int) -> int {
    if i <= 0 {
        100
    } else if i == 1 {
        178
    } else if i == 2 {
        316
    } else if i == 3 {
        562
    } else if i == 4 {
        1_000
    } else if i == 5 {
        1_778
    } else if i == 6 {
        3_162
    } else if i == 7 {
        5_623
    } else if i == 8 {
        10_000
    } else if i == 9 {
        17_783
    } else if i == 10 {
        31_623
    } else if i == 11 {
        56_234
    } else if i == 12 {
        100_000
    } else if i == 13 {
        177_828
    } else if i == 14 {
        316_228
    } else if i == 15 {
        562_341
    } else if i == 16 {
        1_000_000
    } else if i == 17 {
        1_778_279
    } else if i == 18 {
        3_162_278
    } else if i == 19 {
        5_623_413
    } else if i == 20 {
        10_000_000
    } else if i == 21 {
        17_782_794
    } else if i == 22 {
        31_622_777
    } else if i == 23 {
        56_234_133
    } else {
        100_000_000
    }
}

/// Linear interpolation between two table entries.
pub open spec fn interp(t_lo: int, t_hi: int, f: int, step: int) -> int
    recommends
        step >= 1,
{
    t_lo + ((t_hi - t_lo) * f) / step
}

/// The interpolated value stays between its two endpoints.
pub proof fn lemma_interp_bounds(t_lo: int, t_hi: int, f: int, step: int)
    requires
        t_lo <= t_hi,
        0 <= f < step,
    ensures
        t_lo <= interp(t_lo, t_hi, f, step) <= t_hi,
{
    let d = t_hi - t_lo;
    assert(0 <= d * f <= d * step) by (nonlinear_arith)
        requires
            d >= 0,
            0 <= f < step,
    ;
    lemma_div_pos_is_pos(d * f, step);
    lemma_div_is_ordered(d * f, d * step, step);
    lemma_div_by_multiple(d, step);
}

/// Interpolation is monotone in the fractional position.
pub proof fn lemma_interp_mono(t_lo: int, t_hi: int, f1: int, f2: int, step: int)
    requires
        t_lo <= t_hi,
        0 <= f1 <= f2 < step,
    ensures
        interp(t_lo, t_hi, f1, step) <= interp(t_lo, t_hi, f2, step),
{
    let d = t_hi - t_lo;
    assert(d * f1 <= d * f2) by (nonlinear_arith)
        requires
            d >= 0,
            f1 <= f2,
    ;
    lemma_div_is_ordered(d * f1, d * f2, step);
}

/// Adjacent table entries never decrease.
pub proof fn lemma_db_table_adjacent(i: int)
    ensures
        db_gain_table(i) <= db_gain_table(i + 1),
{
}

/// The gain table is monotone.
pub proof fn lemma_db_table_mono(i: int, j: int)
    requires
        i <= j,
    ensures
        db_gain_table(i) <= db_gain_table(j),
    decreases j - i,
{
    if i < j {
        lemma_db_table_mono(i, j - 1);
        lemma_db_table_adjacent(j - 1);
    }
}

/// `10^(d/20)` in micro-units, by table interpolation; the level is
/// clamped into `[DB_MIN, DB_MAX]`.
pub open spec fn db_to_gain_spec(d: int) -> int {
    let dc = if d < DB_MIN as int {
        DB_MIN as int
    } else if d > DB_MAX as int {
        DB_MAX as int
    } else {
        d
    };
    let off = dc - DB_MIN as int;
    let i = off / (DB_STEP as int);
    let f = off % (DB_STEP as int);
    interp(db_gain_table(i), db_gain_table(i + 1), f, DB_STEP as int)
}

/// The gain curve is monotone in the level.
pub proof fn lemma_db_to_gain_mono(d1: int, d2: int)
    requires
        d1 <= d2,
    ensures
        db_to_gain_spec(d1) <= db_to_gain_spec(d2),
{
    let s = DB_STEP as int;
    let c1 = if d1 < DB_MIN as int {
        DB_MIN as int
    } else if d1 > DB_MAX as int {
        DB_MAX as int
    } else {
        d1
    };
    let c2 = if d2 < DB_MIN as int {
        DB_MIN as int
    } else if d2 > DB_MAX as int {
        DB_MAX as int
    } else {
        d2
    };
    let off1 = c1 - DB_MIN as int;
    let off2 = c2 - DB_MIN as int;
    let i1 = off1 / s;
    let f1 = off1 % s;
    let i2 = off2 / s;
    let f2 = off2 % s;
    lemma_fundamental_div_mod(off1, s);
    lemma_fundamental_div_mod(off2, s);
    lemma_div_is_ordered(off1, off2, s);
    lemma_db_table_adjacent(i1);
    lemma_db_table_adjacent(i2);
    if i1 == i2 {
        lemma_interp_mono(db_gain_table(i1), db_gain_table(i1 + 1), f1, f2, s);
    } else {
        lemma_interp_bounds(db_gain_table(i1), db_gain_table(i1 + 1), f1, s);
        lemma_interp_bounds(db_gain_table(i2), db_gain_table(i2 + 1), f2, s);
        lemma_db_table_mono(i1 + 1, i2);
    }
}

/// Every gain the curve produces lies between the table's edges.
pub proof fn lemma_db_to_gain_bounds(d: int)
    ensures
        100 <= db_to_gain_spec(d) <= 100_000_000,
{
    let s = DB_STEP as int;
    let dc = if d < DB_MIN as int {
        DB_MIN as int
    } else if d > DB_MAX as int {
        DB_MAX as int
    } else {
        d
    };
    let off = dc - DB_MIN as int;
    let i = off / s;
    let f = off % s;
    lemma_fundamental_div_mod(off, s);
    lemma_db_table_adjacent(i);
    lemma_interp_bounds(db_gain_table(i), db_gain_table(i + 1), f, s);
    lemma_db_table_mono(0, i);
    lemma_db_table_mono(i + 1, 25);
}

/// Look one entry up in the gain table.
fn db_gain_table_at(i: u64) -> (t: i64)
    requires
        i <= 25,
    ensures
        t as int == db_gain_table(i as int),
{
    if i == 0 {
        100
    } else if i == 1 {
        178
    } else if i == 2 {
        316
    } else if i == 3 {
        562
    } else if i == 4 {
        1_000
    } else if i == 5 {
        1_778
    } else if i == 6 {
        3_162
    } else if i == 7 {
        5_623
    } else if i == 8 {
        10_000
    } else if i == 9 {
        17_783
    } else if i == 10 {
        31_623
    } else if i == 11 {
        56_234
    } else if i == 12 {
        100_000
    } else if i == 13 {
        177_828
    } else if i == 14 {
        316_228
    } else if i == 15 {
        562_341
    } else if i == 16 {
        1_000_000
    } else if i == 17 {
        1_778_279
    } else if i == 18 {
        3_162_278
    } else if i == 19 {
        5_623_413
    } else if i == 20 {
        10_000_000
    } else if i == 21 {
        17_782_794
    } else if i == 22 {
        31_622_777
    } else if i == 23 {
        56_234_133
    } else {
        100_000_000
    }
}

/// Linear gain of a level in micro-decibels: `10^(d/20)` in micro-units.
pub fn db_to_gain(d: i64) -> (g: i64)
    ensures
        g as int == db_to_gain_spec(d as int),
        100 <= g <= 100_000_000,
{
    let dc: i64 = if d < DB_MIN {
        DB_MIN
    } else if d > DB_MAX {
        DB_MAX
    } else {
        d
    };
    let off: u64 = (dc - DB_MIN) as u64;
    let i: u64 = off / (DB_STEP as u64);
    let f: u64 = off % (DB_STEP as u64);
    let t_lo: i64 = db_gain_table_at(i);
    let t_hi: i64 = db_gain_table_at(i + 1);
    proof {
        lemma_db_table_adjacent(i as int);
        lemma_interp_bounds(t_lo as int, t_hi as int, f as int, DB_STEP as int);
        lemma_db_to_gain_bounds(d as int);
    }
    let diff: u64 = (t_hi - t_lo) as u64;
    let part: u64 = (diff * f) / (DB_STEP as u64);
    proof {
        assert(diff * f <= 100_000_000 * 5_000_000) by (nonlinear_arith)
            requires
                0 <= (diff as int) <= 100_000_000,
                0 <= (f as int) <= 5_000_000,
        ;
    }
    t_lo + (part as i64)
}

/// The greatest level not below `floor` whose gain does not exceed `g`,
/// scanning down from `d`.
pub open spec fn g2d_search(g: int, d: int) -> int
    decreases d - DB_MIN as int,
{
    if d <= DB_MIN as int {
        DB_MIN as int
    } else if db_to_gain_spec(d) <= g {
        d
    } else {
        g2d_search(g, d - 1)
    }
}

/// The level in micro-decibels of a linear gain: the greatest
/// representable level whose gain does not exceed `g`, saturating at the
/// table's edges.
pub open spec fn gain_to_db_spec(g: int) -> int {
    g2d_search(g, DB_MAX as int)
}

/// A level that satisfies the lower-inverse bracket is the result of the
/// downward search from any starting point at or above it.
proof fn lemma_g2d_char(g: int, d: int, e: int)
    requires
        DB_MIN as int <= d <= e <= DB_MAX as int,
        db_to_gain_spec(d) <= g,
        d < DB_MAX as int ==> db_to_gain_spec(d + 1) > g,
    ensures
        g2d_search(g, e) == d,
    decreases e - d,
{
    if e > d {
        lemma_db_to_gain_mono(d + 1, e);
        lemma_g2d_char(g, d, e - 1);
    }
}

/// Below the table's least gain the search runs down to the floor.
proof fn lemma_g2d_low(g: int, e: int)
    requires
        g < 100,
        DB_MIN as int <= e <= DB_MAX as int,
    ensures
        g2d_search(g, e) == DB_MIN as int,
    decreases e - DB_MIN as int,
{
    lemma_db_to_gain_bounds(e);
    if e > DB_MIN as int {
        lemma_g2d_low(g, e - 1);
    }
}

/// Level in micro-decibels of a linear gain in micro-units, the exact
/// lower inverse of `db_to_gain`.
pub fn gain_to_db(g: i64) -> (d: i64)
    requires
        g >= 0,
    ensures
        d as int == gain_to_db_spec(g as int),
        DB_MIN <= d <= DB_MAX,
{
    if g < 100 {
        proof {
            lemma_g2d_low(g as int, DB_MAX as int);
        }
        return DB_MIN;
    }
    if g >= 100_000_000 {
        proof {
            lemma_db_to_gain_bounds(DB_MAX as int);
        }
        return DB_MAX;
    }
    let mut lo: i64 = DB_MIN;
    let mut hi: i64 = DB_MAX;
    proof {
        lemma_db_to_gain_bounds(DB_MAX as int);
        assert((0int) / (DB_STEP as int) == 0);
        assert((0int) % (DB_STEP as int) == 0);
        assert(db_gain_table(0) == 100);
        assert(db_gain_table(1) == 178);
        assert(interp(100, 178, 0, DB_STEP as int) == 100);
        assert(db_to_gain_spec(DB_MIN as int) == interp(100, 178, 0, DB_STEP as int));
        assert(db_to_gain_spec(DB_MIN as int) == 100);
    }
    while hi - lo > 1
        invariant
            DB_MIN <= lo < hi <= DB_MAX,
            db_to_gain_spec(lo as int) <= g as int,
            db_to_gain_spec(hi as int) > g as int,
        decreases hi - lo,
    {
        let half: i64 = (((hi - lo) as u64) / 2) as i64;
        let mid: i64 = lo + half;
        let gm: i64 = db_to_gain(mid);
        if gm <= g {
            lo = mid;
        } else {
            hi = mid;
        }
    }
    proof {
        lemma_g2d_char(g as int, lo as int, DB_MAX as int);
    }
    lo
}

/// The logistic table: `e^u / (1 + e^u)` in micro-units at
/// `u = -8 + i / 2`, clamped at the edges.
pub open spec fn sig_table(i: int) -> int {
    if i <= 0 {
        335
    } else if i == 1 {
        553
    } else if i == 2 {
        911
    } else if i == 3 {
        1_501
    } else if i == 4 {
        2_473
    } else if i == 5 {
        4_070
    } else if i == 6 {
        6_693
    } else if i == 7 {
        10_987
    } else if i == 8 {
        17_986
    } else if i == 9 {
        29_312
    } else if i == 10 {
        47_426
    } else if i == 11 {
        75_858
    } else if i == 12 {
        119_203
    } else if i == 13 {
        182_426
    } else if i == 14 {
        268_941
    } else if i == 15 {
        377_541
    } else if i == 16 {
        500_000
    } else if i == 17 {
        622_459
    } else if i == 18 {
        731_059
    } else if i == 19 {
        817_574
    } else if i == 20 {
        880_797
    } else if i == 21 {
        924_142
    } else if i == 22 {
        952_574
    } else if i == 23 {
        970_688
    } else if i == 24 {
        982_014
    } else if i == 25 {
        989_013
    } else if i == 26 {
        993_307
    } else if i == 27 {
        995_930
    } else if i == 28 {
        997_527
    } else if i == 29 {
        998_499
    } else if i == 30 {
        999_089
    } else if i == 31 {
        999_447
    } else {
        999_665
    }
}

/// Lowest argument of the logistic table, in micro-units.
pub const SIG_MIN: i64 = -8_000_000;

/// Highest argument of the logistic table, in micro-units.
pub const SIG_MAX: i64 = 8_000_000;

/// Logistic table spacing, in micro-units.
pub const SIG_STEP: i64 = 500_000;

/// Adjacent logistic entries never decrease.
pub proof fn lemma_sig_table_adjacent(i: int)
    ensures
        sig_table(i) <= sig_table(i + 1),
{
}

/// The logistic table is monotone.
pub proof fn lemma_sig_table_mono(i: int, j: int)
    requires
        i <= j,
    ensures
        sig_table(i) <= sig_table(j),
    decreases j - i,
{
    if i < j {
        lemma_sig_table_mono(i, j - 1);
        lemma_sig_table_adjacent(j - 1);
    }
}

/// The logistic curve `e^x / (1 + e^x)` in micro-units, by table
/// interpolation; the argument is clamped into `[SIG_MIN, SIG_MAX]`.
pub open spec fn sigmoid_spec(x: int) -> int {
    let xc = if x < SIG_MIN as int {
        SIG_MIN as int
    } else if x > SIG_MAX as int {
        SIG_MAX as int
    } else {
        x
    };
    let off = xc - SIG_MIN as int;
    let i = off / (SIG_STEP as int);
    let f = off % (SIG_STEP as int);
    interp(sig_table(i), sig_table(i + 1), f, SIG_STEP as int)
}

/// The logistic curve stays strictly inside the unit interval.
pub proof fn lemma_sigmoid_bounds(x: int)
    ensures
        0 < sigmoid_spec(x) < SCALE as int,
{
    let s = SIG_STEP as int;
    let xc = if x < SIG_MIN as int {
        SIG_MIN as int
    } else if x > SIG_MAX as int {
        SIG_MAX as int
    } else {
        x
    };
    let off = xc - SIG_MIN as int;
    let i = off / s;
    let f = off % s;
    lemma_fundamental_div_mod(off, s);
    lemma_sig_table_adjacent(i);
    lemma_interp_bounds(sig_table(i), sig_table(i + 1), f, s);
    lemma_sig_table_mono(0, i);
    lemma_sig_table_mono(i + 1, 33);
}

/// The logistic curve is monotone in its argument.
pub proof fn lemma_sigmoid_mono(x1: int, x2: int)
    requires
        x1 <= x2,
    ensures
        sigmoid_spec(x1) <= sigmoid_spec(x2),
{
    let s = SIG_STEP as int;
    let c1 = if x1 < SIG_MIN as int {
        SIG_MIN as int
    } else if x1 > SIG_MAX as int {
        SIG_MAX as int
    } else {
        x1
    };
    let c2 = if x2 < SIG_MIN as int {
        SIG_MIN as int
    } else if x2 > SIG_MAX as int {
        SIG_MAX as int
    } else {
        x2
    };
    let off1 = c1 - SIG_MIN as int;
    let off2 = c2 - SIG_MIN as int;
    let i1 = off1 / s;
    let f1 = off1 % s;
    let i2 = off2 / s;
    let f2 = off2 % s;
    lemma_fundamental_div_mod(off1, s);
    lemma_fundamental_div_mod(off2, s);
    lemma_div_is_ordered(off1, off2, s);
    lemma_sig_table_adjacent(i1);
    lemma_sig_table_adjacent(i2);
    if i1 == i2 {
        lemma_interp_mono(sig_table(i1), sig_table(i1 + 1), f1, f2, s);
    } else {
        lemma_interp_bounds(sig_table(i1), sig_table(i1 + 1), f1, s);
        lemma_interp_bounds(sig_table(i2), sig_table(i2 + 1), f2, s);
        lemma_sig_table_mono(i1 + 1, i2);
    }
}

/// Look one entry up in the logistic table.
fn sig_table_at(i: u64) -> (t: i64)
    requires
        i <= 33,
    ensures
        t as int == sig_table(i as int),
{
    if i == 0 {
        335
    } else if i == 1 {
        553
    } else if i == 2 {
        911
    } else if i == 3 {
        1_501
    } else if i == 4 {
        2_473
    } else if i == 5 {
        4_070
    } else if i == 6 {
        6_693
    } else if i == 7 {
        10_987
    } else if i == 8 {
        17_986
    } else if i == 9 {
        29_312
    } else if i == 10 {
        47_426
    } else if i == 11 {
        75_858
    } else if i == 12 {
        119_203
    } else if i == 13 {
        182_426
    } else if i == 14 {
        268_941
    } else if i == 15 {
        377_541
    } else if i == 16 {
        500_000
    } else if i == 17 {
        622_459
    } else if i == 18 {
        731_059
    } else if i == 19 {
        817_574
    } else if i == 20 {
        880_797
    } else if i == 21 {
        924_142
    } else if i == 22 {
        952_574
    } else if i == 23 {
        970_688
    } else if i == 24 {
        982_014
    } else if i == 25 {
        989_013
    } else if i == 26 {
        993_307
    } else if i == 27 {
        995_930
    } else if i == 28 {
        997_527
    } else if i == 29 {
        998_499
    } else if i == 30 {
        999_089
    } else if i == 31 {
        999_447
    } else {
        999_665
    }
}

/// The logistic curve in micro-units, clamped outside `[-8, 8]`.
pub fn sigmoid_fx(x: i64) -> (r: i64)
    ensures
        r as int == sigmoid_spec(x as int),
        0 < r < SCALE,
{
    let xc: i64 = if x < SIG_MIN {
        SIG_MIN
    } else if x > SIG_MAX {
        SIG_MAX
    } else {
        x
    };
    let off: u64 = (xc - SIG_MIN) as u64;
    let i: u64 = off / (SIG_STEP as u64);
    let f: u64 = off % (SIG_STEP as u64);
    let t_lo: i64 = sig_table_at(i);
    let t_hi: i64 = sig_table_at(i + 1);
    proof {
        lemma_sig_table_adjacent(i as int);
        lemma_interp_bounds(t_lo as int, t_hi as int, f as int, SIG_STEP as int);
        lemma_sigmoid_bounds(x as int);
    }
    let diff: u64 = (t_hi - t_lo) as u64;
    let part: u64 = (diff * f) / (SIG_STEP as u64);
    proof {
        assert(diff * f <= 1_000_000 * 500_000) by (nonlinear_arith)
            requires
                0 <= (diff as int) <= 1_000_000,
                0 <= (f as int) <= 500_000,
        ;
    }
    t_lo + (part as i64)
}

} // verus!
