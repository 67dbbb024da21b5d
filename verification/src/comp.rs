//! The ducking compressor: parameters, detector state, and the
//! per-sample processing step.
//!
//! One struct holds the six user parameters in engineering units
//! (seconds and linear gains, in micro-units), the immutable
//! configuration (sample rate and detector strategy, fixed at
//! construction), and the continuously evolving detector state: the
//! smoothed mean square of the sidechain and the gain-reduction level
//! `q`.  Two strategies are supported and kept strictly apart: a
//! feed-forward RMS detector driving an exponential soft-knee curve, and
//! a feedback topology with a rectified detector and a linear gain ramp.

use vstd::prelude::*;
use crate::fixed::{
    SCALE, FX_MAX, FX_MIN, trunc_div, mul_fx, div_fx, add_fx, sqrt_fx, lemma_trunc_div_mono,
    lemma_trunc_div_bound, lemma_mul_fx_unit_interval, fx_mul, fx_div, fx_add, fx_sqrt,
    div_trunc,
};
use vstd::arithmetic::div_mod::{
    lemma_div_pos_is_pos, lemma_div_is_ordered, lemma_div_is_ordered_by_denominator,
    lemma_div_by_multiple, lemma_div_denominator, lemma_fundamental_div_mod,
    lemma_hoist_over_denominator,
};

verus! {

/// Largest sample amplitude the processor accepts: one thousand units of
/// headroom above full scale.
pub const IN_MAX: i64 = 1_000_000_000;

/// Ceiling on the smoothed mean square, implied by `IN_MAX`.
pub const RMS_CAP: i64 = 1_000_000_000_000;

/// Midpoint of the gain-reduction curve.
pub const HALF: i64 = 500_000;

/// The sample rate assumed when the host supplies none.
pub const DEFAULT_SAMPLE_RATE: i64 = 41_400;

/// How the detector derives its drive signal from the audio.
#[derive(Clone, Copy, Debug, PartialEq, Eq, Structural)]
pub enum Strategy {
    /// Feed-forward: an RMS detector on the input drives an exponential
    /// soft-knee gain curve.
    FeedforwardRms,
    /// Feedback: a rectified detector on the already-attenuated output
    /// drives a linear gain ramp.
    FeedbackRectified,
}

/// A stereo ducking compressor instance.
#[derive(Clone, Copy, Debug, PartialEq, Eq, Structural)]
pub struct DuckComp {
    /// Detector topology, fixed at construction.
    pub strategy: Strategy,
    /// Sample rate in hertz, fixed at construction.
    pub sample_rate: i64,
    /// Envelope rise time: seconds in micro-units for the feed-forward
    /// strategy, a raw normalized value for the feedback strategy.
    pub attack: i64,
    /// Envelope fall time, on the same scale as `attack`.
    pub release: i64,
    /// Linear amplitude above which ducking engages.
    pub threshold: i64,
    /// Steepness of the gain-reduction curve (feed-forward only).
    pub ratio: i64,
    /// Post-stage linear output gain.
    pub makeup: i64,
    /// Floor of the gain curve: the deepest attenuation allowed.
    pub range: i64,
    /// Gain-reduction state, the detector's output.
    pub q: i64,
    /// Exponentially smoothed mean square of the sidechain signal.
    pub rms_filter_q: i64,
}

impl DuckComp {
    /// Well-formedness: configuration in range, parameters positive
    /// where the algorithm divides by them, time constants no shorter
    /// than one sample period, and the detector state within its caps.
    pub open spec fn wf(self) -> bool {
        &&& 1_000 <= self.sample_rate <= 1_000_000
        &&& 1 <= self.threshold <= FX_MAX as int
        &&& 0 <= self.ratio <= FX_MAX as int
        &&& 0 <= self.makeup <= FX_MAX as int
        &&& 0 <= self.range <= SCALE as int
        &&& match self.strategy {
            Strategy::FeedforwardRms => {
                &&& 1 <= self.attack <= FX_MAX as int
                &&& 1 <= self.release <= FX_MAX as int
                &&& self.attack * self.sample_rate >= SCALE as int
                &&& self.release * self.sample_rate >= SCALE as int
            },
            Strategy::FeedbackRectified => {
                &&& 0 <= self.attack <= SCALE as int
                &&& 0 <= self.release <= SCALE as int
            },
        }
        &&& 0 <= self.q <= FX_MAX as int
        &&& 0 <= self.rms_filter_q <= RMS_CAP as int
    }

    /// The fixed 10 ms smoothing coefficient of the RMS filter:
    /// `1 / (0.01 * sample_rate)`, independent of the user time
    /// constants.
    pub open spec fn rms_coeff(self) -> int {
        trunc_div(100 * SCALE as int, self.sample_rate as int)
    }

    /// One RMS filter step on sidechain sample `x`:
    /// `x^2 * k + rms * (1 - k)`.
    pub open spec fn rms_next(self, x: int) -> int {
        let sq = mul_fx(x, x);
        let k = self.rms_coeff();
        add_fx(mul_fx(sq, k), mul_fx(self.rms_filter_q as int, SCALE as int - k))
    }

    /// The asymmetric attack/release derivative of the gain-reduction
    /// state, driven by overshoot signal `x`, scaled to one sample
    /// period.
    pub open spec fn dq_of(self, x: int) -> int {
        let rise = if x > self.q as int {
            div_fx(x - self.q as int, self.attack as int)
        } else {
            0
        };
        let decay = div_fx(self.q as int, self.release as int);
        trunc_div(rise, self.sample_rate as int) - trunc_div(decay, self.sample_rate as int)
    }
}

/// How far the detected level stands above the threshold:
/// `max(0, sqrt(rms) / threshold - 1)`.
pub open spec fn overshoot(rms: int, threshold: int) -> int
    recommends
        threshold >= 1,
{
    let s = div_fx(sqrt_fx(rms), threshold) - SCALE as int;
    if s > 0 {
        s
    } else {
        0
    }
}

/// The soft-knee gain curve: `1 - (1 - range) * sigmoid(ratio * (q - 1/2))`.
pub open spec fn gain_of(q: int, ratio: int, range: int) -> int {
    SCALE as int - mul_fx(SCALE as int - range, crate::curves::sigmoid_spec(mul_fx(ratio, q - HALF as int)))
}

/// Full-wave rectification with a noise floor of one tenth:
/// `max(|x|, 0.1)`, which keeps the feedback detector from stalling at
/// exact silence.
pub open spec fn rect_spec(x: int) -> int {
    let a = if x >= 0 {
        x
    } else {
        -x
    };
    if a > 100_000 {
        a
    } else {
        100_000
    }
}

/// Full-wave rectification with a noise floor, see `rect_spec`.
pub fn rectify(x: i64) -> (r: i64)
    requires
        -9_223_372_036_854_775_807 <= x,
    ensures
        r as int == rect_spec(x as int),
{
    let a: i64 = if x >= 0 {
        x
    } else {
        -x
    };
    if a > 100_000 {
        a
    } else {
        100_000
    }
}

impl DuckComp {
    /// The RMS filter keeps its state within the cap set by `IN_MAX`,
    /// and silence never raises it.
    pub proof fn lemma_rms_next_bounds(self, x: int)
        requires
            self.wf(),
            -(IN_MAX as int) <= x <= IN_MAX as int,
        ensures
            0 <= self.rms_next(x) <= RMS_CAP as int,
            self.rms_next(x) <= if mul_fx(x, x) >= self.rms_filter_q as int {
                mul_fx(x, x)
            } else {
                self.rms_filter_q as int
            },
    {
        let s = SCALE as int;
        let sq = mul_fx(x, x);
        let k = self.rms_coeff();
        let rms = self.rms_filter_q as int;
        lemma_trunc_div_bound(100 * s, self.sample_rate as int);
        lemma_div_is_ordered_by_denominator(100 * s, 100, self.sample_rate as int);
        assert(k <= s);
        lemma_div_pos_is_pos(100 * s, self.sample_rate as int);
        assert(0 <= x * x <= (IN_MAX as int) * (IN_MAX as int)) by (nonlinear_arith)
            requires
                -(IN_MAX as int) <= x <= IN_MAX as int,
        ;
        lemma_trunc_div_bound(x * x, s);
        lemma_div_is_ordered(x * x, (IN_MAX as int) * (IN_MAX as int), s);
        assert(sq <= RMS_CAP as int);
        let m = if sq >= rms {
            sq
        } else {
            rms
        };
        assert(sq * k <= m * k && rms * (s - k) <= m * (s - k)) by (nonlinear_arith)
            requires
                0 <= sq <= m,
                0 <= rms <= m,
                0 <= k <= s,
        ;
        assert(0 <= sq * k && 0 <= rms * (s - k)) by (nonlinear_arith)
            requires
                0 <= sq,
                0 <= rms,
                0 <= k <= s,
        ;
        lemma_div_pos_is_pos(sq * k, s);
        lemma_div_pos_is_pos(rms * (s - k), s);
        lemma_div_is_ordered(sq * k, m * k, s);
        lemma_div_is_ordered(rms * (s - k), m * (s - k), s);
        lemma_fundamental_div_mod(m * k, s);
        lemma_fundamental_div_mod(m * (s - k), s);
        let q1 = (m * k) / s;
        let q2 = (m * (s - k)) / s;
        assert(m * k + m * (s - k) == m * s) by (nonlinear_arith);
        lemma_div_by_multiple(m, s);
        assert(q1 + q2 <= (m * s) / s) by {
            lemma_hoist_over_denominator(m * k, q2, s as nat);
            lemma_div_is_ordered(m * k + q2 * s, m * s, s);
            assert(m * k + q2 * s <= m * s) by (nonlinear_arith)
                requires
                    q2 * s <= m * (s - k),
                    m * k + m * (s - k) == m * s,
            ;
        }
        assert(mul_fx(sq, k) + mul_fx(rms, s - k) <= m);
    }

    /// The decay term of the gain-reduction derivative never exceeds the
    /// state itself, because the release time spans at least one sample.
    pub proof fn lemma_decay_le_q(self)
        requires
            self.wf(),
            self.strategy == Strategy::FeedforwardRms,
        ensures
            0 <= trunc_div(div_fx(self.q as int, self.release as int), self.sample_rate as int)
                <= self.q as int,
    {
        let s = SCALE as int;
        let q = self.q as int;
        let rel = self.release as int;
        let sr = self.sample_rate as int;
        assert(0 <= q * s) by (nonlinear_arith)
            requires
                q >= 0,
                s >= 0,
        ;
        lemma_div_pos_is_pos(q * s, rel);
        let d = div_fx(q, rel);
        lemma_trunc_div_bound(d, sr);
        assert(trunc_div(d, sr) <= (q * s) / (rel * sr)) by {
            lemma_trunc_div_bound(q * s, rel);
            if d == (q * s) / rel {
                lemma_div_denominator(q * s, rel, sr);
            } else {
                assert(d == FX_MAX as int);
                assert((q * s) / rel >= FX_MAX as int);
                lemma_div_is_ordered(FX_MAX as int, (q * s) / rel, sr);
                lemma_div_denominator(q * s, rel, sr);
            }
        }
        assert(rel * sr >= s);
        lemma_div_is_ordered_by_denominator(q * s, s, rel * sr);
        lemma_div_by_multiple(q, s);
    }

    /// The attack term of the derivative never lifts the state above the
    /// drive signal, because the attack time spans at least one sample.
    pub proof fn lemma_rise_le_gap(self, x: int)
        requires
            self.wf(),
            self.strategy == Strategy::FeedforwardRms,
            x > self.q as int,
            x <= FX_MAX as int,
        ensures
            0 <= trunc_div(div_fx(x - self.q as int, self.attack as int), self.sample_rate as int)
                <= x - self.q as int,
    {
        let s = SCALE as int;
        let gap = x - self.q as int;
        let atk = self.attack as int;
        let sr = self.sample_rate as int;
        assert(0 <= gap * s) by (nonlinear_arith)
            requires
                gap >= 0,
                s >= 0,
        ;
        lemma_div_pos_is_pos(gap * s, atk);
        let d = div_fx(gap, atk);
        lemma_trunc_div_bound(d, sr);
        assert(trunc_div(d, sr) <= (gap * s) / (atk * sr)) by {
            lemma_trunc_div_bound(gap * s, atk);
            if d == (gap * s) / atk {
                lemma_div_denominator(gap * s, atk, sr);
            } else {
                assert(d == FX_MAX as int);
                assert((gap * s) / atk >= FX_MAX as int);
                lemma_div_is_ordered(FX_MAX as int, (gap * s) / atk, sr);
                lemma_div_denominator(gap * s, atk, sr);
            }
        }
        assert(atk * sr >= s);
        lemma_div_is_ordered_by_denominator(gap * s, s, atk * sr);
        lemma_div_by_multiple(gap, s);
    }

    /// The derivative of the gain-reduction state is bounded below by
    /// the negated state and above by the gap to the drive signal.
    pub proof fn lemma_dq_bounds(self, x: int)
        requires
            self.wf(),
            self.strategy == Strategy::FeedforwardRms,
            0 <= x <= FX_MAX as int,
        ensures
            -(self.q as int) <= self.dq_of(x),
            self.q as int + self.dq_of(x) <= if x > self.q as int {
                x
            } else {
                self.q as int
            },
    {
        self.lemma_decay_le_q();
        if x > self.q as int {
            self.lemma_rise_le_gap(x);
        }
    }

    /// The derivative of the gain-reduction state at drive signal `x`:
    /// rises toward `x` at rate `1/attack` while below it, always decays
    /// toward zero at rate `1/release`, both per sample period.
    pub fn d_q(&self, x: i64) -> (dq: i64)
        requires
            self.wf(),
            self.strategy == Strategy::FeedforwardRms,
            0 <= x <= FX_MAX,
        ensures
            dq as int == self.dq_of(x as int),
    {
        let rise: i64 = if x > self.q {
            fx_div(x - self.q, self.attack)
        } else {
            0
        };
        let decay: i64 = fx_div(self.q, self.release);
        proof {
            self.lemma_dq_bounds(x as int);
        }
        div_trunc(rise, self.sample_rate) - div_trunc(decay, self.sample_rate)
    }

    /// The output gain derived from the current gain-reduction state by
    /// the soft-knee curve; always between `range` and unity.
    pub fn gain(&self) -> (g: i64)
        requires
            self.wf(),
        ensures
            g as int == gain_of(self.q as int, self.ratio as int, self.range as int),
            self.range <= g <= SCALE,
    {
        let arg: i64 = fx_mul(self.ratio, self.q - HALF);
        let s: i64 = crate::curves::sigmoid_fx(arg);
        let atten: i64 = fx_mul(SCALE - self.range, s);
        proof {
            lemma_mul_fx_unit_interval(SCALE as int - self.range as int, s as int);
        }
        SCALE - atten
    }

    /// Feed the RMS detector one sidechain sample and report how far the
    /// smoothed level now stands above the threshold.
    pub fn sidechain(&mut self, x: i64) -> (r: i64)
        requires
            old(self).wf(),
            -IN_MAX <= x <= IN_MAX,
        ensures
            final(self).rms_filter_q as int == old(self).rms_next(x as int),
            *final(self) == (DuckComp { rms_filter_q: final(self).rms_filter_q, ..*old(self) }),
            final(self).wf(),
            r as int == overshoot(old(self).rms_next(x as int), old(self).threshold as int),
            0 <= r <= FX_MAX,
    {
        proof {
            self.lemma_rms_next_bounds(x as int);
        }
        let squared: i64 = fx_mul(x, x);
        let k: i64 = div_trunc(100 * SCALE, self.sample_rate);
        proof {
            lemma_trunc_div_bound(100 * SCALE as int, self.sample_rate as int);
            lemma_div_is_ordered_by_denominator(
                100 * SCALE as int,
                100,
                self.sample_rate as int,
            );
        }
        self.rms_filter_q = fx_add(fx_mul(squared, k), fx_mul(self.rms_filter_q, SCALE - k));
        let root: i64 = fx_sqrt(self.rms_filter_q);
        let level: i64 = fx_div(root, self.threshold);
        let over: i64 = level - SCALE;
        if over > 0 {
            over
        } else {
            0
        }
    }
}

/// The state after one sample of the per-sample algorithm.
pub open spec fn step_state(c: DuckComp, l: int, r: int) -> DuckComp {
    match c.strategy {
        Strategy::FeedforwardRms => {
            let mono = trunc_div(l + r, 2);
            let rms2 = c.rms_next(mono);
            let x = overshoot(rms2, c.threshold as int);
            let q2 = add_fx(c.q as int, c.dq_of(x));
            DuckComp { q: q2 as i64, rms_filter_q: rms2 as i64, ..c }
        },
        Strategy::FeedbackRectified => {
            let g0 = if c.q < SCALE {
                SCALE as int - c.q as int
            } else {
                0
            };
            let l0 = mul_fx(l, g0);
            let r0 = mul_fx(r, g0);
            let half_out = trunc_div(l0 + r0, 2);
            let sc = rect_spec(mul_fx(mul_fx(50 * SCALE as int, c.threshold as int), half_out));
            let dq = trunc_div(
                mul_fx(c.attack as int, sc) - mul_fx(
                    c.attack as int + c.release as int,
                    c.q as int,
                ),
                100,
            );
            let q2p = add_fx(c.q as int, dq);
            let q2 = if q2p > 0 {
                q2p
            } else {
                0
            };
            DuckComp { q: q2 as i64, ..c }
        },
    }
}

/// The stereo output frame of one sample of the per-sample algorithm.
pub open spec fn step_out(c: DuckComp, l: int, r: int) -> (int, int) {
    match c.strategy {
        Strategy::FeedforwardRms => {
            let c2 = step_state(c, l, r);
            let g = gain_of(c2.q as int, c.ratio as int, c.range as int);
            (mul_fx(mul_fx(l, g), c.makeup as int), mul_fx(mul_fx(r, g), c.makeup as int))
        },
        Strategy::FeedbackRectified => {
            let g0 = if c.q < SCALE {
                SCALE as int - c.q as int
            } else {
                0
            };
            let l0 = mul_fx(l, g0);
            let r0 = mul_fx(r, g0);
            let m4 = mul_fx(4 * SCALE as int, c.makeup as int);
            (mul_fx(l0, m4), mul_fx(r0, m4))
        },
    }
}

impl DuckComp {
    /// One step keeps the processor well formed.
    pub proof fn lemma_step_wf(self, l: int, r: int)
        requires
            self.wf(),
            -(IN_MAX as int) <= l <= IN_MAX as int,
            -(IN_MAX as int) <= r <= IN_MAX as int,
        ensures
            step_state(self, l, r).wf(),
    {
        let mono = trunc_div(l + r, 2);
        lemma_trunc_div_mono(l + r, 2 * IN_MAX as int, 2);
        lemma_trunc_div_mono(-2 * IN_MAX as int, l + r, 2);
        match self.strategy {
            Strategy::FeedforwardRms => {
                self.lemma_rms_next_bounds(mono);
                let rms2 = self.rms_next(mono);
                let x = overshoot(rms2, self.threshold as int);
                self.lemma_dq_bounds(x);
            },
            Strategy::FeedbackRectified => {
            },
        }
    }

    /// Process one stereo frame: update the detector and return the
    /// attenuated, make-up-scaled output frame.
    pub fn process_sample(&mut self, l: i64, r: i64) -> (out: (i64, i64))
        requires
            old(self).wf(),
            -IN_MAX <= l <= IN_MAX,
            -IN_MAX <= r <= IN_MAX,
        ensures
            *final(self) == step_state(*old(self), l as int, r as int),
            final(self).wf(),
            (out.0 as int, out.1 as int) == step_out(*old(self), l as int, r as int),
    {
        proof {
            old(self).lemma_step_wf(l as int, r as int);
        }
        match self.strategy {
            Strategy::FeedforwardRms => {
                let mono: i64 = div_trunc(l + r, 2);
                let x: i64 = self.sidechain(mono);
                let dq: i64 = self.d_q(x);
                self.q = fx_add(self.q, dq);
                let g: i64 = self.gain();
                let out_l: i64 = fx_mul(fx_mul(l, g), self.makeup);
                let out_r: i64 = fx_mul(fx_mul(r, g), self.makeup);
                (out_l, out_r)
            },
            Strategy::FeedbackRectified => {
                let g0: i64 = if self.q < SCALE {
                    SCALE - self.q
                } else {
                    0
                };
                let l0: i64 = fx_mul(l, g0);
                let r0: i64 = fx_mul(r, g0);
                let half_out: i64 = div_trunc(l0 + r0, 2);
                let sc: i64 = rectify(fx_mul(fx_mul(50 * SCALE, self.threshold), half_out));
                let dq: i64 = div_trunc(
                    fx_mul(self.attack, sc) - fx_mul(self.attack + self.release, self.q),
                    100,
                );
                let q2p: i64 = fx_add(self.q, dq);
                self.q = if q2p > 0 {
                    q2p
                } else {
                    0
                };
                let m4: i64 = fx_mul(4 * SCALE, self.makeup);
                (fx_mul(l0, m4), fx_mul(r0, m4))
            },
        }
    }
}

/// Every frame of a block within the accepted headroom.
pub open spec fn frames_bounded(s: Seq<(i64, i64)>) -> bool {
    forall|i: int|
        0 <= i < s.len() ==> -IN_MAX <= (#[trigger] s[i]).0 <= IN_MAX && -IN_MAX <= s[i].1
            <= IN_MAX
}

/// The state after a whole block of frames.
pub open spec fn run_state(c: DuckComp, s: Seq<(i64, i64)>) -> DuckComp
    decreases s.len(),
{
    if s.len() == 0 {
        c
    } else {
        step_state(run_state(c, s.drop_last()), s.last().0 as int, s.last().1 as int)
    }
}

/// The output frames of a whole block.
pub open spec fn run_out(c: DuckComp, s: Seq<(i64, i64)>) -> Seq<(i64, i64)>
    decreases s.len(),
{
    if s.len() == 0 {
        Seq::empty()
    } else {
        let pre = run_state(c, s.drop_last());
        let o = step_out(pre, s.last().0 as int, s.last().1 as int);
        run_out(c, s.drop_last()).push((o.0 as i64, o.1 as i64))
    }
}

/// A whole block leaves a well-formed processor well formed.
pub proof fn lemma_run_wf(c: DuckComp, s: Seq<(i64, i64)>)
    requires
        c.wf(),
        frames_bounded(s),
    ensures
        run_state(c, s).wf(),
    decreases s.len(),
{
    if s.len() > 0 {
        assert(frames_bounded(s.drop_last()));
        lemma_run_wf(c, s.drop_last());
        run_state(c, s.drop_last()).lemma_step_wf(s.last().0 as int, s.last().1 as int);
    }
}

impl DuckComp {
    /// Process a block of stereo frames in order, returning the output
    /// block of the same length; the detector state carries across
    /// frames and across blocks.
    pub fn process(&mut self, input: &Vec<(i64, i64)>) -> (out: Vec<(i64, i64)>)
        requires
            old(self).wf(),
            frames_bounded(input@),
        ensures
            *final(self) == run_state(*old(self), input@),
            final(self).wf(),
            out@ == run_out(*old(self), input@),
            out@.len() == input@.len(),
    {
        let mut out: Vec<(i64, i64)> = Vec::new();
        let n: usize = input.len();
        let mut idx: usize = 0;
        while idx < n
            invariant
                idx <= n,
                n == input@.len(),
                frames_bounded(input@),
                old(self).wf(),
                self.wf(),
                *self == run_state(*old(self), input@.take(idx as int)),
                out@ == run_out(*old(self), input@.take(idx as int)),
                out@.len() == idx,
            decreases n - idx,
        {
            let frame: (i64, i64) = input[idx];
            let o: (i64, i64) = self.process_sample(frame.0, frame.1);
            out.push(o);
            proof {
                let pre = input@.take(idx as int);
                let post = input@.take(idx as int + 1);
                assert(post.drop_last() =~= pre);
                assert(post.last() == input@[idx as int]);
            }
            idx = idx + 1;
        }
        proof {
            assert(input@.take(n as int) =~= input@);
        }
        out
    }

    /// A processor built from engineering-unit parameters, with zeroed
    /// detector state.
    pub fn new_configured(
        strategy: Strategy,
        sample_rate: i64,
        attack: i64,
        release: i64,
        threshold: i64,
        ratio: i64,
        makeup: i64,
        range: i64,
    ) -> (c: DuckComp)
        requires
            1_000 <= sample_rate <= 1_000_000,
            1 <= threshold <= FX_MAX,
            0 <= ratio <= FX_MAX,
            0 <= makeup <= FX_MAX,
            0 <= range <= SCALE,
            strategy == Strategy::FeedforwardRms ==> 1 <= attack <= FX_MAX && 1 <= release
                <= FX_MAX && attack * sample_rate >= SCALE && release * sample_rate >= SCALE,
            strategy == Strategy::FeedbackRectified ==> 0 <= attack <= SCALE && 0 <= release
                <= SCALE,
        ensures
            c == (DuckComp {
                strategy,
                sample_rate,
                attack,
                release,
                threshold,
                ratio,
                makeup,
                range,
                q: 0,
                rms_filter_q: 0,
            }),
            c.wf(),
    {
        DuckComp {
            strategy,
            sample_rate,
            attack,
            release,
            threshold,
            ratio,
            makeup,
            range,
            q: 0,
            rms_filter_q: 0,
        }
    }

    /// The feed-forward processor at the default sample rate.
    pub fn new(
        attack: i64,
        release: i64,
        threshold: i64,
        ratio: i64,
        makeup: i64,
        range: i64,
    ) -> (c: DuckComp)
        requires
            1 <= attack <= FX_MAX,
            1 <= release <= FX_MAX,
            attack * DEFAULT_SAMPLE_RATE >= SCALE,
            release * DEFAULT_SAMPLE_RATE >= SCALE,
            1 <= threshold <= FX_MAX,
            0 <= ratio <= FX_MAX,
            0 <= makeup <= FX_MAX,
            0 <= range <= SCALE,
        ensures
            c == (DuckComp {
                strategy: Strategy::FeedforwardRms,
                sample_rate: DEFAULT_SAMPLE_RATE,
                attack,
                release,
                threshold,
                ratio,
                makeup,
                range,
                q: 0,
                rms_filter_q: 0,
            }),
            c.wf(),
    {
        Self::new_configured(
            Strategy::FeedforwardRms,
            DEFAULT_SAMPLE_RATE,
            attack,
            release,
            threshold,
            ratio,
            makeup,
            range,
        )
    }

    /// Reinitialize the detector state without touching the parameters.
    pub fn reset(&mut self)
        ensures
            *final(self) == (DuckComp { q: 0, rms_filter_q: 0, ..*old(self) }),
    {
        self.q = 0;
        self.rms_filter_q = 0;
    }
}

/// Normalized attack to seconds: `0.005 + v * (0.300 - 0.005)`.
pub open spec fn attack_map(v: int) -> int {
    5_000 + mul_fx(v, 295_000)
}

/// Normalized release to seconds: `0.010 + v * (1.000 - 0.010)`.
pub open spec fn release_map(v: int) -> int {
    10_000 + mul_fx(v, 990_000)
}

/// Normalized threshold to linear amplitude: `10^(2 * (v - 1))`, unity
/// at `v = 1` and -40 dB at `v = 0`.
pub open spec fn threshold_map(v: int) -> int {
    crate::curves::db_to_gain_spec(40 * (v - SCALE as int))
}

/// Normalized ratio to curve steepness: `v * 99 + 1`.
pub open spec fn ratio_map(v: int) -> int {
    SCALE as int + mul_fx(v, 99_000_000)
}

/// Normalized make-up to linear gain, over the dB span `[-12, +20]`.
pub open spec fn makeup_map(v: int) -> int {
    crate::curves::db_to_gain_spec(-12_000_000 + mul_fx(v, 32_000_000))
}

/// Normalized range to the attenuation floor, over the dB span
/// `[-60, 0]`.
pub open spec fn range_map(v: int) -> int {
    crate::curves::db_to_gain_spec(60 * (v - SCALE as int))
}

/// The processor after one normalized parameter write; an index outside
/// the strategy's parameter count is silently ignored.
pub open spec fn set_param_spec(c: DuckComp, index: int, v: int) -> DuckComp {
    match c.strategy {
        Strategy::FeedforwardRms => {
            if index == 0 {
                DuckComp { attack: attack_map(v) as i64, ..c }
            } else if index == 1 {
                DuckComp { release: release_map(v) as i64, ..c }
            } else if index == 2 {
                DuckComp { threshold: threshold_map(v) as i64, ..c }
            } else if index == 3 {
                DuckComp { ratio: ratio_map(v) as i64, ..c }
            } else if index == 4 {
                DuckComp { makeup: makeup_map(v) as i64, ..c }
            } else if index == 5 {
                DuckComp { range: range_map(v) as i64, ..c }
            } else {
                c
            }
        },
        Strategy::FeedbackRectified => {
            if index == 0 {
                DuckComp { attack: v as i64, ..c }
            } else if index == 1 {
                DuckComp { release: v as i64, ..c }
            } else if index == 2 {
                DuckComp { threshold: threshold_map(v) as i64, ..c }
            } else if index == 3 {
                DuckComp { makeup: makeup_map(v) as i64, ..c }
            } else {
                c
            }
        },
    }
}

/// The stored engineering value a parameter read reports; an index
/// outside the strategy's parameter count reads as zero.
pub open spec fn get_param_spec(c: DuckComp, index: int) -> int {
    match c.strategy {
        Strategy::FeedforwardRms => {
            if index == 0 {
                c.attack as int
            } else if index == 1 {
                c.release as int
            } else if index == 2 {
                c.threshold as int
            } else if index == 3 {
                c.ratio as int
            } else if index == 4 {
                c.makeup as int
            } else if index == 5 {
                c.range as int
            } else {
                0
            }
        },
        Strategy::FeedbackRectified => {
            if index == 0 {
                c.attack as int
            } else if index == 1 {
                c.release as int
            } else if index == 2 {
                c.threshold as int
            } else if index == 3 {
                c.makeup as int
            } else {
                0
            }
        },
    }
}

/// Every mapping lands in its declared engineering range when the
/// normalized value is in `[0, 1]`.
pub proof fn lemma_param_ranges(v: int)
    requires
        0 <= v <= SCALE as int,
    ensures
        5_000 <= attack_map(v) <= 300_000,
        10_000 <= release_map(v) <= SCALE as int,
        10_000 <= threshold_map(v) <= SCALE as int,
        SCALE as int <= ratio_map(v) <= 100 * SCALE as int,
        -12_000_000 <= -12_000_000 + mul_fx(v, 32_000_000) <= 20_000_000,
        crate::curves::db_to_gain_spec(-12_000_000) <= makeup_map(v) <= crate::curves::db_to_gain_spec(20_000_000),
        1_000 <= range_map(v) <= SCALE as int,
{
    lemma_mul_fx_unit_interval(295_000, v);
    assert(v * 295_000 == 295_000 * v) by (nonlinear_arith);
    lemma_mul_fx_unit_interval(990_000, v);
    assert(v * 990_000 == 990_000 * v) by (nonlinear_arith);
    lemma_mul_fx_unit_interval(99_000_000, v);
    assert(v * 99_000_000 == 99_000_000 * v) by (nonlinear_arith);
    lemma_mul_fx_unit_interval(32_000_000, v);
    assert(v * 32_000_000 == 32_000_000 * v) by (nonlinear_arith);
    crate::curves::lemma_db_to_gain_mono(-40_000_000, 40 * (v - SCALE as int));
    crate::curves::lemma_db_to_gain_mono(40 * (v - SCALE as int), 0);
    crate::curves::lemma_db_to_gain_mono(-60_000_000, 60 * (v - SCALE as int));
    crate::curves::lemma_db_to_gain_mono(60 * (v - SCALE as int), 0);
    crate::curves::lemma_db_to_gain_mono(-12_000_000, -12_000_000 + mul_fx(v, 32_000_000));
    crate::curves::lemma_db_to_gain_mono(-12_000_000 + mul_fx(v, 32_000_000), 20_000_000);
    assert((0int) / 5_000_000 == 0);
    assert((40_000_000int) / 5_000_000 == 8);
    assert((40_000_000int) % 5_000_000 == 0);
    assert((20_000_000int) / 5_000_000 == 4);
    assert((20_000_000int) % 5_000_000 == 0);
    assert((80_000_000int) / 5_000_000 == 16);
    assert((80_000_000int) % 5_000_000 == 0);
    assert(crate::curves::interp(1_000_000, 1_778_279, 0, 5_000_000) == 1_000_000);
    assert(crate::curves::db_to_gain_spec(0) == crate::curves::interp(
        1_000_000,
        1_778_279,
        0,
        5_000_000,
    ));
    assert(crate::curves::interp(10_000, 17_783, 0, 5_000_000) == 10_000);
    assert(crate::curves::db_to_gain_spec(-40_000_000) == crate::curves::interp(
        10_000,
        17_783,
        0,
        5_000_000,
    ));
    assert(crate::curves::interp(1_000, 1_778, 0, 5_000_000) == 1_000);
    assert(crate::curves::db_to_gain_spec(-60_000_000) == crate::curves::interp(
        1_000,
        1_778,
        0,
        5_000_000,
    ));
}

/// A normalized write in `[0, 1]` keeps the processor well formed.
pub proof fn lemma_set_param_wf(c: DuckComp, index: int, v: int)
    requires
        c.wf(),
        0 <= v <= SCALE as int,
    ensures
        set_param_spec(c, index, v).wf(),
{
    lemma_param_ranges(v);
    crate::curves::lemma_db_to_gain_bounds(40 * (v - SCALE as int));
    crate::curves::lemma_db_to_gain_bounds(-12_000_000 + mul_fx(v, 32_000_000));
    crate::curves::lemma_db_to_gain_bounds(60 * (v - SCALE as int));
    let c2 = set_param_spec(c, index, v);
    if c.strategy == Strategy::FeedforwardRms {
        assert(c2.attack * c2.sample_rate >= SCALE as int) by (nonlinear_arith)
            requires
                c2.attack >= 5_000 || c2.attack == c.attack,
                c2.sample_rate == c.sample_rate,
                1_000 <= c.sample_rate,
                c.attack * c.sample_rate >= SCALE as int,
        ;
        assert(c2.release * c2.sample_rate >= SCALE as int) by (nonlinear_arith)
            requires
                c2.release >= 10_000 || c2.release == c.release,
                c2.sample_rate == c.sample_rate,
                1_000 <= c.sample_rate,
                c.release * c.sample_rate >= SCALE as int,
        ;
    }
}

impl DuckComp {
    /// Write one normalized parameter value through its mapping curve.
    /// Values outside `[0, 1]` are not validated and propagate through
    /// the formulas; unknown indices are ignored.
    pub fn set_parameter(&mut self, index: i32, val: i64)
        requires
            -1_000_000_000 <= val <= 1_000_000_000,
        ensures
            *final(self) == set_param_spec(*old(self), index as int, val as int),
    {
        match self.strategy {
            Strategy::FeedforwardRms => {
                if index == 0 {
                    self.attack = 5_000 + fx_mul(val, 295_000);
                } else if index == 1 {
                    self.release = 10_000 + fx_mul(val, 990_000);
                } else if index == 2 {
                    self.threshold = crate::curves::db_to_gain(40 * (val - SCALE));
                } else if index == 3 {
                    self.ratio = SCALE + fx_mul(val, 99_000_000);
                } else if index == 4 {
                    self.makeup = crate::curves::db_to_gain(-12_000_000 + fx_mul(val, 32_000_000));
                } else if index == 5 {
                    self.range = crate::curves::db_to_gain(60 * (val - SCALE));
                }
            },
            Strategy::FeedbackRectified => {
                if index == 0 {
                    self.attack = val;
                } else if index == 1 {
                    self.release = val;
                } else if index == 2 {
                    self.threshold = crate::curves::db_to_gain(40 * (val - SCALE));
                } else if index == 3 {
                    self.makeup = crate::curves::db_to_gain(-12_000_000 + fx_mul(val, 32_000_000));
                }
            },
        }
    }

    /// Read back the stored engineering value of a parameter; unknown
    /// indices read as zero.
    pub fn get_parameter(&self, index: i32) -> (r: i64)
        ensures
            r as int == get_param_spec(*self, index as int),
    {
        match self.strategy {
            Strategy::FeedforwardRms => {
                if index == 0 {
                    self.attack
                } else if index == 1 {
                    self.release
                } else if index == 2 {
                    self.threshold
                } else if index == 3 {
                    self.ratio
                } else if index == 4 {
                    self.makeup
                } else if index == 5 {
                    self.range
                } else {
                    0
                }
            },
            Strategy::FeedbackRectified => {
                if index == 0 {
                    self.attack
                } else if index == 1 {
                    self.release
                } else if index == 2 {
                    self.threshold
                } else if index == 3 {
                    self.makeup
                } else {
                    0
                }
            },
        }
    }

    /// How many parameters the active strategy exposes.
    pub fn get_parameter_count(&self) -> (n: i32)
        ensures
            self.strategy == Strategy::FeedforwardRms ==> n == 6,
            self.strategy == Strategy::FeedbackRectified ==> n == 4,
    {
        match self.strategy {
            Strategy::FeedforwardRms => 6,
            Strategy::FeedbackRectified => 4,
        }
    }
}

/// The display name of a parameter slot.
pub open spec fn param_name_spec(s: Strategy, index: int) -> Seq<char> {
    match s {
        Strategy::FeedforwardRms => {
            if index == 0 {
                "Attack"@
            } else if index == 1 {
                "Release"@
            } else if index == 2 {
                "Threshold"@
            } else if index == 3 {
                "Ratio"@
            } else if index == 4 {
                "Make-up gain"@
            } else if index == 5 {
                "Range"@
            } else {
                ""@
            }
        },
        Strategy::FeedbackRectified => {
            if index == 0 {
                "Attack"@
            } else if index == 1 {
                "Release"@
            } else if index == 2 {
                "Threshold"@
            } else if index == 3 {
                "Make-up gain"@
            } else {
                ""@
            }
        },
    }
}

impl DuckComp {
    /// The display name of a parameter; presentation only.
    pub fn get_parameter_name(&self, index: i32) -> (r: &'static str)
        ensures
            r@ == param_name_spec(self.strategy, index as int),
    {
        match self.strategy {
            Strategy::FeedforwardRms => {
                if index == 0 {
                    "Attack"
                } else if index == 1 {
                    "Release"
                } else if index == 2 {
                    "Threshold"
                } else if index == 3 {
                    "Ratio"
                } else if index == 4 {
                    "Make-up gain"
                } else if index == 5 {
                    "Range"
                } else {
                    ""
                }
            },
            Strategy::FeedbackRectified => {
                if index == 0 {
                    "Attack"
                } else if index == 1 {
                    "Release"
                } else if index == 2 {
                    "Threshold"
                } else if index == 3 {
                    "Make-up gain"
                } else {
                    ""
                }
            },
        }
    }
}

impl Default for DuckComp {
    /// The construction defaults: 30 ms attack, 400 ms release, unity
    /// threshold, ratio 0.1, unity make-up, no attenuation floor.
    fn default() -> (c: DuckComp)
        ensures
            c == (DuckComp {
                strategy: Strategy::FeedforwardRms,
                sample_rate: DEFAULT_SAMPLE_RATE,
                attack: 30_000,
                release: 400_000,
                threshold: 1_000_000,
                ratio: 100_000,
                makeup: 1_000_000,
                range: 0,
                q: 0,
                rms_filter_q: 0,
            }),
            c.wf(),
    {
        DuckComp::new(30_000, 400_000, 1_000_000, 100_000, 1_000_000, 0)
    }
}

} // verus!
