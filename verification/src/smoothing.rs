//! The frame-time filter: a single-pole low-pass filter in whole nanoseconds.
//!
//! Each frame the smoothed value keeps 49 fiftieths of itself and takes one
//! fiftieth of the newest sample, rounded down to a whole nanosecond.

use vstd::prelude::*;

verus! {

/// One step of the filter on natural numbers: `(49 * prev + sample) / 50`, rounded down.
pub open spec fn smooth(prev: nat, sample: nat) -> nat {
    (49 * prev + sample) / 50
}

/// The smoothed value after `frames` frames that each lasted `sample`, starting from zero.
pub open spec fn smoothed_after(sample: nat, frames: nat) -> nat
    decreases frames,
{
    if frames == 0 {
        0
    } else {
        smooth(smoothed_after(sample, (frames - 1) as nat), sample)
    }
}

/// `base` multiplied by itself `exp` times.
pub open spec fn power(base: nat, exp: nat) -> nat
    decreases exp,
{
    if exp == 0 {
        1
    } else {
        base * power(base, (exp - 1) as nat)
    }
}

/// One step of the filter. The result lies between the two arguments, so it
/// always fits the type.
pub fn smooth_step(prev: u64, sample: u64) -> (next: u64)
    ensures
        next == smooth(prev as nat, sample as nat),
        prev <= sample ==> prev <= next <= sample,
        sample <= prev ==> sample <= next <= prev,
{
    let wide: u128 = 49u128 * (prev as u128) + (sample as u128);
    let next: u128 = wide / 50;
    assert(next <= u64::MAX) by {
        assert(wide <= 50 * (u64::MAX as u128));
    }
    next as u64
}

/// A step of the filter never leaves the interval between the old value and the sample.
pub proof fn lemma_smooth_between(prev: nat, sample: nat)
    ensures
        prev <= sample ==> prev <= smooth(prev, sample) <= sample,
        sample <= prev ==> sample <= smooth(prev, sample) <= prev,
{
}

/// A value that already equals the sample stays where it is.
pub proof fn lemma_smooth_fixed_point(sample: nat)
    ensures
        smooth(sample, sample) == sample,
{
}

/// Under a constant sample the smoothed value rises frame by frame and never
/// passes the sample.
pub proof fn lemma_smoothed_after_rises(sample: nat, frames: nat)
    ensures
        smoothed_after(sample, frames) <= smoothed_after(sample, frames + 1) <= sample,
    decreases frames,
{
    if frames > 0 {
        lemma_smoothed_after_rises(sample, (frames - 1) as nat);
    }
    lemma_smooth_between(smoothed_after(sample, frames), sample);
}

/// Powers of 49 stay below the same powers of 50, and both are positive.
pub proof fn lemma_power_order(exp: nat)
    ensures
        0 < power(49, exp) <= power(50, exp),
    decreases exp,
{
    if exp > 0 {
        let e: nat = (exp - 1) as nat;
        lemma_power_order(e);
        let q: nat = power(49, e);
        let p: nat = power(50, e);
        assert(49 * q <= 50 * p) by (nonlinear_arith)
            requires
                0 < q <= p,
        ;
    }
}

/// The filter under a constant sample if nothing were rounded, over the
/// denominator `50^frames`: the value after `frames` frames is this number
/// divided by `50^frames`.
pub open spec fn unrounded_after(sample: nat, frames: nat) -> nat
    decreases frames,
{
    if frames == 0 {
        0
    } else {
        49 * unrounded_after(sample, (frames - 1) as nat) + sample * power(
            50,
            (frames - 1) as nat,
        )
    }
}

/// The closed form of the unrounded filter: after `frames` frames of a
/// constant sample its value is `sample * (1 - 0.98^frames)`, which over the
/// denominator `50^frames` reads `sample * (50^frames - 49^frames)`.
pub proof fn lemma_unrounded_closed_form(sample: nat, frames: nat)
    ensures
        unrounded_after(sample, frames) == sample * (power(50, frames) - power(49, frames)),
    decreases frames,
{
    if frames == 0 {
        assert(power(50, 0) == 1 && power(49, 0) == 1);
    } else {
        let n: nat = (frames - 1) as nat;
        lemma_unrounded_closed_form(sample, n);
        let p: int = power(50, n) as int;
        let q: int = power(49, n) as int;
        let d: int = sample as int;
        assert(power(50, frames) == 50 * p);
        assert(power(49, frames) == 49 * q);
        assert(49 * (d * (p - q)) + d * p == d * (50 * p - 49 * q)) by (nonlinear_arith);
    }
}

/// What rounding down to whole nanoseconds costs under a constant sample:
/// the smoothed value never lies above the unrounded one, and below it by
/// at most `49 * (1 - 0.98^frames)` nanoseconds.
pub proof fn lemma_rounding_loss(sample: nat, frames: nat)
    ensures
        power(50, frames) * smoothed_after(sample, frames) <= unrounded_after(sample, frames),
        unrounded_after(sample, frames) - power(50, frames) * smoothed_after(sample, frames) <= 49
            * (power(50, frames) - power(49, frames)),
{
    lemma_unrounded_closed_form(sample, frames);
    lemma_smoothed_after_closed_form(sample, frames);
}

/// The smoothed value under a constant sample against the closed form
/// `sample * (1 - 0.98^frames)`, both over the denominator `50^frames`.
proof fn lemma_smoothed_after_closed_form(sample: nat, frames: nat)
    ensures
        power(50, frames) * smoothed_after(sample, frames) <= sample * (power(50, frames) - power(
            49,
            frames,
        )),
        sample * (power(50, frames) - power(49, frames)) - power(50, frames) * smoothed_after(
            sample,
            frames,
        ) <= 49 * (power(50, frames) - power(49, frames)),
    decreases frames,
{
    if frames == 0 {
        assert(power(50, 0) == 1 && power(49, 0) == 1);
        assert(smoothed_after(sample, 0) == 0);
    } else {
        let n: nat = (frames - 1) as nat;
        lemma_smoothed_after_closed_form(sample, n);
        lemma_power_order(n);
        let p: int = power(50, n) as int;
        let q: int = power(49, n) as int;
        let f: int = smoothed_after(sample, n) as int;
        let d: int = sample as int;
        let g: int = smoothed_after(sample, frames) as int;
        let r: int = (49 * f + d) % 50;
        assert(g == (49 * f + d) / 50);
        assert(50 * g == 49 * f + d - r);
        assert(0 <= r <= 49);
        assert(power(50, frames) == 50 * p);
        assert(power(49, frames) == 49 * q);
        assert((50 * p) * g == p * (49 * f + d - r)) by (nonlinear_arith)
            requires
                50 * g == 49 * f + d - r,
        ;
        assert(p * (49 * f + d - r) == 49 * (p * f) + d * p - r * p) by (nonlinear_arith);
        assert(0 <= r * p <= 49 * p) by (nonlinear_arith)
            requires
                0 <= r <= 49,
                0 < p,
        ;
        assert(d * (50 * p - 49 * q) == 49 * (d * (p - q)) + d * p) by (nonlinear_arith);
        assert(49 * (50 * p - 49 * q) == 49 * (49 * (p - q)) + 49 * p) by (nonlinear_arith);
    }
}

/// The share `0.98^frames` of the sample that is still missing shrinks below
/// any bound: once `frames` reaches `49 * bound`, `0.98^frames` is at most
/// `1 / bound`. Together with the closed form this is convergence to the sample.
pub proof fn lemma_decay_vanishes(bound: nat, frames: nat)
    requires
        frames >= 49 * bound,
    ensures
        bound * power(49, frames) <= power(50, frames),
{
    lemma_power_growth(frames);
    lemma_power_order(frames);
    let p: int = power(50, frames) as int;
    let q: int = power(49, frames) as int;
    let n: int = frames as int;
    let b: int = bound as int;
    assert(b * q <= p) by (nonlinear_arith)
        requires
            49 * p >= (49 + n) * q,
            n >= 49 * b,
            b >= 0,
            q > 0,
    ;
}

/// Convergence of the unrounded filter under a constant sample: once `frames`
/// reaches `49 * bound`, its value is short of the sample by at most
/// `sample / bound`.
pub proof fn lemma_unrounded_converges(sample: nat, bound: nat, frames: nat)
    requires
        frames >= 49 * bound,
    ensures
        unrounded_after(sample, frames) <= sample * power(50, frames),
        bound * (sample * power(50, frames) - unrounded_after(sample, frames)) <= sample * power(
            50,
            frames,
        ),
{
    lemma_unrounded_closed_form(sample, frames);
    lemma_decay_vanishes(bound, frames);
    lemma_power_order(frames);
    let p: int = power(50, frames) as int;
    let q: int = power(49, frames) as int;
    let d: int = sample as int;
    let k: int = bound as int;
    assert(d * p - d * (p - q) == d * q) by (nonlinear_arith);
    assert(d * (p - q) <= d * p) by (nonlinear_arith)
        requires
            0 < q <= p,
            d >= 0,
    ;
    assert(k * (d * q) <= d * p) by (nonlinear_arith)
        requires
            k * q <= p,
            d >= 0,
    ;
}

/// Convergence under a constant sample: the smoothed value never passes the
/// sample, and once `frames` reaches `49 * bound` it is short of the sample by
/// at most `49 + sample / bound` nanoseconds. The 49 are what rounding down
/// can hold back for good.
pub proof fn lemma_smoothed_after_converges(sample: nat, bound: nat, frames: nat)
    requires
        frames >= 49 * bound,
    ensures
        smoothed_after(sample, frames) <= sample,
        bound * (sample - smoothed_after(sample, frames)) <= sample + 49 * bound,
{
    if frames > 0 {
        lemma_smoothed_after_rises(sample, (frames - 1) as nat);
    }
    lemma_smoothed_after_closed_form(sample, frames);
    lemma_decay_vanishes(bound, frames);
    lemma_power_order(frames);
    let p: int = power(50, frames) as int;
    let q: int = power(49, frames) as int;
    let d: int = sample as int;
    let k: int = bound as int;
    let x: int = sample - smoothed_after(sample, frames);
    assert(p * x <= d * q + 49 * p) by (nonlinear_arith)
        requires
            d * (p - q) - p * (d - x) <= 49 * (p - q),
            0 < q <= p,
    ;
    assert(k * (p * x) <= k * (d * q) + k * (49 * p)) by (nonlinear_arith)
        requires
            p * x <= d * q + 49 * p,
            k >= 0,
    ;
    assert(k * (d * q) <= d * p) by (nonlinear_arith)
        requires
            k * q <= p,
            d >= 0,
    ;
    assert(p * (k * x) <= p * (d + 49 * k)) by (nonlinear_arith)
        requires
            k * (p * x) <= k * (d * q) + k * (49 * p),
            k * (d * q) <= d * p,
    ;
    assert(k * x <= d + 49 * k) by (nonlinear_arith)
        requires
            p * (k * x) <= p * (d + 49 * k),
            p > 0,
    ;
}

/// `(50 / 49)^exp` is at least `1 + exp / 49`.
pub proof fn lemma_power_growth(exp: nat)
    ensures
        49 * power(50, exp) >= (49 + exp) * power(49, exp),
    decreases exp,
{
    if exp > 0 {
        let e: nat = (exp - 1) as nat;
        lemma_power_growth(e);
        lemma_power_order(e);
        let p: int = power(50, e) as int;
        let q: int = power(49, e) as int;
        let n: int = e as int;
        assert(49 * (50 * p) >= (49 + (n + 1)) * (49 * q)) by (nonlinear_arith)
            requires
                49 * p >= (49 + n) * q,
                q > 0,
                n >= 0,
        ;
    }
}

} // verus!
