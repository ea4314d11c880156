//! What holds of the network's arithmetic on fixed-point numbers: the bounds
//! and the period of the learning-rate schedule, and the meaning of the
//! strongest output.

use crate::backprop::schedule;
use crate::fixed::{magnitude, Fixed, SCALE};
use crate::model::strongest;
use crate::scalar::{half_spec, two_spec, Scalar};
use vstd::arithmetic::div_mod::{
    lemma_div_is_ordered, lemma_div_multiples_vanish, lemma_hoist_over_denominator,
};
use vstd::prelude::*;

verus! {

/// Two and one half have the raw values they should.
pub proof fn lemma_two_and_half()
    ensures
        two_spec::<Fixed>().raw == 2 * SCALE,
        half_spec::<Fixed>().raw == SCALE / 2,
{
    assert(two_spec::<Fixed>().raw == 0x2_0000_0000);
    assert(magnitude(SCALE as int) * (SCALE as nat) == 0x1_0000_0000_0000_0000) by (nonlinear_arith)
        requires
            magnitude(SCALE as int) == 0x1_0000_0000,
            SCALE == 0x1_0000_0000,
    ;
    assert(0x1_0000_0000_0000_0000nat / 0x2_0000_0000nat == 0x8000_0000nat);
}

/// How far into its cycle the schedule is at a step: the part of the step
/// above its floor, folded at one half. It lies between zero and one half.
proof fn lemma_fold_within_half(step: Fixed)
    ensures
        0 <= half_spec::<Fixed>().sub_spec(
            half_spec::<Fixed>().sub_spec(step.sub_spec(step.floor_spec())).abs_spec(),
        ).abs_spec().raw <= SCALE / 2,
{
    lemma_two_and_half();
    let part = step.sub_spec(step.floor_spec());
    assert(part.raw == step.raw % SCALE);
}

/// The product of a nonnegative number and one between zero and one half is
/// between zero and half the number.
proof fn lemma_mul_by_at_most_half(t: Fixed, q: Fixed)
    requires
        0 <= t.raw,
        0 <= q.raw <= SCALE / 2,
    ensures
        0 <= t.mul_spec(q).raw,
        2 * t.mul_spec(q).raw <= t.raw,
{
    let product = t.raw * q.raw;
    assert(0 <= product <= t.raw * 0x8000_0000) by (nonlinear_arith)
        requires
            product == t.raw * q.raw,
            0 <= t.raw,
            0 <= q.raw <= 0x8000_0000,
    ;
    lemma_div_is_ordered(product, t.raw * 0x8000_0000, SCALE as int);
    lemma_div_is_ordered(0, product, SCALE as int);
    assert(magnitude(t.raw as int) * magnitude(q.raw as int) == product);
}

/// With `min_lr` not above `max_lr`, the rate of the schedule is never below
/// `min_lr` and never above `max_lr`, whatever the epoch and the step size.
pub proof fn lemma_schedule_within_bounds(
    min_lr: Fixed,
    max_lr: Fixed,
    step_size: Fixed,
    epoch: Fixed,
)
    requires
        min_lr.raw <= max_lr.raw,
    ensures
        min_lr.raw <= schedule(min_lr, max_lr, step_size, epoch).raw <= max_lr.raw,
{
    lemma_two_and_half();
    let two = two_spec::<Fixed>();
    let half = half_spec::<Fixed>();
    let step = Fixed::one_spec().add_spec(epoch.div_spec(two.mul_spec(step_size)));
    let progress = half.sub_spec(step.sub_spec(step.floor_spec())).abs_spec();
    let fold = half.sub_spec(progress).abs_spec();
    lemma_fold_within_half(step);
    let span = max_lr.sub_spec(min_lr);
    assert(0 <= span.raw <= max_lr.raw - min_lr.raw);
    let doubled = two.mul_spec(span);
    assert(0 <= doubled.raw <= 2 * span.raw) by {
        assert(magnitude(two.raw as int) * magnitude(span.raw as int) == 0x2_0000_0000
            * span.raw);
    }
    lemma_mul_by_at_most_half(doubled, fold);
}

/// Whether the step of the schedule at `epoch` is formed without clamping:
/// the epoch is not negative, the step size is positive, and twice the step
/// size and the step itself are within the range of the numbers.
pub open spec fn schedule_is_exact(step_size: Fixed, epoch: Fixed) -> bool {
    &&& 0 <= epoch.raw
    &&& 0 < step_size.raw
    &&& 2 * step_size.raw <= i64::MAX
    &&& SCALE + (epoch.raw * SCALE) / (2 * step_size.raw) <= i64::MAX
}

/// The schedule repeats after four step sizes: where the step at the later
/// epoch is formed without clamping, the rate there is the rate at `epoch`.
pub proof fn lemma_schedule_is_periodic(
    min_lr: Fixed,
    max_lr: Fixed,
    step_size: Fixed,
    epoch: Fixed,
)
    requires
        0 <= epoch.raw,
        epoch.raw + 4 * step_size.raw <= i64::MAX,
        schedule_is_exact(
            step_size,
            epoch.add_spec(Fixed::from_usize_spec(4).mul_spec(step_size)),
        ),
    ensures
        schedule(
            min_lr,
            max_lr,
            step_size,
            epoch.add_spec(Fixed::from_usize_spec(4).mul_spec(step_size)),
        ) == schedule(min_lr, max_lr, step_size, epoch),
{
    lemma_two_and_half();
    let s = step_size.raw as int;
    let e = epoch.raw as int;
    let unit = SCALE as int;
    let two = two_spec::<Fixed>();
    let four = Fixed::from_usize_spec(4);
    assert(four.raw == 4 * unit);
    let period = four.mul_spec(step_size);
    assert(period.raw == 4 * s) by {
        assert(magnitude(four.raw as int) * magnitude(s) == 0x4_0000_0000 * s) by (nonlinear_arith)
            requires
                magnitude(four.raw as int) == 0x4_0000_0000,
                magnitude(s) == s,
        ;
        lemma_div_multiples_vanish(4 * s, 0x1_0000_0000);
    }
    let later = epoch.add_spec(period);
    assert(later.raw == e + 4 * s);
    let cycle = two.mul_spec(step_size);
    assert(cycle.raw == 2 * s) by {
        assert(magnitude(two.raw as int) * magnitude(s) == 0x2_0000_0000 * s) by (nonlinear_arith)
            requires
                magnitude(two.raw as int) == 0x2_0000_0000,
                magnitude(s) == s,
        ;
        lemma_div_multiples_vanish(2 * s, 0x1_0000_0000);
    }
    let early_turns = (e * unit) / (2 * s);
    let late_turns = ((e + 4 * s) * unit) / (2 * s);
    assert(late_turns == early_turns + 2 * unit) by {
        lemma_hoist_over_denominator(e * unit, 2 * unit, (2 * s) as nat);
        assert((e + 4 * s) * unit == e * unit + (2 * unit) * (2 * s)) by (nonlinear_arith);
    }
    assert(0 <= early_turns) by {
        assert(0 <= e * unit) by (nonlinear_arith)
            requires
                0 <= e,
                0 < unit,
        ;
        lemma_div_is_ordered(0, e * unit, 2 * s);
    }
    assert(magnitude(e) * (SCALE as nat) == e * unit);
    assert(magnitude(e + 4 * s) * (SCALE as nat) == (e + 4 * s) * unit);
    let early = epoch.div_spec(cycle);
    let late = later.div_spec(cycle);
    assert(late.raw == late_turns);
    assert(early.raw == early_turns);
    let early_step = Fixed::one_spec().add_spec(early);
    let late_step = Fixed::one_spec().add_spec(late);
    assert(late_step.raw == early_step.raw + 2 * unit);
    assert(late_step.raw % SCALE == early_step.raw % SCALE);
    assert(late_step.sub_spec(late_step.floor_spec()) == early_step.sub_spec(
        early_step.floor_spec(),
    ));
}

/// Among fixed-point numbers the strongest of the first `n` values is their
/// first maximum: no value is above it, and every value before it is below
/// it.
pub proof fn lemma_strongest_is_first_maximum(values: Seq<Fixed>, n: nat)
    requires
        1 <= n <= values.len(),
    ensures
        0 <= strongest(values, n) < n,
        forall|k: int|
            0 <= k < n ==> (#[trigger] values[k]).raw <= values[strongest(values, n)].raw,
        forall|k: int|
            0 <= k < strongest(values, n) ==> (#[trigger] values[k]).raw < values[strongest(
                values,
                n,
            )].raw,
    decreases n,
{
    if n > 1 {
        lemma_strongest_is_first_maximum(values, (n - 1) as nat);
    }
}

} // verus!
