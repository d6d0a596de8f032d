//! Percentage change between two prices, in fixed point.

use vstd::prelude::*;

verus! {

/// How many units of a stored percentage make one percent.
pub const PERCENT_SCALE: i64 = 10000;

/// How many units of a stored percentage make one hundred percent: what a
/// ratio of two prices is multiplied by.
pub const RATIO_SCALE: u128 = 1000000;

/// `value` held to the range of `i64`.
pub open spec fn saturate(value: int) -> i64 {
    if value > i64::MAX {
        i64::MAX
    } else if value < i64::MIN {
        i64::MIN
    } else {
        value as i64
    }
}

/// The distance between `a` and `b`.
pub open spec fn gap(a: int, b: int) -> int {
    if a >= b {
        a - b
    } else {
        b - a
    }
}

/// `(current - base) / base` as a stored percentage, rounded towards zero and
/// held to the range of `i64`; 0 where `base` is 0 and there is no ratio.
pub open spec fn percent_change(current: i64, base: i64) -> i64 {
    if base == 0 {
        0
    } else {
        let magnitude = (gap(current as int, base as int) * RATIO_SCALE) / gap(base as int, 0);
        if (current >= base) == (base > 0) {
            saturate(magnitude)
        } else {
            saturate(-magnitude)
        }
    }
}

/// No change is a change of 0, and against a positive price a change is never
/// negative for a price that is not lower, never positive for one that is not
/// higher.
pub proof fn lemma_percent_change_sign(current: i64, base: i64)
    ensures
        percent_change(base, base) == 0,
        base > 0 && current >= base ==> percent_change(current, base) >= 0,
        base > 0 && current <= base ==> percent_change(current, base) <= 0,
{
    if base != 0 {
        let distance = gap(current as int, base as int);
        let divisor = gap(base as int, 0);
        assert((distance * RATIO_SCALE) / divisor >= 0) by (nonlinear_arith)
            requires
                distance >= 0,
                divisor > 0,
                RATIO_SCALE == 1000000,
        ;
        assert((0 * RATIO_SCALE) / divisor == 0) by (nonlinear_arith)
            requires
                divisor > 0,
        ;
    }
}

/// Computes [`percent_change`].
pub fn percent_change_of(current: i64, base: i64) -> (change: i64)
    ensures
        change == percent_change(current, base),
{
    if base == 0 {
        return 0;
    }
    let wide_current: i128 = current as i128;
    let wide_base: i128 = base as i128;
    let distance: u128 = if wide_current >= wide_base {
        (wide_current - wide_base) as u128
    } else {
        (wide_base - wide_current) as u128
    };
    let divisor: u128 = if wide_base > 0 {
        wide_base as u128
    } else {
        (-wide_base) as u128
    };
    assert(distance * RATIO_SCALE <= u128::MAX) by (nonlinear_arith)
        requires
            distance <= u64::MAX,
            RATIO_SCALE == 1000000,
    ;
    let magnitude: u128 = distance * RATIO_SCALE / divisor;
    let rising = (current >= base) == (base > 0);
    if rising {
        if magnitude > i64::MAX as u128 {
            i64::MAX
        } else {
            magnitude as i64
        }
    } else {
        if magnitude > i64::MAX as u128 {
            i64::MIN
        } else {
            -(magnitude as i64)
        }
    }
}

} // verus!
