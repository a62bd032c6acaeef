//! Exact wide products and quotients rounded to the nearest grid coordinate.

use vstd::arithmetic::div_mod::{lemma_fundamental_div_mod, lemma_fundamental_div_mod_converse};
use vstd::prelude::*;

verus! {

/// The absolute value of a whole number.
pub open spec fn magnitude(value: int) -> nat {
    if value < 0 {
        (-value) as nat
    } else {
        value as nat
    }
}

/// The quotient of two naturals rounded to the nearest natural, a tie going up.
pub open spec fn nearest(num: nat, den: nat) -> nat {
    if 2 * (num % den) >= den {
        num / den + 1
    } else {
        num / den
    }
}

/// The quotient `num / den` rounded to the nearest whole number, a tie going
/// away from zero.
pub open spec fn round_div(num: int, den: int) -> int {
    if (num < 0) != (den < 0) {
        -(nearest(magnitude(num), magnitude(den)) as int)
    } else {
        nearest(magnitude(num), magnitude(den)) as int
    }
}

/// A whole number as a grid coordinate, where it is one.
pub open spec fn as_coordinate(value: int) -> Option<i32> {
    if i32::MIN <= value <= i32::MAX {
        Some(value as i32)
    } else {
        None
    }
}

/// The grid coordinate nearest to a whole number.
pub open spec fn clamp_coordinate(value: int) -> i32 {
    if value < i32::MIN {
        i32::MIN
    } else if value > i32::MAX {
        i32::MAX
    } else {
        value as i32
    }
}

/// A quotient without remainder is not changed by rounding.
pub proof fn lemma_round_div_exact(whole: int, den: int)
    requires
        den > 0,
    ensures
        round_div(whole * den, den) == whole,
{
    let size = magnitude(whole) as int;
    assert(magnitude(whole * den) == size * den) by (nonlinear_arith)
        requires
            den > 0,
            size == magnitude(whole),
    ;
    lemma_fundamental_div_mod_converse(size * den, den, size, 0);
    assert((whole * den < 0) == (whole < 0)) by (nonlinear_arith)
        requires
            den > 0,
    ;
}

/// A quotient without remainder is not changed by rounding, whatever the
/// sign of the divisor.
pub proof fn lemma_round_div_whole(whole: int, den: int)
    requires
        den != 0,
    ensures
        round_div(whole * den, den) == whole,
{
    if den > 0 {
        lemma_round_div_exact(whole, den);
    } else {
        lemma_round_div_exact(-whole, -den);
        assert((-whole) * (-den) == whole * den) by (nonlinear_arith);
        assert(magnitude(-den) == magnitude(den));
        assert(whole == 0 ==> whole * den == 0) by (nonlinear_arith);
        assert((whole * den < 0) == (whole > 0)) by (nonlinear_arith)
            requires
                den < 0,
        ;
    }
}

/// A quotient of naturals that lies between two whole numbers is rounded to
/// a number between them.
pub proof fn lemma_nearest_between(num: nat, den: nat, low: int, high: int)
    requires
        den > 0,
        low * den <= num <= high * den,
    ensures
        low <= nearest(num, den) <= high,
{
    let q = (num / den) as int;
    let r = (num % den) as int;
    lemma_fundamental_div_mod(num as int, den as int);
    assert(q <= high) by (nonlinear_arith)
        requires
            den > 0,
            num == den * q + r,
            0 <= r,
            num <= high * den,
    ;
    assert(low <= q) by (nonlinear_arith)
        requires
            den > 0,
            num == den * q + r,
            r < den,
            low * den <= num,
    ;
    if 2 * r >= den {
        assert(q + 1 <= high) by (nonlinear_arith)
            requires
                den > 0,
                num == den * q + r,
                r >= 1,
                num <= high * den,
        ;
    }
}

/// A quotient that lies between two whole numbers is rounded to a number
/// between them.
pub proof fn lemma_round_div_between(num: int, den: int, low: int, high: int)
    requires
        den != 0,
        den > 0 ==> low * den <= num <= high * den,
        den < 0 ==> high * den <= num <= low * den,
    ensures
        low <= round_div(num, den) <= high,
{
    let n = magnitude(num);
    let d = magnitude(den);
    if (num < 0) != (den < 0) {
        assert((-high) * d <= n <= (-low) * d) by (nonlinear_arith)
            requires
                den != 0,
                den > 0 ==> low * den <= num <= high * den,
                den < 0 ==> high * den <= num <= low * den,
                (num < 0) != (den < 0),
                n == magnitude(num),
                d == magnitude(den),
        ;
        lemma_nearest_between(n, d, -high, -low);
    } else {
        assert(low * d <= n <= high * d) by (nonlinear_arith)
            requires
                den != 0,
                den > 0 ==> low * den <= num <= high * den,
                den < 0 ==> high * den <= num <= low * den,
                (num < 0) == (den < 0),
                n == magnitude(num),
                d == magnitude(den),
        ;
        lemma_nearest_between(n, d, low, high);
    }
}

/// The least and the greatest product of two 64-bit factors.
pub proof fn lemma_product_range(x: int, y: int)
    requires
        i64::MIN <= x <= i64::MAX,
        i64::MIN <= y <= i64::MAX,
    ensures
        -0x4000_0000_0000_0000_0000_0000_0000_0000 + 0x8000_0000_0000_0000 <= x * y,
        x * y <= 0x4000_0000_0000_0000_0000_0000_0000_0000,
{
    assert((x + 0x8000_0000_0000_0000) * (0x7fff_ffff_ffff_ffff - y) >= 0) by (nonlinear_arith)
        requires
            x + 0x8000_0000_0000_0000 >= 0,
            0x7fff_ffff_ffff_ffff - y >= 0,
    ;
    assert((0x7fff_ffff_ffff_ffff - x) * (y + 0x8000_0000_0000_0000) >= 0) by (nonlinear_arith)
        requires
            0x7fff_ffff_ffff_ffff - x >= 0,
            y + 0x8000_0000_0000_0000 >= 0,
    ;
    assert((x + 0x8000_0000_0000_0000) * (y + 0x8000_0000_0000_0000) >= 0) by (nonlinear_arith)
        requires
            x + 0x8000_0000_0000_0000 >= 0,
            y + 0x8000_0000_0000_0000 >= 0,
    ;
    assert((0x7fff_ffff_ffff_ffff - x) * (0x7fff_ffff_ffff_ffff - y) >= 0) by (nonlinear_arith)
        requires
            0x7fff_ffff_ffff_ffff - x >= 0,
            0x7fff_ffff_ffff_ffff - y >= 0,
    ;
    assert((x + 0x8000_0000_0000_0000) * (0x7fff_ffff_ffff_ffff - y) == x * 0x7fff_ffff_ffff_ffff
        - x * y + 0x8000_0000_0000_0000 * 0x7fff_ffff_ffff_ffff - 0x8000_0000_0000_0000 * y)
        by (nonlinear_arith);
    assert((0x7fff_ffff_ffff_ffff - x) * (y + 0x8000_0000_0000_0000) == 0x7fff_ffff_ffff_ffff * y
        + 0x7fff_ffff_ffff_ffff * 0x8000_0000_0000_0000 - x * y - x * 0x8000_0000_0000_0000)
        by (nonlinear_arith);
    assert((x + 0x8000_0000_0000_0000) * (y + 0x8000_0000_0000_0000) == x * y + x
        * 0x8000_0000_0000_0000 + 0x8000_0000_0000_0000 * y + 0x8000_0000_0000_0000
        * 0x8000_0000_0000_0000) by (nonlinear_arith);
    assert((0x7fff_ffff_ffff_ffff - x) * (0x7fff_ffff_ffff_ffff - y) == 0x7fff_ffff_ffff_ffff
        * 0x7fff_ffff_ffff_ffff - 0x7fff_ffff_ffff_ffff * y - x * 0x7fff_ffff_ffff_ffff + x * y)
        by (nonlinear_arith);
}

/// The exact product of two 64-bit factors.
pub fn wide_product(x: i64, y: i64) -> (product: i128)
    ensures
        product == x * y,
        -0x4000_0000_0000_0000_0000_0000_0000_0000 + 0x8000_0000_0000_0000 <= product,
        product <= 0x4000_0000_0000_0000_0000_0000_0000_0000,
{
    proof {
        lemma_product_range(x as int, y as int);
    }
    (x as i128) * (y as i128)
}

/// The absolute value of a wide number.
fn wide_magnitude(value: i128) -> (size: u128)
    requires
        value > i128::MIN,
    ensures
        size == magnitude(value as int),
{
    if value < 0 {
        (-value) as u128
    } else {
        value as u128
    }
}

/// Divides and rounds to the nearest grid coordinate, a tie going away from
/// zero; `None` where the rounded quotient is no coordinate.
pub fn rounded_quotient(num: i128, den: i128) -> (quotient: Option<i32>)
    requires
        den != 0,
        num > i128::MIN,
        den > i128::MIN,
    ensures
        quotient == as_coordinate(round_div(num as int, den as int)),
{
    let n = wide_magnitude(num);
    let d = wide_magnitude(den);
    let floor = n / d;
    let rest = n % d;
    let size: u128 = if rest >= d - rest {
        floor + 1
    } else {
        floor
    };
    assert(size == nearest(n as nat, d as nat));
    let negative = (num < 0) != (den < 0);
    if negative {
        if size <= 0x8000_0000 {
            Some((-(size as i64)) as i32)
        } else {
            None
        }
    } else {
        if size <= 0x7fff_ffff {
            Some(size as i32)
        } else {
            None
        }
    }
}

/// Divides and rounds to the nearest whole number, a tie going away from
/// zero, and then to the nearest grid coordinate.
pub fn clamped_quotient(num: i128, den: i128) -> (quotient: i32)
    requires
        den != 0,
        num > i128::MIN,
        den > i128::MIN,
    ensures
        quotient == clamp_coordinate(round_div(num as int, den as int)),
{
    match rounded_quotient(num, den) {
        Some(quotient) => quotient,
        None => {
            if (num < 0) != (den < 0) {
                i32::MIN
            } else {
                i32::MAX
            }
        },
    }
}

} // verus!
