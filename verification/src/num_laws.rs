//! What numbers come to, counted and written.
use vstd::arithmetic::div_mod::lemma_mod_breakdown;
use vstd::prelude::*;

use crate::num::Num;
use crate::text::{decimal, milli3, padded, rounded, ten_to, Str};
use crate::text_laws::{law_a_number_is_read_as_written, read};

verus! {

/// Numbers that can be counted are added, taken from each other, halved and compared as
/// their counts are.
pub proof fn law_numbers_are_counted(x: i128, y: i128)
    ensures
        ({
            let a = Num::Fin(x);
            let b = Num::Fin(y);
            &&& i128::MIN <= x + y <= i128::MAX ==> (a.plus(b) matches Num::Fin(n) && n == x + y)
            &&& i128::MIN <= x - y <= i128::MAX ==> (a.minus(b) matches Num::Fin(n) && n == x - y)
            &&& x + y > i128::MAX ==> a.plus(b) == Num::PosInf
            &&& x + y < i128::MIN ==> a.plus(b) == Num::NegInf
            &&& x != i128::MIN ==> (a.negated() matches Num::Fin(n) && n == -x)
            &&& a.half() matches Num::Fin(n) && 2 * n <= x <= 2 * n + 1
            &&& a.less(b) == (x < y)
            &&& a.at_most(b) == (x <= y)
            &&& a.larger(b) == (if x < y {
                b
            } else {
                a
            })
            &&& a.smaller(b) == (if x < y {
                a
            } else {
                b
            })
            &&& x != i128::MIN ==> (a.size() matches Num::Fin(n) && n == (if x < 0 {
                -x
            } else {
                x as int
            }))
            &&& a.in_unit_interval() == (0 <= x <= 1_000_000_000_000_000)
        }),
{
}

/// Two numbers are near each other exactly where they are apart by less than what is allowed.
pub proof fn law_near_is_less_than_allowed(x: i128, y: i128, w: i128)
    requires
        i128::MIN < x - y <= i128::MAX,
    ensures
        Num::Fin(x).near(Num::Fin(y), Num::Fin(w)) == (x - y < w && y - x < w),
{
}

/// What is no number compares with nothing, and comes out of every sum that it goes into.
pub proof fn law_no_number_stays_none(a: Num)
    ensures
        a.plus(Num::Nan) == Num::Nan,
        Num::Nan.plus(a) == Num::Nan,
        a.minus(Num::Nan) == Num::Nan,
        Num::Nan.minus(a) == Num::Nan,
        !a.less(Num::Nan),
        !Num::Nan.less(a),
        !a.at_most(Num::Nan),
        !Num::Nan.at_most(a),
{
}

/// A count that is rounded to so many goes to the nearest whole one, and from the middle
/// between two to the even one.
pub proof fn law_rounding_goes_to_the_nearest(a: nat, u: nat)
    requires
        u > 0,
    ensures
        ({
            let q = rounded(a, u);
            let off = a - q * u;
            &&& -(u as int) <= 2 * off <= u
            &&& 2 * off == u || 2 * off == -(u as int) ==> q % 2 == 0
        }),
{
    let q = a / u;
    let rest = a % u;
    assert(a == q * u + rest && 0 <= rest < u) by (nonlinear_arith)
        requires
            u > 0,
            q == a / u,
            rest == a % u,
    ;
    assert((q + 1) * u == q * u + u) by (nonlinear_arith);
}

proof fn lemma_padded(v: nat, places: nat)
    ensures
        padded(v, places).len() == places,
        read(padded(v, places)) == v % ten_to(places),
    decreases places,
{
    let s = padded(v, places);
    if places > 0 {
        let k = (places - 1) as nat;
        lemma_padded(v / 10, k);
        assert(s.drop_last() =~= padded(v / 10, k));
        let t = ten_to(k);
        lemma_positive(k);
        lemma_mod_breakdown(v as int, 10, t as int);
    } else {
        assert(v % 1 == 0);
    }
}

proof fn lemma_positive(k: nat)
    ensures
        ten_to(k) > 0,
    decreases k,
{
    if k > 0 {
        lemma_positive((k - 1) as nat);
    }
}

/// A text with a sign where a number is below zero, digits, a point, and digits again.
pub open spec fn with_point(n: i128, front: Str, back: Str) -> Str {
    (if n < 0 {
        "-"@
    } else {
        ""@
    }) + front + "."@ + back
}

/// A number with three digits behind the point is its count of thousandths, rounded to the
/// nearest: the digits in front of the point and the three behind it stand for that count,
/// and a sign stands in front of a number below zero.
pub proof fn law_three_digits_are_thousandths(n: i128)
    ensures
        ({
            let a: nat = if n < 0 {
                (-n) as nat
            } else {
                n as nat
            };
            exists|front: Str, back: Str|
                {
                    &&& milli3(Num::Fin(n)) == #[trigger] with_point(n, front, back)
                    &&& back.len() == 3
                    &&& read(front) * 1000 + read(back) == rounded(a, 1_000_000_000_000)
                }
        }),
{
    let a: nat = if n < 0 {
        (-n) as nat
    } else {
        n as nat
    };
    assert(ten_to(12) == 1_000_000_000_000 && ten_to(3) == 1000) by {
        reveal_with_fuel(ten_to, 13);
    }
    let q = rounded(a, 1_000_000_000_000);
    let front = decimal(q / 1000);
    let back = padded(q % 1000, 3);
    law_a_number_is_read_as_written(q / 1000);
    lemma_padded(q % 1000, 3);
    assert(milli3(Num::Fin(n)) == with_point(n, front, back));
}

} // verus!
