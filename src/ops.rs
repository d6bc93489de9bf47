//! Products and interpolation, computed exactly on integers.
use vstd::prelude::*;

use crate::adjunct::Adjunct;
use crate::matrix::{is_product_of, product_fits};
use crate::space::Matrix;

verus! {

/// Whether an integer fits in an `i64`.
pub open spec fn fits_i64(x: int) -> bool {
    i64::MIN <= x <= i64::MAX
}

/// The sum of the first `k` products of corresponding components.
pub open spec fn partial_dot(a: Seq<i64>, b: Seq<i64>, k: int) -> int
    decreases k,
{
    if k <= 0 {
        0
    } else {
        partial_dot(a, b, k - 1) + a[k - 1] * b[k - 1]
    }
}

/// The dot product of two sequences of the same length.
pub open spec fn dot_of(a: Seq<i64>, b: Seq<i64>) -> int {
    partial_dot(a, b, a.len() as int)
}

/// Every running sum of the dot product fits in an `i64`.
pub open spec fn dot_fits(a: Seq<i64>, b: Seq<i64>) -> bool {
    forall|k: int| 0 <= k <= a.len() ==> fits_i64(#[trigger] partial_dot(a, b, k))
}

/// A blend factor: the rational number `numer / denom`.
#[derive(Clone, Copy, Debug, PartialEq, Eq)]
pub struct Blend {
    pub numer: i64,
    pub denom: i64,
}

impl Blend {
    /// A factor is well formed when its denominator is positive.
    pub open spec fn wf(self) -> bool {
        self.denom > 0
    }

    /// The factor 0.
    pub fn zero() -> (r: Blend)
        ensures
            r.wf(),
            r.numer == 0,
    {
        Blend { numer: 0, denom: 1 }
    }

    /// The factor 1.
    pub fn one() -> (r: Blend)
        ensures
            r.wf(),
            r.numer == r.denom,
    {
        Blend { numer: 1, denom: 1 }
    }
}

/// `d / denom`, rounded toward zero.
pub open spec fn div_toward_zero(d: int, denom: int) -> int {
    if d >= 0 {
        d / denom
    } else {
        -((-d) / denom)
    }
}

/// Linear interpolation of one scalar: `a + f * (b - a)`, the product rounded
/// toward zero.
pub open spec fn lerp_scalar(a: int, b: int, f: Blend) -> int {
    a + div_toward_zero(f.numer * (b - a), f.denom as int)
}

/// Every interpolated component fits in an `i64`.
pub open spec fn lerp_fits(a: Seq<i64>, b: Seq<i64>, f: Blend) -> bool {
    forall|i: int| 0 <= i < a.len() ==> fits_i64(#[trigger] lerp_scalar(a[i] as int, b[i] as int, f))
}

/// The cross product of two sequences of three scalars.
pub open spec fn cross_of(a: Seq<i64>, b: Seq<i64>) -> Seq<int> {
    seq![
        a[1] * b[2] - a[2] * b[1],
        a[2] * b[0] - a[0] * b[2],
        a[0] * b[1] - a[1] * b[0],
    ]
}

/// Every component of the cross product fits in an `i64`.
pub open spec fn cross_fits(a: Seq<i64>, b: Seq<i64>) -> bool {
    forall|i: int| 0 <= i < 3 ==> fits_i64(#[trigger] cross_of(a, b)[i])
}

/// The exact product of two `i64`s.
pub fn mul_wide(x: i64, y: i64) -> (r: i128)
    ensures
        r == x * y,
        -0x4000_0000_0000_0000_0000_0000_0000_0000 <= r <= 0x4000_0000_0000_0000_0000_0000_0000_0000,
{
    proof {
        let xi = x as int;
        let yi = y as int;
        assert(-0x8000_0000_0000_0000 <= xi <= 0x8000_0000_0000_0000);
        assert(-0x8000_0000_0000_0000 <= yi <= 0x8000_0000_0000_0000);
        assert(-0x4000_0000_0000_0000_0000_0000_0000_0000 <= xi * yi
            <= 0x4000_0000_0000_0000_0000_0000_0000_0000) by (nonlinear_arith)
            requires
                -0x8000_0000_0000_0000 <= xi <= 0x8000_0000_0000_0000,
                -0x8000_0000_0000_0000 <= yi <= 0x8000_0000_0000_0000,
        ;
    }
    (x as i128) * (y as i128)
}

/// The inner product of two aggregates of the same type.
pub trait Dot: Adjunct {
    fn dot(&self, other: &Self) -> (r: i64)
        requires
            dot_fits(self.items(), other.items()),
        ensures
            r == dot_of(self.items(), other.items()),
    ;
}

/// Component-wise linear interpolation. A factor outside `[0, 1]`
/// extrapolates.
pub trait Interpolate: Adjunct {
    fn lerp(self, other: Self, f: Blend) -> (r: Self)
        requires
            f.wf(),
            lerp_fits(self.items(), other.items(), f),
        ensures
            is_lerp_result(self.items(), other.items(), f, r.items()),
    ;
}

/// `u` interpolates, component by component, from `s` toward `t` by `f`.
pub open spec fn is_lerp_result(s: Seq<i64>, t: Seq<i64>, f: Blend, u: Seq<i64>) -> bool {
    &&& u.len() == s.len()
    &&& forall|i: int|
        0 <= i < s.len() ==> (#[trigger] u[i]) as int == lerp_scalar(s[i] as int, t[i] as int, f)
}

/// Interpolation by 0 stays at the start, by 1 reaches the end, and between
/// equal ends stays put whatever the factor.
pub proof fn lemma_lerp_scalar_ends(a: int, b: int, f: Blend)
    requires
        f.wf(),
    ensures
        f.numer == 0 ==> lerp_scalar(a, b, f) == a,
        f.numer == f.denom ==> lerp_scalar(a, b, f) == b,
        lerp_scalar(a, a, f) == a,
{
    if f.numer == f.denom {
        let d = f.denom as int;
        if b - a >= 0 {
            vstd::arithmetic::div_mod::lemma_div_multiples_vanish(b - a, d);
            assert(f.numer * (b - a) == d * (b - a));
        } else {
            vstd::arithmetic::div_mod::lemma_div_multiples_vanish(a - b, d);
            assert(-(f.numer * (b - a)) == d * (a - b)) by (nonlinear_arith)
                requires
                    f.numer == d,
            ;
        }
    }
}

/// Linear interpolation by 0 gives the start, by 1 gives the end, and between
/// an aggregate and itself gives that aggregate for every factor.
pub proof fn lemma_lerp_ends<A: Adjunct>(a: A, b: A, f: Blend, r: A)
    requires
        f.wf(),
        is_lerp_result(a.items(), b.items(), f, r.items()),
    ensures
        f.numer == 0 ==> r == a,
        f.numer == f.denom ==> r == b,
        a == b ==> r == a,
{
    a.lemma_items_len();
    b.lemma_items_len();
    r.lemma_items_len();
    assert forall|i: int| 0 <= i < a.items().len() implies {
        &&& f.numer == 0 ==> r.items()[i] == a.items()[i]
        &&& f.numer == f.denom ==> r.items()[i] == b.items()[i]
        &&& a == b ==> r.items()[i] == a.items()[i]
    } by {
        lemma_lerp_scalar_ends(a.items()[i] as int, b.items()[i] as int, f);
    }
    if f.numer == 0 {
        assert(r.items() =~= a.items());
        r.lemma_items_determine(&a);
    }
    if f.numer == f.denom {
        assert(r.items() =~= b.items());
        r.lemma_items_determine(&b);
    }
    if a == b {
        assert(r.items() =~= a.items());
        r.lemma_items_determine(&a);
    }
}

/// The cross product is anticommutative, and a vector crossed with itself is
/// zero.
pub proof fn lemma_cross_anticommutative(a: Seq<i64>, b: Seq<i64>)
    ensures
        cross_of(a, b) == cross_of(b, a).map_values(|x: int| -x),
        cross_of(a, a) == seq![0int, 0int, 0int],
{
    assert(cross_of(a, b) =~= cross_of(b, a).map_values(|x: int| -x)) by (nonlinear_arith);
    assert(cross_of(a, a) =~= seq![0int, 0int, 0int]) by (nonlinear_arith);
}

/// One scalar of a linear interpolation.
pub fn lerp_one(a: i64, b: i64, f: Blend) -> (r: i64)
    requires
        f.wf(),
        fits_i64(lerp_scalar(a as int, b as int, f)),
    ensures
        r == lerp_scalar(a as int, b as int, f),
{
    let diff: i128 = b as i128 - a as i128;
    proof {
        let n = f.numer as int;
        let di = diff as int;
        let bound: int = 0x1_0000_0000_0000_0000;
        let half: int = 0x8000_0000_0000_0000;
        assert(-bound < di < bound);
        assert(-half <= n <= half);
        assert(-(half * bound) < n * di < half * bound) by (nonlinear_arith)
            requires
                -bound < di < bound,
                -half <= n <= half,
                half > 0,
        ;
        assert(half * bound == 0x8000_0000_0000_0000_0000_0000_0000_0000);
    }
    let d: i128 = (f.numer as i128) * diff;
    let q: i128 = if d >= 0 {
        ((d as u128) / (f.denom as u128)) as i128
    } else {
        let m: u128 = (-d) as u128;
        assert(m / (f.denom as u128) <= m) by {
            vstd::arithmetic::div_mod::lemma_div_is_ordered_by_denominator(m as int, 1, f.denom as int);
        }
        -((m / (f.denom as u128)) as i128)
    };
    proof {
        if d >= 0 {
            vstd::arithmetic::div_mod::lemma_div_is_ordered_by_denominator(d as int, 1, f.denom as int);
        }
    }
    (a as i128 + q) as i64
}

/// The cross product, defined for three dimensions only.
pub trait Cross: Adjunct {
    fn cross(self, other: Self) -> (r: Self)
        requires
            cross_fits(self.items(), other.items()),
        ensures
            r.items().len() == 3,
            forall|i: int| 0 <= i < 3 ==> (#[trigger] r.items()[i]) as int == cross_of(self.items(), other.items())[i],
    ;
}

/// The product of two matrices whose inner dimensions agree.
pub trait MulMN<T: Matrix>: Matrix {
    type Output: Matrix;

    fn mul_mn(self, other: T) -> (r: Self::Output)
        requires
            product_fits(self.columns(), other.columns(), Self::row_count()),
        ensures
            is_product_of(self.columns(), other.columns(), r.columns(), Self::row_count()),
    ;
}

} // verus!
