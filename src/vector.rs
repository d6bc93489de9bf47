//! Column vectors of a fixed dimension `N`.
use vstd::prelude::*;

use crate::adjunct::{
    constant_seq, is_fold_result, is_map_result, is_zip_map_result, Adjunct, Converged, Extend,
    Fold, FromItems, IntoItems, MapItems, Truncate, ZipMap,
};
use crate::ops::{
    cross_of, dot_fits, is_lerp_result, lerp_fits, lerp_one, lerp_scalar, mul_wide, partial_dot,
    Blend, Cross, Dot, Interpolate,
};
use crate::space::{unit_seq, Basis, FiniteDimensional, Homogeneous, InnerSpace, VectorSpace};

verus! {

/// A displacement with `N` scalar components.
#[derive(Clone, Copy, Debug, PartialEq, Eq)]
pub struct Vector<const N: usize> {
    pub items: [i64; N],
}

impl<const N: usize> View for Vector<N> {
    type V = Seq<i64>;

    open spec fn view(&self) -> Seq<i64> {
        self.items@
    }
}

impl<const N: usize> Vector<N> {
    /// The vector with the given components.
    pub fn new(items: [i64; N]) -> (r: Self)
        ensures
            r@ == items@,
    {
        Vector { items }
    }

    /// The all-zero vector.
    pub fn zeros() -> (r: Self)
        ensures
            r@ == constant_seq(N as nat, 0),
    {
        Vector { items: [0i64; N] }
    }
}

impl<const N: usize> Adjunct for Vector<N> {
    open spec fn arity() -> nat {
        N as nat
    }

    open spec fn items(&self) -> Seq<i64> {
        self@
    }

    proof fn lemma_items_len(&self) {
    }

    proof fn lemma_items_determine(&self, other: &Self) {
        assert(self.items =~= other.items);
    }
}

impl<const N: usize> Converged for Vector<N> {
    fn converged(value: i64) -> (r: Self) {
        let r = Vector { items: [value; N] };
        assert(r@ =~= constant_seq(N as nat, value));
        r
    }
}

impl<const N: usize> Fold for Vector<N> {
    fn fold<U, F: Fn(U, i64) -> U>(self, seed: U, f: F) -> (r: U) {
        let mut acc = seed;
        let ghost mut steps: Seq<U> = seq![seed];
        let mut i: usize = 0;
        while i < N
            invariant
                0 <= i <= N,
                forall|acc: U, x: i64| f.requires((acc, x)),
                steps.len() == i + 1,
                steps[0] == seed,
                steps[i as int] == acc,
                forall|k: int| 0 <= k < i ==> #[trigger] f.ensures((steps[k], self@[k]), steps[k + 1]),
            decreases N - i,
        {
            let next = f(acc, self.items[i]);
            proof {
                steps = steps.push(next);
            }
            acc = next;
            i = i + 1;
        }
        assert(is_fold_result(self@, seed, f, acc)) by {
            assert(steps.len() == self@.len() + 1);
        }
        acc
    }
}

impl<const N: usize> FromItems for Vector<N> {
    fn from_items(items: &[i64]) -> (r: Option<Self>) {
        if items.len() != N {
            return None;
        }
        let mut out = [0i64; N];
        let mut i: usize = 0;
        while i < N
            invariant
                0 <= i <= N,
                items@.len() == N,
                forall|k: int| 0 <= k < i ==> out@[k] == items@[k],
            decreases N - i,
        {
            out[i] = items[i];
            i = i + 1;
        }
        assert(out@ =~= items@);
        Some(Vector { items: out })
    }
}

impl<const N: usize> IntoItems for Vector<N> {
    fn into_items(self) -> (r: Vec<i64>) {
        let mut out: Vec<i64> = Vec::new();
        let mut i: usize = 0;
        while i < N
            invariant
                0 <= i <= N,
                out@ == self@.take(i as int),
            decreases N - i,
        {
            out.push(self.items[i]);
            i = i + 1;
            assert(out@ =~= self@.take(i as int));
        }
        assert(self@.take(N as int) =~= self@);
        out
    }
}

impl<const N: usize> MapItems for Vector<N> {
    fn map<F: Fn(i64) -> i64>(self, f: F) -> (r: Self) {
        let mut out = self.items;
        let mut i: usize = 0;
        while i < N
            invariant
                0 <= i <= N,
                forall|x: i64| f.requires((x,)),
                out@.len() == N,
                forall|k: int| 0 <= k < i ==> #[trigger] f.ensures((self@[k],), out@[k]),
            decreases N - i,
        {
            out[i] = f(self.items[i]);
            i = i + 1;
        }
        let r = Vector { items: out };
        assert(is_map_result(self@, f, r@));
        r
    }
}

impl<const N: usize> ZipMap for Vector<N> {
    fn zip_map<F: Fn(i64, i64) -> i64>(self, other: Self, f: F) -> (r: Self) {
        let mut out = self.items;
        let mut i: usize = 0;
        while i < N
            invariant
                0 <= i <= N,
                forall|x: i64, y: i64| f.requires((x, y)),
                out@.len() == N,
                forall|k: int| 0 <= k < i ==> #[trigger] f.ensures((self@[k], other@[k]), out@[k]),
            decreases N - i,
        {
            out[i] = f(self.items[i], other.items[i]);
            i = i + 1;
        }
        let r = Vector { items: out };
        assert(is_zip_map_result(self@, other@, f, r@));
        r
    }
}

/// Copies `a` and appends `x`.
fn extend_items<const N: usize, const M: usize>(a: &[i64; N], x: i64) -> (r: [i64; M])
    requires
        M == N + 1,
    ensures
        r@ == a@.push(x),
{
    let mut out = [x; M];
    let mut i: usize = 0;
    while i < N
        invariant
            0 <= i <= N,
            M == N + 1,
            out@.len() == M,
            out@[N as int] == x,
            forall|k: int| 0 <= k < i ==> out@[k] == a@[k],
        decreases N - i,
    {
        out[i] = a[i];
        i = i + 1;
    }
    assert(out@ =~= a@.push(x));
    out
}

/// Copies all of `a` but its last component.
fn truncate_items<const N: usize, const M: usize>(a: &[i64; N]) -> (r: [i64; M])
    requires
        N == M + 1,
    ensures
        r@ == a@.drop_last(),
{
    let mut out = [0i64; M];
    let mut i: usize = 0;
    while i < M
        invariant
            0 <= i <= M,
            N == M + 1,
            out@.len() == M,
            forall|k: int| 0 <= k < i ==> out@[k] == a@[k],
        decreases M - i,
    {
        out[i] = a[i];
        i = i + 1;
    }
    assert(out@ =~= a@.drop_last());
    out
}

impl Extend<Vector<1>> for Vector<0> {
    fn extend(self, x: i64) -> (r: Vector<1>) {
        Vector { items: extend_items(&self.items, x) }
    }
}

impl Extend<Vector<2>> for Vector<1> {
    fn extend(self, x: i64) -> (r: Vector<2>) {
        Vector { items: extend_items(&self.items, x) }
    }
}

impl Extend<Vector<3>> for Vector<2> {
    fn extend(self, x: i64) -> (r: Vector<3>) {
        Vector { items: extend_items(&self.items, x) }
    }
}

impl Extend<Vector<4>> for Vector<3> {
    fn extend(self, x: i64) -> (r: Vector<4>) {
        Vector { items: extend_items(&self.items, x) }
    }
}

impl Truncate<Vector<0>> for Vector<1> {
    fn truncate(self) -> (r: (Vector<0>, i64)) {
        (Vector { items: truncate_items(&self.items) }, self.items[0])
    }
}

impl Truncate<Vector<1>> for Vector<2> {
    fn truncate(self) -> (r: (Vector<1>, i64)) {
        (Vector { items: truncate_items(&self.items) }, self.items[1])
    }
}

impl Truncate<Vector<2>> for Vector<3> {
    fn truncate(self) -> (r: (Vector<2>, i64)) {
        (Vector { items: truncate_items(&self.items) }, self.items[2])
    }
}

impl Truncate<Vector<3>> for Vector<4> {
    fn truncate(self) -> (r: (Vector<3>, i64)) {
        (Vector { items: truncate_items(&self.items) }, self.items[3])
    }
}

impl<const N: usize> VectorSpace for Vector<N> {
    fn scalar_component(&self, index: usize) -> (r: Option<i64>) {
        if index < N {
            Some(self.items[index])
        } else {
            None
        }
    }
}

impl<const N: usize> Basis for Vector<N> {
    fn canonical_basis() -> (r: Vec<Self>) {
        let mut bases: Vec<Self> = Vec::new();
        let mut i: usize = 0;
        while i < N
            invariant
                0 <= i <= N,
                bases@.len() == i,
                forall|k: int| 0 <= k < i ==> (#[trigger] bases@[k])@ == unit_seq(N as nat, k),
            decreases N - i,
        {
            let mut items = [0i64; N];
            items[i] = 1;
            let basis = Vector { items };
            assert(basis@ =~= unit_seq(N as nat, i as int));
            bases.push(basis);
            i = i + 1;
        }
        bases
    }

    fn canonical_basis_component(index: usize) -> (r: Option<Self>) {
        let mut items = [0i64; N];
        if index < N {
            items[index] = 1;
            let basis = Vector { items };
            assert(basis@ =~= unit_seq(N as nat, index as int));
            Some(basis)
        } else {
            None
        }
    }
}

impl<const N: usize> Dot for Vector<N> {
    fn dot(&self, other: &Self) -> (r: i64) {
        let mut acc: i64 = 0;
        let mut i: usize = 0;
        while i < N
            invariant
                0 <= i <= N,
                dot_fits(self@, other@),
                acc == partial_dot(self@, other@, i as int),
            decreases N - i,
        {
            let p = mul_wide(self.items[i], other.items[i]);
            assert(partial_dot(self@, other@, i + 1) == acc + self@[i as int] * other@[i as int]);
            assert(i64::MIN <= partial_dot(self@, other@, i + 1) <= i64::MAX);
            acc = (acc as i128 + p) as i64;
            i = i + 1;
        }
        acc
    }
}

impl<const N: usize> Interpolate for Vector<N> {
    fn lerp(self, other: Self, f: Blend) -> (r: Self) {
        let mut out = self.items;
        let mut i: usize = 0;
        while i < N
            invariant
                0 <= i <= N,
                f.wf(),
                lerp_fits(self@, other@, f),
                out@.len() == N,
                forall|k: int| 0 <= k < i ==> out@[k] as int == lerp_scalar(self@[k] as int, other@[k] as int, f),
            decreases N - i,
        {
            assert(crate::ops::fits_i64(lerp_scalar(self@[i as int] as int, other@[i as int] as int, f)));
            out[i] = lerp_one(self.items[i], other.items[i], f);
            i = i + 1;
        }
        let r = Vector { items: out };
        assert(is_lerp_result(self@, other@, f, r@));
        r
    }
}

impl Cross for Vector<3> {
    fn cross(self, other: Self) -> (r: Self) {
        let (ax, ay, az) = (self.items[0], self.items[1], self.items[2]);
        let (bx, by, bz) = (other.items[0], other.items[1], other.items[2]);
        assert(crate::ops::fits_i64(cross_of(self@, other@)[0]));
        assert(crate::ops::fits_i64(cross_of(self@, other@)[1]));
        assert(crate::ops::fits_i64(cross_of(self@, other@)[2]));
        let x = (mul_wide(ay, bz) - mul_wide(az, by)) as i64;
        let y = (mul_wide(az, bx) - mul_wide(ax, bz)) as i64;
        let z = (mul_wide(ax, by) - mul_wide(ay, bx)) as i64;
        Vector { items: [x, y, z] }
    }
}

impl<const N: usize> FiniteDimensional for Vector<N> {
}

impl<const N: usize> InnerSpace for Vector<N> {
}

impl Homogeneous for Vector<2> {
    type ProjectiveSpace = Vector<3>;
}

impl Homogeneous for Vector<3> {
    type ProjectiveSpace = Vector<4>;
}

} // verus!
