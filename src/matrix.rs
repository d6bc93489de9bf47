//! Matrices of `R` rows and `C` columns, stored column by column.
use vstd::prelude::*;

use crate::adjunct::{
    constant_seq, is_fold_result, Adjunct, Converged, Fold, FromItems, IntoItems, MapItems, ZipMap,
};
use crate::ops::{
    dot_fits, dot_of, fits_i64, lerp_fits, lerp_one, lerp_scalar, partial_dot, Blend, Dot,
    Interpolate, MulMN,
};
use crate::space::{unit_seq, Basis, FiniteDimensional, VectorSpace, DualSpace, Matrix, SquareMatrix};
use crate::vector::Vector;

verus! {

/// The `i`-th row of a matrix given as the sequence of its columns.
pub open spec fn row_of(m: Seq<Seq<i64>>, i: int) -> Seq<i64> {
    Seq::new(m.len(), |j: int| m[j][i])
}

/// The columns of the transpose of a matrix of `rows` rows, given as the
/// sequence of its columns.
pub open spec fn transpose_of(m: Seq<Seq<i64>>, rows: nat) -> Seq<Seq<i64>> {
    Seq::new(rows, |i: int| row_of(m, i))
}

/// Whether `m` lists `cols` columns of `rows` scalars each.
pub open spec fn has_shape(m: Seq<Seq<i64>>, rows: nat, cols: nat) -> bool {
    &&& m.len() == cols
    &&& forall|j: int| 0 <= j < cols ==> (#[trigger] m[j]).len() == rows
}

/// The columns of the `n` by `n` identity matrix.
pub open spec fn identity_of(n: nat) -> Seq<Seq<i64>> {
    Seq::new(n, |j: int| unit_seq(n, j))
}

/// `p`, of `rows` rows, is the product of `a` and `b`: its entry in row `i`
/// and column `j` is the dot product of row `i` of `a` with column `j` of `b`.
pub open spec fn is_product_of(a: Seq<Seq<i64>>, b: Seq<Seq<i64>>, p: Seq<Seq<i64>>, rows: nat) -> bool {
    &&& has_shape(p, rows, b.len())
    &&& forall|i: int, j: int|
        #![trigger p[j][i]]
        0 <= i < rows && 0 <= j < b.len() ==> p[j][i] as int == dot_of(row_of(a, i), b[j])
}

/// Every entry of the product of `a` and `b`, of `rows` rows, can be summed
/// in `i64`.
pub open spec fn product_fits(a: Seq<Seq<i64>>, b: Seq<Seq<i64>>, rows: nat) -> bool {
    forall|i: int, j: int| 0 <= i < rows && 0 <= j < b.len() ==> dot_fits(#[trigger] row_of(a, i), #[trigger] b[j])
}

/// A matrix of scalars with `R` rows and `C` columns.
#[derive(Clone, Copy, Debug, PartialEq, Eq)]
pub struct MatrixMN<const R: usize, const C: usize> {
    pub columns: [Vector<R>; C],
}

impl<const R: usize, const C: usize> View for MatrixMN<R, C> {
    type V = Seq<Seq<i64>>;

    open spec fn view(&self) -> Seq<Seq<i64>> {
        self.columns@.map_values(|c: Vector<R>| c@)
    }
}

impl<const R: usize, const C: usize> MatrixMN<R, C> {
    /// Two matrices with the same entries are the same value.
    pub proof fn lemma_view_determines(&self, other: &Self)
        requires
            self@ == other@,
        ensures
            *self == *other,
    {
        assert forall|j: int| 0 <= j < C implies self.columns@[j] == other.columns@[j] by {
            assert(self@[j] == other@[j]);
            self.columns@[j].lemma_items_determine(&other.columns@[j]);
        }
        assert(self.columns =~= other.columns);
    }

    /// Builds a matrix from its columns.
    pub fn from_columns(columns: [[i64; R]; C]) -> (r: Self)
        ensures
            has_shape(r@, R as nat, C as nat),
            forall|j: int| 0 <= j < C ==> #[trigger] r@[j] == columns@[j]@,
    {
        let mut out = [Vector::zeros(); C];
        let mut j: usize = 0;
        while j < C
            invariant
                0 <= j <= C,
                forall|k: int| 0 <= k < j ==> #[trigger] out@[k]@ == columns@[k]@,
            decreases C - j,
        {
            out[j] = Vector::new(columns[j]);
            j = j + 1;
        }
        MatrixMN { columns: out }
    }
}

impl<const R: usize, const C: usize> Matrix for MatrixMN<R, C> {
    type Row = Vector<C>;

    type Column = Vector<R>;

    open spec fn row_count() -> nat {
        R as nat
    }

    open spec fn column_count() -> nat {
        C as nat
    }

    open spec fn columns(&self) -> Seq<Seq<i64>> {
        self@
    }

    fn row_component(&self, index: usize) -> (r: Option<Vector<C>>) {
        if index < R {
            let mut items = [0i64; C];
            let mut j: usize = 0;
            while j < C
                invariant
                    0 <= j <= C,
                    index < R,
                    forall|k: int| 0 <= k < j ==> items@[k] == self@[k][index as int],
                decreases C - j,
            {
                items[j] = self.columns[j].items[index];
                j = j + 1;
            }
            let v = Vector { items };
            assert(v@ =~= row_of(self@, index as int));
            Some(v)
        } else {
            None
        }
    }

    fn column_component(&self, index: usize) -> (r: Option<Vector<R>>) {
        if index < C {
            Some(self.columns[index])
        } else {
            None
        }
    }
}

impl<const R: usize, const C: usize> DualSpace for MatrixMN<R, C> {
    type Dual = MatrixMN<C, R>;

    fn transpose(self) -> (r: MatrixMN<C, R>) {
        let mut out = [Vector::zeros(); R];
        let mut i: usize = 0;
        while i < R
            invariant
                0 <= i <= R,
                forall|k: int| 0 <= k < i ==> #[trigger] out@[k]@ == row_of(self@, k),
            decreases R - i,
        {
            match self.row_component(i) {
                Some(row) => {
                    out[i] = row;
                },
                None => {},
            }
            i = i + 1;
        }
        let r = MatrixMN { columns: out };
        assert(r@ =~= transpose_of(self@, R as nat));
        r
    }
}

impl<const R: usize, const C: usize, const K: usize> MulMN<MatrixMN<C, K>> for MatrixMN<R, C> {
    type Output = MatrixMN<R, K>;

    fn mul_mn(self, other: MatrixMN<C, K>) -> (r: MatrixMN<R, K>) {
        let mut rows = [Vector::zeros(); R];
        let mut i: usize = 0;
        while i < R
            invariant
                0 <= i <= R,
                forall|k: int| 0 <= k < i ==> #[trigger] rows@[k]@ == row_of(self@, k),
            decreases R - i,
        {
            match self.row_component(i) {
                Some(row) => {
                    rows[i] = row;
                },
                None => {},
            }
            i = i + 1;
        }
        let mut out = [Vector::zeros(); K];
        let mut j: usize = 0;
        while j < K
            invariant
                0 <= j <= K,
                product_fits(self@, other@, R as nat),
                forall|k: int| 0 <= k < R ==> #[trigger] rows@[k]@ == row_of(self@, k),
                forall|jj: int, ii: int|
                    0 <= jj < j && 0 <= ii < R ==> #[trigger] out@[jj]@[ii] as int == dot_of(
                        row_of(self@, ii),
                        other@[jj],
                    ),
            decreases K - j,
        {
            let column = other.columns[j];
            let mut items = [0i64; R];
            let mut i: usize = 0;
            while i < R
                invariant
                    0 <= i <= R,
                    j < K,
                    column@ == other@[j as int],
                    product_fits(self@, other@, R as nat),
                    forall|k: int| 0 <= k < R ==> #[trigger] rows@[k]@ == row_of(self@, k),
                    forall|ii: int| 0 <= ii < i ==> items@[ii] as int == dot_of(row_of(self@, ii), other@[j as int]),
                decreases R - i,
            {
                assert(dot_fits(row_of(self@, i as int), other@[j as int]));
                items[i] = rows[i].dot(&column);
                i = i + 1;
            }
            out[j] = Vector { items };
            j = j + 1;
        }
        MatrixMN { columns: out }
    }
}

impl<const N: usize> SquareMatrix for MatrixMN<N, N> {
    fn multiplicative_identity() -> (r: Self) {
        let mut out = [Vector::zeros(); N];
        let mut j: usize = 0;
        while j < N
            invariant
                0 <= j <= N,
                forall|k: int| 0 <= k < j ==> #[trigger] out@[k]@ == unit_seq(N as nat, k),
            decreases N - j,
        {
            match Vector::<N>::canonical_basis_component(j) {
                Some(v) => {
                    out[j] = v;
                },
                None => {},
            }
            j = j + 1;
        }
        let r = MatrixMN { columns: out };
        assert(r@ =~= identity_of(N as nat));
        r
    }
}

/// A dot product with the `i`-th unit vector, on either side, picks the
/// component at `i`; every running sum is that component or zero.
pub proof fn lemma_dot_unit(n: nat, i: int, b: Seq<i64>, k: int)
    requires
        0 <= i < n,
        b.len() == n,
        0 <= k <= n,
    ensures
        partial_dot(unit_seq(n, i), b, k) == if i < k { b[i] as int } else { 0 },
        partial_dot(b, unit_seq(n, i), k) == if i < k { b[i] as int } else { 0 },
    decreases k,
{
    if k > 0 {
        lemma_dot_unit(n, i, b, k - 1);
        let u = unit_seq(n, i);
        let x = b[k - 1] as int;
        if k - 1 == i {
            assert(u[k - 1] == 1);
            assert(u[k - 1] * x == x && x * u[k - 1] == x);
        } else {
            assert(u[k - 1] == 0);
            assert(u[k - 1] * x == 0 && x * u[k - 1] == 0);
        }
    }
}

/// Every running sum of a dot product with a unit vector fits in an `i64`.
pub proof fn lemma_dot_unit_fits(n: nat, i: int, b: Seq<i64>)
    requires
        0 <= i < n,
        b.len() == n,
    ensures
        dot_fits(unit_seq(n, i), b),
        dot_fits(b, unit_seq(n, i)),
        dot_of(unit_seq(n, i), b) == b[i],
        dot_of(b, unit_seq(n, i)) == b[i],
{
    assert forall|k: int| 0 <= k <= n implies fits_i64(#[trigger] partial_dot(unit_seq(n, i), b, k))
        && fits_i64(partial_dot(b, unit_seq(n, i), k)) by {
        lemma_dot_unit(n, i, b, k);
    }
    assert forall|k: int| 0 <= k <= n implies fits_i64(#[trigger] partial_dot(b, unit_seq(n, i), k)) by {
        lemma_dot_unit(n, i, b, k);
    }
    lemma_dot_unit(n, i, b, n as int);
}

/// Transposing twice gives back the matrix.
pub proof fn lemma_transpose_involution<const R: usize, const C: usize>(
    m: MatrixMN<R, C>,
    t: MatrixMN<C, R>,
    u: MatrixMN<R, C>,
)
    requires
        t@ == transpose_of(m@, R as nat),
        u@ == transpose_of(t@, C as nat),
    ensures
        u == m,
{
    assert(u@ =~= m@) by {
        assert forall|j: int| 0 <= j < C implies #[trigger] u@[j] =~= m@[j] by {}
    }
    u.lemma_view_determines(&m);
}

/// The identity matrix can be multiplied by any square matrix of its size, on
/// either side, and the product is that matrix:
/// `identity * m == m` and `m * identity == m`.
pub proof fn lemma_identity_product<const N: usize>(m: MatrixMN<N, N>, p: MatrixMN<N, N>, q: MatrixMN<N, N>)
    requires
        is_product_of(identity_of(N as nat), m@, p@, N as nat),
        is_product_of(m@, identity_of(N as nat), q@, N as nat),
    ensures
        p == m,
        q == m,
{
    lemma_identity_product_fits(m);
    assert forall|j: int| 0 <= j < N implies #[trigger] p@[j] =~= m@[j] by {
        assert forall|i: int| 0 <= i < N implies p@[j][i] == m@[j][i] by {
            assert(row_of(identity_of(N as nat), i) =~= unit_seq(N as nat, i));
            lemma_dot_unit_fits(N as nat, i, m@[j]);
        }
    }
    assert(p@ =~= m@);
    p.lemma_view_determines(&m);
    assert forall|j: int| 0 <= j < N implies #[trigger] q@[j] =~= m@[j] by {
        assert forall|i: int| 0 <= i < N implies q@[j][i] == m@[j][i] by {
            lemma_dot_unit_fits(N as nat, j, row_of(m@, i));
        }
    }
    assert(q@ =~= m@);
    q.lemma_view_determines(&m);
}

/// Products with the identity, on either side, never overflow.
pub proof fn lemma_identity_product_fits<const N: usize>(m: MatrixMN<N, N>)
    ensures
        product_fits(identity_of(N as nat), m@, N as nat),
        product_fits(m@, identity_of(N as nat), N as nat),
{
    assert forall|i: int, j: int| 0 <= i < N && 0 <= j < N implies dot_fits(
        #[trigger] row_of(identity_of(N as nat), i),
        #[trigger] m@[j],
    ) by {
        assert(row_of(identity_of(N as nat), i) =~= unit_seq(N as nat, i));
        lemma_dot_unit_fits(N as nat, i, m@[j]);
    }
    assert forall|i: int, j: int| 0 <= i < N && 0 <= j < N implies dot_fits(
        #[trigger] row_of(m@, i),
        #[trigger] identity_of(N as nat)[j],
    ) by {
        lemma_dot_unit_fits(N as nat, j, row_of(m@, i));
    }
}

/// The components of a matrix of `rows` rows, column after column.
pub open spec fn flat_of(m: Seq<Seq<i64>>, rows: nat, cols: nat) -> Seq<i64> {
    Seq::new(rows * cols, |k: int| m[k / (rows as int)][k % (rows as int)])
}

/// Row `i` of column `j` stands at `j * rows + i` among the components.
pub proof fn lemma_flat_index(rows: nat, cols: nat, j: int, i: int)
    requires
        0 <= i < rows,
        0 <= j < cols,
    ensures
        0 <= j * rows + i < rows * cols,
        (j * rows + i) / (rows as int) == j,
        (j * rows + i) % (rows as int) == i,
{
    assert(0 <= j * rows + i < rows * cols) by (nonlinear_arith)
        requires
            0 <= i < rows,
            0 <= j < cols,
    ;
    vstd::arithmetic::div_mod::lemma_fundamental_div_mod_converse(j * rows + i, rows as int, j, i);
}

/// A component index splits into a column and a row within bounds.
pub proof fn lemma_flat_split(rows: nat, cols: nat, k: int)
    requires
        0 <= k < rows * cols,
    ensures
        rows > 0,
        0 <= k / (rows as int) < cols,
        0 <= k % (rows as int) < rows,
        k == rows * (k / (rows as int)) + k % (rows as int),
{
    if rows == 0 {
        assert(rows * cols == 0);
    }
    let q = k / (rows as int);
    let m = k % (rows as int);
    vstd::arithmetic::div_mod::lemma_fundamental_div_mod(k, rows as int);
    vstd::arithmetic::div_mod::lemma_div_pos_is_pos(k, rows as int);
    vstd::arithmetic::div_mod::lemma_mod_pos_bound(k, rows as int);
    assert(q < cols) by (nonlinear_arith)
        requires
            k == rows * q + m,
            0 <= m,
            k < rows * cols,
            rows > 0,
    ;
}

impl<const R: usize, const C: usize> Adjunct for MatrixMN<R, C> {
    open spec fn arity() -> nat {
        (R * C) as nat
    }

    open spec fn items(&self) -> Seq<i64> {
        flat_of(self@, R as nat, C as nat)
    }

    proof fn lemma_items_len(&self) {
    }

    proof fn lemma_items_determine(&self, other: &Self) {
        assert forall|j: int| 0 <= j < C implies #[trigger] self@[j] =~= other@[j] by {
            assert forall|i: int| 0 <= i < R implies self@[j][i] == other@[j][i] by {
                lemma_flat_index(R as nat, C as nat, j, i);
                let k = j * R + i;
                assert(self.items()[k] == self@[j][i]);
                assert(other.items()[k] == other@[j][i]);
                assert(self.items()[k] == other.items()[k]);
            }
        }
        assert(self@ =~= other@);
        self.lemma_view_determines(other);
    }
}

impl<const R: usize, const C: usize> FiniteDimensional for MatrixMN<R, C> {
}

impl<const R: usize, const C: usize> Converged for MatrixMN<R, C> {
    fn converged(value: i64) -> (r: Self) {
        let column = Vector::<R>::converged(value);
        let r = MatrixMN { columns: [column; C] };
        proof {
            vstd::array::axiom_spec_array_fill_for_copy_type::<Vector<R>, C>(column);
        }
        assert forall|k: int| 0 <= k < R * C implies #[trigger] r.items()[k] == value by {
            lemma_flat_split(R as nat, C as nat, k);
            let j = k / (R as int);
            let i = k % (R as int);
            assert(r.columns@[j] == column);
            assert(r@[j] == column@);
            assert(column@[i] == value);
        }
        assert(r.items() =~= constant_seq(Self::arity(), value));
        r
    }
}

impl<const R: usize, const C: usize> VectorSpace for MatrixMN<R, C> {
    fn scalar_component(&self, index: usize) -> (r: Option<i64>) {
        if R == 0 {
            return None;
        }
        let j = index / R;
        let i = index % R;
        proof {
            vstd::arithmetic::div_mod::lemma_fundamental_div_mod(index as int, R as int);
            vstd::arithmetic::mul::lemma_mul_is_commutative(R as int, j as int);
        }
        if j < C {
            proof {
                lemma_flat_index(R as nat, C as nat, j as int, i as int);
            }
            Some(self.columns[j].items[i])
        } else {
            proof {
                if index < R * C {
                    lemma_flat_split(R as nat, C as nat, index as int);
                }
            }
            None
        }
    }
}

impl<const R: usize, const C: usize> MapItems for MatrixMN<R, C> {
    fn map<F: Fn(i64) -> i64>(self, f: F) -> (r: Self) {
        let mut out = self.columns;
        let mut j: usize = 0;
        while j < C
            invariant
                0 <= j <= C,
                forall|x: i64| f.requires((x,)),
                forall|jj: int, ii: int|
                    0 <= jj < j && 0 <= ii < R ==> #[trigger] f.ensures((self@[jj][ii],), out@[jj]@[ii]),
            decreases C - j,
        {
            let mut items = [0i64; R];
            let mut i: usize = 0;
            while i < R
                invariant
                    0 <= i <= R,
                    j < C,
                    forall|x: i64| f.requires((x,)),
                    forall|ii: int| 0 <= ii < i ==> #[trigger] f.ensures((self@[j as int][ii],), items@[ii]),
                decreases R - i,
            {
                items[i] = f(self.columns[j].items[i]);
                i = i + 1;
            }
            out[j] = Vector { items };
            j = j + 1;
        }
        let r = MatrixMN { columns: out };
        assert forall|k: int| 0 <= k < R * C implies #[trigger] f.ensures((self.items()[k],), r.items()[k]) by {
            lemma_flat_split(R as nat, C as nat, k);
        }
        r
    }
}

impl<const R: usize, const C: usize> ZipMap for MatrixMN<R, C> {
    fn zip_map<F: Fn(i64, i64) -> i64>(self, other: Self, f: F) -> (r: Self) {
        let mut out = self.columns;
        let mut j: usize = 0;
        while j < C
            invariant
                0 <= j <= C,
                forall|x: i64, y: i64| f.requires((x, y)),
                forall|jj: int, ii: int|
                    0 <= jj < j && 0 <= ii < R ==> #[trigger] f.ensures((self@[jj][ii], other@[jj][ii]), out@[jj]@[ii]),
            decreases C - j,
        {
            let mut items = [0i64; R];
            let mut i: usize = 0;
            while i < R
                invariant
                    0 <= i <= R,
                    j < C,
                    forall|x: i64, y: i64| f.requires((x, y)),
                    forall|ii: int|
                        0 <= ii < i ==> #[trigger] f.ensures((self@[j as int][ii], other@[j as int][ii]), items@[ii]),
                decreases R - i,
            {
                items[i] = f(self.columns[j].items[i], other.columns[j].items[i]);
                i = i + 1;
            }
            out[j] = Vector { items };
            j = j + 1;
        }
        let r = MatrixMN { columns: out };
        assert forall|k: int| 0 <= k < R * C implies #[trigger] f.ensures((self.items()[k], other.items()[k]), r.items()[k]) by {
            lemma_flat_split(R as nat, C as nat, k);
        }
        r
    }
}

impl<const R: usize, const C: usize> Interpolate for MatrixMN<R, C> {
    fn lerp(self, other: Self, f: Blend) -> (r: Self) {
        let mut out = self.columns;
        let mut j: usize = 0;
        while j < C
            invariant
                0 <= j <= C,
                f.wf(),
                lerp_fits(self.items(), other.items(), f),
                forall|jj: int, ii: int|
                    0 <= jj < j && 0 <= ii < R ==> (#[trigger] out@[jj]@[ii]) as int == lerp_scalar(
                        self@[jj][ii] as int,
                        other@[jj][ii] as int,
                        f,
                    ),
            decreases C - j,
        {
            let mut items = [0i64; R];
            let mut i: usize = 0;
            while i < R
                invariant
                    0 <= i <= R,
                    j < C,
                    f.wf(),
                    lerp_fits(self.items(), other.items(), f),
                    forall|ii: int|
                        0 <= ii < i ==> (#[trigger] items@[ii]) as int == lerp_scalar(
                            self@[j as int][ii] as int,
                            other@[j as int][ii] as int,
                            f,
                        ),
                decreases R - i,
            {
                proof {
                    lemma_flat_index(R as nat, C as nat, j as int, i as int);
                    let k = j * R + i;
                    assert(fits_i64(lerp_scalar(self.items()[k] as int, other.items()[k] as int, f)));
                }
                items[i] = lerp_one(self.columns[j].items[i], other.columns[j].items[i], f);
                i = i + 1;
            }
            out[j] = Vector { items };
            j = j + 1;
        }
        let r = MatrixMN { columns: out };
        assert forall|k: int| 0 <= k < R * C implies (#[trigger] r.items()[k]) as int == lerp_scalar(
            self.items()[k] as int,
            other.items()[k] as int,
            f,
        ) by {
            lemma_flat_split(R as nat, C as nat, k);
        }
        r
    }
}

impl<const R: usize, const C: usize> IntoItems for MatrixMN<R, C> {
    fn into_items(self) -> (r: Vec<i64>) {
        let mut out: Vec<i64> = Vec::new();
        let mut j: usize = 0;
        while j < C
            invariant
                0 <= j <= C,
                out@ == self.items().take(j * R),
            decreases C - j,
        {
            let mut i: usize = 0;
            while i < R
                invariant
                    0 <= i <= R,
                    j < C,
                    out@ == self.items().take(j * R + i),
                decreases R - i,
            {
                proof {
                    lemma_flat_index(R as nat, C as nat, j as int, i as int);
                }
                out.push(self.columns[j].items[i]);
                assert(out@ =~= self.items().take(j * R + i + 1));
                i = i + 1;
            }
            assert((j + 1) * R == j * R + R) by (nonlinear_arith);
            j = j + 1;
        }
        assert(C * R == R * C) by (nonlinear_arith);
        assert(self.items().take(C * R) =~= self.items());
        out
    }
}

impl<const R: usize, const C: usize> FromItems for MatrixMN<R, C> {
    fn from_items(items: &[i64]) -> (r: Option<Self>) {
        let n = items.len();
        if R == 0 {
            if n != 0 {
                return None;
            }
        } else if n % R != 0 || n / R != C {
            proof {
                if n == R * C {
                    vstd::arithmetic::div_mod::lemma_div_multiples_vanish(C as int, R as int);
                    vstd::arithmetic::div_mod::lemma_mod_multiples_basic(C as int, R as int);
                    assert(C * R == R * C) by (nonlinear_arith);
                }
            }
            return None;
        }
        proof {
            if R > 0 {
                vstd::arithmetic::div_mod::lemma_fundamental_div_mod(n as int, R as int);
            }
            assert(n == R * C);
        }
        let mut out = [Vector::zeros(); C];
        let mut k: usize = 0;
        let mut j: usize = 0;
        while j < C
            invariant
                0 <= j <= C,
                n == items@.len(),
                n == R * C,
                k == j * R,
                forall|jj: int, ii: int|
                    0 <= jj < j && 0 <= ii < R ==> #[trigger] out@[jj]@[ii] == items@[jj * R + ii],
            decreases C - j,
        {
            let mut column = [0i64; R];
            let mut i: usize = 0;
            while i < R
                invariant
                    0 <= i <= R,
                    j < C,
                    n == items@.len(),
                    n == R * C,
                    k == j * R + i,
                    forall|ii: int| 0 <= ii < i ==> #[trigger] column@[ii] == items@[j * R + ii],
                decreases R - i,
            {
                proof {
                    lemma_flat_index(R as nat, C as nat, j as int, i as int);
                }
                column[i] = items[k];
                k = k + 1;
                i = i + 1;
            }
            out[j] = Vector { items: column };
            assert((j + 1) * R == j * R + R) by (nonlinear_arith);
            j = j + 1;
        }
        let r = MatrixMN { columns: out };
        assert forall|kk: int| 0 <= kk < R * C implies #[trigger] r.items()[kk] == items@[kk] by {
            lemma_flat_split(R as nat, C as nat, kk);
            vstd::arithmetic::mul::lemma_mul_is_commutative(R as int, kk / (R as int));
        }
        assert(r.items() =~= items@);
        Some(r)
    }
}

impl<const R: usize, const C: usize> Fold for MatrixMN<R, C> {
    fn fold<U, F: Fn(U, i64) -> U>(self, seed: U, f: F) -> (r: U) {
        let mut acc = seed;
        let ghost mut steps: Seq<U> = seq![seed];
        let ghost s = self.items();
        let mut j: usize = 0;
        while j < C
            invariant
                0 <= j <= C,
                s == self.items(),
                forall|acc: U, x: i64| f.requires((acc, x)),
                steps.len() == j * R + 1,
                steps[0] == seed,
                steps[j * R] == acc,
                forall|k: int| 0 <= k < j * R ==> #[trigger] f.ensures((steps[k], s[k]), steps[k + 1]),
            decreases C - j,
        {
            let mut i: usize = 0;
            while i < R
                invariant
                    0 <= i <= R,
                    j < C,
                    s == self.items(),
                    forall|acc: U, x: i64| f.requires((acc, x)),
                    steps.len() == j * R + i + 1,
                    steps[0] == seed,
                    steps[j * R + i] == acc,
                    forall|k: int| 0 <= k < j * R + i ==> #[trigger] f.ensures((steps[k], s[k]), steps[k + 1]),
                decreases R - i,
            {
                proof {
                    lemma_flat_index(R as nat, C as nat, j as int, i as int);
                }
                let next = f(acc, self.columns[j].items[i]);
                proof {
                    steps = steps.push(next);
                }
                acc = next;
                i = i + 1;
            }
            assert((j + 1) * R == j * R + R) by (nonlinear_arith);
            j = j + 1;
        }
        assert(C * R == R * C) by (nonlinear_arith);
        assert(is_fold_result(s, seed, f, acc)) by {
            assert(steps.len() == s.len() + 1);
        }
        acc
    }
}

} // verus!
