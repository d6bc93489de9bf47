//! Algebraic structure on aggregates: vector, affine and Euclidean spaces,
//! bases and homogeneous embeddings.
use vstd::prelude::*;

use crate::adjunct::Adjunct;
use crate::matrix::{identity_of, row_of, transpose_of};

verus! {

/// What `scalar_component(index)` returns for components `s`.
pub open spec fn component_at(s: Seq<i64>, index: int) -> Option<i64> {
    if 0 <= index < s.len() {
        Some(s[index])
    } else {
        None
    }
}

/// The `i`-th standard unit vector of dimension `n`: 1 at position `i`, 0
/// elsewhere.
pub open spec fn unit_seq(n: nat, i: int) -> Seq<i64> {
    Seq::new(n, |j: int| if j == i { 1i64 } else { 0i64 })
}

/// A space closed under component-wise addition and scalar multiplication,
/// whose scalars can be read by index.
pub trait VectorSpace: Adjunct {
    /// The scalar at `index`, or `None` when `index` is not below the
    /// dimension.
    fn scalar_component(&self, index: usize) -> (r: Option<i64>)
        ensures
            r == component_at(self.items(), index as int),
    ;
}

/// A space with the standard unit vectors as its basis.
pub trait Basis: Adjunct {
    /// The unit vectors in index order.
    fn canonical_basis() -> (r: Vec<Self>)
        ensures
            r@.len() == Self::arity(),
            forall|i: int| 0 <= i < r@.len() ==> (#[trigger] r@[i]).items() == unit_seq(Self::arity(), i),
    ;

    /// The `index`-th unit vector, or `None` when `index` is not below the
    /// dimension.
    fn canonical_basis_component(index: usize) -> (r: Option<Self>)
        ensures
            r is Some <==> index < Self::arity(),
            r matches Some(v) ==> v.items() == unit_seq(Self::arity(), index as int),
    ;
}

/// A space of a dimension fixed by its type, `arity()`.
pub trait FiniteDimensional: Adjunct {
}

/// A vector space with an inner product.
pub trait InnerSpace: VectorSpace + crate::ops::Dot {
}

/// A space of locations that can be translated by vectors of type
/// `Translation`, of the same dimension.
pub trait AffineSpace: Adjunct {
    type Translation: Adjunct;
}

/// An affine space with a designated origin and coordinates relative to it.
pub trait EuclideanSpace: AffineSpace {
    /// The point whose components are all zero.
    fn origin() -> (r: Self)
        ensures
            r.items() == crate::adjunct::constant_seq(Self::arity(), 0),
    ;

    /// The displacement from the origin to this point.
    fn into_coordinates(self) -> (r: Self::Translation)
        ensures
            r.items() == self.items(),
    ;
}

/// A space embedded, for projective transforms, in one of one more dimension.
pub trait Homogeneous: Adjunct {
    type ProjectiveSpace: Adjunct;
}

/// A matrix of `row_count()` rows and `column_count()` columns, whose rows
/// and columns can be read by index.
pub trait Matrix: Sized {
    type Row: Adjunct;

    type Column: Adjunct;

    spec fn row_count() -> nat;

    spec fn column_count() -> nat;

    /// The columns, each listed from top to bottom.
    spec fn columns(&self) -> Seq<Seq<i64>>;

    /// The row at `index`, read left to right, or `None` when `index` is not
    /// below the row count.
    fn row_component(&self, index: usize) -> (r: Option<Self::Row>)
        ensures
            r is Some <==> index < Self::row_count(),
            r matches Some(v) ==> v.items() == row_of(self.columns(), index as int),
    ;

    /// The column at `index`, or `None` when `index` is not below the column
    /// count.
    fn column_component(&self, index: usize) -> (r: Option<Self::Column>)
        ensures
            r is Some <==> index < Self::column_count(),
            r matches Some(v) ==> v.items() == self.columns()[index as int],
    ;
}

/// A matrix whose dual is its transpose.
pub trait DualSpace: Matrix {
    type Dual: Matrix;

    /// The matrix whose rows are the columns of this one.
    fn transpose(self) -> (r: Self::Dual)
        ensures
            r.columns() == transpose_of(self.columns(), Self::row_count()),
    ;
}

/// A square matrix, with a multiplicative identity.
pub trait SquareMatrix: Matrix {
    /// The matrix with ones on the diagonal and zeros elsewhere.
    fn multiplicative_identity() -> (r: Self)
        ensures
            r.columns() == identity_of(Self::row_count()),
    ;
}

} // verus!
