//! Points of a fixed dimension `N`: locations, translated by vectors.
use vstd::prelude::*;

use crate::adjunct::{
    constant_seq, Adjunct, Converged, Extend, Fold, FromItems, IntoItems, MapItems, Truncate,
    ZipMap,
};
use crate::ops::{Blend, Interpolate};
use crate::space::{AffineSpace, EuclideanSpace, FiniteDimensional};
use crate::vector::Vector;

verus! {

/// A location with `N` coordinates relative to the origin.
#[derive(Clone, Copy, Debug, PartialEq, Eq)]
pub struct Point<const N: usize> {
    pub coords: Vector<N>,
}

impl<const N: usize> View for Point<N> {
    type V = Seq<i64>;

    open spec fn view(&self) -> Seq<i64> {
        self.coords@
    }
}

impl<const N: usize> Point<N> {
    /// The point with the given coordinates.
    pub fn new(items: [i64; N]) -> (r: Self)
        ensures
            r@ == items@,
    {
        Point { coords: Vector::new(items) }
    }

    /// The point itself, seen as a position.
    pub fn as_position(&self) -> (r: &Self)
        ensures
            *r == *self,
    {
        self
    }

    /// The point itself, seen as a position that may be moved.
    pub fn as_position_mut(&mut self) -> (r: &mut Self)
        ensures
            *r == *old(self),
            *final(r) == *final(self),
    {
        self
    }
}

impl<const N: usize> Adjunct for Point<N> {
    open spec fn arity() -> nat {
        N as nat
    }

    open spec fn items(&self) -> Seq<i64> {
        self@
    }

    proof fn lemma_items_len(&self) {
    }

    proof fn lemma_items_determine(&self, other: &Self) {
        self.coords.lemma_items_determine(&other.coords);
    }
}

impl<const N: usize> Converged for Point<N> {
    fn converged(value: i64) -> (r: Self) {
        Point { coords: Vector::converged(value) }
    }
}

impl<const N: usize> Fold for Point<N> {
    fn fold<U, F: Fn(U, i64) -> U>(self, seed: U, f: F) -> (r: U) {
        self.coords.fold(seed, f)
    }
}

impl<const N: usize> FromItems for Point<N> {
    fn from_items(items: &[i64]) -> (r: Option<Self>) {
        match Vector::from_items(items) {
            Some(coords) => Some(Point { coords }),
            None => None,
        }
    }
}

impl<const N: usize> IntoItems for Point<N> {
    fn into_items(self) -> (r: Vec<i64>) {
        self.coords.into_items()
    }
}

impl<const N: usize> MapItems for Point<N> {
    fn map<F: Fn(i64) -> i64>(self, f: F) -> (r: Self) {
        Point { coords: self.coords.map(f) }
    }
}

impl<const N: usize> ZipMap for Point<N> {
    fn zip_map<F: Fn(i64, i64) -> i64>(self, other: Self, f: F) -> (r: Self) {
        Point { coords: self.coords.zip_map(other.coords, f) }
    }
}

impl<const N: usize> Interpolate for Point<N> {
    fn lerp(self, other: Self, f: Blend) -> (r: Self) {
        Point { coords: self.coords.lerp(other.coords, f) }
    }
}

impl Extend<Point<1>> for Point<0> {
    fn extend(self, x: i64) -> (r: Point<1>) {
        Point { coords: self.coords.extend(x) }
    }
}

impl Extend<Point<2>> for Point<1> {
    fn extend(self, x: i64) -> (r: Point<2>) {
        Point { coords: self.coords.extend(x) }
    }
}

impl Extend<Point<3>> for Point<2> {
    fn extend(self, x: i64) -> (r: Point<3>) {
        Point { coords: self.coords.extend(x) }
    }
}

impl Extend<Point<4>> for Point<3> {
    fn extend(self, x: i64) -> (r: Point<4>) {
        Point { coords: self.coords.extend(x) }
    }
}

impl Truncate<Point<0>> for Point<1> {
    fn truncate(self) -> (r: (Point<0>, i64)) {
        let (coords, x) = self.coords.truncate();
        (Point { coords }, x)
    }
}

impl Truncate<Point<1>> for Point<2> {
    fn truncate(self) -> (r: (Point<1>, i64)) {
        let (coords, x) = self.coords.truncate();
        (Point { coords }, x)
    }
}

impl Truncate<Point<2>> for Point<3> {
    fn truncate(self) -> (r: (Point<2>, i64)) {
        let (coords, x) = self.coords.truncate();
        (Point { coords }, x)
    }
}

impl Truncate<Point<3>> for Point<4> {
    fn truncate(self) -> (r: (Point<3>, i64)) {
        let (coords, x) = self.coords.truncate();
        (Point { coords }, x)
    }
}

impl<const N: usize> FiniteDimensional for Point<N> {
}

impl<const N: usize> AffineSpace for Point<N> {
    type Translation = Vector<N>;
}

impl<const N: usize> EuclideanSpace for Point<N> {
    fn origin() -> (r: Self) {
        let r = Point { coords: Vector::zeros() };
        assert(r@ =~= constant_seq(N as nat, 0));
        r
    }

    fn into_coordinates(self) -> (r: Vector<N>) {
        self.coords
    }
}

} // verus!
