//! Component-wise operations on fixed-size aggregates, independent of any
//! algebraic meaning.
//!
//! Every aggregate has a fixed number of `i64` components, listed in a
//! canonical order by `items`. Contracts speak of that sequence.
use vstd::prelude::*;

verus! {

/// An aggregate of a fixed number of scalar components.
pub trait Adjunct: Sized {
    /// The number of components.
    spec fn arity() -> nat;

    /// The components in canonical order.
    spec fn items(&self) -> Seq<i64>;

    /// An aggregate always holds exactly `arity()` components.
    proof fn lemma_items_len(&self)
        ensures
            self.items().len() == Self::arity(),
    ;

    /// Two aggregates with the same components are the same value.
    proof fn lemma_items_determine(&self, other: &Self)
        requires
            self.items() == other.items(),
        ensures
            *self == *other,
    ;
}

/// The sequence of `n` copies of `value`.
pub open spec fn constant_seq(n: nat, value: i64) -> Seq<i64> {
    Seq::new(n, |i: int| value)
}

/// What `from_items` returns on `s`: an aggregate holding exactly `s` when it
/// has the right length, and nothing otherwise.
pub open spec fn is_from_items_result<A: Adjunct>(s: Seq<i64>, r: Option<A>) -> bool {
    &&& (r is Some <==> s.len() == A::arity())
    &&& (r matches Some(a) ==> a.items() == s)
}

/// Builds an aggregate whose every component is the same value.
pub trait Converged: Adjunct {
    fn converged(value: i64) -> (r: Self)
        ensures
            r.items() == constant_seq(Self::arity(), value),
    ;
}

/// Folds a function over the components, from first to last.
pub trait Fold: Adjunct {
    fn fold<U, F: Fn(U, i64) -> U>(self, seed: U, f: F) -> (r: U)
        requires
            forall|acc: U, x: i64| f.requires((acc, x)),
        ensures
            is_fold_result(self.items(), seed, f, r),
    ;
}

/// `r` is what folding `f` over `s` from `seed` can give: there is a chain of
/// accumulators from `seed` to `r`, each step allowed by `f`.
pub open spec fn is_fold_result<U, F: Fn(U, i64) -> U>(s: Seq<i64>, seed: U, f: F, r: U) -> bool {
    exists|steps: Seq<U>|
        {
            &&& steps.len() == s.len() + 1
            &&& steps[0] == seed
            &&& steps[s.len() as int] == r
            &&& forall|k: int|
                0 <= k < s.len() ==> #[trigger] f.ensures((steps[k], s[k]), steps[k + 1])
        }
}

/// Builds an aggregate from a sequence of exactly `arity()` components.
pub trait FromItems: Adjunct {
    fn from_items(items: &[i64]) -> (r: Option<Self>)
        ensures
            is_from_items_result(items@, r),
    ;
}

/// Lists the components in canonical order.
pub trait IntoItems: Adjunct {
    fn into_items(self) -> (r: Vec<i64>)
        ensures
            r@ == self.items(),
    ;
}

/// Applies a function to every component.
pub trait MapItems: Adjunct {
    fn map<F: Fn(i64) -> i64>(self, f: F) -> (r: Self)
        requires
            forall|x: i64| f.requires((x,)),
        ensures
            is_map_result(self.items(), f, r.items()),
    ;
}

/// `t` is what mapping `f` over `s` can give, component by component.
pub open spec fn is_map_result<F: Fn(i64) -> i64>(s: Seq<i64>, f: F, t: Seq<i64>) -> bool {
    &&& t.len() == s.len()
    &&& forall|i: int| 0 <= i < s.len() ==> #[trigger] f.ensures((s[i],), t[i])
}

/// Applies a function to the pairs of corresponding components of two
/// aggregates.
pub trait ZipMap: Adjunct {
    fn zip_map<F: Fn(i64, i64) -> i64>(self, other: Self, f: F) -> (r: Self)
        requires
            forall|x: i64, y: i64| f.requires((x, y)),
        ensures
            is_zip_map_result(self.items(), other.items(), f, r.items()),
    ;
}

/// `u` is what zipping `s` and `t` through `f` can give, component by
/// component.
pub open spec fn is_zip_map_result<F: Fn(i64, i64) -> i64>(
    s: Seq<i64>,
    t: Seq<i64>,
    f: F,
    u: Seq<i64>,
) -> bool {
    &&& u.len() == s.len()
    &&& forall|i: int| 0 <= i < s.len() ==> #[trigger] f.ensures((s[i], t[i]), u[i])
}

/// Appends one component, giving an aggregate of one more dimension.
pub trait Extend<T: Adjunct>: Adjunct {
    fn extend(self, x: i64) -> (r: T)
        ensures
            r.items() == self.items().push(x),
    ;
}

/// Removes the last component, giving an aggregate of one less dimension and
/// the component removed.
pub trait Truncate<T: Adjunct>: Adjunct {
    fn truncate(self) -> (r: (T, i64))
        ensures
            self.items().len() > 0,
            r.0.items() == self.items().drop_last(),
            r.1 == self.items().last(),
    ;
}

/// Rebuilding an aggregate from its own components, as `into_items` lists
/// them, gives back the aggregate: whatever `from_items` returns on them is
/// `Some(a)`.
pub proof fn lemma_from_items_round_trip<A: Adjunct>(a: A, r: Option<A>)
    requires
        is_from_items_result(a.items(), r),
    ensures
        r == Some(a),
{
    a.lemma_items_len();
    let b = r->Some_0;
    b.lemma_items_determine(&a);
}

/// Extending the truncation of an aggregate by the component removed gives
/// back the aggregate.
pub proof fn lemma_extend_truncated<A: Truncate<B>, B: Extend<A>>(v: A, t: B, x: i64, w: A)
    requires
        v.items().len() > 0,
        t.items() == v.items().drop_last(),
        x == v.items().last(),
        w.items() == t.items().push(x),
    ensures
        w == v,
{
    assert(w.items() =~= v.items());
    w.lemma_items_determine(&v);
}

/// Truncating an extended aggregate gives back the aggregate and the
/// component appended.
pub proof fn lemma_truncate_extended<A: Extend<B>, B: Truncate<A>>(v: A, x: i64, w: B, t: A, y: i64)
    requires
        w.items() == v.items().push(x),
        t.items() == w.items().drop_last(),
        y == w.items().last(),
    ensures
        t == v,
        y == x,
{
    assert(t.items() =~= v.items());
    t.lemma_items_determine(&v);
}

/// Mapping a function over a constant aggregate gives the constant aggregate
/// of the function's value: `map(converged(x), f) == converged(f(x))`, for an
/// `f` with a single result `y` at `x`.
pub proof fn lemma_map_converged<A: Adjunct, F: Fn(i64) -> i64>(x: i64, y: i64, f: F, c: A, r: A, d: A)
    requires
        f.ensures((x,), y),
        forall|z: i64| #[trigger] f.ensures((x,), z) ==> z == y,
        c.items() == constant_seq(A::arity(), x),
        is_map_result(c.items(), f, r.items()),
        d.items() == constant_seq(A::arity(), y),
    ensures
        r == d,
{
    r.lemma_items_len();
    assert forall|i: int| 0 <= i < A::arity() implies r.items()[i] == y by {
        assert(f.ensures((c.items()[i],), r.items()[i]));
    }
    assert(r.items() =~= d.items());
    r.lemma_items_determine(&d);
}

} // verus!
