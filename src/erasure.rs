//! The capability that lets every type with total equality be compared
//! through a type-erased handle.
use vstd::prelude::*;
use vstd::std_specs::cmp::PartialEqSpec;

verus! {

/// Marks the types that already have `==`; the blanket [`DynEq`] impl is
/// given only to those.
pub trait Sealed {}

impl<T: PartialEq> Sealed for T {}

/// A reference whose concrete type is known only at run time.
///
/// It is made by [`DynEq::as_any`] and read back, at a named type, by the
/// checked comparison. Its one field is a `&dyn core::any::Any`, a type that
/// Verus cannot hold, so the struct is opaque to the proofs.
#[verifier::external_body]
pub struct Erased<'a> {
    any: &'a dyn core::any::Any,
}

/// Relies on the unsizing of `&T` to `&dyn core::any::Any`, which keeps the
/// value and records `T` as its runtime type.
#[verifier::external_body]
fn erase<'a, T: 'static>(x: &'a T) -> Erased<'a> {
    Erased { any: x }
}

/// Relies on `<dyn core::any::Any>::downcast_ref`: the value itself when its
/// runtime type is `T`, `None` otherwise, never a panic. The contract states
/// none of this, as it would have to name a type; the callers are verified
/// for every result.
#[verifier::external_body]
fn downcast<'a, T: 'static>(e: &Erased<'a>) -> Option<&'a T> {
    e.any.downcast_ref::<T>()
}

/// Comparison through a type-erased handle.
///
/// Every `T: Eq + 'static` has it; it is not meant to be implemented by hand.
/// A trait `Tr: DynEq` gets `==` on its objects from impls of the shape
///
/// ```ignore
/// impl<'eq> PartialEq for dyn Tr + 'eq {
///     fn eq(&self, other: &Self) -> bool {
///         self.dyn_eq(other.as_any())
///     }
/// }
/// impl<'eq> Eq for dyn Tr + 'eq {}
/// ```
///
/// repeated for each marker combination that [`crate::expand::plan_impls`]
/// lists.
pub trait DynEq {
    /// This value as a handle that hides its concrete type.
    fn as_any(&self) -> Erased<'_>;

    /// Whether `other` holds a value of this value's type that is equal to it.
    fn dyn_eq(&self, other: Erased<'_>) -> bool;
}

/// What the checked comparison returns once the peer has been looked at as
/// a `T`: a peer of another type (`None`) is unequal, one of this type
/// compares by `T`'s own equality.
pub open spec fn peer_equal<T: PartialEq>(this: &T, peer: Option<&T>) -> bool {
    match peer {
        Some(p) => this.eq_spec(p),
        None => false,
    }
}

/// The checked comparison after the guarded downcast.
pub fn compare_peer<T: PartialEq>(this: &T, peer: Option<&T>) -> (r: bool)
    ensures
        peer is None ==> !r,
        T::obeys_eq_spec() ==> r == peer_equal(this, peer),
{
    match peer {
        Some(p) => *this == *p,
        None => false,
    }
}

impl<T: Eq + Sealed + 'static> DynEq for T {
    fn as_any(&self) -> Erased<'_> {
        erase(self)
    }

    fn dyn_eq(&self, other: Erased<'_>) -> bool {
        compare_peer(self, downcast::<T>(&other))
    }
}

/// The equality installed on a trait's objects: erase the right-hand side
/// and let the left-hand side compare against it.
pub fn handles_eq(a: &dyn DynEq, b: &dyn DynEq) -> bool {
    a.dyn_eq(b.as_any())
}

/// `T`'s own `==` is an equivalence relation, and `eq_spec` is what it
/// computes.
pub open spec fn total_eq<T: PartialEq>() -> bool {
    &&& T::obeys_eq_spec()
    &&& forall|x: &T| #[trigger] x.eq_spec(x)
    &&& forall|x: &T, y: &T| #[trigger] x.eq_spec(y) == y.eq_spec(x)
    &&& forall|x: &T, y: &T, z: &T|
        #[trigger] x.eq_spec(y) && #[trigger] y.eq_spec(z) ==> x.eq_spec(z)
}

/// A value compares equal to itself through its handle.
pub proof fn lemma_reflexive<T: PartialEq>(x: &T)
    requires
        total_eq::<T>(),
    ensures
        peer_equal(x, Some(x)),
{
    assert(x.eq_spec(x));
}

/// Between two values of one type the comparison is symmetric, and agrees
/// with the type's own `==`.
pub proof fn lemma_symmetric<T: PartialEq>(x: &T, y: &T)
    requires
        total_eq::<T>(),
    ensures
        peer_equal(x, Some(y)) == peer_equal(y, Some(x)),
        peer_equal(x, Some(y)) == x.eq_spec(y),
{
    assert(x.eq_spec(y) == y.eq_spec(x));
}

/// Between values of one type the comparison is transitive.
pub proof fn lemma_transitive<T: PartialEq>(x: &T, y: &T, z: &T)
    requires
        total_eq::<T>(),
        peer_equal(x, Some(y)),
        peer_equal(y, Some(z)),
    ensures
        peer_equal(x, Some(z)),
{
    assert(x.eq_spec(y) && y.eq_spec(z));
}

/// A peer that is not of the receiver's type compares unequal, whatever
/// either value holds.
pub proof fn lemma_foreign_peer_unequal<T: PartialEq>(x: &T)
    ensures
        !peer_equal(x, None),
{
}

} // verus!
