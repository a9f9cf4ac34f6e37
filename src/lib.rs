//! Equality for trait objects.
//!
//! A trait that has [`DynEq`] as a supertrait can be compared through its
//! trait objects: two handles are equal when the values behind them have the
//! same concrete type and are equal under that type's own `==`.
//!
//! The [`expand`] module plans the operator impls that make `==` work on such
//! a trait's objects, for each combination of the `Send` and `Sync` markers.
pub mod erasure;
pub mod expand;

pub use erasure::{compare_peer, handles_eq, DynEq, Erased, Sealed};
