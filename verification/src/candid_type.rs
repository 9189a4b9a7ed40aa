//! Types of the host language that know their wire type.

use crate::types::Type;
use vstd::prelude::*;

verus! {

/// A type of the host language that has a wire type.
pub trait CandidType {
    /// The wire type of `Self`. A type that refers to itself answers with
    /// an indirection node and registers its definition in an environment.
    fn ty() -> Type;
}

/// The wire type of the value `_v`: what `T::ty` returns.
pub fn get_type<T: CandidType>(_v: &T) -> (r: Type)
    ensures
        call_ensures(T::ty, (), r),
{
    T::ty()
}

} // verus!
