//! Promotion of a value to process lifetime.
use vstd::prelude::*;

verus! {

/// Relies on `Box::leak`: the boxed value is never freed, so the returned
/// reference stays valid for the rest of the process and points at the
/// value the box held.
#[verifier::external_body]
pub(crate) fn leak<T: 'static>(b: Box<T>) -> (r: &'static T)
    ensures
        *r == *b,
{
    Box::leak(b)
}

/// Moves `value` to a heap allocation that is never released.
pub fn promote<T: 'static>(value: T) -> (r: &'static T)
    ensures
        *r == value,
{
    leak(Box::new(value))
}

} // verus!
