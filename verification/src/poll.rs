//! What polling gives.
use vstd::prelude::*;

verus! {

/// The outcome of polling something that may have to be waited for.
#[derive(Debug, PartialEq, Eq)]
pub enum Polled<T> {
    /// It is there.
    Ready(T),
    /// It is not there yet, and the task will be woken when to ask again.
    Pending,
}

} // verus!
