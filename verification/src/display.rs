//! Values in the form in which they are put into an error message.
use vstd::prelude::*;

verus! {

/// What is put into a message as it is.
pub trait DisplayAsDisplay: Sized {
    /// The value itself.
    fn as_display(&self) -> (shown: Self)
        ensures
            shown == *self,
    ;
}

impl<T: core::fmt::Display> DisplayAsDisplay for &T {
    fn as_display(&self) -> (shown: Self) {
        *self
    }
}

} // verus!
