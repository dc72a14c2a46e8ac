//! Handles through which a storage reaches what it works on.
//!
//! A storage is granted either shared or exclusive access to its data for
//! the time of one access window. These two traits say what such a handle
//! must offer: the value it stands for, and a reference to it.

use vstd::prelude::*;

verus! {

/// A handle that gives shared access to a value.
pub trait Shared {
    /// Type of the value behind the handle.
    type Target;

    /// The value behind the handle.
    spec fn target(&self) -> Self::Target;

    /// Borrows the value behind the handle.
    fn shared(&self) -> (r: &Self::Target)
        ensures
            *r == self.target(),
    ;
}

/// A handle that gives exclusive access to a value.
pub trait Exclusive: Shared {
    /// Borrows the value behind the handle for writing. The handle then
    /// stands for whatever the borrower leaves behind.
    fn exclusive(&mut self) -> (r: &mut Self::Target)
        ensures
            *r == old(self).target(),
            final(self).target() == *final(r),
    ;
}

impl<X> Shared for Box<X> {
    type Target = X;

    open spec fn target(&self) -> X {
        **self
    }

    fn shared(&self) -> (r: &X) {
        &**self
    }
}

impl<X> Exclusive for Box<X> {
    fn exclusive(&mut self) -> (r: &mut X) {
        &mut **self
    }
}

impl<'a, X> Shared for &'a X {
    type Target = X;

    open spec fn target(&self) -> X {
        **self
    }

    fn shared(&self) -> (r: &X) {
        &**self
    }
}

impl<'a, X> Shared for &'a mut X {
    type Target = X;

    open spec fn target(&self) -> X {
        **self
    }

    fn shared(&self) -> (r: &X) {
        &**self
    }
}

impl<'a, X> Exclusive for &'a mut X {
    fn exclusive(&mut self) -> (r: &mut X) {
        &mut **self
    }
}

} // verus!
