//! A terminal dashboard toggle: rendering follows elsewhere; the library
//! tracks only whether it is on.

use vstd::prelude::*;

verus! {

/// Whether the terminal dashboard renders.
pub struct Dashboard {
    enabled: bool,
}

impl Dashboard {
    /// Whether rendering is on.
    pub closed spec fn is_on(&self) -> bool {
        self.enabled
    }

    /// A dashboard that starts disabled.
    pub fn new() -> (r: Self)
        ensures
            !r.is_on(),
    {
        Dashboard { enabled: false }
    }

    /// Turn rendering on.
    pub fn enable(&mut self)
        ensures
            final(self).is_on(),
    {
        self.enabled = true;
    }

    /// Turn rendering off.
    pub fn disable(&mut self)
        ensures
            !final(self).is_on(),
    {
        self.enabled = false;
    }

    /// Whether rendering is on.
    pub fn is_enabled(&self) -> (r: bool)
        ensures
            r == self.is_on(),
    {
        self.enabled
    }
}

} // verus!
