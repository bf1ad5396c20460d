//! Per-operation kill switches.

use vstd::prelude::*;

verus! {

/// Which operations an administrator has suspended.
#[derive(Clone, Copy, Debug, PartialEq, Eq, Structural)]
pub struct Suspension {
    pub suspend_push: bool,
    pub suspend_poll: bool,
    pub suspend_update: bool,
    pub suspend_delete: bool,
}

impl Suspension {
    /// Nothing suspended.
    pub open spec fn none() -> Suspension {
        Suspension {
            suspend_push: false,
            suspend_poll: false,
            suspend_update: false,
            suspend_delete: false,
        }
    }

    /// Nothing suspended.
    pub fn new() -> (s: Suspension)
        ensures
            s == Suspension::none(),
    {
        Suspension {
            suspend_push: false,
            suspend_poll: false,
            suspend_update: false,
            suspend_delete: false,
        }
    }

    pub fn is_push_suspended(&self) -> (suspended: bool)
        ensures
            suspended == self.suspend_push,
    {
        self.suspend_push
    }

    pub fn is_poll_suspended(&self) -> (suspended: bool)
        ensures
            suspended == self.suspend_poll,
    {
        self.suspend_poll
    }

    pub fn is_update_suspended(&self) -> (suspended: bool)
        ensures
            suspended == self.suspend_update,
    {
        self.suspend_update
    }

    pub fn is_delete_suspended(&self) -> (suspended: bool)
        ensures
            suspended == self.suspend_delete,
    {
        self.suspend_delete
    }
}

} // verus!
