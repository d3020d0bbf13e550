//! The wake flag of one drive call and the handles that notify it.
use core::sync::atomic::{AtomicBool, Ordering};
use vstd::prelude::*;

verus! {

/// The one shared boolean of a drive call: set by any notifier, read and
/// cleared by the driving thread alone.
///
/// Its value is written by other threads, so no contract here states what a
/// read returns; the laws of the flag's history are stated over a model of
/// its operations (see `history`).
pub struct WakeFlag {
    woke: AtomicBool,
}

impl WakeFlag {
    /// A flag that is not set.
    pub fn new() -> (r: WakeFlag) {
        WakeFlag { woke: AtomicBool::new(false) }
    }

    /// Sets the flag, with release ordering, so that the next acquiring read
    /// by the driving thread observes it.
    pub fn notify(&self) {
        self.woke.store(true, Ordering::Release);
    }

    /// Reads the flag and clears it in one atomic step; `true` when at least
    /// one notification came since the last clear.
    pub fn take(&self) -> (r: bool) {
        self.woke.swap(false, Ordering::AcqRel)
    }
}

/// A capability to notify one wake flag, without owning it: the borrow makes
/// the flag outlive every handle.
#[derive(Clone, Copy)]
pub struct WakeHandle<'a> {
    flag: &'a WakeFlag,
}

impl<'a> WakeHandle<'a> {
    /// The flag that this handle notifies.
    pub closed spec fn target(&self) -> &'a WakeFlag {
        self.flag
    }

    /// A handle bound to `flag`.
    pub fn new(flag: &'a WakeFlag) -> (r: WakeHandle<'a>)
        ensures
            r.target() == flag,
    {
        WakeHandle { flag }
    }

    /// The flag that this handle notifies.
    pub fn flag(&self) -> (r: &'a WakeFlag)
        ensures
            r == self.target(),
    {
        self.flag
    }

    /// A second handle on the same flag; allocates nothing and cannot fail.
    pub fn clone_handle(&self) -> (r: WakeHandle<'a>)
        ensures
            r.target() == self.target(),
    {
        WakeHandle { flag: self.flag }
    }

    /// Notifies the flag, consuming the handle.
    pub fn notify(self)
    {
        self.flag.notify();
    }

    /// Notifies the flag through a borrowed handle, with no clone.
    pub fn notify_by_ref(&self)
    {
        self.flag.notify();
    }

    /// Gives the handle up. The flag is borrowed, not owned, so this leaves it
    /// as it is.
    pub fn release(self)
    {
    }
}

} // verus!
