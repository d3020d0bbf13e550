//! The decisions of the drive loop, as a state machine from a state and an
//! event to the next state and the action to perform.
//!
//! The loop itself, which polls the task and reads the wake flag, runs outside
//! the library: it performs each action, and feeds back what came of it.
use vstd::prelude::*;

verus! {

/// What one poll of the task gave.
pub enum TaskPoll<T> {
    Ready(T),
    Suspended,
}

/// Where the drive loop stands.
#[derive(Clone, Copy, Debug, PartialEq, Eq, Structural)]
pub enum Phase {
    /// The task is to be polled.
    Polling,
    /// The task suspended: the wake flag is to be read and cleared until it
    /// is seen set.
    Waiting,
    /// The task completed and its value was handed back.
    Done,
}

/// What the loop reports back to the driver.
pub enum Event<T> {
    /// The task was polled, with this outcome.
    Polled(TaskPoll<T>),
    /// The wake flag was read and cleared; it held this value.
    Woken(bool),
}

/// What the driver asks the loop to do next.
pub enum Action<T> {
    /// Poll the task.
    Poll,
    /// Read and clear the wake flag.
    Check,
    /// Give the processor a spin hint, then read and clear the wake flag.
    Spin,
    /// Hand this value to the caller: the drive call is over.
    Return(T),
}

/// The state of one drive call: its phase, and how many polls and spin
/// iterations it has made (each count stops at `u64::MAX`).
#[derive(Clone, Copy, Debug, PartialEq, Eq, Structural)]
pub struct Driver {
    pub phase: Phase,
    pub polls: u64,
    pub spins: u64,
}

/// `n + 1`, held at `u64::MAX`.
pub open spec fn bump(n: u64) -> u64 {
    if n < u64::MAX {
        (n + 1) as u64
    } else {
        n
    }
}

/// The action that answers an event.
pub open spec fn reaction<T>(e: Event<T>) -> Action<T> {
    match e {
        Event::Polled(TaskPoll::Ready(v)) => Action::Return(v),
        Event::Polled(TaskPoll::Suspended) => Action::Check,
        Event::Woken(true) => Action::Poll,
        Event::Woken(false) => Action::Spin,
    }
}

fn bump_count(n: u64) -> (r: u64)
    ensures
        r == bump(n),
{
    if n < u64::MAX {
        n + 1
    } else {
        n
    }
}

impl Driver {
    /// The state at the start of a drive call: the task is to be polled.
    pub open spec fn initial() -> Driver {
        Driver { phase: Phase::Polling, polls: 0, spins: 0 }
    }

    /// Whether the loop may report `e` in this state: a poll outcome while
    /// polling, a flag read while waiting, nothing once done.
    pub open spec fn accepts<T>(self, e: Event<T>) -> bool {
        match e {
            Event::Polled(_) => self.phase == Phase::Polling,
            Event::Woken(_) => self.phase == Phase::Waiting,
        }
    }

    /// The state after `e`.
    pub open spec fn next<T>(self, e: Event<T>) -> Driver {
        match e {
            Event::Polled(TaskPoll::Ready(_)) => Driver {
                phase: Phase::Done,
                polls: bump(self.polls),
                ..self
            },
            Event::Polled(TaskPoll::Suspended) => Driver {
                phase: Phase::Waiting,
                polls: bump(self.polls),
                ..self
            },
            Event::Woken(true) => Driver { phase: Phase::Polling, ..self },
            Event::Woken(false) => Driver { spins: bump(self.spins), ..self },
        }
    }

    /// A fresh drive call: the first action is to poll the task.
    pub fn new() -> (r: Driver)
        ensures
            r == Driver::initial(),
    {
        Driver { phase: Phase::Polling, polls: 0, spins: 0 }
    }

    /// Whether this state takes `e` (see `accepts`).
    pub fn expects<T>(&self, e: &Event<T>) -> (r: bool)
        ensures
            r == self.accepts(*e),
    {
        match e {
            Event::Polled(_) => self.phase == Phase::Polling,
            Event::Woken(_) => self.phase == Phase::Waiting,
        }
    }

    /// Moves on by one event and says what to do next. A completed poll ends
    /// the call with the task's value; a suspended one sends the loop to the
    /// wake flag; a set flag sends it back to polling (spurious or not); a
    /// clear one, to spin and read it again.
    pub fn step<T>(&mut self, e: Event<T>) -> (r: Action<T>)
        requires
            old(self).accepts(e),
        ensures
            *final(self) == old(self).next(e),
            r == reaction(e),
    {
        match e {
            Event::Polled(TaskPoll::Ready(v)) => {
                self.phase = Phase::Done;
                self.polls = bump_count(self.polls);
                Action::Return(v)
            },
            Event::Polled(TaskPoll::Suspended) => {
                self.phase = Phase::Waiting;
                self.polls = bump_count(self.polls);
                Action::Check
            },
            Event::Woken(true) => {
                self.phase = Phase::Polling;
                Action::Poll
            },
            Event::Woken(false) => {
                self.spins = bump_count(self.spins);
                Action::Spin
            },
        }
    }
}

} // verus!
