//! A driver that runs one suspendable computation to completion on the
//! calling thread, with no scheduler, no allocation and no blocking
//! primitive: a shared wake flag, handles that set it, and a loop that polls,
//! waits for the flag and polls again.
//!
//! - `wake`: the flag and the handles that notify it.
//! - `driver`: the loop's decisions, a state machine from state and event to
//!   next state and action.
//! - `trace`: runs of that machine over sequences of events, and their laws.
//! - `history`: the flag as a history of atomic operations, and its laws.
pub mod driver;
pub mod history;
pub mod trace;
pub mod wake;

pub use driver::{Action, Driver, Event, Phase, TaskPoll};
pub use wake::{WakeFlag, WakeHandle};
