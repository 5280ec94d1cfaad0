//! A monitor-style condition variable, verified.
//!
//! A thread that waits on a [`CondVar`] registers itself on the variable's
//! [`WaitQueue`], releases the [`Lock`] it holds, sleeps until it is notified or
//! signalled, and takes the lock again before it goes on. The library holds every
//! decision of that protocol as a deterministic step function over plain state;
//! blocking a thread and resuming it is left to the runtime that drives the steps.
//! The `monitor` module puts the lock, the queue and the threads into one state
//! and says what each step does to it; the `laws` module proves what the protocol
//! guarantees under every interleaving of such steps: no wakeup is missed, and
//! the lock is held again when a wait returns.

pub mod waiter;
pub mod queue;
pub mod lock;
pub mod task;
pub mod condvar;
pub mod monitor;
pub mod laws;

pub use crate::condvar::{CondVar, WaitAction};
pub use crate::lock::Lock;
pub use crate::queue::WaitQueue;
pub use crate::task::{Task, WaitPhase};
pub use crate::waiter::{WaiterEntry, WakeReason, Wakeup};
