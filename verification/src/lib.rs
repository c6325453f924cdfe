//! A debounced, cancelable blink scheduler for a text-input caret.
//!
//! The scheduler decides; the host acts. Every entry point returns an
//! [`Effect`]: whether to repaint, and which continuation to run after which
//! delay. The host hands each continuation back through
//! [`BlinkCursor::fire`] when its timer expires. Timers are never canceled:
//! each carries the epoch it was scheduled under, and one whose epoch has
//! been superseded is inert when it fires.

pub mod cursor;
pub mod laws;
mod phases;
pub mod state;
pub mod timeline;

pub use cursor::{BlinkCursor, Effect, Timer};
pub use state::{
    Outcome, Phase, Request, Signal, State, Wakeup, BLINK_INTERVAL_MS, PAUSE_DELAY_MS,
};
