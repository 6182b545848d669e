//! An event broadcaster: listeners register in order, producers deliver each
//! event to every registered, not-yet-finished listener in registration order.
//!
//! The bookkeeping (the listener arena, the emission cursor, and the per-dispatch
//! control value) lives here and is verified; locking, wakers and futures live
//! with the caller.

pub mod flow;
pub mod listener;
pub mod list;
pub mod emitter;
pub mod once;
pub mod dispatch;
pub mod handle;
