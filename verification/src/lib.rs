//! A minimal work-distribution primitive: a dispatcher hands units of work to a
//! fixed pool of long-lived workers over per-worker channels and collects tagged
//! results over one shared channel.
//!
//! The verified core is the dispatcher's bookkeeping: which workers are free,
//! how the caller blocks when none are, and how finished results are buffered
//! and drained in order. The channels themselves and the threads that run the
//! workers are outside collaborators; the library talks to the channels through
//! a small set of trusted wrappers.
//!
//! A single caller thread drives the dispatcher: its free list and result
//! buffer are plain fields behind `&mut self`, so exclusive access is enforced
//! by ownership, and workers reach the dispatcher only through the shared
//! result channel. Multi-producer dispatch is deliberately not offered.

pub mod channel;
pub mod dispatcher;
pub mod model;
pub mod msg;
pub mod worker;
