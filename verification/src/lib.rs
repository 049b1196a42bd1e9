//! Change-data-capture streaming library.
//!
//! Row-level changes observed in source databases are converted into
//! canonical change events, fanned into a bounded in-process channel, and
//! drained by a streaming sink that computes per-event destination
//! addressing.  Everything here is pure logic: the surrounding process
//! performs the network I/O and hands plain values in and out.

pub mod cdc;
pub mod channel;
pub mod codec;
pub mod config;
pub mod connectors;
pub mod streaming;

use vstd::prelude::*;

verus! {

/// Capacity of the bounded in-process channel between a connector's
/// producer task and a sink's consumer task.
pub const CHANNEL_CAPACITY: usize = 1000;

} // verus!
