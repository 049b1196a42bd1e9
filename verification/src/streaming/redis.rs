//! The stream-store sink.
//!
//! For each event the sink computes a destination stream from the
//! configured prefix and the event's database and table, serializes the
//! event to the wire payload, and — when a maximum length is configured
//! — has an approximate trim to that bound issued after every append.
//! The surrounding process performs the append and trim calls.

use crate::cdc::events::{spec_topic_name, ChangeEvent};
use crate::codec::{to_wire, wire_of};
use crate::config::RedisConfig;
use vstd::prelude::*;
use vstd::string::*;

verus! {

/// One append: destination stream, payload, the event identifier for
/// the auxiliary field, and the approximate bound to trim to afterwards,
/// if one is configured.
#[derive(Debug, PartialEq)]
pub struct StreamAppend {
    pub stream: String,
    pub payload: String,
    pub event_id: String,
    pub trim_to: Option<usize>,
}

/// Publishes change events onto streams of a key-value store.
pub struct RedisStreamer {
    pub config: RedisConfig,
}

impl RedisStreamer {
    pub fn new(config: RedisConfig) -> (s: RedisStreamer)
        ensures
            s.config == config,
    {
        RedisStreamer { config }
    }

    /// The append for one event: stream
    /// `<stream_prefix>.cdc.<database>.<table>`, the wire payload, the
    /// event identifier, and — exactly when a maximum length is
    /// configured — a trim to that length after the append.
    pub fn prepare_append(&self, e: &ChangeEvent) -> (r: StreamAppend)
        ensures
            r.stream@ == self.config.stream_prefix@ + "."@ + spec_topic_name(
                e.database@,
                e.table@,
            ),
            r.payload@ == wire_of(e.model()),
            r.event_id@ == e.id@,
            r.trim_to == self.config.max_len,
    {
        let mut stream = self.config.stream_prefix.clone();
        stream.append(".");
        let tn = e.topic_name();
        stream.append(tn.as_str());
        assert(stream@ =~= self.config.stream_prefix@ + "."@ + spec_topic_name(
            e.database@,
            e.table@,
        ));
        let trim_to = match self.config.max_len {
            Some(n) => Some(n),
            None => None,
        };
        StreamAppend { stream, payload: to_wire(e), event_id: e.id.clone(), trim_to }
    }
}

} // verus!
