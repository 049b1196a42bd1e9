//! The broker sink.
//!
//! For each event the sink computes a destination topic from the
//! configured prefix and the event's database and table, serializes the
//! event to the wire payload, and keys the publish by the event
//! identifier.  The surrounding process performs the publish itself and
//! waits up to its fixed acknowledgment timeout.

use crate::cdc::events::{spec_topic_name, ChangeEvent};
use crate::codec::{to_wire, wire_of};
use crate::config::KafkaConfig;
use vstd::prelude::*;
use vstd::string::*;

verus! {

/// One publish: destination topic, publish key, payload.
#[derive(Debug, PartialEq)]
pub struct PublishRecord {
    pub topic: String,
    pub key: String,
    pub payload: String,
}

impl PublishRecord {
    /// What a publish for `e` under prefix `prefix` must hold.
    pub open spec fn is_for(&self, prefix: Seq<char>, e: ChangeEvent) -> bool {
        &&& self.topic@ == prefix + "."@ + spec_topic_name(e.database@, e.table@)
        &&& self.key@ == e.id@
        &&& self.payload@ == wire_of(e.model())
    }
}

/// Publishes change events to a log-structured broker.
pub struct KafkaStreamer {
    pub config: KafkaConfig,
}

impl KafkaStreamer {
    pub fn new(config: KafkaConfig) -> (s: KafkaStreamer)
        ensures
            s.config == config,
    {
        KafkaStreamer { config }
    }

    /// The publish for one event: topic
    /// `<topic_prefix>.cdc.<database>.<table>`, the event identifier as
    /// the key, the wire payload as the value.
    pub fn prepare_publish(&self, e: &ChangeEvent) -> (r: PublishRecord)
        ensures
            r.is_for(self.config.topic_prefix@, *e),
    {
        let mut topic = self.config.topic_prefix.clone();
        topic.append(".");
        let tn = e.topic_name();
        topic.append(tn.as_str());
        assert(topic@ =~= self.config.topic_prefix@ + "."@ + spec_topic_name(
            e.database@,
            e.table@,
        ));
        PublishRecord { topic, key: e.id.clone(), payload: to_wire(e) }
    }

    /// The publishes for a drained batch: every event is attempted
    /// exactly once, in arrival order, regardless of any earlier
    /// attempt's outcome.
    pub fn publish_plan(&self, events: &Vec<ChangeEvent>) -> (r: Vec<PublishRecord>)
        ensures
            r@.len() == events@.len(),
            forall|k: int|
                0 <= k < r@.len() ==> r@[k].is_for(self.config.topic_prefix@, events@[k]),
    {
        let mut r: Vec<PublishRecord> = Vec::new();
        let mut i: usize = 0;
        while i < events.len()
            invariant
                i <= events@.len(),
                r@.len() == i,
                forall|k: int|
                    0 <= k < i ==> r@[k].is_for(self.config.topic_prefix@, events@[k]),
            decreases events@.len() - i,
        {
            r.push(self.prepare_publish(&events[i]));
            i += 1;
        }
        r
    }
}

} // verus!
