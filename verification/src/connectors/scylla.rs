//! The snapshot-polling connector.
//!
//! The wide-column source offers no change-log access here; instead,
//! once per poll interval the surrounding process performs a bounded row
//! scan per tracked table and reports how many rows it saw.  One
//! placeholder update event is synthesized per row — periodic sampling,
//! a materially weaker consistency model than the log-based connector's,
//! kept as such on purpose.

use crate::cdc::events::{
    cols_model, ChangeEvent, ChangeOperation, ColumnValue, EventCore, ValModel,
};
use crate::config::DatabaseConfig;
use vstd::prelude::*;
use vstd::string::*;

verus! {

/// What every synthesized snapshot event of one table holds: an update
/// with a placeholder primary key and a payload naming the table.
pub open spec fn spec_snapshot_core(db: Seq<char>, table: Seq<char>) -> EventCore {
    EventCore {
        database: db,
        table: table,
        operation: ChangeOperation::Update,
        before: None,
        after: Some(seq![("table"@, ValModel::Str(table))]),
        primary_key: seq![("id"@, ValModel::Str("cdc"@))],
        transaction_id: None,
    }
}

/// Synthesizes change events for one database by periodic row scans.
pub struct ScyllaConnector {
    pub config: DatabaseConfig,
}

impl ScyllaConnector {
    pub fn new(config: DatabaseConfig) -> (c: ScyllaConnector)
        ensures
            c.config == config,
    {
        ScyllaConnector { config }
    }

    /// One poll of one table that scanned `row_count` rows: one
    /// placeholder update event per row.
    pub fn snapshot_events(&self, table: &str, row_count: usize) -> (r: Vec<ChangeEvent>)
        ensures
            r@.len() == row_count,
            forall|k: int|
                0 <= k < r@.len() ==> r@[k].core_model() == spec_snapshot_core(
                    self.config.name@,
                    table@,
                ),
    {
        let mut r: Vec<ChangeEvent> = Vec::new();
        let mut i: usize = 0;
        while i < row_count
            invariant
                i <= row_count,
                r@.len() == i,
                forall|k: int|
                    0 <= k < i ==> r@[k].core_model() == spec_snapshot_core(
                        self.config.name@,
                        table@,
                    ),
            decreases row_count - i,
        {
            let mut pk: Vec<(String, ColumnValue)> = Vec::new();
            pk.push((String::from_str("id"), ColumnValue::Str(String::from_str("cdc"))));
            let mut after: Vec<(String, ColumnValue)> = Vec::new();
            after.push((String::from_str("table"), ColumnValue::Str(String::from_str(table))));
            let e = ChangeEvent::new(
                self.config.name.clone(),
                String::from_str(table),
                ChangeOperation::Update,
                None,
                Some(after),
                pk,
            );
            proof {
                assert(cols_model(e.primary_key@) =~= spec_snapshot_core(
                    self.config.name@,
                    table@,
                ).primary_key);
                assert(cols_model(e.after->Some_0@) =~= spec_snapshot_core(
                    self.config.name@,
                    table@,
                ).after->Some_0);
            }
            r.push(e);
            i += 1;
        }
        r
    }
}

} // verus!
