//! The log-based connector.
//!
//! The surrounding process drains the durable change cursor over its SQL
//! interface and hands each fetched row's text here.  Everything that
//! decides — decoding the change-log encoding, filtering untracked
//! tables, mapping change kinds, deriving the primary key — is verified
//! logic on plain values.

use crate::cdc::events::{
    clone_cols, clone_value, cols_model, opt_cols_model, ChangeEvent, ChangeOperation, ColsModel,
    ColumnValue, EventCore, ValModel,
};
use crate::codec::{expect_str, op_from_str, parse_opt_map, parse_string, sp_expect, sp_op,
    sp_opt_map, sp_string, str_eq, str_to_chars};
use crate::config::DatabaseConfig;
use vstd::prelude::*;

verus! {

/// One decoded change-log entry: a self-describing record with a change
/// kind, a table name, the post-image columns and optionally the
/// pre-image keys.
#[derive(Debug, PartialEq)]
pub struct WalRecord {
    pub kind: String,
    pub table: String,
    pub columnvalues: Option<Vec<(String, ColumnValue)>>,
    pub oldkeys: Option<Vec<(String, ColumnValue)>>,
}

/// Mathematical image of a change-log entry.
pub ghost struct WalModel {
    pub kind: Seq<char>,
    pub table: Seq<char>,
    pub columnvalues: Option<ColsModel>,
    pub oldkeys: Option<ColsModel>,
}

impl WalRecord {
    pub open spec fn model(&self) -> WalModel {
        WalModel {
            kind: self.kind@,
            table: self.table@,
            columnvalues: opt_cols_model(self.columnvalues),
            oldkeys: opt_cols_model(self.oldkeys),
        }
    }
}

/// Reads one change-log entry from its textual encoding; the entire
/// input must be consumed.
pub open spec fn sp_wal(cs: Seq<char>) -> Option<WalModel> {
    match sp_expect(cs, 0, "{\"change\":{\"kind\":"@) {
        None => None,
        Some(i1) => match sp_string(cs, i1) {
            None => None,
            Some((kind, i2)) => match sp_expect(cs, i2, ",\"table\":"@) {
                None => None,
                Some(i3) => match sp_string(cs, i3) {
                    None => None,
                    Some((table, i4)) => match sp_expect(cs, i4, ",\"columnvalues\":"@) {
                        None => None,
                        Some(i5) => match sp_opt_map(cs, i5) {
                            None => None,
                            Some((columnvalues, i6)) => match sp_expect(cs, i6, ",\"oldkeys\":"@) {
                                None => None,
                                Some(i7) => match sp_opt_map(cs, i7) {
                                    None => None,
                                    Some((oldkeys, i8)) => match sp_expect(cs, i8, "}}"@) {
                                        None => None,
                                        Some(j) => if j == cs.len() {
                                            Some(WalModel { kind, table, columnvalues, oldkeys })
                                        } else {
                                            None
                                        },
                                    },
                                },
                            },
                        },
                    },
                },
            },
        },
    }
}

/// Decodes one fetched change-log row.  A malformed row reads as `None`
/// and is silently dropped by the callers, as the error policy asks.
pub fn decode_wal_text(s: &str) -> (r: Option<WalRecord>)
    ensures
        (r is Some) == (sp_wal(s@) is Some),
        r matches Some(p) ==> (sp_wal(s@) matches Some(m) && p.model() == m),
{
    let cs = str_to_chars(s);
    let i1 = match expect_str(&cs, 0, "{\"change\":{\"kind\":") {
        Some(j) => j,
        None => {
            return None;
        },
    };
    let (kind, i2) = match parse_string(&cs, i1) {
        Some(p) => p,
        None => {
            return None;
        },
    };
    let i3 = match expect_str(&cs, i2, ",\"table\":") {
        Some(j) => j,
        None => {
            return None;
        },
    };
    let (table, i4) = match parse_string(&cs, i3) {
        Some(p) => p,
        None => {
            return None;
        },
    };
    let i5 = match expect_str(&cs, i4, ",\"columnvalues\":") {
        Some(j) => j,
        None => {
            return None;
        },
    };
    let (columnvalues, i6) = match parse_opt_map(&cs, i5) {
        Some(p) => p,
        None => {
            return None;
        },
    };
    let i7 = match expect_str(&cs, i6, ",\"oldkeys\":") {
        Some(j) => j,
        None => {
            return None;
        },
    };
    let (oldkeys, i8) = match parse_opt_map(&cs, i7) {
        Some(p) => p,
        None => {
            return None;
        },
    };
    let j = match expect_str(&cs, i8, "}}") {
        Some(j) => j,
        None => {
            return None;
        },
    };
    if j != cs.len() {
        return None;
    }
    Some(WalRecord { kind, table, columnvalues, oldkeys })
}

/// The table names of a configuration, as sequences.
pub open spec fn tables_model(ts: Seq<String>) -> Seq<Seq<char>> {
    ts.map_values(|s: String| s@)
}

/// Whether a table is in the tracked-table list.
pub open spec fn spec_tracked(tables: Seq<Seq<char>>, t: Seq<char>) -> bool {
    exists|k: int| 0 <= k < tables.len() && tables[k] == t
}

/// Checks a table name against the tracked-table list.
pub fn is_tracked(tables: &Vec<String>, t: &str) -> (r: bool)
    ensures
        r == spec_tracked(tables_model(tables@), t@),
{
    let mut i: usize = 0;
    while i < tables.len()
        invariant
            i <= tables@.len(),
            forall|k: int| 0 <= k < i ==> tables@[k]@ != t@,
        decreases tables@.len() - i,
    {
        if str_eq(tables[i].as_str(), t) {
            assert(tables_model(tables@)[i as int] == t@);
            return true;
        }
        i += 1;
    }
    assert forall|k: int| 0 <= k < tables_model(tables@).len() implies tables_model(tables@)[k]
        != t@ by {
        assert(tables_model(tables@)[k] == tables@[k]@);
    }
    false
}

/// The heuristic primary key: the first column of the post-image, if
/// any.  A deliberate approximation of a true primary-key lookup, kept
/// as the source's known limitation rather than silently corrected.
pub open spec fn spec_pk_of(cv: Option<ColsModel>) -> ColsModel {
    match cv {
        Some(m) => if m.len() > 0 {
            seq![m[0]]
        } else {
            Seq::empty()
        },
        None => Seq::empty(),
    }
}

/// What one change-log entry converts to: `None` for an untracked table
/// or an unrecognized change kind (both silently dropped), and otherwise
/// the canonical event's content.
pub open spec fn spec_record_core(
    db: Seq<char>,
    tables: Seq<Seq<char>>,
    r: WalModel,
) -> Option<EventCore> {
    if !spec_tracked(tables, r.table) {
        None
    } else {
        match sp_op(r.kind) {
            None => None,
            Some(op) => Some(
                EventCore {
                    database: db,
                    table: r.table,
                    operation: op,
                    before: r.oldkeys,
                    after: r.columnvalues,
                    primary_key: spec_pk_of(r.columnvalues),
                    transaction_id: None,
                },
            ),
        }
    }
}

/// The events of a batch of entries, in the order the entries were
/// returned by the change-log drain: exactly the entries with a tracked
/// table and a recognized kind convert, each to one event.
pub open spec fn spec_batch_cores(
    db: Seq<char>,
    tables: Seq<Seq<char>>,
    rs: Seq<WalModel>,
) -> Seq<EventCore>
    decreases rs.len(),
{
    if rs.len() == 0 {
        Seq::empty()
    } else {
        let rest = spec_batch_cores(db, tables, rs.drop_last());
        match spec_record_core(db, tables, rs.last()) {
            Some(c) => rest.push(c),
            None => rest,
        }
    }
}

/// Converts change-log entries of one database's durable cursor into
/// canonical change events.
pub struct PostgresConnector {
    pub config: DatabaseConfig,
}

impl PostgresConnector {
    pub fn new(config: DatabaseConfig) -> (c: PostgresConnector)
        ensures
            c.config == config,
    {
        PostgresConnector { config }
    }

    /// Converts one decoded change-log entry, or drops it: `None`
    /// exactly for an untracked table or an unrecognized change kind.
    /// The primary key is the first post-image column.
    pub fn parse_wal(&self, rec: &WalRecord) -> (r: Option<ChangeEvent>)
        ensures
            match r {
                Some(e) => spec_record_core(
                    self.config.name@,
                    tables_model(self.config.tables@),
                    rec.model(),
                ) == Some(e.core_model()),
                None => spec_record_core(
                    self.config.name@,
                    tables_model(self.config.tables@),
                    rec.model(),
                ) is None,
            },
    {
        if !is_tracked(&self.config.tables, rec.table.as_str()) {
            return None;
        }
        let op = match op_from_kind(rec.kind.as_str()) {
            Some(op) => op,
            None => {
                return None;
            },
        };
        let mut pk: Vec<(String, ColumnValue)> = Vec::new();
        let after: Option<Vec<(String, ColumnValue)>> = match &rec.columnvalues {
            Some(cv) => {
                if cv.len() > 0 {
                    let first = &cv[0];
                    pk.push((first.0.clone(), clone_value(&first.1)));
                    assert(cols_model(pk@) =~= spec_pk_of(opt_cols_model(rec.columnvalues)));
                }
                Some(clone_cols(cv))
            },
            None => None,
        };
        let before: Option<Vec<(String, ColumnValue)>> = match &rec.oldkeys {
            Some(ok) => Some(clone_cols(ok)),
            None => None,
        };
        let e = ChangeEvent::new(
            self.config.name.clone(),
            rec.table.clone(),
            op,
            before,
            after,
            pk,
        );
        proof {
            if rec.columnvalues is None || opt_cols_model(rec.columnvalues)->Some_0.len() == 0 {
                assert(cols_model(e.primary_key@) =~= spec_pk_of(
                    opt_cols_model(rec.columnvalues),
                ));
            }
        }
        Some(e)
    }

    /// Converts a whole drained batch, keeping the drain order: the
    /// consumer sees exactly the recognized entries' events, in the
    /// original relative order.
    pub fn events_from_records(&self, recs: &Vec<WalRecord>) -> (r: Vec<ChangeEvent>)
        ensures
            r@.map_values(|e: ChangeEvent| e.core_model()) == spec_batch_cores(
                self.config.name@,
                tables_model(self.config.tables@),
                recs@.map_values(|w: WalRecord| w.model()),
            ),
    {
        let ghost db = self.config.name@;
        let ghost tables = tables_model(self.config.tables@);
        let mut r: Vec<ChangeEvent> = Vec::new();
        let mut i: usize = 0;
        while i < recs.len()
            invariant
                i <= recs@.len(),
                self.config.name@ == db,
                tables_model(self.config.tables@) == tables,
                r@.map_values(|e: ChangeEvent| e.core_model()) == spec_batch_cores(
                    db,
                    tables,
                    recs@.take(i as int).map_values(|w: WalRecord| w.model()),
                ),
            decreases recs@.len() - i,
        {
            let ghost prefix = recs@.take(i as int).map_values(|w: WalRecord| w.model());
            let ghost prefix2 = recs@.take(i + 1).map_values(|w: WalRecord| w.model());
            proof {
                assert(prefix2.drop_last() =~= prefix);
                assert(prefix2.last() == recs@[i as int].model());
            }
            match self.parse_wal(&recs[i]) {
                Some(e) => {
                    r.push(e);
                    assert(r@.map_values(|e: ChangeEvent| e.core_model()) =~= spec_batch_cores(
                        db,
                        tables,
                        prefix2,
                    ));
                },
                None => {
                    assert(r@.map_values(|e: ChangeEvent| e.core_model()) =~= spec_batch_cores(
                        db,
                        tables,
                        prefix2,
                    ));
                },
            }
            i += 1;
        }
        assert(recs@.take(recs@.len() as int) =~= recs@);
        r
    }
}

/// Maps a change kind to the canonical operation, exactly as the wire
/// names read back: `insert`, `update` and `delete` are recognized and
/// everything else is dropped.
pub fn op_from_kind(kind: &str) -> (r: Option<ChangeOperation>)
    ensures
        r == sp_op(kind@),
{
    op_from_str(kind)
}

} // verus!
