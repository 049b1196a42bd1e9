//! The canonical change-event data model.
//!
//! One `ChangeEvent` represents one row-level mutation observed in a
//! source database, in the shape every connector converts into and every
//! sink publishes.  Column values are carried as plain self-describing
//! scalars; numbers keep their exact textual form.

use vstd::prelude::*;
use vstd::string::*;

verus! {

/// The kind of row mutation an event describes.
#[derive(Clone, Copy, Debug, PartialEq, Eq, Structural)]
pub enum ChangeOperation {
    Insert,
    Update,
    Delete,
}

/// A column value: a scalar of the wire encoding.  A numeric value keeps
/// the exact digits it was read with, so nothing is lost in transit.
#[derive(Debug, PartialEq)]
pub enum ColumnValue {
    Null,
    Bool(bool),
    Num(String),
    Str(String),
}

/// Mathematical image of a `ColumnValue`.
pub ghost enum ValModel {
    Null,
    Bool(bool),
    Num(Seq<char>),
    Str(Seq<char>),
}

/// Mathematical image of a column map: the column names and value
/// images, in order.
pub type ColsModel = Seq<(Seq<char>, ValModel)>;

pub open spec fn val_model(v: ColumnValue) -> ValModel {
    match v {
        ColumnValue::Null => ValModel::Null,
        ColumnValue::Bool(b) => ValModel::Bool(b),
        ColumnValue::Num(s) => ValModel::Num(s@),
        ColumnValue::Str(s) => ValModel::Str(s@),
    }
}

pub open spec fn cols_model(m: Seq<(String, ColumnValue)>) -> ColsModel {
    m.map_values(|p: (String, ColumnValue)| (p.0@, val_model(p.1)))
}

pub open spec fn opt_cols_model(m: Option<Vec<(String, ColumnValue)>>) -> Option<ColsModel> {
    match m {
        Some(v) => Some(cols_model(v@)),
        None => None,
    }
}

pub open spec fn opt_str_model(s: Option<String>) -> Option<Seq<char>> {
    match s {
        Some(v) => Some(v@),
        None => None,
    }
}

/// Mathematical image of a whole event.
pub ghost struct EventModel {
    pub id: Seq<char>,
    pub timestamp: Seq<char>,
    pub database: Seq<char>,
    pub table: Seq<char>,
    pub operation: ChangeOperation,
    pub before: Option<ColsModel>,
    pub after: Option<ColsModel>,
    pub primary_key: ColsModel,
    pub transaction_id: Option<Seq<char>>,
}

/// Mathematical image of an event without its per-instance identity
/// (identifier and creation timestamp): what a connector's conversion
/// logic determines.
pub ghost struct EventCore {
    pub database: Seq<char>,
    pub table: Seq<char>,
    pub operation: ChangeOperation,
    pub before: Option<ColsModel>,
    pub after: Option<ColsModel>,
    pub primary_key: ColsModel,
    pub transaction_id: Option<Seq<char>>,
}

/// One canonical change event.
#[derive(Debug, PartialEq)]
pub struct ChangeEvent {
    pub id: String,
    pub timestamp: String,
    pub database: String,
    pub table: String,
    pub operation: ChangeOperation,
    pub before: Option<Vec<(String, ColumnValue)>>,
    pub after: Option<Vec<(String, ColumnValue)>>,
    pub primary_key: Vec<(String, ColumnValue)>,
    pub transaction_id: Option<String>,
}

/// Relies on `uuid::Uuid::new_v4` and its hyphenated textual form: a
/// fresh random version-4 identifier.  Nothing is promised of the value;
/// it depends on the process's randomness source.
#[verifier::external_body]
fn fresh_event_id() -> String {
    uuid::Uuid::new_v4().to_string()
}

/// Relies on `chrono::Utc::now` and `DateTime::to_rfc3339`: the current
/// UTC instant in its sortable textual form.  Nothing is promised of the
/// value; it depends on the clock.
#[verifier::external_body]
fn current_timestamp() -> String {
    chrono::Utc::now().to_rfc3339()
}

impl ChangeEvent {
    pub open spec fn model(&self) -> EventModel {
        EventModel {
            id: self.id@,
            timestamp: self.timestamp@,
            database: self.database@,
            table: self.table@,
            operation: self.operation,
            before: opt_cols_model(self.before),
            after: opt_cols_model(self.after),
            primary_key: cols_model(self.primary_key@),
            transaction_id: opt_str_model(self.transaction_id),
        }
    }

    pub open spec fn core_model(&self) -> EventCore {
        EventCore {
            database: self.database@,
            table: self.table@,
            operation: self.operation,
            before: opt_cols_model(self.before),
            after: opt_cols_model(self.after),
            primary_key: cols_model(self.primary_key@),
            transaction_id: opt_str_model(self.transaction_id),
        }
    }

    /// Builds an event for one observed mutation.  The identifier is
    /// freshly drawn and the timestamp is the current instant, so neither
    /// is pinned here; every other field is exactly what was passed.
    pub fn new(
        database: String,
        table: String,
        operation: ChangeOperation,
        before: Option<Vec<(String, ColumnValue)>>,
        after: Option<Vec<(String, ColumnValue)>>,
        primary_key: Vec<(String, ColumnValue)>,
    ) -> (e: ChangeEvent)
        ensures
            e.database == database,
            e.table == table,
            e.operation == operation,
            e.before == before,
            e.after == after,
            e.primary_key == primary_key,
            e.transaction_id is None,
    {
        ChangeEvent {
            id: fresh_event_id(),
            timestamp: current_timestamp(),
            database,
            table,
            operation,
            before,
            after,
            primary_key,
            transaction_id: None,
        }
    }

    /// Destination base name for this event: `cdc.<database>.<table>`.
    pub fn topic_name(&self) -> (r: String)
        ensures
            r@ == spec_topic_name(self.database@, self.table@),
    {
        let mut s = String::from_str("cdc.");
        s.append(self.database.as_str());
        s.append(".");
        s.append(self.table.as_str());
        assert(s@ =~= spec_topic_name(self.database@, self.table@));
        s
    }
}

/// Destination naming is a pure deterministic function of the database
/// and table names alone: `cdc.<database>.<table>`.
pub open spec fn spec_topic_name(db: Seq<char>, table: Seq<char>) -> Seq<char> {
    "cdc."@ + db + "."@ + table
}

/// The wire name of an operation, one of three string literals.
pub open spec fn spec_operation_str(op: ChangeOperation) -> Seq<char> {
    match op {
        ChangeOperation::Insert => "insert"@,
        ChangeOperation::Update => "update"@,
        ChangeOperation::Delete => "delete"@,
    }
}

pub fn operation_str(op: ChangeOperation) -> (r: &'static str)
    ensures
        r@ == spec_operation_str(op),
{
    match op {
        ChangeOperation::Insert => "insert",
        ChangeOperation::Update => "update",
        ChangeOperation::Delete => "delete",
    }
}

/// Copies one column value; the copy has the same image.
pub fn clone_value(v: &ColumnValue) -> (r: ColumnValue)
    ensures
        val_model(r) == val_model(*v),
{
    match v {
        ColumnValue::Null => ColumnValue::Null,
        ColumnValue::Bool(b) => ColumnValue::Bool(*b),
        ColumnValue::Num(s) => ColumnValue::Num(s.clone()),
        ColumnValue::Str(s) => ColumnValue::Str(s.clone()),
    }
}

/// Copies a column map; the copy has the same image.
pub fn clone_cols(m: &Vec<(String, ColumnValue)>) -> (r: Vec<(String, ColumnValue)>)
    ensures
        cols_model(r@) == cols_model(m@),
{
    let mut r: Vec<(String, ColumnValue)> = Vec::new();
    let mut i: usize = 0;
    while i < m.len()
        invariant
            i <= m@.len(),
            r@.len() == i,
            forall|j: int| 0 <= j < i ==> cols_model(r@)[j] == cols_model(m@)[j],
        decreases m@.len() - i,
    {
        let pair = &m[i];
        r.push((pair.0.clone(), clone_value(&pair.1)));
        i += 1;
    }
    assert(cols_model(r@) =~= cols_model(m@));
    r
}

} // verus!
