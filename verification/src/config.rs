//! Configuration data model and the database selector.
//!
//! Configuration is loaded once by the surrounding process (textual
//! parsing is an external concern) and handed in as these plain values;
//! they are immutable for the process lifetime.

use vstd::prelude::*;
use vstd::string::*;

verus! {

/// Which kind of source database a connector reads from.
#[derive(Clone, Copy, Debug, PartialEq, Eq, Structural)]
pub enum DatabaseType {
    /// Log-based source: changes are drained from a durable change cursor.
    PostgreSQL,
    /// Wide-column source: changes are approximated by periodic snapshots.
    ScyllaDB,
}

/// One source database: name, kind, how to reach it, which tables to
/// track, and the poll cadence for the snapshot-based connector.
#[derive(Clone, Debug)]
pub struct DatabaseConfig {
    pub name: String,
    pub db_type: DatabaseType,
    pub connection_string: String,
    pub tables: Vec<String>,
    pub poll_interval_ms: u64,
}

/// Broker sink configuration.
#[derive(Clone, Debug)]
pub struct KafkaConfig {
    pub brokers: String,
    pub topic_prefix: String,
    pub batch_size: usize,
}

/// Stream-store sink configuration.
#[derive(Clone, Debug)]
pub struct RedisConfig {
    pub url: String,
    pub stream_prefix: String,
    pub max_len: Option<usize>,
}

/// Optional sink configurations; a pipeline may publish to either.
#[derive(Debug)]
pub struct StreamingConfig {
    pub kafka: Option<KafkaConfig>,
    pub redis: Option<RedisConfig>,
}

/// Metrics exposition block; reserved, unused by the core.
#[derive(Clone, Debug)]
pub struct MetricsConfig {
    pub enabled: bool,
    pub port: u16,
}

/// The whole configuration file: an optional active-database selector,
/// the databases, and the sink blocks.
#[derive(Debug)]
pub struct Config {
    pub active_db: Option<String>,
    pub databases: Vec<DatabaseConfig>,
    pub streaming: StreamingConfig,
    pub metrics: MetricsConfig,
}

/// ASCII case folding of one character: `'A'..='Z'` map to lower case,
/// every other character is unchanged.
pub open spec fn ascii_fold(c: char) -> char {
    if 65 <= c as u32 && c as u32 <= 90 {
        (((c as u32) + 32) as u8) as char
    } else {
        c
    }
}

/// ASCII case folding of a whole character sequence.
pub open spec fn fold_seq(s: Seq<char>) -> Seq<char> {
    s.map_values(|c: char| ascii_fold(c))
}

/// Two character sequences are equal up to ASCII case.
pub open spec fn eq_ignore_case(a: Seq<char>, b: Seq<char>) -> bool {
    fold_seq(a) == fold_seq(b)
}

/// Compares two strings for equality up to ASCII case.
pub fn str_eq_ignore_case(a: &str, b: &str) -> (r: bool)
    ensures
        r == eq_ignore_case(a@, b@),
{
    let alen = a.unicode_len();
    let blen = b.unicode_len();
    if alen != blen {
        assert(fold_seq(a@).len() == a@.len());
        assert(fold_seq(b@).len() == b@.len());
        return false;
    }
    let mut i: usize = 0;
    while i < alen
        invariant
            i <= alen,
            alen == a@.len(),
            alen == b@.len(),
            forall|j: int| 0 <= j < i ==> ascii_fold(a@[j]) == ascii_fold(b@[j]),
        decreases alen - i,
    {
        let ca = a.get_char(i);
        let cb = b.get_char(i);
        let na = ca as u32;
        let nb = cb as u32;
        let fa: u32 = if 65 <= na && na <= 90 { na + 32 } else { na };
        let fb: u32 = if 65 <= nb && nb <= 90 { nb + 32 } else { nb };
        if fa != fb {
            assert(fold_seq(a@)[i as int] == ascii_fold(a@[i as int]));
            assert(fold_seq(b@)[i as int] == ascii_fold(b@[i as int]));
            return false;
        }
        assert(ascii_fold(a@[i as int]) == ascii_fold(b@[i as int]));
        i += 1;
    }
    assert(fold_seq(a@) =~= fold_seq(b@));
    true
}

/// Whether a database of the given kind is selected by the (free-form,
/// case-insensitive) selector string: the log-based kind answers to
/// `psql` and `postgresql`, the snapshot kind to `scylla` and `scylladb`.
pub open spec fn spec_selector_matches(t: DatabaseType, sel: Seq<char>) -> bool {
    match t {
        DatabaseType::PostgreSQL => eq_ignore_case(sel, "psql"@) || eq_ignore_case(
            sel,
            "postgresql"@,
        ),
        DatabaseType::ScyllaDB => eq_ignore_case(sel, "scylla"@) || eq_ignore_case(
            sel,
            "scylladb"@,
        ),
    }
}

/// Resolves the selector against a database kind.
pub fn selector_matches(t: DatabaseType, selector: &str) -> (r: bool)
    ensures
        r == spec_selector_matches(t, selector@),
{
    match t {
        DatabaseType::PostgreSQL => {
            str_eq_ignore_case(selector, "psql") || str_eq_ignore_case(selector, "postgresql")
        },
        DatabaseType::ScyllaDB => {
            str_eq_ignore_case(selector, "scylla") || str_eq_ignore_case(selector, "scylladb")
        },
    }
}

/// Picks the first configured database whose kind the selector resolves
/// to; `None` when the selector matches none of them.
pub fn select_database(databases: &Vec<DatabaseConfig>, selector: &str) -> (r: Option<usize>)
    ensures
        match r {
            Some(i) => i < databases@.len() && spec_selector_matches(
                databases@[i as int].db_type,
                selector@,
            ) && forall|j: int|
                0 <= j < i ==> !spec_selector_matches(databases@[j].db_type, selector@),
            None => forall|j: int|
                0 <= j < databases@.len() ==> !spec_selector_matches(
                    databases@[j].db_type,
                    selector@,
                ),
        },
{
    let mut i: usize = 0;
    while i < databases.len()
        invariant
            i <= databases@.len(),
            forall|j: int| 0 <= j < i ==> !spec_selector_matches(databases@[j].db_type, selector@),
        decreases databases@.len() - i,
    {
        if selector_matches(databases[i].db_type, selector) {
            return Some(i);
        }
        i += 1;
    }
    None
}

} // verus!
