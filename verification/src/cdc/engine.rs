//! Connector lifecycle decisions.
//!
//! The engine owns one database's connector: it selects the connector
//! variant, performs the one-time cursor setup where applicable, and then
//! lets the producer loop run for the process lifetime.  The decisions
//! are made here; the surrounding process performs each action and hands
//! back its outcome.

use crate::config::{DatabaseConfig, DatabaseType};
use vstd::prelude::*;
use vstd::string::*;

verus! {

/// The next thing the engine's startup has the surrounding process do.
pub ghost enum StartupStep {
    CreateCursor,
    StartProduceLoop,
    Abort,
}

/// Exec twin of `StartupStep`, carrying the cursor name to create.
#[derive(Debug, PartialEq)]
pub enum EngineAction {
    /// Create the durable change cursor of this name, then report back.
    CreateCursor(String),
    /// Spawn the producer loop; startup has succeeded.
    StartProduceLoop,
    /// Construction failed; surface the error to the caller.
    Abort,
}

impl EngineAction {
    pub open spec fn step(&self) -> StartupStep {
        match self {
            EngineAction::CreateCursor(_) => StartupStep::CreateCursor,
            EngineAction::StartProduceLoop => StartupStep::StartProduceLoop,
            EngineAction::Abort => StartupStep::Abort,
        }
    }
}

/// Name of the durable change cursor for a database: `slot_<name>`.
pub open spec fn spec_slot_name(db: Seq<char>) -> Seq<char> {
    "slot_"@ + db
}

pub fn slot_name(db: &str) -> (r: String)
    ensures
        r@ == spec_slot_name(db@),
{
    let mut s = String::from_str("slot_");
    s.append(db);
    assert(s@ =~= spec_slot_name(db@));
    s
}

/// Owns one database's connector lifecycle.
pub struct CDCEngine {
    pub config: DatabaseConfig,
}

impl CDCEngine {
    pub fn new(config: DatabaseConfig) -> (e: CDCEngine)
        ensures
            e.config == config,
    {
        CDCEngine { config }
    }

    /// What startup does once the connector's construction has been
    /// attempted.  Construction failure is the only failure the caller
    /// ever observes; on success the log-based variant first creates its
    /// change cursor while the snapshot variant polls straight away.
    pub fn startup_action(&self, connected: bool) -> (a: EngineAction)
        ensures
            !connected ==> a.step() is Abort,
            connected && self.config.db_type is PostgreSQL ==> (a matches EngineAction::CreateCursor(
                s,
            ) && s@ == spec_slot_name(self.config.name@)),
            connected && self.config.db_type is ScyllaDB ==> a.step() is StartProduceLoop,
    {
        if !connected {
            EngineAction::Abort
        } else {
            match self.config.db_type {
                DatabaseType::PostgreSQL => EngineAction::CreateCursor(
                    slot_name(self.config.name.as_str()),
                ),
                DatabaseType::ScyllaDB => EngineAction::StartProduceLoop,
            }
        }
    }

    /// What startup does once cursor creation has been attempted: the
    /// producer loop starts whether or not creation succeeded.  Failure
    /// to create the cursor (typically: it already exists) is tolerated
    /// and never aborts startup.
    pub fn after_cursor_setup(&self, setup_ok: bool) -> (a: EngineAction)
        ensures
            a.step() is StartProduceLoop,
    {
        let _ = setup_ok;
        EngineAction::StartProduceLoop
    }
}

} // verus!
