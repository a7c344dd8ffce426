//! What a run is told when it is started.

use vstd::prelude::*;

verus! {

/// How much is logged.
#[derive(Clone, Copy, Debug, PartialEq, Eq)]
pub enum Level {
    Error,
    Warn,
    Info,
    Debug,
    Trace,
}

/// The choice of what is logged.
#[derive(Clone, Debug, PartialEq, Eq)]
pub struct LoggingOpts {
    /// How often more detail was asked for.
    pub debug: u64,
    /// Log warnings and failures only.
    pub warn: bool,
    /// Log failures only.
    pub error: bool,
}

/// What a synchronizer run is told.
#[derive(Clone, Debug, PartialEq, Eq)]
pub struct UpdateRedisArgs {
    /// The identity of this server, by which it holds the write lock.
    pub server_id: String,
    /// The token for the directory API.
    pub slack_token: String,
    /// The address of the backend.
    pub redis_address: String,
    /// Write even where another server holds the lock.
    pub ignore_lock: bool,
}

/// What the read-only facade is told.
#[derive(Clone, Debug, PartialEq, Eq)]
pub struct WebArgs {
    /// The address of the backend.
    pub redis_address: String,
    /// Where the facade listens.
    pub listen_server: String,
}

impl LoggingOpts {
    /// The level chosen: failures only, else warnings, else by how often
    /// more detail was asked for.
    pub open spec fn level_of(self) -> Level {
        if self.error {
            Level::Error
        } else if self.warn {
            Level::Warn
        } else if self.debug == 0 {
            Level::Info
        } else if self.debug == 1 {
            Level::Debug
        } else {
            Level::Trace
        }
    }

    /// The level chosen.
    pub fn to_level(&self) -> (level: Level)
        ensures
            level == self.level_of(),
    {
        if self.error {
            Level::Error
        } else if self.warn {
            Level::Warn
        } else if self.debug == 0 {
            Level::Info
        } else if self.debug == 1 {
            Level::Debug
        } else {
            Level::Trace
        }
    }
}

} // verus!
