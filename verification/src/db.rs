//! What the service needs to know of its store before and while it runs: how
//! the connection pool is set up, and how a failure is named.

use vstd::prelude::*;
use vstd::string::StringExecFns;

verus! {

/// The most connections to the store that are open at one time.
pub const MAX_CONNECTIONS: u32 = 5;

/// Why a store operation did not complete.
#[derive(Clone, Copy, Debug, PartialEq, Eq, Structural)]
pub enum StoreError {
    /// The store could not be reached, or it refused the statement.
    Unavailable,
    /// The store has no identifier left to give to a new record.
    IdentifiersExhausted,
}

/// Why the service did not start.
#[derive(Clone, Copy, Debug, PartialEq, Eq, Structural)]
pub enum StartupError {
    /// The connection string is not set.
    MissingDatabaseUrl,
    /// The store did not accept a connection.
    CannotConnect,
}

/// How the connection pool is opened.
#[derive(Debug, PartialEq, Eq)]
pub struct PoolSettings {
    /// Where the store is.
    pub database_url: String,
    /// The most connections that the pool keeps open at one time.
    pub max_connections: u32,
}

impl StartupError {
    /// The words of the diagnostic, as characters.
    pub open spec fn spec_message(self) -> Seq<char> {
        match self {
            StartupError::MissingDatabaseUrl => "DATABASE_URL must be set"@,
            StartupError::CannotConnect => "Can't connect to database"@,
        }
    }

    /// The diagnostic that the process ends with.
    pub fn message(&self) -> (words: String)
        ensures
            words@ == self.spec_message(),
    {
        match self {
            StartupError::MissingDatabaseUrl => String::from_str("DATABASE_URL must be set"),
            StartupError::CannotConnect => String::from_str("Can't connect to database"),
        }
    }
}

/// Decides how the pool is opened from the value of the connection string
/// setting, `None` where it is not set. The pool is bounded by
/// `MAX_CONNECTIONS`; without a connection string the service must not start.
pub fn init_pool(database_url: Option<String>) -> (settings: Result<PoolSettings, StartupError>)
    ensures
        match database_url {
            Some(url) => settings matches Ok(s) && s.database_url@ == url@ && s.max_connections
                == MAX_CONNECTIONS,
            None => settings matches Err(e) && e == StartupError::MissingDatabaseUrl,
        },
{
    match database_url {
        Some(url) => Ok(PoolSettings { database_url: url, max_connections: MAX_CONNECTIONS }),
        None => Err(StartupError::MissingDatabaseUrl),
    }
}

} // verus!
