//! Errors raised by the storage layer and the mapping of database failures onto them.

use vstd::prelude::*;

verus! {

/// The error values the storage layer reports.
#[derive(Debug, Clone, PartialEq, Eq)]
pub enum NatureError {
    /// Input that breaks a rule of the model.
    VerifyError(String),
    /// A state the logic does not expect.
    LogicalError(String),
    /// A failure of the system below the logic.
    SystemError(String),
    /// A failure of the environment (connection, runtime).
    EnvironmentError(String),
    /// A unique key that is stored already.
    DaoDuplicated(String),
    /// A meta that is not defined in the store.
    MetaNotDefined(String),
}

/// The variant of a `NatureError`, without its text.
#[derive(Debug, Clone, Copy, PartialEq, Eq, Structural)]
pub enum ErrorKind {
    VerifyError,
    LogicalError,
    SystemError,
    EnvironmentError,
    DaoDuplicated,
    MetaNotDefined,
}

impl View for NatureError {
    type V = (ErrorKind, Seq<char>);

    open spec fn view(&self) -> (ErrorKind, Seq<char>) {
        match self {
            NatureError::VerifyError(s) => (ErrorKind::VerifyError, s@),
            NatureError::LogicalError(s) => (ErrorKind::LogicalError, s@),
            NatureError::SystemError(s) => (ErrorKind::SystemError, s@),
            NatureError::EnvironmentError(s) => (ErrorKind::EnvironmentError, s@),
            NatureError::DaoDuplicated(s) => (ErrorKind::DaoDuplicated, s@),
            NatureError::MetaNotDefined(s) => (ErrorKind::MetaNotDefined, s@),
        }
    }
}

impl NatureError {
    /// A copy of the error.
    pub fn copy(&self) -> (r: NatureError)
        ensures
            r@ == self@,
    {
        match self {
            NatureError::VerifyError(s) => NatureError::VerifyError(s.clone()),
            NatureError::LogicalError(s) => NatureError::LogicalError(s.clone()),
            NatureError::SystemError(s) => NatureError::SystemError(s.clone()),
            NatureError::EnvironmentError(s) => NatureError::EnvironmentError(s.clone()),
            NatureError::DaoDuplicated(s) => NatureError::DaoDuplicated(s.clone()),
            NatureError::MetaNotDefined(s) => NatureError::MetaNotDefined(s.clone()),
        }
    }
}

/// The kinds of database error that the mapping tells apart.
#[derive(Debug, Clone, Copy, PartialEq, Eq, Structural)]
pub enum DatabaseErrorKind {
    UniqueViolation,
    ForeignKeyViolation,
    UnableToSendCommand,
    SerializationFailure,
    Unknown,
}

/// A failure reported by the database driver, reduced to what the mapping reads.
#[derive(Debug, Clone, PartialEq, Eq)]
pub enum DbFailure {
    /// The database refused the statement; `info` is the driver's description.
    DatabaseError(DatabaseErrorKind, String),
    /// Any other failure; the text is the driver's message.
    Other(String),
}

/// The error, as a view, that a database failure is reported as, given the caller's message.
pub open spec fn spec_db_error(err: DbFailure, msg: Seq<char>) -> (ErrorKind, Seq<char>) {
    match err {
        DbFailure::DatabaseError(kind, info) => match kind {
            DatabaseErrorKind::UniqueViolation => (ErrorKind::DaoDuplicated, msg),
            DatabaseErrorKind::Unknown => (ErrorKind::EnvironmentError, info@),
            _ => (ErrorKind::SystemError, info@),
        },
        DbFailure::Other(text) => (ErrorKind::SystemError, text@),
    }
}

/// Maps database failures onto `NatureError`.
pub struct DbError;

impl DbError {
    /// Maps a failure with an empty message.
    pub fn from(err: DbFailure) -> (r: NatureError)
        ensures
            r@ == spec_db_error(err, Seq::empty()),
    {
        proof {
            reveal_strlit("");
        }
        Self::from_with_msg(err, "")
    }

    /// Maps a failure: a unique violation becomes `DaoDuplicated(msg)`, an unknown
    /// database error an `EnvironmentError`, everything else a `SystemError`,
    /// each carrying the driver's text.
    pub fn from_with_msg(err: DbFailure, msg: &str) -> (r: NatureError)
        ensures
            r@ == spec_db_error(err, msg@),
    {
        match err {
            DbFailure::DatabaseError(kind, info) => match kind {
                DatabaseErrorKind::UniqueViolation => NatureError::DaoDuplicated(msg.to_string()),
                DatabaseErrorKind::Unknown => NatureError::EnvironmentError(info),
                _ => NatureError::SystemError(info),
            },
            DbFailure::Other(text) => NatureError::SystemError(text),
        }
    }
}

} // verus!
