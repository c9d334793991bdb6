//! The errors of the engine, of transactions and of the storage.

use vstd::prelude::*;
use vstd::std_specs::convert::FromSpecImpl;

verus! {

/// An error of the storage engine, with its reason.
#[derive(Debug)]
pub struct EngineError {
    /// What went wrong.
    pub reason: String,
}

/// An error of one operation of a transaction.
#[derive(Debug)]
pub enum MvccError {
    /// Another transaction holds a lock on the key.
    KeyIsLocked {
        /// The key, in its raw form.
        key: Vec<u8>,
        /// The primary key of the transaction that holds the lock.
        primary: Vec<u8>,
        /// The start timestamp of that transaction.
        ts: u64,
        /// What went wrong, in words.
        reason: String,
    },
    /// Any other failure, with its reason.
    Other(String),
}

/// An error of a transaction.
#[derive(Debug)]
pub enum TxnError {
    /// The engine failed.
    Engine(EngineError),
    /// An operation failed.
    Mvcc(MvccError),
    /// Any other failure, with its reason.
    Other(String),
}

/// An error of the storage.
#[derive(Debug)]
pub enum Error {
    /// The engine failed.
    Engine(EngineError),
    /// A transaction failed.
    Txn(TxnError),
    /// The storage is not running.
    Closed,
    /// Any other failure, with its reason.
    Other(String),
    /// Input or output failed, with the reason.
    Io(String),
}

impl From<EngineError> for TxnError {
    fn from(err: EngineError) -> (e: TxnError) {
        TxnError::Engine(err)
    }
}

impl FromSpecImpl<EngineError> for TxnError {
    open spec fn obeys_from_spec() -> bool {
        true
    }

    open spec fn from_spec(err: EngineError) -> TxnError {
        TxnError::Engine(err)
    }
}

impl From<MvccError> for TxnError {
    fn from(err: MvccError) -> (e: TxnError) {
        TxnError::Mvcc(err)
    }
}

impl FromSpecImpl<MvccError> for TxnError {
    open spec fn obeys_from_spec() -> bool {
        true
    }

    open spec fn from_spec(err: MvccError) -> TxnError {
        TxnError::Mvcc(err)
    }
}

impl From<EngineError> for Error {
    fn from(err: EngineError) -> (e: Error) {
        Error::Engine(err)
    }
}

impl FromSpecImpl<EngineError> for Error {
    open spec fn obeys_from_spec() -> bool {
        true
    }

    open spec fn from_spec(err: EngineError) -> Error {
        Error::Engine(err)
    }
}

impl From<TxnError> for Error {
    fn from(err: TxnError) -> (e: Error) {
        Error::Txn(err)
    }
}

impl FromSpecImpl<TxnError> for Error {
    open spec fn obeys_from_spec() -> bool {
        true
    }

    open spec fn from_spec(err: TxnError) -> Error {
        Error::Txn(err)
    }
}

impl MvccError {
    /// The description of the error: its reason.
    pub open spec fn spec_description(&self) -> Seq<char> {
        match self {
            MvccError::KeyIsLocked { reason, .. } => reason@,
            MvccError::Other(reason) => reason@,
        }
    }

    /// The description of the error: its reason.
    pub fn description(&self) -> (text: &str)
        ensures
            text@ == self.spec_description(),
    {
        match self {
            MvccError::KeyIsLocked { reason, .. } => reason.as_str(),
            MvccError::Other(reason) => reason.as_str(),
        }
    }
}

impl TxnError {
    /// The description of the error: that of its cause.
    pub open spec fn spec_description(&self) -> Seq<char> {
        match self {
            TxnError::Engine(err) => err.reason@,
            TxnError::Mvcc(err) => err.spec_description(),
            TxnError::Other(reason) => reason@,
        }
    }

    /// The description of the error: that of its cause.
    pub fn description(&self) -> (text: &str)
        ensures
            text@ == self.spec_description(),
    {
        match self {
            TxnError::Engine(err) => err.reason.as_str(),
            TxnError::Mvcc(err) => err.description(),
            TxnError::Other(reason) => reason.as_str(),
        }
    }
}

impl Error {
    /// The description of the error: that of its cause, where it has one.
    pub open spec fn spec_description(&self) -> Seq<char> {
        match self {
            Error::Engine(err) => err.reason@,
            Error::Txn(err) => err.spec_description(),
            Error::Closed => "storage is closed."@,
            Error::Other(reason) => reason@,
            Error::Io(reason) => reason@,
        }
    }

    /// The description of the error: that of its cause, where it has one.
    pub fn description(&self) -> (text: &str)
        ensures
            text@ == self.spec_description(),
    {
        match self {
            Error::Engine(err) => err.reason.as_str(),
            Error::Txn(err) => err.description(),
            Error::Closed => "storage is closed.",
            Error::Other(reason) => reason.as_str(),
            Error::Io(reason) => reason.as_str(),
        }
    }
}

} // verus!
