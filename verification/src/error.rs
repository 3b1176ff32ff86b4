//! Errors raised by the exchange fabric and the value types around it.

use vstd::prelude::*;
use vstd::string::StringExecFns;

verus! {

/// The class of a failure.
#[derive(Clone, Copy, Debug, PartialEq, Eq, Structural)]
pub enum ErrorKind {
    /// A query id, fragment id, source or destination is unknown.
    NotFound,
    /// A query id is registered a second time.
    AlreadyExists,
    /// An internal invariant does not hold.
    LogicalError,
    /// A connection or a stream to another node failed.
    Transport,
    /// Received bytes or a received value are malformed.
    BadBytes,
    /// An object store answered with something that cannot be handled.
    StorageOther,
    /// A request asks for what is not offered.
    BadRequest,
}

/// A failure: its class and a message for the operator.
#[derive(Clone, Debug, PartialEq, Eq)]
pub struct ErrorCode {
    pub kind: ErrorKind,
    pub message: String,
}

/// The message that reports an unknown query id.
pub open spec fn query_not_found_text(id: Seq<char>) -> Seq<char> {
    "Query "@ + id + " not found in cluster."@
}

/// The message that reports a query id that is registered already.
pub open spec fn query_exists_text(id: Seq<char>) -> Seq<char> {
    "Already exists query id "@ + id
}

/// The message that reports a node that the cluster does not know.
pub open spec fn node_not_found_text(node: Seq<char>) -> Seq<char> {
    "Not found node "@ + node + " in cluster"@
}

/// The message that reports a node that a packet is for and does not name.
pub open spec fn node_missing_text(node: Seq<char>) -> Seq<char> {
    "Not found "@ + node + " node in cluster"@
}

impl ErrorCode {
    /// A failure of class `kind` with the given message.
    pub fn new(kind: ErrorKind, message: &str) -> (e: ErrorCode)
        ensures
            e.kind == kind,
            e.message@ == message@,
    {
        ErrorCode { kind, message: String::from_str(message) }
    }

    /// The class of the failure.
    pub fn kind(&self) -> (k: ErrorKind)
        ensures
            k == self.kind,
    {
        self.kind
    }

    /// The message of the failure.
    pub fn message(&self) -> (m: &String)
        ensures
            m@ == self.message@,
    {
        &self.message
    }

    /// A copy of this failure.
    pub fn duplicate(&self) -> (e: ErrorCode)
        ensures
            e == *self,
    {
        ErrorCode { kind: self.kind, message: self.message.clone() }
    }

    /// The failure that reports the unknown query `id`.
    pub fn query_not_found(id: &str) -> (e: ErrorCode)
        ensures
            e.kind == ErrorKind::NotFound,
            e.message@ == query_not_found_text(id@),
    {
        let mut message = String::from_str("Query ");
        message.append(id);
        message.append(" not found in cluster.");
        ErrorCode { kind: ErrorKind::NotFound, message }
    }

    /// The failure that reports that the query `id` is registered already.
    pub fn query_exists(id: &str) -> (e: ErrorCode)
        ensures
            e.kind == ErrorKind::AlreadyExists,
            e.message@ == query_exists_text(id@),
    {
        let mut message = String::from_str("Already exists query id ");
        message.append(id);
        ErrorCode { kind: ErrorKind::AlreadyExists, message }
    }

    /// The failure that reports that a packet is for the node `node` and
    /// does not name it.
    pub fn node_missing(node: &str) -> (e: ErrorCode)
        ensures
            e.kind == ErrorKind::LogicalError,
            e.message@ == node_missing_text(node@),
    {
        let mut message = String::from_str("Not found ");
        message.append(node);
        message.append(" node in cluster");
        ErrorCode { kind: ErrorKind::LogicalError, message }
    }

    /// The failure that reports the unknown node `node`.
    pub fn node_not_found(kind: ErrorKind, node: &str) -> (e: ErrorCode)
        ensures
            e.kind == kind,
            e.message@ == node_not_found_text(node@),
    {
        let mut message = String::from_str("Not found node ");
        message.append(node);
        message.append(" in cluster");
        ErrorCode { kind, message }
    }
}

} // verus!
