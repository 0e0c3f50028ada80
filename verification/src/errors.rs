//! The protocol/parse-tier failures.  Unlike the transport-tier failures
//! (see the socket module), these are not recoverable by a reconnect: the
//! driving program is expected to stop on them, with a diagnostic.
use vstd::prelude::*;

verus! {

/// A fatal protocol or parse anomaly.
#[derive(Debug, Clone, Copy, PartialEq, Eq, Structural)]
pub enum FatalError {
    /// A field that had to be a base-10 integer was malformed or out of
    /// range.
    MalformedInt,
    /// A character field that did not hold exactly one byte.
    NotSingleChar,
    /// A nullable integer field whose value was not the null sentinel.
    NotMaxSentinel,
    /// An inbound type code outside the implemented catalog.
    UnknownMessageKind(i32),
    /// A managed-accounts list holding more than one account.
    MultipleAccounts,
    /// A read batch whose final byte was not the field terminator.
    BadFraming,
    /// The handshake saw a server version other than the supported one.
    ServerVersionMismatch(i32),
    /// A transport failure while the handshake was still in progress.
    HandshakeReadFailed,
}

} // verus!
