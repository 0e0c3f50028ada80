//! Fixed protocol constants: the field terminator, the supported protocol
//! version, and the numbers of the StartAPI request.
use vstd::prelude::*;

verus! {

/// Every wire field ends with exactly one of these bytes.
pub const FIELD_TERMINATOR: u8 = 0;

/// The one protocol version this client speaks; the handshake is fatal
/// unless the server reports exactly this version.
pub const SUPPORTED_SERVER_VERSION: i32 = 76;

/// The version number the client announces in its first handshake field.
pub const CLIENT_VERSION: u32 = 76;

/// Outbound type code of the StartAPI request.
pub const START_API_CODE: u32 = 71;

/// Fixed sub-version field of the StartAPI request.
pub const START_API_VERSION: u32 = 2;

/// Fixed client identifier sent in the StartAPI request.
pub const CLIENT_ID: u32 = 1337;

/// Servers newer than this accept an optional-capabilities field in StartAPI.
pub const MIN_SERVER_VER_OPTIONAL_CAPABILITIES: i32 = 72;

/// Inbound type code of an Error message.
pub const ERROR_CODE: i32 = 4;

/// Inbound type code of a NextValidId message.
pub const NEXT_VALID_ID_CODE: i32 = 9;

/// Inbound type code of a ManagedAccounts message.
pub const MANAGED_ACCOUNTS_CODE: i32 = 15;

} // verus!
