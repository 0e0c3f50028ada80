//! Client-side protocol stack for a text-framed, length-implicit wire
//! protocol: outbound message framing, inbound batch splitting, typed field
//! decoding, message-kind dispatch, and the connection state machine.
pub mod client_connection;
pub mod constants;
pub mod decoder;
pub mod emessage;
pub mod errors;
pub mod field_reader;
pub mod framing;
pub mod parse;
pub mod twssocket;
