//! Inbound message decoding: the leading integer field of a message names
//! its kind; each kind consumes a fixed run of further fields.  An
//! unknown kind, a malformed field, or a multi-account list is fatal.
use vstd::prelude::*;

use crate::constants::{ERROR_CODE, MANAGED_ACCOUNTS_CODE, NEXT_VALID_ID_CODE};
use crate::errors::FatalError;
use crate::field_reader::{read_int, valid_i32};
use crate::parse::int_text_value;

verus! {

/// The closed catalog of inbound message kinds this client decodes.
#[derive(Debug, Clone, Copy, PartialEq, Eq, Structural)]
pub enum IncomingMessageId {
    Error,
    NextValidId,
    ManagedAccounts,
}

/// A fully decoded inbound message, fields carried verbatim.
#[derive(Debug, Clone, PartialEq, Eq)]
pub enum DecodedMessage {
    /// Error with version below 2: one free-text field.
    ErrorText { version: i32, text: Vec<u8> },
    /// Error with version 2 or above: request id (-1 marks an out-of-band
    /// notice), error code, then the message text.
    ErrorCoded { version: i32, id: i32, code: i32, text: Vec<u8> },
    /// The next usable request identifier.
    NextValidId { version: i32, id: i32 },
    /// A comma-separated account list; more than one account is fatal.
    ManagedAccounts { version: i32, accounts: Vec<u8> },
}

/// The kind a type code names, if any.
pub open spec fn spec_kind_of(code: int) -> Option<IncomingMessageId> {
    if code == ERROR_CODE {
        Some(IncomingMessageId::Error)
    } else if code == NEXT_VALID_ID_CODE {
        Some(IncomingMessageId::NextValidId)
    } else if code == MANAGED_ACCOUNTS_CODE {
        Some(IncomingMessageId::ManagedAccounts)
    } else {
        None
    }
}

/// How many fields, type code included, the message that opens with the
/// collected fields `fs` occupies: `Ok(None)` while too few fields have
/// arrived to tell, `Ok(Some(n))` once the total is fixed, and an error
/// where the fields seen already doom the message.
///
/// An Error message with version below 2 occupies three fields (code,
/// version, text); with version 2 or above it occupies five (code,
/// version, id, error code, text).  NextValidId and ManagedAccounts each
/// occupy three.
pub open spec fn spec_required(fs: Seq<Seq<u8>>) -> Result<Option<usize>, FatalError> {
    if fs.len() == 0 {
        Ok(None)
    } else if !valid_i32(fs[0]) {
        Err(FatalError::MalformedInt)
    } else {
        let code = int_text_value(fs[0]);
        match spec_kind_of(code) {
            Some(IncomingMessageId::NextValidId) => Ok(Some(3)),
            Some(IncomingMessageId::ManagedAccounts) => Ok(Some(3)),
            Some(IncomingMessageId::Error) => {
                if fs.len() == 1 {
                    Ok(None)
                } else if !valid_i32(fs[1]) {
                    Err(FatalError::MalformedInt)
                } else if int_text_value(fs[1]) < 2 {
                    Ok(Some(3))
                } else {
                    Ok(Some(5))
                }
            },
            None => Err(FatalError::UnknownMessageKind(code as i32)),
        }
    }
}

/// Whether `fs` is a complete message: its total field count is fixed
/// and every one of those fields has arrived.
pub open spec fn complete_message(fs: Seq<Seq<u8>>) -> bool {
    match spec_required(fs) {
        Ok(Some(n)) => fs.len() == n,
        _ => false,
    }
}

/// Executable mirror of `spec_required`, used while collecting fields.
pub fn required_fields(fields: &Vec<Vec<u8>>) -> (r: Result<Option<usize>, FatalError>)
    ensures
        r == spec_required(fields.deep_view()),
{
    let ghost fs = fields.deep_view();
    if fields.len() == 0 {
        return Ok(None);
    }
    proof {
        assert(fs[0] == fields@[0]@);
    }
    let code = match read_int(&fields[0]) {
        Ok(c) => c,
        Err(e) => {
            return Err(e);
        },
    };
    if code == NEXT_VALID_ID_CODE || code == MANAGED_ACCOUNTS_CODE {
        Ok(Some(3))
    } else if code == ERROR_CODE {
        if fields.len() == 1 {
            return Ok(None);
        }
        proof {
            assert(fs[1] == fields@[1]@);
        }
        let version = match read_int(&fields[1]) {
            Ok(v) => v,
            Err(e) => {
                return Err(e);
            },
        };
        if version < 2 {
            Ok(Some(3))
        } else {
            Ok(Some(5))
        }
    } else {
        Err(FatalError::UnknownMessageKind(code))
    }
}

fn contains_comma(field: &Vec<u8>) -> (r: bool)
    ensures
        r == multi_account(field@),
{
    let mut i: usize = 0;
    while i < field.len()
        invariant
            i <= field@.len(),
            forall|k: int| 0 <= k < i ==> field@[k] != 44,
        decreases field@.len() - i,
    {
        if field[i] == 44 {
            return true;
        }
        i = i + 1;
    }
    false
}

/// Whether the account-list text names more than one account, that is,
/// holds a separating comma.
pub open spec fn multi_account(s: Seq<u8>) -> bool {
    exists|i: int| 0 <= i < s.len() && s[i] == 44
}

/// A decoded message at the specification level: integer fields as
/// mathematical integers, text fields as byte sequences.
pub enum MessageView {
    ErrorText { version: int, text: Seq<u8> },
    ErrorCoded { version: int, id: int, code: int, text: Seq<u8> },
    NextValidId { version: int, id: int },
    ManagedAccounts { version: int, accounts: Seq<u8> },
}

impl View for DecodedMessage {
    type V = MessageView;

    open spec fn view(&self) -> MessageView {
        match self {
            DecodedMessage::ErrorText { version, text } => MessageView::ErrorText {
                version: *version as int,
                text: text@,
            },
            DecodedMessage::ErrorCoded { version, id, code, text } => MessageView::ErrorCoded {
                version: *version as int,
                id: *id as int,
                code: *code as int,
                text: text@,
            },
            DecodedMessage::NextValidId { version, id } => MessageView::NextValidId {
                version: *version as int,
                id: *id as int,
            },
            DecodedMessage::ManagedAccounts { version, accounts } => MessageView::ManagedAccounts {
                version: *version as int,
                accounts: accounts@,
            },
        }
    }
}

/// What decoding a complete message yields, field by field: a
/// NextValidId output carries the version and the identifier verbatim;
/// an Error output carries, by version, either the free text or the id,
/// code and text; a ManagedAccounts output carries the account list, and
/// is fatal when that list names more than one account.
pub open spec fn spec_decode(fs: Seq<Seq<u8>>) -> Result<MessageView, FatalError>
    recommends
        complete_message(fs),
{
    let code = int_text_value(fs[0]);
    if code == NEXT_VALID_ID_CODE {
        if valid_i32(fs[1]) && valid_i32(fs[2]) {
            Ok(MessageView::NextValidId {
                version: int_text_value(fs[1]),
                id: int_text_value(fs[2]),
            })
        } else {
            Err(FatalError::MalformedInt)
        }
    } else if code == MANAGED_ACCOUNTS_CODE {
        if !valid_i32(fs[1]) {
            Err(FatalError::MalformedInt)
        } else if multi_account(fs[2]) {
            Err(FatalError::MultipleAccounts)
        } else {
            Ok(MessageView::ManagedAccounts {
                version: int_text_value(fs[1]),
                accounts: fs[2],
            })
        }
    } else {
        if !valid_i32(fs[1]) {
            Err(FatalError::MalformedInt)
        } else if int_text_value(fs[1]) < 2 {
            Ok(MessageView::ErrorText { version: int_text_value(fs[1]), text: fs[2] })
        } else if valid_i32(fs[2]) && valid_i32(fs[3]) {
            Ok(MessageView::ErrorCoded {
                version: int_text_value(fs[1]),
                id: int_text_value(fs[2]),
                code: int_text_value(fs[3]),
                text: fs[4],
            })
        } else {
            Err(FatalError::MalformedInt)
        }
    }
}

/// Decodes one complete message; the result is exactly `spec_decode` of
/// the fields.
pub fn decode(fields: &Vec<Vec<u8>>) -> (r: Result<DecodedMessage, FatalError>)
    requires
        complete_message(fields.deep_view()),
    ensures
        match r {
            Ok(m) => spec_decode(fields.deep_view()) == Ok::<MessageView, FatalError>(m@),
            Err(e) => spec_decode(fields.deep_view()) == Err::<MessageView, FatalError>(e),
        },
{
    let ghost fs = fields.deep_view();
    proof {
        assert forall|k: int| 0 <= k < fields@.len() implies fs[k] == fields@[k]@ by {}
    }
    let code = match read_int(&fields[0]) {
        Ok(c) => c,
        Err(e) => {
            return Err(e);
        },
    };
    let version = match read_int(&fields[1]) {
        Ok(v) => v,
        Err(e) => {
            return Err(e);
        },
    };
    if code == NEXT_VALID_ID_CODE {
        let id = match read_int(&fields[2]) {
            Ok(v) => v,
            Err(e) => {
                return Err(e);
            },
        };
        Ok(DecodedMessage::NextValidId { version, id })
    } else if code == MANAGED_ACCOUNTS_CODE {
        if contains_comma(&fields[2]) {
            return Err(FatalError::MultipleAccounts);
        }
        Ok(DecodedMessage::ManagedAccounts { version, accounts: fields[2].clone() })
    } else {
        if version < 2 {
            Ok(DecodedMessage::ErrorText { version, text: fields[2].clone() })
        } else {
            let id = match read_int(&fields[2]) {
                Ok(v) => v,
                Err(e) => {
                    return Err(e);
                },
            };
            let err_code = match read_int(&fields[3]) {
                Ok(v) => v,
                Err(e) => {
                    return Err(e);
                },
            };
            Ok(DecodedMessage::ErrorCoded { version, id, code: err_code, text: fields[4].clone() })
        }
    }
}

/// Decoding Error with version field 1 (or any version below 2) consumes
/// exactly one further text field after the version; version 2 or above
/// consumes exactly two integer fields and then one text field.
pub proof fn lemma_error_consumption(fs: Seq<Seq<u8>>)
    requires
        fs.len() >= 2,
        valid_i32(fs[0]),
        int_text_value(fs[0]) == ERROR_CODE,
        valid_i32(fs[1]),
    ensures
        int_text_value(fs[1]) < 2 ==> spec_required(fs) == Ok::<Option<usize>, FatalError>(
            Some(3usize),
        ),
        int_text_value(fs[1]) >= 2 ==> spec_required(fs) == Ok::<Option<usize>, FatalError>(
            Some(5usize),
        ),
{
}

/// Decoding NextValidId consumes exactly a version field and one integer
/// field after the type code; the decoded output carries that integer
/// verbatim (see the contract of `decode`).
pub proof fn lemma_next_valid_id_consumption(fs: Seq<Seq<u8>>)
    requires
        fs.len() >= 1,
        valid_i32(fs[0]),
        int_text_value(fs[0]) == NEXT_VALID_ID_CODE,
    ensures
        spec_required(fs) == Ok::<Option<usize>, FatalError>(Some(3usize)),
{
}

} // verus!
