//! Typed readers over raw wire fields.  Each conversion consumes exactly
//! one field; a conversion failure is a fatal condition, never a
//! recoverable per-field error.
use vstd::prelude::*;

use crate::errors::FatalError;
use crate::parse::{int_text_value, is_int_text, parse_i32, parse_i64};

verus! {

/// Whether a field is the text of an integer that fits in `i32`.
pub open spec fn valid_i32(s: Seq<u8>) -> bool {
    is_int_text(s) && i32::MIN <= int_text_value(s) <= i32::MAX
}

/// Whether a field is the text of an integer that fits in `i64`.
pub open spec fn valid_i64(s: Seq<u8>) -> bool {
    is_int_text(s) && i64::MIN <= int_text_value(s) <= i64::MAX
}

/// The fixed sentinel text standing for an absent real value: `inf`.
pub open spec fn infinity_text() -> Seq<u8> {
    seq![105u8, 110u8, 102u8]
}

/// A numeric field kept as raw text, its interpretation deferred.
pub struct Decimal {
    pub number: Vec<u8>,
}

/// One integer field, base-10 signed.
pub fn read_int(field: &Vec<u8>) -> (r: Result<i32, FatalError>)
    ensures
        valid_i32(field@) ==> (r matches Ok(v) && v == int_text_value(field@)),
        !valid_i32(field@) ==> r == Err::<i32, FatalError>(FatalError::MalformedInt),
{
    match parse_i32(field.as_slice()) {
        Some(v) => Ok(v),
        None => Err(FatalError::MalformedInt),
    }
}

/// One long integer field, base-10 signed.
pub fn read_long(field: &Vec<u8>) -> (r: Result<i64, FatalError>)
    ensures
        valid_i64(field@) ==> (r matches Ok(v) && v == int_text_value(field@)),
        !valid_i64(field@) ==> r == Err::<i64, FatalError>(FatalError::MalformedInt),
{
    match parse_i64(field.as_slice()) {
        Some(v) => Ok(v),
        None => Err(FatalError::MalformedInt),
    }
}

/// One integer field read as a boolean: true exactly when it is nonzero.
pub fn read_bool_from_int(field: &Vec<u8>) -> (r: Result<bool, FatalError>)
    ensures
        valid_i32(field@) ==> (r matches Ok(b) && b == (int_text_value(field@) != 0)),
        !valid_i32(field@) ==> r == Err::<bool, FatalError>(FatalError::MalformedInt),
{
    match read_int(field) {
        Ok(v) => Ok(v != 0),
        Err(e) => Err(e),
    }
}

/// One field read as a single character: fatal unless it holds exactly
/// one byte.
pub fn read_char(field: &Vec<u8>) -> (r: Result<u8, FatalError>)
    ensures
        field@.len() == 1 ==> (r matches Ok(c) && c == field@[0]),
        field@.len() != 1 ==> r == Err::<u8, FatalError>(FatalError::NotSingleChar),
{
    if field.len() == 1 {
        Ok(field[0])
    } else {
        Err(FatalError::NotSingleChar)
    }
}

/// One nullable integer field: only the null sentinel (the largest
/// representable integer) is accepted; any other value is fatal.
pub fn read_int_max(field: &Vec<u8>) -> (r: Result<i32, FatalError>)
    ensures
        !valid_i32(field@) ==> r == Err::<i32, FatalError>(FatalError::MalformedInt),
        valid_i32(field@) && int_text_value(field@) == i32::MAX
            ==> (r matches Ok(v) && v == i32::MAX),
        valid_i32(field@) && int_text_value(field@) != i32::MAX
            ==> r == Err::<i32, FatalError>(FatalError::NotMaxSentinel),
{
    match read_int(field) {
        Ok(v) => {
            if v == i32::MAX {
                Ok(v)
            } else {
                Err(FatalError::NotMaxSentinel)
            }
        },
        Err(e) => Err(e),
    }
}

/// One nullable real field: true exactly when the field equals the fixed
/// infinity sentinel, in which case the caller substitutes the largest
/// real value.  There is no branch for an ordinary numeric value.
pub fn read_double_max(field: &Vec<u8>) -> (r: bool)
    ensures
        r <==> field@ == infinity_text(),
{
    if field.len() == 3 && field[0] == 105 && field[1] == 110 && field[2] == 102 {
        proof {
            assert(field@ =~= infinity_text());
        }
        true
    } else {
        proof {
            if field@ == infinity_text() {
                assert(field@[0] == 105u8 && field@[1] == 110u8 && field@[2] == 102u8);
            }
        }
        false
    }
}

/// One field wrapped unvalidated as deferred decimal text.
pub fn read_decimal(field: &Vec<u8>) -> (r: Decimal)
    ensures
        r.number@ == field@,
{
    Decimal { number: field.clone() }
}

} // verus!
