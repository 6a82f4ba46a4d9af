use vstd::prelude::*;
use crate::error::ServiceError;

verus! {

/// An ASCII hexadecimal digit, in either case.
pub open spec fn is_hex_digit(c: char) -> bool {
    ('0' <= c && c <= '9') || ('a' <= c && c <= 'f') || ('A' <= c && c <= 'F')
}

/// A hexadecimal digit written in lower case; other characters unchanged.
pub open spec fn lower_hex(c: char) -> char {
    if c == 'A' {
        'a'
    } else if c == 'B' {
        'b'
    } else if c == 'C' {
        'c'
    } else if c == 'D' {
        'd'
    } else if c == 'E' {
        'e'
    } else if c == 'F' {
        'f'
    } else {
        c
    }
}

/// Text that names a record: twenty-four hexadecimal digits (twelve bytes).
pub open spec fn is_id_text(s: Seq<char>) -> bool {
    s.len() == 24 && forall|i: int| 0 <= i < s.len() ==> is_hex_digit(#[trigger] s[i])
}

/// The canonical spelling of identifier text: its digits in lower case.
pub open spec fn canonical_id(s: Seq<char>) -> Seq<char> {
    s.map_values(|c: char| lower_hex(c))
}

/// A record identifier as the store holds it.
pub open spec fn is_canonical_id(s: Seq<char>) -> bool {
    is_id_text(s) && canonical_id(s) == s
}

/// Relies on `bson::oid::ObjectId::parse_str`, which accepts exactly the
/// strings that hex-decode (either case) to twelve bytes, and on
/// `ObjectId::to_hex`, which writes those bytes back as lower-case digits.
#[verifier::external_body]
fn parse_object_id(s: &str) -> (r: Option<String>)
    ensures
        r is Some <==> is_id_text(s@),
        r matches Some(t) ==> t@ == canonical_id(s@),
{
    match bson::oid::ObjectId::parse_str(s) {
        Ok(oid) => Some(oid.to_hex()),
        Err(_) => None,
    }
}

/// Relies on `bson::oid::ObjectId::new` for a fresh identifier (built from
/// the time, a per-process random value and a counter), and on
/// `ObjectId::to_hex` to write its twelve bytes as lower-case digits.
#[verifier::external_body]
pub(crate) fn fresh_object_id() -> (r: String)
    ensures
        is_canonical_id(r@),
{
    bson::oid::ObjectId::new().to_hex()
}

/// Parses identifier text into its canonical spelling.
pub fn parse_record_id(s: &str) -> (r: Result<String, ServiceError>)
    ensures
        r is Ok <==> is_id_text(s@),
        r matches Ok(t) ==> t@ == canonical_id(s@),
        r matches Err(e) ==> e == ServiceError::InvalidArgument,
{
    match parse_object_id(s) {
        Some(t) => Ok(t),
        None => Err(ServiceError::InvalidArgument),
    }
}

} // verus!
