use vstd::prelude::*;

verus! {

/// Whether a character is a hexadecimal digit (either case).
pub open spec fn is_hex_digit(c: char) -> bool {
    ('0' <= c && c <= '9') || ('a' <= c && c <= 'f') || ('A' <= c && c <= 'F')
}

/// The value of a hexadecimal digit.
pub open spec fn hex_value(c: char) -> int {
    if '0' <= c && c <= '9' {
        c as int - '0' as int
    } else if 'a' <= c && c <= 'f' {
        c as int - 'a' as int + 10
    } else {
        c as int - 'A' as int + 10
    }
}

/// Whether a text is the hexadecimal form of an object id: 24 hexadecimal
/// digits.
pub open spec fn is_object_id_text(s: Seq<char>) -> bool {
    s.len() == 24 && forall|i: int| 0 <= i < 24 ==> is_hex_digit(#[trigger] s[i])
}

/// The 12 bytes that the hexadecimal form of an object id stands for, each
/// from two digits, the first the high one.
pub open spec fn object_id_bytes(s: Seq<char>) -> Seq<u8> {
    Seq::new(12, |i: int| (hex_value(s[2 * i]) * 16 + hex_value(s[2 * i + 1])) as u8)
}

/// Calls `bson::oid::ObjectId::parse_str` and hands out the bytes of the
/// id. Claims what its source shows: the text is accepted exactly when it
/// decodes (`hex::decode`, digits of either case, even length) to 12 bytes,
/// that is when it is 24 hexadecimal digits, and the bytes are the decoded
/// ones.
#[verifier::external_body]
fn object_id_from_text(s: &str) -> (r: Option<[u8; 12]>)
    ensures
        r is Some <==> is_object_id_text(s@),
        r matches Some(b) ==> b@ == object_id_bytes(s@),
{
    bson::oid::ObjectId::parse_str(s).ok().map(|oid| oid.bytes())
}

/// The bytes of the object id written as `s` in hexadecimal, if it is one.
pub fn parse_object_id(s: &str) -> (r: Option<[u8; 12]>)
    ensures
        r is Some <==> is_object_id_text(s@),
        r matches Some(b) ==> b@ == object_id_bytes(s@),
{
    object_id_from_text(s)
}

} // verus!
