//! Document ids. Users, bets and posts are addressed by 12-byte object ids
//! written as 24 hexadecimal characters; a request that names one by a
//! malformed string is refused before anything is looked up.

use vstd::prelude::*;
use crate::errors::{AppError, is_invalid_object_id};

verus! {

/// A hexadecimal digit, in either case.
pub open spec fn is_hex_char(c: char) -> bool {
    ('0' <= c && c <= '9') || ('a' <= c && c <= 'f') || ('A' <= c && c <= 'F')
}

/// `s` spells an object id: exactly 24 hexadecimal characters.
pub open spec fn is_object_id(s: Seq<char>) -> bool {
    s.len() == 24 && forall|i: int| 0 <= i < s.len() ==> is_hex_char(#[trigger] s[i])
}

/// The message with which the object-id parser refuses `s`.
pub uninterp spec fn object_id_error_text(s: Seq<char>) -> Seq<char>;

/// Calls `bson::oid::ObjectId::parse_str`. Its source decodes the string
/// with `hex::decode` (both cases accepted, odd lengths refused) and keeps
/// the result only when it is 12 bytes long, so it succeeds exactly on 24
/// hexadecimal characters; on failure the error's display text is handed
/// back, which depends on the string alone.
#[verifier::external_body]
fn parse_object_id(s: &str) -> (r: Result<(), String>)
    ensures
        r is Ok <==> is_object_id(s@),
        r matches Err(m) ==> m@ == object_id_error_text(s@),
{
    match bson::oid::ObjectId::parse_str(s) {
        Ok(_) => Ok(()),
        Err(e) => Err(e.to_string()),
    }
}

/// Checks that `s` names an object id; otherwise the error is
/// `InvalidObjectId` with the parser's message.
pub fn check_object_id(s: &str) -> (r: Result<(), AppError>)
    ensures
        r is Ok <==> is_object_id(s@),
        r matches Err(e) ==> is_invalid_object_id(e, object_id_error_text(s@)),
{
    match parse_object_id(s) {
        Ok(()) => Ok(()),
        Err(m) => Err(AppError::InvalidObjectId(m)),
    }
}

} // verus!

verus! {

/// A hexadecimal digit with its letter, if any, in lower case.
pub open spec fn lower_hex_char(c: char) -> char {
    if c == 'A' { 'a' }
    else if c == 'B' { 'b' }
    else if c == 'C' { 'c' }
    else if c == 'D' { 'd' }
    else if c == 'E' { 'e' }
    else if c == 'F' { 'f' }
    else { c }
}

/// A hexadecimal spelling with its letters in lower case.
pub open spec fn lower_hex(s: Seq<char>) -> Seq<char> {
    s.map_values(|c: char| lower_hex_char(c))
}

fn lower_char(c: char) -> (r: char)
    ensures
        r == lower_hex_char(c),
{
    if c == 'A' { 'a' }
    else if c == 'B' { 'b' }
    else if c == 'C' { 'c' }
    else if c == 'D' { 'd' }
    else if c == 'E' { 'e' }
    else if c == 'F' { 'f' }
    else { c }
}

/// Whether two spellings name the same object id: they agree once their
/// hexadecimal letters are put in the same case.
pub fn same_object_id(a: &str, b: &str) -> (r: bool)
    ensures
        r == (lower_hex(a@) == lower_hex(b@)),
{
    let n = a.unicode_len();
    let m = b.unicode_len();
    if n != m {
        assert(lower_hex(a@).len() != lower_hex(b@).len());
        return false;
    }
    let mut i: usize = 0;
    while i < n
        invariant
            n == a@.len(),
            m == b@.len(),
            n == m,
            i <= n,
            forall|j: int| 0 <= j < i ==> lower_hex_char(#[trigger] a@[j]) == lower_hex_char(b@[j]),
        decreases n - i,
    {
        if lower_char(a.get_char(i)) != lower_char(b.get_char(i)) {
            assert(lower_hex(a@)[i as int] != lower_hex(b@)[i as int]);
            return false;
        }
        i = i + 1;
    }
    assert(lower_hex(a@) =~= lower_hex(b@)) by {
        assert forall|j: int| 0 <= j < n implies lower_hex(a@)[j] == lower_hex(b@)[j] by {
            assert(lower_hex_char(a@[j]) == lower_hex_char(b@[j]));
        }
    }
    true
}

} // verus!

verus! {

/// A lower-case hexadecimal digit.
pub open spec fn is_lower_hex_char(c: char) -> bool {
    ('0' <= c && c <= '9') || ('a' <= c && c <= 'f')
}

/// The hyphenated lower-case text of a UUID: 32 hexadecimal digits in
/// groups of 8, 4, 4, 4 and 12 joined by `-`.
pub open spec fn is_uuid_text(s: Seq<char>) -> bool {
    &&& s.len() == 36
    &&& forall|i: int| 0 <= i < 36 ==> (if i == 8 || i == 13 || i == 18 || i == 23 {
        #[trigger] s[i] == '-'
    } else {
        is_lower_hex_char(s[i])
    })
}

/// Calls `uuid::Uuid::new_v4` and writes the result with its `Display`
/// implementation. The value is random; what holds of every outcome is its
/// shape, which the crate documents as the hyphenated lower-case form.
#[verifier::external_body]
pub(crate) fn new_uuid() -> (r: String)
    ensures
        is_uuid_text(r@),
{
    uuid::Uuid::new_v4().to_string()
}

} // verus!
