//! Identifiers of responses.
use vstd::prelude::*;

verus! {

/// Whether a character is a hexadecimal digit in lower case.
pub open spec fn is_hex(c: char) -> bool {
    ('0' <= c && c <= '9') || ('a' <= c && c <= 'f')
}

/// Whether a text is a random UUID: 32 hexadecimal digits in groups of 8, 4, 4, 4 and 12,
/// of which the first of the third group is the version and the first of the fourth the
/// variant.
pub open spec fn is_random_uuid(s: Seq<char>) -> bool {
    &&& s.len() == 36
    &&& s[8] == '-' && s[13] == '-' && s[18] == '-' && s[23] == '-'
    &&& s[14] == '4'
    &&& s[19] == '8' || s[19] == '9' || s[19] == 'a' || s[19] == 'b'
    &&& forall|i: int|
        0 <= i < 36 && i != 8 && i != 13 && i != 18 && i != 23 ==> is_hex(#[trigger] s[i])
}

/// Calls `uuid::Uuid::new_v4` and writes the identifier in its usual form. Whatever number
/// is drawn, the text has that form, with the version and variant of a random UUID. The call
/// panics where the system has no random bytes to give.
#[verifier::external_body]
fn random_uuid() -> (s: String)
    ensures
        is_random_uuid(s@),
{
    uuid::Uuid::new_v4().to_string()
}

/// The identifier of a response: that of the request, or a random one where the request has
/// none.
pub fn response_id(requested: Option<String>) -> (id: String)
    ensures
        match requested {
            Some(s) => id == s,
            None => is_random_uuid(id@),
        },
{
    match requested {
        Some(s) => s,
        None => random_uuid(),
    }
}

/// The identifier that a request asks for, where an empty one stands for none.
pub fn nonempty_id(id: String) -> (r: Option<String>)
    ensures
        r == if id@.len() == 0 {
            None
        } else {
            Some(id)
        },
{
    if id.as_str().is_empty() {
        None
    } else {
        Some(id)
    }
}

/// The identifier of a response, by that of its request: an empty one stands for none, a
/// nonempty one is kept, and where there is none the response gets one in the form of a random
/// UUID: hexadecimal digits in five groups, with its version and variant.
pub proof fn law_identifiers_are_kept(id: String, asked: Option<String>, r: String)
    requires
        call_ensures(nonempty_id, (id,), asked),
        call_ensures(response_id, (asked,), r),
    ensures
        id@.len() > 0 ==> r == id,
        id@.len() == 0 ==> asked is None,
        id@.len() == 0 ==> {
            &&& r@.len() == 36
            &&& r@[8] == '-' && r@[13] == '-' && r@[18] == '-' && r@[23] == '-'
            &&& r@[14] == '4'
            &&& r@[19] == '8' || r@[19] == '9' || r@[19] == 'a' || r@[19] == 'b'
            &&& forall|i: int|
                0 <= i < 36 && i != 8 && i != 13 && i != 18 && i != 23 ==> '0' <= #[trigger] r@[i]
                    <= '9' || 'a' <= r@[i] <= 'f'
        },
{
}

} // verus!
