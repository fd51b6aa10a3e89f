//! Which strings are valid NEAR account ids.

use vstd::prelude::*;

verus! {

pub open spec fn is_separator(c: char) -> bool {
    c == '-' || c == '_' || c == '.'
}

pub open spec fn is_account_char(c: char) -> bool {
    ('a' <= c && c <= 'z') || ('0' <= c && c <= '9') || is_separator(c)
}

/// A valid account id: 2 to 64 characters from `a-z`, `0-9`, `-`, `_`, `.`,
/// where a separator neither starts nor ends the id nor follows another one.
pub open spec fn valid_account_id(s: Seq<char>) -> bool {
    &&& 2 <= s.len() <= 64
    &&& forall|i: int| 0 <= i < s.len() ==> is_account_char(#[trigger] s[i])
    &&& !is_separator(s[0])
    &&& !is_separator(s[s.len() - 1])
    &&& forall|i: int| 0 <= i < s.len() - 1 ==> !(is_separator(#[trigger] s[i]) && is_separator(s[i + 1]))
}

/// Calls `near_sdk::env::is_valid_account_id` on the UTF-8 bytes of `account_id`.
/// That function accepts 2 to 64 bytes from `a-z`, `0-9`, `-`, `_`, `.` where no
/// separator starts or ends the id or follows another separator; a character
/// outside ASCII yields bytes outside that set, so the answer is the same
/// predicate over the characters.
#[verifier::external_body]
pub fn is_valid_account_id(account_id: &String) -> (valid: bool)
    ensures
        valid == valid_account_id(account_id@),
{
    near_sdk::env::is_valid_account_id(account_id.as_bytes())
}

} // verus!
