//! Account identifiers and their syntactic validity.

use vstd::prelude::*;
use vstd::string::*;

verus! {

/// Shortest account identifier, in bytes.
pub const MIN_ACCOUNT_ID_LEN: usize = 2;

/// Longest account identifier, in bytes.
pub const MAX_ACCOUNT_ID_LEN: usize = 64;

/// A lower-case letter or a digit.
pub open spec fn is_account_alnum(b: u8) -> bool {
    (0x61 <= b <= 0x7a) || (0x30 <= b <= 0x39)
}

/// One of the separators `-`, `_` and `.`.
pub open spec fn is_account_separator(b: u8) -> bool {
    b == 0x2d || b == 0x5f || b == 0x2e
}

/// The bytes form a valid account identifier: between 2 and 64 bytes, each a
/// lower-case letter, a digit or a separator, where no separator stands first,
/// last, or directly behind another separator.
pub open spec fn valid_account_bytes(id: Seq<u8>) -> bool {
    &&& MIN_ACCOUNT_ID_LEN <= id.len() <= MAX_ACCOUNT_ID_LEN
    &&& forall|i: int| 0 <= i < id.len() ==> is_account_alnum(#[trigger] id[i]) || is_account_separator(id[i])
    &&& !is_account_separator(id[0])
    &&& !is_account_separator(id[id.len() - 1])
    &&& forall|i: int| 0 < i < id.len() ==> !(is_account_separator(#[trigger] id[i]) && is_account_separator(id[i - 1]))
}

/// The text, taken as its UTF-8 bytes, is a valid account identifier.
pub open spec fn account_id_valid(id: Seq<char>) -> bool {
    valid_account_bytes(vstd::utf8::encode_utf8(id))
}

/// Calls `near_sdk::env::is_valid_account_id` on the UTF-8 bytes of `id`.
/// Trusted: the result is `true` exactly when the bytes are 2 to 64 in number,
/// each is one of `a-z`, `0-9`, `-`, `_`, `.`, and no separator stands first,
/// last, or next to another separator.
#[verifier::external_body]
pub(crate) fn sdk_is_valid_account_id(id: &String) -> (ok: bool)
    ensures
        ok == account_id_valid(id@),
{
    near_sdk::env::is_valid_account_id(id.as_bytes())
}

/// Whether `id` is a syntactically valid account identifier.
pub fn is_valid_account_id(id: &String) -> (ok: bool)
    ensures
        ok == account_id_valid(id@),
{
    sdk_is_valid_account_id(id)
}

} // verus!
