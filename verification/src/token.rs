//! Tokens: the credential that a device is given when it subscribes.

use uuid::Uuid;
use vstd::prelude::*;

verus! {

/// Whether `c` is a hexadecimal digit in lower case.
pub open spec fn is_lower_hex(c: char) -> bool {
    ('0' <= c && c <= '9') || ('a' <= c && c <= 'f')
}

/// The textual form of a random UUID: 36 characters, hyphens after the
/// 8th, 12th, 16th and 20th digit, every other character a hexadecimal
/// digit in lower case, of which the 13th is the version, 4, and the 17th
/// carries the variant.
pub open spec fn is_token_text(s: Seq<char>) -> bool {
    &&& s.len() == 36
    &&& forall|i: int|
        0 <= i < 36 ==> if i == 8 || i == 13 || i == 18 || i == 23 {
            #[trigger] s[i] == '-'
        } else {
            is_lower_hex(s[i])
        }
    &&& s[14] == '4'
    &&& (s[19] == '8' || s[19] == '9' || s[19] == 'a' || s[19] == 'b')
}

/// Mints a token: `uuid::Uuid::new_v4`, written out by its `Display`.
///
/// The value is random, so two calls may differ and nothing is claimed
/// of which token comes back, only of its form: `new_v4` fixes the version
/// and variant bits, and `Display` writes the hyphenated lower-case form.
/// `new_v4` panics when the operating system cannot supply random bytes.
#[verifier::external_body]
pub(crate) fn mint_token() -> (token: String)
    ensures
        is_token_text(token@),
{
    format!("{}", Uuid::new_v4())
}

} // verus!
