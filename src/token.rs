use rand::distributions::DistString;
use vstd::prelude::*;

use crate::domain::is_ascii_alnum;

verus! {

/// Length of a confirmation token, in characters.
pub const TOKEN_LEN: usize = 25;

/// A confirmation token: a fixed number of ASCII letters and digits.
pub open spec fn is_valid_token(t: Seq<char>) -> bool {
    &&& t.len() == TOKEN_LEN
    &&& forall|i: int| 0 <= i < t.len() ==> is_ascii_alnum(#[trigger] t[i])
}

/// Relies on `Alphanumeric::sample_string` (rand) over `rand::thread_rng()`: it
/// appends `len` samples, each one of the bytes `A-Z`, `a-z`, `0-9`.
#[verifier::external_body]
fn random_alphanumeric(len: usize) -> (r: String)
    ensures
        r@.len() == len,
        forall|i: int| 0 <= i < r@.len() ==> is_ascii_alnum(#[trigger] r@[i]),
{
    rand::distributions::Alphanumeric.sample_string(&mut rand::thread_rng(), len)
}

/// Draws a fresh confirmation token.
pub fn generate_subscription_token() -> (r: String)
    ensures
        is_valid_token(r@),
{
    random_alphanumeric(TOKEN_LEN)
}

/// Whether `t` has the shape of a confirmation token.
pub fn is_token_shaped(t: &str) -> (r: bool)
    ensures
        r == is_valid_token(t@),
{
    let cs = crate::domain::chars_of(t);
    if cs.len() != TOKEN_LEN {
        return false;
    }
    let mut i: usize = 0;
    while i < cs.len()
        invariant
            i <= cs@.len(),
            cs@ == t@,
            forall|k: int| 0 <= k < i ==> is_ascii_alnum(#[trigger] cs@[k]),
        decreases cs.len() - i,
    {
        let c = cs[i];
        if !(('a' <= c && c <= 'z') || ('A' <= c && c <= 'Z') || ('0' <= c && c <= '9')) {
            assert(t@[i as int] == c);
            return false;
        }
        i = i + 1;
    }
    true
}

} // verus!
