use vstd::prelude::*;
use vstd::utf8::{decode_utf8, valid_utf8};

verus! {

/// The bytes that a Basic credential header starts with: `Basic `.
pub open spec fn basic_prefix() -> Seq<u8> {
    seq![66u8, 97u8, 115u8, 105u8, 99u8, 32u8]
}

/// A header byte that reads as text: visible ASCII, space or tab.
pub open spec fn is_visible_ascii(b: u8) -> bool {
    (32 <= b && b < 127) || b == 9
}

/// What base64 decoding in the standard alphabet makes of `s`, or `None`
/// where `s` is not such an encoding.
pub uninterp spec fn base64_decoded(s: Seq<u8>) -> Option<Seq<u8>>;

/// Relies on `base64::decode_config(s, base64::STANDARD)`: the bytes encoded by
/// `s` in the standard alphabet (padding optional), or an error where `s` is not
/// such an encoding; the result depends on `s` alone.
#[verifier::external_body]
fn decode_base64(s: &Vec<u8>) -> (r: Option<Vec<u8>>)
    ensures
        match r {
            Some(v) => base64_decoded(s@) == Some(v@),
            None => base64_decoded(s@) is None,
        },
{
    base64::decode_config(s, base64::STANDARD).ok()
}

/// Relies on `String::from_utf8`: it succeeds exactly on well-formed UTF-8 and
/// then holds the characters that the bytes encode.
#[verifier::external_body]
fn utf8_string(b: Vec<u8>) -> (r: Option<String>)
    ensures
        match r {
            Some(s) => valid_utf8(b@) && s@ == decode_utf8(b@),
            None => !valid_utf8(b@),
        },
{
    String::from_utf8(b).ok()
}

/// Why a request's credentials were refused.
#[derive(PartialEq, Eq, Structural, Clone, Copy, Debug)]
pub enum AuthError {
    MissingHeader,
    NotVisibleAscii,
    NotBasicScheme,
    NotBase64,
    NotUtf8,
    MissingPassword,
}

impl AuthError {
    /// What went wrong, in words.
    pub fn message(&self) -> (r: &'static str)
        ensures
            r@ == match *self {
                AuthError::MissingHeader => "The 'Authorization' header was missing"@,
                AuthError::NotVisibleAscii => "The 'Authorization' header was not a valid UTF-8 string"@,
                AuthError::NotBasicScheme => "The authorization scheme was not 'Basic'"@,
                AuthError::NotBase64 => "Failed to B64 decode 'Basic' credentials"@,
                AuthError::NotUtf8 => "Decoded B64 credential string is not valid UTF-8"@,
                AuthError::MissingPassword => "A password must be present in 'Basic' auth"@,
            },
    {
        match self {
            AuthError::MissingHeader => "The 'Authorization' header was missing",
            AuthError::NotVisibleAscii => "The 'Authorization' header was not a valid UTF-8 string",
            AuthError::NotBasicScheme => "The authorization scheme was not 'Basic'",
            AuthError::NotBase64 => "Failed to B64 decode 'Basic' credentials",
            AuthError::NotUtf8 => "Decoded B64 credential string is not valid UTF-8",
            AuthError::MissingPassword => "A password must be present in 'Basic' auth",
        }
    }
}

/// A user name and password as a Basic credential header carries them.
pub struct Credentials {
    pub username: String,
    pub password: String,
}

/// Index of the first `c` in `s`, or `s.len()` where there is none.
pub open spec fn first_index_of(s: Seq<char>, c: char) -> int
    decreases s.len(),
{
    if s.len() == 0 {
        0
    } else if s[0] == c {
        0
    } else {
        1 + first_index_of(s.drop_first(), c)
    }
}

/// `user:password` split at its first colon; `None` where there is no colon.
pub open spec fn split_credentials(s: Seq<char>) -> Option<(Seq<char>, Seq<char>)> {
    let i = first_index_of(s, ':');
    if i < s.len() {
        Some((s.subrange(0, i), s.subrange(i + 1, s.len() as int)))
    } else {
        None
    }
}

/// What the decoded payload of a Basic credential yields: UTF-8 text
/// `user:password`, split at its first colon.
pub open spec fn decoded_credentials_of(d: Seq<u8>) -> Result<(Seq<char>, Seq<char>), AuthError> {
    if !valid_utf8(d) {
        Err(AuthError::NotUtf8)
    } else {
        match split_credentials(decode_utf8(d)) {
            None => Err(AuthError::MissingPassword),
            Some(p) => Ok(p),
        }
    }
}

/// What a Basic credential header yields: the user name and password, or the
/// first check that it fails.
pub open spec fn basic_credentials_of(header: Option<Seq<u8>>) -> Result<(Seq<char>, Seq<char>), AuthError> {
    match header {
        None => Err(AuthError::MissingHeader),
        Some(h) => if !(forall|i: int| 0 <= i < h.len() ==> is_visible_ascii(#[trigger] h[i])) {
            Err(AuthError::NotVisibleAscii)
        } else if !(h.len() >= 6 && h.subrange(0, 6) == basic_prefix()) {
            Err(AuthError::NotBasicScheme)
        } else {
            match base64_decoded(h.subrange(6, h.len() as int)) {
                None => Err(AuthError::NotBase64),
                Some(d) => decoded_credentials_of(d),
            }
        },
    }
}

proof fn lemma_first_index_of(s: Seq<char>, c: char)
    ensures
        0 <= first_index_of(s, c) <= s.len(),
        forall|k: int| 0 <= k < first_index_of(s, c) ==> #[trigger] s[k] != c,
        first_index_of(s, c) < s.len() ==> s[first_index_of(s, c)] == c,
    decreases s.len(),
{
    if s.len() > 0 && s[0] != c {
        lemma_first_index_of(s.drop_first(), c);
        assert forall|k: int| 0 <= k < first_index_of(s, c) implies #[trigger] s[k] != c by {
            if k > 0 {
                assert(s[k] == s.drop_first()[k - 1]);
            }
        }
    }
}

/// The only index `i` with no `c` before it and `c` at it (or at the end) is
/// the first index of `c`.
proof fn lemma_first_index_unique(s: Seq<char>, c: char, i: int)
    requires
        0 <= i <= s.len(),
        forall|k: int| 0 <= k < i ==> #[trigger] s[k] != c,
        i < s.len() ==> s[i] == c,
    ensures
        first_index_of(s, c) == i,
{
    lemma_first_index_of(s, c);
    let f = first_index_of(s, c);
    if f < i {
        assert(s[f] == c);
    } else if i < f {
        assert(s[i] != c);
    }
}

/// Reads Basic credentials from the raw `Authorization` header, if any. The
/// header must be visible ASCII, start with `Basic `, and carry the base64
/// encoding of UTF-8 text `user:password` (split at the first colon).
pub fn basic_authentication(header: Option<&[u8]>) -> (r: Result<Credentials, AuthError>)
    ensures
        match header {
            None => basic_credentials_of(None),
            Some(h) => basic_credentials_of(Some(h@)),
        } == match r {
            Ok(c) => Ok((c.username@, c.password@)),
            Err(e) => Err::<(Seq<char>, Seq<char>), AuthError>(e),
        },
{
    let h = match header {
        None => return Err(AuthError::MissingHeader),
        Some(h) => h,
    };
    let mut i: usize = 0;
    while i < h.len()
        invariant
            header == Some(h),
            i <= h@.len(),
            forall|k: int| 0 <= k < i ==> is_visible_ascii(#[trigger] h@[k]),
        decreases h.len() - i,
    {
        let b = h[i];
        if !((32 <= b && b < 127) || b == 9) {
            assert(!is_visible_ascii(h@[i as int]));
            return Err(AuthError::NotVisibleAscii);
        }
        i = i + 1;
    }
    if h.len() < 6 || h[0] != 66 || h[1] != 97 || h[2] != 115 || h[3] != 105 || h[4] != 99 || h[5] != 32 {
        proof {
            if h@.len() >= 6 && h@.subrange(0, 6) == basic_prefix() {
                assert(h@[0] == h@.subrange(0, 6)[0]);
                assert(h@[1] == h@.subrange(0, 6)[1]);
                assert(h@[2] == h@.subrange(0, 6)[2]);
                assert(h@[3] == h@.subrange(0, 6)[3]);
                assert(h@[4] == h@.subrange(0, 6)[4]);
                assert(h@[5] == h@.subrange(0, 6)[5]);
            }
        }
        return Err(AuthError::NotBasicScheme);
    }
    assert(h@.subrange(0, 6) =~= basic_prefix());
    let mut encoded: Vec<u8> = Vec::new();
    let mut j: usize = 6;
    while j < h.len()
        invariant
            6 <= j <= h@.len(),
            encoded@ == h@.subrange(6, j as int),
        decreases h.len() - j,
    {
        encoded.push(h[j]);
        j = j + 1;
    }
    let decoded = match decode_base64(&encoded) {
        None => return Err(AuthError::NotBase64),
        Some(d) => d,
    };
    credentials_from_decoded(decoded)
}

/// Reads `user:password` from the decoded payload of a Basic credential.
pub fn credentials_from_decoded(decoded: Vec<u8>) -> (r: Result<Credentials, AuthError>)
    ensures
        decoded_credentials_of(decoded@) == match r {
            Ok(c) => Ok((c.username@, c.password@)),
            Err(e) => Err::<(Seq<char>, Seq<char>), AuthError>(e),
        },
{
    let text = match utf8_string(decoded) {
        None => return Err(AuthError::NotUtf8),
        Some(t) => t,
    };
    let cs = crate::domain::chars_of(text.as_str());
    let mut colon: usize = 0;
    while colon < cs.len() && cs[colon] != ':'
        invariant
            colon <= cs@.len(),
            forall|k: int| 0 <= k < colon ==> #[trigger] cs@[k] != ':',
        decreases cs.len() - colon,
    {
        colon = colon + 1;
    }
    proof {
        lemma_first_index_unique(cs@, ':', colon as int);
    }
    if colon == cs.len() {
        return Err(AuthError::MissingPassword);
    }
    let username = text.as_str().substring_char(0, colon);
    let password = text.as_str().substring_char(colon + 1, cs.len());
    Ok(Credentials { username: username.to_owned(), password: password.to_owned() })
}

} // verus!
