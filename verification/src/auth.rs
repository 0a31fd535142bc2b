//! The guard on protected routes: a shared secret carried as a bearer token.

use vstd::prelude::*;
use crate::text::{chars_of, same_text};

verus! {

/// The text that opens an `Authorization` header carrying a bearer token:
/// the word `Bearer` and one space.
pub open spec fn bearer_prefix() -> Seq<char> {
    seq!['B', 'e', 'a', 'r', 'e', 'r', ' ']
}

/// The token that a header value carries: what follows the bearer prefix,
/// or nothing where the value does not open with it.
pub open spec fn token_of(header: Seq<char>) -> Option<Seq<char>> {
    if bearer_prefix().is_prefix_of(header) {
        Some(header.subrange(7, header.len() as int))
    } else {
        None
    }
}

/// A request is authorized exactly when it has an `Authorization` header
/// whose token is the secret, character for character.
pub open spec fn authorized(header: Option<Seq<char>>, secret: Seq<char>) -> bool {
    match header {
        Some(h) => token_of(h) == Some(secret),
        None => false,
    }
}

/// A header value is accepted exactly when it is the bearer prefix followed
/// by the secret.
pub proof fn lemma_authorized_header(header: Seq<char>, secret: Seq<char>)
    ensures
        authorized(Some(header), secret) <==> header == bearer_prefix() + secret,
{
    let p = bearer_prefix();
    if authorized(Some(header), secret) {
        assert(header =~= p + secret);
    }
    if header == p + secret {
        assert(p =~= header.subrange(0, 7));
        assert(header.subrange(7, header.len() as int) =~= secret);
    }
}

/// Extracts the bearer token from the value of an `Authorization` header.
pub fn bearer_token(header: &str) -> (token: Option<&str>)
    ensures
        match token {
            Some(t) => token_of(header@) == Some(t@),
            None => token_of(header@) is None,
        },
{
    let h = chars_of(header);
    let n = h.len();
    if n < 7 {
        return None;
    }
    if h[0] == 'B' && h[1] == 'e' && h[2] == 'a' && h[3] == 'r' && h[4] == 'e' && h[5] == 'r'
        && h[6] == ' ' {
        assert(bearer_prefix() =~= header@.subrange(0, 7));
        Some(header.substring_char(7, n))
    } else {
        assert(bearer_prefix() != header@.subrange(0, 7)) by {
            let p = bearer_prefix();
            let q = header@.subrange(0, 7);
            if p == q {
                assert(p[0] == q[0] && p[1] == q[1] && p[2] == q[2] && p[3] == q[3]
                    && p[4] == q[4] && p[5] == q[5] && p[6] == q[6]);
            }
        }
        None
    }
}

/// Decides whether a request may pass the guard, given the value of its
/// `Authorization` header, if it has one, and the configured secret.
pub fn authorize(header: Option<&str>, secret: &str) -> (ok: bool)
    ensures
        ok == authorized(
            match header {
                Some(h) => Some(h@),
                None => None,
            },
            secret@,
        ),
{
    match header {
        Some(h) => match bearer_token(h) {
            Some(token) => same_text(token, secret),
            None => false,
        },
        None => false,
    }
}

} // verus!
