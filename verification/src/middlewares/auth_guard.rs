use vstd::prelude::*;
use crate::error::{error_response, ErrorResponse};
use crate::utils::jwt::Claims;

verus! {

/// The scheme prefix of an `Authorization` header that carries a token.
pub const BEARER_PREFIX: &'static str = "Bearer ";

/// `s` begins with `p`.
pub open spec fn has_prefix(s: Seq<char>, p: Seq<char>) -> bool {
    p.len() <= s.len() && s.subrange(0, p.len() as int) == p
}

/// `s` with every leading repetition of the non-empty `p` removed.
pub open spec fn strip_prefix_repeatedly(s: Seq<char>, p: Seq<char>) -> Seq<char>
    decreases s.len(),
{
    if p.len() > 0 && has_prefix(s, p) {
        strip_prefix_repeatedly(s.subrange(p.len() as int, s.len() as int), p)
    } else {
        s
    }
}

/// The token a header value carries: `None` unless it begins with `Bearer `; otherwise the
/// value with all leading `Bearer ` prefixes removed.
pub open spec fn bearer_token_of(header: Option<Seq<char>>) -> Option<Seq<char>> {
    match header {
        Some(h) => if has_prefix(h, "Bearer "@) {
            Some(strip_prefix_repeatedly(h, "Bearer "@))
        } else {
            None
        },
        None => None,
    }
}

/// Whether `s[at..at + p.len()]` is `p`, comparing character by character.
fn has_prefix_at(s: &str, len: usize, at: usize, p: &str, plen: usize) -> (found: bool)
    requires
        len == s@.len(),
        plen == p@.len(),
        at <= len,
    ensures
        found == has_prefix(s@.subrange(at as int, len as int), p@),
{
    let ghost rest = s@.subrange(at as int, len as int);
    if plen > len - at {
        return false;
    }
    let mut i: usize = 0;
    while i < plen
        invariant
            len == s@.len(),
            plen == p@.len(),
            at + plen <= len,
            rest == s@.subrange(at as int, len as int),
            i <= plen,
            forall|j: int| 0 <= j < i ==> s@[at + j] == p@[j],
        decreases plen - i,
    {
        if s.get_char(at + i) != p.get_char(i) {
            assert(rest.subrange(0, plen as int)[i as int] != p@[i as int]);
            return false;
        }
        i = i + 1;
    }
    assert(rest.subrange(0, plen as int) =~= p@);
    true
}

/// Removes every leading repetition of `Bearer ` from `header`.
pub fn strip_bearer_prefixes(header: &str) -> (token: String)
    ensures
        token@ == strip_prefix_repeatedly(header@, "Bearer "@),
{
    proof {
        reveal_strlit("Bearer ");
    }
    let len = header.unicode_len();
    let plen = BEARER_PREFIX.unicode_len();
    assert(BEARER_PREFIX@ == "Bearer "@);
    let mut at: usize = 0;
    assert(header@.subrange(0, len as int) =~= header@);
    loop
        invariant
            len == header@.len(),
            plen == 7,
            plen == BEARER_PREFIX@.len(),
            "Bearer "@.len() == 7,
            BEARER_PREFIX@ == "Bearer "@,
            at <= len,
            strip_prefix_repeatedly(header@, "Bearer "@)
                == strip_prefix_repeatedly(header@.subrange(at as int, len as int), "Bearer "@),
        ensures
            at <= len,
            strip_prefix_repeatedly(header@, "Bearer "@) == header@.subrange(at as int, len as int),
        decreases len - at,
    {
        let ghost rest = header@.subrange(at as int, len as int);
        if !has_prefix_at(header, len, at, BEARER_PREFIX, plen) {
            break;
        }
        assert(rest.subrange(7, rest.len() as int) =~= header@.subrange(at + 7, len as int));
        at = at + plen;
    }
    String::from_str(header.substring_char(at, len))
}

/// The token of an `Authorization` header value (`None` when the header is absent or not
/// valid text): present only when the value begins with `Bearer `.
pub fn bearer_token(header: Option<&str>) -> (token: Option<String>)
    ensures
        match (token, bearer_token_of(match header { Some(h) => Some(h@), None => None })) {
            (Some(t), Some(expected)) => t@ == expected,
            (None, None) => true,
            _ => false,
        },
{
    proof {
        reveal_strlit("Bearer ");
    }
    match header {
        Some(h) => {
            let len = h.unicode_len();
            assert(h@.subrange(0, len as int) =~= h@);
            if has_prefix_at(h, len, 0, BEARER_PREFIX, BEARER_PREFIX.unicode_len()) {
                Some(strip_bearer_prefixes(h))
            } else {
                None
            }
        },
        None => None,
    }
}

/// The rejection of a request without a usable bearer header.
pub fn missing_header_rejection() -> (err: ErrorResponse)
    ensures
        err.status == 401,
        err.error@ == "Missing authorization header"@,
{
    error_response(401, "Missing authorization header")
}

/// The rejection of a request whose token did not verify.
pub fn invalid_token_rejection() -> (err: ErrorResponse)
    ensures
        err.status == 401,
        err.error@ == "Invalid or expired token"@,
{
    error_response(401, "Invalid or expired token")
}

/// First step of the guard: the token to verify, or a 401 for a missing or non-bearer header.
pub fn authorization_token(header: Option<&str>) -> (res: Result<String, ErrorResponse>)
    ensures
        match (res, bearer_token_of(match header { Some(h) => Some(h@), None => None })) {
            (Ok(t), Some(expected)) => t@ == expected,
            (Err(e), None) => e.status == 401 && e.error@ == "Missing authorization header"@,
            _ => false,
        },
{
    match bearer_token(header) {
        Some(token) => Ok(token),
        None => Err(missing_header_rejection()),
    }
}

/// Second step of the guard: the claims of a token that verified, or a 401 for one that did not.
pub fn accept_verified_claims(verified: Option<Claims>) -> (res: Result<Claims, ErrorResponse>)
    ensures
        match verified {
            Some(c) => res == Ok::<Claims, ErrorResponse>(c),
            None => res matches Err(e) && e.status == 401 && e.error@ == "Invalid or expired token"@,
        },
{
    match verified {
        Some(claims) => Ok(claims),
        None => Err(invalid_token_rejection()),
    }
}

/// The token handed on for verification never itself begins with `Bearer `: all leading
/// repetitions of the prefix are removed.
pub proof fn law_token_never_keeps_bearer_prefix(header: Seq<char>)
    ensures
        !has_prefix(strip_prefix_repeatedly(header, "Bearer "@), "Bearer "@),
    decreases header.len(),
{
    reveal_strlit("Bearer ");
    let p = "Bearer "@;
    if has_prefix(header, p) {
        law_token_never_keeps_bearer_prefix(header.subrange(p.len() as int, header.len() as int));
    }
}

/// A header made of `Bearer ` followed by a token that does not itself begin with `Bearer `
/// yields exactly that token.
pub proof fn law_bearer_header_yields_its_token(token: Seq<char>)
    requires
        !has_prefix(token, "Bearer "@),
    ensures
        bearer_token_of(Some("Bearer "@ + token)) == Some(token),
{
    reveal_strlit("Bearer ");
    let p = "Bearer "@;
    let h = p + token;
    assert(h.subrange(0, p.len() as int) =~= p);
    assert(h.subrange(p.len() as int, h.len() as int) =~= token);
    reveal_with_fuel(strip_prefix_repeatedly, 2);
}

/// A header that does not begin with `Bearer ` carries no token, so the guard answers it with
/// the missing-header rejection.
pub proof fn law_non_bearer_header_is_rejected(header: Seq<char>)
    requires
        !has_prefix(header, "Bearer "@),
    ensures
        bearer_token_of(Some(header)) is None,
{
}

} // verus!
