use vstd::prelude::*;
use crate::utils::time::{current_instant, MAX_UNIX_SECONDS};

verus! {

/// What a token carries: the user, the user's role and its validity window, in Unix seconds.
#[derive(Debug, PartialEq, Eq)]
pub struct Claims {
    pub sub: String,
    pub role_id: String,
    pub exp: usize,
    pub iat: usize,
}

/// Lifetime of an access token: one hour.
pub const ACCESS_TOKEN_LIFETIME_SECONDS: i64 = 3600;

/// Lifetime of a refresh token: seven days.
pub const REFRESH_TOKEN_LIFETIME_SECONDS: i64 = 604800;

/// `claims` name `user_id` and `role_id`, were issued at `now` and expire `lifetime` seconds later.
pub open spec fn claims_issued(claims: Claims, user_id: Seq<char>, role_id: Seq<char>, now: int, lifetime: int) -> bool {
    &&& claims.sub@ == user_id
    &&& claims.role_id@ == role_id
    &&& claims.iat == now as usize
    &&& claims.exp == (now + lifetime) as usize
}

/// The access and refresh claims for a user logging in at `now`.
pub fn token_claims(user_id: &str, role_id: &str, now: i64) -> (pair: (Claims, Claims))
    requires
        0 <= now,
        now + REFRESH_TOKEN_LIFETIME_SECONDS <= MAX_UNIX_SECONDS,
    ensures
        claims_issued(pair.0, user_id@, role_id@, now as int, ACCESS_TOKEN_LIFETIME_SECONDS as int),
        claims_issued(pair.1, user_id@, role_id@, now as int, REFRESH_TOKEN_LIFETIME_SECONDS as int),
{
    let access = Claims {
        sub: String::from_str(user_id),
        role_id: String::from_str(role_id),
        exp: (now + ACCESS_TOKEN_LIFETIME_SECONDS) as usize,
        iat: now as usize,
    };
    let refresh = Claims {
        sub: String::from_str(user_id),
        role_id: String::from_str(role_id),
        exp: (now + REFRESH_TOKEN_LIFETIME_SECONDS) as usize,
        iat: now as usize,
    };
    (access, refresh)
}

/// The access and refresh claims for a user logging in at `now`, or `None` when the refresh
/// expiry would lie beyond the last instant chrono can represent.
pub fn claims_at(user_id: &str, role_id: &str, now: i64) -> (pair: Option<(Claims, Claims)>)
    requires
        0 <= now,
    ensures
        issued_at(pair, user_id@, role_id@, now as int),
{
    if now > MAX_UNIX_SECONDS - REFRESH_TOKEN_LIFETIME_SECONDS {
        None
    } else {
        Some(token_claims(user_id, role_id, now))
    }
}

/// The access and refresh claims for a user logging in now. The clock is read once, so both
/// claims carry the same issue time; what they hold for that reading is `claims_at`'s.
pub fn issue_token_claims(user_id: &str, role_id: &str) -> (pair: Option<(Claims, Claims)>)
    ensures
        exists|now: int|
            0 <= now <= MAX_UNIX_SECONDS && #[trigger] issued_at(pair, user_id@, role_id@, now),
{
    let (now, _) = current_instant();
    let pair = claims_at(user_id, role_id, now);
    assert(issued_at(pair, user_id@, role_id@, now as int));
    pair
}

/// What issuing at `now` yields: the two claims, or nothing when the refresh expiry is out of range.
pub open spec fn issued_at(pair: Option<(Claims, Claims)>, user_id: Seq<char>, role_id: Seq<char>, now: int) -> bool {
    match pair {
        Some(p) => {
            &&& now + REFRESH_TOKEN_LIFETIME_SECONDS <= MAX_UNIX_SECONDS
            &&& claims_issued(p.0, user_id, role_id, now, ACCESS_TOKEN_LIFETIME_SECONDS as int)
            &&& claims_issued(p.1, user_id, role_id, now, REFRESH_TOKEN_LIFETIME_SECONDS as int)
        },
        None => now + REFRESH_TOKEN_LIFETIME_SECONDS > MAX_UNIX_SECONDS,
    }
}

/// Both tokens of a login name the same account and role and share their issue time; the access
/// token expires one hour and the refresh token seven days after it, so the refresh token
/// outlives the access token (while the times fit in a `usize`).
pub proof fn law_refresh_outlives_access(pair: (Claims, Claims), user_id: Seq<char>, role_id: Seq<char>, now: int)
    requires
        issued_at(Some(pair), user_id, role_id, now),
        0 <= now,
        now + REFRESH_TOKEN_LIFETIME_SECONDS <= usize::MAX,
    ensures
        pair.0.sub@ == pair.1.sub@,
        pair.0.role_id@ == pair.1.role_id@,
        pair.0.iat == pair.1.iat,
        pair.0.exp == pair.0.iat + ACCESS_TOKEN_LIFETIME_SECONDS,
        pair.1.exp == pair.1.iat + REFRESH_TOKEN_LIFETIME_SECONDS,
        pair.0.exp < pair.1.exp,
{
}

/// Claims issued at a clock reading `now` carry `now` itself as their issue time: the access
/// token expires one hour after the reading and the refresh token seven days after it; no
/// claims are issued only when that refresh expiry lies beyond chrono's last instant (times
/// taken where they fit in a `usize`).
pub proof fn law_claims_carry_the_reading(pair: Option<(Claims, Claims)>, user_id: Seq<char>, role_id: Seq<char>, now: int)
    requires
        issued_at(pair, user_id, role_id, now),
        0 <= now,
        now + 604800 <= usize::MAX,
    ensures
        pair matches Some(p) ==> {
            &&& p.0.iat as int == now
            &&& p.1.iat as int == now
            &&& p.0.exp as int == now + 3600
            &&& p.1.exp as int == now + 604800
            &&& p.0.sub@ == user_id && p.1.sub@ == user_id
        },
        pair is None <==> now + 604800 > MAX_UNIX_SECONDS,
{
}

} // verus!
