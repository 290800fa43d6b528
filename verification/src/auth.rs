//! What a token claims, and the rules on tokens that need no key.

use crate::text::{chars_of, text_of};
use vstd::prelude::*;

verus! {

/// The claims that a token carries.
#[derive(Debug)]
pub struct Claims {
    /// The user's identifier, as text.
    pub sub: String,
    pub username: String,
    /// When the token expires, in seconds since the Unix epoch.
    pub exp: i64,
    /// When the token was issued, in seconds since the Unix epoch.
    pub iat: i64,
    pub device_id: Option<String>,
}

/// For how long a token is good, in seconds: one day.
pub const TOKEN_LIFETIME_SECONDS: i64 = 86_400;

impl Claims {
    /// The claims of a token issued at `now` to the user `sub`, good for
    /// one day. `None` if the day of expiry lies beyond what can be
    /// counted in 64 bits.
    pub fn issue(sub: String, username: String, device_id: Option<String>, now: i64) -> (claims:
        Option<Claims>)
        ensures
            match claims {
                Some(made) => {
                    &&& made.sub == sub
                    &&& made.username == username
                    &&& made.device_id == device_id
                    &&& made.iat == now
                    &&& made.exp == now + 86_400
                },
                None => now + 86_400 > i64::MAX,
            },
    {
        if now > i64::MAX - TOKEN_LIFETIME_SECONDS {
            None
        } else {
            Some(Claims { sub, username, exp: now + TOKEN_LIFETIME_SECONDS, iat: now, device_id })
        }
    }

    /// Whether the token has expired at `now`: whether its expiry lies
    /// before `now`.
    pub fn is_expired(&self, now: i64) -> (expired: bool)
        ensures
            expired == (self.exp < now),
    {
        self.exp < now
    }
}

/// The token in an `Authorization` header: what follows `Bearer `, or
/// `None` if the header does not begin with it.
pub open spec fn bearer_part(header: Seq<char>) -> Option<Seq<char>> {
    if "Bearer "@.is_prefix_of(header) {
        Some(header.skip("Bearer "@.len() as int))
    } else {
        None
    }
}

/// The token that an `Authorization` header carries.
pub fn bearer_token(header: &str) -> (token: Option<String>)
    ensures
        match bearer_part(header@) {
            Some(part) => token matches Some(found) && found@ == part,
            None => token is None,
        },
{
    let scheme = chars_of("Bearer ");
    let chars = chars_of(header);
    if scheme.len() > chars.len() {
        return None;
    }
    let mut i: usize = 0;
    while i < scheme.len()
        invariant
            i <= scheme.len() <= chars.len(),
            scheme@ == "Bearer "@,
            chars@ == header@,
            forall|j: int| 0 <= j < i ==> scheme@[j] == chars@[j],
        decreases scheme.len() - i,
    {
        if scheme[i] != chars[i] {
            proof {
                assert(chars@.subrange(0, scheme.len() as int)[i as int] == chars@[i as int]);
            }
            return None;
        }
        i += 1;
    }
    proof {
        assert(scheme@ =~= chars@.subrange(0, scheme.len() as int));
        assert(chars@.subrange(scheme.len() as int, chars.len() as int) =~= header@.skip(
            scheme.len() as int,
        ));
    }
    Some(text_of(&chars, scheme.len(), chars.len()))
}

} // verus!
