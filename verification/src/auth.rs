//! Login-session logic behind the authentication endpoints: how a session
//! record is assembled from the fetched user profile and guild list, how
//! long it lives, and the staged decisions of the request guard that first
//! consults the session cache, then the token store, and only then
//! revalidates the token against the remote API.

use std::collections::HashMap;

use vstd::prelude::*;

use crate::discord::DiscordUser;
use crate::discord::LoggedUser;
use crate::session_cache::has_key;
use crate::session_cache::key_index;
use crate::session_cache::promote;
use crate::session_cache::session_insert_spec;
use crate::session_cache::value_of;
use crate::session_cache::SessionCache;

verus! {

broadcast use vstd::std_specs::hash::group_hash_axioms;

/// The OAuth provider marker for the login flow.
#[derive(Debug, Clone, Copy, PartialEq, Eq, Structural)]
pub struct Discord;

/// Why a request carried no usable user: no token cookie at all, a token
/// the store does not know, or a failure while checking.
#[derive(Debug, Clone, Copy, PartialEq, Eq, Structural)]
pub enum UserAuthError {
    NoToken,
    InvalidToken,
    InternalError,
}

/// The authenticated caller of a request: the bearer token it presented.
#[derive(Debug, PartialEq, Eq)]
pub struct User {
    pub token: String,
}

impl Clone for User {
    /// A clone keeps the token.
    fn clone(&self) -> (r: Self)
        ensures
            r == *self,
    {
        User { token: self.token.clone() }
    }
}

/// What normalizing an avatar does: the animated-avatar marker prefix is
/// stripped, anything else is kept as it is.
pub open spec fn spec_normalized_avatar(a: Option<Seq<char>>) -> Option<Seq<char>> {
    match a {
        Some(s) => Some(
            if s.len() >= 2 && s[0] == '_' && s[1] == 'a' {
                s.subrange(2, s.len() as int)
            } else {
                s
            },
        ),
        None => None,
    }
}

/// Strips the animated-avatar marker prefix off an avatar name.
pub fn normalize_avatar(avatar: Option<String>) -> (r: Option<String>)
    ensures
        (match r {
            Some(s) => Some(s@),
            None => None,
        }) == spec_normalized_avatar(
            match avatar {
                Some(s) => Some(s@),
                None => None,
            },
        ),
{
    match avatar {
        Some(s) => {
            let len = s.as_str().unicode_len();
            if len >= 2 {
                let c0 = s.as_str().get_char(0);
                let c1 = s.as_str().get_char(1);
                if c0 == '_' && c1 == 'a' {
                    let stripped = s.as_str().substring_char(2, len);
                    return Some(stripped.to_owned());
                }
            }
            Some(s)
        },
        None => None,
    }
}

/// When a fresh login's session expires: the announced lifetime (clamped to
/// be non-negative, an hour if none was announced) after now, saturating at
/// the clock's end.
pub open spec fn spec_login_expiry(now_ms: u64, expires_in_secs: Option<i64>) -> u64 {
    let secs: int = match expires_in_secs {
        Some(v) => if v >= 0 {
            v as int
        } else {
            0
        },
        None => 3600,
    };
    if now_ms + secs * 1000 > u64::MAX {
        u64::MAX
    } else {
        (now_ms + secs * 1000) as u64
    }
}

/// Computes a fresh login's expiry instant.
pub fn login_expiry(now_ms: u64, expires_in_secs: Option<i64>) -> (r: u64)
    ensures
        r == spec_login_expiry(now_ms, expires_in_secs),
{
    let secs: u64 = match expires_in_secs {
        Some(v) => if v >= 0 {
            v as u64
        } else {
            0
        },
        None => 3600,
    };
    let wide: u128 = now_ms as u128 + secs as u128 * 1000;
    if wide > u64::MAX as u128 {
        u64::MAX
    } else {
        wide as u64
    }
}

/// When a revalidated session expires: at the token's own expiry instant,
/// or at once if that has passed or none is known.
pub open spec fn spec_revalidated_expiry(now_ms: u64, token_expiry_ms: Option<u64>) -> u64 {
    match token_expiry_ms {
        Some(e) => if e > now_ms {
            e
        } else {
            now_ms
        },
        None => now_ms,
    }
}

/// Computes a revalidated session's expiry instant.
pub fn revalidated_expiry(now_ms: u64, token_expiry_ms: Option<u64>) -> (r: u64)
    ensures
        r == spec_revalidated_expiry(now_ms, token_expiry_ms),
{
    match token_expiry_ms {
        Some(e) => if e > now_ms {
            e
        } else {
            now_ms
        },
        None => now_ms,
    }
}

/// Assembles the session record cached for a logged-in user: the fetched
/// profile with its avatar normalized, the expiry instant, and the guild
/// permission map.
pub fn make_logged_user(user: DiscordUser, guilds: HashMap<u64, u64>, expires_at: u64) -> (r:
    LoggedUser)
    ensures
        r@.expires_at == expires_at,
        r@.user_id == user.id,
        (match r@.user_icon {
            Some(s) => Some(s@),
            None => None,
        }) == spec_normalized_avatar(
            match user.avatar {
                Some(s) => Some(s@),
                None => None,
            },
        ),
        r@.username == user.username,
        r@.discriminator == user.discriminator,
        r@.guilds == guilds@,
{
    LoggedUser {
        expires_at,
        user_id: user.id,
        user_icon: normalize_avatar(user.avatar),
        username: user.username,
        discriminator: user.discriminator,
        guilds,
    }
}

/// The first stage of authenticating a request: what the cache alone can
/// decide.
#[derive(Debug, PartialEq, Eq)]
pub enum CachedAuthStep {
    Authorized(User),
    CheckStore(String),
    NoToken,
}

/// Decides a request from the session cache alone: no cookie fails at once,
/// a cached token succeeds (and counts as a use), an uncached one must be
/// checked against the token store.
pub fn auth_cached_step(sessions: &mut SessionCache, cookie_token: Option<String>) -> (r:
    CachedAuthStep)
    requires
        old(sessions).wf(),
    ensures
        final(sessions).wf(),
        final(sessions)@.cap == old(sessions)@.cap,
        final(sessions)@.reverse == old(sessions)@.reverse,
        match cookie_token {
            None => r == CachedAuthStep::NoToken && final(sessions)@.sessions == old(sessions)@.sessions,
            Some(t) => {
                let s = old(sessions)@.sessions;
                let i = key_index(s, t@);
                if i >= 0 {
                    r matches CachedAuthStep::Authorized(u) && u.token@ == t@ && final(sessions)@.sessions == promote(s, i)
                } else {
                    r matches CachedAuthStep::CheckStore(t2) && t2@ == t@ && final(sessions)@.sessions == s
                }
            },
        },
    {
    match cookie_token {
        None => CachedAuthStep::NoToken,
        Some(token) => {
            match sessions.get(&token) {
                Some(_) => CachedAuthStep::Authorized(User { token }),
                None => CachedAuthStep::CheckStore(token),
            }
        },
    }
}

/// Decides the token-store stage of authenticating a request: a store
/// failure is an internal error, an unknown token is invalid, a known one
/// goes on to revalidation against the remote API.
pub fn auth_store_step(store_lookup: Option<bool>) -> (r: Result<(), UserAuthError>)
    ensures
        r == match store_lookup {
            None => Result::<(), UserAuthError>::Err(UserAuthError::InternalError),
            Some(false) => Result::<(), UserAuthError>::Err(UserAuthError::InvalidToken),
            Some(true) => Result::<(), UserAuthError>::Ok(()),
        },
{
    match store_lookup {
        None => Err(UserAuthError::InternalError),
        Some(false) => Err(UserAuthError::InvalidToken),
        Some(true) => Ok(()),
    }
}

/// Finishes authenticating a revalidated token: assembles the session from
/// the freshly fetched profile and guild list and caches it under the
/// token, replacing whatever the cache held for that token or user.
pub fn auth_revalidate_finish(
    sessions: &mut SessionCache,
    token: String,
    user: DiscordUser,
    guilds: HashMap<u64, u64>,
    expires_at: u64,
) -> (r: User)
    requires
        old(sessions).wf(),
    ensures
        final(sessions).wf(),
        final(sessions)@.cap == old(sessions)@.cap,
        r.token@ == token@,
        final(sessions)@.sessions.len() > 0,
        final(sessions)@.sessions[0].0 == token@,
        final(sessions)@.sessions[0].1.user_id == user.id,
        final(sessions)@.sessions[0].1.expires_at == expires_at,
        final(sessions)@.sessions[0].1.guilds == guilds@,
        has_key(final(sessions)@.reverse, user.id),
        value_of(final(sessions)@.reverse, user.id) == token@,
    {
    let token_out = token.clone();
    let session = make_logged_user(user, guilds, expires_at);
    let ghost sv = session@;
    sessions.insert_or_refresh(token, session);
    proof {
        assert(final(sessions)@.sessions == session_insert_spec(
            old(sessions)@.sessions,
            token@,
            sv,
            old(sessions)@.cap,
        ));
    }
    User { token: token_out }
}

} // verus!
