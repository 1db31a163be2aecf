//! Tokens of services that users sign in to, and requests that carry one.

use vstd::prelude::*;

use crate::json::{new_object, new_text, rendered, set_member, write_value, JsonVal};
use crate::providers::common::Reply;
use crate::text::cat::{cat, cat3};

verus! {

/// A token, as it is kept.
#[derive(Debug, Clone)]
pub struct CachedToken {
    pub access_token: String,
    pub refresh_token: String,
    /// When it expires, in seconds since 1970.
    pub expires_at: u64,
}

/// What a verb does to have a token.
#[derive(Debug)]
pub enum TokenStep {
    /// It uses the one that is kept.
    Use(String),
    /// It asks for a new one with the refresh token.
    Refresh(String),
    /// It has the user sign in.
    SignIn,
}

/// What a verb does to have a token, given the one that is kept and the time:
/// a token is used before it expires and refreshed from then on.
pub fn token_step(cached: Option<CachedToken>, now: u64) -> (r: TokenStep)
    ensures
        match cached {
            Some(t) => if now < t.expires_at {
                r == TokenStep::Use(t.access_token)
            } else {
                r == TokenStep::Refresh(t.refresh_token)
            },
            None => r == TokenStep::SignIn,
        },
{
    match cached {
        Some(t) => if now < t.expires_at {
            TokenStep::Use(t.access_token)
        } else {
            TokenStep::Refresh(t.refresh_token)
        },
        None => TokenStep::SignIn,
    }
}

/// What a verb does after it asked for a new token with the refresh token.
#[derive(Debug)]
pub enum RefreshStep {
    /// It keeps the new token and uses it.
    Keep(CachedToken),
    /// It has the user sign in, since refreshing failed for the given reason.
    SignIn(String),
}

/// What follows the attempt to refresh a token: one that failed is no error,
/// but leads to a sign-in.
pub fn after_refresh(r: Result<CachedToken, String>) -> (s: RefreshStep)
    ensures
        match r {
            Ok(t) => s == RefreshStep::Keep(t),
            Err(e) => s == RefreshStep::SignIn(e),
        },
{
    match r {
        Ok(t) => RefreshStep::Keep(t),
        Err(e) => RefreshStep::SignIn(e),
    }
}

/// When a token that lives for the given time expires: a minute early, so
/// that it is still good when it is used.
pub open spec fn expiry(now: nat, expires_in: nat) -> nat {
    if expires_in >= 60 {
        (now + expires_in - 60) as nat
    } else {
        now
    }
}

/// When a token that lives for the given time expires.
pub fn expires_at(now: u64, expires_in: u64) -> (r: u64)
    requires
        expiry(now as nat, expires_in as nat) <= u64::MAX,
    ensures
        r == expiry(now as nat, expires_in as nat),
{
    if expires_in >= 60 {
        now + (expires_in - 60)
    } else {
        now
    }
}

/// A token that lives for more than a minute is used as soon as it is kept,
/// and no longer when its time is up.
pub proof fn token_is_used_while_it_lives(now: nat, later: nat, expires_in: nat)
    requires
        expires_in > 60,
    ensures
        now < expiry(now, expires_in),
        later >= now + expires_in ==> later >= expiry(now, expires_in),
{
}

/// What comes of asking for a token: the token, or the message that begins
/// with `failed` where the request failed, and with `unread` where its answer
/// could not be read.
pub open spec fn token_reply_is<T>(
    reply: Reply<T>,
    failed: Seq<char>,
    unread: Seq<char>,
    r: Result<T, String>,
) -> bool {
    match reply {
        Reply::HttpError(e) => r matches Err(m) && m@ == failed + ": "@ + e@,
        Reply::ParseError(e) => r matches Err(m) && m@ == unread + ": "@ + e@,
        Reply::Parsed(t) => r == Ok::<T, String>(t),
    }
}

/// What comes of exchanging the code of a sign-in.
pub fn exchange_code<T>(reply: Reply<T>) -> (r: Result<T, String>)
    ensures
        token_reply_is(reply, "token exchange failed"@, "parse token response"@, r),
{
    match reply {
        Reply::HttpError(e) => Err(
            cat3("token exchange failed", ": ", e.as_str()),
        ),
        Reply::ParseError(e) => Err(
            cat3("parse token response", ": ", e.as_str()),
        ),
        Reply::Parsed(t) => Ok(t),
    }
}

/// What comes of refreshing a token.
pub fn refresh_access_token<T>(reply: Reply<T>) -> (r: Result<T, String>)
    ensures
        token_reply_is(reply, "token refresh failed"@, "parse refresh response"@, r),
{
    match reply {
        Reply::HttpError(e) => Err(
            cat3("token refresh failed", ": ", e.as_str()),
        ),
        Reply::ParseError(e) => Err(
            cat3("parse refresh response", ": ", e.as_str()),
        ),
        Reply::Parsed(t) => Ok(t),
    }
}

/// A request that carries a token, with one more header where it is given.
pub open spec fn authorized(
    url: Seq<char>,
    token: Seq<char>,
    extra: Option<(Seq<char>, Seq<char>)>,
) -> JsonVal {
    let h = Map::<Seq<char>, JsonVal>::empty().insert(
        "Authorization"@,
        JsonVal::Str("Bearer "@ + token),
    );
    let h = match extra {
        Some((k, v)) => h.insert(k, JsonVal::Str(v)),
        None => h,
    };
    JsonVal::Obj(
        Map::<Seq<char>, JsonVal>::empty().insert("url"@, JsonVal::Str(url)).insert(
            "body"@,
            JsonVal::Str(""@),
        ).insert("__stui_headers"@, JsonVal::Obj(h)),
    )
}

/// The text of a request that carries a token.
pub fn authorized_payload(url: &str, token: &str, extra: Option<(&str, &str)>) -> (r: String)
    ensures
        r@ == rendered(
            authorized(
                url@,
                token@,
                match extra {
                    Some((k, v)) => Some((k@, v@)),
                    None => None,
                },
            ),
        ),
{
    let mut headers = new_object();
    set_member(&mut headers, "Authorization", new_text(cat("Bearer ", token).as_str()));
    if let Some((k, v)) = extra {
        set_member(&mut headers, k, new_text(v));
    }
    let mut payload = new_object();
    set_member(&mut payload, "url", new_text(url));
    set_member(&mut payload, "body", new_text(""));
    set_member(&mut payload, "__stui_headers", headers);
    write_value(&payload)
}

/// A token is taken to expire a minute before it does, and at once where it
/// lasts no longer than that.
pub proof fn tokens_expire_a_minute_early(now: nat, expires_in: nat)
    ensures
        expires_in >= 60 ==> expiry(now, expires_in) + 60 == now + expires_in,
        expires_in < 60 ==> expiry(now, expires_in) == now,
{
}

/// A request carries its address, no body, and the token in its headers, with
/// one more where that is given.
pub proof fn requests_carry_the_token(
    url: Seq<char>,
    token: Seq<char>,
    extra: Option<(Seq<char>, Seq<char>)>,
)
    ensures
        ({
            let r = authorized(url, token, extra);
            let h = r.member("__stui_headers"@);
            &&& r.member("url"@) == JsonVal::Str(url)
            &&& r.member("body"@) == JsonVal::Str(""@)
            &&& extra is None ==> h.member("Authorization"@) == JsonVal::Str("Bearer "@ + token)
            &&& extra matches Some((k, v)) ==> h.member(k) == JsonVal::Str(v)
            &&& extra matches Some((k, v)) ==> (k != "Authorization"@ ==> h.member(
                "Authorization"@,
            ) == JsonVal::Str("Bearer "@ + token))
        }),
{
    reveal_strlit("url");
    reveal_strlit("body");
    reveal_strlit("__stui_headers");
    assert("url"@.len() == 3 && "body"@.len() == 4 && "__stui_headers"@.len() == 14);
}

/// A reply that was read gives the token, and what went wrong is told behind
/// what was tried.
pub proof fn replies_are_told<T>(t: T, e: String, failed: Seq<char>, unread: Seq<char>, r: Result<T, String>)
    ensures
        token_reply_is(Reply::Parsed(t), failed, unread, r) <==> r == Ok::<T, String>(t),
        token_reply_is(Reply::<T>::HttpError(e), failed, unread, r) <==> (r matches Err(m) && m@
            == failed + ": "@ + e@),
        token_reply_is(Reply::<T>::ParseError(e), failed, unread, r) <==> (r matches Err(m) && m@
            == unread + ": "@ + e@),
{
}

} // verus!
