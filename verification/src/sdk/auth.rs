//! The answer of a browser sign-in.

use vstd::prelude::*;

use crate::json::{parsed, Json, JsonVal};
use crate::text::cat::{cat, cat3};
use crate::text::chars::{opt, same_text};

verus! {

/// What a completed sign-in hands back.
#[derive(Debug)]
pub struct OAuthCallback {
    pub code: String,
    pub state: Option<String>,
}

impl View for OAuthCallback {
    type V = (Seq<char>, Option<Seq<char>>);

    open spec fn view(&self) -> (Seq<char>, Option<Seq<char>>) {
        (self.code@, opt(self.state))
    }
}

/// What the answer of a sign-in means: its code and state where it holds a
/// code that is not empty, and else the reason of the failure. An answer
/// with neither a code nor an error counts as timed out.
pub open spec fn callback(v: JsonVal) -> Result<(Seq<char>, Option<Seq<char>>), Seq<char>> {
    match v.member("code"@).filled() {
        Some(code) => Ok((code, v.member("state"@).text())),
        None => match v.member("error"@).text() {
            Some(e) => if e == "timed_out"@ {
                Err("timed_out"@)
            } else if e == "denied"@ {
                Err("denied: "@ + v.member("message"@).text_or("unknown"@))
            } else {
                Err("denied: "@ + e)
            },
            None => Err("timed_out"@),
        },
    }
}

/// What the text of an answer means, given what it reads as: that of the
/// value, or that it timed out where it is not JSON.
pub open spec fn callback_of(p: Result<JsonVal, Seq<char>>) -> Result<
    (Seq<char>, Option<Seq<char>>),
    Seq<char>,
> {
    match p {
        Ok(v) => callback(v),
        Err(m) => Err("timed_out (parse error: "@ + m + ")"@),
    }
}

/// The view of a sign-in's outcome.
pub open spec fn outcome(r: Result<OAuthCallback, String>) -> Result<
    (Seq<char>, Option<Seq<char>>),
    Seq<char>,
> {
    match r {
        Ok(c) => Ok(c@),
        Err(m) => Err(m@),
    }
}

/// Reads the answer of a sign-in.
pub fn auth_callback(v: &Json) -> (r: Result<OAuthCallback, String>)
    ensures
        outcome(r) == callback(v@),
{
    match v.get("code").filled() {
        Some(code) => Ok(OAuthCallback { code, state: v.get("state").text() }),
        None => match v.get("error").as_str() {
            Some(e) => if same_text(e.as_str(), "timed_out") {
                Err("timed_out".to_owned())
            } else if same_text(e.as_str(), "denied") {
                let message = v.get("message").text_or("unknown");
                Err(cat("denied: ", message.as_str()))
            } else {
                Err(cat("denied: ", e.as_str()))
            },
            None => Err("timed_out".to_owned()),
        },
    }
}

/// Reads the JSON text that a sign-in ends with.
pub fn parse_auth_json(json: &str) -> (r: Result<OAuthCallback, String>)
    ensures
        outcome(r) == callback_of(parsed(json@)),
{
    match Json::parse(json) {
        Ok(v) => auth_callback(&v),
        Err(m) => Err(cat3("timed_out (parse error: ", m.as_str(), ")")),
    }
}

/// A sign-in that succeeds hands back a code that is not empty.
pub proof fn accepted_code_is_not_empty(p: Result<JsonVal, Seq<char>>)
    ensures
        callback_of(p) matches Ok(c) ==> c.0.len() > 0,
{
}

/// A callback with a code succeeds, whatever else it holds, and gives code and
/// state. One without tells why: that nobody answered in time, or that the user
/// refused, with the message of that; any other error is told as a refusal.
pub proof fn callbacks_are_told_apart(v: JsonVal, m: Seq<char>)
    ensures
        ({
            let code = v.member("code"@).text();
            let coded = code matches Some(c) && c.len() > 0;
            let error = v.member("error"@).text();
            let message = v.member("message"@).text();
            let r = callback_of(Ok(v));
            &&& r is Ok <==> coded
            &&& r matches Ok((c, s)) ==> code == Some(c) && s == v.member("state"@).text()
            &&& !coded && error == Some("timed_out"@) ==> r == Err::<
                (Seq<char>, Option<Seq<char>>),
                Seq<char>,
            >("timed_out"@)
            &&& !coded && error is None ==> r == Err::<(Seq<char>, Option<Seq<char>>), Seq<char>>(
                "timed_out"@,
            )
            &&& !coded && error == Some("denied"@) ==> r == Err::<
                (Seq<char>, Option<Seq<char>>),
                Seq<char>,
            >(
                "denied: "@ + match message {
                    Some(t) => t,
                    None => "unknown"@,
                },
            )
            &&& !coded && error is Some && error != Some("timed_out"@) && error != Some("denied"@)
                ==> r == Err::<(Seq<char>, Option<Seq<char>>), Seq<char>>("denied: "@ + error->0)
            &&& callback_of(Err(m)) == Err::<(Seq<char>, Option<Seq<char>>), Seq<char>>(
                "timed_out (parse error: "@ + m + ")"@,
            )
        }),
{
    reveal_strlit("timed_out");
    reveal_strlit("denied");
    assert("timed_out"@.len() == 9 && "denied"@.len() == 6);
}

/// What is seen of a callback is its code and its state.
pub proof fn callbacks_are_seen_in_full(c: OAuthCallback)
    ensures
        c@ == (c.code@, opt(c.state)),
{
}

} // verus!
