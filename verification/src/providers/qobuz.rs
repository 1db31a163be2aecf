//! Searches and streams from Qobuz, with the account and the application that
//! the user has set.

use vstd::prelude::*;
use vstd::slice::slice_subrange;
use vstd::utf8::{encode_utf8, encode_utf8_decode_utf8, encode_utf8_valid_utf8};

use crate::crypto::{
    aes_open, aes_seal, base64_bytes, base64_decode, base64_encode, base64_text, locked, md5_digest,
    md5_hex, random_nonce, sha256, sha256_digest, unlocked, utf8_text,
};
use crate::json::{item_vals, parsed, Json, JsonVal};
use crate::providers::common::{resolve_to, resolved, ResolveAnswer, ResolveOutcome};
use crate::providers::listing::{list, listed, Listing, ListingAnswer, ListingView};
use crate::sdk::plugin::PluginType;
use crate::sdk::result::{views, PluginResult};
use crate::sdk::types::ResolveView;
use crate::text::bytes::{byte_prefix, prefix_of_bytes};
use crate::text::cat::{cat, cat3, cat4, cat5};
use crate::text::chars::{opt, to_chars, to_text};
use crate::text::list::{
    collect_some, collected_is_picked, lemma_collect_from, lemma_collect_step, picks,
};
use crate::text::number::{decimal, decimal_text, natural, padded, padded_text, parse_u64};
use crate::text::order::{by_key, not_after, pairs, sort_by_key, Pair};
use crate::text::percent::{encoded, url_encode};
use crate::text::table::Table;
use crate::text::trim::{trim, trim_text};

verus! {

/// The provider.
#[derive(Debug, Default)]
pub struct Qobuz;

/// A text, encoded for a URL.
pub fn urlencoding(s: &str) -> (r: String)
    ensures
        r@ == encoded(s@),
{
    url_encode(s)
}

/// A number of seconds as minutes and seconds.
pub open spec fn duration_of(seconds: nat) -> Seq<char> {
    decimal(seconds / 60) + ":"@ + padded(seconds % 60, 2)
}

/// A number of seconds as minutes and seconds.
pub fn format_duration(seconds: u64) -> (r: String)
    ensures
        r@ == duration_of(seconds as nat),
{
    let mins = decimal_text(seconds / 60);
    let secs = padded_text(seconds % 60, 2);
    cat3(mins.as_str(), ":", secs.as_str())
}

/// The key that is kept in the host's cache: 32 bytes, written in base64.
pub open spec fn kept_key(cache: Map<Seq<char>, String>) -> Option<Seq<u8>> {
    if cache.contains_key("qobuz_encryption_secret"@) {
        match base64_bytes(cache["qobuz_encryption_secret"@]@) {
            Ok(b) => if b.len() == 32 {
                Some(b)
            } else {
                None
            },
            Err(_) => None,
        }
    } else {
        None
    }
}

/// The key that is kept in the host's cache.
fn find_kept_key(cache: &Table<String>) -> (r: Option<Vec<u8>>)
    ensures
        match r {
            Some(k) => kept_key(cache@) == Some(k@) && k@.len() == 32,
            None => kept_key(cache@) is None,
        },
{
    match cache.get("qobuz_encryption_secret") {
        Some(t) => match base64_decode(t.as_str()) {
            Ok(b) => if b.len() == 32 {
                Some(b)
            } else {
                None
            },
            Err(_) => None,
        },
        None => None,
    }
}

/// What the machine is known by: the id that is kept, or else its name and the
/// user's home directory, as far as they are known.
pub open spec fn machine_id(
    cache: Map<Seq<char>, String>,
    hostname: Option<String>,
    host: Option<String>,
    home: Option<String>,
) -> Seq<char> {
    if cache.contains_key("machine_id"@) {
        cache["machine_id"@]@
    } else {
        let name = match (hostname, host) {
            (Some(n), _) => n@,
            (None, Some(n)) => n@,
            (None, None) => "default"@,
        };
        name + match home {
            Some(h) => h@,
            None => ""@,
        }
    }
}

/// What the machine is known by, given the values of `HOSTNAME`, `HOST` and
/// `HOME`. It is kept from the first time on.
pub fn get_machine_id(
    cache: &mut Table<String>,
    hostname: Option<String>,
    host: Option<String>,
    home: Option<String>,
) -> (r: String)
    ensures
        r@ == machine_id(old(cache)@, hostname, host, home),
        if old(cache)@.contains_key("machine_id"@) {
            final(cache)@ == old(cache)@
        } else {
            &&& final(cache)@.contains_key("machine_id"@)
            &&& final(cache)@["machine_id"@]@ == r@
            &&& final(cache)@ == old(cache)@.insert("machine_id"@, final(cache)@["machine_id"@])
        },
{
    if let Some(id) = cache.get("machine_id") {
        return id.clone();
    }
    let name = match hostname {
        Some(n) => n,
        None => match host {
            Some(n) => n,
            None => "default".to_owned(),
        },
    };
    let id = match home {
        Some(h) => cat(name.as_str(), h.as_str()),
        None => cat(name.as_str(), ""),
    };
    cache.insert("machine_id", id.clone());
    id
}

/// A machine that is known by an id stays known by it, whatever its name and
/// the user's home directory become.
pub proof fn machine_id_stays(
    cache: Map<Seq<char>, String>,
    id: String,
    hostname: Option<String>,
    host: Option<String>,
    home: Option<String>,
)
    ensures
        machine_id(cache.insert("machine_id"@, id), hostname, host, home) == id@,
{
}

/// The key that is derived from what the machine is known by.
pub open spec fn derived_key(id: Seq<char>) -> Seq<u8> {
    sha256(encode_utf8("stui-qobuz-"@ + id))
}

/// The key that passwords are locked with: the one that is kept, or else the
/// one that is derived for the machine.
pub open spec fn key_in(
    cache: Map<Seq<char>, String>,
    hostname: Option<String>,
    host: Option<String>,
    home: Option<String>,
) -> Seq<u8> {
    match kept_key(cache) {
        Some(k) => k,
        None => derived_key(machine_id(cache, hostname, host, home)),
    }
}

/// A cache that held no key, with the machine's id and the key that `after` holds.
pub open spec fn with_key(
    before: Map<Seq<char>, String>,
    after: Map<Seq<char>, String>,
) -> Map<Seq<char>, String> {
    if kept_key(before) is Some {
        before
    } else {
        before.insert("machine_id"@, after["machine_id"@]).insert(
            "qobuz_encryption_secret"@,
            after["qobuz_encryption_secret"@],
        )
    }
}

/// After a key was asked for it is kept, in base64 and next to the machine's
/// id where it had to be derived.
pub open spec fn keeps_key(
    before: Map<Seq<char>, String>,
    after: Map<Seq<char>, String>,
    hostname: Option<String>,
    host: Option<String>,
    home: Option<String>,
) -> bool {
    let id = machine_id(before, hostname, host, home);
    &&& kept_key(after) == Some(key_in(before, hostname, host, home))
    &&& kept_key(before) is None ==> after["machine_id"@]@ == id
        && after["qobuz_encryption_secret"@]@ == base64_text(derived_key(id))
}

/// The key that passwords are locked with, given the values of `HOSTNAME`,
/// `HOST` and `HOME`. Where none is kept it is derived from what the machine
/// is known by, and kept from then on.
pub fn get_or_create_encryption_key(
    cache: &mut Table<String>,
    hostname: Option<String>,
    host: Option<String>,
    home: Option<String>,
) -> (r: Vec<u8>)
    ensures
        r@.len() == 32,
        r@ == key_in(old(cache)@, hostname, host, home),
        keeps_key(old(cache)@, final(cache)@, hostname, host, home),
        final(cache)@ == with_key(old(cache)@, final(cache)@),
{
    if let Some(k) = find_kept_key(cache) {
        return k;
    }
    proof {
        reveal_strlit("machine_id");
        reveal_strlit("qobuz_encryption_secret");
        assert("machine_id"@.len() == 10);
        assert("qobuz_encryption_secret"@.len() == 23);
    }
    let ghost before = cache@;
    let id = get_machine_id(cache, hostname, host, home);
    let key = sha256_digest(cat("stui-qobuz-", id.as_str()).as_str().as_bytes());
    cache.insert("qobuz_encryption_secret", base64_encode(key.as_slice()));
    proof {
        assert(cache@ =~= with_key(before, cache@));
    }
    key
}

/// A key that was once asked for is given again, whatever the machine's name
/// and the user's home directory become.
pub proof fn key_stays(
    before: Map<Seq<char>, String>,
    after: Map<Seq<char>, String>,
    hostname: Option<String>,
    host: Option<String>,
    home: Option<String>,
    later_hostname: Option<String>,
    later_host: Option<String>,
    later_home: Option<String>,
)
    requires
        keeps_key(before, after, hostname, host, home),
    ensures
        key_in(after, later_hostname, later_host, later_home) == key_in(
            before,
            hostname,
            host,
            home,
        ),
{
}

/// The view of a text, or of the message why there is none.
pub open spec fn outcome(r: Result<String, String>) -> Result<Seq<char>, Seq<char>> {
    match r {
        Ok(s) => Ok(s@),
        Err(m) => Err(m@),
    }
}

/// Locks a password under a key and a nonce. What was locked can be unlocked.
pub fn encrypt_with(key: &[u8], nonce: &[u8], password: &str) -> (r: Result<String, String>)
    requires
        key@.len() == 32,
        nonce@.len() == 12,
    ensures
        outcome(r) == match locked(key@, nonce@, password@) {
            Some(t) => Ok(t),
            None => Err("encryption failed: aead::Error"@),
        },
        r matches Ok(t) ==> unlocked(key@, t@) == Ok::<Seq<char>, Seq<char>>(password@),
{
    match aes_seal(key, nonce, password.as_bytes()) {
        Some(c) => {
            let mut combined: Vec<u8> = Vec::new();
            combined.extend_from_slice(nonce);
            combined.extend_from_slice(c.as_slice());
            proof {
                assert(combined@ =~= nonce@ + c@);
                assert(combined@.take(12) =~= nonce@);
                assert(combined@.skip(12) =~= c@);
                encode_utf8_valid_utf8(password@);
                encode_utf8_decode_utf8(password@);
            }
            Ok(base64_encode(combined.as_slice()))
        },
        None => Err("encryption failed: aead::Error".to_owned()),
    }
}

/// Locks a password under a key and a nonce left to chance. Whatever the
/// nonce is, what was locked can be unlocked, and a password that is not too
/// long is locked.
pub fn encrypt_password(key: &[u8], password: &str) -> (r: Result<String, String>)
    requires
        key@.len() == 32,
    ensures
        match r {
            Ok(t) => unlocked(key@, t@) == Ok::<Seq<char>, Seq<char>>(password@),
            Err(m) => m@ == "encryption failed: aead::Error"@,
        },
        encode_utf8(password@).len() <= 0x10_0000_0000 <==> r is Ok,
{
    let nonce = random_nonce();
    encrypt_with(key, nonce.as_slice(), password)
}

/// Unlocks a password.
pub fn decrypt_password(key: &[u8], encrypted: &str) -> (r: Result<String, String>)
    requires
        key@.len() == 32,
    ensures
        outcome(r) == unlocked(key@, encrypted@),
{
    let combined = match base64_decode(encrypted) {
        Ok(b) => b,
        Err(m) => {
            return Err(cat("base64 decode failed: ", m.as_str()));
        },
    };
    if combined.len() < 12 {
        return Err("encrypted data too short".to_owned());
    }
    let nonce = slice_subrange(combined.as_slice(), 0, 12);
    let cipher_text = slice_subrange(combined.as_slice(), 12, combined.len());
    assert(nonce@ =~= combined@.take(12));
    assert(cipher_text@ =~= combined@.skip(12));
    match aes_open(key, nonce, cipher_text) {
        Some(p) => match utf8_text(p) {
            Ok(s) => Ok(s),
            Err(m) => Err(cat("UTF-8 conversion failed: ", m.as_str())),
        },
        None => Err("decryption failed: aead::Error".to_owned()),
    }
}

/// Why there is no password.
pub open spec fn no_password() -> Seq<char> {
    "Qobuz password not set. Configure via stui settings."@
}

/// The plain password that is set; empty where there is none.
pub open spec fn plain_password(cache: Map<Seq<char>, String>) -> Seq<char> {
    if cache.contains_key("qobuz_password"@) {
        cache["qobuz_password"@]@
    } else {
        seq![]
    }
}

/// The password that is set: the locked one, unlocked with the key, or else
/// the plain one.
pub open spec fn password_in(cache: Map<Seq<char>, String>, key: Seq<u8>) -> Result<
    Seq<char>,
    Seq<char>,
> {
    if cache.contains_key("qobuz_password_encrypted"@) {
        unlocked(key, cache["qobuz_password_encrypted"@]@)
    } else if plain_password(cache).len() == 0 {
        Err(no_password())
    } else if encode_utf8(plain_password(cache)).len() <= 0x10_0000_0000 {
        Ok(plain_password(cache))
    } else {
        Err("encryption failed: aead::Error"@)
    }
}

/// What the cache holds after the password was read. Where one is set there
/// is a key from then on; a plain password is kept locked with it, and unlocks
/// to what it was.
pub open spec fn locks_password(
    before: Map<Seq<char>, String>,
    after: Map<Seq<char>, String>,
    hostname: Option<String>,
    host: Option<String>,
    home: Option<String>,
) -> bool {
    let key = key_in(before, hostname, host, home);
    let was_locked = before.contains_key("qobuz_password_encrypted"@);
    if !was_locked && plain_password(before).len() == 0 {
        after == before
    } else {
        &&& keeps_key(before, after, hostname, host, home)
        &&& if !was_locked && password_in(before, key) is Ok {
            &&& after == with_key(before, after).insert(
                "qobuz_password_encrypted"@,
                after["qobuz_password_encrypted"@],
            )
            &&& unlocked(key, after["qobuz_password_encrypted"@]@) == password_in(before, key)
        } else {
            after == with_key(before, after)
        }
    }
}

/// The password that is set, given the values of `HOSTNAME`, `HOST` and `HOME`
/// for the key. A plain one is locked and kept so from now on.
pub fn get_password(
    cache: &mut Table<String>,
    hostname: Option<String>,
    host: Option<String>,
    home: Option<String>,
) -> (r: Result<String, String>)
    ensures
        outcome(r) == password_in(old(cache)@, key_in(old(cache)@, hostname, host, home)),
        locks_password(old(cache)@, final(cache)@, hostname, host, home),
{
    proof {
        reveal_strlit("machine_id");
        reveal_strlit("qobuz_password");
        reveal_strlit("qobuz_password_encrypted");
        reveal_strlit("qobuz_encryption_secret");
        assert("machine_id"@.len() == 10);
        assert("qobuz_password"@.len() == 14);
        assert("qobuz_password_encrypted"@.len() == 24);
        assert("qobuz_encryption_secret"@.len() == 23);
    }
    if let Some(t) = cache.get("qobuz_password_encrypted") {
        let encrypted = t.clone();
        let key = get_or_create_encryption_key(cache, hostname, host, home);
        return decrypt_password(key.as_slice(), encrypted.as_str());
    }
    if let Some(p) = cache.get("qobuz_password") {
        if !p.as_str().is_empty() {
            let password = p.clone();
            let ghost before = cache@;
            let key = get_or_create_encryption_key(cache, hostname, host, home);
            return match encrypt_password(key.as_slice(), password.as_str()) {
                Ok(t) => {
                    cache.insert("qobuz_password_encrypted", t);
                    assert(cache@ =~= with_key(before, cache@).insert(
                        "qobuz_password_encrypted"@,
                        t,
                    ));
                    Ok(password)
                },
                Err(m) => Err(m),
            };
        }
    }
    Err("Qobuz password not set. Configure via stui settings.".to_owned())
}

/// A password that was read once is found again, whatever the machine's name
/// and the user's home directory become.
pub proof fn password_is_found_again(
    before: Map<Seq<char>, String>,
    after: Map<Seq<char>, String>,
    hostname: Option<String>,
    host: Option<String>,
    home: Option<String>,
    later_hostname: Option<String>,
    later_host: Option<String>,
    later_home: Option<String>,
)
    requires
        locks_password(before, after, hostname, host, home),
        password_in(before, key_in(before, hostname, host, home)) is Ok,
    ensures
        password_in(after, key_in(after, later_hostname, later_host, later_home)) == password_in(
            before,
            key_in(before, hostname, host, home),
        ),
{
    reveal_strlit("machine_id");
    reveal_strlit("qobuz_password_encrypted");
    reveal_strlit("qobuz_encryption_secret");
    assert("machine_id"@.len() == 10);
    assert("qobuz_password_encrypted"@.len() == 24);
    assert("qobuz_encryption_secret"@.len() == 23);
}

/// The application's id and secret in the host's cache, where both are set.
pub open spec fn app_credentials(cache: Map<Seq<char>, String>) -> Option<(Seq<char>, Seq<char>)> {
    if cache.contains_key("qobuz_app_id"@) && cache.contains_key("qobuz_app_secret"@)
        && cache["qobuz_app_id"@]@.len() > 0 && cache["qobuz_app_secret"@]@.len() > 0 {
        Some((cache["qobuz_app_id"@]@, cache["qobuz_app_secret"@]@))
    } else {
        None
    }
}

/// Why there is no application.
pub open spec fn no_app() -> Seq<char> {
    "Qobuz app credentials not configured. Please configure APP_ID and APP_SECRET via stui settings. Contact api@qobuz.com to obtain official credentials."@
}

/// The application's id and secret.
pub fn get_app_credentials(cache: &Table<String>) -> (r: Result<(String, String), String>)
    ensures
        match r {
            Ok((id, secret)) => app_credentials(cache@) == Some((id@, secret@)),
            Err(m) => app_credentials(cache@) is None && m@ == no_app(),
        },
{
    if let Some(id) = cache.get("qobuz_app_id") {
        if let Some(secret) = cache.get("qobuz_app_secret") {
            if !id.as_str().is_empty() && !secret.as_str().is_empty() {
                return Ok((id.clone(), secret.clone()));
            }
        }
    }
    Err(
        "Qobuz app credentials not configured. Please configure APP_ID and APP_SECRET via stui settings. Contact api@qobuz.com to obtain official credentials.".to_owned(),
    )
}

/// Who is logged in, and through which application.
#[derive(Debug, Clone)]
pub struct AuthCredentials {
    pub app_id: String,
    pub app_secret: String,
    pub user_token: String,
    pub user_id: i64,
}

/// The address of a login.
pub open spec fn login_url(username: Seq<char>, password: Seq<char>, app_id: Seq<char>) -> Seq<
    char,
> {
    "https://www.qobuz.com/api.json/0.2/user/login?email="@ + encoded(username) + "&password="@
        + encoded(password) + "&app_id="@ + app_id
}

/// What a login begins with.
#[derive(Debug)]
pub struct Login {
    pub url: String,
    pub app_id: String,
    pub app_secret: String,
}

/// Why there is no user.
pub open spec fn no_username() -> Seq<char> {
    "Qobuz username not set. Configure via stui settings."@
}

/// What a login begins with: its address, the application's id and its secret.
pub open spec fn login_in(
    cache: Map<Seq<char>, String>,
    password: Result<Seq<char>, Seq<char>>,
) -> Result<(Seq<char>, Seq<char>, Seq<char>), Seq<char>> {
    match app_credentials(cache) {
        None => Err(no_app()),
        Some((id, secret)) => if !cache.contains_key("qobuz_username"@) {
            Err(no_username())
        } else {
            match password {
                Err(e) => Err(e),
                Ok(p) => Ok((login_url(cache["qobuz_username"@]@, p, id), id, secret)),
            }
        },
    }
}

/// The view of the beginning of a login.
pub open spec fn login_view(r: Result<Login, String>) -> Result<
    (Seq<char>, Seq<char>, Seq<char>),
    Seq<char>,
> {
    match r {
        Ok(l) => Ok((l.url@, l.app_id@, l.app_secret@)),
        Err(m) => Err(m@),
    }
}

/// Begins a login with the application and the user that are set, given the
/// password.
pub fn login_with(cache: &Table<String>, password: Result<String, String>) -> (r: Result<
    Login,
    String,
>)
    ensures
        login_view(r) == login_in(cache@, outcome(password)),
{
    let (app_id, app_secret) = match get_app_credentials(cache) {
        Ok(c) => c,
        Err(m) => {
            return Err(m);
        },
    };
    let username = match cache.get("qobuz_username") {
        Some(u) => u,
        None => {
            return Err("Qobuz username not set. Configure via stui settings.".to_owned());
        },
    };
    let password = match password {
        Ok(p) => p,
        Err(m) => {
            return Err(m);
        },
    };
    let mut url = cat4(
        "https://www.qobuz.com/api.json/0.2/user/login?email=",
        urlencoding(username.as_str()).as_str(),
        "&password=",
        urlencoding(password.as_str()).as_str(),
    );
    url.append("&app_id=");
    url.append(app_id.as_str());
    Ok(Login { url, app_id, app_secret })
}

/// Begins a login with what is set, given the values of `HOSTNAME`, `HOST` and
/// `HOME` for the key. Application and user are asked for first; the password
/// is read, and locked, only where both are there.
pub fn begin_login(
    cache: &mut Table<String>,
    hostname: Option<String>,
    host: Option<String>,
    home: Option<String>,
) -> (r: Result<Login, String>)
    ensures
        ({
            let c = old(cache)@;
            &&& login_view(r) == login_in(
                c,
                password_in(c, key_in(c, hostname, host, home)),
            )
            &&& if app_credentials(c) is None || !c.contains_key("qobuz_username"@) {
                final(cache)@ == c
            } else {
                locks_password(c, final(cache)@, hostname, host, home)
            }
        }),
{
    if let Err(m) = get_app_credentials(cache) {
        return Err(m);
    }
    if !cache.contains_key("qobuz_username") {
        return Err("Qobuz username not set. Configure via stui settings.".to_owned());
    }
    proof {
        reveal_strlit("machine_id");
        reveal_strlit("qobuz_encryption_secret");
        reveal_strlit("qobuz_password_encrypted");
        reveal_strlit("qobuz_username");
        reveal_strlit("qobuz_app_id");
        reveal_strlit("qobuz_app_secret");
        assert("machine_id"@.len() == 10);
        assert("qobuz_encryption_secret"@.len() == 23);
        assert("qobuz_password_encrypted"@.len() == 24);
        assert("qobuz_username"@.len() == 14);
        assert("qobuz_app_id"@.len() == 12);
        assert("qobuz_app_secret"@.len() == 16);
    }
    let password = get_password(cache, hostname, host, home);
    login_with(cache, password)
}

/// What a login's answer means, given what it reads as.
pub open spec fn login_reply_of(p: Result<JsonVal, Seq<char>>) -> Result<
    (Seq<char>, i64),
    Seq<char>,
> {
    match p {
        Err(m) => Err("parse login response: "@ + m),
        Ok(v) => match v.member("user_auth_token"@).text() {
            None => Err("missing user_auth_token in login response"@),
            Some(t) => match v.member("user"@).member("id"@).signed() {
                None => Err("missing user.id in login response"@),
                Some(id) => Ok((t, id)),
            },
        },
    }
}

/// Ends a login, given what the answer reads as.
pub fn logged_in(login: Login, reply: Result<Json, String>) -> (r: Result<AuthCredentials, String>)
    ensures
        ({
            let p = match reply {
                Ok(v) => Ok(v@),
                Err(m) => Err(m@),
            };
            match r {
                Ok(c) => c.app_id == login.app_id && c.app_secret == login.app_secret
                    && login_reply_of(p) == Ok::<(Seq<char>, i64), Seq<char>>(
                    (c.user_token@, c.user_id),
                ),
                Err(m) => login_reply_of(p) == Err::<(Seq<char>, i64), Seq<char>>(m@),
            }
        }),
{
    let v = match reply {
        Ok(v) => v,
        Err(m) => {
            return Err(cat("parse login response: ", m.as_str()));
        },
    };
    let user_token = match v.get("user_auth_token").text() {
        Some(t) => t,
        None => {
            return Err("missing user_auth_token in login response".to_owned());
        },
    };
    match v.get("user").get("id").as_i64() {
        Some(user_id) => Ok(
            AuthCredentials {
                app_id: login.app_id,
                app_secret: login.app_secret,
                user_token,
                user_id,
            },
        ),
        None => Err("missing user.id in login response".to_owned()),
    }
}

/// Ends a login: the credentials that the answer holds.
pub fn finish_login(login: Login, body: Result<String, String>) -> (r: Result<
    AuthCredentials,
    String,
>)
    ensures
        match body {
            Err(e) => r matches Err(m) && m@ == "login failed: "@ + e@,
            Ok(b) => match r {
                Ok(c) => c.app_id == login.app_id && c.app_secret == login.app_secret
                    && login_reply_of(parsed(b@)) == Ok::<(Seq<char>, i64), Seq<char>>(
                    (c.user_token@, c.user_id),
                ),
                Err(m) => login_reply_of(parsed(b@)) == Err::<(Seq<char>, i64), Seq<char>>(m@),
            },
        },
{
    match body {
        Ok(b) => logged_in(login, Json::parse(b.as_str())),
        Err(e) => Err(cat("login failed: ", e.as_str())),
    }
}

/// The keys and values of a list of pairs, one after another.
pub open spec fn run_together(s: Seq<Pair>) -> Seq<char>
    decreases s.len(),
{
    if s.len() == 0 {
        seq![]
    } else {
        run_together(s.drop_last()) + s.last().0 + s.last().1
    }
}

/// What a request is signed over: the method, the parameters in the order of
/// their names, the time and the secret.
pub open spec fn signature_input(
    method: Seq<char>,
    params: Seq<Pair>,
    ts: nat,
    secret: Seq<char>,
) -> Seq<char> {
    method + run_together(by_key(params)) + decimal(ts) + secret
}

/// The signature of a request.
pub fn compute_request_sig(
    method: &str,
    params: &[(&str, &str)],
    ts: u64,
    app_secret: &str,
) -> (r: String)
    ensures
        r@ == md5_hex(signature_input(method@, pairs(params@), ts as nat, app_secret@)),
        r@.len() == 32,
{
    let sorted = sort_by_key(params);
    let ghost all = pairs(sorted@);
    let mut input = method.to_owned();
    assert(method@ + run_together(all.take(0)) =~= method@);
    for i in 0..sorted.len()
        invariant
            all == pairs(sorted@),
            input@ == method@ + run_together(all.take(i as int)),
    {
        let (k, v) = sorted[i];
        let ghost now = all.take(i + 1);
        assert(now.drop_last() =~= all.take(i as int));
        assert(now.last() == (k@, v@));
        let ghost before = run_together(all.take(i as int));
        input.append(k);
        input.append(v);
        assert(method@ + before + k@ + v@ =~= method@ + (before + k@ + v@));
    }
    assert(all.take(all.len() as int) =~= all);
    input.append(decimal_text(ts).as_str());
    input.append(app_secret);
    md5_digest(input.as_str())
}

/// The signature does not depend on the order of the parameters, where no
/// name occurs twice.
pub proof fn signature_ignores_parameter_order(
    method: Seq<char>,
    a: Seq<Pair>,
    b: Seq<Pair>,
    ts: nat,
    secret: Seq<char>,
)
    requires
        crate::text::order::distinct_keys(a),
        a.to_multiset() == b.to_multiset(),
    ensures
        signature_input(method, a, ts, secret) == signature_input(method, b, ts, secret),
{
    crate::text::order::order_of_pairs_does_not_matter(a, b);
}

/// The title with the artist behind it, where there is one.
pub open spec fn titled(title: Seq<char>, artist: Seq<char>) -> Seq<char> {
    if artist.len() == 0 {
        title
    } else {
        title + " — "@ + artist
    }
}

/// The title with the artist behind it.
pub fn title_with(title: String, artist: &str) -> (r: String)
    ensures
        r@ == titled(title@, artist@),
{
    if artist.is_empty() {
        title
    } else {
        cat3(title.as_str(), " — ", artist)
    }
}

/// The text of the first of two values that is one.
pub open spec fn either(a: JsonVal, b: JsonVal) -> Option<Seq<char>> {
    match a.text() {
        Some(s) => Some(s),
        None => b.text(),
    }
}

/// The text of the first of two values that is one.
fn either_text(a: &Json, b: &Json) -> (r: Option<String>)
    ensures
        opt(r) == either(a@, b@),
{
    match a.text() {
        Some(s) => Some(s),
        None => b.text(),
    }
}

/// The entry that a track is. One without an id is none.
pub open spec fn track_entry(t: JsonVal) -> Option<ListingView> {
    let id = t.member("id"@).uint_or_zero();
    let artist = match either(
        t.member("performer"@).member("name"@),
        t.member("artist"@).member("name"@),
    ) {
        Some(a) => a,
        None => seq![],
    };
    let album = t.member("album"@).member("title"@).text_or(""@);
    let image = t.member("album"@).member("image"@);
    if id == 0 {
        None
    } else {
        Some(
            ListingView {
                id: decimal(id as nat),
                title: titled(t.member("title"@).text_or("Unknown"@), artist),
                year: None,
                genre: t.member("genre"@).text(),
                rating: None,
                description: if album.len() == 0 {
                    None
                } else {
                    Some(album)
                },
                poster_url: either(image.member("large"@), image.member("small"@)),
                imdb_id: None,
                duration: Some(duration_of(t.member("duration"@).uint_or_zero() as nat)),
            },
        )
    }
}

/// The year at the head of a date: its first four bytes.
pub open spec fn year_of(date: JsonVal) -> Option<Seq<char>> {
    match date.text() {
        Some(s) => byte_prefix(s, 4),
        None => None,
    }
}

/// The entry that an album is. One without an id is none.
pub open spec fn album_entry(a: JsonVal) -> Option<ListingView> {
    let id = a.member("id"@).uint_or_zero();
    let image = a.member("image"@);
    if id == 0 {
        None
    } else {
        Some(
            ListingView {
                id: decimal(id as nat),
                title: titled(
                    a.member("title"@).text_or("Unknown"@),
                    a.member("artist"@).member("name"@).text_or(""@),
                ),
                year: year_of(a.member("release_date_original"@)),
                genre: a.member("genre"@).text(),
                rating: None,
                description: None,
                poster_url: either(image.member("large"@), image.member("small"@)),
                imdb_id: None,
                duration: None,
            },
        )
    }
}

/// `track_entry` as a function.
pub open spec fn track_maker() -> spec_fn(JsonVal) -> Option<ListingView> {
    |t: JsonVal| track_entry(t)
}

/// `album_entry` as a function.
pub open spec fn album_maker() -> spec_fn(JsonVal) -> Option<ListingView> {
    |a: JsonVal| album_entry(a)
}

/// The entries in the answer to a search: the tracks, then the albums.
pub open spec fn entries_of(v: JsonVal) -> Seq<ListingView> {
    collect_some(v.member("tracks"@).member("items"@).items(), track_maker()) + collect_some(
        v.member("albums"@).member("items"@).items(),
        album_maker(),
    )
}

/// The entries in the answer to a search, given what it reads as. What is not
/// JSON has none.
pub open spec fn results_of(p: Result<JsonVal, Seq<char>>) -> Seq<ListingView> {
    match p {
        Ok(v) => entries_of(v),
        Err(_) => seq![],
    }
}

/// The entry that a track is.
fn parse_track(t: &Json) -> (r: Option<Listing>)
    ensures
        match r {
            Some(e) => track_entry(t@) == Some(e@),
            None => track_entry(t@) is None,
        },
{
    let id = t.get("id").uint_or_zero();
    if id == 0 {
        return None;
    }
    let artist = match either_text(
        t.get("performer").get("name"),
        t.get("artist").get("name"),
    ) {
        Some(a) => a,
        None => String::new(),
    };
    let album = t.get("album").get("title").text_or("");
    let image = t.get("album").get("image");
    let e = Listing {
        id: decimal_text(id),
        title: title_with(t.get("title").text_or("Unknown"), artist.as_str()),
        year: None,
        genre: t.get("genre").text(),
        rating: None,
        description: if album.as_str().is_empty() {
            None
        } else {
            Some(album)
        },
        poster_url: either_text(image.get("large"), image.get("small")),
        imdb_id: None,
        duration: Some(format_duration(t.get("duration").uint_or_zero())),
    };
    assert(e@ =~= track_entry(t@)->0);
    Some(e)
}

/// The year at the head of a date.
fn parse_year(date: &Json) -> (r: Option<String>)
    ensures
        opt(r) == year_of(date@),
{
    match date.as_str() {
        Some(s) => {
            let cs = to_chars(s.as_str());
            match prefix_of_bytes(cs.as_slice(), 4) {
                Some(y) => Some(to_text(y)),
                None => None,
            }
        },
        None => None,
    }
}

/// The entry that an album is.
fn parse_album(a: &Json) -> (r: Option<Listing>)
    ensures
        match r {
            Some(e) => album_entry(a@) == Some(e@),
            None => album_entry(a@) is None,
        },
{
    let id = a.get("id").uint_or_zero();
    if id == 0 {
        return None;
    }
    let artist = a.get("artist").get("name").text_or("");
    let image = a.get("image");
    let e = Listing {
        id: decimal_text(id),
        title: title_with(a.get("title").text_or("Unknown"), artist.as_str()),
        year: parse_year(a.get("release_date_original")),
        genre: a.get("genre").text(),
        rating: None,
        description: None,
        poster_url: either_text(image.get("large"), image.get("small")),
        imdb_id: None,
        duration: None,
    };
    assert(e@ =~= album_entry(a@)->0);
    Some(e)
}

/// The entries in the answer to a search.
pub fn search_entries(v: &Json) -> (r: Vec<Listing>)
    ensures
        views(r@) == entries_of(v@),
{
    let mut items: Vec<Listing> = Vec::new();
    let ghost tracks_val = v@.member("tracks"@).member("items"@).items();
    let ghost albums_val = v@.member("albums"@).member("items"@).items();
    if let Some(tracks) = v.get("tracks").get("items").as_array() {
        assert(item_vals(tracks@) == tracks_val);
        for i in 0..tracks.len()
            invariant
                item_vals(tracks@) == tracks_val,
                views(items@) == collect_some(tracks_val.take(i as int), track_maker()),
        {
            proof {
                lemma_collect_step(tracks_val, track_maker(), i as int);
                assert(tracks_val[i as int] == tracks@[i as int]@);
            }
            let ghost before = views(items@);
            if let Some(e) = parse_track(&tracks[i]) {
                items.push(e);
                assert(views(items@) =~= before.push(e@));
            }
        }
        assert(tracks_val.take(tracks_val.len() as int) =~= tracks_val);
    } else {
        assert(views(items@) =~= collect_some(tracks_val, track_maker()));
    }
    let ghost first = collect_some(tracks_val, track_maker());
    assert(first + collect_some(albums_val.take(0), album_maker()) =~= first);
    if let Some(albums) = v.get("albums").get("items").as_array() {
        assert(item_vals(albums@) == albums_val);
        for i in 0..albums.len()
            invariant
                item_vals(albums@) == albums_val,
                views(items@) == first + collect_some(albums_val.take(i as int), album_maker()),
        {
            proof {
                lemma_collect_step(albums_val, album_maker(), i as int);
                assert(albums_val[i as int] == albums@[i as int]@);
            }
            let ghost before = views(items@);
            let ghost so_far = collect_some(albums_val.take(i as int), album_maker());
            if let Some(e) = parse_album(&albums[i]) {
                items.push(e);
                assert(views(items@) =~= before.push(e@));
                assert((first + so_far).push(e@) =~= first + so_far.push(e@));
            }
        }
        assert(albums_val.take(albums_val.len() as int) =~= albums_val);
    } else {
        assert(views(items@) =~= first + collect_some(albums_val, album_maker()));
    }
    items
}

/// The entries in the answer to a search.
pub fn parse_search_results(body: &str) -> (r: Vec<Listing>)
    ensures
        views(r@) == results_of(parsed(body@)),
{
    match Json::parse(body) {
        Ok(v) => search_entries(&v),
        Err(_) => {
            let items: Vec<Listing> = Vec::new();
            assert(views(items@) =~= seq![]);
            items
        },
    }
}

/// No entry has the id zero.
pub proof fn entries_have_ids(v: JsonVal, k: int)
    requires
        0 <= k < entries_of(v).len(),
    ensures
        entries_of(v)[k].id != decimal(0),
{
    let tracks = v.member("tracks"@).member("items"@).items();
    let albums = v.member("albums"@).member("items"@).items();
    let n = collect_some(tracks, track_maker()).len();
    if k < n {
        lemma_collect_from(tracks, track_maker(), k);
        let j = choose|j: int|
            0 <= j < tracks.len() && track_maker()(#[trigger] tracks[j]) == Some(
                collect_some(tracks, track_maker())[k],
            );
        lemma_decimal_differs(tracks[j].member("id"@).uint_or_zero() as nat);
    } else {
        lemma_collect_from(albums, album_maker(), k - n);
        let j = choose|j: int|
            0 <= j < albums.len() && album_maker()(#[trigger] albums[j]) == Some(
                collect_some(albums, album_maker())[k - n],
            );
        lemma_decimal_differs(albums[j].member("id"@).uint_or_zero() as nat);
    }
}

/// Only zero is written as zero.
proof fn lemma_decimal_differs(n: nat)
    requires
        0 < n <= u64::MAX,
    ensures
        decimal(n) != decimal(0),
{
    crate::text::number::lemma_natural_decimal(n, u64::MAX as nat);
    crate::text::number::lemma_natural_decimal(0, u64::MAX as nat);
}

/// The address in the answer to a request for a stream.
pub open spec fn stream_in(v: JsonVal) -> Option<Seq<char>> {
    match v.member("url"@).filled() {
        Some(u) => Some(u),
        None => v.member("file_url"@).filled(),
    }
}

/// The address in the answer to a request for a stream, given what it reads as.
pub open spec fn stream_of(p: Result<JsonVal, Seq<char>>) -> Option<Seq<char>> {
    match p {
        Ok(v) => stream_in(v),
        Err(_) => None,
    }
}

/// The address in the answer to a request for a stream.
pub fn track_url(v: &Json) -> (r: Option<String>)
    ensures
        opt(r) == stream_in(v@),
{
    match v.get("url").filled() {
        Some(u) => Some(u),
        None => v.get("file_url").filled(),
    }
}

/// The address in the answer to a request for a stream.
pub fn parse_track_url(body: &str) -> (r: Option<String>)
    ensures
        opt(r) == stream_of(parsed(body@)),
{
    match Json::parse(body) {
        Ok(v) => track_url(&v),
        Err(_) => None,
    }
}

/// A quality in which a track may be had.
#[derive(Debug, Clone, Copy, PartialEq, Eq, Structural)]
pub enum Tier {
    HiRes,
    Lossless,
    Mp3,
}

impl Tier {
    /// The number under which the service knows the quality.
    pub open spec fn format(self) -> nat {
        match self {
            Tier::HiRes => 27,
            Tier::Lossless => 6,
            Tier::Mp3 => 5,
        }
    }

    /// What the quality is called.
    pub open spec fn label(self) -> Seq<char> {
        match self {
            Tier::HiRes => "24bit"@,
            Tier::Lossless => "lossless"@,
            Tier::Mp3 => "mp3-320"@,
        }
    }

    /// The next lower quality.
    pub open spec fn lower(self) -> Option<Tier> {
        match self {
            Tier::HiRes => Some(Tier::Lossless),
            Tier::Lossless => Some(Tier::Mp3),
            Tier::Mp3 => None,
        }
    }

    /// The number under which the service knows the quality.
    pub fn format_id(self) -> (r: u64)
        ensures
            r == self.format(),
    {
        match self {
            Tier::HiRes => 27,
            Tier::Lossless => 6,
            Tier::Mp3 => 5,
        }
    }
}

/// The address of a request for a stream, at a time, in a quality.
pub open spec fn tier_address(creds: AuthCredentials, track_id: nat, tier: Tier, ts: nat) -> Seq<
    char,
> {
    let params: Seq<Pair> = seq![
        ("format_id"@, decimal(tier.format())),
        ("intent"@, "stream"@),
        ("track_id"@, decimal(track_id)),
    ];
    "https://www.qobuz.com/api.json/0.2/file/url?track_id="@ + decimal(track_id) + "&format_id="@
        + decimal(tier.format()) + "&intent=stream&app_id="@ + encoded(creds.app_id@)
        + "&user_auth_token="@ + encoded(creds.user_token@) + "&request_ts="@ + decimal(ts)
        + "&request_sig="@ + md5_hex(signature_input("file/url"@, params, ts, creds.app_secret@))
}

/// The address of a request for a stream, at a time, in a quality.
pub fn tier_url(creds: &AuthCredentials, track_id: u64, tier: Tier, ts: u64) -> (r: String)
    ensures
        r@ == tier_address(*creds, track_id as nat, tier, ts as nat),
{
    let format = decimal_text(tier.format_id());
    let track = decimal_text(track_id);
    let params: [(&str, &str); 3] = [
        ("format_id", format.as_str()),
        ("intent", "stream"),
        ("track_id", track.as_str()),
    ];
    let sig = compute_request_sig(
        "file/url",
        params.as_slice(),
        ts,
        creds.app_secret.as_str(),
    );
    proof {
        let want: Seq<Pair> = seq![
            ("format_id"@, format@),
            ("intent"@, "stream"@),
            ("track_id"@, track@),
        ];
        assert(pairs(params@) =~= want);
    }
    let mut url = cat5(
        "https://www.qobuz.com/api.json/0.2/file/url?track_id=",
        track.as_str(),
        "&format_id=",
        format.as_str(),
        "&intent=stream&app_id=",
    );
    url.append(url_encode(creds.app_id.as_str()).as_str());
    url.append("&user_auth_token=");
    url.append(url_encode(creds.user_token.as_str()).as_str());
    url.append("&request_ts=");
    url.append(decimal_text(ts).as_str());
    url.append("&request_sig=");
    url.append(sig.as_str());
    url
}

/// What follows a request for a stream: the answer, or the next lower quality.
#[derive(Debug)]
pub enum TierStep {
    Answer(ResolveAnswer),
    Try(Tier),
}

/// What a `TierStep` holds.
pub enum TierStepView {
    Answer(ResolveOutcome),
    Try(Tier),
}

impl View for TierStep {
    type V = TierStepView;

    open spec fn view(&self) -> TierStepView {
        match self {
            TierStep::Answer(a) => TierStepView::Answer(a@),
            TierStep::Try(t) => TierStepView::Try(*t),
        }
    }
}

/// What follows a reply in a quality: the stream, or the next lower quality,
/// or, where there is none lower, the error of this one.
pub open spec fn tier_step(tier: Tier, found: Result<Option<Seq<char>>, Seq<char>>) -> TierStepView {
    match found {
        Ok(Some(url)) => TierStepView::Answer(resolved(url, Some(tier.label()))),
        _ => match tier.lower() {
            Some(t) => TierStepView::Try(t),
            None => TierStepView::Answer(
                Err(
                    (
                        "resolve_failed"@,
                        match found {
                            Ok(_) => "format "@ + decimal(tier.format())
                                + " returned no stream URL"@,
                            Err(e) => "format "@ + decimal(tier.format()) + " failed: "@ + e,
                        },
                    ),
                ),
            ),
        },
    }
}

/// Goes on with what was found in a quality.
pub fn next_tier(tier: Tier, found: Result<Option<String>, String>) -> (r: TierStep)
    ensures
        r@ == tier_step(
            tier,
            match found {
                Ok(o) => Ok(opt(o)),
                Err(e) => Err(e@),
            },
        ),
{
    let label = match tier {
        Tier::HiRes => "24bit",
        Tier::Lossless => "lossless",
        Tier::Mp3 => "mp3-320",
    };
    let message = match found {
        Ok(Some(url)) => {
            return TierStep::Answer(resolve_to(url, Some(label.to_owned())));
        },
        Ok(None) => cat3(
            "format ",
            decimal_text(tier.format_id()).as_str(),
            " returned no stream URL",
        ),
        Err(e) => cat4(
            "format ",
            decimal_text(tier.format_id()).as_str(),
            " failed: ",
            e.as_str(),
        ),
    };
    match tier {
        Tier::HiRes => TierStep::Try(Tier::Lossless),
        Tier::Lossless => TierStep::Try(Tier::Mp3),
        Tier::Mp3 => TierStep::Answer(PluginResult::err("resolve_failed", message.as_str())),
    }
}

/// Goes on with the reply to a request for a stream.
pub fn tier_reply(tier: Tier, reply: Result<String, String>) -> (r: TierStep)
    ensures
        r@ == tier_step(
            tier,
            match reply {
                Ok(b) => Ok(stream_of(parsed(b@))),
                Err(e) => Err(e@),
            },
        ),
{
    match reply {
        Ok(b) => next_tier(tier, Ok(parse_track_url(b.as_str()))),
        Err(e) => next_tier(tier, Err(e)),
    }
}

/// A quality is given up only for a lower one, and the lowest always gives an
/// answer: after at most three requests there is one.
pub proof fn tiers_come_to_an_end(tier: Tier, found: Result<Option<Seq<char>>, Seq<char>>)
    ensures
        tier_step(tier, found) matches TierStepView::Try(t) ==> t.format() < tier.format(),
        tier == Tier::Mp3 ==> tier_step(tier, found) is Answer,
{
}

/// What is answered in the end, beginning with a quality, where `found` tells
/// what there is in each.
pub open spec fn answer_from(
    tier: Tier,
    found: spec_fn(Tier) -> Result<Option<Seq<char>>, Seq<char>>,
) -> ResolveOutcome
    decreases tier.format(),
{
    match tier_step(tier, found(tier)) {
        TierStepView::Answer(a) => a,
        TierStepView::Try(t) => answer_from(t, found),
    }
}

/// The stream of the highest quality in which there is one is handed out.
pub proof fn best_quality_is_taken(found: spec_fn(Tier) -> Result<Option<Seq<char>>, Seq<char>>)
    ensures
        answer_from(Tier::HiRes, found) == match (
            found(Tier::HiRes),
            found(Tier::Lossless),
            found(Tier::Mp3),
        ) {
            (Ok(Some(u)), _, _) => resolved(u, Some("24bit"@)),
            (_, Ok(Some(u)), _) => resolved(u, Some("lossless"@)),
            (_, _, Ok(Some(u))) => resolved(u, Some("mp3-320"@)),
            (_, _, Ok(None)) => Err(
                ("resolve_failed"@, "format "@ + decimal(5) + " returned no stream URL"@),
            ),
            (_, _, Err(e)) => Err(("resolve_failed"@, "format "@ + decimal(5) + " failed: "@ + e)),
        },
{
    reveal_with_fuel(answer_from, 3);
}

/// The page that a search is answered from. Nothing is found for an empty query.
pub open spec fn search_address(query: Seq<char>, creds: AuthCredentials) -> Option<Seq<char>> {
    if trim(query).len() == 0 {
        None
    } else {
        Some(
            "https://www.qobuz.com/api.json/0.2/catalog/search?query="@ + encoded(trim(query))
                + "&limit=20&app_id="@ + creds.app_id@ + "&user_auth_token="@ + creds.user_token@,
        )
    }
}

impl Qobuz {
    /// The provider's name.
    pub fn name(&self) -> (r: &str)
        ensures
            r@ == "qobuz"@,
    {
        "qobuz"
    }

    /// The provider's version.
    pub fn version(&self) -> (r: &str)
        ensures
            r@ == "0.1.0"@,
    {
        "0.1.0"
    }

    /// What the provider is for.
    pub fn plugin_type(&self) -> (r: PluginType)
        ensures
            r == PluginType::Provider,
    {
        PluginType::Provider
    }

    /// The answer of a verb where nobody could be logged in.
    pub fn auth_failed<T>(&self, message: &str) -> (r: PluginResult<T>)
        ensures
            r matches PluginResult::Failure(e) && e@ == ("auth_failed"@, message@),
    {
        PluginResult::err("auth_failed", message)
    }

    /// Begins a search: the page to fetch, or nothing for an empty query.
    pub fn search(&self, query: &str, creds: &AuthCredentials) -> (r: Option<String>)
        ensures
            opt(r) == search_address(query@, *creds),
    {
        let q = trim_text(query);
        if q.as_str().is_empty() {
            return None;
        }
        let mut url = cat3(
            "https://www.qobuz.com/api.json/0.2/catalog/search?query=",
            urlencoding(q.as_str()).as_str(),
            "&limit=20&app_id=",
        );
        url.append(creds.app_id.as_str());
        url.append("&user_auth_token=");
        url.append(creds.user_token.as_str());
        Some(url)
    }

    /// Ends a search: the tracks and the albums of the answer. Without a page
    /// nothing was searched for.
    pub fn search_reply(&self, page: Option<Result<String, String>>) -> (r: ListingAnswer)
        ensures
            r@ == match page {
                None => listed(seq![]),
                Some(Err(e)) => Err(("search_failed"@, e@)),
                Some(Ok(b)) => listed(results_of(parsed(b@))),
            },
    {
        match page {
            Some(Ok(b)) => list(parse_search_results(b.as_str())),
            Some(Err(e)) => PluginResult::err("search_failed", e.as_str()),
            None => {
                let items: Vec<Listing> = Vec::new();
                assert(views(items@) =~= seq![]);
                list(items)
            },
        }
    }

    /// Begins a request to resolve: the id of the track, or the error where
    /// the entry names none.
    pub fn resolve(&self, entry_id: &str) -> (r: Result<u64, ResolveAnswer>)
        ensures
            match r {
                Ok(n) => natural(trim(entry_id@), u64::MAX as nat) == Some(n as nat),
                Err(a) => natural(trim(entry_id@), u64::MAX as nat) is None && a@ == Err::<
                    ResolveView,
                    (Seq<char>, Seq<char>),
                >(
                    (
                        "resolve_failed"@,
                        if trim(entry_id@).len() == 0 {
                            "empty entry_id"@
                        } else {
                            "invalid track id"@
                        },
                    ),
                ),
            },
    {
        let id = trim_text(entry_id);
        if id.as_str().is_empty() {
            return Err(PluginResult::err("resolve_failed", "empty entry_id"));
        }
        match parse_u64(id.as_str()) {
            Some(n) => Ok(n),
            None => Err(PluginResult::err("resolve_failed", "invalid track id")),
        }
    }
}

/// A duration is told in minutes and seconds: the seconds are fewer than sixty
/// and have two digits, and both together are the time that was given.
pub proof fn durations_are_told_in_minutes(seconds: nat, m: nat, s: nat)
    requires
        seconds == m * 60 + s,
        s < 60,
    ensures
        duration_of(seconds) == decimal(m) + ":"@ + padded(s, 2),
{
    assert(seconds / 60 == m && seconds % 60 == s) by (nonlinear_arith)
        requires
            seconds == m * 60 + s,
            s < 60,
    ;
}

/// The artist stands behind the title, where there is one.
pub proof fn artists_stand_behind_titles(title: Seq<char>, artist: Seq<char>)
    ensures
        artist.len() > 0 ==> titled(title, artist) == title + " — "@ + artist,
        artist.len() == 0 ==> titled(title, artist) == title,
{
}

/// A track is listed under its number, unless that is missing or zero, with
/// title and performer, or else the artist, its album, the large picture of
/// that or else the small one, its genre and its duration.
pub proof fn tracks_are_listed_as_they_are(t: JsonVal)
    ensures
        track_maker()(t) == track_entry(t),
        track_entry(t) is None <==> t.member("id"@).uint_or_zero() == 0,
        track_entry(t) matches Some(e) ==> {
            let title = t.member("title"@).text_or("Unknown"@);
            let performer = t.member("performer"@).member("name"@).text();
            let artist = t.member("artist"@).member("name"@).text();
            let album = t.member("album"@).member("title"@).text();
            let image = t.member("album"@).member("image"@);
            &&& e.id == decimal(t.member("id"@).uint_or_zero() as nat)
            &&& performer matches Some(p) ==> e.title == titled(title, p)
            &&& performer is None ==> (artist matches Some(a) ==> e.title == titled(title, a))
            &&& performer is None && artist is None ==> e.title == title
            &&& e.year is None && e.rating is None && e.imdb_id is None
            &&& e.genre == t.member("genre"@).text()
            &&& album matches Some(a) ==> (a.len() > 0 ==> e.description == Some(a))
            &&& album is None ==> e.description is None
            &&& e.description matches Some(d) ==> album == Some(d) && d.len() > 0
            &&& image.member("large"@).text() is Some ==> e.poster_url == image.member(
                "large"@,
            ).text()
            &&& image.member("large"@).text() is None ==> e.poster_url == image.member(
                "small"@,
            ).text()
            &&& e.duration == Some(duration_of(t.member("duration"@).uint_or_zero() as nat))
        },
{
    reveal_strlit("");
}

/// An album is listed under its number, unless that is missing or zero, with
/// title and artist, the year of its first release, its genre and its large
/// picture or else the small one.
pub proof fn albums_are_listed_as_they_are(a: JsonVal)
    ensures
        album_maker()(a) == album_entry(a),
        album_entry(a) is None <==> a.member("id"@).uint_or_zero() == 0,
        album_entry(a) matches Some(e) ==> {
            let title = a.member("title"@).text_or("Unknown"@);
            let artist = a.member("artist"@).member("name"@).text();
            let date = a.member("release_date_original"@).text();
            &&& e.id == decimal(a.member("id"@).uint_or_zero() as nat)
            &&& artist matches Some(n) ==> e.title == titled(title, n)
            &&& artist is None ==> e.title == title
            &&& date matches Some(d) ==> e.year == byte_prefix(d, 4)
            &&& date is None ==> e.year is None
            &&& e.genre == a.member("genre"@).text()
            &&& a.member("image"@).member("large"@).text() is Some ==> e.poster_url == a.member(
                "image"@,
            ).member("large"@).text()
            &&& a.member("image"@).member("large"@).text() is None ==> e.poster_url == a.member(
                "image"@,
            ).member("small"@).text()
            &&& e.rating is None && e.description is None && e.imdb_id is None
                && e.duration is None
        },
{
    reveal_strlit("");
}

/// Every track and every album of the answer that has a number is listed, the
/// tracks before the albums and each in the order in which they came. An answer
/// that cannot be read lists nothing.
pub proof fn tracks_are_listed_before_albums(v: JsonVal, e: Seq<char>)
    ensures
        results_of(Err(e)).len() == 0,
        exists|x: Seq<ListingView>, y: Seq<ListingView>|
            results_of(Ok(v)) == x + y && #[trigger] picks(
                v.member("tracks"@).member("items"@).items(),
                track_maker(),
                x,
            ) && #[trigger] picks(
                v.member("albums"@).member("items"@).items(),
                album_maker(),
                y,
            ),
{
    collected_is_picked(v.member("tracks"@).member("items"@).items(), track_maker());
    collected_is_picked(v.member("albums"@).member("items"@).items(), album_maker());
}

/// A stream is played from the address of the answer, or else from that of its
/// file; an empty one counts for nothing.
pub proof fn address_comes_before_the_file(v: JsonVal, e: Seq<char>)
    ensures
        ({
            let url = v.member("url"@).text();
            let file = v.member("file_url"@).text();
            &&& (url matches Some(u) && u.len() > 0) ==> stream_of(Ok(v)) == url
            &&& (url is None || url->0.len() == 0) ==> ((file matches Some(f) && f.len() > 0)
                ==> stream_of(Ok(v)) == file)
            &&& (url is None || url->0.len() == 0) && (file is None || file->0.len() == 0)
                ==> stream_of(Ok(v)) is None
            &&& stream_of(Err(e)) is None
        }),
{
}

/// The qualities are asked for by the numbers that the service gives them, are
/// told by their labels, and are tried from the best to the least.
pub proof fn qualities_go_by_their_numbers()
    ensures
        Tier::HiRes.format() == 27 && Tier::HiRes.label() == "24bit"@ && Tier::HiRes.lower()
            == Some(Tier::Lossless),
        Tier::Lossless.format() == 6 && Tier::Lossless.label() == "lossless"@
            && Tier::Lossless.lower() == Some(Tier::Mp3),
        Tier::Mp3.format() == 5 && Tier::Mp3.label() == "mp3-320"@ && Tier::Mp3.lower() is None,
{
}

/// What is signed is the method, then each parameter with its value in the
/// order of their names, then the time and the secret.
pub proof fn signatures_run_parameters_together(
    method: Seq<char>,
    x: Pair,
    y: Pair,
    z: Pair,
    ts: nat,
    secret: Seq<char>,
)
    requires
        not_after(x.0, y.0),
        not_after(y.0, z.0),
    ensures
        signature_input(method, seq![x, y, z], ts, secret) == method + (x.0 + x.1 + y.0 + y.1 + z.0
            + z.1) + decimal(ts) + secret,
{
    let s: Seq<Pair> = seq![x, y, z];
    reveal_with_fuel(by_key, 4);
    assert(s.drop_last() =~= seq![x, y]);
    assert(s.drop_last().drop_last() =~= seq![x]);
    assert(s.drop_last().drop_last().drop_last() =~= seq![]);
    assert(by_key(seq![x]) =~= seq![x]);
    assert(by_key(seq![x, y]) =~= seq![x, y]);
    assert(by_key(s) =~= s);
    reveal_with_fuel(run_together, 4);
    assert(run_together(s) =~= x.0 + x.1 + y.0 + y.1 + z.0 + z.1);
}

/// The address of a track names the track and the quality, carries the token
/// of the user, and is signed with the secret of the application over just
/// these and the time.
pub proof fn track_addresses_are_signed(creds: AuthCredentials, track_id: nat, tier: Tier, ts: nat)
    ensures
        tier_address(creds, track_id, tier, ts)
            == "https://www.qobuz.com/api.json/0.2/file/url?track_id="@ + decimal(track_id)
            + "&format_id="@ + decimal(tier.format()) + "&intent=stream&app_id="@ + encoded(
            creds.app_id@,
        ) + "&user_auth_token="@ + encoded(creds.user_token@) + "&request_ts="@ + decimal(ts)
            + "&request_sig="@ + md5_hex(
            "file/url"@ + ("format_id"@ + decimal(tier.format()) + "intent"@ + "stream"@
                + "track_id"@ + decimal(track_id)) + decimal(ts) + creds.app_secret@,
        ),
{
    reveal_strlit("format_id");
    reveal_strlit("intent");
    reveal_strlit("track_id");
    assert("format_id"@[0] == 'f' && "intent"@[0] == 'i' && "track_id"@[0] == 't');
    let x: Pair = ("format_id"@, decimal(tier.format()));
    let y: Pair = ("intent"@, "stream"@);
    let z: Pair = ("track_id"@, decimal(track_id));
    signatures_run_parameters_together("file/url"@, x, y, z, ts, creds.app_secret@);
}

/// A search asks for twenty results with the query, as the application and the
/// user that are logged in; a query of nothing but white space asks nothing.
pub proof fn searches_are_made_as_the_user(query: Seq<char>, creds: AuthCredentials)
    ensures
        search_address(query, creds) is None <==> trim(query).len() == 0,
        search_address(query, creds) matches Some(u) ==> u
            == "https://www.qobuz.com/api.json/0.2/catalog/search?query="@ + encoded(trim(query))
            + "&limit=20&app_id="@ + creds.app_id@ + "&user_auth_token="@ + creds.user_token@,
{
}

/// A login names the user, the password and the application. It needs all of
/// them: what is missing first, of the application, the user and the password,
/// is what the answer tells.
pub proof fn logins_need_everything(
    cache: Map<Seq<char>, String>,
    password: Result<Seq<char>, Seq<char>>,
)
    ensures
        ({
            let app = cache.contains_key("qobuz_app_id"@) && cache["qobuz_app_id"@]@.len() > 0
                && cache.contains_key("qobuz_app_secret"@) && cache["qobuz_app_secret"@]@.len()
                > 0;
            let user = cache.contains_key("qobuz_username"@);
            &&& login_in(cache, password) is Ok <==> app && user && password is Ok
            &&& login_in(cache, password) matches Ok((url, id, secret)) ==> {
                &&& id == cache["qobuz_app_id"@]@
                &&& secret == cache["qobuz_app_secret"@]@
                &&& url == "https://www.qobuz.com/api.json/0.2/user/login?email="@ + encoded(
                    cache["qobuz_username"@]@,
                ) + "&password="@ + encoded(password->Ok_0) + "&app_id="@ + id
            }
            &&& !app ==> login_in(cache, password) == Err::<
                (Seq<char>, Seq<char>, Seq<char>),
                Seq<char>,
            >(
                "Qobuz app credentials not configured. Please configure APP_ID and APP_SECRET via stui settings. Contact api@qobuz.com to obtain official credentials."@,
            )
            &&& app && !user ==> login_in(cache, password) == Err::<
                (Seq<char>, Seq<char>, Seq<char>),
                Seq<char>,
            >("Qobuz username not set. Configure via stui settings."@)
            &&& app && user ==> (password matches Err(e) ==> login_in(cache, password) == Err::<
                (Seq<char>, Seq<char>, Seq<char>),
                Seq<char>,
            >(e))
        }),
{
}

/// A login gives the token and the number of the user that the answer names,
/// and fails where it names one of them not or cannot be read.
pub proof fn logins_give_token_and_user(v: JsonVal, e: Seq<char>)
    ensures
        ({
            let token = v.member("user_auth_token"@).text();
            let id = v.member("user"@).member("id"@).signed();
            &&& login_reply_of(Ok(v)) is Ok <==> token is Some && id is Some
            &&& login_reply_of(Ok(v)) matches Ok((t, i)) ==> token == Some(t) && id == Some(i)
            &&& token is None ==> login_reply_of(Ok(v)) == Err::<(Seq<char>, i64), Seq<char>>(
                "missing user_auth_token in login response"@,
            )
            &&& token is Some && id is None ==> login_reply_of(Ok(v)) == Err::<
                (Seq<char>, i64),
                Seq<char>,
            >("missing user.id in login response"@)
            &&& login_reply_of(Err(e)) == Err::<(Seq<char>, i64), Seq<char>>(
                "parse login response: "@ + e,
            )
        }),
{
}

/// The machine goes by the id that is kept, or else by its name with the
/// user's home behind it: the first of the two names that is there, or the
/// word for neither.
pub proof fn machines_go_by_their_name(
    cache: Map<Seq<char>, String>,
    hostname: Option<String>,
    host: Option<String>,
    home: Option<String>,
)
    ensures
        ({
            let id = machine_id(cache, hostname, host, home);
            let tail = match home {
                Some(h) => h@,
                None => Seq::empty(),
            };
            &&& cache.contains_key("machine_id"@) ==> id == cache["machine_id"@]@
            &&& !cache.contains_key("machine_id"@) ==> {
                &&& hostname matches Some(n) ==> id == n@ + tail
                &&& hostname is None ==> (host matches Some(n) ==> id == n@ + tail)
                &&& hostname is None && host is None ==> id == "default"@ + tail
            }
            &&& derived_key(id) == sha256(encode_utf8("stui-qobuz-"@ + id))
        }),
{
    reveal_strlit("");
    assert(""@ =~= Seq::empty());
}

/// The key that is kept is used where it has the right length, and a new one
/// is derived where none is kept or it cannot be read.
pub proof fn kept_key_comes_first(
    cache: Map<Seq<char>, String>,
    hostname: Option<String>,
    host: Option<String>,
    home: Option<String>,
)
    ensures
        ({
            let kept = cache.contains_key("qobuz_encryption_secret"@) && (base64_bytes(
                cache["qobuz_encryption_secret"@]@,
            ) matches Ok(b) && b.len() == 32);
            let key = key_in(cache, hostname, host, home);
            &&& kept ==> base64_bytes(cache["qobuz_encryption_secret"@]@) == Ok::<
                Seq<u8>,
                Seq<char>,
            >(key)
            &&& !kept ==> key == derived_key(machine_id(cache, hostname, host, home))
        }),
{
}

/// The password is the one that is kept locked, opened with the key; only
/// where none is does the one that is kept in the clear count, and where that
/// is missing or empty there is none.
pub proof fn locked_password_comes_first(cache: Map<Seq<char>, String>, key: Seq<u8>)
    ensures
        cache.contains_key("qobuz_password_encrypted"@) ==> password_in(cache, key) == unlocked(
            key,
            cache["qobuz_password_encrypted"@]@,
        ),
        !cache.contains_key("qobuz_password_encrypted"@) ==> {
            let plain = cache.contains_key("qobuz_password"@) && cache["qobuz_password"@]@.len() > 0;
            &&& !plain ==> password_in(cache, key) == Err::<Seq<char>, Seq<char>>(
                "Qobuz password not set. Configure via stui settings."@,
            )
            &&& plain ==> (password_in(cache, key) matches Ok(p) ==> p
                == cache["qobuz_password"@]@)
            &&& plain && encode_utf8(cache["qobuz_password"@]@).len() <= 0x10_0000_0000
                ==> password_in(cache, key) is Ok
        },
{
}

/// What is seen of a step is its answer, or else the quality that is tried.
pub proof fn steps_are_seen_in_full(a: ResolveAnswer, t: Tier)
    ensures
        TierStep::Answer(a)@ == TierStepView::Answer(a@),
        TierStep::Try(t)@ == TierStepView::Try(t),
{
}

/// A stream that is found is handed out in its quality. Without one the next
/// lower quality is tried, and the least one tells why there is none.
pub proof fn next_lower_quality_is_tried(tier: Tier, url: Seq<char>, e: Seq<char>)
    ensures
        tier_step(tier, Ok(Some(url))) matches TierStepView::Answer(Ok(r)) && r.stream_url == url
            && r.quality == Some(tier.label()) && r.subtitles.len() == 0,
        tier == Tier::HiRes ==> tier_step(tier, Ok(None)) == TierStepView::Try(Tier::Lossless)
            && tier_step(tier, Err(e)) == TierStepView::Try(Tier::Lossless),
        tier == Tier::Lossless ==> tier_step(tier, Ok(None)) == TierStepView::Try(Tier::Mp3)
            && tier_step(tier, Err(e)) == TierStepView::Try(Tier::Mp3),
        tier == Tier::Mp3 ==> (tier_step(tier, Ok(None)) matches TierStepView::Answer(Err(x)) && x
            == ("resolve_failed"@, "format "@ + decimal(5) + " returned no stream URL"@)),
        tier == Tier::Mp3 ==> (tier_step(tier, Err(e)) matches TierStepView::Answer(Err(x)) && x
            == ("resolve_failed"@, "format "@ + decimal(5) + " failed: "@ + e)),
{
}

/// Keeping a key changes nothing but the key and the machine's id, and nothing
/// at all where one is kept already.
pub proof fn only_key_and_machine_change(
    before: Map<Seq<char>, String>,
    after: Map<Seq<char>, String>,
    k: Seq<char>,
)
    ensures
        kept_key(before) is Some ==> with_key(before, after) == before,
        kept_key(before) is None ==> with_key(before, after)["machine_id"@] == after["machine_id"@]
            && with_key(before, after)["qobuz_encryption_secret"@]
            == after["qobuz_encryption_secret"@],
        kept_key(before) is None ==> with_key(before, after).contains_key("machine_id"@)
            && with_key(before, after).contains_key("qobuz_encryption_secret"@),
        k != "machine_id"@ && k != "qobuz_encryption_secret"@ ==> (with_key(
            before,
            after,
        ).contains_key(k) <==> before.contains_key(k)) && with_key(before, after)[k] == before[k],
{
    reveal_strlit("machine_id");
    reveal_strlit("qobuz_encryption_secret");
    assert("machine_id"@.len() == 10 && "qobuz_encryption_secret"@.len() == 23);
}

} // verus!
