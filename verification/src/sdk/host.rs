//! What passes between a plugin and its host: requests, replies and buffers.

use vstd::prelude::*;

use crate::json::{json_string, quoted};
use crate::text::cat::{cat3, cat5};
use crate::text::number::{decimal, decimal_text};

verus! {

/// The version of the interface between plugin and host.
pub const STUI_ABI_VERSION: i32 = 1;

/// The level of a message in the host's log.
pub const LEVEL_DEBUG: i32 = 1;

pub const LEVEL_INFO: i32 = 2;

pub const LEVEL_WARN: i32 = 3;

pub const LEVEL_ERROR: i32 = 4;

/// The address and the length of a buffer, in the two halves of one number.
pub fn pack(ptr: u32, len: u32) -> (r: u64)
    ensures
        r == ptr * 0x1_0000_0000 + len,
{
    let (p, n) = (ptr as u64, len as u64);
    assert((p << 32) | n == p * 0x1_0000_0000 + n) by (bit_vector)
        requires
            p < 0x1_0000_0000,
            n < 0x1_0000_0000,
    ;
    (p << 32) | n
}

/// The address and the length that a packed number holds.
pub fn unpack(packed: u64) -> (r: (u32, u32))
    ensures
        r.0 == packed / 0x1_0000_0000,
        r.1 == packed % 0x1_0000_0000,
{
    assert((packed >> 32) & 0xffff_ffff == packed / 0x1_0000_0000) by (bit_vector);
    assert(packed & 0xffff_ffff == packed % 0x1_0000_0000) by (bit_vector);
    (((packed >> 32) & 0xffff_ffff) as u32, (packed & 0xffff_ffff) as u32)
}

/// Unpacking gives back what was packed.
pub proof fn unpack_undoes_pack(ptr: u32, len: u32)
    ensures
        (ptr * 0x1_0000_0000 + len) / 0x1_0000_0000 == ptr,
        (ptr * 0x1_0000_0000 + len) % 0x1_0000_0000 == len,
{
}

/// What a status and a body mean: the body where the status is one of
/// success, and an error that holds both elsewhere.
pub open spec fn outcome(status: u16, body: Seq<char>) -> Result<Seq<char>, Seq<char>> {
    if 200 <= status && status < 300 {
        Ok(body)
    } else {
        Err("HTTP "@ + decimal(status as nat) + ": "@ + body)
    }
}

/// The view of an outcome.
pub open spec fn outcome_view(r: Result<String, String>) -> Result<Seq<char>, Seq<char>> {
    match r {
        Ok(s) => Ok(s@),
        Err(e) => Err(e@),
    }
}

/// What the host's reply to an HTTP request means.
pub fn http_outcome(status: u16, body: String) -> (r: Result<String, String>)
    ensures
        outcome_view(r) == outcome(status, body@),
{
    if status >= 200 && status < 300 {
        Ok(body)
    } else {
        let number = decimal_text(status as u64);
        Err(crate::text::cat::cat4("HTTP ", number.as_str(), ": ", body.as_str()))
    }
}

/// What the host's reply to a command means: what it printed where it
/// succeeded, and else its error output.
pub fn exec_outcome(status: i32, stdout: String, stderr: String) -> (r: Result<String, String>)
    ensures
        r == if status == 0 {
            Ok::<String, String>(stdout)
        } else {
            Err::<String, String>(stderr)
        },
{
    if status == 0 {
        Ok(stdout)
    } else {
        Err(stderr)
    }
}

/// The members `"name":"value"` of a list of headers, with a comma between them.
pub open spec fn header_members(headers: Seq<(&str, &str)>) -> Seq<char>
    decreases headers.len(),
{
    if headers.len() == 0 {
        seq![]
    } else {
        let (k, v) = headers.last();
        let member = quoted(k@) + ":"@ + quoted(v@);
        if headers.len() == 1 {
            member
        } else {
            header_members(headers.drop_last()) + ","@ + member
        }
    }
}

/// The request that the host makes a GET with headers from.
pub open spec fn get_payload(url: Seq<char>, headers: Seq<(&str, &str)>) -> Seq<char> {
    "{\"url\":"@ + quoted(url) + ",\"__stui_headers\":{"@ + header_members(headers) + "}}"@
}

/// The request for a GET with the given headers, which the host applies as they are.
pub fn get_with_headers_payload(url: &str, headers: &[(&str, &str)]) -> (r: String)
    ensures
        r@ == get_payload(url@, headers@),
{
    let mut members = String::new();
    for i in 0..headers.len()
        invariant
            members@ == header_members(headers@.take(i as int)),
    {
        if i > 0 {
            members.append(",");
        }
        let (k, v) = headers[i];
        let ghost before = members@;
        members.append(json_string(k).as_str());
        members.append(":");
        members.append(json_string(v).as_str());
        proof {
            let now = headers@.take(i + 1);
            assert(now.drop_last() =~= headers@.take(i as int));
            assert(now.last() == headers@[i as int]);
            assert(members@ =~= before + (quoted(k@) + ":"@ + quoted(v@)));
        }
    }
    assert(headers@.take(headers@.len() as int) =~= headers@);
    cat5(
        "{\"url\":",
        json_string(url).as_str(),
        ",\"__stui_headers\":{",
        members.as_str(),
        "}}",
    )
}

/// The request for a POST with a JSON body.
pub fn post_json_payload(url: &str, body: &str) -> (r: String)
    ensures
        r@ == "{\"url\":"@ + quoted(url@) + ",\"body\":"@ + quoted(body@) + "}"@,
{
    cat5("{\"url\":", json_string(url).as_str(), ",\"body\":", json_string(body).as_str(), "}")
}

/// The request for a POST with a form as its body.
pub fn post_form_payload(url: &str, body: &str) -> (r: String)
    ensures
        r@ == "{\"url\":"@ + quoted(url@) + ",\"body\":"@ + quoted(body@)
            + ",\"__stui_headers\":{\"Content-Type\":\"application/x-www-form-urlencoded\"}}"@,
{
    cat5(
        "{\"url\":",
        json_string(url).as_str(),
        ",\"body\":",
        json_string(body).as_str(),
        ",\"__stui_headers\":{\"Content-Type\":\"application/x-www-form-urlencoded\"}}",
    )
}

/// The items of a list of texts as JSON strings, with a comma between them.
pub open spec fn quoted_items(items: Seq<&str>) -> Seq<char>
    decreases items.len(),
{
    if items.len() == 0 {
        seq![]
    } else if items.len() == 1 {
        quoted(items[0]@)
    } else {
        quoted_items(items.drop_last()) + ","@ + quoted(items.last()@)
    }
}

/// The request to run a command.
pub fn exec_payload(cmd: &str, args: &[&str], timeout_ms: u32) -> (r: String)
    ensures
        r@ == "{\"cmd\":"@ + quoted(cmd@) + ",\"args\":["@ + quoted_items(args@)
            + "],\"timeout_ms\":"@ + decimal(timeout_ms as nat) + "}"@,
{
    let mut items = String::new();
    for i in 0..args.len()
        invariant
            items@ == quoted_items(args@.take(i as int)),
    {
        if i > 0 {
            items.append(",");
        }
        items.append(json_string(args[i]).as_str());
        proof {
            let now = args@.take(i + 1);
            assert(now.drop_last() =~= args@.take(i as int));
            assert(now.last() == args@[i as int]);
            if i == 0 {
                assert(items@ =~= quoted(args@[0]@));
            }
        }
    }
    assert(args@.take(args@.len() as int) =~= args@);
    let head = cat5(
        "{\"cmd\":",
        json_string(cmd).as_str(),
        ",\"args\":[",
        items.as_str(),
        "],\"timeout_ms\":",
    );
    cat3(head.as_str(), decimal_text(timeout_ms as u64).as_str(), "}")
}

/// An answer counts where its status is from 200 up to 300, and is told with
/// the status otherwise.
pub proof fn only_success_counts(status: u16, body: Seq<char>)
    ensures
        outcome(status, body) is Ok <==> 200 <= status && status <= 299,
        outcome(status, body) matches Ok(b) ==> b == body,
        outcome(status, body) matches Err(m) ==> m == "HTTP "@ + decimal(status as nat) + ": "@
            + body,
{
}

/// Headers are written one after the other, each with name and value in quotes.
pub proof fn headers_are_written_in_order(a: Seq<(&str, &str)>, key: &str, value: &str)
    ensures
        header_members(seq![(key, value)]) == quoted(key@) + ":"@ + quoted(value@),
        a.len() > 0 ==> header_members(a.push((key, value))) == header_members(a) + ","@ + (quoted(
            key@,
        ) + ":"@ + quoted(value@)),
        header_members(Seq::empty()).len() == 0,
{
    assert(a.push((key, value)).drop_last() =~= a);
}

/// A request names its address, and its headers in a member of their own.
pub proof fn requests_name_address_and_headers(url: Seq<char>, headers: Seq<(&str, &str)>)
    ensures
        get_payload(url, headers) == "{\"url\":"@ + quoted(url) + ",\"__stui_headers\":{"@
            + header_members(headers) + "}}"@,
{
}

/// Items are written one after the other, each in quotes.
pub proof fn items_are_written_in_order(a: Seq<&str>, item: &str)
    ensures
        quoted_items(seq![item]) == quoted(item@),
        a.len() > 0 ==> quoted_items(a.push(item)) == quoted_items(a) + ","@ + quoted(item@),
        quoted_items(Seq::empty()).len() == 0,
{
    assert(a.push(item).drop_last() =~= a);
}

} // verus!
