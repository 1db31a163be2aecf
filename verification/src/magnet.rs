//! Magnet links, and the release groups that titles name.

use vstd::prelude::*;

use crate::text::cat::{cat4, cat5};
use crate::text::chars::{opt, skip_to, take_to, to_chars, to_text};
use crate::text::find::{
    begins, begins_with, ends, find_char, find_one, lemma_ends_of, lemma_find_char, lemma_middle,
    occurs,
};
use crate::text::percent::{encoded, url_encode};
use crate::text::trim::{trim, trim_both, trim_head, trim_start};

verus! {

/// The magnet link with nothing but a hash and an encoded name.
pub open spec fn bare_magnet(hash: Seq<char>, name: Seq<char>) -> Seq<char> {
    "magnet:?xt=urn:btih:"@ + hash + "&dn="@ + encoded(name)
}

/// The public trackers, as parameters of a magnet link.
pub open spec fn tracker_params() -> Seq<char> {
    "tr="@ + encoded("udp://tracker.opentrackr.org:1337/announce"@) + "&tr="@ + encoded(
        "udp://open.demonii.com:1337/announce"@,
    ) + "&tr="@ + encoded("udp://open.tracker.cl:1337/announce"@) + "&tr="@ + encoded(
        "udp://exodus.desync.com:6969/announce"@,
    ) + "&tr="@ + encoded("udp://tracker.torrent.eu.org:451/announce"@)
}

/// The magnet link with a hash, an encoded name and the public trackers.
pub open spec fn magnet(hash: Seq<char>, encoded_name: Seq<char>) -> Seq<char> {
    "magnet:?xt=urn:btih:"@ + hash + "&dn="@ + encoded_name + "&"@ + tracker_params()
}

/// The magnet link with nothing but a hash and a name.
pub fn bare_magnet_of(hash: &str, name: &str) -> (r: String)
    ensures
        r@ == bare_magnet(hash@, name@),
{
    cat4("magnet:?xt=urn:btih:", hash, "&dn=", url_encode(name).as_str())
}

/// The magnet link with a hash, a name that is already encoded, and the
/// public trackers.
pub fn synth_magnet(info_hash: &str, dn_encoded: &str) -> (r: String)
    ensures
        r@ == magnet(info_hash@, dn_encoded@),
{
    let mut out = cat5("magnet:?xt=urn:btih:", info_hash, "&dn=", dn_encoded, "&");
    let mut params = cat4(
        "tr=",
        url_encode("udp://tracker.opentrackr.org:1337/announce").as_str(),
        "&tr=",
        url_encode("udp://open.demonii.com:1337/announce").as_str(),
    );
    params.append("&tr=");
    params.append(url_encode("udp://open.tracker.cl:1337/announce").as_str());
    params.append("&tr=");
    params.append(url_encode("udp://exodus.desync.com:6969/announce").as_str());
    params.append("&tr=");
    params.append(url_encode("udp://tracker.torrent.eu.org:451/announce").as_str());
    out.append(params.as_str());
    out
}

/// The name in brackets at the head of a title, where there is one.
pub open spec fn group_of(title: Seq<char>) -> Option<Seq<char>> {
    let t = trim_start(title);
    if !begins(t, "["@) {
        None
    } else {
        match find_char(t, ']') {
            Some(close) => {
                let inner = trim(t.take(close).skip(1));
                if inner.len() == 0 {
                    None
                } else {
                    Some(inner)
                }
            },
            None => None,
        }
    }
}

/// The release group that a title names in brackets at its head.
pub fn parse_release_group(title: &str) -> (r: Option<String>)
    ensures
        opt(r) == group_of(title@),
{
    proof {
        reveal_strlit("[");
    }
    let chars = to_chars(title);
    let t = trim_head(chars.as_slice());
    if !begins_with(t, "[") {
        return None;
    }
    match find_one(t, ']') {
        Some(close) => {
            proof {
                assert(t@.subrange(0, 1)[0] == t@[0]);
            }
            let inner = trim_both(skip_to(take_to(t, close), 1));
            if inner.len() == 0 {
                None
            } else {
                Some(to_text(inner))
            }
        },
        None => None,
    }
}

/// A magnet link begins with its hash, and the name stands behind it: encoded
/// in the bare one, as it is given in the other, which goes on with the five
/// public trackers.
pub proof fn links_hold_what_they_are_made_of(hash: Seq<char>, name: Seq<char>)
    ensures
        bare_magnet(hash, name) == "magnet:?xt=urn:btih:"@ + hash + "&dn="@ + encoded(name),
        begins(magnet(hash, name), "magnet:?xt=urn:btih:"@ + hash + "&dn="@ + name),
        occurs(magnet(hash, name), "&tr="@ + encoded("udp://tracker.opentrackr.org:1337/announce"@)),
        occurs(magnet(hash, name), "&tr="@ + encoded("udp://open.demonii.com:1337/announce"@)),
        occurs(magnet(hash, name), "&tr="@ + encoded("udp://open.tracker.cl:1337/announce"@)),
        occurs(magnet(hash, name), "&tr="@ + encoded("udp://exodus.desync.com:6969/announce"@)),
        ends(magnet(hash, name), "&tr="@ + encoded("udp://tracker.torrent.eu.org:451/announce"@)),
{
    reveal_strlit("&");
    reveal_strlit("tr=");
    reveal_strlit("&tr=");
    let head = "magnet:?xt=urn:btih:"@ + hash + "&dn="@ + name;
    let a = "&tr="@ + encoded("udp://tracker.opentrackr.org:1337/announce"@);
    let b = "&tr="@ + encoded("udp://open.demonii.com:1337/announce"@);
    let c = "&tr="@ + encoded("udp://open.tracker.cl:1337/announce"@);
    let d = "&tr="@ + encoded("udp://exodus.desync.com:6969/announce"@);
    let e = "&tr="@ + encoded("udp://tracker.torrent.eu.org:451/announce"@);
    let m = magnet(hash, name);
    assert(m =~= head + (a + b + c + d + e));
    lemma_ends_of(head, a + b + c + d + e);
    assert(m =~= head + a + (b + c + d + e));
    lemma_middle(head, a, b + c + d + e);
    assert(m =~= (head + a) + b + (c + d + e));
    lemma_middle(head + a, b, c + d + e);
    assert(m =~= (head + a + b) + c + (d + e));
    lemma_middle(head + a + b, c, d + e);
    assert(m =~= (head + a + b + c) + d + e);
    lemma_middle(head + a + b + c, d, e);
    assert(m =~= (head + a + b + c + d) + e);
    lemma_ends_of(head + a + b + c + d, e);
}

/// The group is the text between the first bracket of a title that begins
/// with one and the next closing bracket, without the white space around it;
/// white space before the bracket does not count.
pub proof fn group_stands_in_brackets(group: Seq<char>, rest: Seq<char>)
    requires
        find_char(group, ']') is None,
    ensures
        group_of(seq!['['] + group + seq![']'] + rest) == if trim(group).len() > 0 {
            Some(trim(group))
        } else {
            None
        },
        group_of(seq![' '] + (seq!['['] + group + seq![']'] + rest)) == group_of(
            seq!['['] + group + seq![']'] + rest,
        ),
        group_of(seq!['['] + group) is None,
{
    reveal_strlit("[");
    let t = seq!['['] + group + seq![']'] + rest;
    lemma_find_char(group, ']');
    lemma_find_char(t, ']');
    assert(t[group.len() as int + 1] == ']');
    let p = find_char(t, ']').unwrap();
    if p <= group.len() {
        assert(p > 0);
        assert(group[p - 1] == ']');
    }
    assert(t.take(p).skip(1) =~= group);
    assert(trim_start(t) == t);
    assert(t.subrange(0, 1) =~= "["@);
    let u = seq![' '] + t;
    assert(u.skip(1) =~= t);
    assert(trim_start(u) == trim_start(u.skip(1)));
    let v = seq!['['] + group;
    assert(trim_start(v) == v);
    lemma_find_char(v, ']');
    if let Some(q) = find_char(v, ']') {
        assert(q > 0);
        assert(group[q - 1] == ']');
    }
}

/// A title that begins with anything but a bracket names no group.
pub proof fn other_titles_name_no_group(title: Seq<char>)
    requires
        trim_start(title).len() == 0 || trim_start(title)[0] != '[',
    ensures
        group_of(title) is None,
{
    reveal_strlit("[");
    if begins(trim_start(title), "["@) {
        assert(trim_start(title).subrange(0, 1)[0] == '[');
    }
}

} // verus!
