//! Searches Rate Your Music for albums and artists.

use vstd::prelude::*;

use crate::providers::common::{SearchAnswer, Step, StepView};
use crate::sdk::kinds::{EntryKind, SearchScope};
use crate::sdk::manifest::PluginManifest;
use crate::sdk::plugin::Plugin;
use crate::sdk::result::{views, PluginResult};
use crate::sdk::types::{blank_entry, EntryView, PluginEntry, SearchRequest, SearchResponse};
use crate::text::cat::{cat3, cat5};
use crate::text::chars::{opt, same_text, to_chars, to_text};
use crate::text::list::{
    collect_some, collected_is_picked, lemma_collect_len, lemma_collect_step, picks,
};
use crate::text::percent::{escaped, is_unreserved, push_escaped, unreserved};

verus! {

/// The plugin.
pub struct RymPlugin {
    pub manifest: PluginManifest,
}

impl Plugin for RymPlugin {
    fn manifest(&self) -> (r: &PluginManifest)
        ensures
            *r == self.manifest,
    {
        &self.manifest
    }
}

/// A character as it stands in the address of a search: one that a URL takes
/// as it is, or else the escape of the lowest byte of its code point.
pub open spec fn search_char(c: char) -> Seq<char> {
    if unreserved(c) {
        seq![c]
    } else {
        escaped((c as u32 % 256) as u8)
    }
}

/// A text as it stands in the address of a search.
pub open spec fn search_text(s: Seq<char>) -> Seq<char>
    decreases s.len(),
{
    if s.len() == 0 {
        seq![]
    } else {
        search_text(s.drop_last()) + search_char(s.last())
    }
}

/// A text as it stands in the address of a search.
pub fn urlencoding_encode(s: &str) -> (r: String)
    ensures
        r@ == search_text(s@),
{
    let cs = to_chars(s);
    let mut out: Vec<char> = Vec::new();
    for i in 0..cs.len()
        invariant
            cs@ == s@,
            out@ == search_text(s@.take(i as int)),
    {
        let ghost before = out@;
        assert(s@.take(i + 1).drop_last() =~= s@.take(i as int));
        assert(s@.take(i + 1).last() == cs@[i as int]);
        let c = cs[i];
        if is_unreserved(c) {
            out.push(c);
            assert(out@ =~= before + seq![c]);
        } else {
            push_escaped(&mut out, (c as u32 % 256) as u8);
        }
    }
    assert(s@.take(s@.len() as int) =~= s@);
    to_text(out.as_slice())
}

/// The two groups that a pattern captures, at each place where a text matches
/// it; none where the pattern is no valid one.
pub uninterp spec fn captured(pattern: Seq<char>, text: Seq<char>) -> Option<
    Seq<(Option<Seq<char>>, Option<Seq<char>>)>,
>;

/// The first and the second group of a match.
pub type Groups = (Option<String>, Option<String>);

/// The views of a list of groups.
pub open spec fn groups_view(v: Seq<Groups>) -> Seq<(Option<Seq<char>>, Option<Seq<char>>)> {
    Seq::new(v.len(), |i: int| (opt(v[i].0), opt(v[i].1)))
}

/// Calls `Regex::new` and `Regex::captures_iter`, and `Captures::get` for the
/// first two groups of each match. What is captured depends on the pattern and
/// the text alone and is named `captured`.
#[verifier::external_body]
fn capture_all(pattern: &str, text: &str) -> (r: Option<Vec<Groups>>)
    ensures
        match r {
            Some(v) => captured(pattern@, text@) == Some(groups_view(v@)),
            None => captured(pattern@, text@) is None,
        },
{
    let re = regex::Regex::new(pattern).ok()?;
    let group = |c: &regex::Captures, i: usize| c.get(i).map(|m| m.as_str().to_string());
    Some(re.captures_iter(text).map(|c| (group(&c, 1), group(&c, 2))).collect())
}

/// The entry that a match gives: an album's or an artist's, by the kind of
/// search, with its slug behind that kind.
pub open spec fn entry_of(
    groups: (Option<Seq<char>>, Option<Seq<char>>),
    search_type: Seq<char>,
) -> Option<EntryView> {
    match groups {
        (Some(slug), Some(title)) => Some(
            EntryView {
                id: search_type + "/"@ + slug,
                title,
                kind: if search_type == "artist"@ {
                    EntryKind::Artist
                } else {
                    EntryKind::Album
                },
                source: "rym"@,
                ..blank_entry()
            },
        ),
        _ => None,
    }
}

/// `entry_of` for a kind of search.
pub open spec fn entry_maker(search_type: Seq<char>) -> spec_fn(
    (Option<Seq<char>>, Option<Seq<char>>),
) -> Option<EntryView> {
    |g: (Option<Seq<char>>, Option<Seq<char>>)| entry_of(g, search_type)
}

/// The first 25 matches.
pub open spec fn first_matches<A>(s: Seq<A>) -> Seq<A> {
    if s.len() > 25 {
        s.take(25)
    } else {
        s
    }
}

/// The entries that the matches on a page give, the first 25 of them.
pub open spec fn entries_of(
    matches: Option<Seq<(Option<Seq<char>>, Option<Seq<char>>)>>,
    search_type: Seq<char>,
) -> Seq<EntryView> {
    match matches {
        Some(s) => collect_some(first_matches(s), entry_maker(search_type)),
        None => seq![],
    }
}

/// The pattern of a link to an album or an artist: its slug, and its title.
pub open spec fn link_pattern() -> Seq<char> {
    "href=\"/[^/]+/([^/]+)/\"[^>]*><span[^>]*>([^<]+)<"@
}

/// The entry that a match gives.
fn make_entry(groups: Groups, search_type: &str) -> (r: Option<PluginEntry>)
    ensures
        match r {
            Some(e) => entry_of((opt(groups.0), opt(groups.1)), search_type@) == Some(e@),
            None => entry_of((opt(groups.0), opt(groups.1)), search_type@) is None,
        },
{
    match groups {
        (Some(slug), Some(title)) => {
            let mut e = PluginEntry::default();
            e.id = cat3(search_type, "/", slug.as_str());
            e.title = title;
            e.kind = if same_text(search_type, "artist") {
                EntryKind::Artist
            } else {
                EntryKind::Album
            };
            e.source = "rym".to_owned();
            assert(e@ =~= entry_of((opt(groups.0), opt(groups.1)), search_type@)->0);
            Some(e)
        },
        _ => None,
    }
}

/// The entries that the matches on a page give, the first 25 of them.
pub fn match_entries(matches: Vec<Groups>, search_type: &str) -> (r: Vec<PluginEntry>)
    ensures
        views(r@) == entries_of(Some(groups_view(matches@)), search_type@),
        r@.len() <= 25,
{
    let mut matches = matches;
    let ghost whole = groups_view(matches@);
    if matches.len() > 25 {
        matches.truncate(25);
    }
    let ghost all = groups_view(matches@);
    let ghost f = entry_maker(search_type@);
    assert(all =~= first_matches(whole));
    let ghost vals = matches@;
    let mut out: Vec<PluginEntry> = Vec::new();
    for g in it: matches
        invariant
            it.seq() == vals,
            all == groups_view(vals),
            all.len() <= 25,
            f == entry_maker(search_type@),
            views(out@) == collect_some(all.take(it.index() as int), f),
    {
        proof {
            lemma_collect_step(all, f, it.index() as int);
        }
        let ghost before = views(out@);
        if let Some(e) = make_entry(g, search_type) {
            out.push(e);
            assert(views(out@) =~= before.push(e@));
        }
    }
    proof {
        assert(all.take(all.len() as int) =~= all);
        lemma_collect_len(all, f);
        assert(views(out@).len() == out@.len());
    }
    out
}

/// The entries on a page of results.
pub fn parse_search_results(html: &str, search_type: &str) -> (r: Vec<PluginEntry>)
    ensures
        views(r@) == entries_of(captured(link_pattern(), html@), search_type@),
        r@.len() <= 25,
{
    match capture_all("href=\"/[^/]+/([^/]+)/\"[^>]*><span[^>]*>([^<]+)<", html) {
        Some(m) => match_entries(m, search_type),
        None => {
            let none: Vec<PluginEntry> = Vec::new();
            assert(views(none@) =~= seq![]);
            none
        },
    }
}

/// The kind of search for a scope.
pub open spec fn scope_type(scope: SearchScope) -> Option<Seq<char>> {
    match scope {
        SearchScope::Album => Some("album"@),
        SearchScope::Artist => Some("artist"@),
        _ => None,
    }
}

/// The page that a search is answered from. Only albums and artists can be
/// searched for.
pub open spec fn search_step(req: SearchRequest) -> StepView<
    Result<(Seq<EntryView>, u32), (Seq<char>, Seq<char>)>,
> {
    match scope_type(req.scope) {
        Some(t) => StepView::Fetch(
            "https://rateyourmusic.com"@ + "/"@ + t + "-search?searchterm="@ + search_text(
                req.query@,
            ),
        ),
        None => StepView::Answer(
            Err(("unsupported_scope"@, "RYM only supports album/artist scopes"@)),
        ),
    }
}

impl RymPlugin {
    /// The plugin with its manifest.
    pub fn new(manifest: PluginManifest) -> (r: Self)
        ensures
            r.manifest == manifest,
    {
        RymPlugin { manifest }
    }

    /// Begins a search: the page to fetch, or the error for another scope.
    pub fn search(&self, req: &SearchRequest) -> (r: Step<SearchAnswer>)
        ensures
            r@ == search_step(*req),
    {
        let t = match req.scope {
            SearchScope::Album => "album",
            SearchScope::Artist => "artist",
            _ => {
                return Step::Answer(
                    PluginResult::err(
                        "unsupported_scope",
                        "RYM only supports album/artist scopes",
                    ),
                );
            },
        };
        Step::Fetch(
            cat5(
                "https://rateyourmusic.com",
                "/",
                t,
                "-search?searchterm=",
                urlencoding_encode(req.query.as_str()).as_str(),
            ),
        )
    }

    /// Ends a search in a scope that can be searched: the entries on the page.
    pub fn search_reply(&self, page: Result<String, String>, scope: SearchScope) -> (r:
        SearchAnswer)
        requires
            scope_type(scope) is Some,
        ensures
            r@ == match page {
                Err(e) => Err(("remote_error"@, e@)),
                Ok(html) => {
                    let items = entries_of(captured(link_pattern(), html@), scope_type(scope)->0);
                    Ok((items, items.len() as u32))
                },
            },
    {
        let t = match scope {
            SearchScope::Album => "album",
            _ => "artist",
        };
        match page {
            Ok(html) => {
                let items = parse_search_results(html.as_str(), t);
                let total = items.len() as u32;
                assert(views(items@).len() == items@.len());
                PluginResult::ok(SearchResponse { items, total })
            },
            Err(e) => PluginResult::err("remote_error", e.as_str()),
        }
    }
}

/// Albums and artists are searched for on their own pages, with the query in
/// the address; any other scope is refused.
pub proof fn only_albums_and_artists_are_searched_for(req: SearchRequest)
    ensures
        req.scope == SearchScope::Album ==> (search_step(req) matches StepView::Fetch(u) && u
            == "https://rateyourmusic.com"@ + "/"@ + "album"@ + "-search?searchterm="@
            + search_text(req.query@)),
        req.scope == SearchScope::Artist ==> (search_step(req) matches StepView::Fetch(u) && u
            == "https://rateyourmusic.com"@ + "/"@ + "artist"@ + "-search?searchterm="@
            + search_text(req.query@)),
        req.scope != SearchScope::Album && req.scope != SearchScope::Artist ==> (search_step(
            req,
        ) matches StepView::Answer(Err(e)) && e == (
            "unsupported_scope"@,
            "RYM only supports album/artist scopes"@,
        )),
{
}

/// A match lists an entry where it names the page and the title: an artist in
/// a search for artists and an album in one for albums, found again under the
/// page.
pub proof fn entries_tell_what_matches_tell(
    groups: (Option<Seq<char>>, Option<Seq<char>>),
    search_type: Seq<char>,
)
    ensures
        entry_maker(search_type)(groups) == entry_of(groups, search_type),
        entry_of(groups, search_type) is Some <==> groups.0 is Some && groups.1 is Some,
        entry_of(groups, search_type) matches Some(e) ==> {
            &&& e.id == search_type + "/"@ + groups.0->0
            &&& e.title == groups.1->0
            &&& e.source == "rym"@
            &&& search_type == "artist"@ ==> e.kind == EntryKind::Artist
            &&& search_type == "album"@ ==> e.kind == EntryKind::Album
            &&& e.description is None && e.year is None && e.genre is None && e.imdb_id is None
        },
{
    reveal_strlit("artist");
    reveal_strlit("album");
    assert("artist"@.len() == 6 && "album"@.len() == 5);
}

/// Of the matches the first twenty-five are looked at, and each of these that
/// names page and title is listed, in the order in which they came.
pub proof fn first_matches_are_listed(
    s: Seq<(Option<Seq<char>>, Option<Seq<char>>)>,
    search_type: Seq<char>,
)
    ensures
        s.len() <= 25 ==> picks(s, entry_maker(search_type), entries_of(Some(s), search_type)),
        s.len() > 25 ==> picks(
            s.take(25),
            entry_maker(search_type),
            entries_of(Some(s), search_type),
        ),
        entries_of(None, search_type).len() == 0,
{
    collected_is_picked(first_matches(s), entry_maker(search_type));
}

/// A query stands in the address character by character: letters, digits and
/// the four signs as they are, and any other as the escape of its last byte.
pub proof fn queries_stand_in_the_address(a: Seq<char>, c: char)
    ensures
        search_text(Seq::empty()).len() == 0,
        unreserved(c) ==> search_text(a.push(c)) == search_text(a).push(c),
        !unreserved(c) ==> search_text(a.push(c)) == search_text(a) + escaped(
            (c as u32 % 256) as u8,
        ),
{
    assert(a.push(c).drop_last() =~= a);
    if unreserved(c) {
        assert(search_text(a) + seq![c] =~= search_text(a).push(c));
    }
}

/// The links that are matched lead to a page in a directory and hold its title.
pub proof fn links_are_matched_by_their_page()
    ensures
        link_pattern() == "href=\"/[^/]+/([^/]+)/\"[^>]*><span[^>]*>([^<]+)<"@,
{
}

/// What is seen of the matches are their two groups.
pub proof fn matches_are_seen_in_full(v: Seq<Groups>, i: int)
    requires
        0 <= i < v.len(),
    ensures
        groups_view(v).len() == v.len(),
        groups_view(v)[i].0 == opt(v[i].0),
        groups_view(v)[i].1 == opt(v[i].1),
{
}

} // verus!
