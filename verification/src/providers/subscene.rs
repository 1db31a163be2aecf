//! Finds subtitles on subscene.com.

use vstd::prelude::*;

use crate::markup::{extract_quoted, quoted_value};
use crate::providers::common::{resolve_to, resolved, ResolveAnswer, ResolveOutcome, Step, StepView};
use crate::providers::kitsunekko::before_slash;
use crate::providers::listing::{
    limit_to, list, listed, plain, plain_listing, Listing, ListingAnswer, ListingOutcome,
    ListingView,
};
use crate::sdk::plugin::PluginType;
use crate::sdk::result::{views, PluginResult};
use crate::sdk::types::{ResolveRequest, SearchRequest};
use crate::text::cat::cat;
use crate::text::chars::{is_text, opt, skip_to, space, take_to, to_chars, to_text};
use crate::text::find::{
    begins, begins_with, ends, ends_with, find, find_char, find_one, find_text, has_text,
    lemma_cut, lemma_find_char, occurs,
};
use crate::text::list::{first_some, lemma_first_from, lemma_first_step, limited};
use crate::text::percent::{encoded, url_encode};
use crate::text::replace::push_all;
use crate::text::split::{lines, lines_of, slices};
use crate::text::trim::{trim, trim_both, trim_end, trim_start, trim_text};

verus! {

/// The provider.
#[derive(Debug, Default)]
pub struct SubsceneProvider;

/// An address on the site: a secure one whose host is the site itself, with
/// nothing before or behind it.
pub open spec fn on_site(url: Seq<char>) -> bool {
    begins(url, "https://"@) && (before_slash(url.skip(8)) == "www.subscene.com"@ || before_slash(
        url.skip(8),
    ) == "subscene.com"@)
}

/// Whether an address is on the site.
pub fn is_valid_subscene_url(url: &str) -> (r: bool)
    ensures
        r == on_site(url@),
{
    proof {
        reveal_strlit("https://");
    }
    let u = to_chars(url);
    if !begins_with(u.as_slice(), "https://") {
        return false;
    }
    let rest = skip_to(u.as_slice(), 8);
    let host = match find_one(rest, '/') {
        Some(i) => take_to(rest, i),
        None => rest,
    };
    is_text(host, "www.subscene.com") || is_text(host, "subscene.com")
}

/// The value of an attribute in markup.
pub open spec fn attr_in(html: Seq<char>, attr: Seq<char>) -> Option<Seq<char>> {
    quoted_value(html, attr + "=\""@)
}

/// The value of an attribute in markup.
pub fn extract_attr(html: &[char], attr: &str) -> (r: Option<String>)
    ensures
        opt(r) == attr_in(html@, attr@),
{
    extract_quoted(html, cat(attr, "=\"").as_str())
}

/// What stands between the end of the first tag that is opened as given and
/// the next closing character.
pub open spec fn text_between(html: Seq<char>, open_tag: Seq<char>, close: char) -> Option<
    Seq<char>,
> {
    match find(html, open_tag) {
        Some(i) => match find_char(html.skip(i), '>') {
            Some(g) => match find_char(html.skip(i).skip(g + 1), close) {
                Some(e) => Some(html.skip(i).skip(g + 1).take(e)),
                None => None,
            },
            None => None,
        },
        None => None,
    }
}

/// What stands between the end of a tag and the next closing character.
pub fn extract_text_between(html: &[char], open_tag: &str, close_char: char) -> (r: Option<String>)
    ensures
        opt(r) == text_between(html@, open_tag@, close_char),
{
    match find_text(html, open_tag) {
        Some(i) => {
            let rest = skip_to(html, i);
            let end: usize = rest.len();
            match find_one(rest, '>') {
                Some(g) => {
                    let content = skip_to(rest, g + 1);
                    match find_one(content, close_char) {
                        Some(e) => Some(to_text(take_to(content, e))),
                        None => None,
                    }
                },
                None => None,
            }
        },
        None => None,
    }
}

/// A link, made into a full address where it is none.
pub open spec fn absolute(href: Seq<char>, full: bool) -> Seq<char> {
    if full {
        href
    } else if begins(href, "/"@) {
        "https://www.subscene.com"@ + href
    } else {
        "https://www.subscene.com/"@ + href
    }
}

/// A link, made into a full address where it is none.
fn make_absolute(href: String, full: bool) -> (r: String)
    ensures
        r@ == absolute(href@, full),
{
    if full {
        href
    } else if begins_with(to_chars(href.as_str()).as_slice(), "/") {
        cat("https://www.subscene.com", href.as_str())
    } else {
        cat("https://www.subscene.com/", href.as_str())
    }
}

/// A row of the list of results, as far as it has been read: how many cells
/// it has begun, the text of the cell that is open, and what the cells gave.
#[verifier::ext_equal]
pub struct RowView {
    pub cells: nat,
    pub open: Option<Seq<char>>,
    pub url: Seq<char>,
    pub title: Seq<char>,
    pub lang: Seq<char>,
}

/// A row that has just begun.
pub open spec fn new_row() -> RowView {
    RowView { cells: 0, open: None, url: seq![], title: seq![], lang: seq![] }
}

/// A row with a cell closed: the first cell gives the address, the second the
/// title, the third the language.
pub open spec fn with_cell(row: RowView, cell: Seq<char>) -> RowView {
    let row = RowView { open: None, ..row };
    if row.cells == 1 {
        match attr_in(cell, "href"@) {
            Some(href) => RowView {
                url: absolute(href, begins(href, "http://"@) || begins(href, "https://"@)),
                ..row
            },
            None => row,
        }
    } else if row.cells == 2 {
        match text_between(cell, "<span"@, '<') {
            Some(t) => RowView { title: trim(t), ..row },
            None => row,
        }
    } else if row.cells == 3 {
        match text_between(cell, "<span"@, '<') {
            Some(t) => RowView { lang: trim(t), ..row },
            None => row,
        }
    } else {
        row
    }
}

/// A row with one more line read.
pub open spec fn with_line(row: RowView, line: Seq<char>) -> RowView {
    let row = if begins(line, "<td"@) {
        RowView { cells: row.cells + 1, open: Some(seq![]), ..row }
    } else {
        row
    };
    match row.open {
        Some(text) => {
            let text = text + line + " "@;
            if occurs(line, "</td>"@) {
                with_cell(row, text)
            } else {
                RowView { open: Some(text), ..row }
            }
        },
        None => row,
    }
}

/// The entry that a row gives, where it has an address and a title.
pub open spec fn entry_of(row: RowView) -> Option<ListingView> {
    if row.url.len() > 0 && row.title.len() > 0 {
        Some(
            plain(
                row.url,
                row.title,
                if row.lang.len() == 0 {
                    None
                } else {
                    Some(row.lang)
                },
            ),
        )
    } else {
        None
    }
}

/// What has been read of a page: the row that is open, and the entries so far.
#[verifier::ext_equal]
pub struct PageView {
    pub row: Option<RowView>,
    pub entries: Seq<ListingView>,
}

/// What has been read of a page, with one more line.
pub open spec fn page_step(page: PageView, raw: Seq<char>) -> PageView {
    let line = trim(raw);
    if begins(line, "<tr"@) && occurs(line, "subtitle"@) {
        PageView { row: Some(new_row()), ..page }
    } else {
        match page.row {
            Some(row) => {
                let row = with_line(row, line);
                if line == "</tr>"@ {
                    PageView {
                        row: None,
                        entries: match entry_of(row) {
                            Some(e) => page.entries.push(e),
                            None => page.entries,
                        },
                    }
                } else {
                    PageView { row: Some(row), ..page }
                }
            },
            None => page,
        }
    }
}

/// What has been read of a page after the given lines.
pub open spec fn page_after(rows: Seq<Seq<char>>) -> PageView
    decreases rows.len(),
{
    if rows.len() == 0 {
        PageView { row: None, entries: seq![] }
    } else {
        page_step(page_after(rows.drop_last()), rows.last())
    }
}

/// The entries of a page of results.
pub open spec fn entries_of(html: Seq<char>) -> Seq<ListingView> {
    page_after(lines(html)).entries
}

/// A row of the list of results, as far as it has been read.
struct Row {
    cells: u64,
    open: Option<Vec<char>>,
    url: String,
    title: String,
    lang: String,
}

impl View for Row {
    type V = RowView;

    closed spec fn view(&self) -> RowView {
        RowView {
            cells: self.cells as nat,
            open: match self.open {
                Some(t) => Some(t@),
                None => None,
            },
            url: self.url@,
            title: self.title@,
            lang: self.lang@,
        }
    }
}

/// The view of an optional row.
closed spec fn opt_row(r: Option<Row>) -> Option<RowView> {
    match r {
        Some(row) => Some(row@),
        None => None,
    }
}

impl Row {
    /// Closes a cell.
    fn close_cell(self, cell: &[char]) -> (r: Row)
        requires
            self.open is None,
        ensures
            r@ == with_cell(self@, cell@),
            r.cells == self.cells,
    {
        let mut row = self;
        if row.cells == 1 {
            if let Some(href) = extract_attr(cell, "href") {
                let h = to_chars(href.as_str());
                let full = begins_with(h.as_slice(), "http://") || begins_with(
                    h.as_slice(),
                    "https://",
                );
                row.url = make_absolute(href, full);
            }
        } else if row.cells == 2 {
            if let Some(t) = extract_text_between(cell, "<span", '<') {
                row.title = trim_text(t.as_str());
            }
        } else if row.cells == 3 {
            if let Some(t) = extract_text_between(cell, "<span", '<') {
                row.lang = trim_text(t.as_str());
            }
        }
        assert(row@ =~= with_cell(self@, cell@));
        row
    }

    /// Reads one more line.
    fn read_line(self, line: &[char]) -> (r: Row)
        requires
            self.cells < u64::MAX,
        ensures
            r@ == with_line(self@, line@),
            r.cells <= self.cells + 1,
    {
        let mut row = self;
        if begins_with(line, "<td") {
            row.cells = row.cells + 1;
            row.open = Some(Vec::new());
        }
        let ghost begun = row@;
        proof {
            assert(begun =~= if begins(line@, "<td"@) {
                RowView { cells: self@.cells + 1, open: Some(seq![]), ..self@ }
            } else {
                self@
            });
        }
        match row.open {
            Some(text) => {
                let mut text = text;
                push_all(&mut text, line);
                push_all(&mut text, to_chars(" ").as_slice());
                if has_text(line, "</td>") {
                    row.open = None;
                    assert(with_cell(row@, text@) =~= with_cell(begun, text@));
                    row.close_cell(text.as_slice())
                } else {
                    row.open = Some(text);
                    assert(row@ =~= RowView { open: Some(text@), ..begun });
                    row
                }
            },
            None => {
                row.open = None;
                row
            },
        }
    }

    /// The entry that the row gives.
    fn entry(self) -> (r: Option<Listing>)
        ensures
            match r {
                Some(e) => entry_of(self@) == Some(e@),
                None => entry_of(self@) is None,
            },
    {
        if self.url.as_str().is_empty() || self.title.as_str().is_empty() {
            return None;
        }
        let description = if self.lang.as_str().is_empty() {
            None
        } else {
            Some(self.lang)
        };
        Some(plain_listing(self.url, self.title, description))
    }
}

/// The entries of a page of results, up to the limit.
pub fn parse_search_results(html: &str, limit: u32) -> (r: Vec<Listing>)
    ensures
        views(r@) == limited(entries_of(html@), limit),
{
    let chars = to_chars(html);
    let rows = lines_of(chars.as_slice());
    let ghost all = slices(rows@);
    let mut entries: Vec<Listing> = Vec::new();
    let mut row: Option<Row> = None;
    assert(views(entries@) =~= seq![]);
    for i in 0..rows.len()
        invariant
            all == slices(rows@),
            opt_row(row) == page_after(all.take(i as int)).row,
            views(entries@) == page_after(all.take(i as int)).entries,
            row matches Some(w) ==> w.cells <= i,
    {
        let ghost page = page_after(all.take(i as int));
        proof {
            assert(all.take(i + 1).drop_last() =~= all.take(i as int));
            assert(all.take(i + 1).last() == rows@[i as int]@);
        }
        let line = trim_both(rows[i]);
        if begins_with(line, "<tr") && has_text(line, "subtitle") {
            row = Some(
                Row {
                    cells: 0,
                    open: None,
                    url: String::new(),
                    title: String::new(),
                    lang: String::new(),
                },
            );
            assert(opt_row(row)->0 =~= new_row());
        } else {
            row = match row {
                Some(w) => {
                    let w = w.read_line(line);
                    if is_text(line, "</tr>") {
                        let ghost before = views(entries@);
                        if let Some(e) = w.entry() {
                            entries.push(e);
                            assert(views(entries@) =~= before.push(e@));
                        }
                        None
                    } else {
                        Some(w)
                    }
                },
                None => None,
            };
        }
    }
    assert(all.take(all.len() as int) =~= all);
    limit_to(entries, limit)
}

/// Every entry of a page has an address and a title.
pub proof fn entries_have_id_and_title(rows: Seq<Seq<char>>, k: int)
    requires
        0 <= k < page_after(rows).entries.len(),
    ensures
        page_after(rows).entries[k].id.len() > 0,
        page_after(rows).entries[k].title.len() > 0,
    decreases rows.len(),
{
    if rows.len() > 0 {
        let before = page_after(rows.drop_last());
        if k < before.entries.len() {
            entries_have_id_and_title(rows.drop_last(), k);
        }
    }
}

/// The download on the site that a line of markup links to.
pub open spec fn download_in(line: Seq<char>) -> Option<Seq<char>> {
    if occurs(line, "download"@) && occurs(line, "href"@) {
        match attr_in(line, "href"@) {
            Some(url) => {
                let full = absolute(url, begins(url, "http"@));
                if (occurs(url, "/subtitle/"@) || ends(url, ".zip"@)) && on_site(full) {
                    Some(full)
                } else {
                    None
                }
            },
            None => None,
        }
    } else {
        None
    }
}

/// `download_in` as a function.
pub open spec fn download_finder() -> spec_fn(Seq<char>) -> Option<Seq<char>> {
    |line: Seq<char>| download_in(line)
}

/// The download on the site that a line of markup links to.
fn parse_download(line: &[char]) -> (r: Option<String>)
    ensures
        opt(r) == download_in(line@),
{
    if !has_text(line, "download") || !has_text(line, "href") {
        return None;
    }
    match extract_attr(line, "href") {
        Some(url) => {
            let u = to_chars(url.as_str());
            let u = u.as_slice();
            if !has_text(u, "/subtitle/") && !ends_with(u, ".zip") {
                return None;
            }
            let full = make_absolute(url, begins_with(u, "http"));
            if is_valid_subscene_url(full.as_str()) {
                Some(full)
            } else {
                None
            }
        },
        None => None,
    }
}

/// The first download on the site that a page links to.
pub fn extract_download_link(html: &str) -> (r: Option<String>)
    ensures
        opt(r) == first_some(lines(html@), download_finder()),
{
    let chars = to_chars(html);
    let rows = lines_of(chars.as_slice());
    let ghost all = slices(rows@);
    assert(all.skip(0) =~= all);
    for i in 0..rows.len()
        invariant
            all == slices(rows@),
            all == lines(html@),
            first_some(all, download_finder()) == first_some(all.skip(i as int), download_finder()),
    {
        proof {
            lemma_first_step(all, download_finder(), i as int);
        }
        if let Some(url) = parse_download(rows[i]) {
            return Some(url);
        }
    }
    None
}

/// The page that a search is answered from. Nothing is found for an empty query.
pub open spec fn search_step(query: Seq<char>) -> StepView<ListingOutcome> {
    if trim(query).len() == 0 {
        StepView::Answer(listed(seq![]))
    } else {
        StepView::Fetch("https://www.subscene.com/subtitles/search?q="@ + encoded(trim(query)))
    }
}

/// The page that a request to resolve is answered from: the entry's own,
/// where it is on the site.
pub open spec fn resolve_step(entry_id: Seq<char>) -> StepView<ResolveOutcome> {
    if entry_id.len() == 0 {
        StepView::Answer(Err(("INVALID_URL"@, "empty entry_id"@)))
    } else if !on_site(entry_id) {
        StepView::Answer(Err(("INVALID_URL"@, "URL must be from subscene.com"@)))
    } else {
        StepView::Fetch(entry_id)
    }
}

/// What a request to resolve answers: the first download on the page.
pub open spec fn resolve_outcome(page: Result<String, String>) -> ResolveOutcome {
    match page {
        Err(e) => Err(("HTTP_ERROR"@, e@)),
        Ok(html) => match first_some(lines(html@), download_finder()) {
            Some(url) => resolved(url, Some("subscene"@)),
            None => Err(("PARSE_ERROR"@, "could not find download link"@)),
        },
    }
}

impl SubsceneProvider {
    /// The provider's name.
    pub fn name(&self) -> (r: &str)
        ensures
            r@ == "subscene"@,
    {
        "subscene"
    }

    /// The provider's version.
    pub fn version(&self) -> (r: &str)
        ensures
            r@ == "0.1.0"@,
    {
        "0.1.0"
    }

    /// What the provider is for.
    pub fn plugin_type(&self) -> (r: PluginType)
        ensures
            r == PluginType::Subtitle,
    {
        PluginType::Subtitle
    }

    /// Begins a search: the page to fetch, or the empty answer.
    pub fn search(&self, req: &SearchRequest) -> (r: Step<ListingAnswer>)
        ensures
            r@ == search_step(req.query@),
    {
        let query = trim_text(req.query.as_str());
        if query.as_str().is_empty() {
            let items: Vec<Listing> = Vec::new();
            assert(views(items@) =~= seq![]);
            return Step::Answer(list(items));
        }
        Step::Fetch(
            cat(
                "https://www.subscene.com/subtitles/search?q=",
                url_encode(query.as_str()).as_str(),
            ),
        )
    }

    /// Ends a search: the entries of the page, up to the limit.
    pub fn search_reply(&self, page: Result<String, String>, limit: u32) -> (r: ListingAnswer)
        ensures
            r@ == match page {
                Err(e) => Err(("HTTP_ERROR"@, e@)),
                Ok(html) => listed(limited(entries_of(html@), limit)),
            },
    {
        match page {
            Ok(html) => list(parse_search_results(html.as_str(), limit)),
            Err(e) => PluginResult::err("HTTP_ERROR", e.as_str()),
        }
    }

    /// Begins a request to resolve: the page to fetch, or the error that the
    /// entry is none of the site's.
    pub fn resolve(&self, req: &ResolveRequest) -> (r: Step<ResolveAnswer>)
        ensures
            r@ == resolve_step(req.entry_id@),
    {
        let url = req.entry_id.as_str();
        if url.is_empty() {
            return Step::Answer(PluginResult::err("INVALID_URL", "empty entry_id"));
        }
        if !is_valid_subscene_url(url) {
            return Step::Answer(
                PluginResult::err("INVALID_URL", "URL must be from subscene.com"),
            );
        }
        Step::Fetch(url.to_owned())
    }

    /// Ends a request to resolve: the first download on the page.
    pub fn resolve_reply(&self, page: Result<String, String>) -> (r: ResolveAnswer)
        ensures
            r@ == resolve_outcome(page),
    {
        match page {
            Ok(html) => match extract_download_link(html.as_str()) {
                Some(url) => resolve_to(url, Some("subscene".to_owned())),
                None => PluginResult::err("PARSE_ERROR", "could not find download link"),
            },
            Err(e) => PluginResult::err("HTTP_ERROR", e.as_str()),
        }
    }
}

/// What is handed out to be played is on the site.
pub proof fn resolved_download_is_on_site(page: Result<String, String>)
    ensures
        resolve_outcome(page) matches Ok(v) ==> on_site(v.stream_url),
{
    if let Ok(html) = page {
        let all = lines(html@);
        if first_some(all, download_finder()) is Some {
            lemma_first_from(all, download_finder());
        }
    }
}

/// An address is on the site where it is a secure one and the host in it is one
/// of the two names of the site, to the letter.
pub proof fn hosts_are_told_to_the_letter(host: Seq<char>, rest: Seq<char>, other: Seq<char>)
    requires
        find_char(host, '/') is None,
        !begins(other, "https://"@),
    ensures
        on_site("https://"@ + host + seq!['/'] + rest) <==> host == "subscene.com"@ || host
            == "www.subscene.com"@,
        on_site("https://"@ + host) <==> host == "subscene.com"@ || host == "www.subscene.com"@,
        !on_site(other),
{
    reveal_strlit("https://");
    let s = "https://"@ + host + seq!['/'] + rest;
    let t = host + seq!['/'] + rest;
    assert(s.skip(8) =~= t);
    assert(s.subrange(0, 8) =~= "https://"@);
    lemma_find_char(host, '/');
    lemma_find_char(t, '/');
    assert(t[host.len() as int] == '/');
    let p = find_char(t, '/').unwrap();
    if p < host.len() {
        assert(host[p] == '/');
    }
    assert(t.take(p) =~= host);
    let u = "https://"@ + host;
    assert(u.skip(8) =~= host);
    assert(u.subrange(0, 8) =~= "https://"@);
}

/// The text of a tag stands between the end of the tag and the next mark.
pub proof fn texts_stand_behind_their_tag(
    front: Seq<char>,
    name: Seq<char>,
    tag: Seq<char>,
    text: Seq<char>,
    close: char,
    rest: Seq<char>,
)
    requires
        find(front + (tag + seq!['>'] + (text + seq![close] + rest)), name) == Some(
            front.len() as int,
        ),
        find_char(tag, '>') is None,
        find_char(text, close) is None,
    ensures
        text_between(
            front + (tag + seq!['>'] + (text + seq![close] + rest)),
            name,
            close,
        ) == Some(text),
{
    let u = text + seq![close] + rest;
    let t = tag + seq!['>'] + u;
    let s = front + t;
    assert(s.skip(front.len() as int) =~= t);
    lemma_cut(tag, '>', u);
    lemma_cut(text, close, rest);
}

/// The value of an attribute stands between quotes behind its name.
pub proof fn attributes_are_quoted(html: Seq<char>)
    ensures
        attr_in(html, "href"@) == quoted_value(html, "href"@ + "=\""@),
{
}

/// A whole address is kept, and any other gets the host before it.
pub proof fn addresses_get_the_host(href: Seq<char>)
    ensures
        absolute(href, true) == href,
        begins(href, "/"@) ==> absolute(href, false) == "https://www.subscene.com"@ + href,
        !begins(href, "/"@) ==> absolute(href, false) == "https://www.subscene.com/"@ + href,
{
}

/// The lines of a cell that stands on one line.
pub open spec fn is_cell(line: Seq<char>) -> bool {
    trim(line) == line && begins(line, "<td"@) && occurs(line, "</td>"@)
}

/// A row of the table lists an entry: the link in its first cell is its
/// address, the text in the second its title and the text in the third its
/// language. Other rows before it do not matter.
pub proof fn rows_list_an_entry(
    before: Seq<Seq<char>>,
    open: Seq<char>,
    first: Seq<char>,
    second: Seq<char>,
    third: Seq<char>,
    href: Seq<char>,
    title: Seq<char>,
    lang: Seq<char>,
)
    requires
        begins(trim(open), "<tr"@) && occurs(trim(open), "subtitle"@),
        is_cell(first) && is_cell(second) && is_cell(third),
        attr_in(first + " "@, "href"@) == Some(href),
        text_between(second + " "@, "<span"@, '<') == Some(title),
        text_between(third + " "@, "<span"@, '<') == Some(lang),
        href.len() > 0,
        trim(title).len() > 0,
    ensures
        ({
            let page = page_after(before + seq![open, first, second, third, "</tr>"@]);
            let full = begins(href, "http://"@) || begins(href, "https://"@);
            let id = if full {
                href
            } else if begins(href, "/"@) {
                "https://www.subscene.com"@ + href
            } else {
                "https://www.subscene.com/"@ + href
            };
            &&& page.row is None
            &&& page.entries == page_after(before).entries.push(
                plain(
                    id,
                    trim(title),
                    if trim(lang).len() == 0 {
                        None
                    } else {
                        Some(trim(lang))
                    },
                ),
            )
        }),
{
    reveal_strlit("<tr");
    reveal_strlit("<td");
    reveal_strlit("</tr>");
    let close = "</tr>"@;
    lemma_cell_is_no_row(first);
    lemma_cell_is_no_row(second);
    lemma_cell_is_no_row(third);
    assert(!space('<') && !space('>'));
    assert(close[0] == '<' && close[4] == '>');
    assert(trim_start(close) == close);
    assert(trim_end(close) == close);
    assert(trim(close) == close);
    if begins(close, "<tr"@) {
        assert(close.subrange(0, 3)[1] == 't');
    }
    if begins(close, "<td"@) {
        assert(close.subrange(0, 3)[1] == 't');
    }
    let p0 = before + seq![open];
    let p1 = before + seq![open, first];
    let p2 = before + seq![open, first, second];
    let p3 = before + seq![open, first, second, third];
    let p4 = before + seq![open, first, second, third, close];
    assert(p0.drop_last() =~= before && p0.last() == open);
    assert(p1.drop_last() =~= p0 && p1.last() == first);
    assert(p2.drop_last() =~= p1 && p2.last() == second);
    assert(p3.drop_last() =~= p2 && p3.last() == third);
    assert(p4.drop_last() =~= p3 && p4.last() == close);
    let r0 = new_row();
    assert(page_after(p0).row == Some(r0));
    assert(Seq::<char>::empty() + first + " "@ =~= first + " "@);
    assert(Seq::<char>::empty() + second + " "@ =~= second + " "@);
    assert(Seq::<char>::empty() + third + " "@ =~= third + " "@);
    lemma_cell_is_no_end(first);
    lemma_cell_is_no_end(second);
    lemma_cell_is_no_end(third);
    let r1 = page_after(p1).row->0;
    assert(r1.cells == 1 && r1.open is None);
    let r2 = page_after(p2).row->0;
    assert(r2.cells == 2 && r2.open is None && r2.title == trim(title) && r2.url == r1.url);
    let r3 = page_after(p3).row->0;
    assert(r3.cells == 3 && r3.open is None && r3.lang == trim(lang) && r3.title == r2.title);
    assert(with_line(r3, close) == r3);
}

/// A line that begins a cell begins no row.
proof fn lemma_cell_is_no_row(line: Seq<char>)
    requires
        is_cell(line),
    ensures
        !begins(line, "<tr"@),
{
    reveal_strlit("<tr");
    reveal_strlit("<td");
    if begins(line, "<tr"@) {
        assert(line.subrange(0, 3)[2] == 'r');
    }
}

/// A line that begins a cell ends no row.
proof fn lemma_cell_is_no_end(line: Seq<char>)
    requires
        is_cell(line),
    ensures
        line != "</tr>"@,
{
    reveal_strlit("</tr>");
    reveal_strlit("<td");
    assert(line.subrange(0, 3)[1] == line[1]);
}

/// A row lists an entry where it has an address and a title, and tells the
/// language where it has one.
pub proof fn rows_need_address_and_title(row: RowView)
    ensures
        entry_of(row) is Some <==> row.url.len() > 0 && row.title.len() > 0,
        entry_of(row) matches Some(e) ==> {
            &&& e.id == row.url && e.title == row.title
            &&& row.lang.len() > 0 ==> e.description == Some(row.lang)
            &&& row.lang.len() == 0 ==> e.description is None
        },
{
}

/// A line outside of a row lists nothing, and nothing that is listed is lost.
pub proof fn entries_stay(before: Seq<Seq<char>>, line: Seq<char>)
    ensures
        ({
            let old = page_after(before);
            let new = page_after(before.push(line));
            &&& new.entries.len() >= old.entries.len()
            &&& new.entries.take(old.entries.len() as int) == old.entries
            &&& old.row is None ==> new.entries == old.entries
            &&& trim(line) != "</tr>"@ ==> new.entries == old.entries
        }),
{
    assert(before.push(line).drop_last() =~= before);
    let old = page_after(before);
    let new = page_after(before.push(line));
    assert(new.entries.take(old.entries.len() as int) =~= old.entries);
    reveal_strlit("<tr");
    reveal_strlit("</tr>");
}

/// A line holds a download where it speaks of one, and its link leads to a
/// subtitle or an archive on the site.
pub proof fn lines_hold_downloads(line: Seq<char>)
    ensures
        download_finder()(line) == download_in(line),
        ({
            let href = quoted_value(line, "href"@ + "=\""@);
            let url = href->0;
            let full = absolute(url, begins(url, "http"@));
            &&& download_in(line) is Some <==> occurs(line, "download"@) && occurs(line, "href"@)
                && href is Some && (occurs(url, "/subtitle/"@) || ends(url, ".zip"@)) && on_site(
                full,
            )
            &&& download_in(line) matches Some(d) ==> d == full
        }),
{
}

/// A query is asked for on the site; one of nothing but white space lists
/// nothing.
pub proof fn queries_are_asked_for(query: Seq<char>)
    ensures
        trim(query).len() > 0 ==> (search_step(query) matches StepView::Fetch(u) && u
            == "https://www.subscene.com/subtitles/search?q="@ + encoded(trim(query))),
        trim(query).len() == 0 ==> (search_step(query) matches StepView::Answer(Ok(r)) && r.0.len()
            == 0),
{
}

/// An entry is looked up where its id is an address on the site, and refused
/// where it is not. The download of the first line that holds one is handed
/// out; without one, and without a page, the answer says so.
pub proof fn entries_are_looked_up_on_the_site(entry_id: Seq<char>, html: String, e: String)
    ensures
        entry_id.len() > 0 && on_site(entry_id) ==> (resolve_step(entry_id) matches StepView::Fetch(
            u,
        ) && u == entry_id),
        entry_id.len() == 0 ==> (resolve_step(entry_id) matches StepView::Answer(Err(x)) && x == (
            "INVALID_URL"@,
            "empty entry_id"@,
        )),
        entry_id.len() > 0 && !on_site(entry_id) ==> (resolve_step(
            entry_id,
        ) matches StepView::Answer(Err(x)) && x == (
            "INVALID_URL"@,
            "URL must be from subscene.com"@,
        )),
        first_some(lines(html@), download_finder()) matches Some(u) ==> (resolve_outcome(
            Ok(html),
        ) matches Ok(r) && r.stream_url == u && r.quality == Some("subscene"@)
            && r.subtitles.len() == 0),
        first_some(lines(html@), download_finder()) is None ==> (resolve_outcome(
            Ok(html),
        ) matches Err(x) && x == (
            "PARSE_ERROR"@,
            "could not find download link"@,
        )),
        resolve_outcome(Err(e)) == ResolveOutcome::Err(("HTTP_ERROR"@, e@)),
{
}

/// A cell may stand on several lines: they are put together, with a space
/// behind each, and read where the cell ends.
pub proof fn cells_are_put_together(row: RowView, line: Seq<char>, text: Seq<char>)
    ensures
        begins(line, "<td"@) && !occurs(line, "</td>"@) ==> with_line(row, line) == (RowView {
            cells: row.cells + 1,
            open: Some(line + " "@),
            ..row
        }),
        !begins(line, "<td"@) && row.open == Some(text) && !occurs(line, "</td>"@) ==> with_line(
            row,
            line,
        ) == (RowView { open: Some(text + line + " "@), ..row }),
        !begins(line, "<td"@) && row.open == Some(text) && occurs(line, "</td>"@) ==> with_line(
            row,
            line,
        ) == with_cell(row, text + line + " "@),
        !begins(line, "<td"@) && row.open is None ==> with_line(row, line) == row,
{
    assert(Seq::<char>::empty() + line + " "@ =~= line + " "@);
}

/// The first cell holds the address, the second the title and the third the
/// language; what stands in others does not count, nor what is missing.
pub proof fn cells_count_by_their_place(row: RowView, cell: Seq<char>)
    ensures
        ({
            let r = with_cell(row, cell);
            let text = text_between(cell, "<span"@, '<');
            let href = quoted_value(cell, "href"@ + "=\""@);
            &&& r.cells == row.cells && r.open is None
            &&& row.cells != 1 || href is None ==> r.url == row.url
            &&& row.cells != 2 || text is None ==> r.title == row.title
            &&& row.cells != 3 || text is None ==> r.lang == row.lang
            &&& row.cells == 1 ==> (href matches Some(h) ==> r.url == absolute(
                h,
                begins(h, "http://"@) || begins(h, "https://"@),
            ))
            &&& row.cells == 2 ==> (text matches Some(t) ==> r.title == trim(t))
            &&& row.cells == 3 ==> (text matches Some(t) ==> r.lang == trim(t))
        }),
{
}

} // verus!
