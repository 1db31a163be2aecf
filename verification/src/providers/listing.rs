//! Entries as the music and subtitle providers list them, with everything
//! but the title as labels.

use vstd::prelude::*;

use crate::sdk::result::{views, PluginResult};
use crate::text::chars::opt;
use crate::text::list::limited;

verus! {

/// One entry of a list.
#[derive(Debug, Clone)]
pub struct Listing {
    pub id: String,
    pub title: String,
    pub year: Option<String>,
    pub genre: Option<String>,
    pub rating: Option<String>,
    pub description: Option<String>,
    pub poster_url: Option<String>,
    pub imdb_id: Option<String>,
    pub duration: Option<String>,
}

/// What an entry holds.
#[verifier::ext_equal]
pub struct ListingView {
    pub id: Seq<char>,
    pub title: Seq<char>,
    pub year: Option<Seq<char>>,
    pub genre: Option<Seq<char>>,
    pub rating: Option<Seq<char>>,
    pub description: Option<Seq<char>>,
    pub poster_url: Option<Seq<char>>,
    pub imdb_id: Option<Seq<char>>,
    pub duration: Option<Seq<char>>,
}

impl View for Listing {
    type V = ListingView;

    open spec fn view(&self) -> ListingView {
        ListingView {
            id: self.id@,
            title: self.title@,
            year: opt(self.year),
            genre: opt(self.genre),
            rating: opt(self.rating),
            description: opt(self.description),
            poster_url: opt(self.poster_url),
            imdb_id: opt(self.imdb_id),
            duration: opt(self.duration),
        }
    }
}

/// The answer to a search: the entries, and how many there are.
#[derive(Debug, Clone)]
pub struct ListingResponse {
    pub items: Vec<Listing>,
    pub total: u32,
}

impl View for ListingResponse {
    type V = (Seq<ListingView>, u32);

    open spec fn view(&self) -> (Seq<ListingView>, u32) {
        (views(self.items@), self.total)
    }
}

/// What a search answers.
pub type ListingAnswer = PluginResult<ListingResponse>;

/// What a search answers, in its view.
pub type ListingOutcome = Result<(Seq<ListingView>, u32), (Seq<char>, Seq<char>)>;

/// The number of a list's entries as far as it can be told in 32 bits.
pub open spec fn total_of(n: nat) -> u32 {
    (n % 0x1_0000_0000) as u32
}

/// The answer with the given entries.
pub fn list(items: Vec<Listing>) -> (r: ListingAnswer)
    ensures
        r@ == Ok::<(Seq<ListingView>, u32), (Seq<char>, Seq<char>)>(
            (views(items@), total_of(items@.len())),
        ),
{
    let total = (items.len() as u64 % 0x1_0000_0000) as u32;
    PluginResult::ok(ListingResponse { items, total })
}

/// The entry with nothing but an id, a title and what is said of it.
pub open spec fn plain(
    id: Seq<char>,
    title: Seq<char>,
    description: Option<Seq<char>>,
) -> ListingView {
    ListingView {
        id,
        title,
        year: None,
        genre: None,
        rating: None,
        description,
        poster_url: None,
        imdb_id: None,
        duration: None,
    }
}

/// The entry with nothing but an id, a title and what is said of it.
pub fn plain_listing(id: String, title: String, description: Option<String>) -> (r: Listing)
    ensures
        r@ == plain(id@, title@, opt(description)),
{
    Listing {
        id,
        title,
        year: None,
        genre: None,
        rating: None,
        description,
        poster_url: None,
        imdb_id: None,
        duration: None,
    }
}

/// The first `limit` entries; all of them where the limit is zero.
pub fn limit_to(items: Vec<Listing>, limit: u32) -> (r: Vec<Listing>)
    ensures
        views(r@) == limited(views(items@), limit),
{
    let mut items = items;
    let ghost all = views(items@);
    if limit > 0 && items.len() > limit as usize {
        items.truncate(limit as usize);
    }
    assert(views(items@) =~= limited(all, limit));
    items
}

/// A limit that is not zero is kept, and what is listed stands at the head of
/// what was found.
pub proof fn limit_is_kept(items: Seq<ListingView>, limit: u32)
    ensures
        limit > 0 ==> limited(items, limit).len() <= limit,
        limited(items, limit).len() <= items.len(),
        limited(items, limit) == items.take(limited(items, limit).len() as int),
{
    assert(items.take(items.len() as int) =~= items);
}

/// The total of an answer is the number of its entries, where that number has
/// no more than 32 bits.
pub proof fn total_counts_the_entries(items: Seq<ListingView>)
    requires
        items.len() <= u32::MAX,
    ensures
        listed(items) == Ok::<(Seq<ListingView>, u32), (Seq<char>, Seq<char>)>(
            (items, items.len() as u32),
        ),
{
}

/// The answer with the given entries, in its view.
pub open spec fn listed(items: Seq<ListingView>) -> ListingOutcome {
    Ok((items, total_of(items.len())))
}

/// A plain entry tells its id, its title and what it is described by, and
/// nothing else.
pub proof fn plain_entries_tell_nothing_else(
    id: Seq<char>,
    title: Seq<char>,
    description: Option<Seq<char>>,
)
    ensures
        ({
            let e = plain(id, title, description);
            &&& e.id == id && e.title == title && e.description == description
            &&& e.year is None && e.genre is None && e.rating is None && e.poster_url is None
            &&& e.imdb_id is None && e.duration is None
        }),
{
}

/// What is seen of an entry is what its fields hold, and of an answer its
/// entries and their number.
pub proof fn entries_are_seen_in_full(e: Listing, r: ListingResponse)
    ensures
        e@.id == e.id@ && e@.title == e.title@ && e@.year == opt(e.year),
        e@.genre == opt(e.genre) && e@.rating == opt(e.rating),
        e@.description == opt(e.description) && e@.poster_url == opt(e.poster_url),
        e@.imdb_id == opt(e.imdb_id) && e@.duration == opt(e.duration),
        r@.0.len() == r.items@.len() && r@.1 == r.total,
        forall|i: int| 0 <= i < r.items@.len() ==> #[trigger] r@.0[i] == r.items@[i]@,
{
}

/// The total is counted in 32 bits.
pub proof fn totals_have_32_bits(n: nat)
    ensures
        n < 0x1_0000_0000 ==> total_of(n) == n,
        total_of(n + 0x1_0000_0000) == total_of(n),
{
}

} // verus!
