//! Canned HTTP answers, with which verbs are tested without a live host.

use vstd::prelude::*;

use crate::text::cat::cat3;
use crate::text::table::Table;

verus! {

/// A host that answers HTTP requests with the responses registered with it.
#[derive(Debug)]
pub struct MockHost {
    pub fixtures: Table<String>,
}

impl View for MockHost {
    type V = Map<Seq<char>, Seq<char>>;

    open spec fn view(&self) -> Map<Seq<char>, Seq<char>> {
        self.fixtures@.map_values(|b: String| b@)
    }
}

impl MockHost {
    /// A host without registered responses.
    pub fn new() -> (r: MockHost)
        ensures
            r@ == Map::<Seq<char>, Seq<char>>::empty(),
    {
        MockHost { fixtures: Table::new() }
    }

    /// The host with a response registered for one URL (an exact match). An
    /// earlier response for the same URL is replaced.
    pub fn with_fixture_response(self, url: &str, body: &str) -> (r: MockHost)
        ensures
            r@ == self@.insert(url@, body@),
    {
        let mut fixtures = self.fixtures;
        fixtures.insert(url, body.to_owned());
        MockHost { fixtures }
    }

    /// Clears every registered response.
    pub fn reset(&mut self)
        ensures
            final(self)@ == Map::<Seq<char>, Seq<char>>::empty(),
    {
        self.fixtures.clear();
    }

    /// The response registered for `url`.
    pub fn try_fixture(&self, url: &str) -> (r: Option<String>)
        ensures
            match r {
                Some(b) => self@.contains_key(url@) && b@ == self@[url@],
                None => !self@.contains_key(url@),
            },
    {
        match self.fixtures.get(url) {
            Some(b) => Some(b.clone()),
            None => None,
        }
    }

    /// Answers an HTTP GET request: with the registered response, or else with
    /// an error that names the URL.
    pub fn http_get(&self, url: &str) -> (r: Result<String, String>)
        ensures
            match r {
                Ok(b) => self@.contains_key(url@) && b@ == self@[url@],
                Err(e) => !self@.contains_key(url@) && e@ == no_host(url@),
            },
    {
        match self.try_fixture(url) {
            Some(b) => Ok(b),
            None => Err(cat3("http_get only available in WASM context (url: ", url, ")")),
        }
    }
}

/// The message for a request that no host answers.
pub open spec fn no_host(url: Seq<char>) -> Seq<char> {
    "http_get only available in WASM context (url: "@ + url + ")"@
}

impl Default for MockHost {
    fn default() -> (r: Self)
        ensures
            r@ == Map::<Seq<char>, Seq<char>>::empty(),
    {
        MockHost::new()
    }
}

/// What is not there is told by its address.
pub proof fn missing_pages_are_told(url: Seq<char>)
    ensures
        no_host(url) == "http_get only available in WASM context (url: "@ + url + ")"@,
{
}

/// What is seen of a host are the bodies under their addresses.
pub proof fn hosts_are_seen_in_full(h: MockHost, url: Seq<char>)
    ensures
        h@.contains_key(url) <==> h.fixtures@.contains_key(url),
        h.fixtures@.contains_key(url) ==> h@[url] == h.fixtures@[url]@,
{
}

} // verus!
