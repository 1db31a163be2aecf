//! Typed kinds for search scoping and entry classification.
//!
//! `EntryKind` describes what a returned entry is. `SearchScope` describes
//! what a caller is asking for. They have the same members today and are kept
//! apart so that a scope which is no kind can be added.

use vstd::prelude::*;

verus! {

/// What an entry is.
#[derive(Debug, Clone, Copy, PartialEq, Eq, Hash, Structural)]
pub enum EntryKind {
    Artist,
    Album,
    Track,
    Movie,
    Series,
    Episode,
}

impl Default for EntryKind {
    fn default() -> (r: Self)
        ensures
            r == EntryKind::Track,
    {
        EntryKind::Track
    }
}

/// What a search asks for.
#[derive(Debug, Clone, Copy, PartialEq, Eq, Hash, Structural)]
pub enum SearchScope {
    Artist,
    Album,
    Track,
    Movie,
    Series,
    Episode,
}

impl SearchScope {
    /// The kind of the entries that a search in this scope asks for.
    pub open spec fn kind(self) -> EntryKind {
        match self {
            SearchScope::Artist => EntryKind::Artist,
            SearchScope::Album => EntryKind::Album,
            SearchScope::Track => EntryKind::Track,
            SearchScope::Movie => EntryKind::Movie,
            SearchScope::Series => EntryKind::Series,
            SearchScope::Episode => EntryKind::Episode,
        }
    }

    /// Whether an entry of the given kind is what the scope asks for.
    pub fn matches(self, kind: EntryKind) -> (r: bool)
        ensures
            r == (self.kind() == kind),
    {
        match self {
            SearchScope::Artist => kind == EntryKind::Artist,
            SearchScope::Album => kind == EntryKind::Album,
            SearchScope::Track => kind == EntryKind::Track,
            SearchScope::Movie => kind == EntryKind::Movie,
            SearchScope::Series => kind == EntryKind::Series,
            SearchScope::Episode => kind == EntryKind::Episode,
        }
    }
}

/// Scopes and kinds correspond one to one: every kind is asked for by some
/// scope, and two scopes that ask for the same kind are the same.
pub proof fn scopes_and_kinds_correspond(kind: EntryKind, a: SearchScope, b: SearchScope)
    ensures
        exists|s: SearchScope| #[trigger] s.kind() == kind,
        a.kind() == b.kind() ==> a == b,
{
    let s = match kind {
        EntryKind::Artist => SearchScope::Artist,
        EntryKind::Album => SearchScope::Album,
        EntryKind::Track => SearchScope::Track,
        EntryKind::Movie => SearchScope::Movie,
        EntryKind::Series => SearchScope::Series,
        EntryKind::Episode => SearchScope::Episode,
    };
    assert(s.kind() == kind);
}

/// Each scope asks for the kind of its own name.
pub proof fn scopes_ask_for_their_kind(scope: SearchScope)
    ensures
        scope.kind() == EntryKind::Artist <==> scope == SearchScope::Artist,
        scope.kind() == EntryKind::Album <==> scope == SearchScope::Album,
        scope.kind() == EntryKind::Track <==> scope == SearchScope::Track,
        scope.kind() == EntryKind::Movie <==> scope == SearchScope::Movie,
        scope.kind() == EntryKind::Series <==> scope == SearchScope::Series,
        scope.kind() == EntryKind::Episode <==> scope == SearchScope::Episode,
{
}

} // verus!
