//! Canonical id sources, for plugin manifests and lookup requests. The set is
//! closed.

use vstd::prelude::*;

use crate::text::chars::same_text;

verus! {

pub const TMDB: &'static str = "tmdb";

pub const IMDB: &'static str = "imdb";

pub const TVDB: &'static str = "tvdb";

pub const MUSICBRAINZ: &'static str = "musicbrainz";

pub const DISCOGS: &'static str = "discogs";

pub const ANILIST: &'static str = "anilist";

pub const KITSU: &'static str = "kitsu";

pub const MYANIMELIST: &'static str = "myanimelist";

/// All canonical id sources.
pub const ALL: [&'static str; 8] = [
    TMDB,
    IMDB,
    TVDB,
    MUSICBRAINZ,
    DISCOGS,
    ANILIST,
    KITSU,
    MYANIMELIST,
];

/// One of the eight canonical id sources.
pub open spec fn canonical(s: Seq<char>) -> bool {
    ||| s == "tmdb"@
    ||| s == "imdb"@
    ||| s == "tvdb"@
    ||| s == "musicbrainz"@
    ||| s == "discogs"@
    ||| s == "anilist"@
    ||| s == "kitsu"@
    ||| s == "myanimelist"@
}

/// Whether a text is a canonical id source.
pub fn is_canonical(source: &str) -> (r: bool)
    ensures
        r == canonical(source@),
{
    same_text(source, TMDB) || same_text(source, IMDB) || same_text(source, TVDB) || same_text(
        source,
        MUSICBRAINZ,
    ) || same_text(source, DISCOGS) || same_text(source, ANILIST) || same_text(source, KITSU)
        || same_text(source, MYANIMELIST)
}

/// The list `ALL` holds the canonical id sources and nothing else.
pub proof fn all_lists_the_canonical_sources(s: Seq<char>)
    ensures
        canonical(s) <==> exists|i: int| 0 <= i < ALL@.len() && (#[trigger] ALL@[i])@ == s,
{
    assert(ALL@[0]@ == "tmdb"@);
    assert(ALL@[1]@ == "imdb"@);
    assert(ALL@[2]@ == "tvdb"@);
    assert(ALL@[3]@ == "musicbrainz"@);
    assert(ALL@[4]@ == "discogs"@);
    assert(ALL@[5]@ == "anilist"@);
    assert(ALL@[6]@ == "kitsu"@);
    assert(ALL@[7]@ == "myanimelist"@);
}

/// The canonical sources are these.
pub proof fn canonical_sources_are_known(s: Seq<char>)
    ensures
        canonical(s) <==> s == "tmdb"@ || s == "imdb"@ || s == "tvdb"@ || s == "musicbrainz"@ || s
            == "discogs"@ || s == "anilist"@ || s == "kitsu"@ || s == "myanimelist"@,
{
}

} // verus!
