//! Weights for the ratings of other providers: which of them counts how much.

use vstd::prelude::*;

use crate::sdk::manifest::PluginManifest;
use crate::sdk::plugin::Plugin;
use crate::text::table::Table;

verus! {

/// The plugin: a weight for each provider that has one, in whatever kind of
/// number the caller weighs with.
pub struct RatingWeightsPlugin<W> {
    pub manifest: PluginManifest,
    pub weights: Table<W>,
}

impl<W> Plugin for RatingWeightsPlugin<W> {
    fn manifest(&self) -> (r: &PluginManifest)
        ensures
            *r == self.manifest,
    {
        &self.manifest
    }
}

/// The weights to begin with: the same one for each provider that is known.
pub open spec fn even_weights<W>(even: W) -> Map<Seq<char>, W> {
    Map::<Seq<char>, W>::empty().insert("omdb"@, even).insert("tmdb"@, even).insert(
        "musicbrainz"@,
        even,
    ).insert("lastfm"@, even)
}

/// What a rating of a provider is to be multiplied with: its weight, or
/// `default` where it has none.
pub open spec fn weight_in<W>(weights: Map<Seq<char>, W>, provider: Seq<char>, default: W) -> W {
    if weights.contains_key(provider) {
        weights[provider]
    } else {
        default
    }
}

impl<W: Copy> RatingWeightsPlugin<W> {
    /// The plugin with its manifest, and `even` as the weight of each provider
    /// that is known.
    pub fn new(manifest: PluginManifest, even: W) -> (r: Self)
        ensures
            r.manifest == manifest,
            r.weights@ == even_weights(even),
    {
        let mut weights: Table<W> = Table::new();
        weights.insert("omdb", even);
        weights.insert("tmdb", even);
        weights.insert("musicbrainz", even);
        weights.insert("lastfm", even);
        RatingWeightsPlugin { manifest, weights }
    }

    /// The weight of a provider.
    pub fn get_weight(&self, provider: &str) -> (r: Option<W>)
        ensures
            r == if self.weights@.contains_key(provider@) {
                Some(self.weights@[provider@])
            } else {
                None
            },
    {
        match self.weights.get(provider) {
            Some(w) => Some(*w),
            None => None,
        }
    }

    /// What a rating of a provider is to be multiplied with.
    pub fn weight_or(&self, provider: &str, default: W) -> (r: W)
        ensures
            r == weight_in(self.weights@, provider@, default),
    {
        match self.weights.get(provider) {
            Some(w) => *w,
            None => default,
        }
    }

    /// Sets the weight of a provider, and gives back the one that it had.
    pub fn set_weight(&mut self, provider: &str, weight: W) -> (r: Option<W>)
        ensures
            final(self).weights@ == old(self).weights@.insert(provider@, weight),
            final(self).manifest == old(self).manifest,
            r == if old(self).weights@.contains_key(provider@) {
                Some(old(self).weights@[provider@])
            } else {
                None
            },
    {
        let before = self.get_weight(provider);
        self.weights.insert(provider, weight);
        before
    }
}

/// A weight that was set is the one that counts, and no other provider's
/// weight has changed.
pub proof fn set_weight_counts<W>(
    weights: Map<Seq<char>, W>,
    provider: Seq<char>,
    weight: W,
    other: Seq<char>,
    default: W,
)
    ensures
        weight_in(weights.insert(provider, weight), provider, default) == weight,
        other != provider ==> weight_in(weights.insert(provider, weight), other, default)
            == weight_in(weights, other, default),
{
}

/// Before any weight is set, each of the four providers has the same, and no
/// other has one.
pub proof fn four_providers_have_even_weights<W>(even: W, provider: Seq<char>)
    ensures
        even_weights(even).contains_key(provider) <==> provider == "omdb"@ || provider == "tmdb"@
            || provider == "musicbrainz"@ || provider == "lastfm"@,
        even_weights(even).contains_key(provider) ==> even_weights(even)[provider] == even,
{
}

} // verus!
