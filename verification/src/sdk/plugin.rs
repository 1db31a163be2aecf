//! The traits that plugins implement.

use vstd::prelude::*;

use crate::sdk::capabilities::{
    err_not_implemented, ArtworkRequest, ArtworkResponse, CreditsRequest, CreditsResponse,
    EnrichRequest, EnrichResponse, InitContext, LookupRequest, LookupResponse, PluginInitError,
    PluginLogger, RelatedRequest, RelatedResponse,
};
use crate::sdk::manifest::PluginManifest;
use crate::sdk::result::{PluginError, PluginResult};
use crate::sdk::types::{
    FindStreamsRequest, FindStreamsResponse, ResolveRequest, ResolveResponse, SearchRequest,
    SearchResponse,
};

verus! {

/// What a plugin is for.
#[derive(Debug, Clone, Copy, PartialEq, Eq, Structural)]
pub enum PluginType {
    Provider,
    Resolver,
    Metadata,
    Auth,
    Subtitle,
    Indexer,
}

impl PluginType {
    /// The name under which the type is written.
    pub open spec fn name(self) -> Seq<char> {
        match self {
            PluginType::Provider => "provider"@,
            PluginType::Resolver => "resolver"@,
            PluginType::Metadata => "metadata"@,
            PluginType::Auth => "auth"@,
            PluginType::Subtitle => "subtitle"@,
            PluginType::Indexer => "indexer"@,
        }
    }

    /// The name under which the type is written.
    pub fn as_str(&self) -> (r: &str)
        ensures
            r@ == self.name(),
    {
        match self {
            PluginType::Provider => "provider",
            PluginType::Resolver => "resolver",
            PluginType::Metadata => "metadata",
            PluginType::Auth => "auth",
            PluginType::Subtitle => "subtitle",
            PluginType::Indexer => "indexer",
        }
    }
}

/// The answer that a verb is not offered.
pub open spec fn not_offered<T>(r: PluginResult<T>) -> bool {
    r matches PluginResult::Failure(e) && e@ == (
        "not_implemented"@,
        "verb not implemented by this plugin"@,
    )
}

/// What every plugin has: its manifest, a start and an end.
pub trait Plugin: Sized {
    fn manifest(&self) -> (r: &PluginManifest);

    fn init<'a, L: PluginLogger>(&mut self, _ctx: &InitContext<'a, L>) -> (r: Result<
        (),
        PluginInitError,
    >)
        default_ensures
            r is Ok,
            *final(self) == *old(self),
    {
        Ok(())
    }

    fn shutdown(&mut self) -> (r: Result<(), PluginError>)
        default_ensures
            r is Ok,
            *final(self) == *old(self),
    {
        Ok(())
    }
}

/// A plugin that offers a catalog. Every verb but `search` may be left out.
pub trait CatalogPlugin: Plugin {
    fn search(&self, req: SearchRequest) -> (r: PluginResult<SearchResponse>);

    fn lookup(&self, _req: LookupRequest) -> (r: PluginResult<LookupResponse>)
        default_ensures
            not_offered(r),
    {
        err_not_implemented()
    }

    fn enrich<C>(&self, _req: EnrichRequest) -> (r: PluginResult<EnrichResponse<C>>)
        default_ensures
            not_offered(r),
    {
        err_not_implemented()
    }

    fn get_artwork(&self, _req: ArtworkRequest) -> (r: PluginResult<ArtworkResponse>)
        default_ensures
            not_offered(r),
    {
        err_not_implemented()
    }

    fn get_credits(&self, _req: CreditsRequest) -> (r: PluginResult<CreditsResponse>)
        default_ensures
            not_offered(r),
    {
        err_not_implemented()
    }

    fn related(&self, _req: RelatedRequest) -> (r: PluginResult<RelatedResponse>)
        default_ensures
            not_offered(r),
    {
        err_not_implemented()
    }
}

/// A plugin that finds streams.
pub trait StreamProvider: Plugin {
    fn find_streams(&self, _req: FindStreamsRequest) -> (r: PluginResult<FindStreamsResponse>)
        default_ensures
            not_offered(r),
    {
        err_not_implemented()
    }
}

/// A plugin that searches and resolves.
pub trait StuiPlugin {
    fn name(&self) -> (r: &str);

    fn version(&self) -> (r: &str);

    fn plugin_type(&self) -> (r: PluginType);

    /// Searches for entries that match the query in the given scope.
    fn search(&self, req: SearchRequest) -> (r: PluginResult<SearchResponse>);

    /// Finds what an entry is played from.
    fn resolve(&self, req: ResolveRequest) -> (r: PluginResult<ResolveResponse>);
}

/// Each kind of plugin goes by its own name, and no two by the same.
pub proof fn kinds_of_plugins_go_by_their_names(a: PluginType, b: PluginType)
    ensures
        PluginType::Provider.name() == "provider"@,
        PluginType::Resolver.name() == "resolver"@,
        PluginType::Metadata.name() == "metadata"@,
        PluginType::Auth.name() == "auth"@,
        PluginType::Subtitle.name() == "subtitle"@,
        PluginType::Indexer.name() == "indexer"@,
        a.name() == b.name() ==> a == b,
{
    reveal_strlit("provider");
    reveal_strlit("resolver");
    reveal_strlit("metadata");
    reveal_strlit("auth");
    reveal_strlit("subtitle");
    reveal_strlit("indexer");
    assert("provider"@[0] == 'p' && "resolver"@[0] == 'r' && "metadata"@[0] == 'm' && "auth"@[0]
        == 'a' && "subtitle"@[0] == 's' && "indexer"@[0] == 'i');
}

/// A verb that a plugin does not offer is answered with its own code.
pub proof fn missing_verbs_are_told<T>(r: PluginResult<T>)
    ensures
        not_offered(r) <==> (r matches PluginResult::Failure(e) && e.code@ == "not_implemented"@
            && e.message@ == "verb not implemented by this plugin"@),
{
}

} // verus!
