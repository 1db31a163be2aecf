//! Requests and answers of the catalog verbs, and what a plugin starts with.

use vstd::prelude::*;
use vstd::std_specs::convert::FromSpecImpl;

use crate::json::Json;
use crate::sdk::host::{LEVEL_DEBUG, LEVEL_ERROR, LEVEL_INFO, LEVEL_WARN};
use crate::sdk::kinds::EntryKind;
use crate::sdk::result::PluginResult;
use crate::sdk::types::PluginEntry;
use crate::text::case::{lowercase, to_lowercase};
use crate::text::chars::same_text;
use crate::text::table::Table;

verus! {

/// What a plugin starts with.
pub struct InitContext<'a, L: PluginLogger> {
    pub env: &'a Table<String>,
    pub config: &'a Table<Json>,
    pub cache_dir: &'a String,
    pub logger: &'a L,
}

impl<'a, L: PluginLogger> InitContext<'a, L> {
    /// The context made from a request and a logger.
    pub fn from_request(req: &'a InitRequest, logger: &'a L) -> (r: Self)
        ensures
            r.env == &req.env,
            r.config == &req.config,
            r.cache_dir == &req.cache_dir,
            r.logger == logger,
    {
        InitContext { env: &req.env, config: &req.config, cache_dir: &req.cache_dir, logger }
    }
}

/// The part of a plugin's context that the host hands over.
#[derive(Debug)]
pub struct InitRequest {
    pub env: Table<String>,
    pub config: Table<Json>,
    pub cache_dir: String,
}

/// A message for the host's log.
#[derive(Debug, Clone)]
pub struct LogRecord {
    pub level: i32,
    pub message: String,
}

/// Logging, as plugins see it: each method gives the record that goes into the log.
pub trait PluginLogger {
    fn debug(&self, msg: &str) -> (r: LogRecord);

    fn info(&self, msg: &str) -> (r: LogRecord);

    fn warn(&self, msg: &str) -> (r: LogRecord);

    fn error(&self, msg: &str) -> (r: LogRecord);
}

/// The logger that records a message under its level.
pub struct DefaultPluginLogger;

impl PluginLogger for DefaultPluginLogger {
    fn debug(&self, msg: &str) -> (r: LogRecord)
        ensures
            r.level == 1,
            r.message@ == msg@,
    {
        LogRecord { level: LEVEL_DEBUG, message: msg.to_owned() }
    }

    fn info(&self, msg: &str) -> (r: LogRecord)
        ensures
            r.level == 2,
            r.message@ == msg@,
    {
        LogRecord { level: LEVEL_INFO, message: msg.to_owned() }
    }

    fn warn(&self, msg: &str) -> (r: LogRecord)
        ensures
            r.level == 3,
            r.message@ == msg@,
    {
        LogRecord { level: LEVEL_WARN, message: msg.to_owned() }
    }

    fn error(&self, msg: &str) -> (r: LogRecord)
        ensures
            r.level == 4,
            r.message@ == msg@,
    {
        LogRecord { level: LEVEL_ERROR, message: msg.to_owned() }
    }
}

/// Why a plugin did not start: it lacks settings, which the user can give, or
/// it cannot work.
#[derive(Debug, Clone)]
pub enum PluginInitError {
    MissingConfig { fields: Vec<String>, hint: Option<String> },
    Fatal(String),
}

/// The answer of a plugin that was started.
#[derive(Debug, Clone)]
pub enum InitResultEnvelope {
    Ready,
    Failed(PluginInitError),
}

/// The envelope of a result.
pub open spec fn enveloped(r: Result<(), PluginInitError>) -> InitResultEnvelope {
    match r {
        Ok(()) => InitResultEnvelope::Ready,
        Err(e) => InitResultEnvelope::Failed(e),
    }
}

/// The result in an envelope.
pub open spec fn opened(e: InitResultEnvelope) -> Result<(), PluginInitError> {
    match e {
        InitResultEnvelope::Ready => Ok(()),
        InitResultEnvelope::Failed(e) => Err(e),
    }
}

impl From<Result<(), PluginInitError>> for InitResultEnvelope {
    fn from(r: Result<(), PluginInitError>) -> (e: Self) {
        match r {
            Ok(()) => InitResultEnvelope::Ready,
            Err(e) => InitResultEnvelope::Failed(e),
        }
    }
}

impl FromSpecImpl<Result<(), PluginInitError>> for InitResultEnvelope {
    open spec fn obeys_from_spec() -> bool {
        true
    }

    open spec fn from_spec(r: Result<(), PluginInitError>) -> Self {
        enveloped(r)
    }
}

impl From<InitResultEnvelope> for Result<(), PluginInitError> {
    fn from(e: InitResultEnvelope) -> (r: Self) {
        match e {
            InitResultEnvelope::Ready => Ok(()),
            InitResultEnvelope::Failed(e) => Err(e),
        }
    }
}

impl FromSpecImpl<InitResultEnvelope> for Result<(), PluginInitError> {
    open spec fn obeys_from_spec() -> bool {
        true
    }

    open spec fn from_spec(e: InitResultEnvelope) -> Self {
        opened(e)
    }
}

/// A result comes out of its envelope as it went in, and an envelope is made
/// again from what was in it.
pub proof fn envelope_round_trips(r: Result<(), PluginInitError>, e: InitResultEnvelope)
    ensures
        opened(enveloped(r)) == r,
        enveloped(opened(e)) == e,
{
    if let Ok(u) = r {
        assert(u == ());
    }
}

/// A request for one entry by its id.
#[derive(Debug, Clone)]
pub struct LookupRequest {
    pub id: String,
    pub id_source: String,
    pub kind: EntryKind,
    pub locale: Option<String>,
}

/// The entry that was asked for.
#[derive(Debug, Clone)]
pub struct LookupResponse {
    pub entry: PluginEntry,
}

/// A request to complete an entry.
#[derive(Debug, Clone)]
pub struct EnrichRequest {
    pub partial: PluginEntry,
    pub prefer_id_source: Option<String>,
}

/// The completed entry, and how sure the plugin is of it, in the host's measure.
#[derive(Debug, Clone)]
pub struct EnrichResponse<C> {
    pub entry: PluginEntry,
    pub confidence: C,
}

/// The size of an image.
#[derive(Debug, Clone, Copy, PartialEq, Eq, Structural)]
pub enum ArtworkSize {
    Thumbnail,
    Standard,
    HiRes,
    Any,
}

/// A request for an entry's images.
#[derive(Debug, Clone)]
pub struct ArtworkRequest {
    pub id: String,
    pub id_source: String,
    pub kind: EntryKind,
    pub size: ArtworkSize,
}

/// An image.
#[derive(Debug, Clone)]
pub struct ArtworkVariant {
    pub size: ArtworkSize,
    pub url: String,
    pub mime: String,
    pub width: Option<u32>,
    pub height: Option<u32>,
}

/// The images of an entry.
#[derive(Debug, Clone)]
pub struct ArtworkResponse {
    pub variants: Vec<ArtworkVariant>,
}

/// A request for those who made an entry.
#[derive(Debug, Clone)]
pub struct CreditsRequest {
    pub id: String,
    pub id_source: String,
    pub kind: EntryKind,
}

/// What a member of the cast does.
#[derive(Debug, Clone)]
pub enum CastRole {
    Actor,
    Vocalist,
    FeaturedArtist,
    GuestAppearance,
    Other(String),
}

/// A member of the cast.
#[derive(Debug, Clone)]
pub struct CastMember {
    pub name: String,
    pub role: CastRole,
    pub character: Option<String>,
    pub instrument: Option<String>,
    pub billing_order: Option<u32>,
    pub external_ids: Table<String>,
}

/// What a member of the crew does.
#[derive(Debug, Clone)]
pub enum CrewRole {
    Director,
    Writer,
    Producer,
    ExecutiveProducer,
    Cinematographer,
    Editor,
    Composer,
    Songwriter,
    Lyricist,
    Arranger,
    Instrumentalist,
    ProductionDesigner,
    ArtDirector,
    CostumeDesigner,
    SoundDesigner,
    VfxSupervisor,
    Other(String),
}

/// A member of the crew.
#[derive(Debug, Clone)]
pub struct CrewMember {
    pub name: String,
    pub role: CrewRole,
    pub department: Option<String>,
    pub external_ids: Table<String>,
}

/// Those who made an entry.
#[derive(Debug, Clone)]
pub struct CreditsResponse {
    pub cast: Vec<CastMember>,
    pub crew: Vec<CrewMember>,
}

/// The role that a name stands for; names are written small.
pub open spec fn named_role(low: Seq<char>) -> Option<CrewRole> {
    if low == "director"@ {
        Some(CrewRole::Director)
    } else if low == "writer"@ || low == "screenplay"@ || low == "screenwriter"@ {
        Some(CrewRole::Writer)
    } else if low == "producer"@ {
        Some(CrewRole::Producer)
    } else if low == "executive producer"@ {
        Some(CrewRole::ExecutiveProducer)
    } else if low == "cinematographer"@ || low == "director of photography"@ || low == "dp"@ || low
        == "dop"@ {
        Some(CrewRole::Cinematographer)
    } else if low == "editor"@ {
        Some(CrewRole::Editor)
    } else if low == "composer"@ || low == "original music composer"@ {
        Some(CrewRole::Composer)
    } else if low == "songwriter"@ {
        Some(CrewRole::Songwriter)
    } else if low == "lyricist"@ {
        Some(CrewRole::Lyricist)
    } else if low == "arranger"@ {
        Some(CrewRole::Arranger)
    } else if low == "instrumentalist"@ || low == "session musician"@ {
        Some(CrewRole::Instrumentalist)
    } else if low == "production designer"@ {
        Some(CrewRole::ProductionDesigner)
    } else if low == "art director"@ {
        Some(CrewRole::ArtDirector)
    } else if low == "costume designer"@ {
        Some(CrewRole::CostumeDesigner)
    } else if low == "sound designer"@ {
        Some(CrewRole::SoundDesigner)
    } else if low == "vfx supervisor"@ || low == "visual effects supervisor"@ {
        Some(CrewRole::VfxSupervisor)
    } else {
        None
    }
}

/// `r` is the role that `low` names, or else the one with `given` for its name.
pub open spec fn is_role(r: CrewRole, low: Seq<char>, given: Seq<char>) -> bool {
    match named_role(low) {
        Some(role) => r == role,
        None => r matches CrewRole::Other(name) && name@ == given,
    }
}

/// The role that the small letters `low` of the name `given` stand for.
pub fn crew_role(low: &str, given: &str) -> (r: CrewRole)
    ensures
        is_role(r, low@, given@),
{
    if same_text(low, "director") {
        CrewRole::Director
    } else if same_text(low, "writer") || same_text(low, "screenplay") || same_text(
        low,
        "screenwriter",
    ) {
        CrewRole::Writer
    } else if same_text(low, "producer") {
        CrewRole::Producer
    } else if same_text(low, "executive producer") {
        CrewRole::ExecutiveProducer
    } else if same_text(low, "cinematographer") || same_text(low, "director of photography")
        || same_text(low, "dp") || same_text(low, "dop") {
        CrewRole::Cinematographer
    } else if same_text(low, "editor") {
        CrewRole::Editor
    } else if same_text(low, "composer") || same_text(low, "original music composer") {
        CrewRole::Composer
    } else if same_text(low, "songwriter") {
        CrewRole::Songwriter
    } else if same_text(low, "lyricist") {
        CrewRole::Lyricist
    } else if same_text(low, "arranger") {
        CrewRole::Arranger
    } else if same_text(low, "instrumentalist") || same_text(low, "session musician") {
        CrewRole::Instrumentalist
    } else if same_text(low, "production designer") {
        CrewRole::ProductionDesigner
    } else if same_text(low, "art director") {
        CrewRole::ArtDirector
    } else if same_text(low, "costume designer") {
        CrewRole::CostumeDesigner
    } else if same_text(low, "sound designer") {
        CrewRole::SoundDesigner
    } else if same_text(low, "vfx supervisor") || same_text(low, "visual effects supervisor") {
        CrewRole::VfxSupervisor
    } else {
        CrewRole::Other(given.to_owned())
    }
}

/// The role that a name stands for, whatever case it is written in. A name
/// that stands for none is kept as it is.
pub fn normalize_crew_role(s: &str) -> (r: CrewRole)
    ensures
        is_role(r, lowercase(s@), s@),
        crate::text::case::ascii(s@) ==> is_role(r, crate::text::replace::lower(s@), s@),
{
    let low = to_lowercase(s);
    crew_role(low.as_str(), s)
}

/// How entries are related.
#[derive(Debug, Clone, Copy, PartialEq, Eq, Structural)]
pub enum RelationKind {
    SameArtist,
    SameDirector,
    SameStudio,
    Similar,
    Sequel,
    Compilation,
    Any,
}

/// A request for related entries.
#[derive(Debug, Clone)]
pub struct RelatedRequest {
    pub id: String,
    pub id_source: String,
    pub kind: EntryKind,
    pub relation: RelationKind,
    pub limit: u32,
}

/// Related entries.
#[derive(Debug, Clone)]
pub struct RelatedResponse {
    pub items: Vec<PluginEntry>,
}

/// The answer of a verb that a plugin does not offer.
pub fn err_not_implemented<T>() -> (r: PluginResult<T>)
    ensures
        r matches PluginResult::Failure(e) && e@ == (
            "not_implemented"@,
            "verb not implemented by this plugin"@,
        ),
{
    PluginResult::err(
        crate::sdk::error_codes::NOT_IMPLEMENTED,
        "verb not implemented by this plugin",
    )
}

/// Each role is named by its own words and by no others.
pub proof fn roles_are_named_by_their_words(low: Seq<char>)
    ensures
        named_role(low) == Some(CrewRole::Director) <==> low == "director"@,
        named_role(low) == Some(CrewRole::Writer) <==> low == "writer"@ || low == "screenplay"@ || low == "screenwriter"@,
        named_role(low) == Some(CrewRole::Producer) <==> low == "producer"@,
        named_role(low) == Some(CrewRole::ExecutiveProducer) <==> low == "executive producer"@,
        named_role(low) == Some(CrewRole::Cinematographer) <==> low == "cinematographer"@ || low == "director of photography"@ || low == "dp"@ || low == "dop"@,
        named_role(low) == Some(CrewRole::Editor) <==> low == "editor"@,
        named_role(low) == Some(CrewRole::Composer) <==> low == "composer"@ || low == "original music composer"@,
        named_role(low) == Some(CrewRole::Songwriter) <==> low == "songwriter"@,
        named_role(low) == Some(CrewRole::Lyricist) <==> low == "lyricist"@,
        named_role(low) == Some(CrewRole::Arranger) <==> low == "arranger"@,
        named_role(low) == Some(CrewRole::Instrumentalist) <==> low == "instrumentalist"@ || low == "session musician"@,
        named_role(low) == Some(CrewRole::ProductionDesigner) <==> low == "production designer"@,
        named_role(low) == Some(CrewRole::ArtDirector) <==> low == "art director"@,
        named_role(low) == Some(CrewRole::CostumeDesigner) <==> low == "costume designer"@,
        named_role(low) == Some(CrewRole::SoundDesigner) <==> low == "sound designer"@,
        named_role(low) == Some(CrewRole::VfxSupervisor) <==> low == "vfx supervisor"@ || low == "visual effects supervisor"@,
{
    reveal_strlit("director");
    reveal_strlit("writer");
    reveal_strlit("screenplay");
    reveal_strlit("screenwriter");
    reveal_strlit("producer");
    reveal_strlit("executive producer");
    reveal_strlit("cinematographer");
    reveal_strlit("director of photography");
    reveal_strlit("dp");
    reveal_strlit("dop");
    reveal_strlit("editor");
    reveal_strlit("composer");
    reveal_strlit("original music composer");
    reveal_strlit("songwriter");
    reveal_strlit("lyricist");
    reveal_strlit("arranger");
    reveal_strlit("instrumentalist");
    reveal_strlit("session musician");
    reveal_strlit("production designer");
    reveal_strlit("art director");
    reveal_strlit("costume designer");
    reveal_strlit("sound designer");
    reveal_strlit("vfx supervisor");
    reveal_strlit("visual effects supervisor");
    assert("director"@.len() == 8);
    assert("writer"@.len() == 6);
    assert("screenplay"@.len() == 10);
    assert("screenwriter"@.len() == 12);
    assert("producer"@.len() == 8);
    assert("executive producer"@.len() == 18);
    assert("cinematographer"@.len() == 15);
    assert("director of photography"@.len() == 23);
    assert("dp"@.len() == 2);
    assert("dop"@.len() == 3);
    assert("editor"@.len() == 6);
    assert("composer"@.len() == 8);
    assert("original music composer"@.len() == 23);
    assert("songwriter"@.len() == 10);
    assert("lyricist"@.len() == 8);
    assert("arranger"@.len() == 8);
    assert("instrumentalist"@.len() == 15);
    assert("session musician"@.len() == 16);
    assert("production designer"@.len() == 19);
    assert("art director"@.len() == 12);
    assert("costume designer"@.len() == 16);
    assert("sound designer"@.len() == 14);
    assert("vfx supervisor"@.len() == 14);
    assert("visual effects supervisor"@.len() == 25);
    assert("director"@[0] == 'd');
    assert("producer"@[0] == 'p');
    assert("composer"@[0] == 'c');
    assert("lyricist"@[0] == 'l');
    assert("arranger"@[0] == 'a');
    assert("writer"@[0] == 'w');
    assert("editor"@[0] == 'e');
    assert("screenplay"@[1] == 'c');
    assert("songwriter"@[1] == 'o');
    assert("screenwriter"@[0] == 's');
    assert("art director"@[0] == 'a');
    assert("cinematographer"@[0] == 'c');
    assert("instrumentalist"@[0] == 'i');
    assert("director of photography"@[0] == 'd');
    assert("original music composer"@[0] == 'o');
    assert("session musician"@[0] == 's');
    assert("costume designer"@[0] == 'c');
    assert("sound designer"@[0] == 's');
    assert("vfx supervisor"@[0] == 'v');
}

/// A name that stands for no role is kept as it was given.
pub proof fn other_roles_keep_their_name(r: CrewRole, low: Seq<char>, given: Seq<char>)
    requires
        is_role(r, low, given),
    ensures
        named_role(low) matches Some(role) ==> r == role,
        named_role(low) is None ==> (r matches CrewRole::Other(name) && name@ == given),
{
}

} // verus!
