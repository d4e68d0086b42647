//! The domain records of the library: anime, episodes, downloads, sources,
//! discovery state, media files and notifications.

use vstd::prelude::*;
use crate::text::{append_chars, chars_of, has_prefix, slice_vec, starts_with, string_of};

verus! {

#[derive(Debug, Clone, PartialEq, Eq, Structural)]
pub enum AnimeStatus {
    Watching,
    Planned,
    Completed,
    Paused,
    Dropped,
}

#[derive(Debug, Clone, PartialEq, Eq, Structural)]
pub enum EpisodeStatus {
    Upcoming,
    Aired,
    Matched,
    Downloading,
    Downloaded,
    Watched,
}

#[derive(Debug, Clone, PartialEq, Eq, Structural)]
pub enum DownloadStatus {
    Queued,
    FetchingMetadata,
    Downloading,
    Stalled,
    WaitingNetwork,
    Paused,
    Checking,
    Moving,
    Completed,
    Seeding,
    Error,
    MissingFiles,
}

impl DownloadStatus {
    /// Whether the status belongs to the active part of a download's life.
    pub open spec fn is_active_spec(&self) -> bool {
        self is Queued || self is FetchingMetadata || self is Downloading || self is Stalled
            || self is WaitingNetwork || self is Paused || self is Checking || self is Moving
    }

    /// Whether the status states that the data is complete.
    pub open spec fn is_completed_spec(&self) -> bool {
        self is Completed || self is Seeding
    }

    /// Whether the status belongs to the active part of a download's life.
    pub fn is_active(&self) -> (r: bool)
        ensures
            r == self.is_active_spec(),
    {
        match self {
            DownloadStatus::Queued | DownloadStatus::FetchingMetadata | DownloadStatus::Downloading
            | DownloadStatus::Stalled | DownloadStatus::WaitingNetwork | DownloadStatus::Paused
            | DownloadStatus::Checking | DownloadStatus::Moving => true,
            _ => false,
        }
    }

    /// Whether the status states that the data is complete.
    pub fn is_completed(&self) -> (r: bool)
        ensures
            r == self.is_completed_spec(),
    {
        match self {
            DownloadStatus::Completed | DownloadStatus::Seeding => true,
            _ => false,
        }
    }
}

/// No status is both active and complete.
pub proof fn lemma_download_status_exclusive(status: DownloadStatus)
    ensures
        !(status.is_active_spec() && status.is_completed_spec()),
{
}

#[derive(Debug, Clone, PartialEq, Eq, Hash, Structural)]
pub enum TorrentEngineKind {
    Embedded,
    Qbittorrent,
}

impl TorrentEngineKind {
    /// The stable key of the engine.
    pub open spec fn key_spec(&self) -> Seq<char> {
        match self {
            TorrentEngineKind::Embedded => "embedded"@,
            TorrentEngineKind::Qbittorrent => "qbittorrent"@,
        }
    }

    /// The prefix of the application-wide ids of this engine's tasks.
    pub open spec fn scope_prefix(&self) -> Seq<char> {
        self.key_spec() + seq![':']
    }

    /// The application-wide id of an engine task id.
    pub open spec fn scope_spec(&self, id: Seq<char>) -> Seq<char> {
        if has_prefix(id, self.scope_prefix()) {
            id
        } else {
            self.scope_prefix() + id
        }
    }

    /// The engine task id of an application-wide id.
    pub open spec fn unscoped_spec(&self, id: Seq<char>) -> Seq<char> {
        if has_prefix(id, self.scope_prefix()) {
            id.subrange(self.scope_prefix().len() as int, id.len() as int)
        } else {
            id
        }
    }

    /// The stable key of the engine, used in storage and on the wire.
    pub fn as_key(&self) -> (r: &'static str)
        ensures
            r@ == self.key_spec(),
    {
        match self {
            TorrentEngineKind::Embedded => "embedded",
            TorrentEngineKind::Qbittorrent => "qbittorrent",
        }
    }

    /// Turns an engine task id into an application-wide id; ids already scoped stay as they are.
    pub fn scope_task_id(&self, engine_task_id: &str) -> (r: String)
        ensures
            r@ == self.scope_spec(engine_task_id@),
    {
        let mut prefix = chars_of(self.as_key());
        prefix.push(':');
        assert(prefix@ =~= self.scope_prefix());
        let id = chars_of(engine_task_id);
        if starts_with(id.as_slice(), prefix.as_slice()) {
            return string_of(id.as_slice());
        }
        append_chars(&mut prefix, id.as_slice());
        string_of(prefix.as_slice())
    }

    /// Recovers the engine's own id from an application-wide id.
    pub fn unscoped_task_id(&self, task_id: &str) -> (r: String)
        ensures
            r@ == self.unscoped_spec(task_id@),
    {
        let mut prefix = chars_of(self.as_key());
        prefix.push(':');
        assert(prefix@ =~= self.scope_prefix());
        let id = chars_of(task_id);
        if starts_with(id.as_slice(), prefix.as_slice()) {
            let rest = slice_vec(id.as_slice(), prefix.len(), id.len());
            return string_of(rest.as_slice());
        }
        string_of(id.as_slice())
    }
}

/// Scoping an id that is not scoped yet, then unscoping it, gives the id back.
pub proof fn lemma_unscope_after_scope(kind: TorrentEngineKind, id: Seq<char>)
    requires
        !has_prefix(id, kind.scope_prefix()),
    ensures
        kind.unscoped_spec(kind.scope_spec(id)) == id,
{
    let p = kind.scope_prefix();
    let s = p + id;
    assert(s.subrange(0, p.len() as int) =~= p);
    assert(s.subrange(p.len() as int, s.len() as int) =~= id);
}

/// Scoping is idempotent.
pub proof fn lemma_scope_idempotent(kind: TorrentEngineKind, id: Seq<char>)
    ensures
        kind.scope_spec(kind.scope_spec(id)) == kind.scope_spec(id),
{
    let p = kind.scope_prefix();
    let s = p + id;
    assert(s.subrange(0, p.len() as int) =~= p);
}

/// Every scoped id carries the engine's prefix.
pub proof fn lemma_scoped_has_prefix(kind: TorrentEngineKind, id: Seq<char>)
    ensures
        has_prefix(kind.scope_spec(id), kind.scope_prefix()),
{
    let p = kind.scope_prefix();
    let s = p + id;
    assert(s.subrange(0, p.len() as int) =~= p);
}

#[derive(Debug, Clone, PartialEq, Eq, Structural)]
pub enum AnimeAliasLanguage {
    Zh,
    Ja,
    En,
    Romaji,
    Custom,
}

#[derive(Debug, Clone, PartialEq, Eq)]
pub struct AnimeAlias {
    pub id: String,
    pub anime_id: String,
    pub alias: String,
    pub language: AnimeAliasLanguage,
    pub priority: i64,
}

#[derive(Debug, Clone, PartialEq, Eq)]
pub struct FansubGroup {
    pub id: String,
    pub name: String,
    pub aliases: Vec<String>,
    pub source_ids: Vec<String>,
}

#[derive(Debug, Clone, PartialEq, Eq, Structural)]
pub enum SourceKind {
    Rss,
    Torznab,
    SiteAdapter,
    Manual,
}

#[derive(Debug, Clone, PartialEq, Eq)]
pub struct ReleaseSourceConfig {
    pub id: String,
    pub name: String,
    pub kind: SourceKind,
    pub enabled: bool,
    pub use_proxy: bool,
    pub request_interval_ms: i64,
    pub base_url: Option<String>,
    pub api_key: Option<String>,
    pub rss_url: Option<String>,
    pub tags: Vec<String>,
}

/// Request interval, in milliseconds, of a source that does not state one.
pub fn default_source_request_interval_ms() -> (r: i64)
    ensures
        r == 1500,
{
    1500
}

#[derive(Debug, Clone, PartialEq, Eq)]
pub struct ReleaseSourceSyncState {
    pub source_id: String,
    pub request_host: Option<String>,
    pub last_request_at: Option<String>,
    pub request_failure_count: i64,
    pub backoff_until: Option<String>,
    pub last_sync_attempt_at: Option<String>,
    pub last_successful_sync_at: Option<String>,
    pub last_sync_error: Option<String>,
    pub etag: Option<String>,
    pub last_modified: Option<String>,
}

#[derive(Debug, Clone, PartialEq, Eq)]
pub struct SourceSyncError {
    pub source_id: String,
    pub message: String,
}

#[derive(Debug, Clone, PartialEq, Eq)]
pub struct SourceSyncRunResult {
    pub started_at: String,
    pub finished_at: String,
    pub synced_source_ids: Vec<String>,
    pub skipped_source_ids: Vec<String>,
    pub added_release_count: usize,
    pub errors: Vec<SourceSyncError>,
}

#[derive(Debug, Clone, PartialEq, Eq)]
pub struct SourceSyncSchedulerStatus {
    pub enabled: bool,
    pub running: bool,
    pub in_flight: bool,
    pub daily_time: String,
    pub next_run_at: Option<String>,
    pub last_run_at: Option<String>,
    pub last_result: Option<SourceSyncRunResult>,
    pub last_error: Option<String>,
}

#[derive(Debug, Clone, PartialEq, Eq)]
pub struct RequestCircuitState {
    pub key: String,
    pub group: String,
    pub request_host: Option<String>,
    pub last_request_at: Option<String>,
    pub failure_count: i64,
    pub backoff_until: Option<String>,
}

#[derive(Debug, Clone, PartialEq, Eq, Structural)]
pub enum AnimeSourceBindingMatchMethod {
    Manual,
    ExternalId,
    Scored,
}

#[derive(Debug, Clone, PartialEq, Eq, Structural)]
pub enum AnimeSourceExclusionScope {
    Candidate,
    Source,
}

#[derive(Debug, Clone, PartialEq, Eq)]
pub struct AnimeSourceExclusion {
    pub id: String,
    pub anime_id: String,
    pub source_id: String,
    pub scope: AnimeSourceExclusionScope,
    pub source_anime_id: Option<String>,
    pub source_anime_title: Option<String>,
    pub created_at: String,
    pub updated_at: String,
}

#[derive(Debug, Clone, PartialEq)]
pub struct AnimeSourceCandidate {
    pub source_id: String,
    pub source_name: String,
    pub source_anime_id: String,
    pub title: String,
    pub original_title: Option<String>,
    pub aliases: Vec<String>,
    pub premiere_year: Option<i64>,
    pub premiere_month: Option<i64>,
    pub episode_count: Option<i64>,
    pub source_url: Option<String>,
    pub score: i64,
    pub reasons: Vec<String>,
}

#[derive(Debug, Clone, PartialEq, Eq)]
pub struct ExcludedAnimeSource {
    pub source_id: String,
    pub source_name: String,
}

#[derive(Debug, Clone, PartialEq, Eq)]
pub struct SetAnimeSourceExclusionInput {
    pub anime_id: String,
    pub source_id: String,
    pub excluded: bool,
}

#[derive(Debug, Clone, PartialEq, Eq)]
pub struct RemoveAnimeSourceCandidateMismatchInput {
    pub anime_id: String,
    pub source_id: String,
    pub source_anime_id: String,
}

#[derive(Debug, Clone, PartialEq, Eq, Structural)]
pub enum ReleaseContentKind {
    Episode,
    Range,
    Batch,
    Unknown,
}

#[derive(Debug, Clone, PartialEq, Eq, Structural)]
pub enum NormalizedVideoCodec {
    H264Avc,
    H265Hevc,
    Av1,
    Vp9,
    Unknown,
}

impl NormalizedVideoCodec {
    /// The stable text of the codec.
    pub open spec fn as_str_spec(&self) -> Seq<char> {
        match self {
            NormalizedVideoCodec::H264Avc => "H.264/AVC"@,
            NormalizedVideoCodec::H265Hevc => "H.265/HEVC"@,
            NormalizedVideoCodec::Av1 => "AV1"@,
            NormalizedVideoCodec::Vp9 => "VP9"@,
            NormalizedVideoCodec::Unknown => "Unknown"@,
        }
    }

    /// The stable text of the codec, as preference fields hold it.
    pub fn as_str(&self) -> (r: &'static str)
        ensures
            r@ == self.as_str_spec(),
    {
        match self {
            NormalizedVideoCodec::H264Avc => "H.264/AVC",
            NormalizedVideoCodec::H265Hevc => "H.265/HEVC",
            NormalizedVideoCodec::Av1 => "AV1",
            NormalizedVideoCodec::Vp9 => "VP9",
            NormalizedVideoCodec::Unknown => "Unknown",
        }
    }
}

#[derive(Debug, Clone, PartialEq, Eq, Structural)]
pub enum ReleaseResolution {
    P720,
    P1080,
    P2160,
}

impl ReleaseResolution {
    /// The text of the resolution.
    pub open spec fn as_str_spec(&self) -> Seq<char> {
        match self {
            ReleaseResolution::P720 => "720p"@,
            ReleaseResolution::P1080 => "1080p"@,
            ReleaseResolution::P2160 => "2160p"@,
        }
    }

    /// The text of the resolution, as the front end holds it.
    pub fn as_str(&self) -> (r: &'static str)
        ensures
            r@ == self.as_str_spec(),
    {
        match self {
            ReleaseResolution::P720 => "720p",
            ReleaseResolution::P1080 => "1080p",
            ReleaseResolution::P2160 => "2160p",
        }
    }
}

#[derive(Debug, Clone, PartialEq, Eq, Hash, Structural)]
pub enum SubtitleLanguage {
    Chs,
    Cht,
    Jpn,
    Eng,
}

#[derive(Debug, Clone, PartialEq, Eq, Structural)]
pub enum SubtitlePreference {
    Chs,
    Cht,
    Jpn,
    Eng,
    Multi,
}

#[derive(Debug, Clone, Default, PartialEq, Eq)]
pub struct ReleaseSourceMeta {
    pub source_url: Option<String>,
    pub rss_url: Option<String>,
    pub mikan_bangumi_id: Option<String>,
    pub mikan_subgroup_id: Option<String>,
    pub mikan_subgroup_name: Option<String>,
}

#[derive(Debug, Clone, PartialEq, Eq)]
pub struct ReleaseSearchError {
    pub source_id: String,
    pub message: String,
}

#[derive(Debug, Clone, PartialEq)]
pub struct RssSubscriptionReleaseQuery {
    pub anime_id: String,
    pub subscription_id: String,
    pub preferred_resolution: Option<String>,
    pub limit: Option<usize>,
}

#[derive(Debug, Clone, PartialEq, Eq)]
pub struct AutomaticDownloadDecision {
    pub accepted: bool,
    pub reason: String,
}

#[derive(Debug, Clone, PartialEq)]
pub struct AnimeRssSubscription {
    pub id: String,
    pub my_anime_id: String,
    pub name: String,
    pub url: String,
    pub enabled: bool,
    pub preferred_subtitle_languages: Vec<String>,
    pub preferred_subtitle: Option<String>,
    pub refresh_interval_minutes: Option<i64>,
    pub last_fetched_at: Option<String>,
    pub created_at: String,
    pub updated_at: String,
}

#[derive(Debug, Clone, PartialEq, Eq, Structural)]
pub struct AnimeDiscoveryQuery {
    pub year: i64,
    pub month: i64,
    pub force_refresh: bool,
}

#[derive(Debug, Clone, PartialEq, Eq)]
pub struct AnimeDiscoverySeasonQuery {
    pub year: i64,
    pub season: String,
    pub force_refresh: bool,
}

#[derive(Debug, Clone, PartialEq, Eq)]
pub struct AnimeDiscoverySyncTaskResult {
    pub query: AnimeDiscoverySeasonQuery,
    pub item_count: usize,
    pub added_count: usize,
    pub existing_count: usize,
    pub error_count: usize,
}

#[derive(Debug, Clone, PartialEq, Eq, Structural)]
pub enum AnimeDiscoverySyncPhase {
    Catalog,
    Details,
}

#[derive(Debug, Clone, PartialEq, Eq)]
pub struct AnimeDiscoverySyncTaskStatus {
    pub in_flight: bool,
    pub phase: Option<AnimeDiscoverySyncPhase>,
    pub active_query: Option<AnimeDiscoverySeasonQuery>,
    pub started_at: Option<String>,
    pub finished_at: Option<String>,
    pub catalog_finished_at: Option<String>,
    pub detail_completed_count: usize,
    pub detail_total_count: usize,
    pub detail_error_count: usize,
    pub last_result: Option<AnimeDiscoverySyncTaskResult>,
    pub last_error: Option<String>,
}

#[derive(Debug, Clone, PartialEq, Eq)]
pub struct AnimeSeasonSyncState {
    pub year: i64,
    pub season: String,
    pub last_attempt_at: Option<String>,
    pub last_successful_sync_at: Option<String>,
    pub completed_at: Option<String>,
    pub last_anilist_error: Option<String>,
}

#[derive(Debug, Clone, PartialEq, Eq)]
pub struct AnimeDetailRefreshState {
    pub anime_id: String,
    pub provider: String,
    pub external_id: String,
    pub slot_day: i64,
    pub last_completed_cycle: Option<i64>,
    pub last_attempt_at: Option<String>,
    pub last_success_at: Option<String>,
    pub failure_count: i64,
    pub next_retry_at: Option<String>,
}

#[derive(Debug, Clone, PartialEq, Eq)]
pub struct AnimeDetailPartialError {
    pub source: String,
    pub message: String,
}

#[derive(Debug, Clone, PartialEq, Eq)]
pub struct EpisodePreference {
    pub id: String,
    pub anime_id: String,
    pub episode_id: String,
    pub fansub_group_id: Option<String>,
    pub release_id: Option<String>,
    pub is_manual_override: bool,
}

#[derive(Debug, Clone, PartialEq, Eq)]
pub struct AnimeWatchProgress {
    pub anime_id: String,
    pub watched_episode_count: i64,
    pub total_episode_count: i64,
}

#[derive(Debug, Clone, PartialEq, Eq)]
pub struct SetAnimeWatchProgressInput {
    pub anime_id: String,
    pub watched_episode_count: i64,
}

#[derive(Debug, Clone, Default, PartialEq, Eq, Structural)]
pub enum MediaOrigin {
    #[default]
    Download,
    Imported,
}

#[derive(Debug, Clone, Default, PartialEq, Eq, Structural)]
pub enum MediaAvailability {
    #[default]
    Available,
    Changed,
    Missing,
    Unavailable,
}

#[derive(Debug, Clone, Default, PartialEq, Eq, Structural)]
pub enum MediaContentKind {
    Episode,
    Special,
    Ova,
    Oad,
    Opening,
    Ending,
    Pv,
    Cm,
    Extra,
    #[default]
    Unknown,
}

#[derive(Debug, Clone, PartialEq)]
pub struct MediaFile {
    pub id: String,
    pub anime_id: String,
    pub episode_id: Option<String>,
    pub download_task_id: Option<String>,
    pub content_kind: MediaContentKind,
    pub special_no: Option<String>,
    pub file_path: String,
    pub file_name: String,
    pub size: i64,
    pub container: Option<String>,
    pub declared_video_codec: Option<String>,
    pub detected_video_codec: Option<String>,
    pub normalized_video_codec: String,
    pub resolution: Option<String>,
    pub bit_depth: Option<i64>,
    pub audio_codecs: Vec<String>,
    pub subtitle_tracks: Vec<String>,
    pub duration_seconds: Option<i64>,
    pub downloaded_at: Option<String>,
    pub probed_at: Option<String>,
    pub origin: MediaOrigin,
    pub source_root: Option<String>,
    pub fingerprint: Option<String>,
    pub file_modified_at: Option<String>,
    pub availability: MediaAvailability,
    pub last_verified_at: Option<String>,
    pub availability_error: Option<String>,
}

#[derive(Debug, Clone, PartialEq, Eq, Structural)]
pub enum NotificationKind {
    Automation,
    Download,
    Reminder,
    System,
}

#[derive(Debug, Clone, PartialEq, Eq, Structural)]
pub enum NotificationSeverity {
    Info,
    Success,
    Warning,
    Error,
}

#[derive(Debug, Clone, PartialEq, Eq)]
pub struct NotificationRecord {
    pub id: String,
    pub kind: NotificationKind,
    pub title: String,
    pub body: String,
    pub severity: NotificationSeverity,
    pub anime_id: Option<String>,
    pub episode_id: Option<String>,
    pub download_task_id: Option<String>,
    pub created_at: String,
    pub read_at: Option<String>,
}

#[derive(Debug, Clone, PartialEq, Eq)]
pub struct SourceHealth {
    pub source_id: String,
    pub name: String,
    pub status: String,
    pub last_checked_at: Option<String>,
}

#[derive(Debug, Clone, PartialEq, Eq, Hash)]
pub struct SecretReference {
    pub namespace: String,
    pub key: String,
}

#[derive(Clone, PartialEq, Eq)]
pub struct SecretValue(Vec<u8>);

impl SecretValue {
    /// The secret bytes, as a sequence.
    pub closed spec fn bytes(&self) -> Seq<u8> {
        self.0@
    }

    /// Wraps bytes owned by the caller.
    pub fn new(value: Vec<u8>) -> (r: Self)
        ensures
            r.bytes() == value@,
    {
        SecretValue(value)
    }

    /// Lends the secret bytes, for the platform's secure storage only.
    pub fn expose(&self) -> (r: &[u8])
        ensures
            r@ == self.bytes(),
    {
        self.0.as_slice()
    }

    /// The text that stands for the value in diagnostics; it never shows the bytes.
    pub fn debug_text(&self) -> (r: String)
        ensures
            r@ == "SecretValue([REDACTED])"@,
    {
        String::from_str("SecretValue([REDACTED])")
    }
}

} // verus!
