//! Records exchanged between the desktop shell, players and remote clients.

use vstd::prelude::*;

verus! {

#[derive(Debug, Clone, PartialEq)]
pub struct ContractFixture<T> {
    pub schema_version: u32,
    pub kind: String,
    pub payload: T,
}

#[derive(Debug, Clone, PartialEq, Eq, Structural)]
pub struct AppWindowState {
    pub maximized: bool,
}

#[derive(Debug, Clone, PartialEq, Eq)]
pub struct AppCommandError {
    pub code: String,
    pub message: String,
}

#[derive(Debug, Clone, Default, PartialEq, Eq, Structural)]
pub enum LocalMediaImportPhase {
    #[default]
    Idle,
    Scanning,
    Matching,
    Importing,
    AwaitingReview,
    Verifying,
    Completed,
    Cancelled,
    Failed,
}

#[derive(Debug, Clone, PartialEq, Eq)]
pub struct LocalMediaImportAssociation {
    pub anime_id: String,
    pub anime_title: String,
    pub file_count: usize,
}

#[derive(Debug, Clone, PartialEq, Eq)]
pub struct LocalMediaImportSelection {
    pub candidate_id: String,
    pub anime_id: Option<String>,
    pub create_local: bool,
}

#[derive(Debug, Clone, PartialEq, Eq)]
pub struct LocalMediaSourceSummary {
    pub root_path: String,
    pub media_count: usize,
    pub available_count: usize,
    pub problem_count: usize,
    pub last_scanned_at: Option<String>,
}

#[derive(Debug, Clone, PartialEq, Eq, Structural)]
pub enum DownloadServiceMode {
    Embedded,
    Managed,
    External,
}

#[derive(Debug, Clone, PartialEq, Eq, Structural)]
pub enum DownloadServiceState {
    Online,
    Idle,
    Error,
}

#[derive(Debug, Clone, PartialEq, Eq)]
pub struct DownloadServiceStatus {
    pub mode: DownloadServiceMode,
    pub state: DownloadServiceState,
    pub message: String,
    pub task_count: Option<usize>,
}

#[derive(Debug, Clone, PartialEq, Eq)]
pub struct TorrentConnectionTestResult {
    pub ok: bool,
    pub message: String,
    pub task_count: Option<usize>,
}

#[derive(Debug, Clone, PartialEq, Eq)]
pub struct QbittorrentManagedStatus {
    pub enabled: bool,
    pub auto_start: bool,
    pub running: bool,
    pub web_ui_url: String,
    pub platform: String,
    pub arch: String,
    pub binary_path: Option<String>,
    pub profile_dir: Option<String>,
    pub pid: Option<u32>,
    pub last_started_at: Option<String>,
    pub last_stopped_at: Option<String>,
    pub last_error: Option<String>,
}

#[derive(Debug, Clone, PartialEq, Eq)]
pub struct EmbeddedTorrentCoreStatus {
    pub enabled: bool,
    pub running: bool,
    pub platform: String,
    pub arch: String,
    pub binary_path: Option<String>,
    pub data_dir: Option<String>,
    pub pid: Option<u32>,
    pub foreground_service: Option<bool>,
    pub version: Option<String>,
    pub task_count: Option<usize>,
    pub listen_port: Option<u16>,
    pub network_policy_blocked: Option<bool>,
    pub last_started_at: Option<String>,
    pub last_stopped_at: Option<String>,
    pub last_error: Option<String>,
}

#[derive(Debug, Clone, PartialEq, Eq)]
pub struct MediaToolStatus {
    pub available: bool,
    pub command: Option<String>,
    pub version: Option<String>,
    pub error: Option<String>,
}

#[derive(Debug, Clone, PartialEq, Eq)]
pub struct DesktopMediaToolsStatus {
    pub ffprobe: MediaToolStatus,
    pub ffmpeg: MediaToolStatus,
}

#[derive(Debug, Clone, Copy, PartialEq, Eq, Structural)]
pub enum PlayerRuntimePlatform {
    Windows,
    Macos,
    Linux,
    Other,
}

#[derive(Debug, Clone, PartialEq, Eq)]
pub struct PlayerDetectionCandidate {
    pub profile_id: String,
    pub name: String,
    pub configured_path: String,
    pub available: bool,
    pub resolved_path: Option<String>,
}

#[derive(Debug, Clone, PartialEq, Eq)]
pub struct PlayerDetectionResult {
    pub platform: PlayerRuntimePlatform,
    pub candidates: Vec<PlayerDetectionCandidate>,
    pub detected_profile_id: Option<String>,
    pub detected_executable_path: Option<String>,
}

#[derive(Debug, Clone, PartialEq, Eq)]
pub struct SelectPlayerExecutableInput {
    pub profile_id: String,
    pub current_path: Option<String>,
}

#[derive(Debug, Clone, PartialEq, Eq, Structural)]
pub enum PlayerBackend {
    Artplayer,
    Libvlc,
    Mpv,
}

#[derive(Debug, Clone, Copy, PartialEq, Eq, Default, Structural)]
pub enum PlayerVideoEnhancement {
    #[default]
    Off,
    Balanced,
    Clear,
}

#[derive(Debug, Clone, Copy, PartialEq, Eq, Default, Structural)]
pub enum PlayerFrameInterpolation {
    #[default]
    Off,
    DisplayResample,
    MotionCompensated,
    RifeRealtime,
}

#[derive(Debug, Clone, Copy, PartialEq, Eq, Default, Structural)]
pub enum PlayerHdrMode {
    #[default]
    Off,
    Auto,
}

#[derive(Debug, Clone, Copy, PartialEq, Eq, Default, Structural)]
pub struct PlayerHdrCapabilities {
    pub source_hdr: bool,
    pub renderer_hdr: bool,
    pub display_hdr: bool,
}

impl PlayerHdrCapabilities {
    /// HDR output needs the source, the renderer and the display to support it.
    pub fn available(self) -> (r: bool)
        ensures
            r == (self.source_hdr && self.renderer_hdr && self.display_hdr),
    {
        self.source_hdr && self.renderer_hdr && self.display_hdr
    }
}

#[derive(Debug, Clone, PartialEq, Eq, Structural)]
pub enum PlayerHostPlatform {
    RemoteWeb,
    TauriDesktop,
    Android,
    Ios,
}

#[derive(Debug, Clone, PartialEq, Eq, Structural)]
pub enum PlayerAvailability {
    Unknown,
    Available,
    Unavailable,
}

#[derive(Debug, Clone, PartialEq, Eq, Structural)]
pub enum PlayerStatus {
    Idle,
    Loading,
    Ready,
    Buffering,
    Playing,
    Paused,
    Ended,
    Error,
    Closed,
}

#[derive(Debug, Clone, PartialEq, Eq, Structural)]
pub enum PlayerErrorCode {
    ResourceUnavailable,
    Network,
    Decoder,
    Permission,
    Transcode,
    RuntimeMissing,
    Unsupported,
    Unknown,
}

#[derive(Debug, Clone, PartialEq, Eq, Structural)]
pub enum PlayerRecoveryAction {
    Retry,
    Transcode,
    Close,
}

#[derive(Debug, Clone, PartialEq, Eq)]
pub struct PlayerError {
    pub code: PlayerErrorCode,
    pub message: String,
    pub recoverable: bool,
    pub recovery_actions: Vec<PlayerRecoveryAction>,
}

#[derive(Debug, Clone, PartialEq, Eq, Structural)]
pub enum PlayerAspectRatio {
    Default,
    Ratio16x9,
    Ratio4x3,
    Fill,
    Fit,
    Custom,
}

#[derive(Debug, Clone, PartialEq, Eq)]
pub struct PlayerSubtitleSource {
    pub id: String,
    pub label: String,
    pub language: Option<String>,
    pub subtitle_type: PlayerSubtitleType,
    pub uri: String,
    pub default: bool,
}

#[derive(Debug, Clone, PartialEq, Eq, Structural)]
pub enum PlayerSubtitleType {
    Ass,
    Vtt,
}

#[derive(Debug, Clone, PartialEq, Eq, Structural)]
pub enum PlayerMediaMode {
    Direct,
    Hls,
}

#[derive(Debug, Clone, PartialEq, Eq, Structural)]
pub enum PlayerTrackKind {
    Audio,
    Subtitle,
}

#[derive(Debug, Clone, PartialEq, Eq)]
pub struct PlayerTrack {
    pub id: String,
    pub kind: PlayerTrackKind,
    pub label: String,
    pub language: Option<String>,
    pub selected: bool,
}

#[derive(Debug, Clone, PartialEq, Eq)]
pub struct PlayerCommandResult {
    pub command_id: String,
    pub accepted: bool,
    pub error: Option<PlayerError>,
}

#[derive(Debug, Clone, PartialEq, Eq)]
pub struct DesktopPlayerWindowInput {
    pub task_id: String,
    pub file_index: Option<u32>,
}

#[derive(Debug, Clone, PartialEq, Eq)]
pub struct PlaybackSubtitle {
    pub id: String,
    pub label: String,
    pub language: Option<String>,
    pub subtitle_type: PlayerSubtitleType,
    pub url: String,
    pub default: bool,
}

#[derive(Debug, Clone, PartialEq, Eq)]
pub struct RemoteDeviceInfo {
    pub id: String,
    pub name: String,
    pub scopes: Vec<String>,
    pub created_at: String,
    pub last_accessed_at: Option<String>,
}

#[derive(Debug, Clone, PartialEq, Eq)]
pub struct RemoteGatewayStatus {
    pub running: bool,
    pub host: String,
    pub port: u16,
    pub protocol: String,
    pub lan_enabled: bool,
    pub base_url: String,
    pub addresses: Vec<String>,
    pub devices: Vec<RemoteDeviceInfo>,
    pub certificate: Option<RemoteCertificateInfo>,
    pub last_error: Option<String>,
}

#[derive(Debug, Clone, PartialEq, Eq)]
pub struct RemoteCertificateInfo {
    pub fingerprint: String,
    pub expires_at: String,
    pub authority_certificate_path: String,
}

#[derive(Debug, Clone, PartialEq, Eq)]
pub struct RemotePairingChallenge {
    pub code: String,
    pub expires_at: String,
}

#[derive(Debug, Clone, PartialEq, Eq)]
pub struct ImageCacheResolveResult {
    pub url: String,
}

#[derive(Debug, Clone, PartialEq, Eq)]
pub struct RemotePlaybackSubtitle {
    pub id: String,
    pub label: String,
    pub language: Option<String>,
    pub subtitle_type: String,
    pub url: String,
    pub default: bool,
}

#[derive(Debug, Clone, Copy, Default, PartialEq, Eq, Structural)]
pub enum RemotePlaybackPath {
    #[default]
    Direct,
    DirectEnhanced,
    Hls,
}

#[derive(Debug, Clone, Copy, Default, PartialEq, Eq, Structural)]
pub enum RemoteDirectEnhancementStatus {
    #[default]
    Idle,
    Probing,
    Starting,
    Active,
    Degraded,
}

#[derive(Debug, Clone, Copy, Default, PartialEq, Eq, Structural)]
pub struct RemotePlaybackEnhancement {
    pub video_enhancement: PlayerVideoEnhancement,
    pub frame_interpolation: PlayerFrameInterpolation,
}

/// Subtitle scale, in percent, of a player snapshot that does not state one.
pub fn default_subtitle_scale() -> (r: u16)
    ensures
        r == 100,
{
    100
}

/// The kind of a player command, without its arguments.
#[derive(Debug, Clone, Copy, PartialEq, Eq, Structural)]
pub enum PlayerCommandActionKind {
    Load,
    Play,
    Pause,
    Seek,
    SetVolume,
    SetMuted,
    SetRate,
    SelectAudioTrack,
    SelectSubtitleTrack,
    SetSubtitleScale,
    SetVideoEnhancement,
    SetFrameInterpolation,
    SetHdr,
    SetAspectRatio,
    SetFullscreen,
    SetPictureInPicture,
    PreviousItem,
    NextItem,
    Retry,
    Close,
}

/// The stable short name of a player command kind.
pub open spec fn action_name_spec(kind: PlayerCommandActionKind) -> Seq<char> {
    match kind {
        PlayerCommandActionKind::Load => "load"@,
        PlayerCommandActionKind::Play => "play"@,
        PlayerCommandActionKind::Pause => "pause"@,
        PlayerCommandActionKind::Seek => "seek"@,
        PlayerCommandActionKind::SetVolume => "set-volume"@,
        PlayerCommandActionKind::SetMuted => "set-muted"@,
        PlayerCommandActionKind::SetRate => "set-rate"@,
        PlayerCommandActionKind::SelectAudioTrack => "select-audio-track"@,
        PlayerCommandActionKind::SelectSubtitleTrack => "select-subtitle-track"@,
        PlayerCommandActionKind::SetSubtitleScale => "set-subtitle-scale"@,
        PlayerCommandActionKind::SetVideoEnhancement => "set-video-enhancement"@,
        PlayerCommandActionKind::SetFrameInterpolation => "set-frame-interpolation"@,
        PlayerCommandActionKind::SetHdr => "set-hdr"@,
        PlayerCommandActionKind::SetAspectRatio => "set-aspect-ratio"@,
        PlayerCommandActionKind::SetFullscreen => "set-fullscreen"@,
        PlayerCommandActionKind::SetPictureInPicture => "set-picture-in-picture"@,
        PlayerCommandActionKind::PreviousItem => "previous-item"@,
        PlayerCommandActionKind::NextItem => "next-item"@,
        PlayerCommandActionKind::Retry => "retry"@,
        PlayerCommandActionKind::Close => "close"@,
    }
}

impl PlayerCommandActionKind {
    /// The stable short name used in logs and capability checks.
    pub fn action_name(&self) -> (r: &'static str)
        ensures
            r@ == action_name_spec(*self),
    {
        match self {
            PlayerCommandActionKind::Load => "load",
            PlayerCommandActionKind::Play => "play",
            PlayerCommandActionKind::Pause => "pause",
            PlayerCommandActionKind::Seek => "seek",
            PlayerCommandActionKind::SetVolume => "set-volume",
            PlayerCommandActionKind::SetMuted => "set-muted",
            PlayerCommandActionKind::SetRate => "set-rate",
            PlayerCommandActionKind::SelectAudioTrack => "select-audio-track",
            PlayerCommandActionKind::SelectSubtitleTrack => "select-subtitle-track",
            PlayerCommandActionKind::SetSubtitleScale => "set-subtitle-scale",
            PlayerCommandActionKind::SetVideoEnhancement => "set-video-enhancement",
            PlayerCommandActionKind::SetFrameInterpolation => "set-frame-interpolation",
            PlayerCommandActionKind::SetHdr => "set-hdr",
            PlayerCommandActionKind::SetAspectRatio => "set-aspect-ratio",
            PlayerCommandActionKind::SetFullscreen => "set-fullscreen",
            PlayerCommandActionKind::SetPictureInPicture => "set-picture-in-picture",
            PlayerCommandActionKind::PreviousItem => "previous-item",
            PlayerCommandActionKind::NextItem => "next-item",
            PlayerCommandActionKind::Retry => "retry",
            PlayerCommandActionKind::Close => "close",
        }
    }
}

} // verus!
