use ani_core::contracts::{PlayerCommandActionKind, PlayerHdrCapabilities, default_subtitle_scale};
use ani_core::domain::{
    default_source_request_interval_ms, DownloadStatus, NormalizedVideoCodec, ReleaseResolution,
    SecretValue, TorrentEngineKind,
};

#[test]
fn hdr_requires_source_renderer_and_display_capabilities() {
    assert!(!PlayerHdrCapabilities { source_hdr: true, renderer_hdr: true, display_hdr: false }.available());
    assert!(PlayerHdrCapabilities { source_hdr: true, renderer_hdr: true, display_hdr: true }.available());
}

#[test]
fn redacts_secret_value_debug_output() {
    let secret = SecretValue::new("do-not-log".as_bytes().to_vec());

    assert_eq!(secret.debug_text(), "SecretValue([REDACTED])");
    assert_eq!(secret.expose(), b"do-not-log");
}

#[test]
fn scopes_engine_task_ids() {
    let kind = TorrentEngineKind::Qbittorrent;
    assert_eq!(kind.as_key(), "qbittorrent");
    assert_eq!(kind.scope_task_id("abc"), "qbittorrent:abc");
    assert_eq!(kind.scope_task_id("qbittorrent:abc"), "qbittorrent:abc");
    assert_eq!(kind.unscoped_task_id("qbittorrent:abc"), "abc");
    assert_eq!(kind.unscoped_task_id("embedded:abc"), "embedded:abc");
    assert_eq!(kind.unscoped_task_id(&kind.scope_task_id("x:y")), "x:y");
    assert_eq!(TorrentEngineKind::Embedded.scope_task_id(""), "embedded:");
}

#[test]
fn classifies_download_statuses_and_names() {
    assert!(DownloadStatus::Paused.is_active());
    assert!(!DownloadStatus::Seeding.is_active());
    assert!(DownloadStatus::Seeding.is_completed());
    assert!(!DownloadStatus::Error.is_completed());
    assert!(!DownloadStatus::Error.is_active());
    assert_eq!(NormalizedVideoCodec::H265Hevc.as_str(), "H.265/HEVC");
    assert_eq!(ReleaseResolution::P2160.as_str(), "2160p");
    assert_eq!(default_source_request_interval_ms(), 1500);
    assert_eq!(default_subtitle_scale(), 100);
    assert_eq!(PlayerCommandActionKind::SetPictureInPicture.action_name(), "set-picture-in-picture");
    assert_eq!(PlayerCommandActionKind::Load.action_name(), "load");
}
