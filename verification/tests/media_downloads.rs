use ani_core::downloads::require_active_engine;
use ani_core::domain::{DownloadStatus, TorrentEngineKind};
use ani_core::downloads::{
    apply_file_priority, check_file_priority_request, remove_continues, resumed_status, tasks_of_engine,
    EngineRemoveOutcome, TaskFileChoice,
};
use ani_core::downloads::{
    apply_add_context, merge_download_task, AddContext, FileLink, TaskContext, TaskRecord,
};
use ani_core::player::ExactValue;
use ani_core::downloads::{
    find_existing_task, validate_add_request, validate_file_priority, DownloadSource, TaskIdentity,
};
use ani_core::media::{
    build_media_file, container_from, create_media_file_id, detect_bit_depth, format_subtitle_track,
    normalize_audio_codec, normalize_extension, normalize_video_codec, parse_pixel_format_bit_depth,
    parse_positive_integer, unique_strings, DownloadMediaScanner, FfprobeFormat, FfprobeMediaProbe,
    FfprobeOutput, FfprobeStream, MediaProbeContext, MediaProbeError, ProbeValue,
};

fn stream(codec_type: &str, codec_name: &str) -> FfprobeStream {
    FfprobeStream {
        codec_type: Some(codec_type.to_owned()),
        codec_name: Some(codec_name.to_owned()),
        ..FfprobeStream::default()
    }
}

#[test]
fn maps_ffprobe_output() {
    let mut video = stream("video", "hevc");
    video.width = Some(1920);
    video.height = Some(1080);
    video.pix_fmt = Some("yuv420p10le".to_owned());
    let audio = stream("audio", "aac");
    let mut subtitle = stream("subtitle", "ass");
    subtitle.tags = vec![("language".to_owned(), "chi".to_owned()), ("title".to_owned(), "简体".to_owned())];
    let output = FfprobeOutput {
        streams: vec![video, audio, subtitle],
        format: Some(FfprobeFormat {
            format_name: Some("matroska,webm".to_owned()),
            duration: Some("1439.6".to_owned()),
        }),
    };
    let context = MediaProbeContext {
        anime_id: Some("anime-1".to_owned()),
        ..MediaProbeContext::default()
    };

    let media = build_media_file("episode.mkv", 4, &context, Some(&output), Some(1440));

    assert_eq!(media.normalized_video_codec, "H.265/HEVC");
    assert_eq!(media.resolution.as_deref(), Some("1920x1080"));
    assert_eq!(media.bit_depth, Some(10));
    assert_eq!(media.audio_codecs, ["AAC"]);
    assert_eq!(media.subtitle_tracks, ["chi / 简体 / ASS"]);
    assert_eq!(media.duration_seconds, Some(1440));
    assert_eq!(media.id, "media-4c9fd1dd6d1f3b73");
    assert_eq!(media.anime_id, "anime-1");
    assert_eq!(media.container.as_deref(), Some("mkv"));
}

#[test]
fn records_unprobed_files_with_context_defaults() {
    let context = MediaProbeContext {
        normalized_video_codec: Some("AV1".to_owned()),
        size: Some(100),
        ..MediaProbeContext::default()
    };
    let media = build_media_file("/Downloads/EP01.MKV", 4, &context, None, None);
    assert_eq!(media.anime_id, "unmatched");
    assert_eq!(media.normalized_video_codec, "AV1");
    assert_eq!(media.size, 100);
    assert!(media.resolution.is_none());
    assert!(media.audio_codecs.is_empty());
    assert_eq!(media.id, "media-94259acee9737ace");
    assert_eq!(create_media_file_id("/downloads/ep01.mkv"), "media-94259acee9737ace");
}

#[test]
fn normalizes_codecs_and_containers() {
    assert_eq!(normalize_video_codec(" AVC1 "), "H.264/AVC");
    assert_eq!(normalize_video_codec("hvc1"), "H.265/HEVC");
    assert_eq!(normalize_video_codec("av01"), "AV1");
    assert_eq!(normalize_video_codec("VP09"), "VP9");
    assert_eq!(normalize_video_codec("mpeg2video"), "Unknown");
    assert_eq!(normalize_audio_codec("EAC3"), "E-AC-3");
    assert_eq!(normalize_audio_codec("truehd"), "TrueHD");
    assert_eq!(normalize_audio_codec("pcm_s16le"), "PCM_S16LE");
    assert_eq!(container_from(Some("MP4"), None), "mp4");
    assert_eq!(container_from(Some("ts"), Some("mov,mp4,m4a")), "mp4");
    assert_eq!(container_from(None, Some("AVI")), "avi");
    assert_eq!(container_from(None, None), "unknown");
    assert_eq!(normalize_extension(" MKV "), ".mkv");
    assert_eq!(normalize_extension(".Mp4"), ".mp4");
}

#[test]
fn reads_bit_depths_and_tracks() {
    assert_eq!(parse_pixel_format_bit_depth(Some("yuv420p12le")), Some(12));
    assert_eq!(parse_pixel_format_bit_depth(Some("yuv420p")), None);
    assert_eq!(parse_pixel_format_bit_depth(None), None);
    assert_eq!(parse_positive_integer(&ProbeValue::Text("8".to_owned())), Some(8));
    assert_eq!(parse_positive_integer(&ProbeValue::Int(0)), None);
    assert_eq!(parse_positive_integer(&ProbeValue::Other), None);
    let mut s = stream("video", "h264");
    s.bits_per_raw_sample = Some(ProbeValue::Text("x".to_owned()));
    s.bits_per_sample = Some(ProbeValue::Int(8));
    s.pix_fmt = Some("yuv420p10le".to_owned());
    assert_eq!(detect_bit_depth(&s), Some(8));
    let mut t = stream("subtitle", "");
    assert_eq!(format_subtitle_track(&t), None);
    t.tags = vec![("language".to_owned(), "JPN".to_owned())];
    assert_eq!(format_subtitle_track(&t).as_deref(), Some("jpn"));
    assert_eq!(
        unique_strings(vec!["a".to_owned(), "b".to_owned(), "a".to_owned()]),
        vec!["a".to_owned(), "b".to_owned()]
    );
}

#[test]
fn scans_only_selected_complete_videos() {
    let scanner = DownloadMediaScanner::new(&[]);
    assert!(scanner.is_video_file("EP01.MKV"));
    assert!(!scanner.is_video_file("cover.jpg"));
    assert_eq!(scanner.skip_reason(false, "a.mkv", true, true), Some("未选择下载"));
    assert_eq!(scanner.skip_reason(true, "a.txt", true, true), Some("非视频文件"));
    assert_eq!(scanner.skip_reason(true, "a.mkv", false, false), Some("文件尚未下载完成"));
    assert_eq!(scanner.skip_reason(true, "a.mkv", false, true), None);
    let custom = DownloadMediaScanner::new(&["ts".to_owned()]);
    assert!(custom.is_video_file("a.TS"));
    assert!(!custom.is_video_file("a.mkv"));
}

#[test]
fn configures_the_ffprobe_runner() {
    let refused = FfprobeMediaProbe::new(Vec::new(), 5_000_000_000).expect_err("no command");
    assert_eq!(refused.message(), "FFprobe 不可用：没有可用命令");
    let probe = FfprobeMediaProbe::new(vec!["ffprobe".to_owned(), "ffprobe".to_owned()], 1).expect("probe");
    assert_eq!(probe.commands[0], "ffprobe");
    assert_eq!(probe.timeout_nanos, 1_000_000_000);
    assert_eq!(
        MediaProbeError::InvalidOutput("x".to_owned()).message(),
        "FFprobe 输出无效：x"
    );
}

#[test]
fn validates_download_inputs() {
    assert!(validate_file_priority(&[0, 1], 7).is_ok());
    let empty = validate_file_priority(&[], 1).expect_err("no files");
    assert_eq!(empty.field, "fileIndexes");
    let priority = validate_file_priority(&[0], 8).expect_err("priority");
    assert_eq!(priority.field, "priority");
    assert_eq!(priority.message, "文件优先级必须在 0 到 7 之间");
    let magnet = DownloadSource::Magnet("magnet:?xt=urn:btih:abc".to_owned());
    assert!(validate_add_request("/downloads", &magnet, None).is_ok());
    assert!(validate_add_request("  ", &magnet, None).is_err());
    let not_magnet = DownloadSource::Magnet("https://example.com/a.torrent".to_owned());
    assert!(validate_add_request("/downloads", &not_magnet, None).is_err());
}

fn identity(engine: TorrentEngineKind, id: &str, hash: Option<&str>, tag: Option<&str>) -> TaskIdentity {
    TaskIdentity {
        engine,
        id: id.to_owned(),
        torrent_hash: hash.map(str::to_owned),
        correlation_tag: tag.map(str::to_owned),
    }
}

#[test]
fn matches_engine_tasks_with_stored_ones() {
    let stored = vec![
        identity(TorrentEngineKind::Embedded, "embedded:a", Some("h1"), Some("t1")),
        identity(TorrentEngineKind::Qbittorrent, "qbittorrent:a", Some("h1"), None),
        identity(TorrentEngineKind::Qbittorrent, "qbittorrent:b", None, Some("t2")),
        identity(TorrentEngineKind::Qbittorrent, "qbittorrent:c", None, Some("t3")),
        identity(TorrentEngineKind::Qbittorrent, "qbittorrent:d", None, Some("t3")),
    ];
    let by_id = identity(TorrentEngineKind::Qbittorrent, "qbittorrent:b", Some("zz"), None);
    assert_eq!(find_existing_task(&stored, &by_id), Some(2));
    let by_hash = identity(TorrentEngineKind::Qbittorrent, "new", Some("h1"), None);
    assert_eq!(find_existing_task(&stored, &by_hash), Some(1));
    let by_tag = identity(TorrentEngineKind::Qbittorrent, "new", Some("h9"), Some("t2"));
    assert_eq!(find_existing_task(&stored, &by_tag), Some(2));
    let ambiguous = identity(TorrentEngineKind::Qbittorrent, "new", None, Some("t3"));
    assert_eq!(find_existing_task(&stored, &ambiguous), None);
    let other_engine = identity(TorrentEngineKind::Embedded, "qbittorrent:b", None, Some("t2"));
    assert_eq!(find_existing_task(&stored, &other_engine), None);
    let hashed_tag = identity(TorrentEngineKind::Embedded, "x", Some("h2"), Some("t1"));
    assert_eq!(find_existing_task(&stored, &hashed_tag), None);
}

fn context(anime: Option<&str>, episode_no: Option<ExactValue>) -> TaskContext {
    TaskContext {
        release_id: anime.map(|a| format!("release-{a}")),
        anime_id: anime.map(str::to_owned),
        episode_id: anime.map(|a| format!("{a}-ep")),
        anime_title: None,
        episode_no,
        fansub_group_id: None,
        fansub_name: None,
        resolution: Some("1080p".to_owned()),
        declared_video_codec: None,
        normalized_video_codec: None,
        bit_depth: Some(10),
        subtitle_languages: vec!["chs".to_owned()],
        subtitle: None,
    }
}

fn link(index: i64, episode: Option<&str>) -> FileLink {
    FileLink { index, episode_id: episode.map(str::to_owned), episode_no: None }
}

#[test]
fn merges_engine_snapshots_into_stored_tasks() {
    let stored = TaskRecord {
        context: context(Some("anime-1"), Some(ExactValue { mantissa: 3, exponent: 0 })),
        correlation_tag: Some("stored-tag".to_owned()),
        save_path: "/downloads/anime".to_owned(),
        created_at: "2026-01-01T00:00:00.000Z".to_owned(),
        completed_at: Some("2026-01-02T00:00:00.000Z".to_owned()),
        files: vec![link(0, Some("old")), link(1, Some("ep-2")), link(0, Some("ep-1"))],
    };
    let engine = TaskRecord {
        context: context(None, None),
        correlation_tag: None,
        save_path: "   ".to_owned(),
        created_at: "2026-03-01T00:00:00.000Z".to_owned(),
        completed_at: None,
        files: vec![link(0, None), link(2, Some("engine"))],
    };
    let merged = merge_download_task(&stored, engine);
    assert_eq!(merged.context.anime_id.as_deref(), Some("anime-1"));
    assert_eq!(merged.context.episode_no, Some(ExactValue { mantissa: 3, exponent: 0 }));
    assert_eq!(merged.correlation_tag.as_deref(), Some("stored-tag"));
    assert_eq!(merged.save_path, "/downloads/anime");
    assert_eq!(merged.created_at, "2026-01-01T00:00:00.000Z");
    assert_eq!(merged.completed_at.as_deref(), Some("2026-01-02T00:00:00.000Z"));
    assert_eq!(merged.files.len(), 2);
    assert_eq!(merged.files[0].episode_id.as_deref(), Some("ep-1"));
    assert_eq!(merged.files[1].episode_id.as_deref(), Some("engine"));

    let reported = TaskRecord {
        context: context(None, None),
        correlation_tag: Some("engine-tag".to_owned()),
        save_path: "/engine/path".to_owned(),
        created_at: "x".to_owned(),
        completed_at: Some("2026-04-01T00:00:00.000Z".to_owned()),
        files: Vec::new(),
    };
    let merged = merge_download_task(&stored, reported);
    assert_eq!(merged.correlation_tag.as_deref(), Some("engine-tag"));
    assert_eq!(merged.save_path, "/engine/path");
    assert_eq!(merged.completed_at.as_deref(), Some("2026-04-01T00:00:00.000Z"));
}

#[test]
fn applies_the_add_context_to_a_new_task() {
    let task = TaskRecord {
        context: context(None, None),
        correlation_tag: Some("engine-tag".to_owned()),
        save_path: "".to_owned(),
        created_at: "2026-01-01T00:00:00.000Z".to_owned(),
        completed_at: None,
        files: vec![link(0, None)],
    };
    let add = AddContext { name: Some("  测试番 01  ".to_owned()), context: context(Some("anime-9"), None) };
    let (name, applied) = apply_add_context("magnet-name".to_owned(), task, &add, None, &"/downloads".to_owned());
    assert_eq!(name, "测试番 01");
    assert_eq!(applied.context.anime_id.as_deref(), Some("anime-9"));
    assert_eq!(applied.correlation_tag.as_deref(), Some("engine-tag"));
    assert_eq!(applied.save_path, "/downloads");
    assert_eq!(applied.files.len(), 1);

    let blank = AddContext { name: Some("   ".to_owned()), context: context(None, None) };
    let kept = TaskRecord {
        context: context(None, None),
        correlation_tag: None,
        save_path: "/engine".to_owned(),
        created_at: String::new(),
        completed_at: None,
        files: Vec::new(),
    };
    let (name, applied) = apply_add_context("magnet-name".to_owned(), kept, &blank, Some("tag-1".to_owned()), &"/downloads".to_owned());
    assert_eq!(name, "magnet-name");
    assert_eq!(applied.correlation_tag.as_deref(), Some("tag-1"));
    assert_eq!(applied.save_path, "/engine");
}

#[test]
fn keeps_task_controls_on_their_engine() {
    assert!(require_active_engine(TorrentEngineKind::Embedded, TorrentEngineKind::Embedded).is_ok());
    let refused = require_active_engine(TorrentEngineKind::Qbittorrent, TorrentEngineKind::Embedded).err().expect("refused");
    assert_eq!(refused.field, "taskId");
    assert_eq!(refused.message, "任务属于 qbittorrent，请切回该下载引擎后重试");
}

#[test]
fn keeps_each_probe_command_path_once_in_order() {
    let commands = vec![
        "bin/ffprobe".to_owned(),
        "/usr/bin/ffprobe".to_owned(),
        "bin//ffprobe".to_owned(),
        "./ffprobe".to_owned(),
        "/usr/bin/./ffprobe/".to_owned(),
        "ffprobe".to_owned(),
    ];
    let probe = FfprobeMediaProbe::new(commands, 90_000_000_000).expect("probe");
    assert_eq!(probe.commands, vec!["bin/ffprobe", "/usr/bin/ffprobe", "./ffprobe", "ffprobe"]);
    assert_eq!(probe.timeout_nanos, 60_000_000_000);
}

fn choice(index: i64, priority: i64, selected: bool) -> TaskFileChoice {
    TaskFileChoice { index, priority, selected }
}

#[test]
fn checks_and_applies_file_priorities_against_the_task() {
    let mut files = vec![choice(0, 1, true), choice(1, 1, true), choice(2, 4, true)];
    assert!(check_file_priority_request(&files, &[0, 2], 0).is_ok());
    let unknown = check_file_priority_request(&files, &[0, 7, 9], 1).expect_err("unknown index");
    assert_eq!(unknown.field, "fileIndexes");
    assert_eq!(unknown.message, "任务中不存在文件索引 7");
    let negative = check_file_priority_request(&files, &[-1], 1).expect_err("negative index");
    assert_eq!(negative.message, "文件索引不能为负数");
    apply_file_priority(&mut files, &[0, 2], 0);
    assert_eq!(files, vec![choice(0, 0, false), choice(1, 1, true), choice(2, 0, false)]);
    apply_file_priority(&mut files, &[2], 7);
    assert_eq!(files[2], choice(2, 7, true));
}

#[test]
fn decides_removal_resume_and_engine_filtering() {
    assert!(remove_continues(EngineRemoveOutcome::Removed, true));
    assert!(remove_continues(EngineRemoveOutcome::TaskNotFound, false));
    assert!(!remove_continues(EngineRemoveOutcome::TaskNotFound, true));
    assert!(!remove_continues(EngineRemoveOutcome::Failed, false));
    assert_eq!(resumed_status(true), DownloadStatus::Seeding);
    assert_eq!(resumed_status(false), DownloadStatus::Downloading);
    let engines = vec![
        TorrentEngineKind::Embedded,
        TorrentEngineKind::Qbittorrent,
        TorrentEngineKind::Embedded,
    ];
    assert_eq!(tasks_of_engine(&engines, TorrentEngineKind::Embedded), vec![0, 2]);
    assert_eq!(tasks_of_engine(&engines, TorrentEngineKind::Qbittorrent), vec![1]);
}

#[test]
fn scopes_task_and_file_ids_of_an_engine_task() {
    let (id, files) = ani_core::downloads::scope_engine_task(TorrentEngineKind::Embedded, "raw-id", &vec![0, 12, -3]);
    assert_eq!(id, "embedded:raw-id");
    assert_eq!(files, vec!["embedded:raw-id:0", "embedded:raw-id:12", "embedded:raw-id:-3"]);
    let (again, _) = ani_core::downloads::scope_engine_task(TorrentEngineKind::Embedded, "embedded:raw-id", &Vec::new());
    assert_eq!(again, "embedded:raw-id");
    assert_eq!(ani_core::downloads::scoped_file_id("qbittorrent:h", i64::MIN), format!("qbittorrent:h:{}", i64::MIN));
}
