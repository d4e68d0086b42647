use ani_core::scan::{build_automation_notifications, is_actionable_episode, DownloadedNote, ErrorNote, RunSummary};
use ani_core::domain::{EpisodeStatus, NotificationKind, NotificationSeverity};
use ani_core::scan::{
    contains_ascii_title_token, has_subtitle_requirement, title_declares_no_subtitles,
    title_has_subtitle_track_evidence,
};
use ani_core::text::{format_padded, parse_u64, parse_u8, split_words, str_le, trim_chars};

#[test]
fn reads_subtitle_requirements_and_title_evidence() {
    assert!(has_subtitle_requirement(&["chs".to_owned()], None));
    assert!(!has_subtitle_requirement(&["fr".to_owned()], None));
    assert!(has_subtitle_requirement(&[], Some("multi")));
    assert!(!has_subtitle_requirement(&[], Some("none")));
    assert!(title_declares_no_subtitles("[Group] Show - 01 [无字幕]"));
    assert!(title_declares_no_subtitles("Show - 01 [NO SUBS]"));
    assert!(!title_declares_no_subtitles("Show - 01 [CHS]"));
    assert!(title_has_subtitle_track_evidence("Show [内封字幕]"));
    assert!(title_has_subtitle_track_evidence("Show [1080p][ASS]"));
    assert!(!title_has_subtitle_track_evidence("SubsPlease Show [1080p]"));
    assert!(contains_ascii_title_token("a-SRT_b", "srt"));
    assert!(!contains_ascii_title_token("asrt", "srt"));
}

#[test]
fn parses_and_formats_numbers() {
    let chars = |s: &str| s.chars().collect::<Vec<_>>();
    assert_eq!(parse_u64(&chars("18446744073709551615")), Some(u64::MAX));
    assert_eq!(parse_u64(&chars("18446744073709551616")), None);
    assert_eq!(parse_u64(&chars("+7")), Some(7));
    assert_eq!(parse_u64(&chars("+")), None);
    assert_eq!(parse_u64(&chars("-1")), None);
    assert_eq!(parse_u64(&chars("")), None);
    assert_eq!(parse_u8(&chars("255")), Some(255));
    assert_eq!(parse_u8(&chars("256")), None);
    assert_eq!(format_padded(1, 6), chars("000001"));
    assert_eq!(format_padded(1234567, 6), chars("1234567"));
}

#[test]
fn trims_splits_and_compares_text() {
    let chars = |s: &str| s.chars().collect::<Vec<_>>();
    assert_eq!(trim_chars(&chars("\u{3000} a b \n")), chars("a b"));
    assert_eq!(
        split_words(&chars("  a\tbb  c ")),
        vec![chars("a"), chars("bb"), chars("c")]
    );
    assert!(str_le("2026-07-27T00", "2026-07-27T01"));
    assert!(str_le("abc", "abc"));
    assert!(!str_le("abd", "abc"));
    assert!(str_le("ab", "abc"));
}

#[test]
fn builds_automation_notifications() {
    let result = RunSummary {
        finished_at: "2026-07-23T00:00:00.000Z".to_owned(),
        checked_episodes: 0,
        downloaded: vec![DownloadedNote {
            anime_id: "anime-1".to_owned(),
            anime_title: "测试番".to_owned(),
            episode_id: "episode-1".to_owned(),
            episode_label: "1".to_owned(),
            release_title: "测试资源".to_owned(),
            download_task_id: "task-1".to_owned(),
        }],
        errors: vec![ErrorNote {
            anime_id: Some("anime-2".to_owned()),
            anime_title: Some("失败番".to_owned()),
            episode_id: None,
            episode_label: None,
            message: "网络失败".to_owned(),
        }],
    };
    let records = build_automation_notifications(&result);
    assert_eq!(records.len(), 2);
    assert_eq!(records[0].download_task_id.as_deref(), Some("task-1"));
    assert_eq!(records[1].severity, NotificationSeverity::Error);
}

#[test]
fn writes_notification_texts() {
    let result = RunSummary {
        finished_at: "T".to_owned(),
        checked_episodes: 3,
        downloaded: vec![DownloadedNote {
            anime_id: "a".to_owned(),
            anime_title: "番".to_owned(),
            episode_id: "e".to_owned(),
            episode_label: "1.5".to_owned(),
            release_title: "资源".to_owned(),
            download_task_id: "t".to_owned(),
        }],
        errors: vec![
            ErrorNote { anime_id: None, anime_title: None, episode_id: None, episode_label: Some("2".to_owned()), message: "m".to_owned() },
            ErrorNote { anime_id: Some("a".to_owned()), anime_title: None, episode_id: Some("e2".to_owned()), episode_label: None, message: "n".to_owned() },
        ],
    };
    let records = build_automation_notifications(&result);
    assert_eq!(records.len(), 3);
    assert_eq!(records[0].id, "notification-T-t");
    assert_eq!(records[0].title, "已添加下载：番");
    assert_eq!(records[0].body, "第 1.5 集已匹配资源「资源」。");
    assert_eq!(records[0].severity, NotificationSeverity::Success);
    assert_eq!(records[1].id, "notification-T-error-0");
    assert_eq!(records[1].title, "自动扫描失败");
    assert_eq!(records[1].body, "第 2 集：m");
    assert_eq!(records[2].id, "notification-T-error-e2");
    assert_eq!(records[2].body, "n");
    assert_eq!(records[2].anime_id.as_deref(), Some("a"));
    assert!(records.iter().all(|r| r.kind == NotificationKind::Automation && r.created_at == "T" && r.read_at.is_none()));

    let quiet = build_automation_notifications(&RunSummary {
        finished_at: "T".to_owned(),
        checked_episodes: 12,
        downloaded: vec![],
        errors: vec![],
    });
    assert_eq!(quiet.len(), 1);
    assert_eq!(quiet[0].id, "notification-T-summary");
    assert_eq!(quiet[0].title, "自动扫描完成");
    assert_eq!(quiet[0].body, "已检查 12 集，没有新增下载任务。");
    assert_eq!(quiet[0].severity, NotificationSeverity::Info);
    let idle = build_automation_notifications(&RunSummary {
        finished_at: "T".to_owned(),
        checked_episodes: 0,
        downloaded: vec![],
        errors: vec![],
    });
    assert!(idle.is_empty());
}

#[test]
fn selects_due_episodes() {
    let now = (1_784_764_800, 0);
    assert!(is_actionable_episode(EpisodeStatus::Aired, None, now));
    assert!(is_actionable_episode(EpisodeStatus::Matched, None, now));
    assert!(!is_actionable_episode(EpisodeStatus::Downloaded, Some("2000-01-01T00:00:00Z"), now));
    assert!(is_actionable_episode(EpisodeStatus::Upcoming, Some("2026-07-23T00:00:00Z"), now));
    assert!(is_actionable_episode(EpisodeStatus::Upcoming, Some("2026-07-23T08:00:00+08:00"), now));
    assert!(!is_actionable_episode(EpisodeStatus::Upcoming, Some("2026-07-23T00:00:00.001Z"), now));
    assert!(!is_actionable_episode(EpisodeStatus::Upcoming, Some("not a time"), now));
    assert!(!is_actionable_episode(EpisodeStatus::Upcoming, None, now));
}
