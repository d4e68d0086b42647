use ani_core::domain::{AnimeRssSubscription, AnimeStatus, EpisodePreference, EpisodeStatus, FansubGroup, SourceKind};
use ani_core::selection::{rss_subscription_source, rss_subtitle_rule, searchable_subscription};
use ani_core::selection::{
    anime_skip_reason, decide_episode_scan, preferred_fansub, release_cache_ttl_ms, search_fansub_filter,
    status_to_save, EpisodeScanStep,
};
use ani_core::rpc::JsonValue;
use ani_core::selection::{
    apply_fansub_policy, automatic_subtitle_rejection_reason, candidate_group_ids, candidate_values,
    filter_automatic_releases_by_subtitle, first_by_key, keep_first_names, release_dedupe_key,
    release_matches_candidate, scan_policy_settings, SubtitleVerdicts,
};

struct TitleCase {
    id: &'static str,
    title: String,
    verdicts: SubtitleVerdicts,
}

fn gate(cases: &[TitleCase], languages: &[String], legacy: Option<&str>) -> (Vec<&'static str>, usize) {
    let reasons: Vec<Option<&'static str>> = cases
        .iter()
        .map(|case| automatic_subtitle_rejection_reason(&case.title, languages, legacy, case.verdicts))
        .collect();
    let (kept, rejected) = filter_automatic_releases_by_subtitle(&reasons);
    (kept.into_iter().map(|index| cases[index].id).collect(), rejected)
}

// The verdicts stand for what the release parser reads from each title and what the
// source's subtitle check says of the release as listed.
#[test]
fn filters_automatic_releases_by_required_subtitles() {
    let cases = [
        TitleCase {
            id: "complete",
            title: "[NIX-RAWS] 测试番 - 01 [简繁内封]".to_owned(),
            verdicts: SubtitleVerdicts { title_languages: Some(true), release_satisfies: true },
        },
        TitleCase {
            id: "partial",
            title: "[字幕组] 测试番 - 01 [简中]".to_owned(),
            verdicts: SubtitleVerdicts { title_languages: Some(false), release_satisfies: false },
        },
        TitleCase {
            id: "unknown-multi",
            title: "[字幕组] 测试番 - 01 [Multi-Subs]".to_owned(),
            verdicts: SubtitleVerdicts { title_languages: None, release_satisfies: false },
        },
    ];
    let (eligible, rejected) = gate(&cases, &["chs".to_owned(), "cht".to_owned()], None);
    assert_eq!(eligible.len(), 1);
    assert_eq!(eligible[0], "complete");
    assert_eq!(rejected, 2);
}

#[test]
fn requires_title_subtitle_evidence_for_automatic_download() {
    let source_title = "[LoliHouse] Kokoore - 05 [WebRip 1080p HEVC-10bit AAC].mkv".to_owned();
    let cases = [
        TitleCase {
            id: "source-only-chs",
            title: source_title.clone(),
            verdicts: SubtitleVerdicts { title_languages: None, release_satisfies: true },
        },
        TitleCase {
            id: "explicit-no-chs",
            title: format!("{source_title}[无中字]"),
            verdicts: SubtitleVerdicts { title_languages: None, release_satisfies: true },
        },
        TitleCase {
            id: "ass-with-chs",
            title: "[字幕组] 测试番 - 05 [ASS]".to_owned(),
            verdicts: SubtitleVerdicts { title_languages: None, release_satisfies: true },
        },
        TitleCase {
            id: "title-chs",
            title: "[字幕组] 测试番 - 05 [简中内封]".to_owned(),
            verdicts: SubtitleVerdicts { title_languages: Some(true), release_satisfies: false },
        },
    ];
    let (eligible, rejected) = gate(&cases, &["chs".to_owned()], None);
    assert_eq!(eligible, vec!["ass-with-chs", "title-chs"]);
    assert_eq!(rejected, 2);

    let (eligible_without_rule, rejected_without_rule) = gate(&cases[..1], &[], None);
    assert_eq!(eligible_without_rule.len(), 1);
    assert_eq!(rejected_without_rule, 0);
}

#[test]
fn names_each_subtitle_rejection() {
    let rule = ["chs".to_owned()];
    let none = SubtitleVerdicts { title_languages: None, release_satisfies: false };
    assert_eq!(
        automatic_subtitle_rejection_reason("Show - 01 [无字幕]", &rule, None, none),
        Some("标题明确标记无字幕")
    );
    assert_eq!(
        automatic_subtitle_rejection_reason("Show - 01 [CHT]", &rule, None, SubtitleVerdicts { title_languages: Some(false), release_satisfies: true }),
        Some("标题字幕语言不满足")
    );
    assert_eq!(
        automatic_subtitle_rejection_reason("Show - 01 [SRT]", &rule, None, none),
        Some("字幕轨存在但语言不满足")
    );
    assert_eq!(automatic_subtitle_rejection_reason("Show - 01", &rule, None, none), Some("标题缺少字幕证据"));
    assert_eq!(automatic_subtitle_rejection_reason("Show - 01", &[], Some("none"), none), None);
    assert_eq!(automatic_subtitle_rejection_reason("Show - 01", &[], Some("multi"), none), Some("标题缺少字幕证据"));
}

#[test]
fn removes_duplicate_releases_by_first_key() {
    let keys = vec![
        release_dedupe_key("r1", Some("hash-a"), Some("magnet:a"), None),
        release_dedupe_key("r2", None, Some("magnet:b"), Some("https://t/b")),
        release_dedupe_key("r3", Some("hash-a"), None, None),
        release_dedupe_key("r4", None, None, Some("https://t/c")),
        release_dedupe_key("r5", None, None, None),
        release_dedupe_key("r6", None, Some("magnet:b"), None),
    ];
    assert_eq!(keys, vec!["hash-a", "magnet:b", "hash-a", "https://t/c", "r5", "magnet:b"]);
    assert_eq!(first_by_key(&keys), vec![0, 1, 3, 4]);
    assert!(first_by_key(&Vec::new()).is_empty());
}

fn text(value: &str) -> JsonValue {
    JsonValue::String(value.to_owned())
}

#[test]
fn reads_the_scan_policy_with_defaults() {
    let settings = JsonValue::Object(vec![(
        "automation".to_owned(),
        JsonValue::Object(vec![
            ("fallbackWhenDefaultFansubMissing".to_owned(), text("candidate")),
            ("autoDownloadEnabledGlobally".to_owned(), JsonValue::Bool(false)),
            (
                "candidateFansubNames".to_owned(),
                JsonValue::Array(vec![text(" 喵萌奶茶屋 "), text(""), JsonValue::Null, text("LoliHouse"), text("  ")]),
            ),
        ]),
    )]);
    let policy = scan_policy_settings(&settings);
    assert!(!policy.global_enabled);
    assert_eq!(policy.fallback, "candidate");
    assert_eq!(policy.candidate_names, vec!["喵萌奶茶屋".to_owned(), "LoliHouse".to_owned()]);

    let defaults = scan_policy_settings(&JsonValue::Object(vec![(
        "automation".to_owned(),
        JsonValue::Object(vec![("fallbackWhenDefaultFansubMissing".to_owned(), text("later"))]),
    )]));
    assert!(defaults.global_enabled);
    assert_eq!(defaults.fallback, "wait");
    assert!(defaults.candidate_names.is_empty());
    assert_eq!(scan_policy_settings(&JsonValue::Null).fallback, "wait");

    let names = vec!["Lolihouse".to_owned(), "LoliHouse".to_owned(), "Nekomoe".to_owned()];
    let keys = vec!["lolihouse".to_owned(), "lolihouse".to_owned(), "nekomoe".to_owned()];
    assert_eq!(keep_first_names(&names, &keys), vec!["Lolihouse".to_owned(), "Nekomoe".to_owned()]);
}

fn group(id: &str, name: &str, aliases: &[&str]) -> FansubGroup {
    FansubGroup {
        id: id.to_owned(),
        name: name.to_owned(),
        aliases: aliases.iter().map(|alias| (*alias).to_owned()).collect(),
        source_ids: Vec::new(),
    }
}

#[test]
fn applies_the_fansub_policy() {
    let ids = vec![Some("g1".to_owned()), None, Some("g2".to_owned()), Some("g1".to_owned())];
    let candidates = vec![false, true, true, false];
    assert_eq!(apply_fansub_policy(&ids, &candidates, None, "wait", false), vec![0, 1, 2, 3]);
    assert_eq!(apply_fansub_policy(&ids, &candidates, Some("g1"), "candidate", true), vec![0, 3]);
    assert_eq!(apply_fansub_policy(&ids, &candidates, Some("g9"), "candidate", true), vec![1, 2]);
    assert!(apply_fansub_policy(&ids, &candidates, Some("g9"), "wait", true).is_empty());
    assert!(apply_fansub_policy(&ids, &candidates, Some("g9"), "candidate", false).is_empty());
}

#[test]
fn matches_releases_and_groups_against_candidates() {
    let groups = vec![group("g1", "喵萌奶茶屋", &["Nekomoe kissaten"]), group("g2", "LoliHouse", &[])];
    assert_eq!(
        candidate_values(Some("LoliHouse"), Some("g1"), &groups),
        vec!["LoliHouse".to_owned(), "喵萌奶茶屋".to_owned(), "Nekomoe kissaten".to_owned()]
    );
    assert_eq!(candidate_values(None, Some("g9"), &groups), Vec::<String>::new());
    let candidate_keys = vec!["nekomoekissaten".to_owned()];
    assert!(release_matches_candidate(&vec!["lolihouse".to_owned(), "nekomoekissaten".to_owned()], &candidate_keys));
    assert!(!release_matches_candidate(&vec!["lolihouse".to_owned()], &candidate_keys));
    let group_keys = vec![
        vec!["喵萌奶茶屋".to_owned(), "nekomoekissaten".to_owned()],
        vec!["lolihouse".to_owned()],
    ];
    assert_eq!(candidate_group_ids(&groups, &group_keys, &candidate_keys), vec!["g1".to_owned()]);
}

#[test]
fn passes_over_series_that_cannot_be_scanned() {
    assert_eq!(anime_skip_reason(true, AnimeStatus::Watching, true), Some("番剧标记为成人内容"));
    assert_eq!(anime_skip_reason(false, AnimeStatus::Completed, true), Some("追番已完成"));
    assert_eq!(anime_skip_reason(false, AnimeStatus::Dropped, true), Some("追番已弃"));
    assert_eq!(anime_skip_reason(false, AnimeStatus::Watching, false), Some("番剧未开启自动下载"));
    assert_eq!(anime_skip_reason(false, AnimeStatus::Paused, true), None);
}

fn preference(episode: &str, fansub: Option<&str>) -> EpisodePreference {
    EpisodePreference {
        id: format!("pref-{episode}"),
        anime_id: "anime-1".to_owned(),
        episode_id: episode.to_owned(),
        fansub_group_id: fansub.map(str::to_owned),
        release_id: None,
        is_manual_override: true,
    }
}

#[test]
fn picks_the_fansub_and_query_of_an_episode_scan() {
    let preferences = vec![preference("ep-1", Some("g-episode")), preference("ep-2", None)];
    assert_eq!(preferred_fansub(&preferences, "ep-1", Some("g-default")), Some("g-episode".to_owned()));
    assert_eq!(preferred_fansub(&preferences, "ep-2", Some("g-default")), Some("g-default".to_owned()));
    assert_eq!(preferred_fansub(&preferences, "ep-3", None), None);
    assert_eq!(search_fansub_filter("candidate", Some("g")), None);
    assert_eq!(search_fansub_filter("wait", Some("g")), Some("g".to_owned()));
    assert_eq!(release_cache_ttl_ms(AnimeStatus::Completed), Some(7 * 24 * 60 * 60 * 1_000));
    assert_eq!(release_cache_ttl_ms(AnimeStatus::Watching), None);
}

#[test]
fn decides_each_episode_scan_outcome() {
    assert_eq!(
        decide_episode_scan(0, true, "", None, true),
        EpisodeScanStep::Skip { status: Some(EpisodeStatus::Aired), reason: "未找到匹配资源".to_owned() }
    );
    assert_eq!(
        decide_episode_scan(2, false, "分数过低", None, true),
        EpisodeScanStep::Skip { status: Some(EpisodeStatus::Matched), reason: "分数过低".to_owned() }
    );
    assert_eq!(
        decide_episode_scan(2, true, "", Some("标题缺少字幕证据"), true),
        EpisodeScanStep::Skip { status: Some(EpisodeStatus::Matched), reason: "字幕规则不满足".to_owned() }
    );
    assert_eq!(
        decide_episode_scan(1, true, "", None, false),
        EpisodeScanStep::Skip { status: None, reason: "最佳资源没有下载地址".to_owned() }
    );
    assert_eq!(decide_episode_scan(1, true, "", None, true), EpisodeScanStep::Download);
    assert_eq!(status_to_save(EpisodeStatus::Aired, EpisodeStatus::Aired), None);
    assert_eq!(status_to_save(EpisodeStatus::Aired, EpisodeStatus::Matched), Some(EpisodeStatus::Matched));
}

fn subscription(enabled: bool, url: &str, languages: &[&str]) -> AnimeRssSubscription {
    AnimeRssSubscription {
        id: "sub-1".to_owned(),
        my_anime_id: "my-1".to_owned(),
        name: "字幕组 RSS".to_owned(),
        url: url.to_owned(),
        enabled,
        preferred_subtitle_languages: languages.iter().map(|l| (*l).to_owned()).collect(),
        preferred_subtitle: None,
        refresh_interval_minutes: None,
        last_fetched_at: None,
        created_at: String::new(),
        updated_at: String::new(),
    }
}

#[test]
fn searches_rss_subscriptions_as_sources() {
    assert!(searchable_subscription(&subscription(true, "https://rss.example/feed", &[])));
    assert!(!searchable_subscription(&subscription(false, "https://rss.example/feed", &[])));
    assert!(!searchable_subscription(&subscription(true, "   ", &[])));
    let source = rss_subscription_source(&subscription(true, "https://rss.example/feed", &[]));
    assert_eq!(source.id, "rss-subscription:sub-1");
    assert_eq!(source.kind, SourceKind::Rss);
    assert!(source.enabled && source.use_proxy);
    assert_eq!(source.request_interval_ms, 1500);
    assert_eq!(source.rss_url.as_deref(), Some("https://rss.example/feed"));
    assert_eq!(source.tags, vec!["anime".to_owned(), "rss".to_owned()]);
    let anime_languages = vec!["chs".to_owned()];
    assert_eq!(rss_subtitle_rule(&Vec::new(), &anime_languages, Some("multi")), (anime_languages.clone(), Some("multi".to_owned())));
    assert_eq!(rss_subtitle_rule(&vec!["cht".to_owned()], &anime_languages, Some("multi")), (vec!["cht".to_owned()], None));
}
