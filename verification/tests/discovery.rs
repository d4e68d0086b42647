use std::collections::HashSet;

use ani_core::discovery::{
    correction_order_key, cycle_position_from_days, detail_retry_delay_minutes,
    format_signed, incremental_detail_reason, is_detail_correction_due, months_for_season,
    stable_detail_hash, stable_detail_slot, IncrementalDetailReason,
};
use ani_core::discovery::{
    detail_cycle_of, empty_detail_refresh_state, updated_detail_failure_state,
    updated_detail_success_state,
};
use ani_core::discovery::{build_detail_plan, detail_external_id, DetailRequestInput};
use ani_core::discovery::{in_season, season_state_after_collect, season_state_at_attempt};
use ani_core::discovery::{order_by_key, plan_due_corrections};
use ani_core::discovery::{compensation_after_attempt, compensation_delay_ms, CompensationNext};
use ani_core::domain::AnimeDetailRefreshState;
use ani_core::rpc::JsonValue;

#[test]
fn selects_only_incomplete_incremental_details() {
    let mut state = AnimeDetailRefreshState {
        anime_id: "bangumi-100".to_owned(),
        provider: "bangumi".to_owned(),
        external_id: "100".to_owned(),
        slot_day: 3,
        last_completed_cycle: Some(2951),
        last_attempt_at: Some("2026-07-28T00:00:00.000Z".to_owned()),
        last_success_at: Some("2026-07-28T00:00:00.000Z".to_owned()),
        failure_count: 0,
        next_retry_at: None,
    };
    assert_eq!(incremental_detail_reason(&state, Some("100")), IncrementalDetailReason::Complete);
    assert_eq!(
        incremental_detail_reason(&state, Some("101")),
        IncrementalDetailReason::ExternalIdChanged
    );
    state.last_success_at = None;
    assert_eq!(incremental_detail_reason(&state, Some("100")), IncrementalDetailReason::Missing);
    state.last_success_at = Some("2026-07-28T00:00:00.000Z".to_owned());
    state.failure_count = 1;
    assert_eq!(incremental_detail_reason(&state, Some("100")), IncrementalDetailReason::Failed);
}

#[test]
fn assigns_stable_detail_slots_across_seven_days() {
    let slot = stable_detail_slot("bangumi-100", "bangumi");
    assert_eq!(slot, 0);
    assert_eq!(slot, stable_detail_slot("bangumi-100", "bangumi"));
    assert!((0..=6).contains(&slot));
    let slots = (0..100)
        .map(|index| stable_detail_slot(&format!("bangumi-{index}"), "bangumi"))
        .collect::<HashSet<_>>();
    assert_eq!(slots.len(), 7);
}

#[test]
fn selects_due_and_overdue_detail_corrections() {
    // 2026-07-27 is 20657 days after the cycle epoch, Monday 1970-01-05.
    let (cycle, day) = cycle_position_from_days(20657);
    assert_eq!(cycle, 2951);
    assert_eq!(day, 0);
    let base = AnimeDetailRefreshState {
        anime_id: "bangumi-100".to_owned(),
        provider: "bangumi".to_owned(),
        external_id: "100".to_owned(),
        slot_day: 3,
        last_completed_cycle: Some(cycle - 1),
        last_attempt_at: None,
        last_success_at: Some("2026-07-23T00:00:00.000Z".to_owned()),
        failure_count: 0,
        next_retry_at: None,
    };
    assert!(!is_detail_correction_due(Some(&base), Some("100"), cycle, day, "2026-07-27T00:00:00.000Z"));
    assert!(is_detail_correction_due(Some(&base), Some("100"), cycle, 3, "2026-07-30T00:00:00.000Z"));

    let mut overdue = base.clone();
    overdue.last_completed_cycle = Some(cycle - 2);
    assert!(is_detail_correction_due(Some(&overdue), Some("100"), cycle, day, "2026-07-27T00:00:00.000Z"));

    let mut failed = overdue;
    failed.failure_count = 1;
    failed.next_retry_at = Some("2026-07-27T01:00:00.000Z".to_owned());
    assert!(!is_detail_correction_due(Some(&failed), Some("100"), cycle, day, "2026-07-27T00:00:00.000Z"));
}

#[test]
fn corrections_without_state_need_an_external_id() {
    assert!(is_detail_correction_due(None, Some("1"), 10, 0, "x"));
    assert!(!is_detail_correction_due(None, None, 10, 0, "x"));
    let state = AnimeDetailRefreshState {
        anime_id: "a".to_owned(),
        provider: "p".to_owned(),
        external_id: "1".to_owned(),
        slot_day: 0,
        last_completed_cycle: Some(10),
        last_attempt_at: None,
        last_success_at: Some("t".to_owned()),
        failure_count: 0,
        next_retry_at: Some("2026-01-02".to_owned()),
    };
    assert!(!is_detail_correction_due(Some(&state), Some("1"), 10, 6, "2026-01-01"));
    assert!(!is_detail_correction_due(Some(&state), Some("2"), 10, 6, "2026-01-01"));
    assert!(is_detail_correction_due(Some(&state), Some("2"), 10, 6, "2026-01-02"));
}

#[test]
fn computes_cycle_positions_and_retry_delays() {
    assert_eq!(cycle_position_from_days(0), (0, 0));
    assert_eq!(cycle_position_from_days(13), (1, 6));
    assert_eq!(cycle_position_from_days(-1), (-1, 6));
    assert_eq!(detail_retry_delay_minutes(1), 30);
    assert_eq!(detail_retry_delay_minutes(2), 120);
    assert_eq!(detail_retry_delay_minutes(3), 360);
    assert_eq!(detail_retry_delay_minutes(4), 720);
    assert_eq!(detail_retry_delay_minutes(99), 720);
    assert_eq!(detail_retry_delay_minutes(0), 720);
    assert_eq!(detail_retry_delay_minutes(i64::MIN), 720);
}

#[test]
fn hashes_and_seasons() {
    // FNV-1a of the single byte 0xff from the standard offset basis.
    assert_eq!(stable_detail_hash(&[""]), 0xaf64_724c_8602_eb6e);
    assert_eq!(stable_detail_hash(&[]), 0xcbf2_9ce4_8422_2325);
    assert_ne!(stable_detail_hash(&["ab", "c"]), stable_detail_hash(&["a", "bc"]));
    assert_eq!(
        correction_order_key("a", Some("bangumi"), 7),
        stable_detail_hash(&["a", "bangumi", "7"])
    );
    assert_eq!(correction_order_key("a", None, -3), stable_detail_hash(&["a", "", "-3"]));
    assert_eq!(format_signed(i64::MIN), "-9223372036854775808");
    assert_eq!(months_for_season("spring").unwrap(), [4, 5, 6]);
    assert_eq!(months_for_season("fall").unwrap(), [10, 11, 12]);
    assert_eq!(months_for_season("autumn").unwrap_err(), "季度无效：autumn");
}

#[test]
fn records_successes_and_backs_off_failures() {
    let now = 1_784_764_800_000;
    assert_eq!(detail_cycle_of(now), 2950);
    assert_eq!(detail_cycle_of(0), -1);
    let fresh = empty_detail_refresh_state("bangumi-100", "bangumi", "100");
    assert_eq!(fresh.slot_day, stable_detail_slot("bangumi-100", "bangumi"));
    assert_eq!(fresh.failure_count, 0);
    assert!(fresh.last_success_at.is_none());

    let failed = updated_detail_failure_state(None, "bangumi-100", "bangumi", "100", now);
    assert_eq!(failed.failure_count, 1);
    assert_eq!(failed.last_attempt_at.as_deref(), Some("2026-07-23T00:00:00.000Z"));
    assert_eq!(failed.next_retry_at.as_deref(), Some("2026-07-23T00:30:00.000Z"));
    let failed_again = updated_detail_failure_state(Some(failed), "bangumi-100", "bangumi", "100", now + 123);
    assert_eq!(failed_again.failure_count, 2);
    assert_eq!(failed_again.last_attempt_at.as_deref(), Some("2026-07-23T00:00:00.123Z"));
    assert_eq!(failed_again.next_retry_at.as_deref(), Some("2026-07-23T02:00:00.123Z"));

    let succeeded = updated_detail_success_state(Some(failed_again), "bangumi-100", "bangumi", "101", now);
    assert_eq!(succeeded.failure_count, 0);
    assert_eq!(succeeded.external_id, "101");
    assert_eq!(succeeded.last_completed_cycle, Some(2950));
    assert_eq!(succeeded.last_success_at.as_deref(), Some("2026-07-23T00:00:00.000Z"));
    assert!(succeeded.next_retry_at.is_none());

    let after_success = updated_detail_failure_state(Some(succeeded), "bangumi-100", "bangumi", "101", now);
    assert_eq!(after_success.last_success_at.as_deref(), Some("2026-07-23T00:00:00.000Z"));
    assert_eq!(after_success.last_completed_cycle, Some(2950));
    assert_eq!(after_success.failure_count, 1);
}

fn detail_plan_request(id: &str, provider: &str, external_id: &str) -> DetailRequestInput {
    DetailRequestInput {
        anime_id: id.to_owned(),
        external_ids: JsonValue::Object(vec![(provider.to_owned(), JsonValue::String(external_id.to_owned()))]),
        providers: vec![provider.to_owned()],
    }
}

fn completed_detail_state(anime_id: &str, provider: &str, external_id: &str) -> AnimeDetailRefreshState {
    AnimeDetailRefreshState {
        anime_id: anime_id.to_owned(),
        provider: provider.to_owned(),
        external_id: external_id.to_owned(),
        slot_day: 3,
        last_completed_cycle: Some(2951),
        last_attempt_at: Some("2026-07-28T00:00:00.000Z".to_owned()),
        last_success_at: Some("2026-07-28T00:00:00.000Z".to_owned()),
        failure_count: 0,
        next_retry_at: None,
    }
}

#[test]
fn builds_full_and_incremental_detail_plans() {
    let items = vec![
        detail_plan_request("anime-bangumi", "bangumi", "100"),
        detail_plan_request("anime-mikan", "mikan", "200"),
    ];
    let states = vec![
        completed_detail_state("anime-bangumi", "bangumi", "100"),
        completed_detail_state("anime-mikan", "mikan", "200"),
    ];

    let full = build_detail_plan(&items, &states, true);
    assert!(full.full_refresh);
    assert_eq!(full.requests.len(), 2);
    assert_eq!(full.skipped_count, 0);

    let unchanged = build_detail_plan(&items, &states, false);
    assert!(!unchanged.full_refresh);
    assert!(unchanged.requests.is_empty());
    assert_eq!(unchanged.skipped_count, 2);

    let mut changed = items;
    changed[0].external_ids = JsonValue::Object(vec![("bangumi".to_owned(), JsonValue::String("101".to_owned()))]);
    let incremental = build_detail_plan(&changed, &states, false);
    assert_eq!(incremental.requests.len(), 1);
    assert_eq!(incremental.requests[0].anime_id, "anime-bangumi");
    assert_eq!(incremental.requests[0].providers, vec!["bangumi".to_owned()]);
}

#[test]
fn plans_sources_without_state_or_with_failures() {
    let items = vec![DetailRequestInput {
        anime_id: "anime-1".to_owned(),
        external_ids: JsonValue::Object(vec![
            ("bangumi".to_owned(), JsonValue::String(" 7 ".to_owned())),
            ("mikan".to_owned(), JsonValue::String("8".to_owned())),
        ]),
        providers: vec!["bangumi".to_owned(), "mikan".to_owned(), "anilist".to_owned()],
    }];
    let mut failed = completed_detail_state("anime-1", "mikan", "8");
    failed.failure_count = 2;
    let states = vec![completed_detail_state("anime-1", "bangumi", "7"), failed];
    let plan = build_detail_plan(&items, &states, false);
    assert_eq!(plan.skipped_count, 1);
    assert_eq!(plan.requests.len(), 1);
    assert_eq!(plan.requests[0].providers, vec!["mikan".to_owned(), "anilist".to_owned()]);
}

#[test]
fn reads_trimmed_external_identifiers() {
    let ids = JsonValue::Object(vec![
        ("bangumi".to_owned(), JsonValue::String("  42 ".to_owned())),
        ("mikan".to_owned(), JsonValue::String("   ".to_owned())),
        ("anilist".to_owned(), JsonValue::Bool(true)),
    ]);
    assert_eq!(detail_external_id(&ids, "bangumi"), Some("42".to_owned()));
    assert_eq!(detail_external_id(&ids, "mikan"), None);
    assert_eq!(detail_external_id(&ids, "anilist"), None);
    assert_eq!(detail_external_id(&ids, "tmdb"), None);
}

#[test]
fn records_season_sync_attempts_and_outcomes() {
    let fresh = season_state_at_attempt(None, 2026, "summer", "2026-07-01T00:00:00.000Z");
    assert_eq!(fresh.year, 2026);
    assert_eq!(fresh.season, "summer");
    assert_eq!(fresh.last_attempt_at.as_deref(), Some("2026-07-01T00:00:00.000Z"));
    assert!(fresh.completed_at.is_none());

    let synced = season_state_after_collect(
        fresh.clone(),
        "2026-07-01T00:00:00.000Z",
        &vec!["bangumi".to_owned(), "anilist".to_owned()],
        &Vec::new(),
    );
    assert_eq!(synced.last_successful_sync_at.as_deref(), Some("2026-07-01T00:00:00.000Z"));
    assert_eq!(synced.completed_at.as_deref(), Some("2026-07-01T00:00:00.000Z"));
    assert!(synced.last_anilist_error.is_none());

    let again = season_state_after_collect(synced, "2026-07-08T00:00:00.000Z", &vec!["anilist".to_owned()], &Vec::new());
    assert_eq!(again.completed_at.as_deref(), Some("2026-07-01T00:00:00.000Z"));
    assert_eq!(again.last_successful_sync_at.as_deref(), Some("2026-07-08T00:00:00.000Z"));

    let failed = season_state_after_collect(
        again.clone(),
        "2026-07-09T00:00:00.000Z",
        &vec!["bangumi".to_owned()],
        &vec!["bangumi: slow".to_owned(), "anilist: 429".to_owned(), "anilist: other".to_owned()],
    );
    assert_eq!(failed.last_anilist_error.as_deref(), Some("anilist: 429"));
    assert_eq!(failed.last_successful_sync_at, again.last_successful_sync_at);
    let silent = season_state_after_collect(again, "x", &Vec::new(), &Vec::new());
    assert_eq!(silent.last_anilist_error.as_deref(), Some("anilist: 未返回新番数据"));

    assert!(in_season(2026, 8, 2026, &[7, 8, 9], false));
    assert!(!in_season(2026, 10, 2026, &[7, 8, 9], false));
    assert!(!in_season(2025, 8, 2026, &[7, 8, 9], false));
    assert!(!in_season(2026, 8, 2026, &[7, 8, 9], true));
}

#[test]
fn plans_due_corrections_in_key_order() {
    let cycle = 2951;
    let requests = vec![
        detail_plan_request("anime-a", "bangumi", "1"),
        detail_plan_request("anime-b", "bangumi", "2"),
        detail_plan_request("anime-c", "mikan", "3"),
    ];
    let mut done = completed_detail_state("anime-c", "mikan", "3");
    done.last_completed_cycle = Some(cycle);
    let states = vec![done];
    let plan = plan_due_corrections(&requests, &states, cycle, 0, "2026-07-27T00:00:00.000Z");
    assert_eq!(plan.len(), 2);
    let key = |request: &ani_core::discovery::PlannedDetailRequest| {
        correction_order_key(&request.anime_id, request.providers.first().map(String::as_str), cycle)
    };
    assert!(key(&plan[0]) <= key(&plan[1]));
    let mut ids: Vec<&str> = plan.iter().map(|request| request.anime_id.as_str()).collect();
    ids.sort_unstable();
    assert_eq!(ids, vec!["anime-a", "anime-b"]);
    assert_eq!(order_by_key(&vec![5, 1, 5, 0]), vec![3, 1, 0, 2]);
}

#[test]
fn paces_and_counts_detail_compensation() {
    assert_eq!(compensation_delay_ms(&Vec::new()), 500);
    assert_eq!(compensation_delay_ms(&vec![100, 2_000, 700]), 2_000);
    assert_eq!(compensation_delay_ms(&vec![999_999]), 120_500);
    assert_eq!(compensation_after_attempt(2, 1, 2, 5, 0), (3, CompensationNext::Finished));
    assert_eq!(compensation_after_attempt(2, 1, 2, 5, 4), (3, CompensationNext::RetryAgain));
    assert_eq!(compensation_after_attempt(3, 1, 2, 5, 4), (8, CompensationNext::Exhausted));
    assert_eq!(compensation_after_attempt(3, usize::MAX, 2, 5, 4), (usize::MAX, CompensationNext::Exhausted));
}
