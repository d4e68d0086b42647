use ani_core::automation::{
    automation_run_step, AutomationRunAction, AutomationRunEvent, AutomationRunPhase, AutomationRunState,
    RunDownloadRef,
};
use ani_core::domain::AnimeStatus;
use ani_core::player::ExactValue;

fn anime(id: &str, status: AnimeStatus, auto_download: bool) -> AutomationRunEvent {
    AutomationRunEvent::AnimeAvailable {
        anime_id: id.to_owned(),
        anime_title: format!("title {id}"),
        restricted: false,
        status,
        auto_download,
    }
}

fn episode(id: &str, no: i64, near_numbers: Vec<bool>) -> AutomationRunEvent {
    AutomationRunEvent::EpisodeAvailable {
        episode_id: id.to_owned(),
        episode_no: ExactValue { mantissa: no, exponent: 0 },
        near_numbers,
    }
}

fn known(anime_id: &str, episode_id: Option<&str>, episode_no: Option<i64>) -> RunDownloadRef {
    RunDownloadRef {
        anime_id: Some(anime_id.to_owned()),
        episode_id: episode_id.map(|id| id.to_owned()),
        episode_no: episode_no.map(|no| ExactValue { mantissa: no, exponent: 0 }),
    }
}

#[test]
fn stops_at_once_when_automatic_download_is_disabled() {
    let mut state = AutomationRunState::new();
    let action = automation_run_step(&mut state, AutomationRunEvent::Started { global_enabled: false, downloads: Vec::new() });
    assert_eq!(action, AutomationRunAction::Finish);
    assert!(matches!(state.phase, AutomationRunPhase::Finished));
    assert_eq!(state.skipped.len(), 1);
    assert_eq!(state.skipped[0].anime_id, "");
    assert_eq!(state.skipped[0].anime_title, "全局自动下载");
    assert_eq!(state.skipped[0].text, "全局自动下载未开启");
    assert_eq!(
        automation_run_step(&mut state, AutomationRunEvent::NoMoreAnime),
        AutomationRunAction::Ignore
    );
}

#[test]
fn records_each_outcome_and_continues_after_failures() {
    let mut state = AutomationRunState::new();
    let step = |state: &mut AutomationRunState, event| automation_run_step(state, event);
    assert_eq!(step(&mut state, AutomationRunEvent::Started { global_enabled: true, downloads: vec![known("live", Some("e1"), None)] }), AutomationRunAction::NextAnime);
    assert_eq!(step(&mut state, anime("done", AnimeStatus::Completed, true)), AutomationRunAction::NextAnime);
    assert_eq!(step(&mut state, anime("off", AnimeStatus::Watching, false)), AutomationRunAction::NextAnime);
    assert_eq!(step(&mut state, anime("broken", AnimeStatus::Watching, true)), AutomationRunAction::LoadAnimeData);
    assert_eq!(
        step(&mut state, AutomationRunEvent::AnimeFailed { message: "同步单集失败：x".to_owned() }),
        AutomationRunAction::NextAnime
    );
    assert_eq!(step(&mut state, anime("idle", AnimeStatus::Watching, true)), AutomationRunAction::LoadAnimeData);
    assert_eq!(step(&mut state, AutomationRunEvent::EpisodesListed { actionable: 0 }), AutomationRunAction::NextAnime);
    assert_eq!(step(&mut state, anime("live", AnimeStatus::Watching, true)), AutomationRunAction::LoadAnimeData);
    assert_eq!(step(&mut state, AutomationRunEvent::EpisodesListed { actionable: 3 }), AutomationRunAction::NextEpisode);
    assert_eq!(step(&mut state, episode("e1", 1, vec![false])), AutomationRunAction::NextEpisode);
    assert_eq!(step(&mut state, episode("e2", 2, vec![false])), AutomationRunAction::ScanEpisode);
    assert_eq!(
        step(&mut state, AutomationRunEvent::EpisodeFailed { message: "搜索失败".to_owned() }),
        AutomationRunAction::NextEpisode
    );
    assert_eq!(step(&mut state, episode("e3", 3, vec![false])), AutomationRunAction::ScanEpisode);
    assert_eq!(
        step(&mut state, AutomationRunEvent::EpisodeDownloaded {
            task_id: "task-3".to_owned(),
            release_id: "release-3".to_owned(),
            release_title: "[Group] Live 03".to_owned(),
        }),
        AutomationRunAction::NextEpisode
    );
    assert_eq!(step(&mut state, AutomationRunEvent::NoMoreEpisodes), AutomationRunAction::NextAnime);
    assert_eq!(step(&mut state, AutomationRunEvent::NoMoreAnime), AutomationRunAction::Finish);

    assert_eq!(state.checked_episodes, 3);
    let skipped: Vec<(&str, &str)> =
        state.skipped.iter().map(|e| (e.anime_id.as_str(), e.text.as_str())).collect();
    assert_eq!(
        skipped,
        vec![
            ("done", "追番已完成"),
            ("off", "番剧未开启自动下载"),
            ("idle", "没有需要自动处理的单集"),
            ("live", "已有下载任务"),
        ]
    );
    assert_eq!(state.skipped[3].episode.as_ref().map(|e| e.episode_id.as_str()), Some("e1"));
    assert_eq!(state.errors.len(), 2);
    assert_eq!(state.errors[0].anime_id, "broken");
    assert!(state.errors[0].episode.is_none());
    assert_eq!(state.errors[1].text, "搜索失败");
    assert_eq!(state.errors[1].episode.as_ref().map(|e| e.episode_no.mantissa), Some(2));
    assert_eq!(state.downloaded.len(), 1);
    assert_eq!(state.downloaded[0].task_id, "task-3");
    assert_eq!(state.downloaded[0].episode_id, "e3");
    assert_eq!(state.downloaded[0].anime_title, "title live");
    assert_eq!(state.downloaded[0].release_id, "release-3");
    assert_eq!(state.downloaded[0].release_title, "[Group] Live 03");
    assert_eq!(state.known_downloads.len(), 2);
}

#[test]
fn skips_episodes_that_a_known_download_covers() {
    let mut state = AutomationRunState::new();
    let downloads = vec![known("other", Some("e1"), Some(1)), known("live", None, Some(2))];
    automation_run_step(&mut state, AutomationRunEvent::Started { global_enabled: true, downloads });
    automation_run_step(&mut state, anime("live", AnimeStatus::Watching, true));
    automation_run_step(&mut state, AutomationRunEvent::EpisodesListed { actionable: 3 });
    // Same id, but the known task is for another anime.
    assert_eq!(automation_run_step(&mut state, episode("e1", 1, vec![true, false])), AutomationRunAction::ScanEpisode);
    assert_eq!(
        automation_run_step(&mut state, AutomationRunEvent::EpisodeDownloaded {
            task_id: "t1".to_owned(),
            release_id: "r1".to_owned(),
            release_title: "R1".to_owned(),
        }),
        AutomationRunAction::NextEpisode
    );
    // A near episode number of the same anime.
    assert_eq!(automation_run_step(&mut state, episode("e2", 2, vec![false, true, false])), AutomationRunAction::NextEpisode);
    // The episode just downloaded, reported again by id.
    assert_eq!(automation_run_step(&mut state, episode("e1", 1, vec![])), AutomationRunAction::NextEpisode);
    assert_eq!(state.checked_episodes, 3);
    let reasons: Vec<&str> = state.skipped.iter().map(|e| e.text.as_str()).collect();
    assert_eq!(reasons, vec!["已有下载任务", "已有下载任务"]);
}
