//! The automatic scan run as a state machine: the host lists the anime, syncs and
//! reads their episodes and scans each one; this module decides, from what the host
//! reports, what it does next and what the run's result records. A failure on one
//! anime or one episode is recorded and the run goes on with the rest.

use vstd::prelude::*;
use crate::domain::AnimeStatus;
use crate::player::ExactValue;
use crate::selection::{anime_skip_reason, anime_skip_spec};
use crate::text::{chars_eq, chars_of};

verus! {

/// The anime a run is working on.
#[derive(Debug, Clone)]
pub struct RunAnime {
    pub anime_id: String,
    pub anime_title: String,
}

/// The episode a run is scanning.
#[derive(Debug, Clone)]
pub struct RunEpisode {
    pub episode_id: String,
    pub episode_no: ExactValue,
}

/// Where a run stands. While it works on an anime the phase holds it, and while it
/// scans an episode, that episode too.
#[derive(Debug, Clone)]
pub enum AutomationRunPhase {
    Begin,
    NextAnime,
    AnimeData(RunAnime),
    NextEpisode(RunAnime),
    EpisodeScan(RunAnime, RunEpisode),
    Finished,
}

/// A skipped item or an error of the run's result; the episode is set for an entry
/// about one episode.
#[derive(Debug, Clone)]
pub struct RunEntry {
    pub anime_id: String,
    pub anime_title: String,
    pub episode: Option<RunEpisode>,
    pub text: String,
}

/// An episode the run handed to a download, with the release it chose.
#[derive(Debug, Clone)]
pub struct RunDownload {
    pub anime_id: String,
    pub anime_title: String,
    pub episode_id: String,
    pub episode_no: ExactValue,
    pub release_id: String,
    pub release_title: String,
    pub task_id: String,
}

/// A download task the run knows of: what it was made for, as far as it says.
#[derive(Debug, Clone)]
pub struct RunDownloadRef {
    pub anime_id: Option<String>,
    pub episode_id: Option<String>,
    pub episode_no: Option<ExactValue>,
}

/// The state of a run: its phase, the episodes checked so far and what its result
/// records.
#[derive(Debug, Clone)]
pub struct AutomationRunState {
    pub phase: AutomationRunPhase,
    pub checked_episodes: u64,
    pub known_downloads: Vec<RunDownloadRef>,
    pub downloaded: Vec<RunDownload>,
    pub skipped: Vec<RunEntry>,
    pub errors: Vec<RunEntry>,
}

/// What the host reports to the run.
#[derive(Debug, Clone)]
pub enum AutomationRunEvent {
    /// The run starts: whether automatic download is enabled at all, and the
    /// download tasks already stored.
    Started { global_enabled: bool, downloads: Vec<RunDownloadRef> },
    /// The next anime of the list.
    AnimeAvailable { anime_id: String, anime_title: String, restricted: bool, status: AnimeStatus, auto_download: bool },
    /// The list of anime is exhausted.
    NoMoreAnime,
    /// Syncing or reading the current anime's data failed.
    AnimeFailed { message: String },
    /// The current anime's data is read; how many of its episodes are actionable.
    EpisodesListed { actionable: usize },
    /// The next actionable episode. `near_numbers[k]` says whether the episode number
    /// of the `k`-th known download is within `1e-9` of this episode's, a comparison of
    /// doubles the host makes; a missing entry counts as no.
    EpisodeAvailable { episode_id: String, episode_no: ExactValue, near_numbers: Vec<bool> },
    /// The current anime's actionable episodes are exhausted.
    NoMoreEpisodes,
    /// Scanning the current episode started a download task of the chosen release.
    EpisodeDownloaded { task_id: String, release_id: String, release_title: String },
    /// Scanning the current episode passed over it.
    EpisodeSkipped { reason: String },
    /// Scanning the current episode failed.
    EpisodeFailed { message: String },
}

/// What the host does next.
#[derive(Debug, Clone, Copy, PartialEq, Eq, Structural)]
pub enum AutomationRunAction {
    /// Report the next anime, or that there is none.
    NextAnime,
    /// Sync and read the current anime's episodes, preferences and bindings.
    LoadAnimeData,
    /// Report the next actionable episode, or that there is none.
    NextEpisode,
    /// Scan the current episode.
    ScanEpisode,
    /// Stamp the finish time and hand out the result.
    Finish,
    /// The event does not fit the phase; nothing changed.
    Ignore,
}

/// An anime as the contracts read it.
pub struct AnimeView {
    pub anime_id: Seq<char>,
    pub anime_title: Seq<char>,
}

/// An episode as the contracts read it.
pub struct EpisodeView {
    pub episode_id: Seq<char>,
    pub episode_no: ExactValue,
}

/// A phase as the contracts read it.
pub enum PhaseView {
    Begin,
    NextAnime,
    AnimeData(AnimeView),
    NextEpisode(AnimeView),
    EpisodeScan(AnimeView, EpisodeView),
    Finished,
}

/// A result entry as the contracts read it.
pub struct EntryView {
    pub anime_id: Seq<char>,
    pub anime_title: Seq<char>,
    pub episode: Option<EpisodeView>,
    pub text: Seq<char>,
}

/// A download as the contracts read it.
pub struct DownloadView {
    pub anime_id: Seq<char>,
    pub anime_title: Seq<char>,
    pub episode_id: Seq<char>,
    pub episode_no: ExactValue,
    pub release_id: Seq<char>,
    pub release_title: Seq<char>,
    pub task_id: Seq<char>,
}

/// A known download task as the contracts read it.
pub struct RefView {
    pub anime_id: Option<Seq<char>>,
    pub episode_id: Option<Seq<char>>,
    pub episode_no: Option<ExactValue>,
}

/// A run's state as the contracts read it.
pub struct RunView {
    pub phase: PhaseView,
    pub checked_episodes: nat,
    pub known_downloads: Seq<RefView>,
    pub downloaded: Seq<DownloadView>,
    pub skipped: Seq<EntryView>,
    pub errors: Seq<EntryView>,
}

pub open spec fn anime_view(a: RunAnime) -> AnimeView {
    AnimeView { anime_id: a.anime_id@, anime_title: a.anime_title@ }
}

pub open spec fn episode_view(e: RunEpisode) -> EpisodeView {
    EpisodeView { episode_id: e.episode_id@, episode_no: e.episode_no }
}

pub open spec fn phase_view(p: AutomationRunPhase) -> PhaseView {
    match p {
        AutomationRunPhase::Begin => PhaseView::Begin,
        AutomationRunPhase::NextAnime => PhaseView::NextAnime,
        AutomationRunPhase::AnimeData(a) => PhaseView::AnimeData(anime_view(a)),
        AutomationRunPhase::NextEpisode(a) => PhaseView::NextEpisode(anime_view(a)),
        AutomationRunPhase::EpisodeScan(a, e) => PhaseView::EpisodeScan(anime_view(a), episode_view(e)),
        AutomationRunPhase::Finished => PhaseView::Finished,
    }
}

pub open spec fn entry_view(e: RunEntry) -> EntryView {
    EntryView {
        anime_id: e.anime_id@,
        anime_title: e.anime_title@,
        episode: match e.episode {
            Some(x) => Some(episode_view(x)),
            None => None,
        },
        text: e.text@,
    }
}

pub open spec fn download_view(d: RunDownload) -> DownloadView {
    DownloadView {
        anime_id: d.anime_id@,
        anime_title: d.anime_title@,
        episode_id: d.episode_id@,
        episode_no: d.episode_no,
        release_id: d.release_id@,
        release_title: d.release_title@,
        task_id: d.task_id@,
    }
}

pub open spec fn opt_chars(o: Option<String>) -> Option<Seq<char>> {
    match o {
        Some(x) => Some(x@),
        None => None,
    }
}

pub open spec fn ref_view(r: RunDownloadRef) -> RefView {
    RefView { anime_id: opt_chars(r.anime_id), episode_id: opt_chars(r.episode_id), episode_no: r.episode_no }
}

/// Whether a known download covers an episode of an anime: it is for that anime, and
/// names the episode's id or has an episode number near the episode's.
pub open spec fn ref_matches(r: RefView, anime_id: Seq<char>, episode_id: Seq<char>, near: bool) -> bool {
    r.anime_id == Some(anime_id) && (r.episode_id == Some(episode_id) || (r.episode_no is Some && near))
}

/// The host's answer for the `k`-th known download; a missing one counts as no.
pub open spec fn near_at(near: Seq<bool>, k: int) -> bool {
    0 <= k < near.len() && near[k]
}

/// Whether some known download covers the episode.
pub open spec fn already_downloaded(known: Seq<RefView>, anime_id: Seq<char>, episode_id: Seq<char>, near: Seq<bool>) -> bool {
    exists|k: int| 0 <= k < known.len() && ref_matches(#[trigger] known[k], anime_id, episode_id, near_at(near, k))
}

pub open spec fn run_view(s: AutomationRunState) -> RunView {
    RunView {
        phase: phase_view(s.phase),
        checked_episodes: s.checked_episodes as nat,
        known_downloads: s.known_downloads@.map_values(|r: RunDownloadRef| ref_view(r)),
        downloaded: s.downloaded@.map_values(|d: RunDownload| download_view(d)),
        skipped: s.skipped@.map_values(|e: RunEntry| entry_view(e)),
        errors: s.errors@.map_values(|e: RunEntry| entry_view(e)),
    }
}

/// An entry about a whole anime.
pub open spec fn anime_entry(a: AnimeView, text: Seq<char>) -> EntryView {
    EntryView { anime_id: a.anime_id, anime_title: a.anime_title, episode: None, text }
}

/// An entry about one episode of an anime.
pub open spec fn episode_entry(a: AnimeView, e: EpisodeView, text: Seq<char>) -> EntryView {
    EntryView { anime_id: a.anime_id, anime_title: a.anime_title, episode: Some(e), text }
}

/// The entry of a run that stops because automatic download is disabled.
pub open spec fn disabled_entry() -> EntryView {
    EntryView { anime_id: Seq::empty(), anime_title: "全局自动下载"@, episode: None, text: "全局自动下载未开启"@ }
}

/// One step of a run: from its state and what the host reports, the next state and
/// what the host does next.
/// - At the start, a disabled automatic download ends the run with one skipped entry;
///   otherwise the run keeps the stored download tasks and asks for the first anime.
/// - An anime that `anime_skip_spec` passes over is recorded as skipped with that
///   reason; any other becomes the current one and its data is asked for.
/// - A failure on the current anime's data is recorded as its error, and the run
///   moves on to the next anime.
/// - An anime without actionable episodes is recorded as skipped.
/// - Each reported episode counts as checked; one a known download covers (same anime,
///   and the same episode id or a near episode number) is skipped, any other is
///   scanned.
/// - A scan's outcome is recorded (download, skip or error; a download also becomes a
///   known download of that episode) and the run moves on to
///   the next episode; when they are exhausted, to the next anime; when the anime are
///   exhausted, it finishes.
/// - An event that does not fit the phase changes nothing.
pub open spec fn automation_run_step_spec(s: RunView, e: AutomationRunEvent) -> (RunView, AutomationRunAction) {
    match (s.phase, e) {
        (PhaseView::Begin, AutomationRunEvent::Started { global_enabled, downloads }) => if global_enabled {
            (RunView {
                phase: PhaseView::NextAnime,
                known_downloads: downloads@.map_values(|r: RunDownloadRef| ref_view(r)),
                ..s
            }, AutomationRunAction::NextAnime)
        } else {
            (RunView { phase: PhaseView::Finished, skipped: s.skipped.push(disabled_entry()), ..s }, AutomationRunAction::Finish)
        },
        (PhaseView::NextAnime, AutomationRunEvent::AnimeAvailable { anime_id, anime_title, restricted, status, auto_download }) => {
            let a = AnimeView { anime_id: anime_id@, anime_title: anime_title@ };
            match anime_skip_spec(restricted, status, auto_download) {
                Some(m) => (RunView { skipped: s.skipped.push(anime_entry(a, m)), ..s }, AutomationRunAction::NextAnime),
                None => (RunView { phase: PhaseView::AnimeData(a), ..s }, AutomationRunAction::LoadAnimeData),
            }
        },
        (PhaseView::NextAnime, AutomationRunEvent::NoMoreAnime) =>
            (RunView { phase: PhaseView::Finished, ..s }, AutomationRunAction::Finish),
        (PhaseView::AnimeData(a), AutomationRunEvent::AnimeFailed { message }) =>
            (RunView { phase: PhaseView::NextAnime, errors: s.errors.push(anime_entry(a, message@)), ..s }, AutomationRunAction::NextAnime),
        (PhaseView::AnimeData(a), AutomationRunEvent::EpisodesListed { actionable }) => if actionable == 0 {
            (RunView {
                phase: PhaseView::NextAnime,
                skipped: s.skipped.push(anime_entry(a, "没有需要自动处理的单集"@)),
                ..s
            }, AutomationRunAction::NextAnime)
        } else {
            (RunView { phase: PhaseView::NextEpisode(a), ..s }, AutomationRunAction::NextEpisode)
        },
        (PhaseView::NextEpisode(a), AutomationRunEvent::EpisodeAvailable { episode_id, episode_no, near_numbers }) => {
            let ep = EpisodeView { episode_id: episode_id@, episode_no };
            if already_downloaded(s.known_downloads, a.anime_id, episode_id@, near_numbers@) {
                (RunView {
                    phase: PhaseView::NextEpisode(a),
                    checked_episodes: s.checked_episodes + 1,
                    skipped: s.skipped.push(episode_entry(a, ep, "已有下载任务"@)),
                    ..s
                }, AutomationRunAction::NextEpisode)
            } else {
                (RunView {
                    phase: PhaseView::EpisodeScan(a, ep),
                    checked_episodes: s.checked_episodes + 1,
                    ..s
                }, AutomationRunAction::ScanEpisode)
            }
        },
        (PhaseView::NextEpisode(a), AutomationRunEvent::NoMoreEpisodes) =>
            (RunView { phase: PhaseView::NextAnime, ..s }, AutomationRunAction::NextAnime),
        (PhaseView::EpisodeScan(a, ep), AutomationRunEvent::EpisodeDownloaded { task_id, release_id, release_title }) => (RunView {
            phase: PhaseView::NextEpisode(a),
            known_downloads: s.known_downloads.push(RefView {
                anime_id: Some(a.anime_id),
                episode_id: Some(ep.episode_id),
                episode_no: Some(ep.episode_no),
            }),
            downloaded: s.downloaded.push(DownloadView {
                anime_id: a.anime_id,
                anime_title: a.anime_title,
                episode_id: ep.episode_id,
                episode_no: ep.episode_no,
                release_id: release_id@,
                release_title: release_title@,
                task_id: task_id@,
            }),
            ..s
        }, AutomationRunAction::NextEpisode),
        (PhaseView::EpisodeScan(a, ep), AutomationRunEvent::EpisodeSkipped { reason }) => (RunView {
            phase: PhaseView::NextEpisode(a),
            skipped: s.skipped.push(episode_entry(a, ep, reason@)),
            ..s
        }, AutomationRunAction::NextEpisode),
        (PhaseView::EpisodeScan(a, ep), AutomationRunEvent::EpisodeFailed { message }) => (RunView {
            phase: PhaseView::NextEpisode(a),
            errors: s.errors.push(episode_entry(a, ep, message@)),
            ..s
        }, AutomationRunAction::NextEpisode),
        _ => (s, AutomationRunAction::Ignore),
    }
}

/// Whether `prefix` is a prefix of `s`.
pub open spec fn is_prefix<A>(prefix: Seq<A>, s: Seq<A>) -> bool {
    prefix.len() <= s.len() && s.subrange(0, prefix.len() as int) == prefix
}

/// A run with automatic download disabled stops at its first step, with one skipped
/// entry that says so and nothing else recorded.
pub proof fn lemma_disabled_run_stops_with_one_skip(s: RunView, downloads: Vec<RunDownloadRef>)
    requires
        s.phase is Begin,
        s.skipped.len() == 0,
        s.errors.len() == 0,
        s.downloaded.len() == 0,
    ensures
        ({
            let (t, action) = automation_run_step_spec(s, AutomationRunEvent::Started { global_enabled: false, downloads });
            &&& action == AutomationRunAction::Finish
            &&& t.phase is Finished
            &&& t.skipped == seq![disabled_entry()]
            &&& t.errors.len() == 0
            &&& t.downloaded.len() == 0
            &&& t.checked_episodes == s.checked_episodes
        }),
{
    let (t, action) = automation_run_step_spec(s, AutomationRunEvent::Started { global_enabled: false, downloads });
    assert(t.skipped =~= seq![disabled_entry()]);
}

/// A step only adds to a run's result: what was recorded stays, at most one entry is
/// added to each list, and the count of checked episodes grows by at most one.
pub proof fn lemma_step_keeps_records(s: RunView, e: AutomationRunEvent)
    ensures
        ({
            let (t, action) = automation_run_step_spec(s, e);
            &&& is_prefix(s.skipped, t.skipped) && t.skipped.len() <= s.skipped.len() + 1
            &&& is_prefix(s.errors, t.errors) && t.errors.len() <= s.errors.len() + 1
            &&& is_prefix(s.downloaded, t.downloaded) && t.downloaded.len() <= s.downloaded.len() + 1
            &&& s.checked_episodes <= t.checked_episodes <= s.checked_episodes + 1
        }),
{
    let (t, action) = automation_run_step_spec(s, e);
    assert(t.skipped.subrange(0, s.skipped.len() as int) =~= s.skipped);
    assert(t.errors.subrange(0, s.errors.len() as int) =~= s.errors);
    assert(t.downloaded.subrange(0, s.downloaded.len() as int) =~= s.downloaded);
}

/// A failure is isolated: a failed anime is recorded as an error and the run asks for
/// the next anime; a failed episode is recorded as an error and the run asks for the
/// next episode of the same anime.
pub proof fn lemma_failure_moves_on(s: RunView, message: String)
    ensures
        s.phase matches PhaseView::AnimeData(a) ==> ({
            let (t, action) = automation_run_step_spec(s, AutomationRunEvent::AnimeFailed { message });
            &&& action == AutomationRunAction::NextAnime
            &&& t.phase is NextAnime
            &&& t.errors == s.errors.push(anime_entry(a, message@))
        }),
        s.phase matches PhaseView::EpisodeScan(a, ep) ==> ({
            let (t, action) = automation_run_step_spec(s, AutomationRunEvent::EpisodeFailed { message });
            &&& action == AutomationRunAction::NextEpisode
            &&& t.phase == PhaseView::NextEpisode(a)
            &&& t.errors == s.errors.push(episode_entry(a, ep, message@))
        }),
{
}

/// Each episode the host reports while the run asks for one counts as checked, and no
/// other event changes the count.
pub proof fn lemma_checked_counts_reported_episodes(s: RunView, e: AutomationRunEvent)
    ensures
        ({
            let (t, action) = automation_run_step_spec(s, e);
            t.checked_episodes == if s.phase is NextEpisode && e is EpisodeAvailable {
                s.checked_episodes + 1
            } else {
                s.checked_episodes
            }
        }),
{
}

/// An episode that a known download covers is skipped as already downloaded and is
/// not scanned; one that no known download covers is scanned.
pub proof fn lemma_known_download_skips_episode(s: RunView, episode_id: String, episode_no: ExactValue, near_numbers: Vec<bool>)
    ensures
        s.phase matches PhaseView::NextEpisode(a) ==> ({
            let (t, action) = automation_run_step_spec(
                s,
                AutomationRunEvent::EpisodeAvailable { episode_id, episode_no, near_numbers },
            );
            if already_downloaded(s.known_downloads, a.anime_id, episode_id@, near_numbers@) {
                &&& action == AutomationRunAction::NextEpisode
                &&& t.skipped == s.skipped.push(episode_entry(a, EpisodeView { episode_id: episode_id@, episode_no }, "已有下载任务"@))
            } else {
                &&& action == AutomationRunAction::ScanEpisode
                &&& t.skipped == s.skipped
            }
        }),
{
}

/// A downloaded episode becomes a known download: when the same episode is reported
/// again for the same anime, it is skipped, whatever the host says of the numbers.
pub proof fn lemma_downloaded_episode_is_known(
    s: RunView,
    task_id: String,
    release_id: String,
    release_title: String,
    near_numbers: Seq<bool>,
)
    ensures
        s.phase matches PhaseView::EpisodeScan(a, ep) ==> ({
            let (t, action) = automation_run_step_spec(
                s,
                AutomationRunEvent::EpisodeDownloaded { task_id, release_id, release_title },
            );
            &&& t.phase == PhaseView::NextEpisode(a)
            &&& already_downloaded(t.known_downloads, a.anime_id, ep.episode_id, near_numbers)
        }),
{
    if let PhaseView::EpisodeScan(a, ep) = s.phase {
        let (t, action) = automation_run_step_spec(
            s,
            AutomationRunEvent::EpisodeDownloaded { task_id, release_id, release_title },
        );
        let k = s.known_downloads.len() as int;
        assert(t.known_downloads[k].episode_id == Some(ep.episode_id));
        assert(ref_matches(t.known_downloads[k], a.anime_id, ep.episode_id, near_at(near_numbers, k)));
    }
}

impl AutomationRunState {
    /// A run that has not started: nothing checked, nothing recorded.
    pub fn new() -> (r: Self)
        ensures
            run_view(r) == (RunView {
                phase: PhaseView::Begin,
                checked_episodes: 0,
                known_downloads: Seq::empty(),
                downloaded: Seq::empty(),
                skipped: Seq::empty(),
                errors: Seq::empty(),
            }),
    {
        let r = AutomationRunState {
            phase: AutomationRunPhase::Begin,
            checked_episodes: 0,
            known_downloads: Vec::new(),
            downloaded: Vec::new(),
            skipped: Vec::new(),
            errors: Vec::new(),
        };
        proof {
            assert(run_view(r).known_downloads =~= Seq::empty());
            assert(run_view(r).downloaded =~= Seq::empty());
            assert(run_view(r).skipped =~= Seq::empty());
            assert(run_view(r).errors =~= Seq::empty());
        }
        r
    }
}

fn copy_anime(a: &RunAnime) -> (r: RunAnime)
    ensures
        anime_view(r) == anime_view(*a),
{
    RunAnime { anime_id: a.anime_id.clone(), anime_title: a.anime_title.clone() }
}

fn copy_episode(e: &RunEpisode) -> (r: RunEpisode)
    ensures
        episode_view(r) == episode_view(*e),
{
    RunEpisode { episode_id: e.episode_id.clone(), episode_no: e.episode_no }
}

fn same_text(a: &str, b: &str) -> (r: bool)
    ensures
        r == (a@ == b@),
{
    chars_eq(chars_of(a).as_slice(), chars_of(b).as_slice())
}

fn opt_is(o: &Option<String>, text: &str) -> (r: bool)
    ensures
        r == (opt_chars(*o) == Some(text@)),
{
    match o {
        Some(x) => same_text(x.as_str(), text),
        None => false,
    }
}

/// Whether a known download covers the episode (see `already_downloaded`).
fn covered_by_known(known: &Vec<RunDownloadRef>, anime_id: &str, episode_id: &str, near: &Vec<bool>) -> (r: bool)
    ensures
        r == already_downloaded(known@.map_values(|x: RunDownloadRef| ref_view(x)), anime_id@, episode_id@, near@),
{
    let ghost views = known@.map_values(|x: RunDownloadRef| ref_view(x));
    let mut k: usize = 0;
    while k < known.len()
        invariant
            k <= known@.len(),
            views == known@.map_values(|x: RunDownloadRef| ref_view(x)),
            forall|j: int| 0 <= j < k ==> !ref_matches(#[trigger] views[j], anime_id@, episode_id@, near_at(near@, j)),
        decreases known@.len() - k,
    {
        let r = &known[k];
        let near_k = k < near.len() && near[k];
        let hit = opt_is(&r.anime_id, anime_id) && (opt_is(&r.episode_id, episode_id) || (r.episode_no.is_some() && near_k));
        proof {
            assert(views[k as int] == ref_view(known@[k as int]));
        }
        if hit {
            assert(ref_matches(views[k as int], anime_id@, episode_id@, near_at(near@, k as int)));
            return true;
        }
        k = k + 1;
    }
    false
}

fn push_entry(entries: &mut Vec<RunEntry>, entry: RunEntry)
    ensures
        final(entries)@.map_values(|e: RunEntry| entry_view(e)) == old(entries)@.map_values(|e: RunEntry| entry_view(e)).push(
            entry_view(entry),
        ),
{
    entries.push(entry);
    proof {
        assert(entries@.map_values(|e: RunEntry| entry_view(e)) =~= old(entries)@.map_values(|e: RunEntry| entry_view(e)).push(
            entry_view(entry),
        ));
    }
}

/// Takes one step of a run (see `automation_run_step_spec`). The count of checked
/// episodes must have room for one more.
pub fn automation_run_step(state: &mut AutomationRunState, event: AutomationRunEvent) -> (action: AutomationRunAction)
    requires
        old(state).checked_episodes < u64::MAX,
    ensures
        (run_view(*final(state)), action) == automation_run_step_spec(run_view(*old(state)), event),
{
    let current: Option<(RunAnime, Option<RunEpisode>)> = match &state.phase {
        AutomationRunPhase::AnimeData(a) => Some((copy_anime(a), None)),
        AutomationRunPhase::NextEpisode(a) => Some((copy_anime(a), None)),
        AutomationRunPhase::EpisodeScan(a, e) => Some((copy_anime(a), Some(copy_episode(e)))),
        _ => None,
    };
    let begin = matches!(state.phase, AutomationRunPhase::Begin);
    let next_anime = matches!(state.phase, AutomationRunPhase::NextAnime);
    let anime_data = matches!(state.phase, AutomationRunPhase::AnimeData(_));
    let next_episode = matches!(state.phase, AutomationRunPhase::NextEpisode(_));
    let episode_scan = matches!(state.phase, AutomationRunPhase::EpisodeScan(_, _));
    match event {
        AutomationRunEvent::Started { global_enabled, downloads } => {
            if !begin {
                return AutomationRunAction::Ignore;
            }
            if global_enabled {
                state.phase = AutomationRunPhase::NextAnime;
                state.known_downloads = downloads;
                AutomationRunAction::NextAnime
            } else {
                state.phase = AutomationRunPhase::Finished;
                let empty = String::new();
                proof {
                    assert(empty@ =~= Seq::<char>::empty());
                }
                push_entry(&mut state.skipped, RunEntry {
                    anime_id: empty,
                    anime_title: String::from_str("全局自动下载"),
                    episode: None,
                    text: String::from_str("全局自动下载未开启"),
                });
                AutomationRunAction::Finish
            }
        },
        AutomationRunEvent::AnimeAvailable { anime_id, anime_title, restricted, status, auto_download } => {
            if !next_anime {
                return AutomationRunAction::Ignore;
            }
            match anime_skip_reason(restricted, status, auto_download) {
                Some(m) => {
                    push_entry(&mut state.skipped, RunEntry { anime_id, anime_title, episode: None, text: String::from_str(m) });
                    AutomationRunAction::NextAnime
                },
                None => {
                    state.phase = AutomationRunPhase::AnimeData(RunAnime { anime_id, anime_title });
                    AutomationRunAction::LoadAnimeData
                },
            }
        },
        AutomationRunEvent::NoMoreAnime => {
            if !next_anime {
                return AutomationRunAction::Ignore;
            }
            state.phase = AutomationRunPhase::Finished;
            AutomationRunAction::Finish
        },
        AutomationRunEvent::AnimeFailed { message } => {
            if !anime_data {
                return AutomationRunAction::Ignore;
            }
            match current {
                Some((a, _)) => {
                    state.phase = AutomationRunPhase::NextAnime;
                    push_entry(&mut state.errors, RunEntry { anime_id: a.anime_id, anime_title: a.anime_title, episode: None, text: message });
                    AutomationRunAction::NextAnime
                },
                None => AutomationRunAction::Ignore,
            }
        },
        AutomationRunEvent::EpisodesListed { actionable } => {
            if !anime_data {
                return AutomationRunAction::Ignore;
            }
            match current {
                Some((a, _)) => if actionable == 0 {
                    state.phase = AutomationRunPhase::NextAnime;
                    push_entry(&mut state.skipped, RunEntry {
                        anime_id: a.anime_id,
                        anime_title: a.anime_title,
                        episode: None,
                        text: String::from_str("没有需要自动处理的单集"),
                    });
                    AutomationRunAction::NextAnime
                } else {
                    state.phase = AutomationRunPhase::NextEpisode(a);
                    AutomationRunAction::NextEpisode
                },
                None => AutomationRunAction::Ignore,
            }
        },
        AutomationRunEvent::EpisodeAvailable { episode_id, episode_no, near_numbers } => {
            if !next_episode {
                return AutomationRunAction::Ignore;
            }
            match current {
                Some((a, _)) => {
                    state.checked_episodes = state.checked_episodes + 1;
                    let covered = covered_by_known(&state.known_downloads, a.anime_id.as_str(), episode_id.as_str(), &near_numbers);
                    if covered {
                        let entry = RunEntry {
                            anime_id: a.anime_id.clone(),
                            anime_title: a.anime_title.clone(),
                            episode: Some(RunEpisode { episode_id, episode_no }),
                            text: String::from_str("已有下载任务"),
                        };
                        state.phase = AutomationRunPhase::NextEpisode(a);
                        push_entry(&mut state.skipped, entry);
                        AutomationRunAction::NextEpisode
                    } else {
                        state.phase = AutomationRunPhase::EpisodeScan(a, RunEpisode { episode_id, episode_no });
                        AutomationRunAction::ScanEpisode
                    }
                },
                None => AutomationRunAction::Ignore,
            }
        },
        AutomationRunEvent::NoMoreEpisodes => {
            if !next_episode {
                return AutomationRunAction::Ignore;
            }
            state.phase = AutomationRunPhase::NextAnime;
            AutomationRunAction::NextAnime
        },
        AutomationRunEvent::EpisodeDownloaded { task_id, release_id, release_title } => {
            if !episode_scan {
                return AutomationRunAction::Ignore;
            }
            match current {
                Some((a, Some(ep))) => {
                    let known = RunDownloadRef {
                        anime_id: Some(a.anime_id.clone()),
                        episode_id: Some(ep.episode_id.clone()),
                        episode_no: Some(ep.episode_no),
                    };
                    let d = RunDownload {
                        anime_id: a.anime_id.clone(),
                        anime_title: a.anime_title.clone(),
                        episode_id: ep.episode_id,
                        episode_no: ep.episode_no,
                        release_id,
                        release_title,
                        task_id,
                    };
                    state.phase = AutomationRunPhase::NextEpisode(a);
                    let ghost known_before = state.known_downloads@;
                    state.known_downloads.push(known);
                    proof {
                        assert(state.known_downloads@.map_values(|x: RunDownloadRef| ref_view(x)) =~= known_before.map_values(
                            |x: RunDownloadRef| ref_view(x),
                        ).push(ref_view(known)));
                    }
                    let ghost before = state.downloaded@;
                    state.downloaded.push(d);
                    proof {
                        assert(state.downloaded@.map_values(|x: RunDownload| download_view(x)) =~= before.map_values(
                            |x: RunDownload| download_view(x),
                        ).push(download_view(d)));
                    }
                    AutomationRunAction::NextEpisode
                },
                _ => AutomationRunAction::Ignore,
            }
        },
        AutomationRunEvent::EpisodeSkipped { reason } => {
            if !episode_scan {
                return AutomationRunAction::Ignore;
            }
            match current {
                Some((a, Some(ep))) => {
                    let entry = RunEntry { anime_id: a.anime_id.clone(), anime_title: a.anime_title.clone(), episode: Some(ep), text: reason };
                    state.phase = AutomationRunPhase::NextEpisode(a);
                    push_entry(&mut state.skipped, entry);
                    AutomationRunAction::NextEpisode
                },
                _ => AutomationRunAction::Ignore,
            }
        },
        AutomationRunEvent::EpisodeFailed { message } => {
            if !episode_scan {
                return AutomationRunAction::Ignore;
            }
            match current {
                Some((a, Some(ep))) => {
                    let entry = RunEntry { anime_id: a.anime_id.clone(), anime_title: a.anime_title.clone(), episode: Some(ep), text: message };
                    state.phase = AutomationRunPhase::NextEpisode(a);
                    push_entry(&mut state.errors, entry);
                    AutomationRunAction::NextEpisode
                },
                _ => AutomationRunAction::Ignore,
            }
        },
    }
}

} // verus!
