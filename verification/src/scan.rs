//! The rules of the automatic episode scan: which episodes are due, whether a followed
//! series asks for subtitles, what a release title says about them, and the
//! notifications a run leaves.

use vstd::prelude::*;
use crate::domain::{EpisodeStatus, NotificationKind, NotificationRecord, NotificationSeverity};
use crate::text::{
    append_chars, append_str, decimal, format_decimal, string_of,
    ascii_lower, chars_eq, chars_of, contains, contains_seq, eq_str, is_ascii_alnum, ascii_alnum,
    to_ascii_lower, unicode_lowercase, to_lowercase,
};

verus! {

/// The receipt of a download that the automatic scan started.
#[derive(Debug, Clone, PartialEq, Eq)]
pub struct AutomaticDownloadReceipt {
    pub task_id: String,
}

/// A subtitle language the scan understands.
pub open spec fn is_language_code(v: Seq<char>) -> bool {
    v == "chs"@ || v == "cht"@ || v == "jpn"@ || v == "eng"@
}

/// Whether a series' settings ask for subtitles: a known language among the preferred
/// ones, or a known legacy preference.
pub open spec fn has_subtitle_requirement_spec(languages: Seq<Seq<char>>, legacy: Option<Seq<char>>) -> bool {
    (exists|i: int| 0 <= i < languages.len() && is_language_code(#[trigger] languages[i])) || (legacy matches Some(l)
        && (is_language_code(l) || l == "multi"@))
}

fn language_code(v: &[char]) -> (r: bool)
    ensures
        r == is_language_code(v@),
{
    eq_str(v, "chs") || eq_str(v, "cht") || eq_str(v, "jpn") || eq_str(v, "eng")
}

/// Decides whether a series' settings ask for subtitles.
pub fn has_subtitle_requirement(preferred_languages: &[String], legacy_preference: Option<&str>) -> (r: bool)
    ensures
        r == has_subtitle_requirement_spec(
            preferred_languages@.map_values(|s: String| s@),
            crate::discovery::opt_view(legacy_preference),
        ),
{
    let ghost views = preferred_languages@.map_values(|s: String| s@);
    let mut i: usize = 0;
    while i < preferred_languages.len()
        invariant
            i <= preferred_languages@.len(),
            views == preferred_languages@.map_values(|s: String| s@),
            forall|k: int| 0 <= k < i ==> !is_language_code(#[trigger] views[k]),
        decreases preferred_languages@.len() - i,
    {
        let v = chars_of(preferred_languages[i].as_str());
        if language_code(v.as_slice()) {
            assert(is_language_code(views[i as int]));
            return true;
        }
        i = i + 1;
    }
    match legacy_preference {
        Some(l) => {
            let v = chars_of(l);
            language_code(v.as_slice()) || eq_str(v.as_slice(), "multi")
        },
        None => false,
    }
}

/// The title markers that say a release has no subtitles.
pub open spec fn no_subtitle_markers() -> Seq<Seq<char>> {
    seq!["无中字"@, "無中字"@, "无字幕"@, "無字幕"@, "无中文"@, "無中文"@]
}

/// The English markers, matched in the lowercased title.
pub open spec fn no_subtitle_phrases() -> Seq<Seq<char>> {
    seq!["no sub"@, "no subs"@, "no subtitle"@, "no subtitles"@]
}

/// Whether a title says outright that a release has no subtitles, or no Chinese.
pub open spec fn title_declares_no_subtitles_spec(title: Seq<char>) -> bool {
    (exists|i: int| 0 <= i < 6 && contains_seq(title, #[trigger] no_subtitle_markers()[i])) || (exists|i: int|
        0 <= i < 4 && contains_seq(unicode_lowercase(title), #[trigger] no_subtitle_phrases()[i]))
}

/// Recognises the negative subtitle markers of a release title.
pub fn title_declares_no_subtitles(title: &str) -> (r: bool)
    ensures
        r == title_declares_no_subtitles_spec(title@),
{
    let t = chars_of(title);
    let lower_text = to_lowercase(title);
    let lower = chars_of(lower_text.as_str());
    let markers: [&str; 6] = ["无中字", "無中字", "无字幕", "無字幕", "无中文", "無中文"];
    let phrases: [&str; 4] = ["no sub", "no subs", "no subtitle", "no subtitles"];
    assert(markers@.map_values(|m: &str| m@) =~= no_subtitle_markers());
    assert(phrases@.map_values(|m: &str| m@) =~= no_subtitle_phrases());
    let mut i: usize = 0;
    while i < 6
        invariant
            i <= 6,
            t@ == title@,
            markers@.map_values(|m: &str| m@) == no_subtitle_markers(),
            forall|k: int| 0 <= k < i ==> !contains_seq(title@, #[trigger] no_subtitle_markers()[k]),
        decreases 6 - i,
    {
        let m = chars_of(markers[i]);
        assert(m@ == no_subtitle_markers()[i as int]);
        if contains(t.as_slice(), m.as_slice()) {
            return true;
        }
        i = i + 1;
    }
    let mut j: usize = 0;
    while j < 4
        invariant
            j <= 4,
            lower@ == unicode_lowercase(title@),
            phrases@.map_values(|m: &str| m@) == no_subtitle_phrases(),
            forall|k: int| 0 <= k < 6 ==> !contains_seq(title@, #[trigger] no_subtitle_markers()[k]),
            forall|k: int|
                0 <= k < j ==> !contains_seq(unicode_lowercase(title@), #[trigger] no_subtitle_phrases()[k]),
        decreases 4 - j,
    {
        let m = chars_of(phrases[j]);
        assert(m@ == no_subtitle_phrases()[j as int]);
        if contains(lower.as_slice(), m.as_slice()) {
            return true;
        }
        j = j + 1;
    }
    false
}

/// Splits `s` at every character that is not an ASCII letter or digit.
pub open spec fn split_non_alnum(s: Seq<char>) -> Seq<Seq<char>>
    decreases s.len(),
{
    if s.len() == 0 {
        seq![Seq::<char>::empty()]
    } else {
        let parts = split_non_alnum(s.drop_last());
        if !is_ascii_alnum(s.last()) {
            parts.push(Seq::<char>::empty())
        } else {
            parts.update(parts.len() - 1, parts.last().push(s.last()))
        }
    }
}

proof fn lemma_split_non_alnum_nonempty(s: Seq<char>)
    ensures
        split_non_alnum(s).len() >= 1,
    decreases s.len(),
{
    if s.len() > 0 {
        lemma_split_non_alnum_nonempty(s.drop_last());
    }
}

/// Whether some token of the title, split at non-alphanumeric characters, equals
/// `expected` ignoring ASCII case.
pub open spec fn has_title_token(title: Seq<char>, expected: Seq<char>) -> bool {
    exists|k: int|
        0 <= k < split_non_alnum(title).len() && ascii_lower(#[trigger] split_non_alnum(title)[k])
            == ascii_lower(expected)
}

fn split_tokens(s: &[char]) -> (parts: Vec<Vec<char>>)
    ensures
        parts@.len() == split_non_alnum(s@).len(),
        forall|k: int| 0 <= k < parts@.len() ==> #[trigger] parts@[k]@ == split_non_alnum(s@)[k],
{
    let mut parts: Vec<Vec<char>> = Vec::new();
    let mut current: Vec<char> = Vec::new();
    let mut i: usize = 0;
    while i < s.len()
        invariant
            i <= s@.len(),
            parts@.len() + 1 == split_non_alnum(s@.subrange(0, i as int)).len(),
            forall|k: int|
                0 <= k < parts@.len() ==> #[trigger] parts@[k]@ == split_non_alnum(
                    s@.subrange(0, i as int),
                )[k],
            current@ == split_non_alnum(s@.subrange(0, i as int)).last(),
        decreases s@.len() - i,
    {
        proof {
            lemma_split_non_alnum_nonempty(s@.subrange(0, i as int));
            assert(s@.subrange(0, i + 1).drop_last() =~= s@.subrange(0, i as int));
        }
        if !ascii_alnum(s[i]) {
            let done = current;
            parts.push(done);
            current = Vec::new();
        } else {
            current.push(s[i]);
        }
        i = i + 1;
    }
    assert(s@.subrange(0, s@.len() as int) =~= s@);
    parts.push(current);
    parts
}

/// Matches an ASCII marker as a whole token of the title, so that a fansub group's name
/// does not count as a subtitle track.
pub fn contains_ascii_title_token(title: &str, expected: &str) -> (r: bool)
    ensures
        r == has_title_token(title@, expected@),
{
    let t = chars_of(title);
    let want = to_ascii_lower(chars_of(expected).as_slice());
    let parts = split_tokens(t.as_slice());
    let ghost sp = split_non_alnum(title@);
    let mut i: usize = 0;
    while i < parts.len()
        invariant
            i <= parts@.len(),
            parts@.len() == sp.len(),
            sp == split_non_alnum(title@),
            forall|k: int| 0 <= k < parts@.len() ==> #[trigger] parts@[k]@ == sp[k],
            want@ == ascii_lower(expected@),
            forall|k: int| 0 <= k < i ==> ascii_lower(#[trigger] sp[k]) != want@,
        decreases parts@.len() - i,
    {
        let lowered = to_ascii_lower(parts[i].as_slice());
        if chars_eq(lowered.as_slice(), want.as_slice()) {
            assert(ascii_lower(sp[i as int]) == ascii_lower(expected@));
            return true;
        }
        i = i + 1;
    }
    false
}

/// The ASCII markers of a subtitle track.
pub open spec fn track_tokens() -> Seq<Seq<char>> {
    seq!["ass"@, "ssa"@, "srt"@, "vtt"@, "pgs"@, "sub"@, "subs"@, "subtitle"@, "subtitles"@]
}

/// The CJK markers of subtitle tracks.
pub open spec fn track_markers() -> Seq<Seq<char>> {
    seq!["字幕"@, "内封"@, "內封"@, "内嵌"@, "內嵌"@]
}

/// Whether a title shows a subtitle track: a CJK marker anywhere, or an ASCII format
/// marker as a whole token.
pub open spec fn track_evidence_spec(title: Seq<char>) -> bool {
    (exists|i: int| 0 <= i < 5 && contains_seq(title, #[trigger] track_markers()[i])) || (exists|i: int|
        0 <= i < 9 && has_title_token(title, #[trigger] track_tokens()[i]))
}

/// Recognises subtitle track formats or embedded-subtitle markers in a title; the
/// language is confirmed elsewhere.
pub fn title_has_subtitle_track_evidence(title: &str) -> (r: bool)
    ensures
        r == track_evidence_spec(title@),
{
    let t = chars_of(title);
    let markers: [&str; 5] = ["字幕", "内封", "內封", "内嵌", "內嵌"];
    let tokens: [&str; 9] = ["ass", "ssa", "srt", "vtt", "pgs", "sub", "subs", "subtitle", "subtitles"];
    assert(markers@.map_values(|m: &str| m@) =~= track_markers());
    assert(tokens@.map_values(|m: &str| m@) =~= track_tokens());
    let mut i: usize = 0;
    while i < 5
        invariant
            i <= 5,
            t@ == title@,
            markers@.map_values(|m: &str| m@) == track_markers(),
            forall|k: int| 0 <= k < i ==> !contains_seq(title@, #[trigger] track_markers()[k]),
        decreases 5 - i,
    {
        let m = chars_of(markers[i]);
        assert(m@ == track_markers()[i as int]);
        if contains(t.as_slice(), m.as_slice()) {
            return true;
        }
        i = i + 1;
    }
    let mut j: usize = 0;
    while j < 9
        invariant
            j <= 9,
            tokens@.map_values(|m: &str| m@) == track_tokens(),
            forall|k: int| 0 <= k < 5 ==> !contains_seq(title@, #[trigger] track_markers()[k]),
            forall|k: int| 0 <= k < j ==> !has_title_token(title@, #[trigger] track_tokens()[k]),
        decreases 9 - j,
    {
        assert(tokens@[j as int]@ == track_tokens()[j as int]);
        if contains_ascii_title_token(title, tokens[j]) {
            return true;
        }
        j = j + 1;
    }
    false
}


/// A download an automatic run started, with its episode number already written.
#[derive(Debug, Clone)]
pub struct DownloadedNote {
    pub anime_id: String,
    pub anime_title: String,
    pub episode_id: String,
    pub episode_label: String,
    pub release_title: String,
    pub download_task_id: String,
}

/// A failure of an automatic run, with its episode number already written if it has one.
#[derive(Debug, Clone)]
pub struct ErrorNote {
    pub anime_id: Option<String>,
    pub anime_title: Option<String>,
    pub episode_id: Option<String>,
    pub episode_label: Option<String>,
    pub message: String,
}

/// What the notifications of an automatic run are made of.
#[derive(Debug, Clone)]
pub struct RunSummary {
    pub finished_at: String,
    pub checked_episodes: usize,
    pub downloaded: Vec<DownloadedNote>,
    pub errors: Vec<ErrorNote>,
}

/// An optional text as an optional sequence.
pub open spec fn opt_text(o: Option<String>) -> Option<Seq<char>> {
    match o {
        Some(s) => Some(s@),
        None => None,
    }
}

/// The notification of a download started by a run that finished at `at`.
pub open spec fn download_notice(r: NotificationRecord, d: DownloadedNote, at: Seq<char>) -> bool {
    &&& r.id@ == "notification-"@ + at + "-"@ + d.download_task_id@
    &&& r.kind == NotificationKind::Automation
    &&& r.title@ == "已添加下载："@ + d.anime_title@
    &&& r.body@ == "第 "@ + d.episode_label@ + " 集已匹配资源「"@ + d.release_title@ + "」。"@
    &&& r.severity == NotificationSeverity::Success
    &&& opt_text(r.anime_id) == Some(d.anime_id@)
    &&& opt_text(r.episode_id) == Some(d.episode_id@)
    &&& opt_text(r.download_task_id) == Some(d.download_task_id@)
    &&& r.created_at@ == at
    &&& r.read_at is None
}

/// What names the `index`-th failure in its notification's id: its episode, else its
/// anime, else its position.
pub open spec fn error_subject(e: ErrorNote, index: nat) -> Seq<char> {
    match e.episode_id {
        Some(id) => id@,
        None => match e.anime_id {
            Some(id) => id@,
            None => decimal(index),
        },
    }
}

/// The notification of the `index`-th failure of a run that finished at `at`.
pub open spec fn error_notice(r: NotificationRecord, e: ErrorNote, index: nat, at: Seq<char>) -> bool {
    &&& r.id@ == "notification-"@ + at + "-error-"@ + error_subject(e, index)
    &&& r.kind == NotificationKind::Automation
    &&& r.title@ == match e.anime_title {
        Some(t) => "扫描失败："@ + t@,
        None => "自动扫描失败"@,
    }
    &&& r.body@ == match e.episode_label {
        Some(l) => "第 "@ + l@ + " 集："@ + e.message@,
        None => e.message@,
    }
    &&& r.severity == NotificationSeverity::Error
    &&& opt_text(r.anime_id) == opt_text(e.anime_id)
    &&& opt_text(r.episode_id) == opt_text(e.episode_id)
    &&& r.download_task_id is None
    &&& r.created_at@ == at
    &&& r.read_at is None
}

/// The notification that a run checked `checked` episodes and started nothing.
pub open spec fn summary_notice(r: NotificationRecord, checked: nat, at: Seq<char>) -> bool {
    &&& r.id@ == "notification-"@ + at + "-summary"@
    &&& r.kind == NotificationKind::Automation
    &&& r.title@ == "自动扫描完成"@
    &&& r.body@ == "已检查 "@ + decimal(checked) + " 集，没有新增下载任务。"@
    &&& r.severity == NotificationSeverity::Info
    &&& r.anime_id is None
    &&& r.episode_id is None
    &&& r.download_task_id is None
    &&& r.created_at@ == at
    &&& r.read_at is None
}

fn text_of(parts: &[&str]) -> (r: String)
    ensures
        r@ == parts@.fold_left(Seq::<char>::empty(), |acc: Seq<char>, p: &str| acc + p@),
{
    let mut v: Vec<char> = Vec::new();
    let mut i: usize = 0;
    while i < parts.len()
        invariant
            i <= parts@.len(),
            v@ == parts@.subrange(0, i as int).fold_left(Seq::<char>::empty(), |acc: Seq<char>, p: &str| acc + p@),
        decreases parts@.len() - i,
    {
        proof {
            let sub = parts@.subrange(0, i + 1);
            assert(sub.drop_last() =~= parts@.subrange(0, i as int));
        }
        append_str(&mut v, parts[i]);
        i = i + 1;
    }
    assert(parts@.subrange(0, parts@.len() as int) =~= parts@);
    string_of(v.as_slice())
}

fn download_record(d: &DownloadedNote, at: &String) -> (r: NotificationRecord)
    ensures
        download_notice(r, *d, at@),
{
    let id = text_of(&["notification-", at.as_str(), "-", d.download_task_id.as_str()]);
    let title = text_of(&["已添加下载：", d.anime_title.as_str()]);
    let body = text_of(&["第 ", d.episode_label.as_str(), " 集已匹配资源「", d.release_title.as_str(), "」。"]);
    proof {
        reveal_with_fuel(Seq::fold_left, 6);
    }
    NotificationRecord {
        id,
        kind: NotificationKind::Automation,
        title,
        body,
        severity: NotificationSeverity::Success,
        anime_id: Some(d.anime_id.clone()),
        episode_id: Some(d.episode_id.clone()),
        download_task_id: Some(d.download_task_id.clone()),
        created_at: at.clone(),
        read_at: None,
    }
}

fn clone_opt(o: &Option<String>) -> (r: Option<String>)
    ensures
        opt_text(r) == opt_text(*o),
{
    match o {
        Some(s) => Some(s.clone()),
        None => None,
    }
}

fn error_record(e: &ErrorNote, index: usize, at: &String) -> (r: NotificationRecord)
    ensures
        error_notice(r, *e, index as nat, at@),
{
    let position = string_of(format_decimal(index as u64).as_slice());
    let subject: &str = match &e.episode_id {
        Some(id) => id.as_str(),
        None => match &e.anime_id {
            Some(id) => id.as_str(),
            None => position.as_str(),
        },
    };
    let id = text_of(&["notification-", at.as_str(), "-error-", subject]);
    let title = match &e.anime_title {
        Some(t) => text_of(&["扫描失败：", t.as_str()]),
        None => String::from_str("自动扫描失败"),
    };
    let body = match &e.episode_label {
        Some(l) => text_of(&["第 ", l.as_str(), " 集：", e.message.as_str()]),
        None => e.message.clone(),
    };
    proof {
        reveal_with_fuel(Seq::fold_left, 5);
    }
    NotificationRecord {
        id,
        kind: NotificationKind::Automation,
        title,
        body,
        severity: NotificationSeverity::Error,
        anime_id: clone_opt(&e.anime_id),
        episode_id: clone_opt(&e.episode_id),
        download_task_id: None,
        created_at: at.clone(),
        read_at: None,
    }
}

fn summary_record(checked: usize, at: &String) -> (r: NotificationRecord)
    ensures
        summary_notice(r, checked as nat, at@),
{
    let count = string_of(format_decimal(checked as u64).as_slice());
    let id = text_of(&["notification-", at.as_str(), "-summary"]);
    let body = text_of(&["已检查 ", count.as_str(), " 集，没有新增下载任务。"]);
    proof {
        reveal_with_fuel(Seq::fold_left, 4);
    }
    NotificationRecord {
        id,
        kind: NotificationKind::Automation,
        title: String::from_str("自动扫描完成"),
        body,
        severity: NotificationSeverity::Info,
        anime_id: None,
        episode_id: None,
        download_task_id: None,
        created_at: at.clone(),
        read_at: None,
    }
}

/// The notifications of an automatic run: one per download started, then one per
/// failure, and a summary when there is neither but episodes were checked.
pub fn build_automation_notifications(result: &RunSummary) -> (r: Vec<NotificationRecord>)
    ensures
        ({
            let d = result.downloaded@.len();
            let e = result.errors@.len();
            let summary = d == 0 && e == 0 && result.checked_episodes > 0;
            &&& r@.len() == d + e + if summary { 1int } else { 0int }
            &&& forall|i: int| 0 <= i < d ==> download_notice(#[trigger] r@[i], result.downloaded@[i], result.finished_at@)
            &&& forall|j: int| 0 <= j < e ==> error_notice(#[trigger] r@[d + j], result.errors@[j], j as nat, result.finished_at@)
            &&& summary ==> summary_notice(r@[0], result.checked_episodes as nat, result.finished_at@)
        }),
{
    let mut records: Vec<NotificationRecord> = Vec::new();
    let mut i: usize = 0;
    while i < result.downloaded.len()
        invariant
            i <= result.downloaded@.len(),
            records@.len() == i,
            forall|k: int| 0 <= k < i ==> download_notice(#[trigger] records@[k], result.downloaded@[k], result.finished_at@),
        decreases result.downloaded@.len() - i,
    {
        records.push(download_record(&result.downloaded[i], &result.finished_at));
        i = i + 1;
    }
    let d = records.len();
    let mut j: usize = 0;
    while j < result.errors.len()
        invariant
            d == result.downloaded@.len(),
            j <= result.errors@.len(),
            records@.len() == d + j,
            forall|k: int| 0 <= k < d ==> download_notice(#[trigger] records@[k], result.downloaded@[k], result.finished_at@),
            forall|k: int| 0 <= k < j ==> error_notice(#[trigger] records@[d + k], result.errors@[k], k as nat, result.finished_at@),
        decreases result.errors@.len() - j,
    {
        records.push(error_record(&result.errors[j], j, &result.finished_at));
        assert(records@[d + j as int] == records@.last());
        j = j + 1;
    }
    if records.len() == 0 && result.checked_episodes > 0 {
        records.push(summary_record(result.checked_episodes, &result.finished_at));
    }
    records
}

/// Whether an episode is due for the automatic scan: an aired or matched episode, or
/// an upcoming one whose air time has come. `now` and the parsed air time are instants
/// as seconds and nanoseconds since the Unix epoch.
pub open spec fn actionable_spec(status: EpisodeStatus, air_time: Option<(i64, u32)>, now: (i64, u32)) -> bool {
    match status {
        EpisodeStatus::Aired => true,
        EpisodeStatus::Matched => true,
        EpisodeStatus::Upcoming => air_time matches Some(t) && (t.0 < now.0 || (t.0 == now.0 && t.1 <= now.1)),
        _ => false,
    }
}

/// The instant an RFC 3339 text names, as `chrono::DateTime::parse_from_rfc3339` reads
/// it, in seconds and nanoseconds since the Unix epoch; `None` if it does not parse.
pub uninterp spec fn rfc3339_instant(text: Seq<char>) -> Option<(i64, u32)>;

/// `chrono::DateTime::parse_from_rfc3339`, then `timestamp` and
/// `timestamp_subsec_nanos`. The contract claims only that the outcome is the one
/// `rfc3339_instant` names.
#[verifier::external_body]
pub(crate) fn parse_rfc3339_instant(text: &str) -> (r: Option<(i64, u32)>)
    ensures
        r == rfc3339_instant(text@),
{
    match chrono::DateTime::parse_from_rfc3339(text) {
        Ok(time) => Some((time.timestamp(), time.timestamp_subsec_nanos())),
        Err(_) => None,
    }
}

/// Whether an episode is due for the automatic scan at `now`.
pub fn is_actionable_episode(status: EpisodeStatus, air_time: Option<&str>, now: (i64, u32)) -> (r: bool)
    ensures
        r == actionable_spec(status, match air_time {
            Some(t) => rfc3339_instant(t@),
            None => None,
        }, now),
{
    match status {
        EpisodeStatus::Aired => true,
        EpisodeStatus::Matched => true,
        EpisodeStatus::Upcoming => match air_time {
            Some(t) => match parse_rfc3339_instant(t) {
                Some(instant) => instant.0 < now.0 || (instant.0 == now.0 && instant.1 <= now.1),
                None => false,
            },
            None => false,
        },
        _ => false,
    }
}


/// A series asks for subtitles whenever one of its preferred languages is Simplified
/// or Traditional Chinese, Japanese or English (`chs`, `cht`, `jpn`, `eng`), or its
/// legacy preference is one of those or `multi`; with none of these, it does not.
pub proof fn lemma_known_languages_require_subtitles(languages: Seq<Seq<char>>, legacy: Option<Seq<char>>)
    ensures
        (exists|i: int| 0 <= i < languages.len() && (#[trigger] languages[i] == "chs"@ || languages[i] == "cht"@
            || languages[i] == "jpn"@ || languages[i] == "eng"@)) ==> has_subtitle_requirement_spec(languages, legacy),
        (legacy matches Some(l) && (l == "chs"@ || l == "cht"@ || l == "jpn"@ || l == "eng"@ || l == "multi"@))
            ==> has_subtitle_requirement_spec(languages, legacy),
        has_subtitle_requirement_spec(languages, legacy) ==> ((exists|i: int| 0 <= i < languages.len()
            && (#[trigger] languages[i] == "chs"@ || languages[i] == "cht"@ || languages[i] == "jpn"@ || languages[i] == "eng"@))
            || (legacy matches Some(l) && (l == "chs"@ || l == "cht"@ || l == "jpn"@ || l == "eng"@ || l == "multi"@))),
{
    if exists|i: int| 0 <= i < languages.len() && (#[trigger] languages[i] == "chs"@ || languages[i] == "cht"@
        || languages[i] == "jpn"@ || languages[i] == "eng"@) {
        let i = choose|i: int| 0 <= i < languages.len() && (#[trigger] languages[i] == "chs"@ || languages[i] == "cht"@
            || languages[i] == "jpn"@ || languages[i] == "eng"@);
        assert(is_language_code(languages[i]));
    }
    if has_subtitle_requirement_spec(languages, legacy) {
        if exists|i: int| 0 <= i < languages.len() && is_language_code(#[trigger] languages[i]) {
            let i = choose|i: int| 0 <= i < languages.len() && is_language_code(#[trigger] languages[i]);
            assert(languages[i] == "chs"@ || languages[i] == "cht"@ || languages[i] == "jpn"@ || languages[i] == "eng"@);
        }
    }
}

} // verus!
