//! Input rules of the download task service, and how a task reported by an engine is
//! matched with a stored one.

use vstd::prelude::*;
use crate::domain::{DownloadStatus, TorrentEngineKind};
use crate::player::ExactValue;
use crate::text::{
    append_chars, ascii_lower, chars_of, decimal, format_decimal, has_prefix, starts_with, string_of,
    to_ascii_lower, trim, trim_chars,
};

verus! {

/// A refused download request: the field at fault and why.
#[derive(Debug, Clone, PartialEq, Eq)]
pub struct DownloadInputError {
    pub field: String,
    pub message: String,
}

fn invalid(field: &str, message: &str) -> (r: DownloadInputError)
    ensures
        r.field@ == field@,
        r.message@ == message@,
{
    DownloadInputError { field: String::from_str(field), message: String::from_str(message) }
}

/// Some index is negative.
pub open spec fn has_negative(s: Seq<i64>) -> bool {
    exists|i: int| 0 <= i < s.len() && s[i] < 0
}

/// The first problem of a file priority request, if any.
pub open spec fn file_priority_problem(indexes: Seq<i64>, priority: i64) -> Option<(Seq<char>, Seq<char>)> {
    if indexes.len() == 0 {
        Some(("fileIndexes"@, "至少选择一个文件"@))
    } else if has_negative(indexes) {
        Some(("fileIndexes"@, "文件索引不能为负数"@))
    } else if !(0 <= priority <= 7) {
        Some(("priority"@, "文件优先级必须在 0 到 7 之间"@))
    } else {
        None
    }
}

/// Checks a file priority request: at least one file, no negative index, and a
/// priority from 0 to 7.
pub fn validate_file_priority(file_indexes: &[i64], priority: i64) -> (r: Result<(), DownloadInputError>)
    ensures
        match r {
            Ok(()) => file_priority_problem(file_indexes@, priority) is None,
            Err(e) => file_priority_problem(file_indexes@, priority) == Some((e.field@, e.message@)),
        },
{
    if file_indexes.len() == 0 {
        return Err(invalid("fileIndexes", "至少选择一个文件"));
    }
    let mut i: usize = 0;
    while i < file_indexes.len()
        invariant
            i <= file_indexes@.len(),
            forall|k: int| 0 <= k < i ==> file_indexes@[k] >= 0,
        decreases file_indexes@.len() - i,
    {
        if file_indexes[i] < 0 {
            return Err(invalid("fileIndexes", "文件索引不能为负数"));
        }
        i = i + 1;
    }
    if !(0 <= priority && priority <= 7) {
        return Err(invalid("priority", "文件优先级必须在 0 到 7 之间"));
    }
    Ok(())
}

/// Where a download comes from.
#[derive(Debug, Clone, PartialEq, Eq)]
pub enum DownloadSource {
    Magnet(String),
    TorrentFile(String),
}

/// The problem of a download source, if any: a magnet link must start with
/// `magnet:?`, and a torrent file path must not be empty.
pub open spec fn source_problem(source: DownloadSource) -> Option<(Seq<char>, Seq<char>)> {
    match source {
        DownloadSource::Magnet(url) => if !has_prefix(ascii_lower(trim(url@)), "magnet:?"@) {
            Some(("url"@, "仅接受 magnet:? 磁链"@))
        } else {
            None
        },
        DownloadSource::TorrentFile(path) => if path@.len() == 0 {
            Some(("filePath"@, "torrent 文件路径不能为空"@))
        } else {
            None
        },
    }
}

/// The first problem of an add request, if any.
pub open spec fn add_request_problem(save_path: Seq<char>, source: DownloadSource, selected: Option<Seq<i64>>) -> Option<(Seq<char>, Seq<char>)> {
    if trim(save_path).len() == 0 {
        Some(("savePath"@, "下载保存路径不能为空"@))
    } else if source_problem(source) is Some {
        source_problem(source)
    } else if selected matches Some(s) && has_negative(s) {
        Some(("selectedFileIndexes"@, "文件索引不能为负数"@))
    } else {
        None
    }
}

/// Checks an add request: a save path, a magnet link or a torrent file path, and no
/// negative selected file index.
pub fn validate_add_request(save_path: &str, source: &DownloadSource, selected_file_indexes: Option<&[i64]>) -> (r: Result<(), DownloadInputError>)
    ensures
        match r {
            Ok(()) => add_request_problem(save_path@, *source, match selected_file_indexes {
                Some(s) => Some(s@),
                None => None,
            }) is None,
            Err(e) => add_request_problem(save_path@, *source, match selected_file_indexes {
                Some(s) => Some(s@),
                None => None,
            }) == Some((e.field@, e.message@)),
        },
{
    if trim_chars(chars_of(save_path).as_slice()).len() == 0 {
        return Err(invalid("savePath", "下载保存路径不能为空"));
    }
    match source {
        DownloadSource::Magnet(url) => {
            let lower = to_ascii_lower(trim_chars(chars_of(url.as_str()).as_slice()).as_slice());
            if !starts_with(lower.as_slice(), chars_of("magnet:?").as_slice()) {
                return Err(invalid("url", "仅接受 magnet:? 磁链"));
            }
        },
        DownloadSource::TorrentFile(path) => {
            if path.as_str().unicode_len() == 0 {
                return Err(invalid("filePath", "torrent 文件路径不能为空"));
            }
        },
    }
    match selected_file_indexes {
        Some(indexes) => {
            let mut i: usize = 0;
            while i < indexes.len()
                invariant
                    i <= indexes@.len(),
                    selected_file_indexes == Some(indexes),
                    trim(save_path@).len() > 0,
                    source_problem(*source) is None,
                    forall|k: int| 0 <= k < i ==> indexes@[k] >= 0,
                decreases indexes@.len() - i,
            {
                if indexes[i] < 0 {
                    proof {
                        let s = indexes@;
                        assert(0 <= i < s.len() && s[i as int] < 0);
                        assert(exists|k: int| 0 <= k < s.len() && s[k] < 0);
                        assert(has_negative(s));
                    }
                    return Err(invalid("selectedFileIndexes", "文件索引不能为负数"));
                }
                i = i + 1;
            }
        },
        None => {},
    }
    Ok(())
}


/// What identifies a download task across the store and its engine.
#[derive(Debug, Clone)]
pub struct TaskIdentity {
    pub engine: TorrentEngineKind,
    pub id: String,
    pub torrent_hash: Option<String>,
    pub correlation_tag: Option<String>,
}

/// An optional text as an optional sequence.
pub open spec fn opt_seq(o: Option<String>) -> Option<Seq<char>> {
    match o {
        Some(s) => Some(s@),
        None => None,
    }
}

/// How a stored task matches a candidate: by id, by torrent hash, or by correlation
/// tag where one of the two has no hash yet; always within the same engine.
#[derive(Debug, Clone, Copy, PartialEq, Eq, Structural)]
pub enum MatchBy {
    Id,
    Hash,
    Tag,
}

/// Whether a stored task matches a candidate in the given way.
pub open spec fn task_matches(t: TaskIdentity, c: TaskIdentity, by: MatchBy) -> bool {
    t.engine == c.engine && match by {
        MatchBy::Id => t.id@ == c.id@,
        MatchBy::Hash => c.torrent_hash is Some && opt_seq(t.torrent_hash) == opt_seq(c.torrent_hash),
        MatchBy::Tag => c.correlation_tag is Some && opt_seq(t.correlation_tag) == opt_seq(c.correlation_tag) && (t.torrent_hash is None
            || c.torrent_hash is None),
    }
}

/// The index of the first stored task that matches.
pub open spec fn first_match(s: Seq<TaskIdentity>, c: TaskIdentity, by: MatchBy) -> Option<int>
    decreases s.len(),
{
    if s.len() == 0 {
        None
    } else if task_matches(s[0], c, by) {
        Some(0)
    } else {
        match first_match(s.subrange(1, s.len() as int), c, by) {
            Some(i) => Some(i + 1),
            None => None,
        }
    }
}

/// How many stored tasks match.
pub open spec fn match_count(s: Seq<TaskIdentity>, c: TaskIdentity, by: MatchBy) -> nat
    decreases s.len(),
{
    if s.len() == 0 {
        0
    } else {
        (if task_matches(s[0], c, by) { 1nat } else { 0nat }) + match_count(s.subrange(1, s.len() as int), c, by)
    }
}

/// The stored task a candidate is, if any: the first with the same id, else the first
/// with the same hash, else the only one with the same tag where a hash is missing.
pub open spec fn existing_task_spec(s: Seq<TaskIdentity>, c: TaskIdentity) -> Option<int> {
    match first_match(s, c, MatchBy::Id) {
        Some(i) => Some(i),
        None => match first_match(s, c, MatchBy::Hash) {
            Some(i) => Some(i),
            None => if match_count(s, c, MatchBy::Tag) == 1 {
                first_match(s, c, MatchBy::Tag)
            } else {
                None
            },
        },
    }
}

fn same_opt(a: &Option<String>, b: &Option<String>) -> (r: bool)
    ensures
        r == (opt_seq(*a) == opt_seq(*b)),
{
    match (a, b) {
        (Some(x), Some(y)) => {
            let xs = crate::text::chars_of(x.as_str());
            let ys = crate::text::chars_of(y.as_str());
            crate::text::chars_eq(xs.as_slice(), ys.as_slice())
        },
        (None, None) => true,
        _ => false,
    }
}

fn matches_by(t: &TaskIdentity, c: &TaskIdentity, by: MatchBy) -> (r: bool)
    ensures
        r == task_matches(*t, *c, by),
{
    if t.engine != c.engine {
        return false;
    }
    match by {
        MatchBy::Id => {
            let a = crate::text::chars_of(t.id.as_str());
            let b = crate::text::chars_of(c.id.as_str());
            crate::text::chars_eq(a.as_slice(), b.as_slice())
        },
        MatchBy::Hash => c.torrent_hash.is_some() && same_opt(&t.torrent_hash, &c.torrent_hash),
        MatchBy::Tag => c.correlation_tag.is_some() && same_opt(&t.correlation_tag, &c.correlation_tag) && (t.torrent_hash.is_none()
            || c.torrent_hash.is_none()),
    }
}

fn find_first(existing: &Vec<TaskIdentity>, c: &TaskIdentity, by: MatchBy) -> (r: Option<usize>)
    ensures
        match r {
            Some(i) => first_match(existing@, *c, by) == Some(i as int),
            None => first_match(existing@, *c, by) is None,
        },
{
    let n = existing.len();
    let mut i: usize = 0;
    assert(existing@.subrange(0, n as int) =~= existing@);
    while i < n
        invariant
            n == existing@.len(),
            i <= n,
            forall|k: int| 0 <= k < i ==> !task_matches(#[trigger] existing@[k], *c, by),
            first_match(existing@, *c, by) == match first_match(existing@.subrange(i as int, n as int), *c, by) {
                Some(j) => Some(j + i),
                None => None,
            },
        decreases n - i,
    {
        let ghost rest = existing@.subrange(i as int, n as int);
        assert(rest[0] == existing@[i as int]);
        assert(rest.subrange(1, rest.len() as int) =~= existing@.subrange(i + 1, n as int));
        if matches_by(&existing[i], c, by) {
            return Some(i);
        }
        i = i + 1;
    }
    assert(existing@.subrange(n as int, n as int).len() == 0);
    None
}

fn count_matches(existing: &Vec<TaskIdentity>, c: &TaskIdentity, by: MatchBy) -> (r: usize)
    ensures
        r == match_count(existing@, *c, by),
{
    let n = existing.len();
    let mut i: usize = 0;
    let mut count: usize = 0;
    assert(existing@.subrange(0, n as int) =~= existing@);
    while i < n
        invariant
            n == existing@.len(),
            i <= n,
            count <= i,
            match_count(existing@, *c, by) == count + match_count(existing@.subrange(i as int, n as int), *c, by),
        decreases n - i,
    {
        let ghost rest = existing@.subrange(i as int, n as int);
        assert(rest[0] == existing@[i as int]);
        assert(rest.subrange(1, rest.len() as int) =~= existing@.subrange(i + 1, n as int));
        if matches_by(&existing[i], c, by) {
            count = count + 1;
        }
        i = i + 1;
    }
    assert(existing@.subrange(n as int, n as int).len() == 0);
    count
}

/// Finds the stored task that a task reported by an engine is, by its index.
pub fn find_existing_task(existing: &Vec<TaskIdentity>, candidate: &TaskIdentity) -> (r: Option<usize>)
    ensures
        match r {
            Some(i) => existing_task_spec(existing@, *candidate) == Some(i as int) && i < existing@.len(),
            None => existing_task_spec(existing@, *candidate) is None,
        },
{
    if let Some(i) = find_first(existing, candidate, MatchBy::Id) {
        proof {
            lemma_first_match_bounds(existing@, *candidate, MatchBy::Id);
        }
        return Some(i);
    }
    if let Some(i) = find_first(existing, candidate, MatchBy::Hash) {
        proof {
            lemma_first_match_bounds(existing@, *candidate, MatchBy::Hash);
        }
        return Some(i);
    }
    if count_matches(existing, candidate, MatchBy::Tag) == 1 {
        let r = find_first(existing, candidate, MatchBy::Tag);
        proof {
            lemma_first_match_bounds(existing@, *candidate, MatchBy::Tag);
        }
        r
    } else {
        None
    }
}

/// A first match lies within the stored tasks and does match.
pub proof fn lemma_first_match_bounds(s: Seq<TaskIdentity>, c: TaskIdentity, by: MatchBy)
    ensures
        first_match(s, c, by) matches Some(i) ==> 0 <= i < s.len() && task_matches(s[i], c, by),
    decreases s.len(),
{
    if s.len() > 0 {
        lemma_first_match_bounds(s.subrange(1, s.len() as int), c, by);
    }
}


/// A stored task found for a candidate always belongs to the candidate's engine, and
/// matches it by id, hash or tag.
pub proof fn lemma_existing_task_same_engine(s: Seq<TaskIdentity>, c: TaskIdentity)
    ensures
        existing_task_spec(s, c) matches Some(i) ==> 0 <= i < s.len() && s[i].engine == c.engine && (task_matches(s[i], c, MatchBy::Id)
            || task_matches(s[i], c, MatchBy::Hash) || task_matches(s[i], c, MatchBy::Tag)),
{
    lemma_first_match_bounds(s, c, MatchBy::Id);
    lemma_first_match_bounds(s, c, MatchBy::Hash);
    lemma_first_match_bounds(s, c, MatchBy::Tag);
}


/// The business context a download task carries beside the engine's own state; an
/// episode number is held exactly.
#[derive(Debug, Clone)]
pub struct TaskContext {
    pub release_id: Option<String>,
    pub anime_id: Option<String>,
    pub episode_id: Option<String>,
    pub anime_title: Option<String>,
    pub episode_no: Option<ExactValue>,
    pub fansub_group_id: Option<String>,
    pub fansub_name: Option<String>,
    pub resolution: Option<String>,
    pub declared_video_codec: Option<String>,
    pub normalized_video_codec: Option<String>,
    pub bit_depth: Option<i64>,
    pub subtitle_languages: Vec<String>,
    pub subtitle: Option<String>,
}

/// The episode a file of a task is linked to, by the file's index.
#[derive(Debug, Clone)]
pub struct FileLink {
    pub index: i64,
    pub episode_id: Option<String>,
    pub episode_no: Option<ExactValue>,
}

/// What the merge of a stored task and an engine snapshot reads and writes of a task.
#[derive(Debug, Clone)]
pub struct TaskRecord {
    pub context: TaskContext,
    pub correlation_tag: Option<String>,
    pub save_path: String,
    pub created_at: String,
    pub completed_at: Option<String>,
    pub files: Vec<FileLink>,
}

/// Two contexts hold the same values.
pub open spec fn same_context(a: TaskContext, b: TaskContext) -> bool {
    &&& a.release_id == b.release_id
    &&& a.anime_id == b.anime_id
    &&& a.episode_id == b.episode_id
    &&& a.anime_title == b.anime_title
    &&& a.episode_no == b.episode_no
    &&& a.fansub_group_id == b.fansub_group_id
    &&& a.fansub_name == b.fansub_name
    &&& a.resolution == b.resolution
    &&& a.declared_video_codec == b.declared_video_codec
    &&& a.normalized_video_codec == b.normalized_video_codec
    &&& a.bit_depth == b.bit_depth
    &&& a.subtitle_languages@ == b.subtitle_languages@
    &&& a.subtitle == b.subtitle
}

fn copy_context(c: &TaskContext) -> (r: TaskContext)
    ensures
        same_context(r, *c),
{
    let languages = c.subtitle_languages.clone();
    assert(languages@ =~= c.subtitle_languages@);
    TaskContext {
        release_id: c.release_id.clone(),
        anime_id: c.anime_id.clone(),
        episode_id: c.episode_id.clone(),
        anime_title: c.anime_title.clone(),
        episode_no: c.episode_no,
        fansub_group_id: c.fansub_group_id.clone(),
        fansub_name: c.fansub_name.clone(),
        resolution: c.resolution.clone(),
        declared_video_codec: c.declared_video_codec.clone(),
        normalized_video_codec: c.normalized_video_codec.clone(),
        bit_depth: c.bit_depth,
        subtitle_languages: languages,
        subtitle: c.subtitle.clone(),
    }
}

/// The link a stored task keeps for a file index: that of the last stored file with
/// the index, as a map built from the list keeps it.
pub open spec fn stored_link(files: Seq<FileLink>, index: i64) -> Option<FileLink>
    decreases files.len(),
{
    if files.len() == 0 {
        None
    } else if files.last().index == index {
        Some(files.last())
    } else {
        stored_link(files.drop_last(), index)
    }
}

/// An engine file after the merge: the stored link of its index replaces its own.
pub open spec fn relinked(stored: Seq<FileLink>, file: FileLink) -> FileLink {
    match stored_link(stored, file.index) {
        Some(l) => FileLink { index: file.index, episode_id: l.episode_id, episode_no: l.episode_no },
        None => file,
    }
}

fn find_stored_link(files: &Vec<FileLink>, index: i64) -> (r: Option<&FileLink>)
    ensures
        match r {
            Some(l) => stored_link(files@, index) == Some(*l),
            None => stored_link(files@, index) is None,
        },
{
    let mut i: usize = files.len();
    assert(files@.subrange(0, files@.len() as int) =~= files@);
    while i > 0
        invariant
            i <= files@.len(),
            stored_link(files@, index) == stored_link(files@.subrange(0, i as int), index),
        decreases i,
    {
        assert(files@.subrange(0, i as int).drop_last() =~= files@.subrange(0, i - 1));
        if files[i - 1].index == index {
            return Some(&files[i - 1]);
        }
        i = i - 1;
    }
    None
}

/// Merges an engine snapshot into the stored task: the engine's state stays, the
/// business context, the file links, the creation time and (when the engine reports a
/// blank one) the save path come from the store; a correlation tag and a completion
/// time the engine does not report are kept from the store.
pub fn merge_download_task(stored: &TaskRecord, engine: TaskRecord) -> (r: TaskRecord)
    ensures
        same_context(r.context, stored.context),
        r.correlation_tag == (match engine.correlation_tag {
            Some(t) => Some(t),
            None => stored.correlation_tag,
        }),
        r.save_path == (if trim(engine.save_path@).len() == 0 {
            stored.save_path
        } else {
            engine.save_path
        }),
        r.created_at == stored.created_at,
        r.completed_at == (match engine.completed_at {
            Some(t) => Some(t),
            None => stored.completed_at,
        }),
        r.files@.len() == engine.files@.len(),
        forall|i: int| 0 <= i < engine.files@.len() ==> (#[trigger] r.files@[i]) == relinked(stored.files@, engine.files@[i]),
{
    let mut files: Vec<FileLink> = Vec::new();
    let mut i: usize = 0;
    while i < engine.files.len()
        invariant
            i <= engine.files@.len(),
            files@.len() == i,
            forall|k: int| 0 <= k < i ==> (#[trigger] files@[k]) == relinked(stored.files@, engine.files@[k]),
        decreases engine.files@.len() - i,
    {
        let file = &engine.files[i];
        let linked = match find_stored_link(&stored.files, file.index) {
            Some(l) => FileLink { index: file.index, episode_id: l.episode_id.clone(), episode_no: l.episode_no },
            None => FileLink { index: file.index, episode_id: file.episode_id.clone(), episode_no: file.episode_no },
        };
        files.push(linked);
        i = i + 1;
    }
    let correlation_tag = match engine.correlation_tag {
        Some(t) => Some(t),
        None => stored.correlation_tag.clone(),
    };
    let save_path = if trim_chars(chars_of(engine.save_path.as_str()).as_slice()).len() == 0 {
        stored.save_path.clone()
    } else {
        engine.save_path
    };
    let completed_at = match engine.completed_at {
        Some(t) => Some(t),
        None => stored.completed_at.clone(),
    };
    TaskRecord {
        context: copy_context(&stored.context),
        correlation_tag,
        save_path,
        created_at: stored.created_at.clone(),
        completed_at,
        files,
    }
}

/// The context a caller attaches when adding a download, and the name it gives.
#[derive(Debug, Clone)]
pub struct AddContext {
    pub name: Option<String>,
    pub context: TaskContext,
}

/// What adding a download sets on the task the engine created (besides the engine,
/// which becomes the request's): the name (when the caller gave a non-blank one,
/// trimmed), the context, the caller's correlation tag (else the engine's), and the
/// caller's save path when the engine reports a blank one.
pub fn apply_add_context(
    task_name: String,
    task: TaskRecord,
    add: &AddContext,
    correlation_tag: Option<String>,
    save_path: &String,
) -> (r: (String, TaskRecord))
    ensures
        r.0@ == (match add.name {
            Some(n) => if trim(n@).len() > 0 {
                trim(n@)
            } else {
                task_name@
            },
            None => task_name@,
        }),
        same_context(r.1.context, add.context),
        r.1.correlation_tag == (match correlation_tag {
            Some(t) => Some(t),
            None => task.correlation_tag,
        }),
        r.1.save_path == (if trim(task.save_path@).len() == 0 {
            *save_path
        } else {
            task.save_path
        }),
        r.1.created_at == task.created_at,
        r.1.completed_at == task.completed_at,
        r.1.files@ == task.files@,
{
    let name = match &add.name {
        Some(n) => {
            let t = trim_chars(chars_of(n.as_str()).as_slice());
            if t.len() > 0 {
                crate::text::string_of(t.as_slice())
            } else {
                task_name
            }
        },
        None => task_name,
    };
    let tag = match correlation_tag {
        Some(t) => Some(t),
        None => task.correlation_tag,
    };
    let path = if trim_chars(chars_of(task.save_path.as_str()).as_slice()).len() == 0 {
        save_path.clone()
    } else {
        task.save_path
    };
    let record = TaskRecord {
        context: copy_context(&add.context),
        correlation_tag: tag,
        save_path: path,
        created_at: task.created_at,
        completed_at: task.completed_at,
        files: task.files,
    };
    (name, record)
}


/// Linking a file again to the same stored task changes nothing: a merged snapshot
/// merged once more keeps its links.
pub proof fn lemma_relink_is_idempotent(stored: Seq<FileLink>, file: FileLink)
    ensures
        relinked(stored, relinked(stored, file)) == relinked(stored, file),
{
}


/// Refuses to control a task from an engine other than its own, so that a page left
/// open on another engine cannot wake the old one.
pub fn require_active_engine(task_engine: TorrentEngineKind, active_engine: TorrentEngineKind) -> (r: Result<(), DownloadInputError>)
    ensures
        task_engine == active_engine ==> r is Ok,
        task_engine != active_engine ==> (r matches Err(e) && e.field@ == "taskId"@
            && e.message@ == "任务属于 "@ + task_engine.key_spec() + "，请切回该下载引擎后重试"@),
{
    if task_engine == active_engine {
        return Ok(());
    }
    let mut v = chars_of("任务属于 ");
    crate::text::append_str(&mut v, task_engine.as_key());
    crate::text::append_str(&mut v, "，请切回该下载引擎后重试");
    Err(DownloadInputError { field: String::from_str("taskId"), message: crate::text::string_of(v.as_slice()) })
}

/// A file of a task as a priority request reads and changes it.
#[derive(Debug, Clone, Copy, PartialEq, Eq, Structural)]
pub struct TaskFileChoice {
    pub index: i64,
    pub priority: i64,
    pub selected: bool,
}

/// Whether some file of the task has the index.
pub open spec fn has_file_index(files: Seq<TaskFileChoice>, index: i64) -> bool {
    exists|k: int| 0 <= k < files.len() && files[k].index == index
}

/// Whether every requested index names a file of the task.
pub open spec fn all_indexes_known(files: Seq<TaskFileChoice>, indexes: Seq<i64>) -> bool {
    forall|p: int| 0 <= p < indexes.len() ==> has_file_index(files, #[trigger] indexes[p])
}

fn has_index(files: &Vec<TaskFileChoice>, index: i64) -> (r: bool)
    ensures
        r == has_file_index(files@, index),
{
    let mut k: usize = 0;
    while k < files.len()
        invariant
            k <= files@.len(),
            forall|j: int| 0 <= j < k ==> (#[trigger] files@[j]).index != index,
        decreases files@.len() - k,
    {
        if files[k].index == index {
            return true;
        }
        k = k + 1;
    }
    false
}

/// Checks a file priority request against its task: first the rules of
/// `validate_file_priority`, then every index must name a file of the task; the error
/// names the first that does not.
pub fn check_file_priority_request(files: &Vec<TaskFileChoice>, file_indexes: &[i64], priority: i64) -> (r: Result<(), DownloadInputError>)
    ensures
        file_priority_problem(file_indexes@, priority) matches Some(p) ==> (r matches Err(e) && (e.field@, e.message@) == p),
        file_priority_problem(file_indexes@, priority) is None ==> (r is Ok <==> all_indexes_known(files@, file_indexes@)),
        file_priority_problem(file_indexes@, priority) is None ==> (r matches Err(e) ==> exists|p: int|
            0 <= p < file_indexes@.len() && !has_file_index(files@, #[trigger] file_indexes@[p])
            && (forall|q: int| 0 <= q < p ==> has_file_index(files@, #[trigger] file_indexes@[q]))
            && e.field@ == "fileIndexes"@ && e.message@ == "任务中不存在文件索引 "@ + decimal(file_indexes@[p] as nat)),
{
    match validate_file_priority(file_indexes, priority) {
        Err(e) => return Err(e),
        Ok(()) => {},
    }
    let mut p: usize = 0;
    while p < file_indexes.len()
        invariant
            p <= file_indexes@.len(),
            file_priority_problem(file_indexes@, priority) is None,
            forall|q: int| 0 <= q < p ==> has_file_index(files@, #[trigger] file_indexes@[q]),
        decreases file_indexes@.len() - p,
    {
        let index = file_indexes[p];
        if !has_index(files, index) {
            proof {
                assert(!has_negative(file_indexes@));
                if index < 0 {
                    assert(file_indexes@[p as int] < 0);
                }
            }
            let mut v = chars_of("任务中不存在文件索引 ");
            let digits = format_decimal(index as u64);
            append_chars(&mut v, digits.as_slice());
            return Err(DownloadInputError { field: String::from_str("fileIndexes"), message: string_of(v.as_slice()) });
        }
        p = p + 1;
    }
    Ok(())
}

/// A file after a priority request: the requested ones take the priority and are
/// selected exactly when it is above zero; the others stay.
pub open spec fn file_after_priority(f: TaskFileChoice, indexes: Seq<i64>, priority: i64) -> TaskFileChoice {
    if indexes.contains(f.index) {
        TaskFileChoice { index: f.index, priority, selected: priority > 0 }
    } else {
        f
    }
}

/// Applies an accepted priority request to the task's files.
pub fn apply_file_priority(files: &mut Vec<TaskFileChoice>, file_indexes: &[i64], priority: i64)
    ensures
        final(files)@.len() == old(files)@.len(),
        forall|k: int| 0 <= k < old(files)@.len() ==> final(files)@[k] == file_after_priority(
            #[trigger] old(files)@[k],
            file_indexes@,
            priority,
        ),
{
    let ghost before = files@;
    let mut k: usize = 0;
    while k < files.len()
        invariant
            k <= files@.len(),
            files@.len() == before.len(),
            forall|j: int| 0 <= j < k ==> files@[j] == file_after_priority(#[trigger] before[j], file_indexes@, priority),
            forall|j: int| k <= j < files@.len() ==> files@[j] == #[trigger] before[j],
        decreases files@.len() - k,
    {
        let f = files[k];
        let mut requested = false;
        let mut p: usize = 0;
        while p < file_indexes.len()
            invariant
                p <= file_indexes@.len(),
                requested <==> exists|q: int| 0 <= q < p && #[trigger] file_indexes@[q] == f.index,
            decreases file_indexes@.len() - p,
        {
            if file_indexes[p] == f.index {
                requested = true;
            }
            p = p + 1;
        }
        proof {
            if requested {
                let q = choose|q: int| 0 <= q < file_indexes@.len() && #[trigger] file_indexes@[q] == f.index;
                assert(file_indexes@.contains(f.index));
            } else {
                assert(!file_indexes@.contains(f.index));
            }
        }
        if requested {
            files.set(k, TaskFileChoice { index: f.index, priority, selected: priority > 0 });
        }
        k = k + 1;
    }
}

/// How an engine answered a request to remove a task.
#[derive(Debug, Clone, Copy, PartialEq, Eq, Structural)]
pub enum EngineRemoveOutcome {
    Removed,
    TaskNotFound,
    Failed,
}

/// Whether removing a task goes on to delete its stored record: when the engine
/// removed it, or no longer knew it and its files are kept; any other failure stops.
pub fn remove_continues(outcome: EngineRemoveOutcome, delete_files: bool) -> (r: bool)
    ensures
        r == (outcome == EngineRemoveOutcome::Removed || (outcome == EngineRemoveOutcome::TaskNotFound && !delete_files)),
{
    match outcome {
        EngineRemoveOutcome::Removed => true,
        EngineRemoveOutcome::TaskNotFound => !delete_files,
        EngineRemoveOutcome::Failed => false,
    }
}

/// The status of a resumed task: seeding when it is complete, else downloading.
pub fn resumed_status(completed: bool) -> (r: DownloadStatus)
    ensures
        r == if completed {
            DownloadStatus::Seeding
        } else {
            DownloadStatus::Downloading
        },
{
    if completed {
        DownloadStatus::Seeding
    } else {
        DownloadStatus::Downloading
    }
}

/// The positions of the tasks that belong to an engine, in order.
pub open spec fn engine_positions(engines: Seq<TorrentEngineKind>, engine: TorrentEngineKind) -> Seq<int>
    decreases engines.len(),
{
    if engines.len() == 0 {
        Seq::empty()
    } else {
        let rest = engine_positions(engines.drop_last(), engine);
        if engines.last() == engine {
            rest.push(engines.len() - 1)
        } else {
            rest
        }
    }
}

/// Keeps the tasks of one engine: the positions, in order, of those whose engine it is.
pub fn tasks_of_engine(engines: &Vec<TorrentEngineKind>, engine: TorrentEngineKind) -> (r: Vec<usize>)
    ensures
        r@.map_values(|i: usize| i as int) == engine_positions(engines@, engine),
{
    let mut out: Vec<usize> = Vec::new();
    let mut i: usize = 0;
    while i < engines.len()
        invariant
            i <= engines@.len(),
            out@.map_values(|k: usize| k as int) == engine_positions(engines@.subrange(0, i as int), engine),
        decreases engines@.len() - i,
    {
        let ghost before = out@;
        proof {
            assert(engines@.subrange(0, i + 1).drop_last() =~= engines@.subrange(0, i as int));
        }
        if engines[i] == engine {
            out.push(i);
            proof {
                assert(out@.map_values(|k: usize| k as int) =~= before.map_values(|k: usize| k as int).push(i as int));
            }
        }
        i = i + 1;
    }
    proof {
        assert(engines@.subrange(0, engines@.len() as int) =~= engines@);
    }
    out
}

/// An integer written in decimal, with a leading `-` when negative.
pub open spec fn signed_decimal(n: int) -> Seq<char> {
    if n < 0 {
        seq!['-'] + decimal((-n) as nat)
    } else {
        decimal(n as nat)
    }
}

/// The id of a file of a task: the task's id, a colon and the file's index.
pub open spec fn scoped_file_id_spec(task_id: Seq<char>, index: i64) -> Seq<char> {
    task_id + seq![':'] + signed_decimal(index as int)
}

/// The id of a file of a task (see `scoped_file_id_spec`).
pub fn scoped_file_id(task_id: &str, index: i64) -> (r: String)
    ensures
        r@ == scoped_file_id_spec(task_id@, index),
{
    let mut v = chars_of(task_id);
    v.push(':');
    if index < 0 {
        v.push('-');
        let magnitude: u64 = (0i128 - (index as i128)) as u64;
        let digits = format_decimal(magnitude);
        append_chars(&mut v, digits.as_slice());
        proof {
            assert(v@ =~= task_id@ + seq![':'] + (seq!['-'] + decimal((-(index as int)) as nat)));
        }
    } else {
        let digits = format_decimal(index as u64);
        append_chars(&mut v, digits.as_slice());
        proof {
            assert(v@ =~= task_id@ + seq![':'] + decimal(index as nat));
        }
    }
    string_of(v.as_slice())
}

/// Scopes a task an engine reported: the task id takes the engine's prefix, and each
/// file id becomes the scoped task id, a colon and the file's index.
pub fn scope_engine_task(engine: TorrentEngineKind, engine_task_id: &str, file_indexes: &Vec<i64>) -> (r: (String, Vec<String>))
    ensures
        r.0@ == engine.scope_spec(engine_task_id@),
        r.1@.len() == file_indexes@.len(),
        forall|k: int| 0 <= k < file_indexes@.len() ==> (#[trigger] r.1@[k])@ == scoped_file_id_spec(r.0@, file_indexes@[k]),
{
    let id = engine.scope_task_id(engine_task_id);
    let mut files: Vec<String> = Vec::new();
    let mut k: usize = 0;
    while k < file_indexes.len()
        invariant
            k <= file_indexes@.len(),
            files@.len() == k,
            forall|j: int| 0 <= j < k ==> (#[trigger] files@[j])@ == scoped_file_id_spec(id@, file_indexes@[j]),
        decreases file_indexes@.len() - k,
    {
        files.push(scoped_file_id(id.as_str(), file_indexes[k]));
        k = k + 1;
    }
    (id, files)
}


/// With a non-blank save path and no selected indexes, a download from a torrent file
/// is accepted exactly when the file path is not empty; an empty path is refused on
/// `filePath`. A magnet link is accepted exactly when, trimmed and lowercased, it
/// starts with `magnet:?`.
pub proof fn lemma_add_request_accepts_any_torrent_path(save_path: Seq<char>, path: String, url: String)
    requires
        trim(save_path).len() > 0,
    ensures
        add_request_problem(save_path, DownloadSource::TorrentFile(path), None) is None <==> path@.len() > 0,
        path@.len() == 0 ==> add_request_problem(save_path, DownloadSource::TorrentFile(path), None)
            == Some(("filePath"@, "torrent 文件路径不能为空"@)),
        add_request_problem(save_path, DownloadSource::Magnet(url), None) is None
            <==> has_prefix(ascii_lower(trim(url@)), "magnet:?"@),
{
}

} // verus!
