//! The remote procedure call surface: the fixed method table and its scopes, the
//! argument rules of every method, and the redaction of results before they leave the
//! host. Requests and results are modelled as JSON values.

use vstd::prelude::*;
use crate::dyadic::{dyadic_le, dyadic_le_exec};
use vstd::utf8::encode_utf8;
use crate::text::{
    decimal, format_decimal, all_digits, append_chars, append_str, ascii_lower, chars_eq, chars_of, contains, eq_str,
    has_control, any_control, has_prefix, is_ascii_alnum, ascii_alnum, join_chars, join_spec,
    parse_u8, parse_u8_spec, slice_vec, split_once, split_once_spec, split_words, starts_with,
    string_of, to_ascii_lower, trim, trim_chars, words,
};

verus! {

/// A JSON number: a non-negative integer, a negative integer, or a binary floating
/// value `mantissa * 2^exponent` (exactly the value the parser produced).
#[derive(Debug, Clone, PartialEq, Eq, Structural)]
pub enum JsonNumber {
    PosInt(u64),
    NegInt(i64),
    Float { mantissa: i64, exponent: i32 },
}

/// A JSON value. Object members keep their order; keys are distinct.
#[derive(Debug)]
pub enum JsonValue {
    Null,
    Bool(bool),
    Number(JsonNumber),
    String(String),
    Array(Vec<JsonValue>),
    Object(Vec<(String, JsonValue)>),
}

/// A protocol error of the remote procedure calls.
#[derive(Debug)]
pub struct RemoteRpcError {
    pub status: u16,
    pub code: &'static str,
    pub message: String,
}

impl RemoteRpcError {
    /// Builds an error from its parts.
    pub fn new(status: u16, code: &'static str, message: String) -> (r: Self)
        ensures
            r.status == status,
            r.code@ == code@,
            r.message@ == message@,
    {
        RemoteRpcError { status, code, message }
    }
}

/// The error of arguments that break a method's rules.
pub fn invalid_args(message: String) -> (r: RemoteRpcError)
    ensures
        r.status == 400,
        r.code@ == "INVALID_ARGUMENTS"@,
        r.message@ == message@,
{
    RemoteRpcError::new(400, "INVALID_ARGUMENTS", message)
}

/// The error of a handler result of the wrong shape.
pub fn invalid_result(message: String) -> (r: RemoteRpcError)
    ensures
        r.status == 500,
        r.code@ == "HANDLER_FAILED"@,
        r.message@ == message@,
{
    RemoteRpcError::new(500, "HANDLER_FAILED", message)
}

/// Whether a method reads or changes data.
#[derive(Debug, Clone, Copy, PartialEq, Eq, Structural)]
pub enum RpcEffect {
    Read,
    Write,
}

/// A method of the remote surface: its name, the scope a device needs, its effect.
#[derive(Debug, Clone, Copy)]
pub struct MethodDefinition {
    pub name: &'static str,
    pub scope: &'static str,
    pub effect: RpcEffect,
}

/// The method table.
pub open spec fn method_table() -> Seq<(Seq<char>, Seq<char>, RpcEffect)> {
    seq![
        ("getDashboard"@, "dashboard.read"@, RpcEffect::Read),
        ("listNotifications"@, "notifications.read"@, RpcEffect::Read),
        ("getUnreadNotificationCount"@, "notifications.read"@, RpcEffect::Read),
        ("markNotificationRead"@, "notifications.write"@, RpcEffect::Write),
        ("markAllNotificationsRead"@, "notifications.write"@, RpcEffect::Write),
        ("listMyAnime"@, "library.read"@, RpcEffect::Read),
        ("upsertMyAnime"@, "library.write"@, RpcEffect::Write),
        ("followBangumiAnime"@, "library.write"@, RpcEffect::Write),
        ("removeMyAnime"@, "library.write"@, RpcEffect::Write),
        ("listMyAnimeWatchProgress"@, "library.read"@, RpcEffect::Read),
        ("setAnimeWatchProgress"@, "library.write"@, RpcEffect::Write),
        ("reportPlaybackProgress"@, "library.write"@, RpcEffect::Write),
        ("savePlaybackCheckpoint"@, "library.write"@, RpcEffect::Write),
        ("listAnimeCatalog"@, "catalog.read"@, RpcEffect::Read),
        ("getAnimeDetail"@, "catalog.read"@, RpcEffect::Read),
        ("searchAnimeCatalog"@, "catalog.read"@, RpcEffect::Read),
        ("browseBangumiAnime"@, "catalog.read"@, RpcEffect::Read),
        ("listFansubs"@, "library.read"@, RpcEffect::Read),
        ("listEpisodes"@, "library.read"@, RpcEffect::Read),
        ("upsertEpisode"@, "library.write"@, RpcEffect::Write),
        ("listEpisodePreferences"@, "library.read"@, RpcEffect::Read),
        ("upsertEpisodePreference"@, "library.write"@, RpcEffect::Write),
        ("removeEpisodePreference"@, "library.write"@, RpcEffect::Write),
        ("previewEpisodeReleases"@, "sources.read"@, RpcEffect::Read),
        ("searchReleases"@, "sources.read"@, RpcEffect::Read),
        ("searchAnimeReleases"@, "sources.read"@, RpcEffect::Read),
        ("searchRssSubscriptionReleases"@, "sources.read"@, RpcEffect::Read),
        ("getAnimeSourceBindingState"@, "sources.read"@, RpcEffect::Read),
        ("confirmAnimeSourceBinding"@, "sources.write"@, RpcEffect::Write),
        ("reportAnimeSourceCandidateMismatch"@, "sources.write"@, RpcEffect::Write),
        ("removeAnimeSourceCandidateMismatch"@, "sources.write"@, RpcEffect::Write),
        ("setAnimeSourceExcluded"@, "sources.write"@, RpcEffect::Write),
        ("removeAnimeSourceBinding"@, "sources.write"@, RpcEffect::Write),
        ("listDownloads"@, "downloads.read"@, RpcEffect::Read),
        ("refreshDownloads"@, "downloads.control"@, RpcEffect::Write),
        ("pauseDownload"@, "downloads.control"@, RpcEffect::Write),
        ("resumeDownload"@, "downloads.control"@, RpcEffect::Write),
        ("removeDownload"@, "downloads.control"@, RpcEffect::Write),
        ("setDownloadFilePriority"@, "downloads.control"@, RpcEffect::Write),
        ("addDownloadUrl"@, "downloads.control"@, RpcEffect::Write),
        ("addReleaseDownload"@, "downloads.control"@, RpcEffect::Write),
        ("listSources"@, "sources.read"@, RpcEffect::Read),
        ("setSourceEnabled"@, "sources.write"@, RpcEffect::Write),
        ("upsertSource"@, "sources.write"@, RpcEffect::Write),
        ("getSourceSyncStatus"@, "sources.read"@, RpcEffect::Read),
        ("getSettings"@, "settings.read"@, RpcEffect::Read),
        ("updateSettings"@, "settings.write"@, RpcEffect::Write),
        ("testQbittorrent"@, "host.control"@, RpcEffect::Read),
        ("getAutomationSchedulerStatus"@, "settings.read"@, RpcEffect::Read),
        ("getQbittorrentManagedStatus"@, "host.control"@, RpcEffect::Read),
        ("startQbittorrentManaged"@, "host.control"@, RpcEffect::Write),
        ("stopQbittorrentManaged"@, "host.control"@, RpcEffect::Write),
        ("getEmbeddedTorrentStatus"@, "host.control"@, RpcEffect::Read),
        ("startEmbeddedTorrent"@, "host.control"@, RpcEffect::Write),
        ("stopEmbeddedTorrent"@, "host.control"@, RpcEffect::Write),
        ("restartEmbeddedTorrent"@, "host.control"@, RpcEffect::Write)
    ]
}

/// The definition of a method name: the first table entry with that name.
pub open spec fn find_method_in(table: Seq<(Seq<char>, Seq<char>, RpcEffect)>, name: Seq<char>) -> Option<(Seq<char>, Seq<char>, RpcEffect)>
    decreases table.len(),
{
    if table.len() == 0 {
        None
    } else if table[0].0 == name {
        Some(table[0])
    } else {
        find_method_in(table.subrange(1, table.len() as int), name)
    }
}

/// The view of a definition.
pub open spec fn definition_view(d: MethodDefinition) -> (Seq<char>, Seq<char>, RpcEffect) {
    (d.name@, d.scope@, d.effect)
}

/// The method table, as definitions.
pub fn method_definitions() -> (r: Vec<MethodDefinition>)
    ensures
        r@.map_values(|d: MethodDefinition| definition_view(d)) == method_table(),
{
    let mut t: Vec<MethodDefinition> = Vec::new();
    t.push(MethodDefinition { name: "getDashboard", scope: "dashboard.read", effect: RpcEffect::Read });
    t.push(MethodDefinition { name: "listNotifications", scope: "notifications.read", effect: RpcEffect::Read });
    t.push(MethodDefinition { name: "getUnreadNotificationCount", scope: "notifications.read", effect: RpcEffect::Read });
    t.push(MethodDefinition { name: "markNotificationRead", scope: "notifications.write", effect: RpcEffect::Write });
    t.push(MethodDefinition { name: "markAllNotificationsRead", scope: "notifications.write", effect: RpcEffect::Write });
    t.push(MethodDefinition { name: "listMyAnime", scope: "library.read", effect: RpcEffect::Read });
    t.push(MethodDefinition { name: "upsertMyAnime", scope: "library.write", effect: RpcEffect::Write });
    t.push(MethodDefinition { name: "followBangumiAnime", scope: "library.write", effect: RpcEffect::Write });
    t.push(MethodDefinition { name: "removeMyAnime", scope: "library.write", effect: RpcEffect::Write });
    t.push(MethodDefinition { name: "listMyAnimeWatchProgress", scope: "library.read", effect: RpcEffect::Read });
    t.push(MethodDefinition { name: "setAnimeWatchProgress", scope: "library.write", effect: RpcEffect::Write });
    t.push(MethodDefinition { name: "reportPlaybackProgress", scope: "library.write", effect: RpcEffect::Write });
    t.push(MethodDefinition { name: "savePlaybackCheckpoint", scope: "library.write", effect: RpcEffect::Write });
    t.push(MethodDefinition { name: "listAnimeCatalog", scope: "catalog.read", effect: RpcEffect::Read });
    t.push(MethodDefinition { name: "getAnimeDetail", scope: "catalog.read", effect: RpcEffect::Read });
    t.push(MethodDefinition { name: "searchAnimeCatalog", scope: "catalog.read", effect: RpcEffect::Read });
    t.push(MethodDefinition { name: "browseBangumiAnime", scope: "catalog.read", effect: RpcEffect::Read });
    t.push(MethodDefinition { name: "listFansubs", scope: "library.read", effect: RpcEffect::Read });
    t.push(MethodDefinition { name: "listEpisodes", scope: "library.read", effect: RpcEffect::Read });
    t.push(MethodDefinition { name: "upsertEpisode", scope: "library.write", effect: RpcEffect::Write });
    t.push(MethodDefinition { name: "listEpisodePreferences", scope: "library.read", effect: RpcEffect::Read });
    t.push(MethodDefinition { name: "upsertEpisodePreference", scope: "library.write", effect: RpcEffect::Write });
    t.push(MethodDefinition { name: "removeEpisodePreference", scope: "library.write", effect: RpcEffect::Write });
    t.push(MethodDefinition { name: "previewEpisodeReleases", scope: "sources.read", effect: RpcEffect::Read });
    t.push(MethodDefinition { name: "searchReleases", scope: "sources.read", effect: RpcEffect::Read });
    t.push(MethodDefinition { name: "searchAnimeReleases", scope: "sources.read", effect: RpcEffect::Read });
    t.push(MethodDefinition { name: "searchRssSubscriptionReleases", scope: "sources.read", effect: RpcEffect::Read });
    t.push(MethodDefinition { name: "getAnimeSourceBindingState", scope: "sources.read", effect: RpcEffect::Read });
    t.push(MethodDefinition { name: "confirmAnimeSourceBinding", scope: "sources.write", effect: RpcEffect::Write });
    t.push(MethodDefinition { name: "reportAnimeSourceCandidateMismatch", scope: "sources.write", effect: RpcEffect::Write });
    t.push(MethodDefinition { name: "removeAnimeSourceCandidateMismatch", scope: "sources.write", effect: RpcEffect::Write });
    t.push(MethodDefinition { name: "setAnimeSourceExcluded", scope: "sources.write", effect: RpcEffect::Write });
    t.push(MethodDefinition { name: "removeAnimeSourceBinding", scope: "sources.write", effect: RpcEffect::Write });
    t.push(MethodDefinition { name: "listDownloads", scope: "downloads.read", effect: RpcEffect::Read });
    t.push(MethodDefinition { name: "refreshDownloads", scope: "downloads.control", effect: RpcEffect::Write });
    t.push(MethodDefinition { name: "pauseDownload", scope: "downloads.control", effect: RpcEffect::Write });
    t.push(MethodDefinition { name: "resumeDownload", scope: "downloads.control", effect: RpcEffect::Write });
    t.push(MethodDefinition { name: "removeDownload", scope: "downloads.control", effect: RpcEffect::Write });
    t.push(MethodDefinition { name: "setDownloadFilePriority", scope: "downloads.control", effect: RpcEffect::Write });
    t.push(MethodDefinition { name: "addDownloadUrl", scope: "downloads.control", effect: RpcEffect::Write });
    t.push(MethodDefinition { name: "addReleaseDownload", scope: "downloads.control", effect: RpcEffect::Write });
    t.push(MethodDefinition { name: "listSources", scope: "sources.read", effect: RpcEffect::Read });
    t.push(MethodDefinition { name: "setSourceEnabled", scope: "sources.write", effect: RpcEffect::Write });
    t.push(MethodDefinition { name: "upsertSource", scope: "sources.write", effect: RpcEffect::Write });
    t.push(MethodDefinition { name: "getSourceSyncStatus", scope: "sources.read", effect: RpcEffect::Read });
    t.push(MethodDefinition { name: "getSettings", scope: "settings.read", effect: RpcEffect::Read });
    t.push(MethodDefinition { name: "updateSettings", scope: "settings.write", effect: RpcEffect::Write });
    t.push(MethodDefinition { name: "testQbittorrent", scope: "host.control", effect: RpcEffect::Read });
    t.push(MethodDefinition { name: "getAutomationSchedulerStatus", scope: "settings.read", effect: RpcEffect::Read });
    t.push(MethodDefinition { name: "getQbittorrentManagedStatus", scope: "host.control", effect: RpcEffect::Read });
    t.push(MethodDefinition { name: "startQbittorrentManaged", scope: "host.control", effect: RpcEffect::Write });
    t.push(MethodDefinition { name: "stopQbittorrentManaged", scope: "host.control", effect: RpcEffect::Write });
    t.push(MethodDefinition { name: "getEmbeddedTorrentStatus", scope: "host.control", effect: RpcEffect::Read });
    t.push(MethodDefinition { name: "startEmbeddedTorrent", scope: "host.control", effect: RpcEffect::Write });
    t.push(MethodDefinition { name: "stopEmbeddedTorrent", scope: "host.control", effect: RpcEffect::Write });
    t.push(MethodDefinition { name: "restartEmbeddedTorrent", scope: "host.control", effect: RpcEffect::Write });
    assert(t@.map_values(|d: MethodDefinition| definition_view(d)) =~= method_table());
    t
}

/// Looks a method up in the table.
pub fn find_method(name: &str) -> (r: Option<MethodDefinition>)
    ensures
        match r {
            Some(d) => find_method_in(method_table(), name@) == Some(definition_view(d)),
            None => find_method_in(method_table(), name@) is None,
        },
{
    let table = method_definitions();
    let ghost views = table@.map_values(|d: MethodDefinition| definition_view(d));
    let n = chars_of(name);
    let mut i: usize = 0;
    assert(views.subrange(0, views.len() as int) =~= views);
    while i < table.len()
        invariant
            i <= table@.len(),
            views == table@.map_values(|d: MethodDefinition| definition_view(d)),
            views == method_table(),
            n@ == name@,
            find_method_in(views.subrange(i as int, views.len() as int), name@) == find_method_in(views, name@),
        decreases table@.len() - i,
    {
        let ghost rest = views.subrange(i as int, views.len() as int);
        assert(rest[0] == views[i as int]);
        let d = table[i];
        if chars_eq(chars_of(d.name).as_slice(), n.as_slice()) {
            return Some(d);
        }
        assert(rest.subrange(1, rest.len() as int) =~= views.subrange(i + 1, views.len() as int));
        i = i + 1;
    }
    None
}

/// Whether a request names a method that changes data; the HTTP layer limits writes
/// more strictly.
pub fn is_write_method(request: &JsonValue) -> (r: bool)
    ensures
        r == (json_get(*request, "method"@) matches Some(JsonValue::String(m)) && find_method_in(
            method_table(),
            m@,
        ) matches Some(d) && d.2 == RpcEffect::Write),
{
    match object_get(request, "method") {
        Some(JsonValue::String(m)) => match find_method(m.as_str()) {
            Some(d) => matches!(d.effect, RpcEffect::Write),
            None => false,
        },
        _ => false,
    }
}

/// The member `key` of an object value.
pub open spec fn json_get(v: JsonValue, key: Seq<char>) -> Option<JsonValue> {
    match v {
        JsonValue::Object(members) => member_get(members@, key),
        _ => None,
    }
}

/// The value of the first member named `key`.
pub open spec fn member_get(members: Seq<(String, JsonValue)>, key: Seq<char>) -> Option<JsonValue>
    decreases members.len(),
{
    if members.len() == 0 {
        None
    } else if members[0].0@ == key {
        Some(members[0].1)
    } else {
        member_get(members.subrange(1, members.len() as int), key)
    }
}

/// Finds the member `key` of an object's members.
pub fn members_get<'a>(members: &'a Vec<(String, JsonValue)>, key: &str) -> (r: Option<&'a JsonValue>)
    ensures
        match r {
            Some(v) => member_get(members@, key@) == Some(*v),
            None => member_get(members@, key@) is None,
        },
{
    let k = chars_of(key);
    let mut i: usize = 0;
    assert(members@.subrange(0, members@.len() as int) =~= members@);
    while i < members.len()
        invariant
            i <= members@.len(),
            k@ == key@,
            member_get(members@.subrange(i as int, members@.len() as int), key@) == member_get(members@, key@),
        decreases members@.len() - i,
    {
        let ghost rest = members@.subrange(i as int, members@.len() as int);
        assert(rest[0] == members@[i as int]);
        let name = chars_of(members[i].0.as_str());
        if chars_eq(name.as_slice(), k.as_slice()) {
            return Some(&members[i].1);
        }
        assert(rest.subrange(1, rest.len() as int) =~= members@.subrange(i + 1, members@.len() as int));
        i = i + 1;
    }
    None
}

/// Finds the member `key` of an object value.
pub fn object_get<'a>(value: &'a JsonValue, key: &str) -> (r: Option<&'a JsonValue>)
    ensures
        match r {
            Some(v) => json_get(*value, key@) == Some(*v),
            None => json_get(*value, key@) is None,
        },
{
    match value {
        JsonValue::Object(members) => members_get(members, key),
        _ => None,
    }
}


/// The value of a number as `(m, e)`, meaning `m * 2^e`.
pub open spec fn number_parts(n: JsonNumber) -> (int, int) {
    match n {
        JsonNumber::PosInt(u) => (u as int, 0),
        JsonNumber::NegInt(i) => (i as int, 0),
        JsonNumber::Float { mantissa, exponent } => (mantissa as int, exponent as int),
    }
}

/// Whether a number lies in `[lo, hi]`, each bound written `m * 2^e`.
pub open spec fn number_in_range(n: JsonNumber, lo: (int, int), hi: (int, int)) -> bool {
    dyadic_le(lo, number_parts(n)) && dyadic_le(number_parts(n), hi)
}

fn number_parts_exec(n: &JsonNumber) -> (r: (i128, i64))
    ensures
        (r.0 as int, r.1 as int) == number_parts(*n),
        -0x1_0000_0000_0000_0000 < r.0 < 0x1_0000_0000_0000_0000,
        -0x1_0000_0000 < r.1 < 0x1_0000_0000,
{
    match n {
        JsonNumber::PosInt(u) => (*u as i128, 0),
        JsonNumber::NegInt(i) => (*i as i128, 0),
        JsonNumber::Float { mantissa, exponent } => (*mantissa as i128, *exponent as i64),
    }
}

/// Checks that a number lies in `[lo, hi]`; the bounds are written `m * 2^e` with a
/// mantissa below 2^53 in magnitude and an exponent between -64 and 0.
fn number_within(n: &JsonNumber, lo_m: i64, lo_e: i64, hi_m: i64, hi_e: i64) -> (r: bool)
    requires
        -0x20_0000_0000_0000 < lo_m < 0x20_0000_0000_0000,
        -0x20_0000_0000_0000 < hi_m < 0x20_0000_0000_0000,
        -64 <= lo_e <= 0,
        -64 <= hi_e <= 0,
    ensures
        r == number_in_range(*n, (lo_m as int, lo_e as int), (hi_m as int, hi_e as int)),
{
    let (m, e) = number_parts_exec(n);
    dyadic_le_exec(lo_m as i128, lo_e, m, e) && dyadic_le_exec(m, e, hi_m as i128, hi_e)
}

/// What `serde_json::Value::as_i64` reads.
pub open spec fn as_i64_spec(v: JsonValue) -> Option<i64> {
    match v {
        JsonValue::Number(JsonNumber::PosInt(u)) => if u <= i64::MAX {
            Some(u as i64)
        } else {
            None
        },
        JsonValue::Number(JsonNumber::NegInt(i)) => Some(i),
        _ => None,
    }
}

/// What `serde_json::Value::as_u64` reads.
pub open spec fn as_u64_spec(v: JsonValue) -> Option<u64> {
    match v {
        JsonValue::Number(JsonNumber::PosInt(u)) => Some(u),
        _ => None,
    }
}

fn as_i64(v: &JsonValue) -> (r: Option<i64>)
    ensures
        r == as_i64_spec(*v),
{
    match v {
        JsonValue::Number(JsonNumber::PosInt(u)) => if *u <= 9_223_372_036_854_775_807u64 {
            Some(*u as i64)
        } else {
            None
        },
        JsonValue::Number(JsonNumber::NegInt(i)) => Some(*i),
        _ => None,
    }
}

fn as_u64(v: &JsonValue) -> (r: Option<u64>)
    ensures
        r == as_u64_spec(*v),
{
    match v {
        JsonValue::Number(JsonNumber::PosInt(u)) => Some(*u),
        _ => None,
    }
}

/// `label` followed by `suffix`.
pub open spec fn labelled(label: Seq<char>, suffix: Seq<char>) -> Seq<char> {
    label + suffix
}

pub fn label_message(label: &str, suffix: &str) -> (r: String)
    ensures
        r@ == labelled(label@, suffix@),
{
    let mut m = chars_of(label);
    append_str(&mut m, suffix);
    string_of(m.as_slice())
}

/// Characters allowed in identifiers: ASCII letters and digits, `.`, `_`, `:` and `-`.
pub open spec fn is_id_char(c: char) -> bool {
    is_ascii_alnum(c) || c == '.' || c == '_' || c == ':' || c == '-'
}

/// Why a value is not a valid identifier, if it is not.
pub open spec fn id_problem(v: JsonValue, label: Seq<char>) -> Option<Seq<char>> {
    match v {
        JsonValue::String(s) => {
            let t = trim(s@);
            if t.len() == 0 || t.len() > 160 || !(forall|i: int| 0 <= i < t.len() ==> is_id_char(#[trigger] t[i])) {
                Some(labelled(label, "格式无效"@))
            } else {
                None
            }
        },
        _ => Some(labelled(label, "必须是字符串"@)),
    }
}

/// Checks that a value is an identifier: a string that, trimmed, has 1 to 160
/// identifier characters.
pub fn parse_id(value: &JsonValue, label: &str) -> (r: Result<String, RemoteRpcError>)
    ensures
        match r {
            Ok(id) => id_problem(*value, label@) is None && (value matches JsonValue::String(s) && id@ == trim(s@)),
            Err(e) => e.status == 400 && e.code@ == "INVALID_ARGUMENTS"@ && id_problem(*value, label@) == Some(e.message@),
        },
{
    let s = match value {
        JsonValue::String(s) => s,
        _ => {
            return Err(invalid_args(label_message(label, "必须是字符串")));
        },
    };
    let t = trim_chars(chars_of(s.as_str()).as_slice());
    if t.len() == 0 || t.len() > 160 {
        return Err(invalid_args(label_message(label, "格式无效")));
    }
    let mut i: usize = 0;
    while i < t.len()
        invariant
            i <= t@.len(),
            *value == JsonValue::String(*s),
            t@ == trim(s@),
            0 < t@.len() <= 160,
            forall|k: int| 0 <= k < i ==> is_id_char(#[trigger] t@[k]),
        decreases t@.len() - i,
    {
        let c = t[i];
        if !(ascii_alnum(c) || c == '.' || c == '_' || c == ':' || c == '-') {
            assert(!is_id_char(t@[i as int]));
            return Err(invalid_args(label_message(label, "格式无效")));
        }
        i = i + 1;
    }
    Ok(string_of(t.as_slice()))
}

/// Why a value is not a text of `min` to `max` characters (trimmed, without control
/// characters), if it is not.
pub open spec fn text_problem(v: Option<JsonValue>, label: Seq<char>, min: nat, max: nat) -> Option<Seq<char>> {
    match v {
        Some(JsonValue::String(s)) => {
            let t = trim(s@);
            if !(min <= t.len() <= max) || has_control(t) {
                Some(labelled(label, "长度或格式无效"@))
            } else if t.len() == 0 && min > 0 {
                Some(labelled(label, "不能为空"@))
            } else {
                None
            }
        },
        _ => Some(labelled(label, "长度或格式无效"@)),
    }
}

/// The optional member of an object, as a spec option.
pub open spec fn opt_ref(v: Option<&JsonValue>) -> Option<JsonValue> {
    match v {
        Some(x) => Some(*x),
        None => None,
    }
}

fn rpc_error_of(message: String) -> (r: Result<(), RemoteRpcError>)
    ensures
        r matches Err(e) && e.status == 400 && e.code@ == "INVALID_ARGUMENTS"@ && e.message@ == message@,
{
    Err(invalid_args(message))
}

/// Checks a text of `minimum` to `maximum` characters.
pub fn validate_text(value: Option<&JsonValue>, label: &str, minimum: usize, maximum: usize) -> (r: Result<(), RemoteRpcError>)
    ensures
        match r {
            Ok(()) => text_problem(opt_ref(value), label@, minimum as nat, maximum as nat) is None,
            Err(e) => e.status == 400 && e.code@ == "INVALID_ARGUMENTS"@ && text_problem(opt_ref(value), label@, minimum as nat, maximum as nat) == Some(e.message@),
        },
{
    let s = match value {
        Some(JsonValue::String(s)) => s,
        _ => {
            return rpc_error_of(label_message(label, "长度或格式无效"));
        },
    };
    let t = trim_chars(chars_of(s.as_str()).as_slice());
    if !(minimum <= t.len() && t.len() <= maximum) || any_control(t.as_slice()) {
        return rpc_error_of(label_message(label, "长度或格式无效"));
    }
    if t.len() == 0 && minimum > 0 {
        return rpc_error_of(label_message(label, "不能为空"));
    }
    Ok(())
}

/// Why an optional text is invalid, if it is: a missing or null value is fine.
pub open spec fn optional_text_problem(v: Option<JsonValue>, label: Seq<char>, max: nat) -> Option<Seq<char>> {
    match v {
        None => None,
        Some(JsonValue::Null) => None,
        Some(x) => text_problem(Some(x), label, 0, max),
    }
}

/// Checks an optional text of at most `maximum` characters.
pub fn validate_optional_text(value: Option<&JsonValue>, label: &str, maximum: usize) -> (r: Result<(), RemoteRpcError>)
    ensures
        match r {
            Ok(()) => optional_text_problem(opt_ref(value), label@, maximum as nat) is None,
            Err(e) => e.status == 400 && e.code@ == "INVALID_ARGUMENTS"@ && optional_text_problem(opt_ref(value), label@, maximum as nat) == Some(e.message@),
        },
{
    match value {
        None => Ok(()),
        Some(JsonValue::Null) => Ok(()),
        Some(v) => validate_text(Some(v), label, 0, maximum),
    }
}

/// Why an optional flag is invalid, if it is.
pub open spec fn optional_bool_problem(v: Option<JsonValue>, label: Seq<char>) -> Option<Seq<char>> {
    match v {
        None => None,
        Some(JsonValue::Null) => None,
        Some(JsonValue::Bool(_)) => None,
        _ => Some(labelled(label, "必须是布尔值"@)),
    }
}

/// Checks an optional flag.
pub fn validate_optional_bool(value: Option<&JsonValue>, label: &str) -> (r: Result<(), RemoteRpcError>)
    ensures
        match r {
            Ok(()) => optional_bool_problem(opt_ref(value), label@) is None,
            Err(e) => e.status == 400 && e.code@ == "INVALID_ARGUMENTS"@ && optional_bool_problem(opt_ref(value), label@) == Some(e.message@),
        },
{
    match value {
        None => Ok(()),
        Some(JsonValue::Null) => Ok(()),
        Some(JsonValue::Bool(_)) => Ok(()),
        _ => rpc_error_of(label_message(label, "必须是布尔值")),
    }
}

/// Why a value is not a number in `[lo, hi]`, if it is not.
pub open spec fn number_problem(v: Option<JsonValue>, label: Seq<char>, lo: (int, int), hi: (int, int)) -> Option<Seq<char>> {
    match v {
        Some(JsonValue::Number(n)) => if number_in_range(n, lo, hi) {
            None
        } else {
            Some(labelled(label, "范围无效"@))
        },
        _ => Some(labelled(label, "范围无效"@)),
    }
}

/// Checks a number in `[lo, hi]`, each bound written `m * 2^e`.
fn validate_number(value: Option<&JsonValue>, label: &str, lo_m: i64, lo_e: i64, hi_m: i64, hi_e: i64) -> (r: Result<(), RemoteRpcError>)
    requires
        -0x20_0000_0000_0000 < lo_m < 0x20_0000_0000_0000,
        -0x20_0000_0000_0000 < hi_m < 0x20_0000_0000_0000,
        -64 <= lo_e <= 0,
        -64 <= hi_e <= 0,
    ensures
        match r {
            Ok(()) => number_problem(opt_ref(value), label@, (lo_m as int, lo_e as int), (hi_m as int, hi_e as int)) is None,
            Err(e) => e.status == 400 && e.code@ == "INVALID_ARGUMENTS"@ && number_problem(opt_ref(value), label@, (lo_m as int, lo_e as int), (hi_m as int, hi_e as int)) == Some(e.message@),
        },
{
    match value {
        Some(JsonValue::Number(n)) => if number_within(n, lo_m, lo_e, hi_m, hi_e) {
            Ok(())
        } else {
            rpc_error_of(label_message(label, "范围无效"))
        },
        _ => rpc_error_of(label_message(label, "范围无效")),
    }
}


/// The first problem of two checks made in order.
pub open spec fn first_of(a: Option<Seq<char>>, b: Option<Seq<char>>) -> Option<Seq<char>> {
    if a is Some {
        a
    } else {
        b
    }
}

/// A missing member read as JSON `null`.
pub open spec fn or_null(v: Option<JsonValue>) -> JsonValue {
    match v {
        Some(x) => x,
        None => JsonValue::Null,
    }
}

/// The scheme of a URL and whether it has a host, as `url::Url::parse` reads the
/// text; `None` where it cannot parse an absolute URL.
pub uninterp spec fn url_parts(input: Seq<char>) -> Option<(Seq<char>, bool)>;

/// `url::Url::parse`, then `Url::scheme` and `Url::host_str` of the result. The
/// contract claims only that the outcome is the one that `url_parts` names for the
/// text; what the parser accepts is left unsaid.
#[verifier::external_body]
fn parse_url(raw: &str) -> (r: Option<(String, bool)>)
    ensures
        match r {
            Some(p) => url_parts(raw@) == Some((p.0@, p.1)),
            None => url_parts(raw@) is None,
        },
{
    match url::Url::parse(raw) {
        Ok(parsed) => Some((parsed.scheme().to_string(), parsed.host_str().is_some())),
        Err(_) => None,
    }
}

/// The URL a value holds: a string that, trimmed, is not empty, has at most `max`
/// bytes and parses; `None` otherwise.
pub open spec fn url_value(v: Option<JsonValue>, max: nat) -> Option<(Seq<char>, bool)> {
    match v {
        Some(JsonValue::String(s)) => {
            let t = trim(s@);
            if t.len() == 0 || encode_utf8(t).len() > max {
                None
            } else {
                url_parts(t)
            }
        },
        _ => None,
    }
}

fn read_url(value: Option<&JsonValue>, max: usize) -> (r: Option<(String, bool)>)
    ensures
        match r {
            Some(p) => url_value(opt_ref(value), max as nat) == Some((p.0@, p.1)),
            None => url_value(opt_ref(value), max as nat) is None,
        },
{
    let s = match value {
        Some(JsonValue::String(s)) => s,
        _ => {
            return None;
        },
    };
    let t = trim_chars(chars_of(s.as_str()).as_slice());
    if t.len() == 0 {
        return None;
    }
    let raw = string_of(t.as_slice());
    let bytes = raw.as_str().as_bytes().len();
    if bytes > max {
        return None;
    }
    parse_url(raw.as_str())
}

/// Why a value is not an HTTP(S) address with a host, if it is not.
pub open spec fn http_url_problem(v: Option<JsonValue>, label: Seq<char>) -> Option<Seq<char>> {
    match url_value(v, 4096) {
        None => Some(labelled(label, "格式无效"@)),
        Some(p) => if (p.0 == "http"@ || p.0 == "https"@) && p.1 {
            None
        } else {
            Some(labelled(label, "只允许 HTTP(S) 地址"@))
        },
    }
}

/// Checks an HTTP(S) address with a host.
pub fn validate_http_url(value: Option<&JsonValue>, label: &str) -> (r: Result<(), RemoteRpcError>)
    ensures
        match r {
            Ok(()) => http_url_problem(opt_ref(value), label@) is None,
            Err(e) => e.status == 400 && e.code@ == "INVALID_ARGUMENTS"@ && http_url_problem(opt_ref(value), label@) == Some(e.message@),
        },
{
    match read_url(value, 4096) {
        None => rpc_error_of(label_message(label, "格式无效")),
        Some((scheme, host)) => {
            let cs = chars_of(scheme.as_str());
            if (eq_str(cs.as_slice(), "http") || eq_str(cs.as_slice(), "https")) && host {
                Ok(())
            } else {
                rpc_error_of(label_message(label, "只允许 HTTP(S) 地址"))
            }
        },
    }
}

/// Why a value is not a magnet or HTTP(S) download address, if it is not.
pub open spec fn download_url_problem(v: Option<JsonValue>) -> Option<Seq<char>> {
    match url_value(v, 8192) {
        None => Some("下载地址格式无效"@),
        Some(p) => if p.0 == "magnet"@ || p.0 == "http"@ || p.0 == "https"@ {
            None
        } else {
            Some("下载地址只允许 magnet 或 HTTP(S)"@)
        },
    }
}

/// Checks a magnet or HTTP(S) download address.
pub fn validate_download_url(value: Option<&JsonValue>) -> (r: Result<(), RemoteRpcError>)
    ensures
        match r {
            Ok(()) => download_url_problem(opt_ref(value)) is None,
            Err(e) => e.status == 400 && e.code@ == "INVALID_ARGUMENTS"@ && download_url_problem(opt_ref(value)) == Some(e.message@),
        },
{
    match read_url(value, 8192) {
        None => rpc_error_of(String::from_str("下载地址格式无效")),
        Some((scheme, _)) => {
            let cs = chars_of(scheme.as_str());
            if eq_str(cs.as_slice(), "magnet") || eq_str(cs.as_slice(), "http") || eq_str(cs.as_slice(), "https") {
                Ok(())
            } else {
                rpc_error_of(String::from_str("下载地址只允许 magnet 或 HTTP(S)"))
            }
        },
    }
}

/// Why a value is not a manual proxy address, if it is not.
pub open spec fn proxy_url_problem(v: Option<JsonValue>) -> Option<Seq<char>> {
    match url_value(v, 2048) {
        None => Some("手动代理地址格式无效"@),
        Some(p) => if p.0 == "http"@ || p.0 == "https"@ || p.0 == "socks5"@ || p.0 == "socks5h"@ {
            None
        } else {
            Some("手动代理协议不受支持"@)
        },
    }
}

/// Checks a manual proxy address: HTTP(S) or SOCKS5.
pub fn validate_proxy_url(value: Option<&JsonValue>) -> (r: Result<(), RemoteRpcError>)
    ensures
        match r {
            Ok(()) => proxy_url_problem(opt_ref(value)) is None,
            Err(e) => e.status == 400 && e.code@ == "INVALID_ARGUMENTS"@ && proxy_url_problem(opt_ref(value)) == Some(e.message@),
        },
{
    match read_url(value, 2048) {
        None => rpc_error_of(String::from_str("手动代理地址格式无效")),
        Some((scheme, _)) => {
            let cs = chars_of(scheme.as_str());
            if eq_str(cs.as_slice(), "http") || eq_str(cs.as_slice(), "https") || eq_str(cs.as_slice(), "socks5")
                || eq_str(cs.as_slice(), "socks5h") {
                Ok(())
            } else {
                rpc_error_of(String::from_str("手动代理协议不受支持"))
            }
        },
    }
}

/// Why a search limit is invalid, if it is: missing, null, or an integer from 1 to 200.
pub open spec fn limit_problem(v: Option<JsonValue>) -> Option<Seq<char>> {
    match v {
        None => None,
        Some(JsonValue::Null) => None,
        Some(x) => match as_u64_spec(x) {
            Some(n) => if 1 <= n <= 200 {
                None
            } else {
                Some("搜索数量必须是 1 到 200 的整数"@)
            },
            None => Some("搜索数量必须是 1 到 200 的整数"@),
        },
    }
}

/// Checks a search limit.
pub fn validate_limit(value: Option<&JsonValue>) -> (r: Result<(), RemoteRpcError>)
    ensures
        match r {
            Ok(()) => limit_problem(opt_ref(value)) is None,
            Err(e) => e.status == 400 && e.code@ == "INVALID_ARGUMENTS"@ && limit_problem(opt_ref(value)) == Some(e.message@),
        },
{
    match value {
        None => Ok(()),
        Some(JsonValue::Null) => Ok(()),
        Some(v) => match as_u64(v) {
            Some(n) => if 1 <= n && n <= 200 {
                Ok(())
            } else {
                rpc_error_of(String::from_str("搜索数量必须是 1 到 200 的整数"))
            },
            None => rpc_error_of(String::from_str("搜索数量必须是 1 到 200 的整数")),
        },
    }
}

/// Why an optional integer is outside `[min, max]`, if it is.
pub open spec fn optional_integer_problem(v: Option<JsonValue>, label: Seq<char>, min: int, max: int) -> Option<Seq<char>> {
    match v {
        None => None,
        Some(JsonValue::Null) => None,
        Some(x) => match as_i64_spec(x) {
            Some(n) => if min <= n <= max {
                None
            } else {
                Some(labelled(label, "范围无效"@))
            },
            None => Some(labelled(label, "范围无效"@)),
        },
    }
}

/// Checks an optional integer in `[minimum, maximum]`.
pub fn validate_optional_integer(value: Option<&JsonValue>, label: &str, minimum: i64, maximum: i64) -> (r: Result<(), RemoteRpcError>)
    ensures
        match r {
            Ok(()) => optional_integer_problem(opt_ref(value), label@, minimum as int, maximum as int) is None,
            Err(e) => e.status == 400 && e.code@ == "INVALID_ARGUMENTS"@ && optional_integer_problem(opt_ref(value), label@, minimum as int, maximum as int) == Some(e.message@),
        },
{
    match value {
        None => Ok(()),
        Some(JsonValue::Null) => Ok(()),
        Some(v) => match as_i64(v) {
            Some(n) => if minimum <= n && n <= maximum {
                Ok(())
            } else {
                rpc_error_of(label_message(label, "范围无效"))
            },
            None => rpc_error_of(label_message(label, "范围无效")),
        },
    }
}

/// Why a playback file index is invalid, if it is: when present it is a non-negative integer.
pub open spec fn file_index_problem(v: Option<JsonValue>) -> Option<Seq<char>> {
    match v {
        None => None,
        Some(x) => match as_i64_spec(x) {
            Some(n) => if n >= 0 {
                None
            } else {
                Some("播放文件索引必须是非负整数"@)
            },
            None => Some("播放文件索引必须是非负整数"@),
        },
    }
}

/// Checks an optional playback file index.
pub fn validate_optional_file_index(value: Option<&JsonValue>) -> (r: Result<(), RemoteRpcError>)
    ensures
        match r {
            Ok(()) => file_index_problem(opt_ref(value)) is None,
            Err(e) => e.status == 400 && e.code@ == "INVALID_ARGUMENTS"@ && file_index_problem(opt_ref(value)) == Some(e.message@),
        },
{
    match value {
        None => Ok(()),
        Some(v) => match as_i64(v) {
            Some(n) => if n >= 0 {
                Ok(())
            } else {
                rpc_error_of(String::from_str("播放文件索引必须是非负整数"))
            },
            None => rpc_error_of(String::from_str("播放文件索引必须是非负整数")),
        },
    }
}

/// The message of an argument count other than `expected`.
pub open spec fn count_message(expected: nat) -> Seq<char> {
    "参数数量无效，预期 "@ + decimal(expected) + " 个"@
}

/// Why an argument list does not have `expected` items, if it does not.
pub open spec fn count_problem(args: Seq<JsonValue>, expected: nat) -> Option<Seq<char>> {
    if args.len() != expected {
        Some(count_message(expected))
    } else {
        None
    }
}

/// Checks that there are exactly `expected` arguments.
pub fn require_count(args: &Vec<JsonValue>, expected: usize) -> (r: Result<(), RemoteRpcError>)
    ensures
        match r {
            Ok(()) => count_problem(args@, expected as nat) is None,
            Err(e) => e.status == 400 && e.code@ == "INVALID_ARGUMENTS"@ && count_problem(args@, expected as nat) == Some(e.message@),
        },
{
    if args.len() != expected {
        let mut m = chars_of("参数数量无效，预期 ");
        let d = format_decimal(expected as u64);
        append_chars(&mut m, d.as_slice());
        append_str(&mut m, " 个");
        return rpc_error_of(string_of(m.as_slice()));
    }
    Ok(())
}

/// Whether a text is a daily time `HH:MM`: two characters of hour below 24, a colon
/// and two characters of minute below 60, each read as `u8::from_str` reads it.
pub open spec fn daily_time(s: Seq<char>) -> bool {
    match split_once_spec(s, ':') {
        Some(p) => p.0.len() == 2 && p.1.len() == 2 && (parse_u8_spec(p.0) matches Some(h) && h < 24)
            && (parse_u8_spec(p.1) matches Some(m) && m < 60),
        None => false,
    }
}

/// Checks a daily time `HH:MM`.
pub fn is_daily_time(value: &str) -> (r: bool)
    ensures
        r == daily_time(value@),
{
    let cs = chars_of(value);
    match split_once(cs.as_slice(), ':') {
        Some((hour, minute)) => {
            if hour.len() != 2 || minute.len() != 2 {
                return false;
            }
            let h = parse_u8(hour.as_slice());
            let m = parse_u8(minute.as_slice());
            match (h, m) {
                (Some(h), Some(m)) => h < 24 && m < 60,
                _ => false,
            }
        },
        None => false,
    }
}


/// A check's result against its specified problem: `Ok` exactly when there is none,
/// and otherwise an argument error that carries the problem as its message.
pub open spec fn outcome(r: Result<(), RemoteRpcError>, problem: Option<Seq<char>>) -> bool {
    match r {
        Ok(()) => problem is None,
        Err(e) => e.status == 400 && e.code@ == "INVALID_ARGUMENTS"@ && problem == Some(e.message@),
    }
}

/// Whether `key` is one of `allowed`.
pub open spec fn key_allowed(key: Seq<char>, allowed: Seq<&str>) -> bool {
    exists|j: int| 0 <= j < allowed.len() && (#[trigger] allowed[j])@ == key
}

/// Whether every member name of an object is one of `allowed`.
pub open spec fn keys_within(members: Seq<(String, JsonValue)>, allowed: Seq<&str>) -> bool {
    forall|i: int| 0 <= i < members.len() ==> key_allowed(#[trigger] members[i].0@, allowed)
}

pub fn key_in(key: &str, allowed: &[&str]) -> (r: bool)
    ensures
        r == key_allowed(key@, allowed@),
{
    let k = chars_of(key);
    let mut j: usize = 0;
    while j < allowed.len()
        invariant
            j <= allowed@.len(),
            k@ == key@,
            forall|jj: int| 0 <= jj < j ==> (#[trigger] allowed@[jj])@ != key@,
        decreases allowed@.len() - j,
    {
        let a = chars_of(allowed[j]);
        if chars_eq(a.as_slice(), k.as_slice()) {
            assert(allowed@[j as int]@ == key@);
            return true;
        }
        j = j + 1;
    }
    false
}

fn keys_within_exec(members: &Vec<(String, JsonValue)>, allowed: &[&str]) -> (r: bool)
    ensures
        r == keys_within(members@, allowed@),
{
    let mut i: usize = 0;
    while i < members.len()
        invariant
            i <= members@.len(),
            forall|ii: int| 0 <= ii < i ==> key_allowed(#[trigger] members@[ii].0@, allowed@),
        decreases members@.len() - i,
    {
        if !key_in(members[i].0.as_str(), allowed) {
            return false;
        }
        i = i + 1;
    }
    true
}

/// The members of an object value; none for another value.
pub open spec fn members_of(v: JsonValue) -> Seq<(String, JsonValue)> {
    match v {
        JsonValue::Object(m) => m@,
        _ => Seq::empty(),
    }
}

/// Why a value is not an object with only `allowed` members, if it is not.
pub open spec fn nested_problem(v: JsonValue, allowed: Seq<&str>, label: Seq<char>) -> Option<Seq<char>> {
    match v {
        JsonValue::Object(m) => if keys_within(m@, allowed) {
            None
        } else {
            Some(labelled(label, "包含不允许的字段"@))
        },
        _ => Some(labelled(label, "格式无效"@)),
    }
}

/// Checks a nested settings object and hands back its members.
pub fn validate_nested_object<'a>(value: &'a JsonValue, allowed: &[&str], label: &str) -> (r: Result<&'a Vec<(String, JsonValue)>, RemoteRpcError>)
    ensures
        match r {
            Ok(m) => nested_problem(*value, allowed@, label@) is None && m@ == members_of(*value),
            Err(e) => e.status == 400 && e.code@ == "INVALID_ARGUMENTS"@ && nested_problem(*value, allowed@, label@) == Some(e.message@),
        },
{
    match value {
        JsonValue::Object(m) => if keys_within_exec(m, allowed) {
            Ok(m)
        } else {
            Err(invalid_args(label_message(label, "包含不允许的字段")))
        },
        _ => Err(invalid_args(label_message(label, "格式无效"))),
    }
}

/// Why an argument list is not a single object with only `allowed` members, if it is not.
pub open spec fn object_input_problem(args: Seq<JsonValue>, allowed: Seq<&str>) -> Option<Seq<char>> {
    if args.len() != 1 {
        Some(count_message(1))
    } else {
        match args[0] {
            JsonValue::Object(m) => if keys_within(m@, allowed) {
                None
            } else {
                Some("远程参数包含未知字段"@)
            },
            _ => Some("远程参数格式无效"@),
        }
    }
}

/// Checks that the arguments are one object with only `allowed` members, and hands
/// back its members.
pub fn validate_object_input<'a>(args: &'a Vec<JsonValue>, allowed: &[&str]) -> (r: Result<&'a Vec<(String, JsonValue)>, RemoteRpcError>)
    ensures
        match r {
            Ok(m) => object_input_problem(args@, allowed@) is None && args@.len() == 1 && m@ == members_of(args@[0]),
            Err(e) => e.status == 400 && e.code@ == "INVALID_ARGUMENTS"@ && object_input_problem(args@, allowed@) == Some(e.message@),
        },
{
    let c = require_count(args, 1);
    if let Err(e) = c {
        return Err(e);
    }
    match &args[0] {
        JsonValue::Object(m) => if keys_within_exec(m, allowed) {
            Ok(m)
        } else {
            Err(invalid_args(String::from_str("远程参数包含未知字段")))
        },
        _ => Err(invalid_args(String::from_str("远程参数格式无效"))),
    }
}

/// Why the member `key` is not an identifier, if it is not; a missing member counts as null.
pub open spec fn member_id_problem(m: Seq<(String, JsonValue)>, key: Seq<char>, label: Seq<char>) -> Option<Seq<char>> {
    id_problem(or_null(member_get(m, key)), label)
}

fn check_id(value: &JsonValue, label: &str) -> (r: Result<(), RemoteRpcError>)
    ensures
        outcome(r, id_problem(*value, label@)),
{
    match parse_id(value, label) {
        Ok(_) => Ok(()),
        Err(e) => Err(e),
    }
}

fn check_member_id(m: &Vec<(String, JsonValue)>, key: &str, label: &str) -> (r: Result<(), RemoteRpcError>)
    ensures
        outcome(r, member_id_problem(m@, key@, label@)),
{
    match members_get(m, key) {
        Some(v) => check_id(v, label),
        None => check_id(&JsonValue::Null, label),
    }
}


/// A member of an object, as an optional value.
pub open spec fn field(m: Seq<(String, JsonValue)>, key: Seq<char>) -> Option<JsonValue> {
    member_get(m, key)
}

/// Why a present member fails a number range, if it does; a missing member is fine.
pub open spec fn present_number_problem(v: Option<JsonValue>, label: Seq<char>, lo: (int, int), hi: (int, int)) -> Option<Seq<char>> {
    match v {
        Some(x) => number_problem(Some(x), label, lo, hi),
        None => None,
    }
}

fn check_present_number(value: Option<&JsonValue>, label: &str, lo_m: i64, lo_e: i64, hi_m: i64, hi_e: i64) -> (r: Result<(), RemoteRpcError>)
    requires
        -0x20_0000_0000_0000 < lo_m < 0x20_0000_0000_0000,
        -0x20_0000_0000_0000 < hi_m < 0x20_0000_0000_0000,
        -64 <= lo_e <= 0,
        -64 <= hi_e <= 0,
    ensures
        outcome(r, present_number_problem(opt_ref(value), label@, (lo_m as int, lo_e as int), (hi_m as int, hi_e as int))),
{
    match value {
        Some(v) => validate_number(Some(v), label, lo_m, lo_e, hi_m, hi_e),
        None => Ok(()),
    }
}

/// The members allowed in seeding limits.
pub open spec fn seeding_keys() -> Seq<&'static str> {
    seq!["enabled", "ratioEnabled", "ratioLimit", "timeEnabled", "timeLimitMinutes"]
}

/// Why seeding limits are invalid, if they are. The lowest share ratio is the double
/// nearest to 0.1, that is 3602879701896397 * 2^-55.
pub open spec fn seeding_problem(v: JsonValue) -> Option<Seq<char>> {
    let m = members_of(v);
    first_of(nested_problem(v, seeding_keys(), "做种限制"@),
    first_of(optional_bool_problem(field(m, "enabled"@), "做种限制开关"@),
    first_of(optional_bool_problem(field(m, "ratioEnabled"@), "做种限制开关"@),
    first_of(optional_bool_problem(field(m, "timeEnabled"@), "做种限制开关"@),
    first_of(present_number_problem(field(m, "ratioLimit"@), "分享率"@, (3602879701896397, -55), (1000, 0)),
    optional_integer_problem(field(m, "timeLimitMinutes"@), "做种时间"@, 0, 525600))))))
}

/// Checks the seeding limits shared by both download engines.
pub fn validate_seeding_limits(value: &JsonValue) -> (r: Result<(), RemoteRpcError>)
    ensures
        outcome(r, seeding_problem(*value)),
{
    let keys = ["enabled", "ratioEnabled", "ratioLimit", "timeEnabled", "timeLimitMinutes"];
    assert(keys@ == seeding_keys());
    let m = match validate_nested_object(value, &keys, "做种限制") {
        Ok(m) => m,
        Err(e) => {
            return Err(e);
        },
    };
    let r = validate_optional_bool(members_get(m, "enabled"), "做种限制开关");
    if r.is_err() {
        return r;
    }
    let r = validate_optional_bool(members_get(m, "ratioEnabled"), "做种限制开关");
    if r.is_err() {
        return r;
    }
    let r = validate_optional_bool(members_get(m, "timeEnabled"), "做种限制开关");
    if r.is_err() {
        return r;
    }
    let r = check_present_number(members_get(m, "ratioLimit"), "分享率", 3602879701896397, -55, 1000, 0);
    if r.is_err() {
        return r;
    }
    validate_optional_integer(members_get(m, "timeLimitMinutes"), "做种时间", 0, 525600)
}


/// Why a present member fails the seeding limits, if it does.
pub open spec fn present_seeding_problem(v: Option<JsonValue>) -> Option<Seq<char>> {
    match v {
        Some(x) => seeding_problem(x),
        None => None,
    }
}

fn check_present_seeding(value: Option<&JsonValue>) -> (r: Result<(), RemoteRpcError>)
    ensures
        outcome(r, present_seeding_problem(opt_ref(value))),
{
    match value {
        Some(v) => validate_seeding_limits(v),
        None => Ok(()),
    }
}

/// The members allowed in the embedded engine settings.
pub open spec fn embedded_keys() -> Seq<&'static str> {
    seq!["enabled", "listenPort", "dhtEnabled", "upnpEnabled", "maxActiveDownloads", "maxDownloadSpeed", "maxUploadSpeed", "seedingLimits"]
}

/// Why the embedded engine settings are invalid, if they are.
pub open spec fn embedded_problem(v: JsonValue) -> Option<Seq<char>> {
    let m = members_of(v);
    first_of(nested_problem(v, embedded_keys(), "内置下载核心设置"@),
    first_of(optional_bool_problem(field(m, "enabled"@), "内置下载核心开关"@),
    first_of(optional_bool_problem(field(m, "dhtEnabled"@), "内置下载核心开关"@),
    first_of(optional_bool_problem(field(m, "upnpEnabled"@), "内置下载核心开关"@),
    first_of(optional_integer_problem(field(m, "listenPort"@), "监听端口"@, 1024, 65535),
    first_of(optional_integer_problem(field(m, "maxActiveDownloads"@), "活动下载数"@, 1, 100),
    first_of(optional_integer_problem(field(m, "maxDownloadSpeed"@), "内置核心限速"@, 0, 10000000),
    first_of(optional_integer_problem(field(m, "maxUploadSpeed"@), "内置核心限速"@, 0, 10000000),
    present_seeding_problem(field(m, "seedingLimits"@))))))))))
}

/// Checks the settings of the embedded torrent engine.
pub fn validate_embedded_download_settings(value: &JsonValue) -> (r: Result<(), RemoteRpcError>)
    ensures
        outcome(r, embedded_problem(*value)),
{
    let keys = ["enabled", "listenPort", "dhtEnabled", "upnpEnabled", "maxActiveDownloads", "maxDownloadSpeed", "maxUploadSpeed", "seedingLimits"];
    assert(keys@ == embedded_keys());
    let m = match validate_nested_object(value, &keys, "内置下载核心设置") {
        Ok(m) => m,
        Err(e) => {
            return Err(e);
        },
    };
    let r = validate_optional_bool(members_get(m, "enabled"), "内置下载核心开关");
    if r.is_err() {
        return r;
    }
    let r = validate_optional_bool(members_get(m, "dhtEnabled"), "内置下载核心开关");
    if r.is_err() {
        return r;
    }
    let r = validate_optional_bool(members_get(m, "upnpEnabled"), "内置下载核心开关");
    if r.is_err() {
        return r;
    }
    let r = validate_optional_integer(members_get(m, "listenPort"), "监听端口", 1024, 65535);
    if r.is_err() {
        return r;
    }
    let r = validate_optional_integer(members_get(m, "maxActiveDownloads"), "活动下载数", 1, 100);
    if r.is_err() {
        return r;
    }
    let r = validate_optional_integer(members_get(m, "maxDownloadSpeed"), "内置核心限速", 0, 10000000);
    if r.is_err() {
        return r;
    }
    let r = validate_optional_integer(members_get(m, "maxUploadSpeed"), "内置核心限速", 0, 10000000);
    if r.is_err() {
        return r;
    }
    check_present_seeding(members_get(m, "seedingLimits"))
}

/// The members allowed in the managed qBittorrent settings.
pub open spec fn managed_keys() -> Seq<&'static str> {
    seq!["enabled", "startupTimeoutMs"]
}

/// Why the managed qBittorrent settings are invalid, if they are.
pub open spec fn managed_problem(v: JsonValue) -> Option<Seq<char>> {
    let m = members_of(v);
    first_of(nested_problem(v, managed_keys(), "托管 qBittorrent 设置"@),
    first_of(optional_bool_problem(field(m, "enabled"@), "托管 qBittorrent 开关"@),
    optional_integer_problem(field(m, "startupTimeoutMs"@), "托管 qBittorrent 启动超时"@, 1000, 120000)))
}

fn validate_managed_settings(value: &JsonValue) -> (r: Result<(), RemoteRpcError>)
    ensures
        outcome(r, managed_problem(*value)),
{
    let keys = ["enabled", "startupTimeoutMs"];
    assert(keys@ == managed_keys());
    let m = match validate_nested_object(value, &keys, "托管 qBittorrent 设置") {
        Ok(m) => m,
        Err(e) => {
            return Err(e);
        },
    };
    let r = validate_optional_bool(members_get(m, "enabled"), "托管 qBittorrent 开关");
    if r.is_err() {
        return r;
    }
    validate_optional_integer(members_get(m, "startupTimeoutMs"), "托管 qBittorrent 启动超时", 1000, 120000)
}

/// The members allowed in the qBittorrent settings.
pub open spec fn qbittorrent_keys() -> Seq<&'static str> {
    seq!["baseUrl", "username", "password", "autoConnect", "downloadLimitKiBps", "uploadLimitKiBps", "seedingLimits", "managed"]
}

/// Why the qBittorrent settings are invalid, if they are.
pub open spec fn qbittorrent_problem(v: JsonValue) -> Option<Seq<char>> {
    let m = members_of(v);
    first_of(nested_problem(v, qbittorrent_keys(), "qBittorrent 设置"@),
    first_of(if field(m, "baseUrl"@) is Some { http_url_problem(field(m, "baseUrl"@), "qBittorrent WebUI 地址"@) } else { None },
    first_of(optional_text_problem(field(m, "username"@), "qBittorrent 用户名"@, 256),
    first_of(optional_text_problem(field(m, "password"@), "qBittorrent 密码"@, 2048),
    first_of(optional_bool_problem(field(m, "autoConnect"@), "qBittorrent 自动连接开关"@),
    first_of(optional_integer_problem(field(m, "downloadLimitKiBps"@), "qBittorrent 限速"@, 0, 10000000),
    first_of(optional_integer_problem(field(m, "uploadLimitKiBps"@), "qBittorrent 限速"@, 0, 10000000),
    first_of(present_seeding_problem(field(m, "seedingLimits"@)),
    match field(m, "managed"@) {
        Some(x) => managed_problem(x),
        None => None,
    }))))))))
}

/// Checks the settings of an external or managed qBittorrent.
pub fn validate_qbittorrent_settings(value: &JsonValue) -> (r: Result<(), RemoteRpcError>)
    ensures
        outcome(r, qbittorrent_problem(*value)),
{
    let keys = ["baseUrl", "username", "password", "autoConnect", "downloadLimitKiBps", "uploadLimitKiBps", "seedingLimits", "managed"];
    assert(keys@ == qbittorrent_keys());
    let m = match validate_nested_object(value, &keys, "qBittorrent 设置") {
        Ok(m) => m,
        Err(e) => {
            return Err(e);
        },
    };
    let base = members_get(m, "baseUrl");
    if base.is_some() {
        let r = validate_http_url(base, "qBittorrent WebUI 地址");
        if r.is_err() {
            return r;
        }
    }
    let r = validate_optional_text(members_get(m, "username"), "qBittorrent 用户名", 256);
    if r.is_err() {
        return r;
    }
    let r = validate_optional_text(members_get(m, "password"), "qBittorrent 密码", 2048);
    if r.is_err() {
        return r;
    }
    let r = validate_optional_bool(members_get(m, "autoConnect"), "qBittorrent 自动连接开关");
    if r.is_err() {
        return r;
    }
    let r = validate_optional_integer(members_get(m, "downloadLimitKiBps"), "qBittorrent 限速", 0, 10000000);
    if r.is_err() {
        return r;
    }
    let r = validate_optional_integer(members_get(m, "uploadLimitKiBps"), "qBittorrent 限速", 0, 10000000);
    if r.is_err() {
        return r;
    }
    let r = check_present_seeding(members_get(m, "seedingLimits"));
    if r.is_err() {
        return r;
    }
    match members_get(m, "managed") {
        Some(managed) => validate_managed_settings(managed),
        None => Ok(()),
    }
}

/// The members allowed in the download settings.
pub open spec fn download_keys() -> Seq<&'static str> {
    seq![
        "defaultDownloadDir",
        "createAnimeFolder",
        "animeFolderPattern",
        "temporaryDownloadDir",
        "defaultTorrentEngine",
        "allowMeteredDownloads",
        "embedded",
        "qbittorrent"
    ]
}

/// Why a present default engine is not `embedded` or `qbittorrent`, if it is not.
pub open spec fn engine_problem(v: Option<JsonValue>) -> Option<Seq<char>> {
    match v {
        None => None,
        Some(JsonValue::String(s)) => if s@ == "embedded"@ || s@ == "qbittorrent"@ {
            None
        } else {
            Some("默认下载引擎无效"@)
        },
        Some(_) => Some("默认下载引擎无效"@),
    }
}

/// Why the download settings are invalid, if they are.
pub open spec fn download_settings_problem(v: JsonValue) -> Option<Seq<char>> {
    let m = members_of(v);
    first_of(nested_problem(v, download_keys(), "下载设置"@),
    first_of(if field(m, "defaultDownloadDir"@) is Some { text_problem(field(m, "defaultDownloadDir"@), "默认下载目录"@, 1, 4096) } else { None },
    first_of(if field(m, "animeFolderPattern"@) is Some { text_problem(field(m, "animeFolderPattern"@), "番剧目录模板"@, 1, 512) } else { None },
    first_of(optional_text_problem(field(m, "temporaryDownloadDir"@), "临时下载目录"@, 4096),
    first_of(optional_bool_problem(field(m, "createAnimeFolder"@), "创建番剧目录开关"@),
    first_of(optional_bool_problem(field(m, "allowMeteredDownloads"@), "移动网络下载开关"@),
    first_of(engine_problem(field(m, "defaultTorrentEngine"@)),
    first_of(match field(m, "embedded"@) {
        Some(x) => embedded_problem(x),
        None => None,
    },
    match field(m, "qbittorrent"@) {
        Some(x) => qbittorrent_problem(x),
        None => None,
    }))))))))
}

fn check_engine(value: Option<&JsonValue>) -> (r: Result<(), RemoteRpcError>)
    ensures
        outcome(r, engine_problem(opt_ref(value))),
{
    match value {
        None => Ok(()),
        Some(JsonValue::String(s)) => {
            let cs = chars_of(s.as_str());
            if eq_str(cs.as_slice(), "embedded") || eq_str(cs.as_slice(), "qbittorrent") {
                Ok(())
            } else {
                rpc_error_of(String::from_str("默认下载引擎无效"))
            }
        },
        Some(_) => rpc_error_of(String::from_str("默认下载引擎无效")),
    }
}

/// Checks the download settings a remote device may change.
pub fn validate_download_settings(value: &JsonValue) -> (r: Result<(), RemoteRpcError>)
    ensures
        outcome(r, download_settings_problem(*value)),
{
    let keys = [
        "defaultDownloadDir",
        "createAnimeFolder",
        "animeFolderPattern",
        "temporaryDownloadDir",
        "defaultTorrentEngine",
        "allowMeteredDownloads",
        "embedded",
        "qbittorrent",
    ];
    assert(keys@ == download_keys());
    let m = match validate_nested_object(value, &keys, "下载设置") {
        Ok(m) => m,
        Err(e) => {
            return Err(e);
        },
    };
    let dir = members_get(m, "defaultDownloadDir");
    if dir.is_some() {
        let r = validate_text(dir, "默认下载目录", 1, 4096);
        if r.is_err() {
            return r;
        }
    }
    let pattern = members_get(m, "animeFolderPattern");
    if pattern.is_some() {
        let r = validate_text(pattern, "番剧目录模板", 1, 512);
        if r.is_err() {
            return r;
        }
    }
    let r = validate_optional_text(members_get(m, "temporaryDownloadDir"), "临时下载目录", 4096);
    if r.is_err() {
        return r;
    }
    let r = validate_optional_bool(members_get(m, "createAnimeFolder"), "创建番剧目录开关");
    if r.is_err() {
        return r;
    }
    let r = validate_optional_bool(members_get(m, "allowMeteredDownloads"), "移动网络下载开关");
    if r.is_err() {
        return r;
    }
    let r = check_engine(members_get(m, "defaultTorrentEngine"));
    if r.is_err() {
        return r;
    }
    match members_get(m, "embedded") {
        Some(e) => {
            let r = validate_embedded_download_settings(e);
            if r.is_err() {
                return r;
            }
        },
        None => {},
    }
    match members_get(m, "qbittorrent") {
        Some(q) => validate_qbittorrent_settings(q),
        None => Ok(()),
    }
}


/// Why a list of candidate fansub names is invalid, if it is: the first name that is
/// not a text of 1 to 120 characters.
pub open spec fn names_problem(names: Seq<JsonValue>) -> Option<Seq<char>>
    decreases names.len(),
{
    if names.len() == 0 {
        None
    } else {
        first_of(text_problem(Some(names[0]), "候选字幕组名称"@, 1, 120), names_problem(names.subrange(1, names.len() as int)))
    }
}

fn check_names(names: &Vec<JsonValue>) -> (r: Result<(), RemoteRpcError>)
    ensures
        outcome(r, names_problem(names@)),
{
    let n = names.len();
    let mut i: usize = 0;
    assert(names@.subrange(0, n as int) =~= names@);
    while i < n
        invariant
            n == names@.len(),
            i <= n,
            names_problem(names@.subrange(i as int, n as int)) == names_problem(names@),
        decreases n - i,
    {
        let ghost rest = names@.subrange(i as int, n as int);
        assert(rest[0] == names@[i as int]);
        assert(rest.subrange(1, rest.len() as int) =~= names@.subrange(i + 1, n as int));
        let r = validate_text(Some(&names[i]), "候选字幕组名称", 1, 120);
        if r.is_err() {
            return r;
        }
        i = i + 1;
    }
    assert(names@.subrange(n as int, n as int).len() == 0);
    Ok(())
}

/// The members allowed in the automation settings.
pub open spec fn automation_keys() -> Seq<&'static str> {
    seq![
        "scheduledCheckEnabled",
        "checkIntervalMinutes",
        "notifyOnNewEpisode",
        "autoDownloadEnabledGlobally",
        "fallbackWhenDefaultFansubMissing",
        "candidateFansubNames"
    ]
}

/// Why a present check interval is not 5 to 10080 minutes, if it is not.
pub open spec fn interval_problem(v: Option<JsonValue>) -> Option<Seq<char>> {
    match v {
        None => None,
        Some(x) => match as_i64_spec(x) {
            Some(n) => if 5 <= n <= 10080 {
                None
            } else {
                Some("自动检查间隔必须是 5 到 10080 分钟"@)
            },
            None => Some("自动检查间隔必须是 5 到 10080 分钟"@),
        },
    }
}

/// Why a present fallback policy is not `wait`, `candidate` or `notify_only`, if it is not.
pub open spec fn fallback_problem(v: Option<JsonValue>) -> Option<Seq<char>> {
    match v {
        None => None,
        Some(JsonValue::String(s)) => if s@ == "wait"@ || s@ == "candidate"@ || s@ == "notify_only"@ {
            None
        } else {
            Some("默认字幕组缺失策略无效"@)
        },
        Some(_) => Some("默认字幕组缺失策略无效"@),
    }
}

/// Why present candidate fansub names are invalid, if they are.
pub open spec fn candidate_names_problem(v: Option<JsonValue>) -> Option<Seq<char>> {
    match v {
        None => None,
        Some(JsonValue::Array(names)) => if names@.len() > 64 {
            Some("候选字幕组名称数量过多"@)
        } else {
            names_problem(names@)
        },
        Some(_) => Some("候选字幕组名称格式无效"@),
    }
}

/// Why the automation settings are invalid, if they are.
pub open spec fn automation_problem(v: JsonValue) -> Option<Seq<char>> {
    let m = members_of(v);
    first_of(nested_problem(v, automation_keys(), "自动化设置"@),
    first_of(optional_bool_problem(field(m, "scheduledCheckEnabled"@), "自动化开关"@),
    first_of(optional_bool_problem(field(m, "notifyOnNewEpisode"@), "自动化开关"@),
    first_of(optional_bool_problem(field(m, "autoDownloadEnabledGlobally"@), "自动化开关"@),
    first_of(interval_problem(field(m, "checkIntervalMinutes"@)),
    first_of(fallback_problem(field(m, "fallbackWhenDefaultFansubMissing"@)),
    candidate_names_problem(field(m, "candidateFansubNames"@))))))))
}

fn check_interval(value: Option<&JsonValue>) -> (r: Result<(), RemoteRpcError>)
    ensures
        outcome(r, interval_problem(opt_ref(value))),
{
    match value {
        None => Ok(()),
        Some(v) => match as_i64(v) {
            Some(n) => if 5 <= n && n <= 10080 {
                Ok(())
            } else {
                rpc_error_of(String::from_str("自动检查间隔必须是 5 到 10080 分钟"))
            },
            None => rpc_error_of(String::from_str("自动检查间隔必须是 5 到 10080 分钟")),
        },
    }
}

fn check_fallback(value: Option<&JsonValue>) -> (r: Result<(), RemoteRpcError>)
    ensures
        outcome(r, fallback_problem(opt_ref(value))),
{
    match value {
        None => Ok(()),
        Some(JsonValue::String(s)) => {
            let cs = chars_of(s.as_str());
            if eq_str(cs.as_slice(), "wait") || eq_str(cs.as_slice(), "candidate") || eq_str(cs.as_slice(), "notify_only") {
                Ok(())
            } else {
                rpc_error_of(String::from_str("默认字幕组缺失策略无效"))
            }
        },
        Some(_) => rpc_error_of(String::from_str("默认字幕组缺失策略无效")),
    }
}

fn check_candidate_names(value: Option<&JsonValue>) -> (r: Result<(), RemoteRpcError>)
    ensures
        outcome(r, candidate_names_problem(opt_ref(value))),
{
    match value {
        None => Ok(()),
        Some(JsonValue::Array(names)) => if names.len() > 64 {
            rpc_error_of(String::from_str("候选字幕组名称数量过多"))
        } else {
            check_names(names)
        },
        Some(_) => rpc_error_of(String::from_str("候选字幕组名称格式无效")),
    }
}

/// Checks the automation settings.
pub fn validate_automation_settings(value: &JsonValue) -> (r: Result<(), RemoteRpcError>)
    ensures
        outcome(r, automation_problem(*value)),
{
    let keys = [
        "scheduledCheckEnabled",
        "checkIntervalMinutes",
        "notifyOnNewEpisode",
        "autoDownloadEnabledGlobally",
        "fallbackWhenDefaultFansubMissing",
        "candidateFansubNames",
    ];
    assert(keys@ == automation_keys());
    let m = match validate_nested_object(value, &keys, "自动化设置") {
        Ok(m) => m,
        Err(e) => {
            return Err(e);
        },
    };
    let r = validate_optional_bool(members_get(m, "scheduledCheckEnabled"), "自动化开关");
    if r.is_err() {
        return r;
    }
    let r = validate_optional_bool(members_get(m, "notifyOnNewEpisode"), "自动化开关");
    if r.is_err() {
        return r;
    }
    let r = validate_optional_bool(members_get(m, "autoDownloadEnabledGlobally"), "自动化开关");
    if r.is_err() {
        return r;
    }
    let r = check_interval(members_get(m, "checkIntervalMinutes"));
    if r.is_err() {
        return r;
    }
    let r = check_fallback(members_get(m, "fallbackWhenDefaultFansubMissing"));
    if r.is_err() {
        return r;
    }
    check_candidate_names(members_get(m, "candidateFansubNames"))
}

/// The members allowed in the source sync settings.
pub open spec fn source_sync_keys() -> Seq<&'static str> {
    seq!["enabled", "dailyTime"]
}

/// Why a present daily sync time is not `HH:MM` of five bytes, if it is not.
pub open spec fn daily_time_problem(v: Option<JsonValue>) -> Option<Seq<char>> {
    match v {
        None => None,
        Some(JsonValue::String(s)) => if daily_time(s@) && encode_utf8(s@).len() == 5 {
            None
        } else {
            Some("每日同步时间格式无效"@)
        },
        Some(_) => Some("每日同步时间格式无效"@),
    }
}

/// Why the source sync settings are invalid, if they are.
pub open spec fn source_sync_problem(v: JsonValue) -> Option<Seq<char>> {
    let m = members_of(v);
    first_of(nested_problem(v, source_sync_keys(), "来源同步设置"@),
    first_of(optional_bool_problem(field(m, "enabled"@), "来源同步开关"@),
    daily_time_problem(field(m, "dailyTime"@))))
}

fn check_daily_time(value: Option<&JsonValue>) -> (r: Result<(), RemoteRpcError>)
    ensures
        outcome(r, daily_time_problem(opt_ref(value))),
{
    match value {
        None => Ok(()),
        Some(JsonValue::String(s)) => {
            if !is_daily_time(s.as_str()) {
                return rpc_error_of(String::from_str("每日同步时间格式无效"));
            }
            if s.as_str().as_bytes().len() != 5 {
                return rpc_error_of(String::from_str("每日同步时间格式无效"));
            }
            Ok(())
        },
        Some(_) => rpc_error_of(String::from_str("每日同步时间格式无效")),
    }
}

/// Checks the source sync settings.
pub fn validate_source_sync_settings(value: &JsonValue) -> (r: Result<(), RemoteRpcError>)
    ensures
        outcome(r, source_sync_problem(*value)),
{
    let keys = ["enabled", "dailyTime"];
    assert(keys@ == source_sync_keys());
    let m = match validate_nested_object(value, &keys, "来源同步设置") {
        Ok(m) => m,
        Err(e) => {
            return Err(e);
        },
    };
    let r = validate_optional_bool(members_get(m, "enabled"), "来源同步开关");
    if r.is_err() {
        return r;
    }
    check_daily_time(members_get(m, "dailyTime"))
}

/// The members allowed in the network settings, and in the metadata proxy.
pub open spec fn network_keys() -> Seq<&'static str> {
    seq!["metadataProxy"]
}

/// The members allowed in the metadata proxy settings.
pub open spec fn proxy_keys() -> Seq<&'static str> {
    seq!["mode", "url", "timeoutMs"]
}

/// Why a proxy timeout is not 1000 to 120000 milliseconds, if it is not.
pub open spec fn timeout_problem(v: Option<JsonValue>) -> Option<Seq<char>> {
    match v {
        Some(x) => match as_u64_spec(x) {
            Some(n) => if 1000 <= n <= 120000 {
                None
            } else {
                Some("代理超时必须是 1 到 120 秒"@)
            },
            None => Some("代理超时必须是 1 到 120 秒"@),
        },
        None => Some("代理超时必须是 1 到 120 秒"@),
    }
}

/// Why the metadata proxy settings are invalid, if they are.
pub open spec fn proxy_problem(v: JsonValue) -> Option<Seq<char>> {
    let m = members_of(v);
    first_of(nested_problem(v, proxy_keys(), "元数据代理"@),
    first_of(match field(m, "mode"@) {
        Some(JsonValue::String(mode)) => if mode@ == "manual"@ {
            proxy_url_problem(field(m, "url"@))
        } else if mode@ == "off"@ || mode@ == "system"@ {
            optional_text_problem(field(m, "url"@), "代理地址"@, 2048)
        } else {
            Some("元数据代理模式无效"@)
        },
        _ => Some("元数据代理模式无效"@),
    },
    timeout_problem(field(m, "timeoutMs"@))))
}

/// Why the network settings are invalid, if they are.
pub open spec fn network_problem(v: JsonValue) -> Option<Seq<char>> {
    first_of(nested_problem(v, network_keys(), "网络设置"@),
    match field(members_of(v), "metadataProxy"@) {
        Some(p) => proxy_problem(p),
        None => Some("元数据代理设置缺失"@),
    })
}

fn check_timeout(value: Option<&JsonValue>) -> (r: Result<(), RemoteRpcError>)
    ensures
        outcome(r, timeout_problem(opt_ref(value))),
{
    match value {
        Some(v) => match as_u64(v) {
            Some(n) => if 1000 <= n && n <= 120000 {
                Ok(())
            } else {
                rpc_error_of(String::from_str("代理超时必须是 1 到 120 秒"))
            },
            None => rpc_error_of(String::from_str("代理超时必须是 1 到 120 秒")),
        },
        None => rpc_error_of(String::from_str("代理超时必须是 1 到 120 秒")),
    }
}

fn validate_proxy_settings(value: &JsonValue) -> (r: Result<(), RemoteRpcError>)
    ensures
        outcome(r, proxy_problem(*value)),
{
    let keys = ["mode", "url", "timeoutMs"];
    assert(keys@ == proxy_keys());
    let m = match validate_nested_object(value, &keys, "元数据代理") {
        Ok(m) => m,
        Err(e) => {
            return Err(e);
        },
    };
    let r = match members_get(m, "mode") {
        Some(JsonValue::String(mode)) => {
            let cs = chars_of(mode.as_str());
            if eq_str(cs.as_slice(), "manual") {
                validate_proxy_url(members_get(m, "url"))
            } else if eq_str(cs.as_slice(), "off") || eq_str(cs.as_slice(), "system") {
                validate_optional_text(members_get(m, "url"), "代理地址", 2048)
            } else {
                rpc_error_of(String::from_str("元数据代理模式无效"))
            }
        },
        _ => rpc_error_of(String::from_str("元数据代理模式无效")),
    };
    if r.is_err() {
        return r;
    }
    check_timeout(members_get(m, "timeoutMs"))
}

/// Checks the network settings.
pub fn validate_network_settings(value: &JsonValue) -> (r: Result<(), RemoteRpcError>)
    ensures
        outcome(r, network_problem(*value)),
{
    let keys = ["metadataProxy"];
    assert(keys@ == network_keys());
    let m = match validate_nested_object(value, &keys, "网络设置") {
        Ok(m) => m,
        Err(e) => {
            return Err(e);
        },
    };
    match members_get(m, "metadataProxy") {
        Some(p) => validate_proxy_settings(p),
        None => rpc_error_of(String::from_str("元数据代理设置缺失")),
    }
}

/// Why a settings patch is invalid, if it is.
pub open spec fn settings_patch_problem(m: Seq<(String, JsonValue)>) -> Option<Seq<char>> {
    if m.len() == 0 {
        Some("设置更新不能为空"@)
    } else {
        first_of(match field(m, "download"@) {
            Some(x) => download_settings_problem(x),
            None => None,
        },
        first_of(match field(m, "automation"@) {
            Some(x) => automation_problem(x),
            None => None,
        },
        first_of(match field(m, "sourceSync"@) {
            Some(x) => source_sync_problem(x),
            None => None,
        },
        match field(m, "network"@) {
            Some(x) => network_problem(x),
            None => None,
        })))
    }
}

/// Checks a settings patch: not empty, and each part present valid.
pub fn validate_settings_patch(object: &Vec<(String, JsonValue)>) -> (r: Result<(), RemoteRpcError>)
    ensures
        outcome(r, settings_patch_problem(object@)),
{
    if object.len() == 0 {
        return rpc_error_of(String::from_str("设置更新不能为空"));
    }
    match members_get(object, "download") {
        Some(d) => {
            let r = validate_download_settings(d);
            if r.is_err() {
                return r;
            }
        },
        None => {},
    }
    match members_get(object, "automation") {
        Some(a) => {
            let r = validate_automation_settings(a);
            if r.is_err() {
                return r;
            }
        },
        None => {},
    }
    match members_get(object, "sourceSync") {
        Some(s) => {
            let r = validate_source_sync_settings(s);
            if r.is_err() {
                return r;
            }
        },
        None => {},
    }
    match members_get(object, "network") {
        Some(n) => validate_network_settings(n),
        None => Ok(()),
    }
}


/// Whether a value is a number in `[lo, hi]`.
pub open spec fn number_value_ok(v: Option<JsonValue>, lo: (int, int), hi: (int, int)) -> bool {
    v matches Some(JsonValue::Number(n)) && number_in_range(n, lo, hi)
}

fn number_value_within(value: Option<&JsonValue>, lo_m: i64, lo_e: i64, hi_m: i64, hi_e: i64) -> (r: bool)
    requires
        -0x20_0000_0000_0000 < lo_m < 0x20_0000_0000_0000,
        -0x20_0000_0000_0000 < hi_m < 0x20_0000_0000_0000,
        -64 <= lo_e <= 0,
        -64 <= hi_e <= 0,
    ensures
        r == number_value_ok(opt_ref(value), (lo_m as int, lo_e as int), (hi_m as int, hi_e as int)),
{
    match value {
        Some(JsonValue::Number(n)) => number_within(n, lo_m, lo_e, hi_m, hi_e),
        _ => false,
    }
}

/// Why a present cache lifetime is not at most a year of milliseconds, if it is not.
pub open spec fn ttl_problem(v: Option<JsonValue>) -> Option<Seq<char>> {
    match v {
        None => None,
        Some(x) => match as_u64_spec(x) {
            Some(n) => if n <= 31_536_000_000 {
                None
            } else {
                Some("缓存时长范围无效"@)
            },
            None => Some("缓存时长范围无效"@),
        },
    }
}

/// Why the limits of a release search are invalid, if they are.
pub open spec fn search_limits_problem(m: Seq<(String, JsonValue)>) -> Option<Seq<char>> {
    first_of(limit_problem(field(m, "limit"@)),
    first_of(present_number_problem(field(m, "episodeNo"@), "集数"@, (0, 0), (100000, 0)),
    ttl_problem(field(m, "cacheTtlMs"@))))
}

/// Checks the limits of a release search.
pub fn validate_search_limits(object: &Vec<(String, JsonValue)>) -> (r: Result<(), RemoteRpcError>)
    ensures
        outcome(r, search_limits_problem(object@)),
{
    let r = validate_limit(members_get(object, "limit"));
    if r.is_err() {
        return r;
    }
    let r = check_present_number(members_get(object, "episodeNo"), "集数", 0, 0, 100000, 0);
    if r.is_err() {
        return r;
    }
    match members_get(object, "cacheTtlMs") {
        None => Ok(()),
        Some(v) => match as_u64(v) {
            Some(n) => if n <= 31_536_000_000 {
                Ok(())
            } else {
                rpc_error_of(String::from_str("缓存时长范围无效"))
            },
            None => rpc_error_of(String::from_str("缓存时长范围无效")),
        },
    }
}

/// Why a release query is invalid, if it is.
pub open spec fn release_query_problem(m: Seq<(String, JsonValue)>) -> Option<Seq<char>> {
    first_of(text_problem(field(m, "keyword"@), "搜索关键词"@, 1, 300), search_limits_problem(m))
}

/// Checks a release query: a keyword of 1 to 300 characters and valid limits.
pub fn validate_release_query(object: &Vec<(String, JsonValue)>) -> (r: Result<(), RemoteRpcError>)
    ensures
        outcome(r, release_query_problem(object@)),
{
    let r = validate_text(members_get(object, "keyword"), "搜索关键词", 1, 300);
    if r.is_err() {
        return r;
    }
    validate_search_limits(object)
}

/// Why the members named by `keys` are not all identifiers, if they are not.
pub open spec fn binding_ids_problem(m: Seq<(String, JsonValue)>, keys: Seq<&str>) -> Option<Seq<char>>
    decreases keys.len(),
{
    if keys.len() == 0 {
        None
    } else {
        first_of(member_id_problem(m, keys[0]@, "来源绑定标识"@), binding_ids_problem(m, keys.subrange(1, keys.len() as int)))
    }
}

/// Checks that the members named by `keys` are identifiers.
pub fn validate_binding_ids(object: &Vec<(String, JsonValue)>, keys: &[&str]) -> (r: Result<(), RemoteRpcError>)
    ensures
        outcome(r, binding_ids_problem(object@, keys@)),
{
    let n = keys.len();
    let mut i: usize = 0;
    assert(keys@.subrange(0, n as int) =~= keys@);
    while i < n
        invariant
            n == keys@.len(),
            i <= n,
            binding_ids_problem(object@, keys@.subrange(i as int, n as int)) == binding_ids_problem(object@, keys@),
        decreases n - i,
    {
        let ghost rest = keys@.subrange(i as int, n as int);
        assert(rest[0] == keys@[i as int]);
        assert(rest.subrange(1, rest.len() as int) =~= keys@.subrange(i + 1, n as int));
        let r = check_member_id(object, keys[i], "来源绑定标识");
        if r.is_err() {
            return r;
        }
        i = i + 1;
    }
    assert(keys@.subrange(n as int, n as int).len() == 0);
    Ok(())
}

/// Whether a value is a string that is not blank.
pub open spec fn usable_link(v: Option<JsonValue>) -> bool {
    v matches Some(JsonValue::String(s)) && trim(s@).len() > 0
}

/// The link a release offers: its magnet link if not blank, else its torrent link if
/// not blank.
pub open spec fn release_link(r: Seq<(String, JsonValue)>) -> Option<JsonValue> {
    if usable_link(field(r, "magnetUrl"@)) {
        field(r, "magnetUrl"@)
    } else if usable_link(field(r, "torrentUrl"@)) {
        field(r, "torrentUrl"@)
    } else {
        None
    }
}

/// Why a present, non-null link identifier is invalid, if it is.
pub open spec fn link_id_problem(v: Option<JsonValue>) -> Option<Seq<char>> {
    match v {
        None => None,
        Some(JsonValue::Null) => None,
        Some(x) => id_problem(x, "下载关联标识"@),
    }
}

/// Why a request to download a release is invalid, if it is.
pub open spec fn add_release_download_problem(m: Seq<(String, JsonValue)>) -> Option<Seq<char>> {
    match field(m, "release"@) {
        Some(JsonValue::Object(release)) => first_of(member_id_problem(release@, "id"@, "资源标识"@),
            first_of(download_url_problem(release_link(release@)),
            first_of(link_id_problem(field(m, "animeId"@)),
            first_of(link_id_problem(field(m, "episodeId"@)),
            first_of(link_id_problem(field(m, "fansubGroupId"@)),
            first_of(present_number_problem(field(m, "episodeNo"@), "集数"@, (0, 0), (100000, 0)),
            first_of(optional_bool_problem(field(m, "paused"@), "暂停状态"@),
            optional_bool_problem(field(m, "confirmUnknownSeason"@), "季度确认状态"@)))))))),
        _ => Some("资源信息格式无效"@),
    }
}

fn is_usable_link(value: Option<&JsonValue>) -> (r: bool)
    ensures
        r == usable_link(opt_ref(value)),
{
    match value {
        Some(JsonValue::String(s)) => trim_chars(chars_of(s.as_str()).as_slice()).len() > 0,
        _ => false,
    }
}

fn check_link_id(value: Option<&JsonValue>) -> (r: Result<(), RemoteRpcError>)
    ensures
        outcome(r, link_id_problem(opt_ref(value))),
{
    match value {
        None => Ok(()),
        Some(JsonValue::Null) => Ok(()),
        Some(v) => check_id(v, "下载关联标识"),
    }
}

/// Checks a request to download a release.
pub fn validate_add_release_download(object: &Vec<(String, JsonValue)>) -> (r: Result<(), RemoteRpcError>)
    ensures
        outcome(r, add_release_download_problem(object@)),
{
    let release = match members_get(object, "release") {
        Some(JsonValue::Object(release)) => release,
        _ => {
            return rpc_error_of(String::from_str("资源信息格式无效"));
        },
    };
    let r = check_member_id(release, "id", "资源标识");
    if r.is_err() {
        return r;
    }
    let magnet = members_get(release, "magnetUrl");
    let torrent = members_get(release, "torrentUrl");
    let link = if is_usable_link(magnet) {
        magnet
    } else if is_usable_link(torrent) {
        torrent
    } else {
        None
    };
    let r = validate_download_url(link);
    if r.is_err() {
        return r;
    }
    let r = check_link_id(members_get(object, "animeId"));
    if r.is_err() {
        return r;
    }
    let r = check_link_id(members_get(object, "episodeId"));
    if r.is_err() {
        return r;
    }
    let r = check_link_id(members_get(object, "fansubGroupId"));
    if r.is_err() {
        return r;
    }
    let r = check_present_number(members_get(object, "episodeNo"), "集数", 0, 0, 100000, 0);
    if r.is_err() {
        return r;
    }
    let r = validate_optional_bool(members_get(object, "paused"), "暂停状态");
    if r.is_err() {
        return r;
    }
    validate_optional_bool(members_get(object, "confirmUnknownSeason"), "季度确认状态")
}

/// Why the kind of a source, with the address it needs, is invalid, if it is.
pub open spec fn source_kind_problem(m: Seq<(String, JsonValue)>) -> Option<Seq<char>> {
    match field(m, "kind"@) {
        Some(JsonValue::String(k)) => if k@ == "rss"@ {
            http_url_problem(field(m, "rssUrl"@), "RSS 地址"@)
        } else if k@ == "torznab"@ || k@ == "site_adapter"@ {
            http_url_problem(field(m, "baseUrl"@), "服务地址"@)
        } else if k@ == "manual"@ {
            None
        } else {
            Some("下载源类型无效"@)
        },
        _ => Some("下载源类型无效"@),
    }
}

/// Why a request interval is not 250 ms to a day, if it is not.
pub open spec fn request_interval_problem(v: Option<JsonValue>) -> Option<Seq<char>> {
    match v {
        Some(x) => match as_i64_spec(x) {
            Some(n) => if 250 <= n <= 86_400_000 {
                None
            } else {
                Some("下载源请求间隔范围无效"@)
            },
            None => Some("下载源请求间隔范围无效"@),
        },
        None => Some("下载源请求间隔范围无效"@),
    }
}

/// Why a source configuration is invalid, if it is.
pub open spec fn source_config_problem(m: Seq<(String, JsonValue)>) -> Option<Seq<char>> {
    first_of(member_id_problem(m, "id"@, "下载源标识"@),
    first_of(text_problem(field(m, "name"@), "下载源名称"@, 1, 120),
    first_of(source_kind_problem(m),
    first_of(request_interval_problem(field(m, "requestIntervalMs"@)),
    optional_text_problem(field(m, "apiKey"@), "访问凭据"@, 2048)))))
}

/// Checks a source configuration.
pub fn validate_source(object: &Vec<(String, JsonValue)>) -> (r: Result<(), RemoteRpcError>)
    ensures
        outcome(r, source_config_problem(object@)),
{
    let r = check_member_id(object, "id", "下载源标识");
    if r.is_err() {
        return r;
    }
    let r = validate_text(members_get(object, "name"), "下载源名称", 1, 120);
    if r.is_err() {
        return r;
    }
    let r = match members_get(object, "kind") {
        Some(JsonValue::String(k)) => {
            let cs = chars_of(k.as_str());
            if eq_str(cs.as_slice(), "rss") {
                validate_http_url(members_get(object, "rssUrl"), "RSS 地址")
            } else if eq_str(cs.as_slice(), "torznab") || eq_str(cs.as_slice(), "site_adapter") {
                validate_http_url(members_get(object, "baseUrl"), "服务地址")
            } else if eq_str(cs.as_slice(), "manual") {
                Ok(())
            } else {
                rpc_error_of(String::from_str("下载源类型无效"))
            }
        },
        _ => rpc_error_of(String::from_str("下载源类型无效")),
    };
    if r.is_err() {
        return r;
    }
    let r = match members_get(object, "requestIntervalMs") {
        Some(v) => match as_i64(v) {
            Some(n) => if 250 <= n && n <= 86_400_000 {
                Ok(())
            } else {
                rpc_error_of(String::from_str("下载源请求间隔范围无效"))
            },
            None => rpc_error_of(String::from_str("下载源请求间隔范围无效")),
        },
        None => rpc_error_of(String::from_str("下载源请求间隔范围无效")),
    };
    if r.is_err() {
        return r;
    }
    validate_optional_text(members_get(object, "apiKey"), "访问凭据", 2048)
}


/// Why an RSS subscription is invalid, if it is.
pub open spec fn subscription_problem(s: JsonValue) -> Option<Seq<char>> {
    match s {
        JsonValue::Object(o) => first_of(member_id_problem(o@, "id"@, "RSS 订阅标识"@), http_url_problem(field(o@, "url"@), "RSS 地址"@)),
        _ => Some("RSS 订阅格式无效"@),
    }
}

/// The first problem of a list of RSS subscriptions.
pub open spec fn subscriptions_problem(subs: Seq<JsonValue>) -> Option<Seq<char>>
    decreases subs.len(),
{
    if subs.len() == 0 {
        None
    } else {
        first_of(subscription_problem(subs[0]), subscriptions_problem(subs.subrange(1, subs.len() as int)))
    }
}

fn check_subscription(s: &JsonValue) -> (r: Result<(), RemoteRpcError>)
    ensures
        outcome(r, subscription_problem(*s)),
{
    match s {
        JsonValue::Object(o) => {
            let r = check_member_id(o, "id", "RSS 订阅标识");
            if r.is_err() {
                return r;
            }
            validate_http_url(members_get(o, "url"), "RSS 地址")
        },
        _ => rpc_error_of(String::from_str("RSS 订阅格式无效")),
    }
}

fn check_subscriptions(subs: &Vec<JsonValue>) -> (r: Result<(), RemoteRpcError>)
    ensures
        outcome(r, subscriptions_problem(subs@)),
{
    let n = subs.len();
    let mut i: usize = 0;
    assert(subs@.subrange(0, n as int) =~= subs@);
    while i < n
        invariant
            n == subs@.len(),
            i <= n,
            subscriptions_problem(subs@.subrange(i as int, n as int)) == subscriptions_problem(subs@),
        decreases n - i,
    {
        let ghost rest = subs@.subrange(i as int, n as int);
        assert(rest[0] == subs@[i as int]);
        assert(rest.subrange(1, rest.len() as int) =~= subs@.subrange(i + 1, n as int));
        let r = check_subscription(&subs[i]);
        if r.is_err() {
            return r;
        }
        i = i + 1;
    }
    assert(subs@.subrange(n as int, n as int).len() == 0);
    Ok(())
}

/// Why a followed anime is invalid, if it is. A subscription list that is not an array
/// is left to the typed reading.
pub open spec fn my_anime_problem(m: Seq<(String, JsonValue)>) -> Option<Seq<char>> {
    first_of(member_id_problem(m, "id"@, "追番标识"@),
    match field(m, "anime"@) {
        Some(JsonValue::Object(a)) => first_of(member_id_problem(a@, "id"@, "番剧标识"@),
            first_of(text_problem(field(a@, "title"@), "番剧名称"@, 1, 300),
            match field(m, "rssSubscriptions"@) {
                Some(JsonValue::Array(subs)) => if subs@.len() > 32 {
                    Some("单部追番最多允许 32 条 RSS 订阅"@)
                } else {
                    subscriptions_problem(subs@)
                },
                _ => None,
            })),
        _ => Some("番剧信息格式无效"@),
    })
}

/// Checks a followed anime.
pub fn validate_my_anime(object: &Vec<(String, JsonValue)>) -> (r: Result<(), RemoteRpcError>)
    ensures
        outcome(r, my_anime_problem(object@)),
{
    let r = check_member_id(object, "id", "追番标识");
    if r.is_err() {
        return r;
    }
    let anime = match members_get(object, "anime") {
        Some(JsonValue::Object(a)) => a,
        _ => {
            return rpc_error_of(String::from_str("番剧信息格式无效"));
        },
    };
    let r = check_member_id(anime, "id", "番剧标识");
    if r.is_err() {
        return r;
    }
    let r = validate_text(members_get(anime, "title"), "番剧名称", 1, 300);
    if r.is_err() {
        return r;
    }
    match members_get(object, "rssSubscriptions") {
        Some(JsonValue::Array(subs)) => if subs.len() > 32 {
            rpc_error_of(String::from_str("单部追番最多允许 32 条 RSS 订阅"))
        } else {
            check_subscriptions(subs)
        },
        _ => Ok(()),
    }
}

/// Why an episode is invalid, if it is.
pub open spec fn episode_problem(m: Seq<(String, JsonValue)>) -> Option<Seq<char>> {
    first_of(member_id_problem(m, "id"@, "单集标识"@),
    first_of(member_id_problem(m, "animeId"@, "番剧标识"@),
    number_problem(field(m, "episodeNo"@), "集数"@, (0, 0), (100000, 0))))
}

/// Checks an episode.
pub fn validate_episode(object: &Vec<(String, JsonValue)>) -> (r: Result<(), RemoteRpcError>)
    ensures
        outcome(r, episode_problem(object@)),
{
    let r = check_member_id(object, "id", "单集标识");
    if r.is_err() {
        return r;
    }
    let r = check_member_id(object, "animeId", "番剧标识");
    if r.is_err() {
        return r;
    }
    validate_number(members_get(object, "episodeNo"), "集数", 0, 0, 100000, 0)
}

/// Why an episode preference is invalid, if it is.
pub open spec fn preference_problem(m: Seq<(String, JsonValue)>) -> Option<Seq<char>> {
    first_of(member_id_problem(m, "id"@, "偏好标识"@),
    first_of(member_id_problem(m, "animeId"@, "番剧标识"@),
    member_id_problem(m, "episodeId"@, "单集标识"@)))
}

/// Checks an episode preference.
pub fn validate_preference(object: &Vec<(String, JsonValue)>) -> (r: Result<(), RemoteRpcError>)
    ensures
        outcome(r, preference_problem(object@)),
{
    let r = check_member_id(object, "id", "偏好标识");
    if r.is_err() {
        return r;
    }
    let r = check_member_id(object, "animeId", "番剧标识");
    if r.is_err() {
        return r;
    }
    check_member_id(object, "episodeId", "单集标识")
}

/// Why a release search for one anime is invalid, if it is.
pub open spec fn anime_release_problem(m: Seq<(String, JsonValue)>) -> Option<Seq<char>> {
    first_of(member_id_problem(m, "animeId"@, "番剧标识"@), search_limits_problem(m))
}

/// Checks a release search for one anime.
pub fn validate_anime_release_query(object: &Vec<(String, JsonValue)>) -> (r: Result<(), RemoteRpcError>)
    ensures
        outcome(r, anime_release_problem(object@)),
{
    let r = check_member_id(object, "animeId", "番剧标识");
    if r.is_err() {
        return r;
    }
    validate_search_limits(object)
}

/// Why a release search for one subscription is invalid, if it is.
pub open spec fn rss_release_problem(m: Seq<(String, JsonValue)>) -> Option<Seq<char>> {
    first_of(member_id_problem(m, "animeId"@, "番剧标识"@),
    first_of(member_id_problem(m, "subscriptionId"@, "RSS 订阅标识"@),
    limit_problem(field(m, "limit"@))))
}

/// Checks a release search for one subscription.
pub fn validate_rss_release_query(object: &Vec<(String, JsonValue)>) -> (r: Result<(), RemoteRpcError>)
    ensures
        outcome(r, rss_release_problem(object@)),
{
    let r = check_member_id(object, "animeId", "番剧标识");
    if r.is_err() {
        return r;
    }
    let r = check_member_id(object, "subscriptionId", "RSS 订阅标识");
    if r.is_err() {
        return r;
    }
    validate_limit(members_get(object, "limit"))
}

/// Why a Bangumi browse query is invalid, if it is.
pub open spec fn browse_problem(m: Seq<(String, JsonValue)>) -> Option<Seq<char>> {
    first_of(optional_text_problem(field(m, "keyword"@), "Bangumi 搜索关键词"@, 120),
    first_of(number_problem(field(m, "page"@), "Bangumi 页码"@, (1, 0), (100000, 0)),
    number_problem(field(m, "pageSize"@), "Bangumi 每页数量"@, (1, 0), (50, 0))))
}

/// Checks a Bangumi browse query.
pub fn validate_browse_query(object: &Vec<(String, JsonValue)>) -> (r: Result<(), RemoteRpcError>)
    ensures
        outcome(r, browse_problem(object@)),
{
    let r = validate_optional_text(members_get(object, "keyword"), "Bangumi 搜索关键词", 120);
    if r.is_err() {
        return r;
    }
    let r = validate_number(members_get(object, "page"), "Bangumi 页码", 1, 0, 100000, 0);
    if r.is_err() {
        return r;
    }
    validate_number(members_get(object, "pageSize"), "Bangumi 每页数量", 1, 0, 50, 0)
}

/// Why a watch progress update is invalid, if it is.
pub open spec fn watch_progress_problem(m: Seq<(String, JsonValue)>) -> Option<Seq<char>> {
    first_of(member_id_problem(m, "animeId"@, "番剧标识"@),
    match field(m, "watchedEpisodeCount"@) {
        Some(x) => match as_i64_spec(x) {
            Some(n) => if 0 <= n <= 10000 {
                None
            } else {
                Some("观看进度必须是 0 到 10000 之间的整数"@)
            },
            None => Some("观看进度必须是 0 到 10000 之间的整数"@),
        },
        None => Some("观看进度必须是 0 到 10000 之间的整数"@),
    })
}

/// Checks a watch progress update: an anime and a whole count from 0 to 10000.
pub fn validate_watch_progress(object: &Vec<(String, JsonValue)>) -> (r: Result<(), RemoteRpcError>)
    ensures
        outcome(r, watch_progress_problem(object@)),
{
    let r = check_member_id(object, "animeId", "番剧标识");
    if r.is_err() {
        return r;
    }
    match members_get(object, "watchedEpisodeCount") {
        Some(v) => match as_i64(v) {
            Some(n) => if 0 <= n && n <= 10000 {
                Ok(())
            } else {
                rpc_error_of(String::from_str("观看进度必须是 0 到 10000 之间的整数"))
            },
            None => rpc_error_of(String::from_str("观看进度必须是 0 到 10000 之间的整数")),
        },
        None => rpc_error_of(String::from_str("观看进度必须是 0 到 10000 之间的整数")),
    }
}

/// Why a playback progress report is invalid, if it is.
pub open spec fn playback_progress_problem(m: Seq<(String, JsonValue)>) -> Option<Seq<char>> {
    first_of(member_id_problem(m, "taskId"@, "下载任务标识"@),
    first_of(file_index_problem(field(m, "fileIndex"@)),
    if number_value_ok(field(m, "percent"@), (0, 0), (100, 0)) {
        None
    } else {
        Some("播放进度必须是 0 到 100 之间的数值"@)
    }))
}

/// Checks a playback progress report: a task, an optional file and a percentage.
pub fn validate_playback_progress(object: &Vec<(String, JsonValue)>) -> (r: Result<(), RemoteRpcError>)
    ensures
        outcome(r, playback_progress_problem(object@)),
{
    let r = check_member_id(object, "taskId", "下载任务标识");
    if r.is_err() {
        return r;
    }
    let r = validate_optional_file_index(members_get(object, "fileIndex"));
    if r.is_err() {
        return r;
    }
    if number_value_within(members_get(object, "percent"), 0, 0, 100, 0) {
        Ok(())
    } else {
        rpc_error_of(String::from_str("播放进度必须是 0 到 100 之间的数值"))
    }
}

/// Why a playback time is not 0 to 31 days of seconds, if it is not.
pub open spec fn seconds_problem(v: Option<JsonValue>) -> Option<Seq<char>> {
    if number_value_ok(v, (0, 0), (2_678_400, 0)) {
        None
    } else {
        Some("播放位置和时长必须是有效的非负秒数"@)
    }
}

/// Why a playback checkpoint is invalid, if it is.
pub open spec fn checkpoint_problem(m: Seq<(String, JsonValue)>) -> Option<Seq<char>> {
    first_of(member_id_problem(m, "taskId"@, "下载任务标识"@),
    first_of(file_index_problem(field(m, "fileIndex"@)),
    first_of(seconds_problem(field(m, "positionSeconds"@)),
    first_of(seconds_problem(field(m, "durationSeconds"@)),
    match field(m, "completed"@) {
        None => None,
        Some(JsonValue::Bool(_)) => None,
        Some(_) => Some("播放完成状态必须是布尔值"@),
    }))))
}

fn check_seconds(value: Option<&JsonValue>) -> (r: Result<(), RemoteRpcError>)
    ensures
        outcome(r, seconds_problem(opt_ref(value))),
{
    if number_value_within(value, 0, 0, 2_678_400, 0) {
        Ok(())
    } else {
        rpc_error_of(String::from_str("播放位置和时长必须是有效的非负秒数"))
    }
}

/// Checks a playback checkpoint.
pub fn validate_playback_checkpoint(object: &Vec<(String, JsonValue)>) -> (r: Result<(), RemoteRpcError>)
    ensures
        outcome(r, checkpoint_problem(object@)),
{
    let r = check_member_id(object, "taskId", "下载任务标识");
    if r.is_err() {
        return r;
    }
    let r = validate_optional_file_index(members_get(object, "fileIndex"));
    if r.is_err() {
        return r;
    }
    let r = check_seconds(members_get(object, "positionSeconds"));
    if r.is_err() {
        return r;
    }
    let r = check_seconds(members_get(object, "durationSeconds"));
    if r.is_err() {
        return r;
    }
    match members_get(object, "completed") {
        None => Ok(()),
        Some(JsonValue::Bool(_)) => Ok(()),
        Some(_) => rpc_error_of(String::from_str("播放完成状态必须是布尔值")),
    }
}

/// Why a request to download an address is invalid, if it is.
pub open spec fn add_download_url_problem(m: Seq<(String, JsonValue)>) -> Option<Seq<char>> {
    first_of(download_url_problem(field(m, "url"@)),
    first_of(optional_text_problem(field(m, "name"@), "任务名称"@, 300),
    optional_bool_problem(field(m, "paused"@), "暂停状态"@)))
}

/// Checks a request to download an address.
pub fn validate_add_download_url(object: &Vec<(String, JsonValue)>) -> (r: Result<(), RemoteRpcError>)
    ensures
        outcome(r, add_download_url_problem(object@)),
{
    let r = validate_download_url(members_get(object, "url"));
    if r.is_err() {
        return r;
    }
    let r = validate_optional_text(members_get(object, "name"), "任务名称", 300);
    if r.is_err() {
        return r;
    }
    validate_optional_bool(members_get(object, "paused"), "暂停状态")
}


/// Which argument rules a method follows.
#[derive(Debug, Clone, Copy, PartialEq, Eq, Structural)]
pub enum ArgRule {
    NoArgs,
    OneId,
    Fansubs,
    CatalogSearch,
    BrowseBangumi,
    YearMonth,
    MyAnime,
    Episode,
    EpisodePreference,
    TwoIds,
    BindingState,
    ReleaseSearch,
    AnimeReleaseSearch,
    RssReleaseSearch,
    ConfirmBinding,
    ReportMismatch,
    RemoveMismatch,
    SetExcluded,
    RemoveDownload,
    FilePriority,
    AddDownloadUrl,
    AddReleaseDownload,
    SourceEnabled,
    UpsertSource,
    UpdateSettings,
    WatchProgress,
    PlaybackProgress,
    PlaybackCheckpoint,
    Unknown,
}

/// The rules of each method of the table.
pub open spec fn arg_rule_table() -> Seq<(Seq<char>, ArgRule)> {
    seq![
        ("getDashboard"@, ArgRule::NoArgs),
        ("listNotifications"@, ArgRule::NoArgs),
        ("getUnreadNotificationCount"@, ArgRule::NoArgs),
        ("markNotificationRead"@, ArgRule::OneId),
        ("markAllNotificationsRead"@, ArgRule::NoArgs),
        ("listMyAnime"@, ArgRule::NoArgs),
        ("upsertMyAnime"@, ArgRule::MyAnime),
        ("followBangumiAnime"@, ArgRule::MyAnime),
        ("removeMyAnime"@, ArgRule::OneId),
        ("listMyAnimeWatchProgress"@, ArgRule::NoArgs),
        ("setAnimeWatchProgress"@, ArgRule::WatchProgress),
        ("reportPlaybackProgress"@, ArgRule::PlaybackProgress),
        ("savePlaybackCheckpoint"@, ArgRule::PlaybackCheckpoint),
        ("listAnimeCatalog"@, ArgRule::YearMonth),
        ("getAnimeDetail"@, ArgRule::OneId),
        ("searchAnimeCatalog"@, ArgRule::CatalogSearch),
        ("browseBangumiAnime"@, ArgRule::BrowseBangumi),
        ("listFansubs"@, ArgRule::Fansubs),
        ("listEpisodes"@, ArgRule::OneId),
        ("upsertEpisode"@, ArgRule::Episode),
        ("listEpisodePreferences"@, ArgRule::OneId),
        ("upsertEpisodePreference"@, ArgRule::EpisodePreference),
        ("removeEpisodePreference"@, ArgRule::OneId),
        ("previewEpisodeReleases"@, ArgRule::TwoIds),
        ("searchReleases"@, ArgRule::ReleaseSearch),
        ("searchAnimeReleases"@, ArgRule::AnimeReleaseSearch),
        ("searchRssSubscriptionReleases"@, ArgRule::RssReleaseSearch),
        ("getAnimeSourceBindingState"@, ArgRule::BindingState),
        ("confirmAnimeSourceBinding"@, ArgRule::ConfirmBinding),
        ("reportAnimeSourceCandidateMismatch"@, ArgRule::ReportMismatch),
        ("removeAnimeSourceCandidateMismatch"@, ArgRule::RemoveMismatch),
        ("setAnimeSourceExcluded"@, ArgRule::SetExcluded),
        ("removeAnimeSourceBinding"@, ArgRule::TwoIds),
        ("listDownloads"@, ArgRule::NoArgs),
        ("refreshDownloads"@, ArgRule::NoArgs),
        ("pauseDownload"@, ArgRule::OneId),
        ("resumeDownload"@, ArgRule::OneId),
        ("removeDownload"@, ArgRule::RemoveDownload),
        ("setDownloadFilePriority"@, ArgRule::FilePriority),
        ("addDownloadUrl"@, ArgRule::AddDownloadUrl),
        ("addReleaseDownload"@, ArgRule::AddReleaseDownload),
        ("listSources"@, ArgRule::NoArgs),
        ("setSourceEnabled"@, ArgRule::SourceEnabled),
        ("upsertSource"@, ArgRule::UpsertSource),
        ("getSourceSyncStatus"@, ArgRule::NoArgs),
        ("getSettings"@, ArgRule::NoArgs),
        ("updateSettings"@, ArgRule::UpdateSettings),
        ("testQbittorrent"@, ArgRule::NoArgs),
        ("getAutomationSchedulerStatus"@, ArgRule::NoArgs),
        ("getQbittorrentManagedStatus"@, ArgRule::NoArgs),
        ("startQbittorrentManaged"@, ArgRule::NoArgs),
        ("stopQbittorrentManaged"@, ArgRule::NoArgs),
        ("getEmbeddedTorrentStatus"@, ArgRule::NoArgs),
        ("startEmbeddedTorrent"@, ArgRule::NoArgs),
        ("stopEmbeddedTorrent"@, ArgRule::NoArgs),
        ("restartEmbeddedTorrent"@, ArgRule::NoArgs)
    ]
}

/// The rule of a method name: that of the first entry with the name, `Unknown` if none.
pub open spec fn rule_in(table: Seq<(Seq<char>, ArgRule)>, name: Seq<char>) -> ArgRule
    decreases table.len(),
{
    if table.len() == 0 {
        ArgRule::Unknown
    } else if table[0].0 == name {
        table[0].1
    } else {
        rule_in(table.subrange(1, table.len() as int), name)
    }
}

/// The argument rule of a method.
pub open spec fn arg_rule(name: Seq<char>) -> ArgRule {
    rule_in(arg_rule_table(), name)
}

/// The view of a rule entry.
pub open spec fn rule_entry_view(e: (&str, ArgRule)) -> (Seq<char>, ArgRule) {
    (e.0@, e.1)
}

fn rule_table() -> (r: Vec<(&'static str, ArgRule)>)
    ensures
        r@.map_values(|e: (&str, ArgRule)| rule_entry_view(e)) == arg_rule_table(),
{
    let mut t: Vec<(&'static str, ArgRule)> = Vec::new();
    t.push(("getDashboard", ArgRule::NoArgs));
    t.push(("listNotifications", ArgRule::NoArgs));
    t.push(("getUnreadNotificationCount", ArgRule::NoArgs));
    t.push(("markNotificationRead", ArgRule::OneId));
    t.push(("markAllNotificationsRead", ArgRule::NoArgs));
    t.push(("listMyAnime", ArgRule::NoArgs));
    t.push(("upsertMyAnime", ArgRule::MyAnime));
    t.push(("followBangumiAnime", ArgRule::MyAnime));
    t.push(("removeMyAnime", ArgRule::OneId));
    t.push(("listMyAnimeWatchProgress", ArgRule::NoArgs));
    t.push(("setAnimeWatchProgress", ArgRule::WatchProgress));
    t.push(("reportPlaybackProgress", ArgRule::PlaybackProgress));
    t.push(("savePlaybackCheckpoint", ArgRule::PlaybackCheckpoint));
    t.push(("listAnimeCatalog", ArgRule::YearMonth));
    t.push(("getAnimeDetail", ArgRule::OneId));
    t.push(("searchAnimeCatalog", ArgRule::CatalogSearch));
    t.push(("browseBangumiAnime", ArgRule::BrowseBangumi));
    t.push(("listFansubs", ArgRule::Fansubs));
    t.push(("listEpisodes", ArgRule::OneId));
    t.push(("upsertEpisode", ArgRule::Episode));
    t.push(("listEpisodePreferences", ArgRule::OneId));
    t.push(("upsertEpisodePreference", ArgRule::EpisodePreference));
    t.push(("removeEpisodePreference", ArgRule::OneId));
    t.push(("previewEpisodeReleases", ArgRule::TwoIds));
    t.push(("searchReleases", ArgRule::ReleaseSearch));
    t.push(("searchAnimeReleases", ArgRule::AnimeReleaseSearch));
    t.push(("searchRssSubscriptionReleases", ArgRule::RssReleaseSearch));
    t.push(("getAnimeSourceBindingState", ArgRule::BindingState));
    t.push(("confirmAnimeSourceBinding", ArgRule::ConfirmBinding));
    t.push(("reportAnimeSourceCandidateMismatch", ArgRule::ReportMismatch));
    t.push(("removeAnimeSourceCandidateMismatch", ArgRule::RemoveMismatch));
    t.push(("setAnimeSourceExcluded", ArgRule::SetExcluded));
    t.push(("removeAnimeSourceBinding", ArgRule::TwoIds));
    t.push(("listDownloads", ArgRule::NoArgs));
    t.push(("refreshDownloads", ArgRule::NoArgs));
    t.push(("pauseDownload", ArgRule::OneId));
    t.push(("resumeDownload", ArgRule::OneId));
    t.push(("removeDownload", ArgRule::RemoveDownload));
    t.push(("setDownloadFilePriority", ArgRule::FilePriority));
    t.push(("addDownloadUrl", ArgRule::AddDownloadUrl));
    t.push(("addReleaseDownload", ArgRule::AddReleaseDownload));
    t.push(("listSources", ArgRule::NoArgs));
    t.push(("setSourceEnabled", ArgRule::SourceEnabled));
    t.push(("upsertSource", ArgRule::UpsertSource));
    t.push(("getSourceSyncStatus", ArgRule::NoArgs));
    t.push(("getSettings", ArgRule::NoArgs));
    t.push(("updateSettings", ArgRule::UpdateSettings));
    t.push(("testQbittorrent", ArgRule::NoArgs));
    t.push(("getAutomationSchedulerStatus", ArgRule::NoArgs));
    t.push(("getQbittorrentManagedStatus", ArgRule::NoArgs));
    t.push(("startQbittorrentManaged", ArgRule::NoArgs));
    t.push(("stopQbittorrentManaged", ArgRule::NoArgs));
    t.push(("getEmbeddedTorrentStatus", ArgRule::NoArgs));
    t.push(("startEmbeddedTorrent", ArgRule::NoArgs));
    t.push(("stopEmbeddedTorrent", ArgRule::NoArgs));
    t.push(("restartEmbeddedTorrent", ArgRule::NoArgs));
    assert(t@.map_values(|e: (&str, ArgRule)| rule_entry_view(e)) =~= arg_rule_table());
    t
}

/// Finds the argument rule of a method.
pub fn find_arg_rule(name: &str) -> (r: ArgRule)
    ensures
        r == arg_rule(name@),
{
    let table = rule_table();
    let ghost views = table@.map_values(|e: (&str, ArgRule)| rule_entry_view(e));
    let n = chars_of(name);
    let mut i: usize = 0;
    assert(views.subrange(0, views.len() as int) =~= views);
    while i < table.len()
        invariant
            i <= table@.len(),
            views == table@.map_values(|e: (&str, ArgRule)| rule_entry_view(e)),
            views == arg_rule_table(),
            n@ == name@,
            rule_in(views.subrange(i as int, views.len() as int), name@) == rule_in(views, name@),
        decreases table@.len() - i,
    {
        let ghost rest = views.subrange(i as int, views.len() as int);
        assert(rest[0] == views[i as int]);
        let e = table[i];
        if chars_eq(chars_of(e.0).as_slice(), n.as_slice()) {
            return e.1;
        }
        assert(rest.subrange(1, rest.len() as int) =~= views.subrange(i + 1, views.len() as int));
        i = i + 1;
    }
    ArgRule::Unknown
}

/// The members allowed in the argument object of BrowseBangumi.
pub open spec fn browse_bangumi_keys() -> Seq<&'static str> {
    seq!["keyword", "sort", "filters", "page", "pageSize"]
}

/// The members allowed in the argument object of MyAnime.
pub open spec fn my_anime_keys() -> Seq<&'static str> {
    seq!["id", "anime", "status", "defaultFansubGroupId", "autoDownload", "rssSubscriptions", "preferredResolution", "preferredCodec", "preferredBitDepth", "preferredSubtitleLanguages", "preferredSubtitle", "addedAt", "updatedAt"]
}

/// The members allowed in the argument object of Episode.
pub open spec fn episode_keys() -> Seq<&'static str> {
    seq!["id", "animeId", "episodeNo", "title", "airTime", "status"]
}

/// The members allowed in the argument object of EpisodePreference.
pub open spec fn episode_preference_keys() -> Seq<&'static str> {
    seq!["id", "animeId", "episodeId", "fansubGroupId", "releaseId", "isManualOverride"]
}

/// The members allowed in the argument object of ReleaseSearch.
pub open spec fn release_search_keys() -> Seq<&'static str> {
    seq!["keyword", "animeId", "episodeNo", "fansubGroupId", "preferredResolution", "limit", "cacheTtlMs", "forceRefresh"]
}

/// The members allowed in the argument object of AnimeReleaseSearch.
pub open spec fn anime_release_search_keys() -> Seq<&'static str> {
    seq!["animeId", "episodeNo", "fansubGroupId", "preferredResolution", "limit", "cacheTtlMs", "forceRefresh"]
}

/// The members allowed in the argument object of RssReleaseSearch.
pub open spec fn rss_release_search_keys() -> Seq<&'static str> {
    seq!["animeId", "subscriptionId", "preferredResolution", "limit"]
}

/// The members allowed in the argument object of ConfirmBinding.
pub open spec fn confirm_binding_keys() -> Seq<&'static str> {
    seq!["animeId", "sourceId", "sourceAnimeId", "sourceAnimeTitle", "sourceUrl", "confidence"]
}

/// The members allowed in the argument object of ReportMismatch.
pub open spec fn report_mismatch_keys() -> Seq<&'static str> {
    seq!["animeId", "sourceId", "sourceAnimeId", "sourceAnimeTitle", "score", "reasons"]
}

/// The members allowed in the argument object of RemoveMismatch.
pub open spec fn remove_mismatch_keys() -> Seq<&'static str> {
    seq!["animeId", "sourceId", "sourceAnimeId"]
}

/// The members allowed in the argument object of SetExcluded.
pub open spec fn set_excluded_keys() -> Seq<&'static str> {
    seq!["animeId", "sourceId", "excluded"]
}

/// The members allowed in the argument object of AddDownloadUrl.
pub open spec fn add_download_url_keys() -> Seq<&'static str> {
    seq!["url", "name", "paused"]
}

/// The members allowed in the argument object of AddReleaseDownload.
pub open spec fn add_release_download_keys() -> Seq<&'static str> {
    seq!["release", "animeId", "episodeId", "episodeNo", "fansubGroupId", "paused", "confirmUnknownSeason"]
}

/// The members allowed in the argument object of UpsertSource.
pub open spec fn upsert_source_keys() -> Seq<&'static str> {
    seq!["id", "name", "kind", "enabled", "useProxy", "requestIntervalMs", "baseUrl", "apiKey", "rssUrl", "tags"]
}

/// The members allowed in the argument object of UpdateSettings.
pub open spec fn update_settings_keys() -> Seq<&'static str> {
    seq!["download", "automation", "sourceSync", "network"]
}

/// The members allowed in the argument object of WatchProgress.
pub open spec fn watch_progress_keys() -> Seq<&'static str> {
    seq!["animeId", "watchedEpisodeCount"]
}

/// The members allowed in the argument object of PlaybackProgress.
pub open spec fn playback_progress_keys() -> Seq<&'static str> {
    seq!["taskId", "fileIndex", "percent"]
}

/// The members allowed in the argument object of PlaybackCheckpoint.
pub open spec fn playback_checkpoint_keys() -> Seq<&'static str> {
    seq!["taskId", "fileIndex", "positionSeconds", "durationSeconds", "completed"]
}

/// Why the single argument object of an object rule is invalid, if it is.
pub open spec fn object_rule_problem(rule: ArgRule, args: Seq<JsonValue>) -> Option<Seq<char>> {
    match rule {
        ArgRule::BrowseBangumi => first_of(object_input_problem(args, browse_bangumi_keys()), browse_problem(members_of(args[0]))),
        ArgRule::MyAnime => first_of(object_input_problem(args, my_anime_keys()), my_anime_problem(members_of(args[0]))),
        ArgRule::Episode => first_of(object_input_problem(args, episode_keys()), episode_problem(members_of(args[0]))),
        ArgRule::EpisodePreference => first_of(object_input_problem(args, episode_preference_keys()), preference_problem(members_of(args[0]))),
        ArgRule::ReleaseSearch => first_of(object_input_problem(args, release_search_keys()), release_query_problem(members_of(args[0]))),
        ArgRule::AnimeReleaseSearch => first_of(object_input_problem(args, anime_release_search_keys()), anime_release_problem(members_of(args[0]))),
        ArgRule::RssReleaseSearch => first_of(object_input_problem(args, rss_release_search_keys()), rss_release_problem(members_of(args[0]))),
        ArgRule::ConfirmBinding => first_of(object_input_problem(args, confirm_binding_keys()), binding_ids_problem(members_of(args[0]), seq!["animeId", "sourceId", "sourceAnimeId"])),
        ArgRule::ReportMismatch => first_of(object_input_problem(args, report_mismatch_keys()), binding_ids_problem(members_of(args[0]), seq!["animeId", "sourceId", "sourceAnimeId"])),
        ArgRule::RemoveMismatch => first_of(object_input_problem(args, remove_mismatch_keys()), binding_ids_problem(members_of(args[0]), seq!["animeId", "sourceId", "sourceAnimeId"])),
        ArgRule::SetExcluded => first_of(object_input_problem(args, set_excluded_keys()), binding_ids_problem(members_of(args[0]), seq!["animeId", "sourceId"])),
        ArgRule::AddDownloadUrl => first_of(object_input_problem(args, add_download_url_keys()), add_download_url_problem(members_of(args[0]))),
        ArgRule::AddReleaseDownload => first_of(object_input_problem(args, add_release_download_keys()), add_release_download_problem(members_of(args[0]))),
        ArgRule::UpsertSource => first_of(object_input_problem(args, upsert_source_keys()), source_config_problem(members_of(args[0]))),
        ArgRule::UpdateSettings => first_of(object_input_problem(args, update_settings_keys()), settings_patch_problem(members_of(args[0]))),
        ArgRule::WatchProgress => first_of(object_input_problem(args, watch_progress_keys()), watch_progress_problem(members_of(args[0]))),
        ArgRule::PlaybackProgress => first_of(object_input_problem(args, playback_progress_keys()), playback_progress_problem(members_of(args[0]))),
        ArgRule::PlaybackCheckpoint => first_of(object_input_problem(args, playback_checkpoint_keys()), checkpoint_problem(members_of(args[0]))),
        _ => None,
    }
}

#[verifier::rlimit(40)]
fn check_object_rule(rule: ArgRule, args: &Vec<JsonValue>) -> (r: Result<(), RemoteRpcError>)
    ensures
        outcome(r, object_rule_problem(rule, args@)),
{
    match rule {
        ArgRule::BrowseBangumi => {
            let keys = ["keyword", "sort", "filters", "page", "pageSize"];
            assert(keys@ == browse_bangumi_keys());
            let m = match validate_object_input(args, &keys) {
                Ok(m) => m,
                Err(e) => {
                    return Err(e);
                },
            };
            validate_browse_query(m)
        },
        ArgRule::MyAnime => {
            let keys = ["id", "anime", "status", "defaultFansubGroupId", "autoDownload", "rssSubscriptions", "preferredResolution", "preferredCodec", "preferredBitDepth", "preferredSubtitleLanguages", "preferredSubtitle", "addedAt", "updatedAt"];
            assert(keys@ == my_anime_keys());
            let m = match validate_object_input(args, &keys) {
                Ok(m) => m,
                Err(e) => {
                    return Err(e);
                },
            };
            validate_my_anime(m)
        },
        ArgRule::Episode => {
            let keys = ["id", "animeId", "episodeNo", "title", "airTime", "status"];
            assert(keys@ == episode_keys());
            let m = match validate_object_input(args, &keys) {
                Ok(m) => m,
                Err(e) => {
                    return Err(e);
                },
            };
            validate_episode(m)
        },
        ArgRule::EpisodePreference => {
            let keys = ["id", "animeId", "episodeId", "fansubGroupId", "releaseId", "isManualOverride"];
            assert(keys@ == episode_preference_keys());
            let m = match validate_object_input(args, &keys) {
                Ok(m) => m,
                Err(e) => {
                    return Err(e);
                },
            };
            validate_preference(m)
        },
        ArgRule::ReleaseSearch => {
            let keys = ["keyword", "animeId", "episodeNo", "fansubGroupId", "preferredResolution", "limit", "cacheTtlMs", "forceRefresh"];
            assert(keys@ == release_search_keys());
            let m = match validate_object_input(args, &keys) {
                Ok(m) => m,
                Err(e) => {
                    return Err(e);
                },
            };
            validate_release_query(m)
        },
        ArgRule::AnimeReleaseSearch => {
            let keys = ["animeId", "episodeNo", "fansubGroupId", "preferredResolution", "limit", "cacheTtlMs", "forceRefresh"];
            assert(keys@ == anime_release_search_keys());
            let m = match validate_object_input(args, &keys) {
                Ok(m) => m,
                Err(e) => {
                    return Err(e);
                },
            };
            validate_anime_release_query(m)
        },
        ArgRule::RssReleaseSearch => {
            let keys = ["animeId", "subscriptionId", "preferredResolution", "limit"];
            assert(keys@ == rss_release_search_keys());
            let m = match validate_object_input(args, &keys) {
                Ok(m) => m,
                Err(e) => {
                    return Err(e);
                },
            };
            validate_rss_release_query(m)
        },
        ArgRule::ConfirmBinding => {
            let keys = ["animeId", "sourceId", "sourceAnimeId", "sourceAnimeTitle", "sourceUrl", "confidence"];
            assert(keys@ == confirm_binding_keys());
            let m = match validate_object_input(args, &keys) {
                Ok(m) => m,
                Err(e) => {
                    return Err(e);
                },
            };
            let ids = ["animeId", "sourceId", "sourceAnimeId"];
            assert(ids@ == seq!["animeId", "sourceId", "sourceAnimeId"]);
            validate_binding_ids(m, &ids)
        },
        ArgRule::ReportMismatch => {
            let keys = ["animeId", "sourceId", "sourceAnimeId", "sourceAnimeTitle", "score", "reasons"];
            assert(keys@ == report_mismatch_keys());
            let m = match validate_object_input(args, &keys) {
                Ok(m) => m,
                Err(e) => {
                    return Err(e);
                },
            };
            let ids = ["animeId", "sourceId", "sourceAnimeId"];
            assert(ids@ == seq!["animeId", "sourceId", "sourceAnimeId"]);
            validate_binding_ids(m, &ids)
        },
        ArgRule::RemoveMismatch => {
            let keys = ["animeId", "sourceId", "sourceAnimeId"];
            assert(keys@ == remove_mismatch_keys());
            let m = match validate_object_input(args, &keys) {
                Ok(m) => m,
                Err(e) => {
                    return Err(e);
                },
            };
            let ids = ["animeId", "sourceId", "sourceAnimeId"];
            assert(ids@ == seq!["animeId", "sourceId", "sourceAnimeId"]);
            validate_binding_ids(m, &ids)
        },
        ArgRule::SetExcluded => {
            let keys = ["animeId", "sourceId", "excluded"];
            assert(keys@ == set_excluded_keys());
            let m = match validate_object_input(args, &keys) {
                Ok(m) => m,
                Err(e) => {
                    return Err(e);
                },
            };
            let ids = ["animeId", "sourceId"];
            assert(ids@ == seq!["animeId", "sourceId"]);
            validate_binding_ids(m, &ids)
        },
        ArgRule::AddDownloadUrl => {
            let keys = ["url", "name", "paused"];
            assert(keys@ == add_download_url_keys());
            let m = match validate_object_input(args, &keys) {
                Ok(m) => m,
                Err(e) => {
                    return Err(e);
                },
            };
            validate_add_download_url(m)
        },
        ArgRule::AddReleaseDownload => {
            let keys = ["release", "animeId", "episodeId", "episodeNo", "fansubGroupId", "paused", "confirmUnknownSeason"];
            assert(keys@ == add_release_download_keys());
            let m = match validate_object_input(args, &keys) {
                Ok(m) => m,
                Err(e) => {
                    return Err(e);
                },
            };
            validate_add_release_download(m)
        },
        ArgRule::UpsertSource => {
            let keys = ["id", "name", "kind", "enabled", "useProxy", "requestIntervalMs", "baseUrl", "apiKey", "rssUrl", "tags"];
            assert(keys@ == upsert_source_keys());
            let m = match validate_object_input(args, &keys) {
                Ok(m) => m,
                Err(e) => {
                    return Err(e);
                },
            };
            validate_source(m)
        },
        ArgRule::UpdateSettings => {
            let keys = ["download", "automation", "sourceSync", "network"];
            assert(keys@ == update_settings_keys());
            let m = match validate_object_input(args, &keys) {
                Ok(m) => m,
                Err(e) => {
                    return Err(e);
                },
            };
            validate_settings_patch(m)
        },
        ArgRule::WatchProgress => {
            let keys = ["animeId", "watchedEpisodeCount"];
            assert(keys@ == watch_progress_keys());
            let m = match validate_object_input(args, &keys) {
                Ok(m) => m,
                Err(e) => {
                    return Err(e);
                },
            };
            validate_watch_progress(m)
        },
        ArgRule::PlaybackProgress => {
            let keys = ["taskId", "fileIndex", "percent"];
            assert(keys@ == playback_progress_keys());
            let m = match validate_object_input(args, &keys) {
                Ok(m) => m,
                Err(e) => {
                    return Err(e);
                },
            };
            validate_playback_progress(m)
        },
        ArgRule::PlaybackCheckpoint => {
            let keys = ["taskId", "fileIndex", "positionSeconds", "durationSeconds", "completed"];
            assert(keys@ == playback_checkpoint_keys());
            let m = match validate_object_input(args, &keys) {
                Ok(m) => m,
                Err(e) => {
                    return Err(e);
                },
            };
            validate_playback_checkpoint(m)
        },
        _ => Ok(()),
    }
}


/// Whether a value is `null` or a boolean.
pub open spec fn null_or_bool(v: JsonValue) -> bool {
    v is Null || v is Bool
}

/// Why a catalog search keyword is invalid, if it is: trimmed, it must have 1 to 120
/// characters and no control character.
pub open spec fn keyword_problem(v: JsonValue) -> Option<Seq<char>> {
    match v {
        JsonValue::String(s) => {
            let t = trim(s@);
            if 0 < t.len() <= 120 && !has_control(t) {
                None
            } else {
                Some("搜索关键词长度必须为 1-120 个字符"@)
            }
        },
        _ => Some("搜索关键词长度必须为 1-120 个字符"@),
    }
}

/// Whether a value is a non-negative integer.
pub open spec fn index_ok(v: JsonValue) -> bool {
    match as_i64_spec(v) {
        Some(i) => i >= 0,
        None => false,
    }
}

/// Whether every item is a non-negative integer.
pub open spec fn all_indexes_ok(items: Seq<JsonValue>) -> bool {
    forall|i: int| 0 <= i < items.len() ==> index_ok(#[trigger] items[i])
}

/// Why a file priority change is invalid, if it is.
pub open spec fn file_priority_problem(args: Seq<JsonValue>) -> Option<Seq<char>> {
    first_of(count_problem(args, 3),
    first_of(id_problem(args[0], "下载任务标识"@),
    match args[1] {
        JsonValue::Array(items) => if items@.len() == 0 || items@.len() > 2048 {
            Some("文件索引列表格式无效"@)
        } else if !all_indexes_ok(items@) {
            Some("文件索引必须是非负整数"@)
        } else {
            match as_i64_spec(args[2]) {
                Some(p) => if 0 <= p <= 7 {
                    None
                } else {
                    Some("文件优先级必须是 0 到 7 的整数"@)
                },
                None => Some("文件优先级必须是 0 到 7 的整数"@),
            }
        },
        _ => Some("文件索引列表格式无效"@),
    }))
}

/// Why a catalog month is invalid, if it is: no arguments, two nulls, or a year from
/// 1900 to 2200 and a month from 1 to 12.
pub open spec fn year_month_problem(args: Seq<JsonValue>) -> Option<Seq<char>> {
    if args.len() == 0 {
        None
    } else {
        first_of(count_problem(args, 2), if args[0] is Null && args[1] is Null {
            None
        } else {
            match as_i64_spec(args[0]) {
                Some(y) => if 1900 <= y <= 2200 {
                    match as_i64_spec(args[1]) {
                        Some(m) => if 1 <= m <= 12 {
                            None
                        } else {
                            Some("月份必须为 1-12 的整数"@)
                        },
                        None => Some("月份必须为 1-12 的整数"@),
                    }
                } else {
                    Some("年份必须为 1900-2200 的整数"@)
                },
                None => Some("年份必须为 1900-2200 的整数"@),
            }
        })
    }
}

/// Why an argument list breaks a rule that reads the list itself, if it does.
pub open spec fn list_rule_problem(rule: ArgRule, args: Seq<JsonValue>) -> Option<Seq<char>> {
    match rule {
        ArgRule::NoArgs => count_problem(args, 0),
        ArgRule::OneId => first_of(count_problem(args, 1), id_problem(args[0], "标识"@)),
        ArgRule::Fansubs => if args.len() == 0 {
            None
        } else {
            first_of(count_problem(args, 1), if args[0] is Null {
                None
            } else {
                id_problem(args[0], "番剧标识"@)
            })
        },
        ArgRule::CatalogSearch => if !(1 <= args.len() <= 2) {
            Some("新番搜索参数数量无效"@)
        } else {
            first_of(keyword_problem(args[0]), if args.len() == 2 && !null_or_bool(args[1]) {
                Some("在线搜索开关必须是布尔值"@)
            } else {
                None
            })
        },
        ArgRule::YearMonth => year_month_problem(args),
        ArgRule::TwoIds => first_of(count_problem(args, 2),
            first_of(id_problem(args[0], "番剧标识"@), id_problem(args[1], "关联标识"@))),
        ArgRule::BindingState => if !(1 <= args.len() <= 2) {
            Some("来源绑定查询参数数量无效"@)
        } else {
            first_of(id_problem(args[0], "番剧标识"@), if args.len() == 2 && !null_or_bool(args[1]) {
                Some("候选发现开关必须是布尔值"@)
            } else {
                None
            })
        },
        ArgRule::RemoveDownload => first_of(count_problem(args, 2),
            first_of(id_problem(args[0], "下载任务标识"@), if args[1] is Bool {
                None
            } else {
                Some("删除文件参数必须是布尔值"@)
            })),
        ArgRule::FilePriority => file_priority_problem(args),
        ArgRule::SourceEnabled => first_of(count_problem(args, 2),
            first_of(id_problem(args[0], "下载源标识"@), if args[1] is Bool {
                None
            } else {
                Some("下载源启用状态必须是布尔值"@)
            })),
        ArgRule::Unknown => Some("远程参数校验失败"@),
        _ => None,
    }
}

/// Why an argument list breaks the rule of its method, if it does.
pub open spec fn rule_problem(rule: ArgRule, args: Seq<JsonValue>) -> Option<Seq<char>> {
    first_of(list_rule_problem(rule, args), object_rule_problem(rule, args))
}

fn check_keyword(v: &JsonValue) -> (r: Result<(), RemoteRpcError>)
    ensures
        outcome(r, keyword_problem(*v)),
{
    match v {
        JsonValue::String(s) => {
            let t = trim_chars(chars_of(s.as_str()).as_slice());
            if t.len() > 0 && t.len() <= 120 && !any_control(t.as_slice()) {
                Ok(())
            } else {
                rpc_error_of(String::from_str("搜索关键词长度必须为 1-120 个字符"))
            }
        },
        _ => rpc_error_of(String::from_str("搜索关键词长度必须为 1-120 个字符")),
    }
}

fn indexes_ok(items: &Vec<JsonValue>) -> (r: bool)
    ensures
        r == all_indexes_ok(items@),
{
    let mut i: usize = 0;
    while i < items.len()
        invariant
            i <= items@.len(),
            forall|k: int| 0 <= k < i ==> index_ok(#[trigger] items@[k]),
        decreases items@.len() - i,
    {
        match as_i64(&items[i]) {
            Some(n) => if n < 0 {
                return false;
            },
            None => {
                return false;
            },
        }
        i = i + 1;
    }
    true
}

fn check_file_priority(args: &Vec<JsonValue>) -> (r: Result<(), RemoteRpcError>)
    ensures
        outcome(r, file_priority_problem(args@)),
{
    let r = require_count(args, 3);
    if r.is_err() {
        return r;
    }
    let r = check_id(&args[0], "下载任务标识");
    if r.is_err() {
        return r;
    }
    match &args[1] {
        JsonValue::Array(items) => {
            if items.len() == 0 || items.len() > 2048 {
                return rpc_error_of(String::from_str("文件索引列表格式无效"));
            }
            if !indexes_ok(items) {
                return rpc_error_of(String::from_str("文件索引必须是非负整数"));
            }
            match as_i64(&args[2]) {
                Some(p) => if 0 <= p && p <= 7 {
                    Ok(())
                } else {
                    rpc_error_of(String::from_str("文件优先级必须是 0 到 7 的整数"))
                },
                None => rpc_error_of(String::from_str("文件优先级必须是 0 到 7 的整数")),
            }
        },
        _ => rpc_error_of(String::from_str("文件索引列表格式无效")),
    }
}

fn check_year_month(args: &Vec<JsonValue>) -> (r: Result<(), RemoteRpcError>)
    ensures
        outcome(r, year_month_problem(args@)),
{
    if args.len() == 0 {
        return Ok(());
    }
    let r = require_count(args, 2);
    if r.is_err() {
        return r;
    }
    if matches!(args[0], JsonValue::Null) && matches!(args[1], JsonValue::Null) {
        return Ok(());
    }
    match as_i64(&args[0]) {
        Some(y) => if !(1900 <= y && y <= 2200) {
            return rpc_error_of(String::from_str("年份必须为 1900-2200 的整数"));
        },
        None => {
            return rpc_error_of(String::from_str("年份必须为 1900-2200 的整数"));
        },
    }
    match as_i64(&args[1]) {
        Some(m) => if 1 <= m && m <= 12 {
            Ok(())
        } else {
            rpc_error_of(String::from_str("月份必须为 1-12 的整数"))
        },
        None => rpc_error_of(String::from_str("月份必须为 1-12 的整数")),
    }
}

fn check_optional_flag(v: &JsonValue, message: &str) -> (r: Result<(), RemoteRpcError>)
    ensures
        outcome(r, if null_or_bool(*v) { None } else { Some(message@) }),
{
    match v {
        JsonValue::Null => Ok(()),
        JsonValue::Bool(_) => Ok(()),
        _ => rpc_error_of(String::from_str(message)),
    }
}

fn check_flag(v: &JsonValue, message: &str) -> (r: Result<(), RemoteRpcError>)
    ensures
        outcome(r, if v is Bool { None } else { Some(message@) }),
{
    match v {
        JsonValue::Bool(_) => Ok(()),
        _ => rpc_error_of(String::from_str(message)),
    }
}

#[verifier::rlimit(40)]
fn check_list_rule(rule: ArgRule, args: &Vec<JsonValue>) -> (r: Result<(), RemoteRpcError>)
    ensures
        outcome(r, list_rule_problem(rule, args@)),
{
    match rule {
        ArgRule::NoArgs => require_count(args, 0),
        ArgRule::OneId => {
            let r = require_count(args, 1);
            if r.is_err() {
                return r;
            }
            check_id(&args[0], "标识")
        },
        ArgRule::Fansubs => {
            if args.len() == 0 {
                return Ok(());
            }
            let r = require_count(args, 1);
            if r.is_err() {
                return r;
            }
            if matches!(args[0], JsonValue::Null) {
                Ok(())
            } else {
                check_id(&args[0], "番剧标识")
            }
        },
        ArgRule::CatalogSearch => {
            if !(1 <= args.len() && args.len() <= 2) {
                return rpc_error_of(String::from_str("新番搜索参数数量无效"));
            }
            let r = check_keyword(&args[0]);
            if r.is_err() {
                return r;
            }
            if args.len() == 2 {
                check_optional_flag(&args[1], "在线搜索开关必须是布尔值")
            } else {
                Ok(())
            }
        },
        ArgRule::YearMonth => check_year_month(args),
        ArgRule::TwoIds => {
            let r = require_count(args, 2);
            if r.is_err() {
                return r;
            }
            let r = check_id(&args[0], "番剧标识");
            if r.is_err() {
                return r;
            }
            check_id(&args[1], "关联标识")
        },
        ArgRule::BindingState => {
            if !(1 <= args.len() && args.len() <= 2) {
                return rpc_error_of(String::from_str("来源绑定查询参数数量无效"));
            }
            let r = check_id(&args[0], "番剧标识");
            if r.is_err() {
                return r;
            }
            if args.len() == 2 {
                check_optional_flag(&args[1], "候选发现开关必须是布尔值")
            } else {
                Ok(())
            }
        },
        ArgRule::RemoveDownload => {
            let r = require_count(args, 2);
            if r.is_err() {
                return r;
            }
            let r = check_id(&args[0], "下载任务标识");
            if r.is_err() {
                return r;
            }
            check_flag(&args[1], "删除文件参数必须是布尔值")
        },
        ArgRule::FilePriority => check_file_priority(args),
        ArgRule::SourceEnabled => {
            let r = require_count(args, 2);
            if r.is_err() {
                return r;
            }
            let r = check_id(&args[0], "下载源标识");
            if r.is_err() {
                return r;
            }
            check_flag(&args[1], "下载源启用状态必须是布尔值")
        },
        ArgRule::Unknown => rpc_error_of(String::from_str("远程参数校验失败")),
        _ => Ok(()),
    }
}

/// The typed domain object that the single argument of a method must also read as.
#[derive(Debug, Clone, Copy, PartialEq, Eq, Structural)]
pub enum DomainShape {
    Untyped,
    BangumiBrowseQuery,
    MyAnime,
    Episode,
    EpisodePreference,
    ReleaseQuery,
    AnimeReleaseQuery,
    RssSubscriptionReleaseQuery,
    ConfirmAnimeSourceBindingInput,
    ReportAnimeSourceCandidateMismatchInput,
    RemoveAnimeSourceCandidateMismatchInput,
    SetAnimeSourceExclusionInput,
    ReleaseSourceConfig,
}

/// The typed reading a rule asks for.
pub open spec fn rule_shape(rule: ArgRule) -> DomainShape {
    match rule {
        ArgRule::BrowseBangumi => DomainShape::BangumiBrowseQuery,
        ArgRule::MyAnime => DomainShape::MyAnime,
        ArgRule::Episode => DomainShape::Episode,
        ArgRule::EpisodePreference => DomainShape::EpisodePreference,
        ArgRule::ReleaseSearch => DomainShape::ReleaseQuery,
        ArgRule::AnimeReleaseSearch => DomainShape::AnimeReleaseQuery,
        ArgRule::RssReleaseSearch => DomainShape::RssSubscriptionReleaseQuery,
        ArgRule::ConfirmBinding => DomainShape::ConfirmAnimeSourceBindingInput,
        ArgRule::ReportMismatch => DomainShape::ReportAnimeSourceCandidateMismatchInput,
        ArgRule::RemoveMismatch => DomainShape::RemoveAnimeSourceCandidateMismatchInput,
        ArgRule::SetExcluded => DomainShape::SetAnimeSourceExclusionInput,
        ArgRule::UpsertSource => DomainShape::ReleaseSourceConfig,
        _ => DomainShape::Untyped,
    }
}

fn shape_of(rule: ArgRule) -> (r: DomainShape)
    ensures
        r == rule_shape(rule),
{
    match rule {
        ArgRule::BrowseBangumi => DomainShape::BangumiBrowseQuery,
        ArgRule::MyAnime => DomainShape::MyAnime,
        ArgRule::Episode => DomainShape::Episode,
        ArgRule::EpisodePreference => DomainShape::EpisodePreference,
        ArgRule::ReleaseSearch => DomainShape::ReleaseQuery,
        ArgRule::AnimeReleaseSearch => DomainShape::AnimeReleaseQuery,
        ArgRule::RssReleaseSearch => DomainShape::RssSubscriptionReleaseQuery,
        ArgRule::ConfirmBinding => DomainShape::ConfirmAnimeSourceBindingInput,
        ArgRule::ReportMismatch => DomainShape::ReportAnimeSourceCandidateMismatchInput,
        ArgRule::RemoveMismatch => DomainShape::RemoveAnimeSourceCandidateMismatchInput,
        ArgRule::SetExcluded => DomainShape::SetAnimeSourceExclusionInput,
        ArgRule::UpsertSource => DomainShape::ReleaseSourceConfig,
        _ => DomainShape::Untyped,
    }
}

/// Whether `out` is the argument list handed on for valid `args`: the catalog search
/// keyword trimmed, the catalog month as two integers (none for two nulls), and
/// otherwise the arguments unchanged.
pub open spec fn normalized_args(rule: ArgRule, args: Seq<JsonValue>, out: Seq<JsonValue>) -> bool {
    match rule {
        ArgRule::CatalogSearch => out.len() == args.len() && (out[0] matches JsonValue::String(k) && args[0] matches JsonValue::String(s) && k@ == trim(s@)) && (args.len() == 2 ==> out[1] == args[1]),
        ArgRule::YearMonth => if args.len() == 0 || (args[0] is Null && args[1] is Null) {
            out.len() == 0
        } else {
            match (as_i64_spec(args[0]), as_i64_spec(args[1])) {
                (Some(y), Some(m)) => out == seq![JsonValue::Number(JsonNumber::PosInt(y as u64)), JsonValue::Number(JsonNumber::PosInt(m as u64))],
                _ => false,
            }
        },
        _ => out == args,
    }
}

fn normalize_args(rule: ArgRule, args: Vec<JsonValue>) -> (r: Vec<JsonValue>)
    requires
        rule_problem(rule, args@) is None,
    ensures
        normalized_args(rule, args@, r@),
{
    match rule {
        ArgRule::CatalogSearch => {
            let mut rest = args;
            let second = if rest.len() == 2 {
                rest.pop()
            } else {
                None
            };
            match &rest[0] {
                JsonValue::String(s) => {
                    let k = string_of(trim_chars(chars_of(s.as_str()).as_slice()).as_slice());
                    let mut out: Vec<JsonValue> = Vec::new();
                    out.push(JsonValue::String(k));
                    match second {
                        Some(v) => out.push(v),
                        None => {},
                    }
                    assert(rest@[0] == args@[0]);
                    out
                },
                _ => rest,
            }
        },
        ArgRule::YearMonth => {
            if args.len() == 0 {
                return args;
            }
            if matches!(args[0], JsonValue::Null) && matches!(args[1], JsonValue::Null) {
                return Vec::new();
            }
            match (as_i64(&args[0]), as_i64(&args[1])) {
                (Some(y), Some(m)) => {
                    let mut out: Vec<JsonValue> = Vec::new();
                    out.push(JsonValue::Number(JsonNumber::PosInt(y as u64)));
                    out.push(JsonValue::Number(JsonNumber::PosInt(m as u64)));
                    assert(out@ =~= seq![JsonValue::Number(JsonNumber::PosInt(y as u64)), JsonValue::Number(JsonNumber::PosInt(m as u64))]);
                    out
                },
                _ => args,
            }
        },
        _ => args,
    }
}

/// Arguments that passed their method's rules, and the typed reading they still owe.
#[derive(Debug)]
pub struct ValidatedArgs {
    pub args: Vec<JsonValue>,
    pub shape: DomainShape,
}

/// Checks the arguments of a method against its rules and hands them on normalized.
/// Where `shape` names a domain object, the caller that holds the typed domain model
/// must still read the single argument as that object, and answer a failure with
/// `invalid_args("远程对象字段类型无效")`.
pub fn validate_args(method: &str, args: Vec<JsonValue>) -> (r: Result<ValidatedArgs, RemoteRpcError>)
    ensures
        match r {
            Ok(v) => rule_problem(arg_rule(method@), args@) is None && normalized_args(arg_rule(method@), args@, v.args@)
                && v.shape == rule_shape(arg_rule(method@)),
            Err(e) => e.status == 400 && e.code@ == "INVALID_ARGUMENTS"@ && rule_problem(arg_rule(method@), args@) == Some(e.message@),
        },
{
    let rule = find_arg_rule(method);
    if let Err(e) = check_list_rule(rule, &args) {
        return Err(e);
    }
    if let Err(e) = check_object_rule(rule, &args) {
        return Err(e);
    }
    let shape = shape_of(rule);
    Ok(ValidatedArgs { args: normalize_args(rule, args), shape })
}


/// A JSON value with its texts read as characters.
pub enum JsonView {
    Null,
    Bool(bool),
    Number(JsonNumber),
    Text(Seq<char>),
    Array(Seq<JsonView>),
    Object(Seq<(Seq<char>, JsonView)>),
}

/// The view of a JSON value.
pub open spec fn json_view(v: JsonValue) -> JsonView
    decreases v,
{
    match v {
        JsonValue::Null => JsonView::Null,
        JsonValue::Bool(b) => JsonView::Bool(b),
        JsonValue::Number(n) => JsonView::Number(n),
        JsonValue::String(s) => JsonView::Text(s@),
        JsonValue::Array(items) => JsonView::Array(items_view(items@)),
        JsonValue::Object(members) => JsonView::Object(members_view(members@)),
    }
}

/// The views of a list of values.
pub open spec fn items_view(items: Seq<JsonValue>) -> Seq<JsonView>
    decreases items,
{
    if items.len() == 0 {
        Seq::empty()
    } else {
        items_view(items.drop_last()).push(json_view(items.last()))
    }
}

/// The views of object members.
pub open spec fn members_view(members: Seq<(String, JsonValue)>) -> Seq<(Seq<char>, JsonView)>
    decreases members,
{
    if members.len() == 0 {
        Seq::empty()
    } else {
        members_view(members.drop_last()).push((members.last().0@, json_view(members.last().1)))
    }
}


/// Whether one of the granted scopes is `scope`.
pub open spec fn scope_granted(scopes: Seq<String>, scope: Seq<char>) -> bool {
    exists|i: int| 0 <= i < scopes.len() && (#[trigger] scopes[i])@ == scope
}

/// The protocol error of an argument problem, if there is one.
pub open spec fn args_problem(method: Seq<char>, args: Seq<JsonValue>) -> Option<(u16, Seq<char>, Seq<char>)> {
    match rule_problem(arg_rule(method), args) {
        Some(m) => Some((400u16, "INVALID_ARGUMENTS"@, m)),
        None => None,
    }
}

/// Whether a method name has the form a request may carry: not empty and at most 80
/// bytes.
pub open spec fn method_name_ok(m: Seq<char>) -> bool {
    m.len() > 0 && encode_utf8(m).len() <= 80
}

/// The arguments a request carries: none when it has no `args` member.
pub open spec fn request_args(members: Seq<(String, JsonValue)>) -> Seq<JsonValue> {
    match member_get(members, "args"@) {
        Some(JsonValue::Array(a)) => a@,
        _ => Seq::empty(),
    }
}

/// The first refusal a request meets, as status, code and message: a request that is
/// not an object, has other members than `method` and `args`, names no method of an
/// acceptable form, names an unknown method, names a method whose scope the device was
/// not granted, carries arguments that are not a list of at most four, or arguments
/// that break the method's rules.
pub open spec fn request_problem(request: JsonValue, scopes: Seq<String>) -> Option<(u16, Seq<char>, Seq<char>)> {
    match request {
        JsonValue::Object(ms) => if !keys_within(ms@, seq!["method", "args"]) {
            Some((400u16, "INVALID_REQUEST"@, "远程请求包含未知字段"@))
        } else {
            match member_get(ms@, "method"@) {
                Some(JsonValue::String(m)) => if !method_name_ok(m@) {
                    Some((400u16, "INVALID_REQUEST"@, "远程方法名格式无效"@))
                } else {
                    match find_method_in(method_table(), m@) {
                        None => Some((404u16, "METHOD_NOT_FOUND"@, "远程方法不存在"@)),
                        Some(d) => if !scope_granted(scopes, d.1) {
                            Some((403u16, "FORBIDDEN"@, "设备未获得此操作权限"@))
                        } else {
                            match member_get(ms@, "args"@) {
                                None => args_problem(m@, Seq::empty()),
                                Some(JsonValue::Array(a)) => if a@.len() <= 4 {
                                    args_problem(m@, a@)
                                } else {
                                    Some((400u16, "INVALID_REQUEST"@, "远程参数必须是最多四项的数组"@))
                                },
                                Some(_) => Some((400u16, "INVALID_REQUEST"@, "远程参数必须是最多四项的数组"@)),
                            }
                        },
                    }
                },
                _ => Some((400u16, "INVALID_REQUEST"@, "远程方法名格式无效"@)),
            }
        },
        _ => Some((400u16, "INVALID_REQUEST"@, "远程请求格式无效"@)),
    }
}

/// A request that passed every check: the method, what it does, and its arguments.
#[derive(Debug)]
pub struct RpcCall {
    pub method: String,
    pub effect: RpcEffect,
    pub args: ValidatedArgs,
}

fn scope_in(scopes: &[String], scope: &str) -> (r: bool)
    ensures
        r == scope_granted(scopes@, scope@),
{
    let k = chars_of(scope);
    let mut i: usize = 0;
    while i < scopes.len()
        invariant
            i <= scopes@.len(),
            k@ == scope@,
            forall|j: int| 0 <= j < i ==> (#[trigger] scopes@[j])@ != scope@,
        decreases scopes@.len() - i,
    {
        if chars_eq(chars_of(scopes[i].as_str()).as_slice(), k.as_slice()) {
            assert(scopes@[i as int]@ == scope@);
            return true;
        }
        i = i + 1;
    }
    false
}

/// Takes the first member named `args` out of a request's members.
fn take_args(members: Vec<(String, JsonValue)>) -> (r: Option<JsonValue>)
    ensures
        r == member_get(members@, "args"@),
{
    let ghost orig = members@;
    let n = members.len();
    let mut rest = members;
    let mut i: usize = 0;
    assert(orig.subrange(0, n as int) =~= orig);
    while i < n
        invariant
            n == orig.len(),
            i <= n,
            orig == members@,
            rest@ == orig.subrange(i as int, n as int),
            member_get(orig.subrange(i as int, n as int), "args"@) == member_get(orig, "args"@),
        decreases n - i,
    {
        let ghost tail = orig.subrange(i as int, n as int);
        let e = rest.remove(0);
        assert(e == tail[0]);
        assert(tail.subrange(1, tail.len() as int) =~= orig.subrange(i + 1, n as int));
        let name = chars_of(e.0.as_str());
        if eq_str(name.as_slice(), "args") {
            assert(tail[0].0@ == "args"@);
            assert(member_get(tail, "args"@) == Some(tail[0].1));
            return Some(e.1);
        }
        i = i + 1;
        assert(rest@ =~= orig.subrange(i as int, n as int));
    }
    None
}

fn request_error(status: u16, code: &'static str, message: &str) -> (r: RemoteRpcError)
    ensures
        r.status == status,
        r.code@ == code@,
        r.message@ == message@,
{
    RemoteRpcError::new(status, code, String::from_str(message))
}

/// Checks a request against the method table and the device's granted scopes, and
/// hands on the call it asks for.
pub fn check_request(request: JsonValue, granted_scopes: &[String]) -> (r: Result<RpcCall, RemoteRpcError>)
    ensures
        match r {
            Ok(call) => request_problem(request, granted_scopes@) is None && (request matches JsonValue::Object(ms) && (
                member_get(ms@, "method"@) matches Some(JsonValue::String(m)) && call.method@ == m@
                && (find_method_in(method_table(), m@) matches Some(d) && call.effect == d.2)
                && normalized_args(arg_rule(m@), request_args(ms@), call.args.args@)
                && call.args.shape == rule_shape(arg_rule(m@)))),
            Err(e) => request_problem(request, granted_scopes@) == Some((e.status, e.code@, e.message@)),
        },
{
    let members = match request {
        JsonValue::Object(ms) => ms,
        _ => {
            return Err(request_error(400, "INVALID_REQUEST", "远程请求格式无效"));
        },
    };
    let allowed = ["method", "args"];
    assert(allowed@ == seq!["method", "args"]);
    if !keys_within_exec(&members, &allowed) {
        return Err(request_error(400, "INVALID_REQUEST", "远程请求包含未知字段"));
    }
    let method = match members_get(&members, "method") {
        Some(JsonValue::String(m)) => {
            let mc = chars_of(m.as_str());
            if mc.len() == 0 || m.as_str().as_bytes().len() > 80 {
                return Err(request_error(400, "INVALID_REQUEST", "远程方法名格式无效"));
            }
            string_of(mc.as_slice())
        },
        _ => {
            return Err(request_error(400, "INVALID_REQUEST", "远程方法名格式无效"));
        },
    };
    let definition = match find_method(method.as_str()) {
        Some(d) => d,
        None => {
            return Err(request_error(404, "METHOD_NOT_FOUND", "远程方法不存在"));
        },
    };
    if !scope_in(granted_scopes, definition.scope) {
        return Err(request_error(403, "FORBIDDEN", "设备未获得此操作权限"));
    }
    let ghost ms = members@;
    let args = match take_args(members) {
        None => Vec::new(),
        Some(JsonValue::Array(a)) => {
            if a.len() > 4 {
                return Err(request_error(400, "INVALID_REQUEST", "远程参数必须是最多四项的数组"));
            }
            a
        },
        Some(_) => {
            return Err(request_error(400, "INVALID_REQUEST", "远程参数必须是最多四项的数组"));
        },
    };
    assert(args@ == request_args(ms));
    match validate_args(method.as_str(), args) {
        Ok(v) => Ok(RpcCall { method, effect: definition.effect, args: v }),
        Err(e) => Err(e),
    }
}


/// A request that passes the checks names a method of the table whose scope the device
/// was granted, with at most four arguments that keep the method's rules.
pub proof fn lemma_accepted_request_is_authorized(request: JsonValue, scopes: Seq<String>)
    requires
        request_problem(request, scopes) is None,
    ensures
        request matches JsonValue::Object(ms) && (member_get(ms@, "method"@) matches Some(JsonValue::String(m)) && (find_method_in(
            method_table(),
            m@,
        ) matches Some(d) && scope_granted(scopes, d.1) && request_args(ms@).len() <= 4 && rule_problem(arg_rule(m@), request_args(ms@)) is None)),
{
}


/// A watch progress update with a valid anime is accepted exactly when its count is a
/// whole number from 0 to 10000: any other number, or a missing count, is refused with
/// the range message. For a count written as the unsigned integer `u`, acceptance is
/// exactly `u <= 10000`; in particular a count of 0 (progress reset) is accepted.
pub proof fn lemma_watch_progress_accepts_whole_range(m: Seq<(String, JsonValue)>, u: u64)
    requires
        member_id_problem(m, "animeId"@, "番剧标识"@) is None,
    ensures
        watch_progress_problem(m) is None <==> (field(m, "watchedEpisodeCount"@) matches Some(x)
            && exists|n: i64| as_i64_spec(x) == Some(n) && 0 <= n && n <= 10000),
        watch_progress_problem(m) is Some ==> watch_progress_problem(m) == Some("观看进度必须是 0 到 10000 之间的整数"@),
        field(m, "watchedEpisodeCount"@) == Some(JsonValue::Number(JsonNumber::PosInt(u)))
            ==> (watch_progress_problem(m) is None <==> u <= 10000),
{
    match field(m, "watchedEpisodeCount"@) {
        Some(x) => match as_i64_spec(x) {
            Some(n) => {
                if 0 <= n && n <= 10000 {
                    assert(as_i64_spec(x) == Some(n) && 0 <= n && n <= 10000);
                }
            },
            None => {},
        },
        None => {},
    }
}

} // verus!
