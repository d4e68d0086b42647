//! What a remote device may see of a result: local paths, links and secrets are
//! hidden before a result leaves the host. Results are JSON values; the contracts
//! speak of their views, in which texts are character sequences.

use vstd::prelude::*;
use crate::rpc::{
    JsonValue, JsonView, RemoteRpcError, invalid_result, json_view, items_view, members_view,
    key_allowed, key_in, label_message, labelled,
};
use crate::rpc::JsonNumber;
use crate::text::{
    append_chars, append_str, ascii_lower, chars_eq, chars_of, has_prefix, join_chars, join_spec,
    split_words, starts_with, string_of, to_ascii_lower, words,
};

verus! {

/// The placeholder that stands for a local path.
pub const HIDDEN_LOCAL_PATH: &'static str = "本机路径已隐藏";

/// The placeholder that stands for a secret that is set.
pub const REMOTE_SECRET_PLACEHOLDER: &'static str = "********";

/// The views of members have one entry per member, in order.
pub proof fn lemma_members_view(members: Seq<(String, JsonValue)>)
    ensures
        members_view(members).len() == members.len(),
        forall|i: int| 0 <= i < members.len() ==> #[trigger] members_view(members)[i] == (members[i].0@, json_view(members[i].1)),
    decreases members.len(),
{
    if members.len() > 0 {
        lemma_members_view(members.drop_last());
    }
}

/// The views of items have one entry per item, in order.
pub proof fn lemma_items_view(items: Seq<JsonValue>)
    ensures
        items_view(items).len() == items.len(),
        forall|i: int| 0 <= i < items.len() ==> #[trigger] items_view(items)[i] == json_view(items[i]),
    decreases items.len(),
{
    if items.len() > 0 {
        lemma_items_view(items.drop_last());
    }
}

/// The entries whose name is not `key`, in order.
pub open spec fn drop_key(es: Seq<(Seq<char>, JsonView)>, key: Seq<char>) -> Seq<(Seq<char>, JsonView)>
    decreases es.len(),
{
    if es.len() == 0 {
        es
    } else if es.last().0 == key {
        drop_key(es.drop_last(), key)
    } else {
        drop_key(es.drop_last(), key).push(es.last())
    }
}

/// The entries whose name is one of `allowed`, in order.
pub open spec fn keep_keys(es: Seq<(Seq<char>, JsonView)>, allowed: Seq<&str>) -> Seq<(Seq<char>, JsonView)>
    decreases es.len(),
{
    if es.len() == 0 {
        es
    } else if key_allowed(es.last().0, allowed) {
        keep_keys(es.drop_last(), allowed).push(es.last())
    } else {
        keep_keys(es.drop_last(), allowed)
    }
}

/// The entries with the member `key` set to the text `text`, placed last.
pub open spec fn set_text(es: Seq<(Seq<char>, JsonView)>, key: Seq<char>, text: Seq<char>) -> Seq<(Seq<char>, JsonView)> {
    drop_key(es, key).push((key, JsonView::Text(text)))
}

/// Whether `i` is the index of the first entry named `key`.
pub open spec fn is_first_index(es: Seq<(Seq<char>, JsonView)>, key: Seq<char>, i: int) -> bool {
    0 <= i < es.len() && es[i].0 == key && forall|j: int| 0 <= j < i ==> (#[trigger] es[j]).0 != key
}

/// The index of the first entry named `key`.
pub open spec fn first_index(es: Seq<(Seq<char>, JsonView)>, key: Seq<char>) -> Option<int> {
    if exists|i: int| is_first_index(es, key, i) {
        Some(choose|i: int| is_first_index(es, key, i))
    } else {
        None
    }
}

/// The value of the first entry named `key`.
pub open spec fn member_of(es: Seq<(Seq<char>, JsonView)>, key: Seq<char>) -> Option<JsonView> {
    match first_index(es, key) {
        Some(i) => Some(es[i].1),
        None => None,
    }
}

/// The entries with the value of the first entry named `key` replaced.
pub open spec fn replace_first(es: Seq<(Seq<char>, JsonView)>, key: Seq<char>, v: JsonView) -> Seq<(Seq<char>, JsonView)> {
    match first_index(es, key) {
        Some(i) => es.update(i, (key, v)),
        None => es,
    }
}

/// Whether a character is an ASCII letter.
pub open spec fn is_ascii_alpha(c: char) -> bool {
    ('a' <= c && c <= 'z') || ('A' <= c && c <= 'Z')
}

/// Whether a token looks like a local path: a drive letter with a separator, a network
/// share, or a path under a home, volume or mount directory. (The drive form is read on
/// bytes by the host; its three ASCII characters are the same three bytes.)
pub open spec fn local_path(t: Seq<char>) -> bool {
    (t.len() >= 3 && is_ascii_alpha(t[0]) && t[1] == ':' && (t[2] == '\\' || t[2] == '/'))
        || has_prefix(t, "\\\\"@)
        || has_prefix(t, "/Users/"@)
        || has_prefix(t, "/home/"@)
        || has_prefix(t, "/var/"@)
        || has_prefix(t, "/private/"@)
        || has_prefix(t, "/Volumes/"@)
        || has_prefix(t, "/mnt/"@)
        || has_prefix(t, "/media/"@)
}

/// What a token becomes: links and local paths are replaced by markers.
pub open spec fn redact_token(t: Seq<char>) -> Seq<char> {
    let lower = ascii_lower(t);
    if has_prefix(lower, "http://"@) || has_prefix(lower, "https://"@) || has_prefix(lower, "ftp://"@) {
        "[链接已隐藏]"@
    } else if local_path(t) {
        "[本机路径已隐藏]"@
    } else {
        t
    }
}

/// A free text with its links and local paths hidden: the white-space separated
/// tokens, each redacted, joined by single spaces.
pub open spec fn redact_text(s: Seq<char>) -> Seq<char> {
    join_spec(words(s).map_values(|t: Seq<char>| redact_token(t)), " "@)
}

fn ascii_alpha(c: char) -> (r: bool)
    ensures
        r == is_ascii_alpha(c),
{
    ('a' <= c && c <= 'z') || ('A' <= c && c <= 'Z')
}

fn prefixed(t: &[char], p: &str) -> (r: bool)
    ensures
        r == has_prefix(t@, p@),
{
    let pc = chars_of(p);
    starts_with(t, pc.as_slice())
}

/// Whether a token looks like a local path.
pub fn looks_like_local_path(value: &str) -> (r: bool)
    ensures
        r == local_path(value@),
{
    let t = chars_of(value);
    (t.len() >= 3 && ascii_alpha(t[0]) && t[1] == ':' && (t[2] == '\\' || t[2] == '/'))
        || prefixed(t.as_slice(), "\\\\")
        || prefixed(t.as_slice(), "/Users/")
        || prefixed(t.as_slice(), "/home/")
        || prefixed(t.as_slice(), "/var/")
        || prefixed(t.as_slice(), "/private/")
        || prefixed(t.as_slice(), "/Volumes/")
        || prefixed(t.as_slice(), "/mnt/")
        || prefixed(t.as_slice(), "/media/")
}

fn redact_word(t: &[char]) -> (r: Vec<char>)
    ensures
        r@ == redact_token(t@),
{
    let lower = to_ascii_lower(t);
    if prefixed(lower.as_slice(), "http://") || prefixed(lower.as_slice(), "https://") || prefixed(lower.as_slice(), "ftp://") {
        chars_of("[链接已隐藏]")
    } else {
        let s = string_of(t);
        if looks_like_local_path(s.as_str()) {
            chars_of("[本机路径已隐藏]")
        } else {
            let mut v: Vec<char> = Vec::new();
            append_chars(&mut v, t);
            v
        }
    }
}

/// Hides the links and local paths of a free text.
pub fn redact_free_text(value: &str) -> (r: String)
    ensures
        r@ == redact_text(value@),
{
    let cs = chars_of(value);
    let ws = split_words(cs.as_slice());
    let ghost target = words(value@).map_values(|t: Seq<char>| redact_token(t));
    let mut parts: Vec<Vec<char>> = Vec::new();
    let mut i: usize = 0;
    while i < ws.len()
        invariant
            i <= ws@.len(),
            ws@.len() == words(value@).len(),
            forall|k: int| 0 <= k < ws@.len() ==> #[trigger] ws@[k]@ == words(value@)[k],
            target == words(value@).map_values(|t: Seq<char>| redact_token(t)),
            parts@.len() == i,
            forall|k: int| 0 <= k < i ==> #[trigger] parts@[k]@ == target[k],
        decreases ws@.len() - i,
    {
        let w = redact_word(ws[i].as_slice());
        parts.push(w);
        i = i + 1;
    }
    assert(parts@.map_values(|p: Vec<char>| p@) =~= target);
    let r = join_chars(&parts, [' '].as_slice());
    proof {
        reveal_strlit(" ");
        assert([' ']@ =~= " "@);
    }
    string_of(r.as_slice())
}


/// The entries with every text member named `key` redacted.
pub open spec fn redact_key(es: Seq<(Seq<char>, JsonView)>, key: Seq<char>) -> Seq<(Seq<char>, JsonView)>
    decreases es.len(),
{
    if es.len() == 0 {
        es
    } else {
        let e = es.last();
        let r = redact_key(es.drop_last(), key);
        match e.1 {
            JsonView::Text(t) => if e.0 == key {
                r.push((e.0, JsonView::Text(redact_text(t))))
            } else {
                r.push(e)
            },
            _ => r.push(e),
        }
    }
}

proof fn lemma_view_step(orig: Seq<(String, JsonValue)>, i: int)
    requires
        0 <= i < orig.len(),
    ensures
        members_view(orig.subrange(0, i + 1)) == members_view(orig.subrange(0, i)).push((orig[i].0@, json_view(orig[i].1))),
{
    assert(orig.subrange(0, i + 1).drop_last() =~= orig.subrange(0, i));
}

proof fn lemma_view_push(s: Seq<(String, JsonValue)>, x: (String, JsonValue))
    ensures
        members_view(s.push(x)) == members_view(s).push((x.0@, json_view(x.1))),
{
    assert(s.push(x).drop_last() =~= s);
}

proof fn lemma_entries_push(es: Seq<(Seq<char>, JsonView)>, x: (Seq<char>, JsonView))
    ensures
        es.push(x).drop_last() == es,
        es.push(x).last() == x,
{
    assert(es.push(x).drop_last() =~= es);
}

fn same_name(name: &String, key: &str) -> (r: bool)
    ensures
        r == (name@ == key@),
{
    let a = chars_of(name.as_str());
    let b = chars_of(key);
    chars_eq(a.as_slice(), b.as_slice())
}

/// Removes every member named `key`.
pub fn drop_member(members: Vec<(String, JsonValue)>, key: &str) -> (r: Vec<(String, JsonValue)>)
    ensures
        members_view(r@) == drop_key(members_view(members@), key@),
{
    let ghost orig = members@;
    let n = members.len();
    let mut rest = members;
    let mut out: Vec<(String, JsonValue)> = Vec::new();
    let mut i: usize = 0;
    while i < n
        invariant
            n == orig.len(),
            i <= n,
            rest@ == orig.subrange(i as int, n as int),
            members_view(out@) == drop_key(members_view(orig.subrange(0, i as int)), key@),
        decreases n - i,
    {
        let e = rest.remove(0);
        proof {
            assert(e == orig[i as int]);
            lemma_view_step(orig, i as int);
            lemma_entries_push(members_view(orig.subrange(0, i as int)), (e.0@, json_view(e.1)));
        }
        if !same_name(&e.0, key) {
            proof {
                lemma_view_push(out@, e);
            }
            out.push(e);
        }
        i = i + 1;
        assert(rest@ =~= orig.subrange(i as int, n as int));
    }
    assert(orig.subrange(0, n as int) =~= orig);
    out
}

/// Keeps only the members named by `allowed`.
pub fn keep_members(members: Vec<(String, JsonValue)>, allowed: &[&str]) -> (r: Vec<(String, JsonValue)>)
    ensures
        members_view(r@) == keep_keys(members_view(members@), allowed@),
{
    let ghost orig = members@;
    let n = members.len();
    let mut rest = members;
    let mut out: Vec<(String, JsonValue)> = Vec::new();
    let mut i: usize = 0;
    while i < n
        invariant
            n == orig.len(),
            i <= n,
            rest@ == orig.subrange(i as int, n as int),
            members_view(out@) == keep_keys(members_view(orig.subrange(0, i as int)), allowed@),
        decreases n - i,
    {
        let e = rest.remove(0);
        proof {
            assert(e == orig[i as int]);
            lemma_view_step(orig, i as int);
            lemma_entries_push(members_view(orig.subrange(0, i as int)), (e.0@, json_view(e.1)));
        }
        if key_in(e.0.as_str(), allowed) {
            proof {
                lemma_view_push(out@, e);
            }
            out.push(e);
        }
        i = i + 1;
        assert(rest@ =~= orig.subrange(i as int, n as int));
    }
    assert(orig.subrange(0, n as int) =~= orig);
    out
}

/// Sets the member `key` to the text `text`, placed last.
pub fn put_text(members: Vec<(String, JsonValue)>, key: &str, text: &str) -> (r: Vec<(String, JsonValue)>)
    ensures
        members_view(r@) == set_text(members_view(members@), key@, text@),
{
    let mut out = drop_member(members, key);
    let e = (String::from_str(key), JsonValue::String(String::from_str(text)));
    proof {
        lemma_view_push(out@, e);
    }
    out.push(e);
    out
}

/// Redacts every text member named `key`.
pub fn redact_member(members: Vec<(String, JsonValue)>, key: &str) -> (r: Vec<(String, JsonValue)>)
    ensures
        members_view(r@) == redact_key(members_view(members@), key@),
{
    let ghost orig = members@;
    let n = members.len();
    let mut rest = members;
    let mut out: Vec<(String, JsonValue)> = Vec::new();
    let mut i: usize = 0;
    while i < n
        invariant
            n == orig.len(),
            i <= n,
            rest@ == orig.subrange(i as int, n as int),
            members_view(out@) == redact_key(members_view(orig.subrange(0, i as int)), key@),
        decreases n - i,
    {
        let e = rest.remove(0);
        proof {
            assert(e == orig[i as int]);
            lemma_view_step(orig, i as int);
            lemma_entries_push(members_view(orig.subrange(0, i as int)), (e.0@, json_view(e.1)));
        }
        let (name, value) = e;
        let matched = same_name(&name, key);
        let item = match value {
            JsonValue::String(t) => if matched {
                (name, JsonValue::String(redact_free_text(t.as_str())))
            } else {
                (name, JsonValue::String(t))
            },
            other => (name, other),
        };
        proof {
            lemma_view_push(out@, item);
        }
        out.push(item);
        i = i + 1;
        assert(rest@ =~= orig.subrange(i as int, n as int));
    }
    assert(orig.subrange(0, n as int) =~= orig);
    out
}

/// The index of the first member named `key`.
pub fn find_member(members: &Vec<(String, JsonValue)>, key: &str) -> (r: Option<usize>)
    ensures
        match r {
            Some(i) => first_index(members_view(members@), key@) == Some(i as int) && i < members@.len(),
            None => first_index(members_view(members@), key@) is None,
        },
{
    let ghost es = members_view(members@);
    proof {
        lemma_members_view(members@);
    }
    let mut i: usize = 0;
    while i < members.len()
        invariant
            i <= members@.len(),
            es == members_view(members@),
            es.len() == members@.len(),
            forall|j: int| 0 <= j < members@.len() ==> #[trigger] es[j] == (members@[j].0@, json_view(members@[j].1)),
            forall|j: int| 0 <= j < i ==> (#[trigger] es[j]).0 != key@,
        decreases members@.len() - i,
    {
        if same_name(&members[i].0, key) {
            assert(es[i as int].0 == key@);
            assert(is_first_index(es, key@, i as int));
            assert forall|j: int| #[trigger] is_first_index(es, key@, j) implies j == i as int by {
                if j < i {
                } else if j > i {
                    assert(es[i as int].0 == key@);
                }
            }
            return Some(i);
        }
        i = i + 1;
    }
    assert(!exists|j: int| is_first_index(es, key@, j));
    None
}


/// The message of a result that does not have the shape its label names.
pub open spec fn shape_error(label: Seq<char>) -> Seq<char> {
    labelled(label, "返回格式无效"@)
}

/// The records a list result may hold.
#[derive(Debug, Clone, Copy, PartialEq, Eq, Structural)]
pub enum ItemKind {
    MyAnime,
    Download,
    Source,
    Media,
    Notification,
}

/// What a record becomes: a followed anime loses its download directory; a download
/// loses its hash and tag and shows the path placeholder; a source shows the secret
/// placeholder for a set key and no key otherwise; a media record shows the path
/// placeholder; a notification has its title and body redacted.
pub open spec fn sanitize_item_spec(kind: ItemKind, v: JsonView) -> Result<JsonView, Seq<char>> {
    match v {
        JsonView::Object(es) => Ok(JsonView::Object(match kind {
            ItemKind::MyAnime => drop_key(es, "downloadDir"@),
            ItemKind::Download => set_text(drop_key(drop_key(es, "torrentHash"@), "correlationTag"@), "savePath"@, HIDDEN_LOCAL_PATH@),
            ItemKind::Source => if member_of(es, "apiKey"@) matches Some(JsonView::Text(t)) && t.len() > 0 {
                set_text(es, "apiKey"@, REMOTE_SECRET_PLACEHOLDER@)
            } else {
                drop_key(es, "apiKey"@)
            },
            ItemKind::Media => set_text(es, "filePath"@, HIDDEN_LOCAL_PATH@),
            ItemKind::Notification => redact_key(redact_key(es, "title"@), "body"@),
        })),
        _ => Err(match kind {
            ItemKind::MyAnime => shape_error("追番记录"@),
            ItemKind::Download => shape_error("下载记录"@),
            ItemKind::Source => shape_error("下载源"@),
            ItemKind::Media => shape_error("媒体记录"@),
            ItemKind::Notification => "通知记录格式无效"@,
        }),
    }
}

/// Whether an error carries `message` as a failed handler result.
pub open spec fn handler_error(e: RemoteRpcError, message: Seq<char>) -> bool {
    e.status == 500 && e.code@ == "HANDLER_FAILED"@ && e.message@ == message
}

/// Whether a sanitizing step gave what its specification says.
pub open spec fn sanitized_as(r: Result<JsonValue, RemoteRpcError>, expected: Result<JsonView, Seq<char>>) -> bool {
    match r {
        Ok(x) => expected == Ok::<JsonView, Seq<char>>(json_view(x)),
        Err(e) => expected matches Err(m) && handler_error(e, m),
    }
}

fn shape_failure(label: &str) -> (r: RemoteRpcError)
    ensures
        handler_error(r, shape_error(label@)),
{
    invalid_result(label_message(label, "返回格式无效"))
}

fn source_key_is_set(members: &Vec<(String, JsonValue)>) -> (r: bool)
    ensures
        r == (member_of(members_view(members@), "apiKey"@) matches Some(JsonView::Text(t)) && t.len() > 0),
{
    proof {
        lemma_members_view(members@);
    }
    match find_member(members, "apiKey") {
        Some(i) => match &members[i].1 {
            JsonValue::String(t) => !t.as_str().is_empty(),
            _ => false,
        },
        None => false,
    }
}

/// Hides what a remote device may not see of one record.
pub fn sanitize_item(kind: ItemKind, value: JsonValue) -> (r: Result<JsonValue, RemoteRpcError>)
    ensures
        sanitized_as(r, sanitize_item_spec(kind, json_view(value))),
{
    let members = match value {
        JsonValue::Object(m) => m,
        _ => {
            return Err(match kind {
                ItemKind::MyAnime => shape_failure("追番记录"),
                ItemKind::Download => shape_failure("下载记录"),
                ItemKind::Source => shape_failure("下载源"),
                ItemKind::Media => shape_failure("媒体记录"),
                ItemKind::Notification => invalid_result(String::from_str("通知记录格式无效")),
            });
        },
    };
    let out = match kind {
        ItemKind::MyAnime => drop_member(members, "downloadDir"),
        ItemKind::Download => put_text(drop_member(drop_member(members, "torrentHash"), "correlationTag"), "savePath", HIDDEN_LOCAL_PATH),
        ItemKind::Source => if source_key_is_set(&members) {
            put_text(members, "apiKey", REMOTE_SECRET_PLACEHOLDER)
        } else {
            drop_member(members, "apiKey")
        },
        ItemKind::Media => put_text(members, "filePath", HIDDEN_LOCAL_PATH),
        ItemKind::Notification => redact_member(redact_member(members, "title"), "body"),
    };
    Ok(JsonValue::Object(out))
}

/// Each record sanitized, or the problem of the first that fails.
pub open spec fn sanitize_items_spec(kind: ItemKind, items: Seq<JsonView>) -> Result<Seq<JsonView>, Seq<char>>
    decreases items.len(),
{
    if items.len() == 0 {
        Ok(Seq::empty())
    } else {
        match sanitize_item_spec(kind, items[0]) {
            Err(m) => Err(m),
            Ok(x) => match sanitize_items_spec(kind, items.subrange(1, items.len() as int)) {
                Err(m) => Err(m),
                Ok(rest) => Ok(seq![x] + rest),
            },
        }
    }
}

/// A list result with each record sanitized; a result that is not a list fails with
/// `label`.
pub open spec fn sanitize_array_spec(kind: ItemKind, v: JsonView, label: Seq<char>) -> Result<JsonView, Seq<char>> {
    match v {
        JsonView::Array(items) => match sanitize_items_spec(kind, items) {
            Ok(r) => Ok(JsonView::Array(r)),
            Err(m) => Err(m),
        },
        _ => Err(shape_error(label)),
    }
}

/// `done` before the outcome for the remaining records.
pub open spec fn after_done(done: Seq<JsonView>, rest: Result<Seq<JsonView>, Seq<char>>) -> Result<Seq<JsonView>, Seq<char>> {
    match rest {
        Ok(r) => Ok(done + r),
        Err(m) => Err(m),
    }
}

proof fn lemma_items_push(s: Seq<JsonValue>, x: JsonValue)
    ensures
        items_view(s.push(x)) == items_view(s).push(json_view(x)),
{
    assert(s.push(x).drop_last() =~= s);
}

/// Sanitizes each record of a list result.
pub fn sanitize_array(kind: ItemKind, value: JsonValue, label: &str) -> (r: Result<JsonValue, RemoteRpcError>)
    ensures
        sanitized_as(r, sanitize_array_spec(kind, json_view(value), label@)),
{
    let items = match value {
        JsonValue::Array(items) => items,
        _ => {
            return Err(shape_failure(label));
        },
    };
    let ghost orig = items@;
    let ghost whole = items_view(orig);
    assert(json_view(value) == JsonView::Array(whole));
    proof {
        lemma_items_view(orig);
        assert(whole.subrange(0, whole.len() as int) =~= whole);
        assert(items_view(Seq::<JsonValue>::empty()) =~= Seq::<JsonView>::empty());
        assert(Seq::<JsonView>::empty() + whole =~= whole);
    }
    let n = items.len();
    let mut rest = items;
    let mut out: Vec<JsonValue> = Vec::new();
    let mut i: usize = 0;
    while i < n
        invariant
            n == orig.len(),
            i <= n,
            json_view(value) == JsonView::Array(whole),
            whole == items_view(orig),
            whole.len() == orig.len(),
            forall|k: int| 0 <= k < orig.len() ==> #[trigger] whole[k] == json_view(orig[k]),
            rest@ == orig.subrange(i as int, n as int),
            sanitize_items_spec(kind, whole) == after_done(items_view(out@), sanitize_items_spec(kind, whole.subrange(i as int, n as int))),
        decreases n - i,
    {
        let x = rest.remove(0);
        let ghost tail = whole.subrange(i as int, n as int);
        proof {
            assert(x == orig[i as int]);
            assert(tail[0] == json_view(x));
            assert(tail.subrange(1, tail.len() as int) =~= whole.subrange(i + 1, n as int));
        }
        match sanitize_item(kind, x) {
            Ok(y) => {
                proof {
                    lemma_items_push(out@, y);
                    let done = items_view(out@);
                    match sanitize_items_spec(kind, whole.subrange(i + 1, n as int)) {
                        Ok(r) => {
                            assert(done + (seq![json_view(y)] + r) =~= done.push(json_view(y)) + r);
                        },
                        Err(_) => {},
                    }
                }
                out.push(y);
            },
            Err(e) => {
                proof {
                    assert(sanitize_item_spec(kind, tail[0]) is Err);
                    assert(sanitize_items_spec(kind, tail) is Err);
                }
                return Err(e);
            },
        }
        i = i + 1;
        assert(rest@ =~= orig.subrange(i as int, n as int));
    }
    proof {
        assert(whole.subrange(n as int, n as int) =~= Seq::<JsonView>::empty());
        assert(items_view(out@) + Seq::<JsonView>::empty() =~= items_view(out@));
    }
    Ok(JsonValue::Array(out))
}


proof fn lemma_replace(s: Seq<(String, JsonValue)>, i: int, k: String, x: JsonValue)
    requires
        0 <= i < s.len(),
        k == s[i].0,
    ensures
        members_view(s.remove(i).insert(i, (k, x))) == members_view(s).update(i, (k@, json_view(x))),
{
    let t = s.remove(i).insert(i, (k, x));
    assert(t =~= s.update(i, (k, x)));
    lemma_members_view(s);
    lemma_members_view(t);
    assert(members_view(t) =~= members_view(s).update(i, (k@, json_view(x))));
}

proof fn lemma_found(s: Seq<(String, JsonValue)>, key: Seq<char>, i: int)
    requires
        first_index(members_view(s), key) == Some(i),
    ensures
        0 <= i < s.len(),
        s[i].0@ == key,
        member_of(members_view(s), key) == Some(json_view(s[i].1)),
{
    lemma_members_view(s);
    let es = members_view(s);
    assert(exists|j: int| is_first_index(es, key, j));
    assert(is_first_index(es, key, i));
}

/// An error entry with its source and message redacted.
pub open spec fn error_item(x: JsonView) -> JsonView {
    match x {
        JsonView::Object(o) => JsonView::Object(redact_key(redact_key(o, "source"@), "message"@)),
        _ => x,
    }
}

/// A text redacted; another value unchanged.
pub open spec fn redact_value(x: JsonView) -> JsonView {
    match x {
        JsonView::Text(t) => JsonView::Text(redact_text(t)),
        _ => x,
    }
}

/// The entries with the error list `key`, if it is a list, redacted entry by entry.
pub open spec fn redact_error_list(es: Seq<(Seq<char>, JsonView)>, key: Seq<char>) -> Seq<(Seq<char>, JsonView)> {
    match member_of(es, key) {
        Some(JsonView::Array(items)) => replace_first(es, key, JsonView::Array(items.map_values(|x: JsonView| error_item(x)))),
        _ => es,
    }
}

/// The entries with the text list `key`, if it is a list, redacted text by text.
pub open spec fn redact_text_list(es: Seq<(Seq<char>, JsonView)>, key: Seq<char>) -> Seq<(Seq<char>, JsonView)> {
    match member_of(es, key) {
        Some(JsonView::Array(items)) => replace_first(es, key, JsonView::Array(items.map_values(|x: JsonView| redact_value(x)))),
        _ => es,
    }
}

fn redact_error_item(x: JsonValue) -> (r: JsonValue)
    ensures
        json_view(r) == error_item(json_view(x)),
{
    match x {
        JsonValue::Object(o) => JsonValue::Object(redact_member(redact_member(o, "source"), "message")),
        other => other,
    }
}

fn redact_value_exec(x: JsonValue) -> (r: JsonValue)
    ensures
        json_view(r) == redact_value(json_view(x)),
{
    match x {
        JsonValue::String(t) => JsonValue::String(redact_free_text(t.as_str())),
        other => other,
    }
}

/// Applies `error_item` (or, with `texts`, `redact_value`) to each item.
fn map_items(items: Vec<JsonValue>, texts: bool) -> (r: Vec<JsonValue>)
    ensures
        texts ==> items_view(r@) == items_view(items@).map_values(|x: JsonView| redact_value(x)),
        !texts ==> items_view(r@) == items_view(items@).map_values(|x: JsonView| error_item(x)),
{
    let ghost orig = items@;
    proof {
        lemma_items_view(orig);
    }
    let n = items.len();
    let mut rest = items;
    let mut out: Vec<JsonValue> = Vec::new();
    let mut i: usize = 0;
    while i < n
        invariant
            n == orig.len(),
            i <= n,
            items_view(orig).len() == orig.len(),
            forall|k: int| 0 <= k < orig.len() ==> #[trigger] items_view(orig)[k] == json_view(orig[k]),
            rest@ == orig.subrange(i as int, n as int),
            out@.len() == i,
            forall|k: int| 0 <= k < i ==> texts ==> #[trigger] json_view(out@[k]) == redact_value(json_view(orig[k])),
            forall|k: int| 0 <= k < i ==> !texts ==> #[trigger] json_view(out@[k]) == error_item(json_view(orig[k])),
        decreases n - i,
    {
        let x = rest.remove(0);
        assert(x == orig[i as int]);
        let y = if texts {
            redact_value_exec(x)
        } else {
            redact_error_item(x)
        };
        out.push(y);
        i = i + 1;
        assert(rest@ =~= orig.subrange(i as int, n as int));
    }
    proof {
        lemma_items_view(out@);
        if texts {
            assert(items_view(out@) =~= items_view(orig).map_values(|x: JsonView| redact_value(x)));
        } else {
            assert(items_view(out@) =~= items_view(orig).map_values(|x: JsonView| error_item(x)));
        }
    }
    out
}

/// Redacts the entries of the list member `key` (error entries, or with `texts` plain texts).
fn redact_list_member(members: Vec<(String, JsonValue)>, key: &str, texts: bool) -> (r: Vec<(String, JsonValue)>)
    ensures
        texts ==> members_view(r@) == redact_text_list(members_view(members@), key@),
        !texts ==> members_view(r@) == redact_error_list(members_view(members@), key@),
{
    let mut m = members;
    let ghost before = m@;
    match find_member(&m, key) {
        Some(i) => {
            proof {
                lemma_found(before, key@, i as int);
            }
            let (k, v) = m.remove(i);
            let nv = match v {
                JsonValue::Array(items) => JsonValue::Array(map_items(items, texts)),
                other => other,
            };
            proof {
                lemma_replace(before, i as int, k, nv);
                lemma_members_view(before);
                assert(members_view(before).update(i as int, members_view(before)[i as int]) =~= members_view(before));
            }
            m.insert(i, (k, nv));
            m
        },
        None => m,
    }
}


/// How a method's result is sanitized.
#[derive(Debug, Clone, Copy, PartialEq, Eq, Structural)]
pub enum ResultKind {
    MyAnimeList,
    DownloadList,
    SourceList,
    Settings,
    QbittorrentStatus,
    EmbeddedStatus,
    Dashboard,
    Notifications,
    UnreadCount,
    AnimeDetail,
    CatalogSearch,
    BangumiBrowse,
    ReleaseSearch,
    SourceOperation,
    PlaybackReport,
    Unchanged,
}

/// The sanitizing of each method that has one.
pub open spec fn result_kind_table() -> Seq<(Seq<char>, ResultKind)> {
    seq![
        ("listMyAnime"@, ResultKind::MyAnimeList),
        ("upsertMyAnime"@, ResultKind::MyAnimeList),
        ("followBangumiAnime"@, ResultKind::MyAnimeList),
        ("removeMyAnime"@, ResultKind::MyAnimeList),
        ("listDownloads"@, ResultKind::DownloadList),
        ("refreshDownloads"@, ResultKind::DownloadList),
        ("pauseDownload"@, ResultKind::DownloadList),
        ("resumeDownload"@, ResultKind::DownloadList),
        ("removeDownload"@, ResultKind::DownloadList),
        ("setDownloadFilePriority"@, ResultKind::DownloadList),
        ("addDownloadUrl"@, ResultKind::DownloadList),
        ("addReleaseDownload"@, ResultKind::DownloadList),
        ("listSources"@, ResultKind::SourceList),
        ("setSourceEnabled"@, ResultKind::SourceList),
        ("upsertSource"@, ResultKind::SourceList),
        ("getSettings"@, ResultKind::Settings),
        ("updateSettings"@, ResultKind::Settings),
        ("getQbittorrentManagedStatus"@, ResultKind::QbittorrentStatus),
        ("startQbittorrentManaged"@, ResultKind::QbittorrentStatus),
        ("stopQbittorrentManaged"@, ResultKind::QbittorrentStatus),
        ("getEmbeddedTorrentStatus"@, ResultKind::EmbeddedStatus),
        ("startEmbeddedTorrent"@, ResultKind::EmbeddedStatus),
        ("stopEmbeddedTorrent"@, ResultKind::EmbeddedStatus),
        ("restartEmbeddedTorrent"@, ResultKind::EmbeddedStatus),
        ("getDashboard"@, ResultKind::Dashboard),
        ("listNotifications"@, ResultKind::Notifications),
        ("markNotificationRead"@, ResultKind::Notifications),
        ("markAllNotificationsRead"@, ResultKind::Notifications),
        ("getUnreadNotificationCount"@, ResultKind::UnreadCount),
        ("getAnimeDetail"@, ResultKind::AnimeDetail),
        ("searchAnimeCatalog"@, ResultKind::CatalogSearch),
        ("browseBangumiAnime"@, ResultKind::BangumiBrowse),
        ("searchReleases"@, ResultKind::ReleaseSearch),
        ("searchAnimeReleases"@, ResultKind::ReleaseSearch),
        ("searchRssSubscriptionReleases"@, ResultKind::ReleaseSearch),
        ("previewEpisodeReleases"@, ResultKind::SourceOperation),
        ("getAnimeSourceBindingState"@, ResultKind::SourceOperation),
        ("reportPlaybackProgress"@, ResultKind::PlaybackReport)
    ]
}

/// The kind of the first entry named `name`, `Unchanged` if none.
pub open spec fn kind_in(table: Seq<(Seq<char>, ResultKind)>, name: Seq<char>) -> ResultKind
    decreases table.len(),
{
    if table.len() == 0 {
        ResultKind::Unchanged
    } else if table[0].0 == name {
        table[0].1
    } else {
        kind_in(table.subrange(1, table.len() as int), name)
    }
}

/// How the result of a method is sanitized.
pub open spec fn result_kind(name: Seq<char>) -> ResultKind {
    kind_in(result_kind_table(), name)
}

/// The view of a kind entry.
pub open spec fn kind_entry_view(e: (&str, ResultKind)) -> (Seq<char>, ResultKind) {
    (e.0@, e.1)
}

fn kind_table() -> (r: Vec<(&'static str, ResultKind)>)
    ensures
        r@.map_values(|e: (&str, ResultKind)| kind_entry_view(e)) == result_kind_table(),
{
    let mut t: Vec<(&'static str, ResultKind)> = Vec::new();
    t.push(("listMyAnime", ResultKind::MyAnimeList));
    t.push(("upsertMyAnime", ResultKind::MyAnimeList));
    t.push(("followBangumiAnime", ResultKind::MyAnimeList));
    t.push(("removeMyAnime", ResultKind::MyAnimeList));
    t.push(("listDownloads", ResultKind::DownloadList));
    t.push(("refreshDownloads", ResultKind::DownloadList));
    t.push(("pauseDownload", ResultKind::DownloadList));
    t.push(("resumeDownload", ResultKind::DownloadList));
    t.push(("removeDownload", ResultKind::DownloadList));
    t.push(("setDownloadFilePriority", ResultKind::DownloadList));
    t.push(("addDownloadUrl", ResultKind::DownloadList));
    t.push(("addReleaseDownload", ResultKind::DownloadList));
    t.push(("listSources", ResultKind::SourceList));
    t.push(("setSourceEnabled", ResultKind::SourceList));
    t.push(("upsertSource", ResultKind::SourceList));
    t.push(("getSettings", ResultKind::Settings));
    t.push(("updateSettings", ResultKind::Settings));
    t.push(("getQbittorrentManagedStatus", ResultKind::QbittorrentStatus));
    t.push(("startQbittorrentManaged", ResultKind::QbittorrentStatus));
    t.push(("stopQbittorrentManaged", ResultKind::QbittorrentStatus));
    t.push(("getEmbeddedTorrentStatus", ResultKind::EmbeddedStatus));
    t.push(("startEmbeddedTorrent", ResultKind::EmbeddedStatus));
    t.push(("stopEmbeddedTorrent", ResultKind::EmbeddedStatus));
    t.push(("restartEmbeddedTorrent", ResultKind::EmbeddedStatus));
    t.push(("getDashboard", ResultKind::Dashboard));
    t.push(("listNotifications", ResultKind::Notifications));
    t.push(("markNotificationRead", ResultKind::Notifications));
    t.push(("markAllNotificationsRead", ResultKind::Notifications));
    t.push(("getUnreadNotificationCount", ResultKind::UnreadCount));
    t.push(("getAnimeDetail", ResultKind::AnimeDetail));
    t.push(("searchAnimeCatalog", ResultKind::CatalogSearch));
    t.push(("browseBangumiAnime", ResultKind::BangumiBrowse));
    t.push(("searchReleases", ResultKind::ReleaseSearch));
    t.push(("searchAnimeReleases", ResultKind::ReleaseSearch));
    t.push(("searchRssSubscriptionReleases", ResultKind::ReleaseSearch));
    t.push(("previewEpisodeReleases", ResultKind::SourceOperation));
    t.push(("getAnimeSourceBindingState", ResultKind::SourceOperation));
    t.push(("reportPlaybackProgress", ResultKind::PlaybackReport));
    assert(t@.map_values(|e: (&str, ResultKind)| kind_entry_view(e)) =~= result_kind_table());
    t
}

/// Finds how the result of a method is sanitized.
pub fn find_result_kind(name: &str) -> (r: ResultKind)
    ensures
        r == result_kind(name@),
{
    let table = kind_table();
    let ghost views = table@.map_values(|e: (&str, ResultKind)| kind_entry_view(e));
    let n = chars_of(name);
    let mut i: usize = 0;
    assert(views.subrange(0, views.len() as int) =~= views);
    while i < table.len()
        invariant
            i <= table@.len(),
            views == table@.map_values(|e: (&str, ResultKind)| kind_entry_view(e)),
            views == result_kind_table(),
            n@ == name@,
            kind_in(views.subrange(i as int, views.len() as int), name@) == kind_in(views, name@),
        decreases table@.len() - i,
    {
        let ghost rest = views.subrange(i as int, views.len() as int);
        assert(rest[0] == views[i as int]);
        let e = table[i];
        if chars_eq(chars_of(e.0).as_slice(), n.as_slice()) {
            return e.1;
        }
        assert(rest.subrange(1, rest.len() as int) =~= views.subrange(i + 1, views.len() as int));
        i = i + 1;
    }
    ResultKind::Unchanged
}


/// The members of the settings a remote device sees.
pub open spec fn settings_result_keys() -> Seq<&'static str> {
    seq!["download", "automation", "sourceSync", "network"]
}

/// The members of the network settings a remote device sees.
pub open spec fn network_result_keys() -> Seq<&'static str> {
    seq!["metadataProxy"]
}

/// The qBittorrent settings as a remote device sees them: a set password shows the
/// secret placeholder, and the managed instance loses its program and profile paths.
pub open spec fn qbittorrent_settings_spec(q: JsonView) -> Result<JsonView, Seq<char>> {
    match q {
        JsonView::Object(qs) => {
            let qs1 = if member_of(qs, "password"@) matches Some(JsonView::Text(p)) && p.len() > 0 {
                set_text(qs, "password"@, REMOTE_SECRET_PLACEHOLDER@)
            } else {
                qs
            };
            match member_of(qs1, "managed"@) {
                Some(JsonView::Object(ms)) => Ok(JsonView::Object(replace_first(qs1, "managed"@, JsonView::Object(drop_key(drop_key(ms, "binaryPath"@), "profileDir"@))))),
                Some(_) => Err(shape_error("托管 qBittorrent 设置"@)),
                None => Ok(JsonView::Object(qs1)),
            }
        },
        _ => Err(shape_error("qBittorrent 设置"@)),
    }
}

/// The download settings as a remote device sees them.
pub open spec fn download_settings_spec(d: JsonView) -> Result<JsonView, Seq<char>> {
    match d {
        JsonView::Object(ds) => match member_of(ds, "qbittorrent"@) {
            Some(q) => match qbittorrent_settings_spec(q) {
                Ok(nq) => Ok(JsonView::Object(replace_first(ds, "qbittorrent"@, nq))),
                Err(m) => Err(m),
            },
            None => Ok(d),
        },
        _ => Err(shape_error("下载设置"@)),
    }
}

/// The application settings as a remote device sees them: only the download,
/// automation, source sync and network parts, the network part only with its metadata
/// proxy.
pub open spec fn settings_spec(v: JsonView) -> Result<JsonView, Seq<char>> {
    match v {
        JsonView::Object(es) => {
            let es1 = keep_keys(es, settings_result_keys());
            let r2 = match member_of(es1, "download"@) {
                Some(d) => match download_settings_spec(d) {
                    Ok(nd) => Ok(replace_first(es1, "download"@, nd)),
                    Err(m) => Err(m),
                },
                None => Ok(es1),
            };
            match r2 {
                Err(m) => Err(m),
                Ok(es2) => match member_of(es2, "network"@) {
                    Some(JsonView::Object(ns)) => Ok(JsonView::Object(replace_first(es2, "network"@, JsonView::Object(keep_keys(ns, network_result_keys()))))),
                    Some(_) => Err(shape_error("网络设置"@)),
                    None => Ok(JsonView::Object(es2)),
                },
            }
        },
        _ => Err(shape_error("应用设置"@)),
    }
}

fn sanitize_qbittorrent_settings(q: JsonValue) -> (r: Result<JsonValue, RemoteRpcError>)
    ensures
        sanitized_as(r, qbittorrent_settings_spec(json_view(q))),
{
    let members = match q {
        JsonValue::Object(m) => m,
        _ => {
            return Err(shape_failure("qBittorrent 设置"));
        },
    };
    let set = match find_member(&members, "password") {
        Some(i) => {
            proof {
                lemma_found(members@, "password"@, i as int);
            }
            match &members[i].1 {
                JsonValue::String(p) => !p.as_str().is_empty(),
                _ => false,
            }
        },
        None => false,
    };
    let mut m = if set {
        put_text(members, "password", REMOTE_SECRET_PLACEHOLDER)
    } else {
        members
    };
    let ghost before = m@;
    match find_member(&m, "managed") {
        Some(i) => {
            proof {
                lemma_found(before, "managed"@, i as int);
            }
            let (k, v) = m.remove(i);
            let nv = match v {
                JsonValue::Object(ms) => JsonValue::Object(drop_member(drop_member(ms, "binaryPath"), "profileDir")),
                _ => {
                    return Err(shape_failure("托管 qBittorrent 设置"));
                },
            };
            proof {
                lemma_replace(before, i as int, k, nv);
            }
            m.insert(i, (k, nv));
        },
        None => {},
    }
    Ok(JsonValue::Object(m))
}

fn sanitize_download_settings(d: JsonValue) -> (r: Result<JsonValue, RemoteRpcError>)
    ensures
        sanitized_as(r, download_settings_spec(json_view(d))),
{
    let mut m = match d {
        JsonValue::Object(m) => m,
        _ => {
            return Err(shape_failure("下载设置"));
        },
    };
    let ghost before = m@;
    match find_member(&m, "qbittorrent") {
        Some(i) => {
            proof {
                lemma_found(before, "qbittorrent"@, i as int);
            }
            let (k, v) = m.remove(i);
            let nv = match sanitize_qbittorrent_settings(v) {
                Ok(x) => x,
                Err(e) => {
                    return Err(e);
                },
            };
            proof {
                lemma_replace(before, i as int, k, nv);
            }
            m.insert(i, (k, nv));
        },
        None => {},
    }
    Ok(JsonValue::Object(m))
}

/// Hides what a remote device may not see of the application settings.
pub fn sanitize_settings(value: JsonValue) -> (r: Result<JsonValue, RemoteRpcError>)
    ensures
        sanitized_as(r, settings_spec(json_view(value))),
{
    let members = match value {
        JsonValue::Object(m) => m,
        _ => {
            return Err(shape_failure("应用设置"));
        },
    };
    let keys = ["download", "automation", "sourceSync", "network"];
    assert(keys@ == settings_result_keys());
    let mut m = keep_members(members, &keys);
    let ghost before = m@;
    match find_member(&m, "download") {
        Some(i) => {
            proof {
                lemma_found(before, "download"@, i as int);
            }
            let (k, v) = m.remove(i);
            let nv = match sanitize_download_settings(v) {
                Ok(x) => x,
                Err(e) => {
                    return Err(e);
                },
            };
            proof {
                lemma_replace(before, i as int, k, nv);
            }
            m.insert(i, (k, nv));
        },
        None => {},
    }
    let ghost middle = m@;
    match find_member(&m, "network") {
        Some(i) => {
            proof {
                lemma_found(middle, "network"@, i as int);
            }
            let (k, v) = m.remove(i);
            let nv = match v {
                JsonValue::Object(ns) => {
                    let nkeys = ["metadataProxy"];
                    assert(nkeys@ == network_result_keys());
                    JsonValue::Object(keep_members(ns, &nkeys))
                },
                _ => {
                    return Err(shape_failure("网络设置"));
                },
            };
            proof {
                lemma_replace(middle, i as int, k, nv);
            }
            m.insert(i, (k, nv));
        },
        None => {},
    }
    Ok(JsonValue::Object(m))
}


/// The home dashboard as a remote device sees it: its active downloads and recently
/// completed media sanitized as records.
pub open spec fn dashboard_spec(v: JsonView) -> Result<JsonView, Seq<char>> {
    match v {
        JsonView::Object(es) => {
            let r1 = match member_of(es, "activeDownloads"@) {
                Some(d) => match sanitize_array_spec(ItemKind::Download, d, "远程列表"@) {
                    Ok(nd) => Ok(replace_first(es, "activeDownloads"@, nd)),
                    Err(m) => Err(m),
                },
                None => Ok(es),
            };
            match r1 {
                Err(m) => Err(m),
                Ok(es1) => match member_of(es1, "recentCompleted"@) {
                    Some(c) => match sanitize_array_spec(ItemKind::Media, c, "远程列表"@) {
                        Ok(nc) => Ok(JsonView::Object(replace_first(es1, "recentCompleted"@, nc))),
                        Err(m) => Err(m),
                    },
                    None => Ok(JsonView::Object(es1)),
                },
            }
        },
        _ => Err(shape_error("首页看板"@)),
    }
}

/// Sanitizes the list member `key` of an object's members as records of `kind`.
fn sanitize_list_member(members: Vec<(String, JsonValue)>, key: &str, kind: ItemKind) -> (r: Result<Vec<(String, JsonValue)>, RemoteRpcError>)
    ensures
        match r {
            Ok(m) => match member_of(members_view(members@), key@) {
                Some(d) => sanitize_array_spec(kind, d, "远程列表"@) matches Ok(nd) && members_view(m@) == replace_first(members_view(members@), key@, nd),
                None => members_view(m@) == members_view(members@),
            },
            Err(e) => member_of(members_view(members@), key@) matches Some(d) && sanitize_array_spec(kind, d, "远程列表"@) matches Err(msg) && handler_error(e, msg),
        },
{
    let mut m = members;
    let ghost before = m@;
    match find_member(&m, key) {
        Some(i) => {
            proof {
                lemma_found(before, key@, i as int);
            }
            let (k, v) = m.remove(i);
            let nv = match sanitize_array(kind, v, "远程列表") {
                Ok(x) => x,
                Err(e) => {
                    return Err(e);
                },
            };
            proof {
                lemma_replace(before, i as int, k, nv);
            }
            m.insert(i, (k, nv));
            Ok(m)
        },
        None => Ok(m),
    }
}

/// Hides what a remote device may not see of the home dashboard.
pub fn sanitize_dashboard(value: JsonValue) -> (r: Result<JsonValue, RemoteRpcError>)
    ensures
        sanitized_as(r, dashboard_spec(json_view(value))),
{
    let members = match value {
        JsonValue::Object(m) => m,
        _ => {
            return Err(shape_failure("首页看板"));
        },
    };
    let m1 = match sanitize_list_member(members, "activeDownloads", ItemKind::Download) {
        Ok(m) => m,
        Err(e) => {
            return Err(e);
        },
    };
    match sanitize_list_member(m1, "recentCompleted", ItemKind::Media) {
        Ok(m) => Ok(JsonValue::Object(m)),
        Err(e) => Err(e),
    }
}

/// An anime's detail as a remote device sees it: its followed record sanitized and its
/// partial errors redacted.
pub open spec fn anime_detail_spec(v: JsonView) -> Result<JsonView, Seq<char>> {
    match v {
        JsonView::Object(es) => {
            let r1 = match member_of(es, "myAnime"@) {
                Some(a) => match sanitize_item_spec(ItemKind::MyAnime, a) {
                    Ok(na) => Ok(replace_first(es, "myAnime"@, na)),
                    Err(m) => Err(m),
                },
                None => Ok(es),
            };
            match r1 {
                Err(m) => Err(m),
                Ok(es1) => Ok(JsonView::Object(redact_error_list(es1, "partialErrors"@))),
            }
        },
        _ => Err(shape_error("番剧详情"@)),
    }
}

/// Hides what a remote device may not see of an anime's detail.
pub fn sanitize_anime_detail(value: JsonValue) -> (r: Result<JsonValue, RemoteRpcError>)
    ensures
        sanitized_as(r, anime_detail_spec(json_view(value))),
{
    let mut m = match value {
        JsonValue::Object(m) => m,
        _ => {
            return Err(shape_failure("番剧详情"));
        },
    };
    let ghost before = m@;
    match find_member(&m, "myAnime") {
        Some(i) => {
            proof {
                lemma_found(before, "myAnime"@, i as int);
            }
            let (k, v) = m.remove(i);
            let nv = match sanitize_item(ItemKind::MyAnime, v) {
                Ok(x) => x,
                Err(e) => {
                    return Err(e);
                },
            };
            proof {
                lemma_replace(before, i as int, k, nv);
            }
            m.insert(i, (k, nv));
        },
        None => {},
    }
    Ok(JsonValue::Object(redact_list_member(m, "partialErrors", false)))
}

/// A Bangumi browse result as a remote device sees it: its source and the keyword of
/// its query redacted.
pub open spec fn browse_spec(es: Seq<(Seq<char>, JsonView)>) -> Seq<(Seq<char>, JsonView)> {
    let es1 = redact_key(es, "source"@);
    match member_of(es1, "query"@) {
        Some(JsonView::Object(q)) => replace_first(es1, "query"@, JsonView::Object(redact_key(q, "keyword"@))),
        _ => es1,
    }
}

fn sanitize_browse(members: Vec<(String, JsonValue)>) -> (r: Vec<(String, JsonValue)>)
    ensures
        members_view(r@) == browse_spec(members_view(members@)),
{
    let mut m = redact_member(members, "source");
    let ghost before = m@;
    match find_member(&m, "query") {
        Some(i) => {
            proof {
                lemma_found(before, "query"@, i as int);
                lemma_members_view(before);
            }
            let (k, v) = m.remove(i);
            let nv = match v {
                JsonValue::Object(q) => JsonValue::Object(redact_member(q, "keyword")),
                other => other,
            };
            proof {
                lemma_replace(before, i as int, k, nv);
                assert(members_view(before).update(i as int, members_view(before)[i as int]) =~= members_view(before));
            }
            m.insert(i, (k, nv));
        },
        None => {},
    }
    m
}

/// What a result becomes before it leaves the host, by how its method is sanitized.
pub open spec fn sanitize_spec(kind: ResultKind, v: JsonView) -> Result<JsonView, Seq<char>> {
    match kind {
        ResultKind::MyAnimeList => sanitize_array_spec(ItemKind::MyAnime, v, "远程列表"@),
        ResultKind::DownloadList => sanitize_array_spec(ItemKind::Download, v, "远程列表"@),
        ResultKind::SourceList => sanitize_array_spec(ItemKind::Source, v, "远程列表"@),
        ResultKind::Settings => settings_spec(v),
        ResultKind::QbittorrentStatus => match v {
            JsonView::Object(es) => Ok(JsonView::Object(redact_key(set_text(drop_key(drop_key(es, "binaryPath"@), "profileDir"@), "webUiUrl"@, ""@), "lastError"@))),
            _ => Err(shape_error("qBittorrent 状态"@)),
        },
        ResultKind::EmbeddedStatus => match v {
            JsonView::Object(es) => Ok(JsonView::Object(redact_key(drop_key(drop_key(es, "binaryPath"@), "dataDir"@), "lastError"@))),
            _ => Err(shape_error("内置下载核心状态"@)),
        },
        ResultKind::Dashboard => dashboard_spec(v),
        ResultKind::Notifications => sanitize_array_spec(ItemKind::Notification, v, "通知列表"@),
        ResultKind::UnreadCount => match v {
            JsonView::Number(JsonNumber::PosInt(_)) => Ok(v),
            _ => Err("未读数量返回格式无效"@),
        },
        ResultKind::AnimeDetail => anime_detail_spec(v),
        ResultKind::CatalogSearch => match v {
            JsonView::Object(es) => Ok(JsonView::Object(redact_text_list(redact_key(redact_key(es, "keyword"@), "source"@), "errors"@))),
            _ => Err(shape_error("新番搜索结果"@)),
        },
        ResultKind::BangumiBrowse => match v {
            JsonView::Object(es) => Ok(JsonView::Object(browse_spec(es))),
            _ => Err(shape_error("Bangumi 浏览结果"@)),
        },
        ResultKind::ReleaseSearch => match v {
            JsonView::Object(es) => Ok(JsonView::Object(redact_error_list(es, "errors"@))),
            _ => Err(shape_error("资源搜索结果"@)),
        },
        ResultKind::SourceOperation => match v {
            JsonView::Object(es) => Ok(JsonView::Object(redact_error_list(es, "errors"@))),
            _ => Err(shape_error("来源操作结果"@)),
        },
        ResultKind::PlaybackReport => if v is Bool {
            Ok(v)
        } else {
            Err("远程处理结果格式无效"@)
        },
        ResultKind::Unchanged => Ok(v),
    }
}

#[verifier::rlimit(40)]
fn sanitize_kind(kind: ResultKind, value: JsonValue) -> (r: Result<JsonValue, RemoteRpcError>)
    ensures
        sanitized_as(r, sanitize_spec(kind, json_view(value))),
{
    match kind {
        ResultKind::MyAnimeList => sanitize_array(ItemKind::MyAnime, value, "远程列表"),
        ResultKind::DownloadList => sanitize_array(ItemKind::Download, value, "远程列表"),
        ResultKind::SourceList => sanitize_array(ItemKind::Source, value, "远程列表"),
        ResultKind::Settings => sanitize_settings(value),
        ResultKind::QbittorrentStatus => match value {
            JsonValue::Object(m) => Ok(JsonValue::Object(redact_member(put_text(drop_member(drop_member(m, "binaryPath"), "profileDir"), "webUiUrl", ""), "lastError"))),
            _ => Err(shape_failure("qBittorrent 状态")),
        },
        ResultKind::EmbeddedStatus => match value {
            JsonValue::Object(m) => Ok(JsonValue::Object(redact_member(drop_member(drop_member(m, "binaryPath"), "dataDir"), "lastError"))),
            _ => Err(shape_failure("内置下载核心状态")),
        },
        ResultKind::Dashboard => sanitize_dashboard(value),
        ResultKind::Notifications => sanitize_array(ItemKind::Notification, value, "通知列表"),
        ResultKind::UnreadCount => match value {
            JsonValue::Number(JsonNumber::PosInt(_)) => Ok(value),
            _ => Err(invalid_result(String::from_str("未读数量返回格式无效"))),
        },
        ResultKind::AnimeDetail => sanitize_anime_detail(value),
        ResultKind::CatalogSearch => match value {
            JsonValue::Object(m) => Ok(JsonValue::Object(redact_list_member(redact_member(redact_member(m, "keyword"), "source"), "errors", true))),
            _ => Err(shape_failure("新番搜索结果")),
        },
        ResultKind::BangumiBrowse => match value {
            JsonValue::Object(m) => Ok(JsonValue::Object(sanitize_browse(m))),
            _ => Err(shape_failure("Bangumi 浏览结果")),
        },
        ResultKind::ReleaseSearch => match value {
            JsonValue::Object(m) => Ok(JsonValue::Object(redact_list_member(m, "errors", false))),
            _ => Err(shape_failure("资源搜索结果")),
        },
        ResultKind::SourceOperation => match value {
            JsonValue::Object(m) => Ok(JsonValue::Object(redact_list_member(m, "errors", false))),
            _ => Err(shape_failure("来源操作结果")),
        },
        ResultKind::PlaybackReport => match value {
            JsonValue::Bool(_) => Ok(value),
            _ => Err(invalid_result(String::from_str("远程处理结果格式无效"))),
        },
        ResultKind::Unchanged => Ok(value),
    }
}

/// Hides, in the result of `method`, what a remote device may not see: local paths,
/// links in free texts and set secrets; a result of the wrong shape is a handler
/// failure.
pub fn sanitize_result(method: &str, value: JsonValue) -> (r: Result<JsonValue, RemoteRpcError>)
    ensures
        sanitized_as(r, sanitize_spec(result_kind(method@), json_view(value))),
{
    let kind = find_result_kind(method);
    sanitize_kind(kind, value)
}


/// The answer to a checked call once its handler has answered: a handler failure
/// becomes a generic failure, whose details stay on the host; a result is sanitized.
pub fn finish_call(method: &str, outcome: Result<JsonValue, String>) -> (r: Result<JsonValue, RemoteRpcError>)
    ensures
        match outcome {
            Ok(v) => sanitized_as(r, sanitize_spec(result_kind(method@), json_view(v))),
            Err(_) => r matches Err(e) && handler_error(e, "远程操作执行失败"@),
        },
{
    match outcome {
        Ok(v) => sanitize_result(method, v),
        Err(_) => Err(invalid_result(String::from_str("远程操作执行失败"))),
    }
}


/// No entry that `drop_key` keeps is named `key`, and each kept entry is one of the
/// original entries.
pub proof fn lemma_drop_key(es: Seq<(Seq<char>, JsonView)>, key: Seq<char>)
    ensures
        forall|i: int| 0 <= i < drop_key(es, key).len() ==> (#[trigger] drop_key(es, key)[i]).0 != key,
        forall|i: int| 0 <= i < drop_key(es, key).len() ==> exists|j: int| 0 <= j < es.len() && es[j] == #[trigger] drop_key(es, key)[i],
    decreases es.len(),
{
    if es.len() > 0 {
        lemma_drop_key(es.drop_last(), key);
        let r = drop_key(es.drop_last(), key);
        assert forall|i: int| 0 <= i < drop_key(es, key).len() implies exists|j: int| 0 <= j < es.len() && es[j] == #[trigger] drop_key(es, key)[i] by {
            if i < r.len() {
                let j = choose|j: int| 0 <= j < es.drop_last().len() && es.drop_last()[j] == r[i];
                assert(es[j] == drop_key(es, key)[i]);
            } else {
                assert(es[es.len() - 1] == drop_key(es, key)[i]);
            }
        }
    }
}

proof fn lemma_absent_member(es: Seq<(Seq<char>, JsonView)>, key: Seq<char>)
    requires
        forall|i: int| 0 <= i < es.len() ==> (#[trigger] es[i]).0 != key,
    ensures
        member_of(es, key) is None,
{
    assert(!exists|i: int| is_first_index(es, key, i));
}

proof fn lemma_last_member(es: Seq<(Seq<char>, JsonView)>, key: Seq<char>, v: JsonView)
    requires
        forall|i: int| 0 <= i < es.len() ==> (#[trigger] es[i]).0 != key,
    ensures
        member_of(es.push((key, v)), key) == Some(v),
{
    let t = es.push((key, v));
    assert(is_first_index(t, key, es.len() as int));
    assert forall|i: int| #[trigger] is_first_index(t, key, i) implies i == es.len() by {
        if i < es.len() {
            assert(t[i] == es[i]);
        }
    }
}

/// A download record as a remote device sees it shows the path placeholder and
/// carries neither the torrent hash nor the correlation tag.
pub proof fn lemma_download_record_hides_local_data(es: Seq<(Seq<char>, JsonView)>)
    ensures
        sanitize_item_spec(ItemKind::Download, JsonView::Object(es)) matches Ok(JsonView::Object(r)) && member_of(r, "savePath"@)
            == Some(JsonView::Text(HIDDEN_LOCAL_PATH@)) && member_of(r, "torrentHash"@) is None && member_of(r, "correlationTag"@) is None,
{
    reveal_strlit("savePath");
    reveal_strlit("torrentHash");
    reveal_strlit("correlationTag");
    let a = drop_key(es, "torrentHash"@);
    let b = drop_key(a, "correlationTag"@);
    let c = drop_key(b, "savePath"@);
    lemma_drop_key(es, "torrentHash"@);
    lemma_drop_key(a, "correlationTag"@);
    lemma_drop_key(b, "savePath"@);
    let r = c.push(("savePath"@, JsonView::Text(HIDDEN_LOCAL_PATH@)));
    lemma_last_member(c, "savePath"@, JsonView::Text(HIDDEN_LOCAL_PATH@));
    assert forall|i: int| 0 <= i < r.len() implies (#[trigger] r[i]).0 != "torrentHash"@ && r[i].0 != "correlationTag"@ by {
        if i < c.len() {
            let j = choose|j: int| 0 <= j < b.len() && b[j] == c[i];
            let k = choose|k: int| 0 <= k < a.len() && a[k] == b[j];
            assert(a[k].0 != "torrentHash"@);
        } else {
            assert(r[i].0 == "savePath"@);
        }
    }
    lemma_absent_member(r, "torrentHash"@);
    lemma_absent_member(r, "correlationTag"@);
}

/// A source as a remote device sees it carries no key, or only the secret
/// placeholder.
pub proof fn lemma_source_key_hidden(es: Seq<(Seq<char>, JsonView)>)
    ensures
        sanitize_item_spec(ItemKind::Source, JsonView::Object(es)) matches Ok(JsonView::Object(r)) && (member_of(r, "apiKey"@) is None
            || member_of(r, "apiKey"@) == Some(JsonView::Text(REMOTE_SECRET_PLACEHOLDER@))),
{
    let d = drop_key(es, "apiKey"@);
    lemma_drop_key(es, "apiKey"@);
    if member_of(es, "apiKey"@) matches Some(JsonView::Text(t)) && t.len() > 0 {
        lemma_last_member(d, "apiKey"@, JsonView::Text(REMOTE_SECRET_PLACEHOLDER@));
    } else {
        lemma_absent_member(d, "apiKey"@);
    }
}

/// A redacted token never shows a link.
pub proof fn lemma_redacted_token_is_no_link(t: Seq<char>)
    ensures
        !has_prefix(ascii_lower(redact_token(t)), "http://"@),
        !has_prefix(ascii_lower(redact_token(t)), "https://"@),
        !has_prefix(ascii_lower(redact_token(t)), "ftp://"@),
{
    reveal_strlit("http://");
    reveal_strlit("https://");
    reveal_strlit("ftp://");
    reveal_strlit("[链接已隐藏]");
    reveal_strlit("[本机路径已隐藏]");
    let r = redact_token(t);
    let lt = ascii_lower(t);
    if has_prefix(lt, "http://"@) || has_prefix(lt, "https://"@) || has_prefix(lt, "ftp://"@) || local_path(t) {
        let l = ascii_lower(r);
        assert(l[0] == '[');
        assert(l.len() >= 7 ==> l.subrange(0, 7)[0] == '[');
        assert(l.len() >= 8 ==> l.subrange(0, 8)[0] == '[');
        assert(l.len() >= 6 ==> l.subrange(0, 6)[0] == '[');
    }
}


/// The unread notification count passes through unchanged for every non-negative
/// integer, zero included; anything else is refused as an invalid count.
pub proof fn lemma_unread_count_passes_every_count(v: JsonView)
    ensures
        forall|u: u64| #[trigger] sanitize_spec(ResultKind::UnreadCount, JsonView::Number(JsonNumber::PosInt(u)))
            == Ok::<JsonView, Seq<char>>(JsonView::Number(JsonNumber::PosInt(u))),
        !(v matches JsonView::Number(JsonNumber::PosInt(_))) ==> sanitize_spec(ResultKind::UnreadCount, v)
            == Err::<JsonView, Seq<char>>("未读数量返回格式无效"@),
{
}


/// A lookup finds the first entry with the name.
proof fn lemma_kind_in_first(table: Seq<(Seq<char>, ResultKind)>, name: Seq<char>, k: int)
    requires
        0 <= k < table.len(),
        table[k].0 == name,
        forall|j: int| 0 <= j < k ==> (#[trigger] table[j]).0 != name,
    ensures
        kind_in(table, name) == table[k].1,
    decreases k,
{
    if k > 0 {
        let rest = table.subrange(1, table.len() as int);
        assert forall|j: int| 0 <= j < k - 1 implies (#[trigger] rest[j]).0 != name by {
            assert(rest[j] == table[j + 1]);
        }
        lemma_kind_in_first(rest, name, k - 1);
    }
}

/// The unread notification count is sanitized as a count.
pub proof fn lemma_unread_count_method_kind()
    ensures
        result_kind("getUnreadNotificationCount"@) == ResultKind::UnreadCount,
{
    let t = result_kind_table();
    let name = "getUnreadNotificationCount"@;
    reveal_strlit("getUnreadNotificationCount");
    reveal_strlit("listMyAnime");
    reveal_strlit("upsertMyAnime");
    reveal_strlit("followBangumiAnime");
    reveal_strlit("removeMyAnime");
    reveal_strlit("listDownloads");
    reveal_strlit("refreshDownloads");
    reveal_strlit("pauseDownload");
    reveal_strlit("resumeDownload");
    reveal_strlit("removeDownload");
    reveal_strlit("setDownloadFilePriority");
    reveal_strlit("addDownloadUrl");
    reveal_strlit("addReleaseDownload");
    reveal_strlit("listSources");
    reveal_strlit("setSourceEnabled");
    reveal_strlit("upsertSource");
    reveal_strlit("getSettings");
    reveal_strlit("updateSettings");
    reveal_strlit("getQbittorrentManagedStatus");
    reveal_strlit("startQbittorrentManaged");
    reveal_strlit("stopQbittorrentManaged");
    reveal_strlit("getEmbeddedTorrentStatus");
    reveal_strlit("startEmbeddedTorrent");
    reveal_strlit("stopEmbeddedTorrent");
    reveal_strlit("restartEmbeddedTorrent");
    reveal_strlit("getDashboard");
    reveal_strlit("listNotifications");
    reveal_strlit("markNotificationRead");
    reveal_strlit("markAllNotificationsRead");
    assert(t[28].0 == name);
    assert forall|j: int| 0 <= j < 28 implies (#[trigger] t[j]).0 != name by {
        assert(t[j].0.len() != name.len() || t[j].0 != name);
    }
    lemma_kind_in_first(t, name, 28);
}

} // verus!
