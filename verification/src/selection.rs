//! How the automatic scan narrows its release candidates: the subtitle gate, the
//! removal of duplicate releases, the fansub policy read from the settings and the
//! fansub candidates that stand in for a missing default group. Where a rule reads
//! what the release parser or the fansub name normaliser says, that verdict or key is
//! an argument.

use vstd::prelude::*;
use crate::domain::{AnimeRssSubscription, AnimeStatus, EpisodePreference, EpisodeStatus, FansubGroup, ReleaseSourceConfig, SourceKind};
use crate::rpc::{JsonValue, json_get, object_get};
use crate::scan::{
    has_subtitle_requirement, has_subtitle_requirement_spec, title_declares_no_subtitles,
    title_declares_no_subtitles_spec, title_has_subtitle_track_evidence, track_evidence_spec,
};
use crate::discovery::opt_view;
use crate::text::{chars_eq, chars_of, string_of, trim, trim_chars};

verus! {

/// What the release parser and the source's subtitle check say of one release:
/// `title_languages` is `None` when the parsed title names no subtitle language, and
/// otherwise whether a release with the title's languages meets the requirement;
/// `release_satisfies` is whether the release as listed meets it.
#[derive(Debug, Clone, Copy, PartialEq, Eq, Structural)]
pub struct SubtitleVerdicts {
    pub title_languages: Option<bool>,
    pub release_satisfies: bool,
}

/// Why the automatic scan turns a release down for its subtitles, if it does. No
/// subtitle rule, no gate; a title that declares no subtitles is refused; languages
/// parsed from the title decide next; then a subtitle track in the title defers to
/// the listed languages; a title without any evidence is refused.
pub open spec fn subtitle_rejection_spec(
    title: Seq<char>,
    languages: Seq<Seq<char>>,
    legacy: Option<Seq<char>>,
    verdicts: SubtitleVerdicts,
) -> Option<Seq<char>> {
    if !has_subtitle_requirement_spec(languages, legacy) {
        None
    } else if title_declares_no_subtitles_spec(title) {
        Some("标题明确标记无字幕"@)
    } else {
        match verdicts.title_languages {
            Some(ok) => if ok {
                None
            } else {
                Some("标题字幕语言不满足"@)
            },
            None => if track_evidence_spec(title) {
                if verdicts.release_satisfies {
                    None
                } else {
                    Some("字幕轨存在但语言不满足"@)
                }
            } else {
                Some("标题缺少字幕证据"@)
            },
        }
    }
}

/// The subtitle reason the automatic scan refuses a release for, if any.
pub fn automatic_subtitle_rejection_reason(
    title: &str,
    preferred_languages: &[String],
    legacy_preference: Option<&str>,
    verdicts: SubtitleVerdicts,
) -> (r: Option<&'static str>)
    ensures
        match r {
            Some(m) => subtitle_rejection_spec(
                title@,
                preferred_languages@.map_values(|s: String| s@),
                opt_view(legacy_preference),
                verdicts,
            ) == Some(m@),
            None => subtitle_rejection_spec(
                title@,
                preferred_languages@.map_values(|s: String| s@),
                opt_view(legacy_preference),
                verdicts,
            ) is None,
        },
{
    if !has_subtitle_requirement(preferred_languages, legacy_preference) {
        return None;
    }
    if title_declares_no_subtitles(title) {
        return Some("标题明确标记无字幕");
    }
    match verdicts.title_languages {
        Some(ok) => if ok {
            None
        } else {
            Some("标题字幕语言不满足")
        },
        None => if title_has_subtitle_track_evidence(title) {
            if verdicts.release_satisfies {
                None
            } else {
                Some("字幕轨存在但语言不满足")
            }
        } else {
            Some("标题缺少字幕证据")
        },
    }
}

/// The positions of the releases that pass the subtitle gate, in order.
pub open spec fn eligible_positions(reasons: Seq<Option<&'static str>>) -> Seq<int>
    decreases reasons.len(),
{
    if reasons.len() == 0 {
        Seq::empty()
    } else {
        let rest = eligible_positions(reasons.drop_last());
        if reasons.last() is None {
            rest.push(reasons.len() - 1)
        } else {
            rest
        }
    }
}

/// Keeps the releases with no rejection reason: their positions, in order, and how
/// many were refused.
pub fn filter_automatic_releases_by_subtitle(reasons: &Vec<Option<&'static str>>) -> (r: (Vec<usize>, usize))
    ensures
        r.0@.map_values(|i: usize| i as int) == eligible_positions(reasons@),
        r.1 == reasons@.len() - r.0@.len(),
{
    let mut kept: Vec<usize> = Vec::new();
    let mut i: usize = 0;
    while i < reasons.len()
        invariant
            i <= reasons@.len(),
            kept@.len() <= i,
            kept@.map_values(|k: usize| k as int) == eligible_positions(reasons@.subrange(0, i as int)),
        decreases reasons@.len() - i,
    {
        assert(reasons@.subrange(0, i + 1).drop_last() =~= reasons@.subrange(0, i as int));
        if reasons[i].is_none() {
            let ghost before = kept@;
            kept.push(i);
            assert(kept@.map_values(|k: usize| k as int) =~= before.map_values(|k: usize| k as int).push(i as int));
        }
        i = i + 1;
    }
    assert(reasons@.subrange(0, reasons@.len() as int) =~= reasons@);
    let rejected = reasons.len() - kept.len();
    (kept, rejected)
}


/// The key a release is told apart by: its info hash, else its magnet link, else its
/// torrent link, else its identifier.
pub open spec fn release_key_spec(
    id: Seq<char>,
    info_hash: Option<Seq<char>>,
    magnet_url: Option<Seq<char>>,
    torrent_url: Option<Seq<char>>,
) -> Seq<char> {
    match info_hash {
        Some(h) => h,
        None => match magnet_url {
            Some(m) => m,
            None => match torrent_url {
                Some(t) => t,
                None => id,
            },
        },
    }
}

/// The key a release is told apart by.
pub fn release_dedupe_key(
    id: &str,
    info_hash: Option<&str>,
    magnet_url: Option<&str>,
    torrent_url: Option<&str>,
) -> (r: String)
    ensures
        r@ == release_key_spec(id@, opt_view(info_hash), opt_view(magnet_url), opt_view(torrent_url)),
{
    let chosen = match info_hash {
        Some(h) => h,
        None => match magnet_url {
            Some(m) => m,
            None => match torrent_url {
                Some(t) => t,
                None => id,
            },
        },
    };
    string_of(chars_of(chosen).as_slice())
}

/// The positions of the first item with each key, in order.
pub open spec fn first_occurrences(keys: Seq<Seq<char>>) -> Seq<int>
    decreases keys.len(),
{
    if keys.len() == 0 {
        Seq::empty()
    } else {
        let rest = first_occurrences(keys.drop_last());
        if keys.drop_last().contains(keys.last()) {
            rest
        } else {
            rest.push(keys.len() - 1)
        }
    }
}

/// The positions of the first item with each key, in order: later items whose key
/// came before are dropped.
pub fn first_by_key(keys: &Vec<String>) -> (r: Vec<usize>)
    ensures
        r@.map_values(|i: usize| i as int) == first_occurrences(keys@.map_values(|k: String| k@)),
{
    let ghost views = keys@.map_values(|k: String| k@);
    let mut kept: Vec<usize> = Vec::new();
    let mut i: usize = 0;
    while i < keys.len()
        invariant
            i <= keys@.len(),
            views == keys@.map_values(|k: String| k@),
            kept@.map_values(|k: usize| k as int) == first_occurrences(views.subrange(0, i as int)),
        decreases keys@.len() - i,
    {
        let key = chars_of(keys[i].as_str());
        let mut seen = false;
        let mut j: usize = 0;
        while j < i
            invariant
                j <= i < keys@.len(),
                views == keys@.map_values(|k: String| k@),
                key@ == views[i as int],
                seen == exists|k: int| 0 <= k < j && views[k] == views[i as int],
            decreases i - j,
        {
            assert(views[j as int] == keys@[j as int]@);
            if chars_eq(chars_of(keys[j].as_str()).as_slice(), key.as_slice()) {
                seen = true;
            }
            j = j + 1;
        }
        let ghost prefix = views.subrange(0, i + 1);
        proof {
            assert(prefix.drop_last() =~= views.subrange(0, i as int));
            assert(prefix.last() == views[i as int]);
            if seen {
                let k = choose|k: int| 0 <= k < i && views[k] == views[i as int];
                assert(prefix.drop_last()[k] == views[i as int]);
            } else {
                assert(!prefix.drop_last().contains(prefix.last()));
            }
        }
        if !seen {
            let ghost before = kept@;
            kept.push(i);
            assert(kept@.map_values(|k: usize| k as int) =~= before.map_values(|k: usize| k as int).push(i as int));
        }
        i = i + 1;
    }
    assert(views.subrange(0, keys@.len() as int) =~= views);
    kept
}

proof fn lemma_first_occurrences_first(keys: Seq<Seq<char>>)
    ensures
        forall|a: int| 0 <= a < first_occurrences(keys).len() ==> 0 <= #[trigger] first_occurrences(keys)[a] < keys.len()
            && !keys.subrange(0, first_occurrences(keys)[a]).contains(keys[first_occurrences(keys)[a]]),
        forall|a: int, b: int| 0 <= a < b < first_occurrences(keys).len() ==>
            #[trigger] first_occurrences(keys)[a] < #[trigger] first_occurrences(keys)[b],
    decreases keys.len(),
{
    if keys.len() > 0 {
        let init = keys.drop_last();
        lemma_first_occurrences_first(init);
        let rest = first_occurrences(init);
        let out = first_occurrences(keys);
        assert forall|a: int| 0 <= a < rest.len() implies
            keys.subrange(0, #[trigger] rest[a]) == init.subrange(0, rest[a]) && keys[rest[a]] == init[rest[a]] by {
            assert(keys.subrange(0, rest[a]) =~= init.subrange(0, rest[a]));
        }
        if !init.contains(keys.last()) {
            let n = keys.len() - 1;
            assert(keys.subrange(0, n) =~= init);
            assert forall|a: int| 0 <= a < out.len() implies 0 <= #[trigger] out[a] < keys.len()
                && !keys.subrange(0, out[a]).contains(keys[out[a]]) by {
                if a < rest.len() {
                    assert(out[a] == rest[a]);
                }
            }
        }
    }
}

proof fn lemma_first_occurrences_cover_one(keys: Seq<Seq<char>>, i: int)
    requires
        0 <= i < keys.len(),
    ensures
        exists|a: int| 0 <= a < first_occurrences(keys).len() && keys[#[trigger] first_occurrences(keys)[a]] == keys[i],
    decreases keys.len(),
{
    let init = keys.drop_last();
    let rest = first_occurrences(init);
    let out = first_occurrences(keys);
    let n = keys.len() - 1;
    let target = if i < n {
        i
    } else if init.contains(keys.last()) {
        choose|k: int| 0 <= k < init.len() && init[k] == keys.last()
    } else {
        -1
    };
    if target >= 0 {
        assert(init[target] == keys[i]);
        lemma_first_occurrences_cover_one(init, target);
        lemma_first_occurrences_first(init);
        let a = choose|a: int| 0 <= a < rest.len() && init[#[trigger] rest[a]] == init[target];
        assert(out[a] == rest[a]);
        assert(keys[out[a]] == keys[i]);
    } else {
        assert(out[rest.len() as int] == n);
    }
}

proof fn lemma_first_occurrences_cover(keys: Seq<Seq<char>>)
    ensures
        forall|i: int| 0 <= i < keys.len() ==> exists|a: int|
            0 <= a < first_occurrences(keys).len() && keys[#[trigger] first_occurrences(keys)[a]] == #[trigger] keys[i],
{
    assert forall|i: int| 0 <= i < keys.len() implies exists|a: int|
        0 <= a < first_occurrences(keys).len() && keys[#[trigger] first_occurrences(keys)[a]] == #[trigger] keys[i] by {
        lemma_first_occurrences_cover_one(keys, i);
    }
}

/// Removing duplicates keeps, in increasing order, the first item of each key: the
/// kept keys are distinct, each kept item is the first with its key, and every key is
/// kept.
pub proof fn lemma_first_occurrences_keep_one_per_key(keys: Seq<Seq<char>>)
    ensures
        forall|a: int, b: int| 0 <= a < b < first_occurrences(keys).len() ==>
            #[trigger] first_occurrences(keys)[a] < #[trigger] first_occurrences(keys)[b]
            && keys[first_occurrences(keys)[a]] != keys[first_occurrences(keys)[b]],
        forall|a: int| 0 <= a < first_occurrences(keys).len() ==> 0 <= #[trigger] first_occurrences(keys)[a] < keys.len()
            && !keys.subrange(0, first_occurrences(keys)[a]).contains(keys[first_occurrences(keys)[a]]),
        forall|i: int| 0 <= i < keys.len() ==> exists|a: int|
            0 <= a < first_occurrences(keys).len() && keys[#[trigger] first_occurrences(keys)[a]] == #[trigger] keys[i],
{
    lemma_first_occurrences_first(keys);
    lemma_first_occurrences_cover(keys);
    let out = first_occurrences(keys);
    assert forall|a: int, b: int| 0 <= a < b < out.len() implies
        #[trigger] out[a] < #[trigger] out[b] && keys[out[a]] != keys[out[b]] by {
        assert(keys.subrange(0, out[b])[out[a]] == keys[out[a]]);
    }
}


/// The automation settings the scan policy reads, before candidate names are told
/// apart by their normalised fansub keys.
#[derive(Debug, Clone, PartialEq, Eq)]
pub struct ScanPolicySettings {
    pub global_enabled: bool,
    pub fallback: String,
    pub candidate_names: Vec<String>,
}

/// A member of the `automation` object of the settings.
pub open spec fn automation_get(settings: JsonValue, key: Seq<char>) -> Option<JsonValue> {
    match json_get(settings, "automation"@) {
        Some(automation) => json_get(automation, key),
        None => None,
    }
}

/// What the scan does when a series' default fansub has no release: `wait`,
/// `candidate` or `notify_only` as set, `wait` otherwise.
pub open spec fn fallback_spec(settings: JsonValue) -> Seq<char> {
    match automation_get(settings, "fallbackWhenDefaultFansubMissing"@) {
        Some(JsonValue::String(t)) => if t@ == "wait"@ || t@ == "candidate"@ || t@ == "notify_only"@ {
            t@
        } else {
            "wait"@
        },
        _ => "wait"@,
    }
}

/// Whether automatic downloads are on: as set, on by default.
pub open spec fn global_enabled_spec(settings: JsonValue) -> bool {
    match automation_get(settings, "autoDownloadEnabledGlobally"@) {
        Some(JsonValue::Bool(b)) => b,
        _ => true,
    }
}

/// The texts of a list, trimmed, leaving out the empty ones and what is not text.
pub open spec fn trimmed_texts(items: Seq<JsonValue>) -> Seq<Seq<char>>
    decreases items.len(),
{
    if items.len() == 0 {
        Seq::empty()
    } else {
        let rest = trimmed_texts(items.drop_last());
        match items.last() {
            JsonValue::String(t) => if trim(t@).len() > 0 {
                rest.push(trim(t@))
            } else {
                rest
            },
            _ => rest,
        }
    }
}

/// The candidate fansub names as set, trimmed, before duplicates are removed.
pub open spec fn candidate_names_spec(settings: JsonValue) -> Seq<Seq<char>> {
    match automation_get(settings, "candidateFansubNames"@) {
        Some(JsonValue::Array(items)) => trimmed_texts(items@),
        _ => Seq::empty(),
    }
}

fn automation_member<'a>(settings: &'a JsonValue, key: &str) -> (r: Option<&'a JsonValue>)
    ensures
        match r {
            Some(v) => automation_get(*settings, key@) == Some(*v),
            None => automation_get(*settings, key@) is None,
        },
{
    match object_get(settings, "automation") {
        Some(automation) => object_get(automation, key),
        None => None,
    }
}

fn fallback_is_known(t: &str) -> (r: bool)
    ensures
        r == (t@ == "wait"@ || t@ == "candidate"@ || t@ == "notify_only"@),
{
    let v = chars_of(t);
    crate::text::eq_str(v.as_slice(), "wait") || crate::text::eq_str(v.as_slice(), "candidate")
        || crate::text::eq_str(v.as_slice(), "notify_only")
}

/// Reads the automation policy from the versioned settings with its defaults.
pub fn scan_policy_settings(settings: &JsonValue) -> (r: ScanPolicySettings)
    ensures
        r.global_enabled == global_enabled_spec(*settings),
        r.fallback@ == fallback_spec(*settings),
        r.candidate_names@.map_values(|n: String| n@) == candidate_names_spec(*settings),
{
    let fallback = match automation_member(settings, "fallbackWhenDefaultFansubMissing") {
        Some(JsonValue::String(t)) => if fallback_is_known(t.as_str()) {
            string_of(chars_of(t.as_str()).as_slice())
        } else {
            String::from_str("wait")
        },
        _ => String::from_str("wait"),
    };
    let global_enabled = match automation_member(settings, "autoDownloadEnabledGlobally") {
        Some(JsonValue::Bool(b)) => *b,
        _ => true,
    };
    let mut names: Vec<String> = Vec::new();
    match automation_member(settings, "candidateFansubNames") {
        Some(JsonValue::Array(items)) => {
            let mut i: usize = 0;
            while i < items.len()
                invariant
                    i <= items@.len(),
                    names@.map_values(|n: String| n@) == trimmed_texts(items@.subrange(0, i as int)),
                decreases items@.len() - i,
            {
                assert(items@.subrange(0, i + 1).drop_last() =~= items@.subrange(0, i as int));
                assert(items@.subrange(0, i + 1).last() == items@[i as int]);
                match &items[i] {
                    JsonValue::String(t) => {
                        let v = trim_chars(chars_of(t.as_str()).as_slice());
                        if v.len() > 0 {
                            let ghost before = names@;
                            names.push(string_of(v.as_slice()));
                            assert(names@.map_values(|n: String| n@) =~= before.map_values(|n: String| n@).push(trim(t@)));
                        }
                    },
                    _ => {},
                }
                i = i + 1;
            }
            assert(items@.subrange(0, items@.len() as int) =~= items@);
        },
        _ => {},
    }
    ScanPolicySettings { global_enabled, fallback, candidate_names: names }
}

/// Keeps the first of the names that share a key (their normalised fansub names),
/// in order.
pub fn keep_first_names(names: &Vec<String>, keys: &Vec<String>) -> (r: Vec<String>)
    requires
        names@.len() == keys@.len(),
    ensures
        r@.map_values(|n: String| n@) == first_occurrences(keys@.map_values(|k: String| k@)).map_values(
            |a: int| names@[a]@,
        ),
{
    let positions = first_by_key(keys);
    proof {
        lemma_first_occurrences_first(keys@.map_values(|k: String| k@));
    }
    let ghost expected = first_occurrences(keys@.map_values(|k: String| k@));
    let mut out: Vec<String> = Vec::new();
    let mut i: usize = 0;
    while i < positions.len()
        invariant
            i <= positions@.len(),
            names@.len() == keys@.len(),
            positions@.map_values(|p: usize| p as int) == expected,
            forall|a: int| 0 <= a < expected.len() ==> 0 <= #[trigger] expected[a] < keys@.len(),
            out@.len() == i,
            out@.map_values(|n: String| n@) == expected.subrange(0, i as int).map_values(|a: int| names@[a]@),
        decreases positions@.len() - i,
    {
        assert(expected[i as int] == positions@[i as int] as int);
        let p = positions[i];
        let ghost before = out@;
        let name = names[p].clone();
        assert(name@ == names@[p as int]@);
        out.push(name);
        assert(before.map_values(|n: String| n@) == expected.subrange(0, i as int).map_values(|a: int| names@[a]@));
        proof {
            let lhs = out@.map_values(|n: String| n@);
            let rhs = expected.subrange(0, i + 1).map_values(|a: int| names@[a]@);
            let prev = expected.subrange(0, i as int).map_values(|a: int| names@[a]@);
            assert forall|k: int| 0 <= k < lhs.len() implies lhs[k] == rhs[k] by {
                if k < i {
                    assert(lhs[k] == before[k]@);
                    assert(before.map_values(|n: String| n@)[k] == prev[k]);
                    assert(rhs[k] == names@[expected[k]]@);
                    assert(prev[k] == names@[expected[k]]@);
                } else {
                    assert(k == i);
                    assert(lhs[k] == name@);
                    assert(expected.subrange(0, i + 1)[k] == expected[i as int]);
                }
            }
            assert(lhs =~= rhs);
        }
        i = i + 1;
    }
    assert(expected.subrange(0, positions@.len() as int) =~= expected);
    out
}


/// The positions of the releases of a fansub group, in order.
pub open spec fn group_positions(ids: Seq<Option<String>>, group: Seq<char>) -> Seq<int>
    decreases ids.len(),
{
    if ids.len() == 0 {
        Seq::empty()
    } else {
        let rest = group_positions(ids.drop_last(), group);
        if ids.last() matches Some(g) && g@ == group {
            rest.push(ids.len() - 1)
        } else {
            rest
        }
    }
}

/// The positions whose flag is set, in order.
pub open spec fn set_positions(flags: Seq<bool>) -> Seq<int>
    decreases flags.len(),
{
    if flags.len() == 0 {
        Seq::empty()
    } else {
        let rest = set_positions(flags.drop_last());
        if flags.last() {
            rest.push(flags.len() - 1)
        } else {
            rest
        }
    }
}

/// The ranked releases the fansub policy lets through: all of them when the series
/// has no default group; else those of the default group; when it has none, the
/// releases of a candidate group if the fallback is `candidate` and candidates are set,
/// and nothing otherwise.
pub open spec fn fansub_policy_spec(
    group_ids: Seq<Option<String>>,
    matches_candidate: Seq<bool>,
    preferred_id: Option<Seq<char>>,
    fallback: Seq<char>,
    has_candidates: bool,
) -> Seq<int> {
    match preferred_id {
        None => Seq::new(group_ids.len(), |i: int| i),
        Some(p) => if group_positions(group_ids, p).len() > 0 {
            group_positions(group_ids, p)
        } else if fallback != "candidate"@ || !has_candidates {
            Seq::empty()
        } else {
            set_positions(matches_candidate)
        },
    }
}

fn positions_of_group(group_ids: &Vec<Option<String>>, group: &str) -> (r: Vec<usize>)
    ensures
        r@.map_values(|i: usize| i as int) == group_positions(group_ids@, group@),
{
    let g = chars_of(group);
    let mut out: Vec<usize> = Vec::new();
    let mut i: usize = 0;
    while i < group_ids.len()
        invariant
            i <= group_ids@.len(),
            g@ == group@,
            out@.map_values(|k: usize| k as int) == group_positions(group_ids@.subrange(0, i as int), group@),
        decreases group_ids@.len() - i,
    {
        assert(group_ids@.subrange(0, i + 1).drop_last() =~= group_ids@.subrange(0, i as int));
        assert(group_ids@.subrange(0, i + 1).last() == group_ids@[i as int]);
        let hit = match &group_ids[i] {
            Some(id) => chars_eq(chars_of(id.as_str()).as_slice(), g.as_slice()),
            None => false,
        };
        if hit {
            let ghost before = out@;
            out.push(i);
            assert(out@.map_values(|k: usize| k as int) =~= before.map_values(|k: usize| k as int).push(i as int));
        }
        i = i + 1;
    }
    assert(group_ids@.subrange(0, group_ids@.len() as int) =~= group_ids@);
    out
}

fn positions_set(flags: &Vec<bool>) -> (r: Vec<usize>)
    ensures
        r@.map_values(|i: usize| i as int) == set_positions(flags@),
{
    let mut out: Vec<usize> = Vec::new();
    let mut i: usize = 0;
    while i < flags.len()
        invariant
            i <= flags@.len(),
            out@.map_values(|k: usize| k as int) == set_positions(flags@.subrange(0, i as int)),
        decreases flags@.len() - i,
    {
        assert(flags@.subrange(0, i + 1).drop_last() =~= flags@.subrange(0, i as int));
        if flags[i] {
            let ghost before = out@;
            out.push(i);
            assert(out@.map_values(|k: usize| k as int) =~= before.map_values(|k: usize| k as int).push(i as int));
        }
        i = i + 1;
    }
    assert(flags@.subrange(0, flags@.len() as int) =~= flags@);
    out
}

/// Applies the fansub policy to ranked releases, given each release's fansub group
/// and whether it belongs to a candidate group; returns the positions kept, in order.
pub fn apply_fansub_policy(
    group_ids: &Vec<Option<String>>,
    matches_candidate: &Vec<bool>,
    preferred_id: Option<&str>,
    fallback: &str,
    has_candidates: bool,
) -> (r: Vec<usize>)
    ensures
        r@.map_values(|i: usize| i as int) == fansub_policy_spec(
            group_ids@,
            matches_candidate@,
            opt_view(preferred_id),
            fallback@,
            has_candidates,
        ),
{
    match preferred_id {
        None => {
            let mut out: Vec<usize> = Vec::new();
            let mut i: usize = 0;
            while i < group_ids.len()
                invariant
                    i <= group_ids@.len(),
                    out@.map_values(|k: usize| k as int) == Seq::new(i as nat, |k: int| k),
                decreases group_ids@.len() - i,
            {
                let ghost before = out@;
                out.push(i);
                assert(out@.map_values(|k: usize| k as int) =~= before.map_values(|k: usize| k as int).push(i as int));
                assert(Seq::new(i as nat, |k: int| k).push(i as int) =~= Seq::new((i + 1) as nat, |k: int| k));
                i = i + 1;
            }
            out
        },
        Some(p) => {
            let preferred = positions_of_group(group_ids, p);
            if preferred.len() > 0 {
                assert(preferred@.map_values(|i: usize| i as int).len() == preferred@.len());
                preferred
            } else {
                assert(preferred@.map_values(|i: usize| i as int).len() == preferred@.len());
                let candidate = chars_of(fallback);
                if !crate::text::eq_str(candidate.as_slice(), "candidate") || !has_candidates {
                    let empty: Vec<usize> = Vec::new();
                    assert(empty@.map_values(|i: usize| i as int) =~= Seq::<int>::empty());
                    empty
                } else {
                    positions_set(matches_candidate)
                }
            }
        },
    }
}

/// The first group with an identifier.
pub open spec fn group_with_id(groups: Seq<FansubGroup>, id: Seq<char>) -> Option<FansubGroup>
    decreases groups.len(),
{
    if groups.len() == 0 {
        None
    } else if groups[0].id@ == id {
        Some(groups[0])
    } else {
        group_with_id(groups.subrange(1, groups.len() as int), id)
    }
}

/// The names a release goes by when matched against candidate fansubs: the fansub
/// name it lists, then the name and aliases of its fansub group.
pub open spec fn candidate_values_spec(
    fansub_name: Option<Seq<char>>,
    fansub_group_id: Option<Seq<char>>,
    groups: Seq<FansubGroup>,
) -> Seq<Seq<char>> {
    let named = match fansub_name {
        Some(n) => seq![n],
        None => Seq::empty(),
    };
    let grouped = match fansub_group_id {
        Some(id) => match group_with_id(groups, id) {
            Some(g) => seq![g.name@] + g.aliases@.map_values(|a: String| a@),
            None => Seq::empty(),
        },
        None => Seq::empty(),
    };
    named + grouped
}

fn find_group<'a>(groups: &'a Vec<FansubGroup>, id: &str) -> (r: Option<&'a FansubGroup>)
    ensures
        match r {
            Some(g) => group_with_id(groups@, id@) == Some(*g),
            None => group_with_id(groups@, id@) is None,
        },
{
    let k = chars_of(id);
    let mut i: usize = 0;
    assert(groups@.subrange(0, groups@.len() as int) =~= groups@);
    while i < groups.len()
        invariant
            i <= groups@.len(),
            k@ == id@,
            group_with_id(groups@.subrange(i as int, groups@.len() as int), id@) == group_with_id(groups@, id@),
        decreases groups@.len() - i,
    {
        let ghost rest = groups@.subrange(i as int, groups@.len() as int);
        assert(rest[0] == groups@[i as int]);
        if chars_eq(chars_of(groups[i].id.as_str()).as_slice(), k.as_slice()) {
            return Some(&groups[i]);
        }
        assert(rest.subrange(1, rest.len() as int) =~= groups@.subrange(i + 1, groups@.len() as int));
        i = i + 1;
    }
    None
}

/// The names a release goes by when it is matched against the candidate fansubs.
pub fn candidate_values(
    fansub_name: Option<&str>,
    fansub_group_id: Option<&str>,
    groups: &Vec<FansubGroup>,
) -> (r: Vec<String>)
    ensures
        r@.map_values(|v: String| v@) == candidate_values_spec(opt_view(fansub_name), opt_view(fansub_group_id), groups@),
{
    let mut out: Vec<String> = Vec::new();
    if let Some(n) = fansub_name {
        out.push(string_of(chars_of(n).as_slice()));
    }
    let ghost named = out@.map_values(|v: String| v@);
    assert(named =~= match opt_view(fansub_name) {
        Some(n) => seq![n],
        None => Seq::<Seq<char>>::empty(),
    });
    if let Some(id) = fansub_group_id {
        if let Some(g) = find_group(groups, id) {
            out.push(g.name.clone());
            let mut j: usize = 0;
            while j < g.aliases.len()
                invariant
                    j <= g.aliases@.len(),
                    out@.map_values(|v: String| v@) == named + seq![g.name@] + g.aliases@.subrange(0, j as int).map_values(|a: String| a@),
                decreases g.aliases@.len() - j,
            {
                let ghost before = out@;
                let alias = g.aliases[j].clone();
                assert(alias@ == g.aliases@[j as int]@);
                out.push(alias);
                assert(out@.map_values(|v: String| v@) =~= before.map_values(|v: String| v@).push(alias@));
                assert(g.aliases@.subrange(0, j + 1).map_values(|a: String| a@) =~= g.aliases@.subrange(0, j as int).map_values(
                    |a: String| a@,
                ).push(alias@));
                assert(out@.map_values(|v: String| v@) =~= named + seq![g.name@] + g.aliases@.subrange(0, j + 1).map_values(|a: String| a@));
                j = j + 1;
            }
            assert(g.aliases@.subrange(0, g.aliases@.len() as int) =~= g.aliases@);
            assert(out@.map_values(|v: String| v@) =~= named + (seq![g.name@] + g.aliases@.map_values(|a: String| a@)));
        } else {
            assert(named + Seq::<Seq<char>>::empty() =~= named);
        }
    } else {
        assert(named + Seq::<Seq<char>>::empty() =~= named);
    }
    out
}

/// Whether some key of the first list is among the second.
pub open spec fn shares_key(values: Seq<Seq<char>>, keys: Seq<Seq<char>>) -> bool {
    exists|i: int| 0 <= i < values.len() && keys.contains(#[trigger] values[i])
}

fn key_among(value: &String, keys: &Vec<String>) -> (r: bool)
    ensures
        r == keys@.map_values(|k: String| k@).contains(value@),
{
    let ghost views = keys@.map_values(|k: String| k@);
    let v = chars_of(value.as_str());
    let mut j: usize = 0;
    while j < keys.len()
        invariant
            j <= keys@.len(),
            views == keys@.map_values(|k: String| k@),
            v@ == value@,
            forall|k: int| 0 <= k < j ==> views[k] != value@,
        decreases keys@.len() - j,
    {
        assert(views[j as int] == keys@[j as int]@);
        if chars_eq(chars_of(keys[j].as_str()).as_slice(), v.as_slice()) {
            assert(views[j as int] == value@);
            return true;
        }
        j = j + 1;
    }
    false
}

/// Whether a release belongs to a candidate fansub: one of its normalised names is a
/// normalised candidate name.
pub fn release_matches_candidate(value_keys: &Vec<String>, candidate_keys: &Vec<String>) -> (r: bool)
    ensures
        r == shares_key(value_keys@.map_values(|k: String| k@), candidate_keys@.map_values(|k: String| k@)),
{
    let ghost values = value_keys@.map_values(|k: String| k@);
    let mut i: usize = 0;
    while i < value_keys.len()
        invariant
            i <= value_keys@.len(),
            values == value_keys@.map_values(|k: String| k@),
            forall|k: int| 0 <= k < i ==> !candidate_keys@.map_values(|c: String| c@).contains(#[trigger] values[k]),
        decreases value_keys@.len() - i,
    {
        assert(values[i as int] == value_keys@[i as int]@);
        if key_among(&value_keys[i], candidate_keys) {
            return true;
        }
        i = i + 1;
    }
    false
}

/// The groups, by position, whose name or an alias is a candidate name.
pub open spec fn candidate_group_positions(group_keys: Seq<Seq<Seq<char>>>, keys: Seq<Seq<char>>) -> Seq<int>
    decreases group_keys.len(),
{
    if group_keys.len() == 0 {
        Seq::empty()
    } else {
        let rest = candidate_group_positions(group_keys.drop_last(), keys);
        if shares_key(group_keys.last(), keys) {
            rest.push(group_keys.len() - 1)
        } else {
            rest
        }
    }
}

/// The identifiers of the fansub groups that a candidate name designates, given each
/// group's normalised name and aliases.
pub fn candidate_group_ids(
    groups: &Vec<FansubGroup>,
    group_keys: &Vec<Vec<String>>,
    candidate_keys: &Vec<String>,
) -> (r: Vec<String>)
    requires
        groups@.len() == group_keys@.len(),
    ensures
        r@.map_values(|id: String| id@) == candidate_group_positions(
            group_keys@.map_values(|ks: Vec<String>| ks@.map_values(|k: String| k@)),
            candidate_keys@.map_values(|k: String| k@),
        ).map_values(|a: int| groups@[a].id@),
{
    let ghost all = group_keys@.map_values(|ks: Vec<String>| ks@.map_values(|k: String| k@));
    let ghost keys = candidate_keys@.map_values(|k: String| k@);
    let mut out: Vec<String> = Vec::new();
    let mut i: usize = 0;
    while i < groups.len()
        invariant
            i <= groups@.len(),
            groups@.len() == group_keys@.len(),
            all == group_keys@.map_values(|ks: Vec<String>| ks@.map_values(|k: String| k@)),
            keys == candidate_keys@.map_values(|k: String| k@),
            out@.map_values(|id: String| id@) == candidate_group_positions(all.subrange(0, i as int), keys).map_values(
                |a: int| groups@[a].id@,
            ),
        decreases groups@.len() - i,
    {
        assert(all.subrange(0, i + 1).drop_last() =~= all.subrange(0, i as int));
        assert(all.subrange(0, i + 1).last() == all[i as int]);
        assert(all[i as int] == group_keys@[i as int]@.map_values(|k: String| k@));
        if release_matches_candidate(&group_keys[i], candidate_keys) {
            let ghost before = out@;
            let id = groups[i].id.clone();
            assert(id@ == groups@[i as int].id@);
            out.push(id);
            assert(out@.map_values(|id: String| id@) =~= before.map_values(|id: String| id@).push(id@));
            let ghost rest = candidate_group_positions(all.subrange(0, i as int), keys);
            assert(candidate_group_positions(all.subrange(0, i + 1), keys) == rest.push(i as int));
            assert(rest.push(i as int).map_values(|a: int| groups@[a].id@) =~= rest.map_values(|a: int| groups@[a].id@).push(
                groups@[i as int].id@,
            ));
        }
        i = i + 1;
    }
    assert(all.subrange(0, groups@.len() as int) =~= all);
    out
}


/// Why the automatic scan passes over a whole series, if it does: adult content, a
/// finished or dropped series, or automatic downloads turned off for it.
pub open spec fn anime_skip_spec(restricted: bool, status: AnimeStatus, auto_download: bool) -> Option<Seq<char>> {
    if restricted {
        Some("番剧标记为成人内容"@)
    } else if status == AnimeStatus::Completed {
        Some("追番已完成"@)
    } else if status == AnimeStatus::Dropped {
        Some("追番已弃"@)
    } else if !auto_download {
        Some("番剧未开启自动下载"@)
    } else {
        None
    }
}

/// Why the automatic scan passes over a whole series, if it does.
pub fn anime_skip_reason(restricted: bool, status: AnimeStatus, auto_download: bool) -> (r: Option<&'static str>)
    ensures
        match r {
            Some(m) => anime_skip_spec(restricted, status, auto_download) == Some(m@),
            None => anime_skip_spec(restricted, status, auto_download) is None,
        },
{
    if restricted {
        Some("番剧标记为成人内容")
    } else if matches!(status, AnimeStatus::Completed) {
        Some("追番已完成")
    } else if matches!(status, AnimeStatus::Dropped) {
        Some("追番已弃")
    } else if !auto_download {
        Some("番剧未开启自动下载")
    } else {
        None
    }
}

/// The first preference recorded for an episode.
pub open spec fn episode_preference(preferences: Seq<EpisodePreference>, episode_id: Seq<char>) -> Option<EpisodePreference>
    decreases preferences.len(),
{
    if preferences.len() == 0 {
        None
    } else if preferences[0].episode_id@ == episode_id {
        Some(preferences[0])
    } else {
        episode_preference(preferences.subrange(1, preferences.len() as int), episode_id)
    }
}

/// The fansub group an episode is scanned for: the episode's own preference when it
/// names one, else the series' default.
pub open spec fn preferred_fansub_spec(
    preferences: Seq<EpisodePreference>,
    episode_id: Seq<char>,
    default_fansub: Option<Seq<char>>,
) -> Option<Seq<char>> {
    match episode_preference(preferences, episode_id) {
        Some(p) => match p.fansub_group_id {
            Some(g) => Some(g@),
            None => default_fansub,
        },
        None => default_fansub,
    }
}

/// The fansub group an episode is scanned for.
pub fn preferred_fansub(
    preferences: &Vec<EpisodePreference>,
    episode_id: &str,
    default_fansub: Option<&str>,
) -> (r: Option<String>)
    ensures
        match r {
            Some(g) => preferred_fansub_spec(preferences@, episode_id@, opt_view(default_fansub)) == Some(g@),
            None => preferred_fansub_spec(preferences@, episode_id@, opt_view(default_fansub)) is None,
        },
{
    let k = chars_of(episode_id);
    let mut i: usize = 0;
    assert(preferences@.subrange(0, preferences@.len() as int) =~= preferences@);
    while i < preferences.len()
        invariant
            i <= preferences@.len(),
            k@ == episode_id@,
            episode_preference(preferences@.subrange(i as int, preferences@.len() as int), episode_id@)
                == episode_preference(preferences@, episode_id@),
        decreases preferences@.len() - i,
    {
        let ghost rest = preferences@.subrange(i as int, preferences@.len() as int);
        assert(rest[0] == preferences@[i as int]);
        if chars_eq(chars_of(preferences[i].episode_id.as_str()).as_slice(), k.as_slice()) {
            return match &preferences[i].fansub_group_id {
                Some(g) => Some(g.clone()),
                None => match default_fansub {
                    Some(d) => Some(string_of(chars_of(d).as_slice())),
                    None => None,
                },
            };
        }
        assert(rest.subrange(1, rest.len() as int) =~= preferences@.subrange(i + 1, preferences@.len() as int));
        i = i + 1;
    }
    match default_fansub {
        Some(d) => Some(string_of(chars_of(d).as_slice())),
        None => None,
    }
}

/// The fansub group a release search is narrowed to: none when the policy falls back to
/// candidate groups, else the preferred one.
pub fn search_fansub_filter(fallback: &str, preferred: Option<&str>) -> (r: Option<String>)
    ensures
        match r {
            Some(g) => fallback@ != "candidate"@ && opt_view(preferred) == Some(g@),
            None => fallback@ == "candidate"@ || preferred is None,
        },
{
    if crate::text::eq_str(chars_of(fallback).as_slice(), "candidate") {
        None
    } else {
        match preferred {
            Some(p) => Some(string_of(chars_of(p).as_slice())),
            None => None,
        }
    }
}

/// How long searches for a finished series may be served from the cache: seven days.
pub const COMPLETED_CACHE_TTL_MS: u64 = 604_800_000;

/// The cache lifetime of a release search: seven days for a finished series, the
/// default otherwise.
pub fn release_cache_ttl_ms(status: AnimeStatus) -> (r: Option<u64>)
    ensures
        r == if status == AnimeStatus::Completed {
            Some(COMPLETED_CACHE_TTL_MS)
        } else {
            None::<u64>
        },
{
    if matches!(status, AnimeStatus::Completed) {
        Some(COMPLETED_CACHE_TTL_MS)
    } else {
        None
    }
}

/// What the scan of one episode does once its candidates are ranked: skip it (with the
/// status to record, if any, and why) or download the best release.
#[derive(Debug, Clone, PartialEq, Eq)]
pub enum EpisodeScanStep {
    Skip { status: Option<EpisodeStatus>, reason: String },
    Download,
}

/// The step of an episode scan: no candidate leaves the episode aired; a refused
/// automatic decision, or a best release that fails the subtitle gate, leaves it
/// matched; a best release without a download link is skipped as it stands; otherwise
/// the release is downloaded.
pub open spec fn episode_scan_spec(
    candidate_count: nat,
    accepted: bool,
    decision_reason: Seq<char>,
    subtitle_rejected: bool,
    has_download_link: bool,
) -> (Option<(Option<EpisodeStatus>, Seq<char>)>) {
    if candidate_count == 0 {
        Some((Some(EpisodeStatus::Aired), "未找到匹配资源"@))
    } else if !accepted {
        Some((Some(EpisodeStatus::Matched), decision_reason))
    } else if subtitle_rejected {
        Some((Some(EpisodeStatus::Matched), "字幕规则不满足"@))
    } else if !has_download_link {
        Some((None, "最佳资源没有下载地址"@))
    } else {
        None
    }
}

/// Decides the step of an episode scan from its ranked candidates, the automatic
/// download decision on them, the subtitle gate on the best one, and its links.
pub fn decide_episode_scan(
    candidate_count: usize,
    accepted: bool,
    decision_reason: &str,
    subtitle_rejection: Option<&str>,
    has_download_link: bool,
) -> (r: EpisodeScanStep)
    ensures
        match r {
            EpisodeScanStep::Skip { status, reason } => episode_scan_spec(
                candidate_count as nat,
                accepted,
                decision_reason@,
                subtitle_rejection is Some,
                has_download_link,
            ) == Some((status, reason@)),
            EpisodeScanStep::Download => episode_scan_spec(
                candidate_count as nat,
                accepted,
                decision_reason@,
                subtitle_rejection is Some,
                has_download_link,
            ) is None,
        },
{
    if candidate_count == 0 {
        EpisodeScanStep::Skip { status: Some(EpisodeStatus::Aired), reason: String::from_str("未找到匹配资源") }
    } else if !accepted {
        EpisodeScanStep::Skip {
            status: Some(EpisodeStatus::Matched),
            reason: string_of(chars_of(decision_reason).as_slice()),
        }
    } else if subtitle_rejection.is_some() {
        EpisodeScanStep::Skip { status: Some(EpisodeStatus::Matched), reason: String::from_str("字幕规则不满足") }
    } else if !has_download_link {
        EpisodeScanStep::Skip { status: None, reason: String::from_str("最佳资源没有下载地址") }
    } else {
        EpisodeScanStep::Download
    }
}

/// The status an episode's record is rewritten with: none when it already has it.
pub fn status_to_save(current: EpisodeStatus, target: EpisodeStatus) -> (r: Option<EpisodeStatus>)
    ensures
        r == if current == target {
            None::<EpisodeStatus>
        } else {
            Some(target)
        },
{
    if current == target {
        None
    } else {
        Some(target)
    }
}


/// Whether an RSS subscription is searched: it is enabled and its address is not blank.
pub fn searchable_subscription(subscription: &AnimeRssSubscription) -> (r: bool)
    ensures
        r == (subscription.enabled && trim(subscription.url@).len() > 0),
{
    subscription.enabled && trim_chars(chars_of(subscription.url.as_str()).as_slice()).len() > 0
}

/// The source an RSS subscription is searched as: an enabled RSS source behind the
/// proxy, one request per 1.5 seconds, with the subscription's address and the tags
/// `anime` and `rss`.
pub fn rss_subscription_source(subscription: &AnimeRssSubscription) -> (r: ReleaseSourceConfig)
    ensures
        r.id@ == "rss-subscription:"@ + subscription.id@,
        r.name == subscription.name,
        r.kind == SourceKind::Rss,
        r.enabled,
        r.use_proxy,
        r.request_interval_ms == 1500,
        r.base_url is None,
        r.api_key is None,
        r.rss_url == Some(subscription.url),
        r.tags@.map_values(|t: String| t@) == seq!["anime"@, "rss"@],
{
    let mut id = chars_of("rss-subscription:");
    crate::text::append_str(&mut id, subscription.id.as_str());
    let tags = vec![String::from_str("anime"), String::from_str("rss")];
    assert(tags@.map_values(|t: String| t@) =~= seq!["anime"@, "rss"@]);
    ReleaseSourceConfig {
        id: string_of(id.as_slice()),
        name: subscription.name.clone(),
        kind: SourceKind::Rss,
        enabled: true,
        use_proxy: true,
        request_interval_ms: 1500,
        base_url: None,
        api_key: None,
        rss_url: Some(subscription.url.clone()),
        tags,
    }
}

/// The subtitle rule an RSS subscription's releases are gated by: the subscription's
/// own languages when it sets any (without a legacy preference), else the series'.
pub fn rss_subtitle_rule(
    subscription_languages: &Vec<String>,
    anime_languages: &Vec<String>,
    anime_legacy: Option<&str>,
) -> (r: (Vec<String>, Option<String>))
    ensures
        subscription_languages@.len() == 0 ==> r.0@ == anime_languages@ && match anime_legacy {
            Some(l) => r.1 matches Some(x) && x@ == l@,
            None => r.1 is None,
        },
        subscription_languages@.len() > 0 ==> r.0@ == subscription_languages@ && r.1 is None,
{
    if subscription_languages.len() == 0 {
        let languages = anime_languages.clone();
        assert(languages@ =~= anime_languages@);
        (languages, match anime_legacy {
            Some(l) => Some(string_of(chars_of(l).as_slice())),
            None => None,
        })
    } else {
        let languages = subscription_languages.clone();
        assert(languages@ =~= subscription_languages@);
        (languages, None)
    }
}

} // verus!
