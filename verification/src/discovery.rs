//! Scheduling of the weekly detail correction of the season catalogue: which
//! sources are still incomplete, which are due today, stable slots and keys, and the
//! per-source state a success or a failure leaves behind.

use vstd::prelude::*;
use crate::domain::{AnimeDetailRefreshState, AnimeSeasonSyncState};
use crate::text::{append_chars, chars_of, chars_eq, decimal, format_decimal, seq_le, str_le, string_of, trim, trim_chars};
use crate::rpc::{JsonValue, json_get, object_get};

verus! {

/// Retry delays, in minutes, after the first, second, third and later failures.
pub open spec fn retry_delays() -> Seq<i64> {
    seq![30, 120, 360, 720]
}

/// The outcome of one correction run.
#[derive(Debug, Clone, Copy, Default, PartialEq, Eq, Structural)]
pub struct AnimeDiscoveryDetailCorrectionResult {
    pub planned_count: usize,
    pub completed_count: usize,
    pub error_count: usize,
}

/// Why a source of a catalogue entry still needs an incremental detail request.
#[derive(Debug, Clone, Copy, PartialEq, Eq, Structural)]
pub enum IncrementalDetailReason {
    Missing,
    ExternalIdChanged,
    Failed,
    Complete,
}

/// `Some(s)` for a string `s`, as a sequence.
pub open spec fn opt_view(o: Option<&str>) -> Option<Seq<char>> {
    match o {
        Some(s) => Some(s@),
        None => None,
    }
}

/// `Some(s)` for an owned string `s`, as a sequence.
pub open spec fn opt_string_view(o: Option<String>) -> Option<Seq<char>> {
    match o {
        Some(s) => Some(s@),
        None => None,
    }
}

fn opt_str_eq(a: Option<&str>, b: &String) -> (r: bool)
    ensures
        r == (opt_view(a) == Some(b@)),
{
    match a {
        None => false,
        Some(s) => {
            let x = chars_of(s);
            let y = chars_of(b.as_str());
            if x.len() != y.len() {
                return false;
            }
            let mut i: usize = 0;
            while i < x.len()
                invariant
                    a == Some(s),
                    x@ == s@,
                    y@ == b@,
                    x@.len() == y@.len(),
                    i <= x@.len(),
                    forall|k: int| 0 <= k < i ==> x@[k] == y@[k],
                decreases x@.len() - i,
            {
                if x[i] != y[i] {
                    assert(x@[i as int] != y@[i as int]);
                    return false;
                }
                i = i + 1;
            }
            assert(x@ =~= y@);
            true
        },
    }
}

/// The reason a stored source state still needs a detail request.
pub open spec fn incremental_reason_spec(
    state: AnimeDetailRefreshState,
    external_id: Option<Seq<char>>,
) -> IncrementalDetailReason {
    if external_id != Some(state.external_id@) {
        IncrementalDetailReason::ExternalIdChanged
    } else if state.last_success_at is None {
        IncrementalDetailReason::Missing
    } else if state.failure_count > 0 {
        IncrementalDetailReason::Failed
    } else {
        IncrementalDetailReason::Complete
    }
}

/// Decides whether a stored source state still needs an incremental detail request.
pub fn incremental_detail_reason(
    state: &AnimeDetailRefreshState,
    external_id: Option<&str>,
) -> (r: IncrementalDetailReason)
    ensures
        r == incremental_reason_spec(*state, opt_view(external_id)),
{
    if !opt_str_eq(external_id, &state.external_id) {
        IncrementalDetailReason::ExternalIdChanged
    } else if state.last_success_at.is_none() {
        IncrementalDetailReason::Missing
    } else if state.failure_count > 0 {
        IncrementalDetailReason::Failed
    } else {
        IncrementalDetailReason::Complete
    }
}

/// The retry time has passed, or none is set.
pub open spec fn retry_open(next_retry_at: Option<String>, now: Seq<char>) -> bool {
    match next_retry_at {
        None => true,
        Some(t) => seq_le(t@, now),
    }
}

/// `x - 1`, saturating at the lower bound.
pub open spec fn saturating_dec(x: i64) -> i64 {
    if x == i64::MIN {
        x
    } else {
        (x - 1) as i64
    }
}

/// Whether a source is due for correction in the current cycle.
pub open spec fn correction_due_spec(
    state: Option<AnimeDetailRefreshState>,
    external_id: Option<Seq<char>>,
    cycle: i64,
    cycle_day: i64,
    now: Seq<char>,
) -> bool {
    match state {
        None => external_id is Some,
        Some(s) => if external_id != Some(s.external_id@) || s.last_success_at is None {
            retry_open(s.next_retry_at, now)
        } else if s.failure_count > 0 {
            retry_open(s.next_retry_at, now)
        } else {
            match s.last_completed_cycle {
                Some(completed) => if completed >= cycle {
                    false
                } else if completed == saturating_dec(cycle) {
                    cycle_day >= s.slot_day
                } else {
                    true
                },
                None => true,
            }
        },
    }
}

fn retry_is_open(next_retry_at: &Option<String>, now: &str) -> (r: bool)
    ensures
        r == retry_open(*next_retry_at, now@),
{
    match next_retry_at {
        None => true,
        Some(t) => str_le(t.as_str(), now),
    }
}

/// Decides whether a source should enter today's correction queue: changed or failed
/// sources once their retry time has come, sources that missed a whole cycle at once,
/// and sources that completed the previous cycle from their slot day on.
pub fn is_detail_correction_due(
    state: Option<&AnimeDetailRefreshState>,
    external_id: Option<&str>,
    cycle: i64,
    cycle_day: i64,
    now: &str,
) -> (r: bool)
    ensures
        r == correction_due_spec(
            match state {
                Some(s) => Some(*s),
                None => None,
            },
            opt_view(external_id),
            cycle,
            cycle_day,
            now@,
        ),
{
    let s = match state {
        None => {
            return external_id.is_some();
        },
        Some(s) => s,
    };
    if !opt_str_eq(external_id, &s.external_id) || s.last_success_at.is_none() {
        return retry_is_open(&s.next_retry_at, now);
    }
    if s.failure_count > 0 {
        return retry_is_open(&s.next_retry_at, now);
    }
    let previous = if cycle == i64::MIN {
        cycle
    } else {
        cycle - 1
    };
    match s.last_completed_cycle {
        Some(completed) => if completed >= cycle {
            false
        } else if completed == previous {
            cycle_day >= s.slot_day
        } else {
            true
        },
        None => true,
    }
}

/// The cycle and the day within it of a day number counted from the first Monday of
/// 1970 (5 January).
pub fn cycle_position_from_days(days: i64) -> (r: (i64, i64))
    ensures
        r.0 == days / 7,
        r.1 == days % 7,
        0 <= r.1 < 7,
        r.0 * 7 + r.1 == days,
{
    let cycle = days.checked_div_euclid(7);
    let day = days.checked_rem_euclid(7);
    assert(days / 7 >= i64::MIN && days / 7 <= i64::MAX) by (nonlinear_arith)
        requires
            i64::MIN <= days <= i64::MAX,
    ;
    match (cycle, day) {
        (Some(c), Some(d)) => (c, d),
        _ => {
            assert(false);
            (0, 0)
        },
    }
}

/// One FNV-1a step over a byte.
pub open spec fn fnv_step(h: u64, b: u8) -> u64 {
    ((h ^ (b as u64)) as u64).wrapping_mul(0x100000001b3)
}

/// FNV-1a over a byte sequence from a given state.
pub open spec fn fnv_from(h: u64, bytes: Seq<u8>) -> u64
    decreases bytes.len(),
{
    if bytes.len() == 0 {
        h
    } else {
        fnv_step(fnv_from(h, bytes.drop_last()), bytes.last())
    }
}

/// The FNV-1a offset basis.
pub open spec fn fnv_basis() -> u64 {
    0xcbf29ce484222325
}

fn fnv_extend(h: u64, bytes: &[u8]) -> (r: u64)
    ensures
        r == fnv_from(h, bytes@),
{
    let mut hash = h;
    let mut i: usize = 0;
    while i < bytes.len()
        invariant
            i <= bytes@.len(),
            hash == fnv_from(h, bytes@.subrange(0, i as int)),
        decreases bytes@.len() - i,
    {
        proof {
            assert(bytes@.subrange(0, i + 1).drop_last() =~= bytes@.subrange(0, i as int));
        }
        hash = (hash ^ (bytes[i] as u64)).wrapping_mul(0x100000001b3);
        i = i + 1;
    }
    assert(bytes@.subrange(0, bytes@.len() as int) =~= bytes@);
    hash
}

/// The bytes hashed for a list of parts: each part's UTF-8 bytes followed by `0xff`.
pub open spec fn hash_input(parts: Seq<Seq<u8>>) -> Seq<u8>
    decreases parts.len(),
{
    if parts.len() == 0 {
        Seq::empty()
    } else {
        hash_input(parts.drop_last()) + parts.last() + seq![0xffu8]
    }
}

/// Proves the FNV state over a concatenation composes.
proof fn lemma_fnv_concat(h: u64, a: Seq<u8>, b: Seq<u8>)
    ensures
        fnv_from(h, a + b) == fnv_from(fnv_from(h, a), b),
    decreases b.len(),
{
    if b.len() == 0 {
        assert(a + b =~= a);
    } else {
        lemma_fnv_concat(h, a, b.drop_last());
        assert((a + b).drop_last() =~= a + b.drop_last());
    }
}

/// A stable 64-bit hash of a list of strings, with no random seed.
pub fn stable_detail_hash(parts: &[&str]) -> (r: u64)
    ensures
        r == fnv_from(fnv_basis(), hash_input(parts@.map_values(|p: &str| vstd::utf8::encode_utf8(p@)))),
{
    let ghost views = parts@.map_values(|p: &str| vstd::utf8::encode_utf8(p@));
    let mut hash: u64 = 0xcbf29ce484222325;
    let mut i: usize = 0;
    while i < parts.len()
        invariant
            i <= parts@.len(),
            views == parts@.map_values(|p: &str| vstd::utf8::encode_utf8(p@)),
            hash == fnv_from(fnv_basis(), hash_input(views.subrange(0, i as int))),
        decreases parts@.len() - i,
    {
        let bytes = parts[i].as_bytes();
        let ghost before = hash_input(views.subrange(0, i as int));
        hash = fnv_extend(hash, bytes);
        let ghost mid = hash;
        hash = (hash ^ 0xffu64).wrapping_mul(0x100000001b3);
        proof {
            assert(hash == fnv_step(mid, 0xffu8));
            assert(fnv_from(mid, seq![0xffu8]) == fnv_step(fnv_from(mid, seq![0xffu8].drop_last()), 0xffu8));
            let next = views.subrange(0, i + 1);
            assert(next.drop_last() =~= views.subrange(0, i as int));
            assert(next.last() == bytes@);
            lemma_fnv_concat(fnv_basis(), before, bytes@);
            lemma_fnv_concat(fnv_basis(), before + bytes@, seq![0xffu8]);
            assert(seq![0xffu8].drop_last() =~= Seq::<u8>::empty());
            assert(hash_input(next) == before + bytes@ + seq![0xffu8]);
        }
        i = i + 1;
    }
    assert(views.subrange(0, parts@.len() as int) =~= views);
    hash
}

/// The weekday slot of a catalogue entry's source: FNV-1a over the entry id and the
/// provider name, modulo seven.
pub open spec fn detail_slot_spec(anime_id: Seq<char>, provider: Seq<char>) -> i64 {
    (fnv_from(fnv_basis(), vstd::utf8::encode_utf8(anime_id) + vstd::utf8::encode_utf8(provider))
        % 7) as i64
}

/// Assigns a catalogue entry's source to one day of the week, stably.
pub fn stable_detail_slot(anime_id: &str, provider: &str) -> (r: i64)
    ensures
        r == detail_slot_spec(anime_id@, provider@),
        0 <= r < 7,
{
    let a = anime_id.as_bytes();
    let p = provider.as_bytes();
    let h1 = fnv_extend(0xcbf29ce484222325, a);
    let h2 = fnv_extend(h1, p);
    proof {
        lemma_fnv_concat(fnv_basis(), a@, p@);
    }
    (h2 % 7) as i64
}

/// The decimal text of a signed integer, as `i64::to_string` writes it.
pub open spec fn signed_decimal(x: i64) -> Seq<char> {
    if x < 0 {
        seq!['-'] + decimal((0 - x) as nat)
    } else {
        decimal(x as nat)
    }
}

/// Writes a signed integer in decimal.
pub fn format_signed(x: i64) -> (r: String)
    ensures
        r@ == signed_decimal(x),
{
    if x < 0 {
        let magnitude: u64 = if x == i64::MIN {
            9223372036854775808u64
        } else {
            (0 - x) as u64
        };
        let digits = format_decimal(magnitude);
        let mut out: Vec<char> = Vec::new();
        out.push('-');
        append_chars(&mut out, digits.as_slice());
        assert(out@ =~= seq!['-'] + decimal((0 - x) as nat));
        string_of(out.as_slice())
    } else {
        let digits = format_decimal(x as u64);
        string_of(digits.as_slice())
    }
}

/// The order key of a correction request: the stable hash of its entry, its first
/// provider (empty when none) and the cycle.
pub open spec fn order_key_spec(anime_id: Seq<char>, first_provider: Option<Seq<char>>, cycle: i64) -> u64 {
    let provider = match first_provider {
        Some(p) => p,
        None => Seq::<char>::empty(),
    };
    let parts: Seq<Seq<u8>> = seq![
        vstd::utf8::encode_utf8(anime_id),
        vstd::utf8::encode_utf8(provider),
        vstd::utf8::encode_utf8(signed_decimal(cycle)),
    ];
    fnv_from(fnv_basis(), hash_input(parts))
}

/// An order key for today's corrections: stable within a cycle, different across cycles.
pub fn correction_order_key(anime_id: &str, first_provider: Option<&str>, cycle: i64) -> (r: u64)
    ensures
        r == order_key_spec(anime_id@, opt_view(first_provider), cycle),
{
    let provider: &str = match first_provider {
        Some(p) => p,
        None => "",
    };
    proof {
        reveal_strlit("");
    }
    let cycle_text = format_signed(cycle);
    let parts: [&str; 3] = [anime_id, provider, cycle_text.as_str()];
    let r = stable_detail_hash(&parts);
    proof {
        let views = parts@.map_values(|p: &str| vstd::utf8::encode_utf8(p@));
        let chosen = match opt_view(first_provider) {
            Some(p) => p,
            None => Seq::<char>::empty(),
        };
        assert(chosen == provider@);
        assert(views =~= seq![
            vstd::utf8::encode_utf8(anime_id@),
            vstd::utf8::encode_utf8(chosen),
            vstd::utf8::encode_utf8(signed_decimal(cycle)),
        ]);
    }
    r
}

/// The three calendar months of a season, or the refusal of an unknown season.
pub open spec fn season_months_spec(season: Seq<char>) -> Option<Seq<i64>> {
    if season == "winter"@ {
        Some(seq![1, 2, 3])
    } else if season == "spring"@ {
        Some(seq![4, 5, 6])
    } else if season == "summer"@ {
        Some(seq![7, 8, 9])
    } else if season == "fall"@ {
        Some(seq![10, 11, 12])
    } else {
        None
    }
}

/// Returns the three calendar months of a season.
pub fn months_for_season(season: &str) -> (r: Result<[i64; 3], String>)
    ensures
        match r {
            Ok(months) => season_months_spec(season@) == Some(months@),
            Err(_) => season_months_spec(season@) is None,
        },
{
    let s = chars_of(season);
    if crate::text::eq_str(s.as_slice(), "winter") {
        Ok([1, 2, 3])
    } else if crate::text::eq_str(s.as_slice(), "spring") {
        Ok([4, 5, 6])
    } else if crate::text::eq_str(s.as_slice(), "summer") {
        Ok([7, 8, 9])
    } else if crate::text::eq_str(s.as_slice(), "fall") {
        Ok([10, 11, 12])
    } else {
        let mut message = chars_of("季度无效：");
        append_chars(&mut message, s.as_slice());
        Err(string_of(message.as_slice()))
    }
}

/// The retry delay, in minutes, after a failure count has been raised to `failures`.
pub open spec fn retry_delay_spec(failures: i64) -> i64 {
    let index: int = if saturating_dec(failures) < 0 {
        3
    } else if saturating_dec(failures) > 3 {
        3
    } else {
        saturating_dec(failures) as int
    };
    retry_delays()[index]
}

/// Looks up the retry delay for a failure count.
pub fn detail_retry_delay_minutes(failures: i64) -> (r: i64)
    ensures
        r == retry_delay_spec(failures),
{
    let previous = if failures == i64::MIN {
        failures
    } else {
        failures - 1
    };
    let index: usize = if previous < 0 || previous > 3 {
        3
    } else {
        previous as usize
    };
    let delays: [i64; 4] = [30, 120, 360, 720];
    assert(delays@ =~= retry_delays());
    delays[index]
}


/// The text `chrono` writes for a UTC time given in milliseconds since the Unix
/// epoch: `DateTime::from_timestamp_millis`, then `to_rfc3339_opts` with milliseconds
/// and `Z`.
pub uninterp spec fn rfc3339_millis(ms: i64) -> Seq<char>;

/// The first and last milliseconds of the years 1 to 9999, which `chrono` represents.
pub open spec fn timestamp_in_range(ms: int) -> bool {
    -62_135_596_800_000 <= ms <= 253_402_300_799_999
}

/// `chrono::DateTime::from_timestamp_millis` and `to_rfc3339_opts(SecondsFormat::Millis,
/// true)`. The contract claims only that the text is the one `rfc3339_millis` names;
/// within the years 1 to 9999 the time exists, so the fallback text is not reached.
#[verifier::external_body]
fn iso_from_millis(ms: i64) -> (r: String)
    requires
        timestamp_in_range(ms as int),
    ensures
        r@ == rfc3339_millis(ms),
{
    match chrono::DateTime::from_timestamp_millis(ms) {
        Some(time) => time.to_rfc3339_opts(chrono::SecondsFormat::Millis, true),
        None => String::new(),
    }
}

/// The correction cycle a UTC time falls in: whole weeks from Monday 5 January 1970.
pub open spec fn cycle_of_millis(now_ms: i64) -> int {
    (now_ms as int / 86_400_000 - 4) / 7
}

/// The cycle a UTC time falls in.
pub fn detail_cycle_of(now_ms: i64) -> (r: i64)
    ensures
        r == cycle_of_millis(now_ms),
{
    let day = now_ms.checked_div_euclid(86_400_000);
    match day {
        Some(d) => {
            let (cycle, _) = cycle_position_from_days(d - 4);
            cycle
        },
        None => {
            assert(false);
            0
        },
    }
}

/// The state of a source that has never completed a detail refresh.
pub open spec fn empty_state_spec(anime_id: Seq<char>, provider: Seq<char>, external_id: Seq<char>, s: AnimeDetailRefreshState) -> bool {
    &&& s.anime_id@ == anime_id
    &&& s.provider@ == provider
    &&& s.external_id@ == external_id
    &&& s.slot_day == detail_slot_spec(anime_id, provider)
    &&& s.last_completed_cycle is None
    &&& s.last_attempt_at is None
    &&& s.last_success_at is None
    &&& s.failure_count == 0
    &&& s.next_retry_at is None
}

/// Creates the state of a source that has never completed a detail refresh.
pub fn empty_detail_refresh_state(anime_id: &str, provider: &str, external_id: &str) -> (r: AnimeDetailRefreshState)
    ensures
        empty_state_spec(anime_id@, provider@, external_id@, r),
{
    AnimeDetailRefreshState {
        anime_id: String::from_str(anime_id),
        provider: String::from_str(provider),
        external_id: String::from_str(external_id),
        slot_day: stable_detail_slot(anime_id, provider),
        last_completed_cycle: None,
        last_attempt_at: None,
        last_success_at: None,
        failure_count: 0,
        next_retry_at: None,
    }
}

/// The state a successful detail refresh leaves: this cycle completed now, no
/// failures and no retry pending.
pub fn updated_detail_success_state(existing: Option<AnimeDetailRefreshState>, anime_id: &str, provider: &str, external_id: &str, now_ms: i64) -> (r: AnimeDetailRefreshState)
    requires
        timestamp_in_range(now_ms as int),
    ensures
        r.anime_id@ == anime_id@,
        r.provider@ == provider@,
        r.external_id@ == external_id@,
        r.slot_day == detail_slot_spec(anime_id@, provider@),
        r.last_completed_cycle == Some(cycle_of_millis(now_ms) as i64),
        r.last_attempt_at matches Some(t) && t@ == rfc3339_millis(now_ms),
        r.last_success_at matches Some(t) && t@ == rfc3339_millis(now_ms),
        r.failure_count == 0,
        r.next_retry_at is None,
{
    let cycle = detail_cycle_of(now_ms);
    let state = match existing {
        Some(s) => s,
        None => empty_detail_refresh_state(anime_id, provider, external_id),
    };
    AnimeDetailRefreshState {
        anime_id: String::from_str(anime_id),
        provider: String::from_str(provider),
        external_id: String::from_str(external_id),
        slot_day: stable_detail_slot(anime_id, provider),
        last_completed_cycle: Some(cycle),
        last_attempt_at: Some(iso_from_millis(now_ms)),
        last_success_at: Some(iso_from_millis(now_ms)),
        failure_count: 0,
        next_retry_at: None,
        ..state
    }
}

/// The failure count after one more failure, saturating.
pub open spec fn next_failure_count(count: i64) -> i64 {
    if count == i64::MAX {
        i64::MAX
    } else {
        (count + 1) as i64
    }
}

/// The state a failed detail refresh leaves: one more failure, and a retry after the
/// delay for that many failures. The entry and provider names and the last success
/// are kept.
pub fn updated_detail_failure_state(existing: Option<AnimeDetailRefreshState>, anime_id: &str, provider: &str, external_id: &str, now_ms: i64) -> (r: AnimeDetailRefreshState)
    requires
        timestamp_in_range(now_ms as int),
        timestamp_in_range(now_ms + 720 * 60_000),
    ensures
        match existing {
            Some(s) => r.anime_id == s.anime_id && r.provider == s.provider && r.last_completed_cycle == s.last_completed_cycle
                && r.last_success_at == s.last_success_at && r.failure_count == next_failure_count(s.failure_count),
            None => r.anime_id@ == anime_id@ && r.provider@ == provider@ && r.last_completed_cycle is None && r.last_success_at is None
                && r.failure_count == 1,
        },
        r.external_id@ == external_id@,
        r.slot_day == detail_slot_spec(anime_id@, provider@),
        r.last_attempt_at matches Some(t) && t@ == rfc3339_millis(now_ms),
        r.next_retry_at matches Some(t) && t@ == rfc3339_millis((now_ms + retry_delay_spec(r.failure_count) * 60_000) as i64),
{
    let state = match existing {
        Some(s) => s,
        None => empty_detail_refresh_state(anime_id, provider, external_id),
    };
    let failures = if state.failure_count == i64::MAX {
        i64::MAX
    } else {
        state.failure_count + 1
    };
    let delay = detail_retry_delay_minutes(failures);
    proof {
        assert(retry_delays()[0] == 30 && retry_delays()[1] == 120 && retry_delays()[2] == 360 && retry_delays()[3] == 720);
    }
    let retry_ms = now_ms + delay * 60_000;
    AnimeDetailRefreshState {
        external_id: String::from_str(external_id),
        slot_day: stable_detail_slot(anime_id, provider),
        last_attempt_at: Some(iso_from_millis(now_ms)),
        failure_count: failures,
        next_retry_at: Some(iso_from_millis(retry_ms)),
        ..state
    }
}


/// Once a source has failed, retrying waits no shorter after more failures.
pub proof fn lemma_retry_delay_monotone(fewer: i64, more: i64)
    requires
        1 <= fewer <= more,
    ensures
        retry_delay_spec(fewer) <= retry_delay_spec(more),
{
}


/// A detail request of the season catalogue before the incremental filter: the
/// entry, its external identifiers by provider, and the providers to ask.
#[derive(Debug)]
pub struct DetailRequestInput {
    pub anime_id: String,
    pub external_ids: JsonValue,
    pub providers: Vec<String>,
}

/// A detail request that stays in the plan, with the providers still to ask.
#[derive(Debug, Clone, PartialEq, Eq)]
pub struct PlannedDetailRequest {
    pub anime_id: String,
    pub providers: Vec<String>,
}

/// A detail plan: the requests to send, how many sources were already complete,
/// and whether every source is asked again.
#[derive(Debug, Clone, PartialEq, Eq)]
pub struct DetailPlan {
    pub requests: Vec<PlannedDetailRequest>,
    pub skipped_count: usize,
    pub full_refresh: bool,
}

/// The external identifier an entry holds for a provider: its text, trimmed, when
/// it is not empty.
pub open spec fn detail_external_id_spec(external_ids: JsonValue, provider: Seq<char>) -> Option<Seq<char>> {
    match json_get(external_ids, provider) {
        Some(JsonValue::String(t)) => if trim(t@).len() > 0 {
            Some(trim(t@))
        } else {
            None
        },
        _ => None,
    }
}

/// Reads the external identifier an entry holds for a provider.
pub fn detail_external_id(external_ids: &JsonValue, provider: &str) -> (r: Option<String>)
    ensures
        match r {
            Some(t) => detail_external_id_spec(*external_ids, provider@) == Some(t@),
            None => detail_external_id_spec(*external_ids, provider@) is None,
        },
{
    match object_get(external_ids, provider) {
        Some(JsonValue::String(t)) => {
            let v = trim_chars(chars_of(t.as_str()).as_slice());
            if v.len() > 0 {
                Some(string_of(v.as_slice()))
            } else {
                None
            }
        },
        _ => None,
    }
}

/// The state stored for an entry and provider: the last one listed with that key,
/// as a map built from the list keeps it.
pub open spec fn stored_state(states: Seq<AnimeDetailRefreshState>, anime_id: Seq<char>, provider: Seq<char>) -> Option<AnimeDetailRefreshState>
    decreases states.len(),
{
    if states.len() == 0 {
        None
    } else if states.last().anime_id@ == anime_id && states.last().provider@ == provider {
        Some(states.last())
    } else {
        stored_state(states.drop_last(), anime_id, provider)
    }
}

/// Whether a provider of an entry stays in the plan: always on a full refresh, else
/// when no state is stored or the stored one is not complete.
pub open spec fn provider_kept(
    states: Seq<AnimeDetailRefreshState>,
    anime_id: Seq<char>,
    external_ids: JsonValue,
    provider: Seq<char>,
    full_refresh: bool,
) -> bool {
    full_refresh || match stored_state(states, anime_id, provider) {
        None => true,
        Some(s) => incremental_reason_spec(s, detail_external_id_spec(external_ids, provider))
            != IncrementalDetailReason::Complete,
    }
}

/// The providers of a request that stay in the plan, in order.
pub open spec fn kept_providers(
    states: Seq<AnimeDetailRefreshState>,
    anime_id: Seq<char>,
    external_ids: JsonValue,
    providers: Seq<Seq<char>>,
    full_refresh: bool,
) -> Seq<Seq<char>>
    decreases providers.len(),
{
    if providers.len() == 0 {
        Seq::empty()
    } else {
        let rest = kept_providers(states, anime_id, external_ids, providers.drop_last(), full_refresh);
        if provider_kept(states, anime_id, external_ids, providers.last(), full_refresh) {
            rest.push(providers.last())
        } else {
            rest
        }
    }
}

/// The planned requests, each as its entry and kept providers, and the number of
/// sources skipped as complete: requests left with no provider are dropped.
pub open spec fn detail_plan_spec(
    states: Seq<AnimeDetailRefreshState>,
    requests: Seq<DetailRequestInput>,
    full_refresh: bool,
) -> (Seq<(Seq<char>, Seq<Seq<char>>)>, int)
    decreases requests.len(),
{
    if requests.len() == 0 {
        (Seq::empty(), 0)
    } else {
        let (planned, skipped) = detail_plan_spec(states, requests.drop_last(), full_refresh);
        let r = requests.last();
        let providers = r.providers@.map_values(|p: String| p@);
        let kept = kept_providers(states, r.anime_id@, r.external_ids, providers, full_refresh);
        let skipped_here = providers.len() - kept.len();
        if kept.len() > 0 {
            (planned.push((r.anime_id@, kept)), skipped + skipped_here)
        } else {
            (planned, skipped + skipped_here)
        }
    }
}

proof fn lemma_kept_providers_len(
    states: Seq<AnimeDetailRefreshState>,
    anime_id: Seq<char>,
    external_ids: JsonValue,
    providers: Seq<Seq<char>>,
    full_refresh: bool,
)
    ensures
        kept_providers(states, anime_id, external_ids, providers, full_refresh).len() <= providers.len(),
        full_refresh ==> kept_providers(states, anime_id, external_ids, providers, full_refresh) == providers,
    decreases providers.len(),
{
    if providers.len() > 0 {
        lemma_kept_providers_len(states, anime_id, external_ids, providers.drop_last(), full_refresh);
        if full_refresh {
            assert(providers.drop_last().push(providers.last()) =~= providers);
        }
    }
}

proof fn lemma_detail_plan_skipped_bound(
    states: Seq<AnimeDetailRefreshState>,
    requests: Seq<DetailRequestInput>,
    full_refresh: bool,
)
    ensures
        0 <= detail_plan_spec(states, requests, full_refresh).1,
        detail_plan_spec(states, requests, full_refresh).0.len() <= requests.len(),
    decreases requests.len(),
{
    if requests.len() > 0 {
        lemma_detail_plan_skipped_bound(states, requests.drop_last(), full_refresh);
        let r = requests.last();
        lemma_kept_providers_len(states, r.anime_id@, r.external_ids, r.providers@.map_values(|p: String| p@), full_refresh);
    }
}

fn find_stored_state<'a>(states: &'a Vec<AnimeDetailRefreshState>, anime_id: &str, provider: &str) -> (r: Option<&'a AnimeDetailRefreshState>)
    ensures
        match r {
            Some(s) => stored_state(states@, anime_id@, provider@) == Some(*s),
            None => stored_state(states@, anime_id@, provider@) is None,
        },
{
    let a = chars_of(anime_id);
    let p = chars_of(provider);
    let mut i: usize = states.len();
    assert(states@.subrange(0, states@.len() as int) =~= states@);
    while i > 0
        invariant
            i <= states@.len(),
            a@ == anime_id@,
            p@ == provider@,
            stored_state(states@, anime_id@, provider@) == stored_state(states@.subrange(0, i as int), anime_id@, provider@),
        decreases i,
    {
        let ghost prefix = states@.subrange(0, i as int);
        assert(prefix.drop_last() =~= states@.subrange(0, i - 1));
        let s = &states[i - 1];
        if chars_eq(chars_of(s.anime_id.as_str()).as_slice(), a.as_slice())
            && chars_eq(chars_of(s.provider.as_str()).as_slice(), p.as_slice()) {
            return Some(s);
        }
        i = i - 1;
    }
    None
}

/// The number of providers over all requests.
pub open spec fn total_providers(requests: Seq<DetailRequestInput>) -> int
    decreases requests.len(),
{
    if requests.len() == 0 {
        0
    } else {
        total_providers(requests.drop_last()) + requests.last().providers@.len()
    }
}

fn kept_providers_of(
    request: &DetailRequestInput,
    states: &Vec<AnimeDetailRefreshState>,
    full_refresh: bool,
) -> (r: Vec<String>)
    ensures
        r@.map_values(|p: String| p@) == kept_providers(
            states@,
            request.anime_id@,
            request.external_ids,
            request.providers@.map_values(|p: String| p@),
            full_refresh,
        ),
{
    let ghost providers = request.providers@.map_values(|p: String| p@);
    let mut kept: Vec<String> = Vec::new();
    let mut j: usize = 0;
    while j < request.providers.len()
        invariant
            j <= request.providers@.len(),
            providers == request.providers@.map_values(|p: String| p@),
            kept@.map_values(|p: String| p@) == kept_providers(
                states@,
                request.anime_id@,
                request.external_ids,
                providers.subrange(0, j as int),
                full_refresh,
            ),
        decreases request.providers@.len() - j,
    {
        let provider = &request.providers[j];
        assert(providers.subrange(0, j + 1).drop_last() =~= providers.subrange(0, j as int));
        assert(providers.subrange(0, j + 1).last() == provider@);
        let keep = if full_refresh {
            true
        } else {
            match find_stored_state(states, request.anime_id.as_str(), provider.as_str()) {
                None => true,
                Some(state) => {
                    let external_id = detail_external_id(&request.external_ids, provider.as_str());
                    let reason = match &external_id {
                        Some(t) => incremental_detail_reason(state, Some(t.as_str())),
                        None => incremental_detail_reason(state, None),
                    };
                    !matches!(reason, IncrementalDetailReason::Complete)
                },
            }
        };
        if keep {
            let ghost before = kept@;
            kept.push(provider.clone());
            assert(kept@.map_values(|p: String| p@) =~= before.map_values(|p: String| p@).push(provider@));
        }
        j = j + 1;
    }
    assert(providers.subrange(0, request.providers@.len() as int) =~= providers);
    kept
}

/// Builds the full or incremental detail plan of a season catalogue from the stored
/// per-source states: on an incremental run a source whose state is complete for the
/// same external identifier is skipped and counted; a request left without sources
/// is dropped.
pub fn build_detail_plan(
    requests: &Vec<DetailRequestInput>,
    states: &Vec<AnimeDetailRefreshState>,
    full_refresh: bool,
) -> (r: DetailPlan)
    requires
        total_providers(requests@) <= usize::MAX,
    ensures
        r.requests@.map_values(|q: PlannedDetailRequest| (q.anime_id@, q.providers@.map_values(|p: String| p@)))
            == detail_plan_spec(states@, requests@, full_refresh).0,
        r.skipped_count == detail_plan_spec(states@, requests@, full_refresh).1,
        r.full_refresh == full_refresh,
{
    let mut planned: Vec<PlannedDetailRequest> = Vec::new();
    let mut skipped: usize = 0;
    let mut i: usize = 0;
    proof {
        lemma_total_providers_prefix(requests@, 0);
    }
    while i < requests.len()
        invariant
            i <= requests@.len(),
            total_providers(requests@) <= usize::MAX,
            planned@.map_values(|q: PlannedDetailRequest| (q.anime_id@, q.providers@.map_values(|p: String| p@)))
                == detail_plan_spec(states@, requests@.subrange(0, i as int), full_refresh).0,
            skipped == detail_plan_spec(states@, requests@.subrange(0, i as int), full_refresh).1,
            skipped <= total_providers(requests@.subrange(0, i as int)),
        decreases requests@.len() - i,
    {
        let request = &requests[i];
        let ghost prefix = requests@.subrange(0, i + 1);
        proof {
            assert(prefix.drop_last() =~= requests@.subrange(0, i as int));
            assert(prefix.last() == *request);
            lemma_total_providers_prefix(requests@, i + 1);
            lemma_kept_providers_len(
                states@,
                request.anime_id@,
                request.external_ids,
                request.providers@.map_values(|p: String| p@),
                full_refresh,
            );
        }
        let kept = kept_providers_of(request, states, full_refresh);
        assert(kept@.len() == kept@.map_values(|p: String| p@).len());
        let skipped_here = request.providers.len() - kept.len();
        skipped = skipped + skipped_here;
        if kept.len() > 0 {
            let ghost before = planned@;
            planned.push(PlannedDetailRequest { anime_id: request.anime_id.clone(), providers: kept });
            assert(planned@.map_values(|q: PlannedDetailRequest| (q.anime_id@, q.providers@.map_values(|p: String| p@)))
                =~= before.map_values(|q: PlannedDetailRequest| (q.anime_id@, q.providers@.map_values(|p: String| p@))).push(
                (request.anime_id@, kept_providers(states@, request.anime_id@, request.external_ids, request.providers@.map_values(|p: String| p@), full_refresh))));
        }
        i = i + 1;
    }
    assert(requests@.subrange(0, requests@.len() as int) =~= requests@);
    DetailPlan { requests: planned, skipped_count: skipped, full_refresh }
}

proof fn lemma_total_providers_prefix(requests: Seq<DetailRequestInput>, i: int)
    requires
        0 <= i <= requests.len(),
    ensures
        0 <= total_providers(requests.subrange(0, i)) <= total_providers(requests),
    decreases requests.len() - i,
{
    if i < requests.len() {
        lemma_total_providers_prefix(requests, i + 1);
        assert(requests.subrange(0, i + 1).drop_last() =~= requests.subrange(0, i));
    } else {
        assert(requests.subrange(0, i) =~= requests);
    }
    lemma_total_providers_nonneg(requests.subrange(0, i));
}

proof fn lemma_total_providers_nonneg(requests: Seq<DetailRequestInput>)
    ensures
        total_providers(requests) >= 0,
    decreases requests.len(),
{
    if requests.len() > 0 {
        lemma_total_providers_nonneg(requests.drop_last());
    }
}


/// The providers of a request, as texts.
pub open spec fn provider_views(r: DetailRequestInput) -> Seq<Seq<char>> {
    r.providers@.map_values(|p: String| p@)
}

/// On a full refresh nothing is skipped, and every request that names a provider is
/// planned with all of its providers.
pub proof fn lemma_full_refresh_plans_every_source(
    states: Seq<AnimeDetailRefreshState>,
    requests: Seq<DetailRequestInput>,
)
    ensures
        detail_plan_spec(states, requests, true).1 == 0,
        detail_plan_spec(states, requests, true).0 == requests.filter(|r: DetailRequestInput| provider_views(r).len() > 0).map_values(
            |r: DetailRequestInput| (r.anime_id@, provider_views(r)),
        ),
    decreases requests.len(),
{
    if requests.len() > 0 {
        lemma_full_refresh_plans_every_source(states, requests.drop_last());
        let r = requests.last();
        lemma_kept_providers_len(states, r.anime_id@, r.external_ids, provider_views(r), true);
        assert(requests.drop_last().push(r) =~= requests);
        requests.drop_last().lemma_filter_push(r, |r: DetailRequestInput| provider_views(r).len() > 0);
    }
}

/// Whether every source of every request has a complete state for the external
/// identifier the entry still holds.
pub open spec fn all_sources_complete(states: Seq<AnimeDetailRefreshState>, requests: Seq<DetailRequestInput>) -> bool {
    forall|i: int, j: int|
        0 <= i < requests.len() && 0 <= j < provider_views(requests[i]).len() ==> {
            let p = #[trigger] provider_views(requests[i])[j];
            stored_state(states, requests[i].anime_id@, p) matches Some(s) && incremental_reason_spec(
                s,
                detail_external_id_spec(requests[i].external_ids, p),
            ) == IncrementalDetailReason::Complete
        }
}

proof fn lemma_complete_sources_kept_none(
    states: Seq<AnimeDetailRefreshState>,
    anime_id: Seq<char>,
    external_ids: JsonValue,
    providers: Seq<Seq<char>>,
)
    requires
        forall|j: int| 0 <= j < providers.len() ==> !provider_kept(states, anime_id, external_ids, #[trigger] providers[j], false),
    ensures
        kept_providers(states, anime_id, external_ids, providers, false).len() == 0,
    decreases providers.len(),
{
    if providers.len() > 0 {
        assert(!provider_kept(states, anime_id, external_ids, providers[providers.len() - 1], false));
        lemma_complete_sources_kept_none(states, anime_id, external_ids, providers.drop_last());
    }
}

/// An incremental run over entries whose every source is complete for an unchanged
/// identifier plans no request and counts every source as skipped.
pub proof fn lemma_incremental_run_skips_complete_sources(
    states: Seq<AnimeDetailRefreshState>,
    requests: Seq<DetailRequestInput>,
)
    requires
        all_sources_complete(states, requests),
    ensures
        detail_plan_spec(states, requests, false).0.len() == 0,
        detail_plan_spec(states, requests, false).1 == total_providers(requests),
    decreases requests.len(),
{
    if requests.len() > 0 {
        let last = requests.len() - 1;
        let r = requests[last];
        assert(all_sources_complete(states, requests.drop_last())) by {
            assert forall|i: int, j: int|
                0 <= i < requests.drop_last().len() && 0 <= j < provider_views(requests.drop_last()[i]).len() implies {
                    let p = #[trigger] provider_views(requests.drop_last()[i])[j];
                    stored_state(states, requests.drop_last()[i].anime_id@, p) matches Some(s) && incremental_reason_spec(
                        s,
                        detail_external_id_spec(requests.drop_last()[i].external_ids, p),
                    ) == IncrementalDetailReason::Complete
                } by {
                assert(requests.drop_last()[i] == requests[i]);
                assert(provider_views(requests[i])[j] == provider_views(requests[i])[j]);
            }
        }
        lemma_incremental_run_skips_complete_sources(states, requests.drop_last());
        assert forall|j: int| 0 <= j < provider_views(r).len() implies !provider_kept(states, r.anime_id@, r.external_ids, #[trigger] provider_views(r)[j], false) by {
            assert(provider_views(requests[last])[j] == provider_views(r)[j]);
        }
        lemma_complete_sources_kept_none(states, r.anime_id@, r.external_ids, provider_views(r));
    }
}


/// The season's sync state as an attempt starts: a fresh state when none is stored,
/// with the attempt time recorded.
pub fn season_state_at_attempt(stored: Option<AnimeSeasonSyncState>, year: i64, season: &str, attempt_at: &str) -> (r: AnimeSeasonSyncState)
    ensures
        match stored {
            Some(s) => r.year == s.year && r.season == s.season && r.last_successful_sync_at == s.last_successful_sync_at
                && r.completed_at == s.completed_at && r.last_anilist_error == s.last_anilist_error,
            None => r.year == year && r.season@ == season@ && r.last_successful_sync_at is None && r.completed_at is None
                && r.last_anilist_error is None,
        },
        r.last_attempt_at matches Some(t) && t@ == attempt_at@,
{
    let mut state = match stored {
        Some(s) => s,
        None => AnimeSeasonSyncState {
            year,
            season: string_of(chars_of(season).as_slice()),
            last_attempt_at: None,
            last_successful_sync_at: None,
            completed_at: None,
            last_anilist_error: None,
        },
    };
    state.last_attempt_at = Some(string_of(chars_of(attempt_at).as_slice()));
    state
}

/// Whether a text starts with another.
pub open spec fn text_starts_with(s: Seq<char>, p: Seq<char>) -> bool {
    p.len() <= s.len() && s.subrange(0, p.len() as int) == p
}

/// The first collection error of AniList, if any.
pub open spec fn first_anilist_error(errors: Seq<String>) -> Option<Seq<char>>
    decreases errors.len(),
{
    if errors.len() == 0 {
        None
    } else if text_starts_with(errors[0]@, "anilist:"@) {
        Some(errors[0]@)
    } else {
        first_anilist_error(errors.subrange(1, errors.len() as int))
    }
}

fn find_anilist_error(errors: &Vec<String>) -> (r: Option<String>)
    ensures
        match r {
            Some(e) => first_anilist_error(errors@) == Some(e@),
            None => first_anilist_error(errors@) is None,
        },
{
    let prefix = chars_of("anilist:");
    let mut i: usize = 0;
    assert(errors@.subrange(0, errors@.len() as int) =~= errors@);
    while i < errors.len()
        invariant
            i <= errors@.len(),
            prefix@ == "anilist:"@,
            first_anilist_error(errors@.subrange(i as int, errors@.len() as int)) == first_anilist_error(errors@),
        decreases errors@.len() - i,
    {
        let ghost rest = errors@.subrange(i as int, errors@.len() as int);
        assert(rest[0] == errors@[i as int]);
        let e = chars_of(errors[i].as_str());
        if crate::text::starts_with(e.as_slice(), prefix.as_slice()) {
            assert(text_starts_with(errors@[i as int]@, "anilist:"@));
            return Some(errors[i].clone());
        }
        assert(rest.subrange(1, rest.len() as int) =~= errors@.subrange(i + 1, errors@.len() as int));
        i = i + 1;
    }
    None
}

fn names_anilist(sources: &Vec<String>) -> (r: bool)
    ensures
        r == sources@.map_values(|s: String| s@).contains("anilist"@),
{
    let ghost views = sources@.map_values(|s: String| s@);
    let key = chars_of("anilist");
    let mut i: usize = 0;
    while i < sources.len()
        invariant
            i <= sources@.len(),
            views == sources@.map_values(|s: String| s@),
            key@ == "anilist"@,
            forall|k: int| 0 <= k < i ==> views[k] != "anilist"@,
        decreases sources@.len() - i,
    {
        assert(views[i as int] == sources@[i as int]@);
        if chars_eq(chars_of(sources[i].as_str()).as_slice(), key.as_slice()) {
            assert(views[i as int] == "anilist"@);
            return true;
        }
        i = i + 1;
    }
    false
}

/// The season's sync state after a collection: an AniList success marks the season
/// synced at the attempt time (completed the first time) and clears the AniList
/// error; otherwise the AniList error is its first reported one, or a default one.
pub fn season_state_after_collect(
    state: AnimeSeasonSyncState,
    attempt_at: &str,
    successful_sources: &Vec<String>,
    errors: &Vec<String>,
) -> (r: AnimeSeasonSyncState)
    ensures
        r.year == state.year,
        r.season == state.season,
        r.last_attempt_at == state.last_attempt_at,
        if successful_sources@.map_values(|s: String| s@).contains("anilist"@) {
            &&& r.last_successful_sync_at matches Some(t) && t@ == attempt_at@
            &&& match state.completed_at {
                Some(c) => r.completed_at == Some(c),
                None => r.completed_at matches Some(t) && t@ == attempt_at@,
            }
            &&& r.last_anilist_error is None
        } else {
            &&& r.last_successful_sync_at == state.last_successful_sync_at
            &&& r.completed_at == state.completed_at
            &&& r.last_anilist_error matches Some(e) && e@ == match first_anilist_error(errors@) {
                Some(f) => f,
                None => "anilist: 未返回新番数据"@,
            }
        },
{
    let mut next = state;
    if names_anilist(successful_sources) {
        next.last_successful_sync_at = Some(string_of(chars_of(attempt_at).as_slice()));
        if next.completed_at.is_none() {
            next.completed_at = Some(string_of(chars_of(attempt_at).as_slice()));
        }
        next.last_anilist_error = None;
    } else {
        next.last_anilist_error = match find_anilist_error(errors) {
            Some(e) => Some(e),
            None => Some(String::from_str("anilist: 未返回新番数据")),
        };
    }
    next
}

/// Whether a catalogue entry belongs to the synced season: its premiere year and month,
/// and no adult content.
pub fn in_season(premiere_year: i64, premiere_month: i64, year: i64, months: &[i64; 3], restricted: bool) -> (r: bool)
    ensures
        r == (premiere_year == year && months@.contains(premiere_month) && !restricted),
{
    let month_in = months[0] == premiere_month || months[1] == premiere_month || months[2] == premiere_month;
    proof {
        if month_in {
            if months[0] == premiere_month {
                assert(months@[0] == premiere_month);
            } else if months[1] == premiere_month {
                assert(months@[1] == premiere_month);
            } else {
                assert(months@[2] == premiere_month);
            }
        }
    }
    premiere_year == year && month_in && !restricted
}


/// The providers of a request due for correction today, in order.
pub open spec fn due_providers(
    states: Seq<AnimeDetailRefreshState>,
    anime_id: Seq<char>,
    external_ids: JsonValue,
    providers: Seq<Seq<char>>,
    cycle: i64,
    cycle_day: i64,
    now: Seq<char>,
) -> Seq<Seq<char>>
    decreases providers.len(),
{
    if providers.len() == 0 {
        Seq::empty()
    } else {
        let rest = due_providers(states, anime_id, external_ids, providers.drop_last(), cycle, cycle_day, now);
        let p = providers.last();
        if correction_due_spec(stored_state(states, anime_id, p), detail_external_id_spec(external_ids, p), cycle, cycle_day, now) {
            rest.push(p)
        } else {
            rest
        }
    }
}

/// Today's correction requests before ordering: each request with its due providers,
/// requests left with none dropped.
pub open spec fn due_requests_spec(
    states: Seq<AnimeDetailRefreshState>,
    requests: Seq<DetailRequestInput>,
    cycle: i64,
    cycle_day: i64,
    now: Seq<char>,
) -> Seq<(Seq<char>, Seq<Seq<char>>)>
    decreases requests.len(),
{
    if requests.len() == 0 {
        Seq::empty()
    } else {
        let rest = due_requests_spec(states, requests.drop_last(), cycle, cycle_day, now);
        let r = requests.last();
        let due = due_providers(states, r.anime_id@, r.external_ids, provider_views(r), cycle, cycle_day, now);
        if due.len() > 0 {
            rest.push((r.anime_id@, due))
        } else {
            rest
        }
    }
}

fn due_providers_of(
    request: &DetailRequestInput,
    states: &Vec<AnimeDetailRefreshState>,
    cycle: i64,
    cycle_day: i64,
    now: &str,
) -> (r: Vec<String>)
    ensures
        r@.map_values(|p: String| p@) == due_providers(
            states@,
            request.anime_id@,
            request.external_ids,
            provider_views(*request),
            cycle,
            cycle_day,
            now@,
        ),
{
    let ghost providers = provider_views(*request);
    let mut kept: Vec<String> = Vec::new();
    let mut j: usize = 0;
    while j < request.providers.len()
        invariant
            j <= request.providers@.len(),
            providers == provider_views(*request),
            kept@.map_values(|p: String| p@) == due_providers(
                states@,
                request.anime_id@,
                request.external_ids,
                providers.subrange(0, j as int),
                cycle,
                cycle_day,
                now@,
            ),
        decreases request.providers@.len() - j,
    {
        let provider = &request.providers[j];
        assert(providers.subrange(0, j + 1).drop_last() =~= providers.subrange(0, j as int));
        assert(providers.subrange(0, j + 1).last() == provider@);
        let state = find_stored_state(states, request.anime_id.as_str(), provider.as_str());
        let external_id = detail_external_id(&request.external_ids, provider.as_str());
        let due = match &external_id {
            Some(t) => is_detail_correction_due(state, Some(t.as_str()), cycle, cycle_day, now),
            None => is_detail_correction_due(state, None, cycle, cycle_day, now),
        };
        if due {
            let ghost before = kept@;
            kept.push(provider.clone());
            assert(kept@.map_values(|p: String| p@) =~= before.map_values(|p: String| p@).push(provider@));
        }
        j = j + 1;
    }
    assert(providers.subrange(0, request.providers@.len() as int) =~= providers);
    kept
}

/// The requests of today's detail correction, before ordering: the sources that are
/// due by `is_detail_correction_due`, requests without any dropped.
pub fn due_detail_requests(
    requests: &Vec<DetailRequestInput>,
    states: &Vec<AnimeDetailRefreshState>,
    cycle: i64,
    cycle_day: i64,
    now: &str,
) -> (r: Vec<PlannedDetailRequest>)
    ensures
        r@.map_values(|q: PlannedDetailRequest| (q.anime_id@, q.providers@.map_values(|p: String| p@)))
            == due_requests_spec(states@, requests@, cycle, cycle_day, now@),
{
    let mut planned: Vec<PlannedDetailRequest> = Vec::new();
    let mut i: usize = 0;
    while i < requests.len()
        invariant
            i <= requests@.len(),
            planned@.map_values(|q: PlannedDetailRequest| (q.anime_id@, q.providers@.map_values(|p: String| p@)))
                == due_requests_spec(states@, requests@.subrange(0, i as int), cycle, cycle_day, now@),
        decreases requests@.len() - i,
    {
        let request = &requests[i];
        assert(requests@.subrange(0, i + 1).drop_last() =~= requests@.subrange(0, i as int));
        assert(requests@.subrange(0, i + 1).last() == *request);
        let due = due_providers_of(request, states, cycle, cycle_day, now);
        assert(due@.len() == due@.map_values(|p: String| p@).len());
        if due.len() > 0 {
            let ghost before = planned@;
            let ghost due_view = due@.map_values(|p: String| p@);
            planned.push(PlannedDetailRequest { anime_id: request.anime_id.clone(), providers: due });
            assert(planned@.map_values(|q: PlannedDetailRequest| (q.anime_id@, q.providers@.map_values(|p: String| p@)))
                =~= before.map_values(|q: PlannedDetailRequest| (q.anime_id@, q.providers@.map_values(|p: String| p@))).push(
                (request.anime_id@, due_view)));
        }
        i = i + 1;
    }
    assert(requests@.subrange(0, requests@.len() as int) =~= requests@);
    planned
}

/// The position before which an item with key `k` goes in a list ordered by
/// increasing key: before the first larger key, so that equal keys keep their order.
pub open spec fn asc_insert_index(order: Seq<int>, keys: Seq<u64>, k: u64) -> int
    decreases order.len(),
{
    if order.len() == 0 {
        0
    } else if keys[order[0]] > k {
        0
    } else {
        1 + asc_insert_index(order.subrange(1, order.len() as int), keys, k)
    }
}

/// The positions `0..n` ordered by increasing key, stably (`sort_by_key`).
pub open spec fn key_asc_order(keys: Seq<u64>, n: nat) -> Seq<int>
    decreases n,
{
    if n == 0 {
        Seq::empty()
    } else {
        let rest = key_asc_order(keys, (n - 1) as nat);
        rest.insert(asc_insert_index(rest, keys, keys[n - 1]), n - 1)
    }
}

proof fn lemma_key_asc_order_bounds(keys: Seq<u64>, n: nat)
    ensures
        key_asc_order(keys, n).len() == n,
        forall|k: int| 0 <= k < n ==> 0 <= #[trigger] key_asc_order(keys, n)[k] < n,
    decreases n,
{
    if n > 0 {
        lemma_key_asc_order_bounds(keys, (n - 1) as nat);
        let rest = key_asc_order(keys, (n - 1) as nat);
        lemma_asc_insert_index_bounds(rest, keys, keys[n - 1]);
        let out = key_asc_order(keys, n);
        let at = asc_insert_index(rest, keys, keys[n - 1]);
        assert forall|k: int| 0 <= k < n implies 0 <= #[trigger] out[k] < n by {
            if k < at {
                assert(out[k] == rest[k]);
            } else if k > at {
                assert(out[k] == rest[k - 1]);
            }
        }
    }
}

proof fn lemma_asc_insert_index_bounds(order: Seq<int>, keys: Seq<u64>, k: u64)
    ensures
        0 <= asc_insert_index(order, keys, k) <= order.len(),
    decreases order.len(),
{
    if order.len() > 0 {
        lemma_asc_insert_index_bounds(order.subrange(1, order.len() as int), keys, k);
    }
}

fn find_asc_insert_index(order: &Vec<usize>, keys: &Vec<u64>, k: u64) -> (r: usize)
    requires
        forall|m: int| 0 <= m < order@.len() ==> (#[trigger] order@[m]) < keys@.len(),
    ensures
        r == asc_insert_index(order@.map_values(|p: usize| p as int), keys@, k),
        r <= order@.len(),
{
    let ghost view = order@.map_values(|p: usize| p as int);
    let n = order.len();
    let mut i: usize = 0;
    assert(view.subrange(0, n as int) =~= view);
    while i < n
        invariant
            n == order@.len(),
            i <= n,
            view == order@.map_values(|p: usize| p as int),
            forall|m: int| 0 <= m < order@.len() ==> (#[trigger] order@[m]) < keys@.len(),
            asc_insert_index(view, keys@, k) == i + asc_insert_index(view.subrange(i as int, n as int), keys@, k),
        decreases n - i,
    {
        let ghost rest = view.subrange(i as int, n as int);
        assert(rest[0] == order@[i as int] as int);
        assert(rest.subrange(1, rest.len() as int) =~= view.subrange(i + 1, n as int));
        if keys[order[i]] > k {
            return i;
        }
        i = i + 1;
    }
    i
}

/// The positions of the keys ordered by increasing key, stably.
pub fn order_by_key(keys: &Vec<u64>) -> (r: Vec<usize>)
    ensures
        r@.map_values(|p: usize| p as int) == key_asc_order(keys@, keys@.len()),
        r@.len() == keys@.len(),
        forall|k: int| 0 <= k < r@.len() ==> (#[trigger] r@[k]) < keys@.len(),
{
    let mut out: Vec<usize> = Vec::new();
    let mut i: usize = 0;
    while i < keys.len()
        invariant
            i <= keys@.len(),
            forall|m: int| 0 <= m < out@.len() ==> (#[trigger] out@[m]) < i,
            out@.map_values(|p: usize| p as int) == key_asc_order(keys@, i as nat),
        decreases keys@.len() - i,
    {
        let at = find_asc_insert_index(&out, keys, keys[i]);
        let ghost before = out@.map_values(|q: usize| q as int);
        proof {
            lemma_asc_insert_index_bounds(before, keys@, keys@[i as int]);
        }
        out.insert(at, i);
        assert(out@.map_values(|q: usize| q as int) =~= before.insert(at as int, i as int));
        i = i + 1;
    }
    proof {
        lemma_key_asc_order_bounds(keys@, keys@.len());
    }
    out
}


/// The order key of a planned request in a cycle.
pub open spec fn planned_key(q: (Seq<char>, Seq<Seq<char>>), cycle: i64) -> u64 {
    order_key_spec(q.0, if q.1.len() > 0 { Some(q.1[0]) } else { None }, cycle)
}

/// Today's correction requests in their processing order: the due requests ordered
/// stably by their order key for the cycle.
pub open spec fn due_plan_spec(
    states: Seq<AnimeDetailRefreshState>,
    requests: Seq<DetailRequestInput>,
    cycle: i64,
    cycle_day: i64,
    now: Seq<char>,
) -> Seq<(Seq<char>, Seq<Seq<char>>)> {
    let due = due_requests_spec(states, requests, cycle, cycle_day, now);
    let keys = due.map_values(|q: (Seq<char>, Seq<Seq<char>>)| planned_key(q, cycle));
    key_asc_order(keys, due.len()).map_values(|a: int| due[a])
}

/// Plans today's detail corrections: the due sources of each request, in the stable
/// order of their keys for the cycle.
pub fn plan_due_corrections(
    requests: &Vec<DetailRequestInput>,
    states: &Vec<AnimeDetailRefreshState>,
    cycle: i64,
    cycle_day: i64,
    now: &str,
) -> (r: Vec<PlannedDetailRequest>)
    ensures
        r@.map_values(|q: PlannedDetailRequest| (q.anime_id@, q.providers@.map_values(|p: String| p@)))
            == due_plan_spec(states@, requests@, cycle, cycle_day, now@),
{
    let due = due_detail_requests(requests, states, cycle, cycle_day, now);
    let ghost views = due@.map_values(|q: PlannedDetailRequest| (q.anime_id@, q.providers@.map_values(|p: String| p@)));
    let mut keys: Vec<u64> = Vec::new();
    let mut i: usize = 0;
    while i < due.len()
        invariant
            i <= due@.len(),
            views == due@.map_values(|q: PlannedDetailRequest| (q.anime_id@, q.providers@.map_values(|p: String| p@))),
            keys@ == views.subrange(0, i as int).map_values(|q: (Seq<char>, Seq<Seq<char>>)| planned_key(q, cycle)),
        decreases due@.len() - i,
    {
        let q = &due[i];
        assert(views[i as int] == (q.anime_id@, q.providers@.map_values(|p: String| p@)));
        let k = if q.providers.len() > 0 {
            assert(q.providers@.map_values(|p: String| p@)[0] == q.providers@[0]@);
            correction_order_key(q.anime_id.as_str(), Some(q.providers[0].as_str()), cycle)
        } else {
            correction_order_key(q.anime_id.as_str(), None, cycle)
        };
        keys.push(k);
        assert(keys@ =~= views.subrange(0, i + 1).map_values(|q: (Seq<char>, Seq<Seq<char>>)| planned_key(q, cycle)));
        i = i + 1;
    }
    assert(views.subrange(0, due@.len() as int) =~= views);
    let order = order_by_key(&keys);
    let ghost expected = key_asc_order(keys@, keys@.len()).map_values(|a: int| views[a]);
    let mut out: Vec<PlannedDetailRequest> = Vec::new();
    let mut j: usize = 0;
    while j < order.len()
        invariant
            j <= order@.len(),
            order@.len() == keys@.len(),
            keys@.len() == due@.len(),
            views == due@.map_values(|q: PlannedDetailRequest| (q.anime_id@, q.providers@.map_values(|p: String| p@))),
            forall|k: int| 0 <= k < order@.len() ==> (#[trigger] order@[k]) < keys@.len(),
            order@.map_values(|p: usize| p as int) == key_asc_order(keys@, keys@.len()),
            expected == key_asc_order(keys@, keys@.len()).map_values(|a: int| views[a]),
            out@.map_values(|q: PlannedDetailRequest| (q.anime_id@, q.providers@.map_values(|p: String| p@)))
                == expected.subrange(0, j as int),
        decreases order@.len() - j,
    {
        let p = order[j];
        let src = &due[p];
        let copy = PlannedDetailRequest { anime_id: src.anime_id.clone(), providers: src.providers.clone() };
        assert(copy.providers@ =~= src.providers@);
        let ghost before = out@;
        out.push(copy);
        proof {
            assert(expected[j as int] == views[p as int]);
            assert(out@.map_values(|q: PlannedDetailRequest| (q.anime_id@, q.providers@.map_values(|p: String| p@)))
                =~= before.map_values(|q: PlannedDetailRequest| (q.anime_id@, q.providers@.map_values(|p: String| p@))).push(
                views[p as int]));
            assert(expected.subrange(0, j + 1) =~= expected.subrange(0, j as int).push(expected[j as int]));
        }
        j = j + 1;
    }
    assert(expected.subrange(0, order@.len() as int) =~= expected);
    out
}


/// Whether positions come in order of nondecreasing key.
pub open spec fn nondecreasing_keys(keys: Seq<u64>, order: Seq<int>) -> bool {
    forall|a: int, b: int| 0 <= a < b < order.len() ==> keys[#[trigger] order[a]] <= keys[#[trigger] order[b]]
}

proof fn lemma_asc_insert_position(order: Seq<int>, keys: Seq<u64>, k: u64)
    requires
        nondecreasing_keys(keys, order),
    ensures
        0 <= asc_insert_index(order, keys, k) <= order.len(),
        forall|a: int| 0 <= a < asc_insert_index(order, keys, k) ==> keys[#[trigger] order[a]] <= k,
        forall|a: int| asc_insert_index(order, keys, k) <= a < order.len() ==> keys[#[trigger] order[a]] > k,
    decreases order.len(),
{
    if order.len() > 0 {
        let tail = order.subrange(1, order.len() as int);
        assert(nondecreasing_keys(keys, tail)) by {
            assert forall|a: int, b: int| 0 <= a < b < tail.len() implies keys[#[trigger] tail[a]] <= keys[#[trigger] tail[b]] by {
                assert(tail[a] == order[a + 1] && tail[b] == order[b + 1]);
            }
        }
        lemma_asc_insert_position(tail, keys, k);
        if keys[order[0]] > k {
            assert forall|a: int| 0 <= a < order.len() implies keys[#[trigger] order[a]] > k by {
                if a > 0 {
                    assert(keys[order[0]] <= keys[order[a]]);
                }
            }
        } else {
            assert forall|a: int| 1 <= a < order.len() implies (#[trigger] order[a]) == tail[a - 1] by {}
        }
    }
}

/// Ordering by key keeps every position once and puts them in nondecreasing key order.
pub proof fn lemma_key_order_is_sorted_permutation(keys: Seq<u64>, n: nat)
    ensures
        nondecreasing_keys(keys, key_asc_order(keys, n)),
        key_asc_order(keys, n).to_multiset() == Seq::new(n, |i: int| i).to_multiset(),
    decreases n,
{
    if n > 0 {
        let rest = key_asc_order(keys, (n - 1) as nat);
        lemma_key_order_is_sorted_permutation(keys, (n - 1) as nat);
        let x = n - 1;
        let at = asc_insert_index(rest, keys, keys[x]);
        lemma_asc_insert_position(rest, keys, keys[x]);
        let out = rest.insert(at, x);
        assert forall|a: int, b: int| 0 <= a < b < out.len() implies keys[#[trigger] out[a]] <= keys[#[trigger] out[b]] by {
            if b < at {
                assert(out[a] == rest[a] && out[b] == rest[b]);
            } else if b == at {
                assert(out[a] == rest[a] && out[b] == x);
            } else if a < at {
                assert(out[a] == rest[a] && out[b] == rest[b - 1]);
            } else if a == at {
                assert(out[a] == x && out[b] == rest[b - 1]);
            } else {
                assert(out[a] == rest[a - 1] && out[b] == rest[b - 1]);
            }
        }
        vstd::seq_lib::to_multiset_insert(rest, at, x);
        let prefix = Seq::new((n - 1) as nat, |i: int| i);
        vstd::seq_lib::to_multiset_build(prefix, x);
        assert(prefix.push(x) =~= Seq::new(n, |i: int| i));
        assert(out.to_multiset() == rest.to_multiset().insert(x));
        assert(key_asc_order(keys, n) == out);
    } else {
        assert(Seq::new(0, |i: int| i) =~= Seq::<int>::empty());
    }
}


/// The attempts of the compensation of deferred detail requests, the first included.
pub const DETAIL_COMPENSATION_MAX_ATTEMPTS: usize = 3;

/// The shortest wait before a compensation attempt, in milliseconds.
pub const DETAIL_COMPENSATION_MIN_DELAY_MS: u64 = 500;

/// The longest wait before a compensation attempt, in milliseconds.
pub const DETAIL_COMPENSATION_MAX_DELAY_MS: u64 = 120_500;

/// The largest of the delays the providers asked for, or 0.
pub open spec fn max_delay(delays: Seq<u64>) -> u64
    decreases delays.len(),
{
    if delays.len() == 0 {
        0
    } else {
        let rest = max_delay(delays.drop_last());
        if delays.last() > rest {
            delays.last()
        } else {
            rest
        }
    }
}

/// The wait before a compensation attempt: the longest delay a pending request asked
/// for, within the compensation's bounds.
pub open spec fn compensation_delay_spec(delays: Seq<u64>) -> u64 {
    let m = max_delay(delays);
    if m < DETAIL_COMPENSATION_MIN_DELAY_MS {
        DETAIL_COMPENSATION_MIN_DELAY_MS
    } else if m > DETAIL_COMPENSATION_MAX_DELAY_MS {
        DETAIL_COMPENSATION_MAX_DELAY_MS
    } else {
        m
    }
}

/// The wait before a compensation attempt, from the delays the pending requests asked for.
pub fn compensation_delay_ms(retry_after_ms: &Vec<u64>) -> (r: u64)
    ensures
        r == compensation_delay_spec(retry_after_ms@),
        DETAIL_COMPENSATION_MIN_DELAY_MS <= r <= DETAIL_COMPENSATION_MAX_DELAY_MS,
{
    let mut m: u64 = 0;
    let mut i: usize = 0;
    while i < retry_after_ms.len()
        invariant
            i <= retry_after_ms@.len(),
            m == max_delay(retry_after_ms@.subrange(0, i as int)),
        decreases retry_after_ms@.len() - i,
    {
        assert(retry_after_ms@.subrange(0, i + 1).drop_last() =~= retry_after_ms@.subrange(0, i as int));
        if retry_after_ms[i] > m {
            m = retry_after_ms[i];
        }
        i = i + 1;
    }
    assert(retry_after_ms@.subrange(0, retry_after_ms@.len() as int) =~= retry_after_ms@);
    if m < DETAIL_COMPENSATION_MIN_DELAY_MS {
        DETAIL_COMPENSATION_MIN_DELAY_MS
    } else if m > DETAIL_COMPENSATION_MAX_DELAY_MS {
        DETAIL_COMPENSATION_MAX_DELAY_MS
    } else {
        m
    }
}

/// What the compensation does after an attempt.
#[derive(Debug, Clone, Copy, PartialEq, Eq, Structural)]
pub enum CompensationNext {
    /// Every request settled.
    Finished,
    /// Some requests are still deferred: wait and try again.
    RetryAgain,
    /// The last attempt left requests deferred: record them as failures.
    Exhausted,
}

/// `a + b`, saturating.
pub open spec fn sat_add(a: usize, b: usize) -> usize {
    if a + b > usize::MAX {
        usize::MAX
    } else {
        (a + b) as usize
    }
}

/// Counts the outcome of compensation attempt `attempt` (2 up to the last): its
/// settled errors count; when nothing is pending the compensation is finished; after
/// the last attempt the still-deferred errors count too and it is exhausted.
pub fn compensation_after_attempt(
    attempt: usize,
    error_count: usize,
    settled_errors: usize,
    deferred_errors: usize,
    pending_left: usize,
) -> (r: (usize, CompensationNext))
    requires
        2 <= attempt <= DETAIL_COMPENSATION_MAX_ATTEMPTS,
    ensures
        pending_left == 0 ==> r == (sat_add(error_count, settled_errors), CompensationNext::Finished),
        pending_left > 0 && attempt == DETAIL_COMPENSATION_MAX_ATTEMPTS ==> r == (
            sat_add(sat_add(error_count, settled_errors), deferred_errors),
            CompensationNext::Exhausted,
        ),
        pending_left > 0 && attempt < DETAIL_COMPENSATION_MAX_ATTEMPTS ==> r == (
            sat_add(error_count, settled_errors),
            CompensationNext::RetryAgain,
        ),
{
    let errors = if error_count > usize::MAX - settled_errors {
        usize::MAX
    } else {
        error_count + settled_errors
    };
    if pending_left == 0 {
        return (errors, CompensationNext::Finished);
    }
    if attempt == DETAIL_COMPENSATION_MAX_ATTEMPTS {
        let total = if errors > usize::MAX - deferred_errors {
            usize::MAX
        } else {
            errors + deferred_errors
        };
        (total, CompensationNext::Exhausted)
    } else {
        (errors, CompensationNext::RetryAgain)
    }
}

} // verus!
