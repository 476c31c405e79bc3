use crate::calendar::{day_of_month, month_of_day, Date, MAX_DAY, MIN_DAY};
use crate::text::{digit, digit_char, push_char};
use crate::config::clamp_spec;
use crate::json::{as_i64_spec, designates, get_spec, member, Json};
use chrono::{DateTime, Local, TimeZone, Utc};
use vstd::prelude::*;

verus! {

/// Day number (counted from 1 January of year 1) of 1 January 1970.
pub const UNIX_EPOCH_DAY: i64 = 719_163;

/// Whether a Unix timestamp (in seconds) falls on a representable date.
pub open spec fn timestamp_in_range(timestamp: int) -> bool {
    MIN_DAY <= timestamp / 86_400 + UNIX_EPOCH_DAY <= MAX_DAY
}

/// The offset of the local time zone from UTC, in seconds, at the given
/// instant: `DateTime::<Utc>::from_timestamp_secs`, then
/// `Local.offset_from_utc_datetime(..).local_minus_utc()`. The value depends
/// on the time zone of the machine, so only what every `chrono::FixedOffset`
/// keeps is promised: it lies strictly within one day.
#[verifier::external_body]
fn local_offset_secs(timestamp: i64) -> (offset: i32)
    requires
        timestamp_in_range(timestamp as int),
    ensures
        -86_400 < offset < 86_400,
{
    let utc = DateTime::<Utc>::from_timestamp_secs(timestamp).unwrap();
    Local.offset_from_utc_datetime(&utc.naive_utc()).local_minus_utc()
}

/// One rate-limit window as the indicator shows it.
#[derive(Clone, Debug, PartialEq, Eq, Structural)]
pub struct QuotaWindow {
    pub remaining_percent: u8,
    pub resets_at: Option<i64>,
    pub window_duration_mins: Option<i64>,
}

/// The rate-limit windows that Codex reported.
#[derive(Clone, Debug, PartialEq, Eq, Structural)]
pub struct QuotaSnapshot {
    pub primary: Option<QuotaWindow>,
    pub secondary: Option<QuotaWindow>,
}

/// The colour of the quota ring.
#[derive(Clone, Copy, Debug, PartialEq, Eq, Structural)]
pub enum RingTone {
    Green,
    Yellow,
    Red,
    Gray,
}

/// Why a rate-limit response could not be used.
#[derive(Clone, Copy, Debug, PartialEq, Eq, Structural)]
pub enum QuotaParseErrorKind {
    NoResult,
    NoRateLimits,
    Incompatible,
    Unavailable,
}

#[derive(Clone, Copy, Debug, PartialEq, Eq, Structural)]
pub struct QuotaParseError {
    pub kind: QuotaParseErrorKind,
}

/// The text shown for a rate-limit parse error.
pub open spec fn quota_error_text(kind: QuotaParseErrorKind) -> Seq<char> {
    match kind {
        QuotaParseErrorKind::NoResult => "response has no result"@,
        QuotaParseErrorKind::NoRateLimits => "response has no rate limits"@,
        QuotaParseErrorKind::Incompatible => "rate-limit response is incompatible"@,
        QuotaParseErrorKind::Unavailable => "primary quota is unavailable"@,
    }
}

impl QuotaParseError {
    pub fn message(&self) -> (text: &'static str)
        ensures
            text@ == quota_error_text(self.kind),
    {
        match self.kind {
            QuotaParseErrorKind::NoResult => "response has no result",
            QuotaParseErrorKind::NoRateLimits => "response has no rate limits",
            QuotaParseErrorKind::Incompatible => "rate-limit response is incompatible",
            QuotaParseErrorKind::Unavailable => "primary quota is unavailable",
        }
    }
}

/// The share of a window that is left: `100 - used`, kept within 0..=100.
pub open spec fn remaining_spec(used_percent: int) -> int {
    clamp_spec(100 - used_percent, 0, 100)
}

pub fn remaining_percent(used_percent: i64) -> (r: u8)
    ensures
        r == remaining_spec(used_percent as int),
{
    if used_percent <= 0 {
        100
    } else if used_percent >= 100 {
        0
    } else {
        (100 - used_percent) as u8
    }
}

/// Green from 50 % up, yellow from 20 % to 49 %, red below 20 %, gray when
/// nothing is known.
pub open spec fn ring_tone_spec(remaining: Option<u8>) -> RingTone {
    match remaining {
        Some(r) => if r >= 50 {
            RingTone::Green
        } else if r >= 20 {
            RingTone::Yellow
        } else {
            RingTone::Red
        },
        None => RingTone::Gray,
    }
}

pub fn ring_tone(remaining: Option<u8>) -> (tone: RingTone)
    ensures
        tone == ring_tone_spec(remaining),
{
    match remaining {
        Some(r) => if r >= 50 {
            RingTone::Green
        } else if r >= 20 {
            RingTone::Yellow
        } else {
            RingTone::Red
        },
        None => RingTone::Gray,
    }
}

/// The window shown as the weekly limit: the one with the longest duration;
/// a missing duration counts as shorter than any, and on a tie the secondary
/// window wins.
pub open spec fn weekly_window_spec(snapshot: QuotaSnapshot) -> Option<QuotaWindow> {
    match (snapshot.primary, snapshot.secondary) {
        (None, None) => None,
        (Some(p), None) => Some(p),
        (None, Some(s)) => Some(s),
        (Some(p), Some(s)) => {
            let pd = match p.window_duration_mins {
                Some(d) => d as int,
                None => i64::MIN as int,
            };
            let sd = match s.window_duration_mins {
                Some(d) => d as int,
                None => i64::MIN as int,
            };
            if sd >= pd {
                Some(s)
            } else {
                Some(p)
            }
        },
    }
}

pub fn weekly_window(snapshot: &QuotaSnapshot) -> (r: Option<&QuotaWindow>)
    ensures
        match r {
            Some(w) => weekly_window_spec(*snapshot) == Some(*w),
            None => weekly_window_spec(*snapshot) is None,
        },
{
    match (&snapshot.primary, &snapshot.secondary) {
        (None, None) => None,
        (Some(primary), None) => Some(primary),
        (None, Some(secondary)) => Some(secondary),
        (Some(primary), Some(secondary)) => {
            let primary_duration = match primary.window_duration_mins {
                Some(d) => d,
                None => i64::MIN,
            };
            let secondary_duration = match secondary.window_duration_mins {
                Some(d) => d,
                None => i64::MIN,
            };
            if secondary_duration >= primary_duration {
                Some(secondary)
            } else {
                Some(primary)
            }
        },
    }
}

/// A window as the wire gives it: used percent, reset time, duration.
pub type WindowWire = (i64, Option<i64>, Option<i64>);

/// An optional integer field: missing or `null` is `None`, an `i64` is
/// kept, anything else makes the response incompatible (outer `None`).
pub open spec fn optional_i64_spec(value: Option<Json>) -> Option<Option<i64>> {
    match value {
        None => Some(None),
        Some(Json::Null) => Some(None),
        Some(v) => match as_i64_spec(v) {
            Some(n) => Some(Some(n)),
            None => None,
        },
    }
}

/// A rate-limit window read from an object (`usedPercent` is required,
/// `resetsAt` and `windowDurationMins` are optional, other members are
/// ignored) or from an array of exactly those three values in that order.
pub open spec fn window_wire_spec(value: Json) -> Option<WindowWire> {
    match value {
        Json::Object(members) => {
            let used = match member(members@, "usedPercent"@) {
                Some(v) => as_i64_spec(v),
                None => None,
            };
            let resets = optional_i64_spec(member(members@, "resetsAt"@));
            let duration = optional_i64_spec(member(members@, "windowDurationMins"@));
            if used is Some && resets is Some && duration is Some {
                Some((used.unwrap(), resets.unwrap(), duration.unwrap()))
            } else {
                None
            }
        },
        Json::Array(items) => {
            if items@.len() == 3 {
                let used = as_i64_spec(items@[0]);
                let resets = optional_i64_spec(Some(items@[1]));
                let duration = optional_i64_spec(Some(items@[2]));
                if used is Some && resets is Some && duration is Some {
                    Some((used.unwrap(), resets.unwrap(), duration.unwrap()))
                } else {
                    None
                }
            } else {
                None
            }
        },
        _ => None,
    }
}

/// An optional window: missing or `null` is `None`.
pub open spec fn optional_window_spec(value: Option<Json>) -> Option<Option<WindowWire>> {
    match value {
        None => Some(None),
        Some(Json::Null) => Some(None),
        Some(v) => match window_wire_spec(v) {
            Some(w) => Some(Some(w)),
            None => None,
        },
    }
}

/// The `primary` and `secondary` windows of a rate-limit bucket, read from
/// an object or from an array of exactly two values.
pub open spec fn snapshot_wire_spec(value: Json) -> Option<(Option<WindowWire>, Option<WindowWire>)> {
    match value {
        Json::Object(members) => {
            let primary = optional_window_spec(member(members@, "primary"@));
            let secondary = optional_window_spec(member(members@, "secondary"@));
            if primary is Some && secondary is Some {
                Some((primary.unwrap(), secondary.unwrap()))
            } else {
                None
            }
        },
        Json::Array(items) => {
            if items@.len() == 2 {
                let primary = optional_window_spec(Some(items@[0]));
                let secondary = optional_window_spec(Some(items@[1]));
                if primary is Some && secondary is Some {
                    Some((primary.unwrap(), secondary.unwrap()))
                } else {
                    None
                }
            } else {
                None
            }
        },
        _ => None,
    }
}

pub open spec fn window_from_wire(wire: WindowWire) -> QuotaWindow {
    QuotaWindow {
        remaining_percent: remaining_spec(wire.0 as int) as u8,
        resets_at: wire.1,
        window_duration_mins: wire.2,
    }
}

pub open spec fn map_window(wire: Option<WindowWire>) -> Option<QuotaWindow> {
    match wire {
        Some(w) => Some(window_from_wire(w)),
        None => None,
    }
}

/// The rate-limit bucket of a `result`: the `codex` entry of
/// `rateLimitsByLimitId` when it is present and not `null`, else
/// `rateLimits`.
pub open spec fn rate_limit_bucket(result: Json) -> Option<Json> {
    let codex = match get_spec(result, "rateLimitsByLimitId"@) {
        Some(by_id) => get_spec(by_id, "codex"@),
        None => None,
    };
    match codex {
        Some(bucket) => if bucket is Null {
            get_spec(result, "rateLimits"@)
        } else {
            Some(bucket)
        },
        None => get_spec(result, "rateLimits"@),
    }
}

/// What `account/rateLimits/read` responses mean to the indicator.
pub open spec fn parse_quota_spec(response: Json) -> Result<QuotaSnapshot, QuotaParseError> {
    match get_spec(response, "result"@) {
        None => Err(QuotaParseError { kind: QuotaParseErrorKind::NoResult }),
        Some(result) => match rate_limit_bucket(result) {
            None => Err(QuotaParseError { kind: QuotaParseErrorKind::NoRateLimits }),
            Some(bucket) => match snapshot_wire_spec(bucket) {
                None => Err(QuotaParseError { kind: QuotaParseErrorKind::Incompatible }),
                Some((primary, secondary)) => if primary is None && secondary is None {
                    Err(QuotaParseError { kind: QuotaParseErrorKind::Unavailable })
                } else {
                    Ok(
                        QuotaSnapshot {
                            primary: map_window(primary),
                            secondary: map_window(secondary),
                        },
                    )
                },
            },
        },
    }
}

fn optional_i64(value: Option<&Json>) -> (r: Option<Option<i64>>)
    ensures
        match value {
            Some(v) => r == optional_i64_spec(Some(*v)),
            None => r == optional_i64_spec(None),
        },
{
    match value {
        None => Some(None),
        Some(v) => {
            if v.is_null() {
                Some(None)
            } else {
                match v.as_i64() {
                    Some(n) => Some(Some(n)),
                    None => None,
                }
            }
        },
    }
}

fn window_wire(value: &Json) -> (r: Option<WindowWire>)
    ensures
        r == window_wire_spec(*value),
{
    match value {
        Json::Object(_) => {
            let used = match value.get("usedPercent") {
                Some(v) => v.as_i64(),
                None => None,
            };
            let resets = optional_i64(value.get("resetsAt"));
            let duration = optional_i64(value.get("windowDurationMins"));
            match (used, resets, duration) {
                (Some(u), Some(r), Some(d)) => Some((u, r, d)),
                _ => None,
            }
        },
        Json::Array(items) => {
            if items.len() == 3 {
                let used = items[0].as_i64();
                let resets = optional_i64(Some(&items[1]));
                let duration = optional_i64(Some(&items[2]));
                match (used, resets, duration) {
                    (Some(u), Some(r), Some(d)) => Some((u, r, d)),
                    _ => None,
                }
            } else {
                None
            }
        },
        _ => None,
    }
}

fn optional_window(value: Option<&Json>) -> (r: Option<Option<WindowWire>>)
    ensures
        match value {
            Some(v) => r == optional_window_spec(Some(*v)),
            None => r == optional_window_spec(None),
        },
{
    match value {
        None => Some(None),
        Some(v) => {
            if v.is_null() {
                Some(None)
            } else {
                match window_wire(v) {
                    Some(w) => Some(Some(w)),
                    None => None,
                }
            }
        },
    }
}

fn snapshot_wire(value: &Json) -> (r: Option<(Option<WindowWire>, Option<WindowWire>)>)
    ensures
        r == snapshot_wire_spec(*value),
{
    match value {
        Json::Object(_) => {
            let primary = optional_window(value.get("primary"));
            let secondary = optional_window(value.get("secondary"));
            match (primary, secondary) {
                (Some(p), Some(s)) => Some((p, s)),
                _ => None,
            }
        },
        Json::Array(items) => {
            if items.len() == 2 {
                let primary = optional_window(Some(&items[0]));
                let secondary = optional_window(Some(&items[1]));
                match (primary, secondary) {
                    (Some(p), Some(s)) => Some((p, s)),
                    _ => None,
                }
            } else {
                None
            }
        },
        _ => None,
    }
}

fn convert_window(wire: Option<WindowWire>) -> (r: Option<QuotaWindow>)
    ensures
        r == map_window(wire),
{
    match wire {
        Some(w) => Some(
            QuotaWindow {
                remaining_percent: remaining_percent(w.0),
                resets_at: w.1,
                window_duration_mins: w.2,
            },
        ),
        None => None,
    }
}

fn bucket_of(result: &Json) -> (r: Option<&Json>)
    ensures
        designates(r, rate_limit_bucket(*result)),
{
    let codex = match result.get("rateLimitsByLimitId") {
        Some(by_id) => by_id.get("codex"),
        None => None,
    };
    match codex {
        Some(bucket) => {
            if bucket.is_null() {
                result.get("rateLimits")
            } else {
                Some(bucket)
            }
        },
        None => result.get("rateLimits"),
    }
}

/// Reads the quota windows out of an `account/rateLimits/read` response.
pub fn parse_quota_response(value: &Json) -> (r: Result<QuotaSnapshot, QuotaParseError>)
    ensures
        r == parse_quota_spec(*value),
{
    let result = match value.get("result") {
        Some(result) => result,
        None => {
            return Err(QuotaParseError { kind: QuotaParseErrorKind::NoResult });
        },
    };
    let bucket = match bucket_of(result) {
        Some(bucket) => bucket,
        None => {
            return Err(QuotaParseError { kind: QuotaParseErrorKind::NoRateLimits });
        },
    };
    let wire = match snapshot_wire(bucket) {
        Some(wire) => wire,
        None => {
            return Err(QuotaParseError { kind: QuotaParseErrorKind::Incompatible });
        },
    };
    if wire.0.is_none() && wire.1.is_none() {
        return Err(QuotaParseError { kind: QuotaParseErrorKind::Unavailable });
    }
    Ok(QuotaSnapshot { primary: convert_window(wire.0), secondary: convert_window(wire.1) })
}

} // verus!

verus! {

/// The text shown when a reset time is missing or cannot be represented.
pub open spec fn unavailable_text() -> Seq<char> {
    "不可用"@
}

/// Two decimal digits for `n` (0 to 99), with a leading zero.
pub open spec fn two_digits(n: int) -> Seq<char> {
    seq![digit_char(n / 10), digit_char(n % 10)]
}

/// The day number of the day on which a local time (in seconds since the
/// Unix epoch, local clock) falls.
pub open spec fn local_day(local_secs: int) -> int {
    local_secs / 86_400 + UNIX_EPOCH_DAY
}

/// `MM-DD` of a date: its month and its day of the month.
pub open spec fn date_label(day: int) -> Seq<char> {
    two_digits(month_of_day(day)) + seq!['-'] + two_digits(day_of_month(day))
}

/// ` HH:MM` for a local time: a space, then the hour and minute of its time
/// of day.
pub open spec fn clock_label(local_secs: int) -> Seq<char> {
    let of_day = local_secs % 86_400;
    seq![' '] + two_digits(of_day / 3600) + seq![':'] + two_digits(of_day % 3600 / 60)
}

/// The label of a local time, as `chrono` writes `%m-%d %H:%M` for it:
/// `MM-DD HH:MM` when its date can be represented; a local time that an
/// offset moved one day past the last representable date reads as 1 January
/// (`01-01`), one day before the first as 31 December (`12-31`); further out,
/// which no offset of less than a day reaches, `不可用`.
pub open spec fn reset_label(local_secs: int) -> Seq<char> {
    let day = local_day(local_secs);
    if MIN_DAY <= day <= MAX_DAY {
        date_label(day) + clock_label(local_secs)
    } else if day == MAX_DAY + 1 {
        seq!['0', '1', '-', '0', '1'] + clock_label(local_secs)
    } else if day == MIN_DAY - 1 {
        seq!['1', '2', '-', '3', '1'] + clock_label(local_secs)
    } else {
        unavailable_text()
    }
}

fn push_two_digits(text: &mut String, n: u32)
    requires
        n < 100,
    ensures
        final(text)@ == old(text)@ + two_digits(n as int),
{
    push_char(text, digit((n / 10) as u64));
    push_char(text, digit((n % 10) as u64));
}

/// The label of a local time (seconds since the Unix epoch on the local
/// clock), as `format_reset_time` shows it.
pub fn local_reset_label(local_secs: i64) -> (text: String)
    ensures
        text@ == reset_label(local_secs as int),
{
    proof {
        reveal_strlit("不可用");
        vstd::arithmetic::div_mod::lemma_fundamental_div_mod(local_secs as int, 86_400);
        vstd::arithmetic::div_mod::lemma_mod_bound(local_secs as int, 86_400);
    }
    // 97_000_000 days take any representable local time to a non-negative
    // number of seconds.
    if local_secs < -8_380_800_000_000 || local_secs > 8_380_800_000_000 {
        return String::from_str("不可用");
    }
    let shifted = (local_secs + 8_380_800_000_000i64) as u64;
    let days = shifted / 86_400;
    let of_day = shifted % 86_400;
    proof {
        vstd::arithmetic::div_mod::lemma_fundamental_div_mod_converse(
            local_secs as int,
            86_400,
            days - 97_000_000,
            of_day as int,
        );
    }
    let day = days as i64 - 97_000_000 + UNIX_EPOCH_DAY;
    if day < MIN_DAY as i64 - 1 || day > MAX_DAY as i64 + 1 {
        return String::from_str("不可用");
    }
    let mut text = String::new();
    if day == MAX_DAY as i64 + 1 {
        push_char(&mut text, '0');
        push_char(&mut text, '1');
        push_char(&mut text, '-');
        push_char(&mut text, '0');
        push_char(&mut text, '1');
    } else if day == MIN_DAY as i64 - 1 {
        push_char(&mut text, '1');
        push_char(&mut text, '2');
        push_char(&mut text, '-');
        push_char(&mut text, '3');
        push_char(&mut text, '1');
    } else {
        let date = match Date::from_day_number(day as i32) {
            Some(date) => date,
            None => {
                return String::from_str("不可用");
            },
        };
        push_two_digits(&mut text, date.month());
        push_char(&mut text, '-');
        push_two_digits(&mut text, date.month_day());
    }
    let ghost date_part = text@;
    push_char(&mut text, ' ');
    push_two_digits(&mut text, (of_day / 3600) as u32);
    push_char(&mut text, ':');
    push_two_digits(&mut text, (of_day % 3600 / 60) as u32);
    assert(text@ =~= date_part + clock_label(local_secs as int));
    text
}

/// The reset time of a window in local time as `MM-DD HH:MM`, or `不可用`
/// when there is none or it is out of range: the label of the timestamp
/// moved by the machine's offset from UTC at that instant, an offset of less
/// than a day either way.
pub fn format_reset_time(timestamp: Option<i64>) -> (text: String)
    ensures
        match timestamp {
            Some(t) => if timestamp_in_range(t as int) {
                exists|offset: int|
                    -86_400 < offset < 86_400 && #[trigger] reset_label(t + offset) == text@
            } else {
                text@ == unavailable_text()
            },
            None => text@ == unavailable_text(),
        },
{
    proof {
        reveal_strlit("不可用");
    }
    match timestamp {
        Some(t) => {
            proof {
                vstd::arithmetic::div_mod::lemma_fundamental_div_mod(t as int, 86_400);
                vstd::arithmetic::div_mod::lemma_mod_bound(t as int, 86_400);
            }
            // The first and the one-past-last second of the representable days.
            if -8_334_601_228_800 <= t && t < 8_210_266_876_800 {
                let offset = local_offset_secs(t);
                let text = local_reset_label(t + offset as i64);
                assert(reset_label(t + offset) == text@);
                text
            } else {
                String::from_str("不可用")
            }
        },
        None => String::from_str("不可用"),
    }
}

} // verus!

verus! {

/// The duration by which windows are compared: a missing duration counts
/// as the shortest possible.
pub open spec fn duration_rank(w: QuotaWindow) -> int {
    match w.window_duration_mins {
        Some(d) => d as int,
        None => i64::MIN as int,
    }
}

/// The weekly window is one of the snapshot's windows, there is one
/// whenever the snapshot holds any window, it is never shorter than the
/// other window, and on equal durations it is the secondary one.
pub proof fn lemma_weekly_window_is_longest(s: QuotaSnapshot)
    ensures
        weekly_window_spec(s) is Some <==> (s.primary is Some || s.secondary is Some),
        weekly_window_spec(s) matches Some(w) ==> (s.primary == Some(w) || s.secondary == Some(w)),
        (s.primary is Some && s.secondary is Some) ==> ({
            let w = weekly_window_spec(s).unwrap();
            let p = s.primary.unwrap();
            let q = s.secondary.unwrap();
            &&& duration_rank(w) >= duration_rank(p)
            &&& duration_rank(w) >= duration_rank(q)
            &&& duration_rank(p) == duration_rank(q) ==> w == q
        }),
{
}

/// A window read from an object: its remaining share is `100 - usedPercent`
/// kept within 0..=100, and its reset time and duration are the members
/// `resetsAt` and `windowDurationMins` as given (none when missing or
/// `null`).
pub open spec fn window_read_from(q: QuotaWindow, window: Json) -> bool {
    &&& get_spec(window, "usedPercent"@) matches Some(u) && as_i64_spec(u) matches Some(n)
        && q.remaining_percent == clamp_spec(100 - n, 0, 100)
    &&& match get_spec(window, "resetsAt"@) {
        None => q.resets_at is None,
        Some(v) => if v is Null {
            q.resets_at is None
        } else {
            as_i64_spec(v) is Some && q.resets_at == as_i64_spec(v)
        },
    }
    &&& match get_spec(window, "windowDurationMins"@) {
        None => q.window_duration_mins is None,
        Some(v) => if v is Null {
            q.window_duration_mins is None
        } else {
            as_i64_spec(v) is Some && q.window_duration_mins == as_i64_spec(v)
        },
    }
}

/// When a response is read, each window given as an object in the chosen
/// bucket comes back with the share left, the reset time and the duration
/// it was given.
pub proof fn lemma_windows_keep_their_fields(response: Json, result: Json, bucket: Json, window: Json, primary: bool)
    requires
        get_spec(response, "result"@) == Some(result),
        rate_limit_bucket(result) == Some(bucket),
        get_spec(bucket, if primary { "primary"@ } else { "secondary"@ }) == Some(window),
        window is Object,
        parse_quota_spec(response) is Ok,
    ensures
        match parse_quota_spec(response) {
            Ok(s) => {
                let shown = if primary { s.primary } else { s.secondary };
                shown matches Some(q) && window_read_from(q, window)
            },
            Err(_) => true,
        },
{
}

} // verus!
