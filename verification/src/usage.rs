use crate::calendar::{iso_date_day, Date, MAX_DAY, MIN_DAY};
use crate::daily::{listing_of, record_day};
use std::collections::BTreeMap;
use crate::calendar::month_of_day;
use crate::text::{decimal_chars, decimal_digits, digit_char, lemma_decimal_digits_nonempty, push_char};
use crate::json::{as_i64_spec, as_str_spec, designates, get_spec, Json};
use vstd::prelude::*;

verus! {

/// The tokens used on one calendar day.
#[derive(Clone, Copy, Debug, PartialEq, Eq, Structural)]
pub struct DailyUsage {
    pub date: Date,
    pub tokens: u64,
}

/// The daily history of an account: `None` when Codex does not offer it,
/// otherwise the days it reported, in date order.
#[derive(Clone, Debug, PartialEq, Eq)]
pub struct UsageSnapshot {
    pub daily: Option<Vec<DailyUsage>>,
}

/// Why a usage response could not be used.
#[derive(Clone, Copy, Debug, PartialEq, Eq, Structural)]
pub enum UsageParseErrorKind {
    NoResult,
    Incompatible,
}

#[derive(Clone, Copy, Debug, PartialEq, Eq, Structural)]
pub struct UsageParseError {
    pub kind: UsageParseErrorKind,
}

/// The text shown for a usage parse error.
pub open spec fn usage_error_text(kind: UsageParseErrorKind) -> Seq<char> {
    match kind {
        UsageParseErrorKind::NoResult => "response has no result"@,
        UsageParseErrorKind::Incompatible => "daily usage response is incompatible"@,
    }
}

impl UsageParseError {
    pub fn message(&self) -> (text: &'static str)
        ensures
            text@ == usage_error_text(self.kind),
    {
        match self.kind {
            UsageParseErrorKind::NoResult => "response has no result",
            UsageParseErrorKind::Incompatible => "daily usage response is incompatible",
        }
    }
}

/// A usable bucket of `dailyUsageBuckets`: an object whose `startDate` is a
/// `YYYY-MM-DD` date and whose `tokens` is a non-negative integer. Gives the
/// day number and the token count.
pub open spec fn bucket_entry(item: Json) -> Option<(int, u64)> {
    let day = match get_spec(item, "startDate"@) {
        Some(v) => match as_str_spec(v) {
            Some(text) => iso_date_day(text),
            None => None,
        },
        None => None,
    };
    let tokens = match get_spec(item, "tokens"@) {
        Some(v) => as_i64_spec(v),
        None => None,
    };
    match (day, tokens) {
        (Some(d), Some(t)) => if t >= 0 {
            Some((d, t as u64))
        } else {
            None
        },
        _ => None,
    }
}

/// The tokens per day of a list of buckets: unusable buckets are skipped and
/// of several buckets for one day the largest count is kept.
pub open spec fn merged_buckets(items: Seq<Json>) -> Map<int, u64>
    decreases items.len(),
{
    if items.len() == 0 {
        Map::empty()
    } else {
        let m = merged_buckets(items.drop_last());
        match bucket_entry(items.last()) {
            None => m,
            Some((d, t)) => if m.contains_key(d) && m[d] >= t {
                m
            } else {
                m.insert(d, t)
            },
        }
    }
}

/// `days` lists the map `m` in strictly increasing date order.
pub open spec fn is_date_listing(days: Seq<DailyUsage>, m: Map<int, u64>) -> bool {
    &&& forall|i: int, j: int|
        0 <= i < j < days.len() ==> #[trigger] days[i].date.day() < #[trigger] days[j].date.day()
    &&& forall|i: int|
        0 <= i < days.len() ==> #[trigger] m.contains_key(days[i].date.day()) && m[days[i].date.day()]
            == days[i].tokens
    &&& forall|d: int| #[trigger]
        m.contains_key(d) ==> exists|i: int| 0 <= i < days.len() && #[trigger] days[i].date.day() == d
}

/// What an `account/usage/read` response means: `Ok(None)` when the history
/// is missing or `null`, the listing of its buckets when it is an array.
pub open spec fn usage_response_ok(response: Json, r: Result<UsageSnapshot, UsageParseError>) -> bool {
    match get_spec(response, "result"@) {
        None => r == Err::<UsageSnapshot, UsageParseError>(
            UsageParseError { kind: UsageParseErrorKind::NoResult },
        ),
        Some(result) => match get_spec(result, "dailyUsageBuckets"@) {
            None => r matches Ok(s) && s.daily is None,
            Some(Json::Null) => r matches Ok(s) && s.daily is None,
            Some(Json::Array(items)) => r matches Ok(s) && s.daily matches Some(days)
                && is_date_listing(days@, merged_buckets(items@)),
            Some(_) => r == Err::<UsageSnapshot, UsageParseError>(
                UsageParseError { kind: UsageParseErrorKind::Incompatible },
            ),
        },
    }
}

fn read_bucket(item: &Json) -> (r: Option<(Date, u64)>)
    ensures
        match r {
            Some((date, tokens)) => bucket_entry(*item) == Some((date.day(), tokens)),
            None => bucket_entry(*item) is None,
        },
{
    let date = match item.get("startDate") {
        Some(v) => match v.as_str() {
            Some(text) => Date::parse_iso(text),
            None => None,
        },
        None => None,
    };
    let tokens = match item.get("tokens") {
        Some(v) => v.as_i64(),
        None => None,
    };
    match (date, tokens) {
        (Some(d), Some(t)) => if t >= 0 {
            Some((d, t as u64))
        } else {
            None
        },
        _ => None,
    }
}

/// The map of recorded days agrees with the merged buckets: the same days,
/// all of them dates, with the same counts.
pub open spec fn same_days(dates: Map<i32, u64>, m: Map<int, u64>) -> bool {
    &&& forall|k: i32| #[trigger] dates.contains_key(k) <==> m.contains_key(k as int)
    &&& forall|k: i32| #[trigger] dates.contains_key(k) ==> dates[k] == m[k as int]
    &&& forall|d: int| #[trigger] m.contains_key(d) ==> MIN_DAY <= d <= MAX_DAY
}

/// Reads the daily token history out of an `account/usage/read` response.
pub fn parse_usage_response(value: &Json) -> (r: Result<UsageSnapshot, UsageParseError>)
    ensures
        usage_response_ok(*value, r),
{
    let result = match value.get("result") {
        Some(result) => result,
        None => {
            return Err(UsageParseError { kind: UsageParseErrorKind::NoResult });
        },
    };
    let buckets = result.get("dailyUsageBuckets");
    match buckets {
        None => Ok(UsageSnapshot { daily: None }),
        Some(Json::Null) => Ok(UsageSnapshot { daily: None }),
        Some(Json::Array(items)) => {
            let mut dates: BTreeMap<i32, u64> = BTreeMap::new();
            let mut i: usize = 0;
            while i < items.len()
                invariant
                    i <= items.len(),
                    same_days(dates@, merged_buckets(items@.take(i as int))),
                decreases items.len() - i,
            {
                proof {
                    assert(items@.take(i + 1).drop_last() =~= items@.take(i as int));
                    assert(items@.take(i + 1).last() == items@[i as int]);
                }
                let ghost before = dates@;
                let ghost m = merged_buckets(items@.take(i as int));
                match read_bucket(&items[i]) {
                    Some((date, tokens)) => {
                        let day = date.day_number();
                        record_day(&mut dates, day, tokens);
                        proof {
                            let m2 = merged_buckets(items@.take(i + 1));
                            assert forall|k: i32| #[trigger] dates@.contains_key(k) <==> m2.contains_key(k as int) by {}
                            assert forall|k: i32| #[trigger] dates@.contains_key(k) implies dates@[k] == m2[k as int] by {
                                if k == day {
                                } else {
                                    assert(before.contains_key(k));
                                }
                            }
                            assert forall|d: int| #[trigger] m2.contains_key(d) implies MIN_DAY <= d <= MAX_DAY by {
                                if d != day {
                                    assert(m.contains_key(d));
                                }
                            }
                        }
                    },
                    None => {},
                }
                i = i + 1;
            }
            assert(items@.take(items.len() as int) =~= items@);
            let days = listing_of(&dates);
            proof {
                let m = merged_buckets(items@);
                assert forall|j: int| 0 <= j < days@.len() implies #[trigger] m.contains_key(days@[j].date.day())
                    && m[days@[j].date.day()] == days@[j].tokens by {
                    let k = days@[j].date.day() as i32;
                    assert(dates@.contains_key(k));
                }
                assert forall|d: int| #[trigger] m.contains_key(d) implies exists|j: int|
                    0 <= j < days@.len() && #[trigger] days@[j].date.day() == d by {
                    let k = d as i32;
                    assert(dates@.contains_key(k));
                }
            }
            Ok(UsageSnapshot { daily: Some(days) })
        },
        Some(_) => Err(UsageParseError { kind: UsageParseErrorKind::Incompatible }),
    }
}

/// `x` to the fourth power.
pub open spec fn pow4(x: int) -> int {
    x * x * x * x
}

/// The colour level of a day with `tokens` tokens when the busiest visible
/// day had `peak`: 0 for no use, else `clamp(ceil(4 * ln(1 + tokens) /
/// ln(1 + peak)), 1, 4)`. Since `ceil(4 * s) <= k` exactly when
/// `(1 + tokens)^4 <= (1 + peak)^k`, the level is the first `k` in 1..=3 for
/// which that holds, and 4 when none does.
pub open spec fn token_level_spec(tokens: int, peak: int) -> int {
    let a = tokens + 1;
    let b = peak + 1;
    if tokens == 0 || peak == 0 {
        0
    } else if pow4(a) <= b {
        1
    } else if pow4(a) <= b * b {
        2
    } else if pow4(a) <= b * b * b {
        3
    } else {
        4
    }
}

proof fn lemma_square_monotone(x: int, y: int)
    requires
        0 <= x <= y,
    ensures
        x * x <= y * y,
{
    assert(x * x <= y * y) by (nonlinear_arith)
        requires
            0 <= x <= y,
    ;
}

proof fn lemma_pow4_square(a: int)
    ensures
        pow4(a) == (a * a) * (a * a),
{
    assert(a * a * a * a == (a * a) * (a * a)) by (nonlinear_arith);
}

/// `(a^2)^2 <= b^3` decided through `a^2 = q*b + r` and `r^2 = s*b + u`.
proof fn lemma_square_against_cube(big_a: int, b: int, q: int, r: int, s: int, u: int, d: int)
    requires
        b > 0,
        big_a == b * q + r,
        0 <= r < b,
        r * r == b * s + u,
        0 <= u < b,
        d == b - q * q,
        d >= 0,
        q >= 0,
    ensures
        (big_a * big_a <= b * b * b) == (2 * q * r + s + (if u > 0 { 1int } else { 0int })
            <= d * b),
{
    let x = 2 * q * r + s;
    let y = d * b;
    assert(big_a * big_a == q * q * (b * b) + b * x + u) by (nonlinear_arith)
        requires
            big_a == b * q + r,
            r * r == b * s + u,
            x == 2 * q * r + s,
    ;
    assert(b * b * b == q * q * (b * b) + b * y) by (nonlinear_arith)
        requires
            d == b - q * q,
            y == d * b,
    ;
    if u > 0 {
        if x + 1 <= y {
            assert(b * x + u < b * y) by (nonlinear_arith)
                requires
                    x + 1 <= y,
                    0 <= u < b,
                    b > 0,
            ;
        } else {
            assert(b * x + u > b * y) by (nonlinear_arith)
                requires
                    x >= y,
                    0 < u,
                    b > 0,
            ;
        }
    } else {
        if x <= y {
            assert(b * x <= b * y) by (nonlinear_arith)
                requires
                    x <= y,
                    b > 0,
            ;
        } else {
            assert(b * x > b * y) by (nonlinear_arith)
                requires
                    x > y,
                    b > 0,
            ;
        }
    }
}

/// Whether `a^4 <= b^3` for `2 <= a, b <= 2^64`.
fn fourth_power_within_cube(a: u128, b: u128) -> (r: bool)
    requires
        2 <= a <= 0x1_0000_0000_0000_0000,
        2 <= b <= 0x1_0000_0000_0000_0000,
    ensures
        r == (pow4(a as int) <= b * b * b),
{
    if a >= b {
        proof {
            lemma_square_monotone(b as int, a as int);
            lemma_pow4_square(a as int);
            assert(b * b * b < (b * b) * (b * b)) by (nonlinear_arith)
                requires
                    b >= 2,
            ;
            assert((b * b) * (b * b) <= (a * a) * (a * a)) by (nonlinear_arith)
                requires
                    0 <= b * b <= a * a,
            ;
        }
        return false;
    }
    assert(a * a < 0x1_0000_0000_0000_0000_0000_0000_0000_0000) by (nonlinear_arith)
        requires
            2 <= a < 0x1_0000_0000_0000_0000,
    ;
    let big_a = a * a;
    let q = big_a / b;
    let r = big_a % b;
    proof {
        lemma_pow4_square(a as int);
        vstd::arithmetic::div_mod::lemma_fundamental_div_mod(big_a as int, b as int);
    }
    if q > 0x1_0000_0000 {
        proof {
            assert(q * q > b) by (nonlinear_arith)
                requires
                    q > 0x1_0000_0000,
                    b <= 0x1_0000_0000_0000_0000,
            ;
            assert(big_a * big_a >= (q * b) * (q * b)) by (nonlinear_arith)
                requires
                    big_a == b * q + r,
                    r >= 0,
                    q >= 0,
                    b >= 0,
            ;
            assert((q * b) * (q * b) > b * b * b) by (nonlinear_arith)
                requires
                    q * q > b,
                    b > 0,
            ;
        }
        return false;
    }
    assert(q * q <= 0x1_0000_0000_0000_0000) by (nonlinear_arith)
        requires
            q <= 0x1_0000_0000,
            q >= 0,
    ;
    let q_squared = q * q;
    if q_squared > b {
        proof {
            assert(big_a * big_a >= (q * b) * (q * b)) by (nonlinear_arith)
                requires
                    big_a == b * q + r,
                    r >= 0,
                    q >= 0,
                    b >= 0,
            ;
            assert((q * b) * (q * b) > b * b * b) by (nonlinear_arith)
                requires
                    q * q > b,
                    b > 0,
            ;
        }
        return false;
    }
    let d = b - q_squared;
    assert(r * r < 0x1_0000_0000_0000_0000_0000_0000_0000_0000) by (nonlinear_arith)
        requires
            0 <= r < b,
            b <= 0x1_0000_0000_0000_0000,
    ;
    let r_squared = r * r;
    let s = r_squared / b;
    let u = r_squared % b;
    proof {
        vstd::arithmetic::div_mod::lemma_fundamental_div_mod(r_squared as int, b as int);
        assert(s <= r_squared) by (nonlinear_arith)
            requires
                r_squared == b * s + u,
                u >= 0,
                b >= 1,
                s >= 0,
        ;
        assert(s < b) by (nonlinear_arith)
            requires
                r_squared == b * s + u,
                u >= 0,
                r < b,
                r_squared == r * r,
                r >= 0,
                b >= 1,
        ;
        assert(2 * q * r < 0x2_0000_0000_0000_0000_0000_0000) by (nonlinear_arith)
            requires
                q <= 0x1_0000_0000,
                r < 0x1_0000_0000_0000_0000,
                q >= 0,
                r >= 0,
        ;
        lemma_square_against_cube(
            big_a as int,
            b as int,
            q as int,
            r as int,
            s as int,
            u as int,
            d as int,
        );
    }
    let x = 2 * q * r + s + if u > 0 { 1 } else { 0 };
    match d.checked_mul(b) {
        Some(y) => x <= y,
        None => true,
    }
}

/// The colour level (0 to 4) of a day on the heatmap, relative to the
/// busiest visible day.
pub fn token_level(tokens: u64, peak: u64) -> (level: u8)
    ensures
        level == token_level_spec(tokens as int, peak as int),
{
    if tokens == 0 || peak == 0 {
        return 0;
    }
    let a = tokens as u128 + 1;
    let b = peak as u128 + 1;
    let first = if a > 0x1_0000 {
        proof {
            assert(pow4(a as int) > b) by (nonlinear_arith)
                requires
                    a > 0x1_0000,
                    b <= 0x1_0000_0000_0000_0000,
            ;
        }
        false
    } else {
        assert(a * a <= 0x1_0000_0000) by (nonlinear_arith)
            requires
                2 <= a <= 0x1_0000,
        ;
        assert(a * a * a <= 0x1_0000_0000_0000) by (nonlinear_arith)
            requires
                2 <= a <= 0x1_0000,
                a * a <= 0x1_0000_0000,
        ;
        assert(a * a * a * a <= 0x1_0000_0000_0000_0000) by (nonlinear_arith)
            requires
                2 <= a <= 0x1_0000,
                a * a * a <= 0x1_0000_0000_0000,
        ;
        a * a * a * a <= b
    };
    if first {
        return 1;
    }
    let second = if a > 0x1_0000_0000 {
        proof {
            lemma_pow4_square(a as int);
            assert(a * a > b) by (nonlinear_arith)
                requires
                    a > 0x1_0000_0000,
                    b <= 0x1_0000_0000_0000_0000,
            ;
            assert((a * a) * (a * a) > b * b) by (nonlinear_arith)
                requires
                    a * a > b,
                    b >= 0,
            ;
        }
        false
    } else {
        proof {
            lemma_pow4_square(a as int);
            assert(a * a <= 0x1_0000_0000_0000_0000) by (nonlinear_arith)
                requires
                    2 <= a <= 0x1_0000_0000,
            ;
            assert(((a * a) * (a * a) <= b * b) == (a * a <= b)) by (nonlinear_arith)
                requires
                    a * a >= 0,
                    b >= 0,
            ;
        }
        a * a <= b
    };
    if second {
        return 2;
    }
    if fourth_power_within_cube(a, b) {
        3
    } else {
        4
    }
}

} // verus!

verus! {

/// The number of week columns of the heatmap.
pub const HEATMAP_WEEKS: usize = 26;

/// The number of calendar positions of the heatmap.
pub const HEATMAP_DAYS: usize = HEATMAP_WEEKS * 7;

/// One position of the heatmap calendar.
#[derive(Clone, Copy, Debug, PartialEq, Eq, Structural)]
pub struct HeatCell {
    pub date: Date,
    pub tokens: u64,
    pub level: u8,
    pub future: bool,
}

/// The day number of the first position: the Sunday 25 weeks before the
/// Sunday that starts the week of `today`.
pub open spec fn heatmap_start(today: int) -> int {
    today - today % 7 - 7 * (HEATMAP_WEEKS - 1)
}

/// The count of the last entry of `daily` for the given day.
pub open spec fn latest_tokens(daily: Seq<DailyUsage>, day: int) -> Option<u64>
    decreases daily.len(),
{
    if daily.len() == 0 {
        None
    } else if daily.last().date.day() == day {
        Some(daily.last().tokens)
    } else {
        latest_tokens(daily.drop_last(), day)
    }
}

/// The count shown for a day: zero after today or when the day has no entry.
pub open spec fn shown_tokens(daily: Seq<DailyUsage>, today: int, day: int) -> u64 {
    if day > today {
        0
    } else {
        match latest_tokens(daily, day) {
            Some(t) => t,
            None => 0,
        }
    }
}

/// The largest shown count among the first `k` positions from `start`.
pub open spec fn shown_peak(daily: Seq<DailyUsage>, today: int, start: int, k: int) -> u64
    decreases k,
{
    if k <= 0 {
        0
    } else {
        let before = shown_peak(daily, today, start, k - 1);
        let here = shown_tokens(daily, today, start + k - 1);
        if here > before {
            here
        } else {
            before
        }
    }
}

/// The heatmap position `i` for `today` and the history `daily`.
pub open spec fn heat_cell_ok(cell: HeatCell, daily: Seq<DailyUsage>, today: int, i: int) -> bool {
    let start = heatmap_start(today);
    let day = start + i;
    &&& cell.date.day() == day
    &&& cell.future == (day > today)
    &&& cell.tokens == shown_tokens(daily, today, day)
    &&& cell.level == token_level_spec(
        cell.tokens as int,
        shown_peak(daily, today, start, HEATMAP_DAYS as int) as int,
    )
}

/// The 182 positions of the calendar: 26 week columns from Sunday to
/// Saturday, ending with the week of `today`. Days after today are marked
/// as future and count zero; the level of each day is relative to the
/// busiest day on show.
pub fn heatmap_cells(today: Date, daily: &[DailyUsage]) -> (cells: Vec<HeatCell>)
    requires
        heatmap_start(today.day()) >= crate::calendar::MIN_DAY,
        heatmap_start(today.day()) + HEATMAP_DAYS - 1 <= crate::calendar::MAX_DAY,
    ensures
        cells@.len() == HEATMAP_DAYS,
        forall|i: int|
            0 <= i < HEATMAP_DAYS ==> heat_cell_ok(#[trigger] cells@[i], daily@, today.day(), i),
{
    let today_n = today.day_number();
    let weekday = today.weekday_from_sunday();
    let start = today_n - weekday as i32 - 175;
    let ghost t = today.day();
    let mut slots: Vec<u64> = Vec::new();
    let mut k: usize = 0;
    while k < HEATMAP_DAYS
        invariant
            k <= HEATMAP_DAYS,
            slots@.len() == k,
            forall|j: int| 0 <= j < k ==> slots@[j] == 0,
        decreases HEATMAP_DAYS - k,
    {
        slots.push(0);
        k = k + 1;
    }
    assert(daily@.take(0) =~= Seq::<DailyUsage>::empty());
    let mut e: usize = 0;
    while e < daily.len()
        invariant
            e <= daily.len(),
            start == heatmap_start(t),
            today_n == t,
            slots@.len() == HEATMAP_DAYS,
            forall|j: int|
                0 <= j < HEATMAP_DAYS ==> #[trigger] slots@[j] == shown_tokens(
                    daily@.take(e as int),
                    t,
                    start + j,
                ),
        decreases daily.len() - e,
    {
        let d = daily[e].date.day_number();
        let ghost before = daily@.take(e as int);
        assert(daily@.take(e + 1).drop_last() =~= before);
        if start <= d && d <= today_n {
            slots.set((d - start) as usize, daily[e].tokens);
        }
        e = e + 1;
    }
    assert(daily@.take(daily.len() as int) =~= daily@);
    let mut peak: u64 = 0;
    let mut k: usize = 0;
    while k < HEATMAP_DAYS
        invariant
            k <= HEATMAP_DAYS,
            slots@.len() == HEATMAP_DAYS,
            forall|j: int|
                0 <= j < HEATMAP_DAYS ==> #[trigger] slots@[j] == shown_tokens(daily@, t, start + j),
            peak == shown_peak(daily@, t, start as int, k as int),
        decreases HEATMAP_DAYS - k,
    {
        if slots[k] > peak {
            peak = slots[k];
        }
        k = k + 1;
    }
    let mut cells: Vec<HeatCell> = Vec::new();
    let mut k: usize = 0;
    while k < HEATMAP_DAYS
        invariant
            k <= HEATMAP_DAYS,
            start == heatmap_start(t),
            today_n == t,
            start >= crate::calendar::MIN_DAY,
            start + HEATMAP_DAYS - 1 <= crate::calendar::MAX_DAY,
            slots@.len() == HEATMAP_DAYS,
            forall|j: int|
                0 <= j < HEATMAP_DAYS ==> #[trigger] slots@[j] == shown_tokens(daily@, t, start + j),
            peak == shown_peak(daily@, t, start as int, HEATMAP_DAYS as int),
            cells@.len() == k,
            forall|j: int| 0 <= j < k ==> heat_cell_ok(#[trigger] cells@[j], daily@, t, j),
        decreases HEATMAP_DAYS - k,
    {
        let day = start + k as i32;
        let date = match Date::from_day_number(day) {
            Some(date) => date,
            None => {
                proof {
                    assert(false);
                }
                today
            },
        };
        let tokens = slots[k];
        let cell = HeatCell {
            date,
            tokens,
            level: token_level(tokens, peak),
            future: day > today_n,
        };
        cells.push(cell);
        k = k + 1;
    }
    cells
}

} // verus!

verus! {

/// The first `k` characters of `digits` written with a comma before each
/// digit (but the first) that starts a group of three counted from the end.
pub open spec fn grouped_prefix(digits: Seq<char>, k: int) -> Seq<char>
    decreases k,
{
    if k <= 0 {
        Seq::empty()
    } else {
        let i = k - 1;
        let before = grouped_prefix(digits, i);
        let with_comma = if i > 0 && (digits.len() - i) % 3 == 0 {
            before.push(',')
        } else {
            before
        };
        with_comma.push(digits[i])
    }
}

/// The decimal representation of `n` with thousands separated by commas.
pub open spec fn grouped_decimal(n: nat) -> Seq<char> {
    let digits = decimal_digits(n);
    grouped_prefix(digits, digits.len() as int)
}

/// An exact token count with thousands grouped, such as `2,386,420`.
pub fn format_tokens(tokens: u64) -> (text: String)
    ensures
        text@ == grouped_decimal(tokens as nat),
{
    let digits = decimal_chars(tokens);
    let count = digits.len();
    let mut text = String::new();
    let mut i: usize = 0;
    while i < count
        invariant
            count == digits@.len(),
            i <= count,
            text@ == grouped_prefix(digits@, i as int),
        decreases count - i,
    {
        if i > 0 && (count - i) % 3 == 0 {
            push_char(&mut text, ',');
        }
        push_char(&mut text, digits[i]);
        i = i + 1;
    }
    text
}

/// The label of a month: its number followed by `月`.
pub open spec fn month_label_text(month: int) -> Seq<char> {
    decimal_digits(month as nat).push('月')
}

/// The month of the first day of week column `w`.
pub open spec fn week_month(cells: Seq<HeatCell>, w: int) -> int {
    month_of_day(cells[7 * w].date.day())
}

/// The month labels of the first `w` week columns: a column is labelled when
/// it is the first one or its month differs from the column before.
pub open spec fn month_labels_upto(cells: Seq<HeatCell>, w: int) -> Seq<(int, Seq<char>)>
    decreases w,
{
    if w <= 0 {
        Seq::empty()
    } else {
        let before = month_labels_upto(cells, w - 1);
        let month = week_month(cells, w - 1);
        if w - 1 == 0 || week_month(cells, w - 2) != month {
            before.push((w - 1, month_label_text(month)))
        } else {
            before
        }
    }
}

/// The number of week columns of a list of positions (a last, partial week
/// counts).
pub open spec fn week_count(len: int) -> int {
    (len + 6) / 7
}

/// Whether `labels` holds the given week indices and texts.
pub open spec fn labels_match(labels: Seq<(usize, String)>, expected: Seq<(int, Seq<char>)>) -> bool {
    &&& labels.len() == expected.len()
    &&& forall|i: int|
        0 <= i < labels.len() ==> (#[trigger] labels[i]).0 as int == expected[i].0 && labels[i].1@
            == expected[i].1
}

/// The month labels above the heatmap: one at each week column whose first
/// day falls in another month than the column before.
pub fn month_labels(cells: &[HeatCell]) -> (labels: Vec<(usize, String)>)
    ensures
        labels_match(labels@, month_labels_upto(cells@, week_count(cells@.len() as int))),
        forall|i: int|
            0 <= i < labels@.len() ==> 1 <= week_month(cells@, (#[trigger] labels@[i]).0 as int) <= 12,
{
    let mut labels: Vec<(usize, String)> = Vec::new();
    let mut previous: Option<u32> = None;
    let count = cells.len();
    let weeks = count / 7 + if count % 7 > 0 { 1 } else { 0 };
    assert(weeks == week_count(cells@.len() as int));
    let mut week: usize = 0;
    while week < weeks
        invariant
            weeks == week_count(cells@.len() as int),
            week <= weeks,
            labels_match(labels@, month_labels_upto(cells@, week as int)),
            week == 0 ==> previous is None,
            week > 0 ==> previous is Some && previous.unwrap() as int == week_month(cells@, week - 1),
            cells@.len() == count,
            forall|i: int|
                0 <= i < labels@.len() ==> 1 <= week_month(cells@, (#[trigger] labels@[i]).0 as int) <= 12,
        decreases weeks - week,
    {
        assert(week * 7 < count) by (nonlinear_arith)
            requires
                week < weeks,
                weeks == (count + 6) / 7,
        ;
        let month = cells[week * 7].date.month();
        proof {
            assert(week_month(cells@, week as int) == month);
        }
        let repeated = match previous {
            Some(p) => p == month,
            None => false,
        };
        if !repeated {
            let digits = decimal_chars(month as u64);
            let mut text = crate::text::string_of(&digits);
            push_char(&mut text, '月');
            let ghost old_labels = labels@;
            labels.push((week, text));
            proof {
                assert forall|i: int| 0 <= i < labels@.len() implies (#[trigger] labels@[i]).0 as int
                    == month_labels_upto(cells@, week + 1)[i].0 && labels@[i].1@
                    == month_labels_upto(cells@, week + 1)[i].1 by {
                    if i < old_labels.len() {
                        assert(labels@[i] == old_labels[i]);
                    }
                }
                assert forall|i: int| 0 <= i < labels@.len() implies 1 <= week_month(
                    cells@,
                    (#[trigger] labels@[i]).0 as int,
                ) <= 12 by {
                    if i < old_labels.len() {
                        assert(labels@[i] == old_labels[i]);
                    }
                }
            }
            previous = Some(month);
        }
        week = week + 1;
    }
    labels
}

} // verus!

verus! {

proof fn lemma_pow4_monotone(a: int, b: int)
    requires
        0 <= a <= b,
    ensures
        pow4(a) <= pow4(b),
{
    lemma_pow4_square(a);
    lemma_pow4_square(b);
    lemma_square_monotone(a, b);
    lemma_square_monotone(a * a, b * b);
}

/// Levels grow with the token count: for a fixed peak, a day with more
/// tokens never gets a lower level.
pub proof fn lemma_token_level_monotone(fewer: u64, more: u64, peak: u64)
    requires
        fewer <= more,
    ensures
        token_level_spec(fewer as int, peak as int) <= token_level_spec(more as int, peak as int),
{
    lemma_pow4_monotone(fewer + 1, more + 1);
}

/// Levels run from 0 to 4; a day with tokens under a non-zero peak gets at
/// least level 1, and the peak day itself gets level 4.
pub proof fn lemma_token_level_range(tokens: u64, peak: u64)
    ensures
        0 <= token_level_spec(tokens as int, peak as int) <= 4,
        token_level_spec(tokens as int, peak as int) == 0 <==> (tokens == 0 || peak == 0),
        peak > 0 ==> token_level_spec(peak as int, peak as int) == 4,
{
    if peak > 0 {
        let b = peak + 1;
        lemma_pow4_square(b as int);
        assert(b * b * b < (b * b) * (b * b)) by (nonlinear_arith)
            requires
                b >= 2,
        ;
        assert(b * b < b * b * b) by (nonlinear_arith)
            requires
                b >= 2,
        ;
        assert(b < b * b) by (nonlinear_arith)
            requires
                b >= 2,
        ;
    }
}

/// The calendar layout: the first position is a Sunday, position `i` falls
/// on weekday `i % 7` (Sunday = 0), today is at position `175 + weekday`,
/// and exactly the positions after it lie in the future.
pub proof fn lemma_heatmap_calendar(today: int, i: int)
    requires
        0 <= i < HEATMAP_DAYS,
    ensures
        heatmap_start(today) % 7 == 0,
        (heatmap_start(today) + i) % 7 == i % 7,
        heatmap_start(today) + 7 * (HEATMAP_WEEKS - 1) + today % 7 == today,
        (heatmap_start(today) + i > today) <==> (i > 7 * (HEATMAP_WEEKS - 1) + today % 7),
{
    let start = heatmap_start(today);
    assert(start == 7 * (today / 7 - 25)) by {
        vstd::arithmetic::div_mod::lemma_fundamental_div_mod(today, 7);
    }
    vstd::arithmetic::div_mod::lemma_mod_multiples_vanish(today / 7 - 25, 0, 7);
    vstd::arithmetic::div_mod::lemma_mod_multiples_vanish(today / 7 - 25, i, 7);
}

/// Counting in the other direction: without its commas, a grouped number
/// reads as its plain decimal digits.
pub open spec fn without_commas(text: Seq<char>) -> Seq<char> {
    text.filter(|c: char| c != ',')
}

proof fn lemma_grouped_prefix_digits(digits: Seq<char>, k: int)
    requires
        0 <= k <= digits.len(),
        forall|i: int| 0 <= i < digits.len() ==> digits[i] != ',',
    ensures
        without_commas(grouped_prefix(digits, k)) == digits.take(k),
    decreases k,
{
    reveal_with_fuel(Seq::filter, 1);
    if k > 0 {
        let i = k - 1;
        lemma_grouped_prefix_digits(digits, i);
        let before = grouped_prefix(digits, i);
        before.push(',').lemma_filter_push(digits[i], |c: char| c != ',');
        before.lemma_filter_push(',', |c: char| c != ',');
        before.lemma_filter_push(digits[i], |c: char| c != ',');
        assert(digits.take(k) =~= digits.take(i).push(digits[i]));
    }
}

/// Grouping keeps the digits: removing the commas of a formatted token count
/// gives its decimal digits.
pub proof fn lemma_grouping_keeps_digits(n: nat)
    ensures
        without_commas(grouped_decimal(n)) == decimal_digits(n),
{
    lemma_decimal_digits_are_digits(n);
    let digits = decimal_digits(n);
    assert forall|i: int| 0 <= i < digits.len() implies digits[i] != ',' by {
        assert('0' <= digits[i] <= '9');
    }
    lemma_grouped_prefix_digits(digits, digits.len() as int);
    assert(digits.take(digits.len() as int) =~= digits);
}

proof fn lemma_decimal_digits_are_digits(n: nat)
    ensures
        forall|i: int|
            0 <= i < decimal_digits(n).len() ==> '0' <= #[trigger] decimal_digits(n)[i] <= '9',
    decreases n,
{
    if n >= 10 {
        lemma_decimal_digits_are_digits(n / 10);
        let before = decimal_digits(n / 10);
        let d = digit_char((n % 10) as int);
        assert('0' <= d <= '9');
        assert forall|i: int| 0 <= i < decimal_digits(n).len() implies '0' <= #[trigger] decimal_digits(
            n,
        )[i] <= '9' by {
            if i < before.len() {
                assert(decimal_digits(n)[i] == before[i]);
            } else {
                assert(decimal_digits(n)[i] == d);
            }
        }
    } else {
        assert('0' <= digit_char(n as int) <= '9');
    }
}

} // verus!

verus! {

proof fn lemma_shown_peak_is_max(daily: Seq<DailyUsage>, today: int, start: int, k: int)
    requires
        k >= 0,
    ensures
        forall|j: int| 0 <= j < k ==> #[trigger] shown_tokens(daily, today, start + j) <= shown_peak(daily, today, start, k),
        shown_peak(daily, today, start, k) == 0 || exists|j: int|
            0 <= j < k && #[trigger] shown_tokens(daily, today, start + j) == shown_peak(daily, today, start, k),
    decreases k,
{
    if k > 0 {
        lemma_shown_peak_is_max(daily, today, start, k - 1);
        let here = shown_tokens(daily, today, start + (k - 1));
        assert(here == shown_tokens(daily, today, start + (k - 1)));
    }
}

/// Every level of the heatmap is measured against the busiest day on show:
/// there is one peak, no position shows more tokens than it, it is zero or
/// the count of some position, and each position's level is the level of
/// its count under that peak.
pub proof fn lemma_heatmap_levels_use_visible_peak(cells: Seq<HeatCell>, daily: Seq<DailyUsage>, today: int) -> (peak: int)
    requires
        cells.len() == HEATMAP_DAYS,
        forall|i: int| 0 <= i < HEATMAP_DAYS ==> heat_cell_ok(#[trigger] cells[i], daily, today, i),
    ensures
        forall|i: int| 0 <= i < HEATMAP_DAYS ==> (#[trigger] cells[i]).tokens <= peak,
        peak == 0 || exists|j: int| 0 <= j < HEATMAP_DAYS && (#[trigger] cells[j]).tokens == peak,
        forall|i: int|
            0 <= i < HEATMAP_DAYS ==> (#[trigger] cells[i]).level == token_level_spec(cells[i].tokens as int, peak),
{
    let start = heatmap_start(today);
    let peak = shown_peak(daily, today, start, HEATMAP_DAYS as int) as int;
    lemma_shown_peak_is_max(daily, today, start, HEATMAP_DAYS as int);
    assert forall|i: int| 0 <= i < HEATMAP_DAYS implies (#[trigger] cells[i]).tokens <= peak by {
        assert(heat_cell_ok(cells[i], daily, today, i));
        assert(shown_tokens(daily, today, start + i) <= peak);
    }
    if peak != 0 {
        let j = choose|j: int|
            0 <= j < HEATMAP_DAYS && #[trigger] shown_tokens(daily, today, start + j) == peak;
        assert(heat_cell_ok(cells[j], daily, today, j));
        assert(cells[j].tokens == peak);
    }
    peak
}

proof fn lemma_latest_none(daily: Seq<DailyUsage>, day: int)
    requires
        forall|k: int| 0 <= k < daily.len() ==> (#[trigger] daily[k]).date.day() != day,
    ensures
        latest_tokens(daily, day) is None,
    decreases daily.len(),
{
    if daily.len() > 0 {
        let rest = daily.drop_last();
        assert(daily[daily.len() - 1].date.day() != day);
        assert forall|k: int| 0 <= k < rest.len() implies (#[trigger] rest[k]).date.day() != day by {
            assert(rest[k] == daily[k]);
        }
        lemma_latest_none(rest, day);
    }
}

proof fn lemma_latest_some(daily: Seq<DailyUsage>, day: int, k: int)
    requires
        0 <= k < daily.len(),
        daily[k].date.day() == day,
        forall|j: int| k < j < daily.len() ==> (#[trigger] daily[j]).date.day() != day,
    ensures
        latest_tokens(daily, day) == Some(daily[k].tokens),
    decreases daily.len(),
{
    if k < daily.len() - 1 {
        let rest = daily.drop_last();
        assert(daily[daily.len() - 1].date.day() != day);
        assert(rest[k] == daily[k]);
        assert forall|j: int| k < j < rest.len() implies (#[trigger] rest[j]).date.day() != day by {
            assert(rest[j] == daily[j]);
        }
        lemma_latest_some(rest, day, k);
    }
}

/// What each heatmap position shows: a day after today counts zero and is
/// marked future; any other day is not future and shows the count of the
/// last entry of `daily` for that day, or zero when it has none.
pub proof fn lemma_heatmap_tokens(cells: Seq<HeatCell>, daily: Seq<DailyUsage>, today: int, i: int)
    requires
        0 <= i < HEATMAP_DAYS,
        heat_cell_ok(cells[i], daily, today, i),
    ensures
        cells[i].date.day() > today ==> cells[i].future && cells[i].tokens == 0,
        cells[i].date.day() <= today ==> !cells[i].future,
        cells[i].date.day() <= today && (forall|k: int|
            0 <= k < daily.len() ==> (#[trigger] daily[k]).date.day() != cells[i].date.day()) ==> cells[i].tokens
            == 0,
        forall|k: int|
            0 <= k < daily.len() && cells[i].date.day() <= today && (#[trigger] daily[k]).date.day()
                == cells[i].date.day() && (forall|j: int|
                k < j < daily.len() ==> daily[j].date.day() != cells[i].date.day()) ==> cells[i].tokens
                == daily[k].tokens,
{
    let day = cells[i].date.day();
    if forall|k: int| 0 <= k < daily.len() ==> (#[trigger] daily[k]).date.day() != day {
        lemma_latest_none(daily, day);
    }
    assert forall|k: int|
        0 <= k < daily.len() && day <= today && (#[trigger] daily[k]).date.day() == day && (forall|j: int|
            k < j < daily.len() ==> daily[j].date.day() != day) implies cells[i].tokens == daily[k].tokens by {
        lemma_latest_some(daily, day, k);
    }
}

} // verus!

verus! {

proof fn lemma_labels_upto(cells: Seq<HeatCell>, w: int)
    requires
        w >= 0,
    ensures
        forall|k: int|
            0 <= k < month_labels_upto(cells, w).len() ==> {
                let (c, text) = #[trigger] month_labels_upto(cells, w)[k];
                &&& 0 <= c < w
                &&& text == decimal_digits(week_month(cells, c) as nat).push('月')
                &&& (c == 0 || week_month(cells, c - 1) != week_month(cells, c))
            },
        forall|k1: int, k2: int|
            0 <= k1 < k2 < month_labels_upto(cells, w).len() ==> (#[trigger] month_labels_upto(cells, w)[k1]).0
                < (#[trigger] month_labels_upto(cells, w)[k2]).0,
        forall|c: int|
            #![trigger week_month(cells, c)]
            0 <= c < w && (c == 0 || week_month(cells, c - 1) != week_month(cells, c)) ==> exists|k: int|
                0 <= k < month_labels_upto(cells, w).len() && (#[trigger] month_labels_upto(cells, w)[k]).0
                    == c,
    decreases w,
{
    if w > 0 {
        lemma_labels_upto(cells, w - 1);
        let before = month_labels_upto(cells, w - 1);
        let all = month_labels_upto(cells, w);
        assert forall|k: int| 0 <= k < before.len() implies #[trigger] all[k] == before[k] || all == before by {}
        assert forall|c: int|
            #![trigger week_month(cells, c)]
            0 <= c < w && (c == 0 || week_month(cells, c - 1) != week_month(cells, c)) implies exists|k: int|
                0 <= k < all.len() && (#[trigger] all[k]).0 == c by {
            if c < w - 1 {
                let k = choose|k: int| 0 <= k < before.len() && (#[trigger] before[k]).0 == c;
                assert(all[k] == before[k]);
            } else {
                assert(all[all.len() - 1].0 == c);
            }
        }
    }
}

/// The month labels name the months of their columns: each label stands on
/// a column whose first day starts a new month (or on the first column),
/// reads that month's number, 1 to 12, in full decimal followed by `月`,
/// labels come in column order, and every column that starts a new month
/// has one.
#[verifier::rlimit(30)]
pub proof fn lemma_month_labels_name_months(cells: Seq<HeatCell>, labels: Seq<(usize, String)>)
    requires
        labels_match(labels, month_labels_upto(cells, week_count(cells.len() as int))),
        forall|i: int| 0 <= i < labels.len() ==> 1 <= week_month(cells, (#[trigger] labels[i]).0 as int) <= 12,
    ensures
        forall|i: int|
            0 <= i < labels.len() ==> {
                let c = (#[trigger] labels[i]).0 as int;
                let m = week_month(cells, c);
                &&& 0 <= c < week_count(cells.len() as int)
                &&& c == 0 || week_month(cells, c - 1) != m
                &&& labels[i].1@ == decimal_digits(m as nat).push('月')
                &&& m < 10 ==> labels[i].1@ == seq![digit_char(m), '月']
                &&& m >= 10 ==> labels[i].1@ == seq!['1', digit_char(m - 10), '月']
            },
        forall|i: int, j: int| 0 <= i < j < labels.len() ==> (#[trigger] labels[i]).0 < (#[trigger] labels[j]).0,
        forall|c: int|
            #![trigger week_month(cells, c)]
            0 <= c < week_count(cells.len() as int) && (c == 0 || week_month(cells, c - 1) != week_month(cells, c))
                ==> exists|i: int| 0 <= i < labels.len() && (#[trigger] labels[i]).0 == c,
{
    let w = week_count(cells.len() as int);
    let expected = month_labels_upto(cells, w);
    assert(w >= 0);
    lemma_labels_upto(cells, w);
    assert forall|i: int| 0 <= i < labels.len() implies {
        let c = (#[trigger] labels[i]).0 as int;
        let m = week_month(cells, c);
        &&& 0 <= c < w
        &&& c == 0 || week_month(cells, c - 1) != m
        &&& labels[i].1@ == decimal_digits(m as nat).push('月')
        &&& m < 10 ==> labels[i].1@ == seq![digit_char(m), '月']
        &&& m >= 10 ==> labels[i].1@ == seq!['1', digit_char(m - 10), '月']
    } by {
        let m = week_month(cells, labels[i].0 as int);
        assert(expected[i].0 == labels[i].0 as int);
        reveal_with_fuel(decimal_digits, 2);
        if m >= 10 {
            assert(decimal_digits(m as nat) == seq![digit_char(1)].push(digit_char(m % 10)));
            assert(labels[i].1@ =~= seq!['1', digit_char(m - 10), '月']);
        } else {
            assert(labels[i].1@ =~= seq![digit_char(m), '月']);
        }
    }
    assert forall|i: int, j: int| 0 <= i < j < labels.len() implies (#[trigger] labels[i]).0 < (
    #[trigger] labels[j]).0 by {
        assert(expected[i].0 < expected[j].0);
    }
    assert forall|c: int|
        #![trigger week_month(cells, c)]
        0 <= c < w && (c == 0 || week_month(cells, c - 1) != week_month(cells, c)) implies exists|i: int|
            0 <= i < labels.len() && (#[trigger] labels[i]).0 == c by {
        let k = choose|k: int| 0 <= k < expected.len() && (#[trigger] expected[k]).0 == c;
        assert(labels[k].0 as int == expected[k].0);
    }
}

} // verus!

verus! {

/// The level is the smallest `k` for which `4 * ln(1 + tokens) <= k *
/// ln(1 + peak)`, that is `(1 + tokens)^4 <= (1 + peak)^k`, capped at 4:
/// for a day with tokens under a non-zero peak, the level is at most `k`
/// (for `k` from 1 to 3) exactly when that inequality holds.
pub proof fn lemma_token_level_thresholds(tokens: u64, peak: u64)
    requires
        tokens > 0,
        peak > 0,
    ensures
        ({
            let a = tokens + 1;
            let b = peak + 1;
            &&& token_level_spec(tokens as int, peak as int) <= 1 <==> a * a * a * a <= b
            &&& token_level_spec(tokens as int, peak as int) <= 2 <==> a * a * a * a <= b * b
            &&& token_level_spec(tokens as int, peak as int) <= 3 <==> a * a * a * a <= b * b * b
            &&& 1 <= token_level_spec(tokens as int, peak as int) <= 4
        }),
{
    let a = tokens + 1;
    let b = peak + 1;
    assert(b <= b * b) by (nonlinear_arith)
        requires
            b >= 2,
    ;
    assert(b * b <= b * b * b) by (nonlinear_arith)
        requires
            b >= 2,
    ;
}

} // verus!
