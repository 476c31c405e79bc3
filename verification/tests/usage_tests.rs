use codex_quota_ball::daily::{listing_of, record_day};
use chrono::{Datelike, NaiveDate};
use codex_quota_ball::calendar::Date;
use codex_quota_ball::json::Json;
use codex_quota_ball::usage::{
    format_tokens, heatmap_cells, month_labels, parse_usage_response, token_level, DailyUsage,
    UsageParseErrorKind,
};

fn obj(members: Vec<(&str, Json)>) -> Json {
    Json::Object(
        members
            .into_iter()
            .map(|(k, v)| (k.to_owned(), v))
            .collect(),
    )
}

fn text(s: &str) -> Json {
    Json::Str(s.to_owned())
}

fn bucket(date: &str, tokens: i128) -> Json {
    obj(vec![("startDate", text(date)), ("tokens", Json::Integer(tokens))])
}

fn ymd(year: i32, month: u32, day: u32) -> Date {
    Date::from_ymd(year, month, day).unwrap()
}

#[test]
fn parses_daily_buckets_ignores_invalid_values_and_keeps_duplicate_maximum() {
    let parsed = parse_usage_response(&obj(vec![(
        "result",
        obj(vec![
            (
                "dailyUsageBuckets",
                Json::Array(vec![
                    bucket("2026-07-13", 1200),
                    bucket("2026-07-13", 900),
                    bucket("bad-date", 500),
                    bucket("2026-07-14", -1),
                ]),
            ),
            ("summary", obj(vec![])),
        ]),
    )]))
    .unwrap();
    let daily = parsed.daily.unwrap();
    assert_eq!(daily.len(), 1);
    assert_eq!(daily[0].date, ymd(2026, 7, 13));
    assert_eq!(daily[0].tokens, 1200);
}

#[test]
fn distinguishes_unavailable_history_from_valid_empty_history() {
    let unavailable = parse_usage_response(&obj(vec![(
        "result",
        obj(vec![
            ("dailyUsageBuckets", Json::Null),
            ("summary", obj(vec![])),
        ]),
    )]))
    .unwrap();
    let empty = parse_usage_response(&obj(vec![(
        "result",
        obj(vec![
            ("dailyUsageBuckets", Json::Array(vec![])),
            ("summary", obj(vec![])),
        ]),
    )]))
    .unwrap();
    assert_eq!(unavailable.daily, None);
    assert_eq!(empty.daily, Some(vec![]));
}

#[test]
fn builds_26_sunday_first_weeks_and_marks_future_positions() {
    let today = ymd(2026, 7, 15);
    let cells = heatmap_cells(today, &[]);
    assert_eq!(cells.len(), 182);
    assert_eq!(cells[0].date, ymd(2026, 1, 18));
    assert_eq!(cells[178].date, today);
    assert!(!cells[178].future);
    assert!(cells[179].future);
    assert_eq!(cells[181].date, ymd(2026, 7, 18));
    let labels = month_labels(&cells);
    assert_eq!(labels[0], (0, "1月".to_owned()));
    assert_eq!(labels[1], (2, "2月".to_owned()));
}

#[test]
fn calendar_crosses_years_and_contains_leap_day() {
    let today = ymd(2024, 3, 1);
    let cells = heatmap_cells(today, &[]);
    assert!(cells.iter().any(|cell| { cell.date == ymd(2024, 2, 29) }));
    let first = NaiveDate::from_num_days_from_ce_opt(cells[0].date.day_number()).unwrap();
    assert_eq!(first.weekday(), chrono::Weekday::Sun);
    assert_eq!(cells[0].date.weekday_from_sunday(), 0);
}

#[test]
fn logarithmic_levels_are_monotonic_and_peak_at_four() {
    let levels = [0, 1, 10, 100, 1000].map(|tokens| token_level(tokens, 1000));
    assert_eq!(levels[0], 0);
    assert!(levels.windows(2).all(|pair| pair[0] <= pair[1]));
    assert_eq!(levels[4], 4);
    assert_eq!(token_level(u64::MAX, u64::MAX), 4);
}

#[test]
fn formats_exact_token_counts_with_grouping() {
    assert_eq!(format_tokens(0), "0");
    assert_eq!(format_tokens(2_386_420), "2,386,420");
}

#[test]
fn level_thresholds_follow_the_logarithmic_formula() {
    assert_eq!(token_level(1, 1000), 1);
    assert_eq!(token_level(10, 1000), 2);
    assert_eq!(token_level(100, 1000), 3);
    assert_eq!(token_level(3, 15), 2);
    assert_eq!(token_level(4, 15), 3);
    assert_eq!(token_level(5, 0), 0);
    assert_eq!(token_level(2000, 1000), 4);
    assert_eq!(token_level(u64::MAX - 1, u64::MAX), 4);
    assert_eq!(token_level(1 << 40, u64::MAX), 3);
    assert_eq!(token_level(1 << 31, u64::MAX), 2);
    assert_eq!(token_level(1 << 15, u64::MAX), 1);
}

#[test]
fn grouping_handles_every_digit_count() {
    assert_eq!(format_tokens(7), "7");
    assert_eq!(format_tokens(999), "999");
    assert_eq!(format_tokens(1000), "1,000");
    assert_eq!(format_tokens(100_000), "100,000");
    assert_eq!(format_tokens(u64::MAX), "18,446,744,073,709,551,615");
    assert_eq!(format_tokens(2_386_420).replace(',', ""), "2386420");
}

#[test]
fn heatmap_uses_the_latest_entry_and_levels_against_the_peak() {
    let today = ymd(2026, 7, 15);
    let daily = [
        DailyUsage { date: ymd(2026, 7, 14), tokens: 100 },
        DailyUsage { date: ymd(2026, 7, 14), tokens: 10 },
        DailyUsage { date: ymd(2026, 7, 15), tokens: 1000 },
        DailyUsage { date: ymd(2026, 7, 16), tokens: 99_999 },
        DailyUsage { date: ymd(2025, 1, 1), tokens: 99_999 },
    ];
    let cells = heatmap_cells(today, &daily);
    assert_eq!(cells[177].date, ymd(2026, 7, 14));
    assert_eq!(cells[177].tokens, 10);
    assert_eq!(cells[177].level, token_level(10, 1000));
    assert_eq!(cells[178].tokens, 1000);
    assert_eq!(cells[178].level, 4);
    assert_eq!(cells[179].tokens, 0);
    assert!(cells[179].future);
    assert_eq!(cells[0].level, 0);
    for (i, cell) in cells.iter().enumerate() {
        assert_eq!(cell.date.weekday_from_sunday() as usize, i % 7);
    }
}

#[test]
fn month_labels_mark_each_new_month() {
    let cells = heatmap_cells(ymd(2026, 7, 15), &[]);
    let labels = month_labels(&cells);
    let months: Vec<&str> = labels.iter().map(|(_, text)| text.as_str()).collect();
    assert_eq!(months, ["1月", "2月", "3月", "4月", "5月", "6月", "7月"]);
    assert_eq!(month_labels(&cells[..1]), vec![(0, "1月".to_owned())]);
    assert!(month_labels(&[]).is_empty());
}

#[test]
fn usage_errors_have_their_inputs() {
    let no_result = parse_usage_response(&obj(vec![])).unwrap_err();
    assert_eq!(no_result.kind, UsageParseErrorKind::NoResult);
    assert_eq!(no_result.message(), "response has no result");
    let incompatible = parse_usage_response(&obj(vec![(
        "result",
        obj(vec![("dailyUsageBuckets", text("none"))]),
    )]))
    .unwrap_err();
    assert_eq!(incompatible.kind, UsageParseErrorKind::Incompatible);
    assert_eq!(
        parse_usage_response(&obj(vec![("result", obj(vec![]))]))
            .unwrap()
            .daily,
        None
    );
}

#[test]
fn buckets_come_out_in_date_order() {
    let parsed = parse_usage_response(&obj(vec![(
        "result",
        obj(vec![(
            "dailyUsageBuckets",
            Json::Array(vec![
                bucket("2026-07-15", 5),
                bucket("2026-07-13", 3),
                bucket("2026-07-14", 4),
                bucket("2026-07-13", 7),
                obj(vec![("startDate", text("2026-07-16")), ("tokens", Json::Decimal)]),
            ]),
        )]),
    )]))
    .unwrap();
    assert_eq!(
        parsed.daily.unwrap(),
        vec![
            DailyUsage { date: ymd(2026, 7, 13), tokens: 7 },
            DailyUsage { date: ymd(2026, 7, 14), tokens: 4 },
            DailyUsage { date: ymd(2026, 7, 15), tokens: 5 },
        ]
    );
}

#[test]
fn dates_follow_chrono() {
    let date = ymd(2026, 7, 15);
    assert_eq!(date.day_number(), 739_812);
    assert_eq!(date.month(), 7);
    assert_eq!(date.weekday_from_sunday(), 3);
    assert_eq!(Date::parse_iso("2026-07-15"), Some(date));
    assert_eq!(Date::parse_iso("2026-02-30"), None);
    assert_eq!(Date::from_ymd(2026, 13, 1), None);
    assert_eq!(Date::from_day_number(1).unwrap().month(), 1);
    assert_eq!(Date::from_day_number(i32::MAX), None);
}

#[test]
fn recorded_days_keep_the_larger_count_and_list_in_date_order() {
    let mut dates = std::collections::BTreeMap::new();
    record_day(&mut dates, 739_800, 5);
    record_day(&mut dates, 739_700, 9);
    record_day(&mut dates, 739_800, 3);
    record_day(&mut dates, 739_800, 12);
    let listed: Vec<(i32, u64)> = listing_of(&dates)
        .iter()
        .map(|day| (day.date.day_number(), day.tokens))
        .collect();
    assert_eq!(listed, vec![(739_700, 9), (739_800, 12)]);
}
