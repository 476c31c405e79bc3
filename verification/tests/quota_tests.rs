use codex_quota_ball::json::Json;
use codex_quota_ball::quota::{
    format_reset_time, local_reset_label, parse_quota_response, remaining_percent, ring_tone, weekly_window,
    QuotaParseErrorKind, QuotaSnapshot, QuotaWindow, RingTone,
};

fn integer(n: i128) -> Json {
    Json::Integer(n)
}

fn obj(members: Vec<(&str, Json)>) -> Json {
    Json::Object(
        members
            .into_iter()
            .map(|(k, v)| (k.to_owned(), v))
            .collect(),
    )
}

#[test]
fn converts_used_to_remaining_and_clamps_bad_values() {
    assert_eq!(remaining_percent(i64::MIN), 100);
    assert_eq!(remaining_percent(-4), 100);
    assert_eq!(remaining_percent(0), 100);
    assert_eq!(remaining_percent(50), 50);
    assert_eq!(remaining_percent(80), 20);
    assert_eq!(remaining_percent(100), 0);
    assert_eq!(remaining_percent(140), 0);
}

#[test]
fn selects_exact_color_boundaries() {
    assert_eq!(ring_tone(Some(255)), RingTone::Green);
    assert_eq!(ring_tone(Some(50)), RingTone::Green);
    assert_eq!(ring_tone(Some(49)), RingTone::Yellow);
    assert_eq!(ring_tone(Some(20)), RingTone::Yellow);
    assert_eq!(ring_tone(Some(19)), RingTone::Red);
    assert_eq!(ring_tone(None), RingTone::Gray);
}

#[test]
fn parses_primary_and_secondary_windows() {
    let response = obj(vec![
        ("id", integer(2)),
        (
            "result",
            obj(vec![(
                "rateLimits",
                obj(vec![
                    (
                        "primary",
                        obj(vec![
                            ("usedPercent", integer(28)),
                            ("resetsAt", integer(1784109000)),
                            ("windowDurationMins", integer(300)),
                        ]),
                    ),
                    (
                        "secondary",
                        obj(vec![
                            ("usedPercent", integer(59)),
                            ("resetsAt", integer(1784682000)),
                            ("windowDurationMins", integer(10080)),
                        ]),
                    ),
                    ("unknownFutureField", Json::Bool(true)),
                ]),
            )]),
        ),
    ]);
    let parsed = parse_quota_response(&response).unwrap();
    assert_eq!(parsed.primary.unwrap().remaining_percent, 72);
    assert_eq!(parsed.secondary.unwrap().remaining_percent, 41);
}

#[test]
fn prefers_the_codex_multi_bucket_when_present() {
    let response = obj(vec![(
        "result",
        obj(vec![
            (
                "rateLimits",
                obj(vec![("primary", obj(vec![("usedPercent", integer(99))]))]),
            ),
            (
                "rateLimitsByLimitId",
                obj(vec![(
                    "codex",
                    obj(vec![("primary", obj(vec![("usedPercent", integer(25))]))]),
                )]),
            ),
        ]),
    )]);
    assert_eq!(
        parse_quota_response(&response)
            .unwrap()
            .primary
            .unwrap()
            .remaining_percent,
        75
    );
}

#[test]
fn weekly_selection_uses_longest_window_and_prefers_secondary_on_ties() {
    let primary = QuotaWindow {
        remaining_percent: 80,
        resets_at: None,
        window_duration_mins: Some(300),
    };
    let secondary = QuotaWindow {
        remaining_percent: 55,
        resets_at: None,
        window_duration_mins: Some(10080),
    };
    let snapshot = QuotaSnapshot {
        primary: Some(primary),
        secondary: Some(secondary.clone()),
    };
    assert_eq!(weekly_window(&snapshot), Some(&secondary));

    let missing_durations = QuotaSnapshot {
        primary: Some(QuotaWindow {
            remaining_percent: 70,
            resets_at: None,
            window_duration_mins: None,
        }),
        secondary: Some(QuotaWindow {
            remaining_percent: 60,
            resets_at: None,
            window_duration_mins: None,
        }),
    };
    assert_eq!(
        weekly_window(&missing_durations).unwrap().remaining_percent,
        60
    );
}

#[test]
fn quota_parser_accepts_either_single_window_but_rejects_no_windows() {
    let secondary_only = parse_quota_response(&obj(vec![(
        "result",
        obj(vec![(
            "rateLimits",
            obj(vec![
                ("primary", Json::Null),
                (
                    "secondary",
                    obj(vec![
                        ("usedPercent", integer(40)),
                        ("windowDurationMins", integer(10080)),
                    ]),
                ),
            ]),
        )]),
    )]))
    .unwrap();
    assert_eq!(
        weekly_window(&secondary_only).unwrap().remaining_percent,
        60
    );

    assert!(parse_quota_response(&obj(vec![(
        "result",
        obj(vec![(
            "rateLimits",
            obj(vec![("primary", Json::Null), ("secondary", Json::Null)]),
        )]),
    )]))
    .is_err());
}

#[test]
fn invalid_timestamp_is_displayed_as_unavailable() {
    assert_eq!(format_reset_time(Some(i64::MAX)), "不可用");
    assert_eq!(format_reset_time(None), "不可用");
}

#[test]
fn valid_reset_time_has_month_day_minute_shape() {
    let text = format_reset_time(Some(1_784_109_000));
    let chars: Vec<char> = text.chars().collect();
    assert_eq!(chars.len(), 11);
    assert_eq!(chars[2], '-');
    assert_eq!(chars[5], ' ');
    assert_eq!(chars[8], ':');
    assert!(chars
        .iter()
        .enumerate()
        .all(|(i, c)| matches!(i, 2 | 5 | 8) || c.is_ascii_digit()));
}

#[test]
fn each_parse_error_kind_has_its_input() {
    let kind = |value: Json| parse_quota_response(&value).unwrap_err().kind;
    assert_eq!(kind(obj(vec![("id", integer(1))])), QuotaParseErrorKind::NoResult);
    assert_eq!(
        kind(obj(vec![("result", obj(vec![]))])),
        QuotaParseErrorKind::NoRateLimits
    );
    assert_eq!(
        kind(obj(vec![(
            "result",
            obj(vec![("rateLimits", Json::Str("full".to_owned()))]),
        )])),
        QuotaParseErrorKind::Incompatible
    );
    assert_eq!(
        kind(obj(vec![(
            "result",
            obj(vec![(
                "rateLimits",
                obj(vec![("primary", obj(vec![("usedPercent", Json::Decimal)]))]),
            )]),
        )])),
        QuotaParseErrorKind::Incompatible
    );
    assert_eq!(
        kind(obj(vec![("result", obj(vec![("rateLimits", obj(vec![]))]))])),
        QuotaParseErrorKind::Unavailable
    );
    let error = parse_quota_response(&obj(vec![("id", integer(1))])).unwrap_err();
    assert_eq!(error.message(), "response has no result");
}

#[test]
fn null_codex_bucket_falls_back_and_arrays_are_positional() {
    let response = obj(vec![(
        "result",
        obj(vec![
            ("rateLimitsByLimitId", obj(vec![("codex", Json::Null)])),
            (
                "rateLimits",
                Json::Array(vec![
                    Json::Array(vec![integer(10), Json::Null, integer(300)]),
                    Json::Null,
                ]),
            ),
        ]),
    )]);
    let parsed = parse_quota_response(&response).unwrap();
    let primary = parsed.primary.unwrap();
    assert_eq!(primary.remaining_percent, 90);
    assert_eq!(primary.window_duration_mins, Some(300));
    assert_eq!(parsed.secondary, None);
}

#[test]
fn local_labels_read_the_local_clock() {
    assert_eq!(local_reset_label(1_784_109_000), "07-15 09:50");
    assert_eq!(local_reset_label(0), "01-01 00:00");
    assert_eq!(local_reset_label(-1), "12-31 23:59");
    assert_eq!(local_reset_label(951_868_799), "02-29 23:59");
    assert_eq!(local_reset_label(i64::MAX), "不可用");
    assert_eq!(local_reset_label(i64::MIN), "不可用");
}

#[test]
fn local_labels_past_the_representable_dates_read_as_the_adjacent_day() {
    assert_eq!(local_reset_label(8_210_266_876_800 - 60), "12-31 23:59");
    assert_eq!(local_reset_label(8_210_266_876_800 + 18_000), "01-01 05:00");
    assert_eq!(local_reset_label(8_210_266_876_800 + 86_400), "不可用");
    assert_eq!(local_reset_label(-8_334_601_228_800), "01-01 00:00");
    assert_eq!(local_reset_label(-8_334_601_228_800 - 60), "12-31 23:59");
    assert_eq!(local_reset_label(-8_334_601_228_800 - 86_401), "不可用");
}
