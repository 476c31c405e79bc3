use codex_quota_ball::{
    config::Position,
    ui::{ball_label, concise_error, initial_position, status_text, PositionSettleTracker},
    x11::{clamp_to_bounds, clamp_to_known_bounds, select_bounds, Bounds},
};

#[test]
fn monitor_bounds_support_negative_and_positive_origins() {
    let monitors = [
        Bounds {
            x: -1920,
            y: 0,
            width: 1920,
            height: 1080,
        },
        Bounds {
            x: 0,
            y: 0,
            width: 2560,
            height: 1440,
        },
        Bounds {
            x: 2560,
            y: 200,
            width: 1600,
            height: 900,
        },
    ];

    assert_eq!(
        select_bounds(&monitors, 1, Position { x: -100, y: 500 }),
        Some(monitors[0])
    );
    assert_eq!(
        clamp_to_bounds(Position { x: -2000, y: -20 }, monitors[0], 88, 88),
        Position { x: -1920, y: 0 }
    );
    assert_eq!(
        clamp_to_bounds(Position { x: 5000, y: 1200 }, monitors[2], 360, 260),
        Position { x: 3800, y: 840 }
    );
}

#[test]
fn monitor_selection_falls_back_to_primary() {
    let monitors = [
        Bounds {
            x: 100,
            y: 100,
            width: 800,
            height: 600,
        },
        Bounds {
            x: 900,
            y: 100,
            width: 1200,
            height: 900,
        },
    ];

    assert_eq!(
        select_bounds(&monitors, 1, Position { x: -500, y: -500 }),
        Some(monitors[1])
    );
    assert_eq!(
        select_bounds(&monitors, 99, Position { x: -500, y: -500 }),
        Some(monitors[0])
    );
    assert_eq!(select_bounds(&[], 0, Position { x: 0, y: 0 }), None);
}

#[test]
fn logical_bounds_clamp_a_window_inside() {
    let primary = Bounds {
        x: 0,
        y: 0,
        width: 1920,
        height: 1080,
    };
    assert_eq!(
        clamp_to_bounds(Position { x: 1800, y: 1000 }, primary, 360, 260),
        Position { x: 1560, y: 820 }
    );
}

#[test]
fn unknown_bounds_preserve_position() {
    let current = Position { x: -1600, y: 80 };
    assert_eq!(clamp_to_known_bounds(current, None, 360, 260), current);
}

#[test]
fn position_is_saved_once_only_after_movement_settles() {
    let mut tracker = PositionSettleTracker::default();
    tracker.start(Some(Position { x: 10, y: 10 }), 0);

    assert_eq!(tracker.observe(Position { x: 20, y: 10 }, 100), None);
    assert_eq!(tracker.observe(Position { x: 30, y: 10 }, 450), None);
    assert_eq!(tracker.observe(Position { x: 30, y: 10 }, 949), None);
    assert_eq!(
        tracker.observe(Position { x: 30, y: 10 }, 950),
        Some(Position { x: 30, y: 10 })
    );
    assert_eq!(tracker.observe(Position { x: 30, y: 10 }, 1_500), None);
}

#[test]
fn an_idle_tracker_reports_nothing() {
    let mut tracker = PositionSettleTracker::default();
    assert_eq!(tracker.observe(Position { x: 1, y: 1 }, 10_000), None);
    tracker.start(None, 0);
    assert_eq!(tracker.observe(Position { x: 1, y: 1 }, 10_000), None);
    assert_eq!(
        tracker.observe(Position { x: 1, y: 1 }, 10_500),
        Some(Position { x: 1, y: 1 })
    );
}

#[test]
fn concise_error_is_unicode_safe_and_bounded() {
    assert_eq!(concise_error("网络错误，请稍后重试", 6), "网络错误，…");
    assert_eq!(concise_error("short", 10), "short");
    assert_eq!(concise_error("anything", 0), "");
    assert!(concise_error("éééééé", 4).chars().count() <= 4);
}

#[test]
fn concise_error_keeps_a_message_that_fits_exactly() {
    assert_eq!(concise_error("abcdef", 6), "abcdef");
    assert_eq!(concise_error("abcdefg", 6), "abcde…");
    assert_eq!(concise_error("", 0), "");
}

#[test]
fn ball_shows_percentage_or_exclamation() {
    assert_eq!(ball_label(Some(72)), "72%");
    assert_eq!(ball_label(Some(0)), "0%");
    assert_eq!(ball_label(None), "!");
}

#[test]
fn status_line_prefers_stale_then_refreshing() {
    assert_eq!(status_text(true, true, Some(600)), "数据可能已过期");
    assert_eq!(status_text(false, true, Some(600)), "正在更新…");
    assert_eq!(status_text(false, false, Some(179)), "2 分钟前更新");
    assert_eq!(status_text(false, false, None), "等待首次更新");
}

#[test]
fn first_position_is_saved_or_upper_right_and_on_screen() {
    assert_eq!(initial_position(None, 1920, 1080), Position { x: 1808, y: 24 });
    assert_eq!(
        initial_position(Some(Position { x: 5000, y: 5000 }), 1920, 1080),
        Position { x: 1832, y: 992 }
    );
    assert_eq!(
        initial_position(Some(Position { x: 100, y: 200 }), 1920, 1080),
        Position { x: 100, y: 200 }
    );
}
