use codex_quota_ball::x11::{
    arrange_workareas, current_desktop, gtk_workareas_property, merge_rows, monitor_bounds,
    parse_workarea_rects, resolve_workareas, workareas_resolvable, Bounds, InputShapeAction, InputShapePolicy,
    MonitorInfo, ShapeBand, ShapeOutcome, INPUT_SHAPE_RETRY_MS,
};

fn rect(x: i32, y: i32, width: i32, height: i32) -> Bounds {
    Bounds {
        x,
        y,
        width,
        height,
    }
}

#[test]
fn input_shape_policy_connects_updates_and_idles() {
    let mut policy = InputShapePolicy::new();
    assert_eq!(policy.action(0, false), InputShapeAction::Connect);
    policy.connect_succeeded();
    assert_eq!(policy.action(0, false), InputShapeAction::Update);
    policy.update_succeeded();
    assert!(policy.cache_valid());
    assert_eq!(policy.action(0, true), InputShapeAction::Idle);
    assert_eq!(policy.action(0, false), InputShapeAction::Update);
}

#[test]
fn failed_connection_waits_for_the_retry_delay() {
    let mut policy = InputShapePolicy::default();
    policy.connect_failed(100);
    assert!(!policy.cache_valid());
    assert_eq!(policy.action(100 + INPUT_SHAPE_RETRY_MS - 1, false), InputShapeAction::Wait);
    assert_eq!(policy.action(100 + INPUT_SHAPE_RETRY_MS, false), InputShapeAction::Connect);
    policy.connect_failed(u64::MAX - 5);
    assert_eq!(policy.action(u64::MAX - 1, false), InputShapeAction::Wait);
    assert_eq!(policy.action(u64::MAX, false), InputShapeAction::Connect);
}

#[test]
fn failed_update_resets_then_retries() {
    let mut policy = InputShapePolicy::new();
    policy.connect_succeeded();
    policy.update_succeeded();
    policy.update_failed();
    assert!(!policy.cache_valid());
    assert_eq!(policy.action(0, true), InputShapeAction::Reset);
    policy.reset_succeeded(10);
    assert_eq!(policy.action(500, true), InputShapeAction::Wait);
    assert_eq!(policy.action(1_010, true), InputShapeAction::Update);
}

#[test]
fn failed_reset_reconnects_and_resets_the_fresh_connection() {
    let mut policy = InputShapePolicy::new();
    policy.connect_succeeded();
    policy.update_failed();
    policy.reset_failed(0);
    assert_eq!(policy.action(0, false), InputShapeAction::Connect);
    policy.connect_succeeded();
    assert_eq!(policy.action(0, false), InputShapeAction::Reset);
    policy.reset_failed(50);
    assert_eq!(policy.action(60, false), InputShapeAction::Wait);
    assert_eq!(policy.action(1_050, false), InputShapeAction::Connect);
    policy.connect_succeeded();
    assert_eq!(policy.action(1_050, false), InputShapeAction::Reset);
}

#[test]
fn unsupported_server_disables_shaping() {
    let mut policy = InputShapePolicy::new();
    policy.unsupported();
    assert_eq!(policy.action(0, false), InputShapeAction::Disabled);
    assert_eq!(policy.action(u64::MAX, true), InputShapeAction::Disabled);
    assert!(!policy.cache_valid());
}

#[test]
fn workarea_rects_are_read_in_groups_of_four() {
    assert_eq!(
        parse_workarea_rects(&[0, 24, 1920, 1056, 4294967196, 0, 100, 200]),
        Some(vec![rect(0, 24, 1920, 1056), rect(-100, 0, 100, 200)])
    );
    assert_eq!(parse_workarea_rects(&[]), None);
    assert_eq!(parse_workarea_rects(&[0, 0, 10]), None);
    assert_eq!(parse_workarea_rects(&[0, 0, 0, 10]), None);
    assert_eq!(parse_workarea_rects(&[0, 0, 2_147_483_648, 10]), None);
}

#[test]
fn workareas_fall_back_from_gtk_to_net_to_monitors() {
    let monitors = [rect(0, 0, 1920, 1080), rect(1920, 0, 1280, 1024)];
    let gtk = [0, 32, 1920, 1048];
    assert_eq!(
        resolve_workareas(Some(&gtk), None, 0, &monitors),
        vec![rect(0, 32, 1920, 1048)]
    );
    let net = [0, 0, 10, 10, 0, 32, 3200, 992];
    assert_eq!(
        resolve_workareas(Some(&[1, 2, 3]), Some(&net), 1, &monitors),
        vec![rect(0, 32, 1920, 992), rect(1920, 32, 1280, 992)]
    );
    let far = [5000, 5000, 10, 10];
    assert_eq!(
        resolve_workareas(None, Some(&far), 0, &monitors),
        vec![rect(5000, 5000, 10, 10)]
    );
    assert_eq!(resolve_workareas(None, Some(&net), 7, &monitors), monitors.to_vec());
    assert_eq!(resolve_workareas(None, None, 0, &monitors), monitors.to_vec());
}

#[test]
fn randr_monitors_skip_empty_ones_and_find_the_primary() {
    let monitors = [
        MonitorInfo { x: 0, y: 0, width: 0, height: 1080, primary: true },
        MonitorInfo { x: 0, y: 0, width: 1920, height: 1080, primary: false },
        MonitorInfo { x: -1280, y: 0, width: 1280, height: 1024, primary: true },
    ];
    assert_eq!(
        monitor_bounds(&monitors),
        Some((vec![rect(0, 0, 1920, 1080), rect(-1280, 0, 1280, 1024)], 1))
    );
    assert_eq!(monitor_bounds(&monitors[..1]), None);
}

#[test]
fn desktop_properties_name_the_current_desktop() {
    assert_eq!(current_desktop(Some(&[3, 9])), 3);
    assert_eq!(current_desktop(Some(&[])), 0);
    assert_eq!(current_desktop(None), 0);
    assert_eq!(gtk_workareas_property(0), "_GTK_WORKAREAS_D0");
    assert_eq!(gtk_workareas_property(12), "_GTK_WORKAREAS_D12");
}

#[test]
fn arranged_primary_stays_within_the_workareas() {
    let monitors = [rect(0, 0, 1920, 1080), rect(1920, 0, 1280, 1024)];
    let gtk = [0, 32, 1920, 1048];
    let (areas, primary) = arrange_workareas(Some(&gtk), None, 0, &monitors, 1);
    assert_eq!(areas, vec![rect(0, 32, 1920, 1048)]);
    assert_eq!(primary, 0);
    let (areas, primary) = arrange_workareas(None, None, 0, &monitors, 1);
    assert_eq!(areas.len(), 2);
    assert_eq!(primary, 1);
}

#[test]
fn overlap_arithmetic_is_checked_before_resolving() {
    let monitors = [Bounds { x: 32_767, y: 0, width: 100, height: 100 }];
    let far_left = [0x8000_0000u32, 0, 1, 1];
    assert!(!workareas_resolvable(None, Some(&far_left), 0, &monitors));
    let usable = [0u32, 0, 1920, 1080];
    assert!(workareas_resolvable(None, Some(&usable), 0, &monitors));
    assert!(workareas_resolvable(Some(&usable), Some(&far_left), 0, &monitors));
    assert!(workareas_resolvable(None, Some(&far_left), 3, &monitors));
    assert!(workareas_resolvable(None, None, 0, &monitors));
}

#[test]
fn rows_join_into_bands_and_empty_rows_are_skipped() {
    let band = |x: i16, y: i16, width: u16, height: u16| ShapeBand { x, y, width, height };
    assert_eq!(
        merge_rows(10, &[3, 1, 0, 0, 0, 1, 5, 3]),
        vec![
            band(3, 0, 4, 1),
            band(1, 1, 8, 1),
            band(0, 2, 10, 3),
            band(1, 5, 8, 1),
            band(3, 7, 4, 1),
        ]
    );
    assert_eq!(merge_rows(10, &[]), vec![]);
    assert_eq!(merge_rows(4, &[2, i32::MAX]), vec![]);
}

#[test]
fn outcomes_decide_whether_the_frame_goes_on() {
    let mut policy = InputShapePolicy::new();
    assert_eq!(policy.action(0, false), InputShapeAction::Connect);
    assert!(policy.record(ShapeOutcome::Connected, 0));
    assert_eq!(policy.action(0, false), InputShapeAction::Update);
    assert!(policy.record(ShapeOutcome::UpdateFailed, 0));
    assert_eq!(policy.action(0, false), InputShapeAction::Reset);
    assert!(!policy.record(ShapeOutcome::Reset, 10));
    let waiting = policy.action(10, false);
    assert_eq!(waiting, InputShapeAction::Wait);
    assert!(InputShapePolicy::is_final(waiting));
    assert_eq!(policy.action(10 + INPUT_SHAPE_RETRY_MS, false), InputShapeAction::Update);
    assert!(!policy.record(ShapeOutcome::Updated, 10 + INPUT_SHAPE_RETRY_MS));
    assert!(InputShapePolicy::is_final(policy.action(2_000, true)));
    assert!(!InputShapePolicy::is_final(InputShapeAction::Connect));
    assert!(!policy.record(ShapeOutcome::Unsupported, 2_000));
    assert_eq!(policy.action(5_000, false), InputShapeAction::Disabled);
}
