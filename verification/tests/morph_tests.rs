use codex_quota_ball::{
    config::Position,
    morph::{
        compact_anchor_from_expanded, morph_placement, reflow_expanded_drag, Growth,
        COMPACT_HEIGHT, COMPACT_WIDTH, EXPANDED_HEIGHT, EXPANDED_WIDTH,
    },
    x11::Bounds,
};

fn workarea() -> Bounds {
    Bounds {
        x: -1920,
        y: 24,
        width: 1920,
        height: 1056,
    }
}

#[test]
fn morph_grows_inward_at_all_workarea_corners_and_restores_anchor() {
    let bounds = workarea();
    for anchor in [
        Position { x: -1920, y: 24 },
        Position { x: -88, y: 24 },
        Position { x: -1920, y: 992 },
        Position { x: -88, y: 992 },
    ] {
        let placement = morph_placement(anchor, bounds);
        let compact_origin = placement.compact_anchor;
        let expanded_origin = placement.expanded_origin;
        assert_eq!(compact_origin, anchor);
        assert!(expanded_origin.x >= bounds.x);
        assert!(expanded_origin.y >= bounds.y);
        assert!(expanded_origin.x + EXPANDED_WIDTH <= bounds.x + bounds.width);
        assert!(expanded_origin.y + EXPANDED_HEIGHT <= bounds.y + bounds.height);
        assert_eq!(
            compact_anchor_from_expanded(expanded_origin, placement.growth, bounds),
            anchor
        );
    }
}

#[test]
fn expanded_drag_crosses_monitors_and_preserves_growth_direction() {
    let areas = [
        Bounds {
            x: -1920,
            y: 24,
            width: 1920,
            height: 1056,
        },
        Bounds {
            x: 0,
            y: 24,
            width: 1920,
            height: 1056,
        },
    ];
    let moved =
        reflow_expanded_drag(Position { x: 1630, y: 700 }, Growth::LeftUp, &areas, 1).unwrap();
    assert_eq!(moved.growth, Growth::LeftUp);
    assert_eq!(moved.compact_anchor, Position { x: 1832, y: 904 });
    assert!(moved.expanded_origin.x + EXPANDED_WIDTH <= 1920);
    assert!(moved.expanded_origin.y + EXPANDED_HEIGHT <= 1080);
}

#[test]
fn expanded_drag_prefers_monitor_containing_origin_before_primary_fallback() {
    let areas = [
        Bounds {
            x: 0,
            y: 0,
            width: 1920,
            height: 1080,
        },
        Bounds {
            x: 3000,
            y: 0,
            width: 1920,
            height: 1080,
        },
    ];

    let moved =
        reflow_expanded_drag(Position { x: 4800, y: 100 }, Growth::LeftDown, &areas, 0).unwrap();

    assert_eq!(moved.expanded_origin, Position { x: 4630, y: 100 });
    assert_eq!(moved.compact_anchor, Position { x: 4832, y: 100 });
    assert_eq!(moved.growth, Growth::LeftDown);
}

#[test]
fn growth_direction_follows_the_free_side() {
    let bounds = workarea();
    let growths: Vec<Growth> = [
        Position { x: -1920, y: 24 },
        Position { x: -88, y: 24 },
        Position { x: -1920, y: 992 },
        Position { x: -88, y: 992 },
    ]
    .iter()
    .map(|anchor| morph_placement(*anchor, bounds).growth)
    .collect();
    assert_eq!(
        growths,
        [Growth::RightDown, Growth::LeftDown, Growth::RightUp, Growth::LeftUp]
    );
    let outside = morph_placement(Position { x: 5000, y: -5000 }, bounds);
    assert_eq!(outside.compact_anchor, Position { x: -88, y: 24 });
    assert_eq!(outside.growth, Growth::LeftDown);
    assert_eq!(
        outside.expanded_origin,
        Position {
            x: -88 + COMPACT_WIDTH - EXPANDED_WIDTH,
            y: 24
        }
    );
}

#[test]
fn a_cramped_workarea_grows_towards_the_roomier_side() {
    let small = Bounds {
        x: 0,
        y: 0,
        width: 300,
        height: 300,
    };
    let placement = morph_placement(Position { x: 150, y: 40 }, small);
    assert_eq!(placement.growth, Growth::LeftDown);
    assert_eq!(placement.expanded_origin, Position { x: 0, y: 8 });
    assert_eq!(
        compact_anchor_from_expanded(placement.expanded_origin, placement.growth, small),
        Position { x: 202, y: 8 }
    );
    assert_eq!(COMPACT_HEIGHT, 88);
}

#[test]
fn drag_without_workareas_is_refused() {
    assert_eq!(
        reflow_expanded_drag(Position { x: 0, y: 0 }, Growth::RightDown, &[], 0),
        None
    );
}

#[test]
fn the_card_fits_inside_a_tight_workarea() {
    let tight = Bounds {
        x: 100,
        y: 50,
        width: 300,
        height: 300,
    };
    for anchor in [
        Position { x: 150, y: 40 },
        Position { x: 390, y: 340 },
        Position { x: -5000, y: 9000 },
    ] {
        let placement = morph_placement(anchor, tight);
        let card = placement.expanded_origin;
        assert!(card.x >= tight.x && card.x + EXPANDED_WIDTH <= tight.x + tight.width);
        assert!(card.y >= tight.y && card.y + EXPANDED_HEIGHT <= tight.y + tight.height);
        let ball = placement.compact_anchor;
        assert!(ball.x >= tight.x && ball.x + COMPACT_WIDTH <= tight.x + tight.width);
        assert!(ball.y >= tight.y && ball.y + COMPACT_HEIGHT <= tight.y + tight.height);
    }
}
