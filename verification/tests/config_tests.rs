use codex_quota_ball::config::{clamp_position, default_position, ConfigStore, Position};
use std::path::PathBuf;

#[test]
fn default_is_near_upper_right_and_clamp_keeps_window_visible() {
    assert_eq!(default_position(1920, 88), Position { x: 1808, y: 24 });
    assert_eq!(
        clamp_position(Position { x: 2000, y: -50 }, 1920, 1080, 360, 260),
        Position { x: 1560, y: 0 }
    );
}

#[test]
fn default_position_never_leaves_the_screen() {
    assert_eq!(default_position(50, 88), Position { x: 0, y: 24 });
}

#[test]
fn oversized_window_is_pinned_to_the_top_left() {
    assert_eq!(
        clamp_position(Position { x: 40, y: 30 }, 300, 200, 360, 260),
        Position { x: 0, y: 0 }
    );
    assert_eq!(
        clamp_position(Position { x: 40, y: 30 }, 1920, 1080, 360, 260),
        Position { x: 40, y: 30 }
    );
}

#[test]
fn store_keeps_its_path() {
    let path = PathBuf::from("/tmp/codex-quota-ball/config.json");
    let store = ConfigStore::new(path.clone());
    assert_eq!(store.config_path(), &path);
}
