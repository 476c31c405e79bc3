use std::path::PathBuf;
use vstd::prelude::*;

verus! {

/// `std::path::PathBuf`, carried through the library as an opaque value.
#[verifier::external_type_specification]
#[verifier::external_body]
pub struct ExPathBuf(PathBuf);

/// Where the saved window position lives. Reading and writing the file is
/// done by the application around the library.
#[derive(Debug)]
pub struct ConfigStore {
    path: PathBuf,
}

impl ConfigStore {
    pub fn new(path: PathBuf) -> (store: Self)
        ensures
            store.path() == path,
    {
        Self { path }
    }

    /// The path the store reads from and writes to.
    pub closed spec fn path(&self) -> PathBuf {
        self.path
    }

    pub fn config_path(&self) -> (path: &PathBuf)
        ensures
            *path == self.path(),
    {
        &self.path
    }
}

/// A window position in logical screen coordinates.
#[derive(Clone, Copy, Debug, PartialEq, Eq, Structural)]
pub struct Position {
    pub x: i32,
    pub y: i32,
}

/// `value` limited to the closed range `[low, high]` (with `low <= high`).
pub open spec fn clamp_spec(value: int, low: int, high: int) -> int {
    if value < low {
        low
    } else if value > high {
        high
    } else {
        value
    }
}

/// The larger of `a` and `b`.
pub open spec fn max_spec(a: int, b: int) -> int {
    if a >= b { a } else { b }
}

/// The smaller of `a` and `b`.
pub open spec fn min_spec(a: int, b: int) -> int {
    if a <= b { a } else { b }
}

pub fn clamp_i32(value: i32, low: i32, high: i32) -> (r: i32)
    requires
        low <= high,
    ensures
        r == clamp_spec(value as int, low as int, high as int),
        low <= r <= high,
{
    if value < low {
        low
    } else if value > high {
        high
    } else {
        value
    }
}

/// The first-run position: near the upper-right corner of the monitor, 24
/// logical pixels from the top and right edges, never left of the screen.
pub fn default_position(monitor_width: i32, ball_width: i32) -> (p: Position)
    requires
        i32::MIN <= monitor_width - ball_width <= i32::MAX,
        i32::MIN <= monitor_width - ball_width - 24 <= i32::MAX,
    ensures
        p.x == max_spec(monitor_width - ball_width - 24, 0),
        p.y == 24,
{
    let x = monitor_width - ball_width - 24;
    Position { x: if x > 0 { x } else { 0 }, y: 24 }
}

/// The position of a window of size `ww` x `wh` moved onto a monitor of
/// size `mw` x `mh`.
pub open spec fn clamp_position_spec(position: Position, mw: int, mh: int, ww: int, wh: int) -> Position {
    Position {
        x: clamp_spec(position.x as int, 0, max_spec(mw - ww, 0)) as i32,
        y: clamp_spec(position.y as int, 0, max_spec(mh - wh, 0)) as i32,
    }
}

/// Clamps a window position so that a window of the given size stays on a
/// monitor of the given size; when the window is larger than the monitor it
/// is pinned to the top-left corner.
pub fn clamp_position(
    position: Position,
    monitor_width: i32,
    monitor_height: i32,
    window_width: i32,
    window_height: i32,
) -> (p: Position)
    requires
        i32::MIN <= monitor_width - window_width <= i32::MAX,
        i32::MIN <= monitor_height - window_height <= i32::MAX,
    ensures
        p == clamp_position_spec(position, monitor_width as int, monitor_height as int, window_width as int, window_height as int),
{
    let room_x = monitor_width - window_width;
    let room_y = monitor_height - window_height;
    Position {
        x: clamp_i32(position.x, 0, if room_x > 0 { room_x } else { 0 }),
        y: clamp_i32(position.y, 0, if room_y > 0 { room_y } else { 0 }),
    }
}

} // verus!

verus! {

/// A clamped window stays on the monitor: when it fits, it lies wholly
/// within the monitor; when it does not, it starts at the monitor's
/// top-left edge.
pub proof fn lemma_clamp_position_visible(
    position: Position,
    monitor_width: i32,
    monitor_height: i32,
    window_width: i32,
    window_height: i32,
)
    requires
        i32::MIN <= monitor_width - window_width <= i32::MAX,
        i32::MIN <= monitor_height - window_height <= i32::MAX,
    ensures
        ({
            let p = clamp_position_spec(
                position,
                monitor_width as int,
                monitor_height as int,
                window_width as int,
                window_height as int,
            );
            &&& 0 <= p.x
            &&& 0 <= p.y
            &&& window_width <= monitor_width ==> p.x + window_width <= monitor_width
            &&& window_height <= monitor_height ==> p.y + window_height <= monitor_height
            &&& window_width >= monitor_width ==> p.x == 0
            &&& window_height >= monitor_height ==> p.y == 0
        }),
{
}

} // verus!
