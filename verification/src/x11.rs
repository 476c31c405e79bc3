use crate::config::{clamp_i32, clamp_spec, max_spec, min_spec, Position};
use crate::text::{decimal_chars, decimal_digits, string_of};
use vstd::prelude::*;

verus! {

/// A rectangle of the screen: a monitor or a work area.
#[derive(Clone, Copy, Debug, PartialEq, Eq, Structural)]
pub struct Bounds {
    pub x: i32,
    pub y: i32,
    pub width: i32,
    pub height: i32,
}

/// `value` saturated to the `i32` range.
pub open spec fn sat_i32(value: int) -> int {
    clamp_spec(value, i32::MIN as int, i32::MAX as int)
}

/// `a + b`, saturating at the bounds of `i32` (`i32::saturating_add`).
pub fn saturating_add_i32(a: i32, b: i32) -> (r: i32)
    ensures
        r == sat_i32(a + b),
{
    let wide = a as i64 + b as i64;
    if wide > i32::MAX as i64 {
        i32::MAX
    } else if wide < i32::MIN as i64 {
        i32::MIN
    } else {
        wide as i32
    }
}

/// `a - b`, saturating at the bounds of `i32` (`i32::saturating_sub`).
pub fn saturating_sub_i32(a: i32, b: i32) -> (r: i32)
    ensures
        r == sat_i32(a - b),
{
    let wide = a as i64 - b as i64;
    if wide > i32::MAX as i64 {
        i32::MAX
    } else if wide < i32::MIN as i64 {
        i32::MIN
    } else {
        wide as i32
    }
}

/// The right edge (exclusive) of a rectangle, saturated.
pub open spec fn right_edge(b: Bounds) -> int {
    sat_i32(b.x + b.width)
}

/// The bottom edge (exclusive) of a rectangle, saturated.
pub open spec fn bottom_edge(b: Bounds) -> int {
    sat_i32(b.y + b.height)
}

/// Whether the point lies in the rectangle.
pub open spec fn contains_spec(b: Bounds, p: Position) -> bool {
    &&& p.x >= b.x
    &&& p.y >= b.y
    &&& p.x < right_edge(b)
    &&& p.y < bottom_edge(b)
}

/// The index of the first rectangle that contains the point.
pub open spec fn first_containing(bounds: Seq<Bounds>, p: Position) -> Option<int>
    decreases bounds.len(),
{
    if bounds.len() == 0 {
        None
    } else if contains_spec(bounds.last(), p) && first_containing(bounds.drop_last(), p) is None {
        Some(bounds.len() - 1)
    } else {
        first_containing(bounds.drop_last(), p)
    }
}

/// The rectangle for a point: the first one that contains it, else the
/// primary one, else the first one.
pub open spec fn select_bounds_spec(bounds: Seq<Bounds>, primary: int, p: Position) -> Option<Bounds> {
    match first_containing(bounds, p) {
        Some(i) => Some(bounds[i]),
        None => fallback_bounds(bounds, primary),
    }
}

impl Bounds {
    /// Whether the point lies in the rectangle.
    pub fn contains(self, point: Position) -> (r: bool)
        ensures
            r == contains_spec(self, point),
    {
        point.x >= self.x && point.y >= self.y && point.x < saturating_add_i32(self.x, self.width)
            && point.y < saturating_add_i32(self.y, self.height)
    }
}

proof fn lemma_first_containing(bounds: Seq<Bounds>, p: Position)
    ensures
        match first_containing(bounds, p) {
            Some(i) => 0 <= i < bounds.len() && contains_spec(bounds[i], p) && forall|j: int|
                0 <= j < i ==> !contains_spec(#[trigger] bounds[j], p),
            None => forall|j: int| 0 <= j < bounds.len() ==> !contains_spec(#[trigger] bounds[j], p),
        },
    decreases bounds.len(),
{
    if bounds.len() > 0 {
        let rest = bounds.drop_last();
        lemma_first_containing(rest, p);
        assert forall|j: int| 0 <= j < rest.len() implies rest[j] == bounds[j] by {}
    }
}

/// The first rectangle that contains the point.
pub(crate) fn containing_bounds(bounds: &[Bounds], point: Position) -> (r: Option<Bounds>)
    ensures
        match first_containing(bounds@, point) {
            Some(i) => r == Some(bounds@[i]),
            None => r is None,
        },
{
    proof {
        lemma_first_containing(bounds@, point);
    }
    let mut i: usize = 0;
    while i < bounds.len()
        invariant
            i <= bounds@.len(),
            forall|j: int| 0 <= j < i ==> !contains_spec(#[trigger] bounds@[j], point),
        decreases bounds.len() - i,
    {
        if bounds[i].contains(point) {
            proof {
                lemma_first_containing(bounds@, point);
                if first_containing(bounds@, point) is None {
                    assert(!contains_spec(bounds@[i as int], point));
                }
            }
            return Some(bounds[i]);
        }
        i = i + 1;
    }
    None
}

/// The primary rectangle, else the first one.
pub open spec fn fallback_bounds(bounds: Seq<Bounds>, primary: int) -> Option<Bounds> {
    if 0 <= primary < bounds.len() {
        Some(bounds[primary])
    } else if bounds.len() > 0 {
        Some(bounds[0])
    } else {
        None
    }
}

pub(crate) fn fallback(bounds: &[Bounds], primary: usize) -> (r: Option<Bounds>)
    ensures
        r == fallback_bounds(bounds@, primary as int),
{
    if primary < bounds.len() {
        Some(bounds[primary])
    } else if bounds.len() > 0 {
        Some(bounds[0])
    } else {
        None
    }
}

/// Picks the monitor or work area for a point: the first that contains it,
/// else the primary one, else the first one; `None` when there is none.
pub fn select_bounds(bounds: &[Bounds], primary: usize, point: Position) -> (r: Option<Bounds>)
    ensures
        r == select_bounds_spec(bounds@, primary as int, point),
{
    match containing_bounds(bounds, point) {
        Some(b) => Some(b),
        None => fallback(bounds, primary),
    }
}

/// The largest origin coordinate that keeps a window of the given extent
/// inside a range that starts at `start` and has length `length`.
pub open spec fn last_origin(start: int, length: int, extent: int) -> int {
    sat_i32(start + max_spec(sat_i32(length - extent), 0))
}

/// A position clamped so that a window of the given size lies within the
/// rectangle, as far as it fits.
pub open spec fn clamp_to_bounds_spec(position: Position, bounds: Bounds, w: int, h: int) -> Position {
    Position {
        x: clamp_spec(position.x as int, bounds.x as int, last_origin(bounds.x as int, bounds.width as int, w))
            as i32,
        y: clamp_spec(position.y as int, bounds.y as int, last_origin(bounds.y as int, bounds.height as int, h))
            as i32,
    }
}

/// Keeps a window of the given size inside the rectangle (pinned to its
/// top-left corner where it is larger).
pub fn clamp_to_bounds(position: Position, bounds: Bounds, window_width: i32, window_height: i32) -> (p:
    Position)
    ensures
        p == clamp_to_bounds_spec(position, bounds, window_width as int, window_height as int),
{
    let room_x = saturating_sub_i32(bounds.width, window_width);
    let room_y = saturating_sub_i32(bounds.height, window_height);
    let max_x = saturating_add_i32(bounds.x, if room_x > 0 { room_x } else { 0 });
    let max_y = saturating_add_i32(bounds.y, if room_y > 0 { room_y } else { 0 });
    Position { x: clamp_i32(position.x, bounds.x, max_x), y: clamp_i32(position.y, bounds.y, max_y) }
}

/// Like `clamp_to_bounds`, leaving the position as it is when the rectangle
/// is unknown.
pub open spec fn clamp_to_known_bounds_spec(position: Position, bounds: Option<Bounds>, w: int, h: int) -> Position {
    match bounds {
        Some(b) => clamp_to_bounds_spec(position, b, w, h),
        None => position,
    }
}

pub fn clamp_to_known_bounds(
    position: Position,
    bounds: Option<Bounds>,
    window_width: i32,
    window_height: i32,
) -> (p: Position)
    ensures
        p == clamp_to_known_bounds_spec(position, bounds, window_width as int, window_height as int),
{
    match bounds {
        Some(b) => clamp_to_bounds(position, b, window_width, window_height),
        None => position,
    }
}

} // verus!

verus! {

/// The overlap of two rectangles, when it is not empty.
pub open spec fn intersection_spec(a: Bounds, b: Bounds) -> Option<Bounds> {
    let left = max_spec(a.x as int, b.x as int);
    let top = max_spec(a.y as int, b.y as int);
    let right = min_spec(right_edge(a), right_edge(b));
    let bottom = min_spec(bottom_edge(a), bottom_edge(b));
    if right > left && bottom > top {
        Some(Bounds { x: left as i32, y: top as i32, width: (right - left) as i32, height: (bottom - top) as i32 })
    } else {
        None
    }
}

/// The differences between the far and the near edges of the overlap fit in
/// an `i32` (they are computed whether or not the rectangles overlap).
pub open spec fn intersection_computable(a: Bounds, b: Bounds) -> bool {
    let left = max_spec(a.x as int, b.x as int);
    let top = max_spec(a.y as int, b.y as int);
    let right = min_spec(right_edge(a), right_edge(b));
    let bottom = min_spec(bottom_edge(a), bottom_edge(b));
    &&& i32::MIN <= right - left <= i32::MAX
    &&& i32::MIN <= bottom - top <= i32::MAX
}

impl Bounds {
    fn intersection(self, other: Self) -> (r: Option<Self>)
        requires
            intersection_computable(self, other),
        ensures
            r == intersection_spec(self, other),
    {
        let left = if self.x >= other.x { self.x } else { other.x };
        let top = if self.y >= other.y { self.y } else { other.y };
        let self_right = saturating_add_i32(self.x, self.width);
        let other_right = saturating_add_i32(other.x, other.width);
        let right = if self_right <= other_right { self_right } else { other_right };
        let self_bottom = saturating_add_i32(self.y, self.height);
        let other_bottom = saturating_add_i32(other.y, other.height);
        let bottom = if self_bottom <= other_bottom { self_bottom } else { other_bottom };
        let width = right - left;
        let height = bottom - top;
        if right > left && bottom > top {
            Some(Self { x: left, y: top, width, height })
        } else {
            None
        }
    }
}

/// The rectangle described by the four values starting at `4 * i`: x, y,
/// width, height. Width and height must be positive and fit in an `i32`;
/// x and y are reinterpreted as signed.
pub open spec fn workarea_rect(values: Seq<u32>, i: int) -> Option<Bounds> {
    let width = values[4 * i + 2];
    let height = values[4 * i + 3];
    if 0 < width <= i32::MAX && 0 < height <= i32::MAX {
        Some(
            Bounds {
                x: values[4 * i] as i32,
                y: values[4 * i + 1] as i32,
                width: width as i32,
                height: height as i32,
            },
        )
    } else {
        None
    }
}

/// The rectangles of a work-area property: groups of four values, each a
/// valid rectangle; `None` for an empty list, a length that is not a multiple
/// of four, or any invalid rectangle.
pub open spec fn workareas_spec(values: Seq<u32>) -> Option<Seq<Bounds>> {
    if values.len() == 0 || values.len() % 4 != 0 {
        None
    } else if forall|i: int| 0 <= i < values.len() / 4 ==> (#[trigger] workarea_rect(values, i)) is Some {
        Some(Seq::new((values.len() / 4) as nat, |i: int| workarea_rect(values, i).unwrap()))
    } else {
        None
    }
}

/// Whether `r` holds exactly the rectangles of a work-area property.
pub open spec fn workareas_result(values: Seq<u32>, r: Option<Vec<Bounds>>) -> bool {
    match r {
        Some(v) => workareas_spec(values) == Some(v@),
        None => workareas_spec(values) is None,
    }
}

/// Reads the rectangles of a `_GTK_WORKAREAS_Dn` or `_NET_WORKAREA` property.
pub fn parse_workarea_rects(values: &[u32]) -> (r: Option<Vec<Bounds>>)
    ensures
        workareas_result(values@, r),
{
    let len = values.len();
    if len == 0 || len % 4 != 0 {
        return None;
    }
    let count = len / 4;
    let mut rects: Vec<Bounds> = Vec::new();
    let mut i: usize = 0;
    while i < count
        invariant
            len == values@.len(),
            count == len / 4,
            len % 4 == 0,
            i <= count,
            rects@.len() == i,
            forall|j: int| 0 <= j < i ==> workarea_rect(values@, j) == Some(#[trigger] rects@[j]),
        decreases count - i,
    {
        assert(4 * i + 3 < len) by (nonlinear_arith)
            requires
                i < count,
                count == len / 4,
                len % 4 == 0,
        ;
        let base = 4 * i;
        let width = values[base + 2];
        let height = values[base + 3];
        if !(0 < width && width <= i32::MAX as u32 && 0 < height && height <= i32::MAX as u32) {
            proof {
                assert(workarea_rect(values@, i as int) is None);
            }
            return None;
        }
        rects.push(
            Bounds {
                x: values[base] as i32,
                y: values[base + 1] as i32,
                width: width as i32,
                height: height as i32,
            },
        );
        i = i + 1;
    }
    proof {
        assert forall|j: int| 0 <= j < values@.len() / 4 implies (#[trigger] workarea_rect(values@, j)) is Some by {
            assert(workarea_rect(values@, j) == Some(rects@[j]));
        }
        assert(rects@ =~= Seq::new(
            (values@.len() / 4) as nat,
            |j: int| workarea_rect(values@, j).unwrap(),
        ));
    }
    Some(rects)
}

/// The overlaps of each monitor with a work area, in monitor order.
pub open spec fn intersections_spec(monitors: Seq<Bounds>, workarea: Bounds) -> Seq<Bounds>
    decreases monitors.len(),
{
    if monitors.len() == 0 {
        Seq::empty()
    } else {
        let before = intersections_spec(monitors.drop_last(), workarea);
        match intersection_spec(monitors.last(), workarea) {
            Some(b) => before.push(b),
            None => before,
        }
    }
}

/// The values of an optional property.
pub open spec fn property_view(values: Option<&[u32]>) -> Option<Seq<u32>> {
    match values {
        Some(v) => Some(v@),
        None => None,
    }
}

/// The work area of the current desktop in `_NET_WORKAREA`.
pub open spec fn net_workarea(net: Option<Seq<u32>>, desktop: int) -> Option<Bounds> {
    match net {
        Some(values) => match workareas_spec(values) {
            Some(areas) => if 0 <= desktop < areas.len() {
                Some(areas[desktop])
            } else {
                None
            },
            None => None,
        },
        None => None,
    }
}

/// The GTK work areas of the current desktop, when they can be read.
pub open spec fn gtk_workareas(gtk: Option<Seq<u32>>) -> Option<Seq<Bounds>> {
    match gtk {
        Some(values) => workareas_spec(values),
        None => None,
    }
}

/// The usable areas of the monitors: the per-monitor GTK work areas when
/// present and valid; else the overlaps of the monitors with the current
/// desktop's `_NET_WORKAREA` (or that work area itself when nothing
/// overlaps); else the monitors themselves.
pub open spec fn resolve_workareas_spec(
    gtk: Option<Seq<u32>>,
    net: Option<Seq<u32>>,
    desktop: int,
    monitors: Seq<Bounds>,
) -> Seq<Bounds> {
    match gtk_workareas(gtk) {
        Some(areas) => areas,
        None => match net_workarea(net, desktop) {
            Some(workarea) => {
                let overlaps = intersections_spec(monitors, workarea);
                if overlaps.len() > 0 {
                    overlaps
                } else {
                    seq![workarea]
                }
            },
            None => monitors,
        },
    }
}

/// What `resolve_workareas` needs to compute the overlaps without overflow.
pub open spec fn resolvable(gtk: Option<Seq<u32>>, net: Option<Seq<u32>>, desktop: int, monitors: Seq<Bounds>) -> bool {
    gtk_workareas(gtk) is None ==> match net_workarea(net, desktop) {
        Some(workarea) => forall|i: int|
            0 <= i < monitors.len() ==> intersection_computable(#[trigger] monitors[i], workarea),
        None => true,
    }
}

pub fn resolve_workareas(
    gtk_values: Option<&[u32]>,
    net_values: Option<&[u32]>,
    current_desktop: usize,
    monitors: &[Bounds],
) -> (areas: Vec<Bounds>)
    requires
        resolvable(property_view(gtk_values), property_view(net_values), current_desktop as int, monitors@),
    ensures
        areas@ == resolve_workareas_spec(
            property_view(gtk_values),
            property_view(net_values),
            current_desktop as int,
            monitors@,
        ),
{
    if let Some(values) = gtk_values {
        if let Some(areas) = parse_workarea_rects(values) {
            return areas;
        }
    }
    let net_workarea = match net_values {
        Some(values) => match parse_workarea_rects(values) {
            Some(areas) => if current_desktop < areas.len() {
                Some(areas[current_desktop])
            } else {
                None
            },
            None => None,
        },
        None => None,
    };
    match net_workarea {
        Some(workarea) => {
            let mut overlaps: Vec<Bounds> = Vec::new();
            let mut i: usize = 0;
            while i < monitors.len()
                invariant
                    i <= monitors@.len(),
                    forall|j: int|
                        0 <= j < monitors@.len() ==> intersection_computable(#[trigger] monitors@[j], workarea),
                    overlaps@ == intersections_spec(monitors@.take(i as int), workarea),
                decreases monitors.len() - i,
            {
                assert(monitors@.take(i + 1).drop_last() =~= monitors@.take(i as int));
                match monitors[i].intersection(workarea) {
                    Some(b) => overlaps.push(b),
                    None => {},
                }
                i = i + 1;
            }
            assert(monitors@.take(monitors.len() as int) =~= monitors@);
            if overlaps.len() > 0 {
                overlaps
            } else {
                let mut single: Vec<Bounds> = Vec::new();
                single.push(workarea);
                assert(single@ =~= seq![workarea]);
                single
            }
        },
        None => {
            let mut all: Vec<Bounds> = Vec::new();
            let mut i: usize = 0;
            while i < monitors.len()
                invariant
                    i <= monitors@.len(),
                    all@ == monitors@.take(i as int),
                decreases monitors.len() - i,
            {
                all.push(monitors[i]);
                assert(monitors@.take(i + 1) =~= monitors@.take(i as int).push(monitors@[i as int]));
                i = i + 1;
            }
            assert(monitors@.take(monitors.len() as int) =~= monitors@);
            all
        },
    }
}

impl Bounds {
    /// Whether the overlap of the two rectangles can be computed without
    /// leaving the `i32` range.
    fn intersection_fits(self, other: Self) -> (ok: bool)
        ensures
            ok == intersection_computable(self, other),
    {
        let left: i64 = if self.x >= other.x { self.x as i64 } else { other.x as i64 };
        let top: i64 = if self.y >= other.y { self.y as i64 } else { other.y as i64 };
        let self_right = saturating_add_i32(self.x, self.width) as i64;
        let other_right = saturating_add_i32(other.x, other.width) as i64;
        let right: i64 = if self_right <= other_right { self_right } else { other_right };
        let self_bottom = saturating_add_i32(self.y, self.height) as i64;
        let other_bottom = saturating_add_i32(other.y, other.height) as i64;
        let bottom: i64 = if self_bottom <= other_bottom { self_bottom } else { other_bottom };
        let width = right - left;
        let height = bottom - top;
        i32::MIN as i64 <= width && width <= i32::MAX as i64 && i32::MIN as i64 <= height && height
            <= i32::MAX as i64
    }
}

/// Whether `resolve_workareas` can work on these properties and monitors:
/// the test that a caller without proofs makes before calling it.
pub fn workareas_resolvable(
    gtk_values: Option<&[u32]>,
    net_values: Option<&[u32]>,
    current_desktop: usize,
    monitors: &[Bounds],
) -> (ok: bool)
    ensures
        ok == resolvable(property_view(gtk_values), property_view(net_values), current_desktop as int, monitors@),
{
    if let Some(values) = gtk_values {
        if let Some(_) = parse_workarea_rects(values) {
            return true;
        }
    }
    let workarea = match net_values {
        Some(values) => match parse_workarea_rects(values) {
            Some(areas) => if current_desktop < areas.len() {
                areas[current_desktop]
            } else {
                return true;
            },
            None => return true,
        },
        None => return true,
    };
    assert(gtk_workareas(property_view(gtk_values)) is None);
    assert(net_workarea(property_view(net_values), current_desktop as int) == Some(workarea));
    let mut i: usize = 0;
    while i < monitors.len()
        invariant
            i <= monitors@.len(),
            gtk_workareas(property_view(gtk_values)) is None,
            net_workarea(property_view(net_values), current_desktop as int) == Some(workarea),
            forall|j: int| 0 <= j < i ==> intersection_computable(#[trigger] monitors@[j], workarea),
        decreases monitors.len() - i,
    {
        if !monitors[i].intersection_fits(workarea) {
            assert(!intersection_computable(monitors@[i as int], workarea));
            return false;
        }
        i = i + 1;
    }
    true
}

} // verus!

verus! {

/// How long a failed X11 connection or a reset input shape waits before the
/// next attempt.
pub const INPUT_SHAPE_RETRY_MS: u64 = 1_000;

/// What the input shaper should do next.
#[derive(Clone, Copy, Debug, PartialEq, Eq, Structural)]
pub enum InputShapeAction {
    Connect,
    Update,
    Reset,
    Wait,
    Idle,
    Disabled,
}

/// Where the input shaper stands: connecting (after a reset when `reset`),
/// ready to update, resetting the shape of the current or of a fresh
/// connection, waiting to retry a connection or an update, or disabled for
/// good.
#[derive(Clone, Copy, Debug, PartialEq, Eq, Structural)]
pub enum InputShapePhase {
    Connect { reset: bool },
    Ready,
    ResetCurrent,
    ResetFresh,
    RetryConnect { reset: bool, at_ms: u64 },
    RetryUpdate { at_ms: u64 },
    Disabled,
}

/// The decisions of the X11 input shaper: which step to take next and how
/// each outcome changes its phase, and whether the last shape it applied is
/// still in place.
pub struct InputShapePolicy {
    phase: InputShapePhase,
    cache_valid: bool,
}

/// The time `INPUT_SHAPE_RETRY_MS` after `now`, saturating.
pub open spec fn retry_at(now: u64) -> u64 {
    if now + INPUT_SHAPE_RETRY_MS > u64::MAX {
        u64::MAX
    } else {
        (now + INPUT_SHAPE_RETRY_MS) as u64
    }
}

/// The next step for a policy state, and the phase after asking for it.
pub open spec fn action_spec(phase: InputShapePhase, cache_valid: bool, now_ms: u64, cache_matches: bool) -> (
    InputShapePhase,
    InputShapeAction,
) {
    match phase {
        InputShapePhase::RetryConnect { reset, at_ms } => if now_ms >= at_ms {
            (InputShapePhase::Connect { reset }, InputShapeAction::Connect)
        } else {
            (phase, InputShapeAction::Wait)
        },
        InputShapePhase::RetryUpdate { at_ms } => if now_ms >= at_ms {
            (InputShapePhase::Ready, InputShapeAction::Update)
        } else {
            (phase, InputShapeAction::Wait)
        },
        InputShapePhase::Connect { .. } => (phase, InputShapeAction::Connect),
        InputShapePhase::Ready => if cache_valid && cache_matches {
            (phase, InputShapeAction::Idle)
        } else {
            (phase, InputShapeAction::Update)
        },
        InputShapePhase::ResetCurrent => (phase, InputShapeAction::Reset),
        InputShapePhase::ResetFresh => (phase, InputShapeAction::Reset),
        InputShapePhase::Disabled => (phase, InputShapeAction::Disabled),
    }
}

/// The phase after a successful connection: a connection made to reset the
/// shape goes on to reset it, any other is ready.
pub open spec fn connect_succeeded_spec(phase: InputShapePhase) -> InputShapePhase {
    match phase {
        InputShapePhase::Connect { reset: true } => InputShapePhase::ResetFresh,
        _ => InputShapePhase::Ready,
    }
}

/// The phase after a failed connection: retry later, remembering whether the
/// connection was meant to reset the shape.
pub open spec fn connect_failed_spec(phase: InputShapePhase, now_ms: u64) -> InputShapePhase {
    InputShapePhase::RetryConnect {
        reset: phase == (InputShapePhase::Connect { reset: true }),
        at_ms: retry_at(now_ms),
    }
}

/// The phase after a failed reset: a reset of the current connection tries
/// a fresh connection at once; any other retries a resetting connection
/// later.
pub open spec fn reset_failed_spec(phase: InputShapePhase, now_ms: u64) -> InputShapePhase {
    match phase {
        InputShapePhase::ResetCurrent => InputShapePhase::Connect { reset: true },
        _ => InputShapePhase::RetryConnect { reset: true, at_ms: retry_at(now_ms) },
    }
}

fn retry_time(now_ms: u64) -> (at: u64)
    ensures
        at == retry_at(now_ms),
{
    if now_ms > u64::MAX - INPUT_SHAPE_RETRY_MS {
        u64::MAX
    } else {
        now_ms + INPUT_SHAPE_RETRY_MS
    }
}

impl InputShapePolicy {
    /// The last applied shape is trusted only while the policy is ready.
    #[verifier::type_invariant]
    spec fn cache_only_when_ready(self) -> bool {
        self.cache_valid ==> self.phase == InputShapePhase::Ready
    }

    pub closed spec fn phase(self) -> InputShapePhase {
        self.phase
    }

    pub closed spec fn cache(self) -> bool {
        self.cache_valid
    }

    /// A policy about to make its first connection, with nothing cached.
    pub fn new() -> (policy: Self)
        ensures
            policy.phase() == (InputShapePhase::Connect { reset: false }),
            !policy.cache(),
    {
        Self { phase: InputShapePhase::Connect { reset: false }, cache_valid: false }
    }

    /// The next step at time `now_ms`; `cache_matches` tells whether the
    /// wanted shape equals the last one applied.
    pub fn action(&mut self, now_ms: u64, cache_matches: bool) -> (action: InputShapeAction)
        ensures
            (final(self).phase(), action) == action_spec(
                old(self).phase(),
                old(self).cache(),
                now_ms,
                cache_matches,
            ),
            final(self).cache() == old(self).cache(),
    {
        proof {
            use_type_invariant(&*self);
        }
        match self.phase {
            InputShapePhase::RetryConnect { reset, at_ms } => {
                if now_ms >= at_ms {
                    self.phase = InputShapePhase::Connect { reset };
                    InputShapeAction::Connect
                } else {
                    InputShapeAction::Wait
                }
            },
            InputShapePhase::RetryUpdate { at_ms } => {
                if now_ms >= at_ms {
                    self.phase = InputShapePhase::Ready;
                    InputShapeAction::Update
                } else {
                    InputShapeAction::Wait
                }
            },
            InputShapePhase::Connect { .. } => InputShapeAction::Connect,
            InputShapePhase::Ready => {
                if self.cache_valid && cache_matches {
                    InputShapeAction::Idle
                } else {
                    InputShapeAction::Update
                }
            },
            InputShapePhase::ResetCurrent => InputShapeAction::Reset,
            InputShapePhase::ResetFresh => InputShapeAction::Reset,
            InputShapePhase::Disabled => InputShapeAction::Disabled,
        }
    }

    pub fn connect_succeeded(&mut self)
        ensures
            final(self).phase() == connect_succeeded_spec(old(self).phase()),
            final(self).cache() == old(self).cache(),
    {
        proof {
            use_type_invariant(&*self);
        }
        let next = match self.phase {
            InputShapePhase::Connect { reset: true } => InputShapePhase::ResetFresh,
            _ => InputShapePhase::Ready,
        };
        self.phase = next;
    }

    pub fn connect_failed(&mut self, now_ms: u64)
        ensures
            final(self).phase() == connect_failed_spec(old(self).phase(), now_ms),
            !final(self).cache(),
    {
        let reset = match self.phase {
            InputShapePhase::Connect { reset: true } => true,
            _ => false,
        };
        self.cache_valid = false;
        self.phase = InputShapePhase::RetryConnect { reset, at_ms: retry_time(now_ms) };
    }

    /// The X server lacks the needed SHAPE version: give up for good.
    pub fn unsupported(&mut self)
        ensures
            final(self).phase() == InputShapePhase::Disabled,
            !final(self).cache(),
    {
        self.cache_valid = false;
        self.phase = InputShapePhase::Disabled;
    }

    pub fn update_succeeded(&mut self)
        ensures
            final(self).phase() == InputShapePhase::Ready,
            final(self).cache(),
    {
        self.phase = InputShapePhase::Ready;
        self.cache_valid = true;
    }

    pub fn update_failed(&mut self)
        ensures
            final(self).phase() == InputShapePhase::ResetCurrent,
            !final(self).cache(),
    {
        self.cache_valid = false;
        self.phase = InputShapePhase::ResetCurrent;
    }

    pub fn reset_succeeded(&mut self, now_ms: u64)
        ensures
            final(self).phase() == (InputShapePhase::RetryUpdate { at_ms: retry_at(now_ms) }),
            !final(self).cache(),
    {
        self.cache_valid = false;
        self.phase = InputShapePhase::RetryUpdate { at_ms: retry_time(now_ms) };
    }

    pub fn reset_failed(&mut self, now_ms: u64)
        ensures
            final(self).phase() == reset_failed_spec(old(self).phase(), now_ms),
            !final(self).cache(),
    {
        let next = match self.phase {
            InputShapePhase::ResetCurrent => InputShapePhase::Connect { reset: true },
            _ => InputShapePhase::RetryConnect { reset: true, at_ms: retry_time(now_ms) },
        };
        self.cache_valid = false;
        self.phase = next;
    }

    /// Whether the last applied shape is known to be in place; it only ever
    /// is while the policy is ready.
    pub fn cache_valid(&self) -> (valid: bool)
        ensures
            valid == self.cache(),
            valid ==> self.phase() == InputShapePhase::Ready,
    {
        proof {
            use_type_invariant(self);
        }
        self.cache_valid
    }
}

/// How many steps the shaper takes at most for one frame.
pub const INPUT_SHAPE_MAX_STEPS: usize = 5;

/// The outcome of carrying out a step of the input-shape policy.
#[derive(Clone, Copy, Debug, PartialEq, Eq, Structural)]
pub enum ShapeOutcome {
    Connected,
    ConnectFailed,
    Unsupported,
    Updated,
    UpdateFailed,
    Reset,
    ResetFailed,
}

/// Whether the shaper goes on within the same frame after an outcome: after
/// a connection, a failed update or a failed reset there is more to do;
/// every other outcome ends the frame.
pub open spec fn continues_after(outcome: ShapeOutcome) -> bool {
    outcome == ShapeOutcome::Connected || outcome == ShapeOutcome::UpdateFailed || outcome
        == ShapeOutcome::ResetFailed
}

/// Whether a step ends the frame without doing anything.
pub open spec fn ends_frame(action: InputShapeAction) -> bool {
    action == InputShapeAction::Wait || action == InputShapeAction::Idle || action
        == InputShapeAction::Disabled
}

impl InputShapePolicy {
    /// Whether the step needs nothing done and ends the frame.
    pub fn is_final(action: InputShapeAction) -> (r: bool)
        ensures
            r == ends_frame(action),
    {
        match action {
            InputShapeAction::Wait | InputShapeAction::Idle | InputShapeAction::Disabled => true,
            _ => false,
        }
    }

    /// Records the outcome of a step at time `now_ms` and says whether the
    /// shaper goes on within the same frame.
    pub fn record(&mut self, outcome: ShapeOutcome, now_ms: u64) -> (again: bool)
        ensures
            again == continues_after(outcome),
            (final(self).phase(), final(self).cache()) == match outcome {
                ShapeOutcome::Connected => policy_step((old(self).phase(), old(self).cache()), PolicyCall::ConnectSucceeded),
                ShapeOutcome::ConnectFailed => policy_step((old(self).phase(), old(self).cache()), PolicyCall::ConnectFailed { now_ms }),
                ShapeOutcome::Unsupported => policy_step((old(self).phase(), old(self).cache()), PolicyCall::Unsupported),
                ShapeOutcome::Updated => policy_step((old(self).phase(), old(self).cache()), PolicyCall::UpdateSucceeded),
                ShapeOutcome::UpdateFailed => policy_step((old(self).phase(), old(self).cache()), PolicyCall::UpdateFailed),
                ShapeOutcome::Reset => policy_step((old(self).phase(), old(self).cache()), PolicyCall::ResetSucceeded { now_ms }),
                ShapeOutcome::ResetFailed => policy_step((old(self).phase(), old(self).cache()), PolicyCall::ResetFailed { now_ms }),
            },
    {
        match outcome {
            ShapeOutcome::Connected => {
                self.connect_succeeded();
                true
            },
            ShapeOutcome::ConnectFailed => {
                self.connect_failed(now_ms);
                false
            },
            ShapeOutcome::Unsupported => {
                self.unsupported();
                false
            },
            ShapeOutcome::Updated => {
                self.update_succeeded();
                false
            },
            ShapeOutcome::UpdateFailed => {
                self.update_failed();
                true
            },
            ShapeOutcome::Reset => {
                self.reset_succeeded(now_ms);
                false
            },
            ShapeOutcome::ResetFailed => {
                self.reset_failed(now_ms);
                true
            },
        }
    }
}

impl Default for InputShapePolicy {
    fn default() -> (policy: Self)
        ensures
            policy.phase() == (InputShapePhase::Connect { reset: false }),
            !policy.cache(),
    {
        Self::new()
    }
}

/// Why an input shaper could not be set up for a window.
#[derive(Clone, Copy, Debug, PartialEq, Eq, Structural)]
pub enum InputShaperInitError {
    Retry,
    Unsupported,
}

} // verus!

verus! {

/// A monitor as RandR describes it.
#[derive(Clone, Copy, Debug, PartialEq, Eq, Structural)]
pub struct MonitorInfo {
    pub x: i16,
    pub y: i16,
    pub width: u16,
    pub height: u16,
    pub primary: bool,
}

/// The monitors that have an area, as rectangles, in order.
pub open spec fn sized_monitors(monitors: Seq<MonitorInfo>) -> Seq<Bounds>
    decreases monitors.len(),
{
    if monitors.len() == 0 {
        Seq::empty()
    } else {
        let before = sized_monitors(monitors.drop_last());
        let m = monitors.last();
        if m.width == 0 || m.height == 0 {
            before
        } else {
            before.push(Bounds { x: m.x as i32, y: m.y as i32, width: m.width as i32, height: m.height as i32 })
        }
    }
}

/// The position among the sized monitors of the last sized monitor marked
/// primary, or 0.
pub open spec fn primary_position(monitors: Seq<MonitorInfo>) -> int
    decreases monitors.len(),
{
    if monitors.len() == 0 {
        0
    } else {
        let m = monitors.last();
        if m.width != 0 && m.height != 0 && m.primary {
            sized_monitors(monitors.drop_last()).len() as int
        } else {
            primary_position(monitors.drop_last())
        }
    }
}

/// The monitors with an area and the index of the primary one among them;
/// `None` when no monitor has an area.
pub fn monitor_bounds(monitors: &[MonitorInfo]) -> (r: Option<(Vec<Bounds>, usize)>)
    ensures
        match r {
            Some((bounds, primary)) => bounds@ == sized_monitors(monitors@) && bounds@.len() > 0
                && primary == primary_position(monitors@),
            None => sized_monitors(monitors@).len() == 0,
        },
{
    let mut primary: usize = 0;
    let mut bounds: Vec<Bounds> = Vec::new();
    let mut i: usize = 0;
    while i < monitors.len()
        invariant
            i <= monitors@.len(),
            bounds@ == sized_monitors(monitors@.take(i as int)),
            primary == primary_position(monitors@.take(i as int)),
            bounds@.len() <= i,
        decreases monitors.len() - i,
    {
        assert(monitors@.take(i + 1).drop_last() =~= monitors@.take(i as int));
        let m = monitors[i];
        if m.width != 0 && m.height != 0 {
            if m.primary {
                primary = bounds.len();
            }
            bounds.push(Bounds { x: m.x as i32, y: m.y as i32, width: m.width as i32, height: m.height as i32 });
        }
        i = i + 1;
    }
    assert(monitors@.take(monitors.len() as int) =~= monitors@);
    if bounds.len() == 0 {
        None
    } else {
        Some((bounds, primary))
    }
}

/// The current desktop from `_NET_CURRENT_DESKTOP`: its first value, or 0.
pub fn current_desktop(values: Option<&[u32]>) -> (desktop: usize)
    ensures
        desktop == match values {
            Some(v) => if v@.len() > 0 {
                v@[0] as int
            } else {
                0
            },
            None => 0,
        },
{
    match values {
        Some(v) => if v.len() > 0 {
            v[0] as usize
        } else {
            0
        },
        None => 0,
    }
}

/// The name of the GTK work-area property of a desktop: `_GTK_WORKAREAS_D`
/// followed by the desktop number.
pub fn gtk_workareas_property(desktop: usize) -> (name: String)
    ensures
        name@ == "_GTK_WORKAREAS_D"@ + decimal_digits(desktop as nat),
{
    let mut name = String::from_str("_GTK_WORKAREAS_D");
    let digits = decimal_chars(desktop as u64);
    let number = string_of(&digits);
    name.append(number.as_str());
    name
}

/// The work areas of the monitors (see `resolve_workareas`) and the index of
/// the primary one, moved to the last work area when there are fewer.
pub fn arrange_workareas(
    gtk_values: Option<&[u32]>,
    net_values: Option<&[u32]>,
    current_desktop: usize,
    monitors: &[Bounds],
    primary: usize,
) -> (r: (Vec<Bounds>, usize))
    requires
        resolvable(property_view(gtk_values), property_view(net_values), current_desktop as int, monitors@),
    ensures
        r.0@ == resolve_workareas_spec(
            property_view(gtk_values),
            property_view(net_values),
            current_desktop as int,
            monitors@,
        ),
        r.1 == min_spec(primary as int, max_spec(r.0@.len() - 1, 0)),
{
    let areas = resolve_workareas(gtk_values, net_values, current_desktop, monitors);
    let last = if areas.len() > 0 { areas.len() - 1 } else { 0 };
    let index = if primary <= last { primary } else { last };
    (areas, index)
}

} // verus!

verus! {

/// Clamping keeps a window inside the rectangle when it fits there (and the
/// rectangle ends within the coordinate range), leaves a position that
/// already keeps the window inside unchanged, and clamping twice is the
/// same as clamping once.
pub proof fn lemma_clamp_to_bounds(position: Position, bounds: Bounds, w: int, h: int)
    requires
        0 <= w <= bounds.width,
        0 <= h <= bounds.height,
        bounds.x + bounds.width <= i32::MAX,
        bounds.y + bounds.height <= i32::MAX,
    ensures
        ({
            let p = clamp_to_bounds_spec(position, bounds, w, h);
            &&& bounds.x <= p.x && p.x + w <= bounds.x + bounds.width
            &&& bounds.y <= p.y && p.y + h <= bounds.y + bounds.height
            &&& clamp_to_bounds_spec(p, bounds, w, h) == p
            &&& (bounds.x <= position.x && position.x + w <= bounds.x + bounds.width && bounds.y
                <= position.y && position.y + h <= bounds.y + bounds.height) ==> p == position
        }),
{
}

/// After a failed connection the shaper waits: until `INPUT_SHAPE_RETRY_MS`
/// have passed it is told to wait (and stays as it is), after that it is
/// told to connect again, with nothing cached.
pub proof fn lemma_connect_retry_waits(phase: InputShapePhase, failed_at: u64, now_ms: u64, cache_matches: bool)
    ensures
        ({
            let waiting = connect_failed_spec(phase, failed_at);
            let (next, action) = action_spec(waiting, false, now_ms, cache_matches);
            if now_ms < retry_at(failed_at) {
                next == waiting && action == InputShapeAction::Wait
            } else {
                next matches InputShapePhase::Connect { .. } && action == InputShapeAction::Connect
            }
        }),
{
}

/// A disabled shaper stays disabled and is only ever told that it is.
pub proof fn lemma_disabled_is_final(cache_valid: bool, now_ms: u64, cache_matches: bool)
    ensures
        action_spec(InputShapePhase::Disabled, cache_valid, now_ms, cache_matches) == (
            InputShapePhase::Disabled,
            InputShapeAction::Disabled,
        ),
{
}

/// The shaper reports nothing to do only when it is ready, its last shape
/// is known to be in place and it matches the wanted one.
pub proof fn lemma_idle_only_when_cached(
    phase: InputShapePhase,
    cache_valid: bool,
    now_ms: u64,
    cache_matches: bool,
)
    ensures
        action_spec(phase, cache_valid, now_ms, cache_matches).1 == InputShapeAction::Idle <==> (phase
            == InputShapePhase::Ready && cache_valid && cache_matches),
{
}

} // verus!

verus! {

/// A call made on an `InputShapePolicy`, with its arguments.
pub enum PolicyCall {
    Action { now_ms: u64, cache_matches: bool },
    ConnectSucceeded,
    ConnectFailed { now_ms: u64 },
    Unsupported,
    UpdateSucceeded,
    UpdateFailed,
    ResetSucceeded { now_ms: u64 },
    ResetFailed { now_ms: u64 },
}

/// The phase and cache flag after one call, as the methods' contracts give
/// them.
pub open spec fn policy_step(state: (InputShapePhase, bool), call: PolicyCall) -> (InputShapePhase, bool) {
    let (phase, cache) = state;
    match call {
        PolicyCall::Action { now_ms, cache_matches } => (
            action_spec(phase, cache, now_ms, cache_matches).0,
            cache,
        ),
        PolicyCall::ConnectSucceeded => (connect_succeeded_spec(phase), cache),
        PolicyCall::ConnectFailed { now_ms } => (connect_failed_spec(phase, now_ms), false),
        PolicyCall::Unsupported => (InputShapePhase::Disabled, false),
        PolicyCall::UpdateSucceeded => (InputShapePhase::Ready, true),
        PolicyCall::UpdateFailed => (InputShapePhase::ResetCurrent, false),
        PolicyCall::ResetSucceeded { now_ms } => (InputShapePhase::RetryUpdate { at_ms: retry_at(now_ms) }, false),
        PolicyCall::ResetFailed { now_ms } => (reset_failed_spec(phase, now_ms), false),
    }
}

/// The phase and cache flag of a new policy after a sequence of calls.
pub open spec fn policy_run(calls: Seq<PolicyCall>) -> (InputShapePhase, bool)
    decreases calls.len(),
{
    if calls.len() == 0 {
        (InputShapePhase::Connect { reset: false }, false)
    } else {
        policy_step(policy_run(calls.drop_last()), calls.last())
    }
}

/// The last call of a sequence that is not a request for the next step.
pub open spec fn last_transition(calls: Seq<PolicyCall>) -> Option<PolicyCall>
    decreases calls.len(),
{
    if calls.len() == 0 {
        None
    } else if calls.last() is Action {
        last_transition(calls.drop_last())
    } else {
        Some(calls.last())
    }
}

/// What holds of every state a policy reaches from `new` through any
/// sequence of calls: the cache is trusted only when ready; the policy is
/// disabled exactly when its last transition was `unsupported`; a retry
/// phase waits until `INPUT_SHAPE_RETRY_MS` after the failed connection,
/// failed reset or successful reset that set it, which was the last
/// transition.
pub open spec fn reachable_policy_ok(calls: Seq<PolicyCall>) -> bool {
    let (phase, cache) = policy_run(calls);
    &&& cache ==> phase == InputShapePhase::Ready
    &&& phase == InputShapePhase::Disabled <==> last_transition(calls) == Some(PolicyCall::Unsupported)
    &&& phase matches InputShapePhase::RetryConnect { at_ms, .. } ==> match last_transition(calls) {
        Some(PolicyCall::ConnectFailed { now_ms }) => at_ms == retry_at(now_ms),
        Some(PolicyCall::ResetFailed { now_ms }) => at_ms == retry_at(now_ms),
        _ => false,
    }
    &&& phase matches InputShapePhase::RetryUpdate { at_ms } ==> match last_transition(calls) {
        Some(PolicyCall::ResetSucceeded { now_ms }) => at_ms == retry_at(now_ms),
        _ => false,
    }
}

/// Every state reached from `new` keeps `reachable_policy_ok`, and asking it
/// for the next step never changes the cache flag, answers `Idle` only with
/// a trusted cache that matches, `Disabled` exactly after `unsupported`, and
/// `Wait` only before the deadline of the last retry.
pub proof fn lemma_policy_reachable(calls: Seq<PolicyCall>, now_ms: u64, cache_matches: bool)
    ensures
        reachable_policy_ok(calls),
        ({
            let (phase, cache) = policy_run(calls);
            let (next, action) = action_spec(phase, cache, now_ms, cache_matches);
            &&& policy_step((phase, cache), PolicyCall::Action { now_ms, cache_matches }).1 == cache
            &&& action == InputShapeAction::Idle ==> cache && cache_matches
            &&& action == InputShapeAction::Disabled <==> last_transition(calls) == Some(
                PolicyCall::Unsupported,
            )
            &&& action == InputShapeAction::Wait ==> next == phase && match phase {
                InputShapePhase::RetryConnect { at_ms, .. } => now_ms < at_ms,
                InputShapePhase::RetryUpdate { at_ms } => now_ms < at_ms,
                _ => false,
            }
        }),
    decreases calls.len(),
{
    if calls.len() > 0 {
        let rest = calls.drop_last();
        lemma_policy_reachable(rest, now_ms, cache_matches);
    }
}

} // verus!

verus! {

/// A band of the window's input shape: the rows `y .. y + height`, covered
/// from column `x` for `width` pixels.
#[derive(Clone, Copy, Debug, PartialEq, Eq, Structural)]
pub struct ShapeBand {
    pub x: i16,
    pub y: i16,
    pub width: u16,
    pub height: u16,
}

/// The covered width of a row `width` pixels wide with `inset` pixels left
/// out on each side (saturating arithmetic, as `i32` computes it).
pub open spec fn row_width(width: int, inset: int) -> int {
    sat_i32(width - sat_i32(2 * inset))
}

/// The bands of a shape whose row `y` leaves out `insets[y]` pixels on each
/// side: empty rows are skipped, and a row joins the band above it when it
/// starts and ends at the same columns and that band can still grow.
pub open spec fn merged_bands(width: int, insets: Seq<i32>) -> Seq<ShapeBand>
    decreases insets.len(),
{
    if insets.len() == 0 {
        Seq::empty()
    } else {
        let before = merged_bands(width, insets.drop_last());
        let y = insets.len() - 1;
        let inset = insets.last();
        let w = row_width(width, inset as int);
        if w <= 0 {
            before
        } else if before.len() > 0 && before.last().x == inset && before.last().width == w
            && before.last().y + before.last().height == y && before.last().height < u16::MAX {
            before.update(
                before.len() - 1,
                ShapeBand { height: (before.last().height + 1) as u16, ..before.last() },
            )
        } else {
            before.push(ShapeBand { x: inset as i16, y: y as i16, width: w as u16, height: 1 })
        }
    }
}

proof fn lemma_bands_above(width: int, insets: Seq<i32>)
    requires
        0 <= width <= i16::MAX,
        insets.len() <= i16::MAX + 1,
        forall|i: int| 0 <= i < insets.len() ==> insets[i] >= 0,
    ensures
        forall|k: int|
            0 <= k < merged_bands(width, insets).len() ==> {
                let b = #[trigger] merged_bands(width, insets)[k];
                &&& 0 <= b.y
                &&& b.y + b.height <= insets.len()
            },
    decreases insets.len(),
{
    if insets.len() > 0 {
        let rest = insets.drop_last();
        assert forall|i: int| 0 <= i < rest.len() implies rest[i] >= 0 by {
            assert(rest[i] == insets[i]);
        }
        lemma_bands_above(width, rest);
        let before = merged_bands(width, rest);
        let y = insets.len() - 1;
        let inset = insets.last();
        let w = row_width(width, inset as int);
        let after = merged_bands(width, insets);
        if w <= 0 {
            assert(after == before);
        } else if before.len() > 0 && before.last().x == inset && before.last().width == w
            && before.last().y + before.last().height == y && before.last().height < u16::MAX {
            let last = before.last();
            assert(after == before.update(
                before.len() - 1,
                ShapeBand { height: (last.height + 1) as u16, ..last },
            ));
            assert forall|k: int| 0 <= k < after.len() implies {
                let b = #[trigger] after[k];
                &&& 0 <= b.y
                &&& b.y + b.height <= insets.len()
            } by {
                if k < before.len() - 1 {
                    assert(after[k] == before[k]);
                } else {
                    assert(before[k] == last);
                }
            }
        } else {
            let band = ShapeBand { x: inset as i16, y: y as i16, width: w as u16, height: 1 };
            assert(after == before.push(band));
            assert forall|k: int| 0 <= k < after.len() implies {
                let b = #[trigger] after[k];
                &&& 0 <= b.y
                &&& b.y + b.height <= insets.len()
            } by {
                if k < before.len() {
                    assert(after[k] == before[k]);
                }
            }
        }
    }
}

/// Joins the rows of a shape into bands (see `merged_bands`); `width` is at
/// most `i16::MAX`, there are at most `i16::MAX + 1` rows, and no inset is
/// negative.
pub fn merge_rows(width: i32, insets: &[i32]) -> (bands: Vec<ShapeBand>)
    requires
        0 <= width <= i16::MAX,
        insets@.len() <= i16::MAX + 1,
        forall|i: int| 0 <= i < insets@.len() ==> insets@[i] >= 0,
    ensures
        bands@ == merged_bands(width as int, insets@),
{
    let mut bands: Vec<ShapeBand> = Vec::new();
    let mut y: usize = 0;
    while y < insets.len()
        invariant
            0 <= width <= i16::MAX,
            insets@.len() <= i16::MAX + 1,
            forall|i: int| 0 <= i < insets@.len() ==> insets@[i] >= 0,
            y <= insets@.len(),
            bands@ == merged_bands(width as int, insets@.take(y as int)),
        decreases insets.len() - y,
    {
        let ghost prefix = insets@.take(y + 1);
        assert(prefix.drop_last() =~= insets@.take(y as int));
        assert forall|i: int| 0 <= i < y implies insets@.take(y as int)[i] >= 0 by {}
        proof {
            lemma_bands_above(width as int, insets@.take(y as int));
        }
        let inset = insets[y];
        let doubled = saturating_add_i32(inset, inset);
        let row = saturating_sub_i32(width, doubled);
        if row > 0 {
            let n = bands.len();
            let joins = if n > 0 {
                let last = bands[n - 1];
                last.x as i32 == inset && last.width as i32 == row && last.y as usize + last.height as usize
                    == y && last.height < u16::MAX
            } else {
                false
            };
            if joins {
                let last = bands[n - 1];
                bands.set(n - 1, ShapeBand { height: last.height + 1, ..last });
            } else {
                bands.push(ShapeBand { x: inset as i16, y: y as i16, width: row as u16, height: 1 });
            }
        }
        y = y + 1;
    }
    assert(insets@.take(insets.len() as int) =~= insets@);
    bands
}

} // verus!

verus! {

/// The rectangle `inner` lies within `outer`: it starts at or after each of
/// its near edges and ends at or before each of its far edges.
pub open spec fn lies_within(inner: Bounds, outer: Bounds) -> bool {
    &&& outer.x <= inner.x
    &&& outer.y <= inner.y
    &&& inner.x + inner.width <= right_edge(outer)
    &&& inner.y + inner.height <= bottom_edge(outer)
}

/// The overlap of two rectangles is exactly their common part: when there
/// is one, it is a non-empty rectangle that lies within both and holds
/// exactly the points that both hold; when there is none, no point lies in
/// both.
pub proof fn lemma_intersection_is_overlap(a: Bounds, b: Bounds)
    requires
        intersection_computable(a, b),
    ensures
        match intersection_spec(a, b) {
            Some(r) => {
                &&& r.width > 0 && r.height > 0
                &&& lies_within(r, a)
                &&& lies_within(r, b)
                &&& forall|p: Position|
                    contains_spec(r, p) <==> contains_spec(a, p) && contains_spec(b, p)
            },
            None => forall|p: Position| !(contains_spec(a, p) && contains_spec(b, p)),
        },
{
    match intersection_spec(a, b) {
        Some(r) => {},
        None => {
            assert forall|p: Position| !(contains_spec(a, p) && contains_spec(b, p)) by {}
        },
    }
}

/// Every work area made from `_NET_WORKAREA` and the monitors lies within
/// both the work area and one of the monitors.
pub proof fn lemma_overlaps_within_monitors(monitors: Seq<Bounds>, workarea: Bounds)
    requires
        forall|i: int| 0 <= i < monitors.len() ==> intersection_computable(#[trigger] monitors[i], workarea),
    ensures
        forall|k: int|
            0 <= k < intersections_spec(monitors, workarea).len() ==> {
                let area = #[trigger] intersections_spec(monitors, workarea)[k];
                &&& lies_within(area, workarea)
                &&& exists|i: int| 0 <= i < monitors.len() && lies_within(area, #[trigger] monitors[i])
            },
    decreases monitors.len(),
{
    if monitors.len() > 0 {
        let rest = monitors.drop_last();
        assert forall|i: int| 0 <= i < rest.len() implies intersection_computable(#[trigger] rest[i], workarea) by {
            assert(rest[i] == monitors[i]);
        }
        lemma_overlaps_within_monitors(rest, workarea);
        let last = monitors.last();
        lemma_intersection_is_overlap(last, workarea);
        let before = intersections_spec(rest, workarea);
        let all = intersections_spec(monitors, workarea);
        assert forall|k: int| 0 <= k < all.len() implies {
            let area = #[trigger] all[k];
            &&& lies_within(area, workarea)
            &&& exists|i: int| 0 <= i < monitors.len() && lies_within(area, #[trigger] monitors[i])
        } by {
            if k < before.len() {
                assert(all[k] == before[k]);
                let i = choose|i: int| 0 <= i < rest.len() && lies_within(before[k], #[trigger] rest[i]);
                assert(monitors[i] == rest[i]);
            } else {
                assert(monitors[monitors.len() - 1] == last);
            }
        }
    }
}

} // verus!
