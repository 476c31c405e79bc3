use crate::config::Position;
use crate::x11::{
    bottom_edge, clamp_to_bounds_spec, clamp_to_known_bounds, containing_bounds, fallback,
    fallback_bounds, first_containing, right_edge, saturating_add_i32, Bounds,
};
use vstd::prelude::*;

verus! {

/// The size of the compact ball, in logical pixels.
pub const COMPACT_WIDTH: i32 = 88;
pub const COMPACT_HEIGHT: i32 = 88;

/// The size of the expanded card, in logical pixels.
pub const EXPANDED_WIDTH: i32 = 290;
pub const EXPANDED_HEIGHT: i32 = 292;

/// How long expanding and collapsing take, in milliseconds.
pub const EXPAND_MS: u64 = 220;
pub const COLLAPSE_MS: u64 = 180;

/// The direction in which the card grows out of the ball.
#[derive(Clone, Copy, Debug, PartialEq, Eq, Structural)]
pub enum Growth {
    RightDown,
    RightUp,
    LeftDown,
    LeftUp,
}

/// Where the morph between ball and card stands.
#[derive(Clone, Copy, Debug, PartialEq, Eq, Structural)]
pub enum MorphPhase {
    Collapsed,
    Expanding,
    Expanded,
    Collapsing,
}

/// Where the ball sits, where the card sits, and how one grows into the
/// other.
#[derive(Clone, Copy, Debug, PartialEq, Eq, Structural)]
pub struct MorphPlacement {
    pub compact_anchor: Position,
    pub expanded_origin: Position,
    pub growth: Growth,
}

pub open spec fn grows_left_spec(growth: Growth) -> bool {
    growth == Growth::LeftDown || growth == Growth::LeftUp
}

pub open spec fn grows_up_spec(growth: Growth) -> bool {
    growth == Growth::RightUp || growth == Growth::LeftUp
}

fn grows_left(growth: Growth) -> (r: bool)
    ensures
        r == grows_left_spec(growth),
{
    match growth {
        Growth::LeftDown | Growth::LeftUp => true,
        _ => false,
    }
}

fn grows_up(growth: Growth) -> (r: bool)
    ensures
        r == grows_up_spec(growth),
{
    match growth {
        Growth::RightUp | Growth::LeftUp => true,
        _ => false,
    }
}

/// The ball position that belongs to a card position: the card's top-left
/// corner, moved to keep the right or bottom edge when the card grew left or
/// up.
pub open spec fn raw_anchor_spec(origin: Position, growth: Growth) -> Position {
    Position {
        x: if grows_left_spec(growth) {
            (origin.x + EXPANDED_WIDTH - COMPACT_WIDTH) as i32
        } else {
            origin.x
        },
        y: if grows_up_spec(growth) {
            (origin.y + EXPANDED_HEIGHT - COMPACT_HEIGHT) as i32
        } else {
            origin.y
        },
    }
}

/// The card position that grows out of a ball position.
pub open spec fn desired_origin_spec(anchor: Position, growth: Growth) -> Position {
    Position {
        x: if grows_left_spec(growth) {
            (anchor.x + COMPACT_WIDTH - EXPANDED_WIDTH) as i32
        } else {
            anchor.x
        },
        y: if grows_up_spec(growth) {
            (anchor.y + COMPACT_HEIGHT - EXPANDED_HEIGHT) as i32
        } else {
            anchor.y
        },
    }
}

/// The ball position for a card position can be computed without overflow.
pub open spec fn raw_anchor_computable(origin: Position, growth: Growth) -> bool {
    &&& grows_left_spec(growth) ==> origin.x + EXPANDED_WIDTH <= i32::MAX
    &&& grows_up_spec(growth) ==> origin.y + EXPANDED_HEIGHT <= i32::MAX
}

fn raw_anchor_from_expanded(origin: Position, growth: Growth) -> (p: Position)
    requires
        raw_anchor_computable(origin, growth),
    ensures
        p == raw_anchor_spec(origin, growth),
{
    Position {
        x: if grows_left(growth) {
            origin.x + EXPANDED_WIDTH - COMPACT_WIDTH
        } else {
            origin.x
        },
        y: if grows_up(growth) {
            origin.y + EXPANDED_HEIGHT - COMPACT_HEIGHT
        } else {
            origin.y
        },
    }
}

fn desired_expanded_origin(anchor: Position, growth: Growth) -> (p: Position)
    requires
        grows_left_spec(growth) ==> anchor.x + COMPACT_WIDTH <= i32::MAX && anchor.x + COMPACT_WIDTH
            - EXPANDED_WIDTH >= i32::MIN,
        grows_up_spec(growth) ==> anchor.y + COMPACT_HEIGHT <= i32::MAX && anchor.y + COMPACT_HEIGHT
            - EXPANDED_HEIGHT >= i32::MIN,
    ensures
        p == desired_origin_spec(anchor, growth),
{
    Position {
        x: if grows_left(growth) {
            anchor.x + COMPACT_WIDTH - EXPANDED_WIDTH
        } else {
            anchor.x
        },
        y: if grows_up(growth) {
            anchor.y + COMPACT_HEIGHT - EXPANDED_HEIGHT
        } else {
            anchor.y
        },
    }
}

/// Whether the card grows to the left of a ball at `start` (ball extent
/// `small`, card extent `large`) in the range `[low, high)`: not when it fits
/// to the right, yes when it fits to the left, else towards the side with
/// more room.
pub open spec fn grows_back_spec(start: int, small: int, large: int, low: int, high: int) -> bool {
    if start + large <= high {
        false
    } else if start + small - large >= low {
        true
    } else {
        start + small - low > high - start
    }
}

/// Every step of choosing a side along one axis stays in the `i32` range.
pub open spec fn side_computable(start: int, small: int, large: int, low: int, high: int) -> bool {
    &&& start + large <= i32::MAX
    &&& start + small <= i32::MAX
    &&& start + small - large >= i32::MIN
    &&& (start + large > high && start + small - large < low) ==> {
        &&& i32::MIN <= start + small - low <= i32::MAX
        &&& i32::MIN <= high - start <= i32::MAX
    }
}

fn grows_back(start: i32, small: i32, large: i32, low: i32, high: i32) -> (r: bool)
    requires
        side_computable(start as int, small as int, large as int, low as int, high as int),
        0 <= small <= large,
    ensures
        r == grows_back_spec(start as int, small as int, large as int, low as int, high as int),
{
    let fits_forward = start + large <= high;
    let fits_back = start + small - large >= low;
    if fits_forward {
        false
    } else if fits_back {
        true
    } else {
        start + small - low > high - start
    }
}

/// The ball position kept within the work area.
pub open spec fn placed_anchor(anchor: Position, workarea: Bounds) -> Position {
    clamp_to_bounds_spec(anchor, workarea, COMPACT_WIDTH as int, COMPACT_HEIGHT as int)
}

/// The growth chosen for a ball position in a work area.
pub open spec fn placement_growth(compact: Position, workarea: Bounds) -> Growth {
    let left = grows_back_spec(
        compact.x as int,
        COMPACT_WIDTH as int,
        EXPANDED_WIDTH as int,
        workarea.x as int,
        right_edge(workarea),
    );
    let up = grows_back_spec(
        compact.y as int,
        COMPACT_HEIGHT as int,
        EXPANDED_HEIGHT as int,
        workarea.y as int,
        bottom_edge(workarea),
    );
    if !left && !up {
        Growth::RightDown
    } else if !left && up {
        Growth::RightUp
    } else if left && !up {
        Growth::LeftDown
    } else {
        Growth::LeftUp
    }
}

/// How the ball at `anchor` grows into the card inside `workarea`: the ball
/// is kept within the work area, the card grows towards the sides where it
/// fits (else towards the roomier side) and is itself kept within the work
/// area.
pub open spec fn morph_placement_spec(anchor: Position, workarea: Bounds) -> MorphPlacement {
    let compact = placed_anchor(anchor, workarea);
    let growth = placement_growth(compact, workarea);
    MorphPlacement {
        compact_anchor: compact,
        expanded_origin: clamp_to_bounds_spec(
            desired_origin_spec(compact, growth),
            workarea,
            EXPANDED_WIDTH as int,
            EXPANDED_HEIGHT as int,
        ),
        growth,
    }
}

/// Choosing the placement stays in the `i32` range.
pub open spec fn placement_computable(anchor: Position, workarea: Bounds) -> bool {
    let compact = placed_anchor(anchor, workarea);
    &&& side_computable(
        compact.x as int,
        COMPACT_WIDTH as int,
        EXPANDED_WIDTH as int,
        workarea.x as int,
        right_edge(workarea),
    )
    &&& side_computable(
        compact.y as int,
        COMPACT_HEIGHT as int,
        EXPANDED_HEIGHT as int,
        workarea.y as int,
        bottom_edge(workarea),
    )
}

/// Places the ball and the card for an expansion in the given work area.
pub fn morph_placement(anchor: Position, workarea: Bounds) -> (placement: MorphPlacement)
    requires
        placement_computable(anchor, workarea),
    ensures
        placement == morph_placement_spec(anchor, workarea),
{
    let compact_anchor = clamp_to_known_bounds(anchor, Some(workarea), COMPACT_WIDTH, COMPACT_HEIGHT);
    let right = saturating_add_i32(workarea.x, workarea.width);
    let bottom = saturating_add_i32(workarea.y, workarea.height);
    let left = grows_back(compact_anchor.x, COMPACT_WIDTH, EXPANDED_WIDTH, workarea.x, right);
    let up = grows_back(compact_anchor.y, COMPACT_HEIGHT, EXPANDED_HEIGHT, workarea.y, bottom);
    let growth = if !left && !up {
        Growth::RightDown
    } else if !left && up {
        Growth::RightUp
    } else if left && !up {
        Growth::LeftDown
    } else {
        Growth::LeftUp
    };
    let desired = desired_expanded_origin(compact_anchor, growth);
    let expanded_origin = clamp_to_known_bounds(desired, Some(workarea), EXPANDED_WIDTH, EXPANDED_HEIGHT);
    MorphPlacement { compact_anchor, expanded_origin, growth }
}

/// The ball position that a card position collapses to within a work area.
pub open spec fn compact_anchor_spec(expanded_origin: Position, growth: Growth, workarea: Bounds) -> Position {
    placed_anchor(raw_anchor_spec(expanded_origin, growth), workarea)
}

/// Where the ball goes when the card at `expanded_origin`, grown in the
/// direction `growth`, collapses: the edges the card grew away from are kept,
/// and the ball stays within the work area.
pub fn compact_anchor_from_expanded(expanded_origin: Position, growth: Growth, workarea: Bounds) -> (p:
    Position)
    requires
        raw_anchor_computable(expanded_origin, growth),
    ensures
        p == compact_anchor_spec(expanded_origin, growth, workarea),
{
    clamp_to_known_bounds(
        raw_anchor_from_expanded(expanded_origin, growth),
        Some(workarea),
        COMPACT_WIDTH,
        COMPACT_HEIGHT,
    )
}

/// The work area for a dragged card: the first one holding the ball
/// position it would collapse to, else the first one holding the card's
/// corner, else the primary one, else the first one.
pub open spec fn drag_workarea(expanded_origin: Position, growth: Growth, workareas: Seq<Bounds>, primary: int) -> Option<
    Bounds,
> {
    match first_containing(workareas, raw_anchor_spec(expanded_origin, growth)) {
        Some(i) => Some(workareas[i]),
        None => match first_containing(workareas, expanded_origin) {
            Some(i) => Some(workareas[i]),
            None => fallback_bounds(workareas, primary),
        },
    }
}

/// The placement after the card was dragged to `expanded_origin`: the card is
/// kept within its work area, keeps its growth direction, and the ball
/// position is derived from it.
pub open spec fn reflow_spec(expanded_origin: Position, growth: Growth, workareas: Seq<Bounds>, primary: int) -> Option<
    MorphPlacement,
> {
    match drag_workarea(expanded_origin, growth, workareas, primary) {
        Some(workarea) => {
            let origin = clamp_to_bounds_spec(
                expanded_origin,
                workarea,
                EXPANDED_WIDTH as int,
                EXPANDED_HEIGHT as int,
            );
            Some(
                MorphPlacement {
                    compact_anchor: compact_anchor_spec(origin, growth, workarea),
                    expanded_origin: origin,
                    growth,
                },
            )
        },
        None => None,
    }
}

/// Reflowing a drag stays in the `i32` range.
pub open spec fn reflow_computable(expanded_origin: Position, growth: Growth, workareas: Seq<Bounds>, primary: int) -> bool {
    &&& raw_anchor_computable(expanded_origin, growth)
    &&& match drag_workarea(expanded_origin, growth, workareas, primary) {
        Some(workarea) => raw_anchor_computable(
            clamp_to_bounds_spec(expanded_origin, workarea, EXPANDED_WIDTH as int, EXPANDED_HEIGHT as int),
            growth,
        ),
        None => true,
    }
}

/// Re-places the card after it was dragged while expanded; `None` when there
/// is no work area at all.
pub fn reflow_expanded_drag(
    expanded_origin: Position,
    growth: Growth,
    workareas: &[Bounds],
    primary_monitor: usize,
) -> (r: Option<MorphPlacement>)
    requires
        reflow_computable(expanded_origin, growth, workareas@, primary_monitor as int),
    ensures
        r == reflow_spec(expanded_origin, growth, workareas@, primary_monitor as int),
{
    let raw_anchor = raw_anchor_from_expanded(expanded_origin, growth);
    let found = match containing_bounds(workareas, raw_anchor) {
        Some(b) => Some(b),
        None => match containing_bounds(workareas, expanded_origin) {
            Some(b) => Some(b),
            None => fallback(workareas, primary_monitor),
        },
    };
    let workarea = match found {
        Some(b) => b,
        None => {
            return None;
        },
    };
    let expanded_origin = clamp_to_known_bounds(
        expanded_origin,
        Some(workarea),
        EXPANDED_WIDTH,
        EXPANDED_HEIGHT,
    );
    let compact_anchor = compact_anchor_from_expanded(expanded_origin, growth, workarea);
    Some(MorphPlacement { compact_anchor, expanded_origin, growth })
}

} // verus!

verus! {

/// Collapsing returns the ball to exactly the place it expanded from: in a
/// work area of at least 491 x 495 logical pixels (twice the card less the
/// ball, less one: the card then fits on one side of any ball position) that ends within
/// the coordinate range, the ball position derived from the card equals the
/// ball position of the expansion, which is the given anchor itself when the
/// ball already lay within the work area, and the card lies within the work
/// area.
pub proof fn lemma_collapse_restores_anchor(anchor: Position, workarea: Bounds)
    requires
        workarea.width >= 2 * EXPANDED_WIDTH - COMPACT_WIDTH - 1,
        workarea.height >= 2 * EXPANDED_HEIGHT - COMPACT_HEIGHT - 1,
        workarea.x + workarea.width <= i32::MAX,
        workarea.y + workarea.height <= i32::MAX,
        placement_computable(anchor, workarea),
    ensures
        ({
            let placement = morph_placement_spec(anchor, workarea);
            &&& raw_anchor_computable(placement.expanded_origin, placement.growth)
            &&& compact_anchor_spec(placement.expanded_origin, placement.growth, workarea)
                == placement.compact_anchor
            &&& workarea.x <= placement.expanded_origin.x
            &&& placement.expanded_origin.x + EXPANDED_WIDTH <= workarea.x + workarea.width
            &&& workarea.y <= placement.expanded_origin.y
            &&& placement.expanded_origin.y + EXPANDED_HEIGHT <= workarea.y + workarea.height
            &&& (workarea.x <= anchor.x <= workarea.x + workarea.width - COMPACT_WIDTH && workarea.y
                <= anchor.y <= workarea.y + workarea.height - COMPACT_HEIGHT) ==> placement.compact_anchor
                == anchor
        }),
{
}

/// The expanded card lies wholly within the work area it was placed in,
/// whenever that work area can hold it (and ends within the coordinate
/// range); the ball lies within it too.
pub proof fn lemma_card_within_workarea(anchor: Position, workarea: Bounds)
    requires
        workarea.width >= EXPANDED_WIDTH,
        workarea.height >= EXPANDED_HEIGHT,
        workarea.x + workarea.width <= i32::MAX,
        workarea.y + workarea.height <= i32::MAX,
    ensures
        ({
            let placement = morph_placement_spec(anchor, workarea);
            &&& workarea.x <= placement.expanded_origin.x
            &&& placement.expanded_origin.x + EXPANDED_WIDTH <= workarea.x + workarea.width
            &&& workarea.y <= placement.expanded_origin.y
            &&& placement.expanded_origin.y + EXPANDED_HEIGHT <= workarea.y + workarea.height
            &&& workarea.x <= placement.compact_anchor.x
            &&& placement.compact_anchor.x + COMPACT_WIDTH <= workarea.x + workarea.width
            &&& workarea.y <= placement.compact_anchor.y
            &&& placement.compact_anchor.y + COMPACT_HEIGHT <= workarea.y + workarea.height
        }),
{
}

/// A card dragged while expanded is put back wholly within the work area
/// chosen for it, whenever that work area can hold it (and ends within the
/// coordinate range), and it keeps its growth direction.
pub proof fn lemma_dragged_card_within_workarea(
    expanded_origin: Position,
    growth: Growth,
    workareas: Seq<Bounds>,
    primary: int,
)
    requires
        drag_workarea(expanded_origin, growth, workareas, primary) matches Some(w) && w.width
            >= EXPANDED_WIDTH && w.height >= EXPANDED_HEIGHT && w.x + w.width <= i32::MAX && w.y
            + w.height <= i32::MAX,
    ensures
        ({
            let w = drag_workarea(expanded_origin, growth, workareas, primary).unwrap();
            let placement = reflow_spec(expanded_origin, growth, workareas, primary).unwrap();
            &&& reflow_spec(expanded_origin, growth, workareas, primary) is Some
            &&& placement.growth == growth
            &&& w.x <= placement.expanded_origin.x
            &&& placement.expanded_origin.x + EXPANDED_WIDTH <= w.x + w.width
            &&& w.y <= placement.expanded_origin.y
            &&& placement.expanded_origin.y + EXPANDED_HEIGHT <= w.y + w.height
        }),
{
}

} // verus!
