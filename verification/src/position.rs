//! Play-area positions.
//!
//! The server is authoritative on boundary enforcement: every position it
//! rebroadcasts has been clamped into the fixed play-area bounds.
use vstd::prelude::*;

verus! {

/// Width of the fixed play area; valid x coordinates lie in `0 ..= PLAY_AREA_WIDTH`.
pub const PLAY_AREA_WIDTH: i32 = 800;

/// Height of the fixed play area; valid y coordinates lie in `0 ..= PLAY_AREA_HEIGHT`.
pub const PLAY_AREA_HEIGHT: i32 = 600;

/// A world position carried by the wire protocol and by entity records.
#[derive(Debug, Copy, Clone, PartialEq, Eq, Structural)]
pub struct Position {
    pub x: i32,
    pub y: i32,
}

impl Position {
    pub fn new(x: i32, y: i32) -> (r: Self)
        ensures
            r == (Position { x, y }),
    {
        Position { x, y }
    }
}

/// What clamping one coordinate into `lo ..= hi` yields.
pub open spec fn spec_clamp(v: int, lo: int, hi: int) -> int {
    if v < lo {
        lo
    } else if v > hi {
        hi
    } else {
        v
    }
}

/// The position `p` moved to the nearest point of the play area.
pub open spec fn spec_clamp_to_play_area(p: Position) -> Position {
    Position {
        x: spec_clamp(p.x as int, 0, PLAY_AREA_WIDTH as int) as i32,
        y: spec_clamp(p.y as int, 0, PLAY_AREA_HEIGHT as int) as i32,
    }
}

/// True when `p` already lies inside the play area.
pub open spec fn spec_in_play_area(p: Position) -> bool {
    0 <= p.x <= PLAY_AREA_WIDTH && 0 <= p.y <= PLAY_AREA_HEIGHT
}

/// Clamps a requested position into the play-area bounds.
pub fn clamp_to_play_area(p: Position) -> (r: Position)
    ensures
        r == spec_clamp_to_play_area(p),
        spec_in_play_area(r),
        spec_in_play_area(p) ==> r == p,
{
    let x = if p.x < 0 {
        0
    } else if p.x > PLAY_AREA_WIDTH {
        PLAY_AREA_WIDTH
    } else {
        p.x
    };
    let y = if p.y < 0 {
        0
    } else if p.y > PLAY_AREA_HEIGHT {
        PLAY_AREA_HEIGHT
    } else {
        p.y
    };
    Position { x, y }
}

} // verus!
