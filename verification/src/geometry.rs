//! Fixed-point positions and the hover region of the continue prompt.
//!
//! Every length is an integer count of billionths of a unit. With time in
//! microseconds and stick deflection in thousandths, a position can then be
//! moved by speed times time times deflection without rounding.

use vstd::prelude::*;

verus! {

/// One unit of length (a pixel of the reference screen), in billionths.
pub const UNIT: i64 = 1_000_000_000;

/// Half the width of the reference screen, which is 1280 units wide.
pub const SCREEN_HALF_WIDTH: i64 = 640_000_000_000;

/// Half the height of the reference screen, which is 720 units high.
pub const SCREEN_HALF_HEIGHT: i64 = 360_000_000_000;

/// Where the continue prompt is centred, measured from the screen's centre.
pub const PROMPT_X: i64 = 300_000_000_000;

/// Where the continue prompt is centred, measured from the screen's centre.
pub const PROMPT_Y: i64 = 180_000_000_000;

/// Half the width of the region that counts as the prompt.
pub const PROMPT_HALF_WIDTH: i64 = 300_000_000_000;

/// Half the height of the region that counts as the prompt.
pub const PROMPT_HALF_HEIGHT: i64 = 180_000_000_000;

/// The prompt's tile while the pointer is elsewhere.
pub const TEXTURE_DEFAULT: u32 = 0;

/// The prompt's tile while the pointer is over it.
pub const TEXTURE_HIGHLIGHTED: u32 = 1;

/// A position or displacement in the plane, in billionths of a unit.
#[derive(Clone, Copy, PartialEq, Eq, Structural, Debug, Hash)]
pub struct Point {
    pub x: i64,
    pub y: i64,
}

/// The distance between two numbers.
pub open spec fn distance(a: int, b: int) -> int {
    if a >= b {
        a - b
    } else {
        b - a
    }
}

/// Whether a pointer at `cursor`, given in window coordinates, is over the
/// continue prompt.
///
/// The position is first taken relative to the centre of the reference
/// screen. It is over the prompt when it is closer to the prompt's centre
/// than the half-width along x and than the half-height along y; a pointer on
/// the border is not over the prompt.
pub open spec fn spec_over_prompt(cursor: Point) -> bool {
    let x = cursor.x - SCREEN_HALF_WIDTH;
    let y = cursor.y - SCREEN_HALF_HEIGHT;
    distance(x, PROMPT_X as int) < PROMPT_HALF_WIDTH && distance(y, PROMPT_Y as int)
        < PROMPT_HALF_HEIGHT
}

/// The tile the prompt shows for a pointer at `cursor`.
pub open spec fn spec_prompt_texture(cursor: Point) -> u32 {
    if spec_over_prompt(cursor) {
        TEXTURE_HIGHLIGHTED
    } else {
        TEXTURE_DEFAULT
    }
}

impl Point {
    /// The point with the given coordinates, in billionths of a unit.
    pub fn new(x: i64, y: i64) -> (p: Point)
        ensures
            p == (Point { x, y }),
    {
        Point { x, y }
    }

    /// The point with the given coordinates in whole units.
    pub fn from_units(x: i32, y: i32) -> (p: Point)
        ensures
            p.x == x * UNIT,
            p.y == y * UNIT,
    {
        let wide_x: i64 = x as i64;
        let wide_y: i64 = y as i64;
        Point { x: wide_x * UNIT, y: wide_y * UNIT }
    }

    /// The origin.
    pub fn origin() -> (p: Point)
        ensures
            p == (Point { x: 0, y: 0 }),
    {
        Point { x: 0, y: 0 }
    }
}

/// Whether a pointer at `cursor`, given in window coordinates, is over the
/// continue prompt.
pub fn over_prompt(cursor: Point) -> (over: bool)
    ensures
        over == spec_over_prompt(cursor),
{
    let x: i128 = cursor.x as i128 - SCREEN_HALF_WIDTH as i128;
    let y: i128 = cursor.y as i128 - SCREEN_HALF_HEIGHT as i128;
    let dx: i128 = if x >= PROMPT_X as i128 {
        x - PROMPT_X as i128
    } else {
        PROMPT_X as i128 - x
    };
    let dy: i128 = if y >= PROMPT_Y as i128 {
        y - PROMPT_Y as i128
    } else {
        PROMPT_Y as i128 - y
    };
    dx < PROMPT_HALF_WIDTH as i128 && dy < PROMPT_HALF_HEIGHT as i128
}

/// The tile the prompt shows for a pointer at `cursor`: the highlighted one
/// over the prompt, the default one elsewhere.
pub fn prompt_texture(cursor: Point) -> (index: u32)
    ensures
        index == spec_prompt_texture(cursor),
{
    if over_prompt(cursor) {
        TEXTURE_HIGHLIGHTED
    } else {
        TEXTURE_DEFAULT
    }
}

/// The pointer is over the prompt exactly when it lies strictly inside the
/// rectangle that spans from the screen's centre to 600 units right of it and
/// 360 units above it.
pub proof fn lemma_over_prompt_is_open_rectangle(cursor: Point)
    ensures
        spec_over_prompt(cursor) <==> (SCREEN_HALF_WIDTH < cursor.x < SCREEN_HALF_WIDTH + 2
            * PROMPT_HALF_WIDTH && SCREEN_HALF_HEIGHT < cursor.y < SCREEN_HALF_HEIGHT + 2
            * PROMPT_HALF_HEIGHT),
{
}

} // verus!
