use vstd::prelude::*;

verus! {

/// Headings in a full turn: a heading is a whole number of these steps,
/// counter-clockwise from the `+x` axis. A turn moves one step per frame,
/// 2 pi / 96 (about 0.0654) radians: a deliberate approximation of a turning
/// rate of 0.066 radians per frame (0.03 times the velocity in pixels), which
/// gives a turning radius of about 33.6 pixels instead of 33.3.
pub const HEADINGS: u32 = 96;

/// Headings in a quarter turn.
pub const QUARTER_TURN: u32 = 24;

/// Distance a snake travels in one frame, in fixed-point units
/// (2.2 pixels).
pub const VELOCITY: i64 = 2253;

/// `VELOCITY * sin(k * 2 pi / HEADINGS)`, rounded, for `k` in one quarter turn.
pub open spec fn quarter_sine(k: int) -> int {
            if k == 0 {
        0
    } else if k == 1 {
        147
    } else if k == 2 {
        294
    } else if k == 3 {
        439
    } else if k == 4 {
        583
    } else if k == 5 {
        724
    } else if k == 6 {
        862
    } else if k == 7 {
        996
    } else if k == 8 {
        1126
    } else if k == 9 {
        1252
    } else if k == 10 {
        1371
    } else if k == 11 {
        1485
    } else if k == 12 {
        1593
    } else if k == 13 {
        1694
    } else if k == 14 {
        1787
    } else if k == 15 {
        1873
    } else if k == 16 {
        1951
    } else if k == 17 {
        2020
    } else if k == 18 {
        2081
    } else if k == 19 {
        2133
    } else if k == 20 {
        2176
    } else if k == 21 {
        2210
    } else if k == 22 {
        2234
    } else if k == 23 {
        2248
    } else {
        2253
    }
}

/// The vertical displacement of one frame at heading `h`: the quarter table
/// unfolded by the symmetries of the sine.
pub open spec fn sine_step(h: int) -> int {
    let q = h / QUARTER_TURN as int;
    let r = h % QUARTER_TURN as int;
    if q == 0 {
        quarter_sine(r)
    } else if q == 1 {
        quarter_sine(QUARTER_TURN - r)
    } else if q == 2 {
        -quarter_sine(r)
    } else {
        -quarter_sine(QUARTER_TURN - r)
    }
}

/// Horizontal displacement of one frame at heading `h`.
pub open spec fn dx(h: int) -> int {
    sine_step((h + QUARTER_TURN) % HEADINGS as int)
}

/// Vertical displacement of one frame at heading `h`.
pub open spec fn dy(h: int) -> int {
    sine_step(h)
}

fn quarter_sine_of(k: u32) -> (r: i64)
    requires
        k <= QUARTER_TURN,
    ensures
        r == quarter_sine(k as int),
        0 <= r <= VELOCITY,
{
            if k == 0 {
        0
    } else if k == 1 {
        147
    } else if k == 2 {
        294
    } else if k == 3 {
        439
    } else if k == 4 {
        583
    } else if k == 5 {
        724
    } else if k == 6 {
        862
    } else if k == 7 {
        996
    } else if k == 8 {
        1126
    } else if k == 9 {
        1252
    } else if k == 10 {
        1371
    } else if k == 11 {
        1485
    } else if k == 12 {
        1593
    } else if k == 13 {
        1694
    } else if k == 14 {
        1787
    } else if k == 15 {
        1873
    } else if k == 16 {
        1951
    } else if k == 17 {
        2020
    } else if k == 18 {
        2081
    } else if k == 19 {
        2133
    } else if k == 20 {
        2176
    } else if k == 21 {
        2210
    } else if k == 22 {
        2234
    } else if k == 23 {
        2248
    } else {
        2253
    }
}

fn sine_step_of(h: u32) -> (r: i64)
    requires
        h < HEADINGS,
    ensures
        r == sine_step(h as int),
        -VELOCITY <= r <= VELOCITY,
{
    let q = h / QUARTER_TURN;
    let r = h % QUARTER_TURN;
    if q == 0 {
        quarter_sine_of(r)
    } else if q == 1 {
        quarter_sine_of(QUARTER_TURN - r)
    } else if q == 2 {
        -quarter_sine_of(r)
    } else {
        -quarter_sine_of(QUARTER_TURN - r)
    }
}

/// Horizontal displacement of one frame at a heading.
pub fn step_x(heading: u32) -> (r: i64)
    requires
        heading < HEADINGS,
    ensures
        r == dx(heading as int),
        -VELOCITY <= r <= VELOCITY,
{
    sine_step_of((heading + QUARTER_TURN) % HEADINGS)
}

/// Vertical displacement of one frame at a heading.
pub fn step_y(heading: u32) -> (r: i64)
    requires
        heading < HEADINGS,
    ensures
        r == dy(heading as int),
        -VELOCITY <= r <= VELOCITY,
{
    sine_step_of(heading)
}

} // verus!
