use vstd::prelude::*;

verus! {

/// A point or a velocity on the playfield.
///
/// Coordinates are fixed-point milli-units: 1000 milli-units to one world
/// unit. Velocities are milli-units per millisecond, which is the same
/// number as world units per second.
#[derive(Clone, Copy, PartialEq, Eq, Structural, Debug)]
pub struct Vec2 {
    pub x: i64,
    pub y: i64,
}

/// Largest coordinate magnitude a frame step accepts, in milli-units.
pub const POS_LIMIT: i64 = 1_000_000_000_000_000;

/// Margin above `POS_LIMIT` that one frame of motion and a bullet offset
/// can add before the next frame is refused.
pub const POS_SLACK: i64 = 3_000_000_000_000;

/// Upper bound on how far one frame of motion can carry a coordinate:
/// at least `(VEL_LIMIT + INPUT_ACCEL) * DT_MAX` milli-units.
pub const STEP_BOUND: i64 = 1_100_000_000_000;

/// Largest velocity magnitude the frame functions accept, in milli-units
/// per millisecond.
pub const VEL_LIMIT: i64 = 1_000_000;

/// Velocity gained from one held key in one frame (50 world units per
/// second), before damping.
pub const INPUT_ACCEL: i64 = 50;

/// Largest frame delta accepted, in milliseconds.
pub const DT_MAX: u32 = 1_000_000;

/// The coordinate `c` lies in `[-bound, bound]`.
pub open spec fn coord_in(c: i64, bound: int) -> bool {
    -bound <= c && c <= bound
}

/// A position every frame step accepts.
pub open spec fn pos_ok(p: Vec2) -> bool {
    coord_in(p.x, POS_LIMIT as int) && coord_in(p.y, POS_LIMIT as int)
}

/// A position at most one frame of motion past `POS_LIMIT`.
pub open spec fn pos_in_step(p: Vec2) -> bool {
    coord_in(p.x, POS_LIMIT + STEP_BOUND) && coord_in(p.y, POS_LIMIT + STEP_BOUND)
}

/// A position at most one frame of motion and a bullet offset past
/// `POS_LIMIT`.
pub open spec fn pos_in_slack(p: Vec2) -> bool {
    coord_in(p.x, POS_LIMIT + POS_SLACK) && coord_in(p.y, POS_LIMIT + POS_SLACK)
}

/// A velocity every frame step accepts.
pub open spec fn vel_ok(v: Vec2) -> bool {
    coord_in(v.x, VEL_LIMIT as int) && coord_in(v.y, VEL_LIMIT as int)
}

/// A velocity right after input handling, before damping has pulled it
/// back under `VEL_LIMIT`.
pub open spec fn vel_in_slack(v: Vec2) -> bool {
    coord_in(v.x, VEL_LIMIT + INPUT_ACCEL) && coord_in(v.y, VEL_LIMIT + INPUT_ACCEL)
}

/// Where a coordinate ends up after moving at `v` for `dt` milliseconds.
pub open spec fn moved_coord(p: i64, v: i64, dt: u32) -> int {
    p + v * dt
}

/// The player's per-frame friction: four fifths of the velocity, rounded
/// toward zero so that a damped velocity never grows and decays to rest
/// from either sign.
pub open spec fn damped(v: int) -> int {
    if v >= 0 {
        (4 * v) / 5
    } else {
        -((4 * -v) / 5)
    }
}

/// Squared Euclidean distance between two positions, in squared
/// milli-units.
pub open spec fn dist_sq(a: Vec2, b: Vec2) -> int {
    (a.x - b.x) * (a.x - b.x) + (a.y - b.y) * (a.y - b.y)
}

/// The two positions are strictly closer than `threshold` milli-units.
pub open spec fn within(a: Vec2, b: Vec2, threshold: i64) -> bool {
    dist_sq(a, b) < threshold * threshold
}

/// The product of a value in `[-ma, ma]` and one in `[0, mb]` stays in
/// `[-(ma * mb), ma * mb]`.
pub proof fn lemma_mul_bound(a: int, b: int, ma: int, mb: int)
    by (nonlinear_arith)
    requires
        -ma <= a <= ma,
        0 <= b <= mb,
    ensures
        -(ma * mb) <= a * b <= ma * mb,
{
}

/// The square of a value in `[-m, m]` lies in `[0, m * m]`.
pub proof fn lemma_square_bound(a: int, m: int)
    by (nonlinear_arith)
    requires
        -m <= a <= m,
        0 <= m,
    ensures
        0 <= a * a <= m * m,
{
}

/// Damping never increases a velocity's magnitude.
pub proof fn lemma_damped_within(v: int, m: int)
    requires
        -m <= v <= m,
        0 <= m,
    ensures
        -m <= damped(v) <= m,
{
    if v >= 0 {
        assert((4 * v) / 5 <= v && (4 * v) / 5 >= 0) by (nonlinear_arith)
            requires v >= 0;
    } else {
        assert((4 * -v) / 5 <= -v && (4 * -v) / 5 >= 0) by (nonlinear_arith)
            requires v < 0;
    }
}

/// One coordinate of motion integration: `p + v * dt`, exact.
pub fn step_coord(p: i64, v: i64, dt: u32) -> (r: i64)
    requires
        coord_in(p, POS_LIMIT as int),
        coord_in(v, VEL_LIMIT + INPUT_ACCEL),
        dt <= DT_MAX,
    ensures
        r == moved_coord(p, v, dt),
        coord_in(r, POS_LIMIT + STEP_BOUND),
{
    proof {
        lemma_mul_bound(v as int, dt as int, VEL_LIMIT + INPUT_ACCEL, DT_MAX as int);
    }
    p + v * (dt as i64)
}

/// One coordinate of the player's friction, exact against `damped`.
pub fn damp_coord(v: i64) -> (r: i64)
    requires
        coord_in(v, VEL_LIMIT + INPUT_ACCEL),
    ensures
        r == damped(v as int),
        coord_in(r, VEL_LIMIT as int),
{
    proof {
        lemma_damped_within(v as int, VEL_LIMIT + INPUT_ACCEL);
        assert(damped(v as int) <= VEL_LIMIT) by {
            if v >= 0 {
                assert((4 * (v as int)) / 5 <= VEL_LIMIT) by (nonlinear_arith)
                    requires 0 <= v <= VEL_LIMIT + INPUT_ACCEL;
            } else {
                assert((4 * -(v as int)) / 5 >= 0) by (nonlinear_arith)
                    requires v < 0;
            }
        };
        assert(damped(v as int) >= -VEL_LIMIT) by {
            if v < 0 {
                assert((4 * -(v as int)) / 5 <= VEL_LIMIT) by (nonlinear_arith)
                    requires -(VEL_LIMIT + INPUT_ACCEL) <= v < 0;
            }
        };
    }
    if v >= 0 {
        (((v as u64) * 4) / 5) as i64
    } else {
        -((((((-v) as u64) * 4) / 5)) as i64)
    }
}

/// Whether two positions are strictly closer than `threshold` milli-units,
/// decided exactly on squared distances.
pub fn within_distance(a: Vec2, b: Vec2, threshold: i64) -> (r: bool)
    requires
        pos_in_slack(a),
        pos_in_slack(b),
        0 < threshold <= 1_000_000,
    ensures
        r == within(a, b, threshold),
{
    let dx: i128 = a.x as i128 - b.x as i128;
    let dy: i128 = a.y as i128 - b.y as i128;
    proof {
        lemma_square_bound(dx as int, 2 * (POS_LIMIT + POS_SLACK));
        lemma_square_bound(dy as int, 2 * (POS_LIMIT + POS_SLACK));
        lemma_square_bound(threshold as int, 1_000_000);
    }
    dx * dx + dy * dy < (threshold as i128) * (threshold as i128)
}

} // verus!
