use vstd::prelude::*;
use vstd::string::*;
use crate::math::{
    Vec2, pos_ok, pos_in_step, pos_in_slack, vel_ok, vel_in_slack, moved_coord, damped,
    step_coord, damp_coord, within, within_distance, INPUT_ACCEL, DT_MAX,
};
use crate::world::{GameState, Rgb, Player, Enemy, Bullet, TextEntity, InputState, World, dark_color};
use crate::text;
use crate::rng;

verus! {

/// A bullet's speed to the right, in world units per second.
pub const BULLET_SPEED: i64 = 500;

/// A bullet appears this far right of the player, in milli-units.
pub const BULLET_OFFSET_X: i64 = 70_000;

/// A bullet appears this far above the player, in milli-units.
pub const BULLET_OFFSET_Y: i64 = 14_000;

/// A bullet and an enemy strictly closer than this collide, in
/// milli-units (30 world units).
pub const BULLET_HIT_RANGE: i64 = 30_000;

/// The player and an enemy strictly closer than this end the game, in
/// milli-units (50 world units).
pub const PLAYER_HIT_RANGE: i64 = 50_000;

/// Horizontal band new enemies appear in, in milli-units: the 40 world
/// units that end at the right screen edge (the window is 800 units wide
/// with a centred origin, so the edge sits at +400).
pub const SPAWN_X_MIN: i64 = 360_000;

/// Exclusive upper edge of the horizontal spawn band, in milli-units.
pub const SPAWN_X_MAX: i64 = 400_000;

/// Lower edge of the vertical spawn band, in milli-units.
pub const SPAWN_Y_MIN: i64 = -300_000;

/// Exclusive upper edge of the vertical spawn band, in milli-units.
pub const SPAWN_Y_MAX: i64 = 300_000;

/// Slowest leftward enemy speed, in world units per second.
pub const ENEMY_SPEED_MIN: i64 = 10;

/// Exclusive bound on enemy speed, in world units per second.
pub const ENEMY_SPEED_MAX: i64 = 40;

/// Net velocity change along one axis from a pair of opposing keys.
pub open spec fn axis_push(neg: bool, pos: bool) -> int {
    (if pos {
        INPUT_ACCEL as int
    } else {
        0
    }) - (if neg {
        INPUT_ACCEL as int
    } else {
        0
    })
}

/// Adds the held movement keys to the player's velocity: A and D push
/// along x, S and W along y, each by `INPUT_ACCEL`. Nothing else moves;
/// a missing player makes the frame a no-op.
pub fn handle_input(w: &mut World, input: &InputState)
    requires
        old(w).vels_ok(),
    ensures
        final(w).state == old(w).state,
        final(w).score == old(w).score,
        final(w).enemies == old(w).enemies,
        final(w).bullets == old(w).bullets,
        final(w).clear_color == old(w).clear_color,
        final(w).score_display == old(w).score_display,
        final(w).banner == old(w).banner,
        final(w).pending_game_over == old(w).pending_game_over,
        old(w).player is None ==> final(w).player is None,
        old(w).player matches Some(p) ==> (final(w).player matches Some(q) && {
            &&& q.pos == p.pos
            &&& q.scale_milli == p.scale_milli
            &&& q.vel.x == p.vel.x + axis_push(input.left, input.right)
            &&& q.vel.y == p.vel.y + axis_push(input.down, input.up)
            &&& vel_in_slack(q.vel)
        }),
        final(w).player is Some <==> old(w).player is Some,
        forall|i: int|
            0 <= i < final(w).enemies@.len() ==> vel_ok(#[trigger] final(w).enemies@[i].vel),
        forall|i: int|
            0 <= i < final(w).bullets@.len() ==> vel_ok(#[trigger] final(w).bullets@[i].vel),
{
    match w.player {
        None => {},
        Some(p) => {
            let mut vx = p.vel.x;
            let mut vy = p.vel.y;
            if input.left {
                vx = vx - INPUT_ACCEL;
            }
            if input.right {
                vx = vx + INPUT_ACCEL;
            }
            if input.up {
                vy = vy + INPUT_ACCEL;
            }
            if input.down {
                vy = vy - INPUT_ACCEL;
            }
            w.player = Some(
                Player { pos: p.pos, vel: Vec2 { x: vx, y: vy }, scale_milli: p.scale_milli },
            );
        },
    }
}

/// Advances every positioned entity by its velocity over `dt_ms`
/// milliseconds, then applies the player's per-frame friction. The
/// integration is exact: each coordinate becomes `p + v * dt`; only the
/// player's velocity changes, to `damped` of its old value.
pub fn update(w: &mut World, dt_ms: u32)
    requires
        old(w).poss_ok(),
        old(w).player matches Some(p) ==> vel_in_slack(p.vel),
        forall|i: int|
            0 <= i < old(w).enemies@.len() ==> vel_ok(#[trigger] old(w).enemies@[i].vel),
        forall|i: int|
            0 <= i < old(w).bullets@.len() ==> vel_ok(#[trigger] old(w).bullets@[i].vel),
        dt_ms <= DT_MAX,
    ensures
        final(w).state == old(w).state,
        final(w).score == old(w).score,
        final(w).clear_color == old(w).clear_color,
        final(w).score_display == old(w).score_display,
        final(w).banner == old(w).banner,
        final(w).pending_game_over == old(w).pending_game_over,
        final(w).player is Some <==> old(w).player is Some,
        old(w).player matches Some(p) ==> (final(w).player matches Some(q) && {
            &&& q.pos.x == moved_coord(p.pos.x, p.vel.x, dt_ms)
            &&& q.pos.y == moved_coord(p.pos.y, p.vel.y, dt_ms)
            &&& q.vel.x == damped(p.vel.x as int)
            &&& q.vel.y == damped(p.vel.y as int)
            &&& q.scale_milli == p.scale_milli
        }),
        final(w).enemies@.len() == old(w).enemies@.len(),
        forall|i: int|
            0 <= i < final(w).enemies@.len() ==> {
                let e0 = old(w).enemies@[i];
                let e1 = #[trigger] final(w).enemies@[i];
                &&& e1.pos.x == moved_coord(e0.pos.x, e0.vel.x, dt_ms)
                &&& e1.pos.y == moved_coord(e0.pos.y, e0.vel.y, dt_ms)
                &&& e1.vel == e0.vel
                &&& e1.scale_milli == e0.scale_milli
            },
        final(w).bullets@.len() == old(w).bullets@.len(),
        forall|i: int|
            0 <= i < final(w).bullets@.len() ==> {
                let b0 = old(w).bullets@[i];
                let b1 = #[trigger] final(w).bullets@[i];
                &&& b1.pos.x == moved_coord(b0.pos.x, b0.vel.x, dt_ms)
                &&& b1.pos.y == moved_coord(b0.pos.y, b0.vel.y, dt_ms)
                &&& b1.vel == b0.vel
            },
        final(w).vels_ok(),
        final(w).player matches Some(q) ==> pos_in_step(q.pos),
        forall|i: int|
            0 <= i < final(w).enemies@.len() ==> pos_in_step(#[trigger] final(w).enemies@[i].pos),
        forall|i: int|
            0 <= i < final(w).bullets@.len() ==> pos_in_step(#[trigger] final(w).bullets@[i].pos),
{
    let ne = w.enemies.len();
    let mut new_enemies: Vec<Enemy> = Vec::new();
    let mut i: usize = 0;
    while i < ne
        invariant
            *w == *old(w),
            i <= ne,
            ne == w.enemies@.len(),
            old(w).poss_ok(),
            forall|k: int|
                0 <= k < old(w).enemies@.len() ==> vel_ok(#[trigger] old(w).enemies@[k].vel),
            dt_ms <= DT_MAX,
            new_enemies@.len() == i as int,
            forall|k: int|
                0 <= k < i as int ==> {
                    let e0 = old(w).enemies@[k];
                    let e1 = #[trigger] new_enemies@[k];
                    &&& e1.pos.x == moved_coord(e0.pos.x, e0.vel.x, dt_ms)
                    &&& e1.pos.y == moved_coord(e0.pos.y, e0.vel.y, dt_ms)
                    &&& e1.vel == e0.vel
                    &&& e1.scale_milli == e0.scale_milli
                    &&& pos_in_step(e1.pos)
                },
        decreases ne - i,
    {
        let e = w.enemies[i];
        let moved = Enemy {
            pos: Vec2 {
                x: step_coord(e.pos.x, e.vel.x, dt_ms),
                y: step_coord(e.pos.y, e.vel.y, dt_ms),
            },
            vel: e.vel,
            scale_milli: e.scale_milli,
        };
        new_enemies.push(moved);
        i = i + 1;
    }
    let nb = w.bullets.len();
    let mut new_bullets: Vec<Bullet> = Vec::new();
    let mut j: usize = 0;
    while j < nb
        invariant
            *w == *old(w),
            j <= nb,
            nb == w.bullets@.len(),
            old(w).poss_ok(),
            forall|k: int|
                0 <= k < old(w).bullets@.len() ==> vel_ok(#[trigger] old(w).bullets@[k].vel),
            dt_ms <= DT_MAX,
            new_bullets@.len() == j as int,
            forall|k: int|
                0 <= k < j as int ==> {
                    let b0 = old(w).bullets@[k];
                    let b1 = #[trigger] new_bullets@[k];
                    &&& b1.pos.x == moved_coord(b0.pos.x, b0.vel.x, dt_ms)
                    &&& b1.pos.y == moved_coord(b0.pos.y, b0.vel.y, dt_ms)
                    &&& b1.vel == b0.vel
                    &&& pos_in_step(b1.pos)
                },
        decreases nb - j,
    {
        let b = w.bullets[j];
        let moved = Bullet {
            pos: Vec2 {
                x: step_coord(b.pos.x, b.vel.x, dt_ms),
                y: step_coord(b.pos.y, b.vel.y, dt_ms),
            },
            vel: b.vel,
        };
        new_bullets.push(moved);
        j = j + 1;
    }
    w.enemies = new_enemies;
    w.bullets = new_bullets;
    match w.player {
        None => {},
        Some(p) => {
            let moved_pos = Vec2 {
                x: step_coord(p.pos.x, p.vel.x, dt_ms),
                y: step_coord(p.pos.y, p.vel.y, dt_ms),
            };
            let damped_vel = Vec2 { x: damp_coord(p.vel.x), y: damp_coord(p.vel.y) };
            w.player = Some(Player { pos: moved_pos, vel: damped_vel, scale_milli: p.scale_milli });
        },
    }
}

/// Whether a freshly spawned enemy lies in the spawn band with a leftward
/// speed drawn from the allowed range.
pub open spec fn spawned_enemy_ok(e: Enemy) -> bool {
    &&& SPAWN_X_MIN <= e.pos.x < SPAWN_X_MAX
    &&& SPAWN_Y_MIN <= e.pos.y < SPAWN_Y_MAX
    &&& -ENEMY_SPEED_MAX < e.vel.x <= -ENEMY_SPEED_MIN
    &&& e.vel.y == 0
    &&& e.scale_milli == 100
}

/// Appends one enemy built from the given draws: position `(x, y)`,
/// velocity `(-speed, 0)`, a tenth of the source sprite's size.
pub fn spawn_enemy_from_draws(w: &mut World, x: i64, y: i64, speed: i64)
    requires
        SPAWN_X_MIN <= x < SPAWN_X_MAX,
        SPAWN_Y_MIN <= y < SPAWN_Y_MAX,
        ENEMY_SPEED_MIN <= speed < ENEMY_SPEED_MAX,
    ensures
        final(w).state == old(w).state,
        final(w).score == old(w).score,
        final(w).player == old(w).player,
        final(w).bullets == old(w).bullets,
        final(w).clear_color == old(w).clear_color,
        final(w).score_display == old(w).score_display,
        final(w).banner == old(w).banner,
        final(w).pending_game_over == old(w).pending_game_over,
        final(w).enemies@.len() == old(w).enemies@.len() + 1,
        final(w).enemies@.take(old(w).enemies@.len() as int) == old(w).enemies@,
        final(w).enemies@.last().pos.x == x,
        final(w).enemies@.last().pos.y == y,
        final(w).enemies@.last().vel.x == -speed,
        final(w).enemies@.last().vel.y == 0,
        final(w).enemies@.last().scale_milli == 100,
        spawned_enemy_ok(final(w).enemies@.last()),
        pos_ok(final(w).enemies@.last().pos),
        vel_ok(final(w).enemies@.last().vel),
{
    let e = Enemy { pos: Vec2 { x, y }, vel: Vec2 { x: -speed, y: 0 }, scale_milli: 100 };
    w.enemies.push(e);
    proof {
        assert(w.enemies@.take(old(w).enemies@.len() as int) =~= old(w).enemies@);
    }
}

/// On each spawn tick, with probability one in three, places one enemy at
/// a random spot in the band along the right edge, drifting left at a
/// random speed. Every other part of the world is untouched, and whatever
/// the draws were, an appended enemy satisfies `spawned_enemy_ok`.
pub fn spawn_enemies(w: &mut World)
    ensures
        final(w).state == old(w).state,
        final(w).score == old(w).score,
        final(w).player == old(w).player,
        final(w).bullets == old(w).bullets,
        final(w).clear_color == old(w).clear_color,
        final(w).score_display == old(w).score_display,
        final(w).banner == old(w).banner,
        final(w).pending_game_over == old(w).pending_game_over,
        final(w).enemies == old(w).enemies || {
            &&& final(w).enemies@.len() == old(w).enemies@.len() + 1
            &&& final(w).enemies@.take(old(w).enemies@.len() as int) == old(w).enemies@
            &&& spawned_enemy_ok(final(w).enemies@.last())
            &&& pos_ok(final(w).enemies@.last().pos)
            &&& vel_ok(final(w).enemies@.last().vel)
        },
{
    let roll = rng::random_u8_in(0, 3);
    if roll_spawns(roll) {
        let x = rng::random_i64_in(SPAWN_X_MIN, SPAWN_X_MAX);
        let y = rng::random_i64_in(SPAWN_Y_MIN, SPAWN_Y_MAX);
        let speed = rng::random_i64_in(ENEMY_SPEED_MIN, ENEMY_SPEED_MAX);
        spawn_enemy_from_draws(w, x, y, speed);
    }
}

/// The one-in-three spawn gate: a tick spawns exactly when the
/// three-sided roll came up zero.
pub fn roll_spawns(roll: u8) -> (r: bool)
    ensures
        r == (roll == 0),
{
    roll == 0
}

/// On the frame the fire key went down, if the player exists, appends one
/// bullet offset `(+70, +14)` world units from the player, moving right
/// at `BULLET_SPEED`. Holding the key does not refire.
pub fn spawn_bullets(w: &mut World, input: &InputState)
    requires
        old(w).player matches Some(p) ==> pos_in_step(p.pos),
    ensures
        final(w).state == old(w).state,
        final(w).score == old(w).score,
        final(w).player == old(w).player,
        final(w).enemies == old(w).enemies,
        final(w).clear_color == old(w).clear_color,
        final(w).score_display == old(w).score_display,
        final(w).banner == old(w).banner,
        final(w).pending_game_over == old(w).pending_game_over,
        !(input.fire && old(w).player is Some) ==> final(w).bullets == old(w).bullets,
        input.fire ==> (old(w).player matches Some(p) ==> {
            &&& final(w).bullets@.len() == old(w).bullets@.len() + 1
            &&& final(w).bullets@.take(old(w).bullets@.len() as int) == old(w).bullets@
            &&& final(w).bullets@.last().pos.x == p.pos.x + BULLET_OFFSET_X
            &&& final(w).bullets@.last().pos.y == p.pos.y + BULLET_OFFSET_Y
            &&& final(w).bullets@.last().vel.x == BULLET_SPEED
            &&& final(w).bullets@.last().vel.y == 0
            &&& pos_in_slack(final(w).bullets@.last().pos)
            &&& vel_ok(final(w).bullets@.last().vel)
        }),
{
    if input.fire {
        match w.player {
            None => {},
            Some(p) => {
                let b = Bullet {
                    pos: Vec2 { x: p.pos.x + BULLET_OFFSET_X, y: p.pos.y + BULLET_OFFSET_Y },
                    vel: Vec2 { x: BULLET_SPEED, y: 0 },
                };
                w.bullets.push(b);
                proof {
                    assert(w.bullets@.take(old(w).bullets@.len() as int) =~= old(w).bullets@);
                }
            },
        }
    }
}

/// Sets the clear colour to the fixed dark grey shown after the game
/// ends.
pub fn darken_screen(w: &mut World)
    ensures
        final(w).clear_color == dark_color(),
        final(w).state == old(w).state,
        final(w).score == old(w).score,
        final(w).player == old(w).player,
        final(w).enemies == old(w).enemies,
        final(w).bullets == old(w).bullets,
        final(w).score_display == old(w).score_display,
        final(w).banner == old(w).banner,
        final(w).pending_game_over == old(w).pending_game_over,
{
    w.clear_color = Rgb { r: 100, g: 100, b: 100 };
}

/// Spawns the centred "Game Over!" banner at the larger font size.
pub fn display_game_over_text(w: &mut World)
    ensures
        final(w).banner matches Some(t) && {
            &&& t.content@ == "Game Over!"@
            &&& t.pos == (Vec2 { x: 0, y: 0 })
            &&& t.font_points == 50
        },
        final(w).state == old(w).state,
        final(w).score == old(w).score,
        final(w).player == old(w).player,
        final(w).enemies == old(w).enemies,
        final(w).bullets == old(w).bullets,
        final(w).clear_color == old(w).clear_color,
        final(w).score_display == old(w).score_display,
        final(w).pending_game_over == old(w).pending_game_over,
{
    w.banner = Some(
        TextEntity {
            content: String::from_str("Game Over!"),
            pos: Vec2 { x: 0, y: 0 },
            font_points: 50,
        },
    );
}

/// Rewrites the score overlay to show the current count; its place and
/// font are untouched.
pub fn update_score_text(w: &mut World)
    ensures
        final(w).score_display.content@ == text::score_line(old(w).score as nat),
        final(w).score_display.pos == old(w).score_display.pos,
        final(w).score_display.font_points == old(w).score_display.font_points,
        final(w).state == old(w).state,
        final(w).score == old(w).score,
        final(w).player == old(w).player,
        final(w).enemies == old(w).enemies,
        final(w).bullets == old(w).bullets,
        final(w).clear_color == old(w).clear_color,
        final(w).banner == old(w).banner,
        final(w).pending_game_over == old(w).pending_game_over,
{
    let line = text::render_score_line(w.score);
    w.score_display.content = line;
}

/// A bullet and an enemy count as colliding when strictly closer than
/// `BULLET_HIT_RANGE`.
pub open spec fn bullet_hits_enemy(b: Bullet, e: Enemy) -> bool {
    within(b.pos, e.pos, BULLET_HIT_RANGE)
}

/// How many enemies of `es` the bullet overlaps.
pub open spec fn hits_of_bullet(b: Bullet, es: Seq<Enemy>) -> nat
    decreases es.len(),
{
    if es.len() == 0 {
        0
    } else {
        hits_of_bullet(b, es.drop_last()) + (if bullet_hits_enemy(b, es.last()) {
            1nat
        } else {
            0nat
        })
    }
}

/// How many bullet-enemy pairs overlap. Destruction is deferred to the
/// end of the frame, so every overlapping pair scores, and one bullet can
/// score against several enemies at once.
pub open spec fn total_hits(bs: Seq<Bullet>, es: Seq<Enemy>) -> nat
    decreases bs.len(),
{
    if bs.len() == 0 {
        0
    } else {
        total_hits(bs.drop_last(), es) + hits_of_bullet(bs.last(), es)
    }
}

/// The bullet overlaps no enemy, so it outlives the frame.
pub open spec fn bullet_survives(b: Bullet, es: Seq<Enemy>) -> bool {
    forall|j: int| 0 <= j < es.len() ==> !bullet_hits_enemy(b, #[trigger] es[j])
}

/// The enemy overlaps no bullet, so it outlives the frame.
pub open spec fn enemy_survives(e: Enemy, bs: Seq<Bullet>) -> bool {
    forall|i: int| 0 <= i < bs.len() ==> !bullet_hits_enemy(#[trigger] bs[i], e)
}

/// The bullets that outlive one collision scan.
pub open spec fn surviving_bullets(bs: Seq<Bullet>, es: Seq<Enemy>) -> Seq<Bullet> {
    bs.filter(|b: Bullet| bullet_survives(b, es))
}

/// The enemies that outlive one collision scan.
pub open spec fn surviving_enemies(es: Seq<Enemy>, bs: Seq<Bullet>) -> Seq<Enemy> {
    es.filter(|e: Enemy| enemy_survives(e, bs))
}

proof fn lemma_hits_of_bullet_take_succ(b: Bullet, es: Seq<Enemy>, j: int)
    requires
        0 <= j < es.len(),
    ensures
        hits_of_bullet(b, es.take(j + 1)) == hits_of_bullet(b, es.take(j)) + (
        if bullet_hits_enemy(b, es[j]) {
            1nat
        } else {
            0nat
        }),
{
    assert(es.take(j + 1).drop_last() =~= es.take(j));
    assert(es.take(j + 1).last() == es[j]);
}

proof fn lemma_hits_of_bullet_take_le(b: Bullet, es: Seq<Enemy>, j: int)
    requires
        0 <= j <= es.len(),
    ensures
        hits_of_bullet(b, es.take(j)) <= hits_of_bullet(b, es),
    decreases es.len() - j,
{
    if j == es.len() {
        assert(es.take(j) =~= es);
    } else {
        lemma_hits_of_bullet_take_succ(b, es, j);
        lemma_hits_of_bullet_take_le(b, es, j + 1);
    }
}

proof fn lemma_total_hits_take_succ(bs: Seq<Bullet>, es: Seq<Enemy>, i: int)
    requires
        0 <= i < bs.len(),
    ensures
        total_hits(bs.take(i + 1), es) == total_hits(bs.take(i), es) + hits_of_bullet(bs[i], es),
{
    assert(bs.take(i + 1).drop_last() =~= bs.take(i));
    assert(bs.take(i + 1).last() == bs[i]);
}

proof fn lemma_total_hits_take_le(bs: Seq<Bullet>, es: Seq<Enemy>, i: int)
    requires
        0 <= i <= bs.len(),
    ensures
        total_hits(bs.take(i), es) <= total_hits(bs, es),
    decreases bs.len() - i,
{
    if i == bs.len() {
        assert(bs.take(i) =~= bs);
    } else {
        lemma_total_hits_take_succ(bs, es, i);
        lemma_total_hits_take_le(bs, es, i + 1);
    }
}

/// A bullet overlaps at most every enemy once.
pub proof fn lemma_hits_of_bullet_le_len(b: Bullet, es: Seq<Enemy>)
    ensures
        hits_of_bullet(b, es) <= es.len(),
    decreases es.len(),
{
    if es.len() > 0 {
        lemma_hits_of_bullet_le_len(b, es.drop_last());
    }
}

/// The pair count is at most the full cross product.
pub proof fn lemma_total_hits_le_product(bs: Seq<Bullet>, es: Seq<Enemy>)
    ensures
        total_hits(bs, es) <= bs.len() * es.len(),
    decreases bs.len(),
{
    if bs.len() > 0 {
        lemma_total_hits_le_product(bs.drop_last(), es);
        lemma_hits_of_bullet_le_len(bs.last(), es);
        assert((bs.len() - 1) * es.len() + es.len() == bs.len() * es.len()) by (nonlinear_arith);
    }
}

/// Scans every bullet against every enemy: each overlapping pair scores a
/// point, and every bullet or enemy in an overlapping pair is gone at the
/// end of the scan. One bullet within range of several enemies scores
/// once per enemy before it despawns.
pub fn check_for_collisions(w: &mut World)
    requires
        old(w).poss_in_slack(),
        old(w).vels_ok(),
        old(w).score + total_hits(old(w).bullets@, old(w).enemies@) <= u32::MAX,
    ensures
        final(w).poss_in_slack(),
        final(w).vels_ok(),
        final(w).state == old(w).state,
        final(w).player == old(w).player,
        final(w).clear_color == old(w).clear_color,
        final(w).score_display == old(w).score_display,
        final(w).banner == old(w).banner,
        final(w).pending_game_over == old(w).pending_game_over,
        final(w).score == old(w).score + total_hits(old(w).bullets@, old(w).enemies@),
        final(w).bullets@ == surviving_bullets(old(w).bullets@, old(w).enemies@),
        final(w).enemies@ == surviving_enemies(old(w).enemies@, old(w).bullets@),
{
    let ghost bs = w.bullets@;
    let ghost es = w.enemies@;
    let nb = w.bullets.len();
    let ne = w.enemies.len();
    let mut i: usize = 0;
    while i < nb
        invariant
            i <= nb,
            w.bullets@ == bs,
            w.enemies@ == es,
            nb == bs.len(),
            ne == es.len(),
            w.state == old(w).state,
            w.player == old(w).player,
            w.clear_color == old(w).clear_color,
            w.score_display == old(w).score_display,
            w.banner == old(w).banner,
            w.pending_game_over == old(w).pending_game_over,
            old(w).poss_in_slack(),
            bs == old(w).bullets@,
            es == old(w).enemies@,
            old(w).score + total_hits(bs, es) <= u32::MAX,
            w.score == old(w).score + total_hits(bs.take(i as int), es),
        decreases nb - i,
    {
        let mut j: usize = 0;
        while j < ne
            invariant
                i < nb,
                j <= ne,
                w.bullets@ == bs,
                w.enemies@ == es,
                nb == bs.len(),
                ne == es.len(),
                w.state == old(w).state,
                w.player == old(w).player,
                w.clear_color == old(w).clear_color,
                w.score_display == old(w).score_display,
                w.banner == old(w).banner,
                w.pending_game_over == old(w).pending_game_over,
                old(w).poss_in_slack(),
                bs == old(w).bullets@,
                es == old(w).enemies@,
                old(w).score + total_hits(bs, es) <= u32::MAX,
                w.score == old(w).score + total_hits(bs.take(i as int), es) + hits_of_bullet(
                    bs[i as int],
                    es.take(j as int),
                ),
            decreases ne - j,
        {
            if within_distance(w.bullets[i].pos, w.enemies[j].pos, BULLET_HIT_RANGE) {
                proof {
                    lemma_hits_of_bullet_take_succ(bs[i as int], es, j as int);
                    lemma_hits_of_bullet_take_le(bs[i as int], es, j as int + 1);
                    lemma_total_hits_take_succ(bs, es, i as int);
                    lemma_total_hits_take_le(bs, es, i as int + 1);
                }
                w.score = w.score + 1;
            } else {
                proof {
                    lemma_hits_of_bullet_take_succ(bs[i as int], es, j as int);
                }
            }
            j = j + 1;
        }
        proof {
            assert(es.take(ne as int) =~= es);
            lemma_total_hits_take_succ(bs, es, i as int);
        }
        i = i + 1;
    }
    proof {
        assert(bs.take(nb as int) =~= bs);
    }
    let mut kept_bullets: Vec<Bullet> = Vec::new();
    proof {
        reveal_with_fuel(Seq::filter, 2);
        assert(bs.take(0) =~= Seq::<Bullet>::empty());
        assert(kept_bullets@ =~= surviving_bullets(bs.take(0), es));
    }
    let mut bi: usize = 0;
    while bi < nb
        invariant
            bi <= nb,
            w.bullets@ == bs,
            w.enemies@ == es,
            nb == bs.len(),
            ne == es.len(),
            old(w).poss_in_slack(),
            bs == old(w).bullets@,
            es == old(w).enemies@,
            w.state == old(w).state,
            w.player == old(w).player,
            w.clear_color == old(w).clear_color,
            w.score_display == old(w).score_display,
            w.banner == old(w).banner,
            w.pending_game_over == old(w).pending_game_over,
            w.score == old(w).score + total_hits(bs, es),
            old(w).vels_ok(),
            kept_bullets@ == surviving_bullets(bs.take(bi as int), es),
            forall|k: int|
                0 <= k < kept_bullets@.len() ==> pos_in_slack(#[trigger] kept_bullets@[k].pos),
            forall|k: int|
                0 <= k < kept_bullets@.len() ==> vel_ok(#[trigger] kept_bullets@[k].vel),
        decreases nb - bi,
    {
        let b = w.bullets[bi];
        let mut hit = false;
        let mut j: usize = 0;
        while j < ne
            invariant
                bi < nb,
                j <= ne,
                w.bullets@ == bs,
                w.enemies@ == es,
                nb == bs.len(),
                ne == es.len(),
                old(w).poss_in_slack(),
                bs == old(w).bullets@,
                es == old(w).enemies@,
                b == bs[bi as int],
                hit == (exists|k: int|
                    0 <= k < j as int && bullet_hits_enemy(b, #[trigger] es[k])),
            decreases ne - j,
        {
            if within_distance(b.pos, w.enemies[j].pos, BULLET_HIT_RANGE) {
                hit = true;
                proof {
                    assert(bullet_hits_enemy(b, es[j as int]));
                }
            }
            j = j + 1;
        }
        proof {
            if hit {
                let k = choose|k: int| 0 <= k < ne as int && bullet_hits_enemy(b, #[trigger] es[k]);
                assert(!bullet_survives(b, es));
            } else {
                assert(bullet_survives(b, es));
            }
            assert(bs.take(bi as int + 1).drop_last() =~= bs.take(bi as int));
            assert(bs.take(bi as int + 1).last() == bs[bi as int]);
        }
        if !hit {
            kept_bullets.push(b);
        }
        proof {
            reveal_with_fuel(Seq::filter, 2);
            assert(kept_bullets@ =~= surviving_bullets(bs.take(bi as int + 1), es));
        }
        bi = bi + 1;
    }
    let mut kept_enemies: Vec<Enemy> = Vec::new();
    proof {
        reveal_with_fuel(Seq::filter, 2);
        assert(es.take(0) =~= Seq::<Enemy>::empty());
        assert(kept_enemies@ =~= surviving_enemies(es.take(0), bs));
    }
    let mut ei: usize = 0;
    while ei < ne
        invariant
            ei <= ne,
            w.bullets@ == bs,
            w.enemies@ == es,
            nb == bs.len(),
            ne == es.len(),
            old(w).poss_in_slack(),
            bs == old(w).bullets@,
            es == old(w).enemies@,
            w.state == old(w).state,
            w.player == old(w).player,
            w.clear_color == old(w).clear_color,
            w.score_display == old(w).score_display,
            w.banner == old(w).banner,
            w.pending_game_over == old(w).pending_game_over,
            w.score == old(w).score + total_hits(bs, es),
            old(w).vels_ok(),
            kept_enemies@ == surviving_enemies(es.take(ei as int), bs),
            forall|k: int|
                0 <= k < kept_enemies@.len() ==> pos_in_slack(#[trigger] kept_enemies@[k].pos),
            forall|k: int|
                0 <= k < kept_enemies@.len() ==> vel_ok(#[trigger] kept_enemies@[k].vel),
        decreases ne - ei,
    {
        let e = w.enemies[ei];
        let mut hit = false;
        let mut j: usize = 0;
        while j < nb
            invariant
                ei < ne,
                j <= nb,
                w.bullets@ == bs,
                w.enemies@ == es,
                nb == bs.len(),
                ne == es.len(),
                old(w).poss_in_slack(),
                bs == old(w).bullets@,
                es == old(w).enemies@,
                e == es[ei as int],
                hit == (exists|k: int|
                    0 <= k < j as int && bullet_hits_enemy(#[trigger] bs[k], e)),
            decreases nb - j,
        {
            if within_distance(w.bullets[j].pos, e.pos, BULLET_HIT_RANGE) {
                hit = true;
                proof {
                    assert(bullet_hits_enemy(bs[j as int], e));
                }
            }
            j = j + 1;
        }
        proof {
            if hit {
                let k = choose|k: int| 0 <= k < nb as int && bullet_hits_enemy(#[trigger] bs[k], e);
                assert(!enemy_survives(e, bs));
            } else {
                assert(enemy_survives(e, bs));
            }
            assert(es.take(ei as int + 1).drop_last() =~= es.take(ei as int));
            assert(es.take(ei as int + 1).last() == es[ei as int]);
        }
        if !hit {
            kept_enemies.push(e);
        }
        proof {
            reveal_with_fuel(Seq::filter, 2);
            assert(kept_enemies@ =~= surviving_enemies(es.take(ei as int + 1), bs));
        }
        ei = ei + 1;
    }
    proof {
        assert(bs.take(nb as int) =~= bs);
        assert(es.take(ne as int) =~= es);
    }
    w.bullets = kept_bullets;
    w.enemies = kept_enemies;
}

/// The player stands strictly closer than `PLAYER_HIT_RANGE` to some
/// enemy.
pub open spec fn player_hit(p: Player, es: Seq<Enemy>) -> bool {
    exists|j: int| 0 <= j < es.len() && within(p.pos, #[trigger] es[j].pos, PLAYER_HIT_RANGE)
}

/// Checks the player against every enemy and raises the game-over
/// request when one is close enough; several close enemies all raise the
/// same request. Nothing else changes.
pub fn check_for_player_collisions(w: &mut World)
    requires
        old(w).poss_in_slack(),
    ensures
        final(w).state == old(w).state,
        final(w).score == old(w).score,
        final(w).player == old(w).player,
        final(w).enemies == old(w).enemies,
        final(w).bullets == old(w).bullets,
        final(w).clear_color == old(w).clear_color,
        final(w).score_display == old(w).score_display,
        final(w).banner == old(w).banner,
        final(w).pending_game_over == (old(w).pending_game_over || (old(w).player matches Some(p)
            && player_hit(p, old(w).enemies@))),
{
    let ghost es = w.enemies@;
    match w.player {
        None => {},
        Some(p) => {
            let ne = w.enemies.len();
            let mut j: usize = 0;
            while j < ne
                invariant
                    j <= ne,
                    w.enemies == old(w).enemies,
                    w.enemies@ == es,
                    ne == es.len(),
                    w.state == old(w).state,
                    w.score == old(w).score,
                    w.player == old(w).player,
                    w.bullets == old(w).bullets,
                    w.clear_color == old(w).clear_color,
                    w.score_display == old(w).score_display,
                    w.banner == old(w).banner,
                    old(w).poss_in_slack(),
                    es == old(w).enemies@,
                    old(w).player == Some(p),
                    w.pending_game_over == (old(w).pending_game_over || (exists|k: int|
                        0 <= k < j as int && within(p.pos, #[trigger] es[k].pos, PLAYER_HIT_RANGE))),
                decreases ne - j,
            {
                if within_distance(p.pos, w.enemies[j].pos, PLAYER_HIT_RANGE) {
                    w.pending_game_over = true;
                    proof {
                        assert(within(p.pos, es[j as int].pos, PLAYER_HIT_RANGE));
                    }
                }
                j = j + 1;
            }
        },
    }
}

/// Where a position ends after moving at `v` for `dt` milliseconds.
pub open spec fn moved_vec2(p: Vec2, v: Vec2, dt: u32) -> Vec2 {
    Vec2 { x: (p.x + v.x * dt) as i64, y: (p.y + v.y * dt) as i64 }
}

/// The player after one frame: steered by the held keys, moved for `dt`
/// milliseconds, then damped.
pub open spec fn frame_player(p: Player, input: InputState, dt: u32) -> Player {
    let vx = p.vel.x + axis_push(input.left, input.right);
    let vy = p.vel.y + axis_push(input.down, input.up);
    Player {
        pos: Vec2 { x: (p.pos.x + vx * dt) as i64, y: (p.pos.y + vy * dt) as i64 },
        vel: Vec2 { x: damped(vx) as i64, y: damped(vy) as i64 },
        scale_milli: p.scale_milli,
    }
}

/// Every enemy moved by its velocity for `dt` milliseconds.
pub open spec fn moved_enemies(es: Seq<Enemy>, dt: u32) -> Seq<Enemy> {
    Seq::new(
        es.len(),
        |i: int|
            Enemy {
                pos: moved_vec2(es[i].pos, es[i].vel, dt),
                vel: es[i].vel,
                scale_milli: es[i].scale_milli,
            },
    )
}

/// Every bullet moved by its velocity for `dt` milliseconds.
pub open spec fn moved_bullets(bs: Seq<Bullet>, dt: u32) -> Seq<Bullet> {
    Seq::new(
        bs.len(),
        |i: int| Bullet { pos: moved_vec2(bs[i].pos, bs[i].vel, dt), vel: bs[i].vel },
    )
}

/// The bullet a fire edge spawns beside the given (already moved) player.
pub open spec fn fired_bullet(p: Player) -> Bullet {
    Bullet {
        pos: Vec2 { x: (p.pos.x + BULLET_OFFSET_X) as i64, y: (p.pos.y + BULLET_OFFSET_Y) as i64 },
        vel: Vec2 { x: BULLET_SPEED, y: 0 },
    }
}

/// The bullets alive mid-frame, when the collision scans run: the old
/// ones moved, plus the fire-edge bullet when there was a player to fire
/// it.
pub open spec fn mid_bullets(prev: World, input: InputState, dt: u32) -> Seq<Bullet> {
    match prev.player {
        Some(p) => if input.fire {
            moved_bullets(prev.bullets@, dt).push(fired_bullet(frame_player(p, input, dt)))
        } else {
            moved_bullets(prev.bullets@, dt)
        },
        None => moved_bullets(prev.bullets@, dt),
    }
}

/// The enemies alive mid-frame: the old ones moved, plus whatever the
/// spawner added.
pub open spec fn mid_enemies(prev: World, dt: u32, spawned: Seq<Enemy>) -> Seq<Enemy> {
    moved_enemies(prev.enemies@, dt) + spawned
}

/// What the random spawner may have added in one frame: nothing, or —
/// only on a spawn tick — exactly one enemy from the band.
pub open spec fn spawn_choice_ok(spawned: Seq<Enemy>, spawn_tick: bool) -> bool {
    spawned.len() == 0 || (spawn_tick && spawned.len() == 1 && spawned_enemy_ok(spawned[0]))
}

/// One whole frame from a playing world, given which enemy (if any) the
/// spawner added. Destruction is deferred to the end of the frame, so
/// both collision scans see the full mid-frame populations: the score
/// rises by every overlapping bullet-enemy pair, exactly the overlapped
/// bullets and enemies are gone, and the state flips to game over
/// exactly when the moved player stands within `PLAYER_HIT_RANGE` of
/// some mid-frame enemy, whereupon the screen darkens and the banner
/// appears.
pub open spec fn playing_frame(
    prev: World,
    input: InputState,
    dt: u32,
    spawned: Seq<Enemy>,
    next: World,
) -> bool {
    let b_mid = mid_bullets(prev, input, dt);
    let e_mid = mid_enemies(prev, dt, spawned);
    let over = match prev.player {
        Some(p) => player_hit(frame_player(p, input, dt), e_mid),
        None => false,
    };
    &&& next.score == prev.score + total_hits(b_mid, e_mid)
    &&& next.bullets@ == surviving_bullets(b_mid, e_mid)
    &&& next.enemies@ == surviving_enemies(e_mid, b_mid)
    &&& next.player == (match prev.player {
        Some(p) => Some(frame_player(p, input, dt)),
        None => None,
    })
    &&& next.state == (if over {
        GameState::GameOver
    } else {
        GameState::Playing
    })
    &&& next.score_display.content@ == text::score_line(next.score as nat)
    &&& next.score_display.pos == prev.score_display.pos
    &&& next.score_display.font_points == prev.score_display.font_points
    &&& (over ==> next.clear_color == dark_color() && (next.banner matches Some(t)
        && t.content@ == "Game Over!"@ && t.pos == (Vec2 { x: 0, y: 0 }) && t.font_points == 50))
    &&& (!over ==> next.clear_color == prev.clear_color && next.banner == prev.banner)
}

/// Runs one rendered frame. While playing: input handling, motion
/// integration, the periodic enemy spawn (when the engine's
/// quarter-second timer fired this frame), bullet spawning, the two
/// collision scans over the full mid-frame populations (destruction is
/// deferred to the end of the frame), and the score overlay refresh. A
/// game-over request raised by the player scan takes effect at the end
/// of the same frame: the state flips once, the screen darkens and the
/// banner appears. A world already at game over is left untouched.
pub fn advance_frame(w: &mut World, input: &InputState, dt_ms: u32, spawn_tick: bool)
    requires
        !old(w).pending_game_over,
        old(w).vels_ok(),
        old(w).poss_ok(),
        dt_ms <= DT_MAX,
        old(w).score + (old(w).bullets@.len() + 1) * (old(w).enemies@.len() + 1) <= u32::MAX,
    ensures
        crate::laws::frame_evolution(*old(w), *final(w)),
        final(w).score >= old(w).score,
        old(w).state == GameState::GameOver ==> *final(w) == *old(w),
        old(w).state == GameState::Playing ==> (exists|spawned: Seq<Enemy>|
            spawn_choice_ok(spawned, spawn_tick) && #[trigger] playing_frame(
                *old(w),
                *input,
                dt_ms,
                spawned,
                *final(w),
            )),
        !final(w).pending_game_over,
        final(w).vels_ok(),
        final(w).poss_in_slack(),
        final(w).player is Some <==> old(w).player is Some,
        old(w).state == GameState::Playing ==> (old(w).player matches Some(p) ==> (
        final(w).player matches Some(q) && {
            &&& q.pos.x == p.pos.x + (p.vel.x + axis_push(input.left, input.right)) * dt_ms
            &&& q.pos.y == p.pos.y + (p.vel.y + axis_push(input.down, input.up)) * dt_ms
            &&& q.vel.x == damped(p.vel.x + axis_push(input.left, input.right))
            &&& q.vel.y == damped(p.vel.y + axis_push(input.down, input.up))
            &&& q.scale_milli == p.scale_milli
        })),
        old(w).state == GameState::Playing ==> {
            &&& final(w).score_display.content@ == text::score_line(final(w).score as nat)
            &&& (final(w).state == GameState::GameOver ==> {
                &&& final(w).clear_color == dark_color()
                &&& (final(w).banner matches Some(t) && t.content@ == "Game Over!"@ && t.pos == (
                Vec2 { x: 0, y: 0 }) && t.font_points == 50)
            })
            &&& (final(w).state == GameState::Playing ==> {
                &&& final(w).clear_color == old(w).clear_color
                &&& final(w).banner == old(w).banner
            })
        },
{
    match w.state {
        GameState::GameOver => {},
        GameState::Playing => {
            let ghost nb0 = w.bullets@.len();
            let ghost ne0 = w.enemies@.len();
            handle_input(w, input);
            update(w, dt_ms);
            let ghost w2 = *w;
            proof {
                assert forall|i: int| 0 <= i < w2.enemies@.len() implies #[trigger] w2.enemies@[i]
                    == moved_enemies(old(w).enemies@, dt_ms)[i] by {
                    let e0 = old(w).enemies@[i];
                    let e1 = w2.enemies@[i];
                    assert(e1.pos.x == moved_coord(e0.pos.x, e0.vel.x, dt_ms));
                    assert(e1.pos.y == moved_coord(e0.pos.y, e0.vel.y, dt_ms));
                }
                assert(w2.enemies@ =~= moved_enemies(old(w).enemies@, dt_ms));
                assert forall|i: int| 0 <= i < w2.bullets@.len() implies #[trigger] w2.bullets@[i]
                    == moved_bullets(old(w).bullets@, dt_ms)[i] by {
                    let b0 = old(w).bullets@[i];
                    let b1 = w2.bullets@[i];
                    assert(b1.pos.x == moved_coord(b0.pos.x, b0.vel.x, dt_ms));
                    assert(b1.pos.y == moved_coord(b0.pos.y, b0.vel.y, dt_ms));
                }
                assert(w2.bullets@ =~= moved_bullets(old(w).bullets@, dt_ms));
                assert(w2.player == (match old(w).player {
                    Some(p) => Some(frame_player(p, *input, dt_ms)),
                    None => None,
                }));
            }
            if spawn_tick {
                spawn_enemies(w);
            }
            let ghost spawned: Seq<Enemy> = if w.enemies@.len() == w2.enemies@.len() {
                Seq::empty()
            } else {
                seq![w.enemies@.last()]
            };
            proof {
                if w.enemies@.len() == w2.enemies@.len() {
                    assert(w.enemies == w2.enemies);
                    assert(w.enemies@ =~= mid_enemies(*old(w), dt_ms, spawned));
                } else {
                    assert forall|i: int| 0 <= i < w2.enemies@.len() implies #[trigger] w.enemies@[i]
                        == w2.enemies@[i] by {
                        assert(w.enemies@.take(w2.enemies@.len() as int)[i] == w2.enemies@[i]);
                    }
                    assert(w.enemies@ =~= mid_enemies(*old(w), dt_ms, spawned));
                }
                assert(spawn_choice_ok(spawned, spawn_tick));
                assert forall|i: int| 0 <= i < w.enemies@.len() implies pos_in_slack(
                    #[trigger] w.enemies@[i].pos,
                ) by {
                    if w.enemies == w2.enemies {
                        assert(pos_in_step(w2.enemies@[i].pos));
                    } else {
                        if i < w2.enemies@.len() {
                            assert(w.enemies@.take(w2.enemies@.len() as int)[i] == w2.enemies@[i]);
                            assert(pos_in_step(w2.enemies@[i].pos));
                        } else {
                            assert(w.enemies@[i] == w.enemies@.last());
                        }
                    }
                }
                assert forall|i: int| 0 <= i < w.enemies@.len() implies vel_ok(
                    #[trigger] w.enemies@[i].vel,
                ) by {
                    if w.enemies == w2.enemies {
                        assert(vel_ok(w2.enemies@[i].vel));
                    } else {
                        if i < w2.enemies@.len() {
                            assert(w.enemies@.take(w2.enemies@.len() as int)[i] == w2.enemies@[i]);
                            assert(vel_ok(w2.enemies@[i].vel));
                        } else {
                            assert(w.enemies@[i] == w.enemies@.last());
                        }
                    }
                }
            }
            let ghost w3 = *w;
            spawn_bullets(w, input);
            proof {
                assert forall|i: int| 0 <= i < w.bullets@.len() implies pos_in_slack(
                    #[trigger] w.bullets@[i].pos,
                ) by {
                    if input.fire && w3.player is Some {
                        if i < w3.bullets@.len() {
                            assert(w.bullets@.take(w3.bullets@.len() as int)[i] == w3.bullets@[i]);
                            assert(pos_in_step(w2.bullets@[i].pos));
                        } else {
                            assert(w.bullets@[i] == w.bullets@.last());
                        }
                    } else {
                        assert(pos_in_step(w2.bullets@[i].pos));
                    }
                }
                assert forall|i: int| 0 <= i < w.bullets@.len() implies vel_ok(
                    #[trigger] w.bullets@[i].vel,
                ) by {
                    if input.fire && w3.player is Some {
                        if i < w3.bullets@.len() {
                            assert(w.bullets@.take(w3.bullets@.len() as int)[i] == w3.bullets@[i]);
                            assert(vel_ok(w2.bullets@[i].vel));
                        } else {
                            assert(w.bullets@[i] == w.bullets@.last());
                        }
                    } else {
                        assert(vel_ok(w2.bullets@[i].vel));
                    }
                }
                assert(w.player == w2.player);
                if input.fire && w3.player is Some {
                    assert forall|i: int| 0 <= i < w3.bullets@.len() implies #[trigger] w.bullets@[i]
                        == w3.bullets@[i] by {
                        assert(w.bullets@.take(w3.bullets@.len() as int)[i] == w3.bullets@[i]);
                    }
                    assert(w.bullets@.last() == fired_bullet(frame_player(
                        old(w).player->Some_0,
                        *input,
                        dt_ms,
                    )));
                    assert(w.bullets@ =~= mid_bullets(*old(w), *input, dt_ms));
                } else {
                    assert(w.bullets@ =~= mid_bullets(*old(w), *input, dt_ms));
                }
                assert(w.bullets@.len() <= nb0 + 1);
                assert(w.enemies@.len() <= ne0 + 1);
                lemma_total_hits_le_product(w.bullets@, w.enemies@);
                assert(w.bullets@.len() * w.enemies@.len() <= (nb0 + 1) * (ne0 + 1))
                    by (nonlinear_arith)
                    requires
                        0 <= w.bullets@.len() <= nb0 + 1,
                        0 <= w.enemies@.len() <= ne0 + 1,
                ;
            }
            check_for_player_collisions(w);
            check_for_collisions(w);
            update_score_text(w);
            if w.pending_game_over {
                w.state = GameState::GameOver;
                w.pending_game_over = false;
                darken_screen(w);
                display_game_over_text(w);
            }
            proof {
                assert(playing_frame(*old(w), *input, dt_ms, spawned, *w));
            }
        },
    }
}

} // verus!
