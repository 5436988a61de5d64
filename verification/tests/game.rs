use duck_game::math::{within_distance, Vec2};
use duck_game::systems::{
    advance_frame, check_for_collisions, check_for_player_collisions, handle_input, spawn_bullets,
    spawn_enemies, update, update_score_text,
};
use duck_game::text::render_score_line;
use duck_game::world::{Bullet, Enemy, GameState, InputState, Rgb, World};

fn no_keys() -> InputState {
    InputState { left: false, right: false, up: false, down: false, fire: false }
}

fn enemy_at(x: i64, y: i64) -> Enemy {
    Enemy { pos: Vec2 { x, y }, vel: Vec2 { x: -20, y: 0 }, scale_milli: 100 }
}

fn bullet_at(x: i64, y: i64) -> Bullet {
    Bullet { pos: Vec2 { x, y }, vel: Vec2 { x: 500, y: 0 } }
}

#[test]
fn new_world_starts_playing() {
    let w = World::new();
    assert_eq!(w.state, GameState::Playing);
    assert_eq!(w.score, 0);
    let p = w.player.expect("the starting world has a player");
    assert_eq!(p.pos, Vec2 { x: 0, y: 0 });
    assert_eq!(p.vel, Vec2 { x: 0, y: 0 });
    assert_eq!(p.scale_milli, 300);
    assert!(w.enemies.is_empty());
    assert!(w.bullets.is_empty());
    assert_eq!(w.clear_color, Rgb { r: 0, g: 722, b: 961 });
    assert_eq!(w.score_display.content, "Score: 0");
    assert_eq!(w.score_display.pos, Vec2 { x: 0, y: 270_000 });
    assert_eq!(w.score_display.font_points, 30);
    assert!(w.banner.is_none());
    assert!(!w.pending_game_over);
}

#[test]
fn input_accumulates_velocity() {
    let mut w = World::new();
    let input = InputState { left: false, right: true, up: true, down: false, fire: false };
    handle_input(&mut w, &input);
    let p = w.player.unwrap();
    assert_eq!(p.vel, Vec2 { x: 50, y: 50 });

    let opposed = InputState { left: true, right: true, up: false, down: true, fire: false };
    handle_input(&mut w, &opposed);
    let p = w.player.unwrap();
    assert_eq!(p.vel, Vec2 { x: 50, y: 0 });
}

#[test]
fn integration_moves_and_damps() {
    // A player at P with velocity V and no input: after one step the
    // position is P + V * dt and the velocity is four fifths of V.
    let mut w = World::new();
    let mut p = w.player.unwrap();
    p.pos = Vec2 { x: 1_000, y: 2_000 };
    p.vel = Vec2 { x: 30, y: -40 };
    w.player = Some(p);
    update(&mut w, 100);
    let p = w.player.unwrap();
    assert_eq!(p.pos, Vec2 { x: 4_000, y: -2_000 });
    assert_eq!(p.vel, Vec2 { x: 24, y: -32 });
}

#[test]
fn damping_truncates_toward_rest() {
    let mut w = World::new();
    let mut p = w.player.unwrap();
    p.vel = Vec2 { x: 7, y: -7 };
    w.player = Some(p);
    update(&mut w, 0);
    let p = w.player.unwrap();
    assert_eq!(p.vel, Vec2 { x: 5, y: -5 });
    // Repeated frames bring the player to rest from either sign.
    for _ in 0..10 {
        update(&mut w, 0);
    }
    let p = w.player.unwrap();
    assert_eq!(p.vel, Vec2 { x: 0, y: 0 });
}

#[test]
fn enemies_and_bullets_keep_velocity() {
    let mut w = World::new();
    w.enemies.push(enemy_at(100_000, 0));
    w.bullets.push(bullet_at(0, 50_000));
    update(&mut w, 1_000);
    assert_eq!(w.enemies[0].pos, Vec2 { x: 80_000, y: 0 });
    assert_eq!(w.enemies[0].vel, Vec2 { x: -20, y: 0 });
    assert_eq!(w.bullets[0].pos, Vec2 { x: 500_000, y: 50_000 });
    assert_eq!(w.bullets[0].vel, Vec2 { x: 500, y: 0 });
}

#[test]
fn bullet_spawn_offset() {
    // A bullet spawned at player position (x, y) starts at
    // (x + 70, y + 14) world units, moving at (500, 0).
    let mut w = World::new();
    let mut p = w.player.unwrap();
    p.pos = Vec2 { x: 5_000, y: 6_000 };
    w.player = Some(p);
    let fire = InputState { left: false, right: false, up: false, down: false, fire: true };
    spawn_bullets(&mut w, &fire);
    assert_eq!(w.bullets.len(), 1);
    assert_eq!(w.bullets[0].pos, Vec2 { x: 5_000 + 70_000, y: 6_000 + 14_000 });
    assert_eq!(w.bullets[0].vel, Vec2 { x: 500, y: 0 });

    // Not pressed this frame: no bullet.
    spawn_bullets(&mut w, &no_keys());
    assert_eq!(w.bullets.len(), 1);

    // No player: no bullet either.
    w.player = None;
    spawn_bullets(&mut w, &fire);
    assert_eq!(w.bullets.len(), 1);
}

#[test]
fn collision_boundary_is_strict() {
    // 29.99 world units apart collides; 30.01 does not.
    let close = within_distance(Vec2 { x: 0, y: 0 }, Vec2 { x: 29_990, y: 0 }, 30_000);
    assert!(close);
    let apart = within_distance(Vec2 { x: 0, y: 0 }, Vec2 { x: 30_010, y: 0 }, 30_000);
    assert!(!apart);

    let mut w = World::new();
    w.bullets.push(bullet_at(0, 0));
    w.enemies.push(enemy_at(29_990, 0));
    check_for_collisions(&mut w);
    assert_eq!(w.score, 1);
    assert!(w.bullets.is_empty());
    assert!(w.enemies.is_empty());

    let mut w = World::new();
    w.bullets.push(bullet_at(0, 0));
    w.enemies.push(enemy_at(30_010, 0));
    check_for_collisions(&mut w);
    assert_eq!(w.score, 0);
    assert_eq!(w.bullets.len(), 1);
    assert_eq!(w.enemies.len(), 1);
}

#[test]
fn overlapping_pair_despawns_and_scores_once() {
    // A bullet and an enemy on the same spot: both despawn, the score
    // rises by exactly one for that pair.
    let mut w = World::new();
    w.bullets.push(bullet_at(100_000, 100_000));
    w.enemies.push(enemy_at(100_000, 100_000));
    check_for_collisions(&mut w);
    assert_eq!(w.score, 1);
    assert!(w.bullets.is_empty());
    assert!(w.enemies.is_empty());
}

#[test]
fn one_bullet_scores_against_each_close_enemy() {
    // Destruction is deferred to the end of the scan, so one bullet in
    // range of two enemies scores twice before it despawns.
    let mut w = World::new();
    w.bullets.push(bullet_at(0, 0));
    w.enemies.push(enemy_at(10_000, 0));
    w.enemies.push(enemy_at(-10_000, 0));
    check_for_collisions(&mut w);
    assert_eq!(w.score, 2);
    assert!(w.bullets.is_empty());
    assert!(w.enemies.is_empty());
}

#[test]
fn untouched_entities_survive_collisions() {
    let mut w = World::new();
    w.bullets.push(bullet_at(0, 0));
    w.bullets.push(bullet_at(500_000, 0));
    w.enemies.push(enemy_at(10_000, 0));
    w.enemies.push(enemy_at(200_000, 0));
    check_for_collisions(&mut w);
    assert_eq!(w.score, 1);
    assert_eq!(w.bullets.len(), 1);
    assert_eq!(w.bullets[0].pos, Vec2 { x: 500_000, y: 0 });
    assert_eq!(w.enemies.len(), 1);
    assert_eq!(w.enemies[0].pos, Vec2 { x: 200_000, y: 0 });
}

#[test]
fn player_collision_boundary_is_strict() {
    // Strictly under 50 world units raises the game-over request.
    let mut w = World::new();
    w.enemies.push(enemy_at(49_990, 0));
    check_for_player_collisions(&mut w);
    assert!(w.pending_game_over);

    let mut w = World::new();
    w.enemies.push(enemy_at(50_010, 0));
    check_for_player_collisions(&mut w);
    assert!(!w.pending_game_over);
}

#[test]
fn game_over_scenario() {
    // Player at the origin, enemy 40 world units away, no movement this
    // frame: the state flips to game over, the screen darkens and the
    // banner appears centred.
    let mut w = World::new();
    w.enemies.push(Enemy {
        pos: Vec2 { x: 40_000, y: 0 },
        vel: Vec2 { x: 0, y: 0 },
        scale_milli: 100,
    });
    advance_frame(&mut w, &no_keys(), 0, false);
    assert_eq!(w.state, GameState::GameOver);
    assert_eq!(w.clear_color, Rgb { r: 100, g: 100, b: 100 });
    let banner = w.banner.as_ref().expect("the banner is spawned on game over");
    assert_eq!(banner.content, "Game Over!");
    assert_eq!(banner.pos, Vec2 { x: 0, y: 0 });
    assert_eq!(banner.font_points, 50);
}

#[test]
fn deferred_despawn_still_ends_game() {
    // Destruction is deferred to the end of the frame: an enemy that a
    // bullet destroys in the same frame it touches the player still
    // counts for the player collision, so the game ends and the pair
    // still scores.
    let mut w = World::new();
    w.enemies.push(Enemy {
        pos: Vec2 { x: 40_000, y: 0 },
        vel: Vec2 { x: 0, y: 0 },
        scale_milli: 100,
    });
    w.bullets.push(Bullet { pos: Vec2 { x: 40_000, y: 0 }, vel: Vec2 { x: 500, y: 0 } });
    advance_frame(&mut w, &no_keys(), 0, false);
    assert_eq!(w.score, 1);
    assert!(w.enemies.is_empty());
    assert!(w.bullets.is_empty());
    assert_eq!(w.state, GameState::GameOver);
}

#[test]
fn game_over_is_terminal() {
    let mut w = World::new();
    w.enemies.push(Enemy {
        pos: Vec2 { x: 0, y: 10_000 },
        vel: Vec2 { x: 0, y: 0 },
        scale_milli: 100,
    });
    advance_frame(&mut w, &no_keys(), 16, false);
    assert_eq!(w.state, GameState::GameOver);
    let score = w.score;
    let enemy_count = w.enemies.len();
    let player = w.player;
    // Frames after the end change nothing, whatever the input.
    let busy = InputState { left: true, right: false, up: true, down: false, fire: true };
    for _ in 0..5 {
        advance_frame(&mut w, &busy, 16, true);
    }
    assert_eq!(w.state, GameState::GameOver);
    assert_eq!(w.score, score);
    assert_eq!(w.enemies.len(), enemy_count);
    assert_eq!(w.player, player);
    assert_eq!(w.clear_color, Rgb { r: 100, g: 100, b: 100 });
}

#[test]
fn score_is_monotone_over_frames() {
    let mut w = World::new();
    let mut last = w.score;
    for round in 0..50 {
        let input = InputState {
            left: round % 3 == 0,
            right: round % 5 == 0,
            up: round % 2 == 0,
            down: round % 7 == 0,
            fire: round % 2 == 1,
        };
        advance_frame(&mut w, &input, 16, round % 4 == 0);
        assert!(w.score >= last);
        last = w.score;
    }
}

#[test]
fn score_text_renders_decimal() {
    let line = render_score_line(12_345);
    assert_eq!(line, "Score: 12345");
    let zero = render_score_line(0);
    assert_eq!(zero, "Score: 0");
    let largest = render_score_line(u32::MAX);
    assert_eq!(largest, "Score: 4294967295");

    let mut w = World::new();
    w.score = 907;
    update_score_text(&mut w);
    assert_eq!(w.score_display.content, "Score: 907");
    assert_eq!(w.score_display.pos, Vec2 { x: 0, y: 270_000 });
    assert_eq!(w.score_display.font_points, 30);
}

#[test]
fn score_text_reflects_frame_score() {
    let mut w = World::new();
    w.bullets.push(bullet_at(100_000, 100_000));
    w.enemies.push(Enemy {
        pos: Vec2 { x: 100_000, y: 100_000 },
        vel: Vec2 { x: 0, y: 0 },
        scale_milli: 100,
    });
    advance_frame(&mut w, &no_keys(), 0, false);
    assert_eq!(w.score, 1);
    assert_eq!(w.score_display.content, "Score: 1");
}

#[test]
fn enemy_spawner_stays_in_band() {
    // Run the random spawner many times: every enemy it makes lies in
    // the band along the right edge and drifts left at an allowed speed.
    let mut w = World::new();
    for _ in 0..300 {
        spawn_enemies(&mut w);
    }
    assert!(
        !w.enemies.is_empty(),
        "three hundred ticks at one-in-three odds should spawn something"
    );
    for e in &w.enemies {
        assert!((360_000..400_000).contains(&e.pos.x));
        assert!((-300_000..300_000).contains(&e.pos.y));
        assert!((-40..=-10).contains(&e.vel.x));
        assert_eq!(e.vel.y, 0);
        assert_eq!(e.scale_milli, 100);
    }
}

#[test]
fn largest_frame_delta_integrates_exactly() {
    // DT_MAX milliseconds at one milli-unit per millisecond.
    let mut w = World::new();
    let mut p = w.player.unwrap();
    p.vel = Vec2 { x: 1, y: -1 };
    w.player = Some(p);
    update(&mut w, duck_game::math::DT_MAX);
    let p = w.player.unwrap();
    assert_eq!(p.pos, Vec2 { x: 1_000_000, y: -1_000_000 });
    assert_eq!(p.vel, Vec2 { x: 0, y: 0 });
}

#[test]
fn missing_player_is_a_no_op() {
    let mut w = World::new();
    w.player = None;
    let busy = InputState { left: true, right: false, up: true, down: false, fire: true };
    handle_input(&mut w, &busy);
    assert_eq!(w.player, None);
    update(&mut w, 16);
    spawn_bullets(&mut w, &busy);
    assert!(w.bullets.is_empty());
    check_for_player_collisions(&mut w);
    assert!(!w.pending_game_over);
}
