use vstd::prelude::*;
use vstd::string::*;
use crate::math::{Vec2, pos_ok, pos_in_slack, vel_ok};
use crate::text;

verus! {

/// The two phases of a session. `Playing` is the initial state; the
/// player-versus-enemy collision check is the only thing that ever asks
/// for `GameOver`, and nothing ever leaves it.
#[derive(Clone, Copy, PartialEq, Eq, Structural, Debug)]
pub enum GameState {
    Playing,
    GameOver,
}

/// A colour with each channel in thousandths, 0 through 1000.
#[derive(Clone, Copy, PartialEq, Eq, Structural, Debug)]
pub struct Rgb {
    pub r: u32,
    pub g: u32,
    pub b: u32,
}

/// The clear colour the session starts with.
pub open spec fn sky_color() -> Rgb {
    Rgb { r: 0, g: 722, b: 961 }
}

/// The clear colour after the game ends.
pub open spec fn dark_color() -> Rgb {
    Rgb { r: 100, g: 100, b: 100 }
}

/// The player's sprite: a position, a velocity and a visual scale in
/// thousandths of the source image size.
#[derive(Clone, Copy, PartialEq, Eq, Structural, Debug)]
pub struct Player {
    pub pos: Vec2,
    pub vel: Vec2,
    pub scale_milli: u32,
}

/// An enemy sprite drifting leftward across the screen.
#[derive(Clone, Copy, PartialEq, Eq, Structural, Debug)]
pub struct Enemy {
    pub pos: Vec2,
    pub vel: Vec2,
    pub scale_milli: u32,
}

/// A bullet the player fired.
#[derive(Clone, Copy, PartialEq, Eq, Structural, Debug)]
pub struct Bullet {
    pub pos: Vec2,
    pub vel: Vec2,
}

/// A text overlay: its content, its centre position and its font size in
/// points.
#[derive(Debug)]
pub struct TextEntity {
    pub content: String,
    pub pos: Vec2,
    pub font_points: u32,
}

/// The keys the engine reports for one frame. The four direction flags
/// are held-state; `fire` is true only on the frame the fire key went
/// down.
#[derive(Clone, Copy, PartialEq, Eq, Structural, Debug, Default)]
pub struct InputState {
    pub left: bool,
    pub right: bool,
    pub up: bool,
    pub down: bool,
    pub fire: bool,
}

/// The whole game session: the two-valued state, the score, at most one
/// player (by construction), the live enemies and bullets, the clear
/// colour, the score overlay and the game-over banner once it exists.
///
/// `pending_game_over` models the engine's deferred state request: the
/// collision check raises it mid-frame and the end of the frame applies
/// it.
#[derive(Debug)]
pub struct World {
    pub state: GameState,
    pub score: u32,
    pub player: Option<Player>,
    pub enemies: Vec<Enemy>,
    pub bullets: Vec<Bullet>,
    pub clear_color: Rgb,
    pub score_display: TextEntity,
    pub banner: Option<TextEntity>,
    pub pending_game_over: bool,
}

impl World {
    /// Every velocity in the world is within the frame functions' bound.
    pub open spec fn vels_ok(self) -> bool {
        &&& (self.player matches Some(p) ==> vel_ok(p.vel))
        &&& (forall|i: int|
            0 <= i < self.enemies@.len() ==> vel_ok(#[trigger] self.enemies@[i].vel))
        &&& (forall|i: int|
            0 <= i < self.bullets@.len() ==> vel_ok(#[trigger] self.bullets@[i].vel))
    }

    /// Every position is within the strict per-frame bound.
    pub open spec fn poss_ok(self) -> bool {
        &&& (self.player matches Some(p) ==> pos_ok(p.pos))
        &&& (forall|i: int|
            0 <= i < self.enemies@.len() ==> pos_ok(#[trigger] self.enemies@[i].pos))
        &&& (forall|i: int|
            0 <= i < self.bullets@.len() ==> pos_ok(#[trigger] self.bullets@[i].pos))
    }

    /// Every position is within the relaxed bound left after one frame of
    /// motion and a bullet offset.
    pub open spec fn poss_in_slack(self) -> bool {
        &&& (self.player matches Some(p) ==> pos_in_slack(p.pos))
        &&& (forall|i: int|
            0 <= i < self.enemies@.len() ==> pos_in_slack(#[trigger] self.enemies@[i].pos))
        &&& (forall|i: int|
            0 <= i < self.bullets@.len() ==> pos_in_slack(#[trigger] self.bullets@[i].pos))
    }

    /// The starting world: the player at rest in the centre, no enemies
    /// or bullets, a zero score shown near the top edge, the sky-blue
    /// clear colour, and no banner. Window creation, the camera and
    /// sprite assets live outside the library.
    pub fn new() -> (w: World)
        ensures
            w.state == GameState::Playing,
            w.score == 0,
            w.player == (Some(
                Player { pos: Vec2 { x: 0, y: 0 }, vel: Vec2 { x: 0, y: 0 }, scale_milli: 300 },
            )),
            w.enemies@ == Seq::<Enemy>::empty(),
            w.bullets@ == Seq::<Bullet>::empty(),
            w.clear_color == sky_color(),
            w.score_display.content@ == text::score_line(0),
            w.score_display.pos == (Vec2 { x: 0, y: 270_000 }),
            w.score_display.font_points == 30,
            w.banner is None,
            !w.pending_game_over,
            w.vels_ok(),
            w.poss_ok(),
    {
        World {
            state: GameState::Playing,
            score: 0,
            player: Some(
                Player { pos: Vec2 { x: 0, y: 0 }, vel: Vec2 { x: 0, y: 0 }, scale_milli: 300 },
            ),
            enemies: Vec::new(),
            bullets: Vec::new(),
            clear_color: Rgb { r: 0, g: 722, b: 961 },
            score_display: TextEntity {
                content: text::render_score_line(0),
                pos: Vec2 { x: 0, y: 270_000 },
                font_points: 30,
            },
            banner: None,
            pending_game_over: false,
        }
    }
}

} // verus!
