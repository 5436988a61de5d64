use vstd::prelude::*;
use crate::world::{GameState, World};

verus! {

/// What any one frame may do to the session, whatever the input, the
/// elapsed time or the random draws were: the score never drops, and a
/// world already at game over is left exactly as it is.
pub open spec fn frame_evolution(prev: World, next: World) -> bool {
    &&& next.score >= prev.score
    &&& (prev.state == GameState::GameOver ==> next == prev)
}

/// A run of frames: consecutive worlds are related by `frame_evolution`.
pub open spec fn frame_chain(run: Seq<World>) -> bool {
    forall|i: int|
        0 <= i && i + 1 < run.len() ==> #[trigger] frame_evolution(run[i], run[i + 1])
}

/// The score is non-decreasing over every run of frames: whatever frame
/// `j` at or after frame `i`, the score at `j` is at least the score at
/// `i`.
pub proof fn lemma_score_monotone(run: Seq<World>, i: int, j: int)
    requires
        frame_chain(run),
        0 <= i <= j < run.len(),
    ensures
        run[i].score <= run[j].score,
    decreases j - i,
{
    if i < j {
        lemma_score_monotone(run, i, j - 1);
        let k = j - 1;
        assert(frame_evolution(run[k], run[k + 1]));
    }
}

/// Game over is terminal: once some frame of a run reaches it, every
/// later frame is still at game over, and in fact the whole world no
/// longer changes.
pub proof fn lemma_game_over_terminal(run: Seq<World>, i: int, j: int)
    requires
        frame_chain(run),
        0 <= i <= j < run.len(),
        run[i].state == GameState::GameOver,
    ensures
        run[j].state == GameState::GameOver,
        run[j] == run[i],
    decreases j - i,
{
    if i < j {
        lemma_game_over_terminal(run, i, j - 1);
        let k = j - 1;
        assert(frame_evolution(run[k], run[k + 1]));
    }
}

} // verus!
