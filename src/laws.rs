use vstd::prelude::*;
use crate::location::{delta, step, translate, Cell, Direction};
use crate::location::representable;
use crate::snake::{hits_body, moved, SnakeState};
use crate::game::GameState;

verus! {

/// The body after moving along each of `headings` in turn without eating.
pub open spec fn travel(body: Seq<Cell>, headings: Seq<Direction>) -> Seq<Cell>
    decreases headings.len(),
{
    if headings.len() == 0 {
        body
    } else {
        travel(moved(body, step(body[0], headings[0]), false), headings.drop_first())
    }
}

/// The sum of the steps of `headings`.
pub open spec fn offset(headings: Seq<Direction>) -> Cell
    decreases headings.len(),
{
    if headings.len() == 0 {
        (0, 0)
    } else {
        translate(delta(headings[0]), offset(headings.drop_first()))
    }
}

/// The game after its heading is set to `d`.
pub open spec fn with_heading(s: GameState, d: Direction) -> GameState {
    GameState { snake: SnakeState { heading: d, ..s.snake }, ..s }
}

/// The game after, for each of `headings` in turn, the heading is set to it
/// and one tick runs.
pub open spec fn play(s: GameState, headings: Seq<Direction>) -> GameState
    decreases headings.len(),
{
    if headings.len() == 0 {
        s
    } else {
        play(with_heading(s, headings[0]).ticked(), headings.drop_first())
    }
}

/// No tick of `play(s, headings)` eats food or ends the game.
pub open spec fn quiet(s: GameState, headings: Seq<Direction>) -> bool
    decreases headings.len(),
{
    if headings.len() == 0 {
        true
    } else {
        let t = with_heading(s, headings[0]);
        &&& !t.dies()
        &&& !t.food.contains(t.snake.next_cell())
        &&& quiet(t.ticked(), headings.drop_first())
    }
}

/// The snake after, for each of `headings` in turn, its heading is set to
/// it and it updates once.
pub open spec fn steer(s: SnakeState, headings: Seq<Direction>) -> SnakeState
    decreases headings.len(),
{
    if headings.len() == 0 {
        s
    } else {
        steer(SnakeState { heading: headings[0], ..s }.updated(), headings.drop_first())
    }
}

/// No update of `steer(s, headings)` starts with food found, and none
/// dies: each starts alive and moves onto a cell that it can hold and that
/// the body does not occupy after the move.
pub open spec fn calm(s: SnakeState, headings: Seq<Direction>) -> bool
    decreases headings.len(),
{
    if headings.len() == 0 {
        true
    } else {
        let t = SnakeState { heading: headings[0], ..s };
        &&& !t.found
        &&& !t.dead
        &&& representable(t.next_cell())
        &&& !hits_body(t.body, t.next_cell(), false)
        &&& calm(t.updated(), headings.drop_first())
    }
}

/// Moving without eating keeps the length, and takes the head along the
/// sum of the steps.
pub proof fn lemma_travel_head(body: Seq<Cell>, headings: Seq<Direction>)
    requires
        body.len() >= 1,
    ensures
        travel(body, headings).len() == body.len(),
        travel(body, headings)[0] == translate(body[0], offset(headings)),
    decreases headings.len(),
{
    if headings.len() > 0 {
        let b = moved(body, step(body[0], headings[0]), false);
        lemma_travel_head(b, headings.drop_first());
    }
}

/// A snake of one segment that moves without eating ends up translated by
/// the sum of the steps.
pub proof fn lemma_travel_single(body: Seq<Cell>, headings: Seq<Direction>)
    requires
        body.len() == 1,
    ensures
        travel(body, headings) == seq![translate(body[0], offset(headings))],
{
    lemma_travel_head(body, headings);
    assert(travel(body, headings) =~= seq![translate(body[0], offset(headings))]);
}

/// Setting the headings one tick at a time, with no food eaten and no
/// collision, leaves a running game whose body is the starting body moved
/// along those headings: its length unchanged, its score unchanged, its
/// head translated by the sum of the steps, and a body of one segment
/// translated whole.
pub proof fn lemma_quiet_play(s: GameState, headings: Seq<Direction>)
    requires
        s.snake.body.len() >= 1,
        !s.over(),
        quiet(s, headings),
    ensures
        !play(s, headings).over(),
        play(s, headings).snake.body == travel(s.snake.body, headings),
        play(s, headings).snake.score == s.snake.score,
        play(s, headings).snake.body.len() == s.snake.body.len(),
        play(s, headings).snake.body[0] == translate(s.snake.body[0], offset(headings)),
        s.snake.body.len() == 1 ==> play(s, headings).snake.body == seq![
            translate(s.snake.body[0], offset(headings)),
        ],
    decreases headings.len(),
{
    lemma_travel_head(s.snake.body, headings);
    if s.snake.body.len() == 1 {
        lemma_travel_single(s.snake.body, headings);
    }
    if headings.len() > 0 {
        let t = with_heading(s, headings[0]).ticked();
        assert(t.snake.body.len() >= 1);
        lemma_quiet_play(t, headings.drop_first());
    }
}

/// A snake that updates along `headings` without finding food and without
/// dying ends with the body moved along those headings: its length and
/// score unchanged, its head translated by the sum of the steps, and a body
/// of one segment translated whole.
pub proof fn lemma_calm_steer(s: SnakeState, headings: Seq<Direction>)
    requires
        s.body.len() >= 1,
        calm(s, headings),
    ensures
        steer(s, headings).dead == s.dead,
        steer(s, headings).body == travel(s.body, headings),
        steer(s, headings).score == s.score,
        steer(s, headings).body.len() == s.body.len(),
        steer(s, headings).body[0] == translate(s.body[0], offset(headings)),
        s.body.len() == 1 ==> steer(s, headings).body == seq![
            translate(s.body[0], offset(headings)),
        ],
    decreases headings.len(),
{
    lemma_travel_head(s.body, headings);
    if s.body.len() == 1 {
        lemma_travel_single(s.body, headings);
    }
    if headings.len() > 0 {
        let t = SnakeState { heading: headings[0], ..s }.updated();
        assert(t.body.len() >= 1);
        lemma_calm_steer(t, headings.drop_first());
    }
}

} // verus!
