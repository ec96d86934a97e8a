//! The turn loop: as long as a game is running, the side to move picks a move
//! by search and the move is made.

use crate::search::{
    best_index, best_move, is_best, lemma_best_is_unique, search, Choice, Evaluator, Position,
    Side, Status,
};
use vstd::prelude::*;

verus! {

/// What one turn of the loop comes to.
pub enum Turn<P: Position> {
    /// The side to move has played: the position after the move, and the move
    /// with its place and score.
    Played { state: P, choice: Choice<P::Move> },
    /// The game was over before the turn: nothing was played.
    Finished { status: Status },
}

/// Plays one turn: if the game is over, says how it ended; else searches
/// `depth` plies deep for the side to move and makes the move found.
pub fn play_turn<P: Position, E: Evaluator<P>>(eval: &E, state: &P, depth: u32) -> (r: Turn<P>)
    requires
        eval.wf(),
        state.wf(),
    ensures
        match r {
            Turn::Played { state: next, choice } => {
                &&& P::status_of(state@) == Status::Running
                &&& is_best::<P, E>(eval, state@, depth as nat, choice.index as int)
                &&& choice.mv == best_move::<P, E>(eval, state@, depth as nat)
                &&& next@ == P::after(state@, choice.mv)
                &&& next.wf()
            },
            Turn::Finished { status } => status == P::status_of(state@) && status
                != Status::Running,
        },
{
    proof {
        state.lemma_running_iff_moves();
    }
    let status = state.status();
    match status {
        Status::Running => {},
        _ => {
            return Turn::Finished { status };
        },
    }
    match search(eval, state, depth) {
        Ok(choice) => {
            match state.apply(&choice.mv) {
                Ok(next) => Turn::Played { state: next, choice },
                Err(_) => unreached(),
            }
        },
        Err(_) => unreached(),
    }
}

/// The move that the side to move plays when the first side searches with
/// `first` to `first_depth` and the second with `second` to `second_depth`.
pub open spec fn move_played<P: Position, A: Evaluator<P>, B: Evaluator<P>>(
    first: &A,
    first_depth: nat,
    second: &B,
    second_depth: nat,
    state: P::V,
) -> P::Move {
    match P::mover(state) {
        Side::First => best_move::<P, A>(first, state, first_depth),
        Side::Second => best_move::<P, B>(second, state, second_depth),
    }
}

/// The position reached from `state` when at most `turns` turns are played.
pub open spec fn played<P: Position, A: Evaluator<P>, B: Evaluator<P>>(
    first: &A,
    first_depth: nat,
    second: &B,
    second_depth: nat,
    state: P::V,
    turns: nat,
) -> P::V
    decreases turns,
{
    if turns == 0 || P::status_of(state) != Status::Running {
        state
    } else {
        played::<P, A, B>(
            first,
            first_depth,
            second,
            second_depth,
            P::after(
                state,
                move_played::<P, A, B>(first, first_depth, second, second_depth, state),
            ),
            (turns - 1) as nat,
        )
    }
}

/// The number of turns played from `state` when at most `turns` are allowed.
pub open spec fn turns_played<P: Position, A: Evaluator<P>, B: Evaluator<P>>(
    first: &A,
    first_depth: nat,
    second: &B,
    second_depth: nat,
    state: P::V,
    turns: nat,
) -> nat
    decreases turns,
{
    if turns == 0 || P::status_of(state) != Status::Running {
        0
    } else {
        1 + turns_played::<P, A, B>(
            first,
            first_depth,
            second,
            second_depth,
            P::after(
                state,
                move_played::<P, A, B>(first, first_depth, second, second_depth, state),
            ),
            (turns - 1) as nat,
        )
    }
}

/// Plays a game on from `start` until it is over or `max_turns` turns have
/// been played. The first side searches with `first` to `first_depth`, the
/// second with `second` to `second_depth`. Returns the position reached and
/// the number of turns played.
pub fn play<P: Position, A: Evaluator<P>, B: Evaluator<P>>(
    first: &A,
    first_depth: u32,
    second: &B,
    second_depth: u32,
    start: P,
    max_turns: usize,
) -> (r: (P, usize))
    requires
        first.wf(),
        second.wf(),
        start.wf(),
    ensures
        r.0.wf(),
        r.0@ == played::<P, A, B>(
            first,
            first_depth as nat,
            second,
            second_depth as nat,
            start@,
            max_turns as nat,
        ),
        r.1 == turns_played::<P, A, B>(
            first,
            first_depth as nat,
            second,
            second_depth as nat,
            start@,
            max_turns as nat,
        ),
        r.1 <= max_turns,
        r.1 < max_turns ==> P::status_of(r.0@) != Status::Running,
{
    let mut state = start;
    let mut turns: usize = 0;
    while turns < max_turns
        invariant
            first.wf(),
            second.wf(),
            state.wf(),
            turns <= max_turns,
            played::<P, A, B>(
                first,
                first_depth as nat,
                second,
                second_depth as nat,
                state@,
                (max_turns - turns) as nat,
            ) == played::<P, A, B>(
                first,
                first_depth as nat,
                second,
                second_depth as nat,
                start@,
                max_turns as nat,
            ),
            turns + turns_played::<P, A, B>(
                first,
                first_depth as nat,
                second,
                second_depth as nat,
                state@,
                (max_turns - turns) as nat,
            ) == turns_played::<P, A, B>(
                first,
                first_depth as nat,
                second,
                second_depth as nat,
                start@,
                max_turns as nat,
            ),
        decreases max_turns - turns,
    {
        let turn = match state.current_player() {
            Side::First => play_turn(first, &state, first_depth),
            Side::Second => play_turn(second, &state, second_depth),
        };
        match turn {
            Turn::Played { state: next, choice } => {
                state = next;
                turns += 1;
            },
            Turn::Finished { status } => {
                return (state, turns);
            },
        }
    }
    (state, turns)
}

} // verus!
