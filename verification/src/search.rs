//! Depth-bounded game-tree search, shared by every game of the library.
//!
//! A game is anything that lists its legal moves in a fixed order and says what
//! position a move leads to; an evaluator gives a position a score. The search
//! walks the tree of moves to a given depth, scores the leaves with the
//! evaluator, and backs the scores up under the rule that what is good for one
//! side is as bad for the other.

use vstd::prelude::*;

verus! {

/// Where a game stands: still running, or over with one of three outcomes.
#[derive(Debug, PartialEq, Eq, Clone, Copy, Structural)]
pub enum Status {
    Running,
    FirstWins,
    SecondWins,
    Draw,
}

/// One of the two sides of a game.
#[derive(Debug, PartialEq, Eq, Clone, Copy, Structural)]
pub enum Side {
    First,
    Second,
}

impl Side {
    /// The other side.
    pub open spec fn opponent(self) -> Side {
        match self {
            Side::First => Side::Second,
            Side::Second => Side::First,
        }
    }

    /// The other side.
    pub fn other(&self) -> (r: Side)
        ensures
            r == self.opponent(),
    {
        match self {
            Side::First => Side::Second,
            Side::Second => Side::First,
        }
    }
}

/// A search was asked for a move in a position that has none.
#[derive(Debug, PartialEq, Eq, Clone, Copy, Structural)]
pub struct NoLegalMoves;

/// A move was offered that is not among the legal moves of the position.
#[derive(Debug, PartialEq, Eq, Clone, Copy, Structural)]
pub struct InvalidMove;

/// A position of a two-player game of perfect information.
///
/// The view of a position is its mathematical model; the legal moves and the
/// successor of a position are functions of that model alone.
pub trait Position: View + Sized {
    /// A move of the game.
    type Move: Copy;

    /// Whether the position is a valid position of the game.
    spec fn wf(&self) -> bool;

    /// The legal moves of a position, in the order in which they are tried.
    spec fn moves(state: Self::V) -> Seq<Self::Move>;

    /// The position that a move leads to.
    spec fn after(state: Self::V, m: Self::Move) -> Self::V;

    /// Where the game stands in a position.
    spec fn status_of(state: Self::V) -> Status;

    /// The side to move in a position.
    spec fn mover(state: Self::V) -> Side;

    /// A game is running exactly as long as the side to move has a legal move.
    proof fn lemma_running_iff_moves(&self)
        requires
            self.wf(),
        ensures
            Self::status_of(self@) == Status::Running <==> Self::moves(self@).len() > 0,
    ;

    /// Where the game stands.
    fn status(&self) -> (r: Status)
        requires
            self.wf(),
        ensures
            r == Self::status_of(self@),
    ;

    /// The side to move.
    fn current_player(&self) -> (r: Side)
        requires
            self.wf(),
        ensures
            r == Self::mover(self@),
    ;

    /// The legal moves, in the order in which they are tried. There are none
    /// once the game is over.
    fn legal_moves(&self) -> (r: Vec<Self::Move>)
        requires
            self.wf(),
        ensures
            r@ == Self::moves(self@),
    ;

    /// The position after a move, or `InvalidMove` for a move that is not legal
    /// here.
    fn apply(&self, m: &Self::Move) -> (r: Result<Self, InvalidMove>)
        requires
            self.wf(),
        ensures
            r is Ok <==> Self::moves(self@).contains(*m),
            r matches Ok(next) ==> next.wf() && next@ == Self::after(self@, *m),
    ;
}

/// A scorer of positions of the game `P`. What a score means is the
/// evaluator's business; the search only compares scores and changes their
/// sign.
pub trait Evaluator<P: Position> {
    /// Whether the evaluator is fit for use.
    spec fn wf(&self) -> bool;

    /// The score of a position.
    spec fn score(&self, state: P::V) -> int;

    /// Scores a position. The lowest `i64` is never a score, so that every score
    /// has a negative.
    fn evaluate(&self, state: &P) -> (r: i64)
        requires
            self.wf(),
            state.wf(),
        ensures
            r == self.score(state@),
            r > i64::MIN,
    ;
}

/// The score of a move when the tree below it is searched `depth` plies deep.
///
/// At depth 0, and wherever the move ends the game, it is the evaluator's score
/// of the position that the move leads to. Deeper, it is the negative of the
/// best score that the other side can reach from there with one ply less.
pub open spec fn move_score<P: Position, E: Evaluator<P>>(
    eval: &E,
    state: P::V,
    m: P::Move,
    depth: nat,
) -> int
    decreases depth, 0nat, 0nat,
{
    let next = P::after(state, m);
    if depth == 0 || P::moves(next).len() == 0 {
        eval.score(next)
    } else {
        -best_score::<P, E>(eval, next, (depth - 1) as nat, P::moves(next).len())
    }
}

/// The greatest score among the first `n` legal moves of a position, each
/// searched `depth` plies deep.
pub open spec fn best_score<P: Position, E: Evaluator<P>>(
    eval: &E,
    state: P::V,
    depth: nat,
    n: nat,
) -> int
    decreases depth, 1nat, n,
{
    if n <= 1 {
        move_score::<P, E>(eval, state, P::moves(state)[0], depth)
    } else {
        let rest = best_score::<P, E>(eval, state, depth, (n - 1) as nat);
        let last = move_score::<P, E>(eval, state, P::moves(state)[n - 1], depth);
        if last > rest {
            last
        } else {
            rest
        }
    }
}

/// Whether the `i`-th legal move is the one to play among the first `n`: no
/// move among them scores higher, and every move before it scores lower.
pub open spec fn is_best_among<P: Position, E: Evaluator<P>>(
    eval: &E,
    state: P::V,
    depth: nat,
    n: int,
    i: int,
) -> bool {
    let moves = P::moves(state);
    &&& 0 <= i < n <= moves.len()
    &&& forall|j: int|
        0 <= j < n ==> move_score::<P, E>(eval, state, #[trigger] moves[j], depth) <= move_score::<
            P,
            E,
        >(eval, state, moves[i], depth)
    &&& forall|j: int|
        0 <= j < i ==> move_score::<P, E>(eval, state, #[trigger] moves[j], depth) < move_score::<
            P,
            E,
        >(eval, state, moves[i], depth)
}

/// Whether the `i`-th legal move is the one to play: it scores highest, and
/// where several do, it is the first of them.
pub open spec fn is_best<P: Position, E: Evaluator<P>>(
    eval: &E,
    state: P::V,
    depth: nat,
    i: int,
) -> bool {
    is_best_among::<P, E>(eval, state, depth, P::moves(state).len() as int, i)
}

/// What a search returns: the move to play, its place among the legal moves,
/// and its score.
#[derive(Debug, PartialEq, Eq)]
pub struct Choice<M> {
    pub index: usize,
    pub mv: M,
    pub score: i64,
}

/// Searches the moves of a position `depth` plies deep and returns the one
/// that scores highest; of several, the first. A position without legal moves
/// gives `NoLegalMoves`.
pub fn search<P: Position, E: Evaluator<P>>(eval: &E, state: &P, depth: u32) -> (r: Result<
    Choice<P::Move>,
    NoLegalMoves,
>)
    requires
        eval.wf(),
        state.wf(),
    ensures
        r is Err <==> P::moves(state@).len() == 0,
        r matches Ok(choice) ==> {
            &&& is_best::<P, E>(eval, state@, depth as nat, choice.index as int)
            &&& choice.mv == P::moves(state@)[choice.index as int]
            &&& choice.score == move_score::<P, E>(eval, state@, choice.mv, depth as nat)
            &&& choice.score == best_score::<P, E>(
                eval,
                state@,
                depth as nat,
                P::moves(state@).len(),
            )
            &&& choice.score > i64::MIN
        },
    decreases depth, 1nat,
{
    let moves = state.legal_moves();
    if moves.len() == 0 {
        return Err(NoLegalMoves);
    }
    let first = moves[0];
    let mut best = Choice { index: 0, mv: first, score: score_move(eval, state, &first, depth) };
    let mut k: usize = 1;
    while k < moves.len()
        invariant
            eval.wf(),
            state.wf(),
            moves@ == P::moves(state@),
            1 <= k <= moves@.len(),
            is_best_among::<P, E>(eval, state@, depth as nat, k as int, best.index as int),
            best.mv == moves@[best.index as int],
            best.score == move_score::<P, E>(eval, state@, best.mv, depth as nat),
            best.score == best_score::<P, E>(eval, state@, depth as nat, k as nat),
            best.score > i64::MIN,
        decreases moves@.len() - k,
    {
        let m = moves[k];
        let score = score_move(eval, state, &m, depth);
        if score > best.score {
            best = Choice { index: k, mv: m, score };
        }
        k += 1;
    }
    Ok(best)
}

/// Scores one legal move of a position: the evaluator's score of the position it
/// leads to at depth 0 or where the game ends there, and else the negative of
/// the best score of the other side one ply less deep.
fn score_move<P: Position, E: Evaluator<P>>(eval: &E, state: &P, m: &P::Move, depth: u32) -> (r:
    i64)
    requires
        eval.wf(),
        state.wf(),
        P::moves(state@).contains(*m),
    ensures
        r == move_score::<P, E>(eval, state@, *m, depth as nat),
        r > i64::MIN,
    decreases depth, 0nat,
{
    match state.apply(m) {
        Ok(next) => {
            if depth == 0 {
                eval.evaluate(&next)
            } else {
                match search(eval, &next, depth - 1) {
                    Ok(reply) => -reply.score,
                    Err(_) => eval.evaluate(&next),
                }
            }
        },
        Err(_) => unreached(),
    }
}

/// Picks the move to play in a position, searching `depth` plies deep: the
/// move of `search` without its score.
pub fn select_move<P: Position, E: Evaluator<P>>(eval: &E, game: &P, depth: u32) -> (r: Result<
    P::Move,
    NoLegalMoves,
>)
    requires
        eval.wf(),
        game.wf(),
    ensures
        r is Err <==> P::moves(game@).len() == 0,
        r matches Ok(m) ==> m == best_move::<P, E>(eval, game@, depth as nat),
{
    match search(eval, game, depth) {
        Ok(choice) => {
            Ok(choice.mv)
        },
        Err(e) => Err(e),
    }
}

/// The place of the move to play among the legal moves of a position.
pub open spec fn best_index<P: Position, E: Evaluator<P>>(
    eval: &E,
    state: P::V,
    depth: nat,
) -> int {
    choose|i: int| is_best::<P, E>(eval, state, depth, i)
}

/// The move to play in a position that has a legal move.
pub open spec fn best_move<P: Position, E: Evaluator<P>>(
    eval: &E,
    state: P::V,
    depth: nat,
) -> P::Move {
    P::moves(state)[best_index::<P, E>(eval, state, depth)]
}

/// Only one move is the one to play: a search of the same position to the
/// same depth with the same evaluator always picks the same move.
pub proof fn lemma_best_is_unique<P: Position, E: Evaluator<P>>(
    eval: &E,
    state: P::V,
    depth: nat,
    i: int,
    j: int,
)
    requires
        is_best::<P, E>(eval, state, depth, i),
    ensures
        is_best::<P, E>(eval, state, depth, j) ==> i == j,
        best_index::<P, E>(eval, state, depth) == i,
{
    let moves = P::moves(state);
    let k = best_index::<P, E>(eval, state, depth);
    if k < i {
        assert(move_score::<P, E>(eval, state, moves[i], depth) <= move_score::<P, E>(
            eval,
            state,
            moves[k],
            depth,
        ));
    }
}

/// At depth 0 the move to play is the one whose next position the evaluator
/// scores highest, and of several the first: no legal move leads to a position
/// with a higher score, and every move before it leads to one with a lower
/// score.
pub proof fn lemma_depth_zero_is_greedy<P: Position, E: Evaluator<P>>(
    eval: &E,
    state: P::V,
    i: int,
)
    requires
        is_best::<P, E>(eval, state, 0, i),
    ensures
        forall|j: int|
            0 <= j < P::moves(state).len() ==> eval.score(
                P::after(state, #[trigger] P::moves(state)[j]),
            ) <= eval.score(P::after(state, P::moves(state)[i])),
        forall|j: int|
            0 <= j < i ==> eval.score(P::after(state, #[trigger] P::moves(state)[j])) < eval.score(
                P::after(state, P::moves(state)[i]),
            ),
{
}

} // verus!
