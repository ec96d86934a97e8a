//! The pit game: two rows of pits and a store for each side, seeds sown from pit
//! to pit, and the side with more seeds at the end the winner.
//!
//! The pits stand in one ring. The first side's pits come first, then its store,
//! then the second side's pits, then its store; seeds are sown in that
//! direction. A move names a pit by its place in the ring.

use crate::network::Featured;
use crate::search::{Evaluator, InvalidMove, Position, Side, Status};
use vstd::prelude::*;

verus! {

/// Number of pits on each side in the usual game.
pub const PITS_PER_SIDE: usize = 6;

/// The most pits a side can have.
pub const MAX_PITS_PER_SIDE: usize = 1_000_000;

/// Why a game cannot be set up.
#[derive(Debug, PartialEq, Eq, Clone, Copy, Structural)]
pub enum SetupError {
    /// A side needs at least one pit, and not more than `MAX_PITS_PER_SIDE`.
    BadPitCount,
    /// A pit needs at least one seed at the start.
    NoSeeds,
    /// All seeds together must not be more than a `u32` can count.
    TooManySeeds,
}

/// A position of the game.
#[derive(Debug)]
pub struct Game {
    /// The seeds in each pit and store of the ring.
    pub pits: Vec<u32>,
    /// The side to move.
    pub current_player: Side,
    /// Where the game stands.
    pub status: Status,
}

/// The mathematical model of a position: the ring and the side to move.
pub struct Board {
    pub pits: Seq<u32>,
    pub turn: Side,
}

/// The sum of the seeds in a row of pits.
pub open spec fn total(pits: Seq<u32>) -> int
    decreases pits.len(),
{
    if pits.len() == 0 {
        0
    } else {
        total(pits.drop_last()) + pits.last()
    }
}

/// The pit that follows `pos` in a ring of `len` pits when the pit `skip` is
/// passed over.
pub open spec fn next_pit(len: int, skip: int, pos: int) -> int {
    let step = if pos + 1 >= len {
        0
    } else {
        pos + 1
    };
    if step != skip {
        step
    } else if step + 1 >= len {
        0
    } else {
        step + 1
    }
}

/// Sowing: `hand` seeds are laid one by one into the pits that follow `pos`,
/// passing over `skip`. Gives the ring after the last seed and the pit in which
/// that seed came to lie.
pub open spec fn sow(pits: Seq<u32>, skip: int, pos: int, hand: nat) -> (Seq<u32>, int)
    decreases hand,
{
    if hand == 0 {
        (pits, pos)
    } else {
        let next = next_pit(pits.len() as int, skip, pos);
        sow(pits.update(next, (pits[next] + 1) as u32), skip, next, (hand - 1) as nat)
    }
}

impl Board {
    /// Whether the ring has the shape of a board: two stores, and as many pits
    /// on one side as on the other, at least one.
    pub open spec fn shaped(self) -> bool {
        self.pits.len() >= 4 && self.pits.len() % 2 == 0
    }

    /// Number of pits on each side.
    pub open spec fn side_len(self) -> int {
        (self.pits.len() - 2) / 2
    }

    /// The place of a side's store in the ring.
    pub open spec fn store(self, side: Side) -> int {
        match side {
            Side::First => self.side_len(),
            Side::Second => 2 * self.side_len() + 1,
        }
    }

    /// The place of a side's first pit in the ring.
    pub open spec fn first_pit(self, side: Side) -> int {
        match side {
            Side::First => 0,
            Side::Second => self.side_len() + 1,
        }
    }

    /// Whether the pit at `i` is one of the pits of `side`. A store is no pit.
    pub open spec fn owns(self, side: Side, i: int) -> bool {
        self.first_pit(side) <= i < self.first_pit(side) + self.side_len()
    }

    /// The pit across the board from the pit at `i`.
    pub open spec fn opposite(self, i: int) -> int {
        2 * self.side_len() - i
    }

    /// All the seeds that count for a side: those in its pits and in its store.
    pub open spec fn side_total(self, side: Side) -> int {
        total(
            self.pits.subrange(
                self.first_pit(side),
                self.first_pit(side) + self.side_len() + 1,
            ),
        )
    }

    /// Whether the side to move may sow from the pit at `m`: the pit is its own
    /// and holds a seed.
    pub open spec fn allows(self, m: usize) -> bool {
        self.owns(self.turn, m as int) && self.pits[m as int] > 0
    }

    /// The legal moves among the first `k` places of the ring, in rising order.
    pub open spec fn moves_below(self, k: nat) -> Seq<usize>
        decreases k,
    {
        if k == 0 {
            Seq::empty()
        } else {
            let rest = self.moves_below((k - 1) as nat);
            if self.allows((k - 1) as usize) {
                rest.push((k - 1) as usize)
            } else {
                rest
            }
        }
    }

    /// The legal moves, in rising order of their places in the ring.
    pub open spec fn moves(self) -> Seq<usize> {
        self.moves_below(self.pits.len())
    }

    /// Where the game stands: it runs while the side to move has a move. Then
    /// the side with more seeds in its pits and its store has won.
    pub open spec fn judged(self) -> Status {
        if self.moves().len() > 0 {
            Status::Running
        } else if self.side_total(Side::First) > self.side_total(Side::Second) {
            Status::FirstWins
        } else if self.side_total(Side::First) < self.side_total(Side::Second) {
            Status::SecondWins
        } else {
            Status::Draw
        }
    }

    /// The position after the side to move has sown from the pit at `m`.
    ///
    /// The pit is emptied and its seeds are sown into the pits that follow,
    /// the mover's store among them but not the other store. If the last seed
    /// comes to lie alone in a pit of the mover across from a pit that holds
    /// seeds, that seed and those across go to the mover's store. Then the other
    /// side is to move.
    pub open spec fn after(self, m: usize) -> Board {
        let sown = sow(
            self.pits.update(m as int, 0),
            self.store(self.turn.opponent()),
            m as int,
            self.pits[m as int] as nat,
        );
        let ring = sown.0;
        let last = sown.1;
        let across = self.opposite(last);
        let home = self.store(self.turn);
        Board {
            pits: if self.owns(self.turn, last) && ring[last] == 1 && ring[across] > 0 {
                ring.update(home, (ring[home] + ring[across] + 1) as u32).update(last, 0).update(
                    across,
                    0,
                )
            } else {
                ring
            },
            turn: self.turn.opponent(),
        }
    }
}

impl View for Game {
    type V = Board;

    open spec fn view(&self) -> Board {
        Board { pits: self.pits@, turn: self.current_player }
    }
}

impl Game {
    /// Whether the position is a valid position: the ring has the shape of a
    /// board, its seeds can be counted in a `u32`, and the status recorded is
    /// the status of the board.
    pub open spec fn valid(&self) -> bool {
        &&& self@.shaped()
        &&& total(self.pits@) <= u32::MAX
        &&& self.status == self@.judged()
    }
}

/// Changing one pit changes the sum by as much.
pub proof fn lemma_total_update(pits: Seq<u32>, i: int, v: u32)
    requires
        0 <= i < pits.len(),
    ensures
        total(pits.update(i, v)) == total(pits) - pits[i] + v,
    decreases pits.len(),
{
    let changed = pits.update(i, v);
    if i == pits.len() - 1 {
        assert(changed.drop_last() =~= pits.drop_last());
    } else {
        lemma_total_update(pits.drop_last(), i, v);
        assert(changed.drop_last() =~= pits.drop_last().update(i, v));
    }
}

/// No pit holds more than all pits together.
pub proof fn lemma_total_bounds(pits: Seq<u32>, i: int)
    requires
        0 <= i < pits.len(),
    ensures
        0 <= pits[i] <= total(pits),
    decreases pits.len(),
{
    lemma_total_nonnegative(pits.drop_last());
    if i < pits.len() - 1 {
        lemma_total_bounds(pits.drop_last(), i);
    }
}

/// A sum of seeds is not negative.
pub proof fn lemma_total_nonnegative(pits: Seq<u32>)
    ensures
        0 <= total(pits),
    decreases pits.len(),
{
    if pits.len() > 0 {
        lemma_total_nonnegative(pits.drop_last());
    }
}

/// Sowing keeps the ring as long as it was and adds to it exactly the seeds in
/// hand; the last seed comes to lie in a pit of the ring that is not passed
/// over.
pub proof fn lemma_sow(pits: Seq<u32>, skip: int, pos: int, hand: nat)
    requires
        pits.len() >= 2,
        0 <= pos < pits.len(),
        total(pits) + hand <= u32::MAX,
    ensures
        sow(pits, skip, pos, hand).0.len() == pits.len(),
        total(sow(pits, skip, pos, hand).0) == total(pits) + hand,
        0 <= sow(pits, skip, pos, hand).1 < pits.len(),
        hand > 0 ==> sow(pits, skip, pos, hand).1 != skip,
    decreases hand,
{
    if hand > 0 {
        let next = next_pit(pits.len() as int, skip, pos);
        lemma_total_bounds(pits, next);
        lemma_total_update(pits, next, (pits[next] + 1) as u32);
        lemma_sow(pits.update(next, (pits[next] + 1) as u32), skip, next, (hand - 1) as nat);
    }
}

/// A row of pits holds the seeds of its first `k` pits and those of the rest.
pub proof fn lemma_total_split(pits: Seq<u32>, k: int)
    requires
        0 <= k <= pits.len(),
    ensures
        total(pits) == total(pits.take(k)) + total(pits.skip(k)),
    decreases pits.len(),
{
    if k == pits.len() {
        assert(pits.take(k) =~= pits);
    } else {
        lemma_total_split(pits.drop_last(), k);
        assert(pits.drop_last().take(k) =~= pits.take(k));
        assert(pits.skip(k).drop_last() =~= pits.drop_last().skip(k));
    }
}

/// A stretch of a row of pits holds no more seeds than the whole row.
pub proof fn lemma_total_part(pits: Seq<u32>, from: int, to: int)
    requires
        0 <= from <= to <= pits.len(),
    ensures
        0 <= total(pits.subrange(from, to)) <= total(pits),
{
    lemma_total_split(pits, to);
    lemma_total_split(pits.take(to), from);
    lemma_total_nonnegative(pits.skip(to));
    lemma_total_nonnegative(pits.take(to).take(from));
    lemma_total_nonnegative(pits.subrange(from, to));
    assert(pits.take(to).skip(from) =~= pits.subrange(from, to));
}

/// Adding a pit at the end adds its seeds to the sum.
pub proof fn lemma_total_push(pits: Seq<u32>, v: u32)
    ensures
        total(pits.push(v)) == total(pits) + v,
{
    assert(pits.push(v).drop_last() =~= pits);
}

/// The legal moves among the first `k` places are exactly the places below `k`
/// from which the side to move may sow, in rising order.
pub proof fn lemma_moves_below(b: Board, k: nat)
    requires
        k <= usize::MAX,
    ensures
        forall|m: usize| #[trigger] b.moves_below(k).contains(m) <==> b.allows(m) && m < k,
        forall|i: int, j: int|
            0 <= i < j < b.moves_below(k).len() ==> #[trigger] b.moves_below(k)[i]
                < #[trigger] b.moves_below(k)[j],
        forall|i: int| 0 <= i < b.moves_below(k).len() ==> #[trigger] b.moves_below(k)[i] < k,
    decreases k,
{
    if k > 0 {
        let rest = b.moves_below((k - 1) as nat);
        let last = (k - 1) as usize;
        lemma_moves_below(b, (k - 1) as nat);
        assert forall|m: usize| #[trigger]
            b.moves_below(k).contains(m) <==> b.allows(m) && m < k by {
            if b.allows(last) {
                assert(rest.push(last).last() == last);
                if rest.contains(m) {
                    let i = choose|i: int| 0 <= i < rest.len() && rest[i] == m;
                    assert(rest.push(last)[i] == m);
                }
            }
        }
    }
}

/// The position in which a game starts: `seeds` seeds in each of the `n` pits
/// of each side, the stores empty, and the first side to move.
pub open spec fn opening(n: int, seeds: u32) -> Board {
    Board {
        pits: Seq::new(
            (2 * n + 2) as nat,
            |i: int|
                if i == n || i == 2 * n + 1 {
                    0u32
                } else {
                    seeds
                },
        ),
        turn: Side::First,
    }
}

impl Game {
    /// Number of pits on each side.
    pub fn side_len(&self) -> (r: usize)
        requires
            self@.shaped(),
        ensures
            r == self@.side_len(),
            2 * r + 2 == self.pits@.len() <= usize::MAX,
    {
        (self.pits.len() - 2) / 2
    }

    /// The place of a side's store in the ring.
    pub fn store(&self, side: Side) -> (r: usize)
        requires
            self@.shaped(),
        ensures
            r == self@.store(side),
            r < self.pits@.len(),
    {
        match side {
            Side::First => self.side_len(),
            Side::Second => 2 * self.side_len() + 1,
        }
    }

    /// Whether the pit at `i` is one of the pits of `side`.
    pub fn owns(&self, side: Side, i: usize) -> (r: bool)
        requires
            self@.shaped(),
        ensures
            r == self@.owns(side, i as int),
    {
        let first = match side {
            Side::First => 0,
            Side::Second => self.side_len() + 1,
        };
        first <= i && i < first + self.side_len()
    }

    /// All the seeds that count for a side: those in its pits and in its store.
    pub fn side_total(&self, side: Side) -> (r: u64)
        requires
            self@.shaped(),
            total(self.pits@) <= u32::MAX,
        ensures
            r == self@.side_total(side),
    {
        let first = match side {
            Side::First => 0,
            Side::Second => self.side_len() + 1,
        };
        let end = first + self.side_len() + 1;
        let mut sum: u64 = 0;
        let mut i: usize = first;
        while i < end
            invariant
                first <= i <= end <= self.pits@.len(),
                sum == total(self.pits@.subrange(first as int, i as int)),
                total(self.pits@) <= u32::MAX,
            decreases end - i,
        {
            proof {
                assert(self.pits@.subrange(first as int, i + 1).drop_last() =~= self.pits@.subrange(
                    first as int,
                    i as int,
                ));
                lemma_total_part(self.pits@, first as int, i + 1);
            }
            sum = sum + self.pits[i] as u64;
            i += 1;
        }
        sum
    }

    /// The legal moves of the side to move: its pits that hold a seed, in
    /// rising order of their places in the ring.
    fn sowable(&self) -> (r: Vec<usize>)
        requires
            self@.shaped(),
        ensures
            r@ == self@.moves(),
    {
        let mut out: Vec<usize> = Vec::new();
        let mut i: usize = 0;
        while i < self.pits.len()
            invariant
                self@.shaped(),
                i <= self.pits@.len(),
                out@ == self@.moves_below(i as nat),
            decreases self.pits@.len() - i,
        {
            if self.owns(self.current_player, i) && self.pits[i] > 0 {
                out.push(i);
            }
            i += 1;
        }
        out
    }

    /// Where the game stands on this board, whatever status is recorded.
    fn judge(&self) -> (r: Status)
        requires
            self@.shaped(),
            total(self.pits@) <= u32::MAX,
        ensures
            r == self@.judged(),
    {
        if self.sowable().len() > 0 {
            return Status::Running;
        }
        let first = self.side_total(Side::First);
        let second = self.side_total(Side::Second);
        if first > second {
            Status::FirstWins
        } else if first < second {
            Status::SecondWins
        } else {
            Status::Draw
        }
    }

    /// A game with `pits_per_side` pits on each side and `seeds` seeds in each
    /// of them, the first side to move.
    pub fn with_pits(pits_per_side: usize, seeds: u32) -> (r: Result<Game, SetupError>)
        ensures
            match r {
                Ok(game) => {
                    &&& 0 < pits_per_side <= MAX_PITS_PER_SIDE
                    &&& seeds > 0
                    &&& 2 * pits_per_side * seeds <= u32::MAX
                    &&& game@ == opening(pits_per_side as int, seeds)
                    &&& game.valid()
                    &&& game.status == Status::Running
                },
                Err(SetupError::BadPitCount) => pits_per_side == 0 || pits_per_side
                    > MAX_PITS_PER_SIDE,
                Err(SetupError::NoSeeds) => 0 < pits_per_side <= MAX_PITS_PER_SIDE && seeds == 0,
                Err(SetupError::TooManySeeds) => 0 < pits_per_side <= MAX_PITS_PER_SIDE && 2
                    * pits_per_side * seeds > u32::MAX,
            },
    {
        if pits_per_side == 0 || pits_per_side > MAX_PITS_PER_SIDE {
            return Err(SetupError::BadPitCount);
        }
        if seeds == 0 {
            return Err(SetupError::NoSeeds);
        }
        let n = pits_per_side;
        assert(2 * n * seeds <= 2 * 1_000_000 * 0xFFFF_FFFF) by (nonlinear_arith)
            requires
                n <= 1_000_000,
                seeds <= 0xFFFF_FFFF,
        ;
        let all: u64 = 2 * (n as u64) * (seeds as u64);
        if all > u32::MAX as u64 {
            return Err(SetupError::TooManySeeds);
        }
        let mut pits: Vec<u32> = Vec::new();
        let mut i: usize = 0;
        let ghost target = opening(n as int, seeds).pits;
        let ghost mut filled: int = 0;
        while i < 2 * n + 2
            invariant
                0 < n <= 1_000_000,
                seeds > 0,
                i <= 2 * n + 2,
                pits@.len() == i,
                target == opening(n as int, seeds).pits,
                forall|k: int| 0 <= k < i ==> pits@[k] == target[k],
                filled == i - (if i > n {
                    1int
                } else {
                    0int
                }) - (if i > 2 * n + 1 {
                    1int
                } else {
                    0int
                }),
                total(pits@) == seeds * filled,
            decreases 2 * n + 2 - i,
        {
            let v = if i == n || i == 2 * n + 1 {
                0
            } else {
                seeds
            };
            proof {
                lemma_total_push(pits@, v);
                if v != 0 {
                    assert(seeds * (filled + 1) == seeds * filled + seeds) by (nonlinear_arith);
                    filled = filled + 1;
                }
            }
            pits.push(v);
            i += 1;
        }
        assert(pits@ =~= target);
        assert(seeds * (2 * n) == 2 * n * seeds) by (nonlinear_arith);
        let mut game = Game { pits, current_player: Side::First, status: Status::Running };
        proof {
            lemma_moves_below(game@, game.pits@.len());
            assert(game@.moves().contains(0usize));
        }
        Ok(game)
    }

    /// The usual game: six pits on each side, `seeds` seeds in each.
    pub fn new(seeds: u32) -> (r: Result<Game, SetupError>)
        ensures
            match r {
                Ok(game) => {
                    &&& 0 < seeds
                    &&& 12 * seeds <= u32::MAX
                    &&& game@ == opening(6, seeds)
                    &&& game.valid()
                    &&& game.status == Status::Running
                },
                Err(SetupError::BadPitCount) => false,
                Err(SetupError::NoSeeds) => seeds == 0,
                Err(SetupError::TooManySeeds) => 12 * seeds > u32::MAX,
            },
    {
        Game::with_pits(PITS_PER_SIDE, seeds)
    }

    /// The legal moves of the side to move: its pits that hold a seed, in
    /// rising order of their places in the ring. There are none once the game is
    /// over, and the game is over when there are none.
    pub fn possible_moves(&self) -> (r: Vec<usize>)
        requires
            self.valid(),
        ensures
            r@ == self@.moves(),
            r@.len() > 0 <==> self.status == Status::Running,
    {
        self.sowable()
    }

    /// Whether the side to move may sow from the pit at `m`.
    pub fn is_legal(&self, m: usize) -> (r: bool)
        requires
            self.valid(),
        ensures
            r == self@.moves().contains(m),
            r == (m < self.pits@.len() && self@.allows(m)),
    {
        let len = self.pits.len();
        proof {
            lemma_moves_below(self@, len as nat);
        }
        m < len && self.owns(self.current_player, m) && self.pits[m] > 0
    }

    /// Sows from the pit at `m`, or refuses with `InvalidMove` and leaves the
    /// game as it is when the side to move may not sow from there.
    pub fn make_move(&mut self, m: usize) -> (r: Result<(), InvalidMove>)
        requires
            old(self).valid(),
        ensures
            r is Ok <==> old(self)@.moves().contains(m),
            r is Ok ==> final(self)@ == old(self)@.after(m) && final(self).valid(),
            r is Err ==> *final(self) == *old(self),
    {
        if !self.is_legal(m) {
            return Err(InvalidMove);
        }
        let ghost start = self@;
        let mover = self.current_player;
        let skip = self.store(mover.other());
        let home = self.store(mover);
        let len = self.pits.len();
        let mut hand = self.pits[m];
        proof {
            lemma_total_update(self.pits@, m as int, 0);
        }
        self.pits[m] = 0;
        let ghost lifted = self.pits@;
        let ghost seeds = hand;
        let mut pos = m;
        while hand > 0
            invariant
                len == self.pits@.len() == start.pits.len(),
                len >= 4,
                pos < len,
                skip < len,
                total(self.pits@) + hand == total(start.pits),
                total(start.pits) <= u32::MAX,
                sow(self.pits@, skip as int, pos as int, hand as nat) == sow(
                    lifted,
                    skip as int,
                    m as int,
                    seeds as nat,
                ),
                self.current_player == mover,
                self.status == old(self).status,
            decreases hand,
        {
            let step = if pos + 1 >= len {
                0
            } else {
                pos + 1
            };
            let next = if step != skip {
                step
            } else if step + 1 >= len {
                0
            } else {
                step + 1
            };
            proof {
                lemma_total_bounds(self.pits@, next as int);
                lemma_total_update(self.pits@, next as int, (self.pits@[next as int] + 1) as u32);
            }
            let seeds_there = self.pits[next];
            self.pits[next] = seeds_there + 1;
            pos = next;
            hand -= 1;
        }
        let ghost ring = self.pits@;
        if self.owns(mover, pos) && self.pits[pos] == 1 {
            let across = 2 * self.side_len() - pos;
            if self.pits[across] > 0 {
                proof {
                    lemma_total_update(ring, pos as int, 0);
                    lemma_total_update(ring.update(pos as int, 0), across as int, 0);
                    lemma_total_bounds(
                        ring.update(pos as int, 0).update(across as int, 0),
                        home as int,
                    );
                    lemma_total_update(
                        ring.update(pos as int, 0).update(across as int, 0),
                        home as int,
                        (ring[home as int] + ring[across as int] + 1) as u32,
                    );
                }
                let taken = self.pits[across];
                let stored = self.pits[home];
                self.pits[pos] = 0;
                self.pits[across] = 0;
                self.pits[home] = stored + taken + 1;
                assert(self.pits@ =~= ring.update(
                    home as int,
                    (ring[home as int] + ring[across as int] + 1) as u32,
                ).update(pos as int, 0).update(across as int, 0));
            }
        }
        self.current_player = mover.other();
        self.status = self.judge();
        Ok(())
    }
}

/// The evaluator that compares the stores.
#[derive(Debug, PartialEq, Eq, Clone, Copy, Structural)]
pub struct SimpleAgent;

impl Board {
    /// A position as the evaluator that compares the stores sees it, from the
    /// side that has just moved: the seeds in that side's store less the seeds
    /// in the store of the side to move.
    pub open spec fn lead(self) -> int {
        self.pits[self.store(self.turn.opponent())] - self.pits[self.store(self.turn)]
    }
}

impl Game {
    /// A copy of the position.
    pub fn copy(&self) -> (r: Game)
        ensures
            r@ == self@,
            r.status == self.status,
    {
        let mut pits: Vec<u32> = Vec::new();
        let mut i: usize = 0;
        while i < self.pits.len()
            invariant
                i <= self.pits@.len(),
                pits@ == self.pits@.take(i as int),
            decreases self.pits@.len() - i,
        {
            pits.push(self.pits[i]);
            i += 1;
        }
        assert(self.pits@.take(i as int) =~= self.pits@);
        Game { pits, current_player: self.current_player, status: self.status }
    }
}

impl Evaluator<Game> for SimpleAgent {
    open spec fn wf(&self) -> bool {
        true
    }

    open spec fn score(&self, state: Board) -> int {
        state.lead()
    }

    fn evaluate(&self, state: &Game) -> (r: i64) {
        let ahead = state.pits[state.store(state.current_player.other())] as i64;
        let behind = state.pits[state.store(state.current_player)] as i64;
        ahead - behind
    }
}

impl Board {
    /// The row of a position for a network: the seeds in each place of the
    /// ring, going round from the first pit of the side to move, each count
    /// held to what an `i32` can hold; zeros after the ring has gone round
    /// once.
    pub open spec fn seeds_from_mover(self, k: int) -> i32 {
        if 0 <= k < self.pits.len() {
            let place = (self.first_pit(self.turn) + k) % (self.pits.len() as int);
            if self.pits[place] > i32::MAX {
                i32::MAX
            } else {
                self.pits[place] as i32
            }
        } else {
            0
        }
    }
}

impl Featured for Game {
    open spec fn feature(state: Board, k: int) -> i32 {
        state.seeds_from_mover(k)
    }

    fn feature_at(&self, k: usize) -> (r: i32) {
        let len = self.pits.len();
        if k >= len {
            return 0;
        }
        let first = match self.current_player {
            Side::First => 0,
            Side::Second => self.side_len() + 1,
        };
        let gap = len - first;
        let place = if k >= gap {
            k - gap
        } else {
            first + k
        };
        assert(place == (first + k) % (len as int)) by {
            if first + k >= len {
                vstd::arithmetic::div_mod::lemma_fundamental_div_mod_converse(
                    first + k,
                    len as int,
                    1,
                    place as int,
                );
            } else {
                vstd::arithmetic::div_mod::lemma_small_mod((first + k) as nat, len as nat);
            }
        }
        let seeds = self.pits[place];
        if seeds > i32::MAX as u32 {
            i32::MAX
        } else {
            seeds as i32
        }
    }
}

impl Position for Game {
    type Move = usize;

    open spec fn wf(&self) -> bool {
        self.valid()
    }

    open spec fn moves(state: Board) -> Seq<usize> {
        state.moves()
    }

    open spec fn after(state: Board, m: usize) -> Board {
        state.after(m)
    }

    open spec fn status_of(state: Board) -> Status {
        state.judged()
    }

    open spec fn mover(state: Board) -> Side {
        state.turn
    }

    proof fn lemma_running_iff_moves(&self) {
    }

    fn status(&self) -> Status {
        self.status
    }

    fn current_player(&self) -> Side {
        self.current_player
    }

    fn legal_moves(&self) -> Vec<usize> {
        self.possible_moves()
    }

    fn apply(&self, m: &usize) -> Result<Game, InvalidMove> {
        let mut next = self.copy();
        match next.make_move(*m) {
            Ok(()) => Ok(next),
            Err(e) => Err(e),
        }
    }
}

/// A legal move keeps every seed: the ring has as many seeds after it as
/// before, and the shape of a board.
pub proof fn lemma_move_keeps_seeds(b: Board, m: usize)
    requires
        b.shaped(),
        b.pits.len() <= usize::MAX,
        total(b.pits) <= u32::MAX,
        b.moves().contains(m),
    ensures
        b.after(m).shaped(),
        b.after(m).pits.len() == b.pits.len(),
        total(b.after(m).pits) == total(b.pits),
{
    lemma_moves_below(b, b.pits.len());
    let lifted = b.pits.update(m as int, 0);
    let skip = b.store(b.turn.opponent());
    lemma_total_update(b.pits, m as int, 0);
    lemma_sow(lifted, skip, m as int, b.pits[m as int] as nat);
    let sown = sow(lifted, skip, m as int, b.pits[m as int] as nat);
    let ring = sown.0;
    let last = sown.1;
    let across = b.opposite(last);
    let home = b.store(b.turn);
    if b.owns(b.turn, last) && ring[last] == 1 && ring[across] > 0 {
        lemma_total_bounds(ring.update(last, 0).update(across, 0), home);
        lemma_total_update(ring, last, 0);
        lemma_total_update(ring.update(last, 0), across, 0);
        let v = (ring[home] + ring[across] + 1) as u32;
        lemma_total_update(ring.update(last, 0).update(across, 0), home, v);
        assert(ring.update(home, v).update(last, 0).update(across, 0) =~= ring.update(last, 0).update(
            across,
            0,
        ).update(home, v));
    }
}

} // verus!
