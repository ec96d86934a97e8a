//! The grid game: two sides of five pieces each on the five-by-five grid, one
//! piece of each side a king, moved by the cards that the sides hold.
//!
//! A position is always written from the point of view of the side to move:
//! `my` is that side and `other` its opponent, and the two change places with
//! every move. Cells keep their numbers whoever is to move.

use crate::bits::{
    clear_bit, count_below, count_bits, has_bit, lemma_move_keeps_apart, lemma_stays_on_grid, lemma_with_bit,
    lemma_without_bit, set_bit, test_bit, with_bit, without_bit,
};
use crate::cards::Card;
use crate::pattern::{mirrored, reverse, shift_bitmap, shifted, Pattern};
use crate::cards::{draw_cards, named};
use crate::network::Featured;
use crate::search::{Evaluator, InvalidMove, Position, Side, Status};
use vstd::prelude::*;
use vstd::string::StrSliceExecFns;

verus! {

/// The two sides. White moves first in the count of outcomes: a win of white is
/// `Status::FirstWins`.
#[derive(Debug, PartialEq, Eq, Clone, Copy, Structural)]
pub enum Color {
    White,
    Black,
}

/// One side of the board: its two cards, the cells its pieces stand on, and the
/// cell of its king.
#[derive(Debug, PartialEq, Eq, Clone, Copy)]
pub struct Player {
    pub cards: [Card; 2],
    pub pieces: u32,
    pub king: u8,
}

/// A move: a piece goes from one cell to another by one of the mover's two
/// cards.
#[derive(Debug, PartialEq, Eq, Clone, Copy, Structural)]
pub struct Move {
    pub from: u8,
    pub to: u8,
    pub used_left_card: bool,
}

/// A position of the game.
#[derive(Debug, PartialEq, Eq, Clone, Copy)]
pub struct Game {
    pub my: Player,
    pub other: Player,
    pub table_card: Card,
    pub color: Color,
    pub status: Status,
}

/// What passes between the game and its display: a position to show, or a
/// request for a move from whoever sits at the display.
#[derive(Debug, PartialEq, Eq, Clone, Copy)]
pub enum Transmission {
    Display(Game),
    RequestMove,
}

/// Why a move asked for by card and cells is refused.
#[derive(Debug, PartialEq, Eq, Clone, Copy, Structural)]
pub enum Refusal {
    /// The side to move does not hold the card.
    NotInHand,
    /// The side to move holds the card, but the move is not legal.
    NotLegal,
}

/// Why a move typed in as three words is refused. The words are looked at in
/// this order: the cell to reach, the cell to leave, the card.
#[derive(Debug, PartialEq, Eq, Clone, Copy, Structural)]
pub enum InputError {
    /// The word for the cell to reach names no cell.
    BadTo,
    /// The word for the cell to leave names no cell.
    BadFrom,
    /// The word for the card names no card.
    UnknownCard,
    /// The side to move does not hold the card.
    NotInHand,
    /// The move is not legal.
    NotLegal,
}

/// The evaluator that counts pieces.
#[derive(Debug, PartialEq, Eq, Clone, Copy, Structural)]
pub struct Material;

/// What a won game is worth to the evaluator that counts pieces: more than any
/// difference in pieces.
pub const WIN_SCORE: i64 = 100;

/// Number of different moves that can be written down: a cell to leave, one of
/// two cards, a cell to reach.
pub const MOVE_KEYS: usize = 1250;

impl Color {
    /// The other colour.
    pub open spec fn opponent(self) -> Color {
        match self {
            Color::White => Color::Black,
            Color::Black => Color::White,
        }
    }

    /// The outcome in which this colour has won.
    pub open spec fn victory(self) -> Status {
        match self {
            Color::White => Status::FirstWins,
            Color::Black => Status::SecondWins,
        }
    }

    /// The cell that a king of this colour must reach to win: the cell on which
    /// the other king starts.
    pub open spec fn goal(self) -> u8 {
        match self {
            Color::White => 2,
            Color::Black => 22,
        }
    }
}

impl Player {
    /// The left card or the right one.
    pub open spec fn card(self, left: bool) -> Card {
        if left {
            self.cards[0]
        } else {
            self.cards[1]
        }
    }
}

/// The cells that a card reaches from the centre when `color` plays it: the
/// card's own cells for the colour it was drawn for, and those cells turned by
/// half a turn for the other colour.
pub open spec fn oriented(card: Card, color: Color) -> Set<int> {
    if card.white() == (color == Color::White) {
        card.cells()
    } else {
        mirrored(card.cells())
    }
}

/// The `k`-th move in the order in which moves are tried: by the cell left,
/// then the left card before the right one, then by the cell reached.
pub open spec fn move_at(k: int) -> Move {
    Move { from: (k / 50) as u8, to: (k % 25) as u8, used_left_card: (k / 25) % 2 == 0 }
}

/// The place of a move in the order in which moves are tried.
pub open spec fn key_of(m: Move) -> int {
    m.from * 50 + (if m.used_left_card {
        0int
    } else {
        25int
    }) + m.to
}

impl Game {
    /// Whether the board lets the side to move make this move: the piece is its
    /// own, the cell reached is on the grid and not held by a piece of its own,
    /// and the card used reaches that cell from the piece.
    pub open spec fn allows(self, m: Move) -> bool {
        &&& m.from < 25
        &&& m.to < 25
        &&& has_bit(self.my.pieces, m.from as u32)
        &&& !has_bit(self.my.pieces, m.to as u32)
        &&& shifted(oriented(self.my.card(m.used_left_card), self.color), m.from as int).contains(
            m.to as int,
        )
    }

    /// The moves that the board allows among the first `k` in the order of
    /// trial, in that order.
    pub open spec fn candidates_below(self, k: nat) -> Seq<Move>
        decreases k,
    {
        if k == 0 {
            Seq::empty()
        } else {
            let rest = self.candidates_below((k - 1) as nat);
            if self.allows(move_at(k - 1)) {
                rest.push(move_at(k - 1))
            } else {
                rest
            }
        }
    }

    /// All moves that the board allows, in the order of trial.
    pub open spec fn candidates(self) -> Seq<Move> {
        self.candidates_below(1250)
    }

    /// The legal moves: what the board allows while the game is running, and
    /// nothing once it is over.
    pub open spec fn legal(self) -> Seq<Move> {
        if self.status == Status::Running {
            self.candidates()
        } else {
            Seq::empty()
        }
    }

    /// Whether the two sides lie on the grid and share no cell, and both king
    /// cells are cells of the grid.
    pub open spec fn apart(self) -> bool {
        &&& self.my.pieces < 0x200_0000
        &&& self.other.pieces < 0x200_0000
        &&& self.my.pieces & self.other.pieces == 0
        &&& self.my.king < 25
        &&& self.other.king < 25
    }

    /// Whether each king stands on a cell that its side holds.
    pub open spec fn kings_stand(self) -> bool {
        &&& has_bit(self.my.pieces, self.my.king as u32)
        &&& has_bit(self.other.pieces, self.other.king as u32)
    }

    /// The invariants of the board: the sides are apart and each has its king.
    pub open spec fn board_ok(self) -> bool {
        self.apart() && self.kings_stand()
    }

    /// Whether the position is a valid position: the sides are apart, and while
    /// the game is running each has its king and the side to move has a move.
    pub open spec fn valid(self) -> bool {
        &&& self.apart()
        &&& self.status == Status::Running ==> self.kings_stand() && self.candidates().len() > 0
    }

    /// Whether a move wins the game at once: it takes the other king, or it
    /// brings the mover's king to its goal.
    pub open spec fn wins(self, m: Move) -> bool {
        m.to == self.other.king || (m.from == self.my.king && m.to == self.color.goal())
    }

    /// The board after a move, with the sides changed round and the outcome not
    /// yet judged: the piece has gone to the cell reached, a piece of the other
    /// side on that cell is taken, and the card used has changed places with the
    /// card on the table.
    pub open spec fn moved(self, m: Move) -> Game {
        let mover = Player {
            cards: if m.used_left_card {
                [self.table_card, self.my.cards[1]]
            } else {
                [self.my.cards[0], self.table_card]
            },
            pieces: with_bit(without_bit(self.my.pieces, m.from as u32), m.to as u32),
            king: if m.from == self.my.king {
                m.to
            } else {
                self.my.king
            },
        };
        let waiting = Player {
            cards: self.other.cards,
            pieces: without_bit(self.other.pieces, m.to as u32),
            king: self.other.king,
        };
        Game {
            my: waiting,
            other: mover,
            table_card: self.my.card(m.used_left_card),
            color: self.color.opponent(),
            status: self.status,
        }
    }

    /// The position after a move. The mover has won if the move wins at once or
    /// leaves the other side without a move; else the game runs on.
    pub open spec fn after(self, m: Move) -> Game {
        let next = self.moved(m);
        Game {
            status: if self.wins(m) || next.candidates().len() == 0 {
                self.color.victory()
            } else {
                Status::Running
            },
            ..next
        }
    }
}

/// The moves that the board allows do not change where none is allowed.
pub proof fn lemma_none_allowed(g: Game, lo: nat, hi: nat)
    requires
        lo <= hi,
        forall|k: int| lo <= k < hi ==> !g.allows(#[trigger] move_at(k)),
    ensures
        g.candidates_below(hi) == g.candidates_below(lo),
    decreases hi - lo,
{
    if lo < hi {
        lemma_none_allowed(g, lo, (hi - 1) as nat);
    }
}

/// A move on the grid stands at its own place in the order of trial.
pub proof fn lemma_key_of(m: Move)
    requires
        m.from < 25,
        m.to < 25,
    ensures
        0 <= key_of(m) < 1250,
        move_at(key_of(m)) == m,
{
}

/// The moves allowed among the first `k` are exactly the allowed moves whose
/// place is below `k`, and they stand in rising order of their places.
pub proof fn lemma_candidates_below(g: Game, k: nat)
    requires
        k <= 1250,
    ensures
        forall|m: Move| #[trigger]
            g.candidates_below(k).contains(m) <==> g.allows(m) && key_of(m) < k,
        forall|i: int, j: int|
            0 <= i < j < g.candidates_below(k).len() ==> key_of(
                #[trigger] g.candidates_below(k)[i],
            ) < key_of(#[trigger] g.candidates_below(k)[j]),
        forall|i: int|
            0 <= i < g.candidates_below(k).len() ==> key_of(#[trigger] g.candidates_below(k)[i])
                < k,
    decreases k,
{
    if k > 0 {
        let rest = g.candidates_below((k - 1) as nat);
        let last = move_at(k - 1);
        lemma_candidates_below(g, (k - 1) as nat);
        assert(key_of(last) == k - 1);
        assert forall|m: Move| #[trigger]
            g.candidates_below(k).contains(m) <==> g.allows(m) && key_of(m) < k by {
            if g.allows(last) {
                assert(rest.push(last).last() == last);
                if rest.contains(m) {
                    let i = choose|i: int| 0 <= i < rest.len() && rest[i] == m;
                    assert(rest.push(last)[i] == m);
                }
            }
        }
    }
}

/// The legal moves are exactly the moves that the board allows while the game
/// is running, each listed once, in rising order of their places.
pub proof fn lemma_legal_moves(g: Game)
    ensures
        forall|m: Move| #[trigger]
            g.legal().contains(m) <==> g.status == Status::Running && g.allows(m),
        forall|i: int, j: int|
            0 <= i < j < g.legal().len() ==> key_of(#[trigger] g.legal()[i]) < key_of(
                #[trigger] g.legal()[j],
            ),
{
    lemma_candidates_below(g, 1250);
}

/// The cell that a word names: a letter from `a` to `e` for the column, from
/// the left, and a digit from `1` to `5` for the row, from the top. So `a1` is
/// cell 0, `c3` the centre and `e5` cell 24.
pub open spec fn cell_named(text: Seq<char>) -> Option<u8> {
    if text.len() == 2 && 'a' <= text[0] <= 'e' && '1' <= text[1] <= '5' {
        Some(((text[1] as u32 - '1' as u32) * 5 + (text[0] as u32 - 'a' as u32)) as u8)
    } else {
        None
    }
}

/// Reads the name of a cell: a letter from `a` to `e` for the column and a
/// digit from `1` to `5` for the row.
pub fn parse_cell(text: &str) -> (r: Option<u8>)
    ensures
        r == cell_named(text@),
        r matches Some(cell) ==> cell < 25,
{
    if text.unicode_len() != 2 {
        return None;
    }
    let column = text.get_char(0) as u32;
    let row = text.get_char(1) as u32;
    if 'a' as u32 <= column && column <= 'e' as u32 && '1' as u32 <= row && row <= '5' as u32 {
        Some(((row - '1' as u32) * 5 + (column - 'a' as u32)) as u8)
    } else {
        None
    }
}

/// The pattern of a card as `color` plays it.
pub fn oriented_pattern(card: Card, color: Color) -> (r: Pattern)
    ensures
        r@ == oriented(card, color),
{
    let pattern = card.get_moves();
    let white = match color {
        Color::White => true,
        Color::Black => false,
    };
    if card.is_white() == white {
        pattern
    } else {
        reverse(&pattern)
    }
}

impl Game {
    /// The moves that the board allows, in the order of trial.
    fn gen_candidates(&self) -> (r: Vec<Move>)
        requires
            self.apart(),
        ensures
            r@ == self.candidates(),
    {
        let mut out: Vec<Move> = Vec::new();
        let mut from: u8 = 0;
        while from < 25
            invariant
                from <= 25,
                out@ == self.candidates_below((from * 50) as nat),
            decreases 25 - from,
        {
            if test_bit(self.my.pieces, from) {
                let mut slot: u8 = 0;
                while slot < 2
                    invariant
                        from < 25,
                        slot <= 2,
                        has_bit(self.my.pieces, from as u32),
                        out@ == self.candidates_below((from * 50 + slot * 25) as nat),
                    decreases 2 - slot,
                {
                    let card = if slot == 0 {
                        self.my.cards[0]
                    } else {
                        self.my.cards[1]
                    };
                    let reach = shift_bitmap(&oriented_pattern(card, self.color), from as usize);
                    let mut to: u8 = 0;
                    while to < 25
                        invariant
                            from < 25,
                            slot < 2,
                            to <= 25,
                            has_bit(self.my.pieces, from as u32),
                            card == self.my.card(slot == 0),
                            reach@ == shifted(oriented(card, self.color), from as int),
                            out@ == self.candidates_below((from * 50 + slot * 25 + to) as nat),
                        decreases 25 - to,
                    {
                        let ghost k = (from * 50 + slot * 25 + to) as int;
                        assert(move_at(k) == Move { from, to, used_left_card: slot == 0 });
                        if reach.get(to as usize) && !test_bit(self.my.pieces, to) {
                            out.push(Move { from, to, used_left_card: slot == 0 });
                        }
                        to += 1;
                    }
                    slot += 1;
                }
            } else {
                proof {
                    lemma_none_allowed(*self, (from * 50) as nat, (from * 50 + 50) as nat);
                }
            }
            from += 1;
        }
        out
    }

    /// The legal moves of the side to move, in the order of trial: by the cell
    /// left, then the left card before the right one, then by the cell reached.
    /// There are none once the game is over.
    pub fn gen_moves(&self) -> (r: Vec<Move>)
        requires
            self.valid(),
        ensures
            r@ == self.legal(),
    {
        match self.status {
            Status::Running => self.gen_candidates(),
            _ => Vec::new(),
        }
    }
}

/// The position in which a game starts with the five cards given: white holds
/// the first two and stands on the bottom row, black holds the next two and
/// stands on the top row, each king in the middle of its row, and the last card
/// lies on the table. The side for which the card on the table was drawn moves
/// first.
pub open spec fn opening(cards: Seq<Card>) -> Game {
    let white = Player { cards: [cards[0], cards[1]], pieces: 0x1F0_0000, king: 22 };
    let black = Player { cards: [cards[2], cards[3]], pieces: 0x1F, king: 2 };
    let first = if cards[4].white() {
        Game {
            my: white,
            other: black,
            table_card: cards[4],
            color: Color::White,
            status: Status::Running,
        }
    } else {
        Game {
            my: black,
            other: white,
            table_card: cards[4],
            color: Color::Black,
            status: Status::Running,
        }
    };
    Game {
        status: if first.candidates().len() == 0 {
            first.color.opponent().victory()
        } else {
            Status::Running
        },
        ..first
    }
}

impl Color {
    /// The other colour.
    pub fn other(&self) -> (r: Color)
        ensures
            r == self.opponent(),
    {
        match self {
            Color::White => Color::Black,
            Color::Black => Color::White,
        }
    }

    /// The outcome in which this colour has won.
    pub fn win(&self) -> (r: Status)
        ensures
            r == self.victory(),
    {
        match self {
            Color::White => Status::FirstWins,
            Color::Black => Status::SecondWins,
        }
    }
}

impl Game {
    /// The position in which a game starts with the five cards given, or `None`
    /// if there are not five of them.
    pub fn from_cards(cards: &Vec<Card>) -> (r: Option<Game>)
        ensures
            r is Some <==> cards@.len() == 5,
            r matches Some(g) ==> g == opening(cards@) && g.valid() && g.board_ok(),
    {
        if cards.len() != 5 {
            return None;
        }
        let white = Player { cards: [cards[0], cards[1]], pieces: 0x1F0_0000, king: 22 };
        let black = Player { cards: [cards[2], cards[3]], pieces: 0x1F, king: 2 };
        let table_card = cards[4];
        let mut game = if table_card.is_white() {
            Game { my: white, other: black, table_card, color: Color::White, status: Status::Running }
        } else {
            Game { my: black, other: white, table_card, color: Color::Black, status: Status::Running }
        };
        assert(game.board_ok()) by {
            assert(0x1F0_0000u32 & 0x1Fu32 == 0) by (bit_vector);
            assert(0x1Fu32 & 0x1F0_0000u32 == 0) by (bit_vector);
            assert(has_bit(0x1F0_0000u32, 22)) by (bit_vector);
            assert(has_bit(0x1Fu32, 2)) by (bit_vector);
        }
        if game.gen_candidates().len() == 0 {
            game.status = game.color.other().win();
        }
        Some(game)
    }

    /// A new game with five cards drawn at random.
    pub fn new() -> (r: Game)
        ensures
            r.valid(),
            r.board_ok(),
            exists|cards: Seq<Card>|
                cards.len() == 5 && cards.no_duplicates() && r == #[trigger] opening(cards),
    {
        let cards = draw_cards();
        match Game::from_cards(&cards) {
            Some(game) => game,
            None => unreached(),
        }
    }

    /// Whether the game is still running.
    pub fn in_progress(&self) -> (r: bool)
        ensures
            r == (self.status == Status::Running),
    {
        match self.status {
            Status::Running => true,
            _ => false,
        }
    }

    /// The two sides by colour: white first, then black.
    pub fn get_white_black(&self) -> (r: (Player, Player))
        ensures
            r == if self.color == Color::White {
                (self.my, self.other)
            } else {
                (self.other, self.my)
            },
    {
        match self.color {
            Color::White => (self.my, self.other),
            Color::Black => (self.other, self.my),
        }
    }

    /// Whether a move is legal in this position.
    pub fn is_legal(&self, m: &Move) -> (r: bool)
        requires
            self.valid(),
        ensures
            r == self.legal().contains(*m),
            r == (self.status == Status::Running && self.allows(*m)),
    {
        proof {
            lemma_legal_moves(*self);
        }
        if !self.in_progress() || m.from >= 25 || m.to >= 25 {
            return false;
        }
        if !test_bit(self.my.pieces, m.from) || test_bit(self.my.pieces, m.to) {
            return false;
        }
        let card = if m.used_left_card {
            self.my.cards[0]
        } else {
            self.my.cards[1]
        };
        let reach = shift_bitmap(&oriented_pattern(card, self.color), m.from as usize);
        reach.get(m.to as usize)
    }

    /// Makes a legal move and returns the position that it leads to: the piece
    /// goes to the cell reached and takes what the other side had there, the
    /// card used changes places with the card on the table, and the other side
    /// is to move. The mover has won if the move takes the other king, brings
    /// the mover's king to its goal, or leaves the other side without a move.
    ///
    /// The position returned is valid. Its board keeps every invariant, both
    /// kings on cells of their own sides among them, unless the move has taken
    /// the other king.
    pub fn take_turn(&self, m: &Move) -> (r: Game)
        requires
            self.valid(),
            self.legal().contains(*m),
        ensures
            r == self.after(*m),
            r.valid(),
            m.to != self.other.king ==> r.board_ok(),
    {
        proof {
            lemma_legal_moves(*self);
            lemma_move_is_sound(*self, *m);
        }
        let goal: u8 = match self.color {
            Color::White => 2,
            Color::Black => 22,
        };
        let wins = m.to == self.other.king || (m.from == self.my.king && m.to == goal);
        let (cards, used) = if m.used_left_card {
            ([self.table_card, self.my.cards[1]], self.my.cards[0])
        } else {
            ([self.my.cards[0], self.table_card], self.my.cards[1])
        };
        let mover = Player {
            cards,
            pieces: set_bit(clear_bit(self.my.pieces, m.from), m.to),
            king: if m.from == self.my.king {
                m.to
            } else {
                self.my.king
            },
        };
        let waiting = Player {
            cards: self.other.cards,
            pieces: clear_bit(self.other.pieces, m.to),
            king: self.other.king,
        };
        let mut next = Game {
            my: waiting,
            other: mover,
            table_card: used,
            color: self.color.other(),
            status: self.status,
        };
        if wins || next.gen_candidates().len() == 0 {
            next.status = self.color.win();
        }
        next
    }
}

/// A move that the board allows in a position whose sides are apart leaves
/// them apart; the mover's king stands where the mover's pieces are, and the
/// other king too unless the move has taken it.
pub proof fn lemma_move_is_sound(g: Game, m: Move)
    requires
        g.apart(),
        g.kings_stand(),
        g.allows(m),
    ensures
        g.moved(m).apart(),
        has_bit(g.moved(m).other.pieces, g.moved(m).other.king as u32),
        m.to != g.other.king ==> g.moved(m).kings_stand(),
{
    let from = m.from as u32;
    let to = m.to as u32;
    let lifted = without_bit(g.my.pieces, from);
    lemma_stays_on_grid(g.my.pieces, from);
    lemma_stays_on_grid(lifted, to);
    lemma_stays_on_grid(g.other.pieces, to);
    lemma_move_keeps_apart(g.my.pieces, g.other.pieces, from, to);
    let a = with_bit(lifted, to);
    let b = without_bit(g.other.pieces, to);
    assert(b & a == 0) by (bit_vector)
        requires
            a & b == 0,
    ;
    lemma_with_bit(lifted, to, to);
    lemma_with_bit(lifted, to, g.my.king as u32);
    lemma_without_bit(g.my.pieces, from, g.my.king as u32);
    lemma_without_bit(g.other.pieces, to, g.other.king as u32);
}

/// Every legal move leads to a valid position, and to one whose board keeps
/// every invariant (the sides apart, each king on a cell of its own side)
/// unless the move takes the other king, which ends the game.
pub proof fn lemma_legal_move_keeps_invariants(g: Game, m: Move)
    requires
        g.valid(),
        g.legal().contains(m),
    ensures
        g.after(m).valid(),
        m.to != g.other.king ==> g.after(m).board_ok(),
{
    lemma_legal_moves(g);
    lemma_move_is_sound(g, m);
}

impl Game {
    /// A position as the evaluator that counts pieces sees it, from the side
    /// that has just moved: the pieces of that side less the pieces of the side
    /// to move, and a game won by either side counted for or against on top.
    pub open spec fn material(self) -> int {
        let pieces = count_below(self.other.pieces, 25) - count_below(self.my.pieces, 25);
        if self.status == self.color.opponent().victory() {
            pieces + 100
        } else if self.status == self.color.victory() {
            pieces - 100
        } else {
            pieces
        }
    }

    /// Turns a move asked for by card and cells into a move of the game. The
    /// card must be one of the two that the side to move holds, the left one
    /// taken where both are the same, and the move must be legal.
    pub fn request_move(&self, card: Card, from: u8, to: u8) -> (r: Result<Move, Refusal>)
        requires
            self.valid(),
        ensures
            match r {
                Ok(m) => {
                    &&& m == Move { from, to, used_left_card: self.my.cards[0] == card }
                    &&& self.my.card(m.used_left_card) == card
                    &&& self.legal().contains(m)
                },
                Err(Refusal::NotInHand) => self.my.cards[0] != card && self.my.cards[1] != card,
                Err(Refusal::NotLegal) => {
                    &&& self.my.cards[0] == card || self.my.cards[1] == card
                    &&& !self.legal().contains(
                        Move { from, to, used_left_card: self.my.cards[0] == card },
                    )
                },
            },
    {
        let left = self.my.cards[0] == card;
        if !left && !(self.my.cards[1] == card) {
            return Err(Refusal::NotInHand);
        }
        let m = Move { from, to, used_left_card: left };
        if self.is_legal(&m) {
            Ok(m)
        } else {
            Err(Refusal::NotLegal)
        }
    }
}

impl Game {
    /// Reads a move typed in as three words: the card, the cell to leave and
    /// the cell to reach. The cell to reach is looked at first, then the cell to
    /// leave, then the card; then the move is asked for as `request_move` does.
    pub fn read_move(&self, card: &str, from: &str, to: &str) -> (r: Result<Move, InputError>)
        requires
            self.valid(),
        ensures
            match r {
                Ok(m) => {
                    &&& cell_named(to@) == Some(m.to)
                    &&& cell_named(from@) == Some(m.from)
                    &&& named(card) matches Some(c) && m.used_left_card == (self.my.cards[0] == c)
                        && self.my.card(m.used_left_card) == c
                    &&& self.legal().contains(m)
                },
                Err(InputError::BadTo) => cell_named(to@) is None,
                Err(InputError::BadFrom) => cell_named(to@) is Some && cell_named(from@) is None,
                Err(InputError::UnknownCard) => {
                    &&& cell_named(to@) is Some
                    &&& cell_named(from@) is Some
                    &&& named(card) is None
                },
                Err(InputError::NotInHand) => {
                    &&& cell_named(to@) is Some
                    &&& cell_named(from@) is Some
                    &&& named(card) matches Some(c) && self.my.cards[0] != c && self.my.cards[1]
                        != c
                },
                Err(InputError::NotLegal) => {
                    &&& cell_named(to@) matches Some(t) && cell_named(from@) matches Some(f)
                        && named(card) matches Some(c) && (self.my.cards[0] == c
                        || self.my.cards[1] == c) && !self.legal().contains(
                        Move { from: f, to: t, used_left_card: self.my.cards[0] == c },
                    )
                },
            },
    {
        let to_cell = match parse_cell(to) {
            Some(cell) => cell,
            None => {
                return Err(InputError::BadTo);
            },
        };
        let from_cell = match parse_cell(from) {
            Some(cell) => cell,
            None => {
                return Err(InputError::BadFrom);
            },
        };
        let held = match Card::from_text(card) {
            Some(held) => held,
            None => {
                return Err(InputError::UnknownCard);
            },
        };
        match self.request_move(held, from_cell, to_cell) {
            Ok(m) => Ok(m),
            Err(Refusal::NotInHand) => Err(InputError::NotInHand),
            Err(Refusal::NotLegal) => Err(InputError::NotLegal),
        }
    }
}

impl Evaluator<Game> for Material {
    open spec fn wf(&self) -> bool {
        true
    }

    open spec fn score(&self, state: Game) -> int {
        state.material()
    }

    fn evaluate(&self, state: &Game) -> (r: i64) {
        let mine = count_bits(state.my.pieces) as i64;
        let theirs = count_bits(state.other.pieces) as i64;
        let pieces = theirs - mine;
        let (won, lost) = match state.color {
            Color::White => (Status::SecondWins, Status::FirstWins),
            Color::Black => (Status::FirstWins, Status::SecondWins),
        };
        if state.status == won {
            pieces + WIN_SCORE
        } else if state.status == lost {
            pieces - WIN_SCORE
        } else {
            pieces
        }
    }
}

/// Number of numbers in the row of a position: four planes of twenty-five cells.
pub const FEATURES: usize = 100;

impl Game {
    /// The row of a position for a network, one plane of twenty-five cells after
    /// another: the pieces of the side to move, its king, the pieces of the
    /// other side, its king. A cell counts 1 in a plane if it holds what the
    /// plane shows, and 0 if not.
    pub open spec fn plane_cell(self, k: int) -> i32 {
        let held = if 0 <= k < 25 {
            has_bit(self.my.pieces, k as u32)
        } else if 25 <= k < 50 {
            self.my.king == k - 25
        } else if 50 <= k < 75 {
            has_bit(self.other.pieces, (k - 50) as u32)
        } else if 75 <= k < 100 {
            self.other.king == k - 75
        } else {
            false
        };
        if held {
            1
        } else {
            0
        }
    }
}

impl Featured for Game {
    open spec fn feature(state: Game, k: int) -> i32 {
        state.plane_cell(k)
    }

    fn feature_at(&self, k: usize) -> (r: i32) {
        let held = if k < 25 {
            test_bit(self.my.pieces, k as u8)
        } else if k < 50 {
            self.my.king as usize == k - 25
        } else if k < 75 {
            test_bit(self.other.pieces, (k - 50) as u8)
        } else if k < 100 {
            self.other.king as usize == k - 75
        } else {
            false
        };
        if held {
            1
        } else {
            0
        }
    }
}

impl View for Game {
    type V = Game;

    open spec fn view(&self) -> Game {
        *self
    }
}

impl Position for Game {
    type Move = Move;

    open spec fn wf(&self) -> bool {
        self.valid()
    }

    open spec fn moves(state: Game) -> Seq<Move> {
        state.legal()
    }

    open spec fn after(state: Game, m: Move) -> Game {
        state.after(m)
    }

    open spec fn status_of(state: Game) -> Status {
        state.status
    }

    open spec fn mover(state: Game) -> Side {
        match state.color {
            Color::White => Side::First,
            Color::Black => Side::Second,
        }
    }

    proof fn lemma_running_iff_moves(&self) {
    }

    fn status(&self) -> Status {
        self.status
    }

    fn current_player(&self) -> Side {
        match self.color {
            Color::White => Side::First,
            Color::Black => Side::Second,
        }
    }

    fn legal_moves(&self) -> Vec<Move> {
        self.gen_moves()
    }

    fn apply(&self, m: &Move) -> Result<Game, InvalidMove> {
        if self.is_legal(m) {
            Ok(self.take_turn(m))
        } else {
            Err(InvalidMove)
        }
    }
}

} // verus!
