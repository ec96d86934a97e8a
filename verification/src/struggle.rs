//! Bookkeeping for a trick-taking card game played against a server: who plays,
//! what is known of each hand, and what the last player did. There is no search
//! here; the module follows the messages it is given.

use vstd::prelude::*;
use vstd::string::StringExecFns;

verus! {

/// The four suits.
#[derive(Debug, PartialEq, Eq, Clone, Copy, Structural)]
pub enum Suit {
    Club,
    Heart,
    Spade,
    Diamond,
}

/// A card of the deck: one of thirteen values in a suit, or a joker.
#[derive(Debug, PartialEq, Eq, Clone, Copy, Structural)]
pub enum Card {
    SuitCard { suit: Suit, value: u8 },
    Joker { id: u8 },
}

/// What is known of one card in another player's hand.
#[derive(Debug, PartialEq, Eq, Clone, Copy, Structural)]
pub enum CardPlace {
    Unknown,
    Known(Card),
}

/// A player at the table.
#[derive(Debug)]
pub struct PlayerInfo {
    pub name: String,
    pub index: usize,
    pub hand: Vec<CardPlace>,
}

/// What a player did on the last turn, as the server reports it.
#[derive(Debug)]
pub struct LastAction {
    pub action_type: String,
    pub card: Option<Card>,
    pub cards: Vec<Card>,
}

/// One player's part of a server message.
#[derive(Debug)]
pub struct PlayerState {
    pub name: String,
    pub last_action: Option<LastAction>,
}

/// The table as the server reports it.
#[derive(Debug)]
pub struct TableState {
    pub has_moves: bool,
    pub deck_size: u32,
    pub current_player: usize,
    pub players: Vec<PlayerState>,
    pub center: Vec<Card>,
}

/// A message from the server: the receiver's hand and the state of the table.
#[derive(Debug)]
pub struct GameMessage {
    pub hand: Vec<Card>,
    pub game_state: TableState,
}

/// What a player did: drew a card, seen or unseen, or played a trick.
#[derive(Debug)]
pub enum Action {
    Draw(Option<Card>),
    Trick(Vec<Card>),
}

/// The game as one player sees it.
#[derive(Debug)]
pub struct Game {
    pub my_hand: Vec<Card>,
    pub deck_size: u32,
    pub center: Vec<Card>,
    pub unseen_cards: Vec<Card>,
    pub players: Vec<PlayerInfo>,
    pub current_player_index: usize,
    pub has_moves: bool,
}

/// Number of cards in the deck at the start: thirteen in each suit and four
/// jokers.
pub const DECK_SIZE: u32 = 56;

/// The suit of the `k`-th run of thirteen cards in the starting deck.
pub open spec fn suit_at(k: int) -> Suit {
    if k == 0 {
        Suit::Club
    } else if k == 1 {
        Suit::Heart
    } else if k == 2 {
        Suit::Spade
    } else {
        Suit::Diamond
    }
}

/// The starting deck by position: the suits one after another, each with the
/// values 2 to 14 in rising order, then the jokers 1 to 4.
pub open spec fn start_deck() -> Seq<Card> {
    Seq::new(
        56,
        |k: int|
            if k < 52 {
                Card::SuitCard { suit: suit_at(k / 13), value: (2 + k % 13) as u8 }
            } else {
                Card::Joker { id: (k - 51) as u8 }
            },
    )
}

/// The seat before `current` at a table of `seats` players, going round.
pub open spec fn previous_seat(current: int, seats: int) -> int {
    (current + seats - 1) % seats
}

/// Whether a reported action names one of the two kinds of action there are.
pub open spec fn known_action(action: LastAction) -> bool {
    action.action_type@ == "draw"@ || action.action_type@ == "play"@
}

/// Whether `r` is what the reported action says: a draw carries the card drawn,
/// if it was shown; a play carries the cards of the trick.
pub open spec fn reads_as(action: LastAction, r: Action) -> bool {
    &&& action.action_type@ == "draw"@ ==> r == Action::Draw(action.card)
    &&& action.action_type@ == "play"@ ==> (r matches Action::Trick(cards) && cards@
        == action.cards@)
}

impl Action {
    /// Reads a reported action: a draw carries the card drawn, if it was shown;
    /// a play carries the cards of the trick.
    pub fn from(action: &LastAction) -> (r: Action)
        requires
            known_action(*action),
        ensures
            reads_as(*action, r),
    {
        proof {
            reveal_strlit("draw");
            reveal_strlit("play");
            assert("draw"@[0] != "play"@[0]);
        }
        let draw = String::from_str("draw");
        if action.action_type == draw {
            Action::Draw(action.card)
        } else {
            Action::Trick(copy_cards(&action.cards))
        }
    }
}

/// The seat before `current` is the one before `current % seats`, and the last
/// seat when that is the first.
proof fn lemma_previous_seat(current: int, seats: int)
    requires
        0 <= current,
        0 < seats,
    ensures
        previous_seat(current, seats) == if current % seats == 0 {
            seats - 1
        } else {
            current % seats - 1
        },
{
    let q = current / seats;
    let t = current % seats;
    vstd::arithmetic::div_mod::lemma_fundamental_div_mod(current, seats);
    if t == 0 {
        vstd::arithmetic::div_mod::lemma_fundamental_div_mod_converse(
            current + seats - 1,
            seats,
            q,
            seats - 1,
        );
    } else {
        assert((q + 1) * seats == q * seats + seats) by (nonlinear_arith);
        vstd::arithmetic::div_mod::lemma_fundamental_div_mod_converse(
            current + seats - 1,
            seats,
            q + 1,
            t - 1,
        );
    }
}

/// A copy of a list of cards.
fn copy_cards(cards: &Vec<Card>) -> (r: Vec<Card>)
    ensures
        r@ == cards@,
{
    let mut r: Vec<Card> = Vec::new();
    let mut i: usize = 0;
    while i < cards.len()
        invariant
            i <= cards.len(),
            r@ == cards@.take(i as int),
        decreases cards.len() - i,
    {
        r.push(cards[i]);
        i += 1;
    }
    r
}

impl Game {
    /// A game before it starts: nobody at the table, the full deck, nothing
    /// seen.
    pub fn new() -> (r: Game)
        ensures
            r.my_hand@.len() == 0,
            r.deck_size == 56,
            r.center@.len() == 0,
            r.unseen_cards@.len() == 0,
            r.players@.len() == 0,
            r.current_player_index == 0,
            r.has_moves,
    {
        Game {
            my_hand: Vec::new(),
            deck_size: DECK_SIZE,
            center: Vec::new(),
            unseen_cards: Vec::new(),
            players: Vec::new(),
            current_player_index: 0,
            has_moves: true,
        }
    }

    /// Seats the players in the order given. Each takes the seat of their place
    /// in the list and holds two cards of which nothing is known. Whoever sat at
    /// the table before is gone; the rest of the game is left as it was.
    pub fn start(&mut self, players: Vec<String>)
        ensures
            final(self).players@.len() == players@.len(),
            forall|i: int|
                0 <= i < players@.len() ==> {
                    &&& (#[trigger] final(self).players@[i]).name@ == players@[i]@
                    &&& final(self).players@[i].index == i
                    &&& final(self).players@[i].hand@ == seq![CardPlace::Unknown, CardPlace::Unknown]
                },
            final(self).my_hand == old(self).my_hand,
            final(self).deck_size == old(self).deck_size,
            final(self).center == old(self).center,
            final(self).unseen_cards == old(self).unseen_cards,
            final(self).current_player_index == old(self).current_player_index,
            final(self).has_moves == old(self).has_moves,
    {
        let mut seated: Vec<PlayerInfo> = Vec::new();
        let mut i: usize = 0;
        while i < players.len()
            invariant
                i <= players.len(),
                seated@.len() == i,
                forall|k: int|
                    0 <= k < i ==> {
                        &&& (#[trigger] seated@[k]).name@ == players@[k]@
                        &&& seated@[k].index == k
                        &&& seated@[k].hand@ == seq![CardPlace::Unknown, CardPlace::Unknown]
                    },
            decreases players.len() - i,
        {
            let mut hand: Vec<CardPlace> = Vec::new();
            hand.push(CardPlace::Unknown);
            hand.push(CardPlace::Unknown);
            seated.push(PlayerInfo { name: players[i].clone(), index: i, hand });
            i += 1;
        }
        self.players = seated;
    }

    /// Whether a message can be taken in: somebody sits at the table, the
    /// message reports on the player who moved last, and what that player did,
    /// if anything, is of a known kind.
    pub open spec fn fits(&self, message: GameMessage) -> bool {
        let seats = self.players@.len() as int;
        let last = previous_seat(message.game_state.current_player as int, seats);
        &&& seats > 0
        &&& last < message.game_state.players@.len()
        &&& message.game_state.players@[last].last_action matches Some(action) ==> known_action(
            action,
        )
    }

    /// Takes in a message from the server: the hand, the size of the deck,
    /// whose turn it is and whether there are moves come from the message; the
    /// players, the centre and the unseen cards stay. Returns what the player
    /// before the current one did on the last turn, if the message says so.
    pub fn update(&mut self, message: GameMessage) -> (r: Option<Action>)
        requires
            old(self).fits(message),
        ensures
            final(self).my_hand@ == message.hand@,
            final(self).has_moves == message.game_state.has_moves,
            final(self).deck_size == message.game_state.deck_size,
            final(self).current_player_index == message.game_state.current_player,
            final(self).players == old(self).players,
            final(self).center == old(self).center,
            final(self).unseen_cards == old(self).unseen_cards,
            ({
                let last = previous_seat(
                    message.game_state.current_player as int,
                    old(self).players@.len() as int,
                );
                match message.game_state.players@[last].last_action {
                    Some(action) => r matches Some(taken) && reads_as(action, taken),
                    None => r is None,
                }
            }),
    {
        let seats = self.players.len();
        let turn = message.game_state.current_player % seats;
        let last = if turn == 0 {
            seats - 1
        } else {
            turn - 1
        };
        proof {
            lemma_previous_seat(message.game_state.current_player as int, seats as int);
        }
        let taken = match &message.game_state.players[last].last_action {
            Some(action) => Some(Action::from(action)),
            None => None,
        };
        self.has_moves = message.game_state.has_moves;
        self.deck_size = message.game_state.deck_size;
        self.current_player_index = message.game_state.current_player;
        self.my_hand = message.hand;
        taken
    }

    /// The deck that a game starts with.
    pub fn get_start_deck() -> (r: Vec<Card>)
        ensures
            r@ == start_deck(),
    {
        let mut deck: Vec<Card> = Vec::new();
        let mut s: usize = 0;
        while s < 4
            invariant
                s <= 4,
                deck@.len() == 13 * s,
                forall|k: int| 0 <= k < deck@.len() ==> deck@[k] == start_deck()[k],
            decreases 4 - s,
        {
            let suit = if s == 0 {
                Suit::Club
            } else if s == 1 {
                Suit::Heart
            } else if s == 2 {
                Suit::Spade
            } else {
                Suit::Diamond
            };
            let mut value: u8 = 2;
            while value < 15
                invariant
                    2 <= value <= 15,
                    s < 4,
                    suit == suit_at(s as int),
                    deck@.len() == 13 * s + (value - 2),
                    forall|k: int| 0 <= k < deck@.len() ==> deck@[k] == start_deck()[k],
                decreases 15 - value,
            {
                deck.push(Card::SuitCard { suit, value });
                value += 1;
            }
            s += 1;
        }
        let mut id: u8 = 1;
        while id < 5
            invariant
                1 <= id <= 5,
                deck@.len() == 51 + id,
                forall|k: int| 0 <= k < deck@.len() ==> deck@[k] == start_deck()[k],
            decreases 5 - id,
        {
            deck.push(Card::Joker { id });
            id += 1;
        }
        deck
    }
}

} // verus!
