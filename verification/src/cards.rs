//! The sixteen move cards: which cells each one reaches, which side it was drawn
//! for, and how five of them are dealt for a game.

use crate::pattern::Pattern;
use rand::Rng;
use vstd::prelude::*;
use vstd::string::StringExecFns;

verus! {

/// A move card. The set is closed: these sixteen and no others.
#[derive(Debug, PartialEq, Eq, Clone, Copy, Structural)]
pub enum Card {
    Boar,
    Cobra,
    Crab,
    Crane,
    Dragon,
    Eel,
    Elephant,
    Frog,
    Goose,
    Horse,
    Mantis,
    Monkey,
    Ox,
    Rabbit,
    Rooster,
    Tiger,
}

/// Number of different cards.
pub const CARD_COUNT: usize = 16;

/// Number of cards dealt for one game: two for each side and one on the table.
pub const HAND_SIZE: usize = 5;

impl Card {
    /// The cells that the card reaches from a piece on the centre of the grid,
    /// as seen by the side the card was drawn for.
    pub open spec fn cells(self) -> Set<int> {
        match self {
            Card::Boar => set![7int, 11int, 13int],
            Card::Cobra => set![8int, 11int, 18int],
            Card::Crab => set![7int, 10int, 14int],
            Card::Crane => set![7int, 16int, 18int],
            Card::Dragon => set![5int, 9int, 16int, 18int],
            Card::Eel => set![6int, 13int, 16int],
            Card::Elephant => set![6int, 8int, 11int, 13int],
            Card::Frog => set![6int, 10int, 18int],
            Card::Goose => set![6int, 11int, 13int, 18int],
            Card::Horse => set![7int, 11int, 17int],
            Card::Mantis => set![6int, 8int, 17int],
            Card::Monkey => set![6int, 8int, 16int, 18int],
            Card::Ox => set![7int, 13int, 17int],
            Card::Rabbit => set![8int, 14int, 16int],
            Card::Rooster => set![8int, 11int, 13int, 16int],
            Card::Tiger => set![2int, 17int],
        }
    }

    /// Whether the card was drawn for white.
    pub open spec fn white(self) -> bool {
        match self {
            Card::Boar => true,
            Card::Cobra => true,
            Card::Crab => false,
            Card::Crane => false,
            Card::Dragon => true,
            Card::Eel => false,
            Card::Elephant => true,
            Card::Frog => true,
            Card::Goose => false,
            Card::Horse => true,
            Card::Mantis => true,
            Card::Monkey => false,
            Card::Ox => false,
            Card::Rabbit => false,
            Card::Rooster => true,
            Card::Tiger => false,
        }
    }

    /// The pattern of the card, anchored at the centre of the grid.
    pub fn get_moves(&self) -> (r: Pattern)
        ensures
            r@ == self.cells(),
    {
        let mut p = Pattern::new();
        match self {
            Card::Boar => {
                p.set(7, true);
                p.set(11, true);
                p.set(13, true);
            },
            Card::Cobra => {
                p.set(8, true);
                p.set(11, true);
                p.set(18, true);
            },
            Card::Crab => {
                p.set(7, true);
                p.set(10, true);
                p.set(14, true);
            },
            Card::Crane => {
                p.set(7, true);
                p.set(16, true);
                p.set(18, true);
            },
            Card::Dragon => {
                p.set(5, true);
                p.set(9, true);
                p.set(16, true);
                p.set(18, true);
            },
            Card::Eel => {
                p.set(6, true);
                p.set(13, true);
                p.set(16, true);
            },
            Card::Elephant => {
                p.set(6, true);
                p.set(8, true);
                p.set(11, true);
                p.set(13, true);
            },
            Card::Frog => {
                p.set(6, true);
                p.set(10, true);
                p.set(18, true);
            },
            Card::Goose => {
                p.set(6, true);
                p.set(11, true);
                p.set(13, true);
                p.set(18, true);
            },
            Card::Horse => {
                p.set(7, true);
                p.set(11, true);
                p.set(17, true);
            },
            Card::Mantis => {
                p.set(6, true);
                p.set(8, true);
                p.set(17, true);
            },
            Card::Monkey => {
                p.set(6, true);
                p.set(8, true);
                p.set(16, true);
                p.set(18, true);
            },
            Card::Ox => {
                p.set(7, true);
                p.set(13, true);
                p.set(17, true);
            },
            Card::Rabbit => {
                p.set(8, true);
                p.set(14, true);
                p.set(16, true);
            },
            Card::Rooster => {
                p.set(8, true);
                p.set(11, true);
                p.set(13, true);
                p.set(16, true);
            },
            Card::Tiger => {
                p.set(2, true);
                p.set(17, true);
            },
        }
        p
    }

    /// Whether the card was drawn for white. A card drawn for the other side is
    /// turned by half a turn before the side to move uses it.
    pub fn is_white(&self) -> (r: bool)
        ensures
            r == self.white(),
    {
        match self {
            Card::Boar => true,
            Card::Cobra => true,
            Card::Crab => false,
            Card::Crane => false,
            Card::Dragon => true,
            Card::Eel => false,
            Card::Elephant => true,
            Card::Frog => true,
            Card::Goose => false,
            Card::Horse => true,
            Card::Mantis => true,
            Card::Monkey => false,
            Card::Ox => false,
            Card::Rabbit => false,
            Card::Rooster => true,
            Card::Tiger => false,
        }
    }

    /// The name of the card, in small letters.
    pub open spec fn label(self) -> Seq<char> {
        match self {
            Card::Boar => "boar"@,
            Card::Cobra => "cobra"@,
            Card::Crab => "crab"@,
            Card::Crane => "crane"@,
            Card::Dragon => "dragon"@,
            Card::Eel => "eel"@,
            Card::Elephant => "elephant"@,
            Card::Frog => "frog"@,
            Card::Goose => "goose"@,
            Card::Horse => "horse"@,
            Card::Mantis => "mantis"@,
            Card::Monkey => "monkey"@,
            Card::Ox => "ox"@,
            Card::Rabbit => "rabbit"@,
            Card::Rooster => "rooster"@,
            Card::Tiger => "tiger"@,
        }
    }

    /// The place of the card in the fixed order of the cards.
    pub open spec fn place(self) -> int {
        match self {
            Card::Boar => 0,
            Card::Cobra => 1,
            Card::Crab => 2,
            Card::Crane => 3,
            Card::Dragon => 4,
            Card::Eel => 5,
            Card::Elephant => 6,
            Card::Frog => 7,
            Card::Goose => 8,
            Card::Horse => 9,
            Card::Mantis => 10,
            Card::Monkey => 11,
            Card::Ox => 12,
            Card::Rabbit => 13,
            Card::Rooster => 14,
            Card::Tiger => 15,
        }
    }

    /// The name of the card, in small letters.
    pub fn name(&self) -> (r: &'static str)
        ensures
            r@ == self.label(),
    {
        match self {
            Card::Boar => "boar",
            Card::Cobra => "cobra",
            Card::Crab => "crab",
            Card::Crane => "crane",
            Card::Dragon => "dragon",
            Card::Eel => "eel",
            Card::Elephant => "elephant",
            Card::Frog => "frog",
            Card::Goose => "goose",
            Card::Horse => "horse",
            Card::Mantis => "mantis",
            Card::Monkey => "monkey",
            Card::Ox => "ox",
            Card::Rabbit => "rabbit",
            Card::Rooster => "rooster",
            Card::Tiger => "tiger",
        }
    }

    /// The card of the name given, in small letters: the first card in the
    /// fixed order that has this name, or `None` if no card has it.
    pub fn from_text(text: &str) -> (r: Option<Card>)
        ensures
            r == named(text),
            r matches Some(card) ==> {
                &&& text@ == card.label()
                &&& forall|c: Card| c.place() < card.place() ==> text@ != c.label()
            },
            r is None <==> forall|c: Card| text@ != c.label(),
    {
        let wanted = String::from_str(text);
        let mut i: usize = 0;
        while i < 16
            invariant
                i <= 16,
                wanted@ == text@,
                forall|c: Card| c.place() < i ==> text@ != c.label(),
                named_from(text@, i as int) == named(text),
            decreases 16 - i,
        {
            let card = Card::from_index(i);
            if String::from_str(card.name()) == wanted {
                return Some(card);
            }
            i += 1;
        }
        None
    }

    /// The card that a roll selects among all sixteen. Rolls past the last card
    /// select the last card.
    pub fn from_index(i: usize) -> (r: Card)
        ensures
            r == card_at(i as int),
    {
        match i {
            0 => Card::Boar,
            1 => Card::Cobra,
            2 => Card::Crab,
            3 => Card::Crane,
            4 => Card::Dragon,
            5 => Card::Eel,
            6 => Card::Elephant,
            7 => Card::Frog,
            8 => Card::Goose,
            9 => Card::Horse,
            10 => Card::Mantis,
            11 => Card::Monkey,
            12 => Card::Ox,
            13 => Card::Rabbit,
            14 => Card::Rooster,
            _ => Card::Tiger,
        }
    }
}

/// The first card with the name `text` among the cards from place `k` on.
pub open spec fn named_from(text: Seq<char>, k: int) -> Option<Card>
    decreases 16 - k,
{
    if k >= 16 {
        None
    } else if card_at(k).label() == text {
        Some(card_at(k))
    } else {
        named_from(text, k + 1)
    }
}

/// The card that a name stands for: the first card in the fixed order with
/// this name, if there is one.
pub open spec fn named(text: &str) -> Option<Card> {
    named_from(text@, 0)
}

/// The cards in their fixed order, by position.
pub open spec fn card_at(i: int) -> Card {
    if i == 0 {
        Card::Boar
    } else if i == 1 {
        Card::Cobra
    } else if i == 2 {
        Card::Crab
    } else if i == 3 {
        Card::Crane
    } else if i == 4 {
        Card::Dragon
    } else if i == 5 {
        Card::Eel
    } else if i == 6 {
        Card::Elephant
    } else if i == 7 {
        Card::Frog
    } else if i == 8 {
        Card::Goose
    } else if i == 9 {
        Card::Horse
    } else if i == 10 {
        Card::Mantis
    } else if i == 11 {
        Card::Monkey
    } else if i == 12 {
        Card::Ox
    } else if i == 13 {
        Card::Rabbit
    } else if i == 14 {
        Card::Rooster
    } else {
        Card::Tiger
    }
}

/// The deck from which cards are dealt: all sixteen, in their fixed order.
pub open spec fn full_deck() -> Seq<Card> {
    Seq::new(16, |i: int| card_at(i))
}

/// Whether every roll points at a card that is still in the deck when its turn
/// comes: the deck holds sixteen cards and loses one with each roll.
pub open spec fn rolls_fit(rolls: Seq<usize>) -> bool {
    forall|k: int| 0 <= k < rolls.len() ==> rolls[k] < 16 - k
}

/// The hand that `rolls` deal from `deck`: each roll in turn takes the card at
/// that position out of what is left of the deck.
pub open spec fn dealt(deck: Seq<Card>, rolls: Seq<usize>) -> Seq<Card>
    decreases rolls.len(),
{
    if rolls.len() == 0 {
        Seq::empty()
    } else {
        seq![deck[rolls[0] as int]] + dealt(deck.remove(rolls[0] as int), rolls.drop_first())
    }
}

/// Calls `Rng::gen_range` on the generator that `rand::thread_rng` returns, with
/// the bounds 0 and `bound`. The result lies at or above the lower bound and
/// below the upper one; nothing else is known of it. The call panics on an empty
/// range, which `bound > 0` excludes.
#[verifier::external_body]
pub(crate) fn random_below(bound: usize) -> (r: usize)
    requires
        bound > 0,
    ensures
        r < bound,
{
    rand::thread_rng().gen_range(0, bound)
}

/// All sixteen cards in their fixed order.
pub fn deck() -> (r: Vec<Card>)
    ensures
        r@ == full_deck(),
{
    let mut r: Vec<Card> = Vec::new();
    let mut i: usize = 0;
    while i < 16
        invariant
            i <= 16,
            r@.len() == i,
            forall|k: int| 0 <= k < i ==> r@[k] == card_at(k),
        decreases 16 - i,
    {
        r.push(Card::from_index(i));
        i += 1;
    }
    r
}

/// Unfolds `dealt` at the far end: dealing with one more roll appends the card
/// which that roll takes from what the earlier rolls left.
proof fn lemma_dealt_step(deck: Seq<Card>, rolls: Seq<usize>, k: int)
    requires
        0 <= k < rolls.len(),
    ensures
        dealt(deck, rolls.take(k + 1)) == dealt(deck, rolls.take(k)).push(
            remaining(deck, rolls.take(k))[rolls[k] as int],
        ),
        remaining(deck, rolls.take(k + 1)) == remaining(deck, rolls.take(k)).remove(
            rolls[k] as int,
        ),
    decreases k,
{
    let long = rolls.take(k + 1);
    let short = rolls.take(k);
    if k == 0 {
        assert(dealt(deck.remove(long[0] as int), long.drop_first()) =~= Seq::<Card>::empty());
        assert(remaining(deck.remove(long[0] as int), long.drop_first()) == deck.remove(
            long[0] as int,
        ));
    } else {
        let rest = rolls.drop_first();
        lemma_dealt_step(deck.remove(rolls[0] as int), rest, k - 1);
        assert(long.drop_first() =~= rest.take(k));
        assert(short.drop_first() =~= rest.take(k - 1));
    }
}

/// What is left of `deck` after `rolls` have dealt from it.
pub open spec fn remaining(deck: Seq<Card>, rolls: Seq<usize>) -> Seq<Card>
    decreases rolls.len(),
{
    if rolls.len() == 0 {
        deck
    } else {
        remaining(deck.remove(rolls[0] as int), rolls.drop_first())
    }
}

/// Deals a hand from the full deck, one card for each roll: a roll takes the
/// card at that position out of what is left of the deck. Returns `None` when
/// some roll points past the end of what is left.
pub fn deal_cards(rolls: &Vec<usize>) -> (r: Option<Vec<Card>>)
    ensures
        r is Some <==> rolls_fit(rolls@),
        r is Some ==> r->0@ == dealt(full_deck(), rolls@) && r->0@.len() == rolls@.len()
            && r->0@.no_duplicates(),
{
    let mut left = deck();
    let mut hand: Vec<Card> = Vec::new();
    let mut k: usize = 0;
    while k < rolls.len()
        invariant
            k <= rolls.len(),
            rolls_fit(rolls@.take(k as int)),
            hand@ == dealt(full_deck(), rolls@.take(k as int)),
            left@ == remaining(full_deck(), rolls@.take(k as int)),
            hand@.len() == k,
            left@.len() == 16 - k,
            hand@.no_duplicates(),
            left@.no_duplicates(),
            forall|i: int, j: int| 0 <= i < hand@.len() && 0 <= j < left@.len() ==> hand@[i] != left@[j],
        decreases rolls.len() - k,
    {
        let roll = rolls[k];
        if roll >= left.len() {
            return None;
        }
        proof {
            lemma_dealt_step(full_deck(), rolls@, k as int);
        }
        let card = left.remove(roll);
        hand.push(card);
        k += 1;
    }
    proof {
        assert(rolls@.take(k as int) =~= rolls@);
    }
    Some(hand)
}

/// Draws the five cards of a game at random: five different cards, every hand
/// as likely as any other.
pub fn draw_cards() -> (drawn: Vec<Card>)
    ensures
        drawn@.len() == 5,
        drawn@.no_duplicates(),
        exists|rolls: Seq<usize>| rolls_fit(rolls) && drawn@ == #[trigger] dealt(full_deck(), rolls),
{
    let mut rolls: Vec<usize> = Vec::new();
    while rolls.len() < 5
        invariant
            rolls@.len() <= 5,
            rolls_fit(rolls@),
        decreases 5 - rolls@.len(),
    {
        let roll = random_below(16 - rolls.len());
        rolls.push(roll);
    }
    match deal_cards(&rolls) {
        Some(hand) => hand,
        None => unreached(),
    }
}

} // verus!
