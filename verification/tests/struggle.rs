use boardgames::struggle::{
    Action, Card, CardPlace, Game, GameMessage, LastAction, PlayerState, Suit, TableState,
    DECK_SIZE,
};

fn names(names: &[&str]) -> Vec<String> {
    names.iter().map(|n| n.to_string()).collect()
}

fn report(action_type: &str, card: Option<Card>, cards: &[Card]) -> LastAction {
    LastAction { action_type: action_type.to_string(), card, cards: cards.to_vec() }
}

fn message(current_player: usize, actions: Vec<Option<LastAction>>) -> GameMessage {
    GameMessage {
        hand: vec![Card::Joker { id: 2 }, Card::SuitCard { suit: Suit::Heart, value: 9 }],
        game_state: TableState {
            has_moves: false,
            deck_size: 40,
            current_player,
            players: actions
                .into_iter()
                .enumerate()
                .map(|(i, last_action)| PlayerState { name: format!("p{}", i), last_action })
                .collect(),
            center: vec![Card::Joker { id: 1 }],
        },
    }
}

#[test]
fn a_new_game_is_empty() {
    let g = Game::new();
    assert!(g.my_hand.is_empty());
    assert_eq!(g.deck_size, 56);
    assert_eq!(DECK_SIZE, 56);
    assert!(g.center.is_empty());
    assert!(g.unseen_cards.is_empty());
    assert!(g.players.is_empty());
    assert_eq!(g.current_player_index, 0);
    assert!(g.has_moves);
}

#[test]
fn start_seats_the_players() {
    let mut g = Game::new();
    g.start(names(&["ann", "bob", "cy"]));
    assert_eq!(g.players.len(), 3);
    for (i, name) in ["ann", "bob", "cy"].iter().enumerate() {
        assert_eq!(g.players[i].name, *name);
        assert_eq!(g.players[i].index, i);
        assert_eq!(g.players[i].hand, vec![CardPlace::Unknown, CardPlace::Unknown]);
    }
    assert_eq!(g.deck_size, 56);
    assert!(g.has_moves);
    g.start(names(&["dee"]));
    assert_eq!(g.players.len(), 1);
    assert_eq!(g.players[0].name, "dee");
    assert_eq!(g.players[0].index, 0);
    g.start(vec![]);
    assert!(g.players.is_empty());
}

#[test]
fn the_start_deck_has_every_card_once() {
    let deck = Game::get_start_deck();
    assert_eq!(deck.len(), 56);
    assert_eq!(deck[0], Card::SuitCard { suit: Suit::Club, value: 2 });
    assert_eq!(deck[12], Card::SuitCard { suit: Suit::Club, value: 14 });
    assert_eq!(deck[13], Card::SuitCard { suit: Suit::Heart, value: 2 });
    assert_eq!(deck[26], Card::SuitCard { suit: Suit::Spade, value: 2 });
    assert_eq!(deck[39], Card::SuitCard { suit: Suit::Diamond, value: 2 });
    assert_eq!(deck[51], Card::SuitCard { suit: Suit::Diamond, value: 14 });
    assert_eq!(deck[52], Card::Joker { id: 1 });
    assert_eq!(deck[55], Card::Joker { id: 4 });
    for i in 0..56 {
        for j in 0..i {
            assert_ne!(deck[i], deck[j]);
        }
    }
}

#[test]
fn actions_are_read_from_reports() {
    let seen = Card::SuitCard { suit: Suit::Spade, value: 11 };
    match Action::from(&report("draw", Some(seen), &[])) {
        Action::Draw(card) => assert_eq!(card, Some(seen)),
        other => panic!("{:?}", other),
    }
    match Action::from(&report("draw", None, &[seen])) {
        Action::Draw(card) => assert_eq!(card, None),
        other => panic!("{:?}", other),
    }
    match Action::from(&report("play", Some(seen), &[seen, Card::Joker { id: 3 }])) {
        Action::Trick(cards) => assert_eq!(cards, vec![seen, Card::Joker { id: 3 }]),
        other => panic!("{:?}", other),
    }
    match Action::from(&report("play", None, &[])) {
        Action::Trick(cards) => assert!(cards.is_empty()),
        other => panic!("{:?}", other),
    }
}

#[test]
fn update_takes_in_a_message() {
    let mut g = Game::new();
    g.start(names(&["ann", "bob", "cy"]));
    let seen = Card::SuitCard { suit: Suit::Spade, value: 11 };
    // bob is to move: ann moved last
    let taken = g.update(message(
        1,
        vec![Some(report("draw", Some(seen), &[])), Some(report("play", None, &[seen])), None],
    ));
    assert!(matches!(taken, Some(Action::Draw(Some(card))) if card == seen));
    assert_eq!(
        g.my_hand,
        vec![Card::Joker { id: 2 }, Card::SuitCard { suit: Suit::Heart, value: 9 }]
    );
    assert!(!g.has_moves);
    assert_eq!(g.deck_size, 40);
    assert_eq!(g.current_player_index, 1);
    assert_eq!(g.players.len(), 3);
    assert!(g.center.is_empty());
    assert!(g.unseen_cards.is_empty());
    // ann is to move: the seat before the first is the last, and cy has not moved yet
    let taken = g.update(message(
        0,
        vec![Some(report("draw", Some(seen), &[])), Some(report("play", None, &[seen])), None],
    ));
    assert!(taken.is_none());
    assert_eq!(g.current_player_index, 0);
    // cy is to move: bob played a trick
    let taken = g.update(message(
        2,
        vec![Some(report("draw", Some(seen), &[])), Some(report("play", None, &[seen])), None],
    ));
    assert!(matches!(taken, Some(Action::Trick(cards)) if cards == vec![seen]));
    // seats go round: seat 4 of three is seat 1
    let taken = g.update(message(4, vec![Some(report("play", None, &[])), None, None]));
    assert!(matches!(taken, Some(Action::Trick(cards)) if cards.is_empty()));
    assert_eq!(g.current_player_index, 4);
}
