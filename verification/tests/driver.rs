use boardgames::cards::Card;
use boardgames::driver::{play, play_turn, Turn};
use boardgames::mancala::{Game as Pits, SimpleAgent};
use boardgames::network::{Layer, Network};
use boardgames::onitama::{Game as Grid, Material};
use boardgames::search::{search, Side, Status};

#[test]
fn a_turn_plays_the_move_that_search_finds() {
    let g = Pits::with_pits(3, 2).unwrap();
    let found = search(&SimpleAgent, &g, 2).unwrap();
    match play_turn(&SimpleAgent, &g, 2) {
        Turn::Played { state, choice } => {
            assert_eq!(choice, found);
            let mut next = g.copy();
            next.make_move(found.mv).unwrap();
            assert_eq!(state.pits, next.pits);
            assert_eq!(state.current_player, Side::Second);
            assert_eq!(state.status, next.status);
        }
        Turn::Finished { .. } => panic!("the game is running"),
    }
}

#[test]
fn a_turn_of_a_game_that_is_over_plays_nothing() {
    let over = Pits { pits: vec![0, 0, 3, 1, 2, 0], current_player: Side::First, status: Status::Draw };
    match play_turn(&SimpleAgent, &over, 2) {
        Turn::Finished { status } => assert_eq!(status, Status::Draw),
        Turn::Played { .. } => panic!("the game is over"),
    }
    let (end, turns) = play(&SimpleAgent, 1, &SimpleAgent, 1, over, 10);
    assert_eq!(turns, 0);
    assert_eq!(end.pits, vec![0, 0, 3, 1, 2, 0]);
}

#[test]
fn a_game_is_played_to_its_end() {
    let (end, turns) = play(&SimpleAgent, 2, &SimpleAgent, 1, Pits::with_pits(3, 2).unwrap(), 1000);
    assert!(turns < 1000);
    assert_ne!(end.status, Status::Running);
    assert!(end.possible_moves().is_empty());
    assert_eq!(end.pits.iter().sum::<u32>(), 12);
    // the same game turn by turn
    let mut g = Pits::with_pits(3, 2).unwrap();
    let mut count = 0;
    while g.status == Status::Running {
        let depth = if g.current_player == Side::First { 2 } else { 1 };
        let m = search(&SimpleAgent, &g, depth).unwrap().mv;
        g.make_move(m).unwrap();
        count += 1;
    }
    assert_eq!(count, turns);
    assert_eq!(g.pits, end.pits);
    assert_eq!(g.status, end.status);
}

#[test]
fn a_game_stops_at_the_turn_limit() {
    let (end, turns) = play(&SimpleAgent, 1, &SimpleAgent, 1, Pits::with_pits(6, 4).unwrap(), 3);
    assert_eq!(turns, 3);
    assert_eq!(end.status, Status::Running);
    assert_eq!(end.current_player, Side::Second);
    let (end, turns) = play(&SimpleAgent, 1, &SimpleAgent, 1, Pits::with_pits(6, 4).unwrap(), 0);
    assert_eq!(turns, 0);
    assert_eq!(end.pits, Pits::new(4).unwrap().pits);
}

#[test]
fn two_kinds_of_evaluator_play_one_game() {
    let weights: Vec<i32> = (0..100).map(|k| if k < 25 { -1 } else if (50..75).contains(&k) { 1 } else { 0 }).collect();
    let net = Network::from_layers(vec![Layer { inputs: 100, outputs: 1, weights, bias: vec![0] }])
        .unwrap();
    let start =
        Grid::from_cards(&vec![Card::Boar, Card::Cobra, Card::Crab, Card::Crane, Card::Dragon])
            .unwrap();
    let (end, turns) = play(&Material, 1, &net, 1, start, 6);
    assert!(turns <= 6);
    assert!(turns == 6 || end.status != Status::Running);
    assert_eq!(end.my.pieces & end.other.pieces, 0);
}
