use boardgames::cards::Card;
use boardgames::onitama::{
    parse_cell, Color, Game, InputError, Material, Move, Player, Refusal, Transmission,
};
use boardgames::search::{Evaluator, InvalidMove, Position, Side, Status};

fn mv(from: u8, to: u8, used_left_card: bool) -> Move {
    Move { from, to, used_left_card }
}

fn mask(cells: &[u8]) -> u32 {
    cells.iter().fold(0, |m, c| m | (1 << c))
}

fn white_first() -> Game {
    Game::from_cards(&vec![Card::Boar, Card::Cobra, Card::Crab, Card::Crane, Card::Dragon]).unwrap()
}

fn black_first() -> Game {
    Game::from_cards(&vec![Card::Boar, Card::Cobra, Card::Crab, Card::Crane, Card::Tiger]).unwrap()
}

fn board_invariants_hold(g: &Game) -> bool {
    g.my.pieces & g.other.pieces == 0
        && g.my.pieces < (1 << 25)
        && g.other.pieces < (1 << 25)
        && g.my.king < 25
        && g.other.king < 25
        && g.my.pieces & (1 << g.my.king) != 0
        && g.other.pieces & (1 << g.other.king) != 0
}

#[test]
fn opening_position() {
    let g = white_first();
    assert_eq!(g.color, Color::White);
    assert_eq!(g.status, Status::Running);
    assert!(g.in_progress());
    assert_eq!(g.my, Player { cards: [Card::Boar, Card::Cobra], pieces: 0x1F0_0000, king: 22 });
    assert_eq!(g.other, Player { cards: [Card::Crab, Card::Crane], pieces: 0x1F, king: 2 });
    assert_eq!(g.table_card, Card::Dragon);
    assert!(board_invariants_hold(&g));

    let g = black_first();
    assert_eq!(g.color, Color::Black);
    assert_eq!(g.my, Player { cards: [Card::Crab, Card::Crane], pieces: 0x1F, king: 2 });
    assert_eq!(g.other, Player { cards: [Card::Boar, Card::Cobra], pieces: 0x1F0_0000, king: 22 });
    assert_eq!(g.table_card, Card::Tiger);
}

#[test]
fn opening_needs_five_cards() {
    assert_eq!(Game::from_cards(&vec![]), None);
    assert_eq!(Game::from_cards(&vec![Card::Boar; 4]), None);
    assert_eq!(Game::from_cards(&vec![Card::Boar; 6]), None);
    assert!(Game::from_cards(&vec![Card::Boar; 5]).is_some());
}

#[test]
fn new_game_is_an_opening() {
    for _ in 0..20 {
        let g = Game::new();
        let (white, black) = g.get_white_black();
        assert_eq!(white.pieces, 0x1F0_0000);
        assert_eq!(white.king, 22);
        assert_eq!(black.pieces, 0x1F);
        assert_eq!(black.king, 2);
        let cards =
            vec![white.cards[0], white.cards[1], black.cards[0], black.cards[1], g.table_card];
        for i in 0..5 {
            for j in 0..i {
                assert_ne!(cards[i], cards[j]);
            }
        }
        assert_eq!(Game::from_cards(&cards), Some(g));
        assert_eq!(g.color == Color::White, g.table_card.is_white());
    }
}

#[test]
fn moves_come_in_order_of_cell_card_and_destination() {
    let g = white_first();
    assert_eq!(
        g.gen_moves(),
        vec![
            mv(20, 15, true),
            mv(20, 16, false),
            mv(21, 16, true),
            mv(21, 17, false),
            mv(22, 17, true),
            mv(22, 18, false),
            mv(23, 18, true),
            mv(23, 19, false),
            mv(24, 19, true),
        ]
    );
    let g = black_first();
    assert_eq!(
        g.gen_moves(),
        vec![
            mv(0, 6, false),
            mv(1, 5, false),
            mv(1, 7, false),
            mv(2, 6, false),
            mv(2, 8, false),
            mv(3, 7, false),
            mv(3, 9, false),
            mv(4, 8, false),
        ]
    );
}

#[test]
fn a_card_drawn_for_the_other_side_is_turned() {
    // Tiger is drawn for black: for white it jumps two rows down and steps one row up
    let g = Game {
        my: Player { cards: [Card::Tiger, Card::Tiger], pieces: mask(&[12]), king: 12 },
        other: Player { cards: [Card::Boar, Card::Boar], pieces: mask(&[0]), king: 0 },
        table_card: Card::Crab,
        color: Color::White,
        status: Status::Running,
    };
    assert_eq!(
        g.gen_moves(),
        vec![mv(12, 7, true), mv(12, 22, true), mv(12, 7, false), mv(12, 22, false)]
    );
    let g = Game { color: Color::Black, ..g };
    assert_eq!(
        g.gen_moves(),
        vec![mv(12, 2, true), mv(12, 17, true), mv(12, 2, false), mv(12, 17, false)]
    );
}

#[test]
fn a_move_goes_to_the_cell_and_changes_the_card() {
    let g = white_first();
    let next = g.take_turn(&mv(22, 17, true));
    assert_eq!(next.color, Color::Black);
    assert_eq!(next.status, Status::Running);
    assert_eq!(next.my, g.other);
    assert_eq!(
        next.other,
        Player {
            cards: [Card::Dragon, Card::Cobra],
            pieces: mask(&[20, 21, 17, 23, 24]),
            king: 17
        }
    );
    assert_eq!(next.table_card, Card::Boar);
    let next = g.take_turn(&mv(20, 16, false));
    assert_eq!(
        next.other,
        Player {
            cards: [Card::Boar, Card::Dragon],
            pieces: mask(&[16, 21, 22, 23, 24]),
            king: 22
        }
    );
    assert_eq!(next.table_card, Card::Cobra);
}

#[test]
fn a_move_takes_the_piece_on_its_cell() {
    let g = Game {
        my: Player { cards: [Card::Boar, Card::Ox], pieces: mask(&[12, 20]), king: 20 },
        other: Player { cards: [Card::Crab, Card::Eel], pieces: mask(&[7, 0]), king: 0 },
        table_card: Card::Tiger,
        color: Color::White,
        status: Status::Running,
    };
    let next = g.take_turn(&mv(12, 7, true));
    assert_eq!(next.my.pieces, mask(&[0]));
    assert_eq!(next.my.king, 0);
    assert_eq!(next.other.pieces, mask(&[7, 20]));
    assert_eq!(next.other.king, 20);
    assert_eq!(next.status, Status::Running);
    assert!(board_invariants_hold(&next));
}

#[test]
fn taking_the_king_wins() {
    let g = Game {
        my: Player { cards: [Card::Boar, Card::Ox], pieces: mask(&[12, 20]), king: 20 },
        other: Player { cards: [Card::Crab, Card::Eel], pieces: mask(&[7, 0]), king: 7 },
        table_card: Card::Tiger,
        color: Color::White,
        status: Status::Running,
    };
    let next = g.take_turn(&mv(12, 7, true));
    assert_eq!(next.status, Status::FirstWins);
    assert!(!next.in_progress());
    assert_eq!(next.my.pieces, mask(&[0]));
    assert_eq!(next.other.pieces, mask(&[7, 20]));
    assert_eq!(next.gen_moves(), vec![]);
    // the king taken is the one case in which a side is left without its king
    assert!(!board_invariants_hold(&next));

    let g = Game { color: Color::Black, ..g };
    // Boar was drawn for white: black plays it turned, one row down
    let next = g.take_turn(&mv(20, 21, true));
    assert_eq!(next.status, Status::Running);
    let g = Game {
        my: Player { cards: [Card::Boar, Card::Ox], pieces: mask(&[2]), king: 2 },
        other: Player { cards: [Card::Crab, Card::Eel], pieces: mask(&[7]), king: 7 },
        table_card: Card::Tiger,
        color: Color::Black,
        status: Status::Running,
    };
    let next = g.take_turn(&mv(2, 7, true));
    assert_eq!(next.status, Status::SecondWins);
}

#[test]
fn a_king_on_its_goal_wins() {
    let g = Game {
        my: Player { cards: [Card::Boar, Card::Ox], pieces: mask(&[7, 8]), king: 7 },
        other: Player { cards: [Card::Crab, Card::Eel], pieces: mask(&[0]), king: 0 },
        table_card: Card::Tiger,
        color: Color::White,
        status: Status::Running,
    };
    assert_eq!(g.take_turn(&mv(7, 2, true)).status, Status::FirstWins);
    assert!(board_invariants_hold(&g.take_turn(&mv(7, 2, true))));
    // another piece on the goal does not win
    assert_eq!(g.take_turn(&mv(8, 3, true)).status, Status::Running);
    let g = Game { my: Player { king: 8, ..g.my }, ..g };
    assert_eq!(g.take_turn(&mv(7, 2, true)).status, Status::Running);

    let g = Game {
        my: Player { cards: [Card::Crab, Card::Crane], pieces: mask(&[21]), king: 21 },
        other: Player { cards: [Card::Boar, Card::Ox], pieces: mask(&[10]), king: 10 },
        table_card: Card::Tiger,
        color: Color::Black,
        status: Status::Running,
    };
    // both cards were drawn for black, which plays them as they are: from the
    // bottom row Crab steps up or two to the right, Crane only up
    assert_eq!(g.gen_moves(), vec![mv(21, 16, true), mv(21, 23, true), mv(21, 16, false)]);
    let g = Game { my: Player { pieces: mask(&[17]), king: 17, ..g.my }, ..g };
    assert_eq!(
        g.gen_moves(),
        vec![
            mv(17, 12, true),
            mv(17, 15, true),
            mv(17, 19, true),
            mv(17, 12, false),
            mv(17, 21, false),
            mv(17, 23, false),
        ]
    );
    // Goose steps down and to the right: from 16 onto black's goal
    let g = Game {
        my: Player { cards: [Card::Goose, Card::Crane], pieces: mask(&[16, 0]), king: 16 },
        ..g
    };
    assert_eq!(g.take_turn(&mv(16, 22, true)).status, Status::SecondWins);
    let g = Game { my: Player { king: 0, ..g.my }, ..g };
    assert_eq!(g.take_turn(&mv(16, 22, true)).status, Status::Running);
}

#[test]
fn a_side_without_a_move_has_lost() {
    let g = Game {
        my: Player { cards: [Card::Boar, Card::Ox], pieces: mask(&[22]), king: 22 },
        other: Player { cards: [Card::Crab, Card::Crab], pieces: mask(&[0, 2, 4]), king: 2 },
        table_card: Card::Tiger,
        color: Color::White,
        status: Status::Running,
    };
    let next = g.take_turn(&mv(22, 17, true));
    assert_eq!(next.status, Status::FirstWins);
    assert_eq!(next.gen_moves(), vec![]);
    // with a piece that can move the game runs on
    let g = Game { other: Player { pieces: mask(&[0, 2, 9]), ..g.other }, ..g };
    let next = g.take_turn(&mv(22, 17, true));
    assert_eq!(next.status, Status::Running);
    assert_eq!(next.gen_moves().is_empty(), false);
}

#[test]
fn illegal_moves_are_refused() {
    let g = white_first();
    assert!(g.is_legal(&mv(22, 17, true)));
    assert!(!g.is_legal(&mv(22, 17, false)));
    assert!(!g.is_legal(&mv(22, 21, true)));
    assert!(!g.is_legal(&mv(2, 7, true)));
    assert!(!g.is_legal(&mv(12, 7, true)));
    assert!(!g.is_legal(&mv(25, 7, true)));
    assert!(!g.is_legal(&mv(22, 25, true)));
    assert!(!g.is_legal(&mv(255, 255, false)));
    assert_eq!(g.apply(&mv(22, 17, false)), Err(InvalidMove));
    assert_eq!(g.apply(&mv(22, 17, true)), Ok(g.take_turn(&mv(22, 17, true))));
    for k in 0..1250u32 {
        let m = mv((k / 50) as u8, (k % 25) as u8, (k / 25) % 2 == 0);
        assert_eq!(g.is_legal(&m), g.gen_moves().contains(&m));
    }
    let over = Game { status: Status::SecondWins, ..g };
    assert!(!over.is_legal(&mv(22, 17, true)));
    assert_eq!(over.apply(&mv(22, 17, true)), Err(InvalidMove));
}

#[test]
fn a_move_asked_for_by_card_and_cells() {
    let g = white_first();
    assert_eq!(g.request_move(Card::Boar, 22, 17), Ok(mv(22, 17, true)));
    assert_eq!(g.request_move(Card::Cobra, 22, 18), Ok(mv(22, 18, false)));
    assert_eq!(g.request_move(Card::Cobra, 22, 17), Err(Refusal::NotLegal));
    assert_eq!(g.request_move(Card::Boar, 2, 7), Err(Refusal::NotLegal));
    assert_eq!(g.request_move(Card::Crab, 22, 17), Err(Refusal::NotInHand));
    assert_eq!(g.request_move(Card::Dragon, 22, 17), Err(Refusal::NotInHand));
    let twice = Game { my: Player { cards: [Card::Boar, Card::Boar], ..g.my }, ..g };
    assert_eq!(twice.request_move(Card::Boar, 22, 17), Ok(mv(22, 17, true)));
}

#[test]
fn legal_moves_keep_the_board_invariants() {
    let mut frontier = vec![white_first(), black_first()];
    let mut seen = 0;
    for _ in 0..3 {
        let mut next_frontier = vec![];
        for g in &frontier {
            assert_eq!(g.status == Status::Running, !g.gen_moves().is_empty());
            for m in g.gen_moves() {
                let next = g.take_turn(&m);
                seen += 1;
                assert!(next.my.pieces & next.other.pieces == 0);
                assert!(next.other.pieces & (1 << next.other.king) != 0);
                if m.to != g.other.king {
                    assert!(board_invariants_hold(&next));
                }
                assert_eq!(next.my.pieces.count_ones() + next.other.pieces.count_ones()
                    + u32::from(g.other.pieces & (1 << m.to) != 0),
                    g.my.pieces.count_ones() + g.other.pieces.count_ones());
                next_frontier.push(next);
            }
        }
        frontier = next_frontier;
    }
    assert!(seen > 500);
}

#[test]
fn the_position_trait_follows_the_game() {
    let g = white_first();
    assert_eq!(g.status(), Status::Running);
    assert_eq!(g.current_player(), Side::First);
    assert_eq!(g.legal_moves(), g.gen_moves());
    assert_eq!(black_first().current_player(), Side::Second);
    assert_eq!(Side::First.other(), Side::Second);
    assert_eq!(Side::Second.other(), Side::First);
    assert_eq!(Color::White.other(), Color::Black);
    assert_eq!(Color::Black.other(), Color::White);
    assert_eq!(Color::White.win(), Status::FirstWins);
    assert_eq!(Color::Black.win(), Status::SecondWins);
}

#[test]
fn material_counts_pieces_for_the_side_that_moved() {
    let g = white_first();
    assert_eq!(Material.evaluate(&g), 0);
    let g = Game {
        my: Player { cards: [Card::Boar, Card::Ox], pieces: mask(&[12, 20]), king: 20 },
        other: Player { cards: [Card::Crab, Card::Eel], pieces: mask(&[7, 0, 1, 3]), king: 0 },
        table_card: Card::Tiger,
        color: Color::White,
        status: Status::Running,
    };
    assert_eq!(Material.evaluate(&g), 2);
    assert_eq!(Material.evaluate(&Game { status: Status::SecondWins, ..g }), 102);
    assert_eq!(Material.evaluate(&Game { status: Status::FirstWins, ..g }), -98);
    assert_eq!(Material.evaluate(&Game { color: Color::Black, status: Status::FirstWins, ..g }), 102);
    assert_eq!(Material.evaluate(&g.take_turn(&mv(12, 7, true))), -1);
}

#[test]
fn transmissions_carry_a_position() {
    let g = white_first();
    assert_eq!(Transmission::Display(g), Transmission::Display(white_first()));
    assert_ne!(Transmission::Display(g), Transmission::RequestMove);
}

#[test]
fn cells_have_names() {
    assert_eq!(parse_cell("a1"), Some(0));
    assert_eq!(parse_cell("e1"), Some(4));
    assert_eq!(parse_cell("a2"), Some(5));
    assert_eq!(parse_cell("c3"), Some(12));
    assert_eq!(parse_cell("a5"), Some(20));
    assert_eq!(parse_cell("e5"), Some(24));
    for text in ["", "a", "a0", "a6", "f1", "A1", "1a", "a11", "aa", "c3 ", "\u{e9}1", "c\u{663}"] {
        assert_eq!(parse_cell(text), None);
    }
    let mut seen = vec![];
    for row in '1'..='5' {
        for column in 'a'..='e' {
            seen.push(parse_cell(&format!("{}{}", column, row)).unwrap());
        }
    }
    assert_eq!(seen, (0..25).collect::<Vec<u8>>());
}

#[test]
fn a_move_typed_in_as_three_words() {
    let g = white_first();
    // white's king stands on c5
    assert_eq!(g.read_move("boar", "c5", "c4"), Ok(mv(22, 17, true)));
    assert_eq!(g.read_move("cobra", "c5", "d4"), Ok(mv(22, 18, false)));
    assert_eq!(g.read_move("boar", "c5", "c9"), Err(InputError::BadTo));
    assert_eq!(g.read_move("bear", "c9", "c9"), Err(InputError::BadTo));
    assert_eq!(g.read_move("bear", "c9", "c4"), Err(InputError::BadFrom));
    assert_eq!(g.read_move("bear", "c5", "c4"), Err(InputError::UnknownCard));
    assert_eq!(g.read_move("crab", "c5", "c4"), Err(InputError::NotInHand));
    assert_eq!(g.read_move("dragon", "c5", "c4"), Err(InputError::NotInHand));
    assert_eq!(g.read_move("cobra", "c5", "c4"), Err(InputError::NotLegal));
    assert_eq!(g.read_move("boar", "c1", "c2"), Err(InputError::NotLegal));
}
