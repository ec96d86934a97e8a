use boardgames::cards::{deal_cards, deck, draw_cards, Card};

fn cells(card: Card) -> Vec<usize> {
    let p = card.get_moves();
    (0..25).filter(|&i| p.get(i)).collect()
}

#[test]
fn every_card_has_its_cells() {
    assert_eq!(cells(Card::Boar), vec![7, 11, 13]);
    assert_eq!(cells(Card::Cobra), vec![8, 11, 18]);
    assert_eq!(cells(Card::Crab), vec![7, 10, 14]);
    assert_eq!(cells(Card::Crane), vec![7, 16, 18]);
    assert_eq!(cells(Card::Dragon), vec![5, 9, 16, 18]);
    assert_eq!(cells(Card::Eel), vec![6, 13, 16]);
    assert_eq!(cells(Card::Elephant), vec![6, 8, 11, 13]);
    assert_eq!(cells(Card::Frog), vec![6, 10, 18]);
    assert_eq!(cells(Card::Goose), vec![6, 11, 13, 18]);
    assert_eq!(cells(Card::Horse), vec![7, 11, 17]);
    assert_eq!(cells(Card::Mantis), vec![6, 8, 17]);
    assert_eq!(cells(Card::Monkey), vec![6, 8, 16, 18]);
    assert_eq!(cells(Card::Ox), vec![7, 13, 17]);
    assert_eq!(cells(Card::Rabbit), vec![8, 14, 16]);
    assert_eq!(cells(Card::Rooster), vec![8, 11, 13, 16]);
    assert_eq!(cells(Card::Tiger), vec![2, 17]);
}

#[test]
fn cards_know_their_colour() {
    let white = [
        Card::Boar,
        Card::Cobra,
        Card::Dragon,
        Card::Elephant,
        Card::Frog,
        Card::Horse,
        Card::Mantis,
        Card::Rooster,
    ];
    for card in deck() {
        assert_eq!(card.is_white(), white.contains(&card));
    }
}

#[test]
fn cards_by_index() {
    let all = deck();
    assert_eq!(all.len(), 16);
    assert_eq!(all[0], Card::Boar);
    assert_eq!(all[15], Card::Tiger);
    for (i, card) in all.iter().enumerate() {
        assert_eq!(Card::from_index(i), *card);
        for other in &all[..i] {
            assert_ne!(card, other);
        }
    }
    assert_eq!(Card::from_index(14), Card::Rooster);
    assert_eq!(Card::from_index(16), Card::Tiger);
    assert_eq!(Card::from_index(usize::MAX), Card::Tiger);
}

#[test]
fn deal_takes_cards_out_of_the_deck() {
    let hand = deal_cards(&vec![0, 0, 0, 0, 0]).unwrap();
    assert_eq!(hand, vec![Card::Boar, Card::Cobra, Card::Crab, Card::Crane, Card::Dragon]);
    let hand = deal_cards(&vec![15, 0, 13, 1, 1]).unwrap();
    assert_eq!(hand, vec![Card::Tiger, Card::Boar, Card::Rooster, Card::Crab, Card::Crane]);
    assert_eq!(deal_cards(&vec![]), Some(vec![]));
}

#[test]
fn deal_refuses_a_roll_past_the_deck() {
    assert_eq!(deal_cards(&vec![16]), None);
    assert_eq!(deal_cards(&vec![15, 15]), None);
    assert_eq!(deal_cards(&vec![0, 1, 2, 3, 12]), None);
    assert!(deal_cards(&vec![0, 1, 2, 3, 11]).is_some());
    assert!(deal_cards(&vec![0; 16]).is_some());
    assert_eq!(deal_cards(&vec![0; 17]), None);
}

#[test]
fn draw_gives_five_different_cards() {
    let mut seen = std::collections::HashSet::new();
    for _ in 0..200 {
        let hand = draw_cards();
        assert_eq!(hand.len(), 5);
        for i in 0..5 {
            for j in 0..i {
                assert_ne!(hand[i], hand[j]);
            }
        }
        seen.insert(format!("{:?}", hand));
    }
    // the draw is random: two hundred draws do not all give one hand
    assert!(seen.len() > 1);
}

#[test]
fn cards_have_names() {
    let names = [
        "boar", "cobra", "crab", "crane", "dragon", "eel", "elephant", "frog", "goose", "horse",
        "mantis", "monkey", "ox", "rabbit", "rooster", "tiger",
    ];
    for (card, name) in deck().into_iter().zip(names) {
        assert_eq!(card.name(), name);
        assert_eq!(Card::from_text(name), Some(card));
    }
    assert_eq!(Card::from_text(""), None);
    assert_eq!(Card::from_text("Boar"), None);
    assert_eq!(Card::from_text("boar "), None);
    assert_eq!(Card::from_text("boa"), None);
    assert_eq!(Card::from_text("dragonfly"), None);
}
