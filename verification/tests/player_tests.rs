use blackjack::card::{Card, CardValue, Suit};
use blackjack::player::{Dealer, Player, PlayerOutcome};

fn card(value: CardValue) -> Card {
    Card::new(value, Suit::get_random_suit())
}

#[test]
fn is_bust_when_player_over_21() {
    let player = Player {
        hand: vec![
            card(CardValue::Number(10)),
            card(CardValue::Number(5)),
            card(CardValue::Number(7)),
        ],
    };
    assert!(player.is_bust());
}

#[test]
fn is_not_bust_when_player_21_or_under() {
    let player = Player {
        hand: vec![card(CardValue::Number(10)), card(CardValue::Number(5))],
    };
    assert!(!player.is_bust());
}

#[test]
fn is_blackjack_when_player_21_with_two_cards() {
    let player = Player {
        hand: vec![card(CardValue::Ace), card(CardValue::King)],
    };
    assert!(player.is_blackjack());
}

#[test]
fn is_not_blackjack_when_player_21_with_more_than_two_cards() {
    let player = Player {
        hand: vec![
            card(CardValue::Number(7)),
            card(CardValue::Number(7)),
            card(CardValue::Number(7)),
        ],
    };
    assert!(!player.is_blackjack());
}

#[test]
fn player_wins_when_hand_greater_than_dealer() {
    let player = Player {
        hand: vec![card(CardValue::Number(10)), card(CardValue::Number(8))],
    };
    let dealer_value = 17;
    assert_eq!(player.get_outcome(dealer_value), PlayerOutcome::Win);
}

#[test]
fn player_loses_when_hand_less_than_dealer() {
    let player = Player {
        hand: vec![card(CardValue::Number(10)), card(CardValue::Number(6))],
    };
    let dealer_value = 17;
    assert_eq!(player.get_outcome(dealer_value), PlayerOutcome::Lose);
}

#[test]
fn player_pushes_when_hand_equals_dealer() {
    let player = Player {
        hand: vec![card(CardValue::Number(10)), card(CardValue::Number(7))],
    };
    let dealer_value = 17;
    assert_eq!(player.get_outcome(dealer_value), PlayerOutcome::Push);
}

#[test]
fn player_outcome_is_bust_when_hand_over_21() {
    let player = Player {
        hand: vec![
            card(CardValue::Number(10)),
            card(CardValue::Number(5)),
            card(CardValue::Number(7)),
        ],
    };
    let dealer_value = 17;
    assert_eq!(player.get_outcome(dealer_value), PlayerOutcome::Bust);
}

#[test]
fn player_outcome_is_blackjack_when_hand_is_blackjack() {
    let player = Player {
        hand: vec![card(CardValue::Ace), card(CardValue::King)],
    };
    let dealer_value = 20;
    assert_eq!(player.get_outcome(dealer_value), PlayerOutcome::Blackjack);
}

#[test]
fn player_busts_even_when_dealer_busts() {
    let player = Player {
        hand: vec![
            card(CardValue::Number(10)),
            card(CardValue::Number(10)),
            card(CardValue::Number(10)),
        ],
    };
    let dealer_value = 22;
    assert_eq!(player.get_outcome(dealer_value), PlayerOutcome::Bust);
}

#[test]
fn ace_value_changes_to_one_when_busting() {
    let player = Player {
        hand: vec![
            card(CardValue::Ace),
            card(CardValue::Number(9)),
            card(CardValue::Number(5)),
        ],
    };
    assert_eq!(player.hand_value(), 15);
}

#[test]
fn multiple_aces_value_changes_to_one_when_busting() {
    let player = Player {
        hand: vec![
            card(CardValue::Ace),
            card(CardValue::Ace),
            card(CardValue::Number(10)),
        ],
    };
    assert_eq!(player.hand_value(), 12);
}

#[test]
fn empty_hand_values_zero() {
    let player = Player::default();
    assert_eq!(player.hand_value(), 0);
    let dealer = Dealer::default();
    assert_eq!(dealer.hand_value(), 0);
}

#[test]
fn hand_value_ignores_the_order_of_cards() {
    let first = Player {
        hand: vec![
            card(CardValue::Ace),
            card(CardValue::Number(9)),
            card(CardValue::Number(5)),
        ],
    };
    let second = Player {
        hand: vec![
            card(CardValue::Number(5)),
            card(CardValue::Ace),
            card(CardValue::Number(9)),
        ],
    };
    assert_eq!(first.hand_value(), second.hand_value());
}

#[test]
fn dealer_and_player_value_hands_alike() {
    let player = Player {
        hand: vec![card(CardValue::Ace), card(CardValue::Number(7))],
    };
    let dealer = Dealer {
        hand: vec![card(CardValue::Ace), card(CardValue::Number(7))],
    };
    assert_eq!(player.hand_value(), 18);
    assert_eq!(dealer.hand_value(), 18);
}
