use blackjack::card::{Card, CardValue, Suit};
use blackjack::game::Game;
use blackjack::player::PlayerOutcome;

fn card(value: CardValue) -> Card {
    Card::new(value, Suit::get_random_suit())
}

#[test]
fn test_game_initialization() {
    let game = Game::new(2, 10);
    assert_eq!(game.players.len(), 2);
    assert_eq!(game.dealer.hand.len(), 0);
    assert!(game.deck.cards.len() == 10);
}

#[test]
fn test_deal_initial_cards() {
    let mut game = Game::new(2, 20);
    game.deal_initial_cards();

    for player in &game.players {
        assert_eq!(player.hand.len(), 2);
    }
    assert_eq!(game.dealer.hand.len(), 2);
}

#[test]
fn test_player_hit_adds_card() {
    let mut game = Game::new(1, 10);
    game.deal_initial_cards();

    let initial_hand_len = game.players[0].hand.len();
    game.player_hit(0);
    assert_eq!(game.players[0].hand.len(), initial_hand_len + 1);
}

#[test]
fn test_dealer_play_reaches_17_or_more() {
    let mut game = Game::new(1, 20);
    game.deal_initial_cards();

    game.dealer_play();
    assert!(game.dealer.hand_value() >= 17);
}

#[test]
fn get_outcome_when_player_pushes() {
    let mut game = Game::new(1, 20);

    game.dealer.hand = vec![card(CardValue::Number(10)), card(CardValue::Number(7))];

    game.players[0].hand = vec![card(CardValue::Number(10)), card(CardValue::Number(7))];

    let outcome = game.get_outcome(0);
    assert_eq!(outcome, PlayerOutcome::Push);
}

#[test]
fn get_outcome_when_player_busts() {
    let mut game = Game::new(1, 20);
    game.deal_initial_cards();

    game.players[0].hand = vec![
        card(CardValue::Number(10)),
        card(CardValue::Number(10)),
        card(CardValue::Number(10)),
    ];

    let outcome = game.get_outcome(0);
    assert_eq!(outcome, PlayerOutcome::Bust);
}

#[test]
fn get_outcome_when_player_has_blackjack_and_dealer_lose() {
    let mut game = Game::new(1, 20);

    game.players[0].hand = vec![card(CardValue::Ace), card(CardValue::King)];
    game.dealer.hand = vec![card(CardValue::Number(10)), card(CardValue::Number(7))];

    let outcome = game.get_outcome(0);
    assert_eq!(outcome, PlayerOutcome::Blackjack);
}

#[test]
fn get_outcome_when_player_has_blackjack_and_dealer_too() {
    let mut game = Game::new(1, 20);

    game.players[0].hand = vec![card(CardValue::Ace), card(CardValue::King)];
    game.dealer.hand = vec![card(CardValue::Ace), card(CardValue::King)];

    let outcome = game.get_outcome(0);
    assert_eq!(outcome, PlayerOutcome::Push);
}

#[test]
fn test_get_player_hand_value() {
    let mut game = Game::new(1, 10);
    game.deal_initial_cards();

    let hand = game.get_player_hand(0);
    let value = game.get_player_hand_value(0);
    assert_eq!(hand.len(), 2);
    assert_eq!(value, game.players[0].hand_value());
}

#[test]
fn test_get_dealer_hand_value() {
    let mut game = Game::new(1, 10);
    game.deal_initial_cards();

    let hand = game.get_dealer_hand();
    let value = game.get_dealer_hand_value();
    assert_eq!(hand.len(), 2);
    assert_eq!(value, game.dealer.hand_value());
}

#[test]
fn dealer_not_hit_at_17() {
    let mut game = Game::new(1, 10);

    game.dealer.hand = vec![card(CardValue::Number(10)), card(CardValue::Number(7))];
    let initial_hand_len = game.dealer.hand.len();

    game.dealer_play();
    assert_eq!(game.dealer.hand.len(), initial_hand_len);
}

#[test]
fn dealer_stand_leaves_the_deck_untouched() {
    let mut game = Game::new(1, 10);
    game.dealer.hand = vec![card(CardValue::Number(10)), card(CardValue::Number(7))];
    let deck_before: Vec<Card> = game.deck.cards.clone();

    game.dealer_play();
    assert_eq!(game.deck.cards, deck_before);
}

#[test]
fn dealer_play_until_17() {
    let mut game = Game::new(1, 10);
    assert_eq!(game.dealer.hand.len(), 0);
    game.dealer_play();
    assert!(game.dealer.hand_value() >= 17);
    assert!(game.dealer.hand.len() > 0);
}

#[test]
fn initial_deal_hands_out_the_deck_from_the_top() {
    let mut game = Game::new(1, 10);
    game.deck = blackjack::deck::Deck::from_vec(vec![
        card(CardValue::Number(2)),
        card(CardValue::Number(3)),
        card(CardValue::Number(4)),
        card(CardValue::Number(5)),
        card(CardValue::Number(6)),
        card(CardValue::Number(7)),
    ]);
    game.deal_initial_cards();
    // the player draws first, from the dealt end
    assert_eq!(game.players[0].hand[0].get_card_value(), 7);
    assert_eq!(game.players[0].hand[1].get_card_value(), 6);
    assert_eq!(game.dealer.hand[0].get_card_value(), 5);
    assert_eq!(game.dealer.hand[1].get_card_value(), 4);
    assert_eq!(game.deck.cards.len(), 2);
}

#[test]
fn a_deck_of_size_one_still_deals_forever() {
    let mut game = Game::new(1, 1);
    game.deal_initial_cards();
    game.player_hit(0);
    assert_eq!(game.players[0].hand.len(), 3);
    assert_eq!(game.dealer.hand.len(), 2);
}
