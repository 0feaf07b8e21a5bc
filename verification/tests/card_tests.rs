use blackjack::card::{Card, CardValue, Suit};

fn card(value: CardValue) -> Card {
    Card::new(value, Suit::get_random_suit())
}

#[test]
fn normal_card_value_between_2_and_10() {
    for n in 2..=10 {
        let card = Card::new(CardValue::Number(n), Suit::Hearts);
        assert_eq!(card.get_card_value(), n);
    }
}

#[test]
fn figure_card_value_is_10() {
    let jack = Card::new(CardValue::Jack, Suit::Hearts);
    let queen = Card::new(CardValue::Queen, Suit::Diamonds);
    let king = Card::new(CardValue::King, Suit::Clubs);
    assert_eq!(jack.get_card_value(), 10);
    assert_eq!(queen.get_card_value(), 10);
    assert_eq!(king.get_card_value(), 10);
}

#[test]
fn ace_card_value_is_11() {
    let ace = Card::new(CardValue::Ace, Suit::Spades);
    assert_eq!(ace.get_card_value(), 11);
}

#[test]
fn rank_from_draw_covers_all_thirteen_ranks() {
    assert_eq!(Card::rank_from_draw(1), CardValue::Ace);
    for n in 2..=10 {
        assert_eq!(Card::rank_from_draw(n), CardValue::Number(n));
    }
    assert_eq!(Card::rank_from_draw(11), CardValue::Jack);
    assert_eq!(Card::rank_from_draw(12), CardValue::Queen);
    assert_eq!(Card::rank_from_draw(13), CardValue::King);
}

#[test]
fn suit_from_draw_covers_all_four_suits() {
    assert_eq!(Suit::suit_from_draw(0), Suit::Hearts);
    assert_eq!(Suit::suit_from_draw(1), Suit::Diamonds);
    assert_eq!(Suit::suit_from_draw(2), Suit::Clubs);
    assert_eq!(Suit::suit_from_draw(3), Suit::Spades);
}

#[test]
fn random_card_value_is_always_in_range() {
    for _ in 0..200 {
        let c = Card::get_random_card();
        let v = c.get_card_value();
        assert!((2..=11).contains(&v));
    }
}

#[test]
fn random_suit_helper_builds_valid_cards() {
    let c = card(CardValue::Number(7));
    assert_eq!(c.get_card_value(), 7);
}
