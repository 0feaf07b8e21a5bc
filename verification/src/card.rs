use vstd::prelude::*;

verus! {

/// The rank of a playing card: a face, an ace, or a number between 2 and 10.
#[derive(Debug, Clone, Copy, PartialEq, Eq, Hash, Structural)]
pub enum CardValue {
    King,
    Queen,
    Jack,
    Ace,
    Number(u8),
}

#[derive(Debug, Clone, Copy, PartialEq, Eq, Hash, Structural)]
pub enum Suit {
    Hearts,
    Diamonds,
    Clubs,
    Spades,
}

/// An immutable playing card; its blackjack points are derived, never stored.
#[derive(Debug, Clone, Copy, PartialEq, Eq, Hash, Structural)]
pub struct Card {
    pub value: CardValue,
    pub suit: Suit,
}

/// A numbered rank must carry a value in the inclusive range 2 to 10.
pub open spec fn rank_wf(value: CardValue) -> bool {
    value matches CardValue::Number(n) ==> 2 <= n <= 10
}

pub open spec fn card_wf(c: Card) -> bool {
    rank_wf(c.value)
}

/// The ace-high points of a single card: numbers count themselves,
/// faces count 10, and an ace counts 11 before any softening.
pub open spec fn card_points(c: Card) -> int {
    match c.value {
        CardValue::Number(n) => n as int,
        CardValue::Ace => 11,
        CardValue::King => 10,
        CardValue::Queen => 10,
        CardValue::Jack => 10,
    }
}

impl Suit {
    /// The suit drawn for each value of a four-way draw: the mapping is a
    /// bijection onto the four suits, so a uniform draw gives a uniform
    /// suit.
    pub fn suit_from_draw(s: u8) -> (suit: Suit)
        requires
            s < 4,
        ensures
            s == 0 ==> suit == Suit::Hearts,
            s == 1 ==> suit == Suit::Diamonds,
            s == 2 ==> suit == Suit::Clubs,
            s == 3 ==> suit == Suit::Spades,
    {
        match s {
            0 => Suit::Hearts,
            1 => Suit::Diamonds,
            2 => Suit::Clubs,
            _ => Suit::Spades,
        }
    }

    /// A random suit, each of the four equally likely: a uniform four-way
    /// draw sent through suit_from_draw.
    pub fn get_random_suit() -> Suit {
        let mut rng = crate::rng::thread_rng();
        Suit::suit_from_draw(crate::rng::random_range_u8(&mut rng, 0, 4))
    }
}

impl Card {
    /// The only validation point for card data: a numbered rank outside
    /// 2..=10 is a caller error and is ruled out by the precondition.
    pub fn new(value: CardValue, suit: Suit) -> (c: Card)
        requires
            rank_wf(value),
        ensures
            c.value == value,
            c.suit == suit,
            card_wf(c),
    {
        Card { value, suit }
    }

    /// The rank drawn for each value of a thirteen-way draw: 1 is the
    /// ace, 11 to 13 the three faces, and 2 to 10 the number itself. The
    /// mapping is a bijection onto the thirteen ranks, so a uniform draw
    /// gives a uniform rank.
    pub fn rank_from_draw(r: u8) -> (v: CardValue)
        requires
            1 <= r <= 13,
        ensures
            r == 1 ==> v == CardValue::Ace,
            r == 11 ==> v == CardValue::Jack,
            r == 12 ==> v == CardValue::Queen,
            r == 13 ==> v == CardValue::King,
            2 <= r <= 10 ==> v == CardValue::Number(r),
            rank_wf(v),
    {
        match r {
            1 => CardValue::Ace,
            11 => CardValue::Jack,
            12 => CardValue::Queen,
            13 => CardValue::King,
            n => CardValue::Number(n),
        }
    }

    /// A random card: a uniform thirteen-way draw sent through
    /// rank_from_draw, with an independently drawn random suit.
    pub fn get_random_card() -> (c: Card)
        ensures
            card_wf(c),
    {
        let mut rng = crate::rng::thread_rng();
        let value = Card::rank_from_draw(crate::rng::random_range_u8(&mut rng, 1, 14));
        let suit = Suit::get_random_suit();
        Card { value, suit }
    }

    pub fn get_card_value(&self) -> (v: u8)
        ensures
            v as int == card_points(*self),
    {
        match self.value {
            CardValue::Number(n) => n,
            CardValue::Jack => 10,
            CardValue::Queen => 10,
            CardValue::King => 10,
            CardValue::Ace => 11,
        }
    }
}

} // verus!
