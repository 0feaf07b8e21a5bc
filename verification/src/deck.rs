use vstd::prelude::*;
use crate::card::{card_wf, rank_wf, Card, CardValue, Suit};
use crate::hand::{cards_wf, lemma_permutation_preserves_wf};
use crate::rng;

verus! {

/// An ordered pile of cards plus its originally requested size; when the
/// pile runs out, a deal refills it with that many fresh random cards, so
/// the supply never ends.
pub struct Deck {
    pub n: u16,
    pub cards: Vec<Card>,
}

/// The suit of the k-th block of thirteen when one full card game is laid
/// out suit by suit.
pub open spec fn standard_suit(i: int) -> Suit {
    if i == 0 {
        Suit::Hearts
    } else if i == 1 {
        Suit::Diamonds
    } else if i == 2 {
        Suit::Clubs
    } else {
        Suit::Spades
    }
}

/// The j-th rank within one suit's block: the numbers 2 to 10 in order,
/// then jack, queen, king, ace.
pub open spec fn standard_rank(j: int) -> CardValue {
    if j < 9 {
        CardValue::Number((j + 2) as u8)
    } else if j == 9 {
        CardValue::Jack
    } else if j == 10 {
        CardValue::Queen
    } else if j == 11 {
        CardValue::King
    } else {
        CardValue::Ace
    }
}

/// The card at position k when one full 52-card game is laid out suit by
/// suit, each suit running through its thirteen ranks.
pub open spec fn standard_card(k: int) -> Card {
    Card { value: standard_rank(k % 13), suit: standard_suit(k / 13) }
}

fn standard_suit_at(i: u16) -> (s: Suit)
    requires
        i < 4,
    ensures
        s == standard_suit(i as int),
{
    if i == 0 {
        Suit::Hearts
    } else if i == 1 {
        Suit::Diamonds
    } else if i == 2 {
        Suit::Clubs
    } else {
        Suit::Spades
    }
}

fn standard_rank_at(j: u16) -> (v: CardValue)
    requires
        j < 13,
    ensures
        v == standard_rank(j as int),
        rank_wf(v),
{
    if j < 9 {
        CardValue::Number((j + 2) as u8)
    } else if j == 9 {
        CardValue::Jack
    } else if j == 10 {
        CardValue::Queen
    } else if j == 11 {
        CardValue::King
    } else {
        CardValue::Ace
    }
}

/// Distinct positions of the laid-out card game hold distinct cards.
proof fn lemma_standard_cards_distinct()
    ensures
        forall|k1: int, k2: int|
            0 <= k1 < k2 < 52 ==> standard_card(k1) != standard_card(k2),
{
    assert forall|k1: int, k2: int|
        0 <= k1 < k2 < 52 implies standard_card(k1) != standard_card(k2) by {
        let d1 = k1 / 13;
        let m1 = k1 % 13;
        let d2 = k2 / 13;
        let m2 = k2 % 13;
        vstd::arithmetic::div_mod::lemma_fundamental_div_mod(k1, 13);
        vstd::arithmetic::div_mod::lemma_fundamental_div_mod(k2, 13);
        vstd::arithmetic::div_mod::lemma_mod_division_less_than_divisor(k1, 13);
        vstd::arithmetic::div_mod::lemma_mod_division_less_than_divisor(k2, 13);
        assert(0 <= d1 <= 3 && 0 <= d2 <= 3);
        if d1 == d2 && m1 == m2 {
            assert(k1 == k2);
        } else if d1 != d2 {
            assert(standard_suit(d1) != standard_suit(d2));
        } else {
            assert(standard_rank(m1) != standard_rank(m2));
        }
    }
}

impl Deck {
    /// A deck is never empty by construction and holds only valid cards.
    pub open spec fn wf(&self) -> bool {
        self.n >= 1 && cards_wf(self.cards@)
    }

    /// A deck of the requested number of fresh random cards.
    pub fn new(nb_cards: u16) -> (deck: Deck)
        requires
            nb_cards >= 1,
        ensures
            deck.wf(),
            deck.n == nb_cards,
            deck.cards@.len() == nb_cards as int,
    {
        let mut cards: Vec<Card> = Vec::with_capacity(nb_cards as usize);
        let mut i: u16 = 0;
        while i < nb_cards
            invariant
                i <= nb_cards,
                cards@.len() == i as int,
                cards_wf(cards@),
            decreases nb_cards - i,
        {
            cards.push(Card::get_random_card());
            i = i + 1;
        }
        Deck { n: nb_cards, cards }
    }

    /// One complete, duplicate-free 52-card game in a fixed order.
    pub fn from_one_card_game() -> (deck: Deck)
        ensures
            deck.wf(),
            deck.n == 52,
            deck.cards@.len() == 52,
            forall|k: int| 0 <= k < 52 ==> deck.cards@[k] == standard_card(k),
            forall|k1: int, k2: int|
                0 <= k1 < k2 < 52 ==> deck.cards@[k1] != deck.cards@[k2],
    {
        let mut cards: Vec<Card> = Vec::with_capacity(52);
        let mut i: u16 = 0;
        while i < 4
            invariant
                i <= 4,
                cards@.len() == 13 * i as int,
                forall|k: int| 0 <= k < cards@.len() ==> cards@[k] == standard_card(k),
                cards_wf(cards@),
            decreases 4 - i,
        {
            let mut j: u16 = 0;
            while j < 13
                invariant
                    i < 4,
                    j <= 13,
                    cards@.len() == 13 * i as int + j as int,
                    forall|k: int| 0 <= k < cards@.len() ==> cards@[k] == standard_card(k),
                    cards_wf(cards@),
                decreases 13 - j,
            {
                let value = standard_rank_at(j);
                let suit = standard_suit_at(i);
                let c = Card::new(value, suit);
                proof {
                    let k0 = 13 * i as int + j as int;
                    assert(k0 % 13 == j as int && k0 / 13 == i as int) by (nonlinear_arith)
                        requires
                            0 <= i < 4,
                            0 <= j < 13,
                            k0 == 13 * i as int + j as int,
                    ;
                    assert(c == standard_card(k0));
                }
                cards.push(c);
                j = j + 1;
            }
            i = i + 1;
        }
        proof {
            lemma_standard_cards_distinct();
            assert forall|k1: int, k2: int|
                0 <= k1 < k2 < 52 implies cards@[k1] != cards@[k2] by {
                assert(cards@[k1] == standard_card(k1));
                assert(cards@[k2] == standard_card(k2));
                assert(standard_card(k1) != standard_card(k2));
            }
        }
        Deck { n: 52, cards }
    }

    /// A deck over a caller-supplied nonempty pile of cards.
    pub fn from_vec(cards: Vec<Card>) -> (deck: Deck)
        requires
            1 <= cards@.len() <= u16::MAX,
            cards_wf(cards@),
        ensures
            deck.wf(),
            deck.n as int == cards@.len(),
            deck.cards@ == cards@,
    {
        let n = cards.len() as u16;
        Deck { n, cards }
    }

    /// Randomly permutes the pile in place.
    pub fn shuffle(&mut self)
        requires
            old(self).wf(),
        ensures
            final(self).wf(),
            final(self).n == old(self).n,
            final(self).cards@.len() == old(self).cards@.len(),
            final(self).cards@.to_multiset() == old(self).cards@.to_multiset(),
    {
        let ghost before = self.cards@;
        let mut rng = rng::thread_rng();
        rng::shuffle_cards(&mut self.cards, &mut rng);
        proof {
            lemma_permutation_preserves_wf(before, self.cards@);
        }
    }

    /// Removes and returns the card at the dealt end. An exhausted pile is
    /// first refilled with the originally requested number of fresh random
    /// cards, so a deal never fails and never observably empties the deck.
    pub fn deal(&mut self) -> (c: Card)
        requires
            old(self).wf(),
        ensures
            final(self).wf(),
            final(self).n == old(self).n,
            card_wf(c),
            old(self).cards@.len() > 0 ==> {
                &&& c == old(self).cards@.last()
                &&& final(self).cards@ == old(self).cards@.drop_last()
            },
            old(self).cards@.len() == 0 ==> final(self).cards@.len() == old(self).n - 1,
    {
        if let Some(card) = self.cards.pop() {
            card
        } else {
            let n = self.n;
            let mut i: u16 = 0;
            while i < n
                invariant
                    i <= n,
                    self.cards@.len() == i as int,
                    cards_wf(self.cards@),
                    self.n == n,
                    n == old(self).n,
                    n >= 1,
                decreases n - i,
            {
                self.cards.push(Card::get_random_card());
                i = i + 1;
            }
            let card = self.cards.pop().unwrap();
            card
        }
    }
}

} // verus!
