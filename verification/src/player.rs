use vstd::prelude::*;
use crate::card::Card;
use crate::hand::{evaluate, hand_total, naive_sum};

verus! {

/// The outcome of a player's hand against the dealer's total.
#[derive(Debug, PartialEq, Eq, Structural)]
pub enum PlayerOutcome {
    Win,
    Lose,
    Bust,
    Blackjack,
    Push,
}

/// The outcome rule, in its load-bearing priority order: a bust beats
/// every other answer, a tie is a push even for a two-card 21, a two-card
/// 21 that does not tie is a blackjack, then win or lose against the
/// dealer's total.
pub open spec fn outcome_of(player_total: int, hand_len: int, dealer_total: int) -> PlayerOutcome {
    if player_total > 21 {
        PlayerOutcome::Bust
    } else if dealer_total == player_total {
        PlayerOutcome::Push
    } else if hand_len == 2 && player_total == 21 {
        PlayerOutcome::Blackjack
    } else if dealer_total > 21 || player_total > dealer_total {
        PlayerOutcome::Win
    } else {
        PlayerOutcome::Lose
    }
}

/// Law: a two-card 21 that exactly ties the dealer's 21 resolves as a
/// push, never as a blackjack: the push rule is checked first.
pub proof fn lemma_tied_twenty_one_is_push(hand: Seq<Card>)
    requires
        hand_total(hand) == 21,
        hand.len() == 2,
    ensures
        outcome_of(hand_total(hand), hand.len() as int, 21) == PlayerOutcome::Push,
{
}

/// Law: a player whose total busts is a bust whatever the dealer's total,
/// even when the dealer busts too.
pub proof fn lemma_bust_beats_everything(hand: Seq<Card>, dealer_total: int)
    requires
        hand_total(hand) > 21,
    ensures
        outcome_of(hand_total(hand), hand.len() as int, dealer_total) == PlayerOutcome::Bust,
{
}

pub struct Player {
    pub hand: Vec<Card>,
}

pub struct Dealer {
    pub hand: Vec<Card>,
}

impl Default for Player {
    fn default() -> (p: Player)
        ensures
            p.hand@ == Seq::<Card>::empty(),
    {
        Player { hand: Vec::new() }
    }
}

impl Default for Dealer {
    fn default() -> (d: Dealer)
        ensures
            d.hand@ == Seq::<Card>::empty(),
    {
        Dealer { hand: Vec::new() }
    }
}

impl Player {
    pub fn hand_value(&self) -> (v: u8)
        requires
            naive_sum(self.hand@) <= u8::MAX,
        ensures
            v as int == hand_total(self.hand@),
    {
        evaluate(&self.hand)
    }

    pub fn is_bust(&self) -> (r: bool)
        requires
            naive_sum(self.hand@) <= u8::MAX,
        ensures
            r <==> hand_total(self.hand@) > 21,
    {
        self.hand_value() > 21
    }

    pub fn is_blackjack(&self) -> (r: bool)
        requires
            naive_sum(self.hand@) <= u8::MAX,
        ensures
            r <==> (hand_total(self.hand@) == 21 && self.hand@.len() == 2),
    {
        self.hand_value() == 21 && self.hand.len() == 2
    }

    /// The outcome against the given dealer total, decided in the fixed
    /// priority order of outcome_of.
    pub fn get_outcome(&self, dealer_value: u8) -> (o: PlayerOutcome)
        requires
            naive_sum(self.hand@) <= u8::MAX,
        ensures
            o == outcome_of(
                hand_total(self.hand@),
                self.hand@.len() as int,
                dealer_value as int,
            ),
    {
        let player_value = self.hand_value();
        if self.is_bust() {
            PlayerOutcome::Bust
        } else if dealer_value == player_value {
            PlayerOutcome::Push
        } else if self.is_blackjack() {
            PlayerOutcome::Blackjack
        } else if dealer_value > 21 || player_value > dealer_value {
            PlayerOutcome::Win
        } else {
            PlayerOutcome::Lose
        }
    }

    pub fn add_card(&mut self, card: Card)
        ensures
            final(self).hand@ == old(self).hand@.push(card),
    {
        self.hand.push(card);
    }
}

impl Dealer {
    pub fn hand_value(&self) -> (v: u8)
        requires
            naive_sum(self.hand@) <= u8::MAX,
        ensures
            v as int == hand_total(self.hand@),
    {
        evaluate(&self.hand)
    }

    pub fn add_card(&mut self, card: Card)
        ensures
            final(self).hand@ == old(self).hand@.push(card),
    {
        self.hand.push(card);
    }
}

} // verus!
