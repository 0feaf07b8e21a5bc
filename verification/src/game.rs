use vstd::prelude::*;
use crate::card::{card_wf, Card};
use crate::deck::Deck;
use crate::hand::{
    cards_wf, hand_total, lemma_dealer_turn_progress, lemma_sums_push, lemma_total_bounds_naive,
    naive_sum, stand_deficit,
};
use crate::player::{outcome_of, Dealer, Player, PlayerOutcome};

verus! {

/// One round of the game: the players, the dealer, and the deck. The game
/// owns all turn-level control flow; cards only ever move from the deck
/// into one participant's hand.
pub struct Game {
    pub players: Vec<Player>,
    pub dealer: Dealer,
    pub deck: Deck,
}

impl Game {
    /// At least one player, and every hand and the deck hold valid cards.
    pub open spec fn wf(&self) -> bool {
        &&& self.players@.len() >= 1
        &&& forall|i: int|
            0 <= i < self.players@.len() ==> cards_wf((#[trigger] self.players@[i]).hand@)
        &&& cards_wf(self.dealer.hand@)
        &&& self.deck.wf()
    }

    /// A fresh round: the requested number of empty-handed players, an
    /// empty-handed dealer, and a shuffled deck of the requested size.
    pub fn new(nb_players: u8, nb_cards: u16) -> (game: Game)
        requires
            nb_players >= 1,
            nb_cards >= 1,
        ensures
            game.wf(),
            game.players@.len() == nb_players as int,
            forall|i: int|
                0 <= i < nb_players as int ==> (#[trigger] game.players@[i]).hand@.len() == 0,
            game.dealer.hand@.len() == 0,
            game.deck.n == nb_cards,
            game.deck.cards@.len() == nb_cards as int,
    {
        let mut players: Vec<Player> = Vec::new();
        let mut i: u8 = 0;
        while i < nb_players
            invariant
                i <= nb_players,
                players@.len() == i as int,
                forall|j: int| 0 <= j < i as int ==> (#[trigger] players@[j]).hand@.len() == 0,
            decreases nb_players - i,
        {
            players.push(Player::default());
            i = i + 1;
        }
        let dealer = Dealer::default();
        let mut deck = Deck::new(nb_cards);
        deck.shuffle();
        Game { players, dealer, deck }
    }

    /// Two cards to each player in player order, then two to the dealer.
    pub fn deal_initial_cards(&mut self)
        requires
            old(self).wf(),
        ensures
            final(self).wf(),
            final(self).players@.len() == old(self).players@.len(),
            forall|i: int|
                0 <= i < old(self).players@.len() ==> {
                    &&& (#[trigger] final(self).players@[i]).hand@.len() == old(self).players@[i].hand@.len() + 2
                    &&& final(self).players@[i].hand@.take(
                        old(self).players@[i].hand@.len() as int,
                    ) == old(self).players@[i].hand@
                },
            final(self).dealer.hand@.len() == old(self).dealer.hand@.len() + 2,
            final(self).dealer.hand@.take(old(self).dealer.hand@.len() as int) == old(self).dealer.hand@,
            final(self).deck.n == old(self).deck.n,
            old(self).deck.cards@.len() >= 2 * old(self).players@.len() + 2 ==> {
                &&& final(self).deck.cards@ == old(self).deck.cards@.take(
                    old(self).deck.cards@.len() - 2 * old(self).players@.len() - 2,
                )
                &&& forall|i: int|
                    0 <= i < old(self).players@.len() ==> (#[trigger] final(self).players@[i]).hand@
                        == old(self).players@[i].hand@.push(
                        old(self).deck.cards@[old(self).deck.cards@.len() - 2 * i - 1],
                    ).push(old(self).deck.cards@[old(self).deck.cards@.len() - 2 * i - 2])
                &&& final(self).dealer.hand@ == old(self).dealer.hand@.push(
                    old(self).deck.cards@[old(self).deck.cards@.len() - 2
                        * old(self).players@.len() - 1],
                ).push(
                    old(self).deck.cards@[old(self).deck.cards@.len() - 2
                        * old(self).players@.len() - 2],
                )
            },
    {
        let mut i: usize = 0;
        while i < self.players.len()
            invariant
                i <= self.players@.len(),
                self.players@.len() == old(self).players@.len(),
                forall|j: int|
                    0 <= j < i as int ==> {
                        &&& (#[trigger] self.players@[j]).hand@.len() == old(self).players@[j].hand@.len() + 2
                        &&& self.players@[j].hand@.take(
                            old(self).players@[j].hand@.len() as int,
                        ) == old(self).players@[j].hand@
                        &&& cards_wf(self.players@[j].hand@)
                    },
                forall|j: int|
                    i as int <= j < self.players@.len() ==> self.players@[j] == old(self).players@[j],
                forall|j: int|
                    0 <= j < old(self).players@.len() ==> cards_wf(
                        (#[trigger] old(self).players@[j]).hand@,
                    ),
                self.dealer == old(self).dealer,
                self.deck.wf(),
                self.deck.n == old(self).deck.n,
                old(self).deck.cards@.len() >= 2 * old(self).players@.len() + 2 ==> {
                    &&& self.deck.cards@ == old(self).deck.cards@.take(
                        old(self).deck.cards@.len() - 2 * i,
                    )
                    &&& forall|j: int|
                        0 <= j < i as int ==> (#[trigger] self.players@[j]).hand@ == old(
                            self,
                        ).players@[j].hand@.push(
                            old(self).deck.cards@[old(self).deck.cards@.len() - 2 * j - 1],
                        ).push(old(self).deck.cards@[old(self).deck.cards@.len() - 2 * j - 2])
                },
            decreases self.players@.len() - i,
        {
            let ghost hand0 = self.players@[i as int].hand@;
            let ghost deck0 = self.deck.cards@;
            let c1 = self.deck.deal();
            let c2 = self.deck.deal();
            let p = &mut self.players[i];
            p.add_card(c1);
            p.add_card(c2);
            proof {
                let hand2 = self.players@[i as int].hand@;
                assert(hand2 == hand0.push(c1).push(c2));
                assert(hand2.take(hand0.len() as int) =~= hand0);
                assert forall|k: int| 0 <= k < hand2.len() implies card_wf(
                    #[trigger] hand2[k],
                ) by {
                    if k < hand0.len() {
                        assert(hand2[k] == hand0[k]);
                    }
                }
                if old(self).deck.cards@.len() >= 2 * old(self).players@.len() + 2 {
                    let oc = old(self).deck.cards@;
                    let k = oc.len() - 2 * i;
                    assert(deck0 == oc.take(k as int));
                    assert(oc.take(k as int).drop_last() =~= oc.take(k - 1));
                    assert(oc.take(k - 1).drop_last() =~= oc.take(k - 2));
                    assert(c1 == oc[k - 1] && c2 == oc[k - 2]);
                    assert(self.deck.cards@ == oc.take(oc.len() - 2 * (i + 1)));
                }
            }
            i = i + 1;
        }
        let ghost dhand0 = self.dealer.hand@;
        let ghost deck1 = self.deck.cards@;
        let d1 = self.deck.deal();
        self.dealer.add_card(d1);
        let d2 = self.deck.deal();
        self.dealer.add_card(d2);
        proof {
            let dhand2 = self.dealer.hand@;
            assert(dhand2 == dhand0.push(d1).push(d2));
            assert(dhand2.take(dhand0.len() as int) =~= dhand0);
            assert forall|k: int| 0 <= k < dhand2.len() implies card_wf(
                #[trigger] dhand2[k],
            ) by {
                if k < dhand0.len() {
                    assert(dhand2[k] == dhand0[k]);
                }
            }
            if old(self).deck.cards@.len() >= 2 * old(self).players@.len() + 2 {
                let oc = old(self).deck.cards@;
                let k = oc.len() - 2 * old(self).players@.len();
                assert(deck1 == oc.take(k as int));
                assert(oc.take(k as int).drop_last() =~= oc.take(k - 1));
                assert(oc.take(k - 1).drop_last() =~= oc.take(k - 2));
                assert(d1 == oc[k - 1] && d2 == oc[k - 2]);
                assert(self.deck.cards@ == oc.take(oc.len() - 2 * old(self).players@.len() - 2));
            }
        }
    }

    /// Deals one card to the player at the given index; anything out of
    /// range is a caller error and is ruled out by the precondition.
    pub fn player_hit(&mut self, player_index: usize)
        requires
            old(self).wf(),
            player_index < old(self).players@.len(),
        ensures
            final(self).wf(),
            final(self).players@.len() == old(self).players@.len(),
            final(self).players@[player_index as int].hand@.len() == old(self).players@[player_index as int].hand@.len() + 1,
            final(self).players@[player_index as int].hand@.take(
                old(self).players@[player_index as int].hand@.len() as int,
            ) == old(self).players@[player_index as int].hand@,
            card_wf(final(self).players@[player_index as int].hand@.last()),
            old(self).deck.cards@.len() > 0 ==> {
                &&& final(self).players@[player_index as int].hand@ == old(
                    self,
                ).players@[player_index as int].hand@.push(old(self).deck.cards@.last())
                &&& final(self).deck.cards@ == old(self).deck.cards@.drop_last()
            },
            forall|j: int|
                0 <= j < old(self).players@.len() && j != player_index as int ==> final(self).players@[j] == old(self).players@[j],
            final(self).dealer == old(self).dealer,
            final(self).deck.n == old(self).deck.n,
    {
        let ghost hand0 = self.players@[player_index as int].hand@;
        let card = self.deck.deal();
        let p = &mut self.players[player_index];
        p.add_card(card);
        proof {
            let hand1 = self.players@[player_index as int].hand@;
            assert(hand1 == hand0.push(card));
            assert(hand1.take(hand0.len() as int) =~= hand0);
            assert forall|k: int| 0 <= k < hand1.len() implies card_wf(
                #[trigger] hand1[k],
            ) by {
                if k < hand0.len() {
                    assert(hand1[k] == hand0[k]);
                }
            }
        }
    }

    /// The dealer's automated turn: hit while strictly under 17, stand at
    /// 17 or more. A dealer already at 17 or more is never dealt a card,
    /// and the turn always ends with the dealer's total at 17 or more.
    pub fn dealer_play(&mut self)
        requires
            old(self).wf(),
            naive_sum(old(self).dealer.hand@) <= u8::MAX,
        ensures
            final(self).wf(),
            naive_sum(final(self).dealer.hand@) <= u8::MAX,
            hand_total(final(self).dealer.hand@) >= 17,
            hand_total(old(self).dealer.hand@) >= 17 ==> final(self).dealer == old(self).dealer
                && final(self).deck == old(self).deck,
            hand_total(old(self).dealer.hand@) < 17 ==> final(self).dealer.hand@.len() > old(self).dealer.hand@.len(),
            final(self).dealer.hand@.take(old(self).dealer.hand@.len() as int) == old(self).dealer.hand@,
            final(self).players == old(self).players,
            final(self).deck.n == old(self).deck.n,
    {
        while self.dealer.hand_value() < 17
            invariant
                self.wf(),
                naive_sum(self.dealer.hand@) <= u8::MAX,
                self.players == old(self).players,
                self.deck.n == old(self).deck.n,
                self.dealer.hand@.take(old(self).dealer.hand@.len() as int) == old(self).dealer.hand@,
                (self.dealer == old(self).dealer && self.deck == old(self).deck) || (
                self.dealer.hand@.len() > old(self).dealer.hand@.len() && hand_total(
                    old(self).dealer.hand@,
                ) < 17),
            decreases stand_deficit(self.dealer.hand@),
        {
            let ghost hand0 = self.dealer.hand@;
            proof {
                lemma_total_bounds_naive(hand0);
            }
            let card = self.deck.deal();
            self.dealer.add_card(card);
            proof {
                lemma_sums_push(hand0, card);
                lemma_dealer_turn_progress(hand0, card);
                let hand1 = self.dealer.hand@;
                assert(hand1 == hand0.push(card));
                assert(hand1.take(old(self).dealer.hand@.len() as int) =~= old(self).dealer.hand@);
                assert forall|k: int| 0 <= k < hand1.len() implies card_wf(
                    #[trigger] hand1[k],
                ) by {
                    if k < hand0.len() {
                        assert(hand1[k] == hand0[k]);
                    }
                }
            }
        }
    }

    /// The outcome of the player at the given index against the dealer's
    /// current total, in the fixed priority order of outcome_of.
    pub fn get_outcome(&self, player_index: usize) -> (o: PlayerOutcome)
        requires
            player_index < self.players@.len(),
            naive_sum(self.players@[player_index as int].hand@) <= u8::MAX,
            naive_sum(self.dealer.hand@) <= u8::MAX,
        ensures
            o == outcome_of(
                hand_total(self.players@[player_index as int].hand@),
                self.players@[player_index as int].hand@.len() as int,
                hand_total(self.dealer.hand@),
            ),
    {
        let dealer_value = self.dealer.hand_value();
        self.players[player_index].get_outcome(dealer_value)
    }

    pub fn get_player_hand(&self, player_index: usize) -> (hand: &Vec<Card>)
        requires
            player_index < self.players@.len(),
        ensures
            hand@ == self.players@[player_index as int].hand@,
    {
        &self.players[player_index].hand
    }

    pub fn get_player_hand_value(&self, player_index: usize) -> (v: u8)
        requires
            player_index < self.players@.len(),
            naive_sum(self.players@[player_index as int].hand@) <= u8::MAX,
        ensures
            v as int == hand_total(self.players@[player_index as int].hand@),
    {
        self.players[player_index].hand_value()
    }

    pub fn get_dealer_hand(&self) -> (hand: &Vec<Card>)
        ensures
            hand@ == self.dealer.hand@,
    {
        &self.dealer.hand
    }

    pub fn get_dealer_hand_value(&self) -> (v: u8)
        requires
            naive_sum(self.dealer.hand@) <= u8::MAX,
        ensures
            v as int == hand_total(self.dealer.hand@),
    {
        self.dealer.hand_value()
    }
}

} // verus!
