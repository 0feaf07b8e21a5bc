use vstd::prelude::*;
use vstd::seq_lib::group_to_multiset_ensures;
use crate::card::{card_points, card_wf, Card, CardValue};

verus! {

pub open spec fn is_ace(c: Card) -> bool {
    c.value is Ace
}

/// Every card of the sequence carries a valid rank.
pub open spec fn cards_wf(s: Seq<Card>) -> bool {
    forall|i: int| 0 <= i < s.len() ==> card_wf(#[trigger] s[i])
}

/// The ace-high sum of a hand: every ace counted as 11.
pub open spec fn naive_sum(s: Seq<Card>) -> int
    decreases s.len(),
{
    if s.len() == 0 {
        0
    } else {
        naive_sum(s.drop_last()) + card_points(s.last())
    }
}

pub open spec fn ace_count(s: Seq<Card>) -> int
    decreases s.len(),
{
    if s.len() == 0 {
        0
    } else {
        ace_count(s.drop_last()) + if is_ace(s.last()) {
            1int
        } else {
            0int
        }
    }
}

/// Softening: while the total busts and a soft ace remains, one ace is
/// recounted as 1 instead of 11.
pub open spec fn soften(total: int, aces: int) -> int
    decreases aces,
{
    if total > 21 && aces > 0 {
        soften(total - 10, aces - 1)
    } else {
        total
    }
}

/// The blackjack value of a hand: the ace-high sum after ace softening.
pub open spec fn hand_total(s: Seq<Card>) -> int {
    soften(naive_sum(s), ace_count(s))
}

/// The value of a hand with every ace counted as 1.
pub open spec fn hard_total(s: Seq<Card>) -> int {
    naive_sum(s) - 10 * ace_count(s)
}

pub proof fn lemma_ace_count_bounds(s: Seq<Card>)
    ensures
        0 <= ace_count(s) <= s.len(),
    decreases s.len(),
{
    if s.len() > 0 {
        lemma_ace_count_bounds(s.drop_last());
    }
}

/// Appending a card adds its points to the ace-high sum.
pub proof fn lemma_sums_push(s: Seq<Card>, c: Card)
    ensures
        naive_sum(s.push(c)) == naive_sum(s) + card_points(c),
        ace_count(s.push(c)) == ace_count(s) + if is_ace(c) {
            1int
        } else {
            0int
        },
{
    assert(s.push(c).drop_last() =~= s);
    assert(s.push(c).last() == c);
}

/// A prefix of a hand has an ace-high sum no larger than the whole hand's.
pub proof fn lemma_naive_sum_take_le(s: Seq<Card>, i: int)
    requires
        0 <= i <= s.len(),
    ensures
        naive_sum(s.take(i)) <= naive_sum(s),
    decreases s.len() - i,
{
    if i == s.len() {
        assert(s.take(i) =~= s);
    } else {
        lemma_naive_sum_take_le(s, i + 1);
        assert(s.take(i + 1).drop_last() =~= s.take(i));
    }
}

/// With valid ranks no card is worth more than 11, which lets a caller
/// bound a hand's ace-high sum by its length and so meet the machine
/// limit that the evaluating functions ask for.
pub proof fn lemma_naive_sum_upper(s: Seq<Card>)
    requires
        cards_wf(s),
    ensures
        naive_sum(s) <= 11 * s.len(),
    decreases s.len(),
{
    if s.len() > 0 {
        assert(forall|i: int| 0 <= i < s.drop_last().len() ==> s.drop_last()[i] == s[i]);
        lemma_naive_sum_upper(s.drop_last());
        assert(card_wf(s.last())) by {
            assert(s[s.len() - 1] == s.last());
        }
    }
}

/// Softening lowers the total by exactly ten per softened ace, and never
/// softens more aces than it was given; the returned value is the number
/// of aces that were softened.
pub proof fn lemma_soften_bounds(total: int, aces: int) -> (k: int)
    requires
        aces >= 0,
    ensures
        0 <= k <= aces,
        soften(total, aces) == total - 10 * k,
        soften(total, aces) <= total,
        soften(total, aces) >= total - 10 * aces,
    decreases aces,
{
    if total > 21 && aces > 0 {
        let k0 = lemma_soften_bounds(total - 10, aces - 1);
        assert(soften(total, aces) == total - 10 * (k0 + 1));
        k0 + 1
    } else {
        assert(soften(total, aces) == total - 10 * 0);
        0
    }
}

/// Law: a hand's value never exceeds its naive ace-high sum, and each ace
/// contributes exactly 11 or 1: the value falls short of the sum by ten
/// per softened ace, never for more aces than the hand holds. The returned
/// value is the number of softened aces.
pub proof fn lemma_hand_total_le_naive(s: Seq<Card>) -> (k: int)
    ensures
        hand_total(s) <= naive_sum(s),
        0 <= k <= ace_count(s),
        hand_total(s) == naive_sum(s) - 10 * k,
{
    lemma_ace_count_bounds(s);
    lemma_soften_bounds(naive_sum(s), ace_count(s))
}

/// With valid ranks, every ace contributes 11 and every other card at
/// least 2 to the ace-high sum.
pub proof fn lemma_naive_sum_lower(s: Seq<Card>)
    requires
        cards_wf(s),
    ensures
        naive_sum(s) >= 11 * ace_count(s) + 2 * (s.len() - ace_count(s)),
    decreases s.len(),
{
    if s.len() > 0 {
        assert(forall|i: int| 0 <= i < s.drop_last().len() ==> s.drop_last()[i] == s[i]);
        lemma_naive_sum_lower(s.drop_last());
        assert(card_wf(s.last())) by {
            assert(s[s.len() - 1] == s.last());
        }
    }
}

/// With valid ranks the hand's value bounds everything else: it is at
/// least the number of aces and at least the all-aces-low value, so the
/// ace-high sum is at most eleven times the value.
pub proof fn lemma_total_bounds_naive(s: Seq<Card>)
    requires
        cards_wf(s),
    ensures
        ace_count(s) <= hand_total(s),
        hard_total(s) <= hand_total(s),
        naive_sum(s) <= 11 * hand_total(s),
{
    lemma_ace_count_bounds(s);
    lemma_naive_sum_lower(s);
    let k = lemma_soften_bounds(naive_sum(s), ace_count(s));
    assert(naive_sum(s) == hand_total(s) + 10 * k);
}

/// Removing a card takes exactly its points out of the ace-high sum.
proof fn lemma_sums_remove(s: Seq<Card>, i: int)
    requires
        0 <= i < s.len(),
    ensures
        naive_sum(s.remove(i)) == naive_sum(s) - card_points(s[i]),
        ace_count(s.remove(i)) == ace_count(s) - if is_ace(s[i]) {
            1int
        } else {
            0int
        },
    decreases s.len(),
{
    if i == s.len() - 1 {
        assert(s.remove(i) =~= s.drop_last());
    } else {
        lemma_sums_remove(s.drop_last(), i);
        assert(s.remove(i).drop_last() =~= s.drop_last().remove(i));
        assert(s.remove(i).last() == s.last());
        assert(s.drop_last()[i] == s[i]);
    }
}

proof fn lemma_sums_permutation(s1: Seq<Card>, s2: Seq<Card>)
    requires
        s1.to_multiset() == s2.to_multiset(),
    ensures
        naive_sum(s1) == naive_sum(s2),
        ace_count(s1) == ace_count(s2),
    decreases s1.len(),
{
    broadcast use group_to_multiset_ensures;

    if s1.len() == 0 {
        assert(s1.to_multiset().len() == s1.len());
        assert(s2.to_multiset().len() == s2.len());
        assert(s2.len() == 0);
    } else {
        let i = s1.len() - 1;
        let c = s1[i];
        assert(s1.contains(c));
        assert(s1.to_multiset().count(c) > 0);
        assert(s2.contains(c));
        let j = choose|j: int| 0 <= j < s2.len() && s2[j] == c;
        assert(s1.remove(i).to_multiset() == s1.to_multiset().remove(c));
        assert(s2.remove(j).to_multiset() == s2.to_multiset().remove(c));
        lemma_sums_permutation(s1.remove(i), s2.remove(j));
        lemma_sums_remove(s1, i);
        lemma_sums_remove(s2, j);
    }
}

/// Law: the value of a hand does not depend on the order in which its
/// cards were added, only on which cards it holds.
pub proof fn lemma_hand_total_permutation(s1: Seq<Card>, s2: Seq<Card>)
    requires
        s1.to_multiset() == s2.to_multiset(),
    ensures
        hand_total(s1) == hand_total(s2),
{
    lemma_sums_permutation(s1, s2);
}

/// A permutation of a pile of valid cards holds only valid cards.
pub proof fn lemma_permutation_preserves_wf(s1: Seq<Card>, s2: Seq<Card>)
    requires
        s1.to_multiset() == s2.to_multiset(),
        cards_wf(s1),
    ensures
        cards_wf(s2),
{
    broadcast use group_to_multiset_ensures;

    assert forall|i: int| 0 <= i < s2.len() implies card_wf(#[trigger] s2[i]) by {
        assert(s2.contains(s2[i]));
        assert(s2.to_multiset().count(s2[i]) > 0);
        assert(s1.contains(s2[i]));
        let j = choose|j: int| 0 <= j < s1.len() && s1[j] == s2[i];
        assert(card_wf(s1[j]));
    }
}

/// How far the all-aces-low value of the dealer's hand falls short of the
/// stand threshold; every hit shrinks this, which bounds the dealer's turn.
pub open spec fn stand_deficit(s: Seq<Card>) -> int {
    if hard_total(s) >= 17 {
        0
    } else {
        17 - hard_total(s)
    }
}

/// Law: the dealer's automated turn converges. While the dealer's value is
/// under 17 the deficit to the stand threshold is positive, and every
/// valid dealt card raises the all-aces-low total by at least one, so the
/// deficit strictly shrinks with each hit until a value of 17 or more is
/// reached, whatever cards the refilling deck supplies.
pub proof fn lemma_dealer_turn_progress(s: Seq<Card>, c: Card)
    requires
        cards_wf(s),
        card_wf(c),
        hand_total(s) < 17,
    ensures
        stand_deficit(s) > 0,
        stand_deficit(s.push(c)) < stand_deficit(s),
{
    lemma_total_bounds_naive(s);
    lemma_sums_push(s, c);
}

/// The shared hand-evaluation algorithm: sum the ace-high points, then
/// soften aces one by one while the total busts. Both participant roles
/// value their hands through this one function.
pub fn evaluate(hand: &Vec<Card>) -> (total: u8)
    requires
        naive_sum(hand@) <= u8::MAX,
    ensures
        total as int == hand_total(hand@),
{
    let mut total: u16 = 0;
    let mut aces: usize = 0;
    let mut i: usize = 0;
    while i < hand.len()
        invariant
            0 <= i <= hand@.len(),
            naive_sum(hand@) <= u8::MAX,
            total as int == naive_sum(hand@.take(i as int)),
            aces as int == ace_count(hand@.take(i as int)),
            aces <= i,
        decreases hand@.len() - i,
    {
        let c = hand[i];
        proof {
            lemma_naive_sum_take_le(hand@, i + 1);
            assert(hand@.take(i + 1).drop_last() =~= hand@.take(i as int));
            assert(hand@.take(i + 1).last() == hand@[i as int]);
        }
        if let CardValue::Ace = c.value {
            aces = aces + 1;
        }
        total = total + c.get_card_value() as u16;
        i = i + 1;
    }
    proof {
        assert(hand@.take(hand@.len() as int) =~= hand@);
    }
    while total > 21 && aces > 0
        invariant
            total <= u8::MAX as u16,
            soften(total as int, aces as int) == hand_total(hand@),
        decreases aces,
    {
        total = total - 10;
        aces = aces - 1;
    }
    total as u8
}

} // verus!
