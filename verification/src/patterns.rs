//! What the categories mean in terms of the cards themselves, whatever their
//! order: how often each rank occurs, whether the ranks make a run, and
//! whether the suits agree.

use crate::card::lemma_rank_ordinal_injective;
use crate::card::Card;
use crate::card::CardRank;
use crate::card::HandRank;
use crate::classify::category_of;
use crate::classify::classify;
use crate::classify::four_high;
use crate::classify::four_low;
use crate::classify::full_high;
use crate::classify::full_low;
use crate::classify::is_flush;
use crate::classify::is_run;
use crate::classify::is_straight;
use crate::classify::is_wheel;
use crate::classify::pairs_at;
use crate::classify::same_rank;
use crate::classify::three_at;
use crate::laws::lemma_flush_ignores_order;
use crate::laws::lemma_same_cards_same_ranks;
use crate::sorting::lemma_sorted_by_rank;
use crate::sorting::rank_values;
use crate::sorting::ranks_descend;
use crate::sorting::sorted_by_rank;
use vstd::prelude::*;

verus! {

/// How many of the cards have a rank of strength `v`.
pub open spec fn occurrences_of(hand: Seq<Card>, v: int) -> nat {
    rank_values(hand).to_multiset().count(v)
}

/// How many of the cards have rank `r`.
pub open spec fn occurrences(hand: Seq<Card>, r: CardRank) -> nat {
    occurrences_of(hand, r.ordinal())
}

/// Some rank occurs at least `n` times.
pub open spec fn has_at_least(hand: Seq<Card>, n: nat) -> bool {
    exists|r: CardRank| #[trigger] occurrences(hand, r) >= n
}

/// Some rank occurs exactly `n` times.
pub open spec fn has_group(hand: Seq<Card>, n: nat) -> bool {
    exists|r: CardRank| #[trigger] occurrences(hand, r) == n
}

/// Two different ranks occur twice each.
pub open spec fn has_two_pairs(hand: Seq<Card>) -> bool {
    exists|r1: CardRank, r2: CardRank|
        r1 != r2 && #[trigger] occurrences(hand, r1) == 2 && #[trigger] occurrences(hand, r2) == 2
}

/// Five ranks in a row occur once each, from strength `low` up.
pub open spec fn run_from(hand: Seq<Card>, low: int) -> bool {
    &&& occurrences_of(hand, low) == 1
    &&& occurrences_of(hand, low + 1) == 1
    &&& occurrences_of(hand, low + 2) == 1
    &&& occurrences_of(hand, low + 3) == 1
    &&& occurrences_of(hand, low + 4) == 1
}

/// Ace, two, three, four and five occur once each.
pub open spec fn holds_wheel(hand: Seq<Card>) -> bool {
    &&& occurrences(hand, CardRank::Ace) == 1
    &&& occurrences(hand, CardRank::Two) == 1
    &&& occurrences(hand, CardRank::Three) == 1
    &&& occurrences(hand, CardRank::Four) == 1
    &&& occurrences(hand, CardRank::Five) == 1
}

/// The five ranks are five in a row, the ace high or, in the wheel, low.
pub open spec fn makes_straight(hand: Seq<Card>) -> bool {
    holds_wheel(hand) || exists|low: int| 0 <= low <= 8 && #[trigger] run_from(hand, low)
}

/// The category of five cards, read off the cards in whatever order they
/// stand: the strongest pattern that they make.
pub open spec fn category_by_counts(hand: Seq<Card>) -> HandRank {
    if is_flush(hand) && makes_straight(hand) {
        HandRank::StraightFlush
    } else if has_at_least(hand, 4) {
        HandRank::FourOfAKind
    } else if has_group(hand, 3) && has_group(hand, 2) {
        HandRank::FullHouse
    } else if is_flush(hand) {
        HandRank::Flush
    } else if makes_straight(hand) {
        HandRank::Straight
    } else if has_group(hand, 3) {
        HandRank::ThreeOfAKind
    } else if has_two_pairs(hand) {
        HandRank::TwoPair
    } else if has_group(hand, 2) {
        HandRank::Pair
    } else {
        HandRank::HighCard
    }
}

/// One if the card at position `i` has a rank of strength `v`, else nought.
pub open spec fn hit(s: Seq<Card>, i: int, v: int) -> nat {
    if s[i].rank.ordinal() == v {
        1
    } else {
        0
    }
}

/// In five cards a rank occurs as often as there are positions that hold it.
pub proof fn lemma_occurrences_by_position(s: Seq<Card>)
    requires
        s.len() == 5,
    ensures
        forall|v: int| #[trigger]
            occurrences_of(s, v) == hit(s, 0, v) + hit(s, 1, v) + hit(s, 2, v) + hit(s, 3, v) + hit(
                s,
                4,
                v,
            ),
{
    broadcast use vstd::seq_lib::group_to_multiset_ensures;
    broadcast use vstd::multiset::group_multiset_axioms;

    let r = rank_values(s);
    let e = Seq::<int>::empty();
    let r1 = e.push(r[0]);
    let r2 = r1.push(r[1]);
    let r3 = r2.push(r[2]);
    let r4 = r3.push(r[3]);
    let r5 = r4.push(r[4]);
    assert(r =~= r5);
    assert(e.to_multiset() =~= vstd::multiset::Multiset::<int>::empty()) by {
        e.to_multiset_ensures();
    }
    assert forall|v: int| #[trigger]
        occurrences_of(s, v) == hit(s, 0, v) + hit(s, 1, v) + hit(s, 2, v) + hit(s, 3, v) + hit(
            s,
            4,
            v,
        ) by {
        assert(e.to_multiset().count(v) == 0);
        assert(r1.to_multiset().count(v) == hit(s, 0, v));
        assert(r2.to_multiset().count(v) == hit(s, 0, v) + hit(s, 1, v));
        assert(r3.to_multiset().count(v) == hit(s, 0, v) + hit(s, 1, v) + hit(s, 2, v));
        assert(r4.to_multiset().count(v) == hit(s, 0, v) + hit(s, 1, v) + hit(s, 2, v) + hit(
            s,
            3,
            v,
        ));
    }
}

/// Cards at two positions have one rank exactly if their ranks have one strength.
proof fn lemma_same_rank_by_value(s: Seq<Card>)
    requires
        s.len() == 5,
    ensures
        forall|i: int, j: int|
            0 <= i < 5 && 0 <= j < 5 ==> (#[trigger] same_rank(s, i, j) <==> s[i].rank.ordinal()
                == s[j].rank.ordinal()),
        forall|i: int| 0 <= i < 5 ==> 0 <= (#[trigger] s[i]).rank.ordinal() < 13,
        forall|i: int, r: CardRank|
            0 <= i < 5 ==> (#[trigger] hit(s, i, r.ordinal()) == 1 <==> s[i].rank == r),
{
    assert forall|i: int, j: int| 0 <= i < 5 && 0 <= j < 5 implies (#[trigger] same_rank(s, i, j)
        <==> s[i].rank.ordinal() == s[j].rank.ordinal()) by {
        lemma_rank_ordinal_injective(s[i].rank, s[j].rank);
    }
    assert forall|i: int| 0 <= i < 5 implies 0 <= (#[trigger] s[i]).rank.ordinal() < 13 by {
        lemma_rank_ordinal_injective(s[i].rank, s[i].rank);
    }
    assert forall|i: int, r: CardRank| 0 <= i < 5 implies (#[trigger] hit(s, i, r.ordinal()) == 1
        <==> s[i].rank == r) by {
        lemma_rank_ordinal_injective(s[i].rank, r);
    }
}

/// In five cards that stand in descending order, four of a rank stand at
/// the first four or at the last four positions.
pub proof fn lemma_four_by_counts(s: Seq<Card>)
    requires
        s.len() == 5,
        ranks_descend(s),
    ensures
        has_at_least(s, 4) <==> four_high(s) || four_low(s),
{
    lemma_occurrences_by_position(s);
    lemma_same_rank_by_value(s);
    if four_high(s) {
        assert(occurrences(s, s[0].rank) >= 4);
    }
    if four_low(s) {
        assert(occurrences(s, s[1].rank) >= 4);
    }
    if has_at_least(s, 4) {
        let r = choose|r: CardRank| #[trigger] occurrences(s, r) >= 4;
        assert(occurrences_of(s, r.ordinal()) >= 4);
    }
}

/// In five cards in descending order that hold no four of a rank, three of
/// a rank beside two of another stand as three and two or as two and three.
pub proof fn lemma_full_house_by_counts(s: Seq<Card>)
    requires
        s.len() == 5,
        ranks_descend(s),
    ensures
        has_group(s, 3) && has_group(s, 2) ==> full_high(s) || full_low(s),
        !four_high(s) && !four_low(s) && (full_high(s) || full_low(s)) ==> has_group(s, 3)
            && has_group(s, 2),
{
    lemma_occurrences_by_position(s);
    lemma_same_rank_by_value(s);
    if !four_high(s) && !four_low(s) && full_high(s) {
        assert(occurrences(s, s[0].rank) == 3);
        assert(occurrences(s, s[3].rank) == 2);
    }
    if !four_high(s) && !four_low(s) && full_low(s) {
        assert(occurrences(s, s[2].rank) == 3);
        assert(occurrences(s, s[0].rank) == 2);
    }
    if has_group(s, 3) && has_group(s, 2) {
        let r3 = choose|r: CardRank| #[trigger] occurrences(s, r) == 3;
        let r2 = choose|r: CardRank| #[trigger] occurrences(s, r) == 2;
        assert(occurrences_of(s, r3.ordinal()) == 3);
        assert(occurrences_of(s, r2.ordinal()) == 2);
    }
}

/// In five cards in descending order, five ranks in a row stand as a run,
/// and the ranks of the wheel stand as the wheel.
pub proof fn lemma_straight_by_counts(s: Seq<Card>)
    requires
        s.len() == 5,
        ranks_descend(s),
    ensures
        makes_straight(s) <==> is_straight(s),
{
    lemma_occurrences_by_position(s);
    lemma_same_rank_by_value(s);
    if is_run(s) {
        let low = s[4].rank.ordinal();
        assert(run_from(s, low));
    }
    if is_wheel(s) {
        assert(holds_wheel(s));
    }
    if holds_wheel(s) {
        assert(occurrences_of(s, 12) == 1);
        assert(occurrences_of(s, 0) == 1);
        assert(occurrences_of(s, 1) == 1);
        assert(occurrences_of(s, 2) == 1);
        assert(occurrences_of(s, 3) == 1);
        assert(s[0].rank.ordinal() == 12);
        assert(s[4].rank.ordinal() == 0);
        assert(s[3].rank.ordinal() == 1);
        assert(s[2].rank.ordinal() == 2);
        assert(s[1].rank.ordinal() == 3);
        lemma_rank_ordinal_injective(s[0].rank, CardRank::Ace);
        lemma_rank_ordinal_injective(s[1].rank, CardRank::Five);
        lemma_rank_ordinal_injective(s[2].rank, CardRank::Four);
        lemma_rank_ordinal_injective(s[3].rank, CardRank::Three);
        lemma_rank_ordinal_injective(s[4].rank, CardRank::Two);
        assert(is_wheel(s));
    }
    if exists|low: int| 0 <= low <= 8 && #[trigger] run_from(s, low) {
        let low = choose|low: int| 0 <= low <= 8 && #[trigger] run_from(s, low);
        assert(s[4].rank.ordinal() == low);
        assert(s[3].rank.ordinal() == low + 1);
        assert(s[2].rank.ordinal() == low + 2);
        assert(s[1].rank.ordinal() == low + 3);
        assert(s[0].rank.ordinal() == low + 4);
        assert(is_run(s));
    }
}

/// In five cards in descending order that hold neither four of a rank nor a
/// full house, three of a rank stand side by side.
pub proof fn lemma_three_by_counts(s: Seq<Card>)
    requires
        s.len() == 5,
        ranks_descend(s),
    ensures
        has_group(s, 3) ==> three_at(s, 0) || three_at(s, 1) || three_at(s, 2),
        !four_high(s) && !four_low(s) && (three_at(s, 0) || three_at(s, 1) || three_at(s, 2))
            ==> has_group(s, 3),
{
    lemma_occurrences_by_position(s);
    lemma_same_rank_by_value(s);
    if !four_high(s) && !four_low(s) {
        if three_at(s, 0) {
            assert(occurrences(s, s[0].rank) == 3);
        }
        if three_at(s, 1) {
            assert(occurrences(s, s[1].rank) == 3);
        }
        if three_at(s, 2) {
            assert(occurrences(s, s[2].rank) == 3);
        }
    }
    if has_group(s, 3) {
        let r = choose|r: CardRank| #[trigger] occurrences(s, r) == 3;
        assert(occurrences_of(s, r.ordinal()) == 3);
    }
}

/// In five cards in descending order that hold no three of a rank, two
/// pairs stand as two pairs of neighbours.
pub proof fn lemma_two_pairs_by_counts(s: Seq<Card>)
    requires
        s.len() == 5,
        ranks_descend(s),
        !(three_at(s, 0) || three_at(s, 1) || three_at(s, 2)),
    ensures
        has_two_pairs(s) <==> pairs_at(s, 0, 2) || pairs_at(s, 0, 3) || pairs_at(s, 1, 3),
{
    lemma_occurrences_by_position(s);
    lemma_same_rank_by_value(s);
    if pairs_at(s, 0, 2) {
        assert(occurrences(s, s[0].rank) == 2 && occurrences(s, s[2].rank) == 2);
    }
    if pairs_at(s, 0, 3) {
        assert(occurrences(s, s[0].rank) == 2 && occurrences(s, s[3].rank) == 2);
    }
    if pairs_at(s, 1, 3) {
        assert(occurrences(s, s[1].rank) == 2 && occurrences(s, s[3].rank) == 2);
    }
    if has_two_pairs(s) {
        let (r1, r2) = choose|r1: CardRank, r2: CardRank|
            r1 != r2 && #[trigger] occurrences(s, r1) == 2 && #[trigger] occurrences(s, r2) == 2;
        assert(occurrences_of(s, r1.ordinal()) == 2);
        assert(occurrences_of(s, r2.ordinal()) == 2);
        lemma_rank_ordinal_injective(r1, r2);
    }
}

/// In five cards in descending order that hold no three of a rank, a pair
/// stands as two neighbours.
pub proof fn lemma_pair_by_counts(s: Seq<Card>)
    requires
        s.len() == 5,
        ranks_descend(s),
        !(three_at(s, 0) || three_at(s, 1) || three_at(s, 2)),
    ensures
        has_group(s, 2) <==> same_rank(s, 0, 1) || same_rank(s, 1, 2) || same_rank(s, 2, 3)
            || same_rank(s, 3, 4),
{
    lemma_occurrences_by_position(s);
    lemma_same_rank_by_value(s);
    if same_rank(s, 0, 1) {
        assert(occurrences(s, s[0].rank) == 2);
    }
    if same_rank(s, 1, 2) {
        assert(occurrences(s, s[1].rank) == 2);
    }
    if same_rank(s, 2, 3) {
        assert(occurrences(s, s[2].rank) == 2);
    }
    if same_rank(s, 3, 4) {
        assert(occurrences(s, s[3].rank) == 2);
    }
    if has_group(s, 2) {
        let r = choose|r: CardRank| #[trigger] occurrences(s, r) == 2;
        assert(occurrences_of(s, r.ordinal()) == 2);
    }
}

/// Classification finds the strongest pattern that the five cards make, in
/// whatever order they stand: what is read off the sorted cards position by
/// position is what the counts of the ranks, the run of the ranks and the
/// agreement of the suits say.
pub proof fn lemma_category_by_counts(hand: Seq<Card>)
    requires
        hand.len() == 5,
    ensures
        classify(hand).category == category_by_counts(hand),
{
    let s = sorted_by_rank(hand);
    lemma_sorted_by_rank(hand);
    lemma_same_cards_same_ranks(s, hand);
    lemma_flush_ignores_order(s, hand);
    assert forall|v: int| occurrences_of(hand, v) == occurrences_of(s, v) by {}
    assert forall|r: CardRank| occurrences(hand, r) == occurrences(s, r) by {}
    assert(has_at_least(hand, 4) == has_at_least(s, 4));
    assert(has_group(hand, 3) == has_group(s, 3));
    assert(has_group(hand, 2) == has_group(s, 2));
    assert(has_two_pairs(hand) == has_two_pairs(s));
    assert(holds_wheel(hand) == holds_wheel(s));
    assert forall|low: int| run_from(hand, low) == run_from(s, low) by {}
    assert(makes_straight(hand) == makes_straight(s));
    lemma_four_by_counts(s);
    lemma_full_house_by_counts(s);
    lemma_straight_by_counts(s);
    lemma_three_by_counts(s);
    if !(three_at(s, 0) || three_at(s, 1) || three_at(s, 2)) {
        lemma_two_pairs_by_counts(s);
        lemma_pair_by_counts(s);
    }
    assert(category_by_counts(s) == category_of(s));
}

} // verus!
