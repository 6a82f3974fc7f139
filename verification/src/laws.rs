//! What holds of classification and comparison whatever the cards: the order
//! of the cards in a hand does not matter, nor do the suits beyond making a
//! flush, and the wheel is the lowest straight.

use crate::card::lemma_rank_ordinal_injective;
use crate::card::Card;
use crate::card::CardRank;
use crate::card::HandRank;
use crate::classify::category_of;
use crate::classify::classify;
use crate::classify::is_flush;
use crate::classify::is_run;
use crate::classify::is_wheel;
use crate::classify::kickers_of;
use crate::classify::primary_of;
use crate::classify::Classified;
use crate::hand::cards_order;
use crate::showdown::lemma_cards_order_equal;
use crate::showdown::showdown;
use crate::sorting::lemma_sorted_by_rank;
use crate::sorting::rank_values;
use crate::sorting::sorted_by_rank;
use std::cmp::Ordering;
use vstd::prelude::*;
use vstd::relations::sorted_by;
use vstd::relations::total_ordering;
use vstd::seq_lib::lemma_sorted_unique;
use vstd::seq_lib::to_multiset_contains;

verus! {

/// Hands that hold the same cards hold the same ranks.
pub proof fn lemma_same_cards_same_ranks(x: Seq<Card>, y: Seq<Card>)
    requires
        x.to_multiset() == y.to_multiset(),
    ensures
        rank_values(x).to_multiset() == rank_values(y).to_multiset(),
    decreases x.len(),
{
    broadcast use vstd::seq_lib::group_to_multiset_ensures;

    x.to_multiset_ensures();
    y.to_multiset_ensures();
    if x.len() == 0 {
        assert(y.len() == 0);
        assert(rank_values(x) =~= rank_values(y));
    } else {
        let e = x.last();
        let v = e.rank.ordinal();
        assert(x.contains(e)) by {
            assert(x[x.len() - 1] == e);
        }
        to_multiset_contains(x, e);
        to_multiset_contains(y, e);
        assert(y.contains(e));
        let j = choose|j: int| 0 <= j < y.len() && y[j] == e;
        let xs = x.drop_last();
        let ys = y.remove(j);
        assert(x =~= xs.push(e));
        assert(xs.to_multiset() =~= x.to_multiset().remove(e));
        assert(ys.to_multiset() =~= y.to_multiset().remove(e));
        lemma_same_cards_same_ranks(xs, ys);
        assert(rank_values(x) =~= rank_values(xs).push(v));
        assert(rank_values(ys) =~= rank_values(y).remove(j));
        assert(rank_values(y)[j] == v);
        rank_values(y).to_multiset_ensures();
        assert(rank_values(y).contains(v));
        assert(rank_values(y).to_multiset() =~= rank_values(ys).to_multiset().insert(v));
    }
}

/// Sorting two hands that hold the same ranks gives the same ranks at every
/// position.
pub proof fn lemma_sorted_ranks_agree(a: Seq<Card>, b: Seq<Card>)
    requires
        rank_values(a).to_multiset() == rank_values(b).to_multiset(),
    ensures
        sorted_by_rank(a).len() == sorted_by_rank(b).len(),
        forall|i: int|
            0 <= i < sorted_by_rank(a).len() ==> (#[trigger] sorted_by_rank(a)[i]).rank
                == sorted_by_rank(b)[i].rank,
{
    let sa = sorted_by_rank(a);
    let sb = sorted_by_rank(b);
    lemma_sorted_by_rank(a);
    lemma_sorted_by_rank(b);
    lemma_same_cards_same_ranks(sa, a);
    lemma_same_cards_same_ranks(sb, b);
    let not_below = |x: int, y: int| x >= y;
    assert(total_ordering(not_below));
    assert(sorted_by(rank_values(sa), not_below));
    assert(sorted_by(rank_values(sb), not_below));
    lemma_sorted_unique(rank_values(sa), rank_values(sb), not_below);
    assert forall|i: int| 0 <= i < sa.len() implies (#[trigger] sa[i]).rank == sb[i].rank by {
        assert(rank_values(sa)[i] == rank_values(sb)[i]);
        lemma_rank_ordinal_injective(sa[i].rank, sb[i].rank);
    }
}

/// Whether five cards make a flush does not depend on their order.
pub proof fn lemma_flush_ignores_order(x: Seq<Card>, y: Seq<Card>)
    requires
        x.len() == 5,
        y.len() == 5,
        x.to_multiset() == y.to_multiset(),
    ensures
        is_flush(x) == is_flush(y),
{
    broadcast use vstd::seq_lib::group_to_multiset_ensures;

    x.to_multiset_ensures();
    y.to_multiset_ensures();
    assert forall|i: int| 0 <= i < 5 implies x.contains(#[trigger] y[i]) && y.contains(
        #[trigger] x[i],
    ) by {
        assert(y.contains(y[i]));
        assert(x.contains(x[i]));
        to_multiset_contains(x, y[i]);
        to_multiset_contains(y, y[i]);
        to_multiset_contains(x, x[i]);
        to_multiset_contains(y, x[i]);
    }
    if is_flush(x) {
        assert forall|i: int| 0 <= i < 5 implies (#[trigger] y[i]).suite == x[0].suite by {
            let k = choose|k: int| 0 <= k < x.len() && x[k] == y[i];
        }
    }
    if is_flush(y) {
        assert forall|i: int| 0 <= i < 5 implies (#[trigger] x[i]).suite == y[0].suite by {
            let k = choose|k: int| 0 <= k < y.len() && y[k] == x[i];
        }
    }
}

/// Five cards in some order and five cards in another that agree in rank at
/// every position, and of which both or neither make a flush, are in one
/// category and agree in rank at every position of both groups.
pub proof fn lemma_groups_follow_ranks(s: Seq<Card>, t: Seq<Card>)
    requires
        s.len() == 5,
        t.len() == 5,
        forall|i: int| 0 <= i < 5 ==> (#[trigger] s[i]).rank == t[i].rank,
        is_flush(s) == is_flush(t),
    ensures
        category_of(s) == category_of(t),
        primary_of(s).len() == primary_of(t).len(),
        kickers_of(s).len() == kickers_of(t).len(),
        forall|i: int|
            0 <= i < primary_of(s).len() ==> (#[trigger] primary_of(s)[i]).rank == primary_of(
                t,
            )[i].rank,
        forall|i: int|
            0 <= i < kickers_of(s).len() ==> (#[trigger] kickers_of(s)[i]).rank == kickers_of(
                t,
            )[i].rank,
{
    assert(s[0].rank == t[0].rank);
    assert(s[1].rank == t[1].rank);
    assert(s[2].rank == t[2].rank);
    assert(s[3].rank == t[3].rank);
    assert(s[4].rank == t[4].rank);
}

/// Two hands that hold the same ranks, and of which both or neither make a
/// flush, are in one category and compare equal: beyond making a flush, suits
/// decide nothing.
pub proof fn lemma_suits_do_not_matter(a: Seq<Card>, b: Seq<Card>)
    requires
        a.len() == 5,
        b.len() == 5,
        rank_values(a).to_multiset() == rank_values(b).to_multiset(),
        is_flush(a) == is_flush(b),
    ensures
        classify(a).category == classify(b).category,
        showdown(classify(a), classify(b)) == Ordering::Equal,
{
    let sa = sorted_by_rank(a);
    let sb = sorted_by_rank(b);
    lemma_sorted_by_rank(a);
    lemma_sorted_by_rank(b);
    lemma_flush_ignores_order(sa, a);
    lemma_flush_ignores_order(sb, b);
    lemma_sorted_ranks_agree(a, b);
    lemma_groups_follow_ranks(sa, sb);
    let ta = classify(a).tie_breakers();
    let tb = classify(b).tie_breakers();
    assert forall|i: int| 0 <= i < ta.len() implies ta[i].rank == tb[i].rank by {
        let p = primary_of(sa).len();
        if i < p {
            assert(ta[i] == primary_of(sa)[i]);
            assert(tb[i] == primary_of(sb)[i]);
        } else {
            assert(ta[i] == kickers_of(sa)[i - p]);
            assert(tb[i] == kickers_of(sb)[i - p]);
        }
    }
    lemma_cards_order_equal(ta, tb);
}

/// The category of a hand does not depend on the order in which its cards
/// stand, and a hand compares equal to any reordering of itself.
pub proof fn lemma_classification_ignores_order(a: Seq<Card>, b: Seq<Card>)
    requires
        a.len() == 5,
        b.len() == 5,
        a.to_multiset() == b.to_multiset(),
    ensures
        classify(a).category == classify(b).category,
        showdown(classify(a), classify(b)) == Ordering::Equal,
{
    lemma_same_cards_same_ranks(a, b);
    lemma_flush_ignores_order(a, b);
    lemma_suits_do_not_matter(a, b);
}

/// The ranks of the wheel, as sorting leaves them: ace, five, four, three, two.
pub open spec fn wheel_ranks() -> Seq<int> {
    seq![
        CardRank::Ace.ordinal(),
        CardRank::Five.ordinal(),
        CardRank::Four.ordinal(),
        CardRank::Three.ordinal(),
        CardRank::Two.ordinal(),
    ]
}

/// Five cards are a straight of some kind: a straight or a straight flush.
pub open spec fn is_straight_hand(hand: Seq<Card>) -> bool {
    classify(hand).category == HandRank::Straight || classify(hand).category
        == HandRank::StraightFlush
}

/// A hand that holds ace, two, three, four and five, in any order, is a
/// straight, or a straight flush if it is of one suit, and the card that
/// counts as its highest is the five.
pub proof fn lemma_wheel_is_five_high(hand: Seq<Card>)
    requires
        hand.len() == 5,
        rank_values(hand).to_multiset() == wheel_ranks().to_multiset(),
    ensures
        is_wheel(sorted_by_rank(hand)),
        classify(hand).category == (if is_flush(hand) {
            HandRank::StraightFlush
        } else {
            HandRank::Straight
        }),
        classify(hand).kickers.len() == 1,
        classify(hand).kickers[0].rank == CardRank::Five,
{
    let s = sorted_by_rank(hand);
    lemma_sorted_by_rank(hand);
    lemma_same_cards_same_ranks(s, hand);
    lemma_flush_ignores_order(s, hand);
    let not_below = |x: int, y: int| x >= y;
    assert(total_ordering(not_below));
    assert(sorted_by(rank_values(s), not_below));
    assert(sorted_by(wheel_ranks(), not_below));
    lemma_sorted_unique(rank_values(s), wheel_ranks(), not_below);
    assert(rank_values(s)[0] == wheel_ranks()[0]);
    assert(rank_values(s)[1] == wheel_ranks()[1]);
    assert(rank_values(s)[2] == wheel_ranks()[2]);
    assert(rank_values(s)[3] == wheel_ranks()[3]);
    assert(rank_values(s)[4] == wheel_ranks()[4]);
}

/// The wheel is the lowest straight: it loses to every straight of its own
/// category that is not itself a wheel, and is equal to every other wheel of
/// that category.
pub proof fn lemma_wheel_is_lowest_straight(wheel: Seq<Card>, other: Seq<Card>)
    requires
        wheel.len() == 5,
        other.len() == 5,
        is_wheel(sorted_by_rank(wheel)),
        is_straight_hand(other),
        classify(other).category == classify(wheel).category,
    ensures
        is_straight_hand(wheel),
        is_wheel(sorted_by_rank(other)) ==> showdown(classify(wheel), classify(other))
            == Ordering::Equal,
        !is_wheel(sorted_by_rank(other)) ==> showdown(classify(wheel), classify(other))
            == Ordering::Less,
        !is_wheel(sorted_by_rank(other)) ==> classify(other).kickers[0].rank.ordinal()
            >= CardRank::Six.ordinal(),
{
    let s = sorted_by_rank(wheel);
    let t = sorted_by_rank(other);
    lemma_sorted_by_rank(wheel);
    lemma_sorted_by_rank(other);
    let kw = classify(wheel).kickers;
    let ko = classify(other).kickers;
    assert(classify(wheel).tie_breakers() =~= kw);
    assert(classify(other).tie_breakers() =~= ko);
    assert(kw.len() == 1 && ko.len() == 1);
    assert(kw[0].rank == CardRank::Five);
    if is_wheel(t) {
        assert(ko[0].rank == CardRank::Five);
    } else {
        assert(is_run(t));
        assert(ko[0] == t[0]);
        assert(t[0].rank.ordinal() == t[4].rank.ordinal() + 4);
    }
    assert(cards_order(kw.skip(1), ko.skip(1)) == Ordering::Equal);
}

/// The strengths of the five ranks of a classified hand, highest first, as
/// category and groups tell them: a straight runs down from its high card,
/// or is the wheel where that card is the five; a pattern card stands for as
/// many cards as its group has; every other card is a kicker.
pub open spec fn ranks_told(c: Classified) -> Seq<int> {
    let p = c.primary[0].rank.ordinal();
    let k = c.kickers[0].rank.ordinal();
    match c.category {
        HandRank::StraightFlush | HandRank::Straight => if k == CardRank::Five.ordinal() {
            wheel_ranks()
        } else {
            seq![k, k - 1, k - 2, k - 3, k - 4]
        },
        HandRank::FourOfAKind => if k > p {
            seq![k, p, p, p, p]
        } else {
            seq![p, p, p, p, k]
        },
        HandRank::FullHouse => if k > p {
            seq![k, k, p, p, p]
        } else {
            seq![p, p, p, k, k]
        },
        HandRank::Flush => rank_values(c.primary),
        HandRank::ThreeOfAKind => {
            let k1 = c.kickers[1].rank.ordinal();
            if p > k {
                seq![p, p, p, k, k1]
            } else if p > k1 {
                seq![k, p, p, p, k1]
            } else {
                seq![k, k1, p, p, p]
            }
        },
        HandRank::TwoPair => {
            let p1 = c.primary[1].rank.ordinal();
            if k > p {
                seq![k, p, p, p1, p1]
            } else if k > p1 {
                seq![p, p, k, p1, p1]
            } else {
                seq![p, p, p1, p1, k]
            }
        },
        HandRank::Pair => {
            let k1 = c.kickers[1].rank.ordinal();
            let k2 = c.kickers[2].rank.ordinal();
            if p > k {
                seq![p, p, k, k1, k2]
            } else if p > k1 {
                seq![k, p, p, k1, k2]
            } else if p > k2 {
                seq![k, k1, p, p, k2]
            } else {
                seq![k, k1, k2, p, p]
            }
        },
        HandRank::HighCard => rank_values(c.kickers),
    }
}

/// Category and groups together tell the ranks of all five cards: nothing
/// of the ranks is lost in classification.
pub proof fn lemma_groups_keep_ranks(hand: Seq<Card>)
    requires
        hand.len() == 5,
    ensures
        ranks_told(classify(hand)) == rank_values(sorted_by_rank(hand)),
        ranks_told(classify(hand)).to_multiset() == rank_values(hand).to_multiset(),
{
    let s = sorted_by_rank(hand);
    lemma_sorted_by_rank(hand);
    lemma_same_cards_same_ranks(s, hand);
    lemma_rank_ordinal_injective(s[0].rank, s[1].rank);
    lemma_rank_ordinal_injective(s[1].rank, s[2].rank);
    lemma_rank_ordinal_injective(s[2].rank, s[3].rank);
    lemma_rank_ordinal_injective(s[3].rank, s[4].rank);
    lemma_rank_ordinal_injective(s[0].rank, CardRank::Five);
    lemma_rank_ordinal_injective(s[1].rank, CardRank::Five);
    assert(s[0].rank.ordinal() >= s[1].rank.ordinal() >= s[2].rank.ordinal());
    assert(s[2].rank.ordinal() >= s[3].rank.ordinal() >= s[4].rank.ordinal());
    assert(ranks_told(classify(hand)) =~= rank_values(s));
}

} // verus!
