//! The order of classified hands: by category first, then by the cards that
//! break ties within the category.

use crate::card::int_order;
use crate::card::Card;
use crate::card::HandRank;
use crate::classify::Classified;
use crate::classify::HandWithData;
use crate::hand::cards_order;
use crate::hand::compare_sorted_hands;
use std::cmp::Ordering;
use vstd::prelude::*;
use vstd::std_specs::cmp::PartialEqSpecImpl;
use vstd::std_specs::cmp::PartialOrdSpecImpl;

verus! {

impl Classified {
    /// The cards that decide between two hands of this category, in the order
    /// in which they are compared: the pattern cards, then the kickers. Four
    /// of a kind is decided by its pattern card alone.
    pub open spec fn tie_breakers(self) -> Seq<Card> {
        if self.category == HandRank::FourOfAKind {
            self.primary
        } else {
            self.primary + self.kickers
        }
    }
}

/// How classified hand `a` stands to `b`. The stronger category wins; within
/// a category the tie-breakers are compared position by position, and hands
/// that agree in all of them are equal.
pub open spec fn showdown(a: Classified, b: Classified) -> Ordering {
    if a.category != b.category {
        int_order(a.category.ordinal(), b.category.ordinal())
    } else {
        cards_order(a.tie_breakers(), b.tie_breakers())
    }
}

/// Comparing two runs that each consist of a front part and a back part, the
/// front parts of one length: the front parts decide, and the back parts
/// where the front parts are equal.
pub proof fn lemma_cards_order_concat(
    front_a: Seq<Card>,
    back_a: Seq<Card>,
    front_b: Seq<Card>,
    back_b: Seq<Card>,
)
    requires
        front_a.len() == front_b.len(),
    ensures
        cards_order(front_a + back_a, front_b + back_b) == (if cards_order(front_a, front_b)
            != Ordering::Equal {
            cards_order(front_a, front_b)
        } else {
            cards_order(back_a, back_b)
        }),
    decreases front_a.len(),
{
    if front_a.len() == 0 {
        assert(front_a + back_a =~= back_a);
        assert(front_b + back_b =~= back_b);
    } else {
        assert((front_a + back_a).skip(1) =~= front_a.skip(1) + back_a);
        assert((front_b + back_b).skip(1) =~= front_b.skip(1) + back_b);
        lemma_cards_order_concat(front_a.skip(1), back_a, front_b.skip(1), back_b);
    }
}

/// Runs of one length whose ranks agree at every position are equal, and
/// only those.
pub proof fn lemma_cards_order_equal(a: Seq<Card>, b: Seq<Card>)
    requires
        a.len() == b.len(),
    ensures
        cards_order(a, b) == Ordering::Equal <==> (forall|i: int|
            0 <= i < a.len() ==> a[i].rank == b[i].rank),
    decreases a.len(),
{
    if a.len() == 0 {
    } else {
        lemma_cards_order_equal(a.skip(1), b.skip(1));
        if a[0].rank == b[0].rank {
            if cards_order(a, b) == Ordering::Equal {
                assert forall|i: int| 0 <= i < a.len() implies a[i].rank == b[i].rank by {
                    if i > 0 {
                        assert(a.skip(1)[i - 1] == a[i] && b.skip(1)[i - 1] == b[i]);
                    }
                }
            } else {
                let i = choose|i: int|
                    0 <= i < a.skip(1).len() && a.skip(1)[i].rank != b.skip(1)[i].rank;
                assert(a[i + 1].rank != b[i + 1].rank);
            }
        } else {
            assert(a[0].rank.ordinal() != b[0].rank.ordinal());
        }
    }
}

/// Exchanging the two runs exchanges less and greater.
pub proof fn lemma_cards_order_flip(a: Seq<Card>, b: Seq<Card>)
    requires
        a.len() == b.len(),
    ensures
        cards_order(a, b) == Ordering::Less <==> cards_order(b, a) == Ordering::Greater,
        cards_order(a, b) == Ordering::Greater <==> cards_order(b, a) == Ordering::Less,
        cards_order(a, b) == Ordering::Equal <==> cards_order(b, a) == Ordering::Equal,
    decreases a.len(),
{
    if a.len() > 0 {
        lemma_cards_order_flip(a.skip(1), b.skip(1));
    }
}

/// Where `a` is not above `b` and `b` is not above `c`, `a` is not above `c`;
/// and `a` is below `c` if one of the two steps is strict.
pub proof fn lemma_cards_order_transitive(a: Seq<Card>, b: Seq<Card>, c: Seq<Card>)
    requires
        a.len() == b.len(),
        b.len() == c.len(),
        cards_order(a, b) != Ordering::Greater,
        cards_order(b, c) != Ordering::Greater,
    ensures
        cards_order(a, c) != Ordering::Greater,
        cards_order(a, b) == Ordering::Less || cards_order(b, c) == Ordering::Less ==> cards_order(
            a,
            c,
        ) == Ordering::Less,
    decreases a.len(),
{
    if a.len() > 0 {
        if a[0].rank == b[0].rank && b[0].rank == c[0].rank {
            lemma_cards_order_transitive(a.skip(1), b.skip(1), c.skip(1));
        }
    }
}

/// A hand of a stronger category beats a hand of a weaker one, whatever
/// cards the two hold.
pub proof fn lemma_category_dominates(a: Classified, b: Classified)
    ensures
        a.category.ordinal() < b.category.ordinal() ==> showdown(a, b) == Ordering::Less,
        a.category.ordinal() > b.category.ordinal() ==> showdown(a, b) == Ordering::Greater,
        showdown(a, b) == Ordering::Equal ==> a.category == b.category,
{
}

/// Exchanging the two hands exchanges less and greater.
pub proof fn lemma_showdown_flip(a: Classified, b: Classified)
    requires
        a.well_formed(),
        b.well_formed(),
    ensures
        showdown(a, b) == Ordering::Less <==> showdown(b, a) == Ordering::Greater,
        showdown(a, b) == Ordering::Greater <==> showdown(b, a) == Ordering::Less,
        showdown(a, b) == Ordering::Equal <==> showdown(b, a) == Ordering::Equal,
{
    if a.category == b.category {
        lemma_cards_order_flip(a.tie_breakers(), b.tie_breakers());
    }
}

/// Every hand is equal to itself.
pub proof fn lemma_showdown_reflexive(a: Classified)
    ensures
        showdown(a, a) == Ordering::Equal,
{
    lemma_cards_order_equal(a.tie_breakers(), a.tie_breakers());
}

/// Where `a` is not above `b` and `b` is not above `c`, `a` is not above `c`;
/// and `a` is below `c` if one of the two steps is strict.
pub proof fn lemma_showdown_transitive(a: Classified, b: Classified, c: Classified)
    requires
        a.well_formed(),
        b.well_formed(),
        c.well_formed(),
        showdown(a, b) != Ordering::Greater,
        showdown(b, c) != Ordering::Greater,
    ensures
        showdown(a, c) != Ordering::Greater,
        showdown(a, b) == Ordering::Less || showdown(b, c) == Ordering::Less ==> showdown(a, c)
            == Ordering::Less,
{
    if a.category == b.category && b.category == c.category {
        lemma_cards_order_transitive(a.tie_breakers(), b.tie_breakers(), c.tie_breakers());
    }
}

impl HandWithData {
    /// Compares two classified hands: by category, and within a category by
    /// the fields that the category compares.
    pub fn cmp(&self, other: &HandWithData) -> (res: Ordering)
        ensures
            res == showdown(self@, other@),
    {
        let mine = self.rank().index();
        let theirs = other.rank().index();
        if mine < theirs {
            return Ordering::Less;
        }
        if mine > theirs {
            return Ordering::Greater;
        }
        let hand = self.hand();
        let kicker = self.kicker();
        let other_hand = other.hand();
        let other_kicker = other.kicker();
        proof {
            lemma_cards_order_concat(hand@, kicker@, other_hand@, other_kicker@);
        }
        match self.rank() {
            HandRank::FourOfAKind => compare_sorted_hands(hand, other_hand),
            HandRank::Flush => {
                assert(hand@ + kicker@ =~= hand@);
                assert(other_hand@ + other_kicker@ =~= other_hand@);
                compare_sorted_hands(hand, other_hand)
            },
            HandRank::StraightFlush | HandRank::Straight | HandRank::HighCard => {
                assert(hand@ + kicker@ =~= kicker@);
                assert(other_hand@ + other_kicker@ =~= other_kicker@);
                compare_sorted_hands(kicker, other_kicker)
            },
            HandRank::FullHouse | HandRank::ThreeOfAKind | HandRank::TwoPair | HandRank::Pair => {
                let by_pattern = compare_sorted_hands(hand, other_hand);
                match by_pattern {
                    Ordering::Equal => compare_sorted_hands(kicker, other_kicker),
                    _ => by_pattern,
                }
            },
        }
    }
}

/// Hands are equal where neither beats the other.
impl PartialEq for HandWithData {
    fn eq(&self, other: &HandWithData) -> (r: bool) {
        match self.cmp(other) {
            Ordering::Equal => true,
            _ => false,
        }
    }
}

impl PartialEqSpecImpl for HandWithData {
    open spec fn obeys_eq_spec() -> bool {
        true
    }

    open spec fn eq_spec(&self, other: &HandWithData) -> bool {
        showdown(self@, other@) == Ordering::Equal
    }
}

impl Eq for HandWithData {

}

/// Hands are ordered as `cmp` orders them.
impl PartialOrd for HandWithData {
    fn partial_cmp(&self, other: &HandWithData) -> (r: Option<Ordering>) {
        Some(self.cmp(other))
    }
}

impl PartialOrdSpecImpl for HandWithData {
    open spec fn obeys_partial_cmp_spec() -> bool {
        true
    }

    open spec fn partial_cmp_spec(&self, other: &HandWithData) -> Option<Ordering> {
        Some(showdown(self@, other@))
    }
}

} // verus!
