//! Stable sorting of cards by descending rank, as a function on sequences,
//! with the facts that evaluation relies on.

use crate::card::Card;
use vstd::prelude::*;

verus! {

/// The strengths of the cards' ranks, position by position.
pub open spec fn rank_values(s: Seq<Card>) -> Seq<int> {
    s.map_values(|c: Card| c.rank.ordinal())
}

/// No card is followed by one of a higher rank.
pub open spec fn ranks_descend(s: Seq<Card>) -> bool {
    forall|i: int, j: int| 0 <= i < j < s.len() ==> s[i].rank.ordinal() >= s[j].rank.ordinal()
}

/// Puts `c` into a descending run behind every card that does not rank below it.
pub open spec fn insert_by_rank(s: Seq<Card>, c: Card) -> Seq<Card>
    decreases s.len(),
{
    if s.len() == 0 {
        seq![c]
    } else if s.last().rank.ordinal() >= c.rank.ordinal() {
        s.push(c)
    } else {
        insert_by_rank(s.drop_last(), c).push(s.last())
    }
}

/// The cards by descending rank; cards of one rank keep the order they came in.
pub open spec fn sorted_by_rank(s: Seq<Card>) -> Seq<Card>
    decreases s.len(),
{
    if s.len() == 0 {
        Seq::empty()
    } else {
        insert_by_rank(sorted_by_rank(s.drop_last()), s.last())
    }
}

/// Inserting into a descending run gives a descending run with one more card:
/// the cards that were there, and the new one.
pub proof fn lemma_insert_by_rank(s: Seq<Card>, c: Card)
    requires
        ranks_descend(s),
    ensures
        insert_by_rank(s, c).len() == s.len() + 1,
        ranks_descend(insert_by_rank(s, c)),
        insert_by_rank(s, c).to_multiset() == s.to_multiset().insert(c),
        forall|k: int|
            0 <= k < insert_by_rank(s, c).len() ==> #[trigger] insert_by_rank(s, c)[k] == c
                || s.contains(insert_by_rank(s, c)[k]),
    decreases s.len(),
{
    broadcast use vstd::seq_lib::group_to_multiset_ensures;

    let r = insert_by_rank(s, c);
    if s.len() == 0 {
        assert(s =~= Seq::<Card>::empty());
        assert(r =~= Seq::<Card>::empty().push(c));
    } else if s.last().rank.ordinal() >= c.rank.ordinal() {
        assert forall|k: int| 0 <= k < r.len() implies #[trigger] r[k] == c || s.contains(r[k]) by {
            if k < s.len() {
                assert(s[k] == r[k]);
            }
        }
    } else {
        let front = s.drop_last();
        let inner = insert_by_rank(front, c);
        lemma_insert_by_rank(front, c);
        assert(s =~= front.push(s.last()));
        assert forall|i: int, j: int| 0 <= i < j < r.len() implies r[i].rank.ordinal()
            >= r[j].rank.ordinal() by {
            if j == r.len() - 1 {
                assert(inner[i] == c || front.contains(inner[i]));
                if inner[i] != c {
                    let w = choose|w: int| 0 <= w < front.len() && front[w] == inner[i];
                    assert(s[w] == inner[i]);
                }
            }
        }
        assert forall|k: int| 0 <= k < r.len() implies #[trigger] r[k] == c || s.contains(r[k]) by {
            if k < inner.len() {
                assert(inner[k] == c || front.contains(inner[k]));
                if inner[k] != c {
                    let w = choose|w: int| 0 <= w < front.len() && front[w] == inner[k];
                    assert(s[w] == inner[k]);
                }
            } else {
                assert(s[s.len() - 1] == r[k]);
            }
        }
        assert(r.to_multiset() == s.to_multiset().insert(c)) by {
            assert(r.to_multiset() == inner.to_multiset().insert(s.last()));
            assert(s.to_multiset() == front.to_multiset().insert(s.last()));
            assert(front.to_multiset().insert(c).insert(s.last()) =~= front.to_multiset().insert(
                s.last(),
            ).insert(c));
        }
    }
}

/// Sorting keeps the cards and their number, and leaves them in descending
/// order of rank.
pub proof fn lemma_sorted_by_rank(s: Seq<Card>)
    ensures
        sorted_by_rank(s).len() == s.len(),
        ranks_descend(sorted_by_rank(s)),
        sorted_by_rank(s).to_multiset() == s.to_multiset(),
    decreases s.len(),
{
    broadcast use vstd::seq_lib::group_to_multiset_ensures;

    if s.len() == 0 {
        assert(s =~= Seq::<Card>::empty());
    } else {
        let front = s.drop_last();
        lemma_sorted_by_rank(front);
        lemma_insert_by_rank(sorted_by_rank(front), s.last());
        assert(s =~= front.push(s.last()));
    }
}

/// Where the cards from position `j` on rank below `c` and the card before
/// position `j`, if there is one, does not, `c` is inserted at position `j`.
pub proof fn lemma_insert_position(s: Seq<Card>, c: Card, j: int)
    requires
        0 <= j <= s.len(),
        forall|k: int| j <= k < s.len() ==> s[k].rank.ordinal() < c.rank.ordinal(),
        j > 0 ==> s[j - 1].rank.ordinal() >= c.rank.ordinal(),
    ensures
        insert_by_rank(s, c) == s.insert(j, c),
    decreases s.len(),
{
    if s.len() == 0 {
        assert(s.insert(j, c) =~= seq![c]);
    } else if j == s.len() {
        assert(s.insert(j, c) =~= s.push(c));
    } else {
        let front = s.drop_last();
        lemma_insert_position(front, c, j);
        assert(s.insert(j, c) =~= front.insert(j, c).push(s.last()));
    }
}

} // verus!
