//! A hand: an ordered run of cards, and the position-by-position comparison
//! of two hands.

use crate::card::Card;
use crate::sorting::insert_by_rank;
use crate::sorting::lemma_insert_position;
use crate::sorting::sorted_by_rank;
use std::cmp::Ordering;
use vstd::prelude::*;

verus! {

/// Cards in the order in which they were added.
#[derive(PartialEq, Eq)]
pub struct Hand {
    cards: Vec<Card>,
}

impl View for Hand {
    type V = Seq<Card>;

    closed spec fn view(&self) -> Seq<Card> {
        self.cards@
    }
}

/// The cards' names in order, separated by single spaces.
pub open spec fn names_joined(cards: Seq<Card>) -> Seq<char>
    decreases cards.len(),
{
    if cards.len() == 0 {
        Seq::empty()
    } else if cards.len() == 1 {
        cards[0].name_spec()
    } else {
        names_joined(cards.drop_last()) + " "@ + cards.last().name_spec()
    }
}

/// Compares two runs of cards position by position, by rank: the first
/// position at which the ranks differ decides, and where none differs over
/// the common length the runs are equal.
pub open spec fn cards_order(a: Seq<Card>, b: Seq<Card>) -> Ordering
    decreases a.len(),
{
    if a.len() == 0 || b.len() == 0 {
        Ordering::Equal
    } else if a[0].rank != b[0].rank {
        a[0].order(b[0])
    } else {
        cards_order(a.skip(1), b.skip(1))
    }
}

impl Hand {
    /// A hand without cards.
    pub fn new() -> (h: Hand)
        ensures
            h@ == Seq::<Card>::empty(),
    {
        Hand { cards: Vec::new() }
    }

    /// A hand of the five cards, in the order given.
    pub fn new_from_cards(c1: Card, c2: Card, c3: Card, c4: Card, c5: Card) -> (h: Hand)
        ensures
            h@ == seq![c1, c2, c3, c4, c5],
    {
        let mut hand = Hand::new();
        hand.add(c1);
        hand.add(c2);
        hand.add(c3);
        hand.add(c4);
        hand.add(c5);
        hand
    }

    /// Puts a card behind the cards that are there.
    pub fn add(&mut self, card: Card)
        ensures
            final(self)@ == old(self)@.push(card),
    {
        self.cards.push(card)
    }

    /// The number of cards.
    pub fn count(&self) -> (n: usize)
        ensures
            n == self@.len(),
    {
        self.cards.len()
    }

    /// The card at position `idx`.
    pub fn card(&self, idx: usize) -> (c: Card)
        requires
            idx < self@.len(),
        ensures
            c == self@[idx as int],
    {
        self.cards[idx]
    }

    /// Takes the card at position `idx` out; the cards behind it move up.
    pub fn remove(&mut self, idx: usize) -> (c: Card)
        requires
            idx < old(self)@.len(),
        ensures
            c == old(self)@[idx as int],
            final(self)@ == old(self)@.remove(idx as int),
    {
        self.cards.remove(idx)
    }

    /// The hand's cards by descending rank, cards of one rank in the order
    /// they have here.
    pub fn sorted(&self) -> (h: Hand)
        ensures
            h@ == sorted_by_rank(self@),
    {
        let mut out: Vec<Card> = Vec::new();
        let mut i: usize = 0;
        while i < self.cards.len()
            invariant
                i <= self.cards@.len(),
                out@ == sorted_by_rank(self.cards@.take(i as int)),
            decreases self.cards@.len() - i,
        {
            let c = self.cards[i];
            let mut j: usize = out.len();
            while j > 0 && out[j - 1].rank.index() < c.rank.index()
                invariant
                    j <= out@.len(),
                    forall|k: int| j <= k < out@.len() ==> out@[k].rank.ordinal() < c.rank.ordinal(),
                decreases j,
            {
                j = j - 1;
            }
            proof {
                lemma_insert_position(out@, c, j as int);
                let next = self.cards@.take(i + 1);
                assert(next.drop_last() == self.cards@.take(i as int));
                assert(next.last() == c);
                assert(sorted_by_rank(next) == insert_by_rank(out@, c));
            }
            out.insert(j, c);
            i = i + 1;
        }
        assert(self.cards@.take(i as int) == self.cards@);
        Hand { cards: out }
    }

    /// The names of the cards, separated by single spaces.
    pub fn to_string(&self) -> (s: String)
        ensures
            s@ == names_joined(self@),
    {
        let mut s = String::new();
        let mut i: usize = 0;
        while i < self.cards.len()
            invariant
                i <= self.cards@.len(),
                s@ == names_joined(self.cards@.take(i as int)),
            decreases self.cards@.len() - i,
        {
            if i > 0 {
                s.append(" ");
            }
            let name = self.cards[i].name();
            s.append(name.as_str());
            proof {
                let next = self.cards@.take(i + 1);
                assert(next.drop_last() == self.cards@.take(i as int));
                assert(next.last() == self.cards@[i as int]);
                if i == 0 {
                    assert(s@ == self.cards@[0].name_spec());
                }
            }
            i = i + 1;
        }
        assert(self.cards@.take(i as int) == self.cards@);
        s
    }
}

/// A copy holds the same cards in the same order.
impl Clone for Hand {
    fn clone(&self) -> (h: Hand)
        ensures
            h@ == self@,
    {
        let mut cards: Vec<Card> = Vec::new();
        let mut i: usize = 0;
        while i < self.cards.len()
            invariant
                i <= self.cards@.len(),
                cards@ == self.cards@.take(i as int),
            decreases self.cards@.len() - i,
        {
            cards.push(self.cards[i]);
            i = i + 1;
        }
        assert(self.cards@.take(i as int) == self.cards@);
        Hand { cards }
    }
}

/// Position-by-position comparison of two hands of one length.
pub fn compare_sorted_hands(h1: &Hand, h2: &Hand) -> (res: Ordering)
    requires
        h1@.len() == h2@.len(),
    ensures
        res == cards_order(h1@, h2@),
{
    let mut i: usize = 0;
    let ghost mut done: int = 0;
    assert(h1@.skip(0) == h1@ && h2@.skip(0) == h2@);
    while i < h1.count()
        invariant
            done == i,
            0 <= done <= h1@.len(),
            h1@.len() == h2@.len(),
            cards_order(h1@, h2@) == cards_order(h1@.skip(done), h2@.skip(done)),
        decreases h1@.len() - done,
    {
        let res = h1.card(i).cmp(&h2.card(i));
        proof {
            let a = h1@.skip(done);
            let b = h2@.skip(done);
            assert(a[0] == h1@[done] && b[0] == h2@[done]);
            assert(a.skip(1) == h1@.skip(done + 1));
            assert(b.skip(1) == h2@.skip(done + 1));
        }
        match res {
            Ordering::Equal => {},
            _ => {
                return res;
            },
        }
        i = i + 1;
        proof {
            done = done + 1;
        }
    }
    Ordering::Equal
}

} // verus!
