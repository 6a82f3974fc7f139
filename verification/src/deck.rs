//! The deck of fifty-two cards from which hands are dealt.

use crate::card::Card;
use crate::card::CardRank;
use crate::card::CardSuite;
use rand::seq::SliceRandom;
use rand::thread_rng;
use vstd::prelude::*;

verus! {

/// The cards that are left, the top card last.
pub struct Deck {
    cards: Vec<Card>,
}

impl View for Deck {
    type V = Seq<Card>;

    closed spec fn view(&self) -> Seq<Card> {
        self.cards@
    }
}

/// A new deck: suit by suit, and within a suit from the two up to the ace.
pub open spec fn full_deck() -> Seq<Card> {
    Seq::new(52, |i: int| Card { rank: CardRank::at(i % 13), suite: CardSuite::at(i / 13) })
}

/// A new deck holds each card of the fifty-two exactly once.
pub proof fn lemma_full_deck_complete()
    ensures
        full_deck().len() == 52,
        forall|r: CardRank, s: CardSuite|
            0 <= 13 * s.ordinal() + r.ordinal() < 52 && #[trigger] full_deck()[13 * s.ordinal()
                + r.ordinal()] == (Card { rank: r, suite: s }),
        forall|i: int, j: int|
            0 <= i < 52 && 0 <= j < 52 && i != j ==> full_deck()[i] != full_deck()[j],
{
    assert forall|r: CardRank, s: CardSuite|
        0 <= 13 * s.ordinal() + r.ordinal() < 52 && #[trigger] full_deck()[13 * s.ordinal()
            + r.ordinal()] == (Card { rank: r, suite: s }) by {
        let i = 13 * s.ordinal() + r.ordinal();
        assert(i % 13 == r.ordinal() && i / 13 == s.ordinal());
    }
    assert forall|i: int, j: int| 0 <= i < 52 && 0 <= j < 52 && i != j implies full_deck()[i]
        != full_deck()[j] by {
        assert(CardRank::at(i % 13).ordinal() == i % 13);
        assert(CardRank::at(j % 13).ordinal() == j % 13);
        assert(CardSuite::at(i / 13).ordinal() == i / 13);
        assert(CardSuite::at(j / 13).ordinal() == j / 13);
    }
}

/// Reorders the cards at random: `rand::seq::SliceRandom::shuffle`, drawing
/// from the generator that `rand::thread_rng` gives. The shuffle exchanges
/// cards pairwise and does nothing else, so afterwards the same cards are
/// there, each as often as before; in which order is left open. Should the
/// system refuse the generator its seed, `thread_rng` does not return.
#[verifier::external_body]
fn shuffle_cards(cards: &mut Vec<Card>)
    ensures
        final(cards)@.to_multiset() == old(cards)@.to_multiset(),
{
    cards.shuffle(&mut thread_rng());
}

impl Deck {
    /// A full deck in its fixed order, the ace of the last suit on top.
    pub fn new() -> (d: Deck)
        ensures
            d@ == full_deck(),
    {
        let mut v: Vec<Card> = Vec::new();
        let mut s: usize = 0;
        while s < 4
            invariant
                s <= 4,
                v@ == full_deck().take(13 * s),
            decreases 4 - s,
        {
            let suite = CardSuite::from_index(s);
            let mut r: usize = 0;
            while r < 13
                invariant
                    s < 4,
                    r <= 13,
                    suite == CardSuite::at(s as int),
                    v@ == full_deck().take(13 * s + r),
                decreases 13 - r,
            {
                let rank = CardRank::from_index(r);
                v.push(Card { rank, suite });
                proof {
                    let i = 13 * s + r;
                    assert(i % 13 == r && i / 13 == s);
                    assert(full_deck().take(i + 1) == full_deck().take(i).push(full_deck()[i]));
                }
                r = r + 1;
            }
            s = s + 1;
        }
        assert(full_deck().take(52) == full_deck());
        Deck { cards: v }
    }

    /// Puts the cards into a random order.
    pub fn shuffle(&mut self)
        ensures
            final(self)@.to_multiset() == old(self)@.to_multiset(),
            final(self)@.len() == old(self)@.len(),
    {
        let ghost before = self.cards@;
        shuffle_cards(&mut self.cards);
        proof {
            before.to_multiset_ensures();
            self.cards@.to_multiset_ensures();
        }
    }

    /// Takes the top card off the deck; an empty deck gives none and stays
    /// as it is.
    pub fn draw(&mut self) -> (c: Option<Card>)
        ensures
            old(self)@.len() > 0 ==> c == Some(old(self)@.last()) && final(self)@ == old(
                self,
            )@.drop_last(),
            old(self)@.len() == 0 ==> c.is_none() && final(self)@ == old(self)@,
    {
        self.cards.pop()
    }

    /// The number of cards that are left.
    pub fn count(&self) -> (n: usize)
        ensures
            n == self@.len(),
    {
        self.cards.len()
    }
}

} // verus!
