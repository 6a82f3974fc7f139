//! The description of a classified hand in words.

use crate::card::Card;
use crate::card::HandRank;
use crate::classify::Classified;
use crate::classify::HandWithData;
use crate::hand::names_joined;
use crate::hand::Hand;
use vstd::prelude::*;

verus! {

/// The cards' rank texts in order, separated by single spaces.
pub open spec fn ranks_joined(cards: Seq<Card>) -> Seq<char>
    decreases cards.len(),
{
    if cards.len() == 0 {
        Seq::empty()
    } else if cards.len() == 1 {
        cards[0].rank.name_spec()
    } else {
        ranks_joined(cards.drop_last()) + " "@ + cards.last().rank.name_spec()
    }
}

/// What is said of a hand beyond its category: the fields by which hands of
/// the category are compared, each under its label. A suit is shown only in
/// the two categories that are made by suits; elsewhere a card is named by
/// its rank.
pub open spec fn details(c: Classified) -> Seq<char> {
    match c.category {
        HandRank::StraightFlush => "High: "@ + c.kickers[0].name_spec(),
        HandRank::FourOfAKind => "Rank: "@ + c.primary[0].rank.name_spec(),
        HandRank::FullHouse => "Rank: "@ + c.primary[0].rank.name_spec() + ", Kicker: "@
            + c.kickers[0].rank.name_spec(),
        HandRank::Flush => "Rank: "@ + names_joined(c.primary),
        HandRank::Straight => "High: "@ + c.kickers[0].rank.name_spec(),
        HandRank::ThreeOfAKind => "Rank: "@ + c.primary[0].rank.name_spec() + ", Kickers: "@
            + ranks_joined(c.kickers),
        HandRank::TwoPair => "High Rank: "@ + c.primary[0].rank.name_spec() + ", Low Rank: "@
            + c.primary[1].rank.name_spec() + ", Kicker: "@ + c.kickers[0].rank.name_spec(),
        HandRank::Pair => "Rank: "@ + c.primary[0].rank.name_spec() + ", Kickers: "@
            + ranks_joined(c.kickers),
        HandRank::HighCard => "Kickers: "@ + ranks_joined(c.kickers),
    }
}

/// The category's name, a comma, and the details.
pub open spec fn describe(c: Classified) -> Seq<char> {
    c.category.name_spec() + ", "@ + details(c)
}

fn rank_names(h: &Hand) -> (s: String)
    ensures
        s@ == ranks_joined(h@),
{
    let mut s = String::new();
    let mut i: usize = 0;
    while i < h.count()
        invariant
            i <= h@.len(),
            s@ == ranks_joined(h@.take(i as int)),
        decreases h@.len() - i,
    {
        if i > 0 {
            s.append(" ");
        }
        let name = h.card(i).rank.name();
        s.append(name.as_str());
        proof {
            let next = h@.take(i + 1);
            assert(next.drop_last() == h@.take(i as int));
            assert(next.last() == h@[i as int]);
            if i == 0 {
                assert(s@ == h@[0].rank.name_spec());
            }
        }
        i = i + 1;
    }
    assert(h@.take(i as int) == h@);
    s
}

impl HandWithData {
    fn details_text(&self) -> (d: String)
        ensures
            d@ == details(self@),
    {
        let hand = self.hand();
        let kicker = self.kicker();
        match self.rank() {
            HandRank::StraightFlush => {
                let mut d = "High: ".to_owned();
                d.append(kicker.card(0).name().as_str());
                d
            },
            HandRank::FourOfAKind => {
                let mut d = "Rank: ".to_owned();
                d.append(hand.card(0).rank.name().as_str());
                d
            },
            HandRank::FullHouse => {
                let mut d = "Rank: ".to_owned();
                d.append(hand.card(0).rank.name().as_str());
                d.append(", Kicker: ");
                d.append(kicker.card(0).rank.name().as_str());
                d
            },
            HandRank::Flush => {
                let mut d = "Rank: ".to_owned();
                d.append(hand.to_string().as_str());
                d
            },
            HandRank::Straight => {
                let mut d = "High: ".to_owned();
                d.append(kicker.card(0).rank.name().as_str());
                d
            },
            HandRank::ThreeOfAKind | HandRank::Pair => {
                let mut d = "Rank: ".to_owned();
                d.append(hand.card(0).rank.name().as_str());
                d.append(", Kickers: ");
                d.append(rank_names(kicker).as_str());
                d
            },
            HandRank::TwoPair => {
                let mut d = "High Rank: ".to_owned();
                d.append(hand.card(0).rank.name().as_str());
                d.append(", Low Rank: ");
                d.append(hand.card(1).rank.name().as_str());
                d.append(", Kicker: ");
                d.append(kicker.card(0).rank.name().as_str());
                d
            },
            HandRank::HighCard => {
                let mut d = "Kickers: ".to_owned();
                d.append(rank_names(kicker).as_str());
                d
            },
        }
    }

    /// The hand in words: the category's name, then the fields that the
    /// category compares.
    pub fn to_string(&self) -> (s: String)
        ensures
            s@ == describe(self@),
    {
        let mut s = self.rank().name();
        s.append(", ");
        let d = self.details_text();
        s.append(d.as_str());
        s
    }
}

} // verus!
