//! Suits, ranks, hand categories and cards: the ordering primitives on which
//! hand evaluation is built.

use std::cmp::Ordering;
use vstd::prelude::*;
use vstd::std_specs::cmp::PartialEqSpecImpl;
use vstd::std_specs::cmp::PartialOrdSpecImpl;

verus! {

/// The four suits. Suits carry no order; they are only ever tested for equality.
#[derive(Debug, Clone, Copy, PartialEq, Eq, Structural)]
pub enum CardSuite {
    Hearts,
    Spades,
    Diamonds,
    Clubs,
}

/// The thirteen ranks, lowest to highest. The ace is always high here.
#[derive(Debug, Copy, Clone, PartialOrd, Ord, PartialEq, Eq, Structural)]
pub enum CardRank {
    Two,
    Three,
    Four,
    Five,
    Six,
    Seven,
    Eight,
    Nine,
    Ten,
    Jack,
    Queen,
    King,
    Ace,
}

/// The nine hand categories, weakest to strongest.
#[derive(Debug, Copy, Clone, PartialOrd, Ord, PartialEq, Eq, Structural)]
pub enum HandRank {
    HighCard,
    Pair,
    TwoPair,
    ThreeOfAKind,
    Straight,
    Flush,
    FullHouse,
    FourOfAKind,
    StraightFlush,
}

/// A playing card. Cards are compared by rank alone: two cards of one rank
/// are equal and neither is less than the other, whatever their suits.
#[derive(Clone, Copy, Debug)]
pub struct Card {
    pub rank: CardRank,
    pub suite: CardSuite,
}

/// How two integers stand to each other.
pub open spec fn int_order(a: int, b: int) -> Ordering {
    if a < b {
        Ordering::Less
    } else if a == b {
        Ordering::Equal
    } else {
        Ordering::Greater
    }
}

impl CardSuite {
    /// Position of the suit in declaration order, from 0 to 3.
    pub open spec fn ordinal(self) -> int {
        match self {
            CardSuite::Hearts => 0,
            CardSuite::Spades => 1,
            CardSuite::Diamonds => 2,
            CardSuite::Clubs => 3,
        }
    }

    /// The glyph that stands for the suit.
    pub open spec fn name_spec(self) -> Seq<char> {
        match self {
            CardSuite::Hearts => "\u{2665}"@,
            CardSuite::Spades => "\u{2660}"@,
            CardSuite::Diamonds => "\u{2666}"@,
            CardSuite::Clubs => "\u{2663}"@,
        }
    }

    /// The suit at position `i` of the declaration order.
    pub open spec fn at(i: int) -> CardSuite {
        if i == 0 {
            CardSuite::Hearts
        } else if i == 1 {
            CardSuite::Spades
        } else if i == 2 {
            CardSuite::Diamonds
        } else {
            CardSuite::Clubs
        }
    }

    /// The suit at position `i` of the declaration order.
    pub fn from_index(i: usize) -> (s: CardSuite)
        requires
            i < 4,
        ensures
            s == CardSuite::at(i as int),
            s.ordinal() == i,
    {
        if i == 0 {
            CardSuite::Hearts
        } else if i == 1 {
            CardSuite::Spades
        } else if i == 2 {
            CardSuite::Diamonds
        } else {
            CardSuite::Clubs
        }
    }

    /// The glyph that stands for the suit.
    pub fn name(&self) -> (s: String)
        ensures
            s@ == self.name_spec(),
    {
        match self {
            CardSuite::Hearts => "\u{2665}".to_owned(),
            CardSuite::Spades => "\u{2660}".to_owned(),
            CardSuite::Diamonds => "\u{2666}".to_owned(),
            CardSuite::Clubs => "\u{2663}".to_owned(),
        }
    }
}

impl CardRank {
    /// Strength of the rank: 0 for the two, up to 12 for the ace.
    pub open spec fn ordinal(self) -> int {
        match self {
            CardRank::Two => 0,
            CardRank::Three => 1,
            CardRank::Four => 2,
            CardRank::Five => 3,
            CardRank::Six => 4,
            CardRank::Seven => 5,
            CardRank::Eight => 6,
            CardRank::Nine => 7,
            CardRank::Ten => 8,
            CardRank::Jack => 9,
            CardRank::Queen => 10,
            CardRank::King => 11,
            CardRank::Ace => 12,
        }
    }

    /// The text that stands for the rank.
    pub open spec fn name_spec(self) -> Seq<char> {
        match self {
            CardRank::Two => "2"@,
            CardRank::Three => "3"@,
            CardRank::Four => "4"@,
            CardRank::Five => "5"@,
            CardRank::Six => "6"@,
            CardRank::Seven => "7"@,
            CardRank::Eight => "8"@,
            CardRank::Nine => "9"@,
            CardRank::Ten => "10"@,
            CardRank::Jack => "J"@,
            CardRank::Queen => "Q"@,
            CardRank::King => "K"@,
            CardRank::Ace => "A"@,
        }
    }

    /// Strength of the rank: 0 for the two, up to 12 for the ace.
    pub fn index(&self) -> (i: usize)
        ensures
            i == self.ordinal(),
    {
        match self {
            CardRank::Two => 0,
            CardRank::Three => 1,
            CardRank::Four => 2,
            CardRank::Five => 3,
            CardRank::Six => 4,
            CardRank::Seven => 5,
            CardRank::Eight => 6,
            CardRank::Nine => 7,
            CardRank::Ten => 8,
            CardRank::Jack => 9,
            CardRank::Queen => 10,
            CardRank::King => 11,
            CardRank::Ace => 12,
        }
    }

    /// The rank of strength `i`.
    pub open spec fn at(i: int) -> CardRank {
        if i == 0 {
            CardRank::Two
        } else if i == 1 {
            CardRank::Three
        } else if i == 2 {
            CardRank::Four
        } else if i == 3 {
            CardRank::Five
        } else if i == 4 {
            CardRank::Six
        } else if i == 5 {
            CardRank::Seven
        } else if i == 6 {
            CardRank::Eight
        } else if i == 7 {
            CardRank::Nine
        } else if i == 8 {
            CardRank::Ten
        } else if i == 9 {
            CardRank::Jack
        } else if i == 10 {
            CardRank::Queen
        } else if i == 11 {
            CardRank::King
        } else {
            CardRank::Ace
        }
    }

    /// The rank of strength `i`.
    pub fn from_index(i: usize) -> (r: CardRank)
        requires
            i < 13,
        ensures
            r == CardRank::at(i as int),
            r.ordinal() == i,
    {
        if i == 0 {
            CardRank::Two
        } else if i == 1 {
            CardRank::Three
        } else if i == 2 {
            CardRank::Four
        } else if i == 3 {
            CardRank::Five
        } else if i == 4 {
            CardRank::Six
        } else if i == 5 {
            CardRank::Seven
        } else if i == 6 {
            CardRank::Eight
        } else if i == 7 {
            CardRank::Nine
        } else if i == 8 {
            CardRank::Ten
        } else if i == 9 {
            CardRank::Jack
        } else if i == 10 {
            CardRank::Queen
        } else if i == 11 {
            CardRank::King
        } else {
            CardRank::Ace
        }
    }

    /// The text that stands for the rank.
    pub fn name(&self) -> (s: String)
        ensures
            s@ == self.name_spec(),
    {
        match self {
            CardRank::Two => "2".to_owned(),
            CardRank::Three => "3".to_owned(),
            CardRank::Four => "4".to_owned(),
            CardRank::Five => "5".to_owned(),
            CardRank::Six => "6".to_owned(),
            CardRank::Seven => "7".to_owned(),
            CardRank::Eight => "8".to_owned(),
            CardRank::Nine => "9".to_owned(),
            CardRank::Ten => "10".to_owned(),
            CardRank::Jack => "J".to_owned(),
            CardRank::Queen => "Q".to_owned(),
            CardRank::King => "K".to_owned(),
            CardRank::Ace => "A".to_owned(),
        }
    }
}

/// Two ranks of one strength are the same rank.
pub proof fn lemma_rank_ordinal_injective(a: CardRank, b: CardRank)
    ensures
        0 <= a.ordinal() < 13,
        a.ordinal() == b.ordinal() <==> a == b,
{
}

impl HandRank {
    /// Strength of the category: 0 for a high card, up to 8 for a straight flush.
    pub open spec fn ordinal(self) -> int {
        match self {
            HandRank::HighCard => 0,
            HandRank::Pair => 1,
            HandRank::TwoPair => 2,
            HandRank::ThreeOfAKind => 3,
            HandRank::Straight => 4,
            HandRank::Flush => 5,
            HandRank::FullHouse => 6,
            HandRank::FourOfAKind => 7,
            HandRank::StraightFlush => 8,
        }
    }

    /// The category's name in words.
    pub open spec fn name_spec(self) -> Seq<char> {
        match self {
            HandRank::StraightFlush => "Straight Flush"@,
            HandRank::FourOfAKind => "Four of a Kind"@,
            HandRank::FullHouse => "Full House"@,
            HandRank::Flush => "Flush"@,
            HandRank::Straight => "Straight"@,
            HandRank::ThreeOfAKind => "Three of a Kind"@,
            HandRank::TwoPair => "Two Pair"@,
            HandRank::Pair => "Pair"@,
            HandRank::HighCard => "High Card"@,
        }
    }

    /// Strength of the category: 0 for a high card, up to 8 for a straight flush.
    pub fn index(&self) -> (i: usize)
        ensures
            i == self.ordinal(),
    {
        match self {
            HandRank::HighCard => 0,
            HandRank::Pair => 1,
            HandRank::TwoPair => 2,
            HandRank::ThreeOfAKind => 3,
            HandRank::Straight => 4,
            HandRank::Flush => 5,
            HandRank::FullHouse => 6,
            HandRank::FourOfAKind => 7,
            HandRank::StraightFlush => 8,
        }
    }

    /// The category's name in words.
    pub fn name(&self) -> (s: String)
        ensures
            s@ == self.name_spec(),
    {
        match self {
            HandRank::StraightFlush => "Straight Flush".to_owned(),
            HandRank::FourOfAKind => "Four of a Kind".to_owned(),
            HandRank::FullHouse => "Full House".to_owned(),
            HandRank::Flush => "Flush".to_owned(),
            HandRank::Straight => "Straight".to_owned(),
            HandRank::ThreeOfAKind => "Three of a Kind".to_owned(),
            HandRank::TwoPair => "Two Pair".to_owned(),
            HandRank::Pair => "Pair".to_owned(),
            HandRank::HighCard => "High Card".to_owned(),
        }
    }
}

impl Card {
    /// Rank text followed by the suit glyph.
    pub open spec fn name_spec(self) -> Seq<char> {
        self.rank.name_spec() + self.suite.name_spec()
    }

    /// How this card stands to `other`: by rank, the suit is not looked at.
    pub open spec fn order(self, other: Card) -> Ordering {
        int_order(self.rank.ordinal(), other.rank.ordinal())
    }

    /// Rank text followed by the suit glyph.
    pub fn name(&self) -> (s: String)
        ensures
            s@ == self.name_spec(),
    {
        let mut s = self.rank.name();
        let suit = self.suite.name();
        s.append(suit.as_str());
        s
    }

    /// How this card stands to `other`, by rank.
    pub fn cmp(&self, other: &Card) -> (o: Ordering)
        ensures
            o == self.order(*other),
    {
        let a = self.rank.index();
        let b = other.rank.index();
        if a < b {
            Ordering::Less
        } else if a == b {
            Ordering::Equal
        } else {
            Ordering::Greater
        }
    }
}

/// Cards are equal where their ranks are.
impl PartialEq for Card {
    fn eq(&self, other: &Card) -> (r: bool) {
        self.rank.index() == other.rank.index()
    }
}

impl PartialEqSpecImpl for Card {
    open spec fn obeys_eq_spec() -> bool {
        true
    }

    open spec fn eq_spec(&self, other: &Card) -> bool {
        self.rank == other.rank
    }
}

impl Eq for Card {

}

/// Cards are ordered by rank.
impl PartialOrd for Card {
    fn partial_cmp(&self, other: &Card) -> (r: Option<Ordering>) {
        Some(self.cmp(other))
    }
}

impl PartialOrdSpecImpl for Card {
    open spec fn obeys_partial_cmp_spec() -> bool {
        true
    }

    open spec fn partial_cmp_spec(&self, other: &Card) -> Option<Ordering> {
        Some(self.order(*other))
    }
}

} // verus!
