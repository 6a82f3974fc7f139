//! Classification of a five-card hand: its category and the two groups of
//! cards by which hands of one category are told apart.

use crate::card::Card;
use crate::card::CardRank;
use crate::card::HandRank;
use crate::hand::Hand;
use crate::sorting::lemma_sorted_by_rank;
use crate::sorting::sorted_by_rank;
use vstd::prelude::*;

verus! {

/// What classification finds in a hand: the category, the cards that make the
/// pattern (one card for each group of equal ranks, or the whole hand for a
/// flush), and the cards that break ties, highest first.
pub struct Classified {
    pub category: HandRank,
    pub primary: Seq<Card>,
    pub kickers: Seq<Card>,
}

/// How many pattern cards a hand of the given category holds.
pub open spec fn primary_size(category: HandRank) -> nat {
    match category {
        HandRank::StraightFlush | HandRank::Straight | HandRank::HighCard => 0,
        HandRank::FourOfAKind | HandRank::FullHouse | HandRank::ThreeOfAKind | HandRank::Pair => 1,
        HandRank::TwoPair => 2,
        HandRank::Flush => 5,
    }
}

/// How many kickers a hand of the given category holds.
pub open spec fn kicker_size(category: HandRank) -> nat {
    match category {
        HandRank::Flush => 0,
        HandRank::StraightFlush | HandRank::Straight | HandRank::FourOfAKind
        | HandRank::FullHouse | HandRank::TwoPair => 1,
        HandRank::ThreeOfAKind => 2,
        HandRank::Pair => 3,
        HandRank::HighCard => 5,
    }
}

impl Classified {
    /// Both groups have the size that the category calls for.
    pub open spec fn well_formed(self) -> bool {
        &&& self.primary.len() == primary_size(self.category)
        &&& self.kickers.len() == kicker_size(self.category)
    }
}

/// The cards at positions `i` and `j` have one rank.
pub open spec fn same_rank(s: Seq<Card>, i: int, j: int) -> bool {
    s[i].rank == s[j].rank
}

/// All five cards have one suit.
pub open spec fn is_flush(s: Seq<Card>) -> bool {
    &&& s[0].suite == s[1].suite
    &&& s[0].suite == s[2].suite
    &&& s[0].suite == s[3].suite
    &&& s[0].suite == s[4].suite
}

/// Each card ranks exactly one step above the next.
pub open spec fn is_run(s: Seq<Card>) -> bool {
    &&& s[0].rank.ordinal() == s[1].rank.ordinal() + 1
    &&& s[1].rank.ordinal() == s[2].rank.ordinal() + 1
    &&& s[2].rank.ordinal() == s[3].rank.ordinal() + 1
    &&& s[3].rank.ordinal() == s[4].rank.ordinal() + 1
}

/// Ace, five, four, three, two: the straight in which the ace plays low.
pub open spec fn is_wheel(s: Seq<Card>) -> bool {
    &&& s[0].rank == CardRank::Ace
    &&& s[1].rank == CardRank::Five
    &&& s[2].rank == CardRank::Four
    &&& s[3].rank == CardRank::Three
    &&& s[4].rank == CardRank::Two
}

/// A run of five ranks, or the wheel.
pub open spec fn is_straight(s: Seq<Card>) -> bool {
    is_run(s) || is_wheel(s)
}

/// The first four cards have one rank.
pub open spec fn four_high(s: Seq<Card>) -> bool {
    same_rank(s, 0, 1) && same_rank(s, 0, 2) && same_rank(s, 0, 3)
}

/// The last four cards have one rank.
pub open spec fn four_low(s: Seq<Card>) -> bool {
    same_rank(s, 1, 2) && same_rank(s, 1, 3) && same_rank(s, 1, 4)
}

/// Three of a rank, followed by two of a rank.
pub open spec fn full_high(s: Seq<Card>) -> bool {
    same_rank(s, 0, 1) && same_rank(s, 0, 2) && same_rank(s, 3, 4)
}

/// Two of a rank, followed by three of a rank.
pub open spec fn full_low(s: Seq<Card>) -> bool {
    same_rank(s, 0, 1) && same_rank(s, 2, 3) && same_rank(s, 2, 4)
}

/// The three cards from position `i` on have one rank.
pub open spec fn three_at(s: Seq<Card>, i: int) -> bool {
    same_rank(s, i, i + 1) && same_rank(s, i, i + 2)
}

/// A pair starts at position `i` and another at position `j`.
pub open spec fn pairs_at(s: Seq<Card>, i: int, j: int) -> bool {
    same_rank(s, i, i + 1) && same_rank(s, j, j + 1)
}

/// The category of five cards that stand in descending order of rank. The
/// patterns are tried from the strongest down and the first that is there
/// decides.
pub open spec fn category_of(s: Seq<Card>) -> HandRank {
    if is_flush(s) && is_straight(s) {
        HandRank::StraightFlush
    } else if four_high(s) || four_low(s) {
        HandRank::FourOfAKind
    } else if full_high(s) || full_low(s) {
        HandRank::FullHouse
    } else if is_flush(s) {
        HandRank::Flush
    } else if is_straight(s) {
        HandRank::Straight
    } else if three_at(s, 0) || three_at(s, 1) || three_at(s, 2) {
        HandRank::ThreeOfAKind
    } else if pairs_at(s, 0, 2) || pairs_at(s, 0, 3) || pairs_at(s, 1, 3) {
        HandRank::TwoPair
    } else if same_rank(s, 0, 1) || same_rank(s, 1, 2) || same_rank(s, 2, 3) || same_rank(s, 3, 4) {
        HandRank::Pair
    } else {
        HandRank::HighCard
    }
}

/// The pattern cards of five cards in descending order: the first card of
/// each group of equal ranks that makes the pattern, the higher group first;
/// for a flush, all five cards; none where the category has no such group.
pub open spec fn primary_of(s: Seq<Card>) -> Seq<Card> {
    match category_of(s) {
        HandRank::StraightFlush | HandRank::Straight | HandRank::HighCard => Seq::empty(),
        HandRank::FourOfAKind => if four_high(s) {
            seq![s[0]]
        } else {
            seq![s[1]]
        },
        HandRank::FullHouse => if full_high(s) {
            seq![s[0]]
        } else {
            seq![s[2]]
        },
        HandRank::Flush => s,
        HandRank::ThreeOfAKind => if three_at(s, 0) {
            seq![s[0]]
        } else if three_at(s, 1) {
            seq![s[1]]
        } else {
            seq![s[2]]
        },
        HandRank::TwoPair => if pairs_at(s, 0, 2) {
            seq![s[0], s[2]]
        } else if pairs_at(s, 0, 3) {
            seq![s[0], s[3]]
        } else {
            seq![s[1], s[3]]
        },
        HandRank::Pair => if same_rank(s, 0, 1) {
            seq![s[0]]
        } else if same_rank(s, 1, 2) {
            seq![s[1]]
        } else if same_rank(s, 2, 3) {
            seq![s[2]]
        } else {
            seq![s[3]]
        },
    }
}

/// The kickers of five cards in descending order. For a straight it is the
/// card that tops the run, which in the wheel is the five; for a full house
/// the first card of the pair; for a flush there is none; in the other
/// categories they are the cards outside the pattern, highest first.
pub open spec fn kickers_of(s: Seq<Card>) -> Seq<Card> {
    match category_of(s) {
        HandRank::StraightFlush | HandRank::Straight => if is_wheel(s) {
            seq![s[1]]
        } else {
            seq![s[0]]
        },
        HandRank::FourOfAKind => if four_high(s) {
            seq![s[4]]
        } else {
            seq![s[0]]
        },
        HandRank::FullHouse => if full_high(s) {
            seq![s[3]]
        } else {
            seq![s[0]]
        },
        HandRank::Flush => Seq::empty(),
        HandRank::ThreeOfAKind => if three_at(s, 0) {
            seq![s[3], s[4]]
        } else if three_at(s, 1) {
            seq![s[0], s[4]]
        } else {
            seq![s[0], s[1]]
        },
        HandRank::TwoPair => if pairs_at(s, 0, 2) {
            seq![s[4]]
        } else if pairs_at(s, 0, 3) {
            seq![s[2]]
        } else {
            seq![s[0]]
        },
        HandRank::Pair => if same_rank(s, 0, 1) {
            seq![s[2], s[3], s[4]]
        } else if same_rank(s, 1, 2) {
            seq![s[0], s[3], s[4]]
        } else if same_rank(s, 2, 3) {
            seq![s[0], s[1], s[4]]
        } else {
            seq![s[0], s[1], s[2]]
        },
        HandRank::HighCard => s,
    }
}

/// Classification of five cards in any order: they are sorted by descending
/// rank, and category and groups are read off the sorted cards.
pub open spec fn classify(hand: Seq<Card>) -> Classified {
    let s = sorted_by_rank(hand);
    Classified { category: category_of(s), primary: primary_of(s), kickers: kickers_of(s) }
}

/// Classifying five cards gives groups of the sizes that the category calls for.
pub proof fn lemma_classify_well_formed(hand: Seq<Card>)
    requires
        hand.len() == 5,
    ensures
        classify(hand).well_formed(),
{
    lemma_sorted_by_rank(hand);
}

/// A five-card hand with its classification.
pub struct HandWithData {
    hand: Hand,
    kicker: Hand,
    rank: HandRank,
}

impl View for HandWithData {
    type V = Classified;

    closed spec fn view(&self) -> Classified {
        Classified { category: self.rank, primary: self.hand@, kickers: self.kicker@ }
    }
}

fn pick_one(s: &Hand, i: usize) -> (h: Hand)
    requires
        i < s@.len(),
    ensures
        h@ == seq![s@[i as int]],
{
    let mut h = Hand::new();
    h.add(s.card(i));
    h
}

fn pick_two(s: &Hand, i: usize, j: usize) -> (h: Hand)
    requires
        i < s@.len(),
        j < s@.len(),
    ensures
        h@ == seq![s@[i as int], s@[j as int]],
{
    let mut h = Hand::new();
    h.add(s.card(i));
    h.add(s.card(j));
    h
}

fn pick_three(s: &Hand, i: usize, j: usize, k: usize) -> (h: Hand)
    requires
        i < s@.len(),
        j < s@.len(),
        k < s@.len(),
    ensures
        h@ == seq![s@[i as int], s@[j as int], s@[k as int]],
{
    let mut h = Hand::new();
    h.add(s.card(i));
    h.add(s.card(j));
    h.add(s.card(k));
    h
}

fn same(s: &Hand, i: usize, j: usize) -> (r: bool)
    requires
        i < s@.len(),
        j < s@.len(),
    ensures
        r == same_rank(s@, i as int, j as int),
{
    s.card(i).rank == s.card(j).rank
}

impl HandWithData {
    #[verifier::type_invariant]
    spec fn group_sizes_fit(self) -> bool {
        self@.well_formed()
    }

    /// Classifies a hand of exactly five cards.
    pub fn from_hand(h: &Hand) -> (r: HandWithData)
        requires
            h@.len() == 5,
        ensures
            r@ == classify(h@),
            r@.well_formed(),
    {
        proof {
            lemma_sorted_by_rank(h@);
        }
        let s = h.sorted();
        let flush = s.card(0).suite == s.card(1).suite && s.card(0).suite == s.card(2).suite
            && s.card(0).suite == s.card(3).suite && s.card(0).suite == s.card(4).suite;
        let run = s.card(0).rank.index() == s.card(1).rank.index() + 1 && s.card(1).rank.index()
            == s.card(2).rank.index() + 1 && s.card(2).rank.index() == s.card(3).rank.index() + 1
            && s.card(3).rank.index() == s.card(4).rank.index() + 1;
        let wheel = s.card(0).rank == CardRank::Ace && s.card(1).rank == CardRank::Five
            && s.card(2).rank == CardRank::Four && s.card(3).rank == CardRank::Three
            && s.card(4).rank == CardRank::Two;
        let straight = run || wheel;
        let e01 = same(&s, 0, 1);
        let e12 = same(&s, 1, 2);
        let e23 = same(&s, 2, 3);
        let e34 = same(&s, 3, 4);
        let e02 = same(&s, 0, 2);
        let e03 = same(&s, 0, 3);
        let e13 = same(&s, 1, 3);
        let e14 = same(&s, 1, 4);
        let e24 = same(&s, 2, 4);

        let rank: HandRank;
        let hand: Hand;
        let kicker: Hand;
        if flush && straight {
            rank = HandRank::StraightFlush;
            hand = Hand::new();
            kicker = pick_one(&s, if wheel { 1 } else { 0 });
        } else if e01 && e02 && e03 {
            rank = HandRank::FourOfAKind;
            hand = pick_one(&s, 0);
            kicker = pick_one(&s, 4);
        } else if e12 && e13 && e14 {
            rank = HandRank::FourOfAKind;
            hand = pick_one(&s, 1);
            kicker = pick_one(&s, 0);
        } else if e01 && e02 && e34 {
            rank = HandRank::FullHouse;
            hand = pick_one(&s, 0);
            kicker = pick_one(&s, 3);
        } else if e01 && e23 && e24 {
            rank = HandRank::FullHouse;
            hand = pick_one(&s, 2);
            kicker = pick_one(&s, 0);
        } else if flush {
            rank = HandRank::Flush;
            hand = s;
            kicker = Hand::new();
        } else if straight {
            rank = HandRank::Straight;
            hand = Hand::new();
            kicker = pick_one(&s, if wheel { 1 } else { 0 });
        } else if e01 && e02 {
            rank = HandRank::ThreeOfAKind;
            hand = pick_one(&s, 0);
            kicker = pick_two(&s, 3, 4);
        } else if e12 && e13 {
            rank = HandRank::ThreeOfAKind;
            hand = pick_one(&s, 1);
            kicker = pick_two(&s, 0, 4);
        } else if e23 && e24 {
            rank = HandRank::ThreeOfAKind;
            hand = pick_one(&s, 2);
            kicker = pick_two(&s, 0, 1);
        } else if e01 && e23 {
            rank = HandRank::TwoPair;
            hand = pick_two(&s, 0, 2);
            kicker = pick_one(&s, 4);
        } else if e01 && e34 {
            rank = HandRank::TwoPair;
            hand = pick_two(&s, 0, 3);
            kicker = pick_one(&s, 2);
        } else if e12 && e34 {
            rank = HandRank::TwoPair;
            hand = pick_two(&s, 1, 3);
            kicker = pick_one(&s, 0);
        } else if e01 {
            rank = HandRank::Pair;
            hand = pick_one(&s, 0);
            kicker = pick_three(&s, 2, 3, 4);
        } else if e12 {
            rank = HandRank::Pair;
            hand = pick_one(&s, 1);
            kicker = pick_three(&s, 0, 3, 4);
        } else if e23 {
            rank = HandRank::Pair;
            hand = pick_one(&s, 2);
            kicker = pick_three(&s, 0, 1, 4);
        } else if e34 {
            rank = HandRank::Pair;
            hand = pick_one(&s, 3);
            kicker = pick_three(&s, 0, 1, 2);
        } else {
            rank = HandRank::HighCard;
            hand = Hand::new();
            kicker = s;
        }
        HandWithData { hand, kicker, rank }
    }

    /// The category of the hand.
    pub fn rank(&self) -> (r: HandRank)
        ensures
            r == self@.category,
    {
        self.rank
    }

    /// The cards that make the pattern.
    pub fn hand(&self) -> (h: &Hand)
        ensures
            h@ == self@.primary,
            self@.well_formed(),
    {
        proof {
            use_type_invariant(self);
        }
        &self.hand
    }

    /// The cards that break ties.
    pub fn kicker(&self) -> (h: &Hand)
        ensures
            h@ == self@.kickers,
            self@.well_formed(),
    {
        proof {
            use_type_invariant(self);
        }
        &self.kicker
    }
}

} // verus!
