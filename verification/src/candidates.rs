//! The twenty-one five-card hands that two private cards and five board
//! cards allow, and the search for the best of them.

use crate::card::Card;
use crate::classify::classify;
use crate::classify::lemma_classify_well_formed;
use crate::classify::HandWithData;
use crate::describe::describe;
use crate::hand::names_joined;
use crate::hand::Hand;
use crate::showdown::lemma_showdown_flip;
use crate::showdown::lemma_showdown_reflexive;
use crate::showdown::lemma_showdown_transitive;
use crate::showdown::showdown;
use std::cmp::Ordering;
use vstd::prelude::*;

verus! {

/// The number of ways to leave two of seven cards out.
pub const CANDIDATES: usize = 21;

/// The two positions, of the seven that the private cards and the board
/// take in this order, that candidate `k` leaves out; the lower one first.
/// Candidate 0 is the board; then come the hands with the first private
/// card only, with the second only, and with both.
pub open spec fn left_out(k: int) -> (int, int) {
    if k == 0 {
        (0, 1)
    } else if k == 1 {
        (1, 6)
    } else if k == 2 {
        (1, 5)
    } else if k == 3 {
        (1, 4)
    } else if k == 4 {
        (1, 3)
    } else if k == 5 {
        (1, 2)
    } else if k == 6 {
        (0, 6)
    } else if k == 7 {
        (0, 5)
    } else if k == 8 {
        (0, 4)
    } else if k == 9 {
        (0, 3)
    } else if k == 10 {
        (0, 2)
    } else if k == 11 {
        (5, 6)
    } else if k == 12 {
        (4, 6)
    } else if k == 13 {
        (4, 5)
    } else if k == 14 {
        (3, 6)
    } else if k == 15 {
        (3, 5)
    } else if k == 16 {
        (3, 4)
    } else if k == 17 {
        (2, 6)
    } else if k == 18 {
        (2, 5)
    } else if k == 19 {
        (2, 4)
    } else {
        (2, 3)
    }
}

/// Candidate `k`: the private cards followed by the board, without the two
/// cards that the candidate leaves out.
pub open spec fn candidate(private: Seq<Card>, board: Seq<Card>, k: int) -> Seq<Card> {
    (private + board).remove(left_out(k).1).remove(left_out(k).0)
}

/// The candidate that leaves out positions `i` and `j` of the seven, `i`
/// being the lower.
pub open spec fn candidate_without(i: int, j: int) -> int {
    if i == 0 {
        if j == 1 {
            0
        } else {
            12 - j
        }
    } else if i == 1 {
        7 - j
    } else if i == 2 {
        23 - j
    } else if i == 3 {
        20 - j
    } else if i == 4 {
        18 - j
    } else {
        11
    }
}

/// The twenty-one candidates leave out each pair of the seven positions
/// exactly once: every candidate leaves out two different positions, every
/// pair of positions is left out by some candidate, and no two candidates
/// leave out the same pair.
pub proof fn lemma_candidates_cover()
    ensures
        forall|k: int| 0 <= k < 21 ==> 0 <= (#[trigger] left_out(k)).0 < left_out(k).1 < 7,
        forall|i: int, j: int|
            0 <= i < j < 7 ==> 0 <= #[trigger] candidate_without(i, j) < 21 && left_out(
                candidate_without(i, j),
            ) == (i, j),
        forall|k: int, l: int|
            0 <= k < 21 && 0 <= l < 21 && k != l ==> #[trigger] left_out(k) != #[trigger] left_out(l),
{
}

/// Every candidate holds five of the seven cards, in the order in which the
/// seven stand; and candidate 0 is the board.
pub proof fn lemma_candidate_cards(private: Seq<Card>, board: Seq<Card>, k: int)
    requires
        private.len() == 2,
        board.len() == 5,
        0 <= k < 21,
    ensures
        candidate(private, board, k).len() == 5,
        forall|p: int|
            0 <= p < 5 ==> #[trigger] candidate(private, board, k)[p] == (private + board)[if p
                < left_out(k).0 {
                p
            } else if p + 1 < left_out(k).1 {
                p + 1
            } else {
                p + 2
            }],
        candidate(private, board, 0) == board,
{
    assert(candidate(private, board, 0) =~= board);
}

/// Where no card occurs twice among the seven, no two candidates hold the
/// same five cards: each holds a card that the other lacks.
pub proof fn lemma_candidates_differ(private: Seq<Card>, board: Seq<Card>, k: int, l: int)
    requires
        private.len() == 2,
        board.len() == 5,
        (private + board).no_duplicates(),
        0 <= k < 21,
        0 <= l < 21,
        k != l,
    ensures
        exists|c: Card|
            candidate(private, board, k).contains(c) && !candidate(private, board, l).contains(c),
{
    let all = private + board;
    let ck = candidate(private, board, k);
    let cl = candidate(private, board, l);
    lemma_candidates_cover();
    lemma_candidate_cards(private, board, k);
    lemma_candidate_cards(private, board, l);
    let (ik, jk) = left_out(k);
    let (il, jl) = left_out(l);
    let p = if il != ik && il != jk {
        il
    } else {
        jl
    };
    assert(p != ik && p != jk);
    let q = if p < ik {
        p
    } else if p < jk {
        p - 1
    } else {
        p - 2
    };
    assert(ck[q] == all[p]);
    assert(ck.contains(all[p]));
    assert forall|n: int| 0 <= n < 5 implies cl[n] != all[p] by {
        let m = if n < il {
            n
        } else if n + 1 < jl {
            n + 1
        } else {
            n + 2
        };
        assert(cl[n] == all[m]);
        assert(m != p);
    }
    assert(!cl.contains(all[p]));
}

/// Candidate `k` is a best hand, and the first such: no candidate beats it,
/// and every candidate before it is weaker.
pub open spec fn first_best(private: Seq<Card>, board: Seq<Card>, k: int) -> bool {
    &&& 0 <= k < 21
    &&& forall|j: int|
        0 <= j < 21 ==> showdown(
            classify(#[trigger] candidate(private, board, j)),
            classify(candidate(private, board, k)),
        ) != Ordering::Greater
    &&& forall|j: int|
        0 <= j < k ==> showdown(
            classify(#[trigger] candidate(private, board, j)),
            classify(candidate(private, board, k)),
        ) == Ordering::Less
}

/// Only one candidate is the first best.
pub proof fn lemma_first_best_unique(private: Seq<Card>, board: Seq<Card>, k: int, l: int)
    requires
        private.len() == 2,
        board.len() == 5,
        first_best(private, board, k),
        first_best(private, board, l),
    ensures
        k == l,
{
    let ck = candidate(private, board, k);
    let cl = candidate(private, board, l);
    lemma_candidate_cards(private, board, k);
    lemma_candidate_cards(private, board, l);
    lemma_classify_well_formed(ck);
    lemma_classify_well_formed(cl);
    lemma_showdown_flip(classify(ck), classify(cl));
    if k < l {
        assert(showdown(classify(ck), classify(cl)) == Ordering::Less);
        assert(showdown(classify(cl), classify(ck)) != Ordering::Greater);
    } else if l < k {
        assert(showdown(classify(cl), classify(ck)) == Ordering::Less);
        assert(showdown(classify(ck), classify(cl)) != Ordering::Greater);
    }
}

/// The line that reports one candidate and what it was classified as.
pub open spec fn trace_line(cards: Seq<Card>) -> Seq<char> {
    " "@ + names_joined(cards) + " -> "@ + describe(classify(cards))
}

fn left_out_pair(k: usize) -> (pair: (usize, usize))
    requires
        k < 21,
    ensures
        pair.0 == left_out(k as int).0,
        pair.1 == left_out(k as int).1,
{
    if k == 0 {
        (0, 1)
    } else if k <= 5 {
        (1, 7 - k)
    } else if k <= 10 {
        (0, 12 - k)
    } else if k == 11 {
        (5, 6)
    } else if k <= 13 {
        (4, 18 - k)
    } else if k <= 16 {
        (3, 20 - k)
    } else {
        (2, 23 - k)
    }
}

/// Forms all the five-card hands that two private cards and five board cards
/// allow, in a fixed order.
pub fn form_all_candidates(h1: Hand, h2: Hand) -> (hands: Vec<Hand>)
    requires
        h1@.len() == 2,
        h2@.len() == 5,
    ensures
        hands@.len() == 21,
        forall|k: int| 0 <= k < 21 ==> (#[trigger] hands@[k])@ == candidate(h1@, h2@, k),
{
    let mut all = h1.clone();
    let mut p: usize = 0;
    while p < 5
        invariant
            p <= 5,
            h2@.len() == 5,
            all@ == h1@ + h2@.take(p as int),
        decreases 5 - p,
    {
        all.add(h2.card(p));
        p = p + 1;
    }
    assert(h2@.take(5) == h2@);
    let mut hands: Vec<Hand> = Vec::new();
    let mut k: usize = 0;
    while k < CANDIDATES
        invariant
            k <= 21,
            all@ == h1@ + h2@,
            all@.len() == 7,
            hands@.len() == k,
            forall|n: int| 0 <= n < k ==> (#[trigger] hands@[n])@ == candidate(h1@, h2@, n),
        decreases 21 - k,
    {
        let (i, j) = left_out_pair(k);
        let mut hand = all.clone();
        hand.remove(j);
        hand.remove(i);
        hands.push(hand);
        k = k + 1;
    }
    hands
}

/// Finds the best hand that the two private cards of `h1` and the five board
/// cards of `h2` allow: the strongest of the candidates, and among equals the
/// one that comes first. With `verbose`, also gives one line for each
/// candidate, saying what it was classified as.
pub fn find_best_hand(h1: Hand, h2: Hand, verbose: bool) -> (res: (HandWithData, Vec<String>))
    requires
        h1@.len() == 2,
        h2@.len() == 5,
    ensures
        exists|k: int|
            first_best(h1@, h2@, k) && res.0@ == classify(#[trigger] candidate(h1@, h2@, k)),
        showdown(res.0@, classify(h2@)) != Ordering::Less,
        !verbose ==> res.1@.len() == 0,
        verbose ==> res.1@.len() == 21 && forall|k: int|
            0 <= k < 21 ==> (#[trigger] res.1@[k])@ == trace_line(candidate(h1@, h2@, k)),
{
    let ghost private = h1@;
    let ghost board = h2@;
    let hands = form_all_candidates(h1, h2);
    let mut trace: Vec<String> = Vec::new();
    proof {
        lemma_candidate_cards(private, board, 0);
        lemma_showdown_reflexive(classify(candidate(private, board, 0)));
    }
    let mut best = HandWithData::from_hand(&hands[0]);
    let ghost mut at: int = 0;
    let ghost mut seen: int = 0;
    let mut n: usize = 0;
    while n < hands.len()
        invariant
            private.len() == 2,
            board.len() == 5,
            hands@.len() == 21,
            forall|k: int| 0 <= k < 21 ==> (#[trigger] hands@[k])@ == candidate(private, board, k),
            seen == n,
            0 <= seen <= 21,
            0 <= at < 21,
            at <= seen,
            best@ == classify(candidate(private, board, at)),
            forall|j: int|
                0 <= j < seen ==> showdown(
                    classify(#[trigger] candidate(private, board, j)),
                    classify(candidate(private, board, at)),
                ) != Ordering::Greater,
            forall|j: int|
                0 <= j < at ==> showdown(
                    classify(#[trigger] candidate(private, board, j)),
                    classify(candidate(private, board, at)),
                ) == Ordering::Less,
            !verbose ==> trace@.len() == 0,
            verbose ==> trace@.len() == seen && forall|k: int|
                0 <= k < seen ==> (#[trigger] trace@[k])@ == trace_line(
                    candidate(private, board, k),
                ),
        decreases 21 - seen,
    {
        proof {
            lemma_candidate_cards(private, board, seen);
        }
        let hwd = HandWithData::from_hand(&hands[n]);
        if verbose {
            let mut line = " ".to_owned();
            line.append(hands[n].to_string().as_str());
            line.append(" -> ");
            line.append(hwd.to_string().as_str());
            trace.push(line);
        }
        let ghost old_at = at;
        let beats = match hwd.cmp(&best) {
            Ordering::Greater => true,
            _ => false,
        };
        proof {
            let new = classify(candidate(private, board, seen));
            let old = classify(candidate(private, board, old_at));
            lemma_candidate_cards(private, board, old_at);
            lemma_classify_well_formed(candidate(private, board, seen));
            lemma_classify_well_formed(candidate(private, board, old_at));
            lemma_showdown_flip(new, old);
            lemma_showdown_reflexive(new);
            if beats {
                assert forall|j: int| 0 <= j < seen implies showdown(
                    classify(#[trigger] candidate(private, board, j)),
                    new,
                ) == Ordering::Less by {
                    lemma_candidate_cards(private, board, j);
                    lemma_classify_well_formed(candidate(private, board, j));
                    lemma_showdown_transitive(classify(candidate(private, board, j)), old, new);
                }
                at = seen;
            }
        }
        if beats {
            best = hwd;
        }
        n = n + 1;
        proof {
            seen = seen + 1;
        }
    }
    proof {
        assert(first_best(private, board, at));
        lemma_candidate_cards(private, board, at);
        lemma_classify_well_formed(board);
        lemma_classify_well_formed(candidate(private, board, at));
        lemma_showdown_flip(classify(candidate(private, board, 0)), best@);
    }
    (best, trace)
}

} // verus!
