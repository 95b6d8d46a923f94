//! Majority vote over a block's sub-pixel values.
//!
//! The winner is the non-sentinel value with the most occurrences; ties go to
//! the lowest value, so the outcome is deterministic. Sentinel entries never
//! vote, and a block without a single non-sentinel entry reduces to the
//! sentinel.

use vstd::prelude::*;

verus! {

use crate::SENTINEL;

/// Number of occurrences of `v` in `s`.
pub open spec fn count_votes(s: Seq<u8>, v: u8) -> nat
    decreases s.len(),
{
    if s.len() == 0 {
        0
    } else {
        count_votes(s.drop_last(), v) + (if s.last() == v {
            1nat
        } else {
            0nat
        })
    }
}

/// `v` occurs in `s` exactly when its count is positive.
pub proof fn lemma_count_votes_positive(s: Seq<u8>, v: u8)
    ensures
        count_votes(s, v) > 0 <==> exists|j: int| 0 <= j < s.len() && s[j] == v,
    decreases s.len(),
{
    if s.len() > 0 {
        lemma_count_votes_positive(s.drop_last(), v);
        if s.last() == v {
            assert(s[s.len() - 1] == v);
        } else {
            if exists|j: int| 0 <= j < s.len() && s[j] == v {
                let j = choose|j: int| 0 <= j < s.len() && s[j] == v;
                assert(s.drop_last()[j] == v);
            }
        }
    }
}

/// `r` wins the majority vote over `s`: it is a non-sentinel value that
/// occurs in `s`, no non-sentinel value occurs more often, and no lower
/// value occurs as often.
pub open spec fn is_vote_winner(s: Seq<u8>, r: u8) -> bool {
    &&& r != SENTINEL
    &&& count_votes(s, r) > 0
    &&& forall|w: u8|
        w != SENTINEL ==> #[trigger] count_votes(s, w) < count_votes(s, r) || (count_votes(s, w)
            == count_votes(s, r) && r <= w)
}

/// `r` is the reduction of the block values `s`: the vote winner when any
/// non-sentinel value occurs, the sentinel otherwise.
pub open spec fn is_block_vote(s: Seq<u8>, r: u8) -> bool {
    if exists|j: int| 0 <= j < s.len() && s[j] != SENTINEL {
        is_vote_winner(s, r)
    } else {
        r == SENTINEL
    }
}

/// The tie-break leaves no ambiguity: a vote has at most one winner.
pub proof fn lemma_vote_winner_unique(s: Seq<u8>, a: u8, b: u8)
    requires
        is_vote_winner(s, a),
        is_vote_winner(s, b),
    ensures
        a == b,
{
    assert(count_votes(s, a) < count_votes(s, b) || (count_votes(s, a) == count_votes(s, b) && b
        <= a));
    assert(count_votes(s, b) < count_votes(s, a) || (count_votes(s, b) == count_votes(s, a) && a
        <= b));
}

/// A block's reduction is fully determined by its values.
pub proof fn lemma_block_vote_unique(s: Seq<u8>, a: u8, b: u8)
    requires
        is_block_vote(s, a),
        is_block_vote(s, b),
    ensures
        a == b,
{
    if exists|j: int| 0 <= j < s.len() && s[j] != SENTINEL {
        lemma_vote_winner_unique(s, a, b);
    }
}

/// In a block holding only `v`, `v` scores every vote and any other value
/// scores none.
pub proof fn lemma_count_votes_uniform(s: Seq<u8>, v: u8, w: u8)
    requires
        forall|j: int| 0 <= j < s.len() ==> s[j] == v,
    ensures
        count_votes(s, w) == if w == v {
            s.len()
        } else {
            0nat
        },
    decreases s.len(),
{
    if s.len() > 0 {
        lemma_count_votes_uniform(s.drop_last(), v, w);
    }
}

/// Unanimity: a block whose sub-pixels all hold one non-sentinel value
/// reduces to exactly that value.
pub proof fn lemma_unanimous_block(s: Seq<u8>, v: u8, r: u8)
    requires
        s.len() > 0,
        v != SENTINEL,
        forall|j: int| 0 <= j < s.len() ==> s[j] == v,
        is_block_vote(s, r),
    ensures
        r == v,
{
    assert(s[0] == v);
    assert(exists|j: int| 0 <= j < s.len() && s[j] != SENTINEL);
    lemma_count_votes_uniform(s, v, r);
}

/// A block whose sub-pixels are all the sentinel reduces to the sentinel.
pub proof fn lemma_all_sentinel_block(s: Seq<u8>, r: u8)
    requires
        forall|j: int| 0 <= j < s.len() ==> s[j] == SENTINEL,
        is_block_vote(s, r),
    ensures
        r == SENTINEL,
{
}

/// Counts the occurrences of `v` in `block`.
fn count_value(block: &Vec<u8>, v: u8) -> (c: usize)
    ensures
        c == count_votes(block@, v),
{
    let mut c: usize = 0;
    let mut j: usize = 0;
    while j < block.len()
        invariant
            j <= block@.len(),
            c == count_votes(block@.take(j as int), v),
            c <= j,
        decreases block@.len() - j,
    {
        proof {
            assert(block@.take(j as int + 1).drop_last() =~= block@.take(j as int));
            assert(block@.take(j as int + 1).last() == block@[j as int]);
        }
        if block[j] == v {
            c = c + 1;
        }
        j = j + 1;
    }
    proof {
        assert(block@.take(block@.len() as int) =~= block@);
    }
    c
}

/// Reduces a block of sub-pixel values to a single index by majority vote:
/// the most frequent non-sentinel value, the lowest such value on a tie, and
/// the sentinel when every entry is the sentinel.
pub fn reduce_block(block: &Vec<u8>) -> (r: u8)
    ensures
        is_block_vote(block@, r),
{
    let mut best: u8 = SENTINEL;
    let mut best_count: usize = 0;
    let mut v: u8 = 0;
    while v < SENTINEL
        invariant
            v <= SENTINEL,
            best == SENTINEL ==> best_count == 0 && forall|w: u8|
                w < v ==> #[trigger] count_votes(block@, w) == 0,
            best != SENTINEL ==> {
                &&& best < v
                &&& best_count == count_votes(block@, best)
                &&& best_count > 0
                &&& forall|w: u8|
                    w < v ==> #[trigger] count_votes(block@, w) < best_count || (count_votes(
                        block@,
                        w,
                    ) == best_count && best <= w)
            },
        decreases SENTINEL - v,
    {
        let c = count_value(block, v);
        if c > best_count {
            best = v;
            best_count = c;
        }
        v = v + 1;
    }
    proof {
        if best == SENTINEL {
            assert forall|j: int| 0 <= j < block@.len() implies block@[j] == SENTINEL by {
                if block@[j] != SENTINEL {
                    lemma_count_votes_positive(block@, block@[j]);
                }
            }
        } else {
            lemma_count_votes_positive(block@, best);
            let j = choose|j: int| 0 <= j < block@.len() && block@[j] == best;
            assert(block@[j] != SENTINEL);
        }
    }
    best
}

} // verus!
