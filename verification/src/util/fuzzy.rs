//! Fuzzy scoring of a candidate against a query.
use vstd::prelude::*;

use crate::text::{
    count_positional_matches, lemma_positional_matches_bound, lemma_positional_matches_self,
    lower_chars, lowercase, positional_matches, saturate_i32, seq_starts_with, starts_with,
};

verus! {

/// For a non-empty lowercased query: the number of positions at which the
/// lowercased candidate agrees with it, plus 10 when the candidate starts with
/// it. An empty query scores 0.
pub open spec fn spec_score(query: Seq<char>, candidate: Seq<char>) -> int {
    let q = lowercase(query);
    let c = lowercase(candidate);
    if q.len() == 0 {
        0
    } else {
        saturate_i32(
            positional_matches(q, c) + if seq_starts_with(c, q) {
                10int
            } else {
                0int
            },
        )
    }
}

/// Scores `candidate` against `query`, ignoring case.
pub fn score(query: &str, candidate: &str) -> (s: i32)
    ensures
        s as int == spec_score(query@, candidate@),
        query@.len() == 0 ==> s == 0,
{
    let q = lower_chars(query);
    let c = lower_chars(candidate);
    if q.len() == 0 {
        return 0;
    }
    let matches = count_positional_matches(q.as_slice(), c.as_slice());
    proof {
        lemma_positional_matches_bound(q@, c@);
    }
    let bonus: u64 = if starts_with(c.as_slice(), q.as_slice()) {
        10
    } else {
        0
    };
    if matches > 0x7fff_ffffu64 {
        return 0x7fff_ffffi32;
    }
    let total = matches + bonus;
    if total > 0x7fff_ffffu64 {
        0x7fff_ffffi32
    } else {
        total as i32
    }
}

/// A query scores against itself one point per lowercase character plus the
/// prefix bonus of 10.
pub proof fn law_score_of_self(query: Seq<char>)
    requires
        lowercase(query).len() > 0,
        lowercase(query).len() + 10 <= i32::MAX,
    ensures
        spec_score(query, query) == lowercase(query).len() + 10,
{
    let q = lowercase(query);
    lemma_positional_matches_self(q);
    assert(q.subrange(0, q.len() as int) =~= q);
}

/// A query whose lowercase form is empty scores 0 against every candidate.
pub proof fn law_empty_query_scores_zero(query: Seq<char>, candidate: Seq<char>)
    requires
        lowercase(query).len() == 0,
    ensures
        spec_score(query, candidate) == 0,
{
}

} // verus!
