//! Matcher: compares one candidate face against the enrolled templates
//! under the certainty threshold.
//!
//! The recognizer's embedding distances are non-negative reals; the core
//! never computes them, it only compares them against the threshold. They
//! enter the core as order-preserving unsigned codes (for a non-negative
//! IEEE-754 double, the raw bit pattern compares exactly as the number
//! does), so a strict `<` on the codes is a strict `<` on the distances.

use vstd::prelude::*;

verus! {

/// Some enrolled template lies strictly closer to the candidate than the
/// certainty threshold allows.
pub open spec fn spec_identify(distances: Seq<u64>, certainty: u64) -> bool {
    exists|i: int| 0 <= i < distances.len() && distances[i] < certainty
}

/// Decides whether a candidate matches any enrolled template: `distances`
/// holds the candidate's distance to each template in store order, and the
/// candidate is identified exactly when some distance is strictly below
/// `certainty`.
pub fn identify(distances: &Vec<u64>, certainty: u64) -> (r: bool)
    ensures
        r == spec_identify(distances@, certainty),
{
    let mut i: usize = 0;
    while i < distances.len()
        invariant
            i <= distances.len(),
            forall|j: int| 0 <= j < i ==> distances@[j] >= certainty,
        decreases distances.len() - i,
    {
        if distances[i] < certainty {
            assert(spec_identify(distances@, certainty)) by {
                assert(0 <= i < distances@.len() && distances@[i as int] < certainty);
            }
            return true;
        }
        i += 1;
    }
    false
}

/// Threshold monotonicity: whenever a candidate is identified at some
/// threshold, it is also identified at every larger threshold; raising the
/// threshold can only turn non-matches into matches, never the reverse.
pub proof fn lemma_threshold_monotone(distances: Seq<u64>, t1: u64, t2: u64)
    requires
        t1 <= t2,
        spec_identify(distances, t1),
    ensures
        spec_identify(distances, t2),
{
    let i = choose|i: int| 0 <= i < distances.len() && distances[i] < t1;
    assert(0 <= i < distances.len() && distances[i] < t2);
}

} // verus!
