//! The comparer core: reads two record streams in lockstep and reports
//! whether they are identical.

use vstd::prelude::*;

use crate::builder::RecordReader;
use crate::record::{DataProducer, RecordV, StreamEnd};

verus! {

/// Two streams are identical when they hold the same records in the same
/// order and both end cleanly. A mismatch, a length difference or a
/// produce failure on either side breaks identity.
pub open spec fn streams_match(s1: (Seq<RecordV>, StreamEnd), s2: (Seq<RecordV>, StreamEnd)) -> bool {
    s1.0 == s2.0 && s1.1 is Clean && s2.1 is Clean
}

/// Reads both streams record by record in lockstep: identical exactly
/// when every pair of records compares equal by value and both streams
/// end cleanly at the same position.
#[verifier::rlimit(100)]
#[verifier::spinoff_prover]
pub fn compare_streams(r1: &mut RecordReader, r2: &mut RecordReader) -> (b: bool)
    ensures
        b == streams_match(old(r1).stream(), old(r2).stream()),
{
    loop
        invariant
            streams_match(old(r1).stream(), old(r2).stream()) == streams_match(
                r1.stream(),
                r2.stream(),
            ),
        decreases r1.stream().0.len() + r2.stream().0.len(),
    {
        let ghost s1 = r1.stream();
        let ghost s2 = r2.stream();
        let a = r1.produce_record();
        let c = r2.produce_record();
        match (a, c) {
            (Some(ra), Some(rc)) => {
                let rec1 = match ra {
                    Ok(x) => x,
                    Err(_) => {
                        return false;
                    },
                };
                let rec2 = match rc {
                    Ok(x) => x,
                    Err(_) => {
                        return false;
                    },
                };
                if !(rec1 == rec2) {
                    proof {
                        assert(s1.0.first() != s2.0.first());
                    }
                    return false;
                }
                proof {
                    assert(rec1@ == rec2@);
                    assert(s1.0.len() == s1.0.drop_first().len() + 1);
                    assert(s2.0.len() == s2.0.drop_first().len() + 1);
                    assert(s1.0[0] == s1.0.first());
                    assert(s2.0[0] == s2.0.first());
                    assert(forall|i: int| 1 <= i < s1.0.len() ==> s1.0[i] == s1.0.drop_first()[i
                        - 1]);
                    assert(forall|i: int| 1 <= i < s2.0.len() ==> s2.0[i] == s2.0.drop_first()[i
                        - 1]);
                    if r1.stream().0 == r2.stream().0 {
                        assert(s1.0 =~= s2.0);
                    }
                    if s1.0 == s2.0 {
                        assert(r1.stream().0 =~= r2.stream().0);
                    }
                }
            },
            (None, None) => {
                proof {
                    assert(s1.0 =~= s2.0);
                }
                return true;
            },
            _ => {
                return false;
            },
        }
    }
}

} // verus!
