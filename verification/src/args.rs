//! The iteration-count argument: non-negative base-10 text, read exactly
//! as std would read a u64; anything else is a fatal startup error.

use crate::counters::BenchError;
use crate::decimal::parse_u64_range;
use crate::decimal::parsed_u64;
use vstd::prelude::*;

verus! {

/// Read the iteration count. Succeeds exactly on text that denotes an
/// unsigned 64-bit number (an optional leading '+', then digits); every
/// failure is `MalformedArgument`, reported before anything else runs.
pub fn parse_iterations(s: &str) -> (r: Result<u64, BenchError>)
    ensures
        r is Ok <==> parsed_u64(s@) is Some,
        r is Ok ==> Some(r->Ok_0) == parsed_u64(s@),
        r is Err ==> r->Err_0 == BenchError::MalformedArgument,
{
    let len = s.unicode_len();
    proof {
        assert(s@.subrange(0, s@.len() as int) =~= s@);
    }
    match parse_u64_range(s, 0, len) {
        Some(v) => Ok(v),
        None => Err(BenchError::MalformedArgument),
    }
}

} // verus!
