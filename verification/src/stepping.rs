//! How many substeps the integrator takes for one advance of the clock.
use vstd::prelude::*;

verus! {

/// Upper bound on the substeps of one advance, however long the span.
pub const MAX_SUBSTEPS: usize = 20000;

/// `needed` clamped to `1 ..= MAX_SUBSTEPS`.
pub open spec fn spec_substep_count(needed: usize) -> usize {
    if needed < 1 {
        1
    } else if needed > MAX_SUBSTEPS {
        MAX_SUBSTEPS
    } else {
        needed
    }
}

/// An advance takes exactly the substeps it needs whenever that is
/// between 1 and 20000; otherwise the nearer bound.
pub proof fn lemma_substeps_exact_in_range(needed: usize)
    ensures
        1 <= needed <= 20000 ==> spec_substep_count(needed) == needed,
        needed == 0 ==> spec_substep_count(needed) == 1,
        needed > 20000 ==> spec_substep_count(needed) == 20000,
        MAX_SUBSTEPS == 20000,
{
}

/// The substeps of an advance that would need `needed` substeps of the
/// maximal length: at least one, and never more than `MAX_SUBSTEPS` (a
/// longer span is then covered by proportionally longer substeps).
pub fn substep_count(needed: usize) -> (n: usize)
    ensures
        n == spec_substep_count(needed),
        1 <= n <= MAX_SUBSTEPS,
        1 <= needed <= 20000 ==> n == needed,
        needed == 0 ==> n == 1,
        needed > 20000 ==> n == 20000,
{
    if needed < 1 {
        1
    } else if needed > MAX_SUBSTEPS {
        MAX_SUBSTEPS
    } else {
        needed
    }
}

} // verus!
