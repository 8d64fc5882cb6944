//! Caps on how much a listing shows, shared by all filters.
use vstd::prelude::*;

verus! {

/// Errors: most actionable, shown the most.
pub const CAP_ERRORS: usize = 20;

/// Warnings and test failures: lower signal density than errors.
pub const CAP_WARNINGS: usize = 10;

/// Flat lists (pull requests, services, packages): one line per item.
pub const CAP_LIST: usize = 20;

/// Inventories (installed packages, images): exhaustive lookups.
pub const CAP_INVENTORY: usize = 50;

/// `cap` lowered by `by`, or `cap` itself where that would leave nothing.
pub open spec fn lowered(cap: nat, by: nat) -> nat {
    if by < cap {
        (cap - by) as nat
    } else {
        cap
    }
}

/// A cap lowered for a verbose class of data. It falls back to `cap` where `by >= cap`, so that no
/// deviation can empty a list; zero stays zero.
pub fn reduced(cap: usize, by: usize) -> (r: usize)
    ensures
        r == lowered(cap as nat, by as nat),
{
    if by < cap {
        cap - by
    } else {
        cap
    }
}

/// A lowered cap never exceeds the cap, and is zero only where the cap is.
pub proof fn law_reduced_is_safe(cap: nat, by: nat)
    ensures
        lowered(cap, by) <= cap,
        lowered(cap, by) == 0 <==> cap == 0,
        by < cap ==> lowered(cap, by) == cap - by,
{
}

} // verus!
