//! Which schema migrations a database needs.
use vstd::prelude::*;

verus! {

/// The current schema version.
pub const CURRENT_VERSION: u32 = 3;

/// The migrations (1 to `CURRENT_VERSION`, ascending) that a database at
/// schema version `version` still needs: those numbered above `version`.
pub fn pending_migrations(version: u32) -> (r: Vec<u32>)
    ensures
        forall|i: int| 0 <= i < r@.len() ==> version < #[trigger] r@[i] <= CURRENT_VERSION,
        forall|m: u32| version < m <= CURRENT_VERSION ==> r@.contains(m),
        forall|i: int, j: int| 0 <= i < j < r@.len() ==> r@[i] < r@[j],
{
    let mut r: Vec<u32> = Vec::new();
    let mut m: u32 = 1;
    while m <= CURRENT_VERSION
        invariant
            1 <= m <= CURRENT_VERSION + 1,
            forall|i: int| 0 <= i < r@.len() ==> version < #[trigger] r@[i] < m,
            forall|k: u32| version < k < m ==> r@.contains(k),
            forall|i: int, j: int| 0 <= i < j < r@.len() ==> r@[i] < r@[j],
        decreases CURRENT_VERSION + 1 - m,
    {
        if version < m {
            let ghost before = r@;
            r.push(m);
            assert forall|k: u32| version < k < m + 1 implies r@.contains(k) by {
                if k < m {
                    assert(before.contains(k));
                    let j = choose|j: int| 0 <= j < before.len() && before[j] == k;
                    assert(r@[j] == k);
                } else {
                    assert(r@[r@.len() - 1] == k);
                }
            }
        }
        m = m + 1;
    }
    r
}

/// A column has to be added when the schema lists it zero times.
pub fn column_missing(count: i64) -> (r: bool)
    ensures
        r == (count == 0),
{
    count == 0
}

} // verus!
