//! What a write witness says of a range it was asked about.
use vstd::prelude::*;

verus! {

/// The witness's token for a range and the generation it was observed at.
#[derive(Clone, Copy, Debug, PartialEq, Eq, Structural)]
pub struct GatheredIdentity {
    pub token: u64,
    pub generation: u64,
}

/// What one observation found.
#[derive(Clone, Copy, Debug, PartialEq, Eq, Structural)]
pub struct GatherOutcome {
    /// Nothing wrote the range since the identity was taken.
    pub vouched: bool,
    /// No submitted write can still reach the range.
    pub cpu_read_settled: bool,
    pub identity: GatheredIdentity,
    /// Guest bytes the observation itself read to check its own answer.
    pub audit_bytes: u64,
}

impl GatherOutcome {
    /// The range may be served from bytes read earlier.
    pub open spec fn reusable(self) -> bool {
        self.vouched && self.cpu_read_settled
    }

    /// Whether the range may be served from bytes read earlier: nothing wrote
    /// it, and nothing submitted still can.
    pub fn cpu_read_vouched(&self) -> (r: bool)
        ensures
            r == self.reusable(),
    {
        self.vouched && self.cpu_read_settled
    }
}

/// Whether an optional scope is a given one.
pub fn is_scope(current: Option<u64>, id: u64) -> (r: bool)
    ensures
        r == (current == Some(id)),
{
    match current {
        Some(scope) => scope == id,
        None => false,
    }
}

/// Whether two lists of numbers are the same.
pub fn same_numbers(a: &Vec<u64>, b: &Vec<u64>) -> (r: bool)
    ensures
        r == (a@ == b@),
{
    if a.len() != b.len() {
        return false;
    }
    let mut n: usize = 0;
    while n < a.len()
        invariant
            0 <= n <= a@.len(),
            a@.len() == b@.len(),
            forall|k: int| 0 <= k < n ==> a@[k] == b@[k],
        decreases a@.len() - n,
    {
        if a[n] != b[n] {
            assert(a@[n as int] != b@[n as int]);
            return false;
        }
        n += 1;
    }
    assert(a@ =~= b@);
    true
}

/// Whether two byte strings are the same.
pub fn same_bytes(a: &Vec<u8>, b: &Vec<u8>) -> (r: bool)
    ensures
        r == (a@ == b@),
{
    if a.len() != b.len() {
        return false;
    }
    let mut n: usize = 0;
    while n < a.len()
        invariant
            0 <= n <= a@.len(),
            a@.len() == b@.len(),
            forall|k: int| 0 <= k < n ==> a@[k] == b@[k],
        decreases a@.len() - n,
    {
        if a[n] != b[n] {
            assert(a@[n as int] != b@[n as int]);
            return false;
        }
        n += 1;
    }
    assert(a@ =~= b@);
    true
}

} // verus!
