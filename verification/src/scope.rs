//! Read elision belongs to an executing command, not to a resource's lifetime.
//!
//! The decoded render pass owns a scope until its work returns; requests and
//! resource caches hold only references, which answer nothing once the scope is
//! closed. A reference never names a later command: identities are not reused.
use vstd::prelude::*;

verus! {

/// The scopes that are open, and the next identity to hand out.
pub struct ScopeRegistry {
    next: u64,
    live: Vec<u64>,
}

/// The right to close one scope, held by the pass it belongs to.
pub struct BufferSnapshotScope {
    id: u64,
}

/// A capability carried by a request within one live decoded render pass.
#[derive(Clone, Copy, Debug, PartialEq, Eq, Structural)]
pub struct SnapshotScopeRef {
    id: u64,
}

impl BufferSnapshotScope {
    /// The identity of the scope.
    pub closed spec fn identity(self) -> u64 {
        self.id
    }

    /// A reference to the scope.
    pub fn reference(&self) -> (r: SnapshotScopeRef)
        ensures
            r.named() == self.identity(),
    {
        SnapshotScopeRef { id: self.id }
    }
}

impl SnapshotScopeRef {
    /// The scope the reference was taken from.
    pub closed spec fn named(self) -> u64 {
        self.id
    }

    /// The identity of the scope while it is open.
    pub fn current(&self, scopes: &ScopeRegistry) -> (id: Option<u64>)
        ensures
            id == scopes.current_of(*self),
    {
        if scopes.is_open(self.id) {
            Some(self.id)
        } else {
            None
        }
    }
}

impl ScopeRegistry {
    /// The scope is open.
    pub closed spec fn open_scope(self, id: u64) -> bool {
        self.live@.contains(id)
    }

    /// The smallest identity never handed out.
    pub closed spec fn fresh(self) -> u64 {
        self.next
    }

    /// Only identities that were handed out are open, and each once.
    pub closed spec fn well_formed(self) -> bool {
        &&& self.next >= 1
        &&& self.live@.no_duplicates()
        &&& forall|id: u64| #[trigger] self.live@.contains(id) ==> id < self.next
    }

    /// What a reference answers.
    pub open spec fn current_of(self, reference: SnapshotScopeRef) -> Option<u64> {
        if self.open_scope(reference.named()) {
            Some(reference.named())
        } else {
            None
        }
    }

    /// `later` may follow `self`: identities only grow, and a scope that was
    /// handed out and is closed stays closed.
    pub open spec fn precedes(self, later: ScopeRegistry) -> bool {
        &&& self.fresh() <= later.fresh()
        &&& forall|id: u64|
            id < self.fresh() && #[trigger] later.open_scope(id) ==> self.open_scope(id)
    }

    /// No scope is open yet.
    pub fn new() -> (scopes: ScopeRegistry)
        ensures
            scopes.well_formed(),
            scopes.fresh() == 1,
            forall|id: u64| !scopes.open_scope(id),
    {
        ScopeRegistry { next: 1, live: Vec::new() }
    }

    /// Whether an identity is left for another scope.
    pub fn has_fresh(&self) -> (r: bool)
        ensures
            r == (self.fresh() < u64::MAX),
    {
        self.next < u64::MAX
    }

    /// Opens a scope under an identity that was never used.
    pub fn open(&mut self) -> (scope: BufferSnapshotScope)
        requires
            old(self).well_formed(),
            old(self).fresh() < u64::MAX,
        ensures
            final(self).well_formed(),
            scope.identity() == old(self).fresh(),
            !old(self).open_scope(scope.identity()),
            final(self).fresh() == old(self).fresh() + 1,
            forall|id: u64|
                final(self).open_scope(id) == (old(self).open_scope(id) || id == scope.identity()),
            old(self).precedes(*final(self)),
    {
        let id: u64 = self.next;
        let ghost before = self.live@;
        self.live.push(id);
        self.next = id + 1;
        proof {
            assert(!before.contains(id));
            assert forall|x: u64| self.live@.contains(x) == (before.contains(x) || x == id) by {
                if before.contains(x) {
                    let k = choose|k: int| 0 <= k < before.len() && before[k] == x;
                    assert(self.live@[k] == x);
                }
                if x == id {
                    assert(self.live@[before.len() as int] == x);
                }
            }
            assert forall|i: int, j: int|
                0 <= i < self.live@.len() && 0 <= j < self.live@.len() && i != j implies self.live@[i]
                != self.live@[j] by {
                if i < before.len() {
                    assert(before.contains(before[i]));
                }
                if j < before.len() {
                    assert(before.contains(before[j]));
                }
            }
            assert(self.live@.no_duplicates());
            assert forall|x: u64| #[trigger] self.live@.contains(x) implies x < self.next by {
                assert(before.contains(x) || x == id);
            }
        }
        BufferSnapshotScope { id }
    }

    fn is_open(&self, id: u64) -> (r: bool)
        ensures
            r == self.open_scope(id),
    {
        let mut n: usize = 0;
        while n < self.live.len()
            invariant
                0 <= n <= self.live@.len(),
                forall|k: int| 0 <= k < n ==> self.live@[k] != id,
            decreases self.live@.len() - n,
        {
            if self.live[n] == id {
                assert(self.live@[n as int] == id);
                return true;
            }
            n += 1;
        }
        false
    }

    /// Closes a scope: every reference to it answers nothing from here on.
    pub fn close(&mut self, scope: BufferSnapshotScope)
        requires
            old(self).well_formed(),
        ensures
            final(self).well_formed(),
            final(self).fresh() == old(self).fresh(),
            forall|id: u64|
                final(self).open_scope(id) == (old(self).open_scope(id) && id != scope.identity()),
            old(self).precedes(*final(self)),
    {
        let id: u64 = scope.id;
        let ghost before = self.live@;
        let mut n: usize = 0;
        while n < self.live.len()
            invariant
                0 <= n <= self.live@.len(),
                self.live@ == before,
                self.next == old(self).next,
                before == old(self).live@,
                old(self).well_formed(),
                id == scope.identity(),
                forall|k: int| 0 <= k < n ==> before[k] != id,
            decreases self.live@.len() - n,
        {
            if self.live[n] == id {
                self.live.remove(n);
                proof {
                    let after = self.live@;
                    assert(after =~= before.remove(n as int));
                    assert forall|x: u64| after.contains(x) == (before.contains(x) && x != id) by {
                        if after.contains(x) {
                            let k = choose|k: int| 0 <= k < after.len() && after[k] == x;
                            if k < n {
                                assert(before[k] == x);
                            } else {
                                assert(before[k + 1] == x);
                            }
                        }
                        if before.contains(x) && x != id {
                            let k = choose|k: int| 0 <= k < before.len() && before[k] == x;
                            if k < n {
                                assert(after[k] == x);
                            } else {
                                assert(after[k - 1] == x);
                            }
                        }
                    }
                    assert(after.no_duplicates()) by {
                        assert forall|i: int, j: int|
                            0 <= i < after.len() && 0 <= j < after.len() && i != j implies after[i]
                            != after[j] by {
                            let a = if i < n {
                                i
                            } else {
                                i + 1
                            };
                            let b = if j < n {
                                j
                            } else {
                                j + 1
                            };
                            assert(before[a] != before[b]);
                        }
                    }
                }
                return ;
            }
            n += 1;
        }
    }
}

/// Whatever happens in between, a later registry is reached through any middle
/// one: `precedes` composes.
pub proof fn law_registry_order_composes(a: ScopeRegistry, b: ScopeRegistry, c: ScopeRegistry)
    requires
        a.precedes(b),
        b.precedes(c),
    ensures
        a.precedes(c),
{
    assert forall|id: u64| id < a.fresh() && #[trigger] c.open_scope(id) implies a.open_scope(
        id,
    ) by {
        assert(b.open_scope(id));
    }
}

/// A reference that expired stays expired, and never names a later command: no
/// scope opened afterwards has its identity.
pub proof fn law_expired_references_stay_expired(
    expired: ScopeRegistry,
    later: ScopeRegistry,
    reference: SnapshotScopeRef,
)
    requires
        expired.precedes(later),
        reference.named() < expired.fresh(),
        expired.current_of(reference) is None,
    ensures
        later.current_of(reference) is None,
        later.fresh() != reference.named(),
{
}

/// Every open scope was handed out: its identity is below the next fresh one, so
/// a reference that answers meets what the other laws ask of it.
pub proof fn law_open_scopes_were_handed_out(scopes: ScopeRegistry, reference: SnapshotScopeRef)
    requires
        scopes.well_formed(),
        scopes.current_of(reference) is Some,
    ensures
        reference.named() < scopes.fresh(),
        scopes.current_of(reference) == Some(reference.named()),
{
}

} // verus!
