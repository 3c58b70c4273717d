//! The candidate a buffer resource keeps, and when it serves a read.
use crate::gather::{is_scope, same_numbers, GatherOutcome, GatheredIdentity};
use crate::input_snapshot::observe::{same_key, Key, KeyModel, MemError};
use crate::input_snapshot::routes::{
    amount, counted, counted_sized, lemma_noted, lemma_noted_amount, note_amount, note_if,
    note_sized, noted, noted_amount, Note, SnapshotRoute,
};
use crate::input_snapshot::span::{
    contained, contained_offset, same_allocation, BufferReadSpan,
};
use vstd::prelude::*;

verus! {

/// The stage a buffer is read by.
#[derive(Clone, Copy, Debug, PartialEq, Eq, Structural)]
pub enum Class {
    Vertex,
    Fragment,
}

/// Which binding asked for a snapshot.
#[derive(Clone, Copy, Debug, PartialEq, Eq, Structural)]
pub struct Origin {
    pub class: Class,
    pub slot: u32,
}

/// A retained snapshot. Its original capture stays as it was made; a contained
/// binding may begin further in under a new read-only proof.
pub struct Candidate<I> {
    pub key: Key,
    pub identity: GatheredIdentity,
    pub image: I,
    pub origin: Origin,
}

/// What a displaced candidate was captured under. It holds no storage and can
/// lend none: it only measures how often two keys take turns.
pub struct Displaced {
    pub key: Key,
    pub identity: GatheredIdentity,
}

/// A range that was observed in a scope. Keeping a covering witness stable lets
/// it mature without retaining bytes.
#[derive(Clone, Copy, Debug, PartialEq, Eq, Structural)]
pub struct WitnessPlan {
    pub scope: u64,
    pub span: BufferReadSpan,
}

/// What a buffer resource keeps.
pub struct RetainedBuffer<I> {
    pub latest: Option<Candidate<I>>,
    pub displaced: Option<Displaced>,
    pub plan: Option<WitnessPlan>,
}

/// The setting of an operator switch.
#[derive(Clone, Copy, Debug, PartialEq, Eq, Structural)]
pub enum Switch {
    Unset,
    On,
    Off,
    Unrecognized,
}

/// What an unrecognized switch setting is reported with.
pub struct SwitchReport {
    pub reason: &'static str,
    pub name: String,
    pub value: String,
}

/// Whether the operator permits reuse, and the report an unrecognized setting
/// owes. The switch only narrows: nothing but an absent setting or an explicit
/// permission permits.
pub fn permitted(setting: Switch, name: &str, value: Option<&str>) -> (r: (
    bool,
    Option<SwitchReport>,
))
    ensures
        r.0 == (setting == Switch::Unset || setting == Switch::On),
        r.1 is Some <==> setting == Switch::Unrecognized,
        r.1 matches Some(report) ==> {
            &&& report.reason@ == "metal_input_snapshot_switch_unrecognized"@
            &&& report.name@ == name@
            &&& report.value@ == match value {
                Some(text) => text@,
                None => Seq::<char>::empty(),
            }
        },
{
    match setting {
        Switch::Off => (false, None),
        Switch::Unset | Switch::On => (true, None),
        Switch::Unrecognized => {
            let value: String = match value {
                Some(text) => text.to_owned(),
                None => String::new(),
            };
            (
                false,
                Some(
                    SwitchReport {
                        reason: "metal_input_snapshot_switch_unrecognized",
                        name: name.to_owned(),
                        value,
                    },
                ),
            )
        },
    }
}

/// An observation, or why there is none.
pub type Seen = Result<(Key, GatherOutcome), MemError>;

/// A capture may be cached at all: it is proved read-only, the operator permits
/// reuse, it runs in a live scope, write observations are current, and its
/// resource is a buffer.
pub open spec fn cacheable(
    read_only: bool,
    enabled: bool,
    scope_id: Option<u64>,
    observations_current: bool,
    buffer_resource: bool,
) -> bool {
    read_only && enabled && scope_id is Some && observations_current && buffer_resource
}

/// Whether a capture may be cached at all, and what is counted of the answer.
pub fn eligible(
    read_only: bool,
    enabled: bool,
    scope_id: Option<u64>,
    observations_current: bool,
    buffer_resource: bool,
    notes: &mut Vec<Note>,
) -> (r: bool)
    ensures
        r == cacheable(read_only, enabled, scope_id, observations_current, buffer_resource),
        final(notes)@ == old(notes)@ + counted(scope_id is None, SnapshotRoute::Unscoped),
{
    note_if(notes, scope_id.is_none(), SnapshotRoute::Unscoped);
    read_only && enabled && scope_id.is_some() && observations_current && buffer_resource
}

/// The range to observe for a request: the candidate's where it covers the
/// request, else the planned one where that does, else the request itself.
pub open spec fn planned_span<I>(
    held: RetainedBuffer<I>,
    scope: u64,
    requested: BufferReadSpan,
) -> BufferReadSpan {
    if held.latest matches Some(candidate) && candidate.key.scope == scope && contained(
        candidate.key.span,
        requested,
    ) {
        held.latest->0.key.span
    } else if held.plan matches Some(plan) && plan.scope == scope && contained(
        plan.span,
        requested,
    ) {
        held.plan->0.span
    } else {
        requested
    }
}

/// How far into the candidate a request begins, where the candidate serves it:
/// the observation vouches for the candidate's own bytes, in the scope that is
/// still open, over a range that holds the request.
pub open spec fn servable<I>(
    held: RetainedBuffer<I>,
    seen: Seen,
    requested: BufferReadSpan,
    scope_now: Option<u64>,
) -> Option<int> {
    match (seen, held.latest) {
        (Ok(pair), Some(candidate)) => if proven(candidate, pair.0@, pair.1, scope_now)
            && contained(candidate.key.span, requested) {
            Some(requested.offset - candidate.key.span.offset)
        } else {
            None
        },
        _ => None,
    }
}

/// The observation vouches for the candidate's own bytes in a live scope.
pub open spec fn proven<I>(
    candidate: Candidate<I>,
    key: KeyModel,
    outcome: GatherOutcome,
    scope_now: Option<u64>,
) -> bool {
    &&& outcome.reusable()
    &&& outcome.identity == candidate.identity
    &&& key == candidate.key@
    &&& scope_now == Some(key.scope)
}

/// The plan an observation leaves behind.
pub open spec fn next_plan<I>(
    held: RetainedBuffer<I>,
    seen: Seen,
    scope_now: Option<u64>,
) -> Option<WitnessPlan> {
    match seen {
        Ok(pair) => if scope_now == Some(pair.0.scope) {
            Some(WitnessPlan { scope: pair.0.scope, span: pair.0.span })
        } else {
            held.plan
        },
        Err(_) => held.plan,
    }
}

/// What is counted before a candidate is tried.
pub open spec fn trial_notes<I>(
    held: RetainedBuffer<I>,
    seen: Seen,
    requested: BufferReadSpan,
    scope_now: Option<u64>,
    native_binds: bool,
) -> Seq<Note> {
    match (seen, held.latest) {
        (Ok(pair), Some(candidate)) => {
            let fresh = proven(candidate, pair.0@, pair.1, scope_now);
            let covers = contained(candidate.key.span, requested);
            counted(pair.0.scope != candidate.key.scope, SnapshotRoute::ScopeChanged) + counted(
                pair.0.declared_write != candidate.key.declared_write,
                SnapshotRoute::DeclaredWriteChanged,
            ) + counted(
                fresh && covers && native_binds && candidate.key.span != requested,
                SnapshotRoute::ContainedHits,
            ) + counted(fresh && covers && !native_binds, SnapshotRoute::MissNativeBinding) + counted(
                fresh && !covers,
                SnapshotRoute::MissCaptureCoverage,
            )
        },
        _ => Seq::empty(),
    }
}

/// What is counted of a hit.
pub open spec fn hit_notes(requested: BufferReadSpan, audit_bytes: u64) -> Seq<Note> {
    counted(true, SnapshotRoute::Hits) + amount(
        SnapshotRoute::CaptureBytesAvoided,
        requested.len as u64,
    ) + amount(
        SnapshotRoute::GuestBytesAvoided,
        if requested.len > audit_bytes {
            (requested.len - audit_bytes) as u64
        } else {
            0
        },
    ) + amount(SnapshotRoute::HitAuditBytes, audit_bytes) + amount(
        SnapshotRoute::ExtraAuditBytes,
        if audit_bytes > requested.len {
            (audit_bytes - requested.len) as u64
        } else {
            0
        },
    )
}

/// The displaced entry that still counts: one of the current scope.
pub open spec fn live_displaced(displaced: Option<Displaced>, scope_now: Option<u64>) -> Option<
    Displaced,
> {
    match displaced {
        Some(prior) => if scope_now == Some(prior.key.scope) {
            displaced
        } else {
            None
        },
        None => None,
    }
}

/// What is counted of the displaced entry when it comes round again.
pub open spec fn displaced_notes(
    displaced: Option<Displaced>,
    key: KeyModel,
    outcome: GatherOutcome,
    requested: BufferReadSpan,
    scope_now: Option<u64>,
) -> Seq<Note> {
    match displaced {
        None => Seq::empty(),
        Some(prior) => {
            let exact = prior.key@ == key && prior.key.span == requested;
            counted_sized(
                exact,
                SnapshotRoute::DisplacedExact,
                SnapshotRoute::DisplacedExactBytes,
                key.span.len as u64,
            ) + counted_sized(
                exact && outcome.reusable() && outcome.identity == prior.identity && scope_now
                    == Some(key.scope),
                SnapshotRoute::DisplacedVouched,
                SnapshotRoute::DisplacedVouchedBytes,
                key.span.len as u64,
            )
        },
    }
}

/// The request lies inside the candidate by offset alone. Geometry only: it is
/// no permission to bind.
pub open spec fn inside_by_offset(outer: BufferReadSpan, inner: BufferReadSpan) -> bool {
    &&& outer.offset <= inner.offset
    &&& inner.offset + inner.len <= u64::MAX
    &&& outer.offset + outer.len <= u64::MAX
    &&& inner.offset + inner.len <= outer.offset + outer.len
}

/// What is counted of a candidate that did not serve a request: every way in
/// which it differs, each on its own.
pub open spec fn mismatch_notes<I>(
    prior: Candidate<I>,
    key: KeyModel,
    outcome: GatherOutcome,
    requested: BufferReadSpan,
    scope_now: Option<u64>,
    origin: Origin,
) -> Seq<Note> {
    let span = prior.key.span;
    let exact = key == prior.key@ && requested == span;
    counted(origin.class != prior.origin.class, SnapshotRoute::CandidateStageChanged) + counted(
        origin.slot != prior.origin.slot,
        SnapshotRoute::CandidateSlotChanged,
    ) + counted(key.scope != prior.key.scope, SnapshotRoute::MissScope) + counted(
        scope_now != Some(key.scope),
        SnapshotRoute::MissScopeExpired,
    ) + counted(
        key.declared_write != prior.key.declared_write,
        SnapshotRoute::MissDeclaredWrite,
    ) + counted(!same_allocation(requested, span), SnapshotRoute::MissSource) + counted_sized(
        requested.offset != span.offset,
        SnapshotRoute::MissOffset,
        SnapshotRoute::MissOffsetBytes,
        requested.len as u64,
    ) + counted_sized(
        requested.len != span.len,
        SnapshotRoute::MissCaptureLength,
        SnapshotRoute::MissCaptureLengthBytes,
        requested.len as u64,
    ) + counted(key.pages != prior.key@.pages, SnapshotRoute::MissPages) + counted(
        outcome.identity != prior.identity,
        SnapshotRoute::MissIdentity,
    ) + counted_sized(
        exact,
        SnapshotRoute::MetadataExact,
        SnapshotRoute::MetadataExactBytes,
        requested.len as u64,
    ) + counted(exact && !outcome.vouched, SnapshotRoute::MetadataExactUnvouched) + counted(
        exact && outcome.identity != prior.identity,
        SnapshotRoute::MetadataExactIdentityChanged,
    ) + counted(exact && !outcome.cpu_read_settled, SnapshotRoute::MetadataExactUnsettled)
        + counted_sized(
        same_allocation(requested, span) && key.scope == prior.key.scope && inside_by_offset(
            span,
            requested,
        ),
        SnapshotRoute::GeometryContained,
        SnapshotRoute::GeometryContainedBytes,
        requested.len as u64,
    )
}

/// What is counted of a lookup that missed.
pub open spec fn lookup_notes<I>(
    latest: Option<Candidate<I>>,
    displaced: Option<Displaced>,
    seen: Seen,
    requested: BufferReadSpan,
    scope_now: Option<u64>,
    origin: Origin,
) -> Seq<Note> {
    match seen {
        Err(_) => counted(true, SnapshotRoute::LookupObserveFailed),
        Ok(pair) => counted(!pair.1.vouched, SnapshotRoute::LookupUnvouched) + counted(
            !pair.1.cpu_read_settled,
            SnapshotRoute::LookupUnsettled,
        ) + displaced_notes(
            live_displaced(displaced, scope_now),
            pair.0@,
            pair.1,
            requested,
            scope_now,
        ) + match latest {
            None => counted(true, SnapshotRoute::MissNoCandidate),
            Some(prior) => mismatch_notes(prior, pair.0@, pair.1, requested, scope_now, origin),
        },
    }
}

fn note_displaced(
    displaced: &Option<Displaced>,
    key: &Key,
    outcome: GatherOutcome,
    requested: BufferReadSpan,
    scope_now: Option<u64>,
    notes: &mut Vec<Note>,
)
    ensures
        final(notes)@ == old(notes)@ + displaced_notes(
            *displaced,
            key@,
            outcome,
            requested,
            scope_now,
        ),
{
    if let Some(prior) = displaced {
        let exact: bool = same_key(&prior.key, key) && prior.key.span == requested;
        let bytes: u64 = key.span.len as u64;
        let vouched: bool = exact && outcome.cpu_read_vouched() && outcome.identity == prior.identity
            && is_scope(scope_now, key.scope);
        note_sized(
            notes,
            exact,
            SnapshotRoute::DisplacedExact,
            SnapshotRoute::DisplacedExactBytes,
            bytes,
        );
        note_sized(
            notes,
            vouched,
            SnapshotRoute::DisplacedVouched,
            SnapshotRoute::DisplacedVouchedBytes,
            bytes,
        );
    }
    assert(notes@ =~= old(notes)@ + displaced_notes(
        *displaced,
        key@,
        outcome,
        requested,
        scope_now,
    ));
}

fn geometry_inside(outer: BufferReadSpan, inner: BufferReadSpan) -> (r: bool)
    ensures
        r == inside_by_offset(outer, inner),
{
    if inner.offset < outer.offset {
        return false;
    }
    match (
        inner.offset.checked_add(inner.len as u64),
        outer.offset.checked_add(outer.len as u64),
    ) {
        (Some(end), Some(old_end)) => end <= old_end,
        _ => false,
    }
}

fn note_mismatch<I>(
    prior: &Candidate<I>,
    key: &Key,
    outcome: GatherOutcome,
    requested: BufferReadSpan,
    scope_now: Option<u64>,
    origin: Origin,
    notes: &mut Vec<Note>,
)
    ensures
        final(notes)@ == old(notes)@ + mismatch_notes(
            *prior,
            key@,
            outcome,
            requested,
            scope_now,
            origin,
        ),
{
    let span: BufferReadSpan = prior.key.span;
    let same: bool = requested.task == span.task && requested.backing == span.backing
        && requested.page_shift == span.page_shift;
    let exact: bool = same_key(key, &prior.key) && requested == span;
    let bytes: u64 = requested.len as u64;
    let mut found: Vec<Note> = Vec::new();
    note_if(
        &mut found,
        origin.class != prior.origin.class,
        SnapshotRoute::CandidateStageChanged,
    );
    note_if(&mut found, origin.slot != prior.origin.slot, SnapshotRoute::CandidateSlotChanged);
    note_if(&mut found, key.scope != prior.key.scope, SnapshotRoute::MissScope);
    note_if(&mut found, !is_scope(scope_now, key.scope), SnapshotRoute::MissScopeExpired);
    note_if(
        &mut found,
        key.declared_write != prior.key.declared_write,
        SnapshotRoute::MissDeclaredWrite,
    );
    note_if(&mut found, !same, SnapshotRoute::MissSource);
    note_sized(
        &mut found,
        requested.offset != span.offset,
        SnapshotRoute::MissOffset,
        SnapshotRoute::MissOffsetBytes,
        bytes,
    );
    note_sized(
        &mut found,
        requested.len != span.len,
        SnapshotRoute::MissCaptureLength,
        SnapshotRoute::MissCaptureLengthBytes,
        bytes,
    );
    note_if(&mut found, !same_numbers(&key.pages, &prior.key.pages), SnapshotRoute::MissPages);
    note_if(&mut found, outcome.identity != prior.identity, SnapshotRoute::MissIdentity);
    note_sized(
        &mut found,
        exact,
        SnapshotRoute::MetadataExact,
        SnapshotRoute::MetadataExactBytes,
        bytes,
    );
    note_if(&mut found, exact && !outcome.vouched, SnapshotRoute::MetadataExactUnvouched);
    note_if(
        &mut found,
        exact && outcome.identity != prior.identity,
        SnapshotRoute::MetadataExactIdentityChanged,
    );
    note_if(
        &mut found,
        exact && !outcome.cpu_read_settled,
        SnapshotRoute::MetadataExactUnsettled,
    );
    note_sized(
        &mut found,
        same && key.scope == prior.key.scope && geometry_inside(span, requested),
        SnapshotRoute::GeometryContained,
        SnapshotRoute::GeometryContainedBytes,
        bytes,
    );
    assert(found@ =~= mismatch_notes(*prior, key@, outcome, requested, scope_now, origin));
    notes.append(&mut found);
}

/// What a lookup leads to.
pub enum Lookup<I> {
    /// The candidate serves the request, beginning `delta` bytes in.
    Hit { delta: usize },
    /// The range is captured afresh. The observation comes back for the end of
    /// the capture, and the image that was given up for retirement.
    Capture { before: Option<(Key, GatherOutcome)>, retired: Option<I> },
}

/// What a lookup does to what the resource keeps, what it leads to and what it
/// counts.
pub open spec fn looked_up<I>(
    before: RetainedBuffer<I>,
    after: RetainedBuffer<I>,
    seen: Seen,
    requested: BufferReadSpan,
    scope_now: Option<u64>,
    origin: Origin,
    native_binds: bool,
    r: Lookup<I>,
    counts_before: Seq<Note>,
    counts: Seq<Note>,
) -> bool {
    let delta = servable(before, seen, requested, scope_now);
    let plan = next_plan(before, seen, scope_now);
    let tried = trial_notes(
        before,
        seen,
        requested,
        scope_now,
        native_binds,
    );
    if delta is Some && native_binds {
        &&& r matches Lookup::Hit { delta: d } && d == delta->0
        &&& after.latest == before.latest
        &&& after.displaced == before.displaced
        &&& after.plan == plan
        &&& counts == counts_before + tried + hit_notes(
            requested,
            (seen->Ok_0).1.audit_bytes,
        )
    } else {
        &&& after.latest is None
        &&& after.plan == plan
        &&& match before.latest {
            Some(candidate) => after.displaced == Some(
                Displaced { key: candidate.key, identity: candidate.identity },
            ),
            None => after.displaced == live_displaced(
                before.displaced,
                scope_now,
            ),
        }
        &&& r matches Lookup::Capture { before: first, retired } && first == (match seen {
            Ok(pair) => Some(pair),
            Err(_) => None,
        }) && retired == (match before.latest {
            Some(candidate) => Some(candidate.image),
            None => None,
        })
        &&& counts == counts_before + tried + lookup_notes(
            before.latest,
            before.displaced,
            seen,
            requested,
            scope_now,
            origin,
        ) + (match seen {
            Ok(pair) => amount(SnapshotRoute::ExtraAuditBytes, pair.1.audit_bytes),
            Err(_) => Seq::empty(),
        }) + counted(true, SnapshotRoute::Captures)
    }
}

impl<I> RetainedBuffer<I> {
    /// Nothing is retained.
    pub fn new() -> (held: RetainedBuffer<I>)
        ensures
            held.latest is None,
            held.displaced is None,
            held.plan is None,
    {
        RetainedBuffer { latest: None, displaced: None, plan: None }
    }

    /// The range to observe for a request.
    pub fn witness_span(&self, scope: u64, requested: BufferReadSpan) -> (span: BufferReadSpan)
        ensures
            span == planned_span(*self, scope, requested),
            contained(span, requested),
    {
        if let Some(candidate) = &self.latest {
            if candidate.key.scope == scope && contained_offset(
                candidate.key.span,
                requested,
            ).is_some() {
                return candidate.key.span;
            }
        }
        if let Some(plan) = self.plan {
            if plan.scope == scope && contained_offset(plan.span, requested).is_some() {
                return plan.span;
            }
        }
        requested
    }

    /// Takes note of the observation of a planned range, and says whether the
    /// request itself has to be observed instead. An unprovable covering range
    /// cannot block a valid narrow read, nor stay the next request's plan.
    pub fn planned(
        &mut self,
        planned: BufferReadSpan,
        requested: BufferReadSpan,
        observed: bool,
        notes: &mut Vec<Note>,
    ) -> (again: bool)
        ensures
            again == (planned != requested && !observed),
            *final(self) == (RetainedBuffer {
                plan: if again {
                    None
                } else {
                    old(self).plan
                },
                ..*old(self)
            }),
            final(notes)@ == old(notes)@ + counted(
                planned != requested,
                SnapshotRoute::WitnessPlanReused,
            ) + counted(again, SnapshotRoute::WitnessPlanRefused),
    {
        let wider: bool = planned != requested;
        let again: bool = wider && !observed;
        note_if(notes, wider, SnapshotRoute::WitnessPlanReused);
        note_if(notes, again, SnapshotRoute::WitnessPlanRefused);
        if again {
            self.plan = None;
        }
        again
    }

    /// Whether the candidate serves a request. `native_binds` is whether its
    /// image can be bound that far in under the request's proof. A miss gives
    /// the candidate up before anything is captured, so that a failing capture
    /// leaves none behind.
    pub fn lookup(
        &mut self,
        seen: Seen,
        requested: BufferReadSpan,
        scope_now: Option<u64>,
        origin: Origin,
        native_binds: bool,
        notes: &mut Vec<Note>,
    ) -> (r: Lookup<I>)
        ensures
            looked_up(
                *old(self),
                *final(self),
                seen,
                requested,
                scope_now,
                origin,
                native_binds,
                r,
                old(notes)@,
                final(notes)@,
            ),
    {
        if let Ok(pair) = &seen {
            if is_scope(scope_now, pair.0.scope) {
                self.plan = Some(WitnessPlan { scope: pair.0.scope, span: pair.0.span });
            }
        }
        let mut tried: Vec<Note> = Vec::new();
        if let (Ok(pair), Some(candidate)) = (&seen, &self.latest) {
            note_if(
                &mut tried,
                pair.0.scope != candidate.key.scope,
                SnapshotRoute::ScopeChanged,
            );
            note_if(
                &mut tried,
                pair.0.declared_write != candidate.key.declared_write,
                SnapshotRoute::DeclaredWriteChanged,
            );
            let fresh: bool = pair.1.cpu_read_vouched() && pair.1.identity == candidate.identity
                && same_key(&pair.0, &candidate.key) && is_scope(scope_now, pair.0.scope);
            let inside: Option<usize> = contained_offset(candidate.key.span, requested);
            let covers: bool = inside.is_some();
            note_if(
                &mut tried,
                fresh && covers && native_binds && candidate.key.span != requested,
                SnapshotRoute::ContainedHits,
            );
            note_if(
                &mut tried,
                fresh && covers && !native_binds,
                SnapshotRoute::MissNativeBinding,
            );
            note_if(&mut tried, fresh && !covers, SnapshotRoute::MissCaptureCoverage);
            assert(tried@ =~= trial_notes(
                *old(self),
                seen,
                requested,
                scope_now,
                native_binds,
            ));
            if fresh && native_binds {
                if let Some(delta) = inside {
                    let audit: u64 = pair.1.audit_bytes;
                    let len: u64 = requested.len as u64;
                    note_if(&mut tried, true, SnapshotRoute::Hits);
                    note_amount(&mut tried, SnapshotRoute::CaptureBytesAvoided, len);
                    note_amount(
                        &mut tried,
                        SnapshotRoute::GuestBytesAvoided,
                        len.saturating_sub(audit),
                    );
                    note_amount(&mut tried, SnapshotRoute::HitAuditBytes, audit);
                    note_amount(
                        &mut tried,
                        SnapshotRoute::ExtraAuditBytes,
                        audit.saturating_sub(len),
                    );
                    notes.append(&mut tried);
                    assert(notes@ =~= old(notes)@ + trial_notes(
                        *old(self),
                        seen,
                        requested,
                        scope_now,
                        native_binds,
                    ) + hit_notes(requested, audit));
                    return Lookup::Hit { delta };
                }
            }
        }
        assert(tried@ =~= trial_notes(*old(self), seen, requested, scope_now, native_binds));
        let drop_displaced: bool = match &self.displaced {
            Some(prior) => !is_scope(scope_now, prior.key.scope),
            None => false,
        };
        if drop_displaced {
            self.displaced = None;
        }
        assert(self.displaced == live_displaced(old(self).displaced, scope_now));
        let mut missed: Vec<Note> = Vec::new();
        match &seen {
            Err(_) => {
                note_if(&mut missed, true, SnapshotRoute::LookupObserveFailed);
            },
            Ok(pair) => {
                note_if(&mut missed, !pair.1.vouched, SnapshotRoute::LookupUnvouched);
                note_if(&mut missed, !pair.1.cpu_read_settled, SnapshotRoute::LookupUnsettled);
                note_displaced(
                    &self.displaced,
                    &pair.0,
                    pair.1,
                    requested,
                    scope_now,
                    &mut missed,
                );
                match &self.latest {
                    None => {
                        note_if(&mut missed, true, SnapshotRoute::MissNoCandidate);
                    },
                    Some(candidate) => {
                        note_mismatch(
                            candidate,
                            &pair.0,
                            pair.1,
                            requested,
                            scope_now,
                            origin,
                            &mut missed,
                        );
                    },
                }
            },
        }
        assert(missed@ =~= lookup_notes(
            old(self).latest,
            old(self).displaced,
            seen,
            requested,
            scope_now,
            origin,
        ));
        let retired: Option<I> = match self.latest.take() {
            None => None,
            Some(candidate) => {
                self.displaced = Some(
                    Displaced { key: candidate.key, identity: candidate.identity },
                );
                Some(candidate.image)
            },
        };
        notes.append(&mut tried);
        notes.append(&mut missed);
        if let Ok(pair) = &seen {
            note_amount(notes, SnapshotRoute::ExtraAuditBytes, pair.1.audit_bytes);
        }
        note_if(notes, true, SnapshotRoute::Captures);
        let before: Option<(Key, GatherOutcome)> = match seen {
            Ok(pair) => Some(pair),
            Err(_) => None,
        };
        Lookup::Capture { before, retired }
    }
}

/// What a capture counts when nothing about it can be cached.
pub fn capture_ineligible(notes: &mut Vec<Note>)
    ensures
        final(notes)@ == old(notes)@ + counted(true, SnapshotRoute::Ineligible) + counted(
            true,
            SnapshotRoute::Captures,
        ),
{
    note_if(notes, true, SnapshotRoute::Ineligible);
    note_if(notes, true, SnapshotRoute::Captures);
}

/// What a capture counts when the resource's retained state belongs to another
/// cache: its observation is spent, and nothing is kept.
pub fn capture_unowned(seen: &Seen, notes: &mut Vec<Note>)
    ensures
        final(notes)@ == old(notes)@ + (match *seen {
            Ok(pair) => amount(SnapshotRoute::ExtraAuditBytes, pair.1.audit_bytes),
            Err(_) => Seq::empty(),
        }) + counted(true, SnapshotRoute::Captures),
{
    if let Ok(pair) = seen {
        note_amount(notes, SnapshotRoute::ExtraAuditBytes, pair.1.audit_bytes);
    }
    note_if(notes, true, SnapshotRoute::Captures);
    assert(notes@ =~= old(notes)@ + (match *seen {
        Ok(pair) => amount(SnapshotRoute::ExtraAuditBytes, pair.1.audit_bytes),
        Err(_) => Seq::empty(),
    }) + counted(true, SnapshotRoute::Captures));
}

/// A finished capture may stand for later reads: exactly the requested range was
/// captured, and the observations on both sides of it agree that nothing wrote
/// it while its scope stayed open.
pub open spec fn may_retain(
    key: KeyModel,
    first: GatherOutcome,
    after: KeyModel,
    last: GatherOutcome,
    requested: BufferReadSpan,
    scope_now: Option<u64>,
) -> bool {
    &&& key == after
    &&& scope_now == Some(key.scope)
    &&& first.cpu_read_settled
    &&& last.reusable()
    &&& first.identity == last.identity
    &&& key.span == requested
}

/// What is counted of the two observations around a capture.
pub open spec fn retention_notes(
    before: KeyModel,
    first: GatherOutcome,
    after: KeyModel,
    last: GatherOutcome,
    scope_now: Option<u64>,
) -> Seq<Note> {
    counted(before != after, SnapshotRoute::PostKeyChanged) + counted(
        before.pages != after.pages,
        SnapshotRoute::PostPagesChanged,
    ) + counted(
        before.declared_write != after.declared_write,
        SnapshotRoute::PostDeclaredWriteChanged,
    ) + counted(scope_now != Some(before.scope), SnapshotRoute::PostScopeExpired) + counted(
        !first.cpu_read_settled || !last.cpu_read_settled,
        SnapshotRoute::PostUnsettled,
    ) + counted(!last.vouched, SnapshotRoute::PostUnvouched) + counted(
        first.identity != last.identity,
        SnapshotRoute::PostIdentityChanged,
    )
}

/// What is counted at the end of a capture.
pub open spec fn settled_notes(
    key: KeyModel,
    first: GatherOutcome,
    after: KeyModel,
    last: GatherOutcome,
    requested: BufferReadSpan,
    scope_now: Option<u64>,
) -> Seq<Note> {
    let retained = may_retain(key, first, after, last, requested, scope_now);
    let partial = key.span != requested;
    retention_notes(key, first, after, last, scope_now) + amount(
        SnapshotRoute::ExtraAuditBytes,
        last.audit_bytes,
    ) + counted(retained, SnapshotRoute::Retained) + counted(
        !retained && partial,
        SnapshotRoute::MetadataPlanOnly,
    ) + counted(
        !retained && partial && !last.reusable(),
        SnapshotRoute::MetadataPlanUnvouched,
    ) + counted(!retained && !partial, SnapshotRoute::ChangedDuringCapture)
}

/// What a finished capture is retained under.
pub struct Retention {
    pub key: Key,
    pub identity: GatheredIdentity,
}

fn note_retention(
    before: &Key,
    first: GatherOutcome,
    after: &Key,
    last: GatherOutcome,
    scope_now: Option<u64>,
    notes: &mut Vec<Note>,
)
    ensures
        final(notes)@ == old(notes)@ + retention_notes(before@, first, after@, last, scope_now),
{
    let mut found: Vec<Note> = Vec::new();
    note_if(&mut found, !same_key(before, after), SnapshotRoute::PostKeyChanged);
    note_if(
        &mut found,
        !same_numbers(&before.pages, &after.pages),
        SnapshotRoute::PostPagesChanged,
    );
    note_if(
        &mut found,
        before.declared_write != after.declared_write,
        SnapshotRoute::PostDeclaredWriteChanged,
    );
    note_if(&mut found, !is_scope(scope_now, before.scope), SnapshotRoute::PostScopeExpired);
    note_if(
        &mut found,
        !first.cpu_read_settled || !last.cpu_read_settled,
        SnapshotRoute::PostUnsettled,
    );
    note_if(&mut found, !last.vouched, SnapshotRoute::PostUnvouched);
    note_if(&mut found, first.identity != last.identity, SnapshotRoute::PostIdentityChanged);
    assert(found@ =~= retention_notes(before@, first, after@, last, scope_now));
    notes.append(&mut found);
}

/// Whether a finished capture may be retained, and under what.
pub fn settle(
    before: (Key, GatherOutcome),
    after: Seen,
    requested: BufferReadSpan,
    scope_now: Option<u64>,
    notes: &mut Vec<Note>,
) -> (r: Option<Retention>)
    ensures
        match after {
            Err(_) => {
                &&& r is None
                &&& final(notes)@ == old(notes)@ + counted(true, SnapshotRoute::PostObserveFailed)
            },
            Ok(pair) => {
                &&& final(notes)@ == old(notes)@ + settled_notes(
                    before.0@,
                    before.1,
                    pair.0@,
                    pair.1,
                    requested,
                    scope_now,
                )
                &&& if may_retain(
                    before.0@,
                    before.1,
                    pair.0@,
                    pair.1,
                    requested,
                    scope_now,
                ) {
                    r == Some(Retention { key: before.0, identity: pair.1.identity })
                } else {
                    r is None
                }
            },
        },
{
    let (key, first): (Key, GatherOutcome) = before;
    let (post, last): (Key, GatherOutcome) = match after {
        Err(_) => {
            note_if(notes, true, SnapshotRoute::PostObserveFailed);
            return None;
        },
        Ok(pair) => pair,
    };
    let retained: bool = same_key(&key, &post) && is_scope(scope_now, key.scope)
        && first.cpu_read_settled && last.cpu_read_vouched() && first.identity == last.identity
        && key.span == requested;
    let partial: bool = key.span != requested;
    note_retention(&key, first, &post, last, scope_now, notes);
    note_amount(notes, SnapshotRoute::ExtraAuditBytes, last.audit_bytes);
    note_if(notes, retained, SnapshotRoute::Retained);
    note_if(notes, !retained && partial, SnapshotRoute::MetadataPlanOnly);
    note_if(
        notes,
        !retained && partial && !last.cpu_read_vouched(),
        SnapshotRoute::MetadataPlanUnvouched,
    );
    note_if(notes, !retained && !partial, SnapshotRoute::ChangedDuringCapture);
    assert(notes@ =~= old(notes)@ + settled_notes(
        before.0@,
        before.1,
        post@,
        last,
        requested,
        scope_now,
    ));
    if retained {
        Some(Retention { key, identity: last.identity })
    } else {
        None
    }
}

impl<I> RetainedBuffer<I> {
    /// Keeps a finished capture.
    pub fn retain(&mut self, retention: Retention, image: I, origin: Origin)
        ensures
            *final(self) == (RetainedBuffer {
                latest: Some(
                    Candidate {
                        key: retention.key,
                        identity: retention.identity,
                        image,
                        origin,
                    },
                ),
                ..*old(self)
            }),
    {
        self.latest = Some(
            Candidate { key: retention.key, identity: retention.identity, image, origin },
        );
    }
}

/// A retained capture serves every request inside it for which the range is
/// observed unchanged, and begins where the request does.
pub proof fn law_retained_capture_serves_contained_requests<I>(
    held: RetainedBuffer<I>,
    seen: Seen,
    requested: BufferReadSpan,
)
    requires
        held.latest is Some,
        seen is Ok,
        (seen->Ok_0).0@ == held.latest->0.key@,
        (seen->Ok_0).1.reusable(),
        (seen->Ok_0).1.identity == held.latest->0.identity,
        contained(held.latest->0.key.span, requested),
    ensures
        servable(held, seen, requested, Some((seen->Ok_0).0.scope)) == Some(
            requested.offset - held.latest->0.key.span.offset,
        ),
        planned_span(held, held.latest->0.key.scope, requested) == held.latest->0.key.span,
{
}

/// Nothing is served once the scope is closed, in another scope, after a write
/// the guest declared, after a page moved, or without a settled and vouched
/// observation.
pub proof fn law_nothing_stale_is_served<I>(
    held: RetainedBuffer<I>,
    seen: Seen,
    requested: BufferReadSpan,
    scope_now: Option<u64>,
)
    requires
        held.latest is Some,
        seen is Ok,
        ({
            let key = (seen->Ok_0).0;
            let candidate = held.latest->0;
            ||| scope_now != Some(candidate.key.scope)
            ||| key.declared_write != candidate.key.declared_write
            ||| key.pages@ != candidate.key.pages@
            ||| (seen->Ok_0).1.identity != candidate.identity
            ||| !(seen->Ok_0).1.vouched
            ||| !(seen->Ok_0).1.cpu_read_settled
        }),
    ensures
        servable(held, seen, requested, scope_now) is None,
{
}

/// Only a capture of the whole observed range is ever retained: a narrower fresh
/// capture never stands for a wider plan.
pub proof fn law_narrow_captures_never_stand_for_a_plan(
    key: KeyModel,
    first: GatherOutcome,
    after: KeyModel,
    last: GatherOutcome,
    requested: BufferReadSpan,
    scope_now: Option<u64>,
)
    requires
        key.span != requested,
    ensures
        !may_retain(key, first, after, last, requested, scope_now),
{
}

/// A candidate serves a request exactly when it was captured in the open scope from
/// the very range, pages and declared write that were just observed, the witness
/// vouches for it and no write may still reach, and the requested bytes lie inside
/// it. It is then read from where the request's first byte is.
pub proof fn law_served_bytes_are_the_requested_ones<I>(
    held: RetainedBuffer<I>,
    seen: Seen,
    requested: BufferReadSpan,
    scope_now: Option<u64>,
)
    ensures
        servable(held, seen, requested, scope_now) is Some <==> {
            &&& seen is Ok
            &&& held.latest is Some
            &&& (seen->Ok_0).1.vouched && (seen->Ok_0).1.cpu_read_settled
            &&& (seen->Ok_0).1.identity == held.latest->0.identity
            &&& (seen->Ok_0).0.scope == held.latest->0.key.scope
            &&& (seen->Ok_0).0.declared_write == held.latest->0.key.declared_write
            &&& (seen->Ok_0).0.span == held.latest->0.key.span
            &&& (seen->Ok_0).0.pages@ == held.latest->0.key.pages@
            &&& scope_now is Some && scope_now->0 == held.latest->0.key.scope
            &&& {
                let span = held.latest->0.key.span;
                &&& span.task == requested.task && span.backing == requested.backing
                    && span.page_shift == requested.page_shift
                &&& span.offset <= requested.offset
                &&& requested.gva - span.gva == requested.offset - span.offset
                &&& requested.offset + requested.len <= span.offset + span.len
            }
        },
        servable(held, seen, requested, scope_now) matches Some(delta) ==> {
            let span = held.latest->0.key.span;
            &&& 0 <= delta
            &&& span.gva + delta == requested.gva
            &&& span.offset + delta == requested.offset
            &&& delta + requested.len <= span.len
        },
{
    if seen is Ok && held.latest is Some {
        let a = (seen->Ok_0).0@;
        let b = held.latest->0.key@;
        assert(a == b <==> a.scope == b.scope && a.declared_write == b.declared_write && a.span
            == b.span && a.pages == b.pages);
    }
}

/// A capture that may be retained serves the same request again, from its first
/// byte, as soon as the same range is observed unchanged in the same scope.
pub proof fn law_a_retained_capture_serves_its_own_request<I>(
    before: (Key, GatherOutcome),
    after: (Key, GatherOutcome),
    requested: BufferReadSpan,
    image: I,
    origin: Origin,
    plan: Option<WitnessPlan>,
    displaced: Option<Displaced>,
    scope_now: Option<u64>,
)
    requires
        may_retain(before.0@, before.1, after.0@, after.1, requested, scope_now),
    ensures
        servable(
            RetainedBuffer {
                latest: Some(
                    Candidate { key: before.0, identity: after.1.identity, image, origin },
                ),
                displaced,
                plan,
            },
            Ok(after),
            requested,
            scope_now,
        ) == Some(0int),
{
}

/// A capture is retained exactly when the whole requested range was observed on
/// both sides of it with the same pages, declared write and identity, settled on
/// both sides and vouched for at the end, in the scope that is still open.
pub proof fn law_only_an_unchanged_range_is_retained(
    key: KeyModel,
    first: GatherOutcome,
    after: KeyModel,
    last: GatherOutcome,
    requested: BufferReadSpan,
    scope_now: Option<u64>,
)
    ensures
        may_retain(key, first, after, last, requested, scope_now) <==> {
            &&& key.span == requested && after.span == requested
            &&& key.pages == after.pages
            &&& key.declared_write == after.declared_write
            &&& key.scope == after.scope
            &&& scope_now is Some && scope_now->0 == key.scope
            &&& first.cpu_read_settled && last.cpu_read_settled && last.vouched
            &&& first.identity == last.identity
        },
{
    assert(key == after <==> key.scope == after.scope && key.declared_write == after.declared_write
        && key.span == after.span && key.pages == after.pages);
}

/// A request is observed over a range that holds it: over the candidate's before
/// the planned one, either only if it is of the same scope, and else over the
/// request alone.
pub proof fn law_a_witness_covers_its_request<I>(
    held: RetainedBuffer<I>,
    scope: u64,
    requested: BufferReadSpan,
)
    ensures
        ({
            let span = planned_span(held, scope, requested);
            let by_candidate = held.latest is Some && held.latest->0.key.scope == scope
                && contained(held.latest->0.key.span, requested);
            let by_plan = held.plan is Some && held.plan->0.scope == scope && contained(
                held.plan->0.span,
                requested,
            );
            &&& contained(span, requested)
            &&& by_candidate ==> span == held.latest->0.key.span
            &&& !by_candidate && by_plan ==> span == held.plan->0.span
            &&& !by_candidate && !by_plan ==> span == requested
        }),
{
}

/// An observation in its own open scope is what the next request is planned by; any
/// other leaves the plan as it was.
pub proof fn law_a_live_observation_becomes_the_plan<I>(
    held: RetainedBuffer<I>,
    seen: Seen,
    scope_now: Option<u64>,
)
    ensures
        seen matches Ok(pair) && scope_now is Some && scope_now->0 == pair.0.scope ==> next_plan(
            held,
            seen,
            scope_now,
        ) is Some && next_plan(held, seen, scope_now)->0.span == (seen->Ok_0).0.span && next_plan(
            held,
            seen,
            scope_now,
        )->0.scope == (seen->Ok_0).0.scope,
        seen is Err || scope_now is None || scope_now->0 != (seen->Ok_0).0.scope ==> next_plan(
            held,
            seen,
            scope_now,
        ) == held.plan,
{
}

/// A lookup binds the candidate only where it serves the request and can be bound,
/// and then keeps it; any other lookup gives it up: its image is retired, what it
/// was captured under is remembered, and nothing of a closed scope is.
pub proof fn law_a_missed_candidate_is_given_up<I>(
    before: RetainedBuffer<I>,
    after: RetainedBuffer<I>,
    seen: Seen,
    requested: BufferReadSpan,
    scope_now: Option<u64>,
    origin: Origin,
    native_binds: bool,
    r: Lookup<I>,
    counts_before: Seq<Note>,
    counts: Seq<Note>,
)
    requires
        looked_up(
            before,
            after,
            seen,
            requested,
            scope_now,
            origin,
            native_binds,
            r,
            counts_before,
            counts,
        ),
    ensures
        r is Hit <==> native_binds && servable(before, seen, requested, scope_now) is Some,
        r matches Lookup::Hit { delta } ==> after.latest == before.latest && after.displaced
            == before.displaced && before.latest->0.key.span.gva + delta == requested.gva,
        r matches Lookup::Capture { before: first, retired } ==> {
            &&& after.latest is None
            &&& retired is Some <==> before.latest is Some
            &&& retired matches Some(image) ==> image == before.latest->0.image
            &&& before.latest is Some ==> after.displaced is Some && after.displaced->0.key
                == before.latest->0.key && after.displaced->0.identity
                == before.latest->0.identity
            &&& before.latest is None && after.displaced is Some ==> after.displaced
                == before.displaced && scope_now == Some(after.displaced->0.key.scope)
            &&& first is Some <==> seen is Ok
            &&& first matches Some(pair) ==> pair == seen->Ok_0
        },
        counts_before.is_prefix_of(counts),
        seen is Ok && scope_now is Some && scope_now->0 == (seen->Ok_0).0.scope ==> after.plan
            is Some && after.plan->0.span == (seen->Ok_0).0.span && after.plan->0.scope == (
        seen->Ok_0).0.scope,
        seen is Err || scope_now is None || scope_now->0 != (seen->Ok_0).0.scope ==> after.plan
            == before.plan,
{
}

/// A hit counts one hit and the bytes it did not capture; the guest bytes it did
/// not read less the extra ones it audited are those it did not capture less all
/// that it audited.
pub proof fn law_a_hits_bytes_add_up(requested: BufferReadSpan, audit_bytes: u64)
    ensures
        ({
            let notes = hit_notes(requested, audit_bytes);
            &&& notes.len() == 5
            &&& notes[0] == (Note { route: SnapshotRoute::Hits, amount: 1 })
            &&& notes[1] == (Note {
                route: SnapshotRoute::CaptureBytesAvoided,
                amount: requested.len as u64,
            })
            &&& notes[2].route == SnapshotRoute::GuestBytesAvoided
            &&& notes[3] == (Note { route: SnapshotRoute::HitAuditBytes, amount: audit_bytes })
            &&& notes[4].route == SnapshotRoute::ExtraAuditBytes
            &&& notes[2].amount - notes[4].amount == requested.len - audit_bytes
            &&& notes[2].amount == 0 || notes[4].amount == 0
        }),
{
}

/// Every way in which a candidate differs from a missed request is counted under
/// its own route and no other: a different stage, slot, scope, declared write,
/// allocation, offset, length, page list or identity, and whether it differed only
/// by what the witness said.
pub proof fn law_a_miss_counts_every_difference<I>(
    prior: Candidate<I>,
    key: KeyModel,
    outcome: GatherOutcome,
    requested: BufferReadSpan,
    scope_now: Option<u64>,
    origin: Origin,
    route: SnapshotRoute,
)
    requires
        route != SnapshotRoute::GeometryContained,
        route != SnapshotRoute::GeometryContainedBytes,
    ensures
        noted(mismatch_notes(prior, key, outcome, requested, scope_now, origin), route) <==> {
            let span = prior.key.span;
            let exact = key.scope == prior.key.scope && key.declared_write
                == prior.key.declared_write && key.span == span && key.pages == prior.key.pages@
                && requested == span;
            match route {
                SnapshotRoute::CandidateStageChanged => origin.class != prior.origin.class,
                SnapshotRoute::CandidateSlotChanged => origin.slot != prior.origin.slot,
                SnapshotRoute::MissScope => key.scope != prior.key.scope,
                SnapshotRoute::MissScopeExpired => scope_now is None || scope_now->0 != key.scope,
                SnapshotRoute::MissDeclaredWrite => key.declared_write
                    != prior.key.declared_write,
                SnapshotRoute::MissSource => requested.task != span.task || requested.backing
                    != span.backing || requested.page_shift != span.page_shift,
                SnapshotRoute::MissOffset => requested.offset != span.offset,
                SnapshotRoute::MissOffsetBytes => requested.offset != span.offset,
                SnapshotRoute::MissCaptureLength => requested.len != span.len,
                SnapshotRoute::MissCaptureLengthBytes => requested.len != span.len,
                SnapshotRoute::MissPages => key.pages != prior.key.pages@,
                SnapshotRoute::MissIdentity => outcome.identity != prior.identity,
                SnapshotRoute::MetadataExact => exact,
                SnapshotRoute::MetadataExactBytes => exact,
                SnapshotRoute::MetadataExactUnvouched => exact && !outcome.vouched,
                SnapshotRoute::MetadataExactIdentityChanged => exact && outcome.identity
                    != prior.identity,
                SnapshotRoute::MetadataExactUnsettled => exact && !outcome.cpu_read_settled,
                _ => false,
            }
        },
{
    lemma_noted();
    let one = prior.key@;
    assert(key == one <==> key.scope == one.scope && key.declared_write == one.declared_write
        && key.span == one.span && key.pages == one.pages);
}

/// Whatever range a miss counts the bytes of, they are the bytes of the request.
pub proof fn law_a_miss_counts_the_requested_bytes<I>(
    prior: Candidate<I>,
    key: KeyModel,
    outcome: GatherOutcome,
    requested: BufferReadSpan,
    scope_now: Option<u64>,
    origin: Origin,
    route: SnapshotRoute,
)
    ensures
        route == SnapshotRoute::MissOffsetBytes || route == SnapshotRoute::MissCaptureLengthBytes
            || route == SnapshotRoute::MetadataExactBytes || route
            == SnapshotRoute::GeometryContainedBytes ==> noted_amount(
            mismatch_notes(prior, key, outcome, requested, scope_now, origin),
            route,
            requested.len as u64,
        ),
{
    lemma_noted_amount(route, requested.len as u64);
}

/// A request whose bytes lie inside a candidate of its own scope and allocation is
/// counted as contained, and no other is.
pub proof fn law_contained_geometry_is_counted<I>(
    prior: Candidate<I>,
    key: KeyModel,
    outcome: GatherOutcome,
    requested: BufferReadSpan,
    scope_now: Option<u64>,
    origin: Origin,
)
    requires
        requested.offset + requested.len <= u64::MAX,
        prior.key.span.offset + prior.key.span.len <= u64::MAX,
    ensures
        noted(
            mismatch_notes(prior, key, outcome, requested, scope_now, origin),
            SnapshotRoute::GeometryContained,
        ) <==> {
            let span = prior.key.span;
            &&& key.scope == prior.key.scope
            &&& requested.task == span.task && requested.backing == span.backing
                && requested.page_shift == span.page_shift
            &&& forall|byte: int|
                #![trigger inside(requested, byte)]
                inside(requested, byte) ==> inside(span, byte)
            &&& span.offset <= requested.offset <= span.offset + span.len
        },
{
    lemma_noted();
    let span = prior.key.span;
    if span.offset <= requested.offset && requested.offset + requested.len > span.offset
        + span.len && requested.offset <= span.offset + span.len {
        let byte = requested.offset + requested.len - 1;
        assert(inside(requested, byte));
    }
}

/// The byte at an offset into the allocation belongs to the range.
pub open spec fn inside(span: BufferReadSpan, byte: int) -> bool {
    span.offset <= byte < span.offset + span.len
}

/// What a lookup that missed counts of its observation: that there was none, or
/// else what it could not vouch for, and that there was no candidate where there
/// was none; and that the range which was displaced last comes round again, with
/// its bytes.
pub proof fn law_a_lookup_counts_its_observation<I>(
    latest: Option<Candidate<I>>,
    displaced: Option<Displaced>,
    seen: Seen,
    requested: BufferReadSpan,
    scope_now: Option<u64>,
    origin: Origin,
    route: SnapshotRoute,
)
    ensures
        ({
            let found = noted(
                lookup_notes(latest, displaced, seen, requested, scope_now, origin),
                route,
            );
            let again = displaced is Some && seen is Ok && scope_now == Some(
                displaced->0.key.scope,
            ) && displaced->0.key@ == (seen->Ok_0).0@ && displaced->0.key.span == requested;
            let vouched = again && (seen->Ok_0).1.vouched && (seen->Ok_0).1.cpu_read_settled && (
            seen->Ok_0).1.identity == displaced->0.identity;
            match route {
                SnapshotRoute::LookupObserveFailed => found <==> seen is Err,
                SnapshotRoute::LookupUnvouched => found <==> seen is Ok
                    && !(seen->Ok_0).1.vouched,
                SnapshotRoute::LookupUnsettled => found <==> seen is Ok
                    && !(seen->Ok_0).1.cpu_read_settled,
                SnapshotRoute::MissNoCandidate => found <==> seen is Ok && latest is None,
                SnapshotRoute::DisplacedExact => found <==> again,
                SnapshotRoute::DisplacedExactBytes => found <==> again,
                SnapshotRoute::DisplacedVouched => found <==> vouched,
                SnapshotRoute::DisplacedVouchedBytes => found <==> vouched,
                _ => true,
            }
        }),
{
    lemma_noted();
    if let (Ok(pair), Some(prior)) = (seen, latest) {
        law_a_miss_counts_every_difference(
            prior,
            pair.0@,
            pair.1,
            requested,
            scope_now,
            origin,
            if route == SnapshotRoute::GeometryContained || route
                == SnapshotRoute::GeometryContainedBytes {
                SnapshotRoute::Hits
            } else {
                route
            },
        );
    }
}

/// What is counted before a candidate is tried: a scope or declared write that is
/// not its own; a hit inside a wider capture; and of a candidate that the witness
/// vouches for, whether the request lies outside it or it cannot be bound.
pub proof fn law_a_trial_counts_what_stood_in_the_way<I>(
    held: RetainedBuffer<I>,
    seen: Seen,
    requested: BufferReadSpan,
    scope_now: Option<u64>,
    native_binds: bool,
)
    ensures
        ({
            let notes = trial_notes(held, seen, requested, scope_now, native_binds);
            let tried = seen is Ok && held.latest is Some;
            let served = servable(held, seen, requested, scope_now) is Some;
            &&& noted(notes, SnapshotRoute::ScopeChanged) <==> tried && (seen->Ok_0).0.scope
                != held.latest->0.key.scope
            &&& noted(notes, SnapshotRoute::DeclaredWriteChanged) <==> tried && (
            seen->Ok_0).0.declared_write != held.latest->0.key.declared_write
            &&& noted(notes, SnapshotRoute::ContainedHits) <==> served && native_binds
                && held.latest->0.key.span != requested
            &&& noted(notes, SnapshotRoute::MissNativeBinding) <==> served && !native_binds
            &&& noted(notes, SnapshotRoute::MissCaptureCoverage) <==> tried && proven(
                held.latest->0,
                (seen->Ok_0).0@,
                (seen->Ok_0).1,
                scope_now,
            ) && !served
        }),
{
    lemma_noted();
}

/// Every way in which the observations around a capture disagree is counted under
/// its own route, together with how the capture ended: retained, kept as a plan
/// only, or changed while it was captured, exactly one of the three.
pub proof fn law_a_capture_counts_how_it_ended(
    key: KeyModel,
    first: GatherOutcome,
    after: KeyModel,
    last: GatherOutcome,
    requested: BufferReadSpan,
    scope_now: Option<u64>,
    route: SnapshotRoute,
)
    ensures
        noted(settled_notes(key, first, after, last, requested, scope_now), route) <==> {
            let retained = may_retain(key, first, after, last, requested, scope_now);
            match route {
                SnapshotRoute::Retained => retained,
                SnapshotRoute::MetadataPlanOnly => key.span != requested,
                SnapshotRoute::MetadataPlanUnvouched => key.span != requested && !(last.vouched
                    && last.cpu_read_settled),
                SnapshotRoute::ChangedDuringCapture => key.span == requested && !retained,
                SnapshotRoute::PostKeyChanged => key != after,
                SnapshotRoute::PostPagesChanged => key.pages != after.pages,
                SnapshotRoute::PostDeclaredWriteChanged => key.declared_write
                    != after.declared_write,
                SnapshotRoute::PostScopeExpired => scope_now is None || scope_now->0 != key.scope,
                SnapshotRoute::PostUnsettled => !(first.cpu_read_settled
                    && last.cpu_read_settled),
                SnapshotRoute::PostUnvouched => !last.vouched,
                SnapshotRoute::PostIdentityChanged => first.identity != last.identity,
                SnapshotRoute::ExtraAuditBytes => true,
                _ => false,
            }
        },
{
    lemma_noted();
}

/// The bytes a capture's second observation audited are counted as extra.
pub proof fn law_a_capture_counts_its_audit(
    key: KeyModel,
    first: GatherOutcome,
    after: KeyModel,
    last: GatherOutcome,
    requested: BufferReadSpan,
    scope_now: Option<u64>,
)
    ensures
        noted_amount(
            settled_notes(key, first, after, last, requested, scope_now),
            SnapshotRoute::ExtraAuditBytes,
            last.audit_bytes,
        ),
{
    lemma_noted_amount(SnapshotRoute::ExtraAuditBytes, last.audit_bytes);
}

/// Nothing is cached that is not proved to be only read, by permission, in a scope,
/// under current observations and of a buffer.
pub proof fn law_a_cached_capture_is_permitted(
    read_only: bool,
    enabled: bool,
    scope_id: Option<u64>,
    observations_current: bool,
    buffer_resource: bool,
)
    ensures
        !read_only ==> !cacheable(
            read_only,
            enabled,
            scope_id,
            observations_current,
            buffer_resource,
        ),
        !enabled ==> !cacheable(
            read_only,
            enabled,
            scope_id,
            observations_current,
            buffer_resource,
        ),
        scope_id is None ==> !cacheable(
            read_only,
            enabled,
            scope_id,
            observations_current,
            buffer_resource,
        ),
        !observations_current ==> !cacheable(
            read_only,
            enabled,
            scope_id,
            observations_current,
            buffer_resource,
        ),
        !buffer_resource ==> !cacheable(
            read_only,
            enabled,
            scope_id,
            observations_current,
            buffer_resource,
        ),
        scope_id is Some ==> cacheable(true, true, scope_id, true, true),
{
}

} // verus!
