//! The course of one capture: what is observed, bound, captured and retained, in
//! that order.
use crate::gather::GatherOutcome;
use crate::input_snapshot::cache::{
    cacheable, capture_ineligible, capture_unowned, eligible, looked_up, may_retain, planned_span,
    settle, settled_notes, Lookup, Origin, RetainedBuffer, Retention, Seen,
};
use crate::input_snapshot::observe::{Key, MemError};
use crate::input_snapshot::routes::{amount, counted, Note, SnapshotRoute};
use crate::input_snapshot::span::BufferReadSpan;
use vstd::prelude::*;

verus! {

/// What decides whether a capture may be cached at all.
#[derive(Clone, Copy, Debug, PartialEq, Eq, Structural)]
pub struct Eligibility {
    /// The shader is proved to only read the binding.
    pub read_only: bool,
    /// The operator permits reuse.
    pub enabled: bool,
    /// Write observations are current.
    pub observations_current: bool,
    /// The binding's resource is a buffer.
    pub buffer_resource: bool,
    /// The resource keeps snapshots, and not another cache's state.
    pub owned: bool,
}

/// What a capture is waiting for.
pub enum Phase {
    /// The observation of a range.
    Observing { span: BufferReadSpan },
    /// The captured bytes.
    Filling { first: Option<(Key, GatherOutcome)> },
    /// The observation of the range after it was captured.
    Settling { before: (Key, GatherOutcome) },
    Finished,
}

/// How far a capture has come. Observing a wider range comes before observing the
/// requested one.
pub open spec fn rank(phase: Phase, requested: BufferReadSpan) -> int {
    match phase {
        Phase::Observing { span } => if span != requested {
            0
        } else {
            1
        },
        Phase::Filling { .. } => 2,
        Phase::Settling { .. } => 3,
        Phase::Finished => 4,
    }
}

/// What a capture asks for next.
pub enum FillAction<I> {
    /// Observe a range. Pending writes over it are settled first if asked for: a
    /// caller has settled only the range it requested.
    Observe { span: BufferReadSpan, settle: bool },
    /// Bind the retained image, `delta` bytes in.
    Bind { delta: usize },
    /// Retire an image that was given up, and capture the requested range.
    Capture { retired: Option<I> },
    /// Freeze the capture, retain it and hand it over.
    Retain { retention: Retention },
    /// Hand the capture over.
    Deliver,
    /// The capture failed.
    Fail,
}

/// A line a capture owes the log.
#[derive(Clone, Copy, Debug, PartialEq, Eq, Structural)]
pub enum FillReport {
    /// The resource's state belongs to another cache.
    StateConflict,
    /// The range could not be observed before the capture.
    Declined { reason: MemError },
    /// The range could not be observed after the capture.
    PostDeclined { reason: MemError },
}

impl FillReport {
    /// The class a line is reported under.
    pub open spec fn class_text(self) -> Seq<char> {
        match self {
            FillReport::StateConflict => "metal_input_snapshot"@,
            FillReport::Declined { .. } => "metal_input_snapshot"@,
            FillReport::PostDeclined { .. } => "metal_input_snapshot_post"@,
        }
    }

    /// The class a line is reported under.
    pub fn class(self) -> (text: &'static str)
        ensures
            text@ == self.class_text(),
    {
        match self {
            FillReport::StateConflict => "metal_input_snapshot",
            FillReport::Declined { .. } => "metal_input_snapshot",
            FillReport::PostDeclined { .. } => "metal_input_snapshot_post",
        }
    }

    /// The reason a line gives, where it is this module's own; a declined
    /// observation is reported with the reader's reason.
    pub fn slug(self) -> (text: Option<&'static str>)
        ensures
            text is Some <==> self == FillReport::StateConflict,
            text matches Some(t) ==> t@ == "metal_input_snapshot_resource_state_conflict"@,
    {
        match self {
            FillReport::StateConflict => Some("metal_input_snapshot_resource_state_conflict"),
            _ => None,
        }
    }
}

/// The lines owed once a session is answered what it asked to observe. A wider
/// range that could not be observed owes none, for the requested one is observed
/// in its place; nothing is owed where the answer is not waited for.
pub open spec fn owed(session: FillSession, seen: Seen) -> Seq<FillReport> {
    match session.phase {
        Phase::Observing { span } => if span != session.requested && seen is Err {
            Seq::empty()
        } else {
            let conflict = if session.owned {
                Seq::empty()
            } else {
                seq![FillReport::StateConflict]
            };
            match seen {
                Ok(_) => conflict,
                Err(reason) => conflict.push(FillReport::Declined { reason }),
            }
        },
        Phase::Settling { .. } => match seen {
            Ok(_) => Seq::empty(),
            Err(reason) => seq![FillReport::PostDeclined { reason }],
        },
        _ => Seq::empty(),
    }
}

/// One capture of a bound buffer.
pub struct FillSession {
    pub requested: BufferReadSpan,
    pub origin: Origin,
    pub owned: bool,
    pub phase: Phase,
}

impl FillSession {
    /// Begins a capture: one that cannot be cached goes straight to its bytes.
    pub fn begin<I>(
        held: &RetainedBuffer<I>,
        requested: BufferReadSpan,
        origin: Origin,
        scope_id: Option<u64>,
        facts: Eligibility,
        notes: &mut Vec<Note>,
    ) -> (r: (FillSession, FillAction<I>))
        ensures
            r.0.requested == requested,
            r.0.origin == origin,
            r.0.owned == facts.owned,
            ({
                let opened = old(notes)@ + counted(scope_id is None, SnapshotRoute::Unscoped);
                if cacheable(
                    facts.read_only,
                    facts.enabled,
                    scope_id,
                    facts.observations_current,
                    facts.buffer_resource,
                ) {
                    let span = if facts.owned {
                        planned_span(*held, scope_id->0, requested)
                    } else {
                        requested
                    };
                    &&& r.0.phase == (Phase::Observing { span })
                    &&& r.1 == (FillAction::Observe::<I> { span, settle: span != requested })
                    &&& final(notes)@ == opened
                } else {
                    &&& r.0.phase == (Phase::Filling { first: None })
                    &&& r.1 == (FillAction::Capture::<I> { retired: None })
                    &&& final(notes)@ == opened + counted(true, SnapshotRoute::Ineligible)
                        + counted(true, SnapshotRoute::Captures)
                }
            }),
    {
        if !eligible(
            facts.read_only,
            facts.enabled,
            scope_id,
            facts.observations_current,
            facts.buffer_resource,
            notes,
        ) {
            capture_ineligible(notes);
            return (
                FillSession {
                    requested,
                    origin,
                    owned: facts.owned,
                    phase: Phase::Filling { first: None },
                },
                FillAction::Capture { retired: None },
            );
        }
        let span: BufferReadSpan = match scope_id {
            Some(scope) => if facts.owned {
                held.witness_span(scope, requested)
            } else {
                requested
            },
            None => requested,
        };
        (
            FillSession { requested, origin, owned: facts.owned, phase: Phase::Observing { span } },
            FillAction::Observe { span, settle: span != requested },
        )
    }

    /// The lines owed for an observation, before the session goes on with it.
    pub fn reports(&self, seen: &Seen) -> (reports: Vec<FillReport>)
        ensures
            reports@ == owed(*self, *seen),
    {
        let mut reports: Vec<FillReport> = Vec::new();
        assert(reports@ =~= Seq::<FillReport>::empty());
        match &self.phase {
            Phase::Observing { span } => {
                if *span != self.requested && seen.is_err() {
                    return reports;
                }
                if !self.owned {
                    reports.push(FillReport::StateConflict);
                }
                if let Err(reason) = seen {
                    reports.push(FillReport::Declined { reason: *reason });
                }
            },
            Phase::Settling { .. } => {
                if let Err(reason) = seen {
                    reports.push(FillReport::PostDeclined { reason: *reason });
                }
            },
            _ => {},
        }
        assert(reports@ =~= owed(*self, *seen));
        reports
    }

    /// Goes on with an observation. A wider range that could not be observed is
    /// given up and the requested one observed in its place; otherwise the
    /// retained image is bound, or given up before the range is captured.
    pub fn observed<I>(
        &mut self,
        held: &mut RetainedBuffer<I>,
        seen: Seen,
        scope_now: Option<u64>,
        native_binds: bool,
        notes: &mut Vec<Note>,
    ) -> (action: FillAction<I>)
        requires
            old(self).phase is Observing,
            old(self).phase->span != old(self).requested ==> old(self).owned,
        ensures
            final(self).requested == old(self).requested,
            final(self).origin == old(self).origin,
            final(self).owned == old(self).owned,
            rank(final(self).phase, final(self).requested) > rank(
                old(self).phase,
                old(self).requested,
            ),
            ({
                let wider = old(self).phase->span != old(self).requested;
                let planned = old(notes)@ + counted(wider, SnapshotRoute::WitnessPlanReused);
                if wider && seen is Err {
                    &&& action == (FillAction::Observe::<I> {
                        span: old(self).requested,
                        settle: false,
                    })
                    &&& final(self).phase == (Phase::Observing { span: old(self).requested })
                    &&& *final(held) == (RetainedBuffer { plan: None, ..*old(held) })
                    &&& final(notes)@ == planned + counted(
                        true,
                        SnapshotRoute::WitnessPlanRefused,
                    )
                } else if !old(self).owned {
                    &&& action == (FillAction::Capture::<I> { retired: None })
                    &&& final(self).phase == (Phase::Filling { first: None })
                    &&& *final(held) == *old(held)
                    &&& final(notes)@ == planned + (match seen {
                        Ok(pair) => amount(SnapshotRoute::ExtraAuditBytes, pair.1.audit_bytes),
                        Err(_) => Seq::empty(),
                    }) + counted(true, SnapshotRoute::Captures)
                } else {
                    let found = match (action, final(self).phase) {
                        (FillAction::Bind { delta }, Phase::Finished) => Some(
                            Lookup::<I>::Hit { delta },
                        ),
                        (FillAction::Capture { retired }, Phase::Filling { first }) => Some(
                            Lookup::Capture { before: first, retired },
                        ),
                        _ => None,
                    };
                    found is Some && looked_up(
                        *old(held),
                        *final(held),
                        seen,
                        old(self).requested,
                        scope_now,
                        old(self).origin,
                        native_binds,
                        found->0,
                        planned,
                        final(notes)@,
                    )
                }
            }),
    {
        let span: BufferReadSpan = match self.phase {
            Phase::Observing { span } => span,
            _ => {
                return FillAction::Fail;
            },
        };
        let ghost start = notes@;
        if self.owned {
            if held.planned(span, self.requested, seen.is_ok(), notes) {
                self.phase = Phase::Observing { span: self.requested };
                return FillAction::Observe { span: self.requested, settle: false };
            }
        }
        assert(notes@ =~= start + counted(span != self.requested, SnapshotRoute::WitnessPlanReused));
        if !self.owned {
            capture_unowned(&seen, notes);
            self.phase = Phase::Filling { first: None };
            return FillAction::Capture { retired: None };
        }
        match held.lookup(seen, self.requested, scope_now, self.origin, native_binds, notes) {
            Lookup::Hit { delta } => {
                self.phase = Phase::Finished;
                FillAction::Bind { delta }
            },
            Lookup::Capture { before, retired } => {
                self.phase = Phase::Filling { first: before };
                FillAction::Capture { retired }
            },
        }
    }

    /// Goes on once the bytes are captured. Only a capture that was observed
    /// before is observed again, over the very range it was observed over.
    pub fn captured<I>(&mut self, filled: bool) -> (action: FillAction<I>)
        requires
            old(self).phase is Filling,
        ensures
            final(self).requested == old(self).requested,
            final(self).origin == old(self).origin,
            final(self).owned == old(self).owned,
            rank(final(self).phase, final(self).requested) > rank(
                old(self).phase,
                old(self).requested,
            ),
            if !filled {
                action == FillAction::Fail::<I> && final(self).phase == Phase::Finished
            } else {
                match old(self).phase->first {
                    None => action == FillAction::Deliver::<I> && final(self).phase
                        == Phase::Finished,
                    Some(pair) => action == (FillAction::Observe::<I> {
                        span: pair.0.span,
                        settle: false,
                    }) && final(self).phase == (Phase::Settling { before: pair }),
                }
            },
    {
        let mut phase: Phase = Phase::Finished;
        std::mem::swap(&mut phase, &mut self.phase);
        if !filled {
            return FillAction::Fail;
        }
        match phase {
            Phase::Filling { first: Some(pair) } => {
                let span: BufferReadSpan = pair.0.span;
                self.phase = Phase::Settling { before: pair };
                FillAction::Observe { span, settle: false }
            },
            _ => FillAction::Deliver,
        }
    }

    /// Ends a capture with the observation that followed it: the capture is
    /// retained where the two observations agree.
    pub fn settled<I>(&mut self, after: Seen, scope_now: Option<u64>, notes: &mut Vec<Note>) -> (
    action: FillAction<I>)
        requires
            old(self).phase is Settling,
        ensures
            final(self).phase == Phase::Finished,
            final(self).requested == old(self).requested,
            final(self).origin == old(self).origin,
            final(self).owned == old(self).owned,
            rank(final(self).phase, final(self).requested) > rank(
                old(self).phase,
                old(self).requested,
            ),
            ({
                let before = old(self).phase->before;
                match after {
                    Err(_) => {
                        &&& action == FillAction::Deliver::<I>
                        &&& final(notes)@ == old(notes)@ + counted(
                            true,
                            SnapshotRoute::PostObserveFailed,
                        )
                    },
                    Ok(pair) => {
                        &&& final(notes)@ == old(notes)@ + settled_notes(
                            before.0@,
                            before.1,
                            pair.0@,
                            pair.1,
                            old(self).requested,
                            scope_now,
                        )
                        &&& action == if may_retain(
                            before.0@,
                            before.1,
                            pair.0@,
                            pair.1,
                            old(self).requested,
                            scope_now,
                        ) {
                            FillAction::Retain::<I> {
                                retention: Retention {
                                    key: before.0,
                                    identity: pair.1.identity,
                                },
                            }
                        } else {
                            FillAction::Deliver::<I>
                        }
                    },
                }
            }),
    {
        let mut phase: Phase = Phase::Finished;
        std::mem::swap(&mut phase, &mut self.phase);
        match phase {
            Phase::Settling { before } => match settle(
                before,
                after,
                self.requested,
                scope_now,
                notes,
            ) {
                Some(retention) => FillAction::Retain { retention },
                None => FillAction::Deliver,
            },
            _ => FillAction::Deliver,
        }
    }
}

/// A line is owed for a state of another cache and for a range that could not be
/// observed, before the capture or after it, each with its own reason; a wider
/// range that could not be observed owes none, for the requested one comes next.
pub proof fn law_a_failed_observation_is_reported(session: FillSession, seen: Seen)
    ensures
        ({
            let lines = owed(session, seen);
            let retried = session.phase is Observing && session.phase->span != session.requested
                && seen is Err;
            &&& lines.contains(FillReport::StateConflict) <==> session.phase is Observing
                && !session.owned && !retried
            &&& forall|reason: MemError| #[trigger]
                lines.contains(FillReport::Declined { reason }) <==> session.phase is Observing
                    && !retried && seen is Err && seen->Err_0 == reason
            &&& forall|reason: MemError| #[trigger]
                lines.contains(FillReport::PostDeclined { reason }) <==> session.phase is Settling
                    && seen is Err && seen->Err_0 == reason
            &&& lines.len() <= 2
        }),
{
    let lines = owed(session, seen);
    if lines.len() > 0 {
        assert(lines.contains(lines[0]));
        if lines.len() > 1 {
            assert(lines.contains(lines[1]));
        }
    }
    assert forall|line: FillReport| #[trigger] lines.contains(line) implies (lines.len() > 0
        && lines[0] == line) || (lines.len() > 1 && lines[1] == line) by {
        let k = choose|k: int| 0 <= k < lines.len() && lines[k] == line;
        assert(k == 0 || k == 1);
    }
}

} // verus!
