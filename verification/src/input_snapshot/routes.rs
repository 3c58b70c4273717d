//! The counters of buffer snapshots.
use vstd::prelude::*;

verus! {

/// What a snapshot request counts.
#[derive(Clone, Copy, Debug, PartialEq, Eq, Structural)]
pub enum SnapshotRoute {
    Unscoped,
    WitnessPlanReused,
    WitnessPlanRefused,
    ScopeChanged,
    DeclaredWriteChanged,
    ContainedHits,
    MissNativeBinding,
    MissCaptureCoverage,
    Hits,
    CaptureBytesAvoided,
    GuestBytesAvoided,
    HitAuditBytes,
    ExtraAuditBytes,
    Ineligible,
    Captures,
    Retained,
    MetadataPlanOnly,
    MetadataPlanUnvouched,
    ChangedDuringCapture,
    PostObserveFailed,
    LookupObserveFailed,
    LookupUnvouched,
    LookupUnsettled,
    DisplacedExact,
    DisplacedExactBytes,
    DisplacedVouched,
    DisplacedVouchedBytes,
    MissNoCandidate,
    CandidateStageChanged,
    CandidateSlotChanged,
    MissScope,
    MissScopeExpired,
    MissDeclaredWrite,
    MissSource,
    MissOffset,
    MissOffsetBytes,
    MissCaptureLength,
    MissCaptureLengthBytes,
    MissPages,
    MissIdentity,
    MetadataExact,
    MetadataExactBytes,
    MetadataExactUnvouched,
    MetadataExactIdentityChanged,
    MetadataExactUnsettled,
    GeometryContained,
    GeometryContainedBytes,
    PostKeyChanged,
    PostPagesChanged,
    PostDeclaredWriteChanged,
    PostScopeExpired,
    PostUnsettled,
    PostUnvouched,
    PostIdentityChanged,
}

impl SnapshotRoute {
    /// The name of the counter.
    pub open spec fn slug_text(self) -> Seq<char> {
        match self {
            SnapshotRoute::Unscoped => "metal_input_snapshot_unscoped"@,
            SnapshotRoute::WitnessPlanReused => "metal_input_snapshot_witness_plan_reused"@,
            SnapshotRoute::WitnessPlanRefused => "metal_input_snapshot_witness_plan_refused"@,
            SnapshotRoute::ScopeChanged => "metal_input_snapshot_scope_changed"@,
            SnapshotRoute::DeclaredWriteChanged => "metal_input_snapshot_declared_write_changed"@,
            SnapshotRoute::ContainedHits => "metal_input_snapshot_contained_hits"@,
            SnapshotRoute::MissNativeBinding => "metal_input_snapshot_miss_native_binding"@,
            SnapshotRoute::MissCaptureCoverage => "metal_input_snapshot_miss_capture_coverage"@,
            SnapshotRoute::Hits => "metal_input_snapshot_hits"@,
            SnapshotRoute::CaptureBytesAvoided => "metal_input_snapshot_capture_bytes_avoided"@,
            SnapshotRoute::GuestBytesAvoided => "metal_input_snapshot_guest_bytes_avoided"@,
            SnapshotRoute::HitAuditBytes => "metal_input_snapshot_hit_audit_bytes"@,
            SnapshotRoute::ExtraAuditBytes => "metal_input_snapshot_extra_audit_bytes"@,
            SnapshotRoute::Ineligible => "metal_input_snapshot_ineligible"@,
            SnapshotRoute::Captures => "metal_input_snapshot_captures"@,
            SnapshotRoute::Retained => "metal_input_snapshot_retained"@,
            SnapshotRoute::MetadataPlanOnly => "metal_input_snapshot_metadata_plan_only"@,
            SnapshotRoute::MetadataPlanUnvouched => "metal_input_snapshot_metadata_plan_unvouched"@,
            SnapshotRoute::ChangedDuringCapture => "metal_input_snapshot_changed_during_capture"@,
            SnapshotRoute::PostObserveFailed => "metal_input_snapshot_post_observe_failed"@,
            SnapshotRoute::LookupObserveFailed => "metal_input_snapshot_lookup_observe_failed"@,
            SnapshotRoute::LookupUnvouched => "metal_input_snapshot_lookup_unvouched"@,
            SnapshotRoute::LookupUnsettled => "metal_input_snapshot_lookup_unsettled"@,
            SnapshotRoute::DisplacedExact => "metal_input_snapshot_displaced_exact"@,
            SnapshotRoute::DisplacedExactBytes => "metal_input_snapshot_displaced_exact_bytes"@,
            SnapshotRoute::DisplacedVouched => "metal_input_snapshot_displaced_vouched"@,
            SnapshotRoute::DisplacedVouchedBytes => "metal_input_snapshot_displaced_vouched_bytes"@,
            SnapshotRoute::MissNoCandidate => "metal_input_snapshot_miss_no_candidate"@,
            SnapshotRoute::CandidateStageChanged => "metal_input_snapshot_candidate_stage_changed"@,
            SnapshotRoute::CandidateSlotChanged => "metal_input_snapshot_candidate_slot_changed"@,
            SnapshotRoute::MissScope => "metal_input_snapshot_miss_scope"@,
            SnapshotRoute::MissScopeExpired => "metal_input_snapshot_miss_scope_expired"@,
            SnapshotRoute::MissDeclaredWrite => "metal_input_snapshot_miss_declared_write"@,
            SnapshotRoute::MissSource => "metal_input_snapshot_miss_source"@,
            SnapshotRoute::MissOffset => "metal_input_snapshot_miss_offset"@,
            SnapshotRoute::MissOffsetBytes => "metal_input_snapshot_miss_offset_bytes"@,
            SnapshotRoute::MissCaptureLength => "metal_input_snapshot_miss_capture_length"@,
            SnapshotRoute::MissCaptureLengthBytes => "metal_input_snapshot_miss_capture_length_bytes"@,
            SnapshotRoute::MissPages => "metal_input_snapshot_miss_pages"@,
            SnapshotRoute::MissIdentity => "metal_input_snapshot_miss_identity"@,
            SnapshotRoute::MetadataExact => "metal_input_snapshot_metadata_exact"@,
            SnapshotRoute::MetadataExactBytes => "metal_input_snapshot_metadata_exact_bytes"@,
            SnapshotRoute::MetadataExactUnvouched => "metal_input_snapshot_metadata_exact_unvouched"@,
            SnapshotRoute::MetadataExactIdentityChanged => "metal_input_snapshot_metadata_exact_identity_changed"@,
            SnapshotRoute::MetadataExactUnsettled => "metal_input_snapshot_metadata_exact_unsettled"@,
            SnapshotRoute::GeometryContained => "metal_input_snapshot_geometry_contained"@,
            SnapshotRoute::GeometryContainedBytes => "metal_input_snapshot_geometry_contained_bytes"@,
            SnapshotRoute::PostKeyChanged => "metal_input_snapshot_post_key_changed"@,
            SnapshotRoute::PostPagesChanged => "metal_input_snapshot_post_pages_changed"@,
            SnapshotRoute::PostDeclaredWriteChanged => "metal_input_snapshot_post_declared_write_changed"@,
            SnapshotRoute::PostScopeExpired => "metal_input_snapshot_post_scope_expired"@,
            SnapshotRoute::PostUnsettled => "metal_input_snapshot_post_unsettled"@,
            SnapshotRoute::PostUnvouched => "metal_input_snapshot_post_unvouched"@,
            SnapshotRoute::PostIdentityChanged => "metal_input_snapshot_post_identity_changed"@,
        }
    }

    /// The name of the counter.
    pub fn slug(self) -> (text: &'static str)
        ensures
            text@ == self.slug_text(),
    {
        match self {
            SnapshotRoute::Unscoped => "metal_input_snapshot_unscoped",
            SnapshotRoute::WitnessPlanReused => "metal_input_snapshot_witness_plan_reused",
            SnapshotRoute::WitnessPlanRefused => "metal_input_snapshot_witness_plan_refused",
            SnapshotRoute::ScopeChanged => "metal_input_snapshot_scope_changed",
            SnapshotRoute::DeclaredWriteChanged => "metal_input_snapshot_declared_write_changed",
            SnapshotRoute::ContainedHits => "metal_input_snapshot_contained_hits",
            SnapshotRoute::MissNativeBinding => "metal_input_snapshot_miss_native_binding",
            SnapshotRoute::MissCaptureCoverage => "metal_input_snapshot_miss_capture_coverage",
            SnapshotRoute::Hits => "metal_input_snapshot_hits",
            SnapshotRoute::CaptureBytesAvoided => "metal_input_snapshot_capture_bytes_avoided",
            SnapshotRoute::GuestBytesAvoided => "metal_input_snapshot_guest_bytes_avoided",
            SnapshotRoute::HitAuditBytes => "metal_input_snapshot_hit_audit_bytes",
            SnapshotRoute::ExtraAuditBytes => "metal_input_snapshot_extra_audit_bytes",
            SnapshotRoute::Ineligible => "metal_input_snapshot_ineligible",
            SnapshotRoute::Captures => "metal_input_snapshot_captures",
            SnapshotRoute::Retained => "metal_input_snapshot_retained",
            SnapshotRoute::MetadataPlanOnly => "metal_input_snapshot_metadata_plan_only",
            SnapshotRoute::MetadataPlanUnvouched => "metal_input_snapshot_metadata_plan_unvouched",
            SnapshotRoute::ChangedDuringCapture => "metal_input_snapshot_changed_during_capture",
            SnapshotRoute::PostObserveFailed => "metal_input_snapshot_post_observe_failed",
            SnapshotRoute::LookupObserveFailed => "metal_input_snapshot_lookup_observe_failed",
            SnapshotRoute::LookupUnvouched => "metal_input_snapshot_lookup_unvouched",
            SnapshotRoute::LookupUnsettled => "metal_input_snapshot_lookup_unsettled",
            SnapshotRoute::DisplacedExact => "metal_input_snapshot_displaced_exact",
            SnapshotRoute::DisplacedExactBytes => "metal_input_snapshot_displaced_exact_bytes",
            SnapshotRoute::DisplacedVouched => "metal_input_snapshot_displaced_vouched",
            SnapshotRoute::DisplacedVouchedBytes => "metal_input_snapshot_displaced_vouched_bytes",
            SnapshotRoute::MissNoCandidate => "metal_input_snapshot_miss_no_candidate",
            SnapshotRoute::CandidateStageChanged => "metal_input_snapshot_candidate_stage_changed",
            SnapshotRoute::CandidateSlotChanged => "metal_input_snapshot_candidate_slot_changed",
            SnapshotRoute::MissScope => "metal_input_snapshot_miss_scope",
            SnapshotRoute::MissScopeExpired => "metal_input_snapshot_miss_scope_expired",
            SnapshotRoute::MissDeclaredWrite => "metal_input_snapshot_miss_declared_write",
            SnapshotRoute::MissSource => "metal_input_snapshot_miss_source",
            SnapshotRoute::MissOffset => "metal_input_snapshot_miss_offset",
            SnapshotRoute::MissOffsetBytes => "metal_input_snapshot_miss_offset_bytes",
            SnapshotRoute::MissCaptureLength => "metal_input_snapshot_miss_capture_length",
            SnapshotRoute::MissCaptureLengthBytes => "metal_input_snapshot_miss_capture_length_bytes",
            SnapshotRoute::MissPages => "metal_input_snapshot_miss_pages",
            SnapshotRoute::MissIdentity => "metal_input_snapshot_miss_identity",
            SnapshotRoute::MetadataExact => "metal_input_snapshot_metadata_exact",
            SnapshotRoute::MetadataExactBytes => "metal_input_snapshot_metadata_exact_bytes",
            SnapshotRoute::MetadataExactUnvouched => "metal_input_snapshot_metadata_exact_unvouched",
            SnapshotRoute::MetadataExactIdentityChanged => "metal_input_snapshot_metadata_exact_identity_changed",
            SnapshotRoute::MetadataExactUnsettled => "metal_input_snapshot_metadata_exact_unsettled",
            SnapshotRoute::GeometryContained => "metal_input_snapshot_geometry_contained",
            SnapshotRoute::GeometryContainedBytes => "metal_input_snapshot_geometry_contained_bytes",
            SnapshotRoute::PostKeyChanged => "metal_input_snapshot_post_key_changed",
            SnapshotRoute::PostPagesChanged => "metal_input_snapshot_post_pages_changed",
            SnapshotRoute::PostDeclaredWriteChanged => "metal_input_snapshot_post_declared_write_changed",
            SnapshotRoute::PostScopeExpired => "metal_input_snapshot_post_scope_expired",
            SnapshotRoute::PostUnsettled => "metal_input_snapshot_post_unsettled",
            SnapshotRoute::PostUnvouched => "metal_input_snapshot_post_unvouched",
            SnapshotRoute::PostIdentityChanged => "metal_input_snapshot_post_identity_changed",
        }
    }
}

/// One addition to a counter.
#[derive(Clone, Copy, Debug, PartialEq, Eq, Structural)]
pub struct Note {
    pub route: SnapshotRoute,
    pub amount: u64,
}

/// One count of a route, where the condition holds.
pub open spec fn counted(condition: bool, route: SnapshotRoute) -> Seq<Note> {
    if condition {
        seq![Note { route, amount: 1 }]
    } else {
        Seq::empty()
    }
}

/// An amount added to a route.
pub open spec fn amount(route: SnapshotRoute, amount: u64) -> Seq<Note> {
    seq![Note { route, amount }]
}

/// One count of a route and an amount added to another, where the condition
/// holds.
pub open spec fn counted_sized(
    condition: bool,
    route: SnapshotRoute,
    sized: SnapshotRoute,
    bytes: u64,
) -> Seq<Note> {
    if condition {
        seq![Note { route, amount: 1 }, Note { route: sized, amount: bytes }]
    } else {
        Seq::empty()
    }
}

/// Counts a route where the condition holds.
pub fn note_if(notes: &mut Vec<Note>, condition: bool, route: SnapshotRoute)
    ensures
        final(notes)@ == old(notes)@ + counted(condition, route),
{
    if condition {
        notes.push(Note { route, amount: 1 });
    }
    assert(notes@ =~= old(notes)@ + counted(condition, route));
}

/// Adds an amount to a route.
pub fn note_amount(notes: &mut Vec<Note>, route: SnapshotRoute, bytes: u64)
    ensures
        final(notes)@ == old(notes)@ + amount(route, bytes),
{
    notes.push(Note { route, amount: bytes });
    assert(notes@ =~= old(notes)@ + amount(route, bytes));
}

/// Counts a route and adds an amount to another where the condition holds.
pub fn note_sized(
    notes: &mut Vec<Note>,
    condition: bool,
    route: SnapshotRoute,
    sized: SnapshotRoute,
    bytes: u64,
)
    ensures
        final(notes)@ == old(notes)@ + counted_sized(condition, route, sized, bytes),
{
    if condition {
        notes.push(Note { route, amount: 1 });
        notes.push(Note { route: sized, amount: bytes });
    }
    assert(notes@ =~= old(notes)@ + counted_sized(condition, route, sized, bytes));
}

/// Something is counted under the route.
#[verifier::opaque]
pub open spec fn noted(notes: Seq<Note>, route: SnapshotRoute) -> bool {
    exists|k: int| 0 <= k < notes.len() && (#[trigger] notes[k]).route == route
}

/// Exactly the amount is added under the route, wherever something is.
#[verifier::opaque]
pub open spec fn noted_amount(notes: Seq<Note>, route: SnapshotRoute, amount: u64) -> bool {
    forall|k: int|
        0 <= k < notes.len() && (#[trigger] notes[k]).route == route ==> notes[k].amount == amount
}

pub(crate) proof fn lemma_noted()
    ensures
        forall|a: Seq<Note>, b: Seq<Note>, route: SnapshotRoute| #[trigger]
            noted(a + b, route) == (noted(a, route) || noted(b, route)),
        forall|condition: bool, of: SnapshotRoute, route: SnapshotRoute| #[trigger]
            noted(counted(condition, of), route) == (condition && of == route),
        forall|of: SnapshotRoute, bytes: u64, route: SnapshotRoute| #[trigger]
            noted(amount(of, bytes), route) == (of == route),
        forall|
            condition: bool,
            of: SnapshotRoute,
            sized: SnapshotRoute,
            bytes: u64,
            route: SnapshotRoute,
        | #[trigger]
            noted(counted_sized(condition, of, sized, bytes), route) == (condition && (of == route
                || sized == route)),
        forall|route: SnapshotRoute| !#[trigger] noted(Seq::empty(), route),
{
    reveal(noted);
    assert forall|a: Seq<Note>, b: Seq<Note>, route: SnapshotRoute| #[trigger]
        noted(a + b, route) == (noted(a, route) || noted(b, route)) by {
        let all = a + b;
        if noted(all, route) {
            let k = choose|k: int| 0 <= k < all.len() && (#[trigger] all[k]).route == route;
            if k < a.len() {
                assert(a[k].route == route);
            } else {
                assert(b[k - a.len()].route == route);
            }
        }
        if noted(a, route) {
            let k = choose|k: int| 0 <= k < a.len() && (#[trigger] a[k]).route == route;
            assert(all[k].route == route);
        }
        if noted(b, route) {
            let k = choose|k: int| 0 <= k < b.len() && (#[trigger] b[k]).route == route;
            assert(all[k + a.len()].route == route);
        }
    }
    assert forall|condition: bool, of: SnapshotRoute, route: SnapshotRoute| #[trigger]
        noted(counted(condition, of), route) == (condition && of == route) by {
        let notes = counted(condition, of);
        if condition {
            assert(notes[0].route == of);
        }
    }
    assert forall|of: SnapshotRoute, bytes: u64, route: SnapshotRoute| #[trigger]
        noted(amount(of, bytes), route) == (of == route) by {
        let notes = amount(of, bytes);
        assert(notes[0].route == of);
    }
    assert forall|
        condition: bool,
        of: SnapshotRoute,
        sized: SnapshotRoute,
        bytes: u64,
        route: SnapshotRoute,
    | #[trigger]
        noted(counted_sized(condition, of, sized, bytes), route) == (condition && (of == route
            || sized == route)) by {
        let notes = counted_sized(condition, of, sized, bytes);
        if condition {
            assert(notes[0].route == of);
            assert(notes[1].route == sized);
        }
    }
}

pub(crate) proof fn lemma_noted_amount(route: SnapshotRoute, bytes: u64)
    ensures
        forall|a: Seq<Note>, b: Seq<Note>|
            noted_amount(a, route, bytes) && noted_amount(b, route, bytes) ==> #[trigger]
            noted_amount(a + b, route, bytes),
        forall|condition: bool, of: SnapshotRoute|
            of != route || bytes == 1 ==> #[trigger] noted_amount(
                counted(condition, of),
                route,
                bytes,
            ),
        forall|of: SnapshotRoute, other: u64|
            of != route || other == bytes ==> #[trigger] noted_amount(
                amount(of, other),
                route,
                bytes,
            ),
        forall|condition: bool, of: SnapshotRoute, sized: SnapshotRoute, other: u64|
            (of != route || bytes == 1) && (sized != route || other == bytes) ==> #[trigger]
            noted_amount(counted_sized(condition, of, sized, other), route, bytes),
        noted_amount(Seq::empty(), route, bytes),
{
    reveal(noted_amount);
    assert forall|a: Seq<Note>, b: Seq<Note>|
        noted_amount(a, route, bytes) && noted_amount(b, route, bytes) implies #[trigger]
    noted_amount(a + b, route, bytes) by {
        let all = a + b;
        assert forall|k: int| 0 <= k < all.len() && (#[trigger] all[k]).route == route implies all[k].amount
            == bytes by {
            if k < a.len() {
                assert(a[k].amount == bytes);
            } else {
                assert(b[k - a.len()].amount == bytes);
            }
        }
    }
}

/// A condition that holds is counted once under its route, one that does not hold
/// is not counted at all, and no other route is.
pub proof fn law_a_count_is_of_its_own_route(
    condition: bool,
    of: SnapshotRoute,
    route: SnapshotRoute,
)
    ensures
        noted(counted(condition, of), route) <==> condition && of == route,
        noted_amount(counted(condition, of), of, 1),
        counted(condition, of).len() <= 1,
{
    lemma_noted();
    lemma_noted_amount(of, 1);
}

/// No two routes are counted under one name.
pub proof fn law_every_route_has_a_counter_of_its_own(a: SnapshotRoute, b: SnapshotRoute)
    ensures
        a.slug_text() == b.slug_text() ==> a == b,
{
    reveal_strlit("metal_input_snapshot_unscoped");
    reveal_strlit("metal_input_snapshot_witness_plan_reused");
    reveal_strlit("metal_input_snapshot_witness_plan_refused");
    reveal_strlit("metal_input_snapshot_scope_changed");
    reveal_strlit("metal_input_snapshot_declared_write_changed");
    reveal_strlit("metal_input_snapshot_contained_hits");
    reveal_strlit("metal_input_snapshot_miss_native_binding");
    reveal_strlit("metal_input_snapshot_miss_capture_coverage");
    reveal_strlit("metal_input_snapshot_hits");
    reveal_strlit("metal_input_snapshot_capture_bytes_avoided");
    reveal_strlit("metal_input_snapshot_guest_bytes_avoided");
    reveal_strlit("metal_input_snapshot_hit_audit_bytes");
    reveal_strlit("metal_input_snapshot_extra_audit_bytes");
    reveal_strlit("metal_input_snapshot_ineligible");
    reveal_strlit("metal_input_snapshot_captures");
    reveal_strlit("metal_input_snapshot_retained");
    reveal_strlit("metal_input_snapshot_metadata_plan_only");
    reveal_strlit("metal_input_snapshot_metadata_plan_unvouched");
    reveal_strlit("metal_input_snapshot_changed_during_capture");
    reveal_strlit("metal_input_snapshot_post_observe_failed");
    reveal_strlit("metal_input_snapshot_lookup_observe_failed");
    reveal_strlit("metal_input_snapshot_lookup_unvouched");
    reveal_strlit("metal_input_snapshot_lookup_unsettled");
    reveal_strlit("metal_input_snapshot_displaced_exact");
    reveal_strlit("metal_input_snapshot_displaced_exact_bytes");
    reveal_strlit("metal_input_snapshot_displaced_vouched");
    reveal_strlit("metal_input_snapshot_displaced_vouched_bytes");
    reveal_strlit("metal_input_snapshot_miss_no_candidate");
    reveal_strlit("metal_input_snapshot_candidate_stage_changed");
    reveal_strlit("metal_input_snapshot_candidate_slot_changed");
    reveal_strlit("metal_input_snapshot_miss_scope");
    reveal_strlit("metal_input_snapshot_miss_scope_expired");
    reveal_strlit("metal_input_snapshot_miss_declared_write");
    reveal_strlit("metal_input_snapshot_miss_source");
    reveal_strlit("metal_input_snapshot_miss_offset");
    reveal_strlit("metal_input_snapshot_miss_offset_bytes");
    reveal_strlit("metal_input_snapshot_miss_capture_length");
    reveal_strlit("metal_input_snapshot_miss_capture_length_bytes");
    reveal_strlit("metal_input_snapshot_miss_pages");
    reveal_strlit("metal_input_snapshot_miss_identity");
    reveal_strlit("metal_input_snapshot_metadata_exact");
    reveal_strlit("metal_input_snapshot_metadata_exact_bytes");
    reveal_strlit("metal_input_snapshot_metadata_exact_unvouched");
    reveal_strlit("metal_input_snapshot_metadata_exact_identity_changed");
    reveal_strlit("metal_input_snapshot_metadata_exact_unsettled");
    reveal_strlit("metal_input_snapshot_geometry_contained");
    reveal_strlit("metal_input_snapshot_geometry_contained_bytes");
    reveal_strlit("metal_input_snapshot_post_key_changed");
    reveal_strlit("metal_input_snapshot_post_pages_changed");
    reveal_strlit("metal_input_snapshot_post_declared_write_changed");
    reveal_strlit("metal_input_snapshot_post_scope_expired");
    reveal_strlit("metal_input_snapshot_post_unsettled");
    reveal_strlit("metal_input_snapshot_post_unvouched");
    reveal_strlit("metal_input_snapshot_post_identity_changed");
    assert("metal_input_snapshot_unscoped"@.len() == 29 && "metal_input_snapshot_unscoped"@[24] == 'c' && "metal_input_snapshot_unscoped"@[25] == 'o');
    assert("metal_input_snapshot_witness_plan_reused"@.len() == 40 && "metal_input_snapshot_witness_plan_reused"@[24] == 'n' && "metal_input_snapshot_witness_plan_reused"@[36] == 'u');
    assert("metal_input_snapshot_witness_plan_refused"@.len() == 41 && "metal_input_snapshot_witness_plan_refused"@[24] == 'n' && "metal_input_snapshot_witness_plan_refused"@[37] == 'u');
    assert("metal_input_snapshot_scope_changed"@.len() == 34 && "metal_input_snapshot_scope_changed"@[24] == 'p' && "metal_input_snapshot_scope_changed"@[30] == 'n');
    assert("metal_input_snapshot_declared_write_changed"@.len() == 43 && "metal_input_snapshot_declared_write_changed"@[24] == 'l' && "metal_input_snapshot_declared_write_changed"@[39] == 'n');
    assert("metal_input_snapshot_contained_hits"@.len() == 35 && "metal_input_snapshot_contained_hits"@[24] == 't' && "metal_input_snapshot_contained_hits"@[31] == 'h');
    assert("metal_input_snapshot_miss_native_binding"@.len() == 40 && "metal_input_snapshot_miss_native_binding"@[24] == 's' && "metal_input_snapshot_miss_native_binding"@[36] == 'd');
    assert("metal_input_snapshot_miss_capture_coverage"@.len() == 42 && "metal_input_snapshot_miss_capture_coverage"@[24] == 's' && "metal_input_snapshot_miss_capture_coverage"@[38] == 'r');
    assert("metal_input_snapshot_hits"@.len() == 25 && "metal_input_snapshot_hits"@[24] == 's' && "metal_input_snapshot_hits"@[21] == 'h');
    assert("metal_input_snapshot_capture_bytes_avoided"@.len() == 42 && "metal_input_snapshot_capture_bytes_avoided"@[24] == 't' && "metal_input_snapshot_capture_bytes_avoided"@[38] == 'i');
    assert("metal_input_snapshot_guest_bytes_avoided"@.len() == 40 && "metal_input_snapshot_guest_bytes_avoided"@[24] == 's' && "metal_input_snapshot_guest_bytes_avoided"@[36] == 'i');
    assert("metal_input_snapshot_hit_audit_bytes"@.len() == 36 && "metal_input_snapshot_hit_audit_bytes"@[24] == '_' && "metal_input_snapshot_hit_audit_bytes"@[32] == 'y');
    assert("metal_input_snapshot_extra_audit_bytes"@.len() == 38 && "metal_input_snapshot_extra_audit_bytes"@[24] == 'r' && "metal_input_snapshot_extra_audit_bytes"@[34] == 'y');
    assert("metal_input_snapshot_ineligible"@.len() == 31 && "metal_input_snapshot_ineligible"@[24] == 'l' && "metal_input_snapshot_ineligible"@[27] == 'i');
    assert("metal_input_snapshot_captures"@.len() == 29 && "metal_input_snapshot_captures"@[24] == 't' && "metal_input_snapshot_captures"@[25] == 'u');
    assert("metal_input_snapshot_retained"@.len() == 29 && "metal_input_snapshot_retained"@[24] == 'a' && "metal_input_snapshot_retained"@[25] == 'i');
    assert("metal_input_snapshot_metadata_plan_only"@.len() == 39 && "metal_input_snapshot_metadata_plan_only"@[24] == 'a' && "metal_input_snapshot_metadata_plan_only"@[35] == 'o');
    assert("metal_input_snapshot_metadata_plan_unvouched"@.len() == 44 && "metal_input_snapshot_metadata_plan_unvouched"@[24] == 'a' && "metal_input_snapshot_metadata_plan_unvouched"@[40] == 'c');
    assert("metal_input_snapshot_changed_during_capture"@.len() == 43 && "metal_input_snapshot_changed_during_capture"@[24] == 'n' && "metal_input_snapshot_changed_during_capture"@[39] == 't');
    assert("metal_input_snapshot_post_observe_failed"@.len() == 40 && "metal_input_snapshot_post_observe_failed"@[24] == 't' && "metal_input_snapshot_post_observe_failed"@[36] == 'i');
    assert("metal_input_snapshot_lookup_observe_failed"@.len() == 42 && "metal_input_snapshot_lookup_observe_failed"@[24] == 'k' && "metal_input_snapshot_lookup_observe_failed"@[38] == 'i');
    assert("metal_input_snapshot_lookup_unvouched"@.len() == 37 && "metal_input_snapshot_lookup_unvouched"@[24] == 'k' && "metal_input_snapshot_lookup_unvouched"@[33] == 'c');
    assert("metal_input_snapshot_lookup_unsettled"@.len() == 37 && "metal_input_snapshot_lookup_unsettled"@[24] == 'k' && "metal_input_snapshot_lookup_unsettled"@[33] == 't');
    assert("metal_input_snapshot_displaced_exact"@.len() == 36 && "metal_input_snapshot_displaced_exact"@[24] == 'p' && "metal_input_snapshot_displaced_exact"@[32] == 'x');
    assert("metal_input_snapshot_displaced_exact_bytes"@.len() == 42 && "metal_input_snapshot_displaced_exact_bytes"@[24] == 'p' && "metal_input_snapshot_displaced_exact_bytes"@[38] == 'y');
    assert("metal_input_snapshot_displaced_vouched"@.len() == 38 && "metal_input_snapshot_displaced_vouched"@[24] == 'p' && "metal_input_snapshot_displaced_vouched"@[34] == 'c');
    assert("metal_input_snapshot_displaced_vouched_bytes"@.len() == 44 && "metal_input_snapshot_displaced_vouched_bytes"@[24] == 'p' && "metal_input_snapshot_displaced_vouched_bytes"@[40] == 'y');
    assert("metal_input_snapshot_miss_no_candidate"@.len() == 38 && "metal_input_snapshot_miss_no_candidate"@[24] == 's' && "metal_input_snapshot_miss_no_candidate"@[34] == 'd');
    assert("metal_input_snapshot_candidate_stage_changed"@.len() == 44 && "metal_input_snapshot_candidate_stage_changed"@[24] == 'd' && "metal_input_snapshot_candidate_stage_changed"@[40] == 'n');
    assert("metal_input_snapshot_candidate_slot_changed"@.len() == 43 && "metal_input_snapshot_candidate_slot_changed"@[24] == 'd' && "metal_input_snapshot_candidate_slot_changed"@[39] == 'n');
    assert("metal_input_snapshot_miss_scope"@.len() == 31 && "metal_input_snapshot_miss_scope"@[24] == 's' && "metal_input_snapshot_miss_scope"@[27] == 'c');
    assert("metal_input_snapshot_miss_scope_expired"@.len() == 39 && "metal_input_snapshot_miss_scope_expired"@[24] == 's' && "metal_input_snapshot_miss_scope_expired"@[35] == 'i');
    assert("metal_input_snapshot_miss_declared_write"@.len() == 40 && "metal_input_snapshot_miss_declared_write"@[24] == 's' && "metal_input_snapshot_miss_declared_write"@[36] == 'r');
    assert("metal_input_snapshot_miss_source"@.len() == 32 && "metal_input_snapshot_miss_source"@[24] == 's' && "metal_input_snapshot_miss_source"@[28] == 'u');
    assert("metal_input_snapshot_miss_offset"@.len() == 32 && "metal_input_snapshot_miss_offset"@[24] == 's' && "metal_input_snapshot_miss_offset"@[28] == 'f');
    assert("metal_input_snapshot_miss_offset_bytes"@.len() == 38 && "metal_input_snapshot_miss_offset_bytes"@[24] == 's' && "metal_input_snapshot_miss_offset_bytes"@[34] == 'y');
    assert("metal_input_snapshot_miss_capture_length"@.len() == 40 && "metal_input_snapshot_miss_capture_length"@[24] == 's' && "metal_input_snapshot_miss_capture_length"@[36] == 'n');
    assert("metal_input_snapshot_miss_capture_length_bytes"@.len() == 46 && "metal_input_snapshot_miss_capture_length_bytes"@[24] == 's' && "metal_input_snapshot_miss_capture_length_bytes"@[42] == 'y');
    assert("metal_input_snapshot_miss_pages"@.len() == 31 && "metal_input_snapshot_miss_pages"@[24] == 's' && "metal_input_snapshot_miss_pages"@[27] == 'a');
    assert("metal_input_snapshot_miss_identity"@.len() == 34 && "metal_input_snapshot_miss_identity"@[24] == 's' && "metal_input_snapshot_miss_identity"@[30] == 't');
    assert("metal_input_snapshot_metadata_exact"@.len() == 35 && "metal_input_snapshot_metadata_exact"@[24] == 'a' && "metal_input_snapshot_metadata_exact"@[31] == 'x');
    assert("metal_input_snapshot_metadata_exact_bytes"@.len() == 41 && "metal_input_snapshot_metadata_exact_bytes"@[24] == 'a' && "metal_input_snapshot_metadata_exact_bytes"@[37] == 'y');
    assert("metal_input_snapshot_metadata_exact_unvouched"@.len() == 45 && "metal_input_snapshot_metadata_exact_unvouched"@[24] == 'a' && "metal_input_snapshot_metadata_exact_unvouched"@[41] == 'c');
    assert("metal_input_snapshot_metadata_exact_identity_changed"@.len() == 52 && "metal_input_snapshot_metadata_exact_identity_changed"@[24] == 'a' && "metal_input_snapshot_metadata_exact_identity_changed"@[48] == 'n');
    assert("metal_input_snapshot_metadata_exact_unsettled"@.len() == 45 && "metal_input_snapshot_metadata_exact_unsettled"@[24] == 'a' && "metal_input_snapshot_metadata_exact_unsettled"@[41] == 't');
    assert("metal_input_snapshot_geometry_contained"@.len() == 39 && "metal_input_snapshot_geometry_contained"@[24] == 'm' && "metal_input_snapshot_geometry_contained"@[35] == 'i');
    assert("metal_input_snapshot_geometry_contained_bytes"@.len() == 45 && "metal_input_snapshot_geometry_contained_bytes"@[24] == 'm' && "metal_input_snapshot_geometry_contained_bytes"@[41] == 'y');
    assert("metal_input_snapshot_post_key_changed"@.len() == 37 && "metal_input_snapshot_post_key_changed"@[24] == 't' && "metal_input_snapshot_post_key_changed"@[33] == 'n');
    assert("metal_input_snapshot_post_pages_changed"@.len() == 39 && "metal_input_snapshot_post_pages_changed"@[24] == 't' && "metal_input_snapshot_post_pages_changed"@[35] == 'n');
    assert("metal_input_snapshot_post_declared_write_changed"@.len() == 48 && "metal_input_snapshot_post_declared_write_changed"@[24] == 't' && "metal_input_snapshot_post_declared_write_changed"@[44] == 'n');
    assert("metal_input_snapshot_post_scope_expired"@.len() == 39 && "metal_input_snapshot_post_scope_expired"@[24] == 't' && "metal_input_snapshot_post_scope_expired"@[35] == 'i');
    assert("metal_input_snapshot_post_unsettled"@.len() == 35 && "metal_input_snapshot_post_unsettled"@[24] == 't' && "metal_input_snapshot_post_unsettled"@[31] == 't');
    assert("metal_input_snapshot_post_unvouched"@.len() == 35 && "metal_input_snapshot_post_unvouched"@[24] == 't' && "metal_input_snapshot_post_unvouched"@[31] == 'c');
    assert("metal_input_snapshot_post_identity_changed"@.len() == 42 && "metal_input_snapshot_post_identity_changed"@[24] == 't' && "metal_input_snapshot_post_identity_changed"@[38] == 'n');
}

} // verus!
