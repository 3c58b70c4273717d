//! Immutable packed images, and the one a texture resource keeps.
use crate::gather::{same_bytes, GatherOutcome, GatheredIdentity};
use crate::sampled::description::Description;
use crate::sampled::window::{same_window, WindowKey, WindowModel};
use std::sync::Arc;
use vstd::prelude::*;

verus! {

/// The geometry of packed texels. Format zero is converted four-byte colour.
#[derive(Clone, Copy, Debug, PartialEq, Eq, Structural)]
pub struct PackedLayout {
    pub width: u32,
    pub height: u32,
    pub pixel_format: u32,
    pub bytes_per_row: u32,
}

/// An immutable native image and the exact bytes it was uploaded from. `id`
/// names the native image; no two have the same.
pub struct PackedImage {
    pub id: u64,
    pub layout: PackedLayout,
    pub bytes: Vec<u8>,
}

impl PackedImage {
    /// The image was uploaded from exactly these bytes at exactly this layout.
    pub open spec fn made_from(self, layout: PackedLayout, bytes: Seq<u8>) -> bool {
        self.layout == layout && self.bytes@ == bytes
    }

    /// Whether the image was uploaded from exactly these bytes at this layout.
    pub fn matches(&self, layout: PackedLayout, bytes: &Vec<u8>) -> (r: bool)
        ensures
            r == self.made_from(layout, bytes@),
    {
        self.layout == layout && same_bytes(&self.bytes, bytes)
    }

    /// The number of bytes that were uploaded.
    pub fn byte_len(&self) -> (n: u64)
        ensures
            n == self.bytes@.len(),
    {
        self.bytes.len() as u64
    }
}

/// Proof that the retained image stands for a surface window: what the window
/// was, and what the witness saw of it.
pub struct Proof {
    pub key: WindowKey,
    pub identity: GatheredIdentity,
}

/// The one candidate a texture resource keeps, and the proof under which it may
/// stand for an unread surface.
pub struct RetainedPacked {
    pub latest: Option<Arc<PackedImage>>,
    pub mapping: Option<Proof>,
}

/// Why a native image could not be made.
#[derive(Clone, Copy, Debug, PartialEq, Eq, Structural)]
pub enum PackedStatus {
    /// The native allocation or upload failed.
    UploadFailed,
}

/// What one staging counts.
#[derive(Clone, Copy, Debug, PartialEq, Eq, Structural)]
pub enum PackedNote {
    Reuses,
    ReuseBytes { bytes: u64 },
    Misses,
}

/// What loading a surface window counts.
#[derive(Clone, Copy, Debug, PartialEq, Eq, Structural)]
pub enum MappingNote {
    Unscoped,
    Unwitnessed,
    Reuses,
    StagingBytesAvoided { bytes: u64 },
    GuestBytesAvoided { bytes: u64 },
    HitAuditBytes { bytes: u64 },
    ExtraAuditBytes { bytes: u64 },
    Stages,
}

impl PackedNote {
    /// The name of the counter.
    pub open spec fn slug_text(self) -> Seq<char> {
        match self {
            PackedNote::Reuses => "metal_packed_sampled_reuses"@,
            PackedNote::ReuseBytes { .. } => "metal_packed_sampled_reuse_bytes"@,
            PackedNote::Misses => "metal_packed_sampled_misses"@,
        }
    }

    /// The name of the counter.
    pub fn slug(self) -> (text: &'static str)
        ensures
            text@ == self.slug_text(),
    {
        match self {
            PackedNote::Reuses => "metal_packed_sampled_reuses",
            PackedNote::ReuseBytes { .. } => "metal_packed_sampled_reuse_bytes",
            PackedNote::Misses => "metal_packed_sampled_misses",
        }
    }
}

impl MappingNote {
    /// The name of the counter.
    pub open spec fn slug_text(self) -> Seq<char> {
        match self {
            MappingNote::Unscoped => "metal_packed_mapping_unscoped"@,
            MappingNote::Unwitnessed => "metal_packed_mapping_unwitnessed"@,
            MappingNote::Reuses => "metal_packed_mapping_reuses"@,
            MappingNote::StagingBytesAvoided { .. } => "metal_packed_mapping_staging_bytes_avoided"@,
            MappingNote::GuestBytesAvoided { .. } => "metal_packed_mapping_guest_bytes_avoided"@,
            MappingNote::HitAuditBytes { .. } => "metal_packed_mapping_hit_audit_bytes"@,
            MappingNote::ExtraAuditBytes { .. } => "metal_packed_mapping_extra_audit_bytes"@,
            MappingNote::Stages => "metal_packed_mapping_stages"@,
        }
    }

    /// The name of the counter.
    pub fn slug(self) -> (text: &'static str)
        ensures
            text@ == self.slug_text(),
    {
        match self {
            MappingNote::Unscoped => "metal_packed_mapping_unscoped",
            MappingNote::Unwitnessed => "metal_packed_mapping_unwitnessed",
            MappingNote::Reuses => "metal_packed_mapping_reuses",
            MappingNote::StagingBytesAvoided { .. } => "metal_packed_mapping_staging_bytes_avoided",
            MappingNote::GuestBytesAvoided { .. } => "metal_packed_mapping_guest_bytes_avoided",
            MappingNote::HitAuditBytes { .. } => "metal_packed_mapping_hit_audit_bytes",
            MappingNote::ExtraAuditBytes { .. } => "metal_packed_mapping_extra_audit_bytes",
            MappingNote::Stages => "metal_packed_mapping_stages",
        }
    }
}

/// The retained image was made from exactly these bytes at this layout.
pub open spec fn holds_bytes(held: RetainedPacked, layout: PackedLayout, bytes: Seq<u8>) -> bool {
    held.latest matches Some(image) && image.made_from(layout, bytes)
}

/// A window observed before staging.
pub type Observed = Option<(WindowKey, GatherOutcome)>;

/// The retained image stands for the window unread: the witness vouches for the
/// very window the proof is about, in the scope the load began in.
pub open spec fn stands_unread(
    held: RetainedPacked,
    description: Description,
    before: Observed,
    scope_id: Option<u64>,
    scope_now: Option<u64>,
) -> bool {
    &&& before matches Some((key, seen))
    &&& held.mapping matches Some(proof)
    &&& held.latest matches Some(image)
    &&& seen.reusable()
    &&& scope_id is Some
    &&& scope_now == scope_id
    &&& seen.identity == proof.identity
    &&& key@ == proof.key@
    &&& image.layout == description.converted()
}

/// A staged image may stand for its window: the window is what it was before
/// staging, nothing wrote it meanwhile, the scope is still open, and the image
/// is the one the resource retains.
pub open spec fn proves(
    held: RetainedPacked,
    description: Description,
    key: WindowModel,
    seen: GatherOutcome,
    after: WindowModel,
    final_seen: GatherOutcome,
    scope_id: Option<u64>,
    scope_now: Option<u64>,
    image: PackedImage,
) -> bool {
    &&& key == after
    &&& scope_id is Some
    &&& scope_now == scope_id
    &&& seen.cpu_read_settled
    &&& final_seen.reusable()
    &&& seen.identity == final_seen.identity
    &&& image.layout == description.converted()
    &&& held.latest matches Some(latest) && latest.id == image.id
}

/// A staging in progress.
pub struct MappingPending {
    pub before: Observed,
    pub scope_id: Option<u64>,
}

/// What loading a surface window does next.
pub enum MappingStep {
    /// The retained image stands for the window.
    Reuse { image: Arc<PackedImage>, notes: Vec<MappingNote> },
    /// The window is staged.
    Stage { pending: MappingPending, notes: Vec<MappingNote> },
}

/// What is counted before the candidate is tried.
pub open spec fn opening_notes(before: Observed, scope_id: Option<u64>) -> Seq<MappingNote> {
    (if scope_id is None {
        seq![MappingNote::Unscoped]
    } else {
        Seq::empty()
    }) + (if before is None {
        seq![MappingNote::Unwitnessed]
    } else {
        Seq::empty()
    })
}

/// What is counted of a window that was not read. A strided audit also reads the
/// padding between rows that the ordinary reader skips.
pub open spec fn unread_notes(guest_read_bytes: u64, audit_bytes: u64) -> Seq<MappingNote> {
    seq![
        MappingNote::Reuses,
        MappingNote::StagingBytesAvoided { bytes: guest_read_bytes },
        MappingNote::GuestBytesAvoided {
            bytes: if guest_read_bytes > audit_bytes {
                (guest_read_bytes - audit_bytes) as u64
            } else {
                0
            },
        },
        MappingNote::HitAuditBytes { bytes: audit_bytes },
        MappingNote::ExtraAuditBytes {
            bytes: if audit_bytes > guest_read_bytes {
                (audit_bytes - guest_read_bytes) as u64
            } else {
                0
            },
        },
    ]
}

/// What is counted of a window that is staged.
pub open spec fn stage_notes(before: Observed) -> Seq<MappingNote> {
    match before {
        Some(pair) => seq![
            MappingNote::Stages,
            MappingNote::ExtraAuditBytes { bytes: pair.1.audit_bytes },
        ],
        None => seq![MappingNote::Stages],
    }
}

fn same_scope(a: Option<u64>, b: Option<u64>) -> (r: bool)
    ensures
        r == (a == b),
{
    match (a, b) {
        (Some(x), Some(y)) => x == y,
        (None, None) => true,
        _ => false,
    }
}

impl RetainedPacked {
    /// Nothing is retained.
    pub fn new() -> (held: RetainedPacked)
        ensures
            held.latest is None,
            held.mapping is None,
    {
        RetainedPacked { latest: None, mapping: None }
    }

    /// Makes staged bytes an image. The retained one is reused when it was made
    /// from exactly these bytes at exactly this layout; otherwise it is given up
    /// before a new one is made. `creates` is whether the native side can make
    /// it, `id` the name it would have. Staging ends any proof about a surface:
    /// only a completed pair of observations restores one.
    pub fn stage(
        &mut self,
        layout: PackedLayout,
        bytes: Vec<u8>,
        creates: bool,
        id: u64,
    ) -> (r: (Result<Arc<PackedImage>, PackedStatus>, Vec<PackedNote>))
        ensures
            final(self).mapping is None,
            holds_bytes(*old(self), layout, bytes@) ==> {
                &&& final(self).latest == old(self).latest
                &&& r.0 matches Ok(image) && Some(image) == old(self).latest
                &&& r.1@ == seq![
                    PackedNote::Reuses,
                    PackedNote::ReuseBytes { bytes: bytes@.len() as u64 },
                ]
            },
            !holds_bytes(*old(self), layout, bytes@) ==> {
                &&& r.1@ == seq![PackedNote::Misses]
                &&& creates ==> {
                    &&& r.0 matches Ok(image) && image.id == id && image.layout == layout
                        && image.bytes@ == bytes@ && final(self).latest == Some(image)
                }
                &&& !creates ==> {
                    &&& r.0 matches Err(status) && status == PackedStatus::UploadFailed
                    &&& final(self).latest is None
                }
            },
    {
        self.mapping = None;
        let mut notes: Vec<PackedNote> = Vec::new();
        if let Some(image) = &self.latest {
            if image.matches(layout, &bytes) {
                notes.push(PackedNote::Reuses);
                notes.push(PackedNote::ReuseBytes { bytes: bytes.len() as u64 });
                assert(notes@ =~= seq![
                    PackedNote::Reuses,
                    PackedNote::ReuseBytes { bytes: bytes@.len() as u64 },
                ]);
                return (Ok(image.clone()), notes);
            }
        }
        notes.push(PackedNote::Misses);
        assert(notes@ =~= seq![PackedNote::Misses]);
        self.latest = None;
        if !creates {
            return (Err(PackedStatus::UploadFailed), notes);
        }
        let image: Arc<PackedImage> = Arc::new(PackedImage { id, layout, bytes });
        self.latest = Some(image.clone());
        (Ok(image), notes)
    }

    /// Begins loading a surface window. A candidate that does not stand for it
    /// unread keeps its image, for byte comparison, and loses its proof.
    pub fn begin_mapping(
        &mut self,
        description: Description,
        before: Observed,
        scope_id: Option<u64>,
        scope_now: Option<u64>,
    ) -> (step: MappingStep)
        requires
            description.width * 4 <= u32::MAX,
        ensures
            final(self).latest == old(self).latest,
            stands_unread(*old(self), description, before, scope_id, scope_now) ==> {
                &&& final(self).mapping == old(self).mapping
                &&& step matches MappingStep::Reuse { image, notes } && Some(image)
                    == old(self).latest && notes@ == opening_notes(before, scope_id)
                    + unread_notes(
                    (before->0).0.guest_read_bytes,
                    (before->0).1.audit_bytes,
                )
            },
            !stands_unread(*old(self), description, before, scope_id, scope_now) ==> {
                &&& final(self).mapping is None
                &&& step matches MappingStep::Stage { pending, notes } && pending == (
                MappingPending { before, scope_id }) && notes@ == opening_notes(before, scope_id)
                    + stage_notes(before)
            },
    {
        let mut notes: Vec<MappingNote> = Vec::new();
        if scope_id.is_none() {
            notes.push(MappingNote::Unscoped);
        }
        if before.is_none() {
            notes.push(MappingNote::Unwitnessed);
        }
        assert(notes@ =~= opening_notes(before, scope_id));
        let output: PackedLayout = description.output();
        if let (Some(pair), Some(proof), Some(image)) = (&before, &self.mapping, &self.latest) {
            if pair.1.cpu_read_vouched() && scope_id.is_some() && same_scope(scope_now, scope_id)
                && pair.1.identity == proof.identity && same_window(&pair.0, &proof.key)
                && image.layout == output {
                let read: u64 = pair.0.guest_read_bytes;
                let audit: u64 = pair.1.audit_bytes;
                notes.push(MappingNote::Reuses);
                notes.push(MappingNote::StagingBytesAvoided { bytes: read });
                notes.push(
                    MappingNote::GuestBytesAvoided { bytes: read.saturating_sub(audit) },
                );
                notes.push(MappingNote::HitAuditBytes { bytes: audit });
                notes.push(
                    MappingNote::ExtraAuditBytes { bytes: audit.saturating_sub(read) },
                );
                assert(notes@ =~= opening_notes(before, scope_id) + unread_notes(read, audit));
                return MappingStep::Reuse { image: image.clone(), notes };
            }
        }
        self.mapping = None;
        notes.push(MappingNote::Stages);
        if let Some(pair) = &before {
            notes.push(MappingNote::ExtraAuditBytes { bytes: pair.1.audit_bytes });
        }
        assert(notes@ =~= opening_notes(before, scope_id) + stage_notes(before));
        MappingStep::Stage { pending: MappingPending { before, scope_id }, notes }
    }

    /// Ends loading a surface window whose texels were staged into an image.
    /// The window is observed again only where it was observed before.
    pub fn finish_mapping(
        &mut self,
        description: Description,
        pending: MappingPending,
        after: Observed,
        scope_now: Option<u64>,
        image: &PackedImage,
    ) -> (notes: Vec<MappingNote>)
        requires
            description.width * 4 <= u32::MAX,
        ensures
            final(self).latest == old(self).latest,
            ({
                let observed = pending.before is Some && after is Some;
                let proved = observed && proves(
                    *old(self),
                    description,
                    (pending.before->0).0@,
                    (pending.before->0).1,
                    (after->0).0@,
                    (after->0).1,
                    pending.scope_id,
                    scope_now,
                    *image,
                );
                &&& final(self).mapping == if proved {
                    Some(
                        Proof { key: (pending.before->0).0, identity: (after->0).1.identity },
                    )
                } else {
                    old(self).mapping
                }
                &&& notes@ == if observed {
                    seq![MappingNote::ExtraAuditBytes { bytes: (after->0).1.audit_bytes }]
                } else {
                    Seq::empty()
                }
            }),
    {
        let mut notes: Vec<MappingNote> = Vec::new();
        let (key, seen): (WindowKey, GatherOutcome) = match pending.before {
            None => {
                return notes;
            },
            Some(pair) => pair,
        };
        let (post, last): (WindowKey, GatherOutcome) = match after {
            None => {
                return notes;
            },
            Some(pair) => pair,
        };
        notes.push(MappingNote::ExtraAuditBytes { bytes: last.audit_bytes });
        assert(notes@ =~= seq![MappingNote::ExtraAuditBytes { bytes: last.audit_bytes }]);
        let retained: bool = match &self.latest {
            Some(latest) => latest.id == image.id,
            None => false,
        };
        if retained && same_window(&key, &post) && pending.scope_id.is_some() && same_scope(
            scope_now,
            pending.scope_id,
        ) && seen.cpu_read_settled && last.cpu_read_vouched() && seen.identity == last.identity
            && image.layout == description.output() {
            self.mapping = Some(Proof { key, identity: last.identity });
        }
        notes
    }
}

/// Staging the same bytes at the same layout again hands back the same image and
/// makes none; any other byte, length or layout does not.
pub proof fn law_reuse_is_exact(
    held: RetainedPacked,
    layout: PackedLayout,
    bytes: Seq<u8>,
    other_layout: PackedLayout,
    other_bytes: Seq<u8>,
)
    requires
        holds_bytes(held, layout, bytes),
    ensures
        holds_bytes(held, other_layout, other_bytes) <==> other_layout == layout && other_bytes
            == bytes,
{
}

/// A window is never left unread on the strength of another window, of another
/// observation, or outside the live scope of the load.
pub proof fn law_unread_windows_are_proved(
    held: RetainedPacked,
    description: Description,
    before: Observed,
    scope_id: Option<u64>,
    scope_now: Option<u64>,
)
    requires
        stands_unread(held, description, before, scope_id, scope_now),
    ensures
        (before->0).0@ == held.mapping->0.key@,
        (before->0).1.identity == held.mapping->0.identity,
        (before->0).1.vouched && (before->0).1.cpu_read_settled,
        scope_now is Some && scope_now == scope_id,
{
}

/// What finishing a load proved stands for the same window the next time, as long
/// as the witness vouches for the identity it last saw and the scope is the one of
/// the load; staging anything in between, another window, identity or scope, or a
/// write that may still reach, ends that.
pub proof fn law_a_proved_window_stands_until_it_changes(
    held: RetainedPacked,
    description: Description,
    key: WindowKey,
    seen: GatherOutcome,
    after: WindowKey,
    final_seen: GatherOutcome,
    scope: Option<u64>,
    image: PackedImage,
    next: (WindowKey, GatherOutcome),
    next_scope: Option<u64>,
)
    requires
        proves(
            held,
            description,
            key@,
            seen,
            after@,
            final_seen,
            scope,
            scope,
            image,
        ),
        held.latest->0.layout == image.layout,
    ensures
        stands_unread(
            RetainedPacked {
                latest: held.latest,
                mapping: Some(Proof { key, identity: final_seen.identity }),
            },
            description,
            Some(next),
            next_scope,
            next_scope,
        ) <==> {
            &&& next.0@ == key@
            &&& next.1.identity == final_seen.identity
            &&& next.1.vouched
            &&& next.1.cpu_read_settled
            &&& next_scope is Some
        },
        !stands_unread(
            RetainedPacked { latest: held.latest, mapping: None },
            description,
            Some(next),
            next_scope,
            next_scope,
        ),
{
}

/// A load proves a window only where nothing changed from before staging to after
/// it: the window, the witness's identity and the scope, with no write that may
/// still reach, and with the retained image in the layout of converted texels.
pub proof fn law_a_proof_needs_a_window_that_did_not_change(
    held: RetainedPacked,
    description: Description,
    key: WindowModel,
    seen: GatherOutcome,
    after: WindowModel,
    final_seen: GatherOutcome,
    scope_id: Option<u64>,
    scope_now: Option<u64>,
    image: PackedImage,
)
    requires
        description.width * 4 <= u32::MAX,
    ensures
        proves(
            held,
            description,
            key,
            seen,
            after,
            final_seen,
            scope_id,
            scope_now,
            image,
        ) <==> {
            &&& key == after
            &&& seen.identity == final_seen.identity
            &&& seen.cpu_read_settled && final_seen.cpu_read_settled && final_seen.vouched
            &&& scope_id is Some && scope_now is Some && scope_id->0 == scope_now->0
            &&& held.latest is Some && held.latest->0.id == image.id
            &&& image.layout.width == description.width && image.layout.height
                == description.height
            &&& image.layout.pixel_format == 0 && image.layout.bytes_per_row == 4
                * description.width
        },
{
}

/// An unread window is served from an image of the texture's own extent.
pub proof fn law_an_unread_window_has_the_described_extent(
    held: RetainedPacked,
    description: Description,
    before: Observed,
    scope_id: Option<u64>,
    scope_now: Option<u64>,
)
    requires
        description.width * 4 <= u32::MAX,
        stands_unread(held, description, before, scope_id, scope_now),
    ensures
        held.latest is Some,
        held.latest->0.layout.width == description.width,
        held.latest->0.layout.height == description.height,
        held.latest->0.layout.pixel_format == 0,
        held.latest->0.layout.bytes_per_row == 4 * description.width,
{
}

/// What an unread window saved and what checking it cost add up: the guest bytes
/// avoided less the extra ones audited are the bytes of the window less all that
/// were audited, and never are both counted.
pub proof fn law_unread_bytes_add_up(guest_read_bytes: u64, audit_bytes: u64)
    ensures
        ({
            let notes = unread_notes(guest_read_bytes, audit_bytes);
            &&& notes.len() == 5
            &&& notes[0] == MappingNote::Reuses
            &&& notes[1] matches MappingNote::StagingBytesAvoided { bytes: staged }
                && notes[2] matches MappingNote::GuestBytesAvoided { bytes: avoided }
                && notes[3] matches MappingNote::HitAuditBytes { bytes: audited }
                && notes[4] matches MappingNote::ExtraAuditBytes { bytes: extra } && {
                &&& staged == guest_read_bytes
                &&& audited == audit_bytes
                &&& avoided - extra == guest_read_bytes - audit_bytes
                &&& avoided == 0 || extra == 0
            }
        }),
{
}

/// A load outside any scope and one without a witness are each counted, in that
/// order, and a load with both is counted as neither; a staged window counts the
/// bytes that its witness audited.
pub proof fn law_opening_notes_name_what_is_missing(before: Observed, scope_id: Option<u64>)
    ensures
        opening_notes(before, scope_id).contains(MappingNote::Unscoped) <==> scope_id is None,
        opening_notes(before, scope_id).contains(MappingNote::Unwitnessed) <==> before is None,
        scope_id is None ==> opening_notes(before, scope_id)[0] == MappingNote::Unscoped,
        opening_notes(before, scope_id).len() == (if scope_id is None {
            1int
        } else {
            0int
        }) + (if before is None {
            1int
        } else {
            0int
        }),
        stage_notes(before)[0] == MappingNote::Stages,
        before matches Some(pair) ==> stage_notes(before).last() == (MappingNote::ExtraAuditBytes {
            bytes: pair.1.audit_bytes,
        }),
{
    let notes = opening_notes(before, scope_id);
    if scope_id is None {
        assert(notes[0] == MappingNote::Unscoped);
    }
    if before is None {
        assert(notes.last() == MappingNote::Unwitnessed);
    }
    if notes.contains(MappingNote::Unscoped) && scope_id is Some {
        let k = choose|k: int| 0 <= k < notes.len() && notes[k] == MappingNote::Unscoped;
        assert(notes[k] == MappingNote::Unwitnessed);
    }
    if notes.contains(MappingNote::Unwitnessed) && before is Some {
        let k = choose|k: int| 0 <= k < notes.len() && notes[k] == MappingNote::Unwitnessed;
        assert(notes[k] == MappingNote::Unscoped);
    }
}

/// No two notes are counted under one name.
pub proof fn law_every_mapping_note_has_a_counter_of_its_own(a: MappingNote, b: MappingNote)
    ensures
        a.slug_text() == b.slug_text() ==> (a is Unscoped <==> b is Unscoped),
        a.slug_text() == b.slug_text() ==> (a is Unwitnessed <==> b is Unwitnessed),
        a.slug_text() == b.slug_text() ==> (a is Reuses <==> b is Reuses),
        a.slug_text() == b.slug_text() ==> (a is StagingBytesAvoided <==> b is StagingBytesAvoided),
        a.slug_text() == b.slug_text() ==> (a is GuestBytesAvoided <==> b is GuestBytesAvoided),
        a.slug_text() == b.slug_text() ==> (a is HitAuditBytes <==> b is HitAuditBytes),
        a.slug_text() == b.slug_text() ==> (a is ExtraAuditBytes <==> b is ExtraAuditBytes),
        a.slug_text() == b.slug_text() ==> (a is Stages <==> b is Stages),
{
    reveal_strlit("metal_packed_mapping_unscoped");
    reveal_strlit("metal_packed_mapping_unwitnessed");
    reveal_strlit("metal_packed_mapping_reuses");
    reveal_strlit("metal_packed_mapping_staging_bytes_avoided");
    reveal_strlit("metal_packed_mapping_guest_bytes_avoided");
    reveal_strlit("metal_packed_mapping_hit_audit_bytes");
    reveal_strlit("metal_packed_mapping_extra_audit_bytes");
    reveal_strlit("metal_packed_mapping_stages");
    assert("metal_packed_mapping_unscoped"@.len() == 29 && "metal_packed_mapping_unscoped"@[24] == 'c');
    assert("metal_packed_mapping_unwitnessed"@.len() == 32 && "metal_packed_mapping_unwitnessed"@[24] == 'i');
    assert("metal_packed_mapping_reuses"@.len() == 27 && "metal_packed_mapping_reuses"@[24] == 's');
    assert("metal_packed_mapping_staging_bytes_avoided"@.len() == 42 && "metal_packed_mapping_staging_bytes_avoided"@[24] == 'g');
    assert("metal_packed_mapping_guest_bytes_avoided"@.len() == 40 && "metal_packed_mapping_guest_bytes_avoided"@[24] == 's');
    assert("metal_packed_mapping_hit_audit_bytes"@.len() == 36 && "metal_packed_mapping_hit_audit_bytes"@[24] == '_');
    assert("metal_packed_mapping_extra_audit_bytes"@.len() == 38 && "metal_packed_mapping_extra_audit_bytes"@[24] == 'r');
    assert("metal_packed_mapping_stages"@.len() == 27 && "metal_packed_mapping_stages"@[24] == 'g');
}

/// No two notes are counted under one name.
pub proof fn law_every_packed_note_has_a_counter_of_its_own(a: PackedNote, b: PackedNote)
    ensures
        a.slug_text() == b.slug_text() ==> (a is Reuses <==> b is Reuses),
        a.slug_text() == b.slug_text() ==> (a is ReuseBytes <==> b is ReuseBytes),
        a.slug_text() == b.slug_text() ==> (a is Misses <==> b is Misses),
{
    reveal_strlit("metal_packed_sampled_reuses");
    reveal_strlit("metal_packed_sampled_reuse_bytes");
    reveal_strlit("metal_packed_sampled_misses");
    assert("metal_packed_sampled_reuses"@.len() == 27 && "metal_packed_sampled_reuses"@[23] == 'u');
    assert("metal_packed_sampled_reuse_bytes"@.len() == 32 && "metal_packed_sampled_reuse_bytes"@[23] == 'u');
    assert("metal_packed_sampled_misses"@.len() == 27 && "metal_packed_sampled_misses"@[23] == 's');
}

} // verus!
