//! Writable textures a draw owns, published when the draw completes and not at
//! the pass's store.
use vstd::prelude::*;

use crate::native_pipeline::tables::TEXTURE_BINDING_BASE;
use crate::storage::{TextureObject, ordinary_single_level, single_level};

verus! {

/// How staging a texture went.
#[derive(Clone, Copy, Debug, PartialEq, Eq)]
pub enum StagingStatus {
    /// No failure.
    Done,
    /// The native device's own refusal.
    RailRefused(u64),
    MissingPipeline(&'static str),
    MissingMtlb(&'static str),
    MissingBuffer(&'static str),
    MissingTexture(&'static str),
    MissingSampler(&'static str),
    BadGrid(&'static str),
    GuestIo(&'static str),
    MetalFailed(&'static str),
    NoMetal(&'static str),
    Unsupported(&'static str),
}

/// Why a draw is not encoded.
#[derive(Clone, Copy, Debug, PartialEq, Eq)]
pub enum EncodeStatus {
    /// The native device's own refusal.
    RailRefused(u64),
    MissingPipeline(&'static str),
    MissingMtlb(&'static str),
    BadArgs(&'static str),
    WritebackFailed(&'static str),
    MetalFailed(&'static str),
    NoMetal(&'static str),
    Unsupported(&'static str),
}

/// What a draw reports of a staging status. A success handed over as a failure is
/// a bad argument.
pub open spec fn reported(status: StagingStatus) -> EncodeStatus {
    match status {
        StagingStatus::RailRefused(code) => EncodeStatus::RailRefused(code),
        StagingStatus::MissingPipeline(reason) => EncodeStatus::MissingPipeline(reason),
        StagingStatus::MissingMtlb(reason) => EncodeStatus::MissingMtlb(reason),
        StagingStatus::MissingBuffer(reason) => EncodeStatus::BadArgs(reason),
        StagingStatus::MissingTexture(reason) => EncodeStatus::BadArgs(reason),
        StagingStatus::MissingSampler(reason) => EncodeStatus::BadArgs(reason),
        StagingStatus::BadGrid(reason) => EncodeStatus::BadArgs(reason),
        StagingStatus::GuestIo(reason) => EncodeStatus::WritebackFailed(reason),
        StagingStatus::MetalFailed(reason) => EncodeStatus::MetalFailed(reason),
        StagingStatus::NoMetal(reason) => EncodeStatus::NoMetal(reason),
        StagingStatus::Unsupported(reason) => EncodeStatus::Unsupported(reason),
        StagingStatus::Done => EncodeStatus::BadArgs("draw_mtl_storage_invalid_status"),
    }
}

/// Two statuses say the same.
pub open spec fn same_status(a: EncodeStatus, b: EncodeStatus) -> bool {
    match (a, b) {
        (EncodeStatus::RailRefused(x), EncodeStatus::RailRefused(y)) => x == y,
        (EncodeStatus::MissingPipeline(x), EncodeStatus::MissingPipeline(y)) => x@ == y@,
        (EncodeStatus::MissingMtlb(x), EncodeStatus::MissingMtlb(y)) => x@ == y@,
        (EncodeStatus::BadArgs(x), EncodeStatus::BadArgs(y)) => x@ == y@,
        (EncodeStatus::WritebackFailed(x), EncodeStatus::WritebackFailed(y)) => x@ == y@,
        (EncodeStatus::MetalFailed(x), EncodeStatus::MetalFailed(y)) => x@ == y@,
        (EncodeStatus::NoMetal(x), EncodeStatus::NoMetal(y)) => x@ == y@,
        (EncodeStatus::Unsupported(x), EncodeStatus::Unsupported(y)) => x@ == y@,
        _ => false,
    }
}

/// What a draw reports of a staging status.
pub fn draw_status(status: StagingStatus) -> (r: EncodeStatus)
    ensures
        same_status(r, reported(status)),
{
    match status {
        StagingStatus::RailRefused(code) => EncodeStatus::RailRefused(code),
        StagingStatus::MissingPipeline(reason) => EncodeStatus::MissingPipeline(reason),
        StagingStatus::MissingMtlb(reason) => EncodeStatus::MissingMtlb(reason),
        StagingStatus::MissingBuffer(reason) => EncodeStatus::BadArgs(reason),
        StagingStatus::MissingTexture(reason) => EncodeStatus::BadArgs(reason),
        StagingStatus::MissingSampler(reason) => EncodeStatus::BadArgs(reason),
        StagingStatus::BadGrid(reason) => EncodeStatus::BadArgs(reason),
        StagingStatus::GuestIo(reason) => EncodeStatus::WritebackFailed(reason),
        StagingStatus::MetalFailed(reason) => EncodeStatus::MetalFailed(reason),
        StagingStatus::NoMetal(reason) => EncodeStatus::NoMetal(reason),
        StagingStatus::Unsupported(reason) => EncodeStatus::Unsupported(reason),
        StagingStatus::Done => EncodeStatus::BadArgs("draw_mtl_storage_invalid_status"),
    }
}

/// The attachments of a draw. Depth and stencil are a texture and its resolve.
#[derive(Debug)]
pub struct DrawAttachments {
    pub colors: Vec<u32>,
    pub depth: Option<(u32, u32)>,
    pub stencil: Option<(u32, u32)>,
}

impl DrawAttachments {
    /// The texture is an attachment of the draw.
    pub open spec fn name(self, texture_ref: u32) -> bool {
        ||| self.colors@.contains(texture_ref)
        ||| self.depth matches Some(a) && (a.0 == texture_ref || a.1 == texture_ref)
        ||| self.stencil matches Some(a) && (a.0 == texture_ref || a.1 == texture_ref)
    }

    /// Whether the texture is an attachment of the draw.
    pub fn names(&self, texture_ref: u32) -> (r: bool)
        ensures
            r == self.name(texture_ref),
    {
        let mut n: usize = 0;
        while n < self.colors.len()
            invariant
                0 <= n <= self.colors@.len(),
                forall|k: int| 0 <= k < n ==> self.colors@[k] != texture_ref,
            decreases self.colors@.len() - n,
        {
            if self.colors[n] == texture_ref {
                assert(self.colors@[n as int] == texture_ref);
                return true;
            }
            n += 1;
        }
        if let Some(a) = self.depth {
            if a.0 == texture_ref || a.1 == texture_ref {
                return true;
            }
        }
        match self.stencil {
            Some(a) => a.0 == texture_ref || a.1 == texture_ref,
            None => false,
        }
    }
}

/// Texels staged for a writable texture.
#[derive(Debug)]
pub struct StagedTexels {
    pub width: u32,
    pub height: u32,
    /// The native selector of the texels' format, or why it has none.
    pub selector: Result<u32, StagingStatus>,
    /// Bytes of one tightly packed row, where the format has a width.
    pub tight_row: Option<u32>,
    pub bytes: Vec<u8>,
}

/// What uploading staged texels needs.
#[derive(Clone, Copy, Debug, PartialEq, Eq, Structural)]
pub struct Upload {
    pub selector: u32,
    pub bytes_per_row: u32,
}

/// A writable texture of the draw.
#[derive(Debug)]
pub struct WritableTexture {
    pub reference: u32,
    /// The native texture.
    pub texture: u64,
    pub width: u32,
    pub height: u32,
    pub bytes_per_row: u32,
    /// The texels, as they are published.
    pub bytes: Vec<u8>,
}

/// A native image bound to a shader.
#[derive(Clone, Copy, Debug, PartialEq, Eq, Structural)]
pub struct NativeImage {
    pub binding: u32,
    pub texture: u64,
}

/// The writable textures of one draw, by reference.
#[derive(Debug)]
pub struct WritableTextures {
    pub textures: Vec<WritableTexture>,
}

/// Whether an admitted texture has to be staged.
#[derive(Clone, Copy, Debug, PartialEq, Eq, Structural)]
pub enum Entry {
    Held,
    Stage,
}

/// What a texture's admission leads to, before anything is staged.
pub open spec fn entry(
    held: bool,
    attachment: bool,
    object: Option<TextureObject>,
) -> Result<Entry, EncodeStatus> {
    if held {
        Ok(Entry::Held)
    } else if attachment {
        Err(EncodeStatus::Unsupported("draw_mtl_storage_attachment_alias"))
    } else {
        match object {
            None => Err(EncodeStatus::BadArgs("draw_mtl_storage_missing_texture")),
            Some(object) => if single_level(object) {
                Ok(Entry::Stage)
            } else {
                Err(EncodeStatus::Unsupported("draw_mtl_storage_texture_shape"))
            },
        }
    }
}

/// What uploading staged texels needs, or why they cannot be uploaded.
pub open spec fn upload_of(
    staged: Result<StagedTexels, StagingStatus>,
    device: bool,
) -> Result<Upload, EncodeStatus> {
    match staged {
        Err(status) => Err(reported(status)),
        Ok(texels) => match texels.selector {
            Err(status) => Err(reported(status)),
            Ok(selector) => match texels.tight_row {
                None => Err(EncodeStatus::BadArgs("draw_mtl_storage_texture_pitch")),
                Some(bytes_per_row) => if device {
                    Ok(Upload { selector, bytes_per_row })
                } else {
                    Err(EncodeStatus::NoMetal("draw_mtl_storage_device"))
                },
            },
        },
    }
}

/// The answer is the wanted one, a refusal compared by what it says.
pub open spec fn answers<T>(r: Result<T, EncodeStatus>, want: Result<T, EncodeStatus>) -> bool {
    match (r, want) {
        (Ok(a), Ok(b)) => a == b,
        (Err(a), Err(b)) => same_status(a, b),
        _ => false,
    }
}

/// What uploading staged texels needs, or why they cannot be uploaded.
pub fn plan_upload(staged: &Result<StagedTexels, StagingStatus>, device: bool) -> (r: Result<
    Upload,
    EncodeStatus,
>)
    ensures
        answers(r, upload_of(*staged, device)),
{
    let texels: &StagedTexels = match staged {
        Err(status) => {
            return Err(draw_status(*status));
        },
        Ok(texels) => texels,
    };
    let selector: u32 = match &texels.selector {
        Err(status) => {
            return Err(draw_status(*status));
        },
        Ok(selector) => *selector,
    };
    let bytes_per_row: u32 = match texels.tight_row {
        None => {
            return Err(EncodeStatus::BadArgs("draw_mtl_storage_texture_pitch"));
        },
        Some(bytes_per_row) => bytes_per_row,
    };
    if !device {
        return Err(EncodeStatus::NoMetal("draw_mtl_storage_device"));
    }
    Ok(Upload { selector, bytes_per_row })
}

/// What is published of a texture.
#[derive(Clone, Copy, Debug, PartialEq, Eq)]
pub struct Readout {
    /// How the write to the guest went.
    pub status: Option<StagingStatus>,
}

/// How many textures from `n` on are written back before the first that is not.
pub open spec fn written(readouts: Seq<Readout>, n: int) -> int
    decreases readouts.len() - n,
{
    if n < 0 || n >= readouts.len() || readouts[n].status is Some {
        n
    } else {
        written(readouts, n + 1)
    }
}

/// One list is the other with a texture put in somewhere.
pub open spec fn inserted(
    before: Seq<WritableTexture>,
    after: Seq<WritableTexture>,
    texture: WritableTexture,
) -> bool {
    exists|at: int| 0 <= at <= before.len() && #[trigger] before.insert(at, texture) == after
}

impl WritableTextures {
    /// In ascending order of reference, each once.
    pub open spec fn ordered(self) -> bool {
        forall|i: int, j: int|
            0 <= i < j < self.textures@.len() ==> (#[trigger] self.textures@[i]).reference < (
            #[trigger] self.textures@[j]).reference
    }

    /// A texture is held.
    pub open spec fn holds(self, texture_ref: u32) -> bool {
        exists|k: int|
            0 <= k < self.textures@.len() && (#[trigger] self.textures@[k]).reference
                == texture_ref
    }

    /// No textures yet.
    pub fn new() -> (textures: WritableTextures)
        ensures
            textures.ordered(),
            textures.textures@.len() == 0,
    {
        WritableTextures { textures: Vec::new() }
    }

    /// Where a texture is, or belongs.
    fn position(&self, texture_ref: u32) -> (at: usize)
        requires
            self.ordered(),
        ensures
            at <= self.textures@.len(),
            forall|k: int| 0 <= k < at ==> (#[trigger] self.textures@[k]).reference < texture_ref,
            forall|k: int|
                at <= k < self.textures@.len() ==> (#[trigger] self.textures@[k]).reference
                    >= texture_ref,
            self.holds(texture_ref) == (at < self.textures@.len()
                && self.textures@[at as int].reference == texture_ref),
    {
        let mut at: usize = 0;
        while at < self.textures.len() && self.textures[at].reference < texture_ref
            invariant
                0 <= at <= self.textures@.len(),
                forall|k: int|
                    0 <= k < at ==> (#[trigger] self.textures@[k]).reference < texture_ref,
            decreases self.textures@.len() - at,
        {
            at += 1;
        }
        proof {
            assert forall|k: int| at <= k < self.textures@.len() implies (
            #[trigger] self.textures@[k]).reference >= texture_ref by {
                if k > at {
                    assert(self.textures@[at as int].reference < self.textures@[k].reference);
                }
            }
            if self.holds(texture_ref) {
                let k = choose|k: int|
                    0 <= k < self.textures@.len() && (#[trigger] self.textures@[k]).reference
                        == texture_ref;
                if k > at {
                    assert(self.textures@[at as int].reference < self.textures@[k].reference);
                }
            }
        }
        at
    }

    /// Whether a texture is to be staged, asked before its bytes are touched. A
    /// writable pyramid, an array or an attachment is refused, never flattened
    /// into an independent image.
    pub fn add(
        &self,
        attachments: &DrawAttachments,
        texture_ref: u32,
        object: Option<TextureObject>,
    ) -> (r: Result<Entry, EncodeStatus>)
        requires
            self.ordered(),
        ensures
            answers(r, entry(self.holds(texture_ref), attachments.name(texture_ref), object)),
    {
        let at: usize = self.position(texture_ref);
        if at < self.textures.len() && self.textures[at].reference == texture_ref {
            return Ok(Entry::Held);
        }
        if attachments.names(texture_ref) {
            return Err(EncodeStatus::Unsupported("draw_mtl_storage_attachment_alias"));
        }
        match object {
            None => Err(EncodeStatus::BadArgs("draw_mtl_storage_missing_texture")),
            Some(object) => if ordinary_single_level(object) {
                Ok(Entry::Stage)
            } else {
                Err(EncodeStatus::Unsupported("draw_mtl_storage_texture_shape"))
            },
        }
    }

    /// Holds the uploaded texture of staged texels, or reports the device's
    /// refusal.
    pub fn take_uploaded(
        &mut self,
        texture_ref: u32,
        staged: StagedTexels,
        bytes_per_row: u32,
        uploaded: Result<u64, u64>,
    ) -> (r: Result<(), EncodeStatus>)
        requires
            old(self).ordered(),
            !old(self).holds(texture_ref),
        ensures
            final(self).ordered(),
            match uploaded {
                Err(code) => {
                    &&& r == Err::<(), EncodeStatus>(EncodeStatus::RailRefused(code))
                    &&& final(self).textures@ == old(self).textures@
                },
                Ok(texture) => {
                    &&& r is Ok
                    &&& inserted(
                        old(self).textures@,
                        final(self).textures@,
                        WritableTexture {
                            reference: texture_ref,
                            texture,
                            width: staged.width,
                            height: staged.height,
                            bytes_per_row,
                            bytes: staged.bytes,
                        },
                    )
                },
            },
    {
        let texture: u64 = match uploaded {
            Err(code) => {
                return Err(EncodeStatus::RailRefused(code));
            },
            Ok(texture) => texture,
        };
        let at: usize = self.position(texture_ref);
        let ghost before = self.textures@;
        self.textures.insert(
            at,
            WritableTexture {
                reference: texture_ref,
                texture,
                width: staged.width,
                height: staged.height,
                bytes_per_row,
                bytes: staged.bytes,
            },
        );
        proof {
            let after = self.textures@;
            assert forall|i: int, j: int| 0 <= i < j < after.len() implies (
            #[trigger] after[i]).reference < (#[trigger] after[j]).reference by {
                if i < at {
                    assert(after[i] == before[i]);
                }
                if i > at {
                    assert(after[i] == before[i - 1]);
                }
                if j < at {
                    assert(after[j] == before[j]);
                }
                if j > at {
                    assert(after[j] == before[j - 1]);
                    assert(old(self).textures@[j - 1].reference != texture_ref);
                }
            }
        }
        Ok(())
    }

    /// The native image a texture index binds to: every index of one texture
    /// shares its image.
    pub fn image(&self, texture_ref: u32, index: u32) -> (r: Option<NativeImage>)
        requires
            self.ordered(),
            TEXTURE_BINDING_BASE + index <= u32::MAX,
        ensures
            r is Some <==> self.holds(texture_ref),
            r matches Some(image) ==> image.binding == TEXTURE_BINDING_BASE + index && exists|
                k: int,
            |
                0 <= k < self.textures@.len() && (#[trigger] self.textures@[k]).reference
                    == texture_ref && self.textures@[k].texture == image.texture,
    {
        let at: usize = self.position(texture_ref);
        if at < self.textures.len() && self.textures[at].reference == texture_ref {
            Some(
                NativeImage {
                    binding: TEXTURE_BINDING_BASE + index,
                    texture: self.textures[at].texture,
                },
            )
        } else {
            None
        }
    }

    /// Publishes the textures in order: each takes the texels read from its native
    /// texture and is written to the guest, and the first write that fails ends
    /// it. `readouts` says how each write goes, if it comes to that.
    pub fn publish(&mut self, texels: Vec<Vec<u8>>, readouts: &Vec<Readout>) -> (r: Result<
        (),
        EncodeStatus,
    >)
        requires
            texels@.len() == old(self).textures@.len(),
            readouts@.len() == old(self).textures@.len(),
        ensures
            final(self).textures@.len() == old(self).textures@.len(),
            ({
                let n = written(readouts@, 0);
                &&& answers(
                    r,
                    if n < readouts@.len() {
                        Err::<(), EncodeStatus>(reported(readouts@[n].status->0))
                    } else {
                        Ok::<(), EncodeStatus>(())
                    },
                )
                &&& forall|k: int|
                    0 <= k < old(self).textures@.len() ==> (#[trigger] final(self).textures@[k])
                        == if k <= n {
                        (WritableTexture { bytes: texels@[k], ..old(self).textures@[k] })
                    } else {
                        old(self).textures@[k]
                    }
            }),
    {
        let ghost start = self.textures@;
        let ghost given = texels@;
        let mut sources: Vec<Vec<u8>> = texels;
        let mut n: usize = 0;
        while n < self.textures.len()
            invariant
                0 <= n <= self.textures@.len(),
                start == old(self).textures@,
                self.textures@.len() == start.len(),
                given == texels@,
                sources@.len() == given.len(),
                given.len() == start.len(),
                readouts@.len() == start.len(),
                written(readouts@, 0) == written(readouts@, n as int),
                forall|k: int| n <= k < given.len() ==> sources@[k] == given[k],
                forall|k: int|
                    0 <= k < n ==> (#[trigger] self.textures@[k]) == (WritableTexture {
                        bytes: given[k],
                        ..start[k]
                    }),
                forall|k: int| n <= k < start.len() ==> (#[trigger] self.textures@[k]) == start[k],
            decreases self.textures@.len() - n,
        {
            let mut bytes: Vec<u8> = Vec::new();
            std::mem::swap(&mut bytes, &mut sources[n]);
            let held: &mut WritableTexture = &mut self.textures[n];
            held.bytes = bytes;
            if let Some(status) = readouts[n].status {
                return Err(draw_status(status));
            }
            n += 1;
        }
        Ok(())
    }
}

/// The reason a status gives, where it gives one.
pub open spec fn staging_reason(status: StagingStatus) -> Option<&'static str> {
    match status {
        StagingStatus::Done => None,
        StagingStatus::RailRefused(_) => None,
        StagingStatus::MissingPipeline(reason) => Some(reason),
        StagingStatus::MissingMtlb(reason) => Some(reason),
        StagingStatus::MissingBuffer(reason) => Some(reason),
        StagingStatus::MissingTexture(reason) => Some(reason),
        StagingStatus::MissingSampler(reason) => Some(reason),
        StagingStatus::BadGrid(reason) => Some(reason),
        StagingStatus::GuestIo(reason) => Some(reason),
        StagingStatus::MetalFailed(reason) => Some(reason),
        StagingStatus::NoMetal(reason) => Some(reason),
        StagingStatus::Unsupported(reason) => Some(reason),
    }
}

/// The reason a report gives, where it gives one.
pub open spec fn encode_reason(status: EncodeStatus) -> Option<&'static str> {
    match status {
        EncodeStatus::RailRefused(_) => None,
        EncodeStatus::MissingPipeline(reason) => Some(reason),
        EncodeStatus::MissingMtlb(reason) => Some(reason),
        EncodeStatus::BadArgs(reason) => Some(reason),
        EncodeStatus::WritebackFailed(reason) => Some(reason),
        EncodeStatus::MetalFailed(reason) => Some(reason),
        EncodeStatus::NoMetal(reason) => Some(reason),
        EncodeStatus::Unsupported(reason) => Some(reason),
    }
}

/// A report keeps the reason of the status it reports, and the device's own code.
/// Only a failed write to the guest is reported as one; what a draw lacks of its
/// arguments, and a success handed over as a failure, is a bad argument.
pub proof fn law_a_report_keeps_its_reason(status: StagingStatus)
    ensures
        status != StagingStatus::Done ==> encode_reason(reported(status)) == staging_reason(status),
        reported(status) is RailRefused <==> status is RailRefused,
        status matches StagingStatus::RailRefused(code) ==> reported(status)
            == EncodeStatus::RailRefused(code),
        reported(status) is WritebackFailed <==> status is GuestIo,
        reported(status) is MissingPipeline <==> status is MissingPipeline,
        reported(status) is MissingMtlb <==> status is MissingMtlb,
        reported(status) is MetalFailed <==> status is MetalFailed,
        reported(status) is NoMetal <==> status is NoMetal,
        reported(status) is Unsupported <==> status is Unsupported,
        reported(status) is BadArgs <==> status is MissingBuffer || status is MissingTexture
            || status is MissingSampler || status is BadGrid || status is Done,
{
}

/// Two statuses say the same exactly when they are of one sort and give the same
/// reason, letter for letter, or the same code.
pub proof fn law_statuses_are_compared_by_what_they_say(a: EncodeStatus, b: EncodeStatus)
    ensures
        same_status(a, a),
        same_status(a, b) == same_status(b, a),
        same_status(a, b) && a is RailRefused ==> a == b,
        same_status(a, b) && !(a is RailRefused) ==> encode_reason(a) is Some && encode_reason(
            b,
        ) is Some && encode_reason(a)->0@ == encode_reason(b)->0@,
        same_status(a, b) ==> (a is MissingPipeline <==> b is MissingPipeline) && (a is MissingMtlb
            <==> b is MissingMtlb) && (a is BadArgs <==> b is BadArgs) && (a is WritebackFailed
            <==> b is WritebackFailed) && (a is MetalFailed <==> b is MetalFailed) && (a is NoMetal
            <==> b is NoMetal) && (a is Unsupported <==> b is Unsupported),
{
}

/// A texture is staged exactly when no attachment names it, at either end of a
/// resolve, and it is a plain one of one level, layer and sample.
pub proof fn law_attachments_are_never_flattened(
    attachments: DrawAttachments,
    texture_ref: u32,
    object: Option<TextureObject>,
)
    ensures
        entry(false, attachments.name(texture_ref), object) is Ok <==> {
            &&& forall|k: int|
                0 <= k < attachments.colors@.len() ==> #[trigger] attachments.colors@[k]
                    != texture_ref
            &&& attachments.depth matches Some(a) ==> a.0 != texture_ref && a.1 != texture_ref
            &&& attachments.stencil matches Some(a) ==> a.0 != texture_ref && a.1 != texture_ref
            &&& object is Some
            &&& object->0.plain_texture
            &&& object->0.shape is Some
            &&& object->0.shape->0.mipmap_level_count == 1
            &&& object->0.shape->0.depth == 1
            &&& object->0.shape->0.sample_count == Some(1u32)
        },
        entry(true, attachments.name(texture_ref), object) == Ok::<Entry, EncodeStatus>(Entry::Held),
        entry(false, attachments.name(texture_ref), object) != Ok::<Entry, EncodeStatus>(
            Entry::Held,
        ),
        object is None && !attachments.name(texture_ref) ==> (entry(
            false,
            attachments.name(texture_ref),
            object,
        ) matches Err(status) && status is BadArgs),
        attachments.name(texture_ref) ==> (entry(
            false,
            attachments.name(texture_ref),
            object,
        ) matches Err(status) && status is Unsupported),
{
    if attachments.colors@.contains(texture_ref) {
        let k = choose|k: int|
            0 <= k < attachments.colors@.len() && attachments.colors@[k] == texture_ref;
        assert(attachments.colors@[k] == texture_ref);
    }
    if forall|k: int|
        0 <= k < attachments.colors@.len() ==> #[trigger] attachments.colors@[k] != texture_ref {
        assert(!attachments.colors@.contains(texture_ref));
    }
}

/// Texels are uploaded exactly when they were staged, have a native selector and a
/// row, and there is a device; a failed staging or selector is reported as it is.
pub proof fn law_staged_texels_are_uploaded_with_their_own_rows(
    staged: Result<StagedTexels, StagingStatus>,
    device: bool,
)
    ensures
        upload_of(staged, device) is Ok <==> staged is Ok && staged->Ok_0.selector is Ok
            && staged->Ok_0.tight_row is Some && device,
        upload_of(staged, device) matches Ok(upload) ==> staged->Ok_0.selector == Ok::<
            u32,
            StagingStatus,
        >(upload.selector) && staged->Ok_0.tight_row == Some(upload.bytes_per_row),
        staged matches Err(status) ==> upload_of(staged, device) == Err::<Upload, EncodeStatus>(
            reported(status),
        ),
        staged is Ok && staged->Ok_0.selector is Err ==> upload_of(staged, device) == Err::<
            Upload,
            EncodeStatus,
        >(reported(staged->Ok_0.selector->Err_0)),
        staged is Ok && staged->Ok_0.selector is Ok && staged->Ok_0.tight_row is Some && !device
            ==> (upload_of(staged, device) matches Err(status) && status is NoMetal),
        staged is Ok && staged->Ok_0.selector is Ok && staged->Ok_0.tight_row is None ==> (upload_of(
            staged,
            device,
        ) matches Err(status) && status is BadArgs),
{
}

/// Textures are written back up to the first write that fails.
pub proof fn law_publishing_ends_at_the_first_failed_write(readouts: Seq<Readout>, n: int, k: int)
    requires
        0 <= n <= readouts.len(),
    ensures
        n <= written(readouts, n) <= readouts.len(),
        n <= k < written(readouts, n) ==> readouts[k].status is None,
        written(readouts, n) < readouts.len() ==> readouts[written(readouts, n)].status is Some,
    decreases readouts.len() - n,
{
    if n < readouts.len() && readouts[n].status is None {
        law_publishing_ends_at_the_first_failed_write(readouts, n + 1, k);
    }
}

/// A texture put into the list is in it, and so is everything that was, in the same
/// order; nothing else is.
pub proof fn law_an_inserted_texture_joins_the_others(
    before: WritableTextures,
    after: WritableTextures,
    texture: WritableTexture,
    reference: u32,
)
    requires
        inserted(before.textures@, after.textures@, texture),
    ensures
        after.textures@.len() == before.textures@.len() + 1,
        after.holds(reference) <==> before.holds(reference) || reference == texture.reference,
        after.textures@.contains(texture),
{
    let at = choose|at: int|
        0 <= at <= before.textures@.len() && #[trigger] before.textures@.insert(at, texture)
            == after.textures@;
    assert(after.textures@[at] == texture);
    if before.holds(reference) {
        let k = choose|k: int|
            0 <= k < before.textures@.len() && (#[trigger] before.textures@[k]).reference
                == reference;
        if k < at {
            assert(after.textures@[k] == before.textures@[k]);
        } else {
            assert(after.textures@[k + 1] == before.textures@[k]);
        }
    }
    if after.holds(reference) && reference != texture.reference {
        let k = choose|k: int|
            0 <= k < after.textures@.len() && (#[trigger] after.textures@[k]).reference
                == reference;
        if k < at {
            assert(before.textures@[k] == after.textures@[k]);
        } else {
            assert(before.textures@[k - 1] == after.textures@[k]);
        }
    }
}

} // verus!
