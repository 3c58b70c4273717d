//! Writable graphics textures: which ones a draw stages, how its shaders bind
//! them, and when their completed texels may be published.
use crate::coverage::GuestPageFootprint;
use crate::native_pipeline::tables::{TextureAccess, FRAG_SAMPLED_RESOURCE_BINDING_OFFSET};
use crate::vulkan::ShaderStage;
use vstd::prelude::*;

verus! {

/// Why graphics storage refuses a draw.
#[derive(Clone, Copy, Debug, PartialEq, Eq, Structural)]
pub enum GraphicsStorageDecline {
    /// A shader's use of a texture index cannot be read.
    Reflection { index: u32 },
    /// A written texture is not bound, or does not resolve.
    MissingTexture { texture_ref: u32 },
    /// The texture or its declaration is not a single plain two-dimensional image.
    Shape { texture_ref: u32 },
    /// The texture is also an attachment of the pass.
    AttachmentAlias { texture_ref: u32 },
    /// Its bytes could not be staged.
    Staging,
    /// No native format carries its texels.
    Format { texture_ref: u32 },
    /// The shader could not be specialised to the format.
    Specialization,
    /// The shader's write rounding could not be specialised.
    WriteRounding { stage: ShaderStage },
    /// The completed outputs do not match the staged textures.
    Output,
    /// A completed output could not be written back.
    Publication,
}

/// The native formats writable textures are created with.
#[derive(Clone, Copy, Debug, PartialEq, Eq, Structural)]
pub enum StorageImageFormat {
    R8Unorm,
    Rgba8Unorm,
    Bgra8Unorm,
    Rgba16Float,
    Rgba32Float,
    Other { number: u32 },
}

/// The dimensionality a shader declares for an image.
#[derive(Clone, Copy, Debug, PartialEq, Eq, Structural)]
pub enum ImageKind {
    D2,
    Other,
}

/// How a shader reaches a staged texture.
#[derive(Clone, Copy, Debug, PartialEq, Eq, Structural)]
pub enum GraphicsTextureAccess {
    Sampled,
    Storage,
}

/// One descriptor a staged texture is bound at.
#[derive(Clone, Copy, Debug, PartialEq, Eq, Structural)]
pub struct GraphicsTextureBinding {
    pub binding: u32,
    pub access: GraphicsTextureAccess,
    pub stage: ShaderStage,
}

/// The descriptor a shader declares for a texture index.
#[derive(Clone, Copy, Debug, PartialEq, Eq, Structural)]
pub struct StorageDescriptor {
    pub binding: u32,
    pub descriptor_count: u32,
    pub array_element: u32,
    pub access: TextureAccess,
    pub kind: ImageKind,
}

/// A reflected resource: whether it is a texture, and its descriptor where the
/// reflection states one.
#[derive(Clone, Copy, Debug)]
pub struct ReflectedResource {
    pub texture_kind: bool,
    pub index: u32,
    pub descriptor: Option<StorageDescriptor>,
}

/// One bound texture index of a draw.
#[derive(Clone, Copy, Debug)]
pub struct TextureBind {
    pub index: u32,
    pub texture_ref: u32,
}

/// What a texture descriptor says of its shape.
#[derive(Clone, Copy, Debug)]
pub struct TextureShape {
    pub mipmap_level_count: u32,
    pub depth: u32,
    pub sample_count: Option<u32>,
}

/// An object's list entry and decoded texture descriptor.
#[derive(Clone, Copy, Debug)]
pub struct TextureObject {
    /// The entry is a plain texture, with or without generated mipmaps.
    pub plain_texture: bool,
    /// The decoded descriptor, where it decodes.
    pub shape: Option<TextureShape>,
}

/// A texture's texels, staged for a draw.
pub struct StagedTexture {
    pub width: u32,
    pub height: u32,
    /// Bytes of one tightly packed row, where the format has a width.
    pub tight_row: Option<u32>,
    pub storage_format: Option<StorageImageFormat>,
    pub bytes: Vec<u8>,
    /// The texels come from a resident image rather than from guest bytes.
    pub resident_serve: bool,
    /// The live owner of the allocation.
    pub owner: Option<u64>,
    /// The pages the texels are written back to.
    pub writeback: Option<GuestPageFootprint>,
}

/// A staged texture and every descriptor it is bound at.
pub struct StorageTexture {
    pub reference: u32,
    pub staged: StagedTexture,
    pub bindings: Vec<GraphicsTextureBinding>,
}

/// The staged textures of one draw, by reference.
pub struct StorageTextures {
    pub textures: Vec<StorageTexture>,
}

/// The attachments of a pass that a writable texture must not be.
pub struct AttachmentRefs {
    pub colors: Vec<(u32, u32)>,
    pub depth: Option<(u32, u32)>,
    pub stencil: Option<(u32, u32)>,
}

/// What a texture's admission leads to.
#[derive(Clone, Copy, Debug, PartialEq, Eq, Structural)]
pub enum Admission {
    /// It is staged already.
    Held,
    /// Its bytes are to be staged.
    Stage,
}

/// The textures to stage in order, and the refusal that follows them.
pub struct StagePlan {
    pub adds: Vec<(u32, u32)>,
    pub refusal: Option<GraphicsStorageDecline>,
}

/// A single two-dimensional image.
pub open spec fn scalar_2d(descriptor: StorageDescriptor) -> bool {
    descriptor.descriptor_count == 1 && descriptor.array_element == 0 && descriptor.kind
        == ImageKind::D2
}

/// Whether a descriptor declares a single two-dimensional image.
pub fn is_scalar_2d(descriptor: StorageDescriptor) -> (r: bool)
    ensures
        r == scalar_2d(descriptor),
{
    descriptor.descriptor_count == 1 && descriptor.array_element == 0 && descriptor.kind
        == ImageKind::D2
}

/// A plain texture with one level, one layer and one sample.
pub open spec fn single_level(object: TextureObject) -> bool {
    object.plain_texture && (object.shape matches Some(shape) && shape.mipmap_level_count == 1
        && shape.depth == 1 && shape.sample_count == Some(1u32))
}

/// Whether an object is a plain texture with one level, one layer and one sample.
pub fn ordinary_single_level(object: TextureObject) -> (r: bool)
    ensures
        r == single_level(object),
{
    match object.shape {
        None => false,
        Some(shape) => {
            let single: bool = match shape.sample_count {
                Some(count) => count == 1,
                None => false,
            };
            object.plain_texture && shape.mipmap_level_count == 1 && shape.depth == 1 && single
        },
    }
}

/// The texture bound at an index: the first bind with it.
pub open spec fn bound_ref(binds: Seq<TextureBind>, index: u32) -> Option<u32>
    decreases binds.len(),
{
    if binds.len() == 0 {
        None
    } else if binds[0].index == index {
        Some(binds[0].texture_ref)
    } else {
        bound_ref(binds.skip(1), index)
    }
}

fn find_bound(binds: &Vec<TextureBind>, index: u32) -> (texture: Option<u32>)
    ensures
        texture == bound_ref(binds@, index),
{
    let mut n: usize = 0;
    assert(binds@.skip(0) =~= binds@);
    while n < binds.len()
        invariant
            0 <= n <= binds@.len(),
            bound_ref(binds@.skip(n as int), index) == bound_ref(binds@, index),
        decreases binds@.len() - n,
    {
        let bind: TextureBind = binds[n];
        if bind.index == index {
            return Some(bind.texture_ref);
        }
        assert(binds@.skip(n as int).skip(1) =~= binds@.skip(n + 1));
        n += 1;
    }
    None
}

/// What one reflected resource asks for: nothing, a texture to stage together
/// with its descriptor binding, or a refusal.
pub open spec fn demand(resource: ReflectedResource, binds: Seq<TextureBind>) -> Result<
    Option<(u32, u32)>,
    GraphicsStorageDecline,
> {
    if !resource.texture_kind {
        Ok(None)
    } else {
        match resource.descriptor {
            None => Err(GraphicsStorageDecline::Reflection { index: resource.index }),
            Some(descriptor) => match descriptor.access {
                TextureAccess::Sampled => Ok(None),
                TextureAccess::Unknown => Err(
                    GraphicsStorageDecline::Reflection { index: resource.index },
                ),
                TextureAccess::Storage => match bound_ref(binds, resource.index) {
                    None => Err(GraphicsStorageDecline::MissingTexture { texture_ref: 0 }),
                    Some(texture_ref) => if texture_ref == 0 {
                        Err(GraphicsStorageDecline::MissingTexture { texture_ref: 0 })
                    } else if !scalar_2d(descriptor) {
                        Err(GraphicsStorageDecline::Shape { texture_ref })
                    } else {
                        Ok(Some((texture_ref, descriptor.binding)))
                    },
                },
            },
        }
    }
}

/// The textures that the resources from `n` on ask for, behind those already
/// asked for, up to the first refusal.
pub open spec fn demands(
    resources: Seq<ReflectedResource>,
    binds: Seq<TextureBind>,
    n: int,
    adds: Seq<(u32, u32)>,
) -> (Seq<(u32, u32)>, Option<GraphicsStorageDecline>)
    decreases resources.len() - n,
{
    if n < 0 || n >= resources.len() {
        (adds, None)
    } else {
        match demand(resources[n], binds) {
            Err(refusal) => (adds, Some(refusal)),
            Ok(None) => demands(resources, binds, n + 1, adds),
            Ok(Some(add)) => demands(resources, binds, n + 1, adds.push(add)),
        }
    }
}

fn resource_demand(resource: ReflectedResource, binds: &Vec<TextureBind>) -> (r: Result<
    Option<(u32, u32)>,
    GraphicsStorageDecline,
>)
    ensures
        r == demand(resource, binds@),
{
    if !resource.texture_kind {
        return Ok(None);
    }
    let descriptor: StorageDescriptor = match resource.descriptor {
        Some(descriptor) => descriptor,
        None => {
            return Err(GraphicsStorageDecline::Reflection { index: resource.index });
        },
    };
    match descriptor.access {
        TextureAccess::Sampled => Ok(None),
        TextureAccess::Unknown => Err(
            GraphicsStorageDecline::Reflection { index: resource.index },
        ),
        TextureAccess::Storage => {
            let texture_ref: u32 = match find_bound(binds, resource.index) {
                Some(texture_ref) => texture_ref,
                None => 0,
            };
            if texture_ref == 0 {
                return Err(GraphicsStorageDecline::MissingTexture { texture_ref: 0 });
            }
            if !is_scalar_2d(descriptor) {
                return Err(GraphicsStorageDecline::Shape { texture_ref });
            }
            Ok(Some((texture_ref, descriptor.binding)))
        },
    }
}

fn add_demands(
    resources: &Vec<ReflectedResource>,
    binds: &Vec<TextureBind>,
    adds: &mut Vec<(u32, u32)>,
) -> (refusal: Option<GraphicsStorageDecline>)
    ensures
        demands(resources@, binds@, 0, old(adds)@) == (final(adds)@, refusal),
{
    let mut n: usize = 0;
    while n < resources.len()
        invariant
            0 <= n <= resources@.len(),
            demands(resources@, binds@, 0, old(adds)@) == demands(
                resources@,
                binds@,
                n as int,
                adds@,
            ),
        decreases resources@.len() - n,
    {
        match resource_demand(resources[n], binds) {
            Err(refusal) => {
                return Some(refusal);
            },
            Ok(None) => {},
            Ok(Some(add)) => {
                adds.push(add);
            },
        }
        n += 1;
    }
    None
}

/// The textures a draw writes, vertex stage first, and the refusal that follows
/// them. A texture is admitted and staged before the next one is looked at, so
/// the refusal counts only once every listed texture has been taken.
pub fn stage_plan(
    vertex: &Vec<ReflectedResource>,
    vertex_textures: &Vec<TextureBind>,
    fragment: &Vec<ReflectedResource>,
    fragment_textures: &Vec<TextureBind>,
) -> (plan: StagePlan)
    ensures
        ({
            let first = demands(vertex@, vertex_textures@, 0, Seq::empty());
            let second = demands(fragment@, fragment_textures@, 0, first.0);
            (plan.adds@, plan.refusal) == if first.1 is Some {
                first
            } else {
                second
            }
        }),
        forall|a: int|
            0 <= a < plan.adds@.len() ==> asked_by(
                vertex@,
                vertex_textures@,
                #[trigger] plan.adds@[a],
            ) || asked_by(fragment@, fragment_textures@, plan.adds@[a]),
        plan.refusal is None ==> (forall|r: int|
            0 <= r < vertex@.len() ==> planned_for(
                #[trigger] vertex@[r],
                vertex_textures@,
                plan.adds@,
            )) && (forall|r: int|
            0 <= r < fragment@.len() ==> planned_for(
                #[trigger] fragment@[r],
                fragment_textures@,
                plan.adds@,
            )),
{
    proof {
        lemma_demands(vertex@, vertex_textures@, 0, Seq::empty(), 0);
        let first = demands(vertex@, vertex_textures@, 0, Seq::empty());
        lemma_demands(fragment@, fragment_textures@, 0, first.0, first.0.len() as int);
        let second = demands(fragment@, fragment_textures@, 0, first.0);
        assert forall|r: int|
            first.1 is None && 0 <= r < vertex@.len() implies planned_for(
            #[trigger] vertex@[r],
            vertex_textures@,
            second.0,
        ) by {
            assert(planned_for(vertex@[r], vertex_textures@, first.0));
            if written_resource(vertex@[r]) {
                let a = choose|a: int|
                    0 <= a < first.0.len() && asks_for(
                        vertex@[r],
                        vertex_textures@,
                        #[trigger] first.0[a],
                    );
                assert(second.0[a] == first.0[a]);
            }
        }
        assert forall|a: int| 0 <= a < second.0.len() implies asked_by(
            vertex@,
            vertex_textures@,
            #[trigger] second.0[a],
        ) || asked_by(fragment@, fragment_textures@, second.0[a]) by {
            if a < first.0.len() {
                assert(second.0[a] == first.0[a]);
            }
        }
    }
    let mut adds: Vec<(u32, u32)> = Vec::new();
    let mut refusal: Option<GraphicsStorageDecline> = add_demands(
        vertex,
        vertex_textures,
        &mut adds,
    );
    if refusal.is_none() {
        refusal = add_demands(fragment, fragment_textures, &mut adds);
    }
    StagePlan { adds, refusal }
}

/// The texture is named by an attachment, as its texture or as the other end of
/// its resolve.
pub open spec fn is_attachment(attachments: AttachmentRefs, texture_ref: u32) -> bool {
    ||| exists|k: int|
        0 <= k < attachments.colors@.len() && ((#[trigger] attachments.colors@[k]).0 == texture_ref
            || attachments.colors@[k].1 == texture_ref)
    ||| attachments.depth matches Some(a) && (a.0 == texture_ref || a.1 == texture_ref)
    ||| attachments.stencil matches Some(a) && (a.0 == texture_ref || a.1 == texture_ref)
}

impl AttachmentRefs {
    /// Whether the texture is named by an attachment.
    pub fn names(&self, texture_ref: u32) -> (r: bool)
        ensures
            r == is_attachment(*self, texture_ref),
    {
        let mut n: usize = 0;
        while n < self.colors.len()
            invariant
                0 <= n <= self.colors@.len(),
                forall|k: int|
                    0 <= k < n ==> (#[trigger] self.colors@[k]).0 != texture_ref
                        && self.colors@[k].1 != texture_ref,
            decreases self.colors@.len() - n,
        {
            if self.colors[n].0 == texture_ref || self.colors[n].1 == texture_ref {
                return true;
            }
            n += 1;
        }
        if let Some(a) = self.depth {
            if a.0 == texture_ref || a.1 == texture_ref {
                return true;
            }
        }
        match self.stencil {
            Some(a) => a.0 == texture_ref || a.1 == texture_ref,
            None => false,
        }
    }
}

/// What a texture's admission leads to, before anything is staged.
pub open spec fn admission(
    held: bool,
    attachments: AttachmentRefs,
    texture_ref: u32,
    object: Option<TextureObject>,
) -> Result<Admission, GraphicsStorageDecline> {
    if held {
        Ok(Admission::Held)
    } else if is_attachment(attachments, texture_ref) {
        Err(GraphicsStorageDecline::AttachmentAlias { texture_ref })
    } else {
        match object {
            None => Err(GraphicsStorageDecline::MissingTexture { texture_ref }),
            Some(object) => if single_level(object) {
                Ok(Admission::Stage)
            } else {
                Err(GraphicsStorageDecline::Shape { texture_ref })
            },
        }
    }
}

/// What binding one texture index of a held texture does to its bindings: an
/// undeclared index binds nothing.
pub open spec fn bound_access(
    texture_ref: u32,
    index: u32,
    descriptor: Option<StorageDescriptor>,
) -> Result<Option<GraphicsTextureAccess>, GraphicsStorageDecline> {
    match descriptor {
        None => Ok(None),
        Some(d) => if !scalar_2d(d) {
            Err(GraphicsStorageDecline::Shape { texture_ref })
        } else {
            match d.access {
                TextureAccess::Sampled => Ok(Some(GraphicsTextureAccess::Sampled)),
                TextureAccess::Storage => Ok(Some(GraphicsTextureAccess::Storage)),
                TextureAccess::Unknown => Err(GraphicsStorageDecline::Reflection { index }),
            }
        },
    }
}

/// The descriptors a texture is bound at once an index has been bound.
pub open spec fn with_binding(
    before: Seq<GraphicsTextureBinding>,
    access: Option<GraphicsTextureAccess>,
    binding: u32,
    stage: ShaderStage,
) -> Seq<GraphicsTextureBinding> {
    match access {
        None => before,
        Some(access) => before.push(GraphicsTextureBinding { binding, access, stage }),
    }
}

/// How many bytes a completed texture has, where that is known.
pub open spec fn completed_len(staged: StagedTexture) -> Option<int> {
    match staged.tight_row {
        None => None,
        Some(row) => if row * staged.height <= usize::MAX {
            Some(row * staged.height)
        } else {
            None
        },
    }
}

/// The output is exactly one tightly packed copy of the texture.
pub open spec fn output_fits(staged: StagedTexture, output: Seq<u8>) -> bool {
    completed_len(staged) == Some(output.len() as int)
}

/// The texture, holding a completed output.
pub open spec fn holding(texture: StorageTexture, output: Vec<u8>) -> StorageTexture {
    StorageTexture { staged: StagedTexture { bytes: output, ..texture.staged }, ..texture }
}

/// How many textures, from `n` on, take an output that fits and are written back,
/// without a break. `writes` says of each texture whether its write goes through.
pub open spec fn published(
    textures: Seq<StorageTexture>,
    outputs: Seq<Vec<u8>>,
    writes: Seq<bool>,
    n: int,
) -> int
    decreases textures.len() - n,
{
    if n < 0 || n >= textures.len() || !output_fits(textures[n].staged, outputs[n]@)
        || !writes[n] {
        n
    } else {
        published(textures, outputs, writes, n + 1)
    }
}

/// How many textures were written back, and the refusal that follows them.
#[derive(Clone, Copy, Debug, PartialEq, Eq)]
pub struct PublishOutcome {
    pub written: usize,
    pub refusal: Option<GraphicsStorageDecline>,
}

impl StorageTextures {
    /// References are listed once, in ascending order.
    pub open spec fn ordered(self) -> bool {
        forall|i: int, j: int|
            0 <= i < j < self.textures@.len() ==> (#[trigger] self.textures@[i]).reference < (
            #[trigger] self.textures@[j]).reference
    }

    /// The texture is staged.
    pub open spec fn holds(self, texture_ref: u32) -> bool {
        exists|k: int|
            0 <= k < self.textures@.len() && (#[trigger] self.textures@[k]).reference == texture_ref
    }

    /// No texture is staged.
    pub fn new() -> (textures: StorageTextures)
        ensures
            textures.textures@.len() == 0,
            textures.ordered(),
    {
        StorageTextures { textures: Vec::new() }
    }

    /// Whether no texture is staged.
    pub fn is_empty(&self) -> (r: bool)
        ensures
            r == (self.textures@.len() == 0),
    {
        self.textures.len() == 0
    }

    fn position(&self, texture_ref: u32) -> (at: usize)
        requires
            self.ordered(),
        ensures
            at <= self.textures@.len(),
            forall|k: int| 0 <= k < at ==> (#[trigger] self.textures@[k]).reference < texture_ref,
            forall|k: int|
                at <= k < self.textures@.len() ==> (#[trigger] self.textures@[k]).reference
                    >= texture_ref,
    {
        let mut n: usize = 0;
        while n < self.textures.len()
            invariant
                0 <= n <= self.textures@.len(),
                self.ordered(),
                forall|k: int|
                    0 <= k < n ==> (#[trigger] self.textures@[k]).reference < texture_ref,
            decreases self.textures@.len() - n,
        {
            if self.textures[n].reference >= texture_ref {
                return n;
            }
            n += 1;
        }
        n
    }

    /// Whether the texture is staged.
    pub fn contains(&self, texture_ref: u32) -> (r: bool)
        requires
            self.ordered(),
        ensures
            r == self.holds(texture_ref),
    {
        let at: usize = self.position(texture_ref);
        if at < self.textures.len() && self.textures[at].reference == texture_ref {
            true
        } else {
            assert forall|k: int|
                0 <= k < self.textures@.len() implies (#[trigger] self.textures@[k]).reference
                != texture_ref by {
                if k > at {
                    assert(self.textures@[at as int].reference < self.textures@[k].reference);
                }
            }
            false
        }
    }

    /// Whether a texture is to be staged, asked before its bytes are touched.
    pub fn add(
        &self,
        attachments: &AttachmentRefs,
        texture_ref: u32,
        object: Option<TextureObject>,
    ) -> (r: Result<Admission, GraphicsStorageDecline>)
        requires
            self.ordered(),
        ensures
            r == admission(self.holds(texture_ref), *attachments, texture_ref, object),
    {
        if self.contains(texture_ref) {
            return Ok(Admission::Held);
        }
        if attachments.names(texture_ref) {
            return Err(GraphicsStorageDecline::AttachmentAlias { texture_ref });
        }
        match object {
            None => Err(GraphicsStorageDecline::MissingTexture { texture_ref }),
            Some(object) => if ordinary_single_level(object) {
                Ok(Admission::Stage)
            } else {
                Err(GraphicsStorageDecline::Shape { texture_ref })
            },
        }
    }

    /// Takes the staged bytes of an admitted texture, or reports that staging
    /// failed or that no native format carries them.
    pub fn take_staged(&mut self, texture_ref: u32, staged: Option<StagedTexture>) -> (r: Result<
        (),
        GraphicsStorageDecline,
    >)
        requires
            old(self).ordered(),
            !old(self).holds(texture_ref),
        ensures
            final(self).ordered(),
            match staged {
                None => {
                    &&& r == Err::<(), GraphicsStorageDecline>(GraphicsStorageDecline::Staging)
                    &&& final(self).textures@ == old(self).textures@
                },
                Some(texture) => if texture.storage_format is None {
                    &&& r == Err::<(), GraphicsStorageDecline>(
                        GraphicsStorageDecline::Format { texture_ref },
                    )
                    &&& final(self).textures@ == old(self).textures@
                } else {
                    &&& r is Ok
                    &&& exists|at: int|
                        0 <= at <= old(self).textures@.len() && {
                            &&& #[trigger] final(self).textures@.remove(at)
                                == old(self).textures@
                            &&& at < final(self).textures@.len()
                            &&& final(self).textures@[at].reference == texture_ref
                            &&& final(self).textures@[at].staged == texture
                            &&& final(self).textures@[at].bindings@.len() == 0
                        }
                },
            },
    {
        let staged: StagedTexture = match staged {
            None => {
                return Err(GraphicsStorageDecline::Staging);
            },
            Some(staged) => staged,
        };
        if staged.storage_format.is_none() {
            return Err(GraphicsStorageDecline::Format { texture_ref });
        }
        let at: usize = self.position(texture_ref);
        let ghost before = self.textures@;
        self.textures.insert(
            at,
            StorageTexture { reference: texture_ref, staged, bindings: Vec::new() },
        );
        proof {
            let after = self.textures@;
            assert(after.remove(at as int) =~= before);
            assert forall|i: int, j: int| 0 <= i < j < after.len() implies (
            #[trigger] after[i]).reference < (#[trigger] after[j]).reference by {
                if i < at {
                    assert(after[i] == before[i]);
                }
                if i > at {
                    assert(after[i] == before[i - 1]);
                }
                if j < at {
                    assert(after[j] == before[j]);
                }
                if j > at {
                    assert(after[j] == before[j - 1]);
                    assert(old(self).textures@[j - 1].reference != texture_ref);
                }
            }
        }
        Ok(())
    }

    /// Binds a texture index to a staged texture, so that a read of it sees the
    /// writable image rather than a snapshot taken before the draw. Answers
    /// whether the texture is staged at all; an index the shader does not
    /// declare is a sticky table slot and binds nothing.
    pub fn bind(
        &mut self,
        texture_ref: u32,
        index: u32,
        descriptor: Option<StorageDescriptor>,
        binding: u32,
        fragment: bool,
    ) -> (r: Result<bool, GraphicsStorageDecline>)
        requires
            old(self).ordered(),
        ensures
            final(self).ordered(),
            final(self).textures@.len() == old(self).textures@.len(),
            !old(self).holds(texture_ref) ==> r == Ok::<bool, GraphicsStorageDecline>(false)
                && final(self).textures@ == old(self).textures@,
            old(self).holds(texture_ref) ==> match bound_access(texture_ref, index, descriptor) {
                Err(refusal) => r == Err::<bool, GraphicsStorageDecline>(refusal)
                    && final(self).textures@ == old(self).textures@,
                Ok(access) => {
                    let stage = if fragment {
                        ShaderStage::Fragment
                    } else {
                        ShaderStage::Vertex
                    };
                    &&& r == Ok::<bool, GraphicsStorageDecline>(true)
                    &&& forall|k: int|
                        0 <= k < old(self).textures@.len() ==> {
                            let was = old(self).textures@[k];
                            let is = #[trigger] final(self).textures@[k];
                            &&& is.reference == was.reference
                            &&& is.staged == was.staged
                            &&& is.bindings@ == if was.reference == texture_ref {
                                with_binding(was.bindings@, access, binding, stage)
                            } else {
                                was.bindings@
                            }
                        }
                },
            },
    {
        let at: usize = self.position(texture_ref);
        if at >= self.textures.len() || self.textures[at].reference != texture_ref {
            assert forall|k: int|
                0 <= k < self.textures@.len() implies (#[trigger] self.textures@[k]).reference
                != texture_ref by {
                if k > at {
                    assert(self.textures@[at as int].reference < self.textures@[k].reference);
                }
            }
            return Ok(false);
        }
        assert(self.textures@[at as int].reference == texture_ref);
        let descriptor: StorageDescriptor = match descriptor {
            None => {
                return Ok(true);
            },
            Some(descriptor) => descriptor,
        };
        if !is_scalar_2d(descriptor) {
            return Err(GraphicsStorageDecline::Shape { texture_ref });
        }
        let access: GraphicsTextureAccess = match descriptor.access {
            TextureAccess::Sampled => GraphicsTextureAccess::Sampled,
            TextureAccess::Storage => GraphicsTextureAccess::Storage,
            TextureAccess::Unknown => {
                return Err(GraphicsStorageDecline::Reflection { index });
            },
        };
        let stage: ShaderStage = if fragment {
            ShaderStage::Fragment
        } else {
            ShaderStage::Vertex
        };
        let texture: &mut StorageTexture = &mut self.textures[at];
        texture.bindings.push(GraphicsTextureBinding { binding, access, stage });
        Ok(true)
    }

    /// Whether there is one output for every texture.
    pub fn outputs_match(&self, outputs: usize) -> (r: Result<(), GraphicsStorageDecline>)
        ensures
            r == if outputs == self.textures@.len() {
                Ok::<(), GraphicsStorageDecline>(())
            } else {
                Err(GraphicsStorageDecline::Output)
            },
    {
        if outputs == self.textures.len() {
            Ok(())
        } else {
            Err(GraphicsStorageDecline::Output)
        }
    }

    /// Hands a texture its completed output, if it is exactly one tightly packed
    /// copy. No other texture changes.
    pub fn take_output(&mut self, n: usize, output: Vec<u8>) -> (r: Result<
        (),
        GraphicsStorageDecline,
    >)
        requires
            n < old(self).textures@.len(),
        ensures
            if output_fits(old(self).textures@[n as int].staged, output@) {
                &&& r == Ok::<(), GraphicsStorageDecline>(())
                &&& final(self).textures@ == old(self).textures@.update(
                    n as int,
                    holding(old(self).textures@[n as int], output),
                )
            } else {
                &&& r == Err::<(), GraphicsStorageDecline>(GraphicsStorageDecline::Output)
                &&& final(self).textures@ == old(self).textures@
            },
    {
        let fits: bool = match self.textures[n].staged.tight_row {
            None => false,
            Some(row) => {
                let height: u32 = self.textures[n].staged.height;
                assert(row * height <= u64::MAX) by (nonlinear_arith)
                    requires
                        row <= u32::MAX,
                        height <= u32::MAX,
                ;
                let expected: u64 = row as u64 * height as u64;
                expected <= usize::MAX as u64 && expected == output.len() as u64
            },
        };
        if !fits {
            return Err(GraphicsStorageDecline::Output);
        }
        let texture: &mut StorageTexture = &mut self.textures[n];
        texture.staged.bytes = output;
        assert(self.textures@ =~= old(self).textures@.update(
            n as int,
            holding(old(self).textures@[n as int], output),
        ));
        Ok(())
    }

    /// Publishes the completed outputs, texture by texture: each takes its output
    /// and is written back. A wrong number of outputs publishes nothing; a wrong
    /// length ends it before that texture takes its output, a failed write behind
    /// it. `writes` says how each write goes, if it comes to that.
    pub fn publish(&mut self, outputs: Vec<Vec<u8>>, writes: &Vec<bool>) -> (r: PublishOutcome)
        requires
            writes@.len() == old(self).textures@.len(),
        ensures
            final(self).textures@.len() == old(self).textures@.len(),
            outputs@.len() != old(self).textures@.len() ==> r.written == 0 && r.refusal == Some(
                GraphicsStorageDecline::Output,
            ) && final(self).textures@ == old(self).textures@,
            outputs@.len() == old(self).textures@.len() ==> {
                let textures = old(self).textures@;
                let n = published(textures, outputs@, writes@, 0);
                &&& r.written == n
                &&& r.refusal == if n == textures.len() {
                    None::<GraphicsStorageDecline>
                } else if output_fits(textures[n].staged, outputs@[n]@) {
                    Some(GraphicsStorageDecline::Publication)
                } else {
                    Some(GraphicsStorageDecline::Output)
                }
                &&& forall|k: int|
                    0 <= k < textures.len() ==> #[trigger] final(self).textures@[k] == if k < n || (
                    k == n && output_fits(textures[k].staged, outputs@[k]@)) {
                        holding(textures[k], outputs@[k])
                    } else {
                        textures[k]
                    }
            },
    {
        if self.outputs_match(outputs.len()).is_err() {
            return PublishOutcome { written: 0, refusal: Some(GraphicsStorageDecline::Output) };
        }
        let ghost given = outputs@;
        let ghost before = self.textures@;
        let mut rest: Vec<Vec<u8>> = outputs;
        let mut n: usize = 0;
        while n < self.textures.len()
            invariant
                0 <= n <= self.textures@.len(),
                before == old(self).textures@,
                given == outputs@,
                self.textures@.len() == before.len(),
                given.len() == before.len(),
                writes@.len() == before.len(),
                rest@ == given.skip(n as int),
                published(before, given, writes@, 0) == published(before, given, writes@, n as int),
                forall|k: int|
                    0 <= k < before.len() ==> #[trigger] self.textures@[k] == if k < n {
                        holding(before[k], given[k])
                    } else {
                        before[k]
                    },
            decreases self.textures@.len() - n,
        {
            assert(self.textures@[n as int] == before[n as int]);
            let output: Vec<u8> = rest.remove(0);
            assert(output == given[n as int]);
            if let Err(refusal) = self.take_output(n, output) {
                return PublishOutcome { written: n, refusal: Some(refusal) };
            }
            if !writes[n] {
                return PublishOutcome {
                    written: n,
                    refusal: Some(GraphicsStorageDecline::Publication),
                };
            }
            assert(rest@ =~= given.skip(n + 1));
            n += 1;
        }
        PublishOutcome { written: n, refusal: None }
    }
}

/// A staged texture as a draw request carries it.
pub struct GraphicsStorageTexture {
    pub format: StorageImageFormat,
    pub width: u32,
    pub height: u32,
    pub bytes: Vec<u8>,
    pub bindings: Vec<GraphicsTextureBinding>,
}

/// The number SPIR-V gives an image format that the module leaves open.
pub const IMAGE_FORMAT_UNKNOWN: u32 = 0;

/// What is known of one binding once its shader has been asked: whether the
/// reflection declares a format, the SPIR-V format the image specialises to,
/// the native format that one stands for, and whether the module took it.
#[derive(Clone, Copy, Debug)]
pub struct FormatAnswer {
    pub declared: bool,
    pub specialized: Option<u32>,
    pub native: Option<StorageImageFormat>,
    pub applied: bool,
}

/// Why a binding's shader cannot write the texture in its own format. A module
/// format that stands for anything but the texture's own is refused, never
/// reinterpreted.
pub open spec fn format_refusal(
    texture_ref: u32,
    format: StorageImageFormat,
    binding: GraphicsTextureBinding,
    answer: FormatAnswer,
) -> Option<GraphicsStorageDecline> {
    if binding.access != GraphicsTextureAccess::Storage {
        None
    } else if !answer.declared || answer.specialized is None {
        Some(GraphicsStorageDecline::Format { texture_ref })
    } else if answer.specialized != Some(IMAGE_FORMAT_UNKNOWN) && answer.native != Some(format) {
        Some(GraphicsStorageDecline::Format { texture_ref })
    } else if !answer.applied {
        Some(GraphicsStorageDecline::Specialization)
    } else {
        None
    }
}

/// The first refusal among a texture's bindings from `n` on.
pub open spec fn bindings_refusal(
    texture_ref: u32,
    format: StorageImageFormat,
    bindings: Seq<GraphicsTextureBinding>,
    answers: Seq<FormatAnswer>,
    n: int,
) -> Option<GraphicsStorageDecline>
    decreases bindings.len() - n,
{
    if n < 0 || n >= bindings.len() {
        None
    } else {
        match format_refusal(texture_ref, format, bindings[n], answers[n]) {
            Some(refusal) => Some(refusal),
            None => bindings_refusal(texture_ref, format, bindings, answers, n + 1),
        }
    }
}

/// Why a texture cannot be handed to the draw.
pub open spec fn texture_refusal(texture: StorageTexture, answers: Seq<FormatAnswer>) -> Option<
    GraphicsStorageDecline,
> {
    match texture.staged.storage_format {
        None => Some(GraphicsStorageDecline::Format { texture_ref: texture.reference }),
        Some(format) => bindings_refusal(
            texture.reference,
            format,
            texture.bindings@,
            answers,
            0,
        ),
    }
}

/// How many textures from `n` on are handed over before the first refusal.
pub open spec fn handed_over(
    textures: Seq<StorageTexture>,
    answers: Seq<Vec<FormatAnswer>>,
    n: int,
) -> int
    decreases textures.len() - n,
{
    if n < 0 || n >= textures.len() || texture_refusal(textures[n], answers[n]@) is Some {
        n
    } else {
        handed_over(textures, answers, n + 1)
    }
}

fn check_bindings(
    texture_ref: u32,
    format: StorageImageFormat,
    bindings: &Vec<GraphicsTextureBinding>,
    answers: &Vec<FormatAnswer>,
) -> (refusal: Option<GraphicsStorageDecline>)
    requires
        bindings@.len() == answers@.len(),
    ensures
        refusal == bindings_refusal(texture_ref, format, bindings@, answers@, 0),
{
    let mut n: usize = 0;
    while n < bindings.len()
        invariant
            0 <= n <= bindings@.len(),
            bindings@.len() == answers@.len(),
            bindings_refusal(texture_ref, format, bindings@, answers@, 0) == bindings_refusal(
                texture_ref,
                format,
                bindings@,
                answers@,
                n as int,
            ),
        decreases bindings@.len() - n,
    {
        let answer: FormatAnswer = answers[n];
        if bindings[n].access == GraphicsTextureAccess::Storage {
            let specialized: u32 = match answer.specialized {
                Some(specialized) => specialized,
                None => {
                    return Some(GraphicsStorageDecline::Format { texture_ref });
                },
            };
            if !answer.declared {
                return Some(GraphicsStorageDecline::Format { texture_ref });
            }
            let own: bool = match answer.native {
                Some(native) => native == format,
                None => false,
            };
            if specialized != IMAGE_FORMAT_UNKNOWN && !own {
                return Some(GraphicsStorageDecline::Format { texture_ref });
            }
            if !answer.applied {
                return Some(GraphicsStorageDecline::Specialization);
            }
        }
        n += 1;
    }
    None
}

fn copy_bindings(bindings: &Vec<GraphicsTextureBinding>) -> (copy: Vec<GraphicsTextureBinding>)
    ensures
        copy@ == bindings@,
{
    let mut copy: Vec<GraphicsTextureBinding> = Vec::with_capacity(bindings.len());
    let mut n: usize = 0;
    while n < bindings.len()
        invariant
            0 <= n <= bindings@.len(),
            copy@ == bindings@.take(n as int),
        decreases bindings@.len() - n,
    {
        copy.push(bindings[n]);
        n += 1;
        assert(copy@ =~= bindings@.take(n as int));
    }
    assert(copy@ =~= bindings@);
    copy
}

impl GraphicsTextureBinding {
    /// The binding as the stage's own shader declares it.
    pub open spec fn declared_binding(self) -> int {
        if self.stage == ShaderStage::Fragment {
            self.binding - FRAG_SAMPLED_RESOURCE_BINDING_OFFSET
        } else {
            self.binding as int
        }
    }

    /// The binding as the stage's own shader declares it, before fragment
    /// resources moved out of the vertex range.
    pub fn raw(&self) -> (binding: u32)
        requires
            self.declared_binding() >= 0,
        ensures
            binding == self.declared_binding(),
    {
        if self.stage == ShaderStage::Fragment {
            self.binding - FRAG_SAMPLED_RESOURCE_BINDING_OFFSET
        } else {
            self.binding
        }
    }
}

impl StorageTextures {
    /// The textures as the draw request carries them, in reference order. The
    /// bytes move out with them; a refusal leaves the textures behind it as
    /// they were.
    pub fn hand_over(&mut self, answers: &Vec<Vec<FormatAnswer>>) -> (r: Result<
        Vec<GraphicsStorageTexture>,
        GraphicsStorageDecline,
    >)
        requires
            old(self).textures@.len() == answers@.len(),
            forall|k: int|
                0 <= k < answers@.len() ==> (#[trigger] answers@[k])@.len() == old(
                    self,
                ).textures@[k].bindings@.len(),
        ensures
            final(self).textures@.len() == old(self).textures@.len(),
            ({
                let moved = handed_over(old(self).textures@, answers@, 0);
                &&& forall|k: int|
                    0 <= k < old(self).textures@.len() ==> {
                        let was = old(self).textures@[k];
                        let is = #[trigger] final(self).textures@[k];
                        &&& is.reference == was.reference
                        &&& is.bindings == was.bindings
                        &&& k >= moved ==> is == was
                        &&& k < moved ==> is.staged.bytes@.len() == 0 && is.staged == (
                        StagedTexture { bytes: is.staged.bytes, ..was.staged })
                    }
                &&& if moved < old(self).textures@.len() {
                    r matches Err(e) && Some(e) == texture_refusal(
                        old(self).textures@[moved],
                        answers@[moved]@,
                    )
                } else {
                    r matches Ok(list) && list@.len() == old(self).textures@.len() && forall|k: int|
                        0 <= k < list@.len() ==> {
                            let was = old(self).textures@[k];
                            let is = #[trigger] list@[k];
                            &&& Some(is.format) == was.staged.storage_format
                            &&& is.width == was.staged.width
                            &&& is.height == was.staged.height
                            &&& is.bytes == was.staged.bytes
                            &&& is.bindings@ == was.bindings@
                        }
                }
            }),
    {
        let ghost before = self.textures@;
        let mut list: Vec<GraphicsStorageTexture> = Vec::with_capacity(self.textures.len());
        let mut n: usize = 0;
        while n < self.textures.len()
            invariant
                0 <= n <= self.textures@.len(),
                before == old(self).textures@,
                self.textures@.len() == before.len(),
                before.len() == answers@.len(),
                forall|k: int|
                    0 <= k < answers@.len() ==> (#[trigger] answers@[k])@.len()
                        == before[k].bindings@.len(),
                list@.len() == n,
                handed_over(before, answers@, 0) == handed_over(before, answers@, n as int),
                forall|k: int|
                    0 <= k < before.len() ==> {
                        let is = #[trigger] self.textures@[k];
                        &&& is.reference == before[k].reference
                        &&& is.bindings == before[k].bindings
                        &&& k >= n ==> is == before[k]
                        &&& k < n ==> is.staged.bytes@.len() == 0 && is.staged == (StagedTexture {
                            bytes: is.staged.bytes,
                            ..before[k].staged
                        })
                    },
                forall|k: int|
                    0 <= k < n ==> {
                        let is = #[trigger] list@[k];
                        &&& Some(is.format) == before[k].staged.storage_format
                        &&& is.width == before[k].staged.width
                        &&& is.height == before[k].staged.height
                        &&& is.bytes == before[k].staged.bytes
                        &&& is.bindings@ == before[k].bindings@
                    },
            decreases self.textures@.len() - n,
        {
            assert(self.textures@[n as int] == before[n as int]);
            assert(answers@[n as int]@.len() == before[n as int].bindings@.len());
            let texture_ref: u32 = self.textures[n].reference;
            let format: StorageImageFormat = match self.textures[n].staged.storage_format {
                Some(format) => format,
                None => {
                    return Err(GraphicsStorageDecline::Format { texture_ref });
                },
            };
            if let Some(refusal) = check_bindings(
                texture_ref,
                format,
                &self.textures[n].bindings,
                &answers[n],
            ) {
                return Err(refusal);
            }
            let bindings: Vec<GraphicsTextureBinding> = copy_bindings(&self.textures[n].bindings);
            let texture: &mut StorageTexture = &mut self.textures[n];
            let mut bytes: Vec<u8> = Vec::new();
            std::mem::swap(&mut bytes, &mut texture.staged.bytes);
            list.push(
                GraphicsStorageTexture {
                    format,
                    width: texture.staged.width,
                    height: texture.staged.height,
                    bytes,
                    bindings,
                },
            );
            n += 1;
        }
        Ok(list)
    }
}

/// The binding writes the texture from the stage.
pub open spec fn writes_from(binding: GraphicsTextureBinding, stage: ShaderStage) -> bool {
    binding.stage == stage && binding.access == GraphicsTextureAccess::Storage
}

/// The bindings from `n` on that write from the stage, behind those found.
pub open spec fn writers(
    bindings: Seq<GraphicsTextureBinding>,
    stage: ShaderStage,
    n: int,
    found: Seq<u32>,
) -> Seq<u32>
    decreases bindings.len() - n,
{
    if n < 0 || n >= bindings.len() {
        found
    } else if writes_from(bindings[n], stage) {
        writers(bindings, stage, n + 1, found.push(bindings[n].binding))
    } else {
        writers(bindings, stage, n + 1, found)
    }
}

/// The bindings that write a normalized texture with swapped channels.
pub open spec fn normalized_targets(
    textures: Seq<GraphicsStorageTexture>,
    stage: ShaderStage,
    n: int,
    found: Seq<u32>,
) -> Seq<u32>
    decreases textures.len() - n,
{
    if n < 0 || n >= textures.len() {
        found
    } else if textures[n].format == StorageImageFormat::Bgra8Unorm {
        normalized_targets(
            textures,
            stage,
            n + 1,
            writers(textures[n].bindings@, stage, 0, found),
        )
    } else {
        normalized_targets(textures, stage, n + 1, found)
    }
}

/// Some binding of some texture writes from the stage.
pub open spec fn stage_writes(textures: Seq<GraphicsStorageTexture>, stage: ShaderStage) -> bool {
    exists|i: int, j: int|
        0 <= i < textures.len() && 0 <= j < textures[i].bindings@.len() && writes_from(
            #[trigger] textures[i].bindings@[j],
            stage,
        )
}

fn add_writers(bindings: &Vec<GraphicsTextureBinding>, stage: ShaderStage, found: &mut Vec<u32>)
    ensures
        final(found)@ == writers(bindings@, stage, 0, old(found)@),
{
    let mut n: usize = 0;
    while n < bindings.len()
        invariant
            0 <= n <= bindings@.len(),
            writers(bindings@, stage, 0, old(found)@) == writers(
                bindings@,
                stage,
                n as int,
                found@,
            ),
        decreases bindings@.len() - n,
    {
        if bindings[n].stage == stage && bindings[n].access == GraphicsTextureAccess::Storage {
            found.push(bindings[n].binding);
        }
        n += 1;
    }
}

fn any_writer(bindings: &Vec<GraphicsTextureBinding>, stage: ShaderStage) -> (r: bool)
    ensures
        r == exists|j: int| 0 <= j < bindings@.len() && writes_from(#[trigger] bindings@[j], stage),
{
    let mut n: usize = 0;
    while n < bindings.len()
        invariant
            0 <= n <= bindings@.len(),
            forall|j: int| 0 <= j < n ==> !writes_from(#[trigger] bindings@[j], stage),
        decreases bindings@.len() - n,
    {
        if bindings[n].stage == stage && bindings[n].access == GraphicsTextureAccess::Storage {
            assert(writes_from(bindings@[n as int], stage));
            return true;
        }
        n += 1;
    }
    false
}

/// The bindings whose writes a stage's module must round as normalized, or
/// nothing when the stage writes no texture and keeps its module. Swapped
/// channels have no image format of their own in a module; every other format
/// is in its image type already.
pub fn write_rounding_targets(
    textures: &Vec<GraphicsStorageTexture>,
    stage: ShaderStage,
) -> (targets: Option<Vec<u32>>)
    ensures
        targets is Some <==> stage_writes(textures@, stage),
        targets matches Some(list) ==> list@ == normalized_targets(
            textures@,
            stage,
            0,
            Seq::empty(),
        ),
{
    let mut writes: bool = false;
    let mut list: Vec<u32> = Vec::new();
    let mut n: usize = 0;
    while n < textures.len()
        invariant
            0 <= n <= textures@.len(),
            writes == exists|i: int, j: int|
                0 <= i < n && 0 <= j < textures@[i].bindings@.len() && writes_from(
                    #[trigger] textures@[i].bindings@[j],
                    stage,
                ),
            normalized_targets(textures@, stage, 0, Seq::empty()) == normalized_targets(
                textures@,
                stage,
                n as int,
                list@,
            ),
        decreases textures@.len() - n,
    {
        if any_writer(&textures[n].bindings, stage) {
            writes = true;
        }
        if textures[n].format == StorageImageFormat::Bgra8Unorm {
            add_writers(&textures[n].bindings, stage, &mut list);
        }
        n += 1;
    }
    if writes {
        Some(list)
    } else {
        None
    }
}

/// How rounding each stage's writes goes, if it is asked for.
#[derive(Clone, Copy, Debug, PartialEq, Eq, Structural)]
pub struct RoundingAnswers {
    pub vertex: bool,
    pub fragment: bool,
}

/// The stage whose writes are rounded next: the vertex stage before the fragment
/// stage, and only one that writes some texture.
pub open spec fn rounding_after(
    textures: Seq<GraphicsStorageTexture>,
    done: Option<ShaderStage>,
) -> Option<ShaderStage> {
    if done is None && stage_writes(textures, ShaderStage::Vertex) {
        Some(ShaderStage::Vertex)
    } else if done != Some(ShaderStage::Fragment) && stage_writes(textures, ShaderStage::Fragment) {
        Some(ShaderStage::Fragment)
    } else {
        None
    }
}

/// Why the shaders' writes cannot be rounded: the first stage that is asked and
/// fails.
pub open spec fn rounding_refusal(
    textures: Seq<GraphicsStorageTexture>,
    answers: RoundingAnswers,
) -> Option<GraphicsStorageDecline> {
    if stage_writes(textures, ShaderStage::Vertex) && !answers.vertex {
        Some(GraphicsStorageDecline::WriteRounding { stage: ShaderStage::Vertex })
    } else if stage_writes(textures, ShaderStage::Fragment) && !answers.fragment {
        Some(GraphicsStorageDecline::WriteRounding { stage: ShaderStage::Fragment })
    } else {
        None
    }
}

/// The stage whose writes are rounded next, and the bindings its module is told
/// are normalized.
pub fn next_rounding(textures: &Vec<GraphicsStorageTexture>, done: Option<ShaderStage>) -> (next:
    Option<(ShaderStage, Vec<u32>)>)
    ensures
        match rounding_after(textures@, done) {
            None => next is None,
            Some(stage) => next matches Some((s, targets)) && s == stage && targets@
                == normalized_targets(textures@, stage, 0, Seq::empty()),
        },
{
    if done.is_none() {
        if let Some(targets) = write_rounding_targets(textures, ShaderStage::Vertex) {
            return Some((ShaderStage::Vertex, targets));
        }
    }
    let over: bool = match done {
        Some(stage) => stage == ShaderStage::Fragment,
        None => false,
    };
    if !over {
        if let Some(targets) = write_rounding_targets(textures, ShaderStage::Fragment) {
            return Some((ShaderStage::Fragment, targets));
        }
    }
    None
}

/// What rounding a stage's writes answers.
pub fn rounded(stage: ShaderStage, specialized: bool) -> (r: Result<(), GraphicsStorageDecline>)
    ensures
        r == if specialized {
            Ok::<(), GraphicsStorageDecline>(())
        } else {
            Err(GraphicsStorageDecline::WriteRounding { stage })
        },
{
    if specialized {
        Ok(())
    } else {
        Err(GraphicsStorageDecline::WriteRounding { stage })
    }
}

/// Rounds the writes of the stages in order, up to the first that fails.
pub fn round_writes(textures: &Vec<GraphicsStorageTexture>, answers: RoundingAnswers) -> (r: Result<
    (),
    GraphicsStorageDecline,
>)
    ensures
        r == match rounding_refusal(textures@, answers) {
            Some(refusal) => Err::<(), GraphicsStorageDecline>(refusal),
            None => Ok(()),
        },
{
    let mut done: Option<ShaderStage> = None;
    if let Some((stage, _)) = next_rounding(textures, done) {
        let specialized: bool = match stage {
            ShaderStage::Vertex => answers.vertex,
            ShaderStage::Fragment => answers.fragment,
        };
        rounded(stage, specialized)?;
        done = Some(stage);
    }
    if let Some((stage, _)) = next_rounding(textures, done) {
        let specialized: bool = match stage {
            ShaderStage::Vertex => answers.vertex,
            ShaderStage::Fragment => answers.fragment,
        };
        rounded(stage, specialized)?;
    }
    Ok(())
}

/// The texture as a draw request carries it.
pub open spec fn carries(resource: GraphicsStorageTexture, texture: StorageTexture) -> bool {
    &&& Some(resource.format) == texture.staged.storage_format
    &&& resource.width == texture.staged.width
    &&& resource.height == texture.staged.height
    &&& resource.bytes == texture.staged.bytes
    &&& resource.bindings@ == texture.bindings@
}

/// Some texture is written from the stage.
pub open spec fn written_from(textures: Seq<StorageTexture>, stage: ShaderStage) -> bool {
    exists|i: int, j: int|
        0 <= i < textures.len() && 0 <= j < textures[i].bindings@.len() && writes_from(
            #[trigger] textures[i].bindings@[j],
            stage,
        )
}

proof fn lemma_carried_writes(
    list: Seq<GraphicsStorageTexture>,
    textures: Seq<StorageTexture>,
    stage: ShaderStage,
)
    requires
        list.len() == textures.len(),
        forall|k: int| 0 <= k < list.len() ==> carries(#[trigger] list[k], textures[k]),
    ensures
        stage_writes(list, stage) == written_from(textures, stage),
{
    if stage_writes(list, stage) {
        let (i, j) = choose|i: int, j: int|
            0 <= i < list.len() && 0 <= j < list[i].bindings@.len() && writes_from(
                #[trigger] list[i].bindings@[j],
                stage,
            );
        assert(carries(list[i], textures[i]));
        assert(writes_from(textures[i].bindings@[j], stage));
    }
    if written_from(textures, stage) {
        let (i, j) = choose|i: int, j: int|
            0 <= i < textures.len() && 0 <= j < textures[i].bindings@.len() && writes_from(
                #[trigger] textures[i].bindings@[j],
                stage,
            );
        assert(carries(list[i], textures[i]));
        assert(writes_from(list[i].bindings@[j], stage));
    }
}

impl StorageTextures {
    /// What the draw request carries: every texture in its own format, and every
    /// writing stage with its writes rounded. A refused rounding comes when the
    /// bytes have already moved out.
    pub fn resources(
        &mut self,
        answers: &Vec<Vec<FormatAnswer>>,
        rounding: RoundingAnswers,
    ) -> (r: Result<Vec<GraphicsStorageTexture>, GraphicsStorageDecline>)
        requires
            old(self).textures@.len() == answers@.len(),
            forall|k: int|
                0 <= k < answers@.len() ==> (#[trigger] answers@[k])@.len() == old(
                    self,
                ).textures@[k].bindings@.len(),
        ensures
            final(self).textures@.len() == old(self).textures@.len(),
            ({
                let textures = old(self).textures@;
                let moved = handed_over(textures, answers@, 0);
                &&& forall|k: int|
                    0 <= k < textures.len() ==> {
                        let is = #[trigger] final(self).textures@[k];
                        &&& is.reference == textures[k].reference
                        &&& is.bindings == textures[k].bindings
                        &&& k >= moved ==> is == textures[k]
                        &&& k < moved ==> is.staged.bytes@.len() == 0 && is.staged == (
                        StagedTexture { bytes: is.staged.bytes, ..textures[k].staged })
                    }
                &&& if moved < textures.len() {
                    r matches Err(e) && Some(e) == texture_refusal(
                        textures[moved],
                        answers@[moved]@,
                    )
                } else if written_from(textures, ShaderStage::Vertex) && !rounding.vertex {
                    r matches Err(e) && e == (GraphicsStorageDecline::WriteRounding {
                        stage: ShaderStage::Vertex,
                    })
                } else if written_from(textures, ShaderStage::Fragment) && !rounding.fragment {
                    r matches Err(e) && e == (GraphicsStorageDecline::WriteRounding {
                        stage: ShaderStage::Fragment,
                    })
                } else {
                    r matches Ok(list) && list@.len() == textures.len() && forall|k: int|
                        0 <= k < list@.len() ==> carries(#[trigger] list@[k], textures[k])
                }
            }),
    {
        let list: Vec<GraphicsStorageTexture> = match self.hand_over(answers) {
            Ok(list) => list,
            Err(refusal) => {
                return Err(refusal);
            },
        };
        proof {
            let textures = old(self).textures@;
            assert forall|k: int| 0 <= k < list@.len() implies carries(
                #[trigger] list@[k],
                textures[k],
            ) by {}
            lemma_carried_writes(list@, textures, ShaderStage::Vertex);
            lemma_carried_writes(list@, textures, ShaderStage::Fragment);
        }
        match round_writes(&list, rounding) {
            Ok(()) => Ok(list),
            Err(refusal) => Err(refusal),
        }
    }
}

/// The bindings a module declares and statically uses, in declaration order.
/// Each candidate carries whether the module uses it.
pub fn used_bindings(declared: &Vec<(u32, bool)>) -> (used: Vec<u32>)
    ensures
        used@ == declared@.filter(|entry: (u32, bool)| entry.1).map_values(
            |entry: (u32, bool)| entry.0,
        ),
{
    let ghost keep = |entry: (u32, bool)| entry.1;
    let ghost number = |entry: (u32, bool)| entry.0;
    let mut used: Vec<u32> = Vec::new();
    let mut n: usize = 0;
    assert(declared@.take(0).filter(keep).map_values(number) =~= Seq::<u32>::empty()) by {
        reveal(Seq::filter);
    }
    while n < declared.len()
        invariant
            0 <= n <= declared@.len(),
            keep == (|entry: (u32, bool)| entry.1),
            number == (|entry: (u32, bool)| entry.0),
            used@ == declared@.take(n as int).filter(keep).map_values(number),
        decreases declared@.len() - n,
    {
        let entry: (u32, bool) = declared[n];
        if entry.1 {
            used.push(entry.0);
        }
        proof {
            let next = declared@.take(n + 1);
            assert(next.drop_last() =~= declared@.take(n as int));
            reveal(Seq::filter);
            assert(used@ =~= next.filter(keep).map_values(number));
        }
        n += 1;
    }
    assert(declared@.take(n as int) =~= declared@);
    used
}

/// Every texture that was written back took an output of its own length, and
/// publishing ends at the first that did not or whose write failed.
pub proof fn law_only_complete_outputs_are_published(
    textures: Seq<StorageTexture>,
    outputs: Seq<Vec<u8>>,
    writes: Seq<bool>,
    n: int,
)
    requires
        0 <= n <= textures.len(),
        textures.len() == outputs.len(),
        textures.len() == writes.len(),
    ensures
        n <= published(textures, outputs, writes, n) <= textures.len(),
        forall|k: int|
            n <= k < published(textures, outputs, writes, n) ==> output_fits(
                (#[trigger] textures[k]).staged,
                outputs[k]@,
            ) && writes[k],
        published(textures, outputs, writes, n) < textures.len() ==> !(output_fits(
            textures[published(textures, outputs, writes, n)].staged,
            outputs[published(textures, outputs, writes, n)]@,
        ) && writes[published(textures, outputs, writes, n)]),
    decreases textures.len() - n,
{
    if n < textures.len() && output_fits(textures[n].staged, outputs[n]@) && writes[n] {
        law_only_complete_outputs_are_published(textures, outputs, writes, n + 1);
    }
}

/// The texture bound at an index is that of the first bind of exactly that index;
/// an index that no bind has is bound to nothing.
pub proof fn law_the_first_bind_of_an_index_is_bound(binds: Seq<TextureBind>, index: u32, k: int)
    ensures
        0 <= k < binds.len() && binds[k].index == index && (forall|j: int|
            0 <= j < k ==> !((#[trigger] binds[j]).index == index)) ==> bound_ref(binds, index) == Some(binds[k].texture_ref),
        (forall|j: int| 0 <= j < binds.len() ==> !((#[trigger] binds[j]).index == index)) ==> bound_ref(
            binds,
            index,
        ) is None,
    decreases binds.len(),
{
    if binds.len() > 0 {
        let rest = binds.skip(1);
        assert forall|j: int| 0 <= j < rest.len() implies #[trigger] rest[j] == binds[j + 1] by {}
        law_the_first_bind_of_an_index_is_bound(rest, index, k - 1);
        if 0 < k < binds.len() {
            assert(rest[k - 1] == binds[k]);
        }
    }
}

/// The bind at `k` is the first of its index.
pub open spec fn first_bind(binds: Seq<TextureBind>, index: u32, k: int) -> bool {
    &&& 0 <= k < binds.len()
    &&& binds[k].index == index
    &&& forall|j: int| 0 <= j < k ==> (#[trigger] binds[j]).index != index
}

/// No bind has the index.
pub open spec fn no_bind(binds: Seq<TextureBind>, index: u32) -> bool {
    forall|j: int| 0 <= j < binds.len() ==> (#[trigger] binds[j]).index != index
}

/// The shader writes the texture that the resource stands for.
pub open spec fn written_resource(resource: ReflectedResource) -> bool {
    resource.texture_kind && (resource.descriptor matches Some(d) && d.access
        == TextureAccess::Storage)
}

/// The resource asks for the texture that the first bind of its index names, at
/// the binding it declares: a single two-dimensional image the shader writes.
pub open spec fn asks_for(
    resource: ReflectedResource,
    binds: Seq<TextureBind>,
    add: (u32, u32),
) -> bool {
    &&& written_resource(resource)
    &&& resource.descriptor->0.descriptor_count == 1
    &&& resource.descriptor->0.array_element == 0
    &&& resource.descriptor->0.kind == ImageKind::D2
    &&& add.1 == resource.descriptor->0.binding
    &&& add.0 != 0
    &&& exists|k: int| #[trigger]
        first_bind(binds, resource.index, k) && binds[k].texture_ref == add.0
}

/// The resource is the reason for a refused plan.
pub open spec fn refuses_plan(
    resource: ReflectedResource,
    binds: Seq<TextureBind>,
    refusal: GraphicsStorageDecline,
) -> bool {
    match refusal {
        GraphicsStorageDecline::Reflection { index } => {
            &&& index == resource.index
            &&& resource.texture_kind
            &&& resource.descriptor matches Some(d) ==> d.access == TextureAccess::Unknown
        },
        GraphicsStorageDecline::MissingTexture { texture_ref } => {
            &&& texture_ref == 0
            &&& written_resource(resource)
            &&& no_bind(binds, resource.index) || exists|k: int| #[trigger]
                first_bind(binds, resource.index, k) && binds[k].texture_ref == 0
        },
        GraphicsStorageDecline::Shape { texture_ref } => {
            &&& written_resource(resource)
            &&& texture_ref != 0
            &&& exists|k: int| #[trigger]
                first_bind(binds, resource.index, k) && binds[k].texture_ref == texture_ref
            &&& resource.descriptor->0.descriptor_count != 1
                || resource.descriptor->0.array_element != 0 || resource.descriptor->0.kind
                != ImageKind::D2
        },
        _ => false,
    }
}

/// The plan takes account of the resource: what the resource asks for is staged,
/// and a texture of which the reflection does not say how it is reached, or that
/// is written and cannot be staged, has no place in it.
pub open spec fn planned_for(
    resource: ReflectedResource,
    binds: Seq<TextureBind>,
    adds: Seq<(u32, u32)>,
) -> bool {
    &&& resource.texture_kind ==> resource.descriptor is Some && resource.descriptor->0.access
        != TextureAccess::Unknown
    &&& written_resource(resource) ==> exists|a: int|
        0 <= a < adds.len() && asks_for(resource, binds, #[trigger] adds[a])
}

proof fn lemma_bound_ref(binds: Seq<TextureBind>, index: u32)
    ensures
        bound_ref(binds, index) is None ==> no_bind(binds, index),
        bound_ref(binds, index) matches Some(r) ==> exists|k: int| #[trigger]
            first_bind(binds, index, k) && binds[k].texture_ref == r,
    decreases binds.len(),
{
    if binds.len() > 0 {
        if binds[0].index == index {
            assert(first_bind(binds, index, 0));
        } else {
            let rest = binds.skip(1);
            lemma_bound_ref(rest, index);
            assert forall|j: int| 0 < j < binds.len() implies #[trigger] binds[j] == rest[j - 1] by {}
            if bound_ref(binds, index) is Some {
                let k = choose|k: int| #[trigger]
                    first_bind(rest, index, k) && rest[k].texture_ref == bound_ref(binds, index)->0;
                assert forall|j: int| 0 <= j < k + 1 implies (#[trigger] binds[j]).index
                    != index by {
                    if j > 0 {
                        assert(rest[j - 1].index != index);
                    }
                }
                assert(first_bind(binds, index, k + 1));
            }
        }
    }
}

proof fn lemma_demand(resource: ReflectedResource, binds: Seq<TextureBind>)
    ensures
        match demand(resource, binds) {
            Ok(None) => {
                &&& !written_resource(resource)
                &&& resource.texture_kind ==> resource.descriptor is Some
                    && resource.descriptor->0.access == TextureAccess::Sampled
            },
            Ok(Some(add)) => asks_for(resource, binds, add),
            Err(refusal) => refuses_plan(resource, binds, refusal),
        },
{
    lemma_bound_ref(binds, resource.index);
}

proof fn lemma_demands(
    resources: Seq<ReflectedResource>,
    binds: Seq<TextureBind>,
    n: int,
    adds: Seq<(u32, u32)>,
    start: int,
)
    requires
        0 <= n <= resources.len(),
        0 <= start <= adds.len(),
        forall|r: int| 0 <= r < n ==> planned_for(#[trigger] resources[r], binds, adds),
        forall|a: int|
            start <= a < adds.len() ==> exists|r: int|
                0 <= r < resources.len() && asks_for(
                    #[trigger] resources[r],
                    binds,
                    #[trigger] adds[a],
                ),
    ensures
        ({
            let plan = demands(resources, binds, n, adds);
            &&& adds.is_prefix_of(plan.0)
            &&& forall|a: int|
                start <= a < plan.0.len() ==> asked_by(resources, binds, #[trigger] plan.0[a])
            &&& plan.1 is None ==> forall|r: int|
                0 <= r < resources.len() ==> planned_for(#[trigger] resources[r], binds, plan.0)
            &&& plan.1 matches Some(refusal) ==> exists|r: int|
                0 <= r < resources.len() && refuses_plan(#[trigger] resources[r], binds, refusal)
                    && forall|before: int|
                    0 <= before < r ==> planned_for(#[trigger] resources[before], binds, plan.0)
        }),
    decreases resources.len() - n,
{
    assert forall|a: int| start <= a < adds.len() implies asked_by(
        resources,
        binds,
        #[trigger] adds[a],
    ) by {
        let r = choose|r: int|
            0 <= r < resources.len() && asks_for(#[trigger] resources[r], binds, adds[a]);
        assert(asks_for(resources[r], binds, adds[a]));
    }
    if n < resources.len() {
        lemma_demand(resources[n], binds);
        match demand(resources[n], binds) {
            Err(_) => {},
            Ok(None) => {
                lemma_demands(resources, binds, n + 1, adds, start);
            },
            Ok(Some(add)) => {
                let next = adds.push(add);
                assert forall|r: int| 0 <= r < n + 1 implies planned_for(
                    #[trigger] resources[r],
                    binds,
                    next,
                ) by {
                    if r < n {
                        if written_resource(resources[r]) {
                            let a = choose|a: int|
                                0 <= a < adds.len() && asks_for(
                                    resources[r],
                                    binds,
                                    #[trigger] adds[a],
                                );
                            assert(next[a] == adds[a]);
                        }
                    } else {
                        assert(next[adds.len() as int] == add);
                    }
                }
                assert forall|a: int| start <= a < next.len() implies exists|r: int|
                    0 <= r < resources.len() && asks_for(
                        #[trigger] resources[r],
                        binds,
                        #[trigger] next[a],
                    ) by {
                    if a < adds.len() {
                        assert(next[a] == adds[a]);
                        assert(asked_by(resources, binds, adds[a]));
                    } else {
                        assert(asks_for(resources[n], binds, next[a]));
                    }
                }
                lemma_demands(resources, binds, n + 1, next, start);
                assert(adds.is_prefix_of(next));
            },
        }
    }
}

/// Some resource asks for the texture.
pub open spec fn asked_by(
    resources: Seq<ReflectedResource>,
    binds: Seq<TextureBind>,
    add: (u32, u32),
) -> bool {
    exists|r: int| 0 <= r < resources.len() && asks_for(#[trigger] resources[r], binds, add)
}

/// A plan stages what the shaders write and nothing else: for every written
/// texture index the texture that the first bind of exactly that index names. A
/// refused plan is refused for one of the resources, and everything before that
/// resource is staged.
pub proof fn law_a_plan_stages_what_is_written(
    resources: Seq<ReflectedResource>,
    binds: Seq<TextureBind>,
)
    ensures
        ({
            let plan = demands(resources, binds, 0, Seq::empty());
            &&& forall|a: int|
                0 <= a < plan.0.len() ==> asked_by(resources, binds, #[trigger] plan.0[a])
            &&& plan.1 is None ==> forall|r: int|
                0 <= r < resources.len() ==> planned_for(#[trigger] resources[r], binds, plan.0)
            &&& plan.1 matches Some(refusal) ==> exists|r: int|
                0 <= r < resources.len() && refuses_plan(#[trigger] resources[r], binds, refusal)
                    && forall|before: int|
                    0 <= before < r ==> planned_for(#[trigger] resources[before], binds, plan.0)
        }),
{
    lemma_demands(resources, binds, 0, Seq::empty(), 0);
}

/// A resource the shader writes whose index no bind has refuses the plan, and no
/// plan that is complete leaves such a resource out.
pub proof fn law_an_unbound_write_refuses_the_plan(
    resources: Seq<ReflectedResource>,
    binds: Seq<TextureBind>,
    r: int,
)
    requires
        0 <= r < resources.len(),
        written_resource(resources[r]),
        no_bind(binds, resources[r].index),
    ensures
        demands(resources, binds, 0, Seq::empty()).1 is Some,
        demand(resources[r], binds) == Err::<Option<(u32, u32)>, GraphicsStorageDecline>(
            GraphicsStorageDecline::MissingTexture { texture_ref: 0 },
        ),
{
    lemma_demands(resources, binds, 0, Seq::empty(), 0);
    lemma_demand(resources[r], binds);
    let plan = demands(resources, binds, 0, Seq::empty());
    if plan.1 is None {
        assert(planned_for(resources[r], binds, plan.0));
    }
    law_the_first_bind_of_an_index_is_bound(binds, resources[r].index, 0);
}

/// An output is complete exactly when it has every row of the texture, tightly
/// packed.
pub proof fn law_a_complete_output_has_every_row(staged: StagedTexture, output: Vec<u8>)
    ensures
        output_fits(staged, output@) <==> (staged.tight_row matches Some(row) && output@.len()
            == row * staged.height),
{
    assert(output@.len() == output.len());
}

/// A binding that writes the texture finds a module that declares it, that was
/// specialised, and whose format is open or the texture's own.
pub open spec fn writable_as(
    format: StorageImageFormat,
    binding: GraphicsTextureBinding,
    answer: FormatAnswer,
) -> bool {
    binding.access == GraphicsTextureAccess::Storage ==> {
        &&& answer.declared
        &&& answer.applied
        &&& answer.specialized is Some
        &&& answer.specialized->0 != IMAGE_FORMAT_UNKNOWN ==> answer.native == Some(format)
    }
}

proof fn lemma_bindings_refusal(
    texture_ref: u32,
    format: StorageImageFormat,
    bindings: Seq<GraphicsTextureBinding>,
    answers: Seq<FormatAnswer>,
    n: int,
)
    requires
        0 <= n <= bindings.len(),
    ensures
        bindings_refusal(texture_ref, format, bindings, answers, n) is None <==> forall|k: int|
            n <= k < bindings.len() ==> writable_as(format, #[trigger] bindings[k], answers[k]),
        bindings_refusal(texture_ref, format, bindings, answers, n) matches Some(refusal) ==> refusal
            == (GraphicsStorageDecline::Format { texture_ref }) || refusal
            == GraphicsStorageDecline::Specialization,
    decreases bindings.len() - n,
{
    if n < bindings.len() {
        lemma_bindings_refusal(texture_ref, format, bindings, answers, n + 1);
        if format_refusal(texture_ref, format, bindings[n], answers[n]) is Some {
            assert(!writable_as(format, bindings[n], answers[n]));
        }
    }
}

/// A texture is handed over exactly when it has a native format and every binding
/// that writes it can write that format; bindings that only read it never stand
/// in the way.
pub proof fn law_a_texture_is_written_in_its_own_format(
    texture: StorageTexture,
    answers: Seq<FormatAnswer>,
)
    ensures
        texture_refusal(texture, answers) is None <==> (texture.staged.storage_format matches Some(
            format,
        ) && forall|k: int|
            0 <= k < texture.bindings@.len() ==> writable_as(
                format,
                #[trigger] texture.bindings@[k],
                answers[k],
            )),
        texture_refusal(texture, answers) matches Some(refusal) ==> refusal == (
        GraphicsStorageDecline::Format { texture_ref: texture.reference }) || (refusal
            == GraphicsStorageDecline::Specialization && texture.staged.storage_format is Some),
{
    if let Some(format) = texture.staged.storage_format {
        lemma_bindings_refusal(texture.reference, format, texture.bindings@, answers, 0);
    }
}

/// The textures handed over are the ones before the first that is refused.
pub proof fn law_textures_are_handed_over_up_to_a_refusal(
    textures: Seq<StorageTexture>,
    answers: Seq<Vec<FormatAnswer>>,
    n: int,
)
    requires
        0 <= n <= textures.len(),
    ensures
        n <= handed_over(textures, answers, n) <= textures.len(),
        forall|k: int|
            n <= k < handed_over(textures, answers, n) ==> texture_refusal(
                #[trigger] textures[k],
                answers[k]@,
            ) is None,
        handed_over(textures, answers, n) < textures.len() ==> texture_refusal(
            textures[handed_over(textures, answers, n)],
            answers[handed_over(textures, answers, n)]@,
        ) is Some,
    decreases textures.len() - n,
{
    if n < textures.len() && texture_refusal(textures[n], answers[n]@) is None {
        law_textures_are_handed_over_up_to_a_refusal(textures, answers, n + 1);
    }
}

/// A binding writes a texture whose channels are swapped, from the stage.
pub open spec fn swaps_channels(
    textures: Seq<GraphicsStorageTexture>,
    stage: ShaderStage,
    i: int,
    j: int,
) -> bool {
    &&& 0 <= i < textures.len()
    &&& 0 <= j < textures[i].bindings@.len()
    &&& textures[i].format == StorageImageFormat::Bgra8Unorm
    &&& textures[i].bindings@[j].stage == stage
    &&& textures[i].bindings@[j].access == GraphicsTextureAccess::Storage
}

/// Some binding of that number writes a texture whose channels are swapped, from
/// the stage.
pub open spec fn swapped_binding(
    textures: Seq<GraphicsStorageTexture>,
    stage: ShaderStage,
    binding: u32,
) -> bool {
    exists|i: int, j: int| #[trigger]
        swaps_channels(textures, stage, i, j) && textures[i].bindings@[j].binding == binding
}

proof fn lemma_writers(
    textures: Seq<GraphicsStorageTexture>,
    stage: ShaderStage,
    i: int,
    n: int,
    found: Seq<u32>,
)
    requires
        0 <= i < textures.len(),
        textures[i].format == StorageImageFormat::Bgra8Unorm,
        0 <= n <= textures[i].bindings@.len(),
    ensures
        ({
            let all = writers(textures[i].bindings@, stage, n, found);
            &&& found.is_prefix_of(all)
            &&& forall|j: int| #[trigger]
                swaps_channels(textures, stage, i, j) && j >= n ==> all.contains(
                    textures[i].bindings@[j].binding,
                )
            &&& forall|a: int|
                found.len() <= a < all.len() ==> swapped_binding(textures, stage, #[trigger] all[a])
        }),
    decreases textures[i].bindings@.len() - n,
{
    let bindings = textures[i].bindings@;
    if n < bindings.len() {
        if writes_from(bindings[n], stage) {
            let next = found.push(bindings[n].binding);
            lemma_writers(textures, stage, i, n + 1, next);
            let all = writers(bindings, stage, n, found);
            assert(all[found.len() as int] == next[found.len() as int]);
            assert(swaps_channels(textures, stage, i, n));
            assert(all.contains(bindings[n].binding));
            assert(swapped_binding(textures, stage, bindings[n].binding));
        } else {
            lemma_writers(textures, stage, i, n + 1, found);
        }
    }
}

proof fn lemma_normalized_targets(
    textures: Seq<GraphicsStorageTexture>,
    stage: ShaderStage,
    n: int,
    found: Seq<u32>,
)
    requires
        0 <= n <= textures.len(),
    ensures
        ({
            let all = normalized_targets(textures, stage, n, found);
            &&& found.is_prefix_of(all)
            &&& forall|i: int, j: int| #[trigger]
                swaps_channels(textures, stage, i, j) && i >= n ==> all.contains(
                    textures[i].bindings@[j].binding,
                )
            &&& forall|a: int|
                found.len() <= a < all.len() ==> swapped_binding(textures, stage, #[trigger] all[a])
        }),
    decreases textures.len() - n,
{
    if n < textures.len() {
        let all = normalized_targets(textures, stage, n, found);
        if textures[n].format == StorageImageFormat::Bgra8Unorm {
            let next = writers(textures[n].bindings@, stage, 0, found);
            lemma_writers(textures, stage, n, 0, found);
            lemma_normalized_targets(textures, stage, n + 1, next);
            assert forall|i: int, j: int| #[trigger]
                swaps_channels(textures, stage, i, j) && i >= n implies all.contains(
                textures[i].bindings@[j].binding,
            ) by {
                if i == n {
                    let b = textures[i].bindings@[j].binding;
                    assert(next.contains(b));
                    let a = choose|a: int| 0 <= a < next.len() && next[a] == b;
                    assert(all[a] == b);
                }
            }
            assert forall|a: int| found.len() <= a < all.len() implies swapped_binding(
                textures,
                stage,
                #[trigger] all[a],
            ) by {
                if a < next.len() {
                    assert(all[a] == next[a]);
                }
            }
        } else {
            lemma_normalized_targets(textures, stage, n + 1, found);
        }
    }
}

/// The bindings a stage rounds as normalized are exactly those through which the
/// stage writes a texture with swapped channels.
pub proof fn law_rounded_bindings_write_swapped_channels(
    textures: Seq<GraphicsStorageTexture>,
    stage: ShaderStage,
    binding: u32,
)
    ensures
        normalized_targets(textures, stage, 0, Seq::empty()).contains(binding)
            <==> swapped_binding(textures, stage, binding),
{
    lemma_normalized_targets(textures, stage, 0, Seq::empty());
    let all = normalized_targets(textures, stage, 0, Seq::empty());
    if all.contains(binding) {
        let a = choose|a: int| 0 <= a < all.len() && all[a] == binding;
        assert(all[a] == binding);
    }
}

/// Every stage that writes a texture is rounded, once, the vertex stage before
/// the fragment stage; the draw is refused exactly when a stage that writes could
/// not be rounded, and the refusal names such a stage.
pub proof fn law_every_writing_stage_is_rounded(
    textures: Seq<GraphicsStorageTexture>,
    answers: RoundingAnswers,
    i: int,
    j: int,
)
    requires
        0 <= i < textures.len(),
        0 <= j < textures[i].bindings@.len(),
        textures[i].bindings@[j].access == GraphicsTextureAccess::Storage,
    ensures
        textures[i].bindings@[j].stage == ShaderStage::Vertex ==> rounding_after(textures, None)
            == Some(ShaderStage::Vertex) && (!answers.vertex ==> rounding_refusal(
            textures,
            answers,
        ) == Some(GraphicsStorageDecline::WriteRounding { stage: ShaderStage::Vertex })),
        textures[i].bindings@[j].stage == ShaderStage::Fragment ==> rounding_after(
            textures,
            Some(ShaderStage::Vertex),
        ) == Some(ShaderStage::Fragment) && rounding_after(textures, None) is Some && (
        !answers.fragment ==> rounding_refusal(textures, answers) is Some),
        rounding_after(textures, Some(ShaderStage::Fragment)) is None,
        answers.vertex && answers.fragment ==> rounding_refusal(textures, answers) is None,
{
    let binding = textures[i].bindings@[j];
    assert(writes_from(textures[i].bindings@[j], binding.stage));
    assert(stage_writes(textures, binding.stage));
}

/// A stage that is rounded writes some texture, and was not rounded before.
pub proof fn law_only_writing_stages_are_rounded(
    textures: Seq<GraphicsStorageTexture>,
    answers: RoundingAnswers,
    done: Option<ShaderStage>,
    stage: ShaderStage,
)
    requires
        forall|i: int, j: int|
            0 <= i < textures.len() && 0 <= j < textures[i].bindings@.len() ==> !((
            #[trigger] textures[i].bindings@[j]).access == GraphicsTextureAccess::Storage
                && textures[i].bindings@[j].stage == stage),
    ensures
        rounding_after(textures, done) != Some(stage),
        rounding_refusal(textures, answers) != Some(
            GraphicsStorageDecline::WriteRounding { stage },
        ),
{
    assert(!stage_writes(textures, stage));
}

/// A texture that an attachment names, at either end of a resolve, is never
/// staged, whatever the attachment.
pub proof fn law_attachments_are_not_staged(
    attachments: AttachmentRefs,
    texture_ref: u32,
    object: Option<TextureObject>,
    k: int,
)
    requires
        (0 <= k < attachments.colors@.len() && (attachments.colors@[k].0 == texture_ref
            || attachments.colors@[k].1 == texture_ref)) || (attachments.depth matches Some(a) && (
        a.0 == texture_ref || a.1 == texture_ref)) || (attachments.stencil matches Some(a) && (a.0
            == texture_ref || a.1 == texture_ref)),
    ensures
        admission(false, attachments, texture_ref, object) == Err::<
            Admission,
            GraphicsStorageDecline,
        >(GraphicsStorageDecline::AttachmentAlias { texture_ref }),
{
}

/// What is staged is a plain texture with one level, one layer and one sample that
/// no attachment names; every such texture is staged.
pub proof fn law_plain_textures_are_staged(
    attachments: AttachmentRefs,
    texture_ref: u32,
    object: Option<TextureObject>,
)
    ensures
        admission(false, attachments, texture_ref, object) is Ok <==> {
            &&& forall|k: int|
                0 <= k < attachments.colors@.len() ==> (#[trigger] attachments.colors@[k]).0
                    != texture_ref && attachments.colors@[k].1 != texture_ref
            &&& attachments.depth matches Some(a) ==> a.0 != texture_ref && a.1 != texture_ref
            &&& attachments.stencil matches Some(a) ==> a.0 != texture_ref && a.1 != texture_ref
            &&& object is Some
            &&& object->0.plain_texture
            &&& object->0.shape is Some
            &&& object->0.shape->0.mipmap_level_count == 1
            &&& object->0.shape->0.depth == 1
            &&& object->0.shape->0.sample_count == Some(1u32)
        },
        admission(false, attachments, texture_ref, object) != Ok::<
            Admission,
            GraphicsStorageDecline,
        >(Admission::Held),
        admission(true, attachments, texture_ref, object) == Ok::<
            Admission,
            GraphicsStorageDecline,
        >(Admission::Held),
{
}

/// An index is bound as the shader declares it, and only as a single
/// two-dimensional image; one that the shader does not declare binds nothing.
pub proof fn law_an_index_is_bound_as_declared(
    texture_ref: u32,
    index: u32,
    descriptor: Option<StorageDescriptor>,
    before: Seq<GraphicsTextureBinding>,
    binding: u32,
    stage: ShaderStage,
)
    ensures
        bound_access(texture_ref, index, descriptor) matches Ok(access) ==> {
            let after = with_binding(before, access, binding, stage);
            &&& before.is_prefix_of(after)
            &&& after.len() == before.len() + if descriptor is Some {
                1nat
            } else {
                0nat
            }
            &&& descriptor matches Some(d) ==> {
                &&& d.descriptor_count == 1 && d.array_element == 0 && d.kind == ImageKind::D2
                &&& after.last().binding == binding && after.last().stage == stage
                &&& d.access == TextureAccess::Storage <==> after.last().access
                    == GraphicsTextureAccess::Storage
                &&& d.access == TextureAccess::Sampled <==> after.last().access
                    == GraphicsTextureAccess::Sampled
            }
        },
        bound_access(texture_ref, index, descriptor) is Err <==> (descriptor matches Some(d) && (
        d.access == TextureAccess::Unknown || d.descriptor_count != 1 || d.array_element != 0
            || d.kind != ImageKind::D2)),
{
}

/// A texture that takes an output keeps everything but its bytes, which are then
/// exactly the output.
pub proof fn law_an_output_replaces_only_the_bytes(texture: StorageTexture, output: Vec<u8>)
    ensures
        ({
            let held = holding(texture, output);
            &&& held.staged.bytes == output
            &&& held.reference == texture.reference
            &&& held.bindings == texture.bindings
            &&& held.staged.width == texture.staged.width && held.staged.height
                == texture.staged.height
            &&& held.staged.tight_row == texture.staged.tight_row
            &&& held.staged.storage_format == texture.staged.storage_format
            &&& held.staged.owner == texture.staged.owner
            &&& held.staged.writeback == texture.staged.writeback
            &&& held.staged.resident_serve == texture.staged.resident_serve
        }),
{
}

/// A fragment binding was declared as far below as fragment resources moved; a
/// vertex binding is where it was declared.
pub proof fn law_a_moved_binding_was_declared_below(binding: GraphicsTextureBinding)
    ensures
        binding.stage == ShaderStage::Fragment ==> binding.declared_binding() + 672
            == binding.binding,
        binding.stage == ShaderStage::Vertex ==> binding.declared_binding() == binding.binding,
{
}

/// What a request carries of a texture is all of it: two requests that carry the
/// same texture carry the same.
pub proof fn law_a_request_carries_the_whole_texture(
    first: GraphicsStorageTexture,
    second: GraphicsStorageTexture,
    texture: StorageTexture,
)
    requires
        carries(first, texture),
        carries(second, texture),
    ensures
        first.format == second.format,
        first.width == second.width,
        first.height == second.height,
        first.bytes == second.bytes,
        first.bindings@ == second.bindings@,
        Some(first.format) == texture.staged.storage_format,
        first.width == texture.staged.width,
        first.height == texture.staged.height,
        first.bytes@ == texture.staged.bytes@,
{
}

/// A stage writes exactly where some texture is bound to it as a storage image.
pub proof fn law_a_stage_writes_through_its_own_bindings(
    textures: Seq<StorageTexture>,
    stage: ShaderStage,
    i: int,
    j: int,
)
    ensures
        0 <= i < textures.len() && 0 <= j < textures[i].bindings@.len()
            && textures[i].bindings@[j].stage == stage && textures[i].bindings@[j].access
            == GraphicsTextureAccess::Storage ==> written_from(textures, stage),
        (forall|a: int, b: int|
            0 <= a < textures.len() && 0 <= b < textures[a].bindings@.len() ==> (
            #[trigger] textures[a].bindings@[b]).stage != stage || textures[a].bindings@[b].access
                != GraphicsTextureAccess::Storage) ==> !written_from(textures, stage),
{
    if 0 <= i < textures.len() && 0 <= j < textures[i].bindings@.len() {
        assert(textures[i].bindings@[j] == textures[i].bindings@[j]);
        if textures[i].bindings@[j].stage == stage && textures[i].bindings@[j].access
            == GraphicsTextureAccess::Storage {
            assert(writes_from(textures[i].bindings@[j], stage));
        }
    }
}

} // verus!
