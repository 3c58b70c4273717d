//! Binding tables and shader interfaces, as native preparation reads them.
use crate::native_pipeline::objects::ResourceId;
use vstd::prelude::*;

verus! {

/// First descriptor binding of the texture range.
pub const TEXTURE_BINDING_BASE: u32 = 32;

/// First descriptor binding of the sampler range.
pub const SAMPLER_BINDING_BASE: u32 = 160;

/// First descriptor binding of the framebuffer-fetch range.
pub const COLOR_INPUT_BINDING: u32 = 192;

/// How far fragment textures and samplers move when both stages sample.
pub const FRAG_SAMPLED_RESOURCE_BINDING_OFFSET: u32 = 672;

/// How far fragment buffers move when both stages bind the same index.
pub const FRAG_BUFFER_BINDING_OFFSET: u32 = 672;

/// One bound buffer index.
#[derive(Clone, Copy, Debug)]
pub struct BufferSlot {
    pub index: u32,
    pub buffer: Option<ResourceId>,
    pub offset: u64,
    pub stride: Option<u64>,
}

/// One bound texture or sampler index. Level-of-detail clamps are bit patterns.
#[derive(Clone, Copy, Debug)]
pub struct ObjectSlot {
    pub index: u32,
    pub object: Option<ResourceId>,
    pub lod_clamps: Option<(u32, u32)>,
}

/// The bound slots of one shader stage, in index order.
pub struct StageTables {
    pub buffers: Vec<BufferSlot>,
    pub textures: Vec<ObjectSlot>,
    pub samplers: Vec<ObjectSlot>,
}

/// What an encoder has bound when it draws.
pub struct RenderBindings {
    pub pipeline: Option<ResourceId>,
    pub depth_stencil: Option<ResourceId>,
    pub vertex: StageTables,
    pub fragment: StageTables,
}

/// How a shader reaches a texture.
#[derive(Clone, Copy, Debug, PartialEq, Eq, Structural)]
pub enum TextureAccess {
    Sampled,
    Storage,
    Unknown,
}

/// The kind of a reflected shader resource.
#[derive(Clone, Copy, Debug, PartialEq, Eq, Structural)]
pub enum ResourceKind {
    Buffer,
    ThreadgroupBuffer,
    Texture,
    TextureArray,
    StorageImage,
    Sampler,
    ColorInput,
    AccelerationStructureShadow,
    EmbeddedArgBufferTexture,
}

/// The descriptor a shader declares for one texture index.
#[derive(Clone, Copy, Debug, PartialEq, Eq, Structural)]
pub struct TextureDescriptor {
    pub index: u32,
    pub binding: u32,
    pub descriptor_count: u32,
    pub access: TextureAccess,
}

/// One reflected resource.
#[derive(Clone, Copy, Debug, PartialEq, Eq, Structural)]
pub struct ReflectedBinding {
    pub kind: ResourceKind,
    pub metal_index: u32,
}

/// The interface of one shader. `unsupported` says that it declares a resource
/// this rail cannot express at all.
pub struct Reflection {
    pub bindings: Vec<ReflectedBinding>,
    pub textures: Vec<TextureDescriptor>,
    pub unsupported: bool,
}

/// What is known of a sampler a shader declares.
#[derive(Clone, Copy, Debug, PartialEq, Eq, Structural)]
pub enum ReflectedState {
    /// The guest's binding supplies it.
    Guest,
    /// The shader fixes it.
    Static { unnormalized: bool },
    /// The shader fixes it to something this rail cannot express.
    Unrepresentable,
}

/// A sampler a shader declares.
#[derive(Clone, Copy, Debug, PartialEq, Eq, Structural)]
pub struct ReflectedSampler {
    pub binding: u32,
    pub state: ReflectedState,
}

/// One specialised shader: the samplers it declares, the bindings of those that
/// a guest sampler may fill, and whether it orders its pixels.
pub struct ShaderVariant {
    pub samplers: Vec<ReflectedSampler>,
    pub guest_bindings: Vec<u32>,
    pub pixel_interlock: bool,
}

/// A retained shader source: its digest, and every descriptor binding it
/// declares when that list is known to be complete.
pub struct SourceInfo {
    pub digest: (u64, u64, u64),
    pub declared: Option<Vec<u32>>,
}

/// Whether a list of numbers holds one.
pub fn holds(values: &Vec<u32>, value: u32) -> (r: bool)
    ensures
        r == values@.contains(value),
{
    let mut n: usize = 0;
    while n < values.len()
        invariant
            0 <= n <= values@.len(),
            forall|k: int| 0 <= k < n ==> values@[k] != value,
        decreases values@.len() - n,
    {
        if values[n] == value {
            assert(values@[n as int] == value);
            return true;
        }
        n += 1;
    }
    false
}

impl SourceInfo {
    /// The source is known not to declare the binding.
    pub open spec fn lacks(self, binding: u32) -> bool {
        self.declared matches Some(list) && !list@.contains(binding)
    }

    /// The source is known not to declare the binding.
    pub fn absent(&self, binding: u32) -> (r: bool)
        ensures
            r == self.lacks(binding),
    {
        match &self.declared {
            Some(list) => !holds(list, binding),
            None => false,
        }
    }
}

/// The descriptor declared for a texture index, the first where several are.
pub open spec fn descriptor_of(textures: Seq<TextureDescriptor>, index: u32) -> Option<
    TextureDescriptor,
>
    decreases textures.len(),
{
    if textures.len() == 0 {
        None
    } else if textures[0].index == index {
        Some(textures[0])
    } else {
        descriptor_of(textures.skip(1), index)
    }
}

impl Reflection {
    /// The descriptor declared for a texture index.
    pub fn texture_descriptor(&self, index: u32) -> (descriptor: Option<TextureDescriptor>)
        ensures
            descriptor == descriptor_of(self.textures@, index),
    {
        let mut n: usize = 0;
        assert(self.textures@.skip(0) =~= self.textures@);
        while n < self.textures.len()
            invariant
                0 <= n <= self.textures@.len(),
                descriptor_of(self.textures@.skip(n as int), index) == descriptor_of(
                    self.textures@,
                    index,
                ),
            decreases self.textures@.len() - n,
        {
            let texture: TextureDescriptor = self.textures[n];
            if texture.index == index {
                return Some(texture);
            }
            assert(self.textures@.skip(n as int).skip(1) =~= self.textures@.skip(n + 1));
            n += 1;
        }
        None
    }

    /// Some declared resource has the kind.
    pub open spec fn declares(self, kind: ResourceKind) -> bool {
        exists|k: int| 0 <= k < self.bindings@.len() && (#[trigger] self.bindings@[k]).kind == kind
    }

    /// Whether some declared resource has the kind.
    pub fn has_kind(&self, kind: ResourceKind) -> (r: bool)
        ensures
            r == self.declares(kind),
    {
        let mut n: usize = 0;
        while n < self.bindings.len()
            invariant
                0 <= n <= self.bindings@.len(),
                forall|k: int| 0 <= k < n ==> (#[trigger] self.bindings@[k]).kind != kind,
            decreases self.bindings@.len() - n,
        {
            if self.bindings[n].kind == kind {
                return true;
            }
            n += 1;
        }
        false
    }
}

/// The two shaders of a pipeline as they will be bound: which sources they come
/// from, and whether fragment resources have moved out of the vertex range.
pub struct PipelineInputs {
    pub vertex: ShaderVariant,
    pub fragment: ShaderVariant,
    pub sources: (SourceInfo, SourceInfo),
    pub buf_collide: bool,
    pub separate: bool,
}

/// Some index has a buffer in both stages.
pub open spec fn buffers_collide(vertex: Seq<BufferSlot>, fragment: Seq<BufferSlot>) -> bool {
    exists|i: int, j: int|
        0 <= i < vertex.len() && 0 <= j < fragment.len() && (#[trigger] vertex[i]).buffer is Some
            && (#[trigger] fragment[j]).buffer is Some && vertex[i].index == fragment[j].index
}

/// Some slot holds an object.
pub open spec fn any_object(slots: Seq<ObjectSlot>) -> bool {
    exists|k: int| 0 <= k < slots.len() && (#[trigger] slots[k]).object is Some
}

/// The stage binds a texture or a sampler.
pub open spec fn samples(stage: StageTables) -> bool {
    any_object(stage.textures@) || any_object(stage.samplers@)
}

/// Fragment textures and samplers get a range of their own when both stages
/// sample, when buffers already had to move, or when the two shaders declare
/// the same sampled binding.
pub open spec fn stages_separate(bindings: RenderBindings, reflected_collision: bool) -> bool {
    ||| samples(bindings.vertex) && samples(bindings.fragment)
    ||| buffers_collide(bindings.vertex.buffers@, bindings.fragment.buffers@)
    ||| reflected_collision
}

fn holds_object(slots: &Vec<ObjectSlot>) -> (r: bool)
    ensures
        r == any_object(slots@),
{
    let mut n: usize = 0;
    while n < slots.len()
        invariant
            0 <= n <= slots@.len(),
            forall|k: int| 0 <= k < n ==> (#[trigger] slots@[k]).object is None,
        decreases slots@.len() - n,
    {
        if slots[n].object.is_some() {
            return true;
        }
        n += 1;
    }
    false
}

fn fragment_binds(slots: &Vec<BufferSlot>, index: u32) -> (r: bool)
    ensures
        r == exists|j: int|
            0 <= j < slots@.len() && (#[trigger] slots@[j]).buffer is Some && slots@[j].index
                == index,
{
    let mut n: usize = 0;
    while n < slots.len()
        invariant
            0 <= n <= slots@.len(),
            forall|k: int|
                0 <= k < n ==> !((#[trigger] slots@[k]).buffer is Some && slots@[k].index == index),
        decreases slots@.len() - n,
    {
        if slots[n].buffer.is_some() && slots[n].index == index {
            return true;
        }
        n += 1;
    }
    false
}

impl RenderBindings {
    /// Whether some index has a buffer in both stages.
    pub fn buffer_collision(&self) -> (r: bool)
        ensures
            r == buffers_collide(self.vertex.buffers@, self.fragment.buffers@),
    {
        let vertex: &Vec<BufferSlot> = &self.vertex.buffers;
        let mut n: usize = 0;
        while n < vertex.len()
            invariant
                0 <= n <= vertex@.len(),
                vertex@ == self.vertex.buffers@,
                forall|i: int, j: int|
                    0 <= i < n && 0 <= j < self.fragment.buffers@.len() && (
                    #[trigger] vertex@[i]).buffer is Some && (
                    #[trigger] self.fragment.buffers@[j]).buffer is Some ==> vertex@[i].index
                        != self.fragment.buffers@[j].index,
            decreases vertex@.len() - n,
        {
            if vertex[n].buffer.is_some() && fragment_binds(
                &self.fragment.buffers,
                vertex[n].index,
            ) {
                return true;
            }
            n += 1;
        }
        false
    }

    /// Whether fragment textures and samplers get a range of their own.
    pub fn separate_stages(&self, reflected_collision: bool) -> (r: bool)
        ensures
            r == stages_separate(*self, reflected_collision),
    {
        let vertex: bool = holds_object(&self.vertex.textures) || holds_object(
            &self.vertex.samplers,
        );
        let fragment: bool = holds_object(&self.fragment.textures) || holds_object(
            &self.fragment.samplers,
        );
        (vertex && fragment) || self.buffer_collision() || reflected_collision
    }
}

/// A texture index has the first descriptor declared for exactly it, and none
/// where none is declared.
pub proof fn law_the_first_declared_descriptor_is_used(textures: Seq<TextureDescriptor>, index: u32, k: int)
    ensures
        0 <= k < textures.len() && textures[k].index == index && (forall|j: int|
            0 <= j < k ==> !((#[trigger] textures[j]).index == index)) ==> descriptor_of(textures, index) == Some(textures[k]),
        (forall|j: int| 0 <= j < textures.len() ==> !((#[trigger] textures[j]).index == index)) ==> descriptor_of(
            textures,
            index,
        ) is None,
    decreases textures.len(),
{
    if textures.len() > 0 {
        let rest = textures.skip(1);
        assert forall|j: int| 0 <= j < rest.len() implies #[trigger] rest[j] == textures[j + 1] by {}
        law_the_first_declared_descriptor_is_used(rest, index, k - 1);
        if 0 < k < textures.len() {
            assert(rest[k - 1] == textures[k]);
        }
    }
}

/// Buffers of the two stages collide exactly when some index has one in both,
/// whichever stage is asked first; a slot without a buffer collides with nothing.
pub proof fn law_colliding_buffers_share_an_index(
    vertex: Seq<BufferSlot>,
    fragment: Seq<BufferSlot>,
    i: int,
    j: int,
)
    ensures
        buffers_collide(vertex, fragment) == buffers_collide(fragment, vertex),
        0 <= i < vertex.len() && 0 <= j < fragment.len() && vertex[i].index == fragment[j].index
            && vertex[i].buffer is Some && fragment[j].buffer is Some ==> buffers_collide(
            vertex,
            fragment,
        ),
        (forall|k: int| 0 <= k < vertex.len() ==> (#[trigger] vertex[k]).buffer is None)
            ==> !buffers_collide(vertex, fragment),
        (forall|a: int, b: int|
            0 <= a < vertex.len() && 0 <= b < fragment.len() ==> (#[trigger] vertex[a]).index != (
            #[trigger] fragment[b]).index) ==> !buffers_collide(vertex, fragment),
{
    if buffers_collide(vertex, fragment) {
        let (a, b) = choose|a: int, b: int|
            0 <= a < vertex.len() && 0 <= b < fragment.len() && (#[trigger] vertex[a]).buffer
                is Some && (#[trigger] fragment[b]).buffer is Some && vertex[a].index
                == fragment[b].index;
        assert(fragment[b].buffer is Some && vertex[a].buffer is Some);
    }
    if buffers_collide(fragment, vertex) {
        let (b, a) = choose|b: int, a: int|
            0 <= b < fragment.len() && 0 <= a < vertex.len() && (#[trigger] fragment[b]).buffer
                is Some && (#[trigger] vertex[a]).buffer is Some && fragment[b].index
                == vertex[a].index;
        assert(vertex[a].buffer is Some && fragment[b].buffer is Some);
    }
}

/// Fragment textures and samplers keep the vertex stage's range only where at most
/// one stage samples, no buffers collide and the shaders declare nothing twice.
pub proof fn law_stages_share_a_range_only_where_nothing_meets(
    bindings: RenderBindings,
    reflected_collision: bool,
    i: int,
    j: int,
)
    ensures
        reflected_collision ==> stages_separate(bindings, reflected_collision),
        buffers_collide(bindings.vertex.buffers@, bindings.fragment.buffers@) ==> stages_separate(
            bindings,
            reflected_collision,
        ),
        0 <= i < bindings.vertex.textures@.len() && bindings.vertex.textures@[i].object is Some && 0
            <= j < bindings.fragment.textures@.len() && bindings.fragment.textures@[j].object
            is Some ==> stages_separate(bindings, reflected_collision),
        0 <= i < bindings.vertex.samplers@.len() && bindings.vertex.samplers@[i].object is Some && 0
            <= j < bindings.fragment.textures@.len() && bindings.fragment.textures@[j].object
            is Some ==> stages_separate(bindings, reflected_collision),
        0 <= i < bindings.vertex.textures@.len() && bindings.vertex.textures@[i].object is Some && 0
            <= j < bindings.fragment.samplers@.len() && bindings.fragment.samplers@[j].object
            is Some ==> stages_separate(bindings, reflected_collision),
        0 <= i < bindings.vertex.samplers@.len() && bindings.vertex.samplers@[i].object is Some && 0
            <= j < bindings.fragment.samplers@.len() && bindings.fragment.samplers@[j].object
            is Some ==> stages_separate(bindings, reflected_collision),
        !reflected_collision && !buffers_collide(
            bindings.vertex.buffers@,
            bindings.fragment.buffers@,
        ) && ((forall|k: int|
            0 <= k < bindings.vertex.textures@.len() ==> (
            #[trigger] bindings.vertex.textures@[k]).object is None) && (forall|k: int|
            0 <= k < bindings.vertex.samplers@.len() ==> (
            #[trigger] bindings.vertex.samplers@[k]).object is None) || (forall|k: int|
            0 <= k < bindings.fragment.textures@.len() ==> (
            #[trigger] bindings.fragment.textures@[k]).object is None) && (forall|k: int|
            0 <= k < bindings.fragment.samplers@.len() ==> (
            #[trigger] bindings.fragment.samplers@[k]).object is None)) ==> !stages_separate(
            bindings,
            reflected_collision,
        ),
{
}

/// A source lacks a binding only where its list is known to be complete and does
/// not name it.
pub proof fn law_an_unknown_list_lacks_nothing(source: SourceInfo, binding: u32, k: int)
    ensures
        source.declared is None ==> !source.lacks(binding),
        source.declared matches Some(list) && 0 <= k < list@.len() && list@[k] == binding
            ==> !source.lacks(binding),
        source.declared is Some && (forall|j: int|
            0 <= j < source.declared->0@.len() ==> #[trigger] source.declared->0@[j] != binding)
            ==> source.lacks(binding),
{
}

} // verus!
