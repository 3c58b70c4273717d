//! What native preparation reads of a task's objects.
use crate::native_pipeline::reason::PreflightReason;
use vstd::prelude::*;

verus! {

/// An object-list slot together with the generation that was declared in it.
#[derive(Clone, Copy, Debug, PartialEq, Eq, Structural)]
pub struct ResourceId {
    pub slot: u32,
    pub generation: u64,
}

/// The decoded record of a texture-like object, in the order in which its
/// shapes are recognised.
#[allow(inconsistent_fields)]
#[derive(Clone, Copy, Debug)]
pub enum TextureRecord {
    /// A pass-local texture; no format when its descriptor does not decode.
    Memoryless { pixel_format: Option<u16> },
    /// A texture laid over a buffer object.
    BufferTexture { pixel_format: u16, buffer_ref: u32 },
    Texture { pixel_format: u16 },
    /// A view; format zero means the base texture's format.
    View { pixel_format: u16, base_texture_ref: u32 },
    /// A surface texture, with its mapping's format while that mapping is live;
    /// format zero means the mapping's format.
    Surface { pixel_format: u16, mapping_format: Option<u16> },
    /// Anything else, or a descriptor that does not decode.
    Other,
}

/// A resolved owner: its record, and its allocation where it names one itself.
#[derive(Clone, Copy, Debug)]
pub struct ObjectOwner {
    pub reference: u32,
    pub record: TextureRecord,
    pub backing: Option<u64>,
}

/// A buffer object and the number of bytes it spans.
#[derive(Clone, Copy, Debug)]
pub struct BufferSpan {
    pub reference: u32,
    pub size: u64,
}

/// The objects a task can resolve, and how many views may be chained.
pub struct Objects {
    pub owners: Vec<ObjectOwner>,
    pub buffers: Vec<BufferSpan>,
    pub max_view_chain: usize,
}

/// The first owner recorded for a reference.
pub open spec fn owner_of(owners: Seq<ObjectOwner>, reference: u32) -> Option<ObjectOwner>
    decreases owners.len(),
{
    if owners.len() == 0 {
        None
    } else if owners[0].reference == reference {
        Some(owners[0])
    } else {
        owner_of(owners.skip(1), reference)
    }
}

/// The size of the first buffer recorded for a reference.
pub open spec fn buffer_size_of(buffers: Seq<BufferSpan>, reference: u32) -> Option<u64>
    decreases buffers.len(),
{
    if buffers.len() == 0 {
        None
    } else if buffers[0].reference == reference {
        Some(buffers[0].size)
    } else {
        buffer_size_of(buffers.skip(1), reference)
    }
}

/// The pixel format a reference stands for, and whether it is pass-local.
pub open spec fn format_of(objects: Objects, reference: u32, depth: int) -> Result<
    (u16, bool),
    PreflightReason,
>
    decreases objects.max_view_chain - depth,
{
    if depth >= objects.max_view_chain {
        Err(PreflightReason::ViewChain)
    } else {
        match owner_of(objects.owners@, reference) {
            None => Err(PreflightReason::TextureOwner),
            Some(owner) => match owner.record {
                TextureRecord::Memoryless { pixel_format } => match pixel_format {
                    Some(format) => Ok((format, true)),
                    None => Err(PreflightReason::MemorylessDescriptor),
                },
                TextureRecord::BufferTexture { pixel_format, buffer_ref } => Ok(
                    (pixel_format, false),
                ),
                TextureRecord::Texture { pixel_format } => Ok((pixel_format, false)),
                TextureRecord::View { pixel_format, base_texture_ref } => match format_of(
                    objects,
                    base_texture_ref,
                    depth + 1,
                ) {
                    Ok((format, memoryless)) => Ok(
                        (
                            if pixel_format == 0 {
                                format
                            } else {
                                pixel_format
                            },
                            memoryless,
                        ),
                    ),
                    Err(reason) => Err(reason),
                },
                TextureRecord::Surface { pixel_format, mapping_format } => match mapping_format {
                    Some(format) => Ok(
                        (
                            if pixel_format != 0 {
                                pixel_format
                            } else {
                                format
                            },
                            false,
                        ),
                    ),
                    None => Err(PreflightReason::MappingUnavailable),
                },
                TextureRecord::Other => Err(PreflightReason::TextureDescriptor),
            },
        }
    }
}

/// The allocation a reference stands for; none for a pass-local texture.
pub open spec fn backing_of(objects: Objects, reference: u32, depth: int) -> Result<
    Option<u64>,
    PreflightReason,
>
    decreases objects.max_view_chain - depth,
{
    if depth >= objects.max_view_chain {
        Err(PreflightReason::BackingChain)
    } else {
        match owner_of(objects.owners@, reference) {
            None => Err(PreflightReason::BackingOwner),
            Some(owner) => if owner.record is Memoryless {
                Ok(None)
            } else if owner.backing is Some {
                Ok(owner.backing)
            } else {
                match owner.record {
                    TextureRecord::BufferTexture { pixel_format, buffer_ref } => backing_of(
                        objects,
                        buffer_ref,
                        depth + 1,
                    ),
                    TextureRecord::View { pixel_format, base_texture_ref } => backing_of(
                        objects,
                        base_texture_ref,
                        depth + 1,
                    ),
                    _ => Err(PreflightReason::BackingUnavailable),
                }
            },
        }
    }
}

impl Objects {
    /// The first owner recorded for a reference.
    pub fn owner(&self, reference: u32) -> (owner: Option<ObjectOwner>)
        ensures
            owner == owner_of(self.owners@, reference),
    {
        let mut n: usize = 0;
        assert(self.owners@.skip(0) =~= self.owners@);
        while n < self.owners.len()
            invariant
                0 <= n <= self.owners@.len(),
                owner_of(self.owners@.skip(n as int), reference) == owner_of(
                    self.owners@,
                    reference,
                ),
            decreases self.owners@.len() - n,
        {
            let owner: ObjectOwner = self.owners[n];
            if owner.reference == reference {
                return Some(owner);
            }
            assert(self.owners@.skip(n as int).skip(1) =~= self.owners@.skip(n + 1));
            n += 1;
        }
        None
    }

    /// The size of the first buffer recorded for a reference.
    pub fn buffer_size(&self, reference: u32) -> (size: Option<u64>)
        ensures
            size == buffer_size_of(self.buffers@, reference),
    {
        let mut n: usize = 0;
        assert(self.buffers@.skip(0) =~= self.buffers@);
        while n < self.buffers.len()
            invariant
                0 <= n <= self.buffers@.len(),
                buffer_size_of(self.buffers@.skip(n as int), reference) == buffer_size_of(
                    self.buffers@,
                    reference,
                ),
            decreases self.buffers@.len() - n,
        {
            let buffer: BufferSpan = self.buffers[n];
            if buffer.reference == reference {
                return Some(buffer.size);
            }
            assert(self.buffers@.skip(n as int).skip(1) =~= self.buffers@.skip(n + 1));
            n += 1;
        }
        None
    }
}

/// The pixel format a reference stands for, and whether it is pass-local.
pub fn resource_format(objects: &Objects, reference: u32, depth: usize) -> (format: Result<
    (u16, bool),
    PreflightReason,
>)
    ensures
        format == format_of(*objects, reference, depth as int),
    decreases objects.max_view_chain - depth,
{
    if depth >= objects.max_view_chain {
        return Err(PreflightReason::ViewChain);
    }
    let owner: ObjectOwner = match objects.owner(reference) {
        Some(owner) => owner,
        None => {
            return Err(PreflightReason::TextureOwner);
        },
    };
    match owner.record {
        TextureRecord::Memoryless { pixel_format } => match pixel_format {
            Some(format) => Ok((format, true)),
            None => Err(PreflightReason::MemorylessDescriptor),
        },
        TextureRecord::BufferTexture { pixel_format, buffer_ref: _ } => Ok((pixel_format, false)),
        TextureRecord::Texture { pixel_format } => Ok((pixel_format, false)),
        TextureRecord::View { pixel_format, base_texture_ref } => {
            match resource_format(objects, base_texture_ref, depth + 1) {
                Ok((format, memoryless)) => Ok(
                    (
                        if pixel_format == 0 {
                            format
                        } else {
                            pixel_format
                        },
                        memoryless,
                    ),
                ),
                Err(reason) => Err(reason),
            }
        },
        TextureRecord::Surface { pixel_format, mapping_format } => match mapping_format {
            Some(format) => Ok(
                (
                    if pixel_format != 0 {
                        pixel_format
                    } else {
                        format
                    },
                    false,
                ),
            ),
            None => Err(PreflightReason::MappingUnavailable),
        },
        TextureRecord::Other => Err(PreflightReason::TextureDescriptor),
    }
}

/// The allocation a reference stands for; none for a pass-local texture.
pub fn resource_backing(objects: &Objects, reference: u32, depth: usize) -> (backing: Result<
    Option<u64>,
    PreflightReason,
>)
    ensures
        backing == backing_of(*objects, reference, depth as int),
    decreases objects.max_view_chain - depth,
{
    if depth >= objects.max_view_chain {
        return Err(PreflightReason::BackingChain);
    }
    let owner: ObjectOwner = match objects.owner(reference) {
        Some(owner) => owner,
        None => {
            return Err(PreflightReason::BackingOwner);
        },
    };
    if let TextureRecord::Memoryless { .. } = owner.record {
        return Ok(None);
    }
    if owner.backing.is_some() {
        return Ok(owner.backing);
    }
    match owner.record {
        TextureRecord::BufferTexture { pixel_format: _, buffer_ref } => resource_backing(
            objects,
            buffer_ref,
            depth + 1,
        ),
        TextureRecord::View { pixel_format: _, base_texture_ref } => resource_backing(
            objects,
            base_texture_ref,
            depth + 1,
        ),
        _ => Err(PreflightReason::BackingUnavailable),
    }
}

/// A view that states no format of its own answers exactly as its base does one
/// step further down the chain.
pub proof fn law_formatless_view_answers_as_its_base(objects: Objects, view: u32, base: u32, depth: int)
    requires
        depth < objects.max_view_chain,
        owner_of(objects.owners@, view) matches Some(owner) && owner.record == (
        TextureRecord::View { pixel_format: 0, base_texture_ref: base }),
    ensures
        format_of(objects, view, depth) == format_of(objects, base, depth + 1),
{
    assert(format_of(objects, base, depth + 1) matches Ok(answer) ==> answer == (
        answer.0,
        answer.1,
    ));
}

/// A chain of views that never leaves a closed set of references is refused for
/// its length, wherever it is entered.
pub proof fn law_view_cycle_is_refused(objects: Objects, cycle: Set<u32>, reference: u32, depth: int)
    requires
        cycle.contains(reference),
        forall|r: u32| #[trigger]
            cycle.contains(r) ==> (owner_of(objects.owners@, r) matches Some(owner) && (
            owner.record matches TextureRecord::View { pixel_format, base_texture_ref }
                && cycle.contains(base_texture_ref)) && owner.backing is None),
    ensures
        format_of(objects, reference, depth) == Err::<(u16, bool), PreflightReason>(
            PreflightReason::ViewChain,
        ),
        backing_of(objects, reference, depth) == Err::<Option<u64>, PreflightReason>(
            PreflightReason::BackingChain,
        ),
    decreases objects.max_view_chain - depth,
{
    if depth < objects.max_view_chain {
        let owner = owner_of(objects.owners@, reference)->0;
        match owner.record {
            TextureRecord::View { pixel_format, base_texture_ref } => {
                law_view_cycle_is_refused(objects, cycle, base_texture_ref, depth + 1);
            },
            _ => {},
        }
    }
}

/// A reference resolves to the first owner recorded for exactly it, and to nothing
/// without one.
pub proof fn law_the_first_owner_is_resolved(owners: Seq<ObjectOwner>, reference: u32, k: int)
    ensures
        0 <= k < owners.len() && owners[k].reference == reference && (forall|j: int|
            0 <= j < k ==> !((#[trigger] owners[j]).reference == reference)) ==> owner_of(owners, reference) == Some(owners[k]),
        (forall|j: int| 0 <= j < owners.len() ==> !((#[trigger] owners[j]).reference == reference)) ==> owner_of(
            owners,
            reference,
        ) is None,
    decreases owners.len(),
{
    if owners.len() > 0 {
        let rest = owners.skip(1);
        assert forall|j: int| 0 <= j < rest.len() implies #[trigger] rest[j] == owners[j + 1] by {}
        law_the_first_owner_is_resolved(rest, reference, k - 1);
        if 0 < k < owners.len() {
            assert(rest[k - 1] == owners[k]);
        }
    }
}

/// A buffer's size is that of the first span recorded for exactly its reference,
/// and an unrecorded buffer has none.
pub proof fn law_a_buffer_has_its_first_size(buffers: Seq<BufferSpan>, reference: u32, k: int)
    ensures
        0 <= k < buffers.len() && buffers[k].reference == reference && (forall|j: int|
            0 <= j < k ==> !((#[trigger] buffers[j]).reference == reference)) ==> buffer_size_of(buffers, reference) == Some(buffers[k].size),
        (forall|j: int| 0 <= j < buffers.len() ==> !((#[trigger] buffers[j]).reference == reference)) ==> buffer_size_of(
            buffers,
            reference,
        ) is None,
    decreases buffers.len(),
{
    if buffers.len() > 0 {
        let rest = buffers.skip(1);
        assert forall|j: int| 0 <= j < rest.len() implies #[trigger] rest[j] == buffers[j + 1] by {}
        law_a_buffer_has_its_first_size(rest, reference, k - 1);
        if 0 < k < buffers.len() {
            assert(rest[k - 1] == buffers[k]);
        }
    }
}

/// The references from `refs[0]` on are a chain of views, each onto the next.
pub open spec fn view_chain(objects: Objects, refs: Seq<u32>) -> bool {
    &&& refs.len() > 0
    &&& forall|i: int|
        0 <= i < refs.len() - 1 ==> #[trigger] views(objects, refs[i], refs[i + 1])
}

/// The first reference is a view onto the second.
pub open spec fn views(objects: Objects, view: u32, base: u32) -> bool {
    owner_of(objects.owners@, view) matches Some(owner) && (
    owner.record matches TextureRecord::View { base_texture_ref, .. } && base_texture_ref == base)
}

/// The pixel format a view states of its own.
pub open spec fn stated_format(objects: Objects, view: u32) -> u16 {
    match owner_of(objects.owners@, view) {
        Some(owner) => match owner.record {
            TextureRecord::View { pixel_format, .. } => pixel_format,
            _ => 0,
        },
        None => 0,
    }
}

/// A chain of views has the format of the first view in it that states one, and
/// where none does that of the texture it ends in; it is pass-local exactly when
/// that texture is.
pub proof fn law_a_view_chain_has_the_first_stated_format(
    objects: Objects,
    refs: Seq<u32>,
    depth: int,
    first: int,
)
    requires
        view_chain(objects, refs),
        depth >= 0,
        depth + refs.len() <= objects.max_view_chain,
        format_of(objects, refs.last(), depth + refs.len() - 1) is Ok,
        0 <= first < refs.len(),
        forall|i: int| 0 <= i < first ==> stated_format(objects, #[trigger] refs[i]) == 0,
        first < refs.len() - 1 ==> stated_format(objects, refs[first]) != 0,
    ensures
        format_of(objects, refs[0], depth) == Ok::<(u16, bool), PreflightReason>(
            (
                if first < refs.len() - 1 {
                    stated_format(objects, refs[first])
                } else {
                    (format_of(objects, refs.last(), depth + refs.len() - 1)->Ok_0).0
                },
                (format_of(objects, refs.last(), depth + refs.len() - 1)->Ok_0).1,
            ),
        ),
    decreases refs.len(),
{
    if refs.len() > 1 {
        let rest = refs.skip(1);
        assert(views(objects, refs[0], refs[0int + 1]));
        assert forall|i: int| 0 <= i < rest.len() - 1 implies #[trigger] views(
            objects,
            rest[i],
            rest[i + 1],
        ) by {
            assert(views(objects, refs[i + 1], refs[i + 1 + 1]));
        }
        assert(rest.last() == refs.last());
        if first > 0 {
            assert forall|i: int| 0 <= i < first - 1 implies stated_format(
                objects,
                #[trigger] rest[i],
            ) == 0 by {
                assert(rest[i] == refs[i + 1]);
            }
            assert(rest[first - 1] == refs[first]);
            law_a_view_chain_has_the_first_stated_format(objects, rest, depth + 1, first - 1);
            assert(stated_format(objects, refs[0]) == 0);
        } else {
            lemma_chain_resolves(objects, rest, depth + 1);
        }
    }
}

proof fn lemma_chain_resolves(objects: Objects, refs: Seq<u32>, depth: int)
    requires
        view_chain(objects, refs),
        depth >= 0,
        depth + refs.len() <= objects.max_view_chain,
        format_of(objects, refs.last(), depth + refs.len() - 1) is Ok,
    ensures
        format_of(objects, refs[0], depth) is Ok,
        (format_of(objects, refs[0], depth)->Ok_0).1 == (format_of(
            objects,
            refs.last(),
            depth + refs.len() - 1,
        )->Ok_0).1,
    decreases refs.len(),
{
    if refs.len() > 1 {
        let rest = refs.skip(1);
        assert(views(objects, refs[0], refs[0int + 1]));
        assert forall|i: int| 0 <= i < rest.len() - 1 implies #[trigger] views(
            objects,
            rest[i],
            rest[i + 1],
        ) by {
            assert(views(objects, refs[i + 1], refs[i + 1 + 1]));
        }
        assert(rest.last() == refs.last());
        lemma_chain_resolves(objects, rest, depth + 1);
    }
}

/// The first reference has no allocation of its own and is laid over the second.
pub open spec fn laid_over(objects: Objects, reference: u32, base: u32) -> bool {
    owner_of(objects.owners@, reference) matches Some(owner) && owner.backing is None && match owner.record {
        TextureRecord::View { base_texture_ref, .. } => base_texture_ref == base,
        TextureRecord::BufferTexture { buffer_ref, .. } => buffer_ref == base,
        _ => false,
    }
}

/// Whatever is laid over a texture or a buffer has the allocation that its chain
/// ends in, and none where that is pass-local.
pub proof fn law_a_chain_has_the_allocation_it_ends_in(
    objects: Objects,
    refs: Seq<u32>,
    depth: int,
    owner: ObjectOwner,
)
    requires
        refs.len() > 0,
        depth >= 0,
        depth + refs.len() <= objects.max_view_chain,
        forall|i: int|
            0 <= i < refs.len() - 1 ==> #[trigger] laid_over(objects, refs[i], refs[i + 1]),
        owner_of(objects.owners@, refs.last()) == Some(owner),
        owner.backing is Some || owner.record is Memoryless,
    ensures
        owner.record is Memoryless ==> backing_of(objects, refs[0], depth) == Ok::<
            Option<u64>,
            PreflightReason,
        >(None),
        !(owner.record is Memoryless) ==> backing_of(objects, refs[0], depth) == Ok::<
            Option<u64>,
            PreflightReason,
        >(owner.backing),
    decreases refs.len(),
{
    if refs.len() > 1 {
        let rest = refs.skip(1);
        assert(laid_over(objects, refs[0], refs[0int + 1]));
        assert forall|i: int| 0 <= i < rest.len() - 1 implies #[trigger] laid_over(
            objects,
            rest[i],
            rest[i + 1],
        ) by {
            assert(laid_over(objects, refs[i + 1], refs[i + 1 + 1]));
        }
        assert(rest.last() == refs.last());
        law_a_chain_has_the_allocation_it_ends_in(objects, rest, depth + 1, owner);
    }
}

/// A texture that is no view has a format of its own: a surface's own over its
/// mapping's, and only while it is mapped. Only a memoryless texture is pass-local.
pub proof fn law_a_texture_has_its_own_format(
    objects: Objects,
    reference: u32,
    depth: int,
    owner: ObjectOwner,
)
    requires
        0 <= depth < objects.max_view_chain,
        owner_of(objects.owners@, reference) == Some(owner),
        !(owner.record is View),
    ensures
        format_of(objects, reference, depth) matches Ok((format, memoryless)) ==> {
            &&& memoryless == (owner.record is Memoryless)
            &&& !(owner.record is Other)
            &&& owner.record matches TextureRecord::Memoryless { pixel_format: stated } ==> stated
                == Some(format)
            &&& owner.record matches TextureRecord::BufferTexture { pixel_format: stated, .. }
                ==> stated == format
            &&& owner.record matches TextureRecord::Texture { pixel_format: stated } ==> stated
                == format
            &&& owner.record matches TextureRecord::Surface { pixel_format: stated, mapping_format }
                ==> mapping_format is Some && (stated != 0 ==> format == stated) && (stated == 0
                ==> mapping_format == Some(format))
        },
        format_of(objects, reference, depth) is Err <==> (owner.record is Other || (
        owner.record matches TextureRecord::Memoryless { pixel_format: None }) || (
        owner.record matches TextureRecord::Surface { mapping_format: None, .. })),
{
}

} // verus!
