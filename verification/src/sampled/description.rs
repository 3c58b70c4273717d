//! Which surface textures may be sampled as they lie.
use crate::sampled::packed::PackedLayout;
use vstd::prelude::*;

verus! {

/// Length of the serialized narrow texture record.
pub const IOSURFACE_TEXTURE_TOTAL_LEN: usize = 48;

/// The kind word of a serialized narrow texture record.
pub const TYPE11_TEXTURE_ARGS_KIND: u32 = 0x2f;

/// Bytes of one converted texel.
pub const RGBA8_BPP: u32 = 4;

/// A surface texture that is sampled without reinterpretation.
#[derive(Clone, Copy, Debug, PartialEq, Eq, Structural)]
pub struct Description {
    pub mapping_id: u32,
    pub width: u32,
    pub height: u32,
    pub format: u16,
}

/// The decoded head of a surface texture record.
#[derive(Clone, Copy, Debug)]
pub struct SurfaceTexture {
    pub mapping_id: u32,
    pub object_ref: u32,
    pub pixel_format: u16,
    pub width: u32,
    pub height: u32,
}

/// The body of a serialized narrow texture record.
#[derive(Clone, Copy, Debug)]
pub struct NarrowBody {
    pub object_ref: u32,
    pub plane: u32,
    pub texture_type: u32,
    pub depth: u32,
    pub mipmap_level_count: u32,
    pub sample_count: u32,
    pub array_length: u32,
    /// Usage bits no declared capability has.
    pub undeclared_usage: u32,
    pub unidentified_flags: u32,
    pub unidentified_u64: u64,
    pub resource_options: u16,
    pub cpu_cache_mode: u32,
    pub storage_mode: u32,
    pub hazard_tracking_mode: u32,
}

/// A texture resource as it was constructed, and what is known of its format.
pub struct TextureResource {
    /// The object is a texture over a surface mapping.
    pub mapper_ref_texture: bool,
    /// The decoded head, where it decodes to a surface texture.
    pub surface: Option<SurfaceTexture>,
    /// The construction record.
    pub descriptor: Vec<u8>,
    /// The record has the length of one that names a surface view and nothing
    /// else.
    pub view_only: bool,
    /// The body of a serialized record, where it decodes.
    pub body: Option<NarrowBody>,
    /// The format names a planar surface.
    pub planar_format: bool,
    /// The extent is one a surface can have.
    pub extent_ok: bool,
    /// Rows of the format convert to four-byte colour.
    pub converts_to_rgba8: bool,
}

/// What a texture that stays on ordinary staging is counted under.
#[derive(Clone, Copy, Debug, PartialEq, Eq, Structural)]
pub enum Fallback {
    /// Not counted.
    Silent,
    Shape,
    Usage,
    Flags,
}

impl Fallback {
    /// The name of the counter, where there is one.
    pub open spec fn slug_text(self) -> Option<Seq<char>> {
        match self {
            Fallback::Silent => None,
            Fallback::Shape => Some("metal_packed_mapping_shape_fallback"@),
            Fallback::Usage => Some("metal_packed_mapping_usage_fallback"@),
            Fallback::Flags => Some("metal_packed_mapping_flags_fallback"@),
        }
    }

    /// The name of the counter, where there is one.
    pub fn slug(self) -> (text: Option<&'static str>)
        ensures
            text is Some <==> self.slug_text() is Some,
            text matches Some(t) ==> Some(t@) == self.slug_text(),
    {
        match self {
            Fallback::Silent => None,
            Fallback::Shape => Some("metal_packed_mapping_shape_fallback"),
            Fallback::Usage => Some("metal_packed_mapping_usage_fallback"),
            Fallback::Flags => Some("metal_packed_mapping_flags_fallback"),
        }
    }
}

/// The little-endian word at `at`.
pub open spec fn word_at(bytes: Seq<u8>, at: int) -> int {
    bytes[at] + bytes[at + 1] * 0x100 + bytes[at + 2] * 0x1_0000 + bytes[at + 3] * 0x100_0000
}

fn load_word(bytes: &Vec<u8>, at: usize) -> (word: u32)
    requires
        at + 4 <= bytes@.len(),
    ensures
        word == word_at(bytes@, at as int),
{
    assert(bytes@.len() == bytes.len());
    bytes[at] as u32 + bytes[at + 1] as u32 * 0x100 + bytes[at + 2] as u32 * 0x1_0000 + bytes[at
        + 3] as u32 * 0x100_0000
}

/// The body is one level of one plain two-dimensional image, whole.
pub open spec fn plain_body(body: NarrowBody, reference: u32) -> bool {
    &&& body.object_ref == reference
    &&& body.plane == 0
    &&& body.texture_type == 2
    &&& body.depth == 1
    &&& body.mipmap_level_count == 1
    &&& body.sample_count == 1
    &&& body.array_length == 1
}

/// Nothing in the body is undecoded.
pub open spec fn known_flags(body: NarrowBody) -> bool {
    &&& body.unidentified_flags == 0
    &&& body.unidentified_u64 == 0
    &&& body.resource_options & !0x0331u16 == 0
    &&& body.cpu_cache_mode <= 1
    &&& body.storage_mode <= 2
    &&& body.hazard_tracking_mode <= 2
}

/// Why a record's tail keeps the texture on ordinary staging. The bare record
/// has none; the serialized one must be fully known; any other length is not.
/// Usage names capabilities, not current writers, so any declared usage passes.
pub open spec fn tail_fallback(resource: TextureResource, reference: u32) -> Option<Fallback> {
    let len = resource.descriptor@.len();
    if resource.view_only {
        None
    } else if len != 8 + IOSURFACE_TEXTURE_TOTAL_LEN || word_at(resource.descriptor@, 8)
        != TYPE11_TEXTURE_ARGS_KIND {
        Some(Fallback::Silent)
    } else {
        match resource.body {
            None => Some(Fallback::Silent),
            Some(body) => if !plain_body(body, reference) {
                Some(Fallback::Shape)
            } else if body.undeclared_usage != 0 {
                Some(Fallback::Usage)
            } else if !known_flags(body) {
                Some(Fallback::Flags)
            } else {
                None
            },
        }
    }
}

/// The description of a texture that is sampled as it lies, or what keeps it on
/// ordinary staging.
pub open spec fn described(resource: TextureResource, reference: u32) -> Result<
    Description,
    Fallback,
> {
    if !resource.mapper_ref_texture {
        Err(Fallback::Silent)
    } else {
        match resource.surface {
            None => Err(Fallback::Silent),
            Some(surface) => if surface.object_ref != reference || resource.planar_format
                || !resource.extent_ok || !resource.converts_to_rgba8 {
                Err(Fallback::Silent)
            } else {
                match tail_fallback(resource, reference) {
                    Some(fallback) => Err(fallback),
                    None => Ok(
                        Description {
                            mapping_id: surface.mapping_id,
                            width: surface.width,
                            height: surface.height,
                            format: surface.pixel_format,
                        },
                    ),
                }
            },
        }
    }
}

impl Description {
    /// The description of a texture that is sampled as it lies, or what keeps it
    /// on ordinary staging.
    pub fn decode(resource: &TextureResource, reference: u32) -> (r: Result<Description, Fallback>)
        ensures
            r == described(*resource, reference),
    {
        if !resource.mapper_ref_texture {
            return Err(Fallback::Silent);
        }
        let surface: SurfaceTexture = match resource.surface {
            Some(surface) => surface,
            None => {
                return Err(Fallback::Silent);
            },
        };
        if surface.object_ref != reference || resource.planar_format || !resource.extent_ok
            || !resource.converts_to_rgba8 {
            return Err(Fallback::Silent);
        }
        if !resource.view_only {
            if resource.descriptor.len() != 8 + IOSURFACE_TEXTURE_TOTAL_LEN || load_word(
                &resource.descriptor,
                8,
            ) != TYPE11_TEXTURE_ARGS_KIND {
                return Err(Fallback::Silent);
            }
            let body: NarrowBody = match resource.body {
                Some(body) => body,
                None => {
                    return Err(Fallback::Silent);
                },
            };
            if body.object_ref != reference || body.plane != 0 || body.texture_type != 2
                || body.depth != 1 || body.mipmap_level_count != 1 || body.sample_count != 1
                || body.array_length != 1 {
                return Err(Fallback::Shape);
            }
            if body.undeclared_usage != 0 {
                return Err(Fallback::Usage);
            }
            if body.unidentified_flags != 0 || body.unidentified_u64 != 0 || body.resource_options
                & !0x0331u16 != 0 || body.cpu_cache_mode > 1 || body.storage_mode > 2
                || body.hazard_tracking_mode > 2 {
                return Err(Fallback::Flags);
            }
        }
        Ok(
            Description {
                mapping_id: surface.mapping_id,
                width: surface.width,
                height: surface.height,
                format: surface.pixel_format,
            },
        )
    }

    /// The layout its texels have once converted.
    pub open spec fn converted(self) -> PackedLayout {
        PackedLayout {
            width: self.width,
            height: self.height,
            pixel_format: 0,
            bytes_per_row: (self.width * RGBA8_BPP) as u32,
        }
    }

    /// The layout its texels have once converted.
    pub fn output(self) -> (layout: PackedLayout)
        requires
            self.width * RGBA8_BPP <= u32::MAX,
        ensures
            layout == self.converted(),
    {
        PackedLayout {
            width: self.width,
            height: self.height,
            pixel_format: 0,
            bytes_per_row: self.width * RGBA8_BPP,
        }
    }
}

/// A texture is sampled as it lies exactly when it is a surface texture of its own
/// reference, of one plane, with an extent and a format that convert, and its
/// record either names a view and nothing else or is a serialized one that is
/// known throughout: the whole of one plain image, with declared usage alone.
pub proof fn law_only_known_records_are_sampled_as_they_lie(
    resource: TextureResource,
    reference: u32,
)
    ensures
        described(resource, reference) is Ok <==> {
            &&& resource.mapper_ref_texture
            &&& resource.surface matches Some(surface) && surface.object_ref == reference
            &&& !resource.planar_format
            &&& resource.extent_ok
            &&& resource.converts_to_rgba8
            &&& resource.view_only || {
                &&& resource.descriptor@.len() == 56
                &&& word_at(resource.descriptor@, 8) == 47
                &&& resource.body matches Some(body) && {
                    &&& body.object_ref == reference && body.plane == 0 && body.texture_type == 2
                    &&& body.depth == 1 && body.mipmap_level_count == 1 && body.sample_count == 1
                        && body.array_length == 1
                    &&& body.undeclared_usage == 0
                    &&& body.unidentified_flags == 0 && body.unidentified_u64 == 0
                    &&& body.resource_options & !0x0331u16 == 0
                    &&& body.cpu_cache_mode < 2 && body.storage_mode < 3
                        && body.hazard_tracking_mode < 3
                }
            }
        },
        described(resource, reference) matches Ok(d) ==> {
            let surface = resource.surface->0;
            &&& d.mapping_id == surface.mapping_id
            &&& d.width == surface.width
            &&& d.height == surface.height
            &&& d.format == surface.pixel_format
        },
{
}

/// A fallback is counted for what a decoded serialized record has: its shape
/// before its usage, and its usage before its flags.
pub proof fn law_a_counted_fallback_has_its_cause(resource: TextureResource, reference: u32)
    ensures
        described(resource, reference) matches Err(fallback) ==> (fallback != Fallback::Silent ==> {
            &&& resource.mapper_ref_texture && !resource.view_only
            &&& resource.surface is Some && resource.body is Some
            &&& fallback == Fallback::Shape <==> !plain_body(resource.body->0, reference)
            &&& fallback == Fallback::Usage <==> plain_body(resource.body->0, reference)
                && resource.body->0.undeclared_usage != 0
            &&& fallback == Fallback::Flags <==> plain_body(resource.body->0, reference)
                && resource.body->0.undeclared_usage == 0
            &&& fallback == Fallback::Flags ==> !known_flags(resource.body->0)
        }),
{
}

/// A word is little-endian: its lowest byte comes first, and each further byte
/// weighs as much as two hundred and fifty-six of the one before it.
pub proof fn law_words_are_little_endian(bytes: Seq<u8>, at: int, value: u8)
    requires
        0 <= at,
        at + 4 <= bytes.len(),
    ensures
        word_at(bytes.update(at, value), at) - word_at(bytes, at) == value - bytes[at],
        word_at(bytes.update(at + 1, value), at) - word_at(bytes, at) == 256 * (value - bytes[at
            + 1]),
        word_at(bytes.update(at + 2, value), at) - word_at(bytes, at) == 65536 * (value - bytes[at
            + 2]),
        word_at(bytes.update(at + 3, value), at) - word_at(bytes, at) == 16777216 * (value
            - bytes[at + 3]),
        bytes[at] == 0 && bytes[at + 1] == 0 && bytes[at + 2] == 0 && bytes[at + 3] == 0 ==> word_at(
            bytes,
            at,
        ) == 0,
{
}

/// Converted texels have the extent of the texture, four bytes each and no padding
/// between rows, and are of no native format.
pub proof fn law_converted_texels_are_tightly_packed(description: Description)
    requires
        description.width * 4 <= u32::MAX,
    ensures
        description.converted().bytes_per_row == 4 * description.width,
        description.converted().width == description.width,
        description.converted().height == description.height,
        description.converted().pixel_format == 0,
{
}

/// No two fallbacks are counted under one name.
pub proof fn law_every_fallback_has_a_counter_of_its_own(a: Fallback, b: Fallback)
    ensures
        a.slug_text() == b.slug_text() && a.slug_text() is Some ==> a == b,
{
    reveal_strlit("metal_packed_mapping_shape_fallback");
    reveal_strlit("metal_packed_mapping_usage_fallback");
    reveal_strlit("metal_packed_mapping_flags_fallback");
    assert("metal_packed_mapping_shape_fallback"@.len() == 35 && "metal_packed_mapping_shape_fallback"@[22] == 'h');
    assert("metal_packed_mapping_usage_fallback"@.len() == 35 && "metal_packed_mapping_usage_fallback"@[22] == 's');
    assert("metal_packed_mapping_flags_fallback"@.len() == 35 && "metal_packed_mapping_flags_fallback"@[22] == 'l');
}

} // verus!
