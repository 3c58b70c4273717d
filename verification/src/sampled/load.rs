//! The routes a sampled texture is loaded by, tried in order.
//!
//! Each outside answer leads to the next thing to ask, to an upload, or to a
//! refusal. Planar surfaces come first, then a published resident image, then a
//! direct surface window, then native packed texels, and last converted colour.
use crate::planar::ComputeStatus;
use crate::sampled::description::{described, Description, Fallback, TextureResource, RGBA8_BPP};
use crate::sampled::import::ImportedSample;
use crate::sampled::packed::{
    holds_bytes, PackedImage, PackedLayout, PackedNote, PackedStatus, RetainedPacked,
};
use crate::sampled::upload::{PlanarImage, PublishedSample, SampledUpload};
use crate::sampled::window::WindowStatus;
use std::sync::Arc;
use vstd::prelude::*;

verus! {

/// Why a sampled texture is not loaded.
#[allow(inconsistent_fields)]
#[derive(Clone, Copy, Debug, PartialEq, Eq, Structural)]
pub enum LoadRefusal {
    /// Planar staging failed.
    PlanarTexture { status: ComputeStatus },
    /// The surface window could not be read.
    PackedMapping { status: WindowStatus },
    /// The surface window could not be staged.
    PackedMappingStaging,
    /// Native texels could not be staged.
    PackedTexture,
    /// Native texels have no row width.
    PackedTexturePitch,
    /// Converted texels have no row width.
    SampledTexturePitch,
    /// The native image could not be made.
    PackedUpload { status: PackedStatus },
    /// Nothing could be loaded.
    Absent,
}

impl LoadRefusal {
    /// The class a refusal is reported under; none for a texture that simply
    /// could not be loaded.
    pub open spec fn class_text(self) -> Option<Seq<char>> {
        match self {
            LoadRefusal::PlanarTexture { status } => Some("draw_mtl_planar_texture"@),
            LoadRefusal::PackedMapping { status } => Some("draw_mtl_packed_mapping"@),
            LoadRefusal::PackedMappingStaging => Some("draw_mtl_packed_mapping"@),
            LoadRefusal::PackedTexture => Some("draw_mtl_packed_texture"@),
            LoadRefusal::PackedTexturePitch => Some("draw_mtl_packed_texture"@),
            LoadRefusal::SampledTexturePitch => Some("draw_mtl_sampled_texture"@),
            LoadRefusal::PackedUpload { status } => Some("draw_mtl_packed_texture"@),
            LoadRefusal::Absent => None,
        }
    }

    /// The class a refusal is reported under.
    pub fn class(self) -> (text: Option<&'static str>)
        ensures
            text is Some <==> self.class_text() is Some,
            text matches Some(t) ==> Some(t@) == self.class_text(),
    {
        match self {
            LoadRefusal::PlanarTexture { .. } => Some("draw_mtl_planar_texture"),
            LoadRefusal::PackedMapping { .. } => Some("draw_mtl_packed_mapping"),
            LoadRefusal::PackedMappingStaging => Some("draw_mtl_packed_mapping"),
            LoadRefusal::PackedTexture => Some("draw_mtl_packed_texture"),
            LoadRefusal::PackedTexturePitch => Some("draw_mtl_packed_texture"),
            LoadRefusal::SampledTexturePitch => Some("draw_mtl_sampled_texture"),
            LoadRefusal::PackedUpload { .. } => Some("draw_mtl_packed_texture"),
            LoadRefusal::Absent => None,
        }
    }
}

impl LoadRefusal {
    /// The reason a refusal names, where it is this module's own.
    pub open spec fn reason_text(self) -> Option<Seq<char>> {
        match self {
            LoadRefusal::PackedMappingStaging => Some("metal_packed_mapping_staging_failed"@),
            LoadRefusal::PackedTexturePitch => Some("draw_mtl_packed_texture_pitch"@),
            LoadRefusal::SampledTexturePitch => Some("draw_mtl_sampled_texture_pitch"@),
            _ => None,
        }
    }

    /// The reason a refusal names, where it is this module's own.
    pub fn reason(self) -> (text: Option<&'static str>)
        ensures
            text is Some <==> self.reason_text() is Some,
            text matches Some(t) ==> Some(t@) == self.reason_text(),
    {
        match self {
            LoadRefusal::PackedMappingStaging => Some("metal_packed_mapping_staging_failed"),
            LoadRefusal::PackedTexturePitch => Some("draw_mtl_packed_texture_pitch"),
            LoadRefusal::SampledTexturePitch => Some("draw_mtl_sampled_texture_pitch"),
            _ => None,
        }
    }
}

/// What kind of object a texture reference names.
#[derive(Clone, Copy, Debug)]
pub enum LoadObject {
    /// A plain texture, with its shape where its descriptor decodes.
    Texture { shape: Option<LoadShape> },
    /// A view; whether it is a texture laid over a buffer.
    View { buffer_texture: bool },
    /// Anything else, or nothing.
    Other,
}

/// The shape of a plain texture.
#[derive(Clone, Copy, Debug)]
pub struct LoadShape {
    pub mipmap_level_count: u32,
    pub depth: u32,
    pub sample_count: Option<u32>,
}

/// Native texels, staged without row padding and without quantizing.
pub struct RawTexels {
    pub width: u32,
    pub height: u32,
    pub pixel_format: u16,
    /// Bytes of one tightly packed row, where the format has a width.
    pub tight_row: Option<u32>,
    pub bytes: Vec<u8>,
}

/// The answer of the direct surface route.
pub enum MappingAnswer {
    /// The texture is no direct surface.
    NotDirect,
    /// It is read in place.
    Imported(Arc<ImportedSample>),
    /// It is loaded, retained or staged.
    Loaded(SampledUpload),
    /// Its window could not be read.
    Refused(WindowStatus),
    /// Its window could not be staged.
    StagingFailed,
}

/// What has just been answered.
pub enum LoadEvent {
    Begin,
    Planar(Result<Option<Arc<PlanarImage>>, ComputeStatus>),
    Resident(Option<Arc<PublishedSample>>),
    Mapping(MappingAnswer),
    Object(LoadObject),
    Raw(Option<RawTexels>),
    Rgba(Option<(u32, u32, Vec<u8>)>),
}

/// What to do next.
pub enum LoadAction {
    StagePlanar,
    SampleResident,
    LoadMapping,
    InspectObject,
    StageRaw,
    LoadRgba,
    /// Retain an image of the bytes.
    Retain { layout: PackedLayout, bytes: Vec<u8> },
    Serve(SampledUpload),
    Refuse(LoadRefusal),
}

/// The object's texels can be staged as they are: a plain texture with one
/// level, one layer and one sample, or a texture laid over a buffer.
pub open spec fn native_packed(object: LoadObject) -> bool {
    match object {
        LoadObject::Texture { shape } => shape matches Some(s) && s.mipmap_level_count == 1
            && s.depth == 1 && s.sample_count == Some(1u32),
        LoadObject::View { buffer_texture } => buffer_texture,
        LoadObject::Other => false,
    }
}

/// The action that follows an event.
pub open spec fn follows(event: LoadEvent, action: LoadAction) -> bool {
    match event {
        LoadEvent::Begin => action is StagePlanar,
        LoadEvent::Planar(answer) => match answer {
            Ok(Some(image)) => action == LoadAction::Serve(SampledUpload::Planar(image)),
            Ok(None) => action is SampleResident,
            Err(status) => action == LoadAction::Refuse(LoadRefusal::PlanarTexture { status }),
        },
        LoadEvent::Resident(answer) => match answer {
            Some(image) => action == LoadAction::Serve(SampledUpload::Resident(image)),
            None => action is LoadMapping,
        },
        LoadEvent::Mapping(answer) => match answer {
            MappingAnswer::NotDirect => action is InspectObject,
            MappingAnswer::Imported(image) => action == LoadAction::Serve(
                SampledUpload::Imported(image),
            ),
            MappingAnswer::Loaded(upload) => action == LoadAction::Serve(upload),
            MappingAnswer::Refused(status) => action == LoadAction::Refuse(
                LoadRefusal::PackedMapping { status },
            ),
            MappingAnswer::StagingFailed => action == LoadAction::Refuse(
                LoadRefusal::PackedMappingStaging,
            ),
        },
        LoadEvent::Object(object) => if native_packed(object) {
            action is StageRaw
        } else {
            action is LoadRgba
        },
        LoadEvent::Raw(answer) => match answer {
            None => action == LoadAction::Refuse(LoadRefusal::PackedTexture),
            Some(texels) => match texels.tight_row {
                None => action == LoadAction::Refuse(LoadRefusal::PackedTexturePitch),
                Some(bytes_per_row) => action == (LoadAction::Retain {
                    layout: PackedLayout {
                        width: texels.width,
                        height: texels.height,
                        pixel_format: texels.pixel_format as u32,
                        bytes_per_row,
                    },
                    bytes: texels.bytes,
                }),
            },
        },
        LoadEvent::Rgba(answer) => match answer {
            None => action == LoadAction::Refuse(LoadRefusal::Absent),
            Some((width, height, bytes)) => if width * RGBA8_BPP > u32::MAX {
                action == LoadAction::Refuse(LoadRefusal::SampledTexturePitch)
            } else {
                action == (LoadAction::Retain {
                    layout: PackedLayout {
                        width,
                        height,
                        pixel_format: 0,
                        bytes_per_row: (width * RGBA8_BPP) as u32,
                    },
                    bytes,
                })
            },
        },
    }
}

fn is_native_packed(object: LoadObject) -> (r: bool)
    ensures
        r == native_packed(object),
{
    match object {
        LoadObject::Texture { shape } => match shape {
            Some(s) => {
                let single: bool = match s.sample_count {
                    Some(count) => count == 1,
                    None => false,
                };
                s.mipmap_level_count == 1 && s.depth == 1 && single
            },
            None => false,
        },
        LoadObject::View { buffer_texture } => buffer_texture,
        LoadObject::Other => false,
    }
}

/// What to do next.
pub fn load_step(event: LoadEvent) -> (action: LoadAction)
    ensures
        follows(event, action),
{
    match event {
        LoadEvent::Begin => LoadAction::StagePlanar,
        LoadEvent::Planar(answer) => match answer {
            Ok(Some(image)) => LoadAction::Serve(SampledUpload::Planar(image)),
            Ok(None) => LoadAction::SampleResident,
            Err(status) => LoadAction::Refuse(LoadRefusal::PlanarTexture { status }),
        },
        LoadEvent::Resident(answer) => match answer {
            Some(image) => LoadAction::Serve(SampledUpload::Resident(image)),
            None => LoadAction::LoadMapping,
        },
        LoadEvent::Mapping(answer) => match answer {
            MappingAnswer::NotDirect => LoadAction::InspectObject,
            MappingAnswer::Imported(image) => LoadAction::Serve(SampledUpload::Imported(image)),
            MappingAnswer::Loaded(upload) => LoadAction::Serve(upload),
            MappingAnswer::Refused(status) => LoadAction::Refuse(
                LoadRefusal::PackedMapping { status },
            ),
            MappingAnswer::StagingFailed => LoadAction::Refuse(LoadRefusal::PackedMappingStaging),
        },
        LoadEvent::Object(object) => if is_native_packed(object) {
            LoadAction::StageRaw
        } else {
            LoadAction::LoadRgba
        },
        LoadEvent::Raw(answer) => match answer {
            None => LoadAction::Refuse(LoadRefusal::PackedTexture),
            Some(texels) => match texels.tight_row {
                None => LoadAction::Refuse(LoadRefusal::PackedTexturePitch),
                Some(bytes_per_row) => LoadAction::Retain {
                    layout: PackedLayout {
                        width: texels.width,
                        height: texels.height,
                        pixel_format: texels.pixel_format as u32,
                        bytes_per_row,
                    },
                    bytes: texels.bytes,
                },
            },
        },
        LoadEvent::Rgba(answer) => match answer {
            None => LoadAction::Refuse(LoadRefusal::Absent),
            Some((width, height, bytes)) => match width.checked_mul(RGBA8_BPP) {
                None => LoadAction::Refuse(LoadRefusal::SampledTexturePitch),
                Some(bytes_per_row) => LoadAction::Retain {
                    layout: PackedLayout { width, height, pixel_format: 0, bytes_per_row },
                    bytes,
                },
            },
        },
    }
}

/// What a direct surface is counted under when it stays on ordinary staging.
#[derive(Clone, Copy, Debug, PartialEq, Eq, Structural)]
pub struct DirectNotes {
    /// The reason its record gives, where the record has one.
    pub fallback: Option<Fallback>,
    /// A surface texture whose record is not one that is sampled as it lies.
    pub descriptor: bool,
}

impl DirectNotes {
    /// The name a surface texture with another record is counted under.
    pub open spec fn slug_text(self) -> Option<Seq<char>> {
        if self.descriptor {
            Some("metal_packed_mapping_descriptor_fallback"@)
        } else {
            None
        }
    }

    /// The name a surface texture with another record is counted under.
    pub fn slug(self) -> (text: Option<&'static str>)
        ensures
            text is Some <==> self.slug_text() is Some,
            text matches Some(t) ==> Some(t@) == self.slug_text(),
    {
        if self.descriptor {
            Some("metal_packed_mapping_descriptor_fallback")
        } else {
            None
        }
    }
}

/// The surface a texture is sampled from as it lies: its record says so, and it
/// resolves to the surface the record names.
pub open spec fn direct(
    resource: Option<TextureResource>,
    reference: u32,
    mapping: Option<u32>,
) -> Option<Description> {
    match resource {
        None => None,
        Some(resource) => match described(resource, reference) {
            Ok(description) => if mapping == Some(description.mapping_id) {
                Some(description)
            } else {
                None
            },
            Err(_) => None,
        },
    }
}

/// The surface a texture is sampled from as it lies, where there is one, and what
/// is counted where there is not. `mapping` is the surface the texture resolves
/// to.
pub fn direct_surface(
    resource: &Option<TextureResource>,
    reference: u32,
    mapping: Option<u32>,
) -> (r: (Option<Description>, DirectNotes))
    ensures
        r.0 == direct(*resource, reference, mapping),
        r.1 == match *resource {
            None => DirectNotes { fallback: None, descriptor: false },
            Some(texture) => match described(texture, reference) {
                Ok(_) => DirectNotes { fallback: None, descriptor: false },
                Err(fallback) => DirectNotes {
                    fallback: Some(fallback),
                    descriptor: texture.mapper_ref_texture,
                },
            },
        },
{
    let none = DirectNotes { fallback: None, descriptor: false };
    let texture: &TextureResource = match resource {
        None => {
            return (None, none);
        },
        Some(texture) => texture,
    };
    let description: Description = match Description::decode(texture, reference) {
        Ok(description) => description,
        Err(fallback) => {
            return (
                None,
                DirectNotes { fallback: Some(fallback), descriptor: texture.mapper_ref_texture },
            );
        },
    };
    let resolved: bool = match mapping {
        Some(id) => id == description.mapping_id,
        None => false,
    };
    if resolved {
        (Some(description), none)
    } else {
        (None, none)
    }
}

/// What has just been answered of a direct surface.
pub enum SurfaceEvent {
    /// The surface the texture is sampled from as it lies, where there is one.
    Direct(Option<Description>),
    /// Whether the surface is read in place.
    Imported { description: Description, answer: Result<Option<ImportedSample>, WindowStatus> },
    /// The window that was read or reused; nothing where it could not be staged.
    Read(Result<Option<SampledUpload>, WindowStatus>),
}

/// What to do next of a direct surface.
pub enum SurfaceAction {
    /// Try to read the surface in place.
    Import { description: Description },
    /// Read the surface through its window.
    Read { description: Description },
    /// The surface route is over.
    Answer(MappingAnswer),
}

/// The action that follows an event: a direct surface is read in place if it can
/// be, and through its window only otherwise. An error of either ends the route.
pub open spec fn surface_follows(event: SurfaceEvent, action: SurfaceAction) -> bool {
    match event {
        SurfaceEvent::Direct(surface) => match surface {
            None => action == SurfaceAction::Answer(MappingAnswer::NotDirect),
            Some(description) => action == (SurfaceAction::Import { description }),
        },
        SurfaceEvent::Imported { description, answer } => match answer {
            Err(status) => action == SurfaceAction::Answer(MappingAnswer::Refused(status)),
            Ok(None) => action == (SurfaceAction::Read { description }),
            Ok(Some(image)) => action matches SurfaceAction::Answer(MappingAnswer::Imported(held))
                && *held == image,
        },
        SurfaceEvent::Read(answer) => match answer {
            Err(status) => action == SurfaceAction::Answer(MappingAnswer::Refused(status)),
            Ok(None) => action == SurfaceAction::Answer(MappingAnswer::StagingFailed),
            Ok(Some(upload)) => action == SurfaceAction::Answer(MappingAnswer::Loaded(upload)),
        },
    }
}

/// What to do next of a direct surface.
pub fn surface_step(event: SurfaceEvent) -> (action: SurfaceAction)
    ensures
        surface_follows(event, action),
{
    match event {
        SurfaceEvent::Direct(surface) => match surface {
            None => SurfaceAction::Answer(MappingAnswer::NotDirect),
            Some(description) => SurfaceAction::Import { description },
        },
        SurfaceEvent::Imported { description, answer } => match answer {
            Err(status) => SurfaceAction::Answer(MappingAnswer::Refused(status)),
            Ok(None) => SurfaceAction::Read { description },
            Ok(Some(image)) => SurfaceAction::Answer(MappingAnswer::Imported(Arc::new(image))),
        },
        SurfaceEvent::Read(answer) => match answer {
            Err(status) => SurfaceAction::Answer(MappingAnswer::Refused(status)),
            Ok(None) => SurfaceAction::Answer(MappingAnswer::StagingFailed),
            Ok(Some(upload)) => SurfaceAction::Answer(MappingAnswer::Loaded(upload)),
        },
    }
}

/// A surface's window is read only when reading it in place was tried and
/// declined, and reading in place is tried of a direct surface alone.
pub proof fn law_a_window_is_read_only_where_nothing_is_imported(
    event: SurfaceEvent,
    action: SurfaceAction,
)
    requires
        surface_follows(event, action),
    ensures
        action matches SurfaceAction::Read { description } ==> event == (SurfaceEvent::Imported {
            description,
            answer: Ok(None),
        }),
        action matches SurfaceAction::Import { description } ==> event == SurfaceEvent::Direct(
            Some(description),
        ),
{
}

/// Where a retained image would be kept.
#[derive(Clone, Copy, Debug, PartialEq, Eq, Structural)]
pub enum PackedOwner {
    /// No resource: the bytes are uploaded without a lifetime of their own.
    Unowned,
    /// The resource's state belongs to another cache, which is never displaced.
    Conflict,
    /// The resource keeps packed images.
    Owned,
}

/// What retaining counts or reports besides the staging itself.
#[derive(Clone, Copy, Debug, PartialEq, Eq, Structural)]
pub enum RetainReport {
    Nothing,
    Unowned,
    StateConflict,
}

impl RetainReport {
    /// The name of the counter or report, where there is one.
    pub open spec fn slug_text(self) -> Option<Seq<char>> {
        match self {
            RetainReport::Nothing => None,
            RetainReport::Unowned => Some("metal_packed_sampled_unowned"@),
            RetainReport::StateConflict => Some("metal_packed_sampled_resource_state_conflict"@),
        }
    }

    /// The name of the counter or report, where there is one.
    pub fn slug(self) -> (text: Option<&'static str>)
        ensures
            text is Some <==> self.slug_text() is Some,
            text matches Some(t) ==> Some(t@) == self.slug_text(),
    {
        match self {
            RetainReport::Nothing => None,
            RetainReport::Unowned => Some("metal_packed_sampled_unowned"),
            RetainReport::StateConflict => Some("metal_packed_sampled_resource_state_conflict"),
        }
    }
}

/// Makes staged bytes an upload. Only a resource that keeps packed images
/// retains one; without it the bytes themselves are bound. This runs behind the
/// reader on every load: neither a hash nor a write witness lets it skip.
pub fn retain_packed(
    owner: PackedOwner,
    held: &mut RetainedPacked,
    layout: PackedLayout,
    bytes: Vec<u8>,
    creates: bool,
    id: u64,
) -> (r: (Result<SampledUpload, LoadRefusal>, RetainReport, Vec<PackedNote>))
    ensures
        owner != PackedOwner::Owned ==> {
            &&& *final(held) == *old(held)
            &&& r.0 matches Ok(upload) && upload == (SampledUpload::Packed { bytes, layout })
            &&& r.1 == (if owner == PackedOwner::Unowned {
                RetainReport::Unowned
            } else {
                RetainReport::StateConflict
            })
            &&& r.2@ == Seq::<PackedNote>::empty()
        },
        owner == PackedOwner::Owned ==> {
            &&& r.1 == RetainReport::Nothing
            &&& final(held).mapping is None
            &&& holds_bytes(*old(held), layout, bytes@) ==> {
                &&& final(held).latest == old(held).latest
                &&& r.0 matches Ok(SampledUpload::ImmutablePacked(image)) && Some(image)
                    == old(held).latest
                &&& r.2@ == seq![
                    PackedNote::Reuses,
                    PackedNote::ReuseBytes { bytes: bytes@.len() as u64 },
                ]
            }
            &&& !holds_bytes(*old(held), layout, bytes@) ==> r.2@ == seq![PackedNote::Misses]
            &&& !holds_bytes(*old(held), layout, bytes@) && creates ==> {
                r.0 matches Ok(SampledUpload::ImmutablePacked(image)) && image.id == id
                    && image.made_from(layout, bytes@) && final(held).latest == Some(image)
            }
            &&& !holds_bytes(*old(held), layout, bytes@) && !creates ==> {
                &&& r.0 matches Err(refusal) && refusal == (LoadRefusal::PackedUpload {
                    status: PackedStatus::UploadFailed,
                })
                &&& final(held).latest is None
            }
        },
{
    match owner {
        PackedOwner::Unowned => (
            Ok(SampledUpload::Packed { bytes, layout }),
            RetainReport::Unowned,
            Vec::new(),
        ),
        PackedOwner::Conflict => (
            Ok(SampledUpload::Packed { bytes, layout }),
            RetainReport::StateConflict,
            Vec::new(),
        ),
        PackedOwner::Owned => {
            let (staged, notes): (Result<Arc<PackedImage>, PackedStatus>, Vec<PackedNote>) =
                held.stage(layout, bytes, creates, id);
            match staged {
                Ok(image) => (
                    Ok(SampledUpload::ImmutablePacked(image)),
                    RetainReport::Nothing,
                    notes,
                ),
                Err(status) => (
                    Err(LoadRefusal::PackedUpload { status }),
                    RetainReport::Nothing,
                    notes,
                ),
            }
        },
    }
}

/// What sampling a resident image counts.
#[derive(Clone, Copy, Debug, PartialEq, Eq, Structural)]
pub enum ResidentNote {
    Native,
    SurfaceBytes { bytes: u64 },
}

impl ResidentNote {
    /// The name of the counter.
    pub open spec fn slug_text(self) -> Seq<char> {
        match self {
            ResidentNote::Native => "metal_sampled_native_resident"@,
            ResidentNote::SurfaceBytes { .. } => "metal_sampled_surface_bytes"@,
        }
    }

    /// The name of the counter.
    pub fn slug(self) -> (text: &'static str)
        ensures
            text@ == self.slug_text(),
    {
        match self {
            ResidentNote::Native => "metal_sampled_native_resident",
            ResidentNote::SurfaceBytes { .. } => "metal_sampled_surface_bytes",
        }
    }
}

/// The published resident image a surface is sampled from, where its texture
/// resolves to a surface, a frame of that surface is current, no host copy of
/// the frame takes precedence, and the image of that very frame exists; and what
/// is counted of it.
pub fn load_resident(
    surface: Option<u32>,
    frame: Option<u64>,
    host_copy: bool,
    image: Option<Arc<PublishedSample>>,
) -> (r: (Option<Arc<PublishedSample>>, Vec<ResidentNote>))
    ensures
        r.0 == if surface is Some && frame is Some && !host_copy {
            image
        } else {
            None
        },
        r.1@ == match r.0 {
            Some(sample) => seq![
                ResidentNote::Native,
                ResidentNote::SurfaceBytes { bytes: sample.bytes },
            ],
            None => Seq::empty(),
        },
{
    let mut notes: Vec<ResidentNote> = Vec::new();
    assert(notes@ =~= Seq::<ResidentNote>::empty());
    if surface.is_none() || frame.is_none() || host_copy {
        return (None, notes);
    }
    if let Some(sample) = &image {
        notes.push(ResidentNote::Native);
        notes.push(ResidentNote::SurfaceBytes { bytes: sample.bytes });
        assert(notes@ =~= seq![
            ResidentNote::Native,
            ResidentNote::SurfaceBytes { bytes: sample.bytes },
        ]);
    }
    (image, notes)
}

/// Every way a texture can be loaded ends: no event leads back to a question
/// that was asked before it.
pub open spec fn rank(event: LoadEvent) -> int {
    match event {
        LoadEvent::Begin => 0,
        LoadEvent::Planar(_) => 1,
        LoadEvent::Resident(_) => 2,
        LoadEvent::Mapping(_) => 3,
        LoadEvent::Object(_) => 4,
        LoadEvent::Raw(_) => 5,
        LoadEvent::Rgba(_) => 5,
    }
}

/// The rank of the answer an action waits for; none for an action that ends the
/// load.
pub open spec fn awaited(action: LoadAction) -> Option<int> {
    match action {
        LoadAction::StagePlanar => Some(1),
        LoadAction::SampleResident => Some(2),
        LoadAction::LoadMapping => Some(3),
        LoadAction::InspectObject => Some(4),
        LoadAction::StageRaw => Some(5),
        LoadAction::LoadRgba => Some(5),
        _ => None,
    }
}

/// Every load ends: an action that waits for an answer waits for a later one
/// than the event it follows.
pub proof fn law_loads_make_progress(event: LoadEvent, action: LoadAction)
    requires
        follows(event, action),
    ensures
        awaited(action) matches Some(next) ==> next > rank(event),
{
}

/// The routes of a load come in one order and each only behind the refusal of the
/// one before: a resident image behind no planar one, a surface behind no resident
/// image, the object behind no direct surface, and native or converted texels by
/// what the object is.
pub proof fn law_routes_are_tried_in_order(event: LoadEvent, action: LoadAction)
    requires
        follows(event, action),
    ensures
        action is StagePlanar <==> event is Begin,
        action is SampleResident <==> event == LoadEvent::Planar(Ok(None)),
        action is LoadMapping <==> event == LoadEvent::Resident(None),
        action is InspectObject <==> event == LoadEvent::Mapping(MappingAnswer::NotDirect),
        action is StageRaw <==> (event matches LoadEvent::Object(object) && match object {
            LoadObject::Texture { shape: Some(s) } => s.mipmap_level_count == 1 && s.depth == 1
                && s.sample_count == Some(1u32),
            LoadObject::View { buffer_texture: true } => true,
            _ => false,
        }),
        event is Object && !(action is StageRaw) ==> action is LoadRgba,
        action is LoadRgba ==> event is Object,
{
}

/// What is served is what was answered, and what is retained are the staged bytes
/// in the layout they were staged in: native texels in their own format and rows,
/// converted ones in tightly packed rows of four-byte colour.
pub proof fn law_answers_are_served_as_they_came(event: LoadEvent, action: LoadAction)
    requires
        follows(event, action),
    ensures
        action matches LoadAction::Serve(upload) ==> match upload {
            SampledUpload::Planar(image) => event == LoadEvent::Planar(Ok(Some(image))) || event
                == LoadEvent::Mapping(MappingAnswer::Loaded(upload)),
            SampledUpload::Resident(image) => event == LoadEvent::Resident(Some(image)) || event
                == LoadEvent::Mapping(MappingAnswer::Loaded(upload)),
            SampledUpload::Imported(image) => event == LoadEvent::Mapping(
                MappingAnswer::Imported(image),
            ) || event == LoadEvent::Mapping(MappingAnswer::Loaded(upload)),
            _ => event == LoadEvent::Mapping(MappingAnswer::Loaded(upload)),
        },
        action matches LoadAction::Retain { layout, bytes } ==> match event {
            LoadEvent::Raw(Some(texels)) => {
                &&& bytes == texels.bytes
                &&& layout.width == texels.width && layout.height == texels.height
                &&& layout.pixel_format == texels.pixel_format
                &&& Some(layout.bytes_per_row) == texels.tight_row
            },
            LoadEvent::Rgba(Some(texels)) => {
                &&& bytes == texels.2
                &&& layout.width == texels.0 && layout.height == texels.1
                &&& layout.pixel_format == 0
                &&& layout.bytes_per_row == 4 * texels.0
            },
            _ => false,
        },
{
}

/// A load is refused for what its last answer lacked, and for nothing else.
pub proof fn law_a_refused_load_names_its_answer(event: LoadEvent, action: LoadAction)
    requires
        follows(event, action),
    ensures
        action matches LoadAction::Refuse(refusal) ==> match refusal {
            LoadRefusal::PlanarTexture { status } => event == LoadEvent::Planar(Err(status)),
            LoadRefusal::PackedMapping { status } => event == LoadEvent::Mapping(
                MappingAnswer::Refused(status),
            ),
            LoadRefusal::PackedMappingStaging => event == LoadEvent::Mapping(
                MappingAnswer::StagingFailed,
            ),
            LoadRefusal::PackedTexture => event == LoadEvent::Raw(None),
            LoadRefusal::PackedTexturePitch => event matches LoadEvent::Raw(Some(texels))
                && texels.tight_row is None,
            LoadRefusal::SampledTexturePitch => event matches LoadEvent::Rgba(Some(texels))
                && texels.0 * 4 > u32::MAX,
            LoadRefusal::Absent => event == LoadEvent::Rgba(None),
            LoadRefusal::PackedUpload { .. } => false,
        },
{
}

/// A surface is direct exactly when the texture's record describes one and the
/// texture resolves to that very surface.
pub proof fn law_a_direct_surface_is_the_described_one(
    resource: Option<TextureResource>,
    reference: u32,
    mapping: Option<u32>,
    description: Description,
)
    ensures
        direct(resource, reference, mapping) == Some(description) <==> resource is Some
            && described(resource->0, reference) == Ok::<Description, Fallback>(description)
            && mapping == Some(description.mapping_id),
        resource is None || mapping is None ==> direct(resource, reference, mapping) is None,
{
}

/// The surface route ends with what was answered: an import, what was read, or the
/// refusal of either; it ends as not direct only where there is no direct surface.
pub proof fn law_a_surface_route_ends_with_its_answer(event: SurfaceEvent, action: SurfaceAction)
    requires
        surface_follows(event, action),
    ensures
        action matches SurfaceAction::Answer(answer) ==> match answer {
            MappingAnswer::NotDirect => event == SurfaceEvent::Direct(None),
            MappingAnswer::Imported(image) => event matches SurfaceEvent::Imported {
                answer: Ok(Some(sample)),
                ..
            } && sample == *image,
            MappingAnswer::Loaded(upload) => event == SurfaceEvent::Read(Ok(Some(upload))),
            MappingAnswer::Refused(status) => event == SurfaceEvent::Read(Err(status)) || (
            event matches SurfaceEvent::Imported { answer: Err(refused), .. } && refused == status),
            MappingAnswer::StagingFailed => event == SurfaceEvent::Read(Ok(None)),
        },
        event is Read ==> action is Answer,
{
}

} // verus!
