//! What a sampled texture is bound from.
use crate::native_pipeline::tables::TEXTURE_BINDING_BASE;
use crate::planar::{plane_bytes, sum_planes, Layout, TextureDescription};
use crate::sampled::import::{listed, ImportedReads, ImportedSample};
use crate::sampled::packed::{PackedImage, PackedLayout};
use std::sync::Arc;
use vstd::prelude::*;

verus! {

/// A whole planar surface, staged as one immutable image.
pub struct PlanarImage {
    pub description: TextureDescription,
    pub layout: Layout,
}

/// A published resident image and how many bytes it holds.
pub struct PublishedSample {
    pub id: u64,
    pub bytes: u64,
}

/// A sampled texture, ready to bind.
pub enum SampledUpload {
    /// Staged bytes without an owner to retain an image for.
    Packed { bytes: Vec<u8>, layout: PackedLayout },
    /// An immutable image of staged bytes.
    ImmutablePacked(Arc<PackedImage>),
    /// A surface read in place.
    Imported(Arc<ImportedSample>),
    /// A whole planar surface.
    Planar(Arc<PlanarImage>),
    /// A published resident image.
    Resident(Arc<PublishedSample>),
}

/// A resident image: a published one, or an immutable one of packed bytes.
pub enum ResidentImage {
    Published(Arc<PublishedSample>),
    Packed(Arc<PackedImage>),
}

/// A bound sampled texture. It owns what it reads.
#[allow(inconsistent_fields)]
pub enum SampledBinding {
    Packed { binding: u32, layout: PackedLayout, len: usize },
    ImportedRead { binding: u32, image: Arc<ImportedSample> },
    Planar { binding: u32, image: Arc<PlanarImage> },
    Resident { binding: u32, image: ResidentImage },
}

impl SampledUpload {
    /// How many bytes the upload stands for.
    pub open spec fn bytes_held(self) -> int {
        match self {
            SampledUpload::Packed { bytes, layout } => bytes@.len() as int,
            SampledUpload::ImmutablePacked(image) => image.bytes@.len() as int,
            SampledUpload::Imported(image) => image.key.guest_read_bytes as int,
            SampledUpload::Planar(image) => plane_bytes(image.layout@.planes),
            SampledUpload::Resident(image) => image.bytes as int,
        }
    }

    /// How many bytes the upload stands for.
    pub fn byte_len(&self) -> (n: u64)
        requires
            self.bytes_held() <= u64::MAX,
        ensures
            n == self.bytes_held(),
    {
        match self {
            SampledUpload::Packed { bytes, layout: _ } => bytes.len() as u64,
            SampledUpload::ImmutablePacked(image) => image.byte_len(),
            SampledUpload::Imported(image) => image.byte_len(),
            SampledUpload::Planar(image) => sum_planes(&image.layout.planes),
            SampledUpload::Resident(image) => image.bytes,
        }
    }

    /// The binding of the upload at a texture index. It keeps the image alive on
    /// its own.
    pub fn image(&self, index: u32) -> (bound: SampledBinding)
        requires
            TEXTURE_BINDING_BASE + index <= u32::MAX,
        ensures
            ({
                let slot = (TEXTURE_BINDING_BASE + index) as u32;
                match *self {
                    SampledUpload::Packed { bytes, layout } => bound matches SampledBinding::Packed {
                        binding,
                        layout: l,
                        len,
                    } && binding == slot && l == layout && len == bytes@.len(),
                    SampledUpload::ImmutablePacked(image) => bound == (SampledBinding::Resident {
                        binding: slot,
                        image: ResidentImage::Packed(image),
                    }),
                    SampledUpload::Imported(image) => bound == (SampledBinding::ImportedRead {
                        binding: slot,
                        image,
                    }),
                    SampledUpload::Planar(image) => bound == (SampledBinding::Planar {
                        binding: slot,
                        image,
                    }),
                    SampledUpload::Resident(image) => bound == (SampledBinding::Resident {
                        binding: slot,
                        image: ResidentImage::Published(image),
                    }),
                }
            }),
    {
        let binding: u32 = TEXTURE_BINDING_BASE + index;
        match self {
            SampledUpload::Packed { bytes, layout } => SampledBinding::Packed {
                binding,
                layout: *layout,
                len: bytes.len(),
            },
            SampledUpload::ImmutablePacked(image) => SampledBinding::Resident {
                binding,
                image: ResidentImage::Packed(image.clone()),
            },
            SampledUpload::Imported(image) => SampledBinding::ImportedRead {
                binding,
                image: image.clone(),
            },
            SampledUpload::Planar(image) => SampledBinding::Planar {
                binding,
                image: image.clone(),
            },
            SampledUpload::Resident(image) => SampledBinding::Resident {
                binding,
                image: ResidentImage::Published(image.clone()),
            },
        }
    }
}

/// The reads listed once the uploads from `n` on are listed too.
pub open spec fn with_reads(
    uploads: Seq<SampledUpload>,
    n: int,
    sources: Seq<Arc<ImportedSample>>,
) -> Seq<Arc<ImportedSample>>
    decreases uploads.len() - n,
{
    if n < 0 || n >= uploads.len() {
        sources
    } else {
        match uploads[n] {
            SampledUpload::Imported(source) => with_reads(
                uploads,
                n + 1,
                if listed(sources, *source) {
                    sources
                } else {
                    sources.push(source)
                },
            ),
            _ => with_reads(uploads, n + 1, sources),
        }
    }
}

impl ImportedReads {
    /// Lists every in-place read among a draw's uploads, each once.
    pub fn retain_all(&mut self, uploads: &Vec<SampledUpload>)
        ensures
            final(self).sources@ == with_reads(uploads@, 0, old(self).sources@),
    {
        let mut n: usize = 0;
        while n < uploads.len()
            invariant
                0 <= n <= uploads@.len(),
                with_reads(uploads@, 0, old(self).sources@) == with_reads(
                    uploads@,
                    n as int,
                    self.sources@,
                ),
            decreases uploads@.len() - n,
        {
            if let SampledUpload::Imported(source) = &uploads[n] {
                self.retain(source);
            }
            n += 1;
        }
    }
}

/// The read is listed.
spec fn already_listed(sources: Seq<Arc<ImportedSample>>, source: Arc<ImportedSample>) -> bool {
    listed(sources, *source)
}

/// Every in-place read among a draw's uploads is listed, what was listed stays, and
/// nothing else is listed; no read is listed twice.
pub proof fn law_in_place_reads_are_listed_once(
    uploads: Seq<SampledUpload>,
    n: int,
    sources: Seq<Arc<ImportedSample>>,
)
    requires
        0 <= n <= uploads.len(),
        forall|i: int, j: int|
            0 <= i < j < sources.len() ==> !(#[trigger] sources[i]).reads_alike(
                *(#[trigger] sources[j]),
            ),
    ensures
        ({
            let all = with_reads(uploads, n, sources);
            &&& sources.is_prefix_of(all)
            &&& forall|i: int, j: int|
                0 <= i < j < all.len() ==> !(#[trigger] all[i]).reads_alike(*(#[trigger] all[j]))
            &&& forall|k: int|
                n <= k < uploads.len() ==> ((#[trigger] uploads[k]) matches SampledUpload::Imported(
                    source,
                ) ==> listed(all, *source))
            &&& forall|i: int|
                sources.len() <= i < all.len() ==> uploaded(uploads, #[trigger] all[i])
        }),
    decreases uploads.len() - n,
{
    if n < uploads.len() {
        match uploads[n] {
            SampledUpload::Imported(source) => {
                let next = if already_listed(sources, source) {
                    sources
                } else {
                    sources.push(source)
                };
                law_in_place_reads_are_listed_once(uploads, n + 1, next);
                let all = with_reads(uploads, n, sources);
                assert(sources.is_prefix_of(next));
                assert forall|k: int| 0 <= k < sources.len() implies sources[k]
                    == #[trigger] all[k] by {
                    assert(next[k] == sources[k]);
                }
                if !already_listed(sources, source) {
                    assert(next[sources.len() as int] == source);
                    assert(source.reads_alike(*source));
                }
                assert(listed(next, *source));
                let k = choose|k: int|
                    0 <= k < next.len() && (#[trigger] next[k]).reads_alike(*source);
                assert(all[k] == next[k]);
                assert(listed(all, *source));
                assert forall|i: int| sources.len() <= i < all.len() implies uploaded(
                    uploads,
                    #[trigger] all[i],
                ) by {
                    if i < next.len() {
                        assert(all[i] == next[i]);
                        assert(uploads[n] == SampledUpload::Imported(source));
                    }
                }
            },
            _ => {
                law_in_place_reads_are_listed_once(uploads, n + 1, sources);
            },
        }
    }
}

/// Some upload is the in-place read.
pub open spec fn uploaded(uploads: Seq<SampledUpload>, source: Arc<ImportedSample>) -> bool {
    exists|k: int|
        0 <= k < uploads.len() && #[trigger] uploads[k] == SampledUpload::Imported(source)
}

/// An upload stands for the bytes that were staged for it, whether it owns them or
/// an image retains them; an in-place read for those of its window, and a planar
/// image for those of all its planes.
pub proof fn law_an_upload_stands_for_its_bytes(
    bytes: Vec<u8>,
    layout: PackedLayout,
    packed: Arc<PackedImage>,
    planar: Arc<PlanarImage>,
    imported: Arc<ImportedSample>,
)
    ensures
        packed.bytes@ == bytes@ ==> SampledUpload::ImmutablePacked(packed).bytes_held() == (
        SampledUpload::Packed { bytes, layout }).bytes_held(),
        (SampledUpload::Packed { bytes, layout }).bytes_held() == bytes@.len(),
        SampledUpload::Planar(planar).bytes_held() == plane_bytes(planar.layout.planes@),
        SampledUpload::Imported(imported).bytes_held() == imported.key@.guest_read_bytes,
{
}

} // verus!
