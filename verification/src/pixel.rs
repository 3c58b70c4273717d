//! The pixel table, as the engine and its callers ask for it.
//!
//! The table itself answers from the format alone. What stands here names its
//! refusals in the device's own vocabulary, binds a colour attachment's format to
//! the numeric type its clear value must use, and records where an sRGB transfer
//! function was dropped.
use vstd::prelude::*;

use crate::native_seed::NativeLayout;
use crate::storage::StorageImageFormat;

verus! {

/// A 32-bit single-channel float.
pub const MTL_FORMAT_R32_FLOAT: u16 = 55;

/// The name a dropped transfer function is counted under.
pub const SRGB_DOWNGRADED_SLUG: &'static str = "srgb_downgraded";

/// A refusal in the table's vocabulary.
#[derive(Clone, Copy, Debug, PartialEq, Eq, Structural)]
pub enum TableRefusal {
    UnknownPixelFormat(u16),
    NoSampledLayout(u16),
    NoColorAttachmentFormat(u16),
    NoStorageImageFormat(u16),
}

/// A refusal, or a loss, in the device's vocabulary.
#[derive(Clone, Copy, Debug, PartialEq, Eq, Structural)]
pub enum TranslateReason {
    UnknownPixelFormat(u16),
    NoSampledLayout(u16),
    NoColorAttachmentFormat(u16),
    NoStorageImageFormat(u16),
    SrgbDowngraded(u16),
}

impl TranslateReason {
    /// The name a reason is reported under.
    pub open spec fn slug_text(self) -> Seq<char> {
        match self {
            TranslateReason::UnknownPixelFormat(_) => "unknown_pixel_format"@,
            TranslateReason::NoSampledLayout(_) => "no_sampled_layout"@,
            TranslateReason::NoColorAttachmentFormat(_) => "no_color_attachment_format"@,
            TranslateReason::NoStorageImageFormat(_) => "no_storage_image_format"@,
            TranslateReason::SrgbDowngraded(_) => SRGB_DOWNGRADED_SLUG@,
        }
    }

    /// The name a reason is reported under.
    pub fn slug(self) -> (text: &'static str)
        ensures
            text@ == self.slug_text(),
    {
        match self {
            TranslateReason::UnknownPixelFormat(_) => "unknown_pixel_format",
            TranslateReason::NoSampledLayout(_) => "no_sampled_layout",
            TranslateReason::NoColorAttachmentFormat(_) => "no_color_attachment_format",
            TranslateReason::NoStorageImageFormat(_) => "no_storage_image_format",
            TranslateReason::SrgbDowngraded(_) => SRGB_DOWNGRADED_SLUG,
        }
    }
}

/// The device's name for a refusal of the table.
pub open spec fn renamed(refusal: TableRefusal) -> TranslateReason {
    match refusal {
        TableRefusal::UnknownPixelFormat(mtl) => TranslateReason::UnknownPixelFormat(mtl),
        TableRefusal::NoSampledLayout(mtl) => TranslateReason::NoSampledLayout(mtl),
        TableRefusal::NoColorAttachmentFormat(mtl) => TranslateReason::NoColorAttachmentFormat(mtl),
        TableRefusal::NoStorageImageFormat(mtl) => TranslateReason::NoStorageImageFormat(mtl),
    }
}

/// The device's name for a refusal of the table. Every refusal has one.
pub fn declined(refusal: TableRefusal) -> (reason: TranslateReason)
    ensures
        reason == renamed(refusal),
{
    match refusal {
        TableRefusal::UnknownPixelFormat(mtl) => TranslateReason::UnknownPixelFormat(mtl),
        TableRefusal::NoSampledLayout(mtl) => TranslateReason::NoSampledLayout(mtl),
        TableRefusal::NoColorAttachmentFormat(mtl) => TranslateReason::NoColorAttachmentFormat(mtl),
        TableRefusal::NoStorageImageFormat(mtl) => TranslateReason::NoStorageImageFormat(mtl),
    }
}

/// Where each channel of a texel comes from.
#[derive(Clone, Copy, Debug, PartialEq, Eq, Structural)]
pub struct SwizzlePlan {
    pub r: u8,
    pub g: u8,
    pub b: u8,
    pub a: u8,
}

/// A translated format: its Vulkan number, its linear sibling's, and its channels.
#[derive(Clone, Copy, Debug, PartialEq, Eq, Structural)]
pub struct PixelFormat {
    pub vk: i32,
    pub linear_vk: i32,
    pub components: SwizzlePlan,
}

/// The table's answer for a sampled format.
#[derive(Clone, Copy, Debug, PartialEq, Eq, Structural)]
pub struct Sampled {
    pub layout: NativeLayout,
    pub components: SwizzlePlan,
    /// The layout drops the format's transfer function.
    pub srgb_lost: bool,
}

/// What the components of a colour are.
#[derive(Clone, Copy, Debug, PartialEq, Eq, Structural)]
pub enum ColorNumericType {
    Float,
    Sint,
    Uint,
}

/// A colour-renderable format together with the numeric type its clear value must
/// use: an integer attachment is never cleared as a float.
#[derive(Clone, Copy, Debug, PartialEq, Eq, Structural)]
pub struct ColorAttachmentFormat {
    pub vk: i32,
    pub numeric: ColorNumericType,
}

/// Translates a format, given the table's answer for it.
pub fn translate(answer: Result<PixelFormat, TableRefusal>) -> (r: Result<
    PixelFormat,
    TranslateReason,
>)
    ensures
        r == match answer {
            Ok(format) => Ok::<PixelFormat, TranslateReason>(format),
            Err(refusal) => Err(renamed(refusal)),
        },
{
    match answer {
        Ok(format) => Ok(format),
        Err(refusal) => Err(declined(refusal)),
    }
}

/// The layout and channels of a sampled format, and the loss to record if reaching
/// them dropped the format's transfer function.
pub open spec fn sampled_as(mtl: u16, answer: Result<Sampled, TableRefusal>) -> Result<
    (NativeLayout, Option<TranslateReason>, SwizzlePlan),
    TranslateReason,
> {
    match answer {
        Err(refusal) => Err(renamed(refusal)),
        Ok(sampled) => Ok(
            (
                sampled.layout,
                if sampled.srgb_lost {
                    Some(TranslateReason::SrgbDowngraded(mtl))
                } else {
                    None
                },
                sampled.components,
            ),
        ),
    }
}

/// The layout and channels of a sampled format, and the loss to record if reaching
/// them dropped the format's transfer function.
pub fn sampled_pixels(mtl: u16, answer: Result<Sampled, TableRefusal>) -> (r: Result<
    (NativeLayout, Option<TranslateReason>, SwizzlePlan),
    TranslateReason,
>)
    ensures
        r == sampled_as(mtl, answer),
{
    match answer {
        Err(refusal) => Err(declined(refusal)),
        Ok(sampled) => {
            let loss: Option<TranslateReason> = if sampled.srgb_lost {
                Some(TranslateReason::SrgbDowngraded(mtl))
            } else {
                None
            };
            Ok((sampled.layout, loss, sampled.components))
        },
    }
}

/// The engine's format for a storage image.
pub fn storage_image(answer: Result<StorageImageFormat, TableRefusal>) -> (r: Result<
    StorageImageFormat,
    TranslateReason,
>)
    ensures
        r == match answer {
            Ok(format) => Ok::<StorageImageFormat, TranslateReason>(format),
            Err(refusal) => Err(renamed(refusal)),
        },
{
    match answer {
        Ok(format) => Ok(format),
        Err(refusal) => Err(declined(refusal)),
    }
}

/// The engine's format for a sampled image of a dispatch.
pub fn sampled_image(answer: Result<StorageImageFormat, TableRefusal>) -> (r: Result<
    StorageImageFormat,
    TranslateReason,
>)
    ensures
        r == match answer {
            Ok(format) => Ok::<StorageImageFormat, TranslateReason>(format),
            Err(refusal) => Err(renamed(refusal)),
        },
{
    match answer {
        Ok(format) => Ok(format),
        Err(refusal) => Err(declined(refusal)),
    }
}

/// The format of a colour attachment, which keeps its transfer function: there is
/// never a loss to record beside it.
pub open spec fn attachment(answer: Result<ColorAttachmentFormat, TableRefusal>) -> Result<
    (ColorAttachmentFormat, Option<TranslateReason>),
    TranslateReason,
> {
    match answer {
        Ok(format) => Ok((format, None)),
        Err(refusal) => Err(renamed(refusal)),
    }
}

/// The format of a colour attachment.
pub fn color_attachment(answer: Result<ColorAttachmentFormat, TableRefusal>) -> (r: Result<
    (ColorAttachmentFormat, Option<TranslateReason>),
    TranslateReason,
>)
    ensures
        r == attachment(answer),
{
    match answer {
        Ok(format) => Ok((format, None)),
        Err(refusal) => Err(declined(refusal)),
    }
}

/// The format of a pass-local colour attachment. Pass-local storage has no guest
/// store, so a single-channel 32-bit float is admitted here and only here.
/// `bytes_per_pixel` is the format's width as a pass-local target, if it has one.
pub fn memoryless_color_attachment(
    mtl: u16,
    bytes_per_pixel: Option<u32>,
    translated: Result<PixelFormat, TableRefusal>,
    answer: Result<ColorAttachmentFormat, TableRefusal>,
) -> (r: Result<ColorAttachmentFormat, TranslateReason>)
    ensures
        bytes_per_pixel is None ==> r == Err::<ColorAttachmentFormat, TranslateReason>(
            TranslateReason::NoColorAttachmentFormat(mtl),
        ),
        bytes_per_pixel is Some && mtl == MTL_FORMAT_R32_FLOAT ==> r == match translated {
            Ok(format) => Ok::<ColorAttachmentFormat, TranslateReason>(
                ColorAttachmentFormat { vk: format.vk, numeric: ColorNumericType::Float },
            ),
            Err(refusal) => Err(renamed(refusal)),
        },
        bytes_per_pixel is Some && mtl != MTL_FORMAT_R32_FLOAT ==> r == match answer {
            Ok(format) => Ok::<ColorAttachmentFormat, TranslateReason>(format),
            Err(refusal) => Err(renamed(refusal)),
        },
{
    if bytes_per_pixel.is_none() {
        return Err(TranslateReason::NoColorAttachmentFormat(mtl));
    }
    if mtl == MTL_FORMAT_R32_FLOAT {
        match translate(translated) {
            Ok(format) => Ok(
                ColorAttachmentFormat { vk: format.vk, numeric: ColorNumericType::Float },
            ),
            Err(reason) => Err(reason),
        }
    } else {
        match color_attachment(answer) {
            Ok((format, _)) => Ok(format),
            Err(reason) => Err(reason),
        }
    }
}

/// The Vulkan spellings of a texel layout.
#[derive(Clone, Copy, Debug, PartialEq, Eq, Structural)]
pub struct LayoutSpellings {
    pub linear: i32,
    /// The sRGB spelling, where the layout has one.
    pub srgb: Option<i32>,
}

/// The Vulkan format for bytes a CPU loader produced, and the source format whose
/// transfer function is lost, if one is. An sRGB source is decoded wherever its
/// layout has an sRGB spelling, so that it reaches the sampler in the colour
/// space the zero-copy route gives it.
pub fn vk_sampled_bytes(spellings: LayoutSpellings, srgb_source: Option<u16>) -> (r: (
    i32,
    Option<u16>,
))
    ensures
        r == match (srgb_source, spellings.srgb) {
            (None, _) => (spellings.linear, None::<u16>),
            (Some(_), Some(srgb)) => (srgb, None::<u16>),
            (Some(mtl), None) => (spellings.linear, Some(mtl)),
        },
{
    let mtl: u16 = match srgb_source {
        Some(mtl) => mtl,
        None => {
            return (spellings.linear, None);
        },
    };
    match spellings.srgb {
        Some(srgb) => (srgb, None),
        None => (spellings.linear, Some(mtl)),
    }
}

/// A transfer function that the table drops is never dropped silently: the loss is
/// named after the very format, and nothing else is ever recorded as one. The
/// channels are the table's.
pub proof fn law_a_dropped_transfer_function_is_named(
    mtl: u16,
    answer: Result<Sampled, TableRefusal>,
)
    ensures
        sampled_as(mtl, answer) is Ok <==> answer is Ok,
        sampled_as(mtl, answer) matches Ok((_, loss, plan)) ==> {
            &&& plan == answer->Ok_0.components
            &&& loss == if answer->Ok_0.srgb_lost {
                Some(TranslateReason::SrgbDowngraded(mtl))
            } else {
                None
            }
        },
{
}

/// A colour attachment loses nothing: it is rendered to wherever the table renders
/// to it, in the table's own format, with no loss beside it.
pub proof fn law_an_attachment_loses_nothing(answer: Result<ColorAttachmentFormat, TableRefusal>)
    ensures
        attachment(answer) is Ok <==> answer is Ok,
        attachment(answer) matches Ok((format, loss)) ==> format == answer->Ok_0 && loss is None,
        answer matches Err(refusal) ==> attachment(answer) == Err::<
            (ColorAttachmentFormat, Option<TranslateReason>),
            TranslateReason,
        >(renamed(refusal)),
{
}

/// Distinct refusals of the table keep distinct names: a format without a layout
/// is never reported as an unknown one.
pub proof fn law_refusals_stay_apart(a: TableRefusal, b: TableRefusal)
    ensures
        renamed(a) == renamed(b) ==> a == b,
{
}

} // verus!
