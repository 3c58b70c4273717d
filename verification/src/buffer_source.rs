//! Native sampled uploads of buffer textures. Admission comes from the pixel
//! table, not from the list of lossy conversions.
use vstd::prelude::*;

use crate::native_seed::NativeLayout;

verus! {

/// The format of texels whose descriptor names none.
pub const MTL_FORMAT_BGRA8_UNORM: u16 = 80;

/// What the pixel table says of a sampled format.
#[derive(Clone, Copy, Debug, PartialEq, Eq, Structural)]
pub struct SampledAnswer {
    pub layout: NativeLayout,
    /// The texels' channels are where the shader expects them.
    pub identity_components: bool,
    /// The host can sample the layout.
    pub supported: bool,
}

/// The format of bytes handed to a sampler: their layout, and the guest format
/// they came in, which carries the transfer function.
#[derive(Clone, Copy, Debug, PartialEq, Eq, Structural)]
pub struct SampledByteFormat {
    pub layout: NativeLayout,
    pub source: u16,
}

/// Why a buffer texture cannot be sampled.
#[derive(Clone, Copy, Debug, PartialEq, Eq, Structural)]
pub enum SourceRefusal {
    HostUnsupported,
    Shape,
    Conversion,
    /// The rows could not be staged.
    Stage,
}

impl SourceRefusal {
    /// The name a refusal is reported under, where the reason is this module's
    /// own.
    pub open spec fn slug_text(self) -> Option<Seq<char>> {
        match self {
            SourceRefusal::HostUnsupported => Some("sampled_native_format_host_unsupported"@),
            SourceRefusal::Shape => Some("sampled_buffer_texture_shape"@),
            SourceRefusal::Conversion => Some("sampled_buffer_texture_conversion"@),
            SourceRefusal::Stage => None,
        }
    }

    /// The name a refusal is reported under.
    pub fn slug(self) -> (text: Option<&'static str>)
        ensures
            text is Some <==> self.slug_text() is Some,
            text matches Some(t) ==> Some(t@) == self.slug_text(),
    {
        match self {
            SourceRefusal::HostUnsupported => Some("sampled_native_format_host_unsupported"),
            SourceRefusal::Shape => Some("sampled_buffer_texture_shape"),
            SourceRefusal::Conversion => Some("sampled_buffer_texture_conversion"),
            SourceRefusal::Stage => None,
        }
    }
}

/// The native format of a guest format's texels.
pub open spec fn native_format(format: u16, answer: Option<SampledAnswer>) -> Result<
    Option<SampledByteFormat>,
    SourceRefusal,
> {
    match answer {
        None => Ok(None),
        Some(a) => if !a.identity_components {
            Ok(None)
        } else if !a.supported {
            Err(SourceRefusal::HostUnsupported)
        } else {
            Ok(Some(SampledByteFormat { layout: a.layout, source: format }))
        },
    }
}

/// The native format of a guest format's texels. None where a real channel
/// conversion remains; a layout the host lacks is a refusal, never permission to
/// narrow native channels.
pub fn native_byte_format(format: u16, answer: Option<SampledAnswer>) -> (r: Result<
    Option<SampledByteFormat>,
    SourceRefusal,
>)
    ensures
        r == native_format(format, answer),
{
    let answer: SampledAnswer = match answer {
        Some(answer) => answer,
        None => {
            return Ok(None);
        },
    };
    if !answer.identity_components {
        return Ok(None);
    }
    if !answer.supported {
        return Err(SourceRefusal::HostUnsupported);
    }
    Ok(Some(SampledByteFormat { layout: answer.layout, source: format }))
}

/// The shape of a buffer texture.
#[derive(Clone, Copy, Debug, PartialEq, Eq, Structural)]
pub struct BufferTextureShape {
    pub texture_type: u8,
    pub depth: u32,
    pub mipmap_level_count: u32,
    pub sample_count: u32,
    pub array_length: u32,
    pub pixel_format: u16,
}

impl BufferTextureShape {
    /// A single two-dimensional image.
    pub open spec fn flat(self) -> bool {
        self.texture_type == 2 && self.depth == 1 && self.mipmap_level_count == 1
            && self.sample_count == 1 && self.array_length == 1
    }

    /// The format its texels have.
    pub open spec fn texels(self) -> u16 {
        if self.pixel_format == 0 {
            MTL_FORMAT_BGRA8_UNORM
        } else {
            self.pixel_format
        }
    }
}

/// The format to ask the pixel table for. The shape is checked first: nothing is
/// asked of the host for one that is not admitted.
pub fn source_format(shape: &BufferTextureShape) -> (r: Result<u16, SourceRefusal>)
    ensures
        r == if shape.flat() {
            Ok::<u16, SourceRefusal>(shape.texels())
        } else {
            Err(SourceRefusal::Shape)
        },
{
    if shape.texture_type != 2 || shape.depth != 1 || shape.mipmap_level_count != 1
        || shape.sample_count != 1 || shape.array_length != 1 {
        return Err(SourceRefusal::Shape);
    }
    if shape.pixel_format == 0 {
        Ok(MTL_FORMAT_BGRA8_UNORM)
    } else {
        Ok(shape.pixel_format)
    }
}

/// How a buffer texture's rows are fetched.
#[derive(Clone, Copy, Debug, PartialEq, Eq, Structural)]
pub enum RowRoute {
    /// Converted to four-byte colours.
    Converted,
    /// Copied as they are.
    Native { format: SampledByteFormat },
}

/// How a buffer texture's rows are fetched.
pub open spec fn rows(shape: BufferTextureShape, answer: Option<SampledAnswer>) -> Result<
    RowRoute,
    SourceRefusal,
> {
    if !shape.flat() {
        Err(SourceRefusal::Shape)
    } else {
        match native_format(shape.texels(), answer) {
            Err(refusal) => Err(refusal),
            Ok(None) => Ok(RowRoute::Converted),
            Ok(Some(format)) => Ok(RowRoute::Native { format }),
        }
    }
}

/// Chooses how a buffer texture's rows are fetched.
pub fn row_route(shape: &BufferTextureShape, answer: Option<SampledAnswer>) -> (r: Result<
    RowRoute,
    SourceRefusal,
>)
    ensures
        r == rows(*shape, answer),
{
    let format: u16 = match source_format(shape) {
        Ok(format) => format,
        Err(refusal) => {
            return Err(refusal);
        },
    };
    match native_byte_format(format, answer) {
        Err(refusal) => Err(refusal),
        Ok(None) => Ok(RowRoute::Converted),
        Ok(Some(format)) => Ok(RowRoute::Native { format }),
    }
}

/// Rows that were fetched.
#[derive(Debug)]
pub struct FetchedRows {
    pub width: u32,
    pub height: u32,
    pub bytes: Vec<u8>,
}

/// A sampled image made of bytes.
#[derive(Debug)]
pub struct SampledBytes {
    pub width: u32,
    pub height: u32,
    pub bytes: Vec<u8>,
    pub format: SampledByteFormat,
}

/// The sampled image of a buffer texture, once its rows were fetched by the route
/// chosen for it. Converted rows have the four-byte layout `rgba8`, and keep the
/// guest format they came in.
pub fn buffer_source(
    shape: &BufferTextureShape,
    answer: Option<SampledAnswer>,
    rgba8: NativeLayout,
    fetched: Option<FetchedRows>,
) -> (r: Result<SampledBytes, SourceRefusal>)
    ensures
        r == match rows(*shape, answer) {
            Err(refusal) => Err::<SampledBytes, SourceRefusal>(refusal),
            Ok(route) => match (route, fetched) {
                (RowRoute::Converted, None) => Err(SourceRefusal::Conversion),
                (RowRoute::Native { .. }, None) => Err(SourceRefusal::Stage),
                (RowRoute::Converted, Some(f)) => Ok(
                    SampledBytes {
                        width: f.width,
                        height: f.height,
                        bytes: f.bytes,
                        format: SampledByteFormat { layout: rgba8, source: shape.texels() },
                    },
                ),
                (RowRoute::Native { format }, Some(f)) => Ok(
                    SampledBytes { width: f.width, height: f.height, bytes: f.bytes, format },
                ),
            },
        },
{
    let format: SampledByteFormat = match row_route(shape, answer) {
        Err(refusal) => {
            return Err(refusal);
        },
        Ok(RowRoute::Converted) => {
            if fetched.is_none() {
                return Err(SourceRefusal::Conversion);
            }
            let source: u16 = if shape.pixel_format == 0 {
                MTL_FORMAT_BGRA8_UNORM
            } else {
                shape.pixel_format
            };
            SampledByteFormat { layout: rgba8, source }
        },
        Ok(RowRoute::Native { format }) => format,
    };
    match fetched {
        None => Err(SourceRefusal::Stage),
        Some(fetched) => Ok(
            SampledBytes {
                width: fetched.width,
                height: fetched.height,
                bytes: fetched.bytes,
                format,
            },
        ),
    }
}

/// A format the host samples with the channels in place is never converted: its
/// bytes reach the sampler in its own layout and with its own transfer function.
pub proof fn law_native_formats_keep_layout_and_source(
    shape: BufferTextureShape,
    answer: SampledAnswer,
)
    requires
        shape.flat(),
        answer.identity_components,
    ensures
        rows(shape, Some(answer)) == if answer.supported {
            Ok::<RowRoute, SourceRefusal>(
                RowRoute::Native {
                    format: SampledByteFormat { layout: answer.layout, source: shape.texels() },
                },
            )
        } else {
            Err::<RowRoute, SourceRefusal>(SourceRefusal::HostUnsupported)
        },
{
}

/// The rows of a buffer texture are fetched exactly for a single two-dimensional
/// image: as they are where the host samples its format with the channels in place,
/// converted where the channels are not, and not at all where the host lacks the
/// layout. A texture that names no format has that of four-byte colour, blue first.
pub proof fn law_rows_are_native_where_the_host_samples_them(
    shape: BufferTextureShape,
    answer: Option<SampledAnswer>,
)
    ensures
        ({
            let single = shape.texture_type == 2 && shape.depth == 1 && shape.mipmap_level_count
                == 1 && shape.sample_count == 1 && shape.array_length == 1;
            let in_place = answer is Some && answer->0.identity_components;
            &&& rows(shape, answer) == Err::<RowRoute, SourceRefusal>(SourceRefusal::Shape)
                <==> !single
            &&& rows(shape, answer) == Ok::<RowRoute, SourceRefusal>(RowRoute::Converted)
                <==> single && !in_place
            &&& rows(shape, answer) == Err::<RowRoute, SourceRefusal>(
                SourceRefusal::HostUnsupported,
            ) <==> single && in_place && !answer->0.supported
            &&& rows(shape, answer) matches Ok(RowRoute::Native { format }) ==> {
                &&& format.layout == answer->0.layout
                &&& shape.pixel_format != 0 ==> format.source == shape.pixel_format
                &&& shape.pixel_format == 0 ==> format.source == 80
            }
            &&& single && in_place && answer->0.supported ==> (rows(
                shape,
                answer,
            ) matches Ok(route) && route is Native)
        }),
{
}

} // verus!
