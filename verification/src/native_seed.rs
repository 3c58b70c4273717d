//! The texels a colour attachment is loaded with.
//!
//! A target whose texels are not four-byte colours is seeded with its native
//! bytes, never with a narrowed copy.
use vstd::prelude::*;

verus! {

/// A native texel layout, and whether it is a four-byte colour.
#[derive(Clone, Copy, Debug, PartialEq, Eq, Structural)]
pub struct NativeLayout {
    pub id: u32,
    pub four_byte_color: bool,
}

/// The linear target to be seeded.
#[derive(Clone, Copy, Debug, PartialEq, Eq, Structural)]
pub struct SeedSpan {
    pub texture_ref: u32,
    pub gva: u64,
    pub width: u32,
    pub height: u32,
    pub row_stride: u32,
    /// The native layout of the target's format, where it has one.
    pub layout: Option<NativeLayout>,
    pub mip_level: u32,
}

/// Why there is no native seed.
#[derive(Clone, Copy, Debug, PartialEq, Eq, Structural)]
pub enum SeedRefusal {
    UnsupportedLayout,
    BufferAddress,
    BufferStage,
    BufferLayout,
    LayoutMismatch,
    /// The linear texels could not be loaded.
    Declined,
}

impl SeedRefusal {
    /// The name a refusal is reported under, where the reason is this module's
    /// own.
    pub open spec fn slug_text(self) -> Option<Seq<char>> {
        match self {
            SeedRefusal::UnsupportedLayout => Some("unsupported_layout"@),
            SeedRefusal::BufferAddress => Some("buffer_address"@),
            SeedRefusal::BufferStage => Some("buffer_stage"@),
            SeedRefusal::BufferLayout => Some("buffer_layout"@),
            SeedRefusal::LayoutMismatch => Some("layout_mismatch"@),
            SeedRefusal::Declined => None,
        }
    }

    /// The name a refusal is reported under.
    pub fn slug(self) -> (text: Option<&'static str>)
        ensures
            text is Some <==> self.slug_text() is Some,
            text matches Some(t) ==> Some(t@) == self.slug_text(),
    {
        match self {
            SeedRefusal::UnsupportedLayout => Some("unsupported_layout"),
            SeedRefusal::BufferAddress => Some("buffer_address"),
            SeedRefusal::BufferStage => Some("buffer_stage"),
            SeedRefusal::BufferLayout => Some("buffer_layout"),
            SeedRefusal::LayoutMismatch => Some("layout_mismatch"),
            SeedRefusal::Declined => None,
        }
    }
}

/// A buffer the target's texture is laid over.
#[derive(Clone, Copy, Debug, PartialEq, Eq, Structural)]
pub struct BufferTexture {
    /// The buffer's address, where it resolves.
    pub base: Option<u64>,
    pub offset: u64,
    pub bytes_per_row: u64,
}

/// Texels that were loaded for a seed.
#[derive(Debug)]
pub struct SeedTexels {
    pub width: u32,
    pub height: u32,
    /// The native layout of their format, where it has one.
    pub layout: Option<NativeLayout>,
    pub bytes: Vec<u8>,
}

/// Which texels a seed is made of.
#[derive(Clone, Copy, Debug, PartialEq, Eq, Structural)]
pub enum SeedRoute {
    /// The ordinary four-byte colour seed.
    Rgba8,
    /// The rows of a buffer texture.
    Buffer { layout: NativeLayout },
    /// The linear texels of the target's base texture.
    Linear { layout: NativeLayout },
}

/// The target needs its native texels.
pub open spec fn needs_native(layout: Option<NativeLayout>) -> bool {
    !(layout matches Some(l) && l.four_byte_color)
}

/// Whether a target needs its native texels.
pub fn requires_native(layout: Option<NativeLayout>) -> (r: bool)
    ensures
        r == needs_native(layout),
{
    match layout {
        Some(layout) => !layout.four_byte_color,
        None => true,
    }
}

/// The buffer texture is exactly the target: its first level, its address and its
/// pitch.
pub open spec fn same_place(span: SeedSpan, buffer: BufferTexture) -> bool {
    &&& span.mip_level == 0
    &&& buffer.base matches Some(base) && base + buffer.offset == span.gva
    &&& buffer.bytes_per_row == span.row_stride
}

/// The texels a target is seeded from.
pub open spec fn routed(span: SeedSpan, buffer: Option<BufferTexture>) -> Result<
    SeedRoute,
    SeedRefusal,
> {
    if !needs_native(span.layout) && span.mip_level == 0 {
        Ok(SeedRoute::Rgba8)
    } else {
        match (span.layout, buffer) {
            (None, _) => Err(SeedRefusal::UnsupportedLayout),
            (Some(layout), None) => Ok(SeedRoute::Linear { layout }),
            (Some(layout), Some(buffer)) => if same_place(span, buffer) {
                Ok(SeedRoute::Buffer { layout })
            } else {
                Err(SeedRefusal::BufferAddress)
            },
        }
    }
}

/// Chooses the texels a target is seeded from.
pub fn seed_route(span: &SeedSpan, buffer: Option<BufferTexture>) -> (r: Result<
    SeedRoute,
    SeedRefusal,
>)
    ensures
        r == routed(*span, buffer),
{
    if !requires_native(span.layout) && span.mip_level == 0 {
        return Ok(SeedRoute::Rgba8);
    }
    let layout: NativeLayout = match span.layout {
        Some(layout) => layout,
        None => {
            return Err(SeedRefusal::UnsupportedLayout);
        },
    };
    let buffer: BufferTexture = match buffer {
        Some(buffer) => buffer,
        None => {
            return Ok(SeedRoute::Linear { layout });
        },
    };
    let address: Option<u64> = match buffer.base {
        Some(base) => base.checked_add(buffer.offset),
        None => None,
    };
    let here: bool = match address {
        Some(address) => address == span.gva,
        None => false,
    };
    if span.mip_level != 0 || !here || buffer.bytes_per_row != span.row_stride as u64 {
        return Err(SeedRefusal::BufferAddress);
    }
    Ok(SeedRoute::Buffer { layout })
}

/// The texture view a target is, where it is one.
#[derive(Clone, Copy, Debug, PartialEq, Eq, Structural)]
pub struct SeedView {
    pub base_texture_ref: u32,
    /// The format the view states.
    pub pixel_format: Option<u16>,
}

/// What the linear loader is asked for: a texture, the format to read it in, the
/// level, and the window that must come out.
#[derive(Clone, Copy, Debug, PartialEq, Eq, Structural)]
pub struct LinearRequest {
    pub reference: u32,
    pub format: Option<u16>,
    pub mip_level: u32,
    pub layout: NativeLayout,
    pub width: u32,
    pub height: u32,
    pub gva: u64,
    pub row_stride: u64,
}

/// What the linear loader is asked for. A view is read through its base in the
/// view's own format; any other texture as it is.
pub fn linear_request(span: &SeedSpan, layout: NativeLayout, view: Option<SeedView>) -> (request:
    LinearRequest)
    ensures
        request == (LinearRequest {
            reference: match view {
                Some(v) => v.base_texture_ref,
                None => span.texture_ref,
            },
            format: match view {
                Some(v) => v.pixel_format,
                None => None,
            },
            mip_level: span.mip_level,
            layout,
            width: span.width,
            height: span.height,
            gva: span.gva,
            row_stride: span.row_stride as u64,
        }),
{
    let (reference, format): (u32, Option<u16>) = match view {
        Some(view) => (view.base_texture_ref, view.pixel_format),
        None => (span.texture_ref, None),
    };
    LinearRequest {
        reference,
        format,
        mip_level: span.mip_level,
        layout,
        width: span.width,
        height: span.height,
        gva: span.gva,
        row_stride: span.row_stride as u64,
    }
}

/// A native seed: the target's own texels.
#[derive(Debug)]
pub struct NativeSeed {
    pub layout: NativeLayout,
    pub bytes: Vec<u8>,
}

impl NativeSeed {
    /// The name a native seed is counted under.
    pub fn slug(&self) -> (text: &'static str)
        ensures
            text@ == "load_seed_color_native"@,
    {
        "load_seed_color_native"
    }
}

fn same_layout(actual: Option<NativeLayout>, layout: NativeLayout) -> (r: bool)
    ensures
        r == (actual == Some(layout)),
{
    match actual {
        Some(actual) => actual == layout,
        None => false,
    }
}

/// The seed of a buffer texture's staged rows: they must be the target's size and
/// layout.
pub fn buffer_seed(span: &SeedSpan, layout: NativeLayout, staged: Option<SeedTexels>) -> (r: Result<
    NativeSeed,
    SeedRefusal,
>)
    ensures
        r == match staged {
            None => Err::<NativeSeed, SeedRefusal>(SeedRefusal::BufferStage),
            Some(s) => if s.width == span.width && s.height == span.height && s.layout == Some(
                layout,
            ) {
                Ok(NativeSeed { layout, bytes: s.bytes })
            } else {
                Err(SeedRefusal::BufferLayout)
            },
        },
{
    match staged {
        None => Err(SeedRefusal::BufferStage),
        Some(staged) => if staged.width != span.width || staged.height != span.height
            || !same_layout(staged.layout, layout) {
            Err(SeedRefusal::BufferLayout)
        } else {
            Ok(NativeSeed { layout, bytes: staged.bytes })
        },
    }
}

/// The seed of linear texels: they must have the target's layout.
pub fn linear_seed(layout: NativeLayout, loaded: Option<SeedTexels>) -> (r: Result<
    NativeSeed,
    SeedRefusal,
>)
    ensures
        r == match loaded {
            None => Err::<NativeSeed, SeedRefusal>(SeedRefusal::Declined),
            Some(s) => if s.layout == Some(layout) {
                Ok(NativeSeed { layout, bytes: s.bytes })
            } else {
                Err(SeedRefusal::LayoutMismatch)
            },
        },
{
    match loaded {
        None => Err(SeedRefusal::Declined),
        Some(loaded) => if same_layout(loaded.layout, layout) {
            Ok(NativeSeed { layout, bytes: loaded.bytes })
        } else {
            Err(SeedRefusal::LayoutMismatch)
        },
    }
}

/// A target whose texels are not four-byte colours, and any level but the first,
/// never takes the four-byte seed.
pub proof fn law_native_targets_take_native_seeds(span: SeedSpan, buffer: Option<BufferTexture>)
    requires
        needs_native(span.layout) || span.mip_level != 0,
    ensures
        routed(span, buffer) != Ok::<SeedRoute, SeedRefusal>(SeedRoute::Rgba8),
{
}

/// A target is seeded with four-byte colour exactly when that is its layout and it
/// is the first level; with the rows of its buffer texture only where those are
/// the target's own, at its address and pitch; and with linear texels only where
/// there is no buffer texture. It is refused for the layout it lacks, or for a
/// buffer texture that lies elsewhere.
pub proof fn law_a_seed_comes_from_the_targets_own_texels(
    span: SeedSpan,
    buffer: Option<BufferTexture>,
)
    ensures
        routed(span, buffer) == Ok::<SeedRoute, SeedRefusal>(SeedRoute::Rgba8) <==> span.mip_level
            == 0 && span.layout is Some && span.layout->0.four_byte_color,
        routed(span, buffer) matches Ok(SeedRoute::Buffer { layout }) ==> {
            &&& span.layout == Some(layout)
            &&& span.mip_level == 0
            &&& buffer is Some && buffer->0.base is Some
            &&& buffer->0.base->0 + buffer->0.offset == span.gva
            &&& buffer->0.bytes_per_row == span.row_stride
        },
        routed(span, buffer) matches Ok(SeedRoute::Linear { layout }) ==> span.layout == Some(
            layout,
        ) && buffer is None,
        routed(span, buffer) is Err <==> (span.layout is None || (buffer is Some && (span.mip_level
            > 0 || (!span.layout->0.four_byte_color && !(buffer->0.base is Some
            && buffer->0.base->0 + buffer->0.offset == span.gva && buffer->0.bytes_per_row
            == span.row_stride))))),
        routed(span, buffer) == Err::<SeedRoute, SeedRefusal>(SeedRefusal::UnsupportedLayout)
            <==> span.layout is None,
        routed(span, buffer) is Err ==> span.layout is None || routed(span, buffer) == Err::<
            SeedRoute,
            SeedRefusal,
        >(SeedRefusal::BufferAddress),
{
}

/// No two refusals are reported under one name.
pub proof fn law_every_refusal_has_a_name_of_its_own(a: SeedRefusal, b: SeedRefusal)
    ensures
        a.slug_text() == b.slug_text() && a.slug_text() is Some ==> a == b,
{
    reveal_strlit("unsupported_layout");
    reveal_strlit("buffer_address");
    reveal_strlit("buffer_stage");
    reveal_strlit("buffer_layout");
    reveal_strlit("layout_mismatch");
    assert("unsupported_layout"@.len() == 18);
    assert("buffer_address"@.len() == 14);
    assert("buffer_stage"@.len() == 12);
    assert("buffer_layout"@.len() == 13);
    assert("layout_mismatch"@.len() == 15);
}

} // verus!
