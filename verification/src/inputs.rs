//! Which route a draw's buffer inputs take into the native encoder.
//!
//! Texture access and native outputs are reflected only after the buffer reads,
//! so a draw with textures, queries or depth keeps its buffers on the CPU route.
//! A binding that supplies a vertex attribute stays there too: its attribute and
//! its storage uses must share one snapshot.
use vstd::prelude::*;

verus! {

/// What the plan reads of a draw.
#[derive(Debug)]
pub struct DrawInputs {
    /// A visibility query is armed.
    pub visibility: bool,
    pub depth_attach: bool,
    pub stencil_attach: bool,
    /// The textures the vertex stage binds; zero is an unbound slot.
    pub vertex_textures: Vec<u32>,
    /// The textures the fragment stage binds; zero is an unbound slot.
    pub fragment_textures: Vec<u32>,
}

/// A vertex attribute of the pipeline.
#[derive(Clone, Copy, Debug, PartialEq, Eq, Structural)]
pub struct VertexAttribute {
    pub buffer_index: u32,
    /// Zero where the attribute is absent.
    pub format: u32,
    pub stride: u32,
}

/// Every slot is unbound.
pub open spec fn unbound(textures: Seq<u32>) -> bool {
    forall|k: int| 0 <= k < textures.len() ==> (#[trigger] textures[k]) == 0
}

impl DrawInputs {
    /// A draw whose only inputs are buffers.
    pub open spec fn plain(self) -> bool {
        !self.visibility && !self.depth_attach && !self.stencil_attach && unbound(
            self.vertex_textures@,
        ) && unbound(self.fragment_textures@)
    }
}

fn all_unbound(textures: &Vec<u32>) -> (r: bool)
    ensures
        r == unbound(textures@),
{
    let mut n: usize = 0;
    while n < textures.len()
        invariant
            0 <= n <= textures@.len(),
            forall|k: int| 0 <= k < n ==> (#[trigger] textures@[k]) == 0,
        decreases textures@.len() - n,
    {
        if textures[n] != 0 {
            return false;
        }
        n += 1;
    }
    true
}

/// Whether a draw's only inputs are buffers.
pub fn plain_input_draw(draw: &DrawInputs) -> (r: bool)
    ensures
        r == draw.plain(),
{
    !draw.visibility && !draw.depth_attach && !draw.stencil_attach && all_unbound(
        &draw.vertex_textures,
    ) && all_unbound(&draw.fragment_textures)
}

/// The attribute reads its buffer: it has a format and a stride.
pub open spec fn reads_stage_in(attribute: VertexAttribute) -> bool {
    attribute.format != 0 && attribute.stride != 0
}

/// Some attribute reads the binding.
pub open spec fn supplies_attribute(attributes: Seq<VertexAttribute>, index: u32) -> bool {
    exists|k: int|
        0 <= k < attributes.len() && reads_stage_in(#[trigger] attributes[k])
            && attributes[k].buffer_index == index
}

/// The routes of one draw's buffers.
#[derive(Debug)]
pub struct InputPlan {
    pub native_plain: bool,
    /// The bindings that supply vertex attributes.
    pub stage_in: Vec<u32>,
}

impl InputPlan {
    /// The bindings that supply vertex attributes.
    pub open spec fn attribute_bindings(self) -> Set<u32> {
        self.stage_in@.to_set()
    }

    /// The plan of a draw with a pipeline's attributes.
    pub fn new(draw: &DrawInputs, attributes: &Vec<VertexAttribute>) -> (plan: InputPlan)
        ensures
            plan.native_plain == draw.plain(),
            forall|index: u32| #[trigger]
                plan.attribute_bindings().contains(index) == supplies_attribute(
                    attributes@,
                    index,
                ),
    {
        let mut stage_in: Vec<u32> = Vec::new();
        let mut n: usize = 0;
        while n < attributes.len()
            invariant
                0 <= n <= attributes@.len(),
                forall|index: u32| #[trigger]
                    stage_in@.contains(index) == supplies_attribute(
                        attributes@.take(n as int),
                        index,
                    ),
            decreases attributes@.len() - n,
        {
            let attribute: VertexAttribute = attributes[n];
            let ghost before = stage_in@;
            if attribute.format != 0 && attribute.stride != 0 {
                stage_in.push(attribute.buffer_index);
            }
            proof {
                let seen = attributes@.take(n as int);
                let next = attributes@.take(n + 1);
                assert forall|index: u32| #[trigger]
                    stage_in@.contains(index) == supplies_attribute(next, index) by {
                    assert(before.contains(index) == supplies_attribute(seen, index));
                    if before.contains(index) {
                        let k = choose|k: int| 0 <= k < before.len() && before[k] == index;
                        assert(stage_in@[k] == index);
                    }
                    if supplies_attribute(seen, index) {
                        let k = choose|k: int|
                            0 <= k < seen.len() && reads_stage_in(#[trigger] seen[k])
                                && seen[k].buffer_index == index;
                        assert(next[k] == seen[k]);
                    }
                    if supplies_attribute(next, index) {
                        let k = choose|k: int|
                            0 <= k < next.len() && reads_stage_in(#[trigger] next[k])
                                && next[k].buffer_index == index;
                        if k < n {
                            assert(seen[k] == next[k]);
                        } else {
                            assert(stage_in@[before.len() as int] == index);
                        }
                    }
                    if stage_in@.contains(index) && !before.contains(index) {
                        assert(reads_stage_in(next[n as int]));
                        let k = choose|k: int|
                            0 <= k < stage_in@.len() && stage_in@[k] == index;
                        if k < before.len() {
                            assert(before[k] == index);
                        }
                        assert(next[n as int].buffer_index == index);
                    }
                }
            }
            n += 1;
        }
        assert(attributes@.take(n as int) =~= attributes@);
        InputPlan { native_plain: plain_input_draw(draw), stage_in }
    }

    /// Whether a vertex binding may be captured straight into a native buffer.
    pub fn native_vertex(&self, index: u32) -> (r: bool)
        ensures
            r == (self.native_plain && !self.attribute_bindings().contains(index)),
    {
        if !self.native_plain {
            return false;
        }
        let mut n: usize = 0;
        while n < self.stage_in.len()
            invariant
                0 <= n <= self.stage_in@.len(),
                self.native_plain,
                forall|k: int| 0 <= k < n ==> self.stage_in@[k] != index,
            decreases self.stage_in@.len() - n,
        {
            if self.stage_in[n] == index {
                assert(self.stage_in@.contains(index));
                return false;
            }
            n += 1;
        }
        true
    }
}

/// How a bound buffer is captured.
#[derive(Clone, Copy, Debug, PartialEq, Eq, Structural)]
pub enum Capture {
    Cpu,
    /// Into a native buffer; the bytes the shader is proved to read, if known.
    Native { extent: Option<u64> },
    /// Into a native buffer that may be retained within a live pass.
    ScopedNative { extent: Option<u64> },
}

/// Why an input could not be captured.
#[derive(Clone, Copy, Debug, PartialEq, Eq, Structural)]
pub enum CaptureRefusal {
    /// The binding has no readable window, or its bytes could not be read.
    Missed,
    /// There is no device.
    DeviceUnavailable,
    /// The device refused the buffer.
    Backend,
}

impl CaptureRefusal {
    /// Whether the refusal is the device's rather than the guest's.
    pub fn is_device(self) -> (r: bool)
        ensures
            r == (self != CaptureRefusal::Missed),
    {
        match self {
            CaptureRefusal::Missed => false,
            _ => true,
        }
    }
}

/// Why a native buffer was not filled.
#[derive(Clone, Copy, Debug, PartialEq, Eq, Structural)]
pub enum Fill {
    /// The device refused.
    Backend,
    /// The bytes could not be read.
    Callback,
}

/// What the capture does next.
#[derive(Clone, Copy, Debug, PartialEq, Eq, Structural)]
pub enum CaptureStep {
    /// Read the window's bytes.
    Read,
    /// Fill a native buffer of `size - offset` bytes, `len` of them captured.
    FillNative { size: u64, offset: u64, len: u64 },
    /// Capture the window's snapshot, or bind the one retained for its pass.
    Snapshot { size: u64, offset: u64, len: u64 },
}

/// The readable window of a binding.
#[derive(Clone, Copy, Debug, PartialEq, Eq, Structural)]
pub struct InputWindow {
    /// Bytes of the declared allocation.
    pub size: u64,
    pub offset: u64,
    pub len: u64,
}

/// The extent the window is asked for with: only a native capture has one.
pub fn requested_extent(capture: Capture) -> (extent: Option<u64>)
    ensures
        extent == match capture {
            Capture::Native { extent } => extent,
            Capture::ScopedNative { extent } => extent,
            Capture::Cpu => None,
        },
{
    match capture {
        Capture::Native { extent } => extent,
        Capture::ScopedNative { extent } => extent,
        Capture::Cpu => None,
    }
}

/// The work a capture needs, once its window is known. A missing window comes
/// before a missing device, and a CPU capture needs no device.
pub fn capture_step(capture: Capture, window: Option<InputWindow>, device: bool) -> (r: Result<
    CaptureStep,
    CaptureRefusal,
>)
    ensures
        r == match (window, capture) {
            (None, _) => Err::<CaptureStep, CaptureRefusal>(CaptureRefusal::Missed),
            (Some(_), Capture::Cpu) => Ok(CaptureStep::Read),
            (Some(w), Capture::Native { .. }) => if !device {
                Err(CaptureRefusal::DeviceUnavailable)
            } else {
                Ok(CaptureStep::FillNative { size: w.size, offset: w.offset, len: w.len })
            },
            (Some(w), Capture::ScopedNative { .. }) => if !device {
                Err(CaptureRefusal::DeviceUnavailable)
            } else {
                Ok(CaptureStep::Snapshot { size: w.size, offset: w.offset, len: w.len })
            },
        },
{
    let window: InputWindow = match window {
        Some(window) => window,
        None => {
            return Err(CaptureRefusal::Missed);
        },
    };
    match capture {
        Capture::Cpu => Ok(CaptureStep::Read),
        Capture::Native { .. } => if !device {
            Err(CaptureRefusal::DeviceUnavailable)
        } else {
            Ok(
                CaptureStep::FillNative {
                    size: window.size,
                    offset: window.offset,
                    len: window.len,
                },
            )
        },
        Capture::ScopedNative { .. } => if !device {
            Err(CaptureRefusal::DeviceUnavailable)
        } else {
            Ok(
                CaptureStep::Snapshot {
                    size: window.size,
                    offset: window.offset,
                    len: window.len,
                },
            )
        },
    }
}

/// How a CPU capture ends.
pub fn finish_read(bytes: Option<Vec<u8>>) -> (r: Result<Vec<u8>, CaptureRefusal>)
    ensures
        r == match bytes {
            Some(b) => Ok::<Vec<u8>, CaptureRefusal>(b),
            None => Err(CaptureRefusal::Missed),
        },
{
    match bytes {
        Some(bytes) => Ok(bytes),
        None => Err(CaptureRefusal::Missed),
    }
}

/// The buffer binding an input is captured for.
#[derive(Clone, Copy, Debug, PartialEq, Eq, Structural)]
pub struct BufferBind {
    pub index: u32,
    /// The stride attributes are fetched from it with, where the bind states one.
    pub attribute_stride: Option<u64>,
}

/// A native input: its bytes, bound at the index and with the stride of its bind.
#[derive(Debug)]
pub struct NativeInput<B> {
    pub binding: u32,
    pub attribute_stride: Option<u64>,
    pub bytes: B,
}

/// How a native capture ends.
pub fn finish_fill<B>(bind: &BufferBind, filled: Result<B, Fill>) -> (r: Result<
    NativeInput<B>,
    CaptureRefusal,
>)
    ensures
        r == match filled {
            Ok(bytes) => Ok::<NativeInput<B>, CaptureRefusal>(
                NativeInput {
                    binding: bind.index,
                    attribute_stride: bind.attribute_stride,
                    bytes,
                },
            ),
            Err(Fill::Backend) => Err(CaptureRefusal::Backend),
            Err(Fill::Callback) => Err(CaptureRefusal::Missed),
        },
{
    match filled {
        Ok(bytes) => Ok(
            NativeInput { binding: bind.index, attribute_stride: bind.attribute_stride, bytes },
        ),
        Err(Fill::Backend) => Err(CaptureRefusal::Backend),
        Err(Fill::Callback) => Err(CaptureRefusal::Missed),
    }
}

/// A draw's only inputs are buffers exactly when it arms no query, attaches neither
/// depth nor stencil and binds no texture in either stage.
pub proof fn law_a_plain_draw_binds_only_buffers(draw: DrawInputs)
    ensures
        draw.plain() <==> {
            &&& !draw.visibility
            &&& !draw.depth_attach
            &&& !draw.stencil_attach
            &&& forall|k: int|
                0 <= k < draw.vertex_textures@.len() ==> #[trigger] draw.vertex_textures@[k] == 0
            &&& forall|k: int|
                0 <= k < draw.fragment_textures@.len() ==> #[trigger] draw.fragment_textures@[k]
                    == 0
        },
{
}

/// A binding that any fetched attribute reads stays off the native route; one that
/// only absent or strideless attributes name does not.
pub proof fn law_an_attributes_binding_supplies_it(
    attributes: Seq<VertexAttribute>,
    index: u32,
    k: int,
)
    ensures
        0 <= k < attributes.len() && attributes[k].buffer_index == index && attributes[k].format
            != 0 && attributes[k].stride != 0 ==> supplies_attribute(attributes, index),
        (forall|j: int|
            0 <= j < attributes.len() ==> (#[trigger] attributes[j]).buffer_index != index
                || attributes[j].format == 0 || attributes[j].stride == 0) ==> !supplies_attribute(
            attributes,
            index,
        ),
{
    if 0 <= k < attributes.len() && attributes[k].format != 0 && attributes[k].stride != 0 {
        assert(reads_stage_in(attributes[k]));
    }
}

} // verus!
