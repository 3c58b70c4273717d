//! The walk over a submission's records that finds the draws to prepare.
use crate::native_pipeline::objects::ResourceId;
use crate::native_pipeline::reason::PreflightReason;
use vstd::prelude::*;

verus! {

/// The primitive topologies a draw may state.
#[derive(Clone, Copy, Debug, PartialEq, Eq, Structural)]
pub enum PrimitiveType {
    Point,
    Line,
    LineStrip,
    Triangle,
    TriangleStrip,
}

/// The rasteriser state a guest sets, as the guest's own numbers.
#[derive(Clone, Copy, Debug, PartialEq, Eq, Structural)]
pub struct GuestRasterState {
    pub cull_mode: u32,
    pub winding: u32,
    pub depth_clip_mode: u32,
    pub fill_mode: u32,
}

/// A recorded draw. The topology is absent when the guest's number names none.
#[derive(Clone, Copy, Debug)]
pub enum DrawOp {
    Primitives { primitive: Option<PrimitiveType> },
    Indexed { primitive: Option<PrimitiveType> },
    Indirect,
}

/// A recorded operation, reduced to what preparation depends on. `Bind` is any
/// other change of the encoder's bindings.
#[derive(Clone, Copy, Debug)]
pub enum StreamOp {
    WriteDescriptor { descriptor: u32 },
    SetPipeline { pipeline: ResourceId },
    SetViewports { count: u32 },
    SetScissorRects { count: u32 },
    SetCullMode(u32),
    SetFrontFacingWinding(u32),
    SetDepthClipMode(u32),
    SetTriangleFillMode(u32),
    Bind,
    Draw(DrawOp),
    /// A record that is not a render operation.
    Other,
}

/// A draw to prepare: where it stands, and the state it is drawn with.
#[derive(Clone, Copy, Debug, PartialEq, Eq, Structural)]
pub struct DrawSite {
    pub stream: usize,
    pub record: usize,
    pub pass: u32,
    pub raster: GuestRasterState,
    pub topology: PrimitiveType,
    pub slots: u32,
}

/// Why the walk stopped, and the pipeline bound at that point.
#[derive(Clone, Copy, Debug)]
pub struct ScanFailure {
    pub reason: PreflightReason,
    pub pipeline: Option<ResourceId>,
}

/// What the walk carries from record to record of one stream.
#[derive(Clone, Copy, Debug)]
pub struct Walk {
    pub pipeline: Option<ResourceId>,
    pub pass: Option<u32>,
    pub raster: GuestRasterState,
    pub viewports: u32,
    pub scissors: u32,
    pub prepared: Option<PrimitiveType>,
}

/// What one record leads to.
#[derive(Clone, Copy, Debug)]
pub enum Step {
    /// Nothing to prepare.
    Continue(Walk),
    /// A draw to prepare.
    Prepare(Walk, DrawSite),
    /// The walk stops.
    Refuse(ScanFailure),
}

/// The state every stream starts in.
pub open spec fn fresh_walk() -> Walk {
    Walk {
        pipeline: None,
        pass: None,
        raster: GuestRasterState { cull_mode: 0, winding: 0, depth_clip_mode: 0, fill_mode: 0 },
        viewports: 1,
        scissors: 1,
        prepared: None,
    }
}

/// The larger of two counts.
pub open spec fn larger(a: u32, b: u32) -> u32 {
    if a < b {
        b
    } else {
        a
    }
}

/// What a draw of a known topology leads to.
pub open spec fn drawn(
    walk: Walk,
    topology: PrimitiveType,
    stream: usize,
    record: usize,
) -> Step {
    if walk.prepared == Some(topology) {
        Step::Continue(walk)
    } else {
        match walk.pass {
            None => Step::Refuse(
                ScanFailure { reason: PreflightReason::NoPass, pipeline: walk.pipeline },
            ),
            Some(pass) => Step::Prepare(
                Walk { prepared: Some(topology), ..walk },
                DrawSite {
                    stream,
                    record,
                    pass,
                    raster: walk.raster,
                    topology,
                    slots: larger(walk.viewports, walk.scissors),
                },
            ),
        }
    }
}

/// What one record leads to. Only a draw keeps an earlier preparation valid.
pub open spec fn stepped(
    walk: Walk,
    op: StreamOp,
    passes: u32,
    stream: usize,
    record: usize,
) -> Step {
    let reset = Walk { prepared: None, ..walk };
    match op {
        StreamOp::Other => Step::Continue(reset),
        StreamOp::Bind => Step::Continue(reset),
        StreamOp::WriteDescriptor { descriptor } => Step::Continue(
            Walk {
                pass: if descriptor < passes {
                    Some(descriptor)
                } else {
                    None
                },
                ..reset
            },
        ),
        StreamOp::SetPipeline { pipeline } => Step::Continue(
            Walk { pipeline: Some(pipeline), ..reset },
        ),
        StreamOp::SetViewports { count } => Step::Continue(
            Walk { viewports: larger(count, 1), ..reset },
        ),
        StreamOp::SetScissorRects { count } => Step::Continue(
            Walk { scissors: larger(count, 1), ..reset },
        ),
        StreamOp::SetCullMode(value) => Step::Continue(
            Walk { raster: GuestRasterState { cull_mode: value, ..walk.raster }, ..reset },
        ),
        StreamOp::SetFrontFacingWinding(value) => Step::Continue(
            Walk { raster: GuestRasterState { winding: value, ..walk.raster }, ..reset },
        ),
        StreamOp::SetDepthClipMode(value) => Step::Continue(
            Walk { raster: GuestRasterState { depth_clip_mode: value, ..walk.raster }, ..reset },
        ),
        StreamOp::SetTriangleFillMode(value) => Step::Continue(
            Walk { raster: GuestRasterState { fill_mode: value, ..walk.raster }, ..reset },
        ),
        StreamOp::Draw(draw) => match draw {
            DrawOp::Indirect => Step::Refuse(
                ScanFailure { reason: PreflightReason::IndirectDraw, pipeline: walk.pipeline },
            ),
            DrawOp::Primitives { primitive } => match primitive {
                None => Step::Refuse(
                    ScanFailure { reason: PreflightReason::Topology, pipeline: walk.pipeline },
                ),
                Some(topology) => drawn(walk, topology, stream, record),
            },
            DrawOp::Indexed { primitive } => match primitive {
                None => Step::Refuse(
                    ScanFailure { reason: PreflightReason::Topology, pipeline: walk.pipeline },
                ),
                Some(topology) => drawn(walk, topology, stream, record),
            },
        },
    }
}

/// The draws to prepare in the records of one stream from `n` on, up to the first
/// record that stops the walk.
pub open spec fn scanned_records(
    records: Seq<StreamOp>,
    n: int,
    passes: u32,
    stream: usize,
    walk: Walk,
    sites: Seq<DrawSite>,
) -> (Seq<DrawSite>, Option<ScanFailure>)
    decreases records.len() - n,
{
    if n < 0 || n >= records.len() {
        (sites, None)
    } else {
        match stepped(walk, records[n], passes, stream, n as usize) {
            Step::Continue(next) => scanned_records(records, n + 1, passes, stream, next, sites),
            Step::Prepare(next, site) => scanned_records(
                records,
                n + 1,
                passes,
                stream,
                next,
                sites.push(site),
            ),
            Step::Refuse(failure) => (sites, Some(failure)),
        }
    }
}

/// The draws to prepare in the streams from `n` on. Every stream starts afresh.
pub open spec fn scanned(
    streams: Seq<Vec<StreamOp>>,
    n: int,
    passes: u32,
    sites: Seq<DrawSite>,
) -> (Seq<DrawSite>, Option<ScanFailure>)
    decreases streams.len() - n,
{
    if n < 0 || n >= streams.len() {
        (sites, None)
    } else {
        let found = scanned_records(streams[n]@, 0, passes, n as usize, fresh_walk(), sites);
        if found.1 is Some {
            found
        } else {
            scanned(streams, n + 1, passes, found.0)
        }
    }
}

fn same_topology(prepared: Option<PrimitiveType>, topology: PrimitiveType) -> (r: bool)
    ensures
        r == (prepared == Some(topology)),
{
    match prepared {
        Some(previous) => previous == topology,
        None => false,
    }
}

fn draw(walk: Walk, topology: PrimitiveType, stream: usize, record: usize) -> (next: Step)
    ensures
        next == drawn(walk, topology, stream, record),
{
    if same_topology(walk.prepared, topology) {
        return Step::Continue(walk);
    }
    match walk.pass {
        None => Step::Refuse(
            ScanFailure { reason: PreflightReason::NoPass, pipeline: walk.pipeline },
        ),
        Some(pass) => Step::Prepare(
            Walk { prepared: Some(topology), ..walk },
            DrawSite {
                stream,
                record,
                pass,
                raster: walk.raster,
                topology,
                slots: if walk.viewports < walk.scissors {
                    walk.scissors
                } else {
                    walk.viewports
                },
            },
        ),
    }
}

/// What one record leads to.
pub fn step(walk: Walk, op: StreamOp, passes: u32, stream: usize, record: usize) -> (next: Step)
    ensures
        next == stepped(walk, op, passes, stream, record),
{
    let reset: Walk = Walk { prepared: None, ..walk };
    let raster: GuestRasterState = walk.raster;
    match op {
        StreamOp::Other => Step::Continue(reset),
        StreamOp::Bind => Step::Continue(reset),
        StreamOp::WriteDescriptor { descriptor } => Step::Continue(
            Walk {
                pass: if descriptor < passes {
                    Some(descriptor)
                } else {
                    None
                },
                ..reset
            },
        ),
        StreamOp::SetPipeline { pipeline } => Step::Continue(
            Walk { pipeline: Some(pipeline), ..reset },
        ),
        StreamOp::SetViewports { count } => Step::Continue(
            Walk {
                viewports: if count < 1 {
                    1
                } else {
                    count
                },
                ..reset
            },
        ),
        StreamOp::SetScissorRects { count } => Step::Continue(
            Walk {
                scissors: if count < 1 {
                    1
                } else {
                    count
                },
                ..reset
            },
        ),
        StreamOp::SetCullMode(value) => Step::Continue(
            Walk { raster: GuestRasterState { cull_mode: value, ..raster }, ..reset },
        ),
        StreamOp::SetFrontFacingWinding(value) => Step::Continue(
            Walk { raster: GuestRasterState { winding: value, ..raster }, ..reset },
        ),
        StreamOp::SetDepthClipMode(value) => Step::Continue(
            Walk { raster: GuestRasterState { depth_clip_mode: value, ..raster }, ..reset },
        ),
        StreamOp::SetTriangleFillMode(value) => Step::Continue(
            Walk { raster: GuestRasterState { fill_mode: value, ..raster }, ..reset },
        ),
        StreamOp::Draw(op) => {
            let primitive: Option<PrimitiveType> = match op {
                DrawOp::Indirect => {
                    return Step::Refuse(
                        ScanFailure {
                            reason: PreflightReason::IndirectDraw,
                            pipeline: walk.pipeline,
                        },
                    );
                },
                DrawOp::Primitives { primitive } => primitive,
                DrawOp::Indexed { primitive } => primitive,
            };
            match primitive {
                None => Step::Refuse(
                    ScanFailure { reason: PreflightReason::Topology, pipeline: walk.pipeline },
                ),
                Some(topology) => draw(walk, topology, stream, record),
            }
        },
    }
}

fn scan_records(
    records: &Vec<StreamOp>,
    passes: u32,
    stream: usize,
    sites: &mut Vec<DrawSite>,
) -> (failure: Option<ScanFailure>)
    ensures
        (final(sites)@, failure) == scanned_records(
            records@,
            0,
            passes,
            stream,
            fresh_walk(),
            old(sites)@,
        ),
{
    let mut walk: Walk = Walk {
        pipeline: None,
        pass: None,
        raster: GuestRasterState { cull_mode: 0, winding: 0, depth_clip_mode: 0, fill_mode: 0 },
        viewports: 1,
        scissors: 1,
        prepared: None,
    };
    let mut n: usize = 0;
    while n < records.len()
        invariant
            0 <= n <= records@.len(),
            scanned_records(records@, 0, passes, stream, fresh_walk(), old(sites)@)
                == scanned_records(records@, n as int, passes, stream, walk, sites@),
        decreases records@.len() - n,
    {
        match step(walk, records[n], passes, stream, n) {
            Step::Continue(next) => {
                walk = next;
            },
            Step::Prepare(next, site) => {
                walk = next;
                sites.push(site);
            },
            Step::Refuse(failure) => {
                return Some(failure);
            },
        }
        n += 1;
    }
    None
}

/// The draws to prepare in a submission, in order, up to the first thing in it
/// that native preparation cannot read, and that thing. The draws before it are
/// prepared all the same. `passes` is how many pass descriptors the submission
/// carries.
pub fn scan(streams: &Vec<Vec<StreamOp>>, passes: u32) -> (r: (Vec<DrawSite>, Option<ScanFailure>))
    ensures
        (r.0@, r.1) == scanned(streams@, 0, passes, Seq::empty()),
{
    let mut sites: Vec<DrawSite> = Vec::new();
    let mut n: usize = 0;
    while n < streams.len()
        invariant
            0 <= n <= streams@.len(),
            scanned(streams@, 0, passes, Seq::empty()) == scanned(
                streams@,
                n as int,
                passes,
                sites@,
            ),
        decreases streams@.len() - n,
    {
        if let Some(failure) = scan_records(&streams[n], passes, n, &mut sites) {
            return (sites, Some(failure));
        }
        n += 1;
    }
    (sites, None)
}

/// A repeated draw right behind one of the same topology prepares nothing more.
pub proof fn law_consecutive_draws_prepare_once(
    walk: Walk,
    topology: PrimitiveType,
    passes: u32,
    stream: usize,
    first: usize,
    second: usize,
)
    requires
        walk.pass is Some,
    ensures
        ({
            let op = StreamOp::Draw(DrawOp::Primitives { primitive: Some(topology) });
            let after = match stepped(walk, op, passes, stream, first) {
                Step::Continue(next) => next,
                Step::Prepare(next, site) => next,
                Step::Refuse(failure) => walk,
            };
            stepped(after, op, passes, stream, second) == Step::Continue(after)
        }),
{
}

/// Any record other than a draw makes the next direct draw be prepared again.
pub proof fn law_other_records_invalidate_preparation(
    walk: Walk,
    op: StreamOp,
    topology: PrimitiveType,
    passes: u32,
    stream: usize,
    first: usize,
    second: usize,
)
    requires
        !(op is Draw),
        stepped(walk, op, passes, stream, first)->Continue_0.pass is Some,
    ensures
        stepped(walk, op, passes, stream, first) is Continue,
        stepped(
            stepped(walk, op, passes, stream, first)->Continue_0,
            StreamOp::Draw(DrawOp::Primitives { primitive: Some(topology) }),
            passes,
            stream,
            second,
        ) is Prepare,
{
}

proof fn lemma_sites_are_in_order(
    records: Seq<StreamOp>,
    n: int,
    passes: u32,
    stream: usize,
    walk: Walk,
    sites: Seq<DrawSite>,
)
    requires
        n >= 0,
        records.len() <= usize::MAX,
        forall|k: int|
            0 <= k < sites.len() ==> (#[trigger] sites[k]).stream < stream || (sites[k].stream
                == stream && sites[k].record < n),
        forall|i: int, j: int| #![trigger sites[i], sites[j]]
            0 <= i < j < sites.len() ==> sites[i].stream < sites[j].stream || (sites[i].stream
                == sites[j].stream && sites[i].record < sites[j].record),
    ensures
        ({
            let found = scanned_records(records, n, passes, stream, walk, sites).0;
            &&& forall|k: int| 0 <= k < found.len() ==> (#[trigger] found[k]).stream <= stream
            &&& forall|i: int, j: int| #![trigger found[i], found[j]]
                0 <= i < j < found.len() ==> found[i].stream < found[j].stream || (found[i].stream
                    == found[j].stream && found[i].record < found[j].record)
        }),
    decreases records.len() - n,
{
    if n < records.len() {
        match stepped(walk, records[n], passes, stream, n as usize) {
            Step::Continue(next) => {
                lemma_sites_are_in_order(records, n + 1, passes, stream, next, sites);
            },
            Step::Prepare(next, site) => {
                lemma_sites_are_in_order(records, n + 1, passes, stream, next, sites.push(site));
            },
            Step::Refuse(_) => {},
        }
    }
}

proof fn lemma_streams_are_in_order(
    streams: Seq<Vec<StreamOp>>,
    n: int,
    passes: u32,
    sites: Seq<DrawSite>,
)
    requires
        n >= 0,
        streams.len() <= usize::MAX,
        forall|k: int| 0 <= k < sites.len() ==> (#[trigger] sites[k]).stream < n,
        forall|i: int, j: int| #![trigger sites[i], sites[j]]
            0 <= i < j < sites.len() ==> sites[i].stream < sites[j].stream || (sites[i].stream
                == sites[j].stream && sites[i].record < sites[j].record),
    ensures
        ({
            let found = scanned(streams, n, passes, sites).0;
            forall|i: int, j: int| #![trigger found[i], found[j]]
                0 <= i < j < found.len() ==> found[i].stream < found[j].stream || (found[i].stream
                    == found[j].stream && found[i].record < found[j].record)
        }),
    decreases streams.len() - n,
{
    if n < streams.len() {
        assert(streams[n]@.len() == streams[n].len());
        lemma_sites_are_in_order(streams[n]@, 0, passes, n as usize, fresh_walk(), sites);
        let found = scanned_records(streams[n]@, 0, passes, n as usize, fresh_walk(), sites);
        if found.1 is None {
            lemma_streams_are_in_order(streams, n + 1, passes, found.0);
        }
    }
}

/// The prepared draws come in record order, and no record is prepared twice.
pub proof fn law_prepared_draws_are_in_record_order(streams: Seq<Vec<StreamOp>>, passes: u32)
    requires
        streams.len() <= usize::MAX,
    ensures
        ({
            let found = scanned(streams, 0, passes, Seq::empty()).0;
            forall|i: int, j: int| #![trigger found[i], found[j]]
                0 <= i < j < found.len() ==> found[i].stream < found[j].stream || (found[i].stream
                    == found[j].stream && found[i].record < found[j].record)
        }),
{
    lemma_streams_are_in_order(streams, 0, passes, Seq::empty());
}

/// The topology a record draws, where it is a draw of a known one.
pub open spec fn topology_of(op: StreamOp) -> Option<PrimitiveType> {
    match op {
        StreamOp::Draw(DrawOp::Primitives { primitive }) => primitive,
        StreamOp::Draw(DrawOp::Indexed { primitive }) => primitive,
        _ => None,
    }
}

/// Two records set the same piece of state.
pub open spec fn set_alike(a: StreamOp, b: StreamOp) -> bool {
    ||| a is WriteDescriptor && b is WriteDescriptor
    ||| a is SetPipeline && b is SetPipeline
    ||| a is SetViewports && b is SetViewports
    ||| a is SetScissorRects && b is SetScissorRects
    ||| a is SetCullMode && b is SetCullMode
    ||| a is SetFrontFacingWinding && b is SetFrontFacingWinding
    ||| a is SetDepthClipMode && b is SetDepthClipMode
    ||| a is SetTriangleFillMode && b is SetTriangleFillMode
}

/// The record at `m` is the last one before `r` that sets what it sets.
pub open spec fn last_set(records: Seq<StreamOp>, m: int, r: int) -> bool {
    &&& 0 <= m < r
    &&& forall|j: int| m < j < r ==> !set_alike(records[m], #[trigger] records[j])
}

/// No record before `r` sets what `op` sets.
pub open spec fn never_set(records: Seq<StreamOp>, op: StreamOp, r: int) -> bool {
    forall|j: int| 0 <= j < r ==> !set_alike(op, #[trigger] records[j])
}

/// The record at `r` draws what the record right before it drew.
pub open spec fn repeats(records: Seq<StreamOp>, r: int) -> bool {
    r > 0 && topology_of(records[r]) is Some && topology_of(records[r]) == topology_of(
        records[r - 1],
    )
}

/// The rasteriser state that the records before `r` leave: each part of it is
/// what the last record of its own sort set, and zero before the first.
pub open spec fn rasterizes(records: Seq<StreamOp>, r: int, raster: GuestRasterState) -> bool {
    &&& forall|m: int| #[trigger]
        last_set(records, m, r) ==> match records[m] {
            StreamOp::SetCullMode(value) => raster.cull_mode == value,
            StreamOp::SetFrontFacingWinding(value) => raster.winding == value,
            StreamOp::SetDepthClipMode(value) => raster.depth_clip_mode == value,
            StreamOp::SetTriangleFillMode(value) => raster.fill_mode == value,
            _ => true,
        }
    &&& never_set(records, StreamOp::SetCullMode(0), r) ==> raster.cull_mode == 0
    &&& never_set(records, StreamOp::SetFrontFacingWinding(0), r) ==> raster.winding == 0
    &&& never_set(records, StreamOp::SetDepthClipMode(0), r) ==> raster.depth_clip_mode == 0
    &&& never_set(records, StreamOp::SetTriangleFillMode(0), r) ==> raster.fill_mode == 0
}

/// The pass that the last descriptor before `r` opened is the given one: a
/// descriptor outside the submission's passes opens none.
pub open spec fn in_pass(records: Seq<StreamOp>, r: int, passes: u32, pass: Option<u32>) -> bool {
    &&& forall|m: int| #[trigger]
        last_set(records, m, r) ==> match records[m] {
            StreamOp::WriteDescriptor { descriptor } => {
                &&& descriptor < passes ==> pass == Some(descriptor)
                &&& descriptor >= passes ==> pass is None
            },
            _ => true,
        }
    &&& never_set(records, StreamOp::WriteDescriptor { descriptor: 0 }, r) ==> pass is None
}

/// The pipeline that the last record before `r` bound is the given one.
pub open spec fn with_pipeline(
    records: Seq<StreamOp>,
    r: int,
    pipeline: Option<ResourceId>,
) -> bool {
    &&& forall|m: int| #[trigger]
        last_set(records, m, r) ==> match records[m] {
            StreamOp::SetPipeline { pipeline: bound } => pipeline == Some(bound),
            _ => true,
        }
    &&& (forall|j: int| 0 <= j < r ==> !(#[trigger] records[j] is SetPipeline)) ==> pipeline is None
}

/// The viewports and the scissor rectangles that the records before `r` leave: as
/// many as were last set, but never none.
pub open spec fn with_rectangles(
    records: Seq<StreamOp>,
    r: int,
    viewports: u32,
    scissors: u32,
) -> bool {
    &&& viewports >= 1 && scissors >= 1
    &&& forall|m: int| #[trigger]
        last_set(records, m, r) ==> match records[m] {
            StreamOp::SetViewports { count } => viewports >= count && (viewports == count
                || viewports == 1),
            StreamOp::SetScissorRects { count } => scissors >= count && (scissors == count
                || scissors == 1),
            _ => true,
        }
    &&& never_set(records, StreamOp::SetViewports { count: 0 }, r) ==> viewports == 1
    &&& never_set(records, StreamOp::SetScissorRects { count: 0 }, r) ==> scissors == 1
}

/// The site stands for the record it names: a draw of its topology that does not
/// repeat the draw right before it, in the pass that is open there, with the
/// state that the records before it in its own stream leave.
pub open spec fn stands_at(streams: Seq<Vec<StreamOp>>, passes: u32, site: DrawSite) -> bool {
    let records = streams[site.stream as int]@;
    let r = site.record as int;
    &&& site.stream < streams.len()
    &&& r < records.len()
    &&& topology_of(records[r]) == Some(site.topology)
    &&& !repeats(records, r)
    &&& site.pass < passes
    &&& in_pass(records, r, passes, Some(site.pass))
    &&& rasterizes(records, r, site.raster)
    &&& exists|viewports: u32, scissors: u32| #[trigger]
        with_rectangles(records, r, viewports, scissors) && site.slots >= viewports && site.slots
            >= scissors && (site.slots == viewports || site.slots == scissors)
}

/// A draw stands in the list of sites.
pub open spec fn has_site(sites: Seq<DrawSite>, stream: int, record: int) -> bool {
    exists|k: int|
        0 <= k < sites.len() && (#[trigger] sites[k]).stream == stream && sites[k].record == record
}

/// The record stops the walk, for the given reason and with the pipeline bound
/// there: an indirect draw, a draw of no known topology, or one outside a pass.
pub open spec fn stops_at(
    records: Seq<StreamOp>,
    r: int,
    passes: u32,
    failure: ScanFailure,
) -> bool {
    &&& with_pipeline(records, r, failure.pipeline)
    &&& match failure.reason {
        PreflightReason::IndirectDraw => records[r] == StreamOp::Draw(DrawOp::Indirect),
        PreflightReason::Topology => records[r] is Draw && records[r] != StreamOp::Draw(
            DrawOp::Indirect,
        ) && topology_of(records[r]) is None,
        PreflightReason::NoPass => topology_of(records[r]) is Some && !repeats(records, r)
            && in_pass(records, r, passes, None),
        _ => false,
    }
}

/// The record is one the walk can read.
pub open spec fn readable(records: Seq<StreamOp>, r: int) -> bool {
    records[r] is Draw ==> topology_of(records[r]) is Some
}

/// The record was read, and has its site if it is a draw that does not repeat the
/// one right before it.
pub open spec fn settled(
    streams: Seq<Vec<StreamOp>>,
    s: int,
    r: int,
    sites: Seq<DrawSite>,
) -> bool {
    let records = streams[s]@;
    &&& readable(records, r)
    &&& topology_of(records[r]) is Some && !repeats(records, r) ==> has_site(sites, s, r)
}

/// What the walk carries is what the records before `r` leave.
spec fn walk_is(records: Seq<StreamOp>, r: int, passes: u32, walk: Walk) -> bool {
    &&& with_pipeline(records, r, walk.pipeline)
    &&& in_pass(records, r, passes, walk.pass)
    &&& walk.pass matches Some(pass) ==> pass < passes
    &&& rasterizes(records, r, walk.raster)
    &&& with_rectangles(records, r, walk.viewports, walk.scissors)
    &&& walk.prepared == if r > 0 {
        topology_of(records[r - 1])
    } else {
        None
    }
}

proof fn lemma_last_set_steps(records: Seq<StreamOp>, r: int)
    requires
        0 <= r < records.len(),
    ensures
        forall|m: int| #[trigger]
            last_set(records, m, r + 1) ==> m == r || (last_set(records, m, r) && !set_alike(
                records[m],
                records[r],
            )),
        forall|op: StreamOp| #[trigger]
            never_set(records, op, r + 1) ==> never_set(records, op, r) && !set_alike(
                op,
                records[r],
            ),
{
}

proof fn lemma_walk_steps(records: Seq<StreamOp>, r: int, passes: u32, stream: usize, walk: Walk)
    requires
        0 <= r < records.len(),
        walk_is(records, r, passes, walk),
    ensures
        match stepped(walk, records[r], passes, stream, r as usize) {
            Step::Continue(next) => {
                &&& walk_is(records, r + 1, passes, next)
                &&& readable(records, r)
                &&& topology_of(records[r]) is None || repeats(records, r)
            },
            Step::Prepare(next, site) => {
                &&& walk_is(records, r + 1, passes, next)
                &&& readable(records, r)
                &&& topology_of(records[r]) == Some(site.topology)
                &&& !repeats(records, r)
                &&& site.pass < passes
                &&& in_pass(records, r, passes, Some(site.pass))
                &&& rasterizes(records, r, site.raster)
                &&& site.slots >= walk.viewports
                &&& site.slots >= walk.scissors
                &&& site.slots == walk.viewports || site.slots == walk.scissors
                &&& site.stream == stream
                &&& site.record == r as usize
            },
            Step::Refuse(failure) => stops_at(records, r, passes, failure),
        },
{
    lemma_last_set_steps(records, r);
    match stepped(walk, records[r], passes, stream, r as usize) {
        Step::Continue(next) => {
            assert(with_pipeline(records, r + 1, next.pipeline)) by {
                if forall|j: int| 0 <= j < r + 1 ==> !(#[trigger] records[j] is SetPipeline) {
                    assert(!(records[r] is SetPipeline));
                }
            }
            assert(in_pass(records, r + 1, passes, next.pass));
            assert(rasterizes(records, r + 1, next.raster));
            assert(with_rectangles(records, r + 1, next.viewports, next.scissors));
        },
        Step::Prepare(next, site) => {
            assert(with_pipeline(records, r + 1, next.pipeline));
            assert(in_pass(records, r + 1, passes, next.pass));
            assert(rasterizes(records, r + 1, next.raster));
            assert(with_rectangles(records, r + 1, next.viewports, next.scissors));
        },
        Step::Refuse(_) => {},
    }
}

proof fn lemma_stream_sites(
    streams: Seq<Vec<StreamOp>>,
    s: int,
    n: int,
    passes: u32,
    walk: Walk,
    sites: Seq<DrawSite>,
)
    requires
        0 <= s < streams.len() <= usize::MAX,
        0 <= n <= streams[s]@.len() <= usize::MAX,
        walk_is(streams[s]@, n, passes, walk),
        forall|k: int| 0 <= k < sites.len() ==> stands_at(streams, passes, #[trigger] sites[k]),
        forall|r: int|
            0 <= r < n ==> #[trigger] settled(streams, s, r, sites),
    ensures
        ({
            let records = streams[s]@;
            let found = scanned_records(records, n, passes, s as usize, walk, sites);
            &&& sites.is_prefix_of(found.0)
            &&& forall|k: int|
                0 <= k < found.0.len() ==> stands_at(streams, passes, #[trigger] found.0[k])
            &&& found.1 is None ==> forall|r: int|
                0 <= r < records.len() ==> #[trigger] settled(streams, s, r, found.0)
            &&& found.1 matches Some(failure) ==> exists|last: int|
                0 <= last < records.len() && #[trigger] stops_at(records, last, passes, failure)
                    && forall|r: int|
                    0 <= r < last ==> #[trigger] settled(streams, s, r, found.0)
        }),
    decreases streams[s]@.len() - n,
{
    let records = streams[s]@;
    if n < records.len() {
        lemma_walk_steps(records, n, passes, s as usize, walk);
        match stepped(walk, records[n], passes, s as usize, n as usize) {
            Step::Continue(next) => {
                lemma_stream_sites(streams, s, n + 1, passes, next, sites);
            },
            Step::Prepare(next, site) => {
                let after = sites.push(site);
                assert(with_rectangles(records, n, walk.viewports, walk.scissors));
                assert(stands_at(streams, passes, site));
                assert(after[sites.len() as int] == site);
                assert(has_site(after, s, n));
                assert forall|r: int| 0 <= r < n + 1 implies #[trigger] settled(
                    streams,
                    s,
                    r,
                    after,
                ) by {
                    assert(r < n ==> settled(streams, s, r, sites));
                    if r < n && has_site(sites, s, r) {
                        let k = choose|k: int|
                            0 <= k < sites.len() && (#[trigger] sites[k]).stream == s
                                && sites[k].record == r;
                        assert(after[k] == sites[k]);
                    }
                }
                lemma_stream_sites(streams, s, n + 1, passes, next, after);
                assert(sites.is_prefix_of(after));
            },
            Step::Refuse(failure) => {
                assert(stops_at(records, n, passes, failure));
            },
        }
    }
}

/// All draws of the stream at `s` were read and have their sites.
pub open spec fn stream_read(streams: Seq<Vec<StreamOp>>, s: int, sites: Seq<DrawSite>) -> bool {
    forall|r: int|
        0 <= r < streams[s]@.len() ==> #[trigger] settled(streams, s, r, sites)
}

proof fn lemma_sites_grow(
    streams: Seq<Vec<StreamOp>>,
    s: int,
    before: Seq<DrawSite>,
    after: Seq<DrawSite>,
)
    requires
        before.is_prefix_of(after),
        stream_read(streams, s, before),
    ensures
        stream_read(streams, s, after),
{
    assert forall|r: int| 0 <= r < streams[s]@.len() implies #[trigger] settled(
        streams,
        s,
        r,
        after,
    ) by {
        assert(settled(streams, s, r, before));
        if has_site(before, s, r) {
            let k = choose|k: int|
                0 <= k < before.len() && (#[trigger] before[k]).stream == s && before[k].record
                    == r;
            assert(after[k] == before[k]);
        }
    }
}

proof fn lemma_submission_sites(
    streams: Seq<Vec<StreamOp>>,
    n: int,
    passes: u32,
    sites: Seq<DrawSite>,
)
    requires
        0 <= n <= streams.len() <= usize::MAX,
        forall|k: int| 0 <= k < sites.len() ==> stands_at(streams, passes, #[trigger] sites[k]),
        forall|s: int| 0 <= s < n ==> #[trigger] stream_read(streams, s, sites),
    ensures
        ({
            let found = scanned(streams, n, passes, sites);
            &&& forall|k: int|
                0 <= k < found.0.len() ==> stands_at(streams, passes, #[trigger] found.0[k])
            &&& found.1 is None ==> forall|s: int|
                0 <= s < streams.len() ==> #[trigger] stream_read(streams, s, found.0)
            &&& found.1 matches Some(failure) ==> exists|s: int, last: int|
                0 <= s < streams.len() && 0 <= last < streams[s]@.len() && #[trigger] stops_at(
                    streams[s]@,
                    last,
                    passes,
                    failure,
                ) && (forall|t: int| 0 <= t < s ==> #[trigger] stream_read(streams, t, found.0))
                    && forall|r: int|
                    0 <= r < last ==> #[trigger] settled(streams, s, r, found.0)
        }),
    decreases streams.len() - n,
{
    if n < streams.len() {
        let records = streams[n]@;
        assert(records.len() == streams[n].len());
        assert(walk_is(records, 0, passes, fresh_walk()));
        lemma_stream_sites(streams, n, 0, passes, fresh_walk(), sites);
        let found = scanned_records(records, 0, passes, n as usize, fresh_walk(), sites);
        assert forall|s: int| 0 <= s < n implies #[trigger] stream_read(
            streams,
            s,
            found.0,
        ) by {
            assert(stream_read(streams, s, sites));
            lemma_sites_grow(streams, s, sites, found.0);
        }
        match found.1 {
            None => {
                assert(stream_read(streams, n, found.0));
                lemma_submission_sites(streams, n + 1, passes, found.0);
            },
            Some(failure) => {
                let last = choose|last: int|
                    0 <= last < records.len() && #[trigger] stops_at(
                        records,
                        last,
                        passes,
                        failure,
                    ) && forall|r: int|
                        0 <= r < last ==> #[trigger] settled(streams, n, r, found.0);
                assert(stops_at(streams[n]@, last, passes, failure));
            },
        }
    }
}

/// Every prepared site stands for its record: it is drawn with what the last
/// record of each sort before it in its own stream set, and with nothing that a
/// record of another sort, a later record or another stream set.
pub proof fn law_sites_are_drawn_with_the_latest_state(
    streams: Seq<Vec<StreamOp>>,
    passes: u32,
    k: int,
)
    requires
        streams.len() <= usize::MAX,
        0 <= k < scanned(streams, 0, passes, Seq::empty()).0.len(),
    ensures
        stands_at(streams, passes, scanned(streams, 0, passes, Seq::empty()).0[k]),
{
    lemma_submission_sites(streams, 0, passes, Seq::empty());
}

/// A walk that was not stopped has read every record, and every draw that does
/// not repeat the draw right before it has a site.
pub proof fn law_every_new_draw_has_a_site(
    streams: Seq<Vec<StreamOp>>,
    passes: u32,
    s: int,
    r: int,
)
    requires
        streams.len() <= usize::MAX,
        scanned(streams, 0, passes, Seq::empty()).1 is None,
        0 <= s < streams.len(),
        0 <= r < streams[s]@.len(),
    ensures
        readable(streams[s]@, r),
        topology_of(streams[s]@[r]) is Some && !repeats(streams[s]@, r) ==> has_site(
            scanned(streams, 0, passes, Seq::empty()).0,
            s,
            r,
        ),
{
    lemma_submission_sites(streams, 0, passes, Seq::empty());
    assert(stream_read(streams, s, scanned(streams, 0, passes, Seq::empty()).0));
    assert(settled(streams, s, r, scanned(streams, 0, passes, Seq::empty()).0));
}

/// A walk that was stopped was stopped by one record, for that record's own
/// reason, and everything before that record was read and has its sites.
pub proof fn law_a_stopped_walk_names_its_record(
    streams: Seq<Vec<StreamOp>>,
    passes: u32,
    failure: ScanFailure,
)
    requires
        streams.len() <= usize::MAX,
        scanned(streams, 0, passes, Seq::empty()).1 == Some(failure),
    ensures
        exists|s: int, last: int|
            0 <= s < streams.len() && 0 <= last < streams[s]@.len() && #[trigger] stops_at(
                streams[s]@,
                last,
                passes,
                failure,
            ) && (forall|t: int|
                0 <= t < s ==> #[trigger] stream_read(
                    streams,
                    t,
                    scanned(streams, 0, passes, Seq::empty()).0,
                )) && forall|r: int|
                0 <= r < last ==> #[trigger] settled(
                    streams,
                    s,
                    r,
                    scanned(streams, 0, passes, Seq::empty()).0,
                ),
{
    lemma_submission_sites(streams, 0, passes, Seq::empty());
}

/// The plans among the outcomes from `n` on, behind those found.
pub open spec fn plans_from<T>(
    outcomes: Seq<Result<T, PreflightReason>>,
    n: int,
    found: Seq<T>,
) -> Seq<T>
    decreases outcomes.len() - n,
{
    if n < 0 || n >= outcomes.len() {
        found
    } else {
        match outcomes[n] {
            Ok(plan) => plans_from(outcomes, n + 1, found.push(plan)),
            Err(_) => plans_from(outcomes, n + 1, found),
        }
    }
}

/// How many of the first `n` outcomes are plans.
pub open spec fn plans_before<T>(outcomes: Seq<Result<T, PreflightReason>>, n: int) -> nat
    decreases n,
{
    if n <= 0 {
        0
    } else {
        plans_before(outcomes, n - 1) + if outcomes[n - 1] is Ok {
            1nat
        } else {
            0nat
        }
    }
}

proof fn lemma_plans_are_placed<T>(
    outcomes: Seq<Result<T, PreflightReason>>,
    n: int,
    found: Seq<T>,
)
    requires
        0 <= n <= outcomes.len(),
        found.len() == plans_before(outcomes, n),
        forall|k: int|
            0 <= k < n && (#[trigger] outcomes[k]) is Ok ==> plans_before(outcomes, k)
                < found.len() && found[plans_before(outcomes, k) as int] == outcomes[k]->Ok_0,
    ensures
        ({
            let plans = plans_from(outcomes, n, found);
            &&& plans.len() == plans_before(outcomes, outcomes.len() as int)
            &&& forall|k: int|
                0 <= k < outcomes.len() && (#[trigger] outcomes[k]) is Ok ==> plans_before(
                    outcomes,
                    k,
                ) < plans.len() && plans[plans_before(outcomes, k) as int] == outcomes[k]->Ok_0
        }),
    decreases outcomes.len() - n,
{
    if n < outcomes.len() {
        match outcomes[n] {
            Ok(plan) => {
                lemma_plans_are_placed(outcomes, n + 1, found.push(plan));
            },
            Err(_) => {
                lemma_plans_are_placed(outcomes, n + 1, found);
            },
        }
    }
}

/// Every plan is kept, each behind exactly the plans of the draws before it, and
/// nothing else is.
pub proof fn law_plans_keep_their_order<T>(outcomes: Seq<Result<T, PreflightReason>>, k: int)
    requires
        0 <= k < outcomes.len(),
    ensures
        plans_from(outcomes, 0, Seq::empty()).len() == plans_before(
            outcomes,
            outcomes.len() as int,
        ),
        outcomes[k] matches Ok(plan) ==> plans_before(outcomes, k) < plans_from(
            outcomes,
            0,
            Seq::empty(),
        ).len() && plans_from(outcomes, 0, Seq::empty())[plans_before(outcomes, k) as int] == plan,
{
    lemma_plans_are_placed(outcomes, 0, Seq::empty());
}

/// The plans of a submission: what preparing each of its draws gave, in order. A
/// draw that could not be prepared has none and holds up no other; a walk that
/// stopped leaves the submission without any.
pub fn collect<T>(
    outcomes: Vec<Result<T, PreflightReason>>,
    stopped: Option<ScanFailure>,
) -> (r: Result<Vec<T>, ScanFailure>)
    ensures
        match stopped {
            Some(failure) => r matches Err(e) && e == failure,
            None => r matches Ok(plans) && plans@ == plans_from(outcomes@, 0, Seq::empty()),
        },
{
    if let Some(failure) = stopped {
        return Err(failure);
    }
    let ghost given = outcomes@;
    let ghost mut n: int = 0;
    let mut rest: Vec<Result<T, PreflightReason>> = outcomes;
    let mut plans: Vec<T> = Vec::new();
    assert(given.skip(0) =~= given);
    assert(plans@ =~= Seq::<T>::empty());
    while rest.len() > 0
        invariant
            0 <= n <= given.len(),
            given == outcomes@,
            rest@ == given.skip(n),
            plans_from(given, 0, Seq::empty()) == plans_from(given, n, plans@),
        decreases rest@.len(),
    {
        let outcome: Result<T, PreflightReason> = rest.remove(0);
        assert(outcome == given[n]);
        if let Ok(plan) = outcome {
            plans.push(plan);
        }
        assert(rest@ =~= given.skip(n + 1));
        proof {
            n = n + 1;
        }
    }
    Ok(plans)
}

/// What a submission's draws were prepared as. It is collected once and kept,
/// whichever way it went.
pub struct Prepared<T> {
    pub plans: Option<Result<Vec<T>, ScanFailure>>,
}

impl<T> Prepared<T> {
    /// Nothing collected yet.
    pub fn new() -> (prepared: Prepared<T>)
        ensures
            prepared.plans is None,
    {
        Prepared { plans: None }
    }

    /// Whether the submission still has to be scanned.
    pub fn is_unscanned(&self) -> (r: bool)
        ensures
            r == (self.plans is None),
    {
        self.plans.is_none()
    }

    /// Keeps what was collected, the first time.
    pub fn keep(&mut self, collected: Result<Vec<T>, ScanFailure>)
        ensures
            final(self).plans == match old(self).plans {
                Some(kept) => Some(kept),
                None => Some(collected),
            },
    {
        if self.plans.is_none() {
            self.plans = Some(collected);
        }
    }
}

} // verus!
