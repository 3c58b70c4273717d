//! Physical-page dependencies between pass-owned attachments and CPU staging.
//!
//! Object numbers and mapping ids alone cannot establish disjointness: views,
//! buffers and separately mapped surfaces can name the same guest pages. An
//! unknown footprint takes the materializing fallback, never a guess.
use vstd::prelude::*;

verus! {

/// Why a draw cannot go on.
#[derive(Clone, Copy, Debug, PartialEq, Eq, Structural)]
pub enum HazardStatus {
    /// A pass-local attachment is also an input.
    MemorylessSampleAlias,
    /// The recorded work could not be flushed.
    FlushRefused,
    /// An affected attachment is not a target of the pass.
    TargetMissing,
    /// An affected attachment has no byte size.
    DependencyGeometry,
    /// An affected attachment could not be written back.
    DependencyWriteback,
}

impl HazardStatus {
    /// The name a status is reported under, where the reason is this module's
    /// own.
    pub open spec fn slug_text(self) -> Option<Seq<char>> {
        match self {
            HazardStatus::MemorylessSampleAlias => Some("draw_mtl_memoryless_sample_alias"@),
            HazardStatus::DependencyGeometry => Some("draw_mtl_dependency_geometry"@),
            HazardStatus::DependencyWriteback => Some("draw_mtl_dependency_writeback"@),
            _ => None,
        }
    }

    /// The name a status is reported under.
    pub fn slug(self) -> (text: Option<&'static str>)
        ensures
            text is Some <==> self.slug_text() is Some,
            text matches Some(t) ==> Some(t@) == self.slug_text(),
    {
        match self {
            HazardStatus::MemorylessSampleAlias => Some("draw_mtl_memoryless_sample_alias"),
            HazardStatus::DependencyGeometry => Some("draw_mtl_dependency_geometry"),
            HazardStatus::DependencyWriteback => Some("draw_mtl_dependency_writeback"),
            _ => None,
        }
    }
}

/// The pages of something, where all of them are known.
pub type Footprint = Option<Vec<u64>>;

/// A footprint as a set.
pub open spec fn pages_of(footprint: Footprint) -> Option<Set<u64>> {
    match footprint {
        Some(pages) => Some(pages@.to_set()),
        None => None,
    }
}

/// Two footprints may share a page: they do, or one of them is unknown.
pub open spec fn overlapping(left: Option<Set<u64>>, right: Option<Set<u64>>) -> bool {
    left is None || right is None || share_page(left->0, right->0)
}

/// Some page is in both.
pub open spec fn share_page(left: Set<u64>, right: Set<u64>) -> bool {
    exists|page: u64| #[trigger] left.contains(page) && right.contains(page)
}

fn holds_page(pages: &Vec<u64>, page: u64) -> (r: bool)
    ensures
        r == pages@.contains(page),
{
    let mut n: usize = 0;
    while n < pages.len()
        invariant
            0 <= n <= pages@.len(),
            forall|k: int| 0 <= k < n ==> pages@[k] != page,
        decreases pages@.len() - n,
    {
        if pages[n] == page {
            assert(pages@[n as int] == page);
            return true;
        }
        n += 1;
    }
    false
}

proof fn lemma_shared_page(ours: Seq<u64>, theirs: Seq<u64>, page: u64)
    requires
        ours.contains(page),
        theirs.contains(page),
    ensures
        overlapping(Some(ours.to_set()), Some(theirs.to_set())),
{
    let a = ours.to_set();
    let b = theirs.to_set();
    assert(a.contains(page) && b.contains(page));
}

/// Whether two footprints may share a page.
pub fn may_overlap(left: &Footprint, right: &Footprint) -> (r: bool)
    ensures
        r == overlapping(pages_of(*left), pages_of(*right)),
{
    match (left, right) {
        (Some(a), Some(b)) => {
            let mut n: usize = 0;
            while n < a.len()
                invariant
                    0 <= n <= a@.len(),
                    pages_of(*left) == Some(a@.to_set()),
                    pages_of(*right) == Some(b@.to_set()),
                    forall|k: int| 0 <= k < n ==> !b@.contains(#[trigger] a@[k]),
                decreases a@.len() - n,
            {
                if holds_page(b, a[n]) {
                    proof {
                        lemma_shared_page(a@, b@, a@[n as int]);
                    }
                    return true;
                }
                n += 1;
            }
            proof {
                if overlapping(pages_of(*left), pages_of(*right)) {
                    let page = choose|page: u64| #[trigger]
                        a@.to_set().contains(page) && b@.to_set().contains(page);
                    assert(a@.contains(page));
                    let k = choose|k: int| 0 <= k < a@.len() && a@[k] == page;
                    assert(!b@.contains(a@[k]));
                }
            }
            false
        },
        _ => true,
    }
}

/// How many pages a range of at least one byte touches.
pub open spec fn pages_spanned(gva: int, span: int, page_size: int) -> int {
    (gva + span - 1) / page_size - gva / page_size + 1
}

/// The walk of a range found every page: an empty range needs none, a range that
/// leaves the address space is unknown.
pub open spec fn walk_complete(gva: u64, span: u64, page_size: u64, walked: nat) -> bool {
    span == 0 || (gva + span <= u64::MAX && walked == pages_spanned(
        gva as int,
        span as int,
        page_size as int,
    ))
}

/// The footprint of a linear range, from the pages its walk found.
pub fn gva_pages(gva: u64, span: u64, page_size: u64, walked: Vec<u64>) -> (pages: Footprint)
    requires
        page_size > 0,
    ensures
        pages is Some <==> walk_complete(gva, span, page_size, walked@.len()),
        pages matches Some(p) ==> p@ == if span == 0 {
            Seq::<u64>::empty()
        } else {
            walked@
        },
{
    if span == 0 {
        let none: Vec<u64> = Vec::new();
        assert(none@ =~= Seq::<u64>::empty());
        return Some(none);
    }
    let end: u64 = match gva.checked_add(span) {
        Some(end) => end,
        None => {
            return None;
        },
    };
    proof {
        vstd::arithmetic::div_mod::lemma_div_is_ordered(gva as int, end - 1, page_size as int);
        assert((end - 1) / page_size as int <= end - 1) by (nonlinear_arith)
            requires
                page_size > 0,
                end >= 1,
        ;
        assert(gva / page_size >= 0);
    }
    let last: u64 = (end - 1) / page_size;
    let first: u64 = gva / page_size;
    let between: u64 = last - first;
    if walked.len() > 0 && walked.len() as u64 - 1 == between {
        Some(walked)
    } else {
        None
    }
}

/// Where an object's pages come from.
#[derive(Debug)]
pub enum PageSource {
    /// A buffer or a texture: its range and the pages the walk of it found.
    Linear { gva: u64, span: u64, walked: Vec<u64> },
    /// A texture that begins `offset` bytes into a buffer, and the pages the walk
    /// of what is left of the buffer found.
    BufferTexture { gva: u64, span: u64, offset: u64, walked: Vec<u64> },
    /// A surface mapping.
    Mapping { pages: Footprint },
    /// A view, whose chain is collapsed to the base it ends in.
    View { base: u32 },
}

/// An object that resolves.
#[derive(Debug)]
pub struct PageObject {
    pub reference: u32,
    pub source: PageSource,
}

/// The source of an object, the first of its reference.
pub open spec fn source_of(objects: Seq<PageObject>, reference: u32) -> Option<PageSource>
    decreases objects.len(),
{
    if objects.len() == 0 {
        None
    } else if objects[0].reference == reference {
        Some(objects[0].source)
    } else {
        source_of(objects.skip(1), reference)
    }
}

/// The footprint of a linear range from the pages its walk found.
pub open spec fn walked_pages(gva: u64, span: u64, page_size: u64, walked: Seq<u64>) -> Option<
    Seq<u64>,
> {
    if !walk_complete(gva, span, page_size, walked.len()) {
        None
    } else if span == 0 {
        Some(Seq::empty())
    } else {
        Some(walked)
    }
}

/// The footprint of a source that is no view.
pub open spec fn direct_footprint(source: PageSource, page_size: u64) -> Option<Seq<u64>> {
    match source {
        PageSource::Linear { gva, span, walked } => walked_pages(gva, span, page_size, walked@),
        PageSource::BufferTexture { gva, span, offset, walked } => if gva + offset > u64::MAX
            || offset > span {
            None
        } else {
            walked_pages((gva + offset) as u64, (span - offset) as u64, page_size, walked@)
        },
        PageSource::Mapping { pages } => match pages {
            Some(p) => Some(p@),
            None => None,
        },
        PageSource::View { .. } => None,
    }
}

/// The footprint of an object: a view's pages are those of its base.
pub open spec fn footprint_of(objects: Seq<PageObject>, reference: u32, page_size: u64) -> Option<
    Seq<u64>,
> {
    match source_of(objects, reference) {
        None => None,
        Some(PageSource::View { base }) => match source_of(objects, base) {
            None => None,
            Some(source) => direct_footprint(source, page_size),
        },
        Some(source) => direct_footprint(source, page_size),
    }
}

fn find_object(objects: &Vec<PageObject>, reference: u32) -> (at: Option<usize>)
    ensures
        match at {
            Some(k) => k < objects@.len() && source_of(objects@, reference) == Some(
                objects@[k as int].source,
            ),
            None => source_of(objects@, reference) is None,
        },
{
    let mut n: usize = 0;
    assert(objects@.skip(0) =~= objects@);
    while n < objects.len()
        invariant
            0 <= n <= objects@.len(),
            source_of(objects@.skip(n as int), reference) == source_of(objects@, reference),
        decreases objects@.len() - n,
    {
        if objects[n].reference == reference {
            return Some(n);
        }
        assert(objects@.skip(n as int).skip(1) =~= objects@.skip(n + 1));
        n += 1;
    }
    None
}

fn copy_pages(pages: &Vec<u64>) -> (copy: Vec<u64>)
    ensures
        copy@ == pages@,
{
    let mut copy: Vec<u64> = Vec::new();
    let mut n: usize = 0;
    while n < pages.len()
        invariant
            0 <= n <= pages@.len(),
            copy@ == pages@.take(n as int),
        decreases pages@.len() - n,
    {
        copy.push(pages[n]);
        assert(copy@ =~= pages@.take(n + 1));
        n += 1;
    }
    assert(pages@.take(n as int) =~= pages@);
    copy
}

fn direct_pages(source: &PageSource, page_size: u64) -> (pages: Footprint)
    requires
        page_size > 0,
    ensures
        match direct_footprint(*source, page_size) {
            Some(p) => pages matches Some(v) && v@ == p,
            None => pages is None,
        },
{
    match source {
        PageSource::Linear { gva, span, walked } => gva_pages(
            *gva,
            *span,
            page_size,
            copy_pages(walked),
        ),
        PageSource::BufferTexture { gva, span, offset, walked } => {
            let start: u64 = match gva.checked_add(*offset) {
                Some(start) => start,
                None => {
                    return None;
                },
            };
            if *offset > *span {
                return None;
            }
            gva_pages(start, *span - *offset, page_size, copy_pages(walked))
        },
        PageSource::Mapping { pages } => match pages {
            Some(pages) => Some(copy_pages(pages)),
            None => None,
        },
        PageSource::View { .. } => None,
    }
}

/// The footprint of an object, among those that resolve.
pub fn texture_pages(objects: &Vec<PageObject>, reference: u32, page_size: u64) -> (pages:
    Footprint)
    requires
        page_size > 0,
    ensures
        match footprint_of(objects@, reference, page_size) {
            Some(p) => pages matches Some(v) && v@ == p,
            None => pages is None,
        },
{
    let at: usize = match find_object(objects, reference) {
        Some(at) => at,
        None => {
            return None;
        },
    };
    match &objects[at].source {
        PageSource::View { base } => match find_object(objects, *base) {
            Some(below) => direct_pages(&objects[below].source, page_size),
            None => None,
        },
        _ => direct_pages(&objects[at].source, page_size),
    }
}

/// The texture whose bytes an object's are: a view's base, else the object itself.
pub open spec fn root_of(objects: Seq<PageObject>, reference: u32) -> u32 {
    match source_of(objects, reference) {
        Some(PageSource::View { base }) => base,
        _ => reference,
    }
}

/// The texture whose bytes an object's are.
pub fn texture_root(objects: &Vec<PageObject>, reference: u32) -> (root: u32)
    ensures
        root == root_of(objects@, reference),
{
    match find_object(objects, reference) {
        None => reference,
        Some(at) => match &objects[at].source {
            PageSource::View { base } => *base,
            _ => reference,
        },
    }
}

/// A colour attachment, as its footprint is read.
#[derive(Debug)]
pub struct ColorTarget {
    pub texture_ref: u32,
    /// Its storage is pass-local.
    pub memoryless: bool,
    /// Zero where the attachment is not a surface.
    pub mapping_id: u32,
    /// The pages of its surface mapping.
    pub mapping: Footprint,
    pub gva: u64,
    pub row_stride: u32,
    pub height: u32,
    /// The pages the walk of its linear rows found.
    pub walked: Vec<u64>,
}

/// The root of a colour attachment: pass-local storage is known by its base
/// texture, any other by its own reference.
pub open spec fn color_root(objects: Seq<PageObject>, target: ColorTarget) -> u32 {
    if target.memoryless {
        root_of(objects, target.texture_ref)
    } else {
        target.texture_ref
    }
}

/// The pages of a colour attachment: none of pass-local storage, those of its
/// mapping if it is a surface, else those of its linear rows.
pub open spec fn color_pages(target: ColorTarget, page_size: u64) -> Option<Seq<u64>> {
    if target.memoryless {
        Some(Seq::empty())
    } else if target.mapping_id != 0 {
        match target.mapping {
            Some(pages) => Some(pages@),
            None => None,
        }
    } else {
        walked_pages(
            target.gva,
            (target.row_stride * target.height) as u64,
            page_size,
            target.walked@,
        )
    }
}

/// The root and the pages of a colour attachment.
pub fn color_footprint(objects: &Vec<PageObject>, target: ColorTarget, page_size: u64) -> (color:
    ColorFootprint)
    requires
        page_size > 0,
    ensures
        color.root == color_root(objects@, target),
        match color_pages(target, page_size) {
            Some(pages) => color.pages matches Some(p) && p@ == pages,
            None => color.pages is None,
        },
        !target.memoryless && target.mapping_id == 0 ==> forall|k: int|
            0 <= k < target.walked@.len() && target.row_stride * target.height > 0 ==> color.pages
                is None || color.pages->0@.contains(#[trigger] target.walked@[k]),
        !target.memoryless && target.mapping_id != 0 && target.mapping is Some ==> forall|k: int|
            0 <= k < target.mapping->0@.len() ==> color.pages is Some && color.pages->0@.contains(
                #[trigger] target.mapping->0@[k],
            ),
        target.memoryless ==> color.pages is Some && color.pages->0@.len() == 0,
{
    if target.memoryless {
        let none: Vec<u64> = Vec::new();
        assert(none@ =~= Seq::<u64>::empty());
        return ColorFootprint {
            root: texture_root(objects, target.texture_ref),
            pages: Some(none),
        };
    }
    if target.mapping_id != 0 {
        return ColorFootprint { root: target.texture_ref, pages: target.mapping };
    }
    let (row_stride, height): (u32, u32) = (target.row_stride, target.height);
    assert(row_stride * height <= u64::MAX) by (nonlinear_arith)
        requires
            row_stride <= u32::MAX,
            height <= u32::MAX,
    ;
    let span: u64 = row_stride as u64 * height as u64;
    ColorFootprint {
        root: target.texture_ref,
        pages: gva_pages(target.gva, span, page_size, target.walked),
    }
}

/// A colour attachment's root texture and pages. Pass-local ones have no pages.
pub struct ColorFootprint {
    pub root: u32,
    pub pages: Footprint,
}

/// An input's root texture and pages.
pub struct InputFootprint {
    pub reference: u32,
    pub root: u32,
    pub pages: Footprint,
}

/// The footprints of a pass, each looked up once for the encoder's lifetime.
pub struct PassDependencies {
    pub colors: Vec<ColorFootprint>,
    pub inputs: Vec<InputFootprint>,
}

/// The input recorded for a reference, the first where several are.
pub open spec fn input_of(inputs: Seq<InputFootprint>, reference: u32) -> Option<InputFootprint>
    decreases inputs.len(),
{
    if inputs.len() == 0 {
        None
    } else if inputs[0].reference == reference {
        Some(inputs[0])
    } else {
        input_of(inputs.skip(1), reference)
    }
}

/// The attachment may hold the input's bytes: they have one root, or the
/// attachment is backed by guest pages that may be the input's.
pub open spec fn aliases_color(
    color: ColorFootprint,
    guest_backed: bool,
    input: InputFootprint,
) -> bool {
    color.root == input.root || (guest_backed && overlapping(
        pages_of(color.pages),
        pages_of(input.pages),
    ))
}

/// The attachments before `n` that may hold the input's bytes, in order.
pub open spec fn aliasing(
    colors: Seq<ColorFootprint>,
    guest_backed: Seq<bool>,
    input: InputFootprint,
    n: int,
) -> Seq<usize>
    decreases n,
{
    if n <= 0 {
        Seq::empty()
    } else {
        let before = aliasing(colors, guest_backed, input, n - 1);
        if aliases_color(colors[n - 1], guest_backed[n - 1], input) {
            before.push((n - 1) as usize)
        } else {
            before
        }
    }
}

impl PassDependencies {
    /// Nothing looked up yet.
    pub fn new() -> (dependencies: PassDependencies)
        ensures
            dependencies.colors@.len() == 0,
            dependencies.inputs@.len() == 0,
    {
        PassDependencies { colors: Vec::new(), inputs: Vec::new() }
    }

    /// Whether the attachments are looked up.
    pub fn is_prepared(&self) -> (r: bool)
        ensures
            r == (self.colors@.len() > 0),
    {
        self.colors.len() > 0
    }

    /// Records the attachments, the first time.
    pub fn prepare(&mut self, colors: Vec<ColorFootprint>)
        ensures
            final(self).inputs == old(self).inputs,
            final(self).colors == if old(self).colors@.len() > 0 {
                old(self).colors
            } else {
                colors
            },
    {
        if self.colors.len() > 0 {
            return ;
        }
        self.colors = colors;
    }

    fn position(&self, reference: u32) -> (at: Option<usize>)
        ensures
            match at {
                Some(k) => k < self.inputs@.len() && input_of(self.inputs@, reference) == Some(
                    self.inputs@[k as int],
                ),
                None => input_of(self.inputs@, reference) is None,
            },
    {
        let mut n: usize = 0;
        assert(self.inputs@.skip(0) =~= self.inputs@);
        while n < self.inputs.len()
            invariant
                0 <= n <= self.inputs@.len(),
                input_of(self.inputs@.skip(n as int), reference) == input_of(
                    self.inputs@,
                    reference,
                ),
            decreases self.inputs@.len() - n,
        {
            if self.inputs[n].reference == reference {
                return Some(n);
            }
            assert(self.inputs@.skip(n as int).skip(1) =~= self.inputs@.skip(n + 1));
            n += 1;
        }
        None
    }

    /// Whether an input is looked up.
    pub fn has_input(&self, reference: u32) -> (r: bool)
        ensures
            r == (input_of(self.inputs@, reference) is Some),
    {
        self.position(reference).is_some()
    }

    /// Looks an input up among the objects that resolve, the first time.
    pub fn input(&mut self, objects: &Vec<PageObject>, reference: u32, page_size: u64)
        requires
            page_size > 0,
        ensures
            final(self).colors == old(self).colors,
            input_of(old(self).inputs@, reference) is Some ==> final(self).inputs@
                == old(self).inputs@,
            input_of(old(self).inputs@, reference) is None ==> {
                let found = final(self).inputs@.last();
                &&& final(self).inputs@ == old(self).inputs@.push(found)
                &&& input_of(final(self).inputs@, reference) == Some(found)
                &&& found.reference == reference
                &&& found.root == root_of(objects@, reference)
                &&& match footprint_of(objects@, reference, page_size) {
                    Some(p) => found.pages matches Some(v) && v@ == p,
                    None => found.pages is None,
                }
            },
    {
        if self.has_input(reference) {
            return ;
        }
        let ghost before = self.inputs@;
        let found = InputFootprint {
            reference,
            root: texture_root(objects, reference),
            pages: texture_pages(objects, reference, page_size),
        };
        self.inputs.push(found);
        proof {
            lemma_input_push(before, found);
        }
    }

    /// The attachments that may hold a recorded input's bytes, and whether the
    /// input's own pages are unknown.
    pub fn aliases(&self, guest_backed: &Vec<bool>, reference: u32) -> (r: (Vec<usize>, bool))
        requires
            guest_backed@.len() == self.colors@.len(),
            input_of(self.inputs@, reference) is Some,
        ensures
            ({
                let input = input_of(self.inputs@, reference)->0;
                &&& r.0@ == aliasing(
                    self.colors@,
                    guest_backed@,
                    input,
                    self.colors@.len() as int,
                )
                &&& r.1 == (input.pages is None)
            }),
    {
        let mut found: Vec<usize> = Vec::new();
        let at: usize = match self.position(reference) {
            Some(at) => at,
            None => {
                return (found, false);
            },
        };
        let input: &InputFootprint = &self.inputs[at];
        let mut n: usize = 0;
        while n < self.colors.len()
            invariant
                0 <= n <= self.colors@.len(),
                guest_backed@.len() == self.colors@.len(),
                input_of(self.inputs@, reference) == Some(*input),
                found@ == aliasing(self.colors@, guest_backed@, *input, n as int),
            decreases self.colors@.len() - n,
        {
            if self.colors[n].root == input.root || (guest_backed[n] && may_overlap(
                &self.colors[n].pages,
                &input.pages,
            )) {
                found.push(n);
            }
            n += 1;
        }
        (found, input.pages.is_none())
    }
}

proof fn lemma_input_push(inputs: Seq<InputFootprint>, input: InputFootprint)
    requires
        input_of(inputs, input.reference) is None,
    ensures
        input_of(inputs.push(input), input.reference) == Some(input),
    decreases inputs.len(),
{
    if inputs.len() > 0 {
        lemma_input_push(inputs.skip(1), input);
        assert(inputs.push(input).skip(1) =~= inputs.skip(1).push(input));
    } else {
        assert(inputs.push(input)[0] == input);
    }
}

fn insert_reference(list: &mut Vec<u32>, reference: u32)
    requires
        forall|i: int, j: int| 0 <= i < j < old(list)@.len() ==> old(list)@[i] < old(list)@[j],
    ensures
        forall|i: int, j: int| 0 <= i < j < final(list)@.len() ==> final(list)@[i] < final(list)@[j],
        forall|r: u32| #[trigger]
            final(list)@.contains(r) == (old(list)@.contains(r) || r == reference),
{
    let ghost before = list@;
    let mut at: usize = 0;
    while at < list.len() && list[at] < reference
        invariant
            0 <= at <= list@.len(),
            list@ == before,
            forall|k: int| 0 <= k < at ==> before[k] < reference,
        decreases list@.len() - at,
    {
        at += 1;
    }
    if at < list.len() && list[at] == reference {
        assert(before[at as int] == reference);
        assert(before.contains(reference));
        return ;
    }
    list.insert(at, reference);
    proof {
        let after = list@;
        let a = at as int;
        assert(after == before.insert(a, reference));
        assert forall|i: int, j: int| 0 <= i < j < after.len() implies after[i] < after[j] by {
            let x = if i < a {
                i
            } else {
                i - 1
            };
            let y = if j < a {
                j
            } else {
                j - 1
            };
            if i != a && j != a {
                assert(before[x] < before[y]);
            }
            if i == a && a < before.len() && j - 1 > a {
                assert(before[a] < before[j - 1]);
            }
        }
        assert forall|r: u32| #[trigger]
            after.contains(r) == (before.contains(r) || r == reference) by {
            if before.contains(r) {
                let k = choose|k: int| 0 <= k < before.len() && before[k] == r;
                if k < a {
                    assert(after[k] == r);
                } else {
                    assert(after[k + 1] == r);
                }
            }
            if r == reference {
                assert(after[a] == r);
            }
            if after.contains(r) && r != reference {
                let k = choose|k: int| 0 <= k < after.len() && after[k] == r;
                if k < a {
                    assert(before[k] == r);
                } else {
                    assert(before[k - 1] == r);
                }
            }
        }
    }
}

/// The inputs of a draw: every buffer, texture, index buffer and depth or stencil
/// attachment it names, once, in ascending order. Zero names nothing.
pub fn input_references(named: &Vec<u32>) -> (references: Vec<u32>)
    ensures
        forall|i: int, j: int|
            0 <= i < j < references@.len() ==> references@[i] < references@[j],
        forall|r: u32| #[trigger]
            references@.contains(r) == (r != 0 && named@.contains(r)),
{
    let mut references: Vec<u32> = Vec::new();
    let mut n: usize = 0;
    while n < named.len()
        invariant
            0 <= n <= named@.len(),
            forall|i: int, j: int|
                0 <= i < j < references@.len() ==> references@[i] < references@[j],
            forall|r: u32| #[trigger]
                references@.contains(r) == (r != 0 && named@.take(n as int).contains(r)),
        decreases named@.len() - n,
    {
        let reference: u32 = named[n];
        let ghost before = references@;
        if reference != 0 {
            insert_reference(&mut references, reference);
        }
        proof {
            let next = named@.take(n + 1);
            let kept = named@.take(n as int);
            assert(next =~= kept.push(reference));
            assert forall|r: u32| #[trigger]
                references@.contains(r) == (r != 0 && next.contains(r)) by {
                assert(before.contains(r) == (r != 0 && kept.contains(r)));
                if kept.contains(r) {
                    let k = choose|k: int| 0 <= k < kept.len() && kept[k] == r;
                    assert(next[k] == r);
                }
                if r == reference {
                    assert(next[n as int] == r);
                }
                if next.contains(r) && r != reference {
                    let k = choose|k: int| 0 <= k < next.len() && next[k] == r;
                    assert(kept[k] == r);
                }
            }
        }
        n += 1;
    }
    assert(named@.take(n as int) =~= named@);
    references
}

/// An attachment as materialization sees it.
#[derive(Clone, Copy, Debug)]
pub struct AttachmentState {
    pub memoryless: bool,
    /// The pass has rendered into it.
    pub initialized: bool,
}

/// Some input's attachment is pass-local.
pub open spec fn touches_memoryless(
    aliases: Seq<Vec<usize>>,
    attachments: Seq<AttachmentState>,
) -> bool {
    exists|i: int, j: int|
        0 <= i < aliases.len() && 0 <= j < aliases[i]@.len() && attachments[(
        #[trigger] aliases[i]@[j]) as int].memoryless
}

/// The attachment holds some input's bytes.
pub open spec fn aliased(aliases: Seq<Vec<usize>>, attachment: int) -> bool {
    exists|i: int, j: int|
        0 <= i < aliases.len() && 0 <= j < aliases[i]@.len() && #[trigger] aliases[i]@[j]
            == attachment
}

/// Which attachments have to be written back before a draw's inputs are read:
/// those that may hold an input's bytes and were rendered into. A pass-local
/// attachment cannot be, so an input that may be one is refused. `aliases` lists,
/// for every input, the attachments that may hold its bytes.
pub fn affected_targets(
    aliases: &Vec<Vec<usize>>,
    attachments: &Vec<AttachmentState>,
) -> (r: Result<Vec<bool>, HazardStatus>)
    requires
        forall|i: int, j: int|
            0 <= i < aliases@.len() && 0 <= j < aliases@[i]@.len() ==> (
            #[trigger] aliases@[i]@[j]) < attachments@.len(),
    ensures
        touches_memoryless(aliases@, attachments@) ==> (r matches Err(e) && e
            == HazardStatus::MemorylessSampleAlias),
        !touches_memoryless(aliases@, attachments@) ==> (r matches Ok(affected) && affected@.len()
            == attachments@.len() && forall|k: int|
            0 <= k < affected@.len() ==> (#[trigger] affected@[k]) == (attachments@[k].initialized
                && aliased(aliases@, k))),
        r matches Ok(affected) ==> forall|i: int, j: int|
            0 <= i < aliases@.len() && 0 <= j < aliases@[i]@.len() ==> !attachments@[(
            #[trigger] aliases@[i]@[j]) as int].memoryless && (
            attachments@[aliases@[i]@[j] as int].initialized ==> affected@[aliases@[i]@[j] as int]),
        r matches Ok(affected) ==> forall|k: int|
            0 <= k < affected@.len() && #[trigger] affected@[k] ==> attachments@[k].initialized,
{
    let mut affected: Vec<bool> = Vec::new();
    let mut k: usize = 0;
    while k < attachments.len()
        invariant
            0 <= k <= attachments@.len(),
            affected@.len() == k,
            forall|m: int| 0 <= m < k ==> !(#[trigger] affected@[m]),
        decreases attachments@.len() - k,
    {
        affected.push(false);
        k += 1;
    }
    let mut i: usize = 0;
    while i < aliases.len()
        invariant
            0 <= i <= aliases@.len(),
            affected@.len() == attachments@.len(),
            forall|a: int, b: int|
                0 <= a < aliases@.len() && 0 <= b < aliases@[a]@.len() ==> (
                #[trigger] aliases@[a]@[b]) < attachments@.len(),
            forall|a: int, b: int|
                0 <= a < i && 0 <= b < aliases@[a]@.len() ==> !attachments@[(
                #[trigger] aliases@[a]@[b]) as int].memoryless,
            forall|m: int|
                0 <= m < affected@.len() ==> (#[trigger] affected@[m]) == (
                attachments@[m].initialized && aliased(aliases@.take(i as int), m)),
        decreases aliases@.len() - i,
    {
        let ghost seen = aliases@.take(i as int);
        let mut j: usize = 0;
        while j < aliases[i].len()
            invariant
                0 <= i < aliases@.len(),
                0 <= j <= aliases@[i as int]@.len(),
                seen == aliases@.take(i as int),
                affected@.len() == attachments@.len(),
                forall|a: int, b: int|
                    0 <= a < aliases@.len() && 0 <= b < aliases@[a]@.len() ==> (
                    #[trigger] aliases@[a]@[b]) < attachments@.len(),
                forall|a: int, b: int|
                    0 <= a < i && 0 <= b < aliases@[a]@.len() ==> !attachments@[(
                    #[trigger] aliases@[a]@[b]) as int].memoryless,
                forall|b: int|
                    0 <= b < j ==> !attachments@[(
                    #[trigger] aliases@[i as int]@[b]) as int].memoryless,
                forall|m: int|
                    0 <= m < affected@.len() ==> (#[trigger] affected@[m]) == (
                    attachments@[m].initialized && (aliased(seen, m) || exists|b: int|
                        0 <= b < j && #[trigger] aliases@[i as int]@[b] == m)),
            decreases aliases@[i as int]@.len() - j,
        {
            let index: usize = aliases[i][j];
            assert(aliases@[i as int]@[j as int] < attachments@.len());
            if attachments[index].memoryless {
                assert(attachments@[aliases@[i as int]@[j as int] as int].memoryless);
                return Err(HazardStatus::MemorylessSampleAlias);
            }
            let ghost before = affected@;
            if attachments[index].initialized {
                affected.set(index, true);
            }
            assert forall|m: int| 0 <= m < affected@.len() implies (#[trigger] affected@[m]) == (
            attachments@[m].initialized && (aliased(seen, m) || exists|b: int|
                0 <= b < j + 1 && #[trigger] aliases@[i as int]@[b] == m)) by {
                assert(before[m] == (attachments@[m].initialized && (aliased(seen, m)
                    || exists|b: int| 0 <= b < j && #[trigger] aliases@[i as int]@[b] == m)));
                if m == index {
                    assert(aliases@[i as int]@[j as int] == m);
                }
            }
            j += 1;
        }
        proof {
            let next = aliases@.take(i + 1);
            assert forall|m: int| 0 <= m < affected@.len() implies (#[trigger] affected@[m]) == (
            attachments@[m].initialized && aliased(next, m)) by {
                if aliased(next, m) {
                    let (a, b) = choose|a: int, b: int|
                        0 <= a < next.len() && 0 <= b < next[a]@.len() && #[trigger] next[a]@[b]
                            == m;
                    if a < i {
                        assert(seen[a]@[b] == m);
                        assert(aliased(seen, m));
                    } else {
                        assert(aliases@[i as int]@[b] == m);
                    }
                }
                if aliased(seen, m) {
                    let (a, b) = choose|a: int, b: int|
                        0 <= a < seen.len() && 0 <= b < seen[a]@.len() && #[trigger] seen[a]@[b]
                            == m;
                    assert(next[a]@[b] == m);
                }
                if exists|b: int|
                    0 <= b < aliases@[i as int]@.len() && #[trigger] aliases@[i as int]@[b] == m {
                    let b = choose|b: int|
                        0 <= b < aliases@[i as int]@.len() && #[trigger] aliases@[i as int]@[b]
                            == m;
                    assert(next[i as int]@[b] == m);
                }
            }
        }
        i += 1;
    }
    assert(aliases@.take(i as int) =~= aliases@);
    Ok(affected)
}

/// The attachments to write back before a draw, and the inputs whose host copies
/// are stale after that.
#[derive(Debug)]
pub struct MaterializePlan {
    pub targets: Vec<usize>,
    pub invalidate: Vec<u32>,
}

/// What a draw's inputs cost before they are read. `aliases` lists, for every
/// input in `references`, the attachments that may hold its bytes. A draw whose
/// inputs no rendered attachment may hold costs nothing.
pub fn materialize_inputs(
    references: Vec<u32>,
    aliases: &Vec<Vec<usize>>,
    attachments: &Vec<AttachmentState>,
) -> (r: Result<Option<MaterializePlan>, HazardStatus>)
    requires
        forall|i: int, j: int|
            0 <= i < aliases@.len() && 0 <= j < aliases@[i]@.len() ==> (
            #[trigger] aliases@[i]@[j]) < attachments@.len(),
    ensures
        touches_memoryless(aliases@, attachments@) ==> (r matches Err(e) && e
            == HazardStatus::MemorylessSampleAlias),
        !touches_memoryless(aliases@, attachments@) ==> r is Ok,
        r matches Ok(None) ==> forall|k: int|
            0 <= k < attachments@.len() ==> !(#[trigger] attachments@[k].initialized && aliased(
                aliases@,
                k,
            )),
        r matches Ok(Some(plan)) ==> {
            &&& plan.invalidate@ == references@
            &&& plan.targets@.len() > 0
            &&& forall|i: int, j: int|
                0 <= i < j < plan.targets@.len() ==> plan.targets@[i] < plan.targets@[j]
            &&& forall|k: usize| #[trigger]
                plan.targets@.contains(k) == (k < attachments@.len()
                    && attachments@[k as int].initialized && aliased(aliases@, k as int))
        },
        r is Ok ==> forall|i: int, j: int|
            0 <= i < aliases@.len() && 0 <= j < aliases@[i]@.len() ==> {
                let k = #[trigger] aliases@[i]@[j];
                &&& !attachments@[k as int].memoryless
                &&& attachments@[k as int].initialized ==> r->Ok_0 is Some && (
                r->Ok_0->0).targets@.contains(k)
            },
{
    let affected: Vec<bool> = match affected_targets(aliases, attachments) {
        Ok(affected) => affected,
        Err(status) => {
            return Err(status);
        },
    };
    let mut targets: Vec<usize> = Vec::new();
    let mut n: usize = 0;
    while n < affected.len()
        invariant
            0 <= n <= affected@.len(),
            forall|i: int| 0 <= i < targets@.len() ==> (#[trigger] targets@[i]) < n,
            forall|i: int, j: int| 0 <= i < j < targets@.len() ==> targets@[i] < targets@[j],
            forall|k: usize| #[trigger]
                targets@.contains(k) == (k < n && affected@[k as int]),
        decreases affected@.len() - n,
    {
        let ghost before = targets@;
        if affected[n] {
            targets.push(n);
        }
        proof {
            assert forall|k: usize| #[trigger]
                targets@.contains(k) == (k < n + 1 && affected@[k as int]) by {
                assert(before.contains(k) == (k < n && affected@[k as int]));
                if before.contains(k) {
                    let i = choose|i: int| 0 <= i < before.len() && before[i] == k;
                    assert(targets@[i] == k);
                }
                if affected@[n as int] && k == n {
                    assert(targets@[before.len() as int] == k);
                }
                if targets@.contains(k) && k != n {
                    let i = choose|i: int| 0 <= i < targets@.len() && targets@[i] == k;
                    assert(before[i] == k);
                }
            }
        }
        n += 1;
    }
    if targets.len() == 0 {
        assert forall|k: int| 0 <= k < attachments@.len() implies !(
        #[trigger] attachments@[k].initialized && aliased(aliases@, k)) by {
            assert(!targets@.contains(k as usize));
            assert(affected@[k] == (attachments@[k].initialized && aliased(aliases@, k)));
        }
        return Ok(None);
    }
    Ok(Some(MaterializePlan { targets, invalidate: references }))
}

/// An attachment as a refused draw leaves it.
#[derive(Clone, Copy, Debug)]
pub struct RefusedAttachment {
    pub guest_backed: bool,
    /// The pass stores the attachment at its end.
    pub stores: bool,
    pub initialized: bool,
}

/// Which attachments are written back before a draw is refused: those backed by
/// the guest, stored by the pass and rendered into.
pub fn landing_targets(attachments: &Vec<RefusedAttachment>) -> (affected: Vec<bool>)
    ensures
        affected@.len() == attachments@.len(),
        forall|k: int|
            0 <= k < affected@.len() ==> (#[trigger] affected@[k]) == (attachments@[k].guest_backed
                && attachments@[k].stores && attachments@[k].initialized),
{
    let mut affected: Vec<bool> = Vec::new();
    let mut n: usize = 0;
    while n < attachments.len()
        invariant
            0 <= n <= attachments@.len(),
            affected@.len() == n,
            forall|k: int|
                0 <= k < n ==> (#[trigger] affected@[k]) == (attachments@[k].guest_backed
                    && attachments@[k].stores && attachments@[k].initialized),
        decreases attachments@.len() - n,
    {
        let a: RefusedAttachment = attachments[n];
        affected.push(a.guest_backed && a.stores && a.initialized);
        n += 1;
    }
    affected
}

/// What materializing one attachment found.
#[derive(Clone, Copy, Debug)]
pub struct MaterializedTarget {
    pub texture_ref: u32,
    /// Zero where the attachment is not a linear allocation.
    pub target_gva: u64,
    /// The attachment is a target of the pass.
    pub known: bool,
    pub width: u32,
    pub height: u32,
    /// Its texels were written to the guest.
    pub wrote: bool,
}

/// The bytes of four-byte texels, where they can be addressed.
pub open spec fn texel_bytes(width: u32, height: u32) -> Option<int> {
    if width * height * 4 <= usize::MAX {
        Some(width * height * 4)
    } else {
        None
    }
}

/// Why materializing one attachment stops.
pub open spec fn target_refusal(target: MaterializedTarget) -> Option<HazardStatus> {
    if !target.known {
        Some(HazardStatus::TargetMissing)
    } else if texel_bytes(target.width, target.height) is None {
        Some(HazardStatus::DependencyGeometry)
    } else if !target.wrote {
        Some(HazardStatus::DependencyWriteback)
    } else {
        None
    }
}

/// How many attachments from `n` on are written back before the first refusal.
pub open spec fn landed(targets: Seq<MaterializedTarget>, n: int) -> int
    decreases targets.len() - n,
{
    if n < 0 || n >= targets.len() || target_refusal(targets[n]) is Some {
        n
    } else {
        landed(targets, n + 1)
    }
}

/// The size of an attachment's texels on the way to the guest.
pub fn dependency_bytes(width: u32, height: u32) -> (bytes: Result<usize, HazardStatus>)
    ensures
        match texel_bytes(width, height) {
            Some(n) => bytes == Ok::<usize, HazardStatus>(n as usize),
            None => bytes == Err::<usize, HazardStatus>(HazardStatus::DependencyGeometry),
        },
{
    assert(width * height <= u64::MAX) by (nonlinear_arith)
        requires
            width <= u32::MAX,
            height <= u32::MAX,
    ;
    let texels: u64 = width as u64 * height as u64;
    match texels.checked_mul(4) {
        None => Err(HazardStatus::DependencyGeometry),
        Some(bytes) => if bytes <= usize::MAX as u64 {
            Ok(bytes as usize)
        } else {
            Err(HazardStatus::DependencyGeometry)
        },
    }
}

/// What is stale once an attachment was written back: the host copies of its
/// texture, and the cached surface at its address.
#[derive(Clone, Copy, Debug, PartialEq, Eq, Structural)]
pub struct Landed {
    pub texture_ref: u32,
    pub evict: Option<u64>,
}

/// What is stale once an attachment was written back.
pub open spec fn stale(target: MaterializedTarget) -> Landed {
    Landed {
        texture_ref: target.texture_ref,
        evict: if target.target_gva != 0 {
            Some(target.target_gva)
        } else {
            None
        },
    }
}

/// How materializing a pass's affected attachments ends: nothing is written
/// before the recorded work is flushed, and the first attachment that cannot be
/// written back ends it.
pub fn materialize_targets(flushed: bool, targets: &Vec<MaterializedTarget>) -> (r: (
    Vec<Landed>,
    Result<(), HazardStatus>,
))
    ensures
        !flushed ==> r.0@.len() == 0 && r.1 == Err::<(), HazardStatus>(HazardStatus::FlushRefused),
        flushed ==> r.0@.len() == landed(targets@, 0),
        forall|k: int| 0 <= k < r.0@.len() ==> (#[trigger] r.0@[k]) == stale(targets@[k]),
        flushed ==> r.1 == if landed(targets@, 0) < targets@.len() {
            Err::<(), HazardStatus>(target_refusal(targets@[landed(targets@, 0)])->0)
        } else {
            Ok::<(), HazardStatus>(())
        },
{
    let mut done: Vec<Landed> = Vec::new();
    if !flushed {
        return (done, Err(HazardStatus::FlushRefused));
    }
    let mut n: usize = 0;
    while n < targets.len()
        invariant
            0 <= n <= targets@.len(),
            flushed,
            done@.len() == n,
            forall|k: int| 0 <= k < n ==> (#[trigger] done@[k]) == stale(targets@[k]),
            landed(targets@, 0) == landed(targets@, n as int),
        decreases targets@.len() - n,
    {
        let target: MaterializedTarget = targets[n];
        if !target.known {
            return (done, Err(HazardStatus::TargetMissing));
        }
        if let Err(status) = dependency_bytes(target.width, target.height) {
            return (done, Err(status));
        }
        if !target.wrote {
            return (done, Err(HazardStatus::DependencyWriteback));
        }
        let evict: Option<u64> = if target.target_gva != 0 {
            Some(target.target_gva)
        } else {
            None
        };
        done.push(Landed { texture_ref: target.texture_ref, evict });
        n += 1;
    }
    (done, Ok(()))
}

/// An unknown footprint is never evidence of disjointness, and sharing a page
/// does not depend on which side is asked.
pub proof fn law_unknown_footprints_may_overlap(left: Option<Set<u64>>, right: Option<Set<u64>>)
    ensures
        left is None || right is None ==> overlapping(left, right),
        overlapping(left, right) == overlapping(right, left),
{
    if left is Some && right is Some {
        let a = left->0;
        let b = right->0;
        if share_page(a, b) {
            let page = choose|page: u64| #[trigger] a.contains(page) && b.contains(page);
            assert(b.contains(page) && a.contains(page));
        }
        if share_page(b, a) {
            let page = choose|page: u64| #[trigger] b.contains(page) && a.contains(page);
            assert(a.contains(page) && b.contains(page));
        }
    }
}

/// An input that names an attachment's own texture aliases it, whatever the pages
/// say, unless the attachment is a guest-backed view. Such a one is known by its
/// own reference and its input by the base, so it aliases itself only where the
/// pages may overlap.
pub proof fn law_an_attachment_aliases_itself(
    objects: Seq<PageObject>,
    target: ColorTarget,
    color: ColorFootprint,
    input: InputFootprint,
)
    requires
        color.root == color_root(objects, target),
        input.root == root_of(objects, target.texture_ref),
    ensures
        target.memoryless || root_of(objects, target.texture_ref) == target.texture_ref
            ==> aliases_color(color, !target.memoryless, input),
        !target.memoryless && root_of(objects, target.texture_ref) != target.texture_ref
            ==> aliases_color(color, !target.memoryless, input) == overlapping(
            pages_of(color.pages),
            pages_of(input.pages),
        ),
{
}

/// An input's aliases are exactly the attachments that may hold its bytes, each
/// once and in order: none is missed and none is added.
pub proof fn law_aliases_are_exact(
    colors: Seq<ColorFootprint>,
    guest_backed: Seq<bool>,
    input: InputFootprint,
    n: int,
)
    requires
        0 <= n <= colors.len() <= usize::MAX,
        guest_backed.len() == colors.len(),
    ensures
        forall|k: int|
            0 <= k < n ==> (#[trigger] aliasing(colors, guest_backed, input, n).contains(k as usize))
                == aliases_color(colors[k], guest_backed[k], input),
        forall|i: int|
            0 <= i < aliasing(colors, guest_backed, input, n).len() ==> (#[trigger] aliasing(
                colors,
                guest_backed,
                input,
                n,
            )[i]) < n,
        forall|i: int, j: int|
            0 <= i < j < aliasing(colors, guest_backed, input, n).len() ==> aliasing(
                colors,
                guest_backed,
                input,
                n,
            )[i] < aliasing(colors, guest_backed, input, n)[j],
    decreases n,
{
    if n > 0 {
        law_aliases_are_exact(colors, guest_backed, input, n - 1);
        let before = aliasing(colors, guest_backed, input, n - 1);
        let after = aliasing(colors, guest_backed, input, n);
        assert forall|k: int| 0 <= k < n implies (#[trigger] after.contains(k as usize))
            == aliases_color(colors[k], guest_backed[k], input) by {
            if k < n - 1 {
                assert(before.contains(k as usize) == aliases_color(
                    colors[k],
                    guest_backed[k],
                    input,
                ));
                if before.contains(k as usize) {
                    let i = choose|i: int| 0 <= i < before.len() && before[i] == k as usize;
                    assert(after[i] == k as usize);
                }
                if after.contains(k as usize) {
                    let i = choose|i: int| 0 <= i < after.len() && after[i] == k as usize;
                    assert(before[i] == k as usize);
                }
            } else if aliases_color(colors[k], guest_backed[k], input) {
                assert(after[before.len() as int] == k as usize);
            } else if after.contains(k as usize) {
                let i = choose|i: int| 0 <= i < after.len() && after[i] == k as usize;
                assert(before[i] < n - 1);
            }
        }
    }
}

/// An object has the first source recorded for exactly its reference, and none
/// without one.
pub proof fn law_the_first_source_is_resolved(objects: Seq<PageObject>, reference: u32, k: int)
    ensures
        0 <= k < objects.len() && objects[k].reference == reference && (forall|j: int|
            0 <= j < k ==> !((#[trigger] objects[j]).reference == reference)) ==> source_of(objects, reference) == Some(objects[k].source),
        (forall|j: int| 0 <= j < objects.len() ==> !((#[trigger] objects[j]).reference == reference)) ==> source_of(
            objects,
            reference,
        ) is None,
    decreases objects.len(),
{
    if objects.len() > 0 {
        let rest = objects.skip(1);
        assert forall|j: int| 0 <= j < rest.len() implies #[trigger] rest[j] == objects[j + 1] by {}
        law_the_first_source_is_resolved(rest, reference, k - 1);
        if 0 < k < objects.len() {
            assert(rest[k - 1] == objects[k]);
        }
    }
}

/// An input is the first one recorded for exactly its reference, and an unrecorded
/// reference is none.
pub proof fn law_the_first_input_is_found(inputs: Seq<InputFootprint>, reference: u32, k: int)
    ensures
        0 <= k < inputs.len() && inputs[k].reference == reference && (forall|j: int|
            0 <= j < k ==> !((#[trigger] inputs[j]).reference == reference)) ==> input_of(inputs, reference) == Some(inputs[k]),
        (forall|j: int| 0 <= j < inputs.len() ==> !((#[trigger] inputs[j]).reference == reference)) ==> input_of(
            inputs,
            reference,
        ) is None,
    decreases inputs.len(),
{
    if inputs.len() > 0 {
        let rest = inputs.skip(1);
        assert forall|j: int| 0 <= j < rest.len() implies #[trigger] rest[j] == inputs[j + 1] by {}
        law_the_first_input_is_found(rest, reference, k - 1);
        if 0 < k < inputs.len() {
            assert(rest[k - 1] == inputs[k]);
        }
    }
}

/// A range touches as many pages as are spanned: every byte of it is in one of
/// them, counted from the page of its first byte, and every one of them has a
/// byte of it.
pub proof fn law_a_range_touches_the_pages_it_spans(
    gva: int,
    span: int,
    page_size: int,
    byte: int,
    page: int,
)
    requires
        gva >= 0,
        span > 0,
        page_size > 0,
    ensures
        gva <= byte < gva + span ==> gva / page_size <= byte / page_size < gva / page_size
            + pages_spanned(gva, span, page_size),
        gva / page_size <= page < gva / page_size + pages_spanned(gva, span, page_size)
            ==> exists|x: int| gva <= x < gva + span && #[trigger] (x / page_size) == page,
{
    let last = gva + span - 1;
    if gva <= byte < gva + span {
        vstd::arithmetic::div_mod::lemma_div_is_ordered(gva, byte, page_size);
        vstd::arithmetic::div_mod::lemma_div_is_ordered(byte, last, page_size);
    }
    if gva / page_size <= page < gva / page_size + pages_spanned(gva, span, page_size) {
        if page == gva / page_size {
            assert(gva / page_size == page);
        } else {
            let x = page * page_size;
            vstd::arithmetic::div_mod::lemma_fundamental_div_mod(gva, page_size);
            vstd::arithmetic::div_mod::lemma_fundamental_div_mod(last, page_size);
            vstd::arithmetic::div_mod::lemma_div_multiples_vanish(page, page_size);
            let first = gva / page_size;
            let end = last / page_size;
            assert(x >= page_size * first + page_size) by (nonlinear_arith)
                requires
                    page >= first + 1,
                    page_size > 0,
                    x == page * page_size,
            ;
            assert(x <= page_size * end) by (nonlinear_arith)
                requires
                    page <= end,
                    page_size > 0,
                    x == page * page_size,
            ;
            assert(x == page_size * page) by (nonlinear_arith)
                requires
                    x == page * page_size,
            ;
            assert(x / page_size == page);
        }
    }
}

/// The walk of a linear attachment is known to be complete, and the pages it found
/// are all in the attachment's footprint.
pub proof fn law_every_walked_page_is_the_attachments(
    target: ColorTarget,
    page_size: u64,
    k: int,
)
    requires
        page_size > 0,
        !target.memoryless,
        target.mapping_id == 0,
        0 <= k < target.walked@.len(),
        target.row_stride * target.height > 0,
        target.gva + target.row_stride * target.height <= u64::MAX,
        target.walked@.len() == (target.gva + target.row_stride * target.height - 1) / (
        page_size as int) - target.gva as int / (page_size as int) + 1,
    ensures
        color_pages(target, page_size) matches Some(pages) && pages.contains(target.walked@[k]),
{
    assert(target.row_stride * target.height == (target.row_stride * target.height) as u64);
}

/// An attachment's footprint holds nothing but what was walked or mapped, and it
/// is known only where the walk is complete or the surface is mapped.
pub proof fn law_an_attachment_has_no_other_pages(target: ColorTarget, page_size: u64, page: u64)
    requires
        page_size > 0,
        color_pages(target, page_size) is Some,
    ensures
        target.memoryless ==> color_pages(target, page_size)->0.len() == 0,
        !target.memoryless && target.mapping_id != 0 ==> target.mapping is Some && (color_pages(
            target,
            page_size,
        )->0.contains(page) <==> target.mapping->0@.contains(page)),
        !target.memoryless && target.mapping_id == 0 ==> {
            let span = target.row_stride * target.height;
            &&& color_pages(target, page_size)->0.contains(page) ==> target.walked@.contains(page)
            &&& span > 0 ==> target.gva + span <= u64::MAX && target.walked@.len() == (target.gva
                + span - 1) / (page_size as int) - target.gva as int / (page_size as int) + 1
        },
{
    let (row_stride, height) = (target.row_stride, target.height);
    assert(0 <= row_stride * height <= u64::MAX) by (nonlinear_arith)
        requires
            0 <= row_stride <= u32::MAX,
            0 <= height <= u32::MAX,
    ;
}

/// An input that holds any page of a guest-backed attachment is among the
/// attachment's aliases, and so is every input where either's pages are unknown.
pub proof fn law_a_shared_page_is_an_alias(
    target: ColorTarget,
    page_size: u64,
    color: ColorFootprint,
    input: InputFootprint,
    page: u64,
)
    requires
        page_size > 0,
        !target.memoryless,
        match color_pages(target, page_size) {
            Some(pages) => color.pages matches Some(p) && p@ == pages,
            None => color.pages is None,
        },
    ensures
        input.pages is None ==> aliases_color(color, true, input),
        target.mapping_id != 0 && target.mapping is None ==> aliases_color(color, true, input),
        target.mapping_id != 0 && target.mapping is Some && input.pages is Some
            && target.mapping->0@.contains(page) && input.pages->0@.contains(page)
            ==> aliases_color(color, true, input),
        target.mapping_id == 0 && target.row_stride * target.height > 0 && input.pages is Some
            && target.walked@.contains(page) && input.pages->0@.contains(page) ==> aliases_color(
            color,
            true,
            input,
        ),
{
    let (row_stride, height) = (target.row_stride, target.height);
    assert(0 <= row_stride * height <= u64::MAX) by (nonlinear_arith)
        requires
            0 <= row_stride <= u32::MAX,
            0 <= height <= u32::MAX,
    ;
    if input.pages is Some && color.pages is Some {
        if color.pages->0@.contains(page) && input.pages->0@.contains(page) {
            lemma_shared_page(color.pages->0@, input.pages->0@, page);
        }
    }
}

/// An input and an attachment with different roots, both of known pages and none
/// in common, do not alias; nor does an attachment without guest pages.
pub proof fn law_separate_pages_do_not_alias(
    color: ColorFootprint,
    guest_backed: bool,
    input: InputFootprint,
)
    requires
        color.root != input.root,
        guest_backed ==> color.pages is Some && input.pages is Some && forall|i: int, j: int|
            0 <= i < color.pages->0@.len() && 0 <= j < input.pages->0@.len()
                ==> #[trigger] color.pages->0@[i] != #[trigger] input.pages->0@[j],
    ensures
        !aliases_color(color, guest_backed, input),
{
    if guest_backed && aliases_color(color, guest_backed, input) {
        let a = color.pages->0@.to_set();
        let b = input.pages->0@.to_set();
        let page = choose|page: u64| #[trigger] a.contains(page) && b.contains(page);
        assert(color.pages->0@.contains(page) && input.pages->0@.contains(page));
        let i = choose|i: int| 0 <= i < color.pages->0@.len() && color.pages->0@[i] == page;
        let j = choose|j: int| 0 <= j < input.pages->0@.len() && input.pages->0@[j] == page;
        assert(color.pages->0@[i] != input.pages->0@[j]);
    }
}

/// The pages of an object are those the walk of all its bytes found: of its range,
/// or of what is left of its buffer behind the offset at which it begins.
pub proof fn law_an_object_has_the_pages_of_its_bytes(
    objects: Seq<PageObject>,
    reference: u32,
    page_size: u64,
    at: int,
)
    requires
        page_size > 0,
        0 <= at < objects.len(),
        objects[at].reference == reference,
        forall|j: int| 0 <= j < at ==> (#[trigger] objects[j]).reference != reference,
    ensures
        match objects[at].source {
            PageSource::Linear { gva, span, walked } => span > 0 ==> {
                let complete = gva + span <= u64::MAX && walked@.len() == (gva + span - 1) / (
                page_size as int) - gva as int / (page_size as int) + 1;
                &&& complete <==> footprint_of(objects, reference, page_size) is Some
                &&& complete ==> footprint_of(objects, reference, page_size) == Some(walked@)
            },
            PageSource::BufferTexture { gva, span, offset, walked } => {
                &&& offset > span || gva + offset > u64::MAX ==> footprint_of(
                    objects,
                    reference,
                    page_size,
                ) is None
                &&& offset < span && gva + span <= u64::MAX ==> {
                    let complete = walked@.len() == (gva + span - 1) / (page_size as int) - (gva
                        + offset) / (page_size as int) + 1;
                    &&& complete <==> footprint_of(objects, reference, page_size) is Some
                    &&& complete ==> footprint_of(objects, reference, page_size) == Some(walked@)
                }
            },
            PageSource::Mapping { pages } => {
                &&& footprint_of(objects, reference, page_size) is Some <==> pages is Some
                &&& pages matches Some(p) ==> footprint_of(objects, reference, page_size) == Some(
                    p@,
                )
            },
            PageSource::View { base } => root_of(objects, reference) == base,
        },
        !(objects[at].source is View) ==> root_of(objects, reference) == reference,
{
    law_the_first_source_is_resolved(objects, reference, at);
}

/// A view has the pages of its base, and the two have one root.
pub proof fn law_a_view_has_the_pages_of_its_base(
    objects: Seq<PageObject>,
    view: u32,
    base: u32,
    page_size: u64,
)
    requires
        source_of(objects, view) == Some(PageSource::View { base }),
        !(source_of(objects, base) matches Some(PageSource::View { .. })),
    ensures
        footprint_of(objects, view, page_size) == footprint_of(objects, base, page_size),
        root_of(objects, view) == root_of(objects, base),
{
}

/// Everything before the attachment that ended it was written back: known, of a
/// size that can be addressed, and written. That attachment lacks one of these,
/// and the first that it lacks is what is reported.
pub proof fn law_materializing_ends_at_the_first_refusal(
    targets: Seq<MaterializedTarget>,
    n: int,
    k: int,
)
    requires
        0 <= n <= targets.len(),
    ensures
        n <= landed(targets, n) <= targets.len(),
        n <= k < landed(targets, n) ==> targets[k].known && targets[k].wrote && targets[k].width
            * targets[k].height * 4 <= usize::MAX,
        landed(targets, n) < targets.len() ==> {
            let ended = targets[landed(targets, n)];
            let status = target_refusal(ended);
            let addressed = ended.width * ended.height * 4 <= usize::MAX;
            &&& !(ended.known && ended.wrote && addressed)
            &&& status == Some(HazardStatus::TargetMissing) <==> !ended.known
            &&& status == Some(HazardStatus::DependencyGeometry) <==> ended.known && !addressed
            &&& status == Some(HazardStatus::DependencyWriteback) <==> ended.known && addressed
                && !ended.wrote
        },
    decreases targets.len() - n,
{
    if n < targets.len() && target_refusal(targets[n]) is None {
        law_materializing_ends_at_the_first_refusal(targets, n + 1, k);
    }
}

/// What is stale behind a write-back are the host copies of that very texture, and
/// the cached surface at its address where it has one.
pub proof fn law_a_written_attachment_is_stale_by_its_own_name(
    target: MaterializedTarget,
    other: MaterializedTarget,
)
    ensures
        stale(target).texture_ref == target.texture_ref,
        stale(target).evict is Some <==> target.target_gva > 0,
        stale(target).evict matches Some(gva) ==> gva == target.target_gva,
        stale(target) == stale(other) <==> target.texture_ref == other.texture_ref
            && target.target_gva == other.target_gva,
{
}

} // verus!
