//! Bounded observations of how a draw's storage textures lie beside its colour
//! attachments. An observation grants nothing: it neither leases an owner nor
//! admits a draw.
use crate::coverage::{
    admissible, byte_spans, canonical, common, covered, forward, law_canonical_spans_add_up,
    law_canonical_spans_are_unique, overlap_bytes, page_set, total, total_bytes,
};
use crate::text::{
    decimal, hex, optional, push_decimal, push_hex, push_line, push_optional, push_truth, texts,
    truth,
};
use crate::input_snapshot::cache::Switch;
use std::collections::hash_map::DefaultHasher;
use std::hash::Hasher;
use vstd::bytes::{
    spec_u32_to_le_bytes, spec_u64_to_le_bytes, u32_to_le_bytes, u64_to_le_bytes,
};
use vstd::prelude::*;
use vstd::std_specs::hash::DefaultHasherAdditionalSpecFns;
use vstd::string::*;

verus! {

/// How many pipelines are observed.
pub const PIPELINE_LIMIT: usize = 16;

/// How many observations one pipeline gets.
pub const OBSERVATION_LIMIT: usize = 16;

/// Whether the operator asked for observations, and whether an unrecognized
/// setting has to be reported. Nothing but an explicit request asks for them.
pub fn requested(setting: Switch) -> (r: (bool, bool))
    ensures
        r.0 == (setting == Switch::On),
        r.1 == (setting == Switch::Unrecognized),
{
    match setting {
        Switch::On => (true, false),
        Switch::Off | Switch::Unset => (false, false),
        Switch::Unrecognized => (false, true),
    }
}

/// The coverage of one side as text.
pub open spec fn coverage_text(spans: Option<Seq<(u64, u64)>>) -> Seq<char> {
    match spans {
        Some(s) => "complete_recorded_page_union:ranges"@ + decimal(s.len() as int) + ":bytes"@
            + decimal(total(s)) + ":first0x"@ + hex(s[0].0 as int) + ":last_end0x"@ + hex(
            s.last().1 as int,
        ),
        None => "unknown:incomplete_or_invalid_page_coverage"@,
    }
}

/// The coverage of one side as text.
pub fn describe(spans: &Option<Vec<(u64, u64)>>) -> (text: String)
    requires
        spans matches Some(s) ==> s@.len() > 0 && forward(s@) && total(s@) <= u64::MAX,
    ensures
        text@ == coverage_text(
            match *spans {
                Some(s) => Some(s@),
                None => None,
            },
        ),
{
    match spans {
        Some(s) => {
            let bytes: u64 = total_bytes(s.as_slice());
            let mut out: String = String::from_str("complete_recorded_page_union:ranges");
            push_decimal(&mut out, s.len() as u64);
            out.append(":bytes");
            push_decimal(&mut out, bytes);
            out.append(":first0x");
            push_hex(&mut out, s[0].0);
            out.append(":last_end0x");
            push_hex(&mut out, s[s.len() - 1].1);
            out
        },
        None => String::from_str("unknown:incomplete_or_invalid_page_coverage"),
    }
}

/// One observed pipeline.
#[derive(Clone, Copy, Debug, PartialEq, Eq, Structural)]
pub struct PipelineCount {
    pub task: u32,
    pub pipeline: u32,
    pub count: usize,
}

/// The resident image a texture's texels come from, and the generation it was
/// seeded at.
#[derive(Clone, Copy, Debug, PartialEq, Eq, Structural)]
pub struct Residency {
    pub key: u64,
    pub seed_generation: u64,
}

/// What makes an observation a new one.
#[derive(Clone, Copy, Debug, PartialEq, Eq, Structural)]
pub struct ObservationKey {
    pub task: u32,
    pub pipeline: u32,
    pub destination_ref: u32,
    pub source_slot: u32,
    pub source_ref: u32,
    pub source_mapping: u32,
    pub source_gva: u64,
    pub source_map_generation: Option<u32>,
    pub gva_generation: u64,
    pub destination_residency: Option<Residency>,
    pub destination_owner_generation: Option<u64>,
    pub scope: Option<u64>,
}

/// What an optional number is hashed as: whether it is there, then itself.
pub open spec fn hashed_optional(number: Option<u64>) -> Seq<Seq<u8>> {
    match number {
        None => seq![spec_u64_to_le_bytes(0)],
        Some(n) => seq![spec_u64_to_le_bytes(1), spec_u64_to_le_bytes(n)],
    }
}

/// What an optional generation is hashed as.
pub open spec fn hashed_generation(generation: Option<u32>) -> Seq<Seq<u8>> {
    match generation {
        None => seq![spec_u64_to_le_bytes(0)],
        Some(g) => seq![spec_u64_to_le_bytes(1), spec_u32_to_le_bytes(g)],
    }
}

/// What an optional residency is hashed as.
pub open spec fn hashed_residency(residency: Option<Residency>) -> Seq<Seq<u8>> {
    match residency {
        None => seq![spec_u64_to_le_bytes(0)],
        Some(r) => seq![
            spec_u64_to_le_bytes(1),
            spec_u64_to_le_bytes(r.key),
            spec_u64_to_le_bytes(r.seed_generation),
        ],
    }
}

impl ObservationKey {
    /// What is hashed, in order.
    pub open spec fn hashed(self) -> Seq<Seq<u8>> {
        seq![
            spec_u32_to_le_bytes(self.task),
            spec_u32_to_le_bytes(self.pipeline),
            spec_u32_to_le_bytes(self.destination_ref),
            spec_u32_to_le_bytes(self.source_slot),
            spec_u32_to_le_bytes(self.source_ref),
            spec_u32_to_le_bytes(self.source_mapping),
            spec_u64_to_le_bytes(self.source_gva),
        ] + hashed_generation(self.source_map_generation) + seq![
            spec_u64_to_le_bytes(self.gva_generation),
        ] + hashed_residency(self.destination_residency) + hashed_optional(
            self.destination_owner_generation,
        ) + hashed_optional(self.scope)
    }

    /// The 64-bit hash an observation is known by. Two keys with one hash are one
    /// observation.
    pub open spec fn hash(self) -> u64 {
        DefaultHasher::spec_finish(self.hashed())
    }

    /// The 64-bit hash an observation is known by.
    pub fn fingerprint(&self) -> (fingerprint: u64)
        ensures
            fingerprint == self.hash(),
    {
        let mut hasher: DefaultHasher = DefaultHasher::new();
        hash_word(&mut hasher, self.task);
        hash_word(&mut hasher, self.pipeline);
        hash_word(&mut hasher, self.destination_ref);
        hash_word(&mut hasher, self.source_slot);
        hash_word(&mut hasher, self.source_ref);
        hash_word(&mut hasher, self.source_mapping);
        hash_number(&mut hasher, self.source_gva);
        match self.source_map_generation {
            None => {
                hash_number(&mut hasher, 0);
            },
            Some(generation) => {
                hash_number(&mut hasher, 1);
                hash_word(&mut hasher, generation);
            },
        }
        hash_number(&mut hasher, self.gva_generation);
        match self.destination_residency {
            None => {
                hash_number(&mut hasher, 0);
            },
            Some(residency) => {
                hash_number(&mut hasher, 1);
                hash_number(&mut hasher, residency.key);
                hash_number(&mut hasher, residency.seed_generation);
            },
        }
        hash_optional(&mut hasher, self.destination_owner_generation);
        hash_optional(&mut hasher, self.scope);
        assert(hasher@ =~= self.hashed());
        hasher.finish()
    }
}

fn hash_word(hasher: &mut DefaultHasher, word: u32)
    ensures
        final(hasher)@ == old(hasher)@.push(spec_u32_to_le_bytes(word)),
{
    let bytes: Vec<u8> = u32_to_le_bytes(word);
    hasher.write(bytes.as_slice());
}

fn hash_number(hasher: &mut DefaultHasher, number: u64)
    ensures
        final(hasher)@ == old(hasher)@.push(spec_u64_to_le_bytes(number)),
{
    let bytes: Vec<u8> = u64_to_le_bytes(number);
    hasher.write(bytes.as_slice());
}

fn hash_optional(hasher: &mut DefaultHasher, number: Option<u64>)
    ensures
        final(hasher)@ == old(hasher)@ + hashed_optional(number),
{
    match number {
        None => {
            hash_number(hasher, 0);
        },
        Some(n) => {
            hash_number(hasher, 1);
            hash_number(hasher, n);
        },
    }
    assert(hasher@ =~= old(hasher)@ + hashed_optional(number));
}

/// The pipelines observed so far, how often, and the fingerprints of what was
/// observed.
pub struct ObservationCounts {
    counts: Vec<PipelineCount>,
    seen: Vec<u64>,
}

/// The observations so far, as a value.
pub ghost struct ObservationModel {
    pub counts: Seq<PipelineCount>,
    pub seen: Seq<u64>,
}

impl View for ObservationCounts {
    type V = ObservationModel;

    closed spec fn view(&self) -> ObservationModel {
        ObservationModel { counts: self.counts@, seen: self.seen@ }
    }
}

/// The sum of all counts.
pub open spec fn observed(counts: Seq<PipelineCount>) -> int
    decreases counts.len(),
{
    if counts.len() == 0 {
        0
    } else {
        observed(counts.drop_last()) + counts.last().count
    }
}

/// The position of a pipeline from `n` on, or the length where it is not listed.
pub open spec fn place_of(counts: Seq<PipelineCount>, task: u32, pipeline: u32, n: int) -> int
    decreases counts.len() - n,
{
    if n < 0 || n >= counts.len() {
        counts.len() as int
    } else if counts[n].task == task && counts[n].pipeline == pipeline {
        n
    } else {
        place_of(counts, task, pipeline, n + 1)
    }
}

/// The pipelines once one more is listed, where it is not listed yet and there is
/// room for it.
pub open spec fn listed(counts: Seq<PipelineCount>, task: u32, pipeline: u32) -> Seq<PipelineCount> {
    if place_of(counts, task, pipeline, 0) == counts.len() && counts.len() < PIPELINE_LIMIT {
        counts.push(PipelineCount { task, pipeline, count: 0 })
    } else {
        counts
    }
}

/// What asking for one observation leads to: the observations after it, and its
/// number if it is made. It is made the first time its fingerprint is seen, while
/// its pipeline is or can be listed and has observations left.
pub open spec fn admitted(
    before: ObservationModel,
    task: u32,
    pipeline: u32,
    fingerprint: u64,
) -> (ObservationModel, Option<int>) {
    let counts = listed(before.counts, task, pipeline);
    let at = place_of(counts, task, pipeline, 0);
    if at >= counts.len() || counts[at].count >= OBSERVATION_LIMIT || before.seen.contains(
        fingerprint,
    ) {
        (ObservationModel { counts, seen: before.seen }, None)
    } else {
        let raised = counts.update(
            at,
            PipelineCount { count: (counts[at].count + 1) as usize, ..counts[at] },
        );
        (
            ObservationModel { counts: raised, seen: before.seen.push(fingerprint) },
            Some(observed(raised)),
        )
    }
}

impl ObservationModel {
    /// The limits are kept, every pipeline is listed once, and what was observed
    /// was counted, each once.
    pub open spec fn bounded(self) -> bool {
        &&& self.counts.len() <= PIPELINE_LIMIT
        &&& forall|k: int|
            0 <= k < self.counts.len() ==> (#[trigger] self.counts[k]).count <= OBSERVATION_LIMIT
        &&& forall|i: int, j: int|
            0 <= i < j < self.counts.len() ==> (#[trigger] self.counts[i]).task != (
            #[trigger] self.counts[j]).task || self.counts[i].pipeline != self.counts[j].pipeline
        &&& self.seen.no_duplicates()
        &&& self.seen.len() == observed(self.counts)
    }
}

proof fn lemma_observed_bound(counts: Seq<PipelineCount>)
    requires
        forall|k: int|
            0 <= k < counts.len() ==> (#[trigger] counts[k]).count <= OBSERVATION_LIMIT,
    ensures
        0 <= observed(counts) <= counts.len() * OBSERVATION_LIMIT,
    decreases counts.len(),
{
    if counts.len() > 0 {
        let kept = counts.drop_last();
        assert forall|k: int| 0 <= k < kept.len() implies (#[trigger] kept[k]).count
            <= OBSERVATION_LIMIT by {
            assert(kept[k] == counts[k]);
        }
        lemma_observed_bound(kept);
        assert(counts.last().count <= OBSERVATION_LIMIT) by {
            assert(counts.last() == counts[counts.len() - 1]);
        }
    }
}

proof fn lemma_observed_raise(counts: Seq<PipelineCount>, at: int, raised: PipelineCount)
    requires
        0 <= at < counts.len(),
        raised.count == counts[at].count + 1,
    ensures
        observed(counts.update(at, raised)) == observed(counts) + 1,
    decreases counts.len(),
{
    let after = counts.update(at, raised);
    if at == counts.len() - 1 {
        assert(after.drop_last() =~= counts.drop_last());
    } else {
        assert(after.drop_last() =~= counts.drop_last().update(at, raised));
        assert(after.last() == counts.last());
        lemma_observed_raise(counts.drop_last(), at, raised);
    }
}

proof fn lemma_place(counts: Seq<PipelineCount>, task: u32, pipeline: u32, n: int)
    requires
        0 <= n <= counts.len(),
    ensures
        n <= place_of(counts, task, pipeline, n) <= counts.len(),
        place_of(counts, task, pipeline, n) < counts.len() ==> counts[place_of(
            counts,
            task,
            pipeline,
            n,
        )].task == task && counts[place_of(counts, task, pipeline, n)].pipeline == pipeline,
        forall|k: int|
            n <= k < place_of(counts, task, pipeline, n) ==> (#[trigger] counts[k]).task != task
                || counts[k].pipeline != pipeline,
    decreases counts.len() - n,
{
    if n < counts.len() && !(counts[n].task == task && counts[n].pipeline == pipeline) {
        lemma_place(counts, task, pipeline, n + 1);
    }
}

proof fn lemma_place_pushed(counts: Seq<PipelineCount>, entry: PipelineCount, n: int)
    requires
        0 <= n <= counts.len(),
        place_of(counts, entry.task, entry.pipeline, n) == counts.len(),
    ensures
        place_of(counts.push(entry), entry.task, entry.pipeline, n) == counts.len(),
    decreases counts.len() - n,
{
    if n < counts.len() {
        assert(counts.push(entry)[n] == counts[n]);
        lemma_place(counts, entry.task, entry.pipeline, n);
        lemma_place_pushed(counts, entry, n + 1);
    }
}

/// Asking for an observation keeps the limits: at most 256 are ever made, none
/// with a fingerprint that was seen before, and their numbers count up by one.
pub proof fn law_observations_are_bounded(
    before: ObservationModel,
    task: u32,
    pipeline: u32,
    fingerprint: u64,
)
    requires
        before.bounded(),
    ensures
        admitted(before, task, pipeline, fingerprint).0.bounded(),
        before.seen.contains(fingerprint) ==> admitted(before, task, pipeline, fingerprint).1 is None,
        admitted(before, task, pipeline, fingerprint).1 matches Some(number) ==> number == before.seen.len() + 1 && number
            <= PIPELINE_LIMIT * OBSERVATION_LIMIT,
{
    let counts = listed(before.counts, task, pipeline);
    lemma_place(before.counts, task, pipeline, 0);
    assert(observed(counts) == observed(before.counts)) by {
        if counts.len() > before.counts.len() {
            assert(counts.drop_last() =~= before.counts);
        }
    }
    assert forall|i: int, j: int| 0 <= i < j < counts.len() implies (#[trigger] counts[i]).task != (
    #[trigger] counts[j]).task || counts[i].pipeline != counts[j].pipeline by {
        if j < before.counts.len() {
            assert(before.counts[i].task != before.counts[j].task || before.counts[i].pipeline
                != before.counts[j].pipeline);
        } else {
            assert(counts[i] == before.counts[i]);
        }
    }
    assert forall|k: int| 0 <= k < counts.len() implies (#[trigger] counts[k]).count
        <= OBSERVATION_LIMIT by {
        if k < before.counts.len() {
            assert(counts[k] == before.counts[k]);
        }
    }
    lemma_place(counts, task, pipeline, 0);
    let after = admitted(before, task, pipeline, fingerprint).0;
    if admitted(before, task, pipeline, fingerprint).1 is Some {
        let at = place_of(counts, task, pipeline, 0);
        let raised = PipelineCount { count: (counts[at].count + 1) as usize, ..counts[at] };
        lemma_observed_raise(counts, at, raised);
        assert forall|i: int, j: int| 0 <= i < j < after.counts.len() implies (
        #[trigger] after.counts[i]).task != (#[trigger] after.counts[j]).task
            || after.counts[i].pipeline != after.counts[j].pipeline by {
            assert(counts[i].task != counts[j].task || counts[i].pipeline != counts[j].pipeline);
        }
        assert forall|k: int| 0 <= k < after.counts.len() implies (
        #[trigger] after.counts[k]).count <= OBSERVATION_LIMIT by {
            if k != at {
                assert(after.counts[k] == counts[k]);
            }
        }
        lemma_observed_bound(after.counts);
        assert(after.counts.len() * OBSERVATION_LIMIT <= PIPELINE_LIMIT * OBSERVATION_LIMIT);
        assert(after.seen.no_duplicates());
    }
}

impl ObservationCounts {
    /// Nothing observed yet.
    pub fn new() -> (counts: ObservationCounts)
        ensures
            counts@ == (ObservationModel { counts: Seq::empty(), seen: Seq::empty() }),
            counts@.bounded(),
    {
        let counts = ObservationCounts { counts: Vec::new(), seen: Vec::new() };
        assert(counts@.counts =~= Seq::<PipelineCount>::empty());
        assert(counts@.seen =~= Seq::<u64>::empty());
        counts
    }

    fn place(&self, task: u32, pipeline: u32) -> (at: usize)
        ensures
            at == place_of(self@.counts, task, pipeline, 0),
            at <= self@.counts.len(),
    {
        let mut n: usize = 0;
        while n < self.counts.len()
            invariant
                0 <= n <= self.counts@.len(),
                self@.counts == self.counts@,
                place_of(self@.counts, task, pipeline, 0) == place_of(
                    self@.counts,
                    task,
                    pipeline,
                    n as int,
                ),
            decreases self.counts@.len() - n,
        {
            if self.counts[n].task == task && self.counts[n].pipeline == pipeline {
                return n;
            }
            n += 1;
        }
        n
    }

    fn is_seen(&self, fingerprint: u64) -> (r: bool)
        ensures
            r == self@.seen.contains(fingerprint),
    {
        let mut n: usize = 0;
        while n < self.seen.len()
            invariant
                0 <= n <= self.seen@.len(),
                self@.seen == self.seen@,
                forall|k: int| 0 <= k < n ==> self.seen@[k] != fingerprint,
            decreases self.seen@.len() - n,
        {
            if self.seen[n] == fingerprint {
                assert(self.seen@[n as int] == fingerprint);
                return true;
            }
            n += 1;
        }
        false
    }

    /// Asks for an observation, and says which one it is if it is made.
    pub fn admit_observation(&mut self, task: u32, pipeline: u32, fingerprint: u64) -> (number:
        Option<u64>)
        requires
            old(self)@.bounded(),
        ensures
            final(self)@ == admitted(old(self)@, task, pipeline, fingerprint).0,
            number == match admitted(old(self)@, task, pipeline, fingerprint).1 {
                Some(n) => Some(n as u64),
                None => None,
            },
            final(self)@.bounded(),
    {
        let ghost before = self@;
        proof {
            law_observations_are_bounded(before, task, pipeline, fingerprint);
            lemma_place(before.counts, task, pipeline, 0);
            let entry = PipelineCount { task, pipeline, count: 0 };
            if place_of(before.counts, task, pipeline, 0) == before.counts.len() {
                lemma_place_pushed(before.counts, entry, 0);
            }
        }
        let at: usize = self.place(task, pipeline);
        if at == self.counts.len() {
            if self.counts.len() >= PIPELINE_LIMIT {
                return None;
            }
            self.counts.push(PipelineCount { task, pipeline, count: 0 });
        }
        assert(self@.counts =~= listed(before.counts, task, pipeline));
        let entry: PipelineCount = self.counts[at];
        if entry.count >= OBSERVATION_LIMIT || self.is_seen(fingerprint) {
            return None;
        }
        self.counts.set(at, PipelineCount { count: entry.count + 1, ..entry });
        self.seen.push(fingerprint);
        Some(self.seen.len() as u64)
    }
}

/// A surface mapping, as an observation reads it.
pub struct ObservedMapping {
    pub mapped: bool,
    pub map_generation: u32,
    /// The pages it reaches.
    pub pages: Option<Vec<u64>>,
}

/// A colour attachment, as an observation reads it.
pub struct ObservedColor {
    pub slot: u32,
    pub texture_ref: u32,
    /// Zero where the attachment is not a surface.
    pub mapping_id: u32,
    /// Zero where the attachment is not a linear allocation.
    pub target_gva: u64,
    pub mapping: Option<ObservedMapping>,
    /// The pages of the linear target, where every one is known in order.
    pub linear_pages: Option<Vec<u64>>,
    pub memoryless: bool,
    pub width: u32,
    pub height: u32,
    pub format: u16,
    pub row_stride: u32,
    pub guest_mip_level: u32,
    pub sample_count: u32,
}

/// A storage texture, as an observation reads it. What only its owner can print is
/// handed over as text.
pub struct ObservedTexture {
    pub reference: u32,
    pub width: u32,
    pub height: u32,
    pub format: u16,
    pub mips: u32,
    /// How its texels are written back.
    pub destination: String,
    /// The pages they are written back to.
    pub pages: Option<Vec<u64>>,
    pub owner_generation: Option<u64>,
    pub residency: Option<Residency>,
    pub residency_text: String,
}

/// The draw an observation is made for.
pub struct ObservedDraw {
    pub scope: Option<u64>,
    pub task: u32,
    pub pipeline: u32,
    pub gva_generation: u64,
    pub page_bytes: u64,
    pub raster_samples: u32,
    pub first_vertex: u32,
    pub vertices: u32,
    pub instances: u32,
    pub first_instance: u32,
    pub indexed: String,
    pub continues: bool,
    pub more: bool,
    pub viewports: String,
    pub scissors: String,
}

/// The generation of an attachment's mapping.
pub open spec fn map_generation_of(color: ObservedColor) -> Option<u32> {
    match color.mapping {
        Some(mapping) => Some(mapping.map_generation),
        None => None,
    }
}

/// A generation as a line prints it.
pub open spec fn widened(generation: Option<u32>) -> Option<u64> {
    match generation {
        Some(g) => Some(g as u64),
        None => None,
    }
}

/// What makes the observation of a texture beside an attachment a new one.
pub open spec fn key_of(
    texture: ObservedTexture,
    color: ObservedColor,
    draw: ObservedDraw,
) -> ObservationKey {
    ObservationKey {
        task: draw.task,
        pipeline: draw.pipeline,
        destination_ref: texture.reference,
        source_slot: color.slot,
        source_ref: color.texture_ref,
        source_mapping: color.mapping_id,
        source_gva: color.target_gva,
        source_map_generation: map_generation_of(color),
        gva_generation: draw.gva_generation,
        destination_residency: texture.residency,
        destination_owner_generation: texture.owner_generation,
        scope: draw.scope,
    }
}

/// A page list as a value.
pub open spec fn list_of(pages: Option<Vec<u64>>) -> Option<Seq<u64>> {
    match pages {
        Some(p) => Some(p@),
        None => None,
    }
}

/// The recorded pages of a colour attachment: those of its live mapping if it is a
/// surface, those of its linear target if it has an address, else none.
pub open spec fn recorded_pages(color: ObservedColor) -> Option<Seq<u64>> {
    if color.mapping_id != 0 {
        match color.mapping {
            Some(mapping) => if mapping.mapped {
                list_of(mapping.pages)
            } else {
                None
            },
            None => None,
        }
    } else if color.target_gva != 0 && (color.linear_pages matches Some(p) && p@.len() > 0) {
        list_of(color.linear_pages)
    } else {
        None
    }
}

/// The canonical spans of a page list, where it says what it holds.
pub open spec fn canonical_spans(pages: Option<Seq<u64>>, page_bytes: u64) -> Option<
    Seq<(u64, u64)>,
> {
    match pages {
        Some(p) => if admissible(p, page_bytes) {
            Some(
                choose|s: Seq<(u64, u64)>|
                    #![trigger canonical(s)]
                    canonical(s) && covered(s) == page_set(p, page_bytes),
            )
        } else {
            None
        },
        None => None,
    }
}

proof fn lemma_canonical_spans(pages: Seq<u64>, page_bytes: u64, spans: Seq<(u64, u64)>)
    requires
        admissible(pages, page_bytes),
        canonical(spans),
        covered(spans) == page_set(pages, page_bytes),
    ensures
        canonical_spans(Some(pages), page_bytes) == Some(spans),
{
    let chosen = choose|s: Seq<(u64, u64)>|
        #![trigger canonical(s)]
        canonical(s) && covered(s) == page_set(pages, page_bytes);
    law_canonical_spans_are_unique(chosen, spans);
}

/// How two recorded page lists relate.
pub struct BackingRelation {
    pub source: Option<Vec<(u64, u64)>>,
    pub destination: Option<Vec<(u64, u64)>>,
    pub source_entries: Option<u64>,
    pub destination_entries: Option<u64>,
    pub overlap: Option<u64>,
    pub relation: &'static str,
}

/// How two recorded page lists relate, as a value.
pub ghost struct RelationModel {
    pub source: Option<Seq<(u64, u64)>>,
    pub destination: Option<Seq<(u64, u64)>>,
    pub source_entries: Option<u64>,
    pub destination_entries: Option<u64>,
    pub overlap: Option<u64>,
    pub relation: Seq<char>,
}

/// A span list as a value.
pub open spec fn spans_of(spans: Option<Vec<(u64, u64)>>) -> Option<Seq<(u64, u64)>> {
    match spans {
        Some(s) => Some(s@),
        None => None,
    }
}

impl View for BackingRelation {
    type V = RelationModel;

    open spec fn view(&self) -> RelationModel {
        RelationModel {
            source: spans_of(self.source),
            destination: spans_of(self.destination),
            source_entries: self.source_entries,
            destination_entries: self.destination_entries,
            overlap: self.overlap,
            relation: self.relation@,
        }
    }
}

/// How many pages a list names.
pub open spec fn entries(pages: Option<Seq<u64>>) -> Option<u64> {
    match pages {
        Some(p) => Some(p.len() as u64),
        None => None,
    }
}

/// The name of a relation.
pub open spec fn relation_text(pass_local: bool, overlap: Option<u64>) -> Seq<char> {
    if pass_local {
        "source_pass_local_no_guest_backing"@
    } else {
        match overlap {
            Some(bytes) => if bytes == 0 {
                "recorded_guest_byte_spans_disjoint"@
            } else {
                "recorded_guest_byte_spans_overlap"@
            },
            None => "unknown_coverage"@,
        }
    }
}

/// How an attachment's recorded bytes relate to a texture's. Only two complete
/// page lists are ever compared.
pub open spec fn relation_of(
    color: ObservedColor,
    texture: ObservedTexture,
    page_bytes: u64,
) -> RelationModel {
    let source = canonical_spans(recorded_pages(color), page_bytes);
    let destination = canonical_spans(list_of(texture.pages), page_bytes);
    let overlap = if source is Some && destination is Some {
        Some(common(source->0, destination->0).len() as u64)
    } else {
        None
    };
    RelationModel {
        source,
        destination,
        source_entries: entries(recorded_pages(color)),
        destination_entries: entries(list_of(texture.pages)),
        overlap,
        relation: relation_text(color.memoryless, overlap),
    }
}

fn spans_in(pages: &Option<Vec<u64>>, page_bytes: u64) -> (spans: Option<Vec<(u64, u64)>>)
    ensures
        spans_of(spans) == canonical_spans(list_of(*pages), page_bytes),
        spans matches Some(s) ==> s@.len() > 0 && canonical(s@),
{
    match pages {
        None => None,
        Some(p) => {
            let spans: Option<Vec<(u64, u64)>> = byte_spans(p.as_slice(), page_bytes);
            proof {
                if let Some(ref s) = spans {
                    lemma_canonical_spans(p@, page_bytes, s@);
                }
            }
            spans
        },
    }
}

/// How an attachment's recorded bytes relate to a texture's.
pub fn relate(color: &ObservedColor, texture: &ObservedTexture, page_bytes: u64) -> (r:
    BackingRelation)
    ensures
        r@ == relation_of(*color, *texture, page_bytes),
        r.source matches Some(s) ==> s@.len() > 0 && canonical(s@),
        r.destination matches Some(s) ==> s@.len() > 0 && canonical(s@),
{
    let pages: &Option<Vec<u64>> = if color.mapping_id != 0 {
        match &color.mapping {
            Some(mapping) => if mapping.mapped {
                &mapping.pages
            } else {
                &None
            },
            None => &None,
        }
    } else if color.target_gva != 0 {
        match &color.linear_pages {
            Some(p) => if p.len() > 0 {
                &color.linear_pages
            } else {
                &None
            },
            None => &None,
        }
    } else {
        &None
    };
    assert(list_of(*pages) == recorded_pages(*color));
    let from: Option<Vec<(u64, u64)>> = spans_in(pages, page_bytes);
    let to: Option<Vec<(u64, u64)>> = spans_in(&texture.pages, page_bytes);
    let overlap: Option<u64> = match (&from, &to) {
        (Some(a), Some(b)) => overlap_bytes(a.as_slice(), b.as_slice()),
        _ => None,
    };
    let relation: &'static str = if color.memoryless {
        "source_pass_local_no_guest_backing"
    } else {
        match overlap {
            Some(bytes) => if bytes == 0 {
                "recorded_guest_byte_spans_disjoint"
            } else {
                "recorded_guest_byte_spans_overlap"
            },
            None => "unknown_coverage",
        }
    };
    BackingRelation {
        source_entries: match pages {
            Some(p) => Some(p.len() as u64),
            None => None,
        },
        destination_entries: match &texture.pages {
            Some(p) => Some(p.len() as u64),
            None => None,
        },
        source: from,
        destination: to,
        overlap,
        relation,
    }
}

/// The allocation generation of a linear target in slot zero.
pub open spec fn linear_generation(color: ObservedColor, draw: ObservedDraw) -> Option<u64> {
    if color.slot == 0 && color.target_gva != 0 {
        Some(draw.gva_generation)
    } else {
        None
    }
}

/// The part of a line about the storage texture.
pub open spec fn destination_part(
    number: u64,
    texture: ObservedTexture,
    draw: ObservedDraw,
    r: RelationModel,
) -> Seq<char> {
    "interlock_backing_observation observation="@ + decimal(number as int) + " scope="@ + optional(
        draw.scope,
    ) + " task="@ + decimal(draw.task as int) + " pipe="@ + decimal(draw.pipeline as int)
        + " destination_ref="@ + decimal(texture.reference as int) + " destination="@
        + texture.destination@ + " destination_geometry="@ + decimal(texture.width as int) + "x"@
        + decimal(texture.height as int) + " destination_format=0x"@ + hex(texture.format as int)
        + " destination_mips="@ + decimal(texture.mips as int)
        + " destination_subresource=resolved_writeback_window destination_owner_generation="@
        + optional(texture.owner_generation) + " destination_residency="@ + texture.residency_text@
        + " destination_coverage="@ + coverage_text(r.destination)
        + " destination_page_entries="@ + optional(r.destination_entries)
        + " destination_page_bytes="@ + decimal(draw.page_bytes as int)
}

/// The part of a line about the attachment.
pub open spec fn source_part(color: ObservedColor, draw: ObservedDraw, r: RelationModel) -> Seq<
    char,
> {
    " source_slot="@ + decimal(color.slot as int) + " source_ref="@ + decimal(
        color.texture_ref as int,
    ) + " source_mid="@ + decimal(color.mapping_id as int) + " source_gva=0x"@ + hex(
        color.target_gva as int,
    ) + " source_map_generation="@ + optional(widened(map_generation_of(color)))
        + " source_gva_generation="@ + optional(linear_generation(color, draw))
        + " source_geometry="@ + decimal(color.width as int) + "x"@ + decimal(color.height as int)
        + " source_format=0x"@ + hex(color.format as int) + " source_pitch="@ + decimal(
        color.row_stride as int,
    ) + " source_coverage="@ + coverage_text(r.source) + " source_page_entries="@ + optional(
        r.source_entries,
    ) + " source_page_bytes="@ + decimal(draw.page_bytes as int)
        + " source_subresource=whole_mapping_or_linear_span source_plane=unrecorded source_slice=unrecorded source_mip="@
        + decimal(color.guest_mip_level as int) + " source_native_mip=0 source_native_layer=0"@
}

/// The part of a line about the draw.
pub open spec fn draw_part(color: ObservedColor, draw: ObservedDraw, r: RelationModel) -> Seq<char> {
    " relation="@ + r.relation + " overlap_bytes="@ + optional(r.overlap) + " raster_samples="@
        + decimal(draw.raster_samples as int) + " samples="@ + decimal(color.sample_count as int)
        + " first_vertex="@ + decimal(draw.first_vertex as int) + " vertices="@ + decimal(
        draw.vertices as int,
    ) + " instances="@ + decimal(draw.instances as int) + " first_instance="@ + decimal(
        draw.first_instance as int,
    ) + " indexed="@ + draw.indexed@ + " continues="@ + truth(draw.continues) + " more="@ + truth(
        draw.more,
    ) + " viewports="@ + draw.viewports@ + " scissors="@ + draw.scissors@
        + " (observation only; no ownership lease or renderer admission is granted)"@
}

/// The line an observation is reported with.
pub open spec fn observation_text(
    number: u64,
    texture: ObservedTexture,
    color: ObservedColor,
    draw: ObservedDraw,
) -> Seq<char> {
    let r = relation_of(color, texture, draw.page_bytes);
    destination_part(number, texture, draw, r) + source_part(color, draw, r) + draw_part(
        color,
        draw,
        r,
    )
}

fn destination_line(
    number: u64,
    texture: &ObservedTexture,
    draw: &ObservedDraw,
    r: &BackingRelation,
) -> (line: String)
    requires
        r.destination matches Some(s) ==> s@.len() > 0 && canonical(s@),
    ensures
        line@ == destination_part(number, *texture, *draw, r@),
{
    let mut line: String = String::from_str("interlock_backing_observation observation=");
    push_decimal(&mut line, number);
    line.append(" scope=");
    push_optional(&mut line, draw.scope);
    line.append(" task=");
    push_decimal(&mut line, draw.task as u64);
    line.append(" pipe=");
    push_decimal(&mut line, draw.pipeline as u64);
    line.append(" destination_ref=");
    push_decimal(&mut line, texture.reference as u64);
    line.append(" destination=");
    line.append(texture.destination.as_str());
    line.append(" destination_geometry=");
    push_decimal(&mut line, texture.width as u64);
    line.append("x");
    push_decimal(&mut line, texture.height as u64);
    line.append(" destination_format=0x");
    push_hex(&mut line, texture.format as u64);
    line.append(" destination_mips=");
    push_decimal(&mut line, texture.mips as u64);
    line.append(" destination_subresource=resolved_writeback_window destination_owner_generation=");
    push_optional(&mut line, texture.owner_generation);
    line.append(" destination_residency=");
    line.append(texture.residency_text.as_str());
    line.append(" destination_coverage=");
    proof {
        if let Some(s) = &r.destination {
            law_canonical_spans_add_up(s@);
        }
    }
    let coverage: String = describe(&r.destination);
    line.append(coverage.as_str());
    line.append(" destination_page_entries=");
    push_optional(&mut line, r.destination_entries);
    line.append(" destination_page_bytes=");
    push_decimal(&mut line, draw.page_bytes);
    line
}

fn source_line(color: &ObservedColor, draw: &ObservedDraw, r: &BackingRelation) -> (line: String)
    requires
        r.source matches Some(s) ==> s@.len() > 0 && canonical(s@),
    ensures
        line@ == source_part(*color, *draw, r@),
{
    let mut line: String = String::from_str(" source_slot=");
    push_decimal(&mut line, color.slot as u64);
    line.append(" source_ref=");
    push_decimal(&mut line, color.texture_ref as u64);
    line.append(" source_mid=");
    push_decimal(&mut line, color.mapping_id as u64);
    line.append(" source_gva=0x");
    push_hex(&mut line, color.target_gva);
    line.append(" source_map_generation=");
    let mapped: Option<u64> = match generation_of(color) {
        Some(generation) => Some(generation as u64),
        None => None,
    };
    push_optional(&mut line, mapped);
    line.append(" source_gva_generation=");
    let generation: Option<u64> = if color.slot == 0 && color.target_gva != 0 {
        Some(draw.gva_generation)
    } else {
        None
    };
    push_optional(&mut line, generation);
    line.append(" source_geometry=");
    push_decimal(&mut line, color.width as u64);
    line.append("x");
    push_decimal(&mut line, color.height as u64);
    line.append(" source_format=0x");
    push_hex(&mut line, color.format as u64);
    line.append(" source_pitch=");
    push_decimal(&mut line, color.row_stride as u64);
    line.append(" source_coverage=");
    proof {
        if let Some(s) = &r.source {
            law_canonical_spans_add_up(s@);
        }
    }
    let coverage: String = describe(&r.source);
    line.append(coverage.as_str());
    line.append(" source_page_entries=");
    push_optional(&mut line, r.source_entries);
    line.append(" source_page_bytes=");
    push_decimal(&mut line, draw.page_bytes);
    line.append(
        " source_subresource=whole_mapping_or_linear_span source_plane=unrecorded source_slice=unrecorded source_mip=",
    );
    push_decimal(&mut line, color.guest_mip_level as u64);
    line.append(" source_native_mip=0 source_native_layer=0");
    line
}

fn draw_line(color: &ObservedColor, draw: &ObservedDraw, r: &BackingRelation) -> (line: String)
    ensures
        line@ == draw_part(*color, *draw, r@),
{
    let mut line: String = String::from_str(" relation=");
    line.append(r.relation);
    line.append(" overlap_bytes=");
    push_optional(&mut line, r.overlap);
    line.append(" raster_samples=");
    push_decimal(&mut line, draw.raster_samples as u64);
    line.append(" samples=");
    push_decimal(&mut line, color.sample_count as u64);
    line.append(" first_vertex=");
    push_decimal(&mut line, draw.first_vertex as u64);
    line.append(" vertices=");
    push_decimal(&mut line, draw.vertices as u64);
    line.append(" instances=");
    push_decimal(&mut line, draw.instances as u64);
    line.append(" first_instance=");
    push_decimal(&mut line, draw.first_instance as u64);
    line.append(" indexed=");
    line.append(draw.indexed.as_str());
    line.append(" continues=");
    push_truth(&mut line, draw.continues);
    line.append(" more=");
    push_truth(&mut line, draw.more);
    line.append(" viewports=");
    line.append(draw.viewports.as_str());
    line.append(" scissors=");
    line.append(draw.scissors.as_str());
    line.append(" (observation only; no ownership lease or renderer admission is granted)");
    line
}

fn generation_of(color: &ObservedColor) -> (generation: Option<u32>)
    ensures
        generation == map_generation_of(*color),
{
    match &color.mapping {
        Some(mapping) => Some(mapping.map_generation),
        None => None,
    }
}

/// The line an observation is reported with.
pub fn observation_line(
    number: u64,
    texture: &ObservedTexture,
    color: &ObservedColor,
    draw: &ObservedDraw,
) -> (line: String)
    ensures
        line@ == observation_text(number, *texture, *color, *draw),
{
    let r: BackingRelation = relate(color, texture, draw.page_bytes);
    let mut line: String = destination_line(number, texture, draw, &r);
    let source: String = source_line(color, draw, &r);
    let rest: String = draw_line(color, draw, &r);
    line.append(source.as_str());
    line.append(rest.as_str());
    line
}

/// What is observed and said once one texture was held against one attachment.
pub open spec fn after_pair(
    texture: ObservedTexture,
    color: ObservedColor,
    draw: ObservedDraw,
    state: (ObservationModel, Seq<Seq<char>>),
) -> (ObservationModel, Seq<Seq<char>>) {
    let (after, number) = admitted(
        state.0,
        draw.task,
        draw.pipeline,
        key_of(texture, color, draw).hash(),
    );
    (
        after,
        match number {
            Some(n) => state.1.push(observation_text(n as u64, texture, color, draw)),
            None => state.1,
        },
    )
}

/// The same once a texture was held against the attachments from `n` on.
pub open spec fn after_colors(
    texture: ObservedTexture,
    colors: Seq<ObservedColor>,
    draw: ObservedDraw,
    n: int,
    state: (ObservationModel, Seq<Seq<char>>),
) -> (ObservationModel, Seq<Seq<char>>)
    decreases colors.len() - n,
{
    if n < 0 || n >= colors.len() {
        state
    } else {
        after_colors(texture, colors, draw, n + 1, after_pair(texture, colors[n], draw, state))
    }
}

/// The same once the textures from `n` on were held against every attachment.
pub open spec fn after_textures(
    textures: Seq<ObservedTexture>,
    colors: Seq<ObservedColor>,
    draw: ObservedDraw,
    n: int,
    state: (ObservationModel, Seq<Seq<char>>),
) -> (ObservationModel, Seq<Seq<char>>)
    decreases textures.len() - n,
{
    if n < 0 || n >= textures.len() {
        state
    } else {
        after_textures(
            textures,
            colors,
            draw,
            n + 1,
            after_colors(textures[n], colors, draw, 0, state),
        )
    }
}

impl ObservationCounts {
    fn report_texture(
        &mut self,
        texture: &ObservedTexture,
        colors: &Vec<ObservedColor>,
        draw: &ObservedDraw,
        lines: &mut Vec<String>,
    )
        requires
            old(self)@.bounded(),
        ensures
            final(self)@.bounded(),
            (final(self)@, texts(final(lines)@)) == after_colors(
                *texture,
                colors@,
                *draw,
                0,
                (old(self)@, texts(old(lines)@)),
            ),
    {
        let ghost start = (self@, texts(lines@));
        let mut n: usize = 0;
        while n < colors.len()
            invariant
                0 <= n <= colors@.len(),
                self@.bounded(),
                after_colors(*texture, colors@, *draw, 0, start) == after_colors(
                    *texture,
                    colors@,
                    *draw,
                    n as int,
                    (self@, texts(lines@)),
                ),
            decreases colors@.len() - n,
        {
            let color: &ObservedColor = &colors[n];
            let key = ObservationKey {
                task: draw.task,
                pipeline: draw.pipeline,
                destination_ref: texture.reference,
                source_slot: color.slot,
                source_ref: color.texture_ref,
                source_mapping: color.mapping_id,
                source_gva: color.target_gva,
                source_map_generation: generation_of(color),
                gva_generation: draw.gva_generation,
                destination_residency: texture.residency,
                destination_owner_generation: texture.owner_generation,
                scope: draw.scope,
            };
            if let Some(number) = self.admit_observation(
                draw.task,
                draw.pipeline,
                key.fingerprint(),
            ) {
                push_line(lines, observation_line(number, texture, color, draw));
            }
            n += 1;
        }
    }

    /// Holds every storage texture of a draw against every attachment, in order,
    /// and says what is new.
    pub fn report(
        &mut self,
        textures: &Vec<ObservedTexture>,
        colors: &Vec<ObservedColor>,
        draw: &ObservedDraw,
    ) -> (lines: Vec<String>)
        requires
            old(self)@.bounded(),
        ensures
            final(self)@.bounded(),
            (final(self)@, texts(lines@)) == after_textures(
                textures@,
                colors@,
                *draw,
                0,
                (old(self)@, Seq::empty()),
            ),
    {
        let mut lines: Vec<String> = Vec::new();
        assert(texts(lines@) =~= Seq::<Seq<char>>::empty());
        let ghost start = (self@, Seq::<Seq<char>>::empty());
        let mut n: usize = 0;
        while n < textures.len()
            invariant
                0 <= n <= textures@.len(),
                self@.bounded(),
                after_textures(textures@, colors@, *draw, 0, start) == after_textures(
                    textures@,
                    colors@,
                    *draw,
                    n as int,
                    (self@, texts(lines@)),
                ),
            decreases textures@.len() - n,
        {
            self.report_texture(&textures[n], colors, draw, &mut lines);
            n += 1;
        }
        lines
    }
}

/// An observation is made exactly the first time its fingerprint is seen, while its
/// pipeline is listed or can be and has observations left; no other pipeline's count
/// changes.
pub proof fn law_an_observation_is_made_while_there_is_room(
    before: ObservationModel,
    task: u32,
    pipeline: u32,
    fingerprint: u64,
    k: int,
)
    requires
        before.bounded(),
    ensures
        ({
            let (after, number) = admitted(before, task, pipeline, fingerprint);
            let known = exists|i: int|
                0 <= i < before.counts.len() && (#[trigger] before.counts[i]).task == task
                    && before.counts[i].pipeline == pipeline;
            let spent = exists|i: int|
                0 <= i < before.counts.len() && (#[trigger] before.counts[i]).task == task
                    && before.counts[i].pipeline == pipeline && before.counts[i].count >= 16;
            &&& number is Some <==> !before.seen.contains(fingerprint) && (known
                || before.counts.len() < 16) && !spent
            &&& number is Some ==> after.seen == before.seen.push(fingerprint)
            &&& number is None ==> after.seen == before.seen
            &&& 0 <= k < before.counts.len() ==> after.counts[k].task == before.counts[k].task
                && after.counts[k].pipeline == before.counts[k].pipeline
            &&& 0 <= k < before.counts.len() && !(before.counts[k].task == task
                && before.counts[k].pipeline == pipeline) ==> after.counts[k].count
                == before.counts[k].count
            &&& 0 <= k < before.counts.len() && before.counts[k].task == task
                && before.counts[k].pipeline == pipeline && number is Some
                ==> after.counts[k].count == before.counts[k].count + 1
            &&& after.counts.len() - before.counts.len() == if !known && before.counts.len() < 16 {
                1int
            } else {
                0int
            }
        }),
{
    let counts = listed(before.counts, task, pipeline);
    lemma_place(before.counts, task, pipeline, 0);
    let first = place_of(before.counts, task, pipeline, 0);
    if first < before.counts.len() {
        assert(before.counts[first].task == task);
    } else if before.counts.len() < PIPELINE_LIMIT {
        lemma_place_pushed(before.counts, PipelineCount { task, pipeline, count: 0 }, 0);
    }
    lemma_place(counts, task, pipeline, 0);
    let at = place_of(counts, task, pipeline, 0);
    if 0 <= k < before.counts.len() && before.counts[k].task == task && before.counts[k].pipeline
        == pipeline && k != first {
        assert(before.counts[first].task == task);
        if k < first {
            assert(before.counts[k].task != task || before.counts[k].pipeline != pipeline);
        } else {
            assert(before.counts[first].task != before.counts[k].task
                || before.counts[first].pipeline != before.counts[k].pipeline);
        }
    }
    assert forall|i: int|
        0 <= i < before.counts.len() && (#[trigger] before.counts[i]).task == task
            && before.counts[i].pipeline == pipeline implies i == first by {
        if i < first {
            assert(before.counts[i].task != task || before.counts[i].pipeline != pipeline);
        } else if i > first {
            assert(before.counts[first].task != before.counts[i].task
                || before.counts[first].pipeline != before.counts[i].pipeline);
        }
    }
}

/// An observation is a new one exactly when the draw's task, pipeline, scope or
/// allocation generation, the texture or what its texels come from, or the
/// attachment, its backing or the generation of its mapping is another.
pub proof fn law_any_change_is_a_new_observation(
    texture: ObservedTexture,
    color: ObservedColor,
    draw: ObservedDraw,
    other_texture: ObservedTexture,
    other_color: ObservedColor,
    other_draw: ObservedDraw,
)
    ensures
        key_of(texture, color, draw) == key_of(other_texture, other_color, other_draw) <==> {
            &&& draw.task == other_draw.task
            &&& draw.pipeline == other_draw.pipeline
            &&& draw.scope == other_draw.scope
            &&& draw.gva_generation == other_draw.gva_generation
            &&& texture.reference == other_texture.reference
            &&& texture.residency == other_texture.residency
            &&& texture.owner_generation == other_texture.owner_generation
            &&& color.slot == other_color.slot
            &&& color.texture_ref == other_color.texture_ref
            &&& color.mapping_id == other_color.mapping_id
            &&& color.target_gva == other_color.target_gva
            &&& color.mapping is Some <==> other_color.mapping is Some
            &&& color.mapping is Some && other_color.mapping is Some
                ==> color.mapping->0.map_generation == other_color.mapping->0.map_generation
        },
{
}

/// Everything that makes an observation a new one goes into its hash: two keys that
/// are hashed alike are the same key.
pub proof fn law_the_whole_key_is_hashed(a: ObservationKey, b: ObservationKey)
    ensures
        a.hashed() == b.hashed() ==> a == b,
{
    vstd::bytes::lemma_auto_spec_u32_to_from_le_bytes();
    vstd::bytes::lemma_auto_spec_u64_to_from_le_bytes();
    if a.hashed() == b.hashed() {
        let x = a.hashed();
        let y = b.hashed();
        assert(x[0] == spec_u32_to_le_bytes(a.task) && y[0] == spec_u32_to_le_bytes(b.task));
        assert(x[1] == spec_u32_to_le_bytes(a.pipeline) && y[1] == spec_u32_to_le_bytes(b.pipeline));
        assert(x[2] == spec_u32_to_le_bytes(a.destination_ref) && y[2] == spec_u32_to_le_bytes(
            b.destination_ref,
        ));
        assert(x[3] == spec_u32_to_le_bytes(a.source_slot) && y[3] == spec_u32_to_le_bytes(
            b.source_slot,
        ));
        assert(x[4] == spec_u32_to_le_bytes(a.source_ref) && y[4] == spec_u32_to_le_bytes(
            b.source_ref,
        ));
        assert(x[5] == spec_u32_to_le_bytes(a.source_mapping) && y[5] == spec_u32_to_le_bytes(
            b.source_mapping,
        ));
        assert(x[6] == spec_u64_to_le_bytes(a.source_gva) && y[6] == spec_u64_to_le_bytes(
            b.source_gva,
        ));
        lemma_presence_hashed();
        assert(x[7] == hashed_generation(a.source_map_generation)[0]);
        assert(y[7] == hashed_generation(b.source_map_generation)[0]);
        assert(a.source_map_generation is Some <==> b.source_map_generation is Some);
        let g: int = if a.source_map_generation is Some {
            2
        } else {
            1
        };
        if a.source_map_generation is Some {
            assert(x[8] == spec_u32_to_le_bytes(a.source_map_generation->0));
            assert(y[8] == spec_u32_to_le_bytes(b.source_map_generation->0));
        }
        assert(x[7 + g] == spec_u64_to_le_bytes(a.gva_generation));
        assert(y[7 + g] == spec_u64_to_le_bytes(b.gva_generation));
        assert(x[8 + g] == hashed_residency(a.destination_residency)[0]);
        assert(y[8 + g] == hashed_residency(b.destination_residency)[0]);
        assert(a.destination_residency is Some <==> b.destination_residency is Some);
        let r: int = if a.destination_residency is Some {
            3
        } else {
            1
        };
        if a.destination_residency is Some {
            assert(x[9 + g] == spec_u64_to_le_bytes(a.destination_residency->0.key));
            assert(y[9 + g] == spec_u64_to_le_bytes(b.destination_residency->0.key));
            assert(x[10 + g] == spec_u64_to_le_bytes(a.destination_residency->0.seed_generation));
            assert(y[10 + g] == spec_u64_to_le_bytes(b.destination_residency->0.seed_generation));
        }
        assert(x[8 + g + r] == hashed_optional(a.destination_owner_generation)[0]);
        assert(y[8 + g + r] == hashed_optional(b.destination_owner_generation)[0]);
        assert(a.destination_owner_generation is Some <==> b.destination_owner_generation is Some);
        let o: int = if a.destination_owner_generation is Some {
            2
        } else {
            1
        };
        if a.destination_owner_generation is Some {
            assert(x[9 + g + r] == spec_u64_to_le_bytes(a.destination_owner_generation->0));
            assert(y[9 + g + r] == spec_u64_to_le_bytes(b.destination_owner_generation->0));
        }
        assert(x[8 + g + r + o] == hashed_optional(a.scope)[0]);
        assert(y[8 + g + r + o] == hashed_optional(b.scope)[0]);
        assert(a.scope is Some <==> b.scope is Some);
        if a.scope is Some {
            assert(x[9 + g + r + o] == spec_u64_to_le_bytes(a.scope->0));
            assert(y[9 + g + r + o] == spec_u64_to_le_bytes(b.scope->0));
        }
    }
}

proof fn lemma_presence_hashed()
    ensures
        spec_u64_to_le_bytes(0) != spec_u64_to_le_bytes(1),
{
    vstd::bytes::lemma_auto_spec_u64_to_from_le_bytes();
    assert(vstd::bytes::spec_u64_from_le_bytes(spec_u64_to_le_bytes(0)) == 0);
    assert(vstd::bytes::spec_u64_from_le_bytes(spec_u64_to_le_bytes(1)) == 1);
}

/// An attachment's recorded pages are those of its mapping while it is a live
/// surface, and those of its linear rows where it is none and has an address and
/// rows that are known; otherwise there are none.
pub proof fn law_recorded_pages_are_the_attachments_own(color: ObservedColor)
    ensures
        recorded_pages(color) matches Some(pages) ==> {
            ||| color.mapping_id != 0 && color.mapping is Some && color.mapping->0.mapped
                && color.mapping->0.pages is Some && pages == color.mapping->0.pages->0@
            ||| color.mapping_id == 0 && color.target_gva != 0 && color.linear_pages is Some
                && pages == color.linear_pages->0@ && pages.len() > 0
        },
        color.mapping_id != 0 && color.mapping is Some && color.mapping->0.mapped
            && color.mapping->0.pages is Some ==> recorded_pages(color) is Some,
        color.mapping_id == 0 && color.target_gva != 0 && color.linear_pages is Some
            && color.linear_pages->0@.len() > 0 ==> recorded_pages(color) is Some,
        color.slot == 0 && color.target_gva != 0 ==> recorded_pages(color) is None
            || color.mapping_id != 0 || color.linear_pages is Some,
{
}

/// What two recorded page lists are said to share are the bytes that are in a page
/// of both, and it is said only where both lists are known.
pub proof fn law_an_observed_overlap_is_counted_in_bytes(
    color: ObservedColor,
    texture: ObservedTexture,
    page_bytes: u64,
    source: Seq<(u64, u64)>,
    destination: Seq<(u64, u64)>,
)
    requires
        recorded_pages(color) matches Some(pages) && admissible(pages, page_bytes) && canonical(
            source,
        ) && covered(source) == page_set(pages, page_bytes),
        texture.pages matches Some(pages) && admissible(pages@, page_bytes) && canonical(
            destination,
        ) && covered(destination) == page_set(pages@, page_bytes),
    ensures
        relation_of(color, texture, page_bytes).overlap == Some(
            page_set(recorded_pages(color)->0, page_bytes).intersect(
                page_set(texture.pages->0@, page_bytes),
            ).len() as u64,
        ),
        relation_of(color, texture, page_bytes).source_entries == Some(
            recorded_pages(color)->0.len() as u64,
        ),
        relation_of(color, texture, page_bytes).destination_entries == Some(
            texture.pages->0@.len() as u64,
        ),
{
    lemma_canonical_spans(recorded_pages(color)->0, page_bytes, source);
    lemma_canonical_spans(texture.pages->0@, page_bytes, destination);
}

/// Pass-local storage is said to have no guest backing, whatever is recorded of it;
/// otherwise bytes in common are an overlap, none are not, and unknown coverage is
/// neither.
pub proof fn law_a_relation_is_named_for_its_bytes(overlap: Option<u64>, other: Option<u64>)
    ensures
        relation_text(true, overlap) == relation_text(true, other),
        relation_text(false, overlap) == relation_text(false, other) <==> (overlap is None
            <==> other is None) && (overlap is Some && other is Some ==> (overlap->0 == 0
            <==> other->0 == 0)),
        relation_text(true, overlap) != relation_text(false, other),
{
    reveal_strlit("source_pass_local_no_guest_backing");
    reveal_strlit("recorded_guest_byte_spans_disjoint");
    reveal_strlit("recorded_guest_byte_spans_overlap");
    reveal_strlit("unknown_coverage");
    assert("source_pass_local_no_guest_backing"@[0] == 's');
    assert("recorded_guest_byte_spans_disjoint"@[0] == 'r');
    assert("recorded_guest_byte_spans_overlap"@[0] == 'r');
    assert("unknown_coverage"@[0] == 'u');
    assert("recorded_guest_byte_spans_disjoint"@[26] == 'd');
    assert("recorded_guest_byte_spans_overlap"@[26] == 'o');
}

/// An allocation generation is reported of a linear target in slot zero, and of
/// nothing else.
pub proof fn law_a_generation_is_reported_of_the_first_linear_target(
    color: ObservedColor,
    draw: ObservedDraw,
)
    ensures
        linear_generation(color, draw) is Some <==> color.slot == 0 && color.target_gva != 0,
        linear_generation(color, draw) matches Some(generation) ==> generation
            == draw.gva_generation,
        widened(map_generation_of(color)) is Some <==> color.mapping is Some,
        widened(map_generation_of(color)) matches Some(generation) ==> generation
            == color.mapping->0.map_generation,
{
}

/// The observation of a pair was made, now or before, or there is no room for it.
pub open spec fn tried(
    state: ObservationModel,
    texture: ObservedTexture,
    color: ObservedColor,
    draw: ObservedDraw,
) -> bool {
    ||| state.seen.contains(key_of(texture, color, draw).hash())
    ||| exists|i: int|
        0 <= i < state.counts.len() && (#[trigger] state.counts[i]).task == draw.task
            && state.counts[i].pipeline == draw.pipeline && state.counts[i].count >= 16
    ||| state.counts.len() >= 16 && forall|i: int|
        0 <= i < state.counts.len() ==> (#[trigger] state.counts[i]).task != draw.task
            || state.counts[i].pipeline != draw.pipeline
}

proof fn lemma_pair_tried(
    texture: ObservedTexture,
    color: ObservedColor,
    draw: ObservedDraw,
    state: (ObservationModel, Seq<Seq<char>>),
    other_texture: ObservedTexture,
    other_color: ObservedColor,
)
    requires
        state.0.bounded(),
    ensures
        ({
            let after = after_pair(texture, color, draw, state);
            &&& after.0.bounded()
            &&& tried(after.0, texture, color, draw)
            &&& tried(state.0, other_texture, other_color, draw) ==> tried(
                after.0,
                other_texture,
                other_color,
                draw,
            )
            &&& after.0.seen.len() - state.0.seen.len() == after.1.len() - state.1.len()
            &&& state.1.is_prefix_of(after.1)
        }),
{
    let fingerprint = key_of(texture, color, draw).hash();
    let before = state.0;
    let (after, number) = admitted(before, draw.task, draw.pipeline, fingerprint);
    law_observations_are_bounded(before, draw.task, draw.pipeline, fingerprint);
    let counts = listed(before.counts, draw.task, draw.pipeline);
    lemma_place(before.counts, draw.task, draw.pipeline, 0);
    let first = place_of(before.counts, draw.task, draw.pipeline, 0);
    if first == before.counts.len() && before.counts.len() < PIPELINE_LIMIT {
        lemma_place_pushed(
            before.counts,
            PipelineCount { task: draw.task, pipeline: draw.pipeline, count: 0 },
            0,
        );
    }
    lemma_place(counts, draw.task, draw.pipeline, 0);
    let at = place_of(counts, draw.task, draw.pipeline, 0);
    if number is Some {
        assert(after.seen[before.seen.len() as int] == fingerprint);
        assert(after.seen.contains(fingerprint));
    } else if at < counts.len() {
        assert(counts[at].task == draw.task);
    }
    assert forall|i: int| 0 <= i < before.counts.len() implies (#[trigger] after.counts[i]).task
        == before.counts[i].task && after.counts[i].pipeline == before.counts[i].pipeline
        && after.counts[i].count >= before.counts[i].count by {}
    let hash = key_of(other_texture, other_color, draw).hash();
    if before.seen.contains(hash) {
        let k = choose|k: int| 0 <= k < before.seen.len() && before.seen[k] == hash;
        assert(after.seen[k] == hash);
    }
    if exists|i: int|
        0 <= i < before.counts.len() && (#[trigger] before.counts[i]).task == draw.task
            && before.counts[i].pipeline == draw.pipeline && before.counts[i].count >= 16 {
        let i = choose|i: int|
            0 <= i < before.counts.len() && (#[trigger] before.counts[i]).task == draw.task
                && before.counts[i].pipeline == draw.pipeline && before.counts[i].count >= 16;
        assert(after.counts[i].task == draw.task && after.counts[i].count >= 16);
    }
}

proof fn lemma_colors_tried(
    texture: ObservedTexture,
    colors: Seq<ObservedColor>,
    draw: ObservedDraw,
    n: int,
    state: (ObservationModel, Seq<Seq<char>>),
    other_texture: ObservedTexture,
    other_color: ObservedColor,
    j: int,
)
    requires
        0 <= n <= colors.len(),
        state.0.bounded(),
    ensures
        ({
            let after = after_colors(texture, colors, draw, n, state);
            &&& after.0.bounded()
            &&& n <= j < colors.len() ==> tried(after.0, texture, colors[j], draw)
            &&& tried(state.0, other_texture, other_color, draw) ==> tried(
                after.0,
                other_texture,
                other_color,
                draw,
            )
            &&& after.0.seen.len() - state.0.seen.len() == after.1.len() - state.1.len()
        }),
    decreases colors.len() - n,
{
    if n < colors.len() {
        let next = after_pair(texture, colors[n], draw, state);
        lemma_pair_tried(texture, colors[n], draw, state, other_texture, other_color);
        lemma_colors_tried(
            texture,
            colors,
            draw,
            n + 1,
            next,
            other_texture,
            other_color,
            j,
        );
        if j == n {
            lemma_colors_tried(texture, colors, draw, n + 1, next, texture, colors[n], j);
        }
    }
}

/// A report holds every storage texture against every attachment: afterwards the
/// observation of each pair was made, now or earlier, or there is no room for it,
/// and there is one line for every observation made now.
pub proof fn law_every_pair_is_observed_or_out_of_room(
    textures: Seq<ObservedTexture>,
    colors: Seq<ObservedColor>,
    draw: ObservedDraw,
    n: int,
    state: (ObservationModel, Seq<Seq<char>>),
    i: int,
    j: int,
)
    requires
        0 <= n <= textures.len(),
        state.0.bounded(),
        0 <= i < textures.len(),
        0 <= j < colors.len(),
        i < n ==> tried(state.0, textures[i], colors[j], draw),
    ensures
        ({
            let after = after_textures(textures, colors, draw, n, state);
            &&& tried(after.0, textures[i], colors[j], draw)
            &&& after.0.seen.len() - state.0.seen.len() == after.1.len() - state.1.len()
        }),
    decreases textures.len() - n,
{
    if n < textures.len() {
        let next = after_colors(textures[n], colors, draw, 0, state);
        lemma_colors_tried(
            textures[n],
            colors,
            draw,
            0,
            state,
            textures[i],
            colors[j],
            j,
        );
        law_every_pair_is_observed_or_out_of_room(textures, colors, draw, n + 1, next, i, j);
    }
}

} // verus!
