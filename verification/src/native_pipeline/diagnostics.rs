//! Bounded reporting of preparation outcomes.
use crate::native_pipeline::metadata::Metadata;
use crate::native_pipeline::objects::ResourceId;
use crate::native_pipeline::reason::PreflightReason;
use crate::text::{decimal, hex, push_decimal, push_hex};
use vstd::prelude::*;
use vstd::string::*;

verus! {

/// The digests of a draw's two shader sources.
pub type SourceDigests = ((u64, u64, u64), (u64, u64, u64));

/// What makes two outcomes the same one.
pub struct DiagnosticKey {
    pub task: u32,
    pub pipeline: Option<ResourceId>,
    pub sources: Option<SourceDigests>,
    pub reason: String,
}

/// A key as a value.
pub ghost struct DiagnosticIdentity {
    pub task: u32,
    pub pipeline: Option<ResourceId>,
    pub sources: Option<SourceDigests>,
    pub reason: Seq<char>,
}

impl View for DiagnosticKey {
    type V = DiagnosticIdentity;

    open spec fn view(&self) -> DiagnosticIdentity {
        DiagnosticIdentity {
            task: self.task,
            pipeline: self.pipeline,
            sources: self.sources,
            reason: self.reason@,
        }
    }
}

/// The outcomes reported so far. None is reported twice, and there is a limit to
/// how many are.
pub struct Diagnostics {
    seen: Vec<DiagnosticKey>,
}

impl View for Diagnostics {
    type V = Seq<DiagnosticIdentity>;

    closed spec fn view(&self) -> Seq<DiagnosticIdentity> {
        Seq::new(self.seen@.len(), |k: int| self.seen@[k]@)
    }
}

/// How many distinct outcomes are ever reported.
pub const LIMIT: usize = 256;

fn same_pipeline(a: Option<ResourceId>, b: Option<ResourceId>) -> (r: bool)
    ensures
        r == (a == b),
{
    match (a, b) {
        (Some(x), Some(y)) => x == y,
        (None, None) => true,
        _ => false,
    }
}

fn same_sources(a: Option<SourceDigests>, b: Option<SourceDigests>) -> (r: bool)
    ensures
        r == (a == b),
{
    match (a, b) {
        (Some(x), Some(y)) => x.0.0 == y.0.0 && x.0.1 == y.0.1 && x.0.2 == y.0.2 && x.1.0 == y.1.0
            && x.1.1 == y.1.1 && x.1.2 == y.1.2,
        (None, None) => true,
        _ => false,
    }
}

impl Diagnostics {
    /// No outcome is recorded twice, and the limit is kept.
    pub open spec fn bounded(self) -> bool {
        self@.no_duplicates() && self@.len() <= LIMIT
    }

    /// Nothing reported yet.
    pub fn new() -> (d: Diagnostics)
        ensures
            d@ == Seq::<DiagnosticIdentity>::empty(),
            d.bounded(),
    {
        let d = Diagnostics { seen: Vec::new() };
        assert(d@ =~= Seq::<DiagnosticIdentity>::empty());
        d
    }

    /// How many outcomes were reported.
    pub fn len(&self) -> (n: usize)
        ensures
            n == self@.len(),
    {
        self.seen.len()
    }

    /// Whether to report an outcome: the first time it is seen, while there is
    /// room for another.
    pub fn record(
        &mut self,
        task: u32,
        pipeline: Option<ResourceId>,
        sources: Option<SourceDigests>,
        reason: &str,
    ) -> (admitted: bool)
        requires
            old(self).bounded(),
        ensures
            ({
                let key = DiagnosticIdentity { task, pipeline, sources, reason: reason@ };
                &&& admitted == (old(self)@.len() < LIMIT && !old(self)@.contains(key))
                &&& final(self)@ == if admitted {
                    old(self)@.push(key)
                } else {
                    old(self)@
                }
            }),
            final(self).bounded(),
    {
        let ghost key = DiagnosticIdentity { task, pipeline, sources, reason: reason@ };
        if self.seen.len() >= LIMIT {
            return false;
        }
        let text: String = reason.to_owned();
        let mut n: usize = 0;
        while n < self.seen.len()
            invariant
                0 <= n <= self.seen@.len(),
                self@ == old(self)@,
                self.seen@.len() < LIMIT,
                old(self).bounded(),
                text@ == reason@,
                key == (DiagnosticIdentity { task, pipeline, sources, reason: reason@ }),
                forall|k: int| 0 <= k < n ==> (#[trigger] self.seen@[k])@ != key,
            decreases self.seen@.len() - n,
        {
            let seen: &DiagnosticKey = &self.seen[n];
            if seen.task == task && same_pipeline(seen.pipeline, pipeline) && same_sources(
                seen.sources,
                sources,
            ) && seen.reason == text {
                assert(self@[n as int] == key);
                return false;
            }
            n += 1;
        }
        assert(!self@.contains(key)) by {
            if self@.contains(key) {
                let k = choose|k: int| 0 <= k < self@.len() && self@[k] == key;
                assert(self.seen@[k]@ != key);
            }
        }
        self.seen.push(DiagnosticKey { task, pipeline, sources, reason: text });
        assert(self@ =~= old(self)@.push(key));
        true
    }
}

/// The name an outcome is reported under.
pub open spec fn outcome_text(outcome: Result<Metadata, PreflightReason>) -> Seq<char> {
    match outcome {
        Ok(_) => "native_preflight_eligible"@,
        Err(reason) => reason.slug_text(),
    }
}

/// The name an outcome is reported under.
pub fn outcome_slug(outcome: &Result<Metadata, PreflightReason>) -> (text: &'static str)
    ensures
        text@ == outcome_text(*outcome),
{
    match outcome {
        Ok(_) => "native_preflight_eligible",
        Err(reason) => reason.slug(),
    }
}

/// A source digest as text.
pub open spec fn digest_text(digest: (u64, u64, u64)) -> Seq<char> {
    hex(digest.0 as int) + hex(digest.1 as int) + ":"@ + decimal(digest.2 as int)
}

/// The digest of one stage's source, or that it is not known.
pub open spec fn identity_text(sources: Option<SourceDigests>, fragment: bool) -> Seq<char> {
    match sources {
        None => "unknown"@,
        Some(pair) => digest_text(
            if fragment {
                pair.1
            } else {
                pair.0
            },
        ),
    }
}

/// The route an outcome leads to.
pub open spec fn route_text(reason: Seq<char>) -> Seq<char> {
    if reason == "native_preflight_eligible"@ {
        "exact_metadata"@
    } else {
        "synchronous"@
    }
}

/// The line one admitted outcome is reported with.
pub open spec fn report_text(
    task: u32,
    pipeline: Option<ResourceId>,
    sources: Option<SourceDigests>,
    reason: Seq<char>,
) -> Seq<char> {
    let (slot, generation): (int, int) = match pipeline {
        Some(id) => (id.slot as int, id.generation as int),
        None => (0, 0),
    };
    "native_pipeline_preflight task="@ + decimal(task as int) + " pipeline="@ + decimal(slot)
        + " generation="@ + decimal(generation) + " sourceVS="@ + identity_text(sources, false)
        + " runtimeFS="@ + identity_text(sources, true) + " reason="@ + reason + " route="@
        + route_text(reason)
}

fn push_identity(out: &mut String, sources: Option<SourceDigests>, fragment: bool)
    ensures
        final(out)@ == old(out)@ + identity_text(sources, fragment),
{
    match sources {
        None => {
            out.append("unknown");
        },
        Some(pair) => {
            let digest: (u64, u64, u64) = if fragment {
                pair.1
            } else {
                pair.0
            };
            push_hex(out, digest.0);
            push_hex(out, digest.1);
            out.append(":");
            push_decimal(out, digest.2);
        },
    }
    assert(out@ =~= old(out)@ + identity_text(sources, fragment));
}

/// The line one admitted outcome is reported with.
pub fn report_line(
    task: u32,
    pipeline: Option<ResourceId>,
    sources: Option<SourceDigests>,
    reason: &str,
) -> (line: String)
    ensures
        line@ == report_text(task, pipeline, sources, reason@),
{
    let (slot, generation): (u32, u64) = match pipeline {
        Some(id) => (id.slot, id.generation),
        None => (0, 0),
    };
    let mut out: String = String::from_str("native_pipeline_preflight task=");
    push_decimal(&mut out, task as u64);
    out.append(" pipeline=");
    push_decimal(&mut out, slot as u64);
    out.append(" generation=");
    push_decimal(&mut out, generation);
    out.append(" sourceVS=");
    push_identity(&mut out, sources, false);
    out.append(" runtimeFS=");
    push_identity(&mut out, sources, true);
    out.append(" reason=");
    out.append(reason);
    out.append(" route=");
    let eligible: String = String::from_str("native_preflight_eligible");
    let text: String = reason.to_owned();
    if text == eligible {
        out.append("exact_metadata");
    } else {
        out.append("synchronous");
    }
    out
}

/// Whether a pipeline's preparation has finished.
#[derive(Clone, Copy, Debug, PartialEq, Eq, Structural)]
pub enum Progress {
    Ready,
    Pending,
    Unavailable,
}

/// Whether a submission has to wait: some plan's preparation is still pending.
/// A submission whose scan failed never waits.
pub fn pending(plans: Option<&Vec<Progress>>) -> (r: bool)
    ensures
        r == (plans matches Some(list) && exists|k: int|
            0 <= k < list@.len() && #[trigger] list@[k] == Progress::Pending),
{
    match plans {
        None => false,
        Some(list) => {
            let mut pending: bool = false;
            let mut n: usize = 0;
            while n < list.len()
                invariant
                    0 <= n <= list@.len(),
                    pending == exists|k: int|
                        0 <= k < n && #[trigger] list@[k] == Progress::Pending,
                decreases list@.len() - n,
            {
                if list[n] == Progress::Pending {
                    pending = true;
                }
                n += 1;
            }
            pending
        },
    }
}

/// Only the outcome of a draw that is prepared is routed by its metadata; every
/// other one stays on the synchronous route.
pub proof fn law_only_an_eligible_draw_is_routed_natively(
    outcome: Result<Metadata, PreflightReason>,
    reason: Seq<char>,
)
    ensures
        outcome is Ok ==> route_text(outcome_text(outcome)) == "exact_metadata"@,
        reason != "native_preflight_eligible"@ ==> route_text(reason) != route_text(
            "native_preflight_eligible"@,
        ),
{
    reveal_strlit("exact_metadata");
    reveal_strlit("synchronous");
    assert("exact_metadata"@[0] == 'e');
    assert("synchronous"@[0] == 's');
    assert("exact_metadata"@[0] == 'e');
    assert("synchronous"@[0] == 's');
}

/// Each stage is identified by its own source: exchanging the two exchanges what
/// is reported of the stages, and a source says nothing of the other stage.
pub proof fn law_each_stage_is_identified_by_its_own_source(
    first: (u64, u64, u64),
    second: (u64, u64, u64),
    other: (u64, u64, u64),
)
    ensures
        identity_text(Some((first, second)), true) == identity_text(Some((second, first)), false),
        identity_text(Some((first, second)), false) == identity_text(Some((first, other)), false),
        identity_text(Some((first, second)), true) == identity_text(Some((other, second)), true),
        identity_text(None, true) == identity_text(None, false),
        identity_text(Some((first, second)), false) == digest_text(first),
{
}

} // verus!
