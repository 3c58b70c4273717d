//! One fresh observation of a buffer range.
use crate::gather::{same_numbers, GatherOutcome};
use crate::input_snapshot::span::BufferReadSpan;
use vstd::arithmetic::power2::pow2;
use vstd::prelude::*;

verus! {

/// Why guest memory could not be read.
#[derive(Clone, Copy, Debug, PartialEq, Eq, Structural)]
pub enum MemError {
    UnsupportedPageShift,
    Overflow,
    Unmapped,
    NoSuchTask,
    BadArgs,
}

/// What a snapshot was captured under.
pub struct Key {
    pub scope: u64,
    /// The guest's count of writes it declared to the buffer.
    pub declared_write: u64,
    pub span: BufferReadSpan,
    pub pages: Vec<u64>,
}

/// A key as a value.
pub ghost struct KeyModel {
    pub scope: u64,
    pub declared_write: u64,
    pub span: BufferReadSpan,
    pub pages: Seq<u64>,
}

impl View for Key {
    type V = KeyModel;

    open spec fn view(&self) -> KeyModel {
        KeyModel {
            scope: self.scope,
            declared_write: self.declared_write,
            span: self.span,
            pages: self.pages@,
        }
    }
}

/// Whether two keys are the same.
pub fn same_key(a: &Key, b: &Key) -> (r: bool)
    ensures
        r == (a@ == b@),
{
    a.scope == b.scope && a.declared_write == b.declared_write && a.span == b.span && same_numbers(
        &a.pages,
        &b.pages,
    )
}

/// How many pages a range touches.
pub open spec fn pages_touched(span: BufferReadSpan) -> int {
    let size = pow2(span.page_shift as nat) as int;
    (span.gva as int % size + span.len + size - 1) / size
}

/// How many pages a range touches, for a page size that fits the address space.
pub fn page_count(span: BufferReadSpan) -> (count: Result<u64, MemError>)
    requires
        span.page_shift < 64 ==> span.gva as int % pow2(span.page_shift as nat) as int + span.len
            <= u64::MAX,
    ensures
        count == if span.page_shift >= 64 {
            Err::<u64, MemError>(MemError::UnsupportedPageShift)
        } else {
            Ok::<u64, MemError>(pages_touched(span) as u64)
        },
{
    if span.page_shift >= 64 {
        return Err(MemError::UnsupportedPageShift);
    }
    let shift: u64 = span.page_shift as u64;
    let size: u64 = 1u64 << shift;
    proof {
        vstd::arithmetic::power2::lemma_pow2_pos(shift as nat);
        vstd::bits::lemma_u64_pow2_no_overflow(shift as nat);
        vstd::bits::lemma_u64_shl_is_mul(1, shift);
        assert(size == pow2(span.page_shift as nat));
    }
    let bytes: u64 = span.gva % size + span.len as u64;
    let whole: u64 = bytes / size;
    let partial: u64 = bytes % size;
    proof {
        let b = bytes as int;
        let s = size as int;
        vstd::arithmetic::div_mod::lemma_fundamental_div_mod(b, s);
        if partial == 0 {
            assert((b + s - 1) / s == whole) by {
                vstd::arithmetic::div_mod::lemma_fundamental_div_mod_converse(
                    b + s - 1,
                    s,
                    whole as int,
                    s - 1,
                );
            }
        } else {
            assert(s * (whole + 1) == s * whole + s) by (nonlinear_arith);
            assert((b + s - 1) / s == whole + 1) by {
                vstd::arithmetic::div_mod::lemma_fundamental_div_mod_converse(
                    b + s - 1,
                    s,
                    whole + 1,
                    partial - 1,
                );
            }
            assert(whole + 1 <= u64::MAX) by (nonlinear_arith)
                requires
                    s * whole + partial == b,
                    b <= u64::MAX,
                    partial >= 1,
                    s >= 1,
                    whole >= 0,
            ;
        }
    }
    if partial == 0 {
        Ok(whole)
    } else {
        Ok(whole + 1)
    }
}

/// The walk found every page.
pub open spec fn complete(walk: Seq<Option<u64>>) -> bool {
    forall|k: int| 0 <= k < walk.len() ==> (#[trigger] walk[k]) is Some
}

/// The pages a complete walk found.
pub open spec fn walked_pages(walk: Seq<Option<u64>>) -> Seq<u64> {
    Seq::new(walk.len(), |k: int| walk[k]->0)
}

/// What an observation of a range amounts to. `walk` is the page of each step of
/// the table walk, which ends at the first hole.
pub open spec fn observation(
    span: BufferReadSpan,
    scope: u64,
    declared_write: u64,
    walk: Seq<Option<u64>>,
    task_known: bool,
    witness: Result<GatherOutcome, MemError>,
) -> Result<(KeyModel, GatherOutcome), MemError> {
    if span.page_shift >= 64 {
        Err(MemError::UnsupportedPageShift)
    } else if !complete(walk) || walk.len() != pages_touched(span) {
        Err(MemError::Unmapped)
    } else if !task_known {
        Err(MemError::NoSuchTask)
    } else {
        match witness {
            Err(error) => Err(error),
            Ok(outcome) => Ok(
                (
                    KeyModel { scope, declared_write, span, pages: walked_pages(walk) },
                    outcome,
                ),
            ),
        }
    }
}

/// What an observation of a range amounts to.
pub fn observe(
    span: BufferReadSpan,
    scope: u64,
    declared_write: u64,
    walk: &Vec<Option<u64>>,
    task_known: bool,
    witness: Result<GatherOutcome, MemError>,
) -> (seen: Result<(Key, GatherOutcome), MemError>)
    requires
        span.page_shift < 64 ==> span.gva as int % pow2(span.page_shift as nat) as int + span.len
            <= u64::MAX,
    ensures
        match observation(span, scope, declared_write, walk@, task_known, witness) {
            Err(error) => seen matches Err(e) && e == error,
            Ok((key, outcome)) => seen matches Ok((k, o)) && k@ == key && o == outcome,
        },
{
    let count: u64 = match page_count(span) {
        Ok(count) => count,
        Err(error) => {
            return Err(error);
        },
    };
    proof {
        lemma_pages_touched_bound(span);
    }
    let mut pages: Vec<u64> = Vec::new();
    let mut n: usize = 0;
    while n < walk.len()
        invariant
            0 <= n <= walk@.len(),
            pages@.len() == n,
            span.page_shift < 64,
            forall|k: int| 0 <= k < n ==> (#[trigger] walk@[k]) is Some && pages@[k] == walk@[k]->0,
        decreases walk@.len() - n,
    {
        match walk[n] {
            Some(page) => {
                pages.push(page);
            },
            None => {
                assert(walk@[n as int] is None);
                return Err(MemError::Unmapped);
            },
        }
        n += 1;
    }
    if pages.len() as u64 != count {
        return Err(MemError::Unmapped);
    }
    if !task_known {
        return Err(MemError::NoSuchTask);
    }
    assert(pages@ =~= walked_pages(walk@));
    match witness {
        Err(error) => Err(error),
        Ok(outcome) => Ok((Key { scope, declared_write, span, pages }, outcome)),
    }
}

proof fn lemma_pages_touched_bound(span: BufferReadSpan)
    requires
        span.page_shift < 64,
        span.gva as int % pow2(span.page_shift as nat) as int + span.len <= u64::MAX,
    ensures
        0 <= pages_touched(span) <= u64::MAX,
{
    let size = pow2(span.page_shift as nat) as int;
    vstd::arithmetic::power2::lemma_pow2_pos(span.page_shift as nat);
    let b = span.gva as int % size + span.len;
    assert(0 <= (b + size - 1) / size <= b) by (nonlinear_arith)
        requires
            size >= 1,
            b >= 0,
    ;
}

/// A range touches the pages that are counted for it: every byte of it is on one of
/// them, counted from the page of its first byte, and the last of them has a byte
/// of it.
pub proof fn law_a_range_is_on_the_pages_it_touches(span: BufferReadSpan, byte: int)
    requires
        span.len > 0,
        span.gva <= byte < span.gva + span.len,
    ensures
        ({
            let size = pow2(span.page_shift as nat) as int;
            let first = span.gva as int / size;
            &&& first <= byte / size < first + pages_touched(span)
            &&& (span.gva + span.len - 1) / size == first + pages_touched(span) - 1
        }),
{
    let size = pow2(span.page_shift as nat) as int;
    vstd::arithmetic::power2::lemma_pow2_pos(span.page_shift as nat);
    let gva = span.gva as int;
    let first = gva / size;
    let within = gva % size;
    let last = gva + span.len - 1;
    vstd::arithmetic::div_mod::lemma_fundamental_div_mod(gva, size);
    vstd::arithmetic::div_mod::lemma_hoist_over_denominator(
        within + span.len - 1,
        first,
        size as nat,
    );
    assert(last == first * size + (within + span.len - 1)) by (nonlinear_arith)
        requires
            gva == size * first + within,
            last == gva + span.len - 1,
    ;
    vstd::arithmetic::div_mod::lemma_add_mod_noop(0, 0, size);
    assert((within + span.len + size - 1) / size == (within + span.len - 1) / size + 1) by {
        vstd::arithmetic::div_mod::lemma_hoist_over_denominator(
            within + span.len - 1,
            1,
            size as nat,
        );
    }
    vstd::arithmetic::div_mod::lemma_div_is_ordered(gva, byte, size);
    vstd::arithmetic::div_mod::lemma_div_is_ordered(byte, last, size);
}

/// A range is observed exactly when its page size fits, the walk found as many pages
/// as it touches and no hole, its task is known and the witness answered; what is
/// observed then is that very range, with the pages in the order of the walk.
pub proof fn law_an_observation_is_of_every_page(
    span: BufferReadSpan,
    scope: u64,
    declared_write: u64,
    walk: Seq<Option<u64>>,
    task_known: bool,
    witness: Result<GatherOutcome, MemError>,
)
    ensures
        observation(span, scope, declared_write, walk, task_known, witness) is Ok <==> {
            &&& span.page_shift < 64
            &&& walk.len() == pages_touched(span)
            &&& forall|k: int| 0 <= k < walk.len() ==> (#[trigger] walk[k]) is Some
            &&& task_known
            &&& witness is Ok
        },
        observation(span, scope, declared_write, walk, task_known, witness) matches Ok(seen) ==> {
            &&& seen.0.scope == scope
            &&& seen.0.declared_write == declared_write
            &&& seen.0.span == span
            &&& seen.0.pages.len() == walk.len()
            &&& forall|k: int|
                0 <= k < walk.len() ==> Some(#[trigger] seen.0.pages[k]) == walk[k]
            &&& seen.1 == witness->Ok_0
        },
        observation(span, scope, declared_write, walk, task_known, witness) matches Err(error) ==> {
            &&& error == MemError::UnsupportedPageShift || span.page_shift < 64
            &&& span.page_shift >= 64 ==> error == MemError::UnsupportedPageShift
            &&& span.page_shift < 64 && complete(walk) && walk.len() == pages_touched(span)
                && task_known ==> witness == Err::<GatherOutcome, MemError>(error)
            &&& span.page_shift < 64 && !(complete(walk) && walk.len() == pages_touched(span))
                ==> error == MemError::Unmapped
            &&& span.page_shift < 64 && complete(walk) && walk.len() == pages_touched(span)
                && !task_known ==> error == MemError::NoSuchTask
        },
{
}

} // verus!
