//! Buffer ranges, and when one lies inside another.
use vstd::prelude::*;

verus! {

/// A buffer object's allocation.
#[derive(Clone, Copy, Debug, PartialEq, Eq, Structural)]
pub struct BufferBacking {
    pub gva: u64,
    pub size: u64,
}

/// A checked range of a buffer: `len` bytes at `offset` into the allocation,
/// which is the guest address `gva`.
#[derive(Clone, Copy, Debug, PartialEq, Eq, Structural)]
pub struct BufferReadSpan {
    pub task: u32,
    pub backing: BufferBacking,
    pub page_shift: u32,
    pub gva: u64,
    pub offset: u64,
    pub len: usize,
}

/// Two ranges belong to the same allocation of the same task.
pub open spec fn same_allocation(a: BufferReadSpan, b: BufferReadSpan) -> bool {
    a.task == b.task && a.backing == b.backing && a.page_shift == b.page_shift
}

/// `inner` lies inside `outer`, by offset and by address alike.
pub open spec fn contained(outer: BufferReadSpan, inner: BufferReadSpan) -> bool {
    &&& same_allocation(outer, inner)
    &&& outer.offset <= inner.offset
    &&& outer.gva + (inner.offset - outer.offset) == inner.gva
    &&& (inner.offset - outer.offset) + inner.len <= outer.len
}

/// How far into `outer` a contained range begins.
pub fn contained_offset(outer: BufferReadSpan, inner: BufferReadSpan) -> (delta: Option<usize>)
    ensures
        delta == if contained(outer, inner) {
            Some((inner.offset - outer.offset) as usize)
        } else {
            None
        },
        contained(outer, inner) ==> inner.offset - outer.offset <= usize::MAX,
{
    if outer.task != inner.task || outer.backing != inner.backing || outer.page_shift
        != inner.page_shift {
        return None;
    }
    if inner.offset < outer.offset {
        return None;
    }
    let delta: u64 = inner.offset - outer.offset;
    match outer.gva.checked_add(delta) {
        None => {
            return None;
        },
        Some(gva) => {
            if gva != inner.gva {
                return None;
            }
        },
    }
    match delta.checked_add(inner.len as u64) {
        None => {
            return None;
        },
        Some(end) => {
            if end > outer.len as u64 {
                return None;
            }
        },
    }
    Some(delta as usize)
}

/// A range inside a range inside a third is inside the third, and the offsets
/// add up.
pub proof fn law_containment_composes(
    outer: BufferReadSpan,
    middle: BufferReadSpan,
    inner: BufferReadSpan,
)
    requires
        contained(outer, middle),
        contained(middle, inner),
    ensures
        contained(outer, inner),
        inner.offset - outer.offset == (inner.offset - middle.offset) + (middle.offset
            - outer.offset),
{
}

/// Every range contains itself, and two ranges that contain each other are one.
pub proof fn law_containment_is_an_order(a: BufferReadSpan, b: BufferReadSpan)
    ensures
        contained(a, a),
        contained(a, b) && contained(b, a) ==> a == b,
{
}

/// One range lies inside another exactly when both are of one allocation, both map
/// it at the same place, and the inner begins no earlier and ends no later.
pub proof fn law_contained_bytes_are_the_same_bytes(outer: BufferReadSpan, inner: BufferReadSpan)
    ensures
        contained(outer, inner) <==> {
            &&& outer.task == inner.task
            &&& outer.backing.gva == inner.backing.gva && outer.backing.size == inner.backing.size
            &&& outer.page_shift == inner.page_shift
            &&& inner.gva - inner.offset == outer.gva - outer.offset
            &&& outer.gva <= inner.gva
            &&& inner.gva + inner.len <= outer.gva + outer.len
        },
{
}

} // verus!
