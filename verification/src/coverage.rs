//! Byte coverage of guest page lists.
//!
//! A page list is turned into canonical spans: half-open byte ranges in
//! ascending order that neither overlap nor touch. Two canonical lists are then
//! compared byte by byte, whatever page size each one came from.
use vstd::arithmetic::power2::is_pow2;
use vstd::prelude::*;
use vstd::seq_lib::{seq_to_set_is_finite, to_multiset_contains};
use vstd::set_lib::*;

verus! {

/// `x` lies in the half-open range.
pub open spec fn within(span: (u64, u64), x: int) -> bool {
    span.0 <= x < span.1
}

/// `x` lies in the page of `size` bytes that starts at `page`.
pub open spec fn in_page(page: u64, size: u64, x: int) -> bool {
    page <= x < page + size
}

/// Every byte that some span holds.
pub open spec fn covered(spans: Seq<(u64, u64)>) -> Set<int> {
    Set::new(|x: int| exists|k: int| 0 <= k < spans.len() && #[trigger] within(spans[k], x))
}

/// Every byte that some page holds.
pub open spec fn page_set(pages: Seq<u64>, size: u64) -> Set<int> {
    Set::new(|x: int| exists|k: int| 0 <= k < pages.len() && #[trigger] in_page(pages[k], size, x))
}

/// Spans are non-empty, ascending, and separated by at least one byte.
pub open spec fn canonical(spans: Seq<(u64, u64)>) -> bool {
    &&& forall|k: int| 0 <= k < spans.len() ==> (#[trigger] spans[k]).0 < spans[k].1
    &&& forall|i: int, j: int|
        0 <= i < j < spans.len() ==> (#[trigger] spans[i]).1 < (#[trigger] spans[j]).0
}

/// A page list whose bytes are known: at least one page, a power-of-two size,
/// every page aligned to it and ending inside the address space.
pub open spec fn admissible(pages: Seq<u64>, size: u64) -> bool {
    &&& pages.len() > 0
    &&& is_pow2(size as int)
    &&& forall|k: int|
        0 <= k < pages.len() ==> (#[trigger] pages[k]) as int % size as int == 0 && pages[k] + size
            <= u64::MAX
}

/// Whether `n` is a power of two.
pub fn power_of_two(n: u64) -> (r: bool)
    ensures
        r == is_pow2(n as int),
{
    if n == 0 {
        proof {
            reveal(is_pow2);
        }
        return false;
    }
    let mut rest: u64 = n;
    while rest % 2 == 0
        invariant
            rest > 0,
            is_pow2(rest as int) == is_pow2(n as int),
        decreases rest,
    {
        proof {
            reveal(is_pow2);
        }
        rest = rest / 2;
    }
    proof {
        reveal(is_pow2);
    }
    rest == 1
}

/// `slice::sort_unstable` on integers: the same values, in ascending order.
#[verifier::external_body]
fn sort_ascending(values: &mut Vec<u64>)
    ensures
        final(values)@.to_multiset() == old(values)@.to_multiset(),
        forall|i: int, j: int|
            0 <= i <= j < final(values)@.len() ==> final(values)@[i] <= final(values)@[j],
{
    values.sort_unstable();
}

proof fn lemma_page_set_of_same_values(a: Seq<u64>, b: Seq<u64>, size: u64)
    requires
        a.to_multiset() == b.to_multiset(),
    ensures
        a.len() == b.len(),
        forall|x: u64| a.contains(x) == b.contains(x),
        page_set(a, size) == page_set(b, size),
{
    a.to_multiset_ensures();
    b.to_multiset_ensures();
    assert forall|x: u64| a.contains(x) == b.contains(x) by {
        to_multiset_contains(a, x);
        to_multiset_contains(b, x);
    }
    assert forall|x: int| page_set(a, size).contains(x) == page_set(b, size).contains(x) by {
        if page_set(a, size).contains(x) {
            let k = choose|k: int| 0 <= k < a.len() && #[trigger] in_page(a[k], size, x);
            assert(b.contains(a[k]));
            let m = choose|m: int| 0 <= m < b.len() && b[m] == a[k];
            assert(in_page(b[m], size, x));
        }
        if page_set(b, size).contains(x) {
            let k = choose|k: int| 0 <= k < b.len() && #[trigger] in_page(b[k], size, x);
            assert(a.contains(b[k]));
            let m = choose|m: int| 0 <= m < a.len() && a[m] == b[k];
            assert(in_page(a[m], size, x));
        }
    }
    assert(page_set(a, size) =~= page_set(b, size));
}

proof fn lemma_page_set_step(pages: Seq<u64>, size: u64, i: int)
    requires
        0 <= i < pages.len(),
    ensures
        page_set(pages.take(i + 1), size) == page_set(pages.take(i), size).union(
            set_int_range(pages[i] as int, pages[i] + size),
        ),
{
    let before = pages.take(i);
    let after = pages.take(i + 1);
    assert forall|x: int|
        page_set(after, size).contains(x) == (page_set(before, size).contains(x)
            || set_int_range(pages[i] as int, pages[i] + size).contains(x)) by {
        if page_set(after, size).contains(x) {
            let k = choose|k: int| 0 <= k < after.len() && #[trigger] in_page(after[k], size, x);
            if k < i {
                assert(in_page(before[k], size, x));
            }
        }
        if page_set(before, size).contains(x) {
            let k = choose|k: int| 0 <= k < before.len() && #[trigger] in_page(before[k], size, x);
            assert(in_page(after[k], size, x));
        }
        if set_int_range(pages[i] as int, pages[i] + size).contains(x) {
            assert(in_page(after[i], size, x));
        }
    }
    assert(page_set(after, size) =~= page_set(before, size).union(
        set_int_range(pages[i] as int, pages[i] + size),
    ));
}

proof fn lemma_covered_push(spans: Seq<(u64, u64)>, span: (u64, u64))
    ensures
        covered(spans.push(span)) == covered(spans).union(
            set_int_range(span.0 as int, span.1 as int),
        ),
{
    let after = spans.push(span);
    assert forall|x: int|
        covered(after).contains(x) == (covered(spans).contains(x) || set_int_range(
            span.0 as int,
            span.1 as int,
        ).contains(x)) by {
        if covered(after).contains(x) {
            let k = choose|k: int| 0 <= k < after.len() && #[trigger] within(after[k], x);
            if k < spans.len() {
                assert(within(spans[k], x));
            }
        }
        if covered(spans).contains(x) {
            let k = choose|k: int| 0 <= k < spans.len() && #[trigger] within(spans[k], x);
            assert(within(after[k], x));
        }
        if set_int_range(span.0 as int, span.1 as int).contains(x) {
            assert(within(after[spans.len() as int], x));
        }
    }
    assert(covered(after) =~= covered(spans).union(set_int_range(span.0 as int, span.1 as int)));
}

/// The bytes of a page list as canonical spans, or nothing when the list does
/// not say which bytes it holds.
pub fn byte_spans(pages: &[u64], page_bytes: u64) -> (spans: Option<Vec<(u64, u64)>>)
    ensures
        spans is Some <==> admissible(pages@, page_bytes),
        spans matches Some(s) ==> {
            &&& s@.len() > 0
            &&& canonical(s@)
            &&& covered(s@) == page_set(pages@, page_bytes)
        },
{
    if pages.len() == 0 || !power_of_two(page_bytes) {
        return None;
    }
    proof {
        reveal(is_pow2);
    }
    let mut starts: Vec<u64> = Vec::with_capacity(pages.len());
    let mut n: usize = 0;
    while n < pages.len()
        invariant
            0 <= n <= pages.len(),
            page_bytes > 0,
            starts@ == pages@.take(n as int),
            forall|k: int|
                0 <= k < n ==> (#[trigger] pages@[k]) as int % page_bytes as int == 0 && pages@[k]
                    + page_bytes <= u64::MAX,
        decreases pages.len() - n,
    {
        let page: u64 = pages[n];
        if page % page_bytes != 0 || page > u64::MAX - page_bytes {
            return None;
        }
        starts.push(page);
        assert(pages@.take(n + 1) =~= pages@.take(n as int).push(page));
        n += 1;
    }
    assert(pages@.take(n as int) =~= pages@);
    sort_ascending(&mut starts);
    proof {
        lemma_page_set_of_same_values(starts@, pages@, page_bytes);
    }
    assert forall|k: int| 0 <= k < starts@.len() implies (#[trigger] starts@[k]) + page_bytes
        <= u64::MAX by {
        assert(pages@.contains(starts@[k]));
        let m = choose|m: int| 0 <= m < pages@.len() && pages@[m] == starts@[k];
        assert(pages@[m] + page_bytes <= u64::MAX);
    }
    let first: u64 = starts[0];
    let mut merged: Vec<(u64, u64)> = Vec::with_capacity(starts.len());
    merged.push((first, first + page_bytes));
    proof {
        lemma_covered_push(Seq::empty(), (first, (first + page_bytes) as u64));
        lemma_page_set_step(starts@, page_bytes, 0);
        assert(covered(Seq::empty()) =~= Set::empty());
        assert(page_set(starts@.take(0), page_bytes) =~= Set::empty());
        assert(Seq::<(u64, u64)>::empty().push((first, (first + page_bytes) as u64)) =~= merged@);
    }
    let mut i: usize = 1;
    while i < starts.len()
        invariant
            1 <= i <= starts.len(),
            page_bytes > 0,
            forall|k: int|
                0 <= k < starts@.len() ==> (#[trigger] starts@[k]) + page_bytes <= u64::MAX,
            forall|a: int, b: int| 0 <= a <= b < starts@.len() ==> starts@[a] <= starts@[b],
            merged@.len() > 0,
            canonical(merged@),
            merged@.last().0 <= starts@[i - 1],
            merged@.last().1 == starts@[i - 1] + page_bytes,
            covered(merged@) == page_set(starts@.take(i as int), page_bytes),
        decreases starts.len() - i,
    {
        let start: u64 = starts[i];
        let end: u64 = start + page_bytes;
        let ghost before = merged@;
        let at: usize = merged.len() - 1;
        let previous: (u64, u64) = merged[at];
        proof {
            lemma_page_set_step(starts@, page_bytes, i as int);
            assert(starts@[i - 1] <= starts@[i as int]);
        }
        if start <= previous.1 {
            let joined: u64 = if previous.1 < end {
                end
            } else {
                previous.1
            };
            merged.set(at, (previous.0, joined));
            proof {
                let kept = before.take(at as int);
                assert(before =~= kept.push(previous));
                assert(merged@ =~= kept.push((previous.0, joined)));
                lemma_covered_push(kept, previous);
                lemma_covered_push(kept, (previous.0, joined));
                assert(set_int_range(previous.0 as int, joined as int) =~= set_int_range(
                    previous.0 as int,
                    previous.1 as int,
                ).union(set_int_range(start as int, start + page_bytes)));
                assert(covered(merged@) =~= page_set(starts@.take(i + 1), page_bytes));
            }
        } else {
            merged.push((start, end));
            proof {
                lemma_covered_push(before, (start, end));
            }
        }
        i += 1;
    }
    assert(starts@.take(i as int) =~= starts@);
    Some(merged)
}

/// The length of the range that two spans share.
pub open spec fn shared(a: (u64, u64), b: (u64, u64)) -> nat {
    let start = if a.0 < b.0 { b.0 } else { a.0 };
    let end = if a.1 < b.1 { a.1 } else { b.1 };
    if start < end { (end - start) as nat } else { 0 }
}

/// Shared lengths summed along the pairwise walk that always steps past the
/// span that ends first.
pub open spec fn walked(a: Seq<(u64, u64)>, b: Seq<(u64, u64)>, i: int, j: int) -> nat
    decreases (a.len() - i) + (b.len() - j),
{
    if i < 0 || j < 0 || i >= a.len() || j >= b.len() {
        0
    } else if a[i].1 <= b[j].1 {
        shared(a[i], b[j]) + walked(a, b, i + 1, j)
    } else {
        shared(a[i], b[j]) + walked(a, b, i, j + 1)
    }
}

/// Bytes that both span lists hold.
pub open spec fn common(a: Seq<(u64, u64)>, b: Seq<(u64, u64)>) -> Set<int> {
    covered(a).intersect(covered(b))
}

proof fn lemma_covered_head(spans: Seq<(u64, u64)>)
    requires
        spans.len() > 0,
    ensures
        covered(spans) == covered(spans.skip(1)).union(
            set_int_range(spans[0].0 as int, spans[0].1 as int),
        ),
{
    let rest = spans.skip(1);
    let head = set_int_range(spans[0].0 as int, spans[0].1 as int);
    assert forall|x: int|
        covered(spans).contains(x) == (covered(rest).contains(x) || head.contains(x)) by {
        if covered(spans).contains(x) {
            let k = choose|k: int| 0 <= k < spans.len() && #[trigger] within(spans[k], x);
            if k > 0 {
                assert(within(rest[k - 1], x));
            }
        }
        if covered(rest).contains(x) {
            let k = choose|k: int| 0 <= k < rest.len() && #[trigger] within(rest[k], x);
            assert(within(spans[k + 1], x));
        }
        if head.contains(x) {
            assert(within(spans[0], x));
        }
    }
    assert(covered(spans) =~= covered(rest).union(head));
}

proof fn lemma_covered_bounds(spans: Seq<(u64, u64)>)
    requires
        canonical(spans),
    ensures
        forall|x: int| #[trigger]
            covered(spans).contains(x) ==> spans.len() > 0 && spans[0].0 <= x < u64::MAX,
        covered(spans).finite(),
        covered(spans).len() <= u64::MAX,
{
    assert forall|x: int| #[trigger] covered(spans).contains(x) implies spans.len() > 0
        && spans[0].0 <= x < u64::MAX by {
        let k = choose|k: int| 0 <= k < spans.len() && #[trigger] within(spans[k], x);
        if k > 0 {
            assert(spans[0].1 < spans[k].0);
            assert(spans[0].0 < spans[0].1);
        }
    }
    let all = set_int_range(0, u64::MAX as int);
    lemma_int_range(0, u64::MAX as int);
    assert(covered(spans).subset_of(all));
    lemma_set_subset_finite(all, covered(spans));
    lemma_len_subset(covered(spans), all);
}

proof fn lemma_canonical_skip(spans: Seq<(u64, u64)>)
    requires
        canonical(spans),
        spans.len() > 0,
    ensures
        canonical(spans.skip(1)),
        covered(spans.skip(1)).finite(),
        forall|x: int| #[trigger] covered(spans.skip(1)).contains(x) ==> spans[0].1 < x,
{
    let rest = spans.skip(1);
    assert(canonical(rest)) by {
        assert forall|k: int| 0 <= k < rest.len() implies (#[trigger] rest[k]).0 < rest[k].1 by {
            assert(rest[k] == spans[k + 1]);
        }
        assert forall|i: int, j: int| 0 <= i < j < rest.len() implies (#[trigger] rest[i]).1 < (
        #[trigger] rest[j]).0 by {
            assert(rest[i] == spans[i + 1] && rest[j] == spans[j + 1]);
        }
    }
    lemma_covered_bounds(rest);
    assert forall|x: int| #[trigger] covered(rest).contains(x) implies spans[0].1 < x by {
        assert(rest[0] == spans[1]);
        assert(spans[0].1 < spans[1].0);
    }
}

proof fn lemma_head_meets(a: Seq<(u64, u64)>, b: Seq<(u64, u64)>)
    requires
        canonical(a),
        canonical(b),
        a.len() > 0,
        b.len() > 0,
        a[0].1 <= b[0].1,
    ensures
        common(a, b).finite(),
        common(a, b).len() == shared(a[0], b[0]) + common(a.skip(1), b).len(),
{
    let start = if a[0].0 < b[0].0 { b[0].0 } else { a[0].0 };
    let piece = if start < a[0].1 {
        set_int_range(start as int, a[0].1 as int)
    } else {
        Set::empty()
    };
    lemma_covered_head(a);
    lemma_covered_head(b);
    lemma_canonical_skip(a);
    lemma_canonical_skip(b);
    lemma_covered_bounds(a);
    lemma_covered_bounds(b);
    if start < a[0].1 {
        lemma_int_range(start as int, a[0].1 as int);
    }
    let rest = common(a.skip(1), b);
    assert(a[0].0 < a[0].1 && b[0].0 < b[0].1);
    assert forall|x: int| common(a, b).contains(x) == (piece.contains(x) || rest.contains(x)) by {
        if common(a, b).contains(x) && !rest.contains(x) {
            assert(a[0].0 <= x < a[0].1);
            assert(!covered(b.skip(1)).contains(x));
        }
    }
    assert(common(a, b) =~= piece + rest);
    assert(piece.disjoint(rest)) by {
        assert forall|x: int| piece.contains(x) implies !rest.contains(x) by {
            assert(!covered(a.skip(1)).contains(x));
        }
    }
    lemma_set_disjoint_lens(piece, rest);
}

proof fn lemma_common_symmetric(a: Seq<(u64, u64)>, b: Seq<(u64, u64)>)
    ensures
        common(a, b) == common(b, a),
{
    assert(common(a, b) =~= common(b, a));
}

proof fn lemma_walk_counts(a: Seq<(u64, u64)>, b: Seq<(u64, u64)>, i: int, j: int)
    requires
        canonical(a),
        canonical(b),
        0 <= i <= a.len(),
        0 <= j <= b.len(),
    ensures
        canonical(a.skip(i)),
        canonical(b.skip(j)),
        walked(a, b, i, j) == common(a.skip(i), b.skip(j)).len(),
    decreases (a.len() - i) + (b.len() - j),
{
    let x = a.skip(i);
    let y = b.skip(j);
    assert(canonical(x)) by {
        assert forall|k: int| 0 <= k < x.len() implies (#[trigger] x[k]).0 < x[k].1 by {
            assert(x[k] == a[k + i]);
        }
        assert forall|m: int, n: int| 0 <= m < n < x.len() implies (#[trigger] x[m]).1 < (
        #[trigger] x[n]).0 by {
            assert(x[m] == a[m + i] && x[n] == a[n + i]);
        }
    }
    assert(canonical(y)) by {
        assert forall|k: int| 0 <= k < y.len() implies (#[trigger] y[k]).0 < y[k].1 by {
            assert(y[k] == b[k + j]);
        }
        assert forall|m: int, n: int| 0 <= m < n < y.len() implies (#[trigger] y[m]).1 < (
        #[trigger] y[n]).0 by {
            assert(y[m] == b[m + j] && y[n] == b[n + j]);
        }
    }
    if i >= a.len() || j >= b.len() {
        assert(common(x, y) =~= Set::empty());
    } else {
        assert(x[0] == a[i] && y[0] == b[j]);
        if a[i].1 <= b[j].1 {
            assert(x.skip(1) =~= a.skip(i + 1));
            lemma_walk_counts(a, b, i + 1, j);
            lemma_head_meets(x, y);
        } else {
            assert(y.skip(1) =~= b.skip(j + 1));
            lemma_walk_counts(a, b, i, j + 1);
            lemma_head_meets(y, x);
            lemma_common_symmetric(x, y);
            lemma_common_symmetric(x, y.skip(1));
        }
    }
}

/// How many bytes two span lists share. For canonical lists this is the number
/// of common bytes and always exists; on any other lists it is the sum along
/// the walk, refused when it does not fit.
pub fn overlap_bytes(a: &[(u64, u64)], b: &[(u64, u64)]) -> (bytes: Option<u64>)
    ensures
        bytes == if walked(a@, b@, 0, 0) <= u64::MAX {
            Some(walked(a@, b@, 0, 0) as u64)
        } else {
            None
        },
        canonical(a@) && canonical(b@) ==> bytes == Some(common(a@, b@).len() as u64) && common(
            a@,
            b@,
        ).len() <= u64::MAX,
{
    let mut i: usize = 0;
    let mut j: usize = 0;
    let mut bytes: u64 = 0;
    proof {
        if canonical(a@) && canonical(b@) {
            lemma_walk_counts(a@, b@, 0, 0);
            assert(a@.skip(0) =~= a@ && b@.skip(0) =~= b@);
            lemma_covered_bounds(a@);
            lemma_len_intersect(covered(a@), covered(b@));
        }
    }
    while i < a.len() && j < b.len()
        invariant
            0 <= i <= a.len(),
            0 <= j <= b.len(),
            bytes + walked(a@, b@, i as int, j as int) == walked(a@, b@, 0, 0),
            canonical(a@) && canonical(b@) ==> walked(a@, b@, 0, 0) <= u64::MAX,
        decreases (a.len() - i) + (b.len() - j),
    {
        let left: (u64, u64) = a[i];
        let right: (u64, u64) = b[j];
        let start: u64 = if left.0 < right.0 {
            right.0
        } else {
            left.0
        };
        let end: u64 = if left.1 < right.1 {
            left.1
        } else {
            right.1
        };
        match bytes.checked_add(end.saturating_sub(start)) {
            Some(sum) => {
                bytes = sum;
            },
            None => {
                return None;
            },
        }
        if left.1 <= right.1 {
            i += 1;
        } else {
            j += 1;
        }
    }
    Some(bytes)
}

/// The summed length of a span list.
pub open spec fn total(spans: Seq<(u64, u64)>) -> int
    decreases spans.len(),
{
    if spans.len() == 0 {
        0
    } else {
        total(spans.drop_last()) + (spans.last().1 - spans.last().0)
    }
}

proof fn lemma_total_counts(spans: Seq<(u64, u64)>)
    requires
        canonical(spans),
    ensures
        total(spans) == covered(spans).len(),
        total(spans) <= u64::MAX,
    decreases spans.len(),
{
    lemma_covered_bounds(spans);
    if spans.len() == 0 {
        assert(covered(spans) =~= Set::empty());
    } else {
        let kept = spans.drop_last();
        let last = spans.last();
        assert(canonical(kept)) by {
            assert forall|k: int| 0 <= k < kept.len() implies (#[trigger] kept[k]).0
                < kept[k].1 by {
                assert(kept[k] == spans[k]);
            }
            assert forall|i: int, j: int| 0 <= i < j < kept.len() implies (#[trigger] kept[i]).1 < (
            #[trigger] kept[j]).0 by {
                assert(kept[i] == spans[i] && kept[j] == spans[j]);
            }
        }
        lemma_total_counts(kept);
        lemma_covered_bounds(kept);
        let piece = set_int_range(last.0 as int, last.1 as int);
        assert(last == spans[spans.len() - 1]);
        lemma_int_range(last.0 as int, last.1 as int);
        lemma_covered_push(kept, last);
        assert(kept.push(last) =~= spans);
        assert(covered(kept).disjoint(piece)) by {
            assert forall|x: int| covered(kept).contains(x) implies !piece.contains(x) by {
                let k = choose|k: int| 0 <= k < kept.len() && #[trigger] within(kept[k], x);
                assert(kept[k] == spans[k]);
                assert(spans[k].1 < spans[spans.len() - 1].0);
            }
        }
        assert(covered(spans) =~= covered(kept) + piece);
        lemma_set_disjoint_lens(covered(kept), piece);
    }
}

/// No span ends before it begins.
pub open spec fn forward(spans: Seq<(u64, u64)>) -> bool {
    forall|k: int| 0 <= k < spans.len() ==> (#[trigger] spans[k]).0 <= spans[k].1
}

proof fn lemma_total_rises(spans: Seq<(u64, u64)>, n: int)
    requires
        forward(spans),
        0 <= n <= spans.len(),
    ensures
        0 <= total(spans.take(n)) <= total(spans),
    decreases spans.len(),
{
    if n == spans.len() {
        assert(spans.take(n) =~= spans);
    }
    if spans.len() > 0 {
        let kept = spans.drop_last();
        assert forall|k: int| 0 <= k < kept.len() implies (#[trigger] kept[k]).0 <= kept[k].1 by {
            assert(kept[k] == spans[k]);
        }
        assert(spans.last() == spans[spans.len() - 1]);
        if n < spans.len() {
            lemma_total_rises(kept, n);
            assert(kept.take(n) =~= spans.take(n));
        } else {
            lemma_total_rises(kept, kept.len() as int);
        }
    }
}

/// The spans of a canonical list add up to the bytes it covers.
pub proof fn law_canonical_spans_add_up(spans: Seq<(u64, u64)>)
    requires
        canonical(spans),
    ensures
        forward(spans),
        total(spans) == covered(spans).len(),
        total(spans) <= u64::MAX,
{
    lemma_total_counts(spans);
}

/// The summed length of a span list.
pub fn total_bytes(spans: &[(u64, u64)]) -> (bytes: u64)
    requires
        forward(spans@),
        total(spans@) <= u64::MAX,
    ensures
        bytes == total(spans@),
{
    let mut bytes: u64 = 0;
    let mut n: usize = 0;
    while n < spans.len()
        invariant
            0 <= n <= spans.len(),
            forward(spans@),
            total(spans@) <= u64::MAX,
            bytes == total(spans@.take(n as int)),
        decreases spans.len() - n,
    {
        proof {
            let next = spans@.take(n + 1);
            assert(next.drop_last() =~= spans@.take(n as int));
            lemma_total_rises(spans@, n + 1);
        }
        let span: (u64, u64) = spans[n];
        bytes = bytes + (span.1 - span.0);
        n += 1;
    }
    assert(spans@.take(n as int) =~= spans@);
    bytes
}

/// A recorded list of guest pages and the size they all have.
pub struct GuestPageFootprint {
    pub pages: Vec<u64>,
    pub page_size: u64,
}

/// A footprint that proves its bytes: known coverage, no page twice, and at
/// least `minimum` bytes, of which there is at least one.
pub open spec fn proves_coverage(pages: Seq<u64>, size: u64, minimum: u64) -> bool {
    &&& admissible(pages, size)
    &&& pages.no_duplicates()
    &&& minimum != 0
    &&& minimum <= pages.len() * size <= u64::MAX
}

proof fn lemma_aligned_apart(p: int, q: int, size: int)
    requires
        size > 0,
        p % size == 0,
        q % size == 0,
        p < q,
    ensures
        p + size <= q,
{
    vstd::arithmetic::div_mod::lemma_fundamental_div_mod(p, size);
    vstd::arithmetic::div_mod::lemma_fundamental_div_mod(q, size);
    let m = p / size;
    let n = q / size;
    assert(m < n) by (nonlinear_arith)
        requires
            size * m < size * n,
            size > 0,
    ;
    assert(size * m + size <= size * n) by (nonlinear_arith)
        requires
            m + 1 <= n,
            size > 0,
    ;
}

proof fn lemma_page_count(pages: Seq<u64>, size: u64)
    requires
        size > 0,
        forall|k: int| 0 <= k < pages.len() ==> (#[trigger] pages[k]) as int % size as int == 0,
    ensures
        page_set(pages, size).finite(),
        page_set(pages, size).len() == pages.to_set().len() * size,
    decreases pages.len(),
{
    broadcast use seq_to_set_is_finite;

    if pages.len() == 0 {
        assert(page_set(pages, size) =~= Set::empty());
        assert(pages.to_set() =~= Set::empty());
    } else {
        let i = pages.len() - 1;
        let kept = pages.take(i);
        let page = pages[i];
        let piece = set_int_range(page as int, page + size);
        lemma_page_count(kept, size);
        lemma_page_set_step(pages, size, i);
        lemma_int_range(page as int, page + size);
        assert(pages.take(i + 1) =~= pages);
        assert(pages.to_set() =~= kept.to_set().insert(page)) by {
            assert forall|x: u64| pages.to_set().contains(x) implies kept.to_set().insert(
                page,
            ).contains(x) by {
                let k = choose|k: int| 0 <= k < pages.len() && pages[k] == x;
                if k < i {
                    assert(kept[k] == x);
                }
            }
            assert forall|x: u64| kept.to_set().insert(page).contains(x) implies
                pages.to_set().contains(x) by {
                if x != page {
                    let k = choose|k: int| 0 <= k < kept.len() && kept[k] == x;
                    assert(pages[k] == x);
                } else {
                    assert(pages[i] == x);
                }
            }
        }
        if kept.contains(page) {
            let k = choose|k: int| 0 <= k < kept.len() && kept[k] == page;
            assert forall|x: int| piece.contains(x) implies page_set(kept, size).contains(x) by {
                assert(in_page(kept[k], size, x));
            }
            assert(page_set(pages, size) =~= page_set(kept, size));
            assert(kept.to_set().contains(page));
            assert(pages.to_set() =~= kept.to_set());
        } else {
            assert(!kept.to_set().contains(page));
            assert forall|x: int| page_set(kept, size).contains(x) implies !piece.contains(x) by {
                let k = choose|k: int| 0 <= k < kept.len() && #[trigger] in_page(kept[k], size, x);
                assert(kept[k] == pages[k]);
                if pages[k] < page {
                    lemma_aligned_apart(pages[k] as int, page as int, size as int);
                } else {
                    lemma_aligned_apart(page as int, pages[k] as int, size as int);
                }
            }
            assert(page_set(kept, size).disjoint(piece));
            assert(page_set(pages, size) =~= page_set(kept, size) + piece);
            lemma_set_disjoint_lens(page_set(kept, size), piece);
            assert(pages.to_set().len() == kept.to_set().len() + 1);
            let n = kept.to_set().len() as int;
            assert((n + 1) * (size as int) == n * (size as int) + size) by (nonlinear_arith);
        }
    }
}

/// The canonical spans of a footprint that proves at least `minimum` bytes.
pub fn covered_spans(footprint: &GuestPageFootprint, minimum: u64) -> (spans: Option<
    Vec<(u64, u64)>,
>)
    ensures
        spans is Some <==> proves_coverage(footprint.pages@, footprint.page_size, minimum),
        spans matches Some(s) ==> {
            &&& s@.len() > 0
            &&& canonical(s@)
            &&& covered(s@) == page_set(footprint.pages@, footprint.page_size)
        },
{
    let spans: Vec<(u64, u64)> = match byte_spans(
        footprint.pages.as_slice(),
        footprint.page_size,
    ) {
        Some(spans) => spans,
        None => {
            return None;
        },
    };
    let count: u64 = footprint.pages.len() as u64;
    let bytes: u64 = match count.checked_mul(footprint.page_size) {
        Some(bytes) => bytes,
        None => {
            return None;
        },
    };
    proof {
        law_canonical_spans_add_up(spans@);
    }
    let distinct: u64 = total_bytes(spans.as_slice());
    proof {
        let pages = footprint.pages@;
        let size = footprint.page_size;
        reveal(is_pow2);
        lemma_page_count(pages, size);
        let n = pages.to_set().len() as int;
        let m = pages.len() as int;
        pages.lemma_cardinality_of_set();
        if pages.no_duplicates() {
            pages.unique_seq_to_set();
        }
        if distinct == bytes {
            assert(n == m) by (nonlinear_arith)
                requires
                    n * (size as int) == m * (size as int),
                    size > 0,
            ;
            pages.lemma_no_dup_set_cardinality();
        }
    }
    if minimum != 0 && bytes >= minimum && distinct == bytes {
        Some(spans)
    } else {
        None
    }
}

/// The order in which two canonical span lists are compared does not matter.
pub proof fn law_overlap_is_symmetric(a: Seq<(u64, u64)>, b: Seq<(u64, u64)>)
    requires
        canonical(a),
        canonical(b),
    ensures
        walked(a, b, 0, 0) == walked(b, a, 0, 0),
{
    lemma_walk_counts(a, b, 0, 0);
    lemma_walk_counts(b, a, 0, 0);
    assert(a.skip(0) =~= a && b.skip(0) =~= b);
    lemma_common_symmetric(a, b);
}

/// Two canonical span lists overlap in no byte exactly when the sum along the
/// walk is zero.
pub proof fn law_zero_overlap_means_disjoint(a: Seq<(u64, u64)>, b: Seq<(u64, u64)>)
    requires
        canonical(a),
        canonical(b),
    ensures
        walked(a, b, 0, 0) == 0 <==> (forall|x: int|
            !(#[trigger] covered(a).contains(x) && covered(b).contains(x))),
{
    lemma_walk_counts(a, b, 0, 0);
    assert(a.skip(0) =~= a && b.skip(0) =~= b);
    lemma_covered_bounds(a);
    lemma_covered_bounds(b);
    if common(a, b).len() == 0 {
        common(a, b).lemma_len0_is_empty();
        assert forall|x: int| !(#[trigger] covered(a).contains(x) && covered(b).contains(x)) by {
            assert(!common(a, b).contains(x));
        }
    }
    if forall|x: int| !(#[trigger] covered(a).contains(x) && covered(b).contains(x)) {
        assert(common(a, b) =~= Set::empty());
    }
}

/// Canonical spans are a normal form: two lists that cover the same bytes are the
/// same list, whatever order and repetitions their pages came in.
pub proof fn law_canonical_spans_are_unique(a: Seq<(u64, u64)>, b: Seq<(u64, u64)>)
    requires
        canonical(a),
        canonical(b),
        covered(a) == covered(b),
    ensures
        a == b,
    decreases a.len(),
{
    lemma_covered_bounds(a);
    lemma_covered_bounds(b);
    if a.len() > 0 {
        assert(within(a[0], a[0].0 as int));
        assert(covered(a).contains(a[0].0 as int));
    }
    if b.len() > 0 {
        assert(within(b[0], b[0].0 as int));
        assert(covered(b).contains(b[0].0 as int));
    }
    if a.len() > 0 && b.len() > 0 {
        lemma_canonical_skip(a);
        lemma_canonical_skip(b);
        lemma_covered_head(a);
        lemma_covered_head(b);
        assert(!covered(a).contains(a[0].1 as int));
        assert(!covered(b).contains(b[0].1 as int));
        if a[0].1 < b[0].1 {
            assert(within(b[0], a[0].1 as int));
        }
        if b[0].1 < a[0].1 {
            assert(within(a[0], b[0].1 as int));
        }
        assert(a[0].0 == b[0].0 && a[0].1 == b[0].1);
        let x = covered(a.skip(1));
        let y = covered(b.skip(1));
        assert forall|byte: int| x.contains(byte) == y.contains(byte) by {
            let head = set_int_range(a[0].0 as int, a[0].1 as int);
            assert(covered(a).contains(byte) == (x.contains(byte) || head.contains(byte)));
            assert(covered(b).contains(byte) == (y.contains(byte) || head.contains(byte)));
        }
        assert(x =~= y);
        law_canonical_spans_are_unique(a.skip(1), b.skip(1));
        assert forall|k: int| 0 <= k < a.len() implies a[k] == b[k] by {
            if k > 0 {
                assert(a[k] == a.skip(1)[k - 1] && b[k] == b.skip(1)[k - 1]);
            }
        }
    }
    assert(a =~= b);
}

/// Pages that prove their coverage hold at least the bytes that were asked for: as
/// many as all of them together, for no byte is in two of them.
pub proof fn law_proved_pages_hold_the_minimum(pages: Seq<u64>, size: u64, minimum: u64)
    requires
        proves_coverage(pages, size, minimum),
    ensures
        page_set(pages, size).finite(),
        page_set(pages, size).len() == pages.len() * size,
        0 < minimum <= page_set(pages, size).len(),
        forall|k: int, x: int|
            #![trigger pages[k], page_set(pages, size).contains(x)]
            0 <= k < pages.len() && pages[k] <= x < pages[k] + size ==> page_set(
                pages,
                size,
            ).contains(x),
        forall|i: int, j: int|
            0 <= i < j < pages.len() ==> #[trigger] pages[i] + size <= #[trigger] pages[j]
                || pages[j] + size <= pages[i],
{
    if size == 0 {
        assert(pages.len() * size == 0) by (nonlinear_arith)
            requires
                size == 0,
        ;
    }
    lemma_page_count(pages, size);
    pages.unique_seq_to_set();
    assert forall|k: int, x: int|
        #![trigger pages[k], page_set(pages, size).contains(x)]
        0 <= k < pages.len() && pages[k] <= x < pages[k] + size implies page_set(
        pages,
        size,
    ).contains(x) by {
        assert(in_page(pages[k], size, x));
    }
    assert forall|i: int, j: int| 0 <= i < j < pages.len() implies #[trigger] pages[i] + size
        <= #[trigger] pages[j] || pages[j] + size <= pages[i] by {
        assert(pages[i] != pages[j]);
        if pages[i] < pages[j] {
            lemma_aligned_apart(pages[i] as int, pages[j] as int, size as int);
        } else {
            lemma_aligned_apart(pages[j] as int, pages[i] as int, size as int);
        }
    }
}

/// A page list proves its coverage exactly when it has pages, of a size that is a
/// power of two, each at a multiple of it and ending inside the address space, none
/// twice, and together as many bytes as were asked for, of which there is one.
pub proof fn law_a_page_list_proves_what_it_holds(pages: Seq<u64>, size: u64, minimum: u64)
    ensures
        proves_coverage(pages, size, minimum) <==> {
            &&& pages.len() > 0
            &&& is_pow2(size as int)
            &&& forall|k: int|
                0 <= k < pages.len() ==> (#[trigger] pages[k]) as int % (size as int) == 0
                    && pages[k] + size <= u64::MAX
            &&& forall|i: int, j: int|
                0 <= i < j < pages.len() ==> #[trigger] pages[i] != #[trigger] pages[j]
            &&& 0 < minimum <= pages.len() * size
            &&& pages.len() * size <= u64::MAX
        },
{
    if forall|i: int, j: int| 0 <= i < j < pages.len() ==> #[trigger] pages[i] != #[trigger] pages[j] {
        assert(pages.no_duplicates()) by {
            assert forall|i: int, j: int|
                0 <= i < pages.len() && 0 <= j < pages.len() && i != j implies pages[i]
                != pages[j] by {
                if j < i {
                    assert(pages[j] != pages[i]);
                }
            }
        }
    }
}

} // verus!
