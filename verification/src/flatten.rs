//! Arithmetic of the flattened, agent-indexed buffers.
//!
//! Per-worker results are concatenated worker-major, agent-minor: worker 0's
//! agents come first, then worker 1's, and so on, each worker contributing as
//! many entries as it has agents. The functions here fix that layout: the sum
//! of the per-worker agent counts, the offset at which a worker's segment
//! begins, and the worker that owns a given flat index.

use vstd::prelude::*;

verus! {

/// Sum of the per-worker agent counts: the total number of agents.
pub open spec fn sum_of(counts: Seq<usize>) -> int
    decreases counts.len(),
{
    if counts.len() == 0 {
        0
    } else {
        sum_of(counts.drop_last()) + counts.last()
    }
}

/// Index in the flattened buffers at which worker `i`'s segment begins.
pub open spec fn offset_of(counts: Seq<usize>, i: int) -> int {
    sum_of(counts.take(i))
}

/// The worker whose segment of the flattened buffers holds index `j`.
pub open spec fn worker_of(counts: Seq<usize>, j: int) -> int
    decreases counts.len(),
{
    if counts.len() == 0 {
        0
    } else if j < counts.first() {
        0
    } else {
        1 + worker_of(counts.drop_first(), j - counts.first())
    }
}

pub proof fn lemma_sum_of_nonneg(counts: Seq<usize>)
    ensures
        sum_of(counts) >= 0,
    decreases counts.len(),
{
    if counts.len() > 0 {
        lemma_sum_of_nonneg(counts.drop_last());
    }
}

/// The sum can also be peeled from the front.
pub proof fn lemma_sum_of_first(counts: Seq<usize>)
    requires
        counts.len() > 0,
    ensures
        sum_of(counts) == counts.first() + sum_of(counts.drop_first()),
    decreases counts.len(),
{
    if counts.len() == 1 {
        assert(counts.drop_first() =~= Seq::<usize>::empty());
        assert(counts.drop_last() =~= Seq::<usize>::empty());
    } else {
        lemma_sum_of_first(counts.drop_last());
        assert(counts.drop_last().drop_first() =~= counts.drop_first().drop_last());
        assert(sum_of(counts.drop_first()) == sum_of(counts.drop_first().drop_last())
            + counts.drop_first().last());
        assert(counts.drop_first().last() == counts.last());
        assert(counts.drop_last().first() == counts.first());
    }
}

/// The next prefix sum adds the next count.
pub proof fn lemma_sum_of_take_succ(counts: Seq<usize>, i: int)
    requires
        0 <= i < counts.len(),
    ensures
        sum_of(counts.take(i + 1)) == sum_of(counts.take(i)) + counts[i],
{
    assert(counts.take(i + 1).drop_last() =~= counts.take(i));
}

/// A cut at `i` splits the sum into the part before and the part from `i` on.
pub proof fn lemma_sum_of_split(counts: Seq<usize>, i: int)
    requires
        0 <= i <= counts.len(),
    ensures
        sum_of(counts) == sum_of(counts.take(i)) + sum_of(counts.skip(i)),
    decreases counts.len() - i,
{
    if i == counts.len() {
        assert(counts.take(i) =~= counts);
        assert(counts.skip(i) =~= Seq::<usize>::empty());
    } else {
        lemma_sum_of_split(counts, i + 1);
        lemma_sum_of_take_succ(counts, i);
        lemma_sum_of_first(counts.skip(i));
        assert(counts.skip(i).drop_first() =~= counts.skip(i + 1));
    }
}

/// Segment offsets grow with the worker index.
pub proof fn lemma_offset_of_monotone(counts: Seq<usize>, a: int, b: int)
    requires
        0 <= a <= b <= counts.len(),
    ensures
        offset_of(counts, a) <= offset_of(counts, b),
    decreases b - a,
{
    if a < b {
        lemma_offset_of_monotone(counts, a, b - 1);
        lemma_sum_of_take_succ(counts, b - 1);
    }
}

/// For a worker index past the first, the offset can be peeled from the front.
pub proof fn lemma_offset_of_drop_first(counts: Seq<usize>, i: int)
    requires
        1 <= i <= counts.len(),
    ensures
        offset_of(counts, i) == counts.first() + offset_of(counts.drop_first(), i - 1),
{
    lemma_sum_of_first(counts.take(i));
    assert(counts.take(i).drop_first() =~= counts.drop_first().take(i - 1));
}

/// Concatenation of per-worker parts, in worker order.
pub open spec fn concat_of<T>(parts: Seq<Seq<T>>) -> Seq<T>
    decreases parts.len(),
{
    if parts.len() == 0 {
        Seq::empty()
    } else {
        concat_of(parts.drop_last()) + parts.last()
    }
}

/// When worker `i` contributes `counts[i]` entries, the concatenation holds
/// exactly `sum_of(counts)` entries.
pub proof fn lemma_concat_of_count<T>(parts: Seq<Seq<T>>, counts: Seq<usize>)
    requires
        parts.len() == counts.len(),
        forall|i: int| 0 <= i < parts.len() ==> (#[trigger] parts[i]).len() == counts[i],
    ensures
        concat_of(parts).len() == sum_of(counts),
    decreases parts.len(),
{
    if parts.len() > 0 {
        lemma_concat_of_count(parts.drop_last(), counts.drop_last());
    }
}

/// The concatenation is worker-major, agent-minor: its entry at
/// `offset_of(counts, i) + k` is worker `i`'s entry `k`.
pub proof fn lemma_concat_of_entry<T>(parts: Seq<Seq<T>>, counts: Seq<usize>, i: int, k: int)
    requires
        parts.len() == counts.len(),
        forall|w: int| 0 <= w < parts.len() ==> (#[trigger] parts[w]).len() == counts[w],
        0 <= i < parts.len(),
        0 <= k < counts[i],
    ensures
        concat_of(parts)[offset_of(counts, i) + k] == parts[i][k],
    decreases parts.len(),
{
    lemma_concat_of_count(parts.drop_last(), counts.drop_last());
    if i == parts.len() - 1 {
        assert(counts.take(i) =~= counts.drop_last());
        lemma_sum_of_nonneg(counts.drop_last());
    } else {
        lemma_concat_of_entry(parts.drop_last(), counts.drop_last(), i, k);
        assert(counts.drop_last().take(i) =~= counts.take(i));
        lemma_offset_of_monotone(counts.drop_last(), i + 1, counts.len() - 1);
        lemma_sum_of_take_succ(counts.drop_last(), i);
        assert(counts.drop_last().take(counts.len() - 1) =~= counts.drop_last());
        lemma_sum_of_nonneg(counts.take(i));
    }
}

/// Every flat index inside worker `i`'s segment is owned by worker `i`.
pub proof fn lemma_worker_of_segment(counts: Seq<usize>, i: int, j: int)
    requires
        0 <= i < counts.len(),
        offset_of(counts, i) <= j < offset_of(counts, i) + counts[i],
    ensures
        worker_of(counts, j) == i,
    decreases i,
{
    if i == 0 {
        assert(counts.take(0) =~= Seq::<usize>::empty());
    } else {
        lemma_offset_of_drop_first(counts, i);
        lemma_sum_of_nonneg(counts.drop_first().take(i - 1));
        lemma_worker_of_segment(counts.drop_first(), i - 1, j - counts.first());
    }
}

} // verus!
