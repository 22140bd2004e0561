//! The monitor partitioner: assigns each monitor an equal contiguous slice
//! of the filled, globally ordered view list, indexing monitors by their
//! position in the reverse-ordered monitor list (the external enumeration
//! order is reversed before indexing, and downstream consumers depend on the
//! resulting slice assignment). The last monitor, by reversed index, absorbs
//! the division remainder. An unknown target name skips the partition step
//! and yields the full list unsliced.

use vstd::prelude::*;

use vstd::arithmetic::div_mod::lemma_div_pos_is_pos;
use vstd::arithmetic::div_mod::lemma_fundamental_div_mod;
use vstd::arithmetic::div_mod::lemma_mod_bound;
use vstd::arithmetic::mul::lemma_mul_inequality;

use crate::model::Monitor;
use crate::model::WorkspaceView;
use crate::model::copy_view;
use crate::model::has_monitor;
use crate::model::unique_monitor_names;

verus! {

/// The slice size every monitor but the last receives: the filled length
/// divided by the monitor count, rounded down.
pub open spec fn section_size(total: int, count: int) -> int {
    total / count
}

/// Where the slice of the monitor at the given reversed index begins.
pub open spec fn slice_start(total: int, count: int, i: int) -> int {
    i * section_size(total, count)
}

/// Where that slice ends; the last reversed index absorbs the remainder.
pub open spec fn slice_end(total: int, count: int, i: int) -> int {
    if i == count - 1 {
        total
    } else {
        (i + 1) * section_size(total, count)
    }
}

/// The position of the named monitor in the reverse-ordered monitor list
/// (meaningful when `has_monitor` holds and names are unique).
pub open spec fn rev_index(ms: Seq<Monitor>, name: Seq<char>) -> int {
    choose|i: int| 0 <= i < ms.len() && #[trigger] ms[ms.len() - 1 - i].name@ == name
}

/// What the partitioner returns: the target monitor's slice of the filled
/// list, or the full list when the target name is unknown.
pub open spec fn partition_post(
    r: Seq<WorkspaceView>,
    filled: Seq<WorkspaceView>,
    ms: Seq<Monitor>,
    name: Seq<char>,
) -> bool {
    if has_monitor(ms, name) {
        let count = ms.len() as int;
        let i = rev_index(ms, name);
        r == filled.subrange(
            slice_start(filled.len() as int, count, i),
            slice_end(filled.len() as int, count, i),
        )
    } else {
        r == filled
    }
}

/// Every slice lies inside the filled list.
pub proof fn lemma_slice_bounds(total: int, count: int, i: int)
    requires
        total >= 0,
        count >= 1,
        0 <= i < count,
    ensures
        0 <= slice_start(total, count, i),
        slice_start(total, count, i) <= slice_end(total, count, i),
        slice_end(total, count, i) <= total,
{
    let s = section_size(total, count);
    lemma_div_pos_is_pos(total, count);
    lemma_fundamental_div_mod(total, count);
    lemma_mod_bound(total, count);
    assert(count * s <= total);
    lemma_mul_inequality(0, i, s);
    lemma_mul_inequality(i, i + 1, s);
    lemma_mul_inequality(i + 1, count, s);
    assert(count * s == s * count) by (nonlinear_arith);
    assert((i + 1) * s <= s * count);
}

/// The sum of the slice lengths of the reversed indices below `upto`.
pub open spec fn slices_len_sum(total: int, count: int, upto: int) -> int
    decreases upto,
{
    if upto <= 0 {
        0
    } else {
        slices_len_sum(total, count, upto - 1) + (slice_end(total, count, upto - 1) - slice_start(
            total,
            count,
            upto - 1,
        ))
    }
}

/// The slices below a monitor's reversed index end exactly where its own
/// slice begins: the lengths so far sum to its start.
pub proof fn lemma_slices_sum_prefix(total: int, count: int, i: int)
    requires
        total >= 0,
        count >= 1,
        0 <= i < count,
    ensures
        slices_len_sum(total, count, i) == slice_start(total, count, i),
    decreases i,
{
    if i == 0 {
    } else {
        lemma_slices_sum_prefix(total, count, i - 1);
    }
}

/// The partition covers the filled list exactly: the first slice starts at
/// zero, each slice ends where the next begins, the last ends at the total,
/// no slice is reversed, the lengths sum to the total, and the last slice
/// absorbs exactly what the equal sections leave over.
pub proof fn lemma_partition_coverage(total: int, count: int)
    requires
        total >= 0,
        count >= 1,
    ensures
        slice_start(total, count, 0) == 0,
        forall|i: int|
            0 <= i < count - 1 ==> slice_end(total, count, i) == slice_start(total, count, i + 1),
        slice_end(total, count, count - 1) == total,
        forall|i: int|
            0 <= i < count ==> slice_start(total, count, i) <= #[trigger] slice_end(
                total,
                count,
                i,
            ),
        slices_len_sum(total, count, count) == total,
        slice_end(total, count, count - 1) - slice_start(total, count, count - 1) == total
            - section_size(total, count) * (count - 1),
{
    assert forall|i: int| 0 <= i < count implies slice_start(total, count, i) <= #[trigger] slice_end(
        total,
        count,
        i,
    ) by {
        lemma_slice_bounds(total, count, i);
    }
    lemma_slices_sum_prefix(total, count, count - 1);
    assert(slices_len_sum(total, count, count) == slice_start(total, count, count - 1) + (total
        - slice_start(total, count, count - 1)));
    assert(section_size(total, count) * (count - 1) == (count - 1) * section_size(total, count))
        by (nonlinear_arith);
}

/// With unique names the reversed indexing pairs the monitors one-to-one
/// with the reversed indices: the monitor listed at position `j` is the one
/// at reversed index `len - 1 - j`, so distinct monitors receive distinct
/// slices, and together with the coverage of the slices the partitioned
/// outputs across all monitors tile the filled list without overlap or gap.
pub proof fn lemma_rev_index_bijection(ms: Seq<Monitor>)
    requires
        unique_monitor_names(ms),
    ensures
        forall|j: int|
            0 <= j < ms.len() ==> rev_index(ms, (#[trigger] ms[j]).name@) == ms.len() - 1 - j,
{
    assert forall|j: int| 0 <= j < ms.len() implies rev_index(ms, (#[trigger] ms[j]).name@)
        == ms.len() - 1 - j by {
        let last = ms.len() - 1;
        assert(ms[last - (last - j)].name@ == ms[j].name@);
        let i = rev_index(ms, ms[j].name@);
        assert(0 <= i < ms.len() && ms[last - i].name@ == ms[j].name@);
        assert(last - i == j);
    }
}

/// The position of the named monitor in the reverse-ordered monitor list,
/// if the name is known.
fn find_rev(monitors: &Vec<Monitor>, name: &String) -> (r: Option<usize>)
    requires
        unique_monitor_names(monitors@),
    ensures
        match r {
            Some(i) => {
                &&& i < monitors@.len()
                &&& monitors@[monitors@.len() - 1 - i as int].name@ == name@
                &&& has_monitor(monitors@, name@)
                &&& rev_index(monitors@, name@) == i as int
            },
            None => !has_monitor(monitors@, name@),
        },
{
    let count = monitors.len();
    let mut i: usize = 0;
    while i < count
        invariant
            count == monitors@.len(),
            i <= count,
            unique_monitor_names(monitors@),
            forall|k: int| 0 <= k < i ==> #[trigger] monitors@[count - 1 - k].name@ != name@,
        decreases count - i,
    {
        if monitors[count - 1 - i].name == *name {
            proof {
                assert(has_monitor(monitors@, name@));
                let k = choose|k: int|
                    0 <= k < monitors@.len() && #[trigger] monitors@[monitors@.len() - 1
                        - k].name@ == name@;
                assert(k == i as int);
            }
            return Some(i);
        }
        i += 1;
    }
    proof {
        assert forall|j: int| 0 <= j < monitors@.len() implies monitors@[j].name@ != name@ by {
            let k = count - 1 - j;
            assert(monitors@[count - 1 - k].name@ != name@);
        }
    }
    None
}

/// Copies the index range `start..end` of the view list.
fn copy_views(v: &Vec<WorkspaceView>, start: usize, end: usize) -> (r: Vec<WorkspaceView>)
    requires
        start <= end <= v@.len(),
    ensures
        r@ == v@.subrange(start as int, end as int),
{
    let mut r: Vec<WorkspaceView> = Vec::new();
    let mut k = start;
    while k < end
        invariant
            start <= k <= end <= v@.len(),
            r@.len() == k - start,
            forall|t: int| 0 <= t < r@.len() ==> #[trigger] r@[t] == v@[start + t],
        decreases end - k,
    {
        r.push(copy_view(&v[k]));
        k += 1;
    }
    proof {
        assert(r@ =~= v@.subrange(start as int, end as int));
    }
    r
}

/// Slices the filled list down to the target monitor's contiguous window:
/// equal sections of `filled.len() / monitors.len()` entries, indexed by the
/// monitor's position in the reversed monitor list, the last reversed index
/// taking the remainder. An unknown target yields the full list unchanged.
pub fn partition(
    filled: &Vec<WorkspaceView>,
    monitors: &Vec<Monitor>,
    target: &String,
) -> (r: Vec<WorkspaceView>)
    requires
        unique_monitor_names(monitors@),
    ensures
        partition_post(r@, filled@, monitors@, target@),
{
    match find_rev(monitors, target) {
        None => {
            let r = copy_views(filled, 0, filled.len());
            proof {
                assert(filled@.subrange(0, filled@.len() as int) =~= filled@);
            }
            r
        },
        Some(i) => {
            let count = monitors.len();
            let total = filled.len();
            let section = total / count;
            proof {
                lemma_slice_bounds(total as int, count as int, i as int);
            }
            let start = i * section;
            let end = if i == count - 1 {
                total
            } else {
                (i + 1) * section
            };
            copy_views(filled, start, end)
        },
    }
}

} // verus!
