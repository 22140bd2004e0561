//! The slot filler: pads a classified, id-ordered view list to a fixed slot
//! count, emitting each real entry at the slot of its id and a synthetic
//! placeholder for every empty slot. Entries whose id exceeds the slot count
//! (or is below one) are dropped: fixed-slot mode caps the displayed range.

use vstd::prelude::*;

use crate::digits::dec_int;
use crate::digits::i32_dec;
use crate::model::WorkspaceView;
use crate::model::copy_view;
use crate::model::has_view_id;
use crate::model::strictly_sorted;
use crate::model::view_with_id;

verus! {

/// A synthetic placeholder entry for an empty slot: unoccupied, inactive,
/// off screen, named by the slot number, with the fixed placeholder class.
pub open spec fn is_filler(v: WorkspaceView, slot: int) -> bool {
    &&& v.id == slot
    &&& v.name@ == dec_int(slot)
    &&& !v.active
    &&& !v.occupied
    &&& !v.on_screen
    &&& v.class@ == "workspace-unoccupied wU"@
}

/// The slot holds the real entry carrying its id when one exists, and a
/// synthetic placeholder otherwise.
pub open spec fn fill_entry_ok(r: WorkspaceView, views: Seq<WorkspaceView>, slot: int) -> bool {
    if has_view_id(views, slot) {
        r == view_with_id(views, slot)
    } else {
        is_filler(r, slot)
    }
}

/// What the filler returns for slot count `n`: exactly `n` entries, ids
/// `1..=n` in order, each slot filled by its real entry or a placeholder.
pub open spec fn fill_post(r: Seq<WorkspaceView>, views: Seq<WorkspaceView>, n: int) -> bool {
    &&& r.len() == n
    &&& forall|i: int| 0 <= i < n ==> #[trigger] r[i].id == i + 1
    &&& forall|i: int| 0 <= i < n ==> fill_entry_ok(#[trigger] r[i], views, i + 1)
}

/// Builds the synthetic placeholder entry for one slot.
fn filler_view(slot: i32) -> (r: WorkspaceView)
    requires
        slot >= 1,
    ensures
        is_filler(r, slot as int),
{
    WorkspaceView {
        name: i32_dec(slot),
        id: slot,
        active: false,
        occupied: false,
        on_screen: false,
        class: String::from_str("workspace-unoccupied wU"),
    }
}

/// Pads the id-ordered view list to exactly `n` slots, walking slot ids
/// `1..=n` in order: a real entry is emitted at the slot of its id, every
/// other slot gets a placeholder, and entries outside `1..=n` are dropped.
pub fn fill(views: &Vec<WorkspaceView>, n: usize) -> (r: Vec<WorkspaceView>)
    requires
        strictly_sorted(views@),
        n <= 0x7fff_ffff,
    ensures
        fill_post(r@, views@, n as int),
{
    let mut r: Vec<WorkspaceView> = Vec::new();
    let mut p: usize = 0;
    let mut i: usize = 0;
    while i < n
        invariant
            n <= 0x7fff_ffff,
            i <= n,
            p <= views@.len(),
            strictly_sorted(views@),
            forall|k: int| 0 <= k < p ==> views@[k].id < i + 1,
            r@.len() == i,
            forall|t: int| 0 <= t < i ==> #[trigger] r@[t].id == t + 1,
            forall|t: int| 0 <= t < i ==> fill_entry_ok(#[trigger] r@[t], views@, t + 1),
        decreases n - i,
    {
        let slot: i32 = (i as i32) + 1;
        while p < views.len() && views[p].id < slot
            invariant
                p <= views@.len(),
                forall|k: int| 0 <= k < p ==> views@[k].id < slot,
            decreases views@.len() - p,
        {
            p += 1;
        }
        let ghost prev = r@;
        if p < views.len() && views[p].id == slot {
            proof {
                assert(has_view_id(views@, slot as int));
                let q = choose|q: int| 0 <= q < views@.len() && views@[q].id == slot as int;
                assert(q == p as int);
            }
            r.push(copy_view(&views[p]));
            proof {
                assert(r@[i as int] == views@[p as int]);
                assert(fill_entry_ok(r@[i as int], views@, i + 1));
            }
            p += 1;
        } else {
            proof {
                assert forall|q: int| 0 <= q < views@.len() implies views@[q].id != slot as int by {
                    if q >= p {
                        assert(p < views@.len());
                        if q > p {
                            assert(views@[p as int].id < views@[q].id);
                        }
                    }
                }
                assert(!has_view_id(views@, slot as int));
            }
            r.push(filler_view(slot));
            proof {
                assert(is_filler(r@[i as int], i + 1));
                assert(fill_entry_ok(r@[i as int], views@, i + 1));
            }
        }
        proof {
            assert forall|t: int| 0 <= t < i + 1 implies fill_entry_ok(
                #[trigger] r@[t],
                views@,
                t + 1,
            ) by {
                if t < i {
                    assert(r@[t] == prev[t]);
                    assert(fill_entry_ok(prev[t], views@, t + 1));
                }
            }
        }
        i += 1;
    }
    r
}

} // verus!
