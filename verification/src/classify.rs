//! The workspace classifier: for one addressing target it filters the
//! workspaces, orders them by id, and annotates each with its activity,
//! occupancy and on-screen flags and its style class.

use vstd::prelude::*;

use crate::digits::dec_int;
use crate::digits::i32_dec;
use crate::model::Monitor;
use crate::model::Selector;
use crate::model::SnapshotError;
use crate::model::Workspace;
use crate::model::WorkspaceView;
use crate::model::at_most_one_focused;
use crate::model::copy_workspace;
use crate::model::focused_monitor;
use crate::model::has_focused;
use crate::model::has_monitor;
use crate::model::has_view_id;
use crate::model::id_on_screen;
use crate::model::monitor_named;
use crate::model::strictly_sorted;
use crate::model::unique_ids;
use crate::model::unique_monitor_names;
use crate::model::views_equiv;

verus! {

/// The workspace belongs to the classification pass: every workspace in the
/// all-monitors pass, only the target monitor's own workspaces otherwise.
pub open spec fn in_scope(w: Workspace, sel: Selector) -> bool {
    match sel {
        Selector::AllMonitors => true,
        Selector::OnMonitor(n) => w.monitor@ == n@,
    }
}

/// The selector names a known monitor (always true for the all-monitors pass).
pub open spec fn selector_resolves(ms: Seq<Monitor>, sel: Selector) -> bool {
    match sel {
        Selector::AllMonitors => true,
        Selector::OnMonitor(n) => has_monitor(ms, n@),
    }
}

/// The workspace id the pass treats as active: the focused monitor's active
/// workspace for the all-monitors pass, the target monitor's own otherwise.
pub open spec fn resolved_active_id(ms: Seq<Monitor>, sel: Selector) -> int {
    match sel {
        Selector::AllMonitors => focused_monitor(ms).active_workspace_id as int,
        Selector::OnMonitor(n) => monitor_named(ms, n@).active_workspace_id as int,
    }
}

/// Whether the active flag may be granted at all: always in the all-monitors
/// pass, otherwise only when the focused monitor is the target monitor.
pub open spec fn active_context(ms: Seq<Monitor>, sel: Selector) -> bool {
    match sel {
        Selector::AllMonitors => true,
        Selector::OnMonitor(n) => focused_monitor(ms).name@ == n@,
    }
}

/// The style class of a real workspace: a base token carrying the id, an
/// on-screen marker token when shown, and an active marker token when active.
pub open spec fn class_of(id: int, on_screen: bool, active: bool) -> Seq<char> {
    let base = "workspace-button w"@ + dec_int(id) + (if on_screen {
        " on-screen"@
    } else {
        Seq::<char>::empty()
    });
    if active {
        base + " workspace-active wa"@ + dec_int(id)
    } else {
        base
    }
}

/// The view is the annotation of the given workspace under the resolved
/// active id and active context.
pub open spec fn annotated(
    v: WorkspaceView,
    w: Workspace,
    ms: Seq<Monitor>,
    awid: int,
    ctx: bool,
) -> bool {
    let on = id_on_screen(ms, w.id as int);
    let act = w.id as int == awid && ctx;
    &&& v.id == w.id
    &&& v.name == w.name
    &&& v.active == act
    &&& v.occupied
    &&& v.on_screen == on
    &&& v.class@ == class_of(w.id as int, on, act)
}

/// Every view is the annotation of some in-scope workspace.
pub open spec fn views_from_scope(
    r: Seq<WorkspaceView>,
    ws: Seq<Workspace>,
    ms: Seq<Monitor>,
    sel: Selector,
    awid: int,
    ctx: bool,
) -> bool {
    forall|i: int|
        0 <= i < r.len() ==> exists|j: int|
            0 <= j < ws.len() && in_scope(ws[j], sel) && annotated(#[trigger] r[i], ws[j], ms, awid, ctx)
}

/// What a successful classification pass returns: the views, in strictly
/// ascending id order, are exactly the annotations of the in-scope workspaces.
pub open spec fn classify_ok(
    r: Seq<WorkspaceView>,
    ws: Seq<Workspace>,
    ms: Seq<Monitor>,
    sel: Selector,
) -> bool {
    let awid = resolved_active_id(ms, sel);
    let ctx = active_context(ms, sel);
    &&& strictly_sorted(r)
    &&& views_from_scope(r, ws, ms, sel, awid, ctx)
    &&& forall|j: int|
        0 <= j < ws.len() && in_scope(#[trigger] ws[j], sel) ==> has_view_id(r, ws[j].id as int)
}

/// At most one view is marked active in a single-monitor classification
/// pass: the active flag is granted only to the view whose id equals the
/// pass's one resolved active workspace id.
pub proof fn lemma_at_most_one_active(
    r: Seq<WorkspaceView>,
    ws: Seq<Workspace>,
    ms: Seq<Monitor>,
    sel: Selector,
)
    requires
        sel matches Selector::OnMonitor(_),
        classify_ok(r, ws, ms, sel),
    ensures
        forall|i: int, j: int| 0 <= i < j < r.len() ==> !(r[i].active && r[j].active),
{
    let awid = resolved_active_id(ms, sel);
    let ctx = active_context(ms, sel);
    assert forall|i: int, j: int| 0 <= i < j < r.len() implies !(r[i].active && r[j].active) by {
        if r[i].active && r[j].active {
            let ti = choose|t: int|
                0 <= t < ws.len() && in_scope(ws[t], sel) && annotated(r[i], ws[t], ms, awid, ctx);
            let tj = choose|t: int|
                0 <= t < ws.len() && in_scope(ws[t], sel) && annotated(r[j], ws[t], ms, awid, ctx);
            assert(r[i].id == awid && r[j].id == awid);
            assert(r[i].id < r[j].id);
        }
    }
}

/// Two strictly id-sorted view lists holding the same set of ids pair up:
/// equal lengths and equal ids position by position.
proof fn lemma_sorted_ids_align(s1: Seq<WorkspaceView>, s2: Seq<WorkspaceView>)
    requires
        strictly_sorted(s1),
        strictly_sorted(s2),
        forall|id: int| has_view_id(s1, id) <==> has_view_id(s2, id),
    ensures
        s1.len() == s2.len(),
        forall|i: int| 0 <= i < s1.len() ==> s1[i].id == s2[i].id,
    decreases s1.len(),
{
    if s1.len() == 0 {
        if s2.len() > 0 {
            assert(has_view_id(s2, s2[0].id as int));
            assert(false);
        }
    } else if s2.len() == 0 {
        assert(has_view_id(s1, s1[0].id as int));
        assert(false);
    } else {
        // The heads carry the same id: each head's id occurs in the other
        // list, and a strictly sorted list's least id sits at the front.
        assert(has_view_id(s1, s1[0].id as int));
        assert(has_view_id(s2, s2[0].id as int));
        let a = choose|t: int| 0 <= t < s2.len() && s2[t].id == s1[0].id as int;
        let b = choose|t: int| 0 <= t < s1.len() && s1[t].id == s2[0].id as int;
        assert(s2[0].id <= s2[a].id);
        assert(s1[0].id <= s1[b].id);
        assert(s1[0].id == s2[0].id);
        let t1 = s1.subrange(1, s1.len() as int);
        let t2 = s2.subrange(1, s2.len() as int);
        assert forall|id: int| has_view_id(t1, id) <==> has_view_id(t2, id) by {
            if has_view_id(t1, id) {
                let k = choose|k: int| 0 <= k < t1.len() && t1[k].id == id;
                assert(s1[k + 1].id == id);
                assert(has_view_id(s1, id));
                let m = choose|m: int| 0 <= m < s2.len() && s2[m].id == id;
                assert(id > s1[0].id);
                assert(m != 0);
                assert(t2[m - 1].id == id);
                assert(has_view_id(t2, id));
            }
            if has_view_id(t2, id) {
                let k = choose|k: int| 0 <= k < t2.len() && t2[k].id == id;
                assert(s2[k + 1].id == id);
                assert(has_view_id(s2, id));
                let m = choose|m: int| 0 <= m < s1.len() && s1[m].id == id;
                assert(id > s2[0].id);
                assert(m != 0);
                assert(t1[m - 1].id == id);
                assert(has_view_id(t1, id));
            }
        }
        lemma_sorted_ids_align(t1, t2);
        assert forall|i: int| 0 <= i < s1.len() implies s1[i].id == s2[i].id by {
            if i > 0 {
                assert(t1[i - 1].id == t2[i - 1].id);
            }
        }
    }
}

/// Classification is deterministic: two passes over the same workspaces,
/// monitors and selector yield outputs that agree entry by entry, field by
/// field, the style class compared as text.
pub proof fn lemma_classify_deterministic(
    r1: Seq<WorkspaceView>,
    r2: Seq<WorkspaceView>,
    ws: Seq<Workspace>,
    ms: Seq<Monitor>,
    sel: Selector,
)
    requires
        unique_ids(ws),
        classify_ok(r1, ws, ms, sel),
        classify_ok(r2, ws, ms, sel),
    ensures
        r1.len() == r2.len(),
        forall|i: int| 0 <= i < r1.len() ==> views_equiv(r1[i], r2[i]),
{
    let awid = resolved_active_id(ms, sel);
    let ctx = active_context(ms, sel);
    assert forall|id: int| has_view_id(r1, id) <==> has_view_id(r2, id) by {
        if has_view_id(r1, id) {
            let a = choose|a: int| 0 <= a < r1.len() && r1[a].id == id;
            let j = choose|j: int|
                0 <= j < ws.len() && in_scope(ws[j], sel) && annotated(r1[a], ws[j], ms, awid, ctx);
            assert(ws[j].id == id);
            assert(has_view_id(r2, ws[j].id as int));
        }
        if has_view_id(r2, id) {
            let a = choose|a: int| 0 <= a < r2.len() && r2[a].id == id;
            let j = choose|j: int|
                0 <= j < ws.len() && in_scope(ws[j], sel) && annotated(r2[a], ws[j], ms, awid, ctx);
            assert(ws[j].id == id);
            assert(has_view_id(r1, ws[j].id as int));
        }
    }
    lemma_sorted_ids_align(r1, r2);
    assert forall|i: int| 0 <= i < r1.len() implies views_equiv(r1[i], r2[i]) by {
        let j1 = choose|j: int|
            0 <= j < ws.len() && in_scope(ws[j], sel) && annotated(r1[i], ws[j], ms, awid, ctx);
        let j2 = choose|j: int|
            0 <= j < ws.len() && in_scope(ws[j], sel) && annotated(r2[i], ws[j], ms, awid, ctx);
        assert(r1[i].id == r2[i].id);
        assert(ws[j1].id == ws[j2].id);
        assert(j1 == j2);
        assert(views_equiv(r1[i], r2[i]));
    }
}

/// The index of the focused monitor, if one is focused.
fn find_focused(monitors: &Vec<Monitor>) -> (r: Option<usize>)
    requires
        at_most_one_focused(monitors@),
    ensures
        match r {
            Some(i) => {
                &&& i < monitors@.len()
                &&& monitors@[i as int].focused
                &&& has_focused(monitors@)
                &&& focused_monitor(monitors@) == monitors@[i as int]
            },
            None => !has_focused(monitors@),
        },
{
    let n = monitors.len();
    for i in 0..n
        invariant
            n == monitors@.len(),
            at_most_one_focused(monitors@),
            forall|k: int| 0 <= k < i ==> !monitors@[k].focused,
    {
        if monitors[i].focused {
            proof {
                assert(has_focused(monitors@));
                let k = choose|k: int| 0 <= k < monitors@.len() && monitors@[k].focused;
                assert(k == i as int);
            }
            return Some(i);
        }
    }
    None
}

/// The index of the monitor with the given name, if one exists.
fn find_named(monitors: &Vec<Monitor>, name: &String) -> (r: Option<usize>)
    requires
        unique_monitor_names(monitors@),
    ensures
        match r {
            Some(i) => {
                &&& i < monitors@.len()
                &&& monitors@[i as int].name@ == name@
                &&& has_monitor(monitors@, name@)
                &&& monitor_named(monitors@, name@) == monitors@[i as int]
            },
            None => !has_monitor(monitors@, name@),
        },
{
    let n = monitors.len();
    for i in 0..n
        invariant
            n == monitors@.len(),
            unique_monitor_names(monitors@),
            forall|k: int| 0 <= k < i ==> monitors@[k].name@ != name@,
    {
        if monitors[i].name == *name {
            proof {
                assert(has_monitor(monitors@, name@));
                let k = choose|k: int| 0 <= k < monitors@.len() && monitors@[k].name@ == name@;
                assert(k == i as int);
            }
            return Some(i);
        }
    }
    None
}

/// Whether the id is currently shown on some monitor.
fn id_shown(monitors: &Vec<Monitor>, id: i32) -> (b: bool)
    ensures
        b == id_on_screen(monitors@, id as int),
{
    let n = monitors.len();
    for i in 0..n
        invariant
            n == monitors@.len(),
            forall|k: int| 0 <= k < i ==> monitors@[k].active_workspace_id != id,
    {
        if monitors[i].active_workspace_id == id {
            return true;
        }
    }
    false
}

/// Builds the style class text of a real workspace.
fn make_class(id: i32, on_screen: bool, active: bool) -> (r: String)
    ensures
        r@ == class_of(id as int, on_screen, active),
{
    let mut s = String::from_str("workspace-button w");
    let d = i32_dec(id);
    s.append(d.as_str());
    if on_screen {
        s.append(" on-screen");
    }
    if active {
        s.append(" workspace-active wa");
        let d2 = i32_dec(id);
        s.append(d2.as_str());
    }
    proof {
        assert(s@ =~= class_of(id as int, on_screen, active));
    }
    s
}

/// Workspace ids are strictly ascending.
pub open spec fn ws_sorted(s: Seq<Workspace>) -> bool {
    forall|i: int, j: int| 0 <= i < j < s.len() ==> s[i].id < s[j].id
}

/// Sorts the workspaces by ascending id; with unique ids the order is
/// strictly ascending. The result holds exactly the input's records.
fn sort_by_id(ws: &Vec<Workspace>) -> (r: Vec<Workspace>)
    requires
        unique_ids(ws@),
    ensures
        r@.len() == ws@.len(),
        ws_sorted(r@),
        forall|k: int| 0 <= k < ws@.len() ==> r@.contains(ws@[k]),
        forall|k: int| 0 <= k < r@.len() ==> ws@.contains(#[trigger] r@[k]),
{
    let n = ws.len();
    let mut r: Vec<Workspace> = Vec::new();
    let mut idx: usize = 0;
    while idx < n
        invariant
            n == ws@.len(),
            idx <= n,
            unique_ids(ws@),
            r@.len() == idx,
            ws_sorted(r@),
            forall|k: int| 0 <= k < idx ==> r@.contains(ws@[k]),
            forall|k: int|
                0 <= k < r@.len() ==> exists|t: int| 0 <= t < idx && ws@[t] == #[trigger] r@[k],
        decreases n - idx,
    {
        let w = copy_workspace(&ws[idx]);
        proof {
            assert forall|q: int| 0 <= q < r@.len() implies r@[q].id != w.id by {
                let t = choose|t: int| 0 <= t < idx && ws@[t] == r@[q];
                assert(ws@[t].id != ws@[idx as int].id);
            }
        }
        let mut p: usize = 0;
        while p < r.len() && r[p].id < w.id
            invariant
                p <= r@.len(),
                forall|q: int| 0 <= q < p ==> r@[q].id < w.id,
            decreases r@.len() - p,
        {
            p += 1;
        }
        let ghost old_r = r@;
        r.insert(p, w);
        proof {
            old_r.insert_ensures(p as int, w);
            assert forall|a: int, b: int| 0 <= a < b < r@.len() implies r@[a].id < r@[b].id by {
                if b < p {
                    assert(r@[a] == old_r[a] && r@[b] == old_r[b]);
                } else if a > p {
                    assert(r@[a] == old_r[a - 1] && r@[b] == old_r[b - 1]);
                } else if a == p {
                    assert(r@[a] == w && r@[b] == old_r[b - 1]);
                    assert(old_r[b - 1].id >= old_r[p as int].id > w.id || (b - 1 == p
                        && old_r[b - 1].id > w.id));
                } else if b == p {
                    assert(r@[a] == old_r[a] && r@[b] == w);
                    assert(old_r[a].id < w.id);
                } else {
                    // a < p < b
                    assert(r@[a] == old_r[a] && r@[b] == old_r[b - 1]);
                    assert(old_r[a].id < w.id);
                    assert(old_r[b - 1].id > w.id);
                }
            }
            assert forall|k: int| 0 <= k <= idx implies r@.contains(ws@[k]) by {
                if k < idx {
                    let q = choose|q: int| 0 <= q < old_r.len() && old_r[q] == ws@[k];
                    if q < p {
                        assert(r@[q] == ws@[k]);
                    } else {
                        assert(r@[q + 1] == ws@[k]);
                    }
                } else {
                    assert(r@[p as int] == ws@[k]);
                }
            }
            assert forall|k: int| 0 <= k < r@.len() implies exists|t: int|
                0 <= t < idx + 1 && ws@[t] == #[trigger] r@[k] by {
                if k < p {
                    assert(r@[k] == old_r[k]);
                    let t = choose|t: int| 0 <= t < idx && ws@[t] == old_r[k];
                    assert(0 <= t < idx + 1 && ws@[t] == r@[k]);
                } else if k == p {
                    assert(r@[k] == ws@[idx as int]);
                    assert(0 <= idx < idx + 1 && ws@[idx as int] == r@[k]);
                } else {
                    assert(r@[k] == old_r[k - 1]);
                    let t = choose|t: int| 0 <= t < idx && ws@[t] == old_r[k - 1];
                    assert(0 <= t < idx + 1 && ws@[t] == r@[k]);
                }
            }
        }
        idx += 1;
    }
    r
}

/// One classification pass: orders the workspaces by id, keeps those in
/// scope, and annotates each with its flags and style class. Fails with
/// `TargetNotFound` when the selector names an unknown monitor, and with
/// `NoFocusedMonitor` when no monitor has focus.
pub fn classify(
    workspaces: &Vec<Workspace>,
    monitors: &Vec<Monitor>,
    sel: &Selector,
) -> (r: Result<Vec<WorkspaceView>, SnapshotError>)
    requires
        unique_ids(workspaces@),
        unique_monitor_names(monitors@),
        at_most_one_focused(monitors@),
    ensures
        match r {
            Ok(views) => {
                &&& selector_resolves(monitors@, *sel)
                &&& has_focused(monitors@)
                &&& classify_ok(views@, workspaces@, monitors@, *sel)
            },
            Err(e) => match e {
                SnapshotError::TargetNotFound => !selector_resolves(monitors@, *sel),
                SnapshotError::NoFocusedMonitor => selector_resolves(monitors@, *sel)
                    && !has_focused(monitors@),
                SnapshotError::QueryFailed => false,
            },
        },
{
    // Resolve the pass's active workspace id and whether the active flag may
    // be granted, in the same order the queries are made: target monitor
    // first, focused monitor second.
    let target_idx: Option<usize> = match sel {
        Selector::AllMonitors => None,
        Selector::OnMonitor(n) => match find_named(monitors, n) {
            Some(i) => Some(i),
            None => {
                return Err(SnapshotError::TargetNotFound);
            },
        },
    };
    let focused_idx: usize = match find_focused(monitors) {
        Some(i) => i,
        None => {
            return Err(SnapshotError::NoFocusedMonitor);
        },
    };
    let awid: i32 = match target_idx {
        Some(i) => monitors[i].active_workspace_id,
        None => monitors[focused_idx].active_workspace_id,
    };
    let ctx: bool = match sel {
        Selector::AllMonitors => true,
        Selector::OnMonitor(n) => monitors[focused_idx].name == *n,
    };
    proof {
        assert(awid as int == resolved_active_id(monitors@, *sel));
        assert(ctx == active_context(monitors@, *sel));
    }

    let sorted = sort_by_id(workspaces);
    let mut out: Vec<WorkspaceView> = Vec::new();
    let n = sorted.len();
    let mut i: usize = 0;
    while i < n
        invariant
            n == sorted@.len(),
            i <= n,
            unique_ids(workspaces@),
            ws_sorted(sorted@),
            forall|k: int| 0 <= k < workspaces@.len() ==> sorted@.contains(workspaces@[k]),
            forall|k: int| 0 <= k < sorted@.len() ==> workspaces@.contains(#[trigger] sorted@[k]),
            awid as int == resolved_active_id(monitors@, *sel),
            ctx == active_context(monitors@, *sel),
            strictly_sorted(out@),
            forall|a: int|
                0 <= a < out@.len() ==> exists|k: int|
                    0 <= k < i && sorted@[k].id == #[trigger] out@[a].id,
            views_from_scope(out@, workspaces@, monitors@, *sel, awid as int, ctx),
            forall|k: int|
                0 <= k < i && in_scope(#[trigger] sorted@[k], *sel) ==> has_view_id(
                    out@,
                    sorted@[k].id as int,
                ),
        decreases n - i,
    {
        let w = &sorted[i];
        let keep: bool = match sel {
            Selector::AllMonitors => true,
            Selector::OnMonitor(n) => w.monitor == *n,
        };
        if keep {
            let on = id_shown(monitors, w.id);
            let act = w.id == awid && ctx;
            let class = make_class(w.id, on, act);
            let view = WorkspaceView {
                name: w.name.clone(),
                id: w.id,
                active: act,
                occupied: true,
                on_screen: on,
                class,
            };
            proof {
                // The new view's id exceeds every id already emitted.
                assert forall|a: int| 0 <= a < out@.len() implies out@[a].id < view.id by {
                    let k = choose|k: int| 0 <= k < i && sorted@[k].id == out@[a].id;
                    assert(sorted@[k].id < sorted@[i as int].id);
                }
                assert(annotated(view, sorted@[i as int], monitors@, awid as int, ctx));
                assert(in_scope(sorted@[i as int], *sel));
            }
            let ghost prev = out@;
            out.push(view);
            proof {
                assert forall|a: int, b: int| 0 <= a < b < out@.len() implies out@[a].id
                    < out@[b].id by {
                    if b < out@.len() - 1 {
                        assert(out@[a] == prev[a] && out@[b] == prev[b]);
                    } else {
                        assert(out@[b] == view && out@[a] == prev[a]);
                    }
                }
                assert forall|a: int| 0 <= a < out@.len() implies exists|k: int|
                    0 <= k < i + 1 && sorted@[k].id == #[trigger] out@[a].id by {
                    if a < prev.len() {
                        assert(out@[a] == prev[a]);
                        let k = choose|k: int| 0 <= k < i && sorted@[k].id == prev[a].id;
                        assert(0 <= k < i + 1 && sorted@[k].id == out@[a].id);
                    } else {
                        assert(out@[a] == view);
                        assert(sorted@[i as int].id == out@[a].id);
                    }
                }
                assert forall|a: int| 0 <= a < out@.len() implies exists|j: int|
                    0 <= j < workspaces@.len() && in_scope(workspaces@[j], *sel) && annotated(
                        #[trigger] out@[a],
                        workspaces@[j],
                        monitors@,
                        awid as int,
                        ctx,
                    ) by {
                    assert(views_from_scope(prev, workspaces@, monitors@, *sel, awid as int, ctx));
                    if a < prev.len() {
                        assert(out@[a] == prev[a]);
                        let j = choose|j: int|
                            0 <= j < workspaces@.len() && in_scope(workspaces@[j], *sel)
                                && annotated(prev[a], workspaces@[j], monitors@, awid as int, ctx);
                        assert(annotated(out@[a], workspaces@[j], monitors@, awid as int, ctx));
                    } else {
                        assert(out@[a] == view);
                        assert(workspaces@.contains(sorted@[i as int]));
                        let j = choose|j: int|
                            0 <= j < workspaces@.len() && workspaces@[j] == sorted@[i as int];
                        assert(in_scope(workspaces@[j], *sel));
                        assert(annotated(out@[a], workspaces@[j], monitors@, awid as int, ctx));
                    }
                }
                assert(views_from_scope(out@, workspaces@, monitors@, *sel, awid as int, ctx));
                assert forall|k: int|
                    0 <= k < i + 1 && in_scope(#[trigger] sorted@[k], *sel) implies has_view_id(
                    out@,
                    sorted@[k].id as int,
                ) by {
                    if k < i {
                        let a = choose|a: int|
                            0 <= a < prev.len() && prev[a].id == sorted@[k].id as int;
                        assert(out@[a] == prev[a]);
                        assert(has_view_id(out@, sorted@[k].id as int));
                    } else {
                        assert(out@[prev.len() as int] == view);
                        assert(has_view_id(out@, sorted@[k].id as int));
                    }
                }
            }
        } else {
            proof {
                assert forall|a: int| 0 <= a < out@.len() implies exists|k: int|
                    0 <= k < i + 1 && sorted@[k].id == #[trigger] out@[a].id by {
                    let k = choose|k: int| 0 <= k < i && sorted@[k].id == out@[a].id;
                    assert(0 <= k < i + 1 && sorted@[k].id == out@[a].id);
                }
                assert(!in_scope(sorted@[i as int], *sel));
            }
        }
        i += 1;
    }
    proof {
        assert forall|j: int|
            0 <= j < workspaces@.len() && in_scope(#[trigger] workspaces@[j], *sel) implies has_view_id(
            out@,
            workspaces@[j].id as int,
        ) by {
            let k = choose|k: int| 0 <= k < sorted@.len() && sorted@[k] == workspaces@[j];
            assert(in_scope(sorted@[k], *sel));
        }
    }
    Ok(out)
}

} // verus!
