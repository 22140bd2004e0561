//! The snapshot orchestrator: one recomputation turns the queried window
//! manager state into the output value for the addressing mode fixed at
//! startup, running the classifier and, when a fixed slot count is
//! configured, the filler and the partitioner.

use vstd::prelude::*;

use crate::classify::classify;
use crate::classify::classify_ok;
use crate::fill::fill;
use crate::fill::fill_post;
use crate::model::Config;
use crate::model::Monitor;
use crate::model::MonitorView;
use crate::model::Selector;
use crate::model::Snapshot;
use crate::model::SnapshotError;
use crate::model::Target;
use crate::model::Workspace;
use crate::model::WorkspaceView;
use crate::model::has_focused;
use crate::model::has_monitor;
use crate::model::wm_state_ok;
use crate::partition::partition;
use crate::partition::partition_post;

verus! {

/// A configured slot count is positive and small enough that every slot id
/// (at most the count times the number of monitors) fits a workspace id.
pub open spec fn config_fits(cfg: Config, count: int) -> bool {
    match cfg.slots {
        Option::Some(k) => 1 <= k && k <= 0x7fff_ffff && k * count <= 0x7fff_ffff,
        Option::None => true,
    }
}

/// The single-monitor result: the monitor's classified views; under a fixed
/// slot count, filled to one slot per workspace id across all monitors and
/// sliced down to the monitor's own window.
pub open spec fn single_ok(
    r: Seq<WorkspaceView>,
    ws: Seq<Workspace>,
    ms: Seq<Monitor>,
    name: String,
    slots: Option<usize>,
) -> bool {
    match slots {
        Option::None => classify_ok(r, ws, ms, Selector::OnMonitor(name)),
        Option::Some(k) => exists|c: Seq<WorkspaceView>, f: Seq<WorkspaceView>|
            {
                &&& classify_ok(c, ws, ms, Selector::OnMonitor(name))
                &&& #[trigger] fill_post(f, c, k * ms.len())
                &&& partition_post(r, f, ms, name@)
            },
    }
}

/// The all-flattened result: every workspace classified as one stream; under
/// a fixed slot count, filled to exactly that count (the mode ignores the
/// monitor count) and never partitioned.
pub open spec fn all_ok(
    r: Seq<WorkspaceView>,
    ws: Seq<Workspace>,
    ms: Seq<Monitor>,
    slots: Option<usize>,
) -> bool {
    match slots {
        Option::None => classify_ok(r, ws, ms, Selector::AllMonitors),
        Option::Some(k) => exists|c: Seq<WorkspaceView>|
            {
                &&& #[trigger] classify_ok(c, ws, ms, Selector::AllMonitors)
                &&& fill_post(r, c, k as int)
            },
    }
}

/// The grouped result: one entry per monitor, in the queried monitor order,
/// each holding that monitor's single-monitor result.
pub open spec fn grouped_ok(
    g: Seq<MonitorView>,
    ws: Seq<Workspace>,
    ms: Seq<Monitor>,
    slots: Option<usize>,
) -> bool {
    &&& g.len() == ms.len()
    &&& forall|i: int| 0 <= i < g.len() ==> (#[trigger] g[i]).name == ms[i].name
    &&& forall|i: int|
        0 <= i < g.len() ==> single_ok((#[trigger] g[i]).workspaces@, ws, ms, ms[i].name, slots)
}

/// What a successful recomputation returns for each addressing mode.
pub open spec fn snapshot_ok(snap: Snapshot, cfg: Config, ws: Seq<Workspace>, ms: Seq<Monitor>) -> bool {
    match cfg.target {
        Target::Single(name) => match snap {
            Snapshot::Flat(v) => {
                &&& has_monitor(ms, name@)
                &&& has_focused(ms)
                &&& single_ok(v@, ws, ms, name, cfg.slots)
            },
            Snapshot::Grouped(_) => false,
        },
        Target::All => match snap {
            Snapshot::Flat(v) => {
                &&& has_focused(ms)
                &&& all_ok(v@, ws, ms, cfg.slots)
            },
            Snapshot::Grouped(_) => false,
        },
        Target::PerMonitor => match snap {
            Snapshot::Grouped(g) => {
                &&& ms.len() == 0 || has_focused(ms)
                &&& grouped_ok(g@, ws, ms, cfg.slots)
            },
            Snapshot::Flat(_) => false,
        },
    }
}

/// When a recomputation fails, and with which error.
pub open spec fn snapshot_err(e: SnapshotError, cfg: Config, ms: Seq<Monitor>) -> bool {
    match e {
        SnapshotError::TargetNotFound => match cfg.target {
            Target::Single(name) => !has_monitor(ms, name@),
            _ => false,
        },
        SnapshotError::NoFocusedMonitor => !has_focused(ms) && match cfg.target {
            Target::Single(name) => has_monitor(ms, name@),
            Target::All => true,
            Target::PerMonitor => ms.len() > 0,
        },
        SnapshotError::QueryFailed => false,
    }
}

/// One recomputation: classifies for the configured target and, under a
/// fixed slot count, fills and partitions, yielding the snapshot value to
/// serialize. Fails exactly when the classifier fails for the mode.
#[verifier::loop_isolation(false)]
pub fn snapshot(config: &Config, workspaces: &Vec<Workspace>, monitors: &Vec<Monitor>) -> (r:
    Result<Snapshot, SnapshotError>)
    requires
        wm_state_ok(workspaces@, monitors@),
        config_fits(*config, monitors@.len() as int),
    ensures
        match r {
            Ok(snap) => snapshot_ok(snap, *config, workspaces@, monitors@),
            Err(e) => snapshot_err(e, *config, monitors@),
        },
{
    match &config.target {
        Target::Single(name) => {
            let sel = Selector::OnMonitor(name.clone());
            match classify(workspaces, monitors, &sel) {
                Err(e) => Err(e),
                Ok(views) => match config.slots {
                    Option::None => Ok(Snapshot::Flat(views)),
                    Option::Some(k) => {
                        let n = k * monitors.len();
                        let filled = fill(&views, n);
                        let part = partition(&filled, monitors, name);
                        proof {
                            let c = views@;
                            let f = filled@;
                            assert(classify_ok(c, workspaces@, monitors@, Selector::OnMonitor(
                                *name,
                            )));
                            assert(fill_post(f, c, k * monitors@.len()));
                            assert(partition_post(part@, f, monitors@, name@));
                        }
                        Ok(Snapshot::Flat(part))
                    },
                },
            }
        },
        Target::All => {
            match classify(workspaces, monitors, &Selector::AllMonitors) {
                Err(e) => Err(e),
                Ok(views) => match config.slots {
                    Option::None => Ok(Snapshot::Flat(views)),
                    Option::Some(k) => {
                        let filled = fill(&views, k);
                        proof {
                            let c = views@;
                            assert(classify_ok(c, workspaces@, monitors@, Selector::AllMonitors));
                            assert(fill_post(filled@, c, k as int));
                        }
                        Ok(Snapshot::Flat(filled))
                    },
                },
            }
        },
        Target::PerMonitor => {
            let count = monitors.len();
            let mut out: Vec<MonitorView> = Vec::new();
            let mut i: usize = 0;
            while i < count
                invariant
                    count == monitors@.len(),
                    i <= count,
                    wm_state_ok(workspaces@, monitors@),
                    config_fits(*config, monitors@.len() as int),
                    out@.len() == i,
                    i > 0 ==> has_focused(monitors@),
                    forall|t: int| 0 <= t < i ==> (#[trigger] out@[t]).name == monitors@[t].name,
                    forall|t: int|
                        0 <= t < i ==> single_ok(
                            (#[trigger] out@[t]).workspaces@,
                            workspaces@,
                            monitors@,
                            monitors@[t].name,
                            config.slots,
                        ),
                decreases count - i,
            {
                let name = monitors[i].name.clone();
                let sel = Selector::OnMonitor(name.clone());
                proof {
                    assert(has_monitor(monitors@, name@));
                }
                match classify(workspaces, monitors, &sel) {
                    Err(e) => {
                        return Err(e);
                    },
                    Ok(views) => {
                        let group = match config.slots {
                            Option::None => views,
                            Option::Some(k) => {
                                let n = k * count;
                                let filled = fill(&views, n);
                                let part = partition(&filled, monitors, &name);
                                proof {
                                    let c = views@;
                                    let f = filled@;
                                    assert(classify_ok(c, workspaces@, monitors@,
                                        Selector::OnMonitor(monitors@[i as int].name)));
                                    assert(fill_post(f, c, k * monitors@.len()));
                                    assert(partition_post(part@, f, monitors@, monitors@[
                                        i as int].name@));
                                }
                                part
                            },
                        };
                        proof {
                            assert(single_ok(group@, workspaces@, monitors@, monitors@[i as int].name,
                                config.slots));
                        }
                        let ghost prev = out@;
                        out.push(MonitorView { name: monitors[i].name.clone(), workspaces: group });
                        proof {
                            assert forall|t: int| 0 <= t < i + 1 implies single_ok(
                                (#[trigger] out@[t]).workspaces@,
                                workspaces@,
                                monitors@,
                                monitors@[t].name,
                                config.slots,
                            ) by {
                                if t < i {
                                    assert(out@[t] == prev[t]);
                                }
                            }
                        }
                    },
                }
                i += 1;
            }
            Ok(Snapshot::Grouped(out))
        },
    }
}

/// Whether the configured target resolves against the queried monitors: a
/// named target must be a known monitor name; the virtual targets resolve
/// whenever any monitor exists at all.
#[verifier::loop_isolation(false)]
pub fn target_known(target: &Target, monitors: &Vec<Monitor>) -> (b: bool)
    ensures
        b == match target {
            Target::Single(n) => has_monitor(monitors@, n@),
            Target::All => monitors@.len() > 0,
            Target::PerMonitor => monitors@.len() > 0,
        },
{
    match target {
        Target::Single(n) => {
            let count = monitors.len();
            let mut i: usize = 0;
            while i < count
                invariant
                    count == monitors@.len(),
                    i <= count,
                    forall|k: int| 0 <= k < i ==> monitors@[k].name@ != n@,
                decreases count - i,
            {
                if monitors[i].name == *n {
                    proof {
                        assert(has_monitor(monitors@, n@));
                    }
                    return true;
                }
                i += 1;
            }
            false
        },
        Target::All => monitors.len() > 0,
        Target::PerMonitor => monitors.len() > 0,
    }
}

/// The empty output a failed recomputation degrades to: an empty group list
/// in grouped mode, an empty view list otherwise.
pub fn empty_snapshot(target: &Target) -> (r: Snapshot)
    ensures
        match target {
            Target::PerMonitor => r matches Snapshot::Grouped(g) && g@.len() == 0,
            _ => r matches Snapshot::Flat(v) && v@.len() == 0,
        },
{
    match target {
        Target::PerMonitor => Snapshot::Grouped(Vec::new()),
        _ => Snapshot::Flat(Vec::new()),
    }
}

} // verus!
