//! Plain data model: what the window manager reports (workspaces, monitors)
//! and what the core produces (per-workspace views, per-monitor groups, the
//! final snapshot), together with the spec-level predicates the contracts use.

use vstd::prelude::*;

verus! {

/// A workspace as reported by the window manager: a numeric id (unique
/// within the compositor), a display name, and the owning monitor's name.
pub struct Workspace {
    pub id: i32,
    pub name: String,
    pub monitor: String,
}

/// A monitor as reported by the window manager: a unique name, whether it
/// currently has input focus (at most one monitor does), and the id of the
/// workspace currently shown on it.
pub struct Monitor {
    pub name: String,
    pub focused: bool,
    pub active_workspace_id: i32,
}

/// One entry of the snapshot: a workspace (real or synthetic filler slot)
/// annotated with its display flags and style class.
pub struct WorkspaceView {
    pub name: String,
    pub id: i32,
    pub active: bool,
    pub occupied: bool,
    pub on_screen: bool,
    pub class: String,
}

/// One monitor's group of workspace views, used by the grouped addressing mode.
pub struct MonitorView {
    pub name: String,
    pub workspaces: Vec<WorkspaceView>,
}

/// The addressing target chosen once at startup.
pub enum Target {
    /// Track one named monitor.
    Single(String),
    /// Track all workspaces across all monitors as one flattened list.
    All,
    /// Track every monitor separately, grouping views per monitor.
    PerMonitor,
}

/// The immutable configuration captured once at startup and used unchanged
/// by every recomputation: the addressing target, and the fixed workspace
/// slot count per monitor, when one is requested.
pub struct Config {
    pub target: Target,
    pub slots: Option<usize>,
}

/// What a single classification pass is addressed at: every workspace, or
/// only those owned by one named monitor.
pub enum Selector {
    AllMonitors,
    OnMonitor(String),
}

/// Why a recomputation could not produce a snapshot.
#[derive(Debug)]
pub enum SnapshotError {
    /// The external query interface was unreachable or returned malformed data.
    QueryFailed,
    /// The requested monitor name is not among the currently known monitors.
    TargetNotFound,
    /// No monitor currently reports input focus.
    NoFocusedMonitor,
}

/// The assembled output value of one recomputation.
pub enum Snapshot {
    /// Single-monitor and all-flattened modes: one list of workspace views.
    Flat(Vec<WorkspaceView>),
    /// Per-monitor grouped mode: one entry per monitor.
    Grouped(Vec<MonitorView>),
}

/// Workspace ids identify workspaces uniquely.
pub open spec fn unique_ids(ws: Seq<Workspace>) -> bool {
    forall|i: int, j: int| 0 <= i < j < ws.len() ==> ws[i].id != ws[j].id
}

/// Monitor names identify monitors uniquely.
pub open spec fn unique_monitor_names(ms: Seq<Monitor>) -> bool {
    forall|i: int, j: int| 0 <= i < j < ms.len() ==> ms[i].name@ != ms[j].name@
}

/// At most one monitor has input focus.
pub open spec fn at_most_one_focused(ms: Seq<Monitor>) -> bool {
    forall|i: int, j: int| 0 <= i < j < ms.len() ==> !(ms[i].focused && ms[j].focused)
}

/// The well-formedness the window manager guarantees of one query result.
pub open spec fn wm_state_ok(ws: Seq<Workspace>, ms: Seq<Monitor>) -> bool {
    &&& unique_ids(ws)
    &&& unique_monitor_names(ms)
    &&& at_most_one_focused(ms)
}

/// Some monitor carries the given name.
pub open spec fn has_monitor(ms: Seq<Monitor>, name: Seq<char>) -> bool {
    exists|i: int| 0 <= i < ms.len() && ms[i].name@ == name
}

/// The monitor carrying the given name (meaningful when `has_monitor` holds
/// and names are unique).
pub open spec fn monitor_named(ms: Seq<Monitor>, name: Seq<char>) -> Monitor {
    ms[choose|i: int| 0 <= i < ms.len() && ms[i].name@ == name]
}

/// Some monitor has input focus.
pub open spec fn has_focused(ms: Seq<Monitor>) -> bool {
    exists|i: int| 0 <= i < ms.len() && ms[i].focused
}

/// The focused monitor (meaningful when `has_focused` holds and at most one
/// monitor is focused).
pub open spec fn focused_monitor(ms: Seq<Monitor>) -> Monitor {
    ms[choose|i: int| 0 <= i < ms.len() && ms[i].focused]
}

/// The id is shown on some monitor right now.
pub open spec fn id_on_screen(ms: Seq<Monitor>, id: int) -> bool {
    exists|i: int| 0 <= i < ms.len() && ms[i].active_workspace_id == id
}

/// View ids are strictly ascending.
pub open spec fn strictly_sorted(vs: Seq<WorkspaceView>) -> bool {
    forall|i: int, j: int| 0 <= i < j < vs.len() ==> vs[i].id < vs[j].id
}

/// Some view carries the given id.
pub open spec fn has_view_id(vs: Seq<WorkspaceView>, id: int) -> bool {
    exists|i: int| 0 <= i < vs.len() && vs[i].id == id
}

/// The view carrying the given id (meaningful when `has_view_id` holds and
/// the sequence is strictly sorted).
pub open spec fn view_with_id(vs: Seq<WorkspaceView>, id: int) -> WorkspaceView {
    vs[choose|i: int| 0 <= i < vs.len() && vs[i].id == id]
}

/// The two views agree on every field, the style class compared as text.
pub open spec fn views_equiv(a: WorkspaceView, b: WorkspaceView) -> bool {
    &&& a.id == b.id
    &&& a.name == b.name
    &&& a.active == b.active
    &&& a.occupied == b.occupied
    &&& a.on_screen == b.on_screen
    &&& a.class@ == b.class@
}

/// An exact copy of a workspace view.
pub fn copy_view(v: &WorkspaceView) -> (r: WorkspaceView)
    ensures
        r == *v,
{
    WorkspaceView {
        name: v.name.clone(),
        id: v.id,
        active: v.active,
        occupied: v.occupied,
        on_screen: v.on_screen,
        class: v.class.clone(),
    }
}

/// An exact copy of a workspace record.
pub fn copy_workspace(w: &Workspace) -> (r: Workspace)
    ensures
        r == *w,
{
    Workspace { id: w.id, name: w.name.clone(), monitor: w.monitor.clone() }
}

} // verus!
