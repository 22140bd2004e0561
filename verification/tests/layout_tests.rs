use hyprland_workspaces::fill::fill;
use hyprland_workspaces::model::Config;
use hyprland_workspaces::model::Monitor;
use hyprland_workspaces::model::Snapshot;
use hyprland_workspaces::model::SnapshotError;
use hyprland_workspaces::model::Target;
use hyprland_workspaces::model::Workspace;
use hyprland_workspaces::model::WorkspaceView;
use hyprland_workspaces::partition::partition;
use hyprland_workspaces::snapshot::empty_snapshot;
use hyprland_workspaces::snapshot::snapshot;
use hyprland_workspaces::snapshot::target_known;

fn ws(id: i32, name: &str, monitor: &str) -> Workspace {
    Workspace { id, name: name.to_string(), monitor: monitor.to_string() }
}

fn mon(name: &str, focused: bool, active_workspace_id: i32) -> Monitor {
    Monitor { name: name.to_string(), focused, active_workspace_id }
}

fn view(id: i32) -> WorkspaceView {
    WorkspaceView {
        name: id.to_string(),
        id,
        active: false,
        occupied: true,
        on_screen: false,
        class: format!("workspace-button w{id}"),
    }
}

#[test]
fn fill_pads_every_missing_slot() {
    let views = vec![view(2), view(5)];
    let filled = fill(&views, 5);
    assert_eq!(filled.len(), 5);
    let ids: Vec<i32> = filled.iter().map(|v| v.id).collect();
    assert_eq!(ids, vec![1, 2, 3, 4, 5]);
    // Real entries keep their fields at the slot of their id.
    assert!(filled[1].occupied);
    assert_eq!(filled[1].name, "2");
    assert_eq!(filled[1].class, "workspace-button w2");
    assert!(filled[4].occupied);
    // Padded slots are synthetic.
    for k in [0, 2, 3] {
        assert!(!filled[k].occupied);
        assert!(!filled[k].active);
        assert!(!filled[k].on_screen);
        assert_eq!(filled[k].class, "workspace-unoccupied wU");
    }
    assert_eq!(filled[0].name, "1");
    assert_eq!(filled[3].name, "4");
}

#[test]
fn fill_drops_entries_beyond_slot_count() {
    let views = vec![view(2), view(7)];
    let filled = fill(&views, 5);
    assert_eq!(filled.len(), 5);
    assert!(filled.iter().all(|v| v.id <= 5));
    assert!(filled[1].occupied);
    assert_eq!(filled.iter().filter(|v| v.occupied).count(), 1);
}

#[test]
fn fill_of_nothing_is_all_placeholders() {
    let filled = fill(&Vec::new(), 3);
    assert_eq!(filled.len(), 3);
    assert!(filled.iter().all(|v| !v.occupied));
}

#[test]
fn fill_names_multi_digit_slots() {
    let filled = fill(&Vec::new(), 12);
    assert_eq!(filled[9].name, "10");
    assert_eq!(filled[11].name, "12");
    assert_eq!(filled[11].id, 12);
}

#[test]
fn partition_assigns_reverse_indexed_sections() {
    // Two monitors, five slots each: reverse index 0 is the monitor listed
    // last, and it receives positions [0, 5); reverse index 1 receives [5, 10).
    let monitors = vec![mon("eDP-1", true, 1), mon("HDMI-1", false, 6)];
    let filled = fill(&Vec::new(), 10);
    let hdmi = partition(&filled, &monitors, &"HDMI-1".to_string());
    let ids: Vec<i32> = hdmi.iter().map(|v| v.id).collect();
    assert_eq!(ids, vec![1, 2, 3, 4, 5]);
    let edp = partition(&filled, &monitors, &"eDP-1".to_string());
    let ids: Vec<i32> = edp.iter().map(|v| v.id).collect();
    assert_eq!(ids, vec![6, 7, 8, 9, 10]);
}

#[test]
fn partition_last_reverse_index_absorbs_remainder() {
    let monitors = vec![mon("eDP-1", true, 1), mon("HDMI-1", false, 4)];
    let filled = fill(&Vec::new(), 7);
    let first = partition(&filled, &monitors, &"HDMI-1".to_string());
    assert_eq!(first.len(), 3);
    let last = partition(&filled, &monitors, &"eDP-1".to_string());
    assert_eq!(last.len(), 4);
    assert_eq!(first.len() + last.len(), filled.len());
}

#[test]
fn partition_unknown_target_returns_everything() {
    // The documented fallback: a target absent from the monitor list skips
    // the partition step and yields the full filled list unsliced.
    let monitors = vec![mon("eDP-1", true, 1)];
    let filled = fill(&Vec::new(), 4);
    let r = partition(&filled, &monitors, &"HDMI-1".to_string());
    assert_eq!(r.len(), 4);
    let ids: Vec<i32> = r.iter().map(|v| v.id).collect();
    assert_eq!(ids, vec![1, 2, 3, 4]);
}

#[test]
fn snapshot_single_with_slots_fills_and_slices() {
    let workspaces = vec![
        ws(6, "6", "eDP-1"),
        ws(8, "8", "eDP-1"),
        ws(1, "1", "HDMI-1"),
        ws(3, "3", "HDMI-1"),
    ];
    let monitors = vec![mon("eDP-1", true, 6), mon("HDMI-1", false, 1)];
    let config = Config { target: Target::Single("eDP-1".to_string()), slots: Some(5) };
    let snap = snapshot(&config, &workspaces, &monitors).unwrap();
    let views = match snap {
        Snapshot::Flat(v) => v,
        Snapshot::Grouped(_) => panic!("single mode must yield a flat list"),
    };
    let ids: Vec<i32> = views.iter().map(|v| v.id).collect();
    assert_eq!(ids, vec![6, 7, 8, 9, 10]);
    assert!(views[0].occupied && views[0].active && views[0].on_screen);
    assert_eq!(views[0].class, "workspace-button w6 on-screen workspace-active wa6");
    assert!(!views[1].occupied);
    assert_eq!(views[1].class, "workspace-unoccupied wU");
    assert!(views[2].occupied && !views[2].active);
}

#[test]
fn snapshot_single_without_slots_is_classification_alone() {
    let workspaces = vec![ws(1, "1", "eDP-1"), ws(3, "3", "eDP-1")];
    let monitors = vec![mon("eDP-1", true, 1)];
    let config = Config { target: Target::Single("eDP-1".to_string()), slots: None };
    let snap = snapshot(&config, &workspaces, &monitors).unwrap();
    let views = match snap {
        Snapshot::Flat(v) => v,
        Snapshot::Grouped(_) => panic!("single mode must yield a flat list"),
    };
    assert_eq!(views.len(), 2);
}

#[test]
fn snapshot_all_with_slots_never_partitions() {
    let workspaces = vec![ws(2, "2", "eDP-1"), ws(6, "6", "HDMI-1")];
    let monitors = vec![mon("eDP-1", true, 2), mon("HDMI-1", false, 6)];
    let config = Config { target: Target::All, slots: Some(4) };
    let snap = snapshot(&config, &workspaces, &monitors).unwrap();
    let views = match snap {
        Snapshot::Flat(v) => v,
        Snapshot::Grouped(_) => panic!("all mode must yield a flat list"),
    };
    // The slot count is taken as given, not multiplied by the monitor count,
    // and the list is not sliced: four slots, id 6 dropped as overflow.
    let ids: Vec<i32> = views.iter().map(|v| v.id).collect();
    assert_eq!(ids, vec![1, 2, 3, 4]);
    assert!(views[1].occupied && views[1].active);
}

#[test]
fn snapshot_grouped_lists_every_monitor() {
    let workspaces = vec![ws(1, "1", "eDP-1"), ws(2, "2", "eDP-1"), ws(6, "6", "HDMI-1")];
    let monitors = vec![mon("eDP-1", true, 1), mon("HDMI-1", false, 6)];
    let config = Config { target: Target::PerMonitor, slots: None };
    let snap = snapshot(&config, &workspaces, &monitors).unwrap();
    let groups = match snap {
        Snapshot::Grouped(g) => g,
        Snapshot::Flat(_) => panic!("grouped mode must yield groups"),
    };
    assert_eq!(groups.len(), 2);
    assert_eq!(groups[0].name, "eDP-1");
    assert_eq!(groups[1].name, "HDMI-1");
    let ids: Vec<i32> = groups[0].workspaces.iter().map(|v| v.id).collect();
    assert_eq!(ids, vec![1, 2]);
    let ids: Vec<i32> = groups[1].workspaces.iter().map(|v| v.id).collect();
    assert_eq!(ids, vec![6]);
    assert!(groups[0].workspaces[0].active);
    assert!(!groups[1].workspaces[0].active);
}

#[test]
fn snapshot_grouped_with_slots_slices_per_monitor() {
    let workspaces = vec![ws(6, "6", "eDP-1"), ws(1, "1", "HDMI-1")];
    let monitors = vec![mon("eDP-1", true, 6), mon("HDMI-1", false, 1)];
    let config = Config { target: Target::PerMonitor, slots: Some(5) };
    let snap = snapshot(&config, &workspaces, &monitors).unwrap();
    let groups = match snap {
        Snapshot::Grouped(g) => g,
        Snapshot::Flat(_) => panic!("grouped mode must yield groups"),
    };
    assert_eq!(groups.len(), 2);
    let ids: Vec<i32> = groups[0].workspaces.iter().map(|v| v.id).collect();
    assert_eq!(ids, vec![6, 7, 8, 9, 10]);
    assert!(groups[0].workspaces[0].occupied);
    let ids: Vec<i32> = groups[1].workspaces.iter().map(|v| v.id).collect();
    assert_eq!(ids, vec![1, 2, 3, 4, 5]);
    assert!(groups[1].workspaces[0].occupied);
    assert!(!groups[1].workspaces[1].occupied);
}

#[test]
fn snapshot_unknown_single_target_errs() {
    let workspaces = vec![ws(1, "1", "eDP-1")];
    let monitors = vec![mon("eDP-1", true, 1)];
    let config = Config { target: Target::Single("DP-2".to_string()), slots: Some(3) };
    let r = snapshot(&config, &workspaces, &monitors);
    assert!(matches!(r, Err(SnapshotError::TargetNotFound)));
}

#[test]
fn snapshot_grouped_without_monitors_is_empty() {
    let workspaces = vec![ws(1, "1", "eDP-1")];
    let monitors: Vec<Monitor> = Vec::new();
    let config = Config { target: Target::PerMonitor, slots: None };
    let snap = snapshot(&config, &workspaces, &monitors).unwrap();
    match snap {
        Snapshot::Grouped(g) => assert_eq!(g.len(), 0),
        Snapshot::Flat(_) => panic!("grouped mode must yield groups"),
    }
}

#[test]
fn target_known_checks_names_and_presence() {
    let monitors = vec![mon("eDP-1", true, 1)];
    assert!(target_known(&Target::Single("eDP-1".to_string()), &monitors));
    assert!(!target_known(&Target::Single("DP-2".to_string()), &monitors));
    assert!(target_known(&Target::All, &monitors));
    assert!(target_known(&Target::PerMonitor, &monitors));
    let none: Vec<Monitor> = Vec::new();
    assert!(!target_known(&Target::All, &none));
    assert!(!target_known(&Target::Single("eDP-1".to_string()), &none));
}

#[test]
fn empty_snapshot_matches_mode_shape() {
    match empty_snapshot(&Target::All) {
        Snapshot::Flat(v) => assert_eq!(v.len(), 0),
        Snapshot::Grouped(_) => panic!("flat modes degrade to an empty flat list"),
    }
    match empty_snapshot(&Target::Single("eDP-1".to_string())) {
        Snapshot::Flat(v) => assert_eq!(v.len(), 0),
        Snapshot::Grouped(_) => panic!("flat modes degrade to an empty flat list"),
    }
    match empty_snapshot(&Target::PerMonitor) {
        Snapshot::Grouped(g) => assert_eq!(g.len(), 0),
        Snapshot::Flat(_) => panic!("grouped mode degrades to an empty group list"),
    }
}
