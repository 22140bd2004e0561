use hyprland_workspaces::classify::classify;
use hyprland_workspaces::model::Monitor;
use hyprland_workspaces::model::Selector;
use hyprland_workspaces::model::SnapshotError;
use hyprland_workspaces::model::Workspace;

fn ws(id: i32, name: &str, monitor: &str) -> Workspace {
    Workspace { id, name: name.to_string(), monitor: monitor.to_string() }
}

fn mon(name: &str, focused: bool, active_workspace_id: i32) -> Monitor {
    Monitor { name: name.to_string(), focused, active_workspace_id }
}

fn on(name: &str) -> Selector {
    Selector::OnMonitor(name.to_string())
}

#[test]
fn single_monitor_no_filler() {
    // Two real workspaces on the target monitor, no slot count anywhere in
    // sight: exactly those two come back, in id order, nothing synthetic.
    let workspaces = vec![ws(1, "1", "eDP-1"), ws(3, "3", "eDP-1")];
    let monitors = vec![mon("eDP-1", true, 1)];
    let views = classify(&workspaces, &monitors, &on("eDP-1")).unwrap();
    assert_eq!(views.len(), 2);
    assert_eq!(views[0].id, 1);
    assert_eq!(views[1].id, 3);
    assert!(views.iter().all(|v| v.occupied));
}

#[test]
fn flags_and_class_tokens() {
    let workspaces = vec![ws(1, "one", "eDP-1"), ws(3, "three", "eDP-1")];
    let monitors = vec![mon("eDP-1", true, 1)];
    let views = classify(&workspaces, &monitors, &on("eDP-1")).unwrap();
    assert_eq!(views[0].name, "one");
    assert!(views[0].active);
    assert!(views[0].on_screen);
    assert!(views[0].occupied);
    assert_eq!(views[0].class, "workspace-button w1 on-screen workspace-active wa1");
    assert!(!views[1].active);
    assert!(!views[1].on_screen);
    assert_eq!(views[1].class, "workspace-button w3");
}

#[test]
fn output_sorted_ascending() {
    let workspaces = vec![ws(9, "9", "eDP-1"), ws(2, "2", "eDP-1"), ws(5, "5", "eDP-1")];
    let monitors = vec![mon("eDP-1", true, 2)];
    let views = classify(&workspaces, &monitors, &on("eDP-1")).unwrap();
    let ids: Vec<i32> = views.iter().map(|v| v.id).collect();
    assert_eq!(ids, vec![2, 5, 9]);
}

#[test]
fn all_mode_flattens_and_marks_on_screen() {
    let workspaces = vec![ws(7, "7", "HDMI-1"), ws(1, "1", "eDP-1"), ws(2, "2", "eDP-1")];
    let monitors = vec![mon("eDP-1", true, 2), mon("HDMI-1", false, 7)];
    let views = classify(&workspaces, &monitors, &Selector::AllMonitors).unwrap();
    let ids: Vec<i32> = views.iter().map(|v| v.id).collect();
    assert_eq!(ids, vec![1, 2, 7]);
    // The globally active workspace is the focused monitor's.
    assert!(!views[0].active);
    assert!(views[1].active);
    assert!(!views[2].active);
    // On-screen means shown on some monitor, focused or not.
    assert!(!views[0].on_screen);
    assert!(views[1].on_screen);
    assert!(views[2].on_screen);
    assert_eq!(views[2].class, "workspace-button w7 on-screen");
}

#[test]
fn unfocused_target_grants_no_active_flag() {
    // The target monitor shows workspace 7, but focus is elsewhere: 7 is on
    // screen yet not active.
    let workspaces = vec![ws(7, "7", "HDMI-1")];
    let monitors = vec![mon("eDP-1", true, 2), mon("HDMI-1", false, 7)];
    let views = classify(&workspaces, &monitors, &on("HDMI-1")).unwrap();
    assert_eq!(views.len(), 1);
    assert!(views[0].on_screen);
    assert!(!views[0].active);
    assert_eq!(views[0].class, "workspace-button w7 on-screen");
}

#[test]
fn multi_digit_id_renders_in_class() {
    let workspaces = vec![ws(42, "42", "eDP-1"), ws(107, "107", "eDP-1")];
    let monitors = vec![mon("eDP-1", true, 42)];
    let views = classify(&workspaces, &monitors, &on("eDP-1")).unwrap();
    assert_eq!(views[0].class, "workspace-button w42 on-screen workspace-active wa42");
    assert_eq!(views[1].class, "workspace-button w107");
}

#[test]
fn negative_id_renders_in_class() {
    let workspaces = vec![ws(-3, "special", "eDP-1")];
    let monitors = vec![mon("eDP-1", true, 1)];
    let views = classify(&workspaces, &monitors, &on("eDP-1")).unwrap();
    assert_eq!(views[0].id, -3);
    assert_eq!(views[0].class, "workspace-button w-3");
}

#[test]
fn unknown_target_is_target_not_found() {
    let workspaces = vec![ws(1, "1", "eDP-1")];
    let monitors = vec![mon("eDP-1", true, 1)];
    let r = classify(&workspaces, &monitors, &on("DP-2"));
    assert!(matches!(r, Err(SnapshotError::TargetNotFound)));
}

#[test]
fn no_focus_is_no_focused_monitor() {
    let workspaces = vec![ws(1, "1", "eDP-1")];
    let monitors = vec![mon("eDP-1", false, 1)];
    let r = classify(&workspaces, &monitors, &on("eDP-1"));
    assert!(matches!(r, Err(SnapshotError::NoFocusedMonitor)));
}

#[test]
fn at_most_one_active_per_pass() {
    let workspaces = vec![
        ws(1, "1", "eDP-1"),
        ws(2, "2", "eDP-1"),
        ws(3, "3", "eDP-1"),
        ws(4, "4", "eDP-1"),
    ];
    let monitors = vec![mon("eDP-1", true, 3)];
    let views = classify(&workspaces, &monitors, &on("eDP-1")).unwrap();
    assert_eq!(views.iter().filter(|v| v.active).count(), 1);
    assert!(views[2].active);
}

#[test]
fn classification_is_deterministic() {
    let workspaces = vec![ws(4, "4", "HDMI-1"), ws(1, "1", "eDP-1"), ws(2, "2", "eDP-1")];
    let monitors = vec![mon("eDP-1", true, 1), mon("HDMI-1", false, 4)];
    let first = classify(&workspaces, &monitors, &Selector::AllMonitors).unwrap();
    let second = classify(&workspaces, &monitors, &Selector::AllMonitors).unwrap();
    assert_eq!(first.len(), second.len());
    for (a, b) in first.iter().zip(second.iter()) {
        assert_eq!(a.id, b.id);
        assert_eq!(a.name, b.name);
        assert_eq!(a.active, b.active);
        assert_eq!(a.occupied, b.occupied);
        assert_eq!(a.on_screen, b.on_screen);
        assert_eq!(a.class, b.class);
    }
}
