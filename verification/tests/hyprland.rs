use corona::compositor::{CompositorEvent, Window};
use corona::hyprland::{
    active_monitor, active_special_events, active_window_events, monitor_events, socket_paths,
    window_events, workspace_events, focused_monitor_events, monitors_from, plan_event,
    workspaces_from, Command, CommandFlags, EventError, EventPlan, Ipc, Monitor, Workspace,
    WorkspaceInfo,
};

fn info(address: &str, name: &str) -> WorkspaceInfo {
    WorkspaceInfo { address: address.to_string(), name: name.to_string() }
}

fn monitor(id: u32, name: &str, x: i32, y: i32, focused: bool, disabled: bool, special: &str) -> Monitor {
    Monitor {
        id,
        name: name.to_string(),
        width: 1920,
        height: 1080,
        refresh_rate: 60.0f32.to_bits(),
        x,
        y,
        special_workspace: info(special, if special.is_empty() { "" } else { "special:scratch" }),
        active_workspace: info(&format!("0x{id}"), "1"),
        scale: 1.0f32.to_bits(),
        focused,
        disabled,
        mirror_of: "none".to_string(),
    }
}

fn workspace(address: &str, kind: &str, name: &str) -> Workspace {
    Workspace {
        address: address.to_string(),
        workspace_type: kind.to_string(),
        name: name.to_string(),
        monitor: "DP-1".to_string(),
        monitor_id: 0,
    }
}

#[test]
fn a_request_is_prefixed_by_its_flags() {
    let json = Command { command: "monitors all".to_string(), flags: CommandFlags::json() };
    assert_eq!(json.to_string(), "j/monitors all");
    let plain = Command { command: "dispatch exit".to_string(), flags: CommandFlags::empty() };
    assert_eq!(plain.to_string(), "/dispatch exit");
    let both = Command { command: "clients".to_string(), flags: CommandFlags { json: true, refresh: true } };
    assert_eq!(both.to_string(), "jr/clients");
}

#[test]
fn a_dispatch_is_evaluated_lua() {
    let call = Ipc::focus_workspace_call("3");
    assert_eq!(call, "focus({ workspace = 3 })");
    let lua = Ipc::dsp_call(&call);
    assert_eq!(lua, "hl.dispatch(hl.dsp.focus({ workspace = 3 }))");
    let command = Ipc::eval_command(&lua);
    assert_eq!(command.to_string(), "/eval hl.dispatch(hl.dsp.focus({ workspace = 3 }))");
    assert_eq!(Ipc::data_command("workspaces").to_string(), "j/workspaces");
}

#[test]
fn only_ok_is_a_successful_dispatch() {
    assert!(Ipc::dsp_reply("ok").is_ok());
    assert_eq!(Ipc::dsp_reply("no such workspace").unwrap_err().reply, "no such workspace");
    assert!(Ipc::dsp_reply("").is_err());
}

#[test]
fn monitors_run_left_to_right_then_top_to_bottom() {
    let monitors = monitors_from(vec![
        monitor(2, "HDMI-1", 1920, 0, false, true, ""),
        monitor(1, "DP-2", 0, 1080, false, true, ""),
        monitor(0, "DP-1", 0, 0, true, true, "0xabc"),
    ]);
    let names: Vec<&str> = monitors.iter().map(|m| m.name.as_str()).collect();
    assert_eq!(names, vec!["DP-1", "DP-2", "HDMI-1"]);
}

#[test]
fn a_monitor_is_enabled_when_hyprland_says_disabled() {
    let monitors = monitors_from(vec![monitor(0, "DP-1", 0, 0, true, true, "0xabc")]);
    let m = &monitors[0];
    assert!(!m.disabled);
    assert_eq!(m.active_workspace.id, "0x0");
    assert_eq!(m.active_workspace.monitor, "DP-1");
    let scratch = m.active_scratchpad.as_ref().expect("a special workspace with an address");
    assert_eq!(scratch.id, "0xabc");
    assert_eq!(scratch.monitor_id, 0);
    let plain = monitors_from(vec![monitor(1, "DP-2", 0, 0, false, false, "")]);
    assert!(plain[0].active_scratchpad.is_none());
    assert!(plain[0].disabled);
}

#[test]
fn special_workspaces_are_not_listed_and_the_rest_run_by_id() {
    let workspaces = workspaces_from(vec![
        workspace("0x30", "regular", "3"),
        workspace("0x10", "regular", "1"),
        workspace("0x99", "special", "special:scratch"),
        workspace("0x20", "regular", "2"),
    ]);
    let ids: Vec<&str> = workspaces.iter().map(|w| w.id.as_str()).collect();
    assert_eq!(ids, vec!["0x10", "0x20", "0x30"]);
}

#[test]
fn the_active_monitor_is_the_first_focused_enabled_one() {
    let monitors = monitors_from(vec![
        monitor(0, "DP-1", 0, 0, true, false, ""),
        monitor(1, "DP-2", 100, 0, true, true, ""),
    ]);
    assert_eq!(active_monitor(monitors).unwrap().name, "DP-2");
    let none = monitors_from(vec![monitor(0, "DP-1", 0, 0, false, true, "")]);
    assert!(active_monitor(none).is_err());
}

#[test]
fn each_event_asks_for_what_it_moves() {
    assert!(matches!(plan_event("workspace>>2"), Ok(EventPlan::Workspaces)));
    assert!(matches!(plan_event("moveworkspace>>2,DP-1"), Ok(EventPlan::Workspaces)));
    assert!(matches!(plan_event("openwindow>>80a6f50,2,kitty,Kitty"), Ok(EventPlan::Windows)));
    assert!(matches!(plan_event("activewindow>>kitty,zsh"), Ok(EventPlan::ActiveWindow)));
    match plan_event("focusedmon>>DP-1,2") {
        Ok(EventPlan::FocusedMonitor(name)) => assert_eq!(name, "DP-1"),
        other => panic!("{other:?}"),
    }
    assert!(matches!(plan_event("monitoradded>>HDMI-A-1"), Ok(EventPlan::Monitors)));
    match plan_event("activespecial>>special:scratch>>DP-1") {
        Ok(EventPlan::ActiveSpecial(name)) => assert_eq!(name, "DP-1"),
        other => panic!("{other:?}"),
    }
    assert!(matches!(plan_event("submap>>resize"), Ok(EventPlan::Ignored)));
    assert!(matches!(plan_event("no separator"), Err(EventError::InvalidFormat)));
    assert!(matches!(plan_event("focusedmon>>DP-1"), Err(EventError::InvalidFormat)));
    assert!(matches!(plan_event("activespecial>>DP-1"), Err(EventError::InvalidFormat)));
}

#[test]
fn a_focused_monitor_moves_its_workspace_scratchpad_and_itself() {
    let monitors = monitors_from(vec![
        monitor(0, "DP-1", 0, 0, false, true, ""),
        monitor(1, "DP-2", 100, 0, true, true, "0xabc"),
    ]);
    let events = focused_monitor_events(monitors, "DP-2").unwrap();
    assert_eq!(events.len(), 3);
    match (&events[0], &events[1], &events[2]) {
        (
            CompositorEvent::ActiveWorkspace(w),
            CompositorEvent::ActiveScratchpad(s),
            CompositorEvent::ActiveMonitor(m),
        ) => {
            assert_eq!(w.id, "0x1");
            assert_eq!(s.name, "DP-2");
            assert_eq!(m.id, 1);
        }
        _ => panic!("workspace, scratchpad, monitor"),
    }
    let monitors = monitors_from(vec![monitor(0, "DP-1", 0, 0, false, true, "")]);
    assert!(matches!(
        focused_monitor_events(monitors, "DP-9"),
        Err(EventError::MonitorNotFound)
    ));
}

#[test]
fn an_active_special_moves_the_scratchpad_of_its_monitor() {
    let monitors = monitors_from(vec![monitor(0, "DP-1", 0, 0, false, true, "0xabc")]);
    let events = active_special_events(monitors, "DP-1").unwrap();
    assert_eq!(events.len(), 1);
    assert!(matches!(&events[0], CompositorEvent::ActiveScratchpad(m) if m.name == "DP-1"));
}

#[test]
fn the_sockets_sit_in_the_socket_directory() {
    let (cmd, events) = socket_paths("/run/user/1000/hypr/abc");
    assert_eq!(cmd, "/run/user/1000/hypr/abc/.socket.sock");
    assert_eq!(events, "/run/user/1000/hypr/abc/.socket2.sock");
    assert_eq!(socket_paths("/tmp/").0, "/tmp/.socket.sock");
}

#[test]
fn workspace_events_report_the_list_then_the_active_one() {
    let list = workspaces_from(vec![workspace("0x10", "regular", "1")]);
    let active = workspace("0x10", "regular", "1").into_compositor();
    let events = workspace_events::<&str>(Ok(list), Ok(active)).unwrap();
    assert_eq!(events.len(), 2);
    assert!(matches!(&events[0], CompositorEvent::Workspace(ws) if ws.len() == 1));
    assert!(matches!(&events[1], CompositorEvent::ActiveWorkspace(w) if w.id == "0x10"));
    let active = workspace("0x10", "regular", "1").into_compositor();
    assert!(matches!(workspace_events(Err("list"), Ok(active)), Err("list")));
    assert!(matches!(workspace_events(Ok(vec![]), Err("active")), Err("active")));
    let monitors = monitors_from(vec![monitor(0, "DP-1", 0, 0, true, true, "")]);
    let events = monitor_events::<&str>(Ok(monitors)).unwrap();
    assert!(matches!(&events[0], CompositorEvent::Monitor(ms) if ms.len() == 1));
    assert!(matches!(monitor_events(Err("down")), Err("down")));
}

fn window(address: &str, title: &str) -> Window {
    Window {
        address: address.to_string(),
        monitor: 0,
        workspace: "1".to_string(),
        class: "kitty".to_string(),
        title: title.to_string(),
        x: 10,
        y: 20,
    }
}

#[test]
fn window_events_report_the_list_then_the_active_one() {
    let events = window_events::<&str>(
        Ok(vec![window("0x1", "zsh"), window("0x2", "vim")]),
        Ok(Some(window("0x2", "vim"))),
    )
    .unwrap();
    assert_eq!(events.len(), 2);
    assert!(matches!(&events[0], CompositorEvent::Window(ws) if ws.len() == 2 && ws[0].title == "zsh"));
    assert!(matches!(&events[1], CompositorEvent::ActiveWindow(Some(w)) if w.address == "0x2"));
    assert!(matches!(window_events(Err("clients"), Ok(None)), Err("clients")));
    assert!(matches!(window_events(Ok(vec![]), Err("active")), Err("active")));

    let events = active_window_events::<&str>(Ok(None)).unwrap();
    assert_eq!(events.len(), 1);
    assert!(matches!(&events[0], CompositorEvent::ActiveWindow(None)));
    assert!(matches!(active_window_events(Err("down")), Err("down")));
}
