use std::time::{Duration, Instant, SystemTime, UNIX_EPOCH};

use corona::clock::{until_next_second, until_next_second_from};
use corona::events::{workspace_infos, workspace_names, HyprWorkspace, NotificationEvent};
use corona::manifest::{
    default_https_scheme, expand, expand_all, granted, CapabilitiesFile, ClipboardGrantFile,
    ExecuteFile, ExecuteGrant, FsGrantFile, HttpRequestGrantFile, NetworkGrantFile,
    ProcessGrantFile,
};
use corona::notifications::{CloseReason, Notifications};
use corona::panel::{toggle_action, ControlPanel, OpenPanel, PanelAction};
use corona::platform::CoronaPlatform;
use corona::script::{compositor, declaration, pipewire, Named, Subscriptions, Updates};

fn hypr(id: i32, name: &str) -> HyprWorkspace {
    HyprWorkspace { id, name: name.to_string() }
}

#[test]
fn the_active_workspace_is_marked() {
    let workspaces = vec![hypr(1, "1"), hypr(2, "web"), hypr(3, "3")];
    let infos = workspace_infos(&workspaces, Some(2));
    let active: Vec<bool> = infos.iter().map(|w| w.active).collect();
    assert_eq!(active, vec![false, true, false]);
    assert_eq!(infos[1].name, "web");
    assert!(workspace_infos(&workspaces, None).iter().all(|w| !w.active));
    assert_eq!(workspace_names(&workspaces), vec!["1", "web", "3"]);
}

#[test]
fn a_notification_gets_the_next_id_unless_it_replaces_one() {
    let mut server = Notifications::new();
    let (first, _) = server.notify("app".into(), 0, "".into(), "hi".into(), "".into(), vec![], -1);
    let (second, event) = server.notify("app".into(), 0, "icon".into(), "again".into(), "body".into(), vec!["ok".into()], 3000);
    let (replaced, _) = server.notify("app".into(), first, "".into(), "edit".into(), "".into(), vec![], 0);
    assert_eq!((first, second, replaced), (1, 2, 1));
    match event {
        NotificationEvent::New { id, summary, timeout_ms, actions, .. } => {
            assert_eq!(id, 2);
            assert_eq!(summary, "again");
            assert_eq!(timeout_ms, 3000);
            assert_eq!(actions, vec!["ok"]);
        }
        NotificationEvent::Close(_) => panic!("a new notification"),
    }
    assert_eq!(server.next_id, 2);
}

#[test]
fn a_notification_without_a_timeout_stays_five_seconds() {
    let mut server = Notifications::new();
    for expire in [0, -1] {
        match server.notify("a".into(), 0, "".into(), "s".into(), "".into(), vec![], expire).1 {
            NotificationEvent::New { timeout_ms, .. } => assert_eq!(timeout_ms, 5000),
            NotificationEvent::Close(_) => panic!("a new notification"),
        }
    }
    assert!(matches!(server.close_notification(7), NotificationEvent::Close(7)));
    assert_eq!(server.get_capabilities(), vec!["body", "actions"]);
}

#[test]
fn close_reasons_carry_the_protocol_numbers() {
    assert_eq!(CloseReason::Expired.code(), 1);
    assert_eq!(CloseReason::Dismissed.code(), 2);
    assert_eq!(CloseReason::Closed.code(), 3);
    assert_eq!(CloseReason::Undefined.code(), 4);
}

#[test]
fn the_tick_lands_just_after_the_boundary() {
    assert_eq!(until_next_second_from(0), 1_001_000_000);
    assert_eq!(until_next_second_from(999_999_999), 1_000_001);
    assert_eq!(until_next_second_from(400_000_000), 601_000_000);
    let wait = until_next_second();
    assert!(wait > 1_000_000 && wait <= 1_001_000_000);
}

#[test]
fn placeholders_expand_and_relative_paths_land_in_the_plugin() {
    assert_eq!(expand("${pluginDir}/assets", "/plugins/inbox", "/data/inbox"), "/plugins/inbox/assets");
    assert_eq!(expand("${dataDir}/cache", "/plugins/inbox", "/data/inbox"), "/data/inbox/cache");
    assert_eq!(expand("assets", "/plugins/inbox", "/data/inbox"), "/plugins/inbox/assets");
    assert_eq!(expand("assets", "/plugins/inbox/", "/data"), "/plugins/inbox/assets");
    assert_eq!(expand("/etc/hosts", "/plugins/inbox", "/data"), "/etc/hosts");
    assert_eq!(expand("", "/plugins/inbox", "/data"), "/plugins/inbox/");
    assert_eq!(
        expand_all(&vec!["a".to_string(), "${dataDir}".to_string()], "/p", "/d"),
        vec!["/p/a", "/d"]
    );
}

#[test]
fn a_manifest_grants_what_it_names_and_storage_unless_it_says_no() {
    assert!(granted());
    assert_eq!(default_https_scheme(), "https");
    let file = CapabilitiesFile {
        fs: Some(FsGrantFile {
            read: vec!["${pluginDir}".to_string()],
            write: vec!["out".to_string()],
            execute: Some(ExecuteFile::Allowed(vec!["notify-send".to_string()])),
        }),
        network: Some(NetworkGrantFile {
            hosts: vec!["API.Example.com".to_string()],
            http: vec![HttpRequestGrantFile {
                scheme: default_https_scheme(),
                host: "api.example.com".to_string(),
                port: Some(8443),
                methods: vec!["GET".to_string()],
                paths: vec![],
                path_prefixes: vec!["/v1/".to_string()],
            }],
        }),
        storage: granted(),
        clipboard: Some(ClipboardGrantFile { read: true, write: false }),
        process: Some(ProcessGrantFile { exit: true }),
    };
    let caps = file.grant("/plugins/inbox", "/data/inbox");
    assert_eq!(caps.read_roots, vec!["/plugins/inbox"]);
    assert_eq!(caps.write_roots, vec!["/plugins/inbox/out"]);
    assert!(matches!(&caps.execute, ExecuteGrant::Allowed(c) if c == &vec!["notify-send".to_string()]));
    assert_eq!(caps.network_hosts, vec!["api.example.com"]);
    assert_eq!(caps.http_requests.len(), 1);
    assert_eq!(caps.http_requests[0].port, Some(8443));
    assert_eq!(caps.http_requests[0].scheme, "https");
    assert!(caps.storage && caps.clipboard_read && !caps.clipboard_write && caps.exit);

    let bare = CapabilitiesFile { fs: None, network: None, storage: true, clipboard: None, process: None };
    let caps = bare.grant("/p", "/d");
    assert!(caps.read_roots.is_empty() && caps.write_roots.is_empty());
    assert!(matches!(caps.execute, ExecuteGrant::Denied));
    assert!(caps.network_hosts.is_empty() && caps.http_requests.is_empty());
    assert!(caps.storage && !caps.clipboard_read && !caps.exit);

    let any = CapabilitiesFile {
        fs: Some(FsGrantFile { read: vec![], write: vec![], execute: Some(ExecuteFile::Unrestricted("*".into())) }),
        network: None,
        storage: false,
        clipboard: None,
        process: None,
    };
    let caps = any.grant("/p", "/d");
    assert!(matches!(caps.execute, ExecuteGrant::Unrestricted));
    assert!(!caps.storage);
}

#[test]
fn a_read_is_remembered() {
    let mut reads = Subscriptions::default();
    let sinks = Updates::Pipewire(pipewire::Updates::Sinks);
    let monitors = Updates::Compositor(compositor::Updates::Monitors);
    assert!(!reads.contains(sinks));
    reads.record(sinks);
    reads.record(sinks);
    assert!(reads.contains(sinks));
    assert!(!reads.contains(monitors));
    reads.record(monitors);
    assert!(reads.contains(monitors) && reads.contains(sinks));
}

#[test]
fn a_named_function_keeps_its_names() {
    let named = Named::new("getNode", &["cx", "id"], |x: u32| x + 1);
    assert_eq!(named.script_name(), "getNode");
    assert_eq!(named.param_names(), &["cx", "id"]);
    assert_eq!((named.into_inner())(1), 2);
}

#[test]
fn the_last_window_added_is_handed_out_first() {
    let mut platform = CoronaPlatform::new();
    platform.add_window("bar");
    platform.add_window("panel");
    assert_eq!(platform.create_window_adapter(), Some("panel"));
    assert_eq!(platform.create_window_adapter(), Some("bar"));
    assert_eq!(platform.create_window_adapter(), None);
}

#[test]
fn a_toggle_closes_reopens_or_moves_the_panel() {
    assert_eq!(toggle_action(None), PanelAction::OpenNew);
    assert_eq!(toggle_action(Some(OpenPanel { same_align: true, open: true })), PanelAction::Close);
    assert_eq!(toggle_action(Some(OpenPanel { same_align: true, open: false })), PanelAction::Reopen);
    assert_eq!(toggle_action(Some(OpenPanel { same_align: false, open: true })), PanelAction::CloseAndOpenNew);
    assert_eq!(ControlPanel::name(), "control-panel");
}

#[test]
fn lands_after_a_second_boundary() {
    for _ in 0..100 {
        let now = SystemTime::now().duration_since(UNIX_EPOCH).unwrap();
        let target = now + Duration::from_nanos(until_next_second());
        assert_eq!(target.as_secs(), now.as_secs() + 1);
        assert!(target.subsec_nanos() < 2_000_000, "{target:?}");
        let start = Instant::now();
        while start.elapsed() < Duration::from_millis(7) {}
    }
}

#[test]
fn a_declaration_lists_the_typed_parameters() {
    let types = vec![None, Some("number".to_string()), Some("boolean".to_string())];
    assert_eq!(
        declaration("set", &["cx", "id", "force"], &types, "Error | null", false),
        "export function set(id: number, force: boolean): Error | null;"
    );
    assert_eq!(
        declaration("double", &["id"], &vec![Some("number".to_string())], "number", true),
        "export function double(id: number): Promise<number>;"
    );
    assert_eq!(declaration("count", &[], &vec![], "number", false), "export function count(): number;");
}
