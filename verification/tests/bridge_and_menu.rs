use tray_core::bridge::AppMessage;
use tray_core::bridge::Consumer;
use tray_core::bridge::EventBridge;
use tray_core::bridge::Reaction;
use tray_core::bridge::dispatch;
use tray_core::bridge::message_for_id;
use tray_core::command::CommandOutput;
use tray_core::docker::Docker;
use tray_core::menu::MenuModel;
use tray_core::menu::MenuRow;
use tray_core::menu::project_docker;
use tray_core::menu::project_tailscale;
use tray_core::tailscale::Tailscale;

fn item(label: &str, id: &str, enabled: bool) -> MenuRow {
    MenuRow::Item {
        label: label.to_string(),
        id: id.to_string(),
        enabled,
    }
}

fn ids_of(model: &MenuModel) -> Vec<String> {
    model
        .rows
        .iter()
        .filter_map(|r| match r {
            MenuRow::Item { id, .. } => Some(id.clone()),
            MenuRow::Separator => None,
        })
        .collect()
}

#[test]
fn bridge_delivers_in_send_order_and_quit_is_terminal() {
    let mut bridge = EventBridge::new();
    bridge.send(AppMessage::Refresh);
    bridge.send(AppMessage::Toggle);
    bridge.send(AppMessage::Quit);
    bridge.send(AppMessage::Refresh);
    let mut consumer = Consumer::new();
    let log = consumer.run(&mut bridge);
    assert_eq!(
        log,
        vec![AppMessage::Refresh, AppMessage::Toggle, AppMessage::Quit]
    );
    assert!(consumer.stopped);
    // The message after Quit stays in the queue and is never processed.
    assert_eq!(bridge.len(), 1);
    assert_eq!(consumer.poll(&mut bridge), None);
    assert_eq!(bridge.len(), 1);
}

#[test]
fn bridge_without_quit_drains_everything() {
    let mut bridge = EventBridge::new();
    bridge.send(AppMessage::Toggle);
    bridge.send(AppMessage::SelectItem("100.1.1.1".to_string()));
    let mut consumer = Consumer::new();
    let log = consumer.run(&mut bridge);
    assert_eq!(
        log,
        vec![
            AppMessage::Toggle,
            AppMessage::SelectItem("100.1.1.1".to_string())
        ]
    );
    assert!(!consumer.stopped);
    assert!(bridge.is_empty());
}

#[test]
fn poll_takes_one_message_per_turn() {
    let mut bridge = EventBridge::new();
    bridge.send(AppMessage::Refresh);
    bridge.send(AppMessage::Quit);
    let mut consumer = Consumer::new();
    assert_eq!(consumer.poll(&mut bridge), Some(AppMessage::Refresh));
    assert!(!consumer.stopped);
    assert_eq!(consumer.poll(&mut bridge), Some(AppMessage::Quit));
    assert!(consumer.stopped);
    assert_eq!(consumer.poll(&mut bridge), None);
}

#[test]
fn dispatch_maps_each_message() {
    assert_eq!(dispatch(AppMessage::Refresh), Reaction::RebuildOnly);
    assert_eq!(dispatch(AppMessage::Toggle), Reaction::ToggleAndRebuild);
    assert_eq!(dispatch(AppMessage::Quit), Reaction::Stop);
    assert_eq!(
        dispatch(AppMessage::SelectItem("peer-ip".to_string())),
        Reaction::SelectPeer("peer-ip".to_string())
    );
}

#[test]
fn message_for_id_maps_control_ids_and_selections() {
    assert_eq!(message_for_id("toggle".to_string()), AppMessage::Toggle);
    assert_eq!(message_for_id("refresh".to_string()), AppMessage::Refresh);
    assert_eq!(message_for_id("quit".to_string()), AppMessage::Quit);
    assert_eq!(
        message_for_id("100.1.1.1".to_string()),
        AppMessage::SelectItem("100.1.1.1".to_string())
    );
}

#[test]
fn docker_menu_when_active() {
    let text = "Loaded: loaded (...)\nActive: active (running) since Mon\nMain PID: 4821 (dockerd)\nMem peak: 128.4M\n";
    let status = Docker::status(&CommandOutput::new(true, text.to_string(), String::new()));
    let model = project_docker(true, Some(&status));
    assert_eq!(
        model.rows,
        vec![
            item("Stop Docker", "toggle", true),
            item("Refresh", "refresh", true),
            MenuRow::Separator,
            item("Status: active (running) since Mon", "", false),
            item("PID: 4821", "", false),
            item("Memory Peak: 128.4M", "", false),
            MenuRow::Separator,
            item("Quit Tray", "quit", true),
        ]
    );
}

#[test]
fn docker_menu_omits_absent_fields() {
    let status = Docker::status(&CommandOutput::new(
        true,
        "Active: active (running)\n".to_string(),
        String::new(),
    ));
    let model = project_docker(true, Some(&status));
    assert_eq!(
        model.rows,
        vec![
            item("Stop Docker", "toggle", true),
            item("Refresh", "refresh", true),
            MenuRow::Separator,
            item("Status: active (running)", "", false),
            MenuRow::Separator,
            item("Quit Tray", "quit", true),
        ]
    );
}

#[test]
fn docker_menu_when_inactive() {
    let model = project_docker(false, None);
    assert_eq!(
        model.rows,
        vec![
            item("Start Docker", "toggle", true),
            MenuRow::Separator,
            item("Status: Inactive", "", false),
            item("Refresh", "refresh", true),
            MenuRow::Separator,
            item("Quit Tray", "quit", true),
        ]
    );
}

#[test]
fn docker_menu_with_failed_status_query() {
    let model = project_docker(true, None);
    assert_eq!(
        model.rows,
        vec![
            item("Stop Docker", "toggle", true),
            item("Refresh", "refresh", true),
            MenuRow::Separator,
            item("Could not retrieve status", "", false),
            MenuRow::Separator,
            item("Quit Tray", "quit", true),
        ]
    );
}

#[test]
fn tailscale_menu_when_enabled_has_one_row_per_peer() {
    let text = "100.1.1.1 host-a alice linux -\n100.1.1.2 host-b alice linux offline\n";
    let peers =
        Tailscale::status(&CommandOutput::new(true, text.to_string(), String::new())).unwrap();
    let model = project_tailscale(true, &peers);
    assert_eq!(
        model.rows,
        vec![
            item("Disable Tailscale", "toggle", true),
            item("Refresh", "refresh", true),
            MenuRow::Separator,
            item("[online] host-a (100.1.1.1)", "100.1.1.1", true),
            item("[offline] host-b (100.1.1.2)", "100.1.1.2", true),
            MenuRow::Separator,
            item("Quit Tray", "quit", true),
        ]
    );
    // Exactly one selectable row per peer, identified by its IP.
    let ids = ids_of(&model);
    assert_eq!(ids.iter().filter(|id| *id == "100.1.1.1").count(), 1);
    assert_eq!(ids.iter().filter(|id| *id == "100.1.1.2").count(), 1);
}

#[test]
fn tailscale_menu_when_disabled_has_no_peer_ids() {
    let text = "100.1.1.1 host-a alice linux -\n100.1.1.2 host-b alice linux offline\n";
    let peers =
        Tailscale::status(&CommandOutput::new(true, text.to_string(), String::new())).unwrap();
    let model = project_tailscale(false, &peers);
    assert_eq!(
        model.rows,
        vec![
            item("Enable Tailscale", "toggle", true),
            MenuRow::Separator,
            item("Status: Stopped", "", false),
            item("Refresh", "refresh", true),
            MenuRow::Separator,
            item("Quit Tray", "quit", true),
        ]
    );
    let ids = ids_of(&model);
    for peer in &peers {
        assert!(!ids.contains(&peer.ip));
    }
}
