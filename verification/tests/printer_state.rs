use cc2_webcontrol::json::{recursive_merge, Json, JsonNumber};
use cc2_webcontrol::models::{MachineStatus, PrintStatus};
use cc2_webcontrol::state::{truncate_filename, EventKind, PrintState, PrinterState};

fn text(s: &str) -> Json {
    Json::Text(s.to_string())
}

fn uint(n: u64) -> Json {
    Json::Number(JsonNumber::PosInt(n))
}

fn obj(entries: Vec<(&str, Json)>) -> Json {
    Json::Object(entries.into_iter().map(|(k, v)| (k.to_string(), v)).collect())
}

fn get_i64(j: &Json, key: &str) -> i64 {
    match j.get(key) {
        Some(Json::Number(JsonNumber::PosInt(n))) => *n as i64,
        Some(Json::Number(JsonNumber::NegInt(n))) => *n,
        _ => 0,
    }
}

fn get_text(j: &Json, key: &str) -> String {
    match j.get(key) {
        Some(Json::Text(s)) => s.clone(),
        _ => String::new(),
    }
}

#[test]
fn test_print_state_idle() {
    let mut state = PrinterState::new();
    state.print_status.state = String::new();
    assert!(matches!(state.print_state(), PrintState::Idle));
}

#[test]
fn test_print_state_printing() {
    let mut state = PrinterState::new();
    state.machine_status.status = 2;
    state.print_status.state = "printing".to_string();
    assert!(matches!(state.print_state(), PrintState::Printing));
}

#[test]
fn test_print_state_paused() {
    let mut state = PrinterState::new();
    state.machine_status.status = 2;
    state.print_status.state = "paused".to_string();
    assert!(matches!(state.print_state(), PrintState::Paused));
}

#[test]
fn test_merge_delta_updates_state() {
    let mut state = PrinterState::new();
    state.machine_status.status = 2;
    state.print_status.state = "printing".to_string();
    state.print_status.filename = "test.gcode".to_string();

    let current = obj(vec![
        ("machine_status", obj(vec![("status", uint(2)), ("sub_status", uint(0)), ("progress", uint(0))])),
        ("print_status", obj(vec![("state", text("printing")), ("filename", text("test.gcode"))])),
    ]);
    let delta = obj(vec![
        ("print_status", obj(vec![("state", text("paused"))])),
        ("machine_status", obj(vec![("status", uint(2)), ("sub_status", uint(0)), ("progress", uint(0))])),
    ]);
    let merged = recursive_merge(&current, &delta);
    let ms_json = merged.get("machine_status").unwrap();
    let ps_json = merged.get("print_status").unwrap();
    let mut ms = MachineStatus::default();
    ms.status = get_i64(ms_json, "status");
    ms.sub_status = get_i64(ms_json, "sub_status");
    ms.progress = get_i64(ms_json, "progress");
    let mut ps = PrintStatus::default();
    ps.state = get_text(ps_json, "state");
    ps.filename = get_text(ps_json, "filename");
    assert_eq!(ps.filename, "test.gcode");
    state.merge_delta(ms, ps);
    assert!(matches!(state.print_state(), PrintState::Paused));
}

#[test]
fn test_events_capped_at_100() {
    let mut state = PrinterState::new();
    for i in 0..105 {
        state.add_event(EventKind::Connected, format!("event {}", i));
    }
    assert_eq!(state.events.len(), 100);
    assert_eq!(state.events[0].description, "event 5");
}

#[test]
fn repeated_event_is_dropped() {
    let mut state = PrinterState::new();
    state.add_event(EventKind::Connected, "Printer connected".to_string());
    state.add_event(EventKind::Connected, "Printer connected".to_string());
    assert_eq!(state.events.len(), 1);
    assert_eq!(state.events_total, 1);
    state.add_event(EventKind::Disconnected, "Printer connected".to_string());
    assert_eq!(state.events.len(), 2);
    let out = state.take_outbox();
    assert_eq!(out.len(), 2);
    assert!(state.take_outbox().is_empty());
}

#[test]
fn events_total_counts_every_event() {
    let mut state = PrinterState::new();
    for i in 0..150 {
        state.add_event(EventKind::Connected, format!("e{}", i));
    }
    assert_eq!(state.events_total, 150);
    assert_eq!(state.events.len(), 100);
}

#[test]
fn completed_machine_is_idle_whatever_the_job_says() {
    let mut state = PrinterState::new();
    state.machine_status.status = 9;
    state.print_status.state = "printing".to_string();
    let _ = state.print_state();
    state.machine_status.status = 2;
    assert!(matches!(state.print_state(), PrintState::Printing));
}

#[test]
fn clear_on_disconnect_marks_offline() {
    let mut state = PrinterState::new();
    state.machine_status.status = 2;
    state.machine_status.sub_status = 1045;
    state.clear_on_disconnect();
    assert_eq!(state.machine_status.status, -1);
    assert_eq!(state.machine_status.sub_status, 0);
    assert!(state.prev_machine_phase.is_none());
}

#[test]
fn truncate_long_filename() {
    assert_eq!(truncate_filename("short.gcode"), "short.gcode");
    let long = "a".repeat(50);
    let t = truncate_filename(&long);
    assert!(t.starts_with("..."));
    assert_eq!(t.len(), 40);
}
