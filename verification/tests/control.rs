use cc2_webcontrol::control::{
    command_result, file_list_result, raw_client_id, reply_code, ws_client_id, Backoff, ConnectionWatch,
    PendingReplies, PrinterRequest,
};
use cc2_webcontrol::error::PrinterError;
use cc2_webcontrol::json::{Json, JsonNumber};
use cc2_webcontrol::state::{EventKind, PrinterEvent, PrinterState};

fn uint(n: u64) -> Json {
    Json::Number(JsonNumber::PosInt(n))
}

fn neg(n: i64) -> Json {
    Json::Number(JsonNumber::NegInt(n))
}

fn text(s: &str) -> Json {
    Json::Text(s.to_string())
}

fn obj(entries: Vec<(&str, Json)>) -> Json {
    Json::Object(entries.into_iter().map(|(k, v)| (k.to_string(), v)).collect())
}

#[test]
fn connection_changes_are_logged() {
    let mut s = PrinterState::new();
    let mut w = ConnectionWatch::new();
    assert!(!s.apply_connection(&mut w, true, false));
    assert_eq!(s.printer_ws_status, "connecting");
    assert!(s.apply_connection(&mut w, true, true));
    assert_eq!(s.printer_ws_status, "connected");
    assert!(s.connected && s.connected_raw && s.connected_ws);
    assert_eq!(s.events.back().unwrap().description, "Printer connected");
    s.machine_status.status = 2;
    assert!(!s.apply_connection(&mut w, true, false));
    assert_eq!(s.printer_ws_status, "reconnecting");
    assert_eq!(s.machine_status.status, -1);
    assert_eq!(s.events.back().unwrap().description, "Printer disconnected");
    assert_eq!(s.events.len(), 2);
}

#[test]
fn backoff_doubles_and_resets() {
    let mut b = Backoff::new();
    assert_eq!(b.next_wait(false, false), 2);
    assert_eq!(b.next_wait(false, false), 4);
    assert_eq!(b.next_wait(false, false), 8);
    assert_eq!(b.next_wait(false, false), 16);
    assert_eq!(b.next_wait(false, false), 30);
    assert_eq!(b.next_wait(false, false), 30);
    assert_eq!(b.next_wait(true, true), 1);
    assert_eq!(b.delay_secs, 2);
    assert_eq!(b.attempt, 2);
    assert_eq!(b.next_wait(false, true), 2);
    assert_eq!(b.delay_secs, 4);
}

#[test]
fn client_ids_have_their_shape() {
    let r = raw_client_id();
    assert!(r.starts_with("cc2_"));
    assert_eq!(r.len(), 8);
    assert!(r[4..].chars().all(|c| c.is_ascii_digit()));
    let w = ws_client_id();
    assert!(w.starts_with("webIF_"));
    assert_eq!(w.len(), 12);
    assert!(w[6..].chars().all(|c| c.is_ascii_hexdigit() && !c.is_ascii_uppercase()));
}

#[test]
fn command_result_reads_error_code() {
    assert!(command_result(1021, &obj(vec![("error_code", uint(0))])).is_ok());
    assert!(command_result(1021, &obj(vec![])).is_ok());
    match command_result(1021, &obj(vec![("error_code", uint(1009))])) {
        Err(PrinterError::CommandFailed { method, error_code }) => {
            assert_eq!(method, 1021);
            assert_eq!(error_code, 1009);
        }
        _ => panic!("expected a failure"),
    }
    // codes are cut to 16 bits
    assert_eq!(reply_code(&obj(vec![("error_code", uint(65536 + 7))])), 7);
    assert!(command_result(1, &obj(vec![("error_code", uint(65536))])).is_ok());
    assert_eq!(reply_code(&obj(vec![("error_code", neg(-1))])), 0);
}

#[test]
fn file_list_result_reads_files() {
    let reply = obj(vec![("error_code", uint(0)), ("file_list", Json::Array(vec![text("a"), text("b")]))]);
    assert_eq!(file_list_result(&reply).unwrap(), vec![text("a"), text("b")]);
    assert!(file_list_result(&obj(vec![])).unwrap().is_empty());
    assert!(matches!(
        file_list_result(&obj(vec![("error_code", uint(2))])),
        Err(PrinterError::CommandFailed { method: 1044, error_code: 2 })
    ));
}

#[test]
fn request_plans() {
    let p = PrinterRequest::Pause.plan();
    assert_eq!((p.method, p.timeout_secs), (1021, 8));
    assert!(p.params.is_none());
    assert_eq!(p.event.unwrap().1, "Print paused");
    let led = PrinterRequest::SetLed(false).plan();
    assert_eq!(led.params.unwrap(), obj(vec![("power", uint(0))]));
    assert_eq!(led.event.unwrap().1, "LED off");
    let fan = PrinterRequest::SetFan("aux_fan".to_string(), 128).plan();
    assert_eq!(fan.params.unwrap(), obj(vec![("aux_fan", uint(128))]));
    assert_eq!(fan.event.unwrap().1, "Fan 'aux_fan' \u{2192} 128");
    let mode = PrinterRequest::SetSpeedMode(2).plan();
    assert_eq!(mode.event.unwrap().1, "Speed mode \u{2192} 2");
    let home = PrinterRequest::HomeAxes("xy".to_string()).plan();
    assert_eq!((home.method, home.timeout_secs), (1026, 15));
    assert!(home.event.is_none());
    let files = PrinterRequest::FileList { storage: "local".to_string(), page_number: 1, page_size: -3 }.plan();
    assert_eq!(
        files.params.unwrap(),
        obj(vec![("storage_media", text("local")), ("pageNumber", uint(1)), ("pageSize", neg(-3))])
    );
    assert_eq!(PrinterRequest::CanvasRefresh.plan().params.unwrap(), obj(vec![]));
    assert_eq!(PrinterRequest::PrintHistory.plan().method, 1036);
}

#[test]
fn start_print_plan_uses_plate_layout() {
    let req = PrinterRequest::StartPrint {
        filename: "a.gcode".to_string(),
        storage_media: "local".to_string(),
        plate: "smooth".to_string(),
        tray_id: None,
        tray_slot: Some(2),
        canvas_id: 0,
        timelapse: true,
        bedlevel_force: false,
    };
    let p = req.plan();
    assert_eq!(p.method, 1020);
    assert_eq!(p.timeout_secs, 15);
    let params = p.params.unwrap();
    let config = params.get("config").unwrap();
    assert_eq!(config.get("print_layout"), Some(&text("B")));
    assert_eq!(config.get("delay_video"), Some(&Json::Bool(true)));
    assert_eq!(config.get("printer_check"), Some(&Json::Bool(true)));
    let slot = match config.get("slot_map") {
        Some(Json::Array(v)) => v[0].get("t") == Some(&uint(2)),
        _ => false,
    };
    assert!(slot);
    assert_eq!(p.event.unwrap().1, "Start print: a.gcode");
    let textured = PrinterRequest::StartPrint {
        filename: "a.gcode".to_string(),
        storage_media: "local".to_string(),
        plate: "textured".to_string(),
        tray_id: Some(1),
        tray_slot: None,
        canvas_id: 3,
        timelapse: false,
        bedlevel_force: true,
    }
    .plan();
    assert_eq!(textured.params.unwrap().get("config").unwrap().get("print_layout"), Some(&text("A")));
}

#[test]
fn camera_and_restore() {
    let mut s = PrinterState::new();
    s.apply_camera(false);
    assert!(!s.camera_connected);
    assert_eq!(s.events.back().unwrap().description, "Camera feed lost");
    s.apply_camera(true);
    assert_eq!(s.events.back().unwrap().description, "Camera feed restored");
    let mut past_state = PrinterState::new();
    past_state.add_event(EventKind::Loaded("Connected".to_string()), "old".to_string());
    let past: Vec<PrinterEvent> = past_state.events.iter().map(|e| e.duplicate()).collect();
    s.restore_events(past, 0);
    assert_eq!(s.events.len(), 1);
    assert_eq!(s.events_total, 1);
    s.restore_events(Vec::new(), 0);
    assert_eq!(s.events.len(), 1);
    s.clear_events();
    assert!(s.events.is_empty());
    assert_eq!(s.events_total, 1);
}

#[test]
fn commands_and_queries_are_told_apart() {
    assert!(PrinterRequest::Pause.is_command());
    assert!(PrinterRequest::HomeAxes("xy".to_string()).is_command());
    assert!(PrinterRequest::SetAutoRefill(true).is_command());
    assert!(!PrinterRequest::PrintHistory.is_command());
    assert!(!PrinterRequest::CanvasRefresh.is_command());
    let list = PrinterRequest::FileList { storage: "local".to_string(), page_number: 1, page_size: 50 };
    assert!(!list.is_command());
    let info = PrinterRequest::FileInfo { storage_media: "local".to_string(), file_name: "a.gcode".to_string() };
    assert!(!info.is_command());
}

#[test]
fn rpc_correlation_delivers_value_and_removes_entry() {
    let mut pending: PendingReplies<tokio::sync::oneshot::Sender<Json>> = PendingReplies::new();
    let (tx, mut rx) = tokio::sync::oneshot::channel::<Json>();
    pending.register(42, tx);
    assert_eq!(pending.len(), 1);
    let expected = Json::Object(vec![("result".to_string(), text("ok"))]);
    let sender = pending.take(42).unwrap();
    sender.send(Json::Object(vec![("result".to_string(), text("ok"))])).ok();
    let received = rx.try_recv().unwrap();
    assert_eq!(received, expected);
    assert_eq!(pending.len(), 0);
}

#[test]
fn rpc_correlation_dropped_sender_signals_error() {
    let mut pending: PendingReplies<tokio::sync::oneshot::Sender<Json>> = PendingReplies::new();
    let (tx, mut rx) = tokio::sync::oneshot::channel::<Json>();
    pending.register(1, tx);
    pending.take(1);
    assert!(rx.try_recv().is_err(), "dropped sender must close the channel");
}

#[test]
fn rpc_correlation_unknown_id_is_ignored() {
    let mut pending: PendingReplies<tokio::sync::oneshot::Sender<Json>> = PendingReplies::new();
    let removed = pending.take(999);
    assert!(removed.is_none());
}

#[test]
fn pending_replies_are_cleared_when_the_session_ends() {
    let mut pending: PendingReplies<u8> = PendingReplies::new();
    pending.register(7, 1);
    pending.register(8, 2);
    pending.register(7, 3);
    assert_eq!(pending.len(), 2);
    assert_eq!(pending.take(7), Some(3));
    assert_eq!(pending.take(7), None);
    pending.clear();
    assert_eq!(pending.len(), 0);
    assert_eq!(pending.take(8), None);
}
