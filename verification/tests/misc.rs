use cc2_webcontrol::state::keep_canvas;
use cc2_webcontrol::text::trim;
use cc2_webcontrol::detection::{graph_buckets, DetectionCounters};
use cc2_webcontrol::discovery::{discovery_client_id, extract_printer_id_from_topic};
use cc2_webcontrol::error::{AppError, ConfigError, DetectionError, NotificationError, PrinterError, SetupError};
use cc2_webcontrol::obico::{obico_status, start_error_ignorable, status_name, ObicoStatus, PullLog};
use cc2_webcontrol::update::UpdateStatus;

#[test]
fn printer_id_from_topics() {
    assert_eq!(extract_printer_id_from_topic("elegoo/P1/api_status").as_deref(), Some("P1"));
    assert_eq!(extract_printer_id_from_topic("elegoo/P1/c/api_request").as_deref(), Some("P1"));
    assert_eq!(extract_printer_id_from_topic("elegoo/P1/c/api_response").as_deref(), Some("P1"));
    assert_eq!(extract_printer_id_from_topic("elegoo//api_status"), None);
    assert_eq!(extract_printer_id_from_topic("other/P1/api_status"), None);
    assert_eq!(extract_printer_id_from_topic("elegoo/P1/c/d/api_request"), None);
    let id = discovery_client_id();
    assert!(id.starts_with("cc2_disc_") && id.len() == 13);
}

#[test]
fn detection_counters_confirm_and_pause_once() {
    let mut c = DetectionCounters::new();
    let d1 = c.on_analysis(true, true, 2);
    assert!(!d1.notify && !d1.pause);
    let d2 = c.on_analysis(true, true, 2);
    assert!(d2.notify && d2.pause);
    assert_eq!(c.consecutive_notify, 0);
    let d3 = c.on_analysis(true, true, 2);
    assert!(!d3.notify && !d3.pause);
    let d4 = c.on_analysis(false, false, 2);
    assert!(!d4.notify && !d4.pause);
    assert_eq!(c.consecutive_pause, 0);
    c.on_analysis(true, true, 2);
    c.not_printing();
    assert_eq!((c.consecutive_notify, c.consecutive_pause), (0, 0));
}

#[test]
fn graph_buckets_cut_the_span() {
    assert!(graph_buckets(&[1, 2, 3], 5).is_none());
    assert!(graph_buckets(&[1, 2, 3], 0).is_none());
    assert!(graph_buckets(&[4, 4, 4], 2).is_none());
    let b = graph_buckets(&[0, 10, 5, 7, 3], 2).unwrap();
    assert_eq!(b.bucket_secs, 5);
    assert_eq!(b.count, 4);
    assert_eq!(b.index, vec![0, 2, 1, 1, 0]);
}

#[test]
fn error_messages_and_status_codes() {
    let busy = AppError::Printer(PrinterError::CommandFailed { method: 1020, error_code: 1009 });
    assert_eq!(busy.status_code(), 409);
    assert_eq!(busy.answer_message(), "Printer Busy");
    assert_eq!(busy.message(), "printer error: command failed: method 1020, error_code 1009");
    let busy2 = AppError::Printer(PrinterError::CommandFailed { method: 1, error_code: 1010 });
    assert_eq!(busy2.answer_message(), "Cannot perform this action while the printer is busy");
    let other = AppError::Printer(PrinterError::CommandFailed { method: 1, error_code: 5 });
    assert_eq!(other.status_code(), 400);
    assert_eq!(other.answer_message(), "Command was rejected by the printer");
    assert_eq!(AppError::Printer(PrinterError::NotConnected).status_code(), 503);
    assert_eq!(AppError::Printer(PrinterError::RpcTimeout).status_code(), 504);
    assert_eq!(AppError::Printer(PrinterError::DiscoveryTimeout(3)).message(), "printer error: discovery timed out after 3s");
    assert_eq!(AppError::Config(ConfigError::InvalidPincode).status_code(), 400);
    assert_eq!(AppError::Validation("x".into()).answer_message(), "validation error: x");
    assert_eq!(AppError::Setup(SetupError::InvalidPincode).status_code(), 400);
    assert_eq!(AppError::Setup(SetupError::VerificationFailed("v".into())).message(), "setup error: connection verification failed: v");
    assert_eq!(AppError::Io("disk".into()).status_code(), 500);
    assert_eq!(AppError::Detection(DetectionError::NotRunning).message(), "detection error: detection engine not running");
    assert_eq!(AppError::Detection(DetectionError::ObicoFailed("o".into())).status_code(), 500);
    assert_eq!(AppError::Notification(NotificationError::DiscordFailed("d".into())).message(), "notification error: discord notification failed: d");
    assert_eq!(ConfigError::Db("gone".into()).message(), "database error: gone");
    assert_eq!(PrinterError::Mqtt("m".into()).message(), "MQTT error: m");
    assert_eq!(PrinterError::WebSocket("w".into()).message(), "WebSocket error: w");
    assert_eq!(PrinterError::Registration("r".into()).message(), "registration failed: r");
    assert_eq!(PrinterError::Json("j".into()).message(), "JSON error: j");
    assert_eq!(PrinterError::Http("h".into()).message(), "HTTP error: h");
    assert_eq!(NotificationError::NtfyFailed("n".into()).message(), "ntfy notification failed: n");
    assert_eq!(NotificationError::WebhookFailed("w".into()).message(), "webhook notification failed: w");
}

#[test]
fn obico_container_states() {
    assert_eq!(obico_status(false, Some(true)), ObicoStatus::Unavailable);
    assert_eq!(obico_status(true, None), ObicoStatus::NotCreated);
    assert_eq!(obico_status(true, Some(false)), ObicoStatus::Stopped);
    assert_eq!(obico_status(true, Some(true)), ObicoStatus::Running);
    assert_eq!(status_name(ObicoStatus::NotCreated), "not_created");
    assert!(start_error_ignorable("Container ALREADY started"));
    assert!(!start_error_ignorable("no such image"));
    let mut log = PullLog::new();
    assert_eq!(log.line(Some("0123456789abcdef"), "Pulling fs layer").as_deref(), Some("0123456789ab: Pulling fs layer"));
    assert_eq!(log.line(Some("0123456789abcdef"), "Pulling fs layer"), None);
    assert_eq!(log.line(Some("0123456789abcdef"), "Downloading"), None);
    assert_eq!(log.line(None, "Digest: x").as_deref(), Some("Digest: x"));
    assert_eq!(log.line(Some("short"), "Done").as_deref(), Some("short: Done"));
}

#[test]
fn update_status_follows_the_published_commit() {
    let mut s = UpdateStatus::initial("abc");
    assert!(s.up_to_date);
    s.apply_check(" abc\n");
    assert_eq!(s.latest_sha.as_deref(), Some("abc"));
    assert!(s.up_to_date);
    s.apply_check("def");
    assert!(!s.up_to_date);
    let mut u = UpdateStatus::initial("unknown");
    u.apply_check("def");
    assert!(u.up_to_date);
}

#[test]
fn canvas_information_survives_a_report_without_it() {
    assert_eq!(keep_canvas(Some(1u8), None), Some(1));
    assert_eq!(keep_canvas(Some(1u8), Some(2)), Some(2));
    assert_eq!(keep_canvas::<u8>(None, None), None);
}

#[test]
fn trim_removes_unicode_white_space_at_the_ends() {
    assert_eq!(trim("  a b\t\n"), "a b");
    assert_eq!(trim("\u{3000}\u{a0}x\u{2009}"), "x");
    assert_eq!(trim(" \r\n "), "");
    assert_eq!(trim("x"), "x");
}
