use cc2_webcontrol::config::{DestinationKind, EventToggles, NotificationDestination};
use cc2_webcontrol::error::NotificationError;
use cc2_webcontrol::json::Json;
use cc2_webcontrol::notify::{
    event_kind_label, event_kind_str, event_kind_str_for_db, event_kind_str_for_log, event_matches_toggles,
    events_after, ntfy_target, trim_end_slashes, webhook_request, NotificationTracker,
};
use cc2_webcontrol::state::EventKind;

fn dest(id: &str) -> NotificationDestination {
    NotificationDestination {
        id: id.to_string(),
        kind: DestinationKind::Ntfy,
        enabled: true,
        label: "l".to_string(),
        ntfy_server: Some("https://ntfy.example//".to_string()),
        ntfy_topic: Some("cc2".to_string()),
        ntfy_tap_url: Some("".to_string()),
        discord_webhook_url: None,
        webhook_url: None,
        toggles: EventToggles::default(),
    }
}

#[test]
fn labels_and_toggles() {
    assert_eq!(event_kind_label(&EventKind::PrintFinished), "print_finished_ok");
    assert_eq!(event_kind_label(&EventKind::PhaseChanged(19, "x".into())), "emergency_stop");
    assert_eq!(event_kind_label(&EventKind::PhaseChanged(5, "x".into())), "other");
    assert_eq!(event_kind_label(&EventKind::CommandLed), "other");
    let mut t = EventToggles::default();
    assert!(event_matches_toggles(&EventKind::PhaseChanged(1001, "x".into()), &t));
    t.auth_error = false;
    assert!(!event_matches_toggles(&EventKind::PhaseChanged(1001, "x".into()), &t));
    assert!(!event_matches_toggles(&EventKind::CommandLed, &t));
    assert_eq!(event_kind_str(&EventKind::PrintFinished), "print_finished");
    assert_eq!(event_kind_str(&EventKind::ErrorOccurred), "error");
}

#[test]
fn stored_and_listed_kind_names() {
    assert_eq!(event_kind_str_for_db(&EventKind::CameraLost), "CameraLost");
    assert_eq!(event_kind_str_for_db(&EventKind::Loaded("Foo".into())), "Foo");
    assert_eq!(event_kind_str_for_db(&EventKind::PhaseChanged(-2, "A b".into())), "PhaseChanged(-2,A b)");
    assert_eq!(event_kind_str_for_log(&EventKind::PhaseChanged(7, "say \"hi\"".into())), "PhaseChanged(7, \"say \\\"hi\\\"\")");
    assert_eq!(event_kind_str_for_log(&EventKind::AutoPaused), "AutoPaused");
    assert_eq!(event_kind_str_for_log(&EventKind::Loaded("X".into())), "X");
}

#[test]
fn new_events_are_counted_from_the_total() {
    let mut t = NotificationTracker::new(10);
    assert_eq!(t.take_new(13, 100), 97);
    assert_eq!(t.last_processed_total, 13);
    assert_eq!(t.take_new(13, 100), 100);
    assert_eq!(t.take_new(500, 100), 0);
    assert_eq!(t.take_new(400, 100), 100);
}

#[test]
fn deliveries_respect_toggles_and_cooldown() {
    let mut t = NotificationTracker::new(0);
    let mut off = dest("b");
    off.enabled = false;
    let dests = vec![dest("a"), off, dest("c")];
    let kinds = vec![EventKind::PrintStarted, EventKind::PrintStarted, EventKind::CommandLed];
    let out = t.plan_deliveries(&kinds, &dests, 1_000);
    assert_eq!(out, vec![(0, 0), (0, 2)]);
    // within the cooldown nothing more goes out for that kind
    assert!(t.plan_deliveries(&kinds[..1], &dests, 100_000).is_empty());
    assert_eq!(t.plan_deliveries(&kinds[..1], &dests, 121_000), vec![(0, 0), (0, 2)]);
    assert_eq!(t.cooldowns.len(), 2);
}

#[test]
fn ntfy_and_webhook_targets() {
    let d = dest("a");
    let t = ntfy_target(&d).unwrap();
    assert_eq!(t.url, "https://ntfy.example/cc2");
    assert!(t.click.is_none());
    let mut d2 = dest("a");
    d2.ntfy_server = None;
    d2.ntfy_tap_url = Some("http://ui".into());
    let t2 = ntfy_target(&d2).unwrap();
    assert_eq!(t2.url, "https://ntfy.sh/cc2");
    assert_eq!(t2.click.as_deref(), Some("http://ui"));
    let mut d3 = dest("a");
    d3.ntfy_topic = None;
    match ntfy_target(&d3) {
        Err(NotificationError::NtfyFailed(m)) => assert_eq!(m, "topic is not configured"),
        _ => panic!("expected an error"),
    }
    match webhook_request(&d, "T", "B") {
        Err(NotificationError::WebhookFailed(m)) => assert_eq!(m, "webhook URL is not configured"),
        _ => panic!("expected an error"),
    }
    let mut d4 = dest("a");
    d4.webhook_url = Some("http://hook".into());
    let (url, body) = webhook_request(&d4, "T", "B").unwrap();
    assert_eq!(url, "http://hook");
    assert_eq!(body.get("source"), Some(&Json::Text("cc2-monitor".into())));
    assert_eq!(trim_end_slashes("a//"), "a");
    assert_eq!(trim_end_slashes("///"), "");
}

#[test]
fn memory_events_after_the_stored_ones() {
    assert_eq!(events_after(Some(5), &[3, 6, 5, 9]), vec![1, 3]);
    assert_eq!(events_after(None, &[0, 1]), vec![1]);
}

#[test]
fn each_label_names_the_toggle_that_is_read() {
    let mut t = EventToggles::default();
    t.id_not_match = false;
    assert_eq!(event_kind_label(&EventKind::PhaseChanged(1000, "x".into())), "id_not_match");
    assert!(!event_matches_toggles(&EventKind::PhaseChanged(1000, "x".into()), &t));
    assert!(event_matches_toggles(&EventKind::PhaseChanged(1001, "x".into()), &t));
    t.print_finished_ok = false;
    assert_eq!(event_kind_label(&EventKind::PrintFinished), "print_finished_ok");
    assert!(!event_matches_toggles(&EventKind::PrintFinished, &t));
    let all_on = EventToggles::default();
    for k in [EventKind::ErrorOccurred, EventKind::DetectionLogged, EventKind::CommandPause, EventKind::Loaded("x".into())] {
        assert_eq!(event_kind_label(&k), "other");
        assert!(!event_matches_toggles(&k, &all_on));
    }
}
