use cc2_webcontrol::config::{
    default_true, validate_pincode, DestinationKind, EventToggles, LoggingConfig, NotificationDestination,
    NotificationsConfig, PrinterConfig, ServerConfig, UpdateDestinationReq,
};
use cc2_webcontrol::error::{AppError, ConfigError};

fn base_printer() -> PrinterConfig {
    PrinterConfig::empty()
}

#[test]
fn validate_pincode_accepts_valid() {
    assert!(validate_pincode("ABC123").is_ok());
    assert!(validate_pincode("000000").is_ok());
    assert!(validate_pincode("ZZZZZZ").is_ok());
}

#[test]
fn validate_pincode_rejects_short_or_invalid() {
    assert!(validate_pincode("ABC12").is_err());
    assert!(validate_pincode("ABC1234").is_err());
    assert!(validate_pincode("AB-C12").is_err());
    assert!(validate_pincode("AB C12").is_err());
    assert!(validate_pincode("ABC12!").is_err());
}

#[test]
fn validate_pincode_error_variant() {
    assert!(matches!(validate_pincode("ÄBC123"), Err(ConfigError::InvalidPincode)));
    assert!(validate_pincode("abc123").is_ok());
}

#[test]
fn printer_password_uses_pincode_when_set() {
    let mut cfg = base_printer();
    cfg.pincode = "ABC123".to_string();
    assert_eq!(cfg.printer_password(), "ABC123");
}

#[test]
fn printer_password_defaults_to_123456() {
    let cfg = base_printer();
    assert_eq!(cfg.printer_password(), "123456");
}

#[test]
fn defaults_of_settings() {
    let t = EventToggles::default();
    assert!(t.print_started && t.detection_engine_error && t.connected && t.auth_error);
    assert!(default_true());
    let s = ServerConfig::default_server();
    assert_eq!(s.host, "0.0.0.0");
    assert_eq!(s.port, 8484);
    assert_eq!(LoggingConfig::default_logging().level, "info");
    assert!(NotificationsConfig::empty().destinations.is_empty());
}

#[test]
fn destination_kind_names() {
    assert_eq!(DestinationKind::Ntfy.as_str(), "ntfy");
    assert_eq!(DestinationKind::Discord.as_str(), "discord");
    assert_eq!(DestinationKind::Webhook.as_str(), "webhook");
    assert_eq!(DestinationKind::from_name("webhook"), Some(DestinationKind::Webhook));
    assert_eq!(DestinationKind::from_name("email"), None);
}

fn dest(id: &str) -> NotificationDestination {
    NotificationDestination {
        id: id.to_string(),
        kind: DestinationKind::Ntfy,
        enabled: true,
        label: "phone".to_string(),
        ntfy_server: None,
        ntfy_topic: Some("t".to_string()),
        ntfy_tap_url: None,
        discord_webhook_url: None,
        webhook_url: None,
        toggles: EventToggles::default(),
    }
}

#[test]
fn destinations_add_update_remove() {
    let mut n = NotificationsConfig::empty();
    let id = n.add(dest("ignored"));
    assert_eq!(id.len(), 8);
    assert!(id.chars().all(|c| c.is_ascii_hexdigit() && !c.is_ascii_uppercase()));
    assert_eq!(n.destinations[0].id, id);

    let change = UpdateDestinationReq {
        enabled: Some(false),
        label: Some("desk".to_string()),
        ntfy_server: None,
        ntfy_topic: None,
        discord_webhook_url: None,
        webhook_url: Some("http://hook".to_string()),
        toggles: None,
    };
    assert!(n.update(&id, &change).is_ok());
    assert!(!n.destinations[0].enabled);
    assert_eq!(n.destinations[0].label, "desk");
    assert_eq!(n.destinations[0].ntfy_topic.as_deref(), Some("t"));
    assert_eq!(n.destinations[0].webhook_url.as_deref(), Some("http://hook"));

    match n.update("nope", &change) {
        Err(AppError::Validation(m)) => assert_eq!(m, "destination 'nope' not found"),
        _ => panic!("expected not found"),
    }
    match n.find("nope") {
        Err(AppError::Validation(m)) => assert_eq!(m, "destination nope not found"),
        _ => panic!("expected not found"),
    }
    assert!(n.find(&id).is_ok());
    assert!(n.remove(&id).is_ok());
    assert!(n.destinations.is_empty());
    match n.remove(&id) {
        Err(AppError::Validation(m)) => assert_eq!(m, format!("destination {id} not found")),
        _ => panic!("expected not found"),
    }
}

#[test]
fn remove_keeps_other_destinations_in_order() {
    let mut n = NotificationsConfig::empty();
    n.destinations.push(dest("a"));
    n.destinations.push(dest("b"));
    n.destinations.push(dest("a"));
    n.destinations.push(dest("c"));
    assert!(n.remove("a").is_ok());
    let ids: Vec<&str> = n.destinations.iter().map(|d| d.id.as_str()).collect();
    assert_eq!(ids, vec!["b", "c"]);
    assert_eq!(n.position("c"), Some(1));
}
