use cc2_webcontrol::status_map::{lookup_status, normalize_machine_status, status_mappings, NormalizedStatus};

#[test]
fn extruder_preheating_is_resolved() {
    let mapping = lookup_status(2, 1045).unwrap();
    assert_eq!(mapping.name, "EXTRUDER_PREHEATING");
    assert_eq!(mapping.description, "Nozzle heating up");
    assert_eq!(mapping.normalized, NormalizedStatus::Preheating);
}

#[test]
fn bed_preheating_is_resolved() {
    let mapping = lookup_status(2, 1405).unwrap();
    assert_eq!(mapping.name, "BED_PREHEATING");
    assert_eq!(mapping.description, "Bed heating up");
    assert_eq!(mapping.normalized, NormalizedStatus::Preheating);
}

#[test]
fn printing_is_resolved() {
    let mapping = lookup_status(2, 2075).unwrap();
    assert_eq!(mapping.name, "PRINTING");
    assert_eq!(mapping.normalized, NormalizedStatus::Printing);
}

#[test]
fn paused_is_resolved() {
    let mapping = lookup_status(2, 2502).unwrap();
    assert_eq!(mapping.name, "PAUSED");
    assert_eq!(mapping.normalized, NormalizedStatus::Paused);
}

#[test]
fn auto_leveling_during_print_is_resolved() {
    let mapping = lookup_status(2, 2901).unwrap();
    assert_eq!(mapping.name, "AUTO_LEVELING");
    assert_eq!(mapping.normalized, NormalizedStatus::AutoLeveling);
}

#[test]
fn homing_during_print_is_resolved() {
    let mapping = lookup_status(2, 2801).unwrap();
    assert_eq!(mapping.name, "HOMING");
    assert_eq!(mapping.normalized, NormalizedStatus::Homing);
}

#[test]
fn canvas_filament_change_is_resolved() {
    let mapping = lookup_status(2, 1066).unwrap();
    assert_eq!(mapping.name, "EXTRUDER_TEMP_WAIT");
    assert_eq!(mapping.normalized, NormalizedStatus::ExtruderOperating);
}

#[test]
fn unknown_sub_status_returns_none() {
    assert!(lookup_status(2, 999999).is_none());
}

#[test]
fn main_status_is_normalized() {
    assert_eq!(normalize_machine_status(0), NormalizedStatus::Initializing);
    assert_eq!(normalize_machine_status(1), NormalizedStatus::Idle);
    assert_eq!(normalize_machine_status(2), NormalizedStatus::Printing);
    assert_eq!(normalize_machine_status(5), NormalizedStatus::AutoLeveling);
    assert_eq!(normalize_machine_status(10), NormalizedStatus::Homing);
    assert_eq!(normalize_machine_status(13), NormalizedStatus::ExtruderOperating);
}

#[test]
fn unknown_main_status_is_unknown() {
    assert_eq!(normalize_machine_status(12345), NormalizedStatus::Unknown);
}

#[test]
fn offline_status_is_normalized() {
    assert_eq!(normalize_machine_status(-1), NormalizedStatus::Offline);
}

#[test]
fn normalize_main_status() {
    assert_eq!(normalize_machine_status(1), NormalizedStatus::Idle);
    assert_eq!(normalize_machine_status(0), NormalizedStatus::Initializing);
    assert_eq!(normalize_machine_status(999), NormalizedStatus::Error);
    assert_eq!(normalize_machine_status(1000), NormalizedStatus::IdNotMatch);
    assert_eq!(normalize_machine_status(1001), NormalizedStatus::AuthError);
}

#[test]
fn lookup_requires_main_status_to_match() {
    // 1045 only occurs under the printing status
    assert!(lookup_status(1, 1045).is_none());
}

#[test]
fn lookup_returns_first_matching_row() {
    let rows = status_mappings();
    let m = lookup_status(2, 1045).unwrap();
    let first = rows.iter().find(|r| r.sub_status == 1045 && r.status.contains(&2)).unwrap();
    assert_eq!(&m, first);
}

#[test]
fn labels_and_variants() {
    assert_eq!(NormalizedStatus::Printing.label(), "Printing");
    assert_eq!(NormalizedStatus::Printing.variant(), "active");
    assert_eq!(NormalizedStatus::Offline.label(), "Offline");
    assert_eq!(NormalizedStatus::Offline.variant(), "error");
    assert!(NormalizedStatus::Printing.is_active_print());
    assert!(!NormalizedStatus::Idle.is_active_print());
}

#[test]
fn status_labels_are_distinct() {
    let all = [
        NormalizedStatus::Offline, NormalizedStatus::Initializing, NormalizedStatus::Idle, NormalizedStatus::Printing, NormalizedStatus::Pausing, NormalizedStatus::Paused, NormalizedStatus::Resuming, NormalizedStatus::Stopping, NormalizedStatus::Stopped, NormalizedStatus::PrintCompleted,
        NormalizedStatus::SelfChecking, NormalizedStatus::AutoLeveling, NormalizedStatus::PidCalibrating, NormalizedStatus::ResonanceTesting, NormalizedStatus::Updating, NormalizedStatus::FileTransferring, NormalizedStatus::Homing,
        NormalizedStatus::Preheating, NormalizedStatus::FilamentOperating, NormalizedStatus::ExtruderOperating, NormalizedStatus::VideoComposing, NormalizedStatus::EmergencyStop, NormalizedStatus::PowerLossRecovery, NormalizedStatus::Busy,
        NormalizedStatus::Error, NormalizedStatus::IdNotMatch, NormalizedStatus::AuthError, NormalizedStatus::Unknown,
    ];
    let mut labels: Vec<&str> = all.iter().map(|s| s.label()).collect();
    assert_eq!(NormalizedStatus::PrintCompleted.label(), "Print Completed");
    assert_eq!(NormalizedStatus::IdNotMatch.label(), "ID Not Match");
    assert_eq!(NormalizedStatus::PidCalibrating.label(), "PID Calibrating");
    labels.sort();
    labels.dedup();
    assert_eq!(labels.len(), all.len());
}
