use cc2_webcontrol::phase::build_phase_info;

#[test]
fn phase_info_detects_sub_status_while_printing() {
    let phase = build_phase_info(2, 1045, "printing");
    assert_eq!(phase.label, "Printing");
    assert_eq!(phase.detail, Some("Nozzle heating up"));
    assert_eq!(phase.protocol_name, Some("EXTRUDER_PREHEATING"));
}

#[test]
fn phase_info_reports_canvas_filament_operation() {
    let phase = build_phase_info(2, 1066, "printing");
    assert_eq!(phase.label, "Printing");
    assert_eq!(phase.detail, Some("Canvas Operation - undocumented"));
    assert_eq!(phase.protocol_name, Some("FILAMENT_CHANGE"));
}

#[test]
fn phase_info_uses_sub_status_mapping() {
    let phase = build_phase_info(2, 1045, "printing");
    assert_eq!(phase.label, "Printing");
    assert_eq!(phase.detail, Some("Nozzle heating up"));
    assert_eq!(phase.protocol_name, Some("EXTRUDER_PREHEATING"));
}

#[test]
fn phase_info_reports_bed_preheating() {
    let phase = build_phase_info(2, 1405, "printing");
    assert_eq!(phase.label, "Printing");
    assert_eq!(phase.detail, Some("Bed heating up"));
    assert_eq!(phase.protocol_name, Some("BED_PREHEATING"));
}

#[test]
fn phase_info_reports_auto_leveling_during_print() {
    let phase = build_phase_info(2, 2901, "printing");
    assert_eq!(phase.label, "Printing");
    assert_eq!(phase.protocol_name, Some("AUTO_LEVELING"));
    assert!(phase.detail.is_some());
}

#[test]
fn phase_info_keeps_main_and_detail_status_separate() {
    let phase = build_phase_info(2, 1405, "printing");
    assert_eq!(phase.label, "Printing");
    assert_eq!(phase.detail, Some("Bed heating up"));
    assert_eq!(phase.protocol_name, Some("BED_PREHEATING"));
}

#[test]
fn phase_info_falls_back_to_main_status_for_unknown_sub_status() {
    let phase = build_phase_info(2, 999999, "printing");
    assert_eq!(phase.label, "Printing");
    assert_eq!(phase.detail, None);
    assert_eq!(phase.protocol_name, None);
    assert_eq!(phase.variant, "active");
}

#[test]
fn phase_info_offline() {
    let phase = build_phase_info(-1, 0, "");
    assert_eq!(phase.label, "Offline");
    assert_eq!(phase.detail, None);
    assert_eq!(phase.protocol_name, None);
    assert_eq!(phase.variant, "error");
}
