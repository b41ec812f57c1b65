use cc2_webcontrol::error::AppError;
use cc2_webcontrol::json::{Json, JsonNumber};
use cc2_webcontrol::upload::{
    check_ack, chunk_end, chunk_plan, content_range, extract_filename, md5_hex, rejection_detail,
    upload_preflight, CHUNK_SIZE,
};

#[test]
fn chunk_range_last_chunk() {
    let total = 2_500_000usize;
    let start = 2 * CHUNK_SIZE;
    let end = chunk_end(start, total);
    assert_eq!(end, total - 1, "last chunk must end at total-1");
    assert_eq!(content_range(start, end, total), "bytes 2097152-2499999/2500000");
}

#[test]
fn single_chunk_range() {
    let total = 512usize;
    let start = 0;
    let end = chunk_end(start, total);
    assert_eq!(end, 511);
    assert_eq!(content_range(start, end, total), "bytes 0-511/512");
}

#[test]
fn extract_filename_from_header() {
    let body = b"GCODE DATA";
    assert_eq!(extract_filename(Some("my_model.gcode"), body), "my_model.gcode");
}

#[test]
fn extract_filename_fallback_has_gcode_ext() {
    let body = b"GCODE DATA";
    let name = extract_filename(None, body);
    assert!(name.ends_with(".gcode"), "expected .gcode suffix, got: {name}");
}

#[test]
fn extract_filename_empty_header_falls_back() {
    let body = b"GCODE DATA";
    let name = extract_filename(Some(""), body);
    assert!(name.ends_with(".gcode"), "expected .gcode fallback, got: {name}");
}

#[test]
fn md5_hex_is_lowercase_32_chars() {
    let hex = md5_hex(b"hello world");
    assert_eq!(hex.len(), 32);
    assert!(hex.chars().all(|c| c.is_ascii_hexdigit() && !c.is_ascii_uppercase()));
}

#[test]
fn md5_known_value() {
    assert_eq!(md5_hex(b"hello world"), "5eb63bbbe01eeed093cb22bb8f5acdc3");
}

#[test]
fn fallback_name_is_md5_of_first_4096_bytes() {
    let body = b"GCODE DATA";
    assert_eq!(extract_filename(None, body), format!("{}.gcode", md5_hex(body)));
    let mut big = vec![b'x'; 5000];
    let head = big[..4096].to_vec();
    big[4500] = b'y';
    assert_eq!(extract_filename(None, &big), format!("{}.gcode", md5_hex(&head)));
}

#[test]
fn chunk_plan_partitions_the_file() {
    let total = 2_500_000usize;
    let chunks = chunk_plan(total);
    assert_eq!(chunks, vec![(0, 1_048_575), (1_048_576, 2_097_151), (2_097_152, 2_499_999)]);
    assert!(chunk_plan(0).is_empty());
    assert_eq!(chunk_plan(1), vec![(0, 0)]);
    assert_eq!(chunk_plan(CHUNK_SIZE), vec![(0, CHUNK_SIZE - 1)]);
    assert_eq!(chunk_plan(CHUNK_SIZE + 1), vec![(0, CHUNK_SIZE - 1), (CHUNK_SIZE, CHUNK_SIZE)]);
}

#[test]
fn upload_preflight_errors() {
    match upload_preflight("", 10) {
        Err(AppError::Validation(m)) => assert_eq!(m, "printer IP not configured"),
        _ => panic!("expected a validation error"),
    }
    match upload_preflight("10.0.0.2", 0) {
        Err(AppError::Validation(m)) => assert_eq!(m, "empty file"),
        _ => panic!("expected a validation error"),
    }
    assert!(upload_preflight("10.0.0.2", 1).is_ok());
}

#[test]
fn check_ack_reads_error_code() {
    let ok = Json::Object(vec![("error_code".to_string(), Json::Number(JsonNumber::PosInt(0)))]);
    assert!(check_ack(&ok, 0, 9).is_ok());
    assert!(check_ack(&Json::Null, 0, 9).is_ok());
    let bad = Json::Object(vec![("error_code".to_string(), Json::Number(JsonNumber::NegInt(-3)))]);
    match check_ack(&bad, 10, 19) {
        Err(AppError::Validation(m)) => assert_eq!(m, "printer upload error on chunk 10-19: error_code=-3"),
        _ => panic!("expected an upload error"),
    }
    let huge = Json::Object(vec![("error_code".to_string(), Json::Number(JsonNumber::PosInt(u64::MAX)))]);
    assert!(check_ack(&huge, 0, 9).is_ok());
}

#[test]
fn rejection_detail_keeps_200_chars() {
    assert_eq!(rejection_detail(""), "");
    assert_eq!(rejection_detail("busy"), "  -  busy");
    let long: String = std::iter::repeat('é').take(250).collect();
    let d = rejection_detail(&long);
    assert_eq!(d.chars().count(), 5 + 200);
}
