use cc2_webcontrol::api::{
    default_plate, file_list_page, grouped_limits, history_limits, history_list, home_axes_arg, jog_axis_arg,
    led_on, live_events_start, page_in_range, require_filename, storage_or_local, thumbnail_of, FileListQuery, HomeRequest,
    LedRequest,
};
use cc2_webcontrol::error::AppError;
use cc2_webcontrol::json::Json;

#[test]
fn homing_axes_are_checked() {
    assert_eq!(home_axes_arg(&HomeRequest { axes: " XZ ".to_string() }).unwrap(), "xz");
    match home_axes_arg(&HomeRequest { axes: "xa".to_string() }) {
        Err(AppError::Validation(m)) => assert_eq!(m, "axes must be a non-empty combination of x, y, z"),
        _ => panic!("expected a validation error"),
    }
    assert!(home_axes_arg(&HomeRequest { axes: "  ".to_string() }).is_err());
    assert_eq!(jog_axis_arg(" Y").unwrap(), "y");
    match jog_axis_arg("xy") {
        Err(AppError::Validation(m)) => assert_eq!(m, "axis must be x, y, or z"),
        _ => panic!("expected a validation error"),
    }
}

#[test]
fn file_list_pages() {
    let q = |pn, ps, off, lim| FileListQuery { storage: None, page_number: pn, page_size: ps, offset: off, limit: lim };
    assert_eq!(file_list_page(&q(Some(0), Some(0), None, None)), (1, 1));
    assert_eq!(file_list_page(&q(Some(3), Some(20), Some(999), None)), (3, 20));
    assert_eq!(file_list_page(&q(None, None, None, None)), (1, 50));
    assert_eq!(file_list_page(&q(None, Some(10), Some(120), Some(50))), (3, 50));
    assert_eq!(file_list_page(&q(None, None, Some(-5), Some(0))), (1, 1));
    assert_eq!(storage_or_local(&None), "local");
    assert_eq!(storage_or_local(&Some("usb".into())), "usb");
}

#[test]
fn small_request_rules() {
    assert_eq!(default_plate(), "textured");
    assert!(led_on(&LedRequest { power: 2 }));
    assert!(!led_on(&LedRequest { power: 0 }));
    match require_filename("") {
        Err(AppError::Validation(m)) => assert_eq!(m, "filename is required"),
        _ => panic!("expected a validation error"),
    }
    assert!(require_filename("a").is_ok());
    assert_eq!(history_limits(true, Some(1000)), (300, 20000));
    assert_eq!(history_limits(false, Some(10)), (10, 5000));
    assert_eq!(grouped_limits(None, None), (20000, 300));
    assert_eq!(live_events_start(25), 5);
    assert_eq!(live_events_start(3), 0);
}

#[test]
fn printer_replies_are_read() {
    let data = Json::Object(vec![
        ("history_task_list".to_string(), Json::Array(vec![Json::Null])),
        ("thumbnail".to_string(), Json::Text("t".to_string())),
    ]);
    assert_eq!(history_list(&data), vec![Json::Null]);
    assert!(history_list(&Json::Null).is_empty());
    assert_eq!(thumbnail_of(&data), "t");
    assert_eq!(thumbnail_of(&Json::Null), "");
}

#[test]
fn page_numbers_that_overflow_are_caught() {
    let q = |offset: Option<i64>, limit: Option<i64>| FileListQuery {
        storage: None,
        page_number: None,
        page_size: None,
        offset,
        limit,
    };
    assert!(page_in_range(&q(Some(100), Some(10))));
    assert!(page_in_range(&q(Some(i64::MAX), Some(2))));
    assert!(!page_in_range(&q(Some(i64::MAX), Some(1))));
    assert!(!page_in_range(&q(Some(i64::MAX), Some(0))));
    let paged = FileListQuery { page_number: Some(1), page_size: Some(1), ..q(Some(i64::MAX), Some(1)) };
    assert!(page_in_range(&paged));
}
