use cc2_webcontrol::snapshots::{is_safe_snapshot_name, newest_first_order, page, parse_score_from_filename, parse_u32};

#[test]
fn score_from_snapshot_names() {
    assert_eq!(parse_score_from_filename("detection_20240101_87.jpg"), Some(87));
    assert_eq!(parse_score_from_filename("detection_a_b_12.jpg"), None);
    assert_eq!(parse_score_from_filename("detection_1.jpg"), None);
    assert_eq!(parse_score_from_filename("other_1_2.jpg"), None);
    assert_eq!(parse_score_from_filename("detection_1_2.png"), None);
    assert_eq!(parse_score_from_filename("detection_1_+7.jpg"), Some(7));
    assert_eq!(parse_score_from_filename("detection_1_4294967296.jpg"), None);
}

#[test]
fn u32_parsing_matches_std() {
    for s in ["0", "+1", "4294967295", "4294967296", "", "+", "-1", "12a", "007"] {
        let chars: Vec<char> = s.chars().collect();
        assert_eq!(parse_u32(&chars), s.parse::<u32>().ok(), "input {s:?}");
    }
}

#[test]
fn unsafe_names_are_refused() {
    assert!(is_safe_snapshot_name("detection_1_2.jpg"));
    assert!(!is_safe_snapshot_name("../x.jpg"));
    assert!(!is_safe_snapshot_name("a/b.jpg"));
    assert!(!is_safe_snapshot_name("a\\b.jpg"));
    assert!(is_safe_snapshot_name("a.b.jpg"));
}

#[test]
fn listing_order_and_page() {
    assert_eq!(newest_first_order(&[5, 9, 5, 1, 9]), vec![1, 4, 0, 2, 3]);
    assert_eq!(page(None, None, 120), (0, 50));
    assert_eq!(page(Some(100), Some(500), 120), (100, 20));
    assert_eq!(page(Some(300), Some(10), 120), (120, 0));
    assert_eq!(page(Some(0), Some(1000), 1000), (0, 200));
}
