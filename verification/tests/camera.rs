use cc2_webcontrol::camera::{find_seq, grabber_wait, stream_url, take_frames, try_extract_frame, CameraStatus};

#[test]
fn find_seq_finds_first_occurrence() {
    assert_eq!(find_seq(&[1, 2, 3, 2, 3], &[2, 3]), Some(1));
    assert_eq!(find_seq(&[1, 2], &[2, 3]), None);
    assert_eq!(find_seq(&[], &[1]), None);
}

#[test]
fn extracts_one_frame_and_drops_what_precedes_it() {
    let mut buf = vec![0x00, 0xFF, 0xD8, 0x11, 0xFF, 0xD9, 0x22];
    let f = try_extract_frame(&mut buf).unwrap();
    assert_eq!(f, vec![0xFF, 0xD8, 0x11, 0xFF, 0xD9]);
    assert_eq!(buf, vec![0x22]);
    let mut partial = vec![0xFF, 0xD8, 0x11];
    assert!(try_extract_frame(&mut partial).is_none());
    assert_eq!(partial, vec![0xFF, 0xD8, 0x11]);
}

#[test]
fn take_frames_takes_all_complete_frames() {
    let mut buf = vec![0xFF, 0xD8, 1];
    let frames = take_frames(&mut buf, &[0xFF, 0xD9, 0xFF, 0xD8, 2, 0xFF, 0xD9, 0xFF, 0xD8]);
    assert_eq!(frames, vec![vec![0xFF, 0xD8, 1, 0xFF, 0xD9], vec![0xFF, 0xD8, 2, 0xFF, 0xD9]]);
    assert_eq!(buf, vec![0xFF, 0xD8]);
    let mut big: Vec<u8> = Vec::new();
    let chunk = vec![0u8; 4 * 1024 * 1024 + 1];
    assert!(take_frames(&mut big, &chunk).is_empty());
    assert!(big.is_empty());
}

#[test]
fn camera_status_and_waits() {
    let mut c = CameraStatus::new();
    assert_eq!(c.last_frame_ms, -1);
    c.record_frame(123);
    assert_eq!(c.frame_count, 1);
    assert_eq!(c.last_frame_ms, 123);
    c.frame_count = u64::MAX;
    c.record_frame(5);
    assert_eq!(c.frame_count, 0);
    assert_eq!(stream_url("10.0.0.5"), "http://10.0.0.5:8080/?action=stream");
    assert_eq!(grabber_wait(2, None), (2, 4));
    assert_eq!(grabber_wait(16, Some(3)), (16, 30));
    assert_eq!(grabber_wait(30, Some(12)), (2, 4));
}
