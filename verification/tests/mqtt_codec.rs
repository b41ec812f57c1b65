use cc2_webcontrol::mqtt::{
    connack_reason, decode_remaining_len, encode_connect, encode_puback, encode_publish,
    encode_remaining_len, encode_subscribe, MqttOverWs, WsPacket,
};

#[test]
fn remaining_length_roundtrip_values() {
    for n in [0usize, 1, 127, 128, 16383, 16384, 2_097_151, 2_097_152, 268_435_455] {
        let enc = encode_remaining_len(n);
        assert_eq!(decode_remaining_len(&enc), Some((n, enc.len())));
    }
    assert_eq!(encode_remaining_len(321), vec![0xC1, 0x02]);
}

#[test]
fn decode_rejects_unterminated_or_long_lengths() {
    assert_eq!(decode_remaining_len(&[]), None);
    assert_eq!(decode_remaining_len(&[0x80]), None);
    assert_eq!(decode_remaining_len(&[0xFF, 0xFF, 0xFF, 0xFF, 0x01]), None);
}

#[test]
fn connect_packet_layout() {
    let p = encode_connect("c", "u", "p");
    assert_eq!(p[0], 0x10);
    assert_eq!(p[1] as usize, 10 + 2 + 1 + 2 + 1 + 2 + 1);
    assert_eq!(&p[2..8], &[0x00, 0x04, b'M', b'Q', b'T', b'T']);
    assert_eq!(&p[8..12], &[0x04, 0xC2, 0x00, 0x3C]);
    assert_eq!(&p[12..], &[0, 1, b'c', 0, 1, b'u', 0, 1, b'p']);
}

#[test]
fn puback_and_subscribe_layout() {
    assert_eq!(encode_puback(0x1234), vec![0x40, 0x02, 0x12, 0x34]);
    let s = encode_subscribe(7, &[("ab", 1)]);
    assert_eq!(s, vec![0x82, 7, 0, 7, 0, 2, b'a', b'b', 1]);
}

#[test]
fn publish_roundtrips_through_parse() {
    let m = MqttOverWs::new();
    let p = encode_publish(1, 42, "t/x", b"hello");
    match m.parse_packet(&p) {
        Some(WsPacket::Publish { topic, payload, ack_id }) => {
            assert_eq!(topic, "t/x");
            assert_eq!(payload, b"hello".to_vec());
            assert_eq!(ack_id, Some(42));
        }
        _ => panic!("expected a publish"),
    }
    let p0 = encode_publish(0, 42, "t", b"x");
    match m.parse_packet(&p0) {
        Some(WsPacket::Publish { ack_id, .. }) => assert_eq!(ack_id, None),
        _ => panic!("expected a publish"),
    }
}

#[test]
fn parse_other_packets() {
    let m = MqttOverWs::new();
    assert!(matches!(m.parse_packet(&[0x20, 0x02, 0x00, 0x05]), Some(WsPacket::ConnAck(5))));
    assert!(m.parse_packet(&[0x20, 0x02]).is_none());
    assert!(matches!(m.parse_packet(&[0x40, 0x02, 0, 1]), Some(WsPacket::PubAck)));
    assert!(matches!(m.parse_packet(&[0x90, 0x03, 0, 1, 0]), Some(WsPacket::SubAck)));
    assert!(m.parse_packet(&[0xD0, 0x00]).is_none());
    assert!(m.parse_packet(&[]).is_none());
    // a topic that is not valid UTF-8 is read lossily
    let mut bad = encode_publish(0, 0, "ab", b"");
    bad[4] = 0xFF;
    match m.parse_packet(&bad) {
        Some(WsPacket::Publish { topic, .. }) => assert_eq!(topic, "\u{FFFD}b"),
        _ => panic!("expected a publish"),
    }
}

#[test]
fn packet_ids_count_up_and_wrap() {
    let mut m = MqttOverWs::new();
    assert_eq!(m.next_packet_id(), 1);
    assert_eq!(m.next_packet_id(), 2);
    let sub = m.subscribe_packet(&[("a", 0)]);
    assert_eq!(&sub[2..4], &[0, 3]);
    let publ = m.publish_packet("a", b"");
    assert_eq!(publ[0], 0x32);
    for _ in 0..(65536 - 5) {
        m.next_packet_id();
    }
    assert_eq!(m.next_packet_id(), 0);
    assert_eq!(m.puback_packet(9), vec![0x40, 0x02, 0, 9]);
    assert_eq!(m.connect_packet("c", "u", "p"), encode_connect("c", "u", "p"));
}

#[test]
fn connack_reasons() {
    assert_eq!(connack_reason(1), "bad credentials");
    assert_eq!(connack_reason(2), "client id not allowed");
    assert_eq!(connack_reason(3), "server unavailable");
    assert_eq!(connack_reason(9), "rejected");
}

#[test]
fn publish_keeps_a_text_topic() {
    let m = MqttOverWs::new();
    let topic = "elegoo/Ünïcode/äpi_status";
    match m.parse_packet(&encode_publish(0, 1, topic, b"{}")) {
        Some(WsPacket::Publish { topic: t, payload, ack_id }) => {
            assert_eq!(t, topic);
            assert_eq!(payload, b"{}".to_vec());
            assert_eq!(ack_id, None);
        }
        _ => panic!("expected a publish packet"),
    }
}
