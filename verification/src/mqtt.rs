//! The subset of MQTT 3.1.1 that the printer speaks over its WebSocket
//! endpoint: building CONNECT, SUBSCRIBE, PUBLISH and PUBACK packets, and
//! recognising CONNACK, PUBLISH, PUBACK and SUBACK packets.

use vstd::prelude::*;
use vstd::string::StringSliceAdditionalSpecFns;
use vstd::slice::slice_subrange;
use vstd::slice::slice_to_vec;

verus! {

/// 2^28: remaining lengths from here on do not fit the four bytes that the
/// encoding allows.
pub const MAX_REMAINING_LEN: usize = 268_435_456;

// ---------------------------------------------------------------------------
// Remaining-length encoding
// ---------------------------------------------------------------------------

/// The variable-length encoding of a remaining length: base 128, least
/// significant digit first, every byte but the last with its top bit set.
pub open spec fn enc_len(n: nat) -> Seq<u8>
    decreases n,
{
    if n < 128 {
        seq![n as u8]
    } else {
        seq![((n % 128) + 128) as u8] + enc_len(n / 128)
    }
}

/// Decoding from position `i`: the value of the digits from `i` on and the
/// position just after the last one, or `None` when the bytes end first or a
/// fourth byte still has its top bit set.
pub open spec fn dec_len_from(data: Seq<u8>, i: int) -> Option<(int, int)>
    decreases 4 - i,
{
    if i < 0 || i >= data.len() || i > 3 {
        None
    } else if data[i] < 128 {
        Some((data[i] as int, i + 1))
    } else if i >= 3 {
        None
    } else {
        match dec_len_from(data, i + 1) {
            Some((v, n)) => Some(((data[i] - 128) + 128 * v, n)),
            None => None,
        }
    }
}

/// The remaining length at the start of `data` and the number of bytes it
/// takes.
pub open spec fn dec_len(data: Seq<u8>) -> Option<(int, int)> {
    dec_len_from(data, 0)
}

pub open spec fn pow128(i: nat) -> nat
    decreases i,
{
    if i == 0 {
        1
    } else {
        128 * pow128((i - 1) as nat)
    }
}

/// Encodes a remaining length.
pub fn encode_remaining_len(length: usize) -> (out: Vec<u8>)
    ensures
        out@ == enc_len(length as nat),
{
    let mut out: Vec<u8> = Vec::new();
    let mut len = length;
    let ghost orig = length as nat;
    loop
        invariant
            orig == length as nat,
            out@ + enc_len(len as nat) == enc_len(orig),
        decreases len,
    {
        let digit = len % 128;
        let rest = len / 128;
        if rest > 0 {
            let byte = (digit + 128) as u8;
            assert(out@ + seq![byte] + enc_len(rest as nat) == enc_len(orig)) by {
                assert(enc_len(len as nat) == seq![byte] + enc_len(rest as nat));
                assert(out@ + (seq![byte] + enc_len(rest as nat)) == out@ + seq![byte] + enc_len(
                    rest as nat,
                ));
            }
            out.push(byte);
            len = rest;
        } else {
            let byte = digit as u8;
            assert(enc_len(len as nat) == seq![byte]);
            let ghost before = out@;
            out.push(byte);
            assert(out@ =~= before + enc_len(len as nat));
            return out;
        }
    }
}

proof fn lemma_mul_distrib(m: int, a: int, v: int)
    by (nonlinear_arith)
    ensures
        m * (a + 128 * v) == m * a + (128 * m) * v,
{
}

proof fn lemma_mul_comm(a: int, b: int)
    by (nonlinear_arith)
    ensures
        a * b == b * a,
{
}

proof fn lemma_digit_bound(value: int, m: int, d: int)
    by (nonlinear_arith)
    requires
        0 <= value < m,
        0 <= d < 128,
    ensures
        0 <= value + d * m < 128 * m,
{
}

proof fn lemma_pow128_bound(i: nat)
    requires
        i <= 4,
    ensures
        pow128(i) <= MAX_REMAINING_LEN,
        pow128(i) >= 1,
{
    reveal_with_fuel(pow128, 5);
}

/// Decodes a remaining length at the start of `data`: the length and the
/// number of bytes it took, or `None` when the bytes end before the last
/// digit or more than four digits would be needed.
pub fn decode_remaining_len(data: &[u8]) -> (r: Option<(usize, usize)>)
    ensures
        match dec_len(data@) {
            Some((v, n)) => r == Some((v as usize, n as usize)),
            None => r is None,
        },
{
    let mut multiplier: usize = 1;
    let mut value: usize = 0;
    let mut i: usize = 0;
    while i < data.len()
        invariant
            i <= 3,
            multiplier as nat == pow128(i as nat),
            value < multiplier,
            dec_len(data@) == match dec_len_from(data@, i as int) {
                Some((v, n)) => Some((value + multiplier * v, n)),
                None => None::<(int, int)>,
            },
        decreases data@.len() - i,
    {
        proof {
            lemma_pow128_bound(i as nat);
            lemma_pow128_bound((i + 1) as nat);
        }
        let byte = data[i];
        let digit = byte & 0x7F;
        assert(byte & 0x7F == byte % 128) by (bit_vector);
        assert((byte & 0x80 == 0) == (byte < 128)) by (bit_vector);
        proof {
            lemma_digit_bound(value as int, multiplier as int, digit as int);
        }
        let ghost old_value = value as int;
        let ghost old_mult = multiplier as int;
        value = value + (digit as usize) * multiplier;
        if byte & 0x80 == 0 {
            proof {
                lemma_mul_comm(old_mult, digit as int);
            }
            return Some((value, i + 1));
        }
        multiplier = multiplier * 128;
        if i >= 3 {
            return None;
        }
        proof {
            if let Some((v, n)) = dec_len_from(data@, i + 1) {
                lemma_mul_distrib(old_mult, (byte - 128) as int, v);
                lemma_mul_comm(old_mult, digit as int);
            }
        }
        i = i + 1;
    }
    None
}

/// Decoding an encoded length gives the length back, whatever follows it,
/// for every length the four-byte encoding can hold.
pub proof fn lemma_remaining_len_roundtrip(n: nat, rest: Seq<u8>)
    requires
        n < MAX_REMAINING_LEN,
    ensures
        dec_len(enc_len(n) + rest) == Some((n as int, enc_len(n).len() as int)),
        1 <= enc_len(n).len() <= 4,
{
    reveal_with_fuel(pow128, 5);
    lemma_dec_enc_at(seq![], n, rest);
}

proof fn lemma_dec_enc_at(prefix: Seq<u8>, n: nat, rest: Seq<u8>)
    requires
        prefix.len() <= 3,
        n < pow128((4 - prefix.len()) as nat),
    ensures
        dec_len_from(prefix + enc_len(n) + rest, prefix.len() as int) == Some(
            (n as int, (prefix.len() + enc_len(n).len()) as int),
        ),
        1 <= enc_len(n).len() <= 4 - prefix.len(),
    decreases n,
{
    let s = prefix + enc_len(n) + rest;
    let i = prefix.len() as int;
    reveal_with_fuel(pow128, 5);
    if n < 128 {
        assert(s[i] == n as u8);
    } else {
        let b = ((n % 128) + 128) as u8;
        let p2 = prefix.push(b);
        assert(s[i] == b);
        assert(prefix.len() < 3) by {
            if prefix.len() == 3 {
                assert(pow128(1) == 128);
            }
        }
        assert(n / 128 < pow128((4 - p2.len()) as nat)) by {
            let k = (4 - p2.len()) as nat;
            assert(pow128((4 - prefix.len()) as nat) == 128 * pow128(k));
        }
        lemma_dec_enc_at(p2, n / 128, rest);
        assert(p2 + enc_len(n / 128) + rest =~= s);
    }
}

// ---------------------------------------------------------------------------
// Packet building
// ---------------------------------------------------------------------------

/// Big-endian bytes of a 16-bit value.
pub open spec fn be16(x: int) -> Seq<u8> {
    seq![(x / 256) as u8, (x % 256) as u8]
}

/// A length-prefixed field: its length, cut to 16 bits as a `u16` cast
/// does, then its bytes.
pub open spec fn field(bytes: Seq<u8>) -> Seq<u8> {
    be16((bytes.len() % 65536) as int) + bytes
}

fn push_be16(out: &mut Vec<u8>, x: u16)
    ensures
        final(out)@ == old(out)@ + be16(x as int),
{
    out.push((x / 256) as u8);
    out.push((x % 256) as u8);
}

fn push_bytes(out: &mut Vec<u8>, src: &[u8])
    ensures
        final(out)@ == old(out)@ + src@,
{
    let ghost start = out@;
    let mut i: usize = 0;
    while i < src.len()
        invariant
            i <= src@.len(),
            out@ == start + src@.subrange(0, i as int),
        decreases src@.len() - i,
    {
        out.push(src[i]);
        i += 1;
        assert(out@ =~= start + src@.subrange(0, i as int));
    }
    assert(src@.subrange(0, src@.len() as int) =~= src@);
}

fn push_field(out: &mut Vec<u8>, bytes: &[u8])
    ensures
        final(out)@ == old(out)@ + field(bytes@),
{
    push_be16(out, (bytes.len() % 65536) as u16);
    push_bytes(out, bytes);
    assert(out@ =~= old(out)@ + field(bytes@));
}

/// The CONNECT packet for MQTT 3.1.1 with a user name, a password, a clean
/// session and a keep-alive of 60 s.
pub open spec fn connect_bytes(client_id: Seq<u8>, username: Seq<u8>, password: Seq<u8>) -> Seq<
    u8,
> {
    let remaining = 10 + 2 + client_id.len() + 2 + username.len() + 2 + password.len();
    seq![0x10u8] + enc_len(remaining) + seq![0x00u8, 0x04u8, 0x4Du8, 0x51u8, 0x54u8, 0x54u8]
        + seq![0x04u8, 0xC2u8, 0x00u8, 0x3Cu8] + field(client_id) + field(username) + field(password)
}

/// Builds the CONNECT packet.
pub fn encode_connect(client_id: &str, username: &str, password: &str) -> (out: Vec<u8>)
    requires
        client_id.spec_bytes().len() + username.spec_bytes().len() + password.spec_bytes().len() + 18 <= usize::MAX,
    ensures
        out@ == connect_bytes(client_id.spec_bytes(), username.spec_bytes(), password.spec_bytes()),
{
    let cid = client_id.as_bytes();
    let uname = username.as_bytes();
    let pwd = password.as_bytes();
    let remaining = 10 + 2 + cid.len() + 2 + uname.len() + 2 + pwd.len();
    let mut buf: Vec<u8> = Vec::new();
    buf.push(0x10);
    let len_bytes = encode_remaining_len(remaining);
    push_bytes(&mut buf, len_bytes.as_slice());
    buf.push(0x00);
    buf.push(0x04);
    buf.push(0x4D);
    buf.push(0x51);
    buf.push(0x54);
    buf.push(0x54);
    buf.push(0x04);
    buf.push(0xC2);
    buf.push(0x00);
    buf.push(0x3C);
    push_field(&mut buf, cid);
    push_field(&mut buf, uname);
    push_field(&mut buf, pwd);
    assert(buf@ =~= connect_bytes(
        client_id.spec_bytes(),
        username.spec_bytes(),
        password.spec_bytes(),
    ));
    buf
}

/// The PUBACK packet acknowledging a packet id.
pub open spec fn puback_bytes(packet_id: u16) -> Seq<u8> {
    seq![0x40u8, 0x02u8] + be16(packet_id as int)
}

/// Builds the PUBACK packet.
pub fn encode_puback(packet_id: u16) -> (out: Vec<u8>)
    ensures
        out@ == puback_bytes(packet_id),
{
    let mut buf: Vec<u8> = Vec::new();
    buf.push(0x40);
    buf.push(0x02);
    push_be16(&mut buf, packet_id);
    assert(buf@ =~= puback_bytes(packet_id));
    buf
}

/// The byte length of a subscription list: each topic takes a length field,
/// its bytes and a QoS byte.
pub open spec fn topics_len(topics: Seq<(Seq<u8>, u8)>) -> nat
    decreases topics.len(),
{
    if topics.len() == 0 {
        0
    } else {
        topics_len(topics.drop_last()) + 2 + topics.last().0.len() + 1
    }
}

/// The subscription list: for each topic, its length field, its bytes and
/// its requested QoS.
pub open spec fn topics_bytes(topics: Seq<(Seq<u8>, u8)>) -> Seq<u8>
    decreases topics.len(),
{
    if topics.len() == 0 {
        seq![]
    } else {
        topics_bytes(topics.drop_last()) + field(topics.last().0) + seq![topics.last().1]
    }
}

/// The topics of a subscription request as bytes.
pub open spec fn topic_list(topics: Seq<(&str, u8)>) -> Seq<(Seq<u8>, u8)> {
    topics.map_values(|t: (&str, u8)| (t.0.spec_bytes(), t.1))
}

/// The SUBSCRIBE packet.
pub open spec fn subscribe_bytes(packet_id: u16, topics: Seq<(Seq<u8>, u8)>) -> Seq<u8> {
    seq![0x82u8] + enc_len(2 + topics_len(topics)) + be16(packet_id as int) + topics_bytes(topics)
}

proof fn lemma_topics_len(topics: Seq<(Seq<u8>, u8)>)
    ensures
        topics_bytes(topics).len() == topics_len(topics),
    decreases topics.len(),
{
    if topics.len() > 0 {
        lemma_topics_len(topics.drop_last());
    }
}

/// Builds the SUBSCRIBE packet.
pub fn encode_subscribe(packet_id: u16, topics: &[(&str, u8)]) -> (out: Vec<u8>)
    requires
        topics_len(topic_list(topics@)) + 2 <= usize::MAX,
    ensures
        out@ == subscribe_bytes(packet_id, topic_list(topics@)),
{
    let ghost list = topic_list(topics@);
    let mut body: Vec<u8> = Vec::new();
    let mut remaining: usize = 2;
    let mut i: usize = 0;
    proof {
        lemma_topics_len(list);
    }
    while i < topics.len()
        invariant
            i <= topics@.len(),
            list == topic_list(topics@),
            topics_len(list) + 2 <= usize::MAX,
            body@ == topics_bytes(list.subrange(0, i as int)),
            remaining == 2 + topics_len(list.subrange(0, i as int)),
        decreases topics@.len() - i,
    {
        let (topic, qos) = topics[i];
        let bytes = topic.as_bytes();
        let ghost pre = list.subrange(0, i as int);
        let ghost next = list.subrange(0, i + 1);
        proof {
            assert(next.drop_last() =~= pre);
            assert(next.last() == (bytes@, qos));
            lemma_topics_prefix(list, i + 1);
        }
        remaining = remaining + 2 + bytes.len() + 1;
        push_field(&mut body, bytes);
        body.push(qos);
        i += 1;
        assert(body@ =~= topics_bytes(next));
    }
    assert(list.subrange(0, topics@.len() as int) =~= list);
    let mut buf: Vec<u8> = Vec::new();
    buf.push(0x82);
    let len_bytes = encode_remaining_len(remaining);
    push_bytes(&mut buf, len_bytes.as_slice());
    push_be16(&mut buf, packet_id);
    push_bytes(&mut buf, body.as_slice());
    assert(buf@ =~= subscribe_bytes(packet_id, list));
    buf
}

proof fn lemma_topics_prefix(list: Seq<(Seq<u8>, u8)>, k: int)
    requires
        0 <= k <= list.len(),
    ensures
        topics_len(list.subrange(0, k)) <= topics_len(list),
    decreases list.len(),
{
    if k < list.len() {
        assert(list.drop_last().subrange(0, k) =~= list.subrange(0, k));
        lemma_topics_prefix(list.drop_last(), k);
    } else {
        assert(list.subrange(0, k) =~= list);
    }
}

/// The first byte of a PUBLISH packet at a QoS level.
pub open spec fn publish_header(qos: u8) -> u8 {
    (0x30 + (qos % 4) * 2) as u8
}

/// The PUBLISH packet: header, remaining length, topic field, the packet id
/// when the QoS is above 0, and the payload.
pub open spec fn publish_bytes(qos: u8, packet_id: u16, topic: Seq<u8>, payload: Seq<u8>) -> Seq<
    u8,
> {
    let pid = if qos > 0 {
        be16(packet_id as int)
    } else {
        seq![]
    };
    let remaining = 2 + topic.len() + pid.len() + payload.len();
    seq![publish_header(qos)] + enc_len(remaining) + field(topic) + pid + payload
}

/// Builds a PUBLISH packet.
pub fn encode_publish(qos: u8, packet_id: u16, topic: &str, payload: &[u8]) -> (out: Vec<u8>)
    requires
        topic.spec_bytes().len() + payload@.len() + 4 <= usize::MAX,
    ensures
        out@ == publish_bytes(qos, packet_id, topic.spec_bytes(), payload@),
{
    let topic_bytes = topic.as_bytes();
    let has_pid = qos > 0;
    let pid_len: usize = if has_pid {
        2
    } else {
        0
    };
    let remaining = 2 + topic_bytes.len() + pid_len + payload.len();
    let q = qos & 0x03;
    assert(qos & 0x03 == qos % 4) by (bit_vector);
    let header: u8 = 0x30 + q * 2;
    assert(header == (0x30u8 | (q << 1u8))) by (bit_vector)
        requires
            q < 4,
            header == 0x30 + q * 2,
    ;
    let mut buf: Vec<u8> = Vec::new();
    buf.push(header);
    let len_bytes = encode_remaining_len(remaining);
    push_bytes(&mut buf, len_bytes.as_slice());
    push_field(&mut buf, topic_bytes);
    if has_pid {
        push_be16(&mut buf, packet_id);
    }
    push_bytes(&mut buf, payload);
    assert(buf@ =~= publish_bytes(qos, packet_id, topic.spec_bytes(), payload@));
    buf
}

// ---------------------------------------------------------------------------
// Packet recognition
// ---------------------------------------------------------------------------

/// A packet from the broker that the session acts on.
#[derive(Debug)]
pub enum WsPacket {
    Publish { topic: String, payload: Vec<u8>, ack_id: Option<u16> },
    ConnAck(u8),
    SubAck,
    PubAck,
}

/// A recognised packet, with the topic as the bytes that carried it.
pub enum PacketView {
    Publish { topic: Seq<u8>, payload: Seq<u8>, ack_id: Option<u16> },
    ConnAck(u8),
    SubAck,
    PubAck,
}

/// The text that `String::from_utf8_lossy` makes of some bytes.
pub uninterp spec fn utf8_lossy(bytes: Seq<u8>) -> Seq<char>;

/// Calls `String::from_utf8_lossy`. Its documentation says that valid UTF-8
/// comes back unchanged; what replaces invalid sequences is left to the name
/// `utf8_lossy`.
#[verifier::external_body]
fn lossy_string(bytes: &[u8]) -> (s: String)
    ensures
        s@ == utf8_lossy(bytes@),
        vstd::utf8::valid_utf8(bytes@) ==> s@ == vstd::utf8::decode_utf8(bytes@),
{
    String::from_utf8_lossy(bytes).to_string()
}

/// Big-endian value of two bytes.
pub open spec fn u16_at(data: Seq<u8>, i: int) -> int {
    data[i] * 256 + data[i + 1]
}

/// What a PUBLISH packet holds, or `None` when it is cut short: its
/// remaining length must fit in the data, and the topic and, at QoS above
/// 0, the packet id must be present. The payload is everything after them.
pub open spec fn parse_publish(data: Seq<u8>) -> Option<PacketView> {
    match dec_len(data.subrange(1, data.len() as int)) {
        None => None,
        Some((remaining, br)) => {
            let pos = 1 + br;
            if pos + remaining > data.len() || pos + 2 > data.len() {
                None
            } else {
                let topic_len = u16_at(data, pos);
                let tpos = pos + 2;
                if tpos + topic_len > data.len() {
                    None
                } else {
                    let topic = data.subrange(tpos, tpos + topic_len);
                    let after = tpos + topic_len;
                    let qos = (data[0] / 2) % 4;
                    if qos > 0 {
                        if after + 2 > data.len() {
                            None
                        } else {
                            Some(
                                PacketView::Publish {
                                    topic,
                                    payload: data.subrange(after + 2, data.len() as int),
                                    ack_id: Some(u16_at(data, after) as u16),
                                },
                            )
                        }
                    } else {
                        Some(
                            PacketView::Publish {
                                topic,
                                payload: data.subrange(after, data.len() as int),
                                ack_id: None,
                            },
                        )
                    }
                }
            }
        },
    }
}

/// The packet that some bytes hold, by the type in the top four bits of the
/// first byte.
pub open spec fn parse_view(data: Seq<u8>) -> Option<PacketView> {
    if data.len() == 0 {
        None
    } else {
        let kind = data[0] / 16;
        if kind == 2 {
            if data.len() < 4 {
                None
            } else {
                Some(PacketView::ConnAck(data[3]))
            }
        } else if kind == 3 {
            parse_publish(data)
        } else if kind == 4 {
            Some(PacketView::PubAck)
        } else if kind == 9 {
            Some(PacketView::SubAck)
        } else {
            None
        }
    }
}

/// Whether a packet agrees with its view, the topic text being what
/// `from_utf8_lossy` makes of the topic bytes.
pub open spec fn packet_matches(p: WsPacket, v: PacketView) -> bool {
    match (p, v) {
        (
            WsPacket::Publish { topic, payload, ack_id },
            PacketView::Publish { topic: tb, payload: pb, ack_id: a },
        ) => topic@ == utf8_lossy(tb) && (vstd::utf8::valid_utf8(tb) ==> topic@ == vstd::utf8::decode_utf8(
            tb,
        )) && payload@ == pb && ack_id == a,
        (WsPacket::ConnAck(c), PacketView::ConnAck(d)) => c == d,
        (WsPacket::SubAck, PacketView::SubAck) => true,
        (WsPacket::PubAck, PacketView::PubAck) => true,
        _ => false,
    }
}

/// A PUBLISH packet built for a text topic is recognised with that topic's
/// UTF-8 bytes, which are valid and decode to the same text; so
/// `parse_packet` gives the topic back as the same text.
pub proof fn lemma_publish_topic_text(qos: u8, packet_id: u16, topic: Seq<char>, payload: Seq<u8>)
    requires
        qos < 4,
        vstd::utf8::encode_utf8(topic).len() < 65536,
        2 + vstd::utf8::encode_utf8(topic).len() + 2 + payload.len() < MAX_REMAINING_LEN,
    ensures
        parse_view(publish_bytes(qos, packet_id, vstd::utf8::encode_utf8(topic), payload)) == Some(
            PacketView::Publish {
                topic: vstd::utf8::encode_utf8(topic),
                payload,
                ack_id: if qos > 0 {
                    Some(packet_id)
                } else {
                    None
                },
            },
        ),
        vstd::utf8::valid_utf8(vstd::utf8::encode_utf8(topic)),
        vstd::utf8::decode_utf8(vstd::utf8::encode_utf8(topic)) == topic,
{
    lemma_publish_roundtrip(qos, packet_id, vstd::utf8::encode_utf8(topic), payload);
    vstd::utf8::encode_utf8_valid_utf8(topic);
    vstd::utf8::encode_utf8_decode_utf8(topic);
}

/// The packet-id counter of one session.
pub struct MqttOverWs {
    packet_id: u16,
}

impl MqttOverWs {
    pub closed spec fn next_id(&self) -> u16 {
        self.packet_id
    }

    /// A session whose first packet id is 1.
    pub fn new() -> (m: Self)
        ensures
            m.next_id() == 1,
    {
        MqttOverWs { packet_id: 1 }
    }

    /// Hands out the next packet id; the counter wraps around at 2^16.
    pub fn next_packet_id(&mut self) -> (id: u16)
        ensures
            id == old(self).next_id(),
            final(self).next_id() == (old(self).next_id() + 1) % 65536,
    {
        let id = self.packet_id;
        self.packet_id = if id == u16::MAX {
            0
        } else {
            id + 1
        };
        id
    }

    /// The CONNECT packet of this session.
    pub fn connect_packet(&self, client_id: &str, username: &str, password: &str) -> (out: Vec<u8>)
        requires
            client_id.spec_bytes().len() + username.spec_bytes().len() + password.spec_bytes().len() + 18 <= usize::MAX,
        ensures
            out@ == connect_bytes(
                client_id.spec_bytes(),
                username.spec_bytes(),
                password.spec_bytes(),
            ),
    {
        encode_connect(client_id, username, password)
    }

    /// A SUBSCRIBE packet under the next packet id.
    pub fn subscribe_packet(&mut self, topics: &[(&str, u8)]) -> (out: Vec<u8>)
        requires
            topics_len(topic_list(topics@)) + 2 <= usize::MAX,
        ensures
            out@ == subscribe_bytes(old(self).next_id(), topic_list(topics@)),
            final(self).next_id() == (old(self).next_id() + 1) % 65536,
    {
        let pid = self.next_packet_id();
        encode_subscribe(pid, topics)
    }

    /// A QoS 1 PUBLISH packet under the next packet id.
    pub fn publish_packet(&mut self, topic: &str, payload: &[u8]) -> (out: Vec<u8>)
        requires
            topic.spec_bytes().len() + payload@.len() + 4 <= usize::MAX,
        ensures
            out@ == publish_bytes(1, old(self).next_id(), topic.spec_bytes(), payload@),
            final(self).next_id() == (old(self).next_id() + 1) % 65536,
    {
        let pid = self.next_packet_id();
        encode_publish(1, pid, topic, payload)
    }

    /// The PUBACK packet for a received packet id.
    pub fn puback_packet(&self, packet_id: u16) -> (out: Vec<u8>)
        ensures
            out@ == puback_bytes(packet_id),
    {
        encode_puback(packet_id)
    }

    /// Recognises a packet from the broker.
    pub fn parse_packet(&self, data: &[u8]) -> (r: Option<WsPacket>)
        ensures
            match (r, parse_view(data@)) {
                (Some(p), Some(v)) => packet_matches(p, v),
                (None, None) => true,
                _ => false,
            },
    {
        if data.len() == 0 {
            return None;
        }
        let first = data[0];
        let packet_type = (first >> 4) & 0x0F;
        assert((first >> 4) & 0x0F == first / 16) by (bit_vector);
        if packet_type == 2 {
            if data.len() < 4 {
                return None;
            }
            return Some(WsPacket::ConnAck(data[3]));
        } else if packet_type == 3 {
            return parse_publish_exec(data);
        } else if packet_type == 4 {
            return Some(WsPacket::PubAck);
        } else if packet_type == 9 {
            return Some(WsPacket::SubAck);
        }
        None
    }
}

fn parse_publish_exec(data: &[u8]) -> (r: Option<WsPacket>)
    requires
        data@.len() > 0,
    ensures
        match (r, parse_publish(data@)) {
            (Some(p), Some(v)) => packet_matches(p, v),
            (None, None) => true,
            _ => false,
        },
{
    let rest = slice_subrange(data, 1, data.len());
    let (remaining, br) = match decode_remaining_len(rest) {
        Some(x) => x,
        None => return None,
    };
    proof {
        lemma_dec_len_bound(rest@);
    }
    let pos = 1 + br;
    if remaining > data.len() - pos || pos + 2 > data.len() {
        return None;
    }
    let topic_len = (data[pos] as usize) * 256 + (data[pos + 1] as usize);
    let tpos = pos + 2;
    if topic_len > data.len() - tpos {
        return None;
    }
    let topic = lossy_string(slice_subrange(data, tpos, tpos + topic_len));
    let after = tpos + topic_len;
    let first = data[0];
    let qos = (first >> 1) & 0x03;
    assert((first >> 1) & 0x03 == (first / 2) % 4) by (bit_vector);
    if qos > 0 {
        if after + 2 > data.len() {
            return None;
        }
        let pid: u16 = ((data[after] as u16) * 256 + (data[after + 1] as u16)) as u16;
        let payload = slice_to_vec(slice_subrange(data, after + 2, data.len()));
        Some(WsPacket::Publish { topic, payload, ack_id: Some(pid) })
    } else {
        let payload = slice_to_vec(slice_subrange(data, after, data.len()));
        Some(WsPacket::Publish { topic, payload, ack_id: None })
    }
}

proof fn lemma_dec_len_bound(data: Seq<u8>)
    ensures
        dec_len(data) matches Some((v, n)) ==> 0 <= v < MAX_REMAINING_LEN && 1 <= n <= 4 && n
            <= data.len(),
{
    lemma_dec_from_bound(data, 0);
    reveal_with_fuel(pow128, 5);
}

proof fn lemma_dec_from_bound(data: Seq<u8>, i: int)
    requires
        0 <= i <= 3,
    ensures
        dec_len_from(data, i) matches Some((v, n)) ==> 0 <= v < pow128((4 - i) as nat) && i + 1
            <= n <= 4 && n <= data.len(),
    decreases 4 - i,
{
    reveal_with_fuel(pow128, 5);
    if i < 3 && i < data.len() && data[i] >= 128 {
        lemma_dec_from_bound(data, i + 1);
        if let Some((v, n)) = dec_len_from(data, i + 1) {
            let k = (3 - i) as nat;
            assert(pow128((4 - i) as nat) == 128 * pow128(k));
            lemma_digit_bound((data[i] - 128) as int, 128, 0);
            assert((data[i] - 128) + 128 * v < 128 * pow128(k)) by (nonlinear_arith)
                requires
                    0 <= data[i] - 128 < 128,
                    0 <= v < pow128(k),
            ;
        }
    }
}

/// A PUBLISH packet that this module builds is recognised as the same
/// topic bytes, payload and packet id (QoS 1 and 2 carry an id, QoS 0 none),
/// when the QoS is a valid one, the topic fits its 16-bit length field and
/// the remaining length fits four bytes.
#[verifier::rlimit(60)]
pub proof fn lemma_publish_roundtrip(qos: u8, packet_id: u16, topic: Seq<u8>, payload: Seq<u8>)
    requires
        qos < 4,
        topic.len() < 65536,
        2 + topic.len() + 2 + payload.len() < MAX_REMAINING_LEN,
    ensures
        parse_view(publish_bytes(qos, packet_id, topic, payload)) == Some(
            PacketView::Publish {
                topic,
                payload,
                ack_id: if qos > 0 {
                    Some(packet_id)
                } else {
                    None
                },
            },
        ),
{
    let pid: Seq<u8> = if qos > 0 {
        be16(packet_id as int)
    } else {
        seq![]
    };
    let remaining = 2 + topic.len() + pid.len() + payload.len();
    let tail = field(topic) + pid + payload;
    let data = publish_bytes(qos, packet_id, topic, payload);
    lemma_remaining_len_roundtrip(remaining, tail);
    assert(data =~= seq![publish_header(qos)] + (enc_len(remaining) + tail));
    assert(data.subrange(1, data.len() as int) =~= enc_len(remaining) + tail);
    let br = enc_len(remaining).len() as int;
    let pos = 1 + br;
    assert(data.len() == pos + remaining);
    assert(data[0] == publish_header(qos));
    assert(data[0] / 16 == 3);
    assert((data[0] / 2) % 4 == qos);
    assert(data[pos] == (topic.len() / 256) as u8);
    assert(data[pos + 1] == (topic.len() % 256) as u8);
    assert(u16_at(data, pos) == topic.len());
    let tpos = pos + 2;
    assert(data.subrange(tpos, tpos + topic.len()) =~= topic);
    let after = tpos + topic.len();
    if qos > 0 {
        assert(data[after] == (packet_id / 256) as u8);
        assert(data[after + 1] == (packet_id % 256) as u8);
        assert(u16_at(data, after) == packet_id);
        assert(data.subrange(after + 2, data.len() as int) =~= payload);
    } else {
        assert(data.subrange(after, data.len() as int) =~= payload);
    }
}

/// The CONNACK return code in words.
pub fn connack_reason(code: u8) -> (r: &'static str)
    ensures
        r@ == (if code == 1 {
            "bad credentials"@
        } else if code == 2 {
            "client id not allowed"@
        } else if code == 3 {
            "server unavailable"@
        } else {
            "rejected"@
        }),
{
    match code {
        1 => "bad credentials",
        2 => "client id not allowed",
        3 => "server unavailable",
        _ => "rejected",
    }
}

} // verus!
