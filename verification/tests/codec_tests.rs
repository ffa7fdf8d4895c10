use nfq_filter::codec::{decode, synthesize_reset, Decoded};

fn build_ipv4_tcp(payload: &[u8]) -> Vec<u8> {
    let mut v: Vec<u8> = vec![
        0x45, 0x00, 0x00, 0x00, // version/IHL, TOS, total length (patched below)
        0x00, 0x00, 0x00, 0x00, // identification, flags/fragment offset
        64, 6, 0x00, 0x00, // TTL, protocol TCP, header checksum
        10, 0, 0, 1, // source address
        10, 0, 0, 2, // destination address
    ];
    v.extend_from_slice(&[0x1f, 0x90, 0x00, 0x50]); // ports 8080 -> 80
    v.extend_from_slice(&[0x00, 0x00, 0x10, 0x00]); // sequence number 0x1000
    v.extend_from_slice(&[0x00, 0x00, 0x20, 0x00]); // acknowledgment 0x2000
    v.extend_from_slice(&[0x50, 0x18, 0xff, 0xff]); // data offset 5, PSH|ACK, window
    v.extend_from_slice(&[0x00, 0x00, 0x00, 0x00]); // checksum, urgent pointer
    v.extend_from_slice(payload);
    let total: u16 = v.len() as u16;
    v[2] = (total >> 8) as u8;
    v[3] = (total & 0xff) as u8;
    v
}

fn build_ipv4_udp(payload: &[u8]) -> Vec<u8> {
    let mut v: Vec<u8> = vec![
        0x45, 0x00, 0x00, 0x00, 0x00, 0x00, 0x00, 0x00, 64, 17, 0x00, 0x00, 192, 168, 1, 1, 192,
        168, 1, 2,
    ];
    let ulen: u16 = (8 + payload.len()) as u16;
    v.extend_from_slice(&[0x04, 0xd2, 0x00, 0x35]); // ports 1234 -> 53
    v.push((ulen >> 8) as u8);
    v.push((ulen & 0xff) as u8);
    v.extend_from_slice(&[0x00, 0x00]); // checksum
    v.extend_from_slice(payload);
    v
}

fn ones_complement_sum(data: &[u8]) -> u16 {
    let mut acc: u32 = 0;
    let mut i: usize = 0;
    while i + 1 < data.len() {
        acc += ((data[i] as u32) << 8) | (data[i + 1] as u32);
        i += 2;
    }
    if i < data.len() {
        acc += (data[i] as u32) << 8;
    }
    while acc > 0xffff {
        acc = (acc & 0xffff) + (acc >> 16);
    }
    acc as u16
}

#[test]
fn decode_ipv4_tcp_recovers_tuple_and_payload() {
    let raw = build_ipv4_tcp(b"hello");
    match decode(&raw) {
        Decoded::Tcp(t) => {
            assert_eq!(t.ip_version, 4);
            assert_eq!(t.src_ip, vec![10, 0, 0, 1]);
            assert_eq!(t.dst_ip, vec![10, 0, 0, 2]);
            assert_eq!(t.src_port, 8080);
            assert_eq!(t.dst_port, 80);
            assert_eq!(t.seq_no, 0x1000);
            assert_eq!(t.ack_no, 0x2000);
            assert_eq!(t.flags, 0x18);
            assert_eq!(t.window, 0xffff);
            assert_eq!(t.payload, b"hello".to_vec());
        }
        _ => panic!("expected a TCP decode"),
    }
}

#[test]
fn decode_ipv4_udp_recovers_tuple_and_payload() {
    let raw = build_ipv4_udp(b"dns?");
    match decode(&raw) {
        Decoded::Udp(u) => {
            assert_eq!(u.ip_version, 4);
            assert_eq!(u.src_ip, vec![192, 168, 1, 1]);
            assert_eq!(u.dst_ip, vec![192, 168, 1, 2]);
            assert_eq!(u.src_port, 1234);
            assert_eq!(u.dst_port, 53);
            assert_eq!(u.payload, b"dns?".to_vec());
        }
        _ => panic!("expected a UDP decode"),
    }
}

#[test]
fn synthesized_reset_round_trips_with_fin_ack_only() {
    let raw = build_ipv4_tcp(b"blocked content");
    let t = match decode(&raw) {
        Decoded::Tcp(t) => t,
        _ => panic!("expected a TCP decode"),
    };
    let reset = synthesize_reset(&t);
    assert_eq!(reset.len(), 40);
    match decode(&reset) {
        Decoded::Tcp(r) => {
            assert_eq!(r.ip_version, 4);
            assert_eq!(r.src_ip, t.src_ip);
            assert_eq!(r.dst_ip, t.dst_ip);
            assert_eq!(r.src_port, t.src_port);
            assert_eq!(r.dst_port, t.dst_port);
            assert_eq!(r.seq_no, t.seq_no);
            assert_eq!(r.ack_no, t.ack_no);
            // exactly FIN and ACK: FIN=1, ACK=1, SYN=0 and nothing else
            assert_eq!(r.flags, 0x11);
            assert_eq!(r.window, t.window);
            assert!(r.payload.is_empty());
        }
        _ => panic!("the synthesized reset must decode as TCP"),
    }
}

#[test]
fn synthesized_reset_checksums_validate() {
    let raw = build_ipv4_tcp(b"x");
    let t = match decode(&raw) {
        Decoded::Tcp(t) => t,
        _ => panic!("expected a TCP decode"),
    };
    let reset = synthesize_reset(&t);
    // a correct IPv4 header sums to 0xffff including its checksum field
    assert_eq!(ones_complement_sum(&reset[0..20]), 0xffff);
    // the TCP checksum over pseudo-header plus segment does too
    let mut pseudo: Vec<u8> = Vec::new();
    pseudo.extend_from_slice(&reset[12..20]); // source, destination address
    pseudo.extend_from_slice(&[0, 6, 0, 20]); // zero, protocol, TCP length
    pseudo.extend_from_slice(&reset[20..40]);
    assert_eq!(ones_complement_sum(&pseudo), 0xffff);
}

#[test]
fn synthesized_reset_round_trips_for_ipv6() {
    let mut raw: Vec<u8> = vec![0x60, 0, 0, 0];
    raw.extend_from_slice(&[0x00, 24]); // payload length: 20 header + 4 payload
    raw.extend_from_slice(&[6, 64]); // next header TCP, hop limit
    let src: Vec<u8> = (1..=16).collect();
    let dst: Vec<u8> = (17..=32).collect();
    raw.extend_from_slice(&src);
    raw.extend_from_slice(&dst);
    raw.extend_from_slice(&[0x1f, 0x90, 0x01, 0xbb]); // ports 8080 -> 443
    raw.extend_from_slice(&[0x00, 0x00, 0x00, 0x07]); // sequence number
    raw.extend_from_slice(&[0x00, 0x00, 0x00, 0x09]); // acknowledgment
    raw.extend_from_slice(&[0x50, 0x10, 0x12, 0x34]); // offset 5, ACK, window
    raw.extend_from_slice(&[0x00, 0x00, 0x00, 0x00]);
    raw.extend_from_slice(b"data");
    let t = match decode(&raw) {
        Decoded::Tcp(t) => t,
        _ => panic!("expected a TCP decode"),
    };
    assert_eq!(t.ip_version, 6);
    assert_eq!(t.payload, b"data".to_vec());
    let reset = synthesize_reset(&t);
    assert_eq!(reset.len(), 60);
    match decode(&reset) {
        Decoded::Tcp(r) => {
            assert_eq!(r.src_ip, src);
            assert_eq!(r.dst_ip, dst);
            assert_eq!(r.src_port, 8080);
            assert_eq!(r.dst_port, 443);
            assert_eq!(r.flags, 0x11);
            assert!(r.payload.is_empty());
        }
        _ => panic!("the synthesized reset must decode as TCP"),
    }
    let mut pseudo: Vec<u8> = Vec::new();
    pseudo.extend_from_slice(&reset[8..40]);
    pseudo.extend_from_slice(&[0, 0, 0, 20, 0, 0, 0, 6]);
    pseudo.extend_from_slice(&reset[40..60]);
    assert_eq!(ones_complement_sum(&pseudo), 0xffff);
}

#[test]
fn ipv6_extension_headers_are_walked() {
    let mut raw: Vec<u8> = vec![0x60, 0, 0, 0, 0x00, 16, 0, 64]; // next header hop-by-hop
    raw.extend_from_slice(&[9u8; 16]);
    raw.extend_from_slice(&[8u8; 16]);
    // hop-by-hop extension: next header UDP, length 0 (8 bytes)
    raw.extend_from_slice(&[17, 0, 0, 0, 0, 0, 0, 0]);
    raw.extend_from_slice(&[0x00, 0x07, 0x00, 0x09, 0x00, 12, 0x00, 0x00]); // UDP header
    raw.extend_from_slice(b"ping");
    match decode(&raw) {
        Decoded::Udp(u) => {
            assert_eq!(u.ip_version, 6);
            assert_eq!(u.src_port, 7);
            assert_eq!(u.dst_port, 9);
            assert_eq!(u.payload, b"ping".to_vec());
        }
        _ => panic!("expected a UDP decode behind the extension header"),
    }
}

#[test]
fn fragmented_ipv4_decodes_to_other() {
    let mut raw = build_ipv4_tcp(b"frag");
    raw[6] = 0x20; // more-fragments flag
    assert!(matches!(decode(&raw), Decoded::Other));
    let mut raw = build_ipv4_tcp(b"frag");
    raw[7] = 0x01; // nonzero fragment offset
    assert!(matches!(decode(&raw), Decoded::Other));
}

#[test]
fn ipv6_fragment_header_decodes_to_other() {
    let mut raw: Vec<u8> = vec![0x60, 0, 0, 0, 0x00, 12, 44, 64]; // next header fragment
    raw.extend_from_slice(&[9u8; 16]);
    raw.extend_from_slice(&[8u8; 16]);
    raw.extend_from_slice(&[6, 0, 0, 1, 0, 0, 0, 1]); // fragment header
    raw.extend_from_slice(&[0u8; 4]);
    assert!(matches!(decode(&raw), Decoded::Other));
}

#[test]
fn malformed_and_unknown_input_decodes_to_other() {
    assert!(matches!(decode(&[]), Decoded::Other));
    assert!(matches!(decode(&[0x45, 0x00]), Decoded::Other)); // truncated IPv4
    assert!(matches!(decode(&[0x12, 0x34, 0x56]), Decoded::Other)); // not IP
    let mut raw = build_ipv4_tcp(b"");
    raw[9] = 47; // an L4 protocol the codec does not know
    assert!(matches!(decode(&raw), Decoded::Other));
    let raw = build_ipv4_tcp(b"");
    assert!(matches!(decode(&raw[0..30]), Decoded::Other)); // truncated TCP header
}
