use esb_bridge::{
    decode_b2n, decode_n2b, extract_topic2, write_topic2, Bridge2Node, Node2Bridge,
};

const N2B: [u8; 2] = [0xab, 0xcd];
const B2N: [u8; 2] = [0x12, 0x34];

#[test]
fn initialize_frame_layout() {
    let serial = 0x0102030405060708u64.to_le_bytes();
    let f = write_topic2(&Node2Bridge::Initialize { serial }, N2B, 0x0102, &[]);
    assert_eq!(f, vec![0x50, 0xab, 0xcd, 0x02, 0x01, 0, 8, 7, 6, 5, 4, 3, 2, 1]);
}

#[test]
fn initialize_ack_frame_layout() {
    let serial = [1, 2, 3, 4, 5, 6, 7, 8];
    let f = write_topic2(&Bridge2Node::InitializeAck { serial, use_pipe: 3 }, B2N, 7, &[]);
    assert_eq!(f, vec![0x50, 0x12, 0x34, 7, 0, 0, 1, 2, 3, 4, 5, 6, 7, 8, 3]);
}

#[test]
fn proxy_frame_layout() {
    let f = write_topic2(&Node2Bridge::Proxy { part: 1, ttl_parts: 3 }, N2B, 0, &[9, 9]);
    assert_eq!(f, vec![0x50, 0xab, 0xcd, 0, 0, 2, 1, 3, 9, 9]);
    let f = write_topic2(&Bridge2Node::Reset, B2N, 0, &[]);
    assert_eq!(f, vec![0x50, 0x12, 0x34, 0, 0, 3]);
}

#[test]
fn n2b_round_trip() {
    let msgs = [
        Node2Bridge::Initialize { serial: [9; 8] },
        Node2Bridge::Keepalive { serial: [0, 1, 2, 3, 4, 5, 6, 7] },
        Node2Bridge::Proxy { part: 4, ttl_parts: 5 },
        Node2Bridge::Nop,
    ];
    for m in msgs {
        let f = write_topic2(&m, N2B, 513, &[1, 2, 3]);
        let e = extract_topic2::<Node2Bridge>(&f, N2B).unwrap();
        assert_eq!(e.msg, m);
        assert_eq!(e.remain, vec![1, 2, 3]);
    }
}

#[test]
fn b2n_round_trip() {
    let msgs = [
        Bridge2Node::InitializeAck { serial: [9; 8], use_pipe: 7 },
        Bridge2Node::Keepalive { serial: [3; 8] },
        Bridge2Node::Proxy { part: 0, ttl_parts: 1 },
        Bridge2Node::Reset,
    ];
    for m in msgs {
        let f = write_topic2(&m, B2N, 65535, &[]);
        let e = extract_topic2::<Bridge2Node>(&f, B2N).unwrap();
        assert_eq!(e.msg, m);
        assert!(e.remain.is_empty());
    }
}

#[test]
fn wrong_topic_key_is_rejected() {
    let f = write_topic2(&Node2Bridge::Nop, N2B, 0, &[]);
    assert!(extract_topic2::<Node2Bridge>(&f, [0xab, 0xce]).is_none());
    assert!(extract_topic2::<Bridge2Node>(&f, B2N).is_none());
}

#[test]
fn header_is_stripped_before_message() {
    // a one-byte sequence number still carries a two-byte key
    let f = [0x40, 0xab, 0xcd, 0x05, 3, 42];
    let e = extract_topic2::<Node2Bridge>(&f, N2B).unwrap();
    assert_eq!(e.msg, Node2Bridge::Nop);
    assert_eq!(e.remain, vec![42]);
}

#[test]
fn other_key_widths_are_rejected() {
    // one-byte key, one-byte sequence number
    assert!(extract_topic2::<Node2Bridge>(&[0x00, 0x66, 0x00, 3], N2B).is_none());
    // four-byte key starting with the expected bytes
    assert!(extract_topic2::<Node2Bridge>(&[0x80, 0xab, 0xcd, 0, 0, 0, 3], N2B).is_none());
}

#[test]
fn malformed_frames_are_rejected() {
    assert!(extract_topic2::<Node2Bridge>(&[], N2B).is_none());
    assert!(extract_topic2::<Node2Bridge>(&[0x50, 0xab], N2B).is_none());
    // unknown version bits
    assert!(extract_topic2::<Node2Bridge>(&[0x51, 0xab, 0xcd, 0, 0, 3], N2B).is_none());
    // invalid sequence width
    assert!(extract_topic2::<Node2Bridge>(&[0x70, 0xab, 0xcd, 0, 0, 0, 0, 3], N2B).is_none());
    // header alone
    assert!(extract_topic2::<Node2Bridge>(&[0x50, 0xab, 0xcd, 0, 0], N2B).is_none());
    // unknown tag
    assert!(extract_topic2::<Node2Bridge>(&[0x50, 0xab, 0xcd, 0, 0, 4], N2B).is_none());
    // truncated serial
    assert!(extract_topic2::<Node2Bridge>(&[0x50, 0xab, 0xcd, 0, 0, 0, 1, 2, 3], N2B).is_none());
    // truncated pipe number
    assert!(extract_topic2::<Bridge2Node>(&[0x50, 0x12, 0x34, 0, 0, 0, 1, 2, 3, 4, 5, 6, 7, 8], B2N).is_none());
}

#[test]
fn decode_reports_length_used() {
    assert_eq!(decode_n2b(&[2, 1, 2, 99]), Some((Node2Bridge::Proxy { part: 1, ttl_parts: 2 }, 3)));
    assert_eq!(decode_b2n(&[3, 1]), Some((Bridge2Node::Reset, 1)));
    assert_eq!(decode_b2n(&[4]), None);
    assert_eq!(decode_n2b(&[0x80, 0]), None);
}
