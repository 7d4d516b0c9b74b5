use esb_bridge::{
    attach_reply, extract_topic2, serial_bytes, write_topic2, Attach, Bridge2Node, EsbRx, EsbTx, KeepaliveTimer,
    Node2Bridge, RxEvent,
};

const N2B: [u8; 2] = [0xab, 0xcd];
const B2N: [u8; 2] = [0x12, 0x34];
const SERIAL: u64 = 0x0102030405060708;

#[test]
fn serial_travels_little_endian() {
    assert_eq!(serial_bytes(SERIAL), [8, 7, 6, 5, 4, 3, 2, 1]);
    assert_eq!(serial_bytes(u64::MAX), [0xff; 8]);
    assert_eq!(serial_bytes(0xdead_beef), 0xdead_beefu64.to_le_bytes());
}

#[test]
fn keepalive_packet() {
    let mut tx = EsbTx::new(SERIAL, 4);
    let p = tx.send_keepalive(N2B);
    assert_eq!(p.pid, 0);
    assert_eq!(p.data, vec![0x50, 0xab, 0xcd, 0, 0, 1, 8, 7, 6, 5, 4, 3, 2, 1]);
    let p = tx.send_nop(N2B);
    assert_eq!(p.pid, 1);
    assert_eq!(p.data, vec![0x50, 0xab, 0xcd, 1, 0, 3]);
    assert_eq!(tx.ctr, 2);
    assert_eq!(tx.pipe, 4);
}

#[test]
fn packet_ids_wrap_in_two_bits() {
    let mut tx = EsbTx::new(SERIAL, 1);
    tx.pid = 255;
    tx.ctr = u16::MAX;
    let p = tx.send_nop(N2B);
    assert_eq!(p.pid, 3);
    assert_eq!(p.data[3..5], [0xff, 0xff]);
    let p = tx.send_nop(N2B);
    assert_eq!(p.pid, 0);
    assert_eq!(p.data[3..5], [0, 0]);
}

#[test]
fn raw_frame_is_cut_into_fragments() {
    let mut tx = EsbTx::new(SERIAL, 2);
    let buf: Vec<u8> = (0..257u32).map(|i| i as u8).collect();
    let pkts = tx.send_raw(N2B, &buf);
    assert_eq!(pkts.len(), 3);
    let mut joined = Vec::new();
    for (i, p) in pkts.iter().enumerate() {
        assert_eq!(p.pid, i as u8);
        assert_eq!(p.data[3], i as u8);
        let e = extract_topic2::<Node2Bridge>(&p.data, N2B).unwrap();
        assert_eq!(e.msg, Node2Bridge::Proxy { part: i as u8, ttl_parts: 3 });
        joined.extend_from_slice(&e.remain);
    }
    assert_eq!(pkts[2].data.len(), 8 + 1);
    assert_eq!(joined, buf);
    assert_eq!(tx.ctr, 3);
}

#[test]
fn short_frame_is_one_fragment() {
    let mut tx = EsbTx::new(SERIAL, 2);
    let pkts = tx.send_raw(N2B, &[7; 128]);
    assert_eq!(pkts.len(), 1);
    let e = extract_topic2::<Node2Bridge>(&pkts[0].data, N2B).unwrap();
    assert_eq!(e.msg, Node2Bridge::Proxy { part: 0, ttl_parts: 1 });
    assert_eq!(e.remain, vec![7; 128]);
    assert!(tx.send_raw(N2B, &[]).is_empty());
}

#[test]
fn attach_requests_cycle_packet_ids() {
    let mut a = Attach::new();
    let pids: Vec<u8> = (0..6).map(|_| a.next_request(N2B, SERIAL).pid).collect();
    assert_eq!(pids, vec![0, 1, 2, 3, 0, 1]);
    let mut a = Attach::new();
    let p = a.next_request(N2B, SERIAL);
    assert_eq!(p.data, vec![0x50, 0xab, 0xcd, 1, 0, 0, 8, 7, 6, 5, 4, 3, 2, 1]);
}

#[test]
fn attach_takes_ack_for_own_serial() {
    let ack = write_topic2(&Bridge2Node::InitializeAck { serial: serial_bytes(SERIAL), use_pipe: 5 }, B2N, 0, &[]);
    assert_eq!(attach_reply(B2N, SERIAL, &ack), Some(5));
    assert_eq!(attach_reply(B2N, SERIAL + 1, &ack), None);
    assert_eq!(attach_reply([0x12, 0x35], SERIAL, &ack), None);
    let reset = write_topic2(&Bridge2Node::Reset, B2N, 0, &[]);
    assert_eq!(attach_reply(B2N, SERIAL, &reset), None);
    let ka = write_topic2(&Bridge2Node::Keepalive { serial: serial_bytes(SERIAL) }, B2N, 0, &[]);
    assert_eq!(attach_reply(B2N, SERIAL, &ka), None);
    assert_eq!(attach_reply(B2N, SERIAL, &ack[..ack.len() - 1]), None);
}

#[test]
fn receiver_sorts_packets() {
    let mut rx = EsbRx::new(SERIAL, 3);
    let ours = serial_bytes(SERIAL);
    let ka = write_topic2(&Bridge2Node::Keepalive { serial: ours }, B2N, 0, &[]);
    assert_eq!(rx.receive_packet(B2N, 3, &ka), RxEvent::Ignored);
    let bad_ka = write_topic2(&Bridge2Node::Keepalive { serial: [0; 8] }, B2N, 0, &[]);
    assert_eq!(rx.receive_packet(B2N, 3, &bad_ka), RxEvent::ProtocolViolation);
    let ack = write_topic2(&Bridge2Node::InitializeAck { serial: ours, use_pipe: 3 }, B2N, 0, &[]);
    assert_eq!(rx.receive_packet(B2N, 3, &ack), RxEvent::Ignored);
    let bad_ack = write_topic2(&Bridge2Node::InitializeAck { serial: ours, use_pipe: 4 }, B2N, 0, &[]);
    assert_eq!(rx.receive_packet(B2N, 3, &bad_ack), RxEvent::ProtocolViolation);
    let reset = write_topic2(&Bridge2Node::Reset, B2N, 0, &[]);
    assert_eq!(rx.receive_packet(B2N, 3, &reset), RxEvent::Reset);
    // other pipes and malformed packets are passed over
    assert_eq!(rx.receive_packet(B2N, 2, &reset), RxEvent::Ignored);
    assert_eq!(rx.receive_packet(B2N, 3, &[]), RxEvent::Ignored);
    assert_eq!(rx.receive_packet(B2N, 3, &[0x50, 0x12]), RxEvent::Ignored);
}

#[test]
fn receiver_reassembles_frames() {
    let mut rx = EsbRx::new(SERIAL, 3);
    let single = write_topic2(&Bridge2Node::Proxy { part: 0, ttl_parts: 1 }, B2N, 0, &[4, 5]);
    assert_eq!(rx.receive_packet(B2N, 3, &single), RxEvent::Frame(vec![4, 5]));
    let a = write_topic2(&Bridge2Node::Proxy { part: 0, ttl_parts: 2 }, B2N, 0, &[1]);
    let zero = write_topic2(&Bridge2Node::Proxy { part: 0, ttl_parts: 0 }, B2N, 0, &[9]);
    let b = write_topic2(&Bridge2Node::Proxy { part: 1, ttl_parts: 2 }, B2N, 0, &[2]);
    assert_eq!(rx.receive_packet(B2N, 3, &a), RxEvent::Ignored);
    assert_eq!(rx.receive_packet(B2N, 3, &zero), RxEvent::Ignored);
    assert_eq!(rx.receive_packet(B2N, 3, &b), RxEvent::Frame(vec![1, 2]));
}

#[test]
fn keepalive_every_three_seconds() {
    let mut t = KeepaliveTimer::new(0);
    assert!(!t.tick(100));
    assert!(!t.tick(2_999));
    assert!(t.tick(3_000));
    assert_eq!(t.last_ka, 3_000);
    assert!(!t.tick(3_100));
    assert!(t.tick(6_050));
    assert!(!t.tick(10));
}
