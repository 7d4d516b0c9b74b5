use esb_bridge::{
    extract_topic2, proxy_handler, Bridge, Bridge2Node, Dispatch, EsbRx, Node2Bridge, ProxyError, ProxyMessage,
    RxEvent,
};

const B2N: [u8; 2] = [0x12, 0x34];
const SERIAL: u64 = 0x0102030405060708;

fn ser(n: u64) -> [u8; 8] {
    n.to_le_bytes()
}

fn attach(b: &mut Bridge, serial: [u8; 8], now: u64) -> Dispatch {
    b.handle(0, &Node2Bridge::Initialize { serial }, &[], now)
}

#[test]
fn attach_gives_first_pipe() {
    let mut b = Bridge::new();
    let d = attach(&mut b, ser(SERIAL), 0);
    assert_eq!(d.reply, Some(Bridge2Node::InitializeAck { serial: ser(SERIAL), use_pipe: 1 }));
    assert_eq!(d.forward, None);
    let (seq, snap) = b.table_tick(1_000);
    assert_eq!(seq, 0);
    assert_eq!(snap.as_slice(), &[ser(SERIAL)]);
}

#[test]
fn eighth_node_is_reset() {
    let mut b = Bridge::new();
    for i in 0..7u64 {
        let d = attach(&mut b, ser(i + 10), 0);
        assert_eq!(d.reply, Some(Bridge2Node::InitializeAck { serial: ser(i + 10), use_pipe: i as u8 + 1 }));
    }
    let (_, before) = b.table_tick(0);
    let d = attach(&mut b, ser(99), 0);
    assert_eq!(d.reply, Some(Bridge2Node::Reset));
    let (_, after) = b.table_tick(0);
    assert_eq!(before, after);
}

#[test]
fn reconnect_keeps_pipe() {
    let mut b = Bridge::new();
    attach(&mut b, ser(1), 0);
    attach(&mut b, ser(SERIAL), 0);
    let d = attach(&mut b, ser(SERIAL), 5_000);
    assert_eq!(d.reply, Some(Bridge2Node::InitializeAck { serial: ser(SERIAL), use_pipe: 2 }));
}

#[test]
fn pipe_zero_answers_only_initialize() {
    let mut b = Bridge::new();
    for m in [
        Node2Bridge::Keepalive { serial: ser(1) },
        Node2Bridge::Proxy { part: 0, ttl_parts: 1 },
        Node2Bridge::Nop,
    ] {
        assert_eq!(b.handle(0, &m, &[], 0).reply, Some(Bridge2Node::Reset));
    }
}

#[test]
fn initialize_on_own_pipe_is_reset() {
    let mut b = Bridge::new();
    attach(&mut b, ser(1), 0);
    let d = b.handle(1, &Node2Bridge::Initialize { serial: ser(1) }, &[], 0);
    assert_eq!(d.reply, Some(Bridge2Node::Reset));
}

#[test]
fn keepalive_is_echoed_and_refreshes() {
    let mut b = Bridge::new();
    attach(&mut b, ser(1), 0);
    let d = b.handle(1, &Node2Bridge::Keepalive { serial: ser(1) }, &[], 20_000);
    assert_eq!(d.reply, Some(Bridge2Node::Keepalive { serial: ser(1) }));
    let (_, snap) = b.table_tick(40_000);
    assert_eq!(snap.as_slice(), &[ser(1)]);
}

#[test]
fn keepalive_with_wrong_serial_is_reset() {
    let mut b = Bridge::new();
    attach(&mut b, ser(1), 0);
    let d = b.handle(1, &Node2Bridge::Keepalive { serial: ser(2) }, &[], 0);
    assert_eq!(d.reply, Some(Bridge2Node::Reset));
    let d = b.handle(3, &Node2Bridge::Keepalive { serial: ser(1) }, &[], 0);
    assert_eq!(d.reply, Some(Bridge2Node::Reset));
}

#[test]
fn nop_gets_no_reply() {
    let mut b = Bridge::new();
    let d = b.handle(4, &Node2Bridge::Nop, &[], 0);
    assert_eq!(d, Dispatch { reply: None, forward: None });
}

#[test]
fn proxy_on_free_pipe_is_reset() {
    let mut b = Bridge::new();
    let d = b.handle(2, &Node2Bridge::Proxy { part: 0, ttl_parts: 1 }, &[1], 0);
    assert_eq!(d.reply, Some(Bridge2Node::Reset));
    assert_eq!(d.forward, None);
}

#[test]
fn proxy_fragments_are_forwarded_whole() {
    let mut b = Bridge::new();
    attach(&mut b, ser(7), 0);
    let d = b.handle(1, &Node2Bridge::Proxy { part: 0, ttl_parts: 1 }, &[5, 6], 0);
    assert_eq!(d.reply, None);
    assert_eq!(d.forward, Some(ProxyMessage { serial: ser(7), msg: vec![5, 6] }));
    let d = b.handle(1, &Node2Bridge::Proxy { part: 0, ttl_parts: 2 }, &[1], 0);
    assert_eq!(d, Dispatch { reply: None, forward: None });
    let d = b.handle(1, &Node2Bridge::Proxy { part: 1, ttl_parts: 2 }, &[2], 0);
    assert_eq!(d.forward, Some(ProxyMessage { serial: ser(7), msg: vec![1, 2] }));
}

#[test]
fn proxy_with_zero_total_is_ignored() {
    let mut b = Bridge::new();
    attach(&mut b, ser(7), 0);
    b.handle(1, &Node2Bridge::Proxy { part: 0, ttl_parts: 2 }, &[1], 0);
    let d = b.handle(1, &Node2Bridge::Proxy { part: 0, ttl_parts: 0 }, &[9], 0);
    assert_eq!(d, Dispatch { reply: None, forward: None });
    let d = b.handle(1, &Node2Bridge::Proxy { part: 1, ttl_parts: 2 }, &[2], 0);
    assert_eq!(d.forward, Some(ProxyMessage { serial: ser(7), msg: vec![1, 2] }));
}

#[test]
fn pipes_reassemble_separately() {
    let mut b = Bridge::new();
    attach(&mut b, ser(1), 0);
    attach(&mut b, ser(2), 0);
    b.handle(1, &Node2Bridge::Proxy { part: 0, ttl_parts: 2 }, &[1], 0);
    b.handle(2, &Node2Bridge::Proxy { part: 0, ttl_parts: 2 }, &[2], 0);
    let d1 = b.handle(1, &Node2Bridge::Proxy { part: 1, ttl_parts: 2 }, &[10], 0);
    let d2 = b.handle(2, &Node2Bridge::Proxy { part: 1, ttl_parts: 2 }, &[20], 0);
    assert_eq!(d1.forward, Some(ProxyMessage { serial: ser(1), msg: vec![1, 10] }));
    assert_eq!(d2.forward, Some(ProxyMessage { serial: ser(2), msg: vec![2, 20] }));
}

#[test]
fn host_frame_is_cut_into_three_fragments() {
    let mut b = Bridge::new();
    attach(&mut b, ser(SERIAL), 0);
    let msg: Vec<u8> = (0..300u32).map(|i| i as u8).collect();
    let (pipe, frames) =
        proxy_handler(&b.table, B2N, &ProxyMessage { serial: ser(SERIAL), msg: msg.clone() }).unwrap();
    assert_eq!(pipe, 1);
    assert_eq!(frames.len(), 3);
    let parts: Vec<(usize, usize)> = vec![(0, 128), (128, 256), (256, 300)];
    for (i, f) in frames.iter().enumerate() {
        let e = extract_topic2::<Bridge2Node>(f, B2N).unwrap();
        assert_eq!(e.msg, Bridge2Node::Proxy { part: i as u8, ttl_parts: 3 });
        assert_eq!(e.remain, msg[parts[i].0..parts[i].1].to_vec());
    }
    let mut rx = EsbRx::new(SERIAL, 1);
    assert_eq!(rx.receive_packet(B2N, 1, &frames[0]), RxEvent::Ignored);
    assert_eq!(rx.receive_packet(B2N, 1, &frames[1]), RxEvent::Ignored);
    assert_eq!(rx.receive_packet(B2N, 1, &frames[2]), RxEvent::Frame(msg));
}

#[test]
fn lost_middle_fragment_completes_nothing() {
    let mut b = Bridge::new();
    attach(&mut b, ser(SERIAL), 0);
    let msg: Vec<u8> = (0..300u32).map(|i| (i * 7) as u8).collect();
    let (_, frames) = proxy_handler(&b.table, B2N, &ProxyMessage { serial: ser(SERIAL), msg }).unwrap();
    let mut rx = EsbRx::new(SERIAL, 1);
    assert_eq!(rx.receive_packet(B2N, 1, &frames[0]), RxEvent::Ignored);
    assert_eq!(rx.receive_packet(B2N, 1, &frames[2]), RxEvent::Ignored);
    assert_eq!(rx.receive_packet(B2N, 1, &frames[1]), RxEvent::Ignored);
}

#[test]
fn small_host_frame_is_one_fragment() {
    let mut b = Bridge::new();
    attach(&mut b, ser(3), 0);
    let (_, frames) = proxy_handler(&b.table, B2N, &ProxyMessage { serial: ser(3), msg: vec![1, 2] }).unwrap();
    assert_eq!(frames, vec![vec![0x50, 0x12, 0x34, 0, 0, 2, 0, 1, 1, 2]]);
    let (_, frames) = proxy_handler(&b.table, B2N, &ProxyMessage { serial: ser(3), msg: vec![] }).unwrap();
    assert!(frames.is_empty());
}

#[test]
fn unknown_serial_is_refused() {
    let b = Bridge::new();
    let r = proxy_handler(&b.table, B2N, &ProxyMessage { serial: ser(3), msg: vec![1] });
    assert_eq!(r, Err(ProxyError::UnknownDevice));
}

#[test]
fn silent_node_is_culled() {
    let mut b = Bridge::new();
    attach(&mut b, ser(SERIAL), 1_000);
    let (_, snap) = b.table_tick(30_999);
    assert_eq!(snap.as_slice(), &[ser(SERIAL)]);
    let (seq, snap) = b.table_tick(31_000);
    assert_eq!(seq, 1);
    assert!(snap.is_empty());
    let r = proxy_handler(&b.table, B2N, &ProxyMessage { serial: ser(SERIAL), msg: vec![1] });
    assert_eq!(r, Err(ProxyError::UnknownDevice));
}

#[test]
fn reply_frames_number_and_wrap() {
    let mut b = Bridge::new();
    b.proxy_ctr = u16::MAX;
    let f = b.reply_frame(B2N, &Bridge2Node::Reset);
    assert_eq!(f, vec![0x50, 0x12, 0x34, 0xff, 0xff, 3]);
    assert_eq!(b.proxy_ctr, 0);
    assert_eq!(b.proxy_ctr(), 0);
    assert_eq!(b.proxy_ctr, 1);
}

#[test]
fn table_counter_wraps() {
    let mut b = Bridge::new();
    b.table_ctr = u16::MAX;
    assert_eq!(b.table_ctr(), u16::MAX);
    assert_eq!(b.table_ctr(), 0);
}
