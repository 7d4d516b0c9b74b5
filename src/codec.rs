use vstd::prelude::*;
use crate::bytes::{append_bytes, copy_range};
use postcard_rpc::header::{VarHeader, VarKey};
use crate::table::Serial;

verus! {

/// A message from a node to the bridge.
#[derive(Clone, Copy, Debug, PartialEq, Eq)]
pub enum Node2Bridge {
    Initialize { serial: Serial },
    Keepalive { serial: Serial },
    Proxy { part: u8, ttl_parts: u8 },
    Nop,
}

/// A message from the bridge to a node.
#[derive(Clone, Copy, Debug, PartialEq, Eq)]
pub enum Bridge2Node {
    InitializeAck { serial: Serial, use_pipe: u8 },
    Keepalive { serial: Serial },
    Proxy { part: u8, ttl_parts: u8 },
    Reset,
}

/// The key of a frame header, in the width it was sent with.
#[derive(Clone, Copy, Debug, PartialEq, Eq)]
pub enum HeaderKey {
    Key1(u8),
    Key2([u8; 2]),
    Key4([u8; 4]),
    Key8([u8; 8]),
}

/// A control message taken from a frame, with the bytes that follow it.
pub struct TopicExtract<T> {
    pub msg: T,
    pub remain: Vec<u8>,
}

pub open spec fn key_bytes(k: HeaderKey) -> Seq<u8> {
    match k {
        HeaderKey::Key1(b) => seq![b],
        HeaderKey::Key2(a) => a@,
        HeaderKey::Key4(a) => a@,
        HeaderKey::Key8(a) => a@,
    }
}

/// Width of the key that a header's first byte announces.
pub open spec fn key_width(disc: u8) -> int {
    let k = disc / 64;
    if k == 0 {
        1
    } else if k == 1 {
        2
    } else if k == 2 {
        4
    } else {
        8
    }
}

/// Width of the sequence number that a header's first byte announces.
pub open spec fn seq_width(disc: u8) -> int {
    let s = (disc / 16) % 4;
    if s == 0 {
        1
    } else if s == 1 {
        2
    } else {
        4
    }
}

/// Length of the header at the front of `d`, where one stands there: a first
/// byte of version zero with a valid sequence width, then the key and the
/// sequence number.
pub open spec fn header_len(d: Seq<u8>) -> Option<int> {
    if d.len() == 0 || d[0] % 16 != 0 || (d[0] / 16) % 4 == 3 {
        None
    } else if d.len() < 1 + key_width(d[0]) + seq_width(d[0]) {
        None
    } else {
        Some(1 + key_width(d[0]) + seq_width(d[0]))
    }
}

/// Relies on postcard_rpc's `VarHeader::take_from_slice`: it accepts exactly
/// the headers that `header_len` describes, and hands back their key and the
/// bytes after them.
#[verifier::external_body]
fn take_header<'a>(data: &'a [u8]) -> (r: Option<(HeaderKey, &'a [u8])>)
    ensures
        r is Some <==> header_len(data@) is Some,
        r is Some ==> {
            &&& key_bytes((r->0).0) == data@.subrange(1, 1 + key_width(data@[0]))
            &&& (r->0).1@ == data@.subrange(header_len(data@)->0, data@.len() as int)
        },
{
    let (hdr, remain) = VarHeader::take_from_slice(data)?;
    let key = match hdr.key {
        VarKey::Key1(k) => HeaderKey::Key1(k.to_bytes()),
        VarKey::Key2(k) => HeaderKey::Key2(k.to_bytes()),
        VarKey::Key4(k) => HeaderKey::Key4(k.to_bytes()),
        VarKey::Key8(k) => HeaderKey::Key8(k.to_bytes()),
    };
    Some((key, remain))
}

/// A header with a two-byte key and a two-byte sequence number.
pub open spec fn header2_bytes(key: [u8; 2], seq_no: u16) -> Seq<u8> {
    seq![0x50u8, key[0], key[1], (seq_no % 256) as u8, (seq_no / 256) as u8]
}

pub open spec fn n2b_bytes(m: Node2Bridge) -> Seq<u8> {
    match m {
        Node2Bridge::Initialize { serial } => seq![0u8] + serial@,
        Node2Bridge::Keepalive { serial } => seq![1u8] + serial@,
        Node2Bridge::Proxy { part, ttl_parts } => seq![2u8, part, ttl_parts],
        Node2Bridge::Nop => seq![3u8],
    }
}

pub open spec fn b2n_bytes(m: Bridge2Node) -> Seq<u8> {
    match m {
        Bridge2Node::InitializeAck { serial, use_pipe } => seq![0u8] + serial@ + seq![use_pipe],
        Bridge2Node::Keepalive { serial } => seq![1u8] + serial@,
        Bridge2Node::Proxy { part, ttl_parts } => seq![2u8, part, ttl_parts],
        Bridge2Node::Reset => seq![3u8],
    }
}

/// Length of the message body that a tag announces, for a node's message.
pub open spec fn n2b_body_len(tag: u8) -> int {
    if tag == 0 || tag == 1 {
        8
    } else if tag == 2 {
        2
    } else {
        0
    }
}

/// Length of the message body that a tag announces, for the bridge's message.
pub open spec fn b2n_body_len(tag: u8) -> int {
    if tag == 0 {
        9
    } else if tag == 1 {
        8
    } else if tag == 2 {
        2
    } else {
        0
    }
}

/// Whether `b` starts with a node's message: a known tag and its whole body.
pub open spec fn n2b_decodable(b: Seq<u8>) -> bool {
    b.len() >= 1 && b[0] <= 3 && b.len() >= 1 + n2b_body_len(b[0])
}

/// Whether `b` starts with a bridge's message: a known tag and its whole body.
pub open spec fn b2n_decodable(b: Seq<u8>) -> bool {
    b.len() >= 1 && b[0] <= 3 && b.len() >= 1 + b2n_body_len(b[0])
}

/// Whether `d` is a frame whose header carries the two-byte key `key`.
pub open spec fn has_key2(d: Seq<u8>, key: [u8; 2]) -> bool {
    &&& header_len(d) is Some
    &&& key_width(d[0]) == 2
    &&& d.subrange(1, 3) == key@
}

/// The bytes after the header of `d`.
pub open spec fn after_header(d: Seq<u8>) -> Seq<u8> {
    d.subrange(header_len(d)->0, d.len() as int)
}

fn push_header2(out: &mut Vec<u8>, key: [u8; 2], seq_no: u16)
    ensures
        final(out)@ == old(out)@ + header2_bytes(key, seq_no),
{
    out.push(0x50u8);
    out.push(key[0]);
    out.push(key[1]);
    out.push((seq_no % 256) as u8);
    out.push((seq_no / 256) as u8);
    assert(final(out)@ =~= old(out)@ + header2_bytes(key, seq_no));
}

fn push_serial(out: &mut Vec<u8>, serial: &Serial)
    ensures
        final(out)@ == old(out)@ + serial@,
{
    let mut i: usize = 0;
    while i < 8
        invariant
            i <= 8,
            out@ == old(out)@ + serial@.subrange(0, i as int),
        decreases 8 - i,
    {
        out.push(serial[i]);
        i = i + 1;
        assert(serial@.subrange(0, i as int) == serial@.subrange(0, i - 1 as int).push(serial@[i - 1]));
    }
    assert(serial@.subrange(0, 8) == serial@);
}

/// Reads the serial at `b[at..at + 8]`.
fn read_serial(b: &[u8], at: usize) -> (r: Serial)
    requires
        at + 8 <= b@.len(),
    ensures
        r@ == b@.subrange(at as int, at + 8),
{
    let r = [b[at], b[at + 1], b[at + 2], b[at + 3], b[at + 4], b[at + 5], b[at + 6], b[at + 7]];
    assert(r@ =~= b@.subrange(at as int, at + 8));
    r
}

/// Appends the encoding of a node's message to `out`.
fn encode_n2b(msg: &Node2Bridge, out: &mut Vec<u8>)
    ensures
        final(out)@ == old(out)@ + n2b_bytes(*msg),
{
    match msg {
        Node2Bridge::Initialize { serial } => {
            out.push(0u8);
            push_serial(out, serial);
        },
        Node2Bridge::Keepalive { serial } => {
            out.push(1u8);
            push_serial(out, serial);
        },
        Node2Bridge::Proxy { part, ttl_parts } => {
            out.push(2u8);
            out.push(*part);
            out.push(*ttl_parts);
        },
        Node2Bridge::Nop => {
            out.push(3u8);
        },
    }
    assert(final(out)@ =~= old(out)@ + n2b_bytes(*msg));
}

/// Appends the encoding of a bridge's message to `out`.
fn encode_b2n(msg: &Bridge2Node, out: &mut Vec<u8>)
    ensures
        final(out)@ == old(out)@ + b2n_bytes(*msg),
{
    match msg {
        Bridge2Node::InitializeAck { serial, use_pipe } => {
            out.push(0u8);
            push_serial(out, serial);
            out.push(*use_pipe);
        },
        Bridge2Node::Keepalive { serial } => {
            out.push(1u8);
            push_serial(out, serial);
        },
        Bridge2Node::Proxy { part, ttl_parts } => {
            out.push(2u8);
            out.push(*part);
            out.push(*ttl_parts);
        },
        Bridge2Node::Reset => {
            out.push(3u8);
        },
    }
    assert(final(out)@ =~= old(out)@ + b2n_bytes(*msg));
}

/// Takes a node's message off the front of `b`, with the length it used.
pub fn decode_n2b(b: &[u8]) -> (r: Option<(Node2Bridge, usize)>)
    ensures
        r is Some <==> n2b_decodable(b@),
        r is Some ==> {
            &&& (r->0).1 == n2b_bytes((r->0).0).len() <= b@.len()
            &&& b@.subrange(0, (r->0).1 as int) == n2b_bytes((r->0).0)
        },
{
    if b.len() < 1 {
        return None;
    }
    let tag = b[0];
    if tag == 0 || tag == 1 {
        if b.len() < 9 {
            return None;
        }
        let serial = read_serial(b, 1);
        let msg = if tag == 0 {
            Node2Bridge::Initialize { serial }
        } else {
            Node2Bridge::Keepalive { serial }
        };
        assert(b@.subrange(0, 9) =~= n2b_bytes(msg));
        Some((msg, 9))
    } else if tag == 2 {
        if b.len() < 3 {
            return None;
        }
        let msg = Node2Bridge::Proxy { part: b[1], ttl_parts: b[2] };
        assert(b@.subrange(0, 3) =~= n2b_bytes(msg));
        Some((msg, 3))
    } else if tag == 3 {
        assert(b@.subrange(0, 1) =~= n2b_bytes(Node2Bridge::Nop));
        Some((Node2Bridge::Nop, 1))
    } else {
        None
    }
}

/// Takes a bridge's message off the front of `b`, with the length it used.
pub fn decode_b2n(b: &[u8]) -> (r: Option<(Bridge2Node, usize)>)
    ensures
        r is Some <==> b2n_decodable(b@),
        r is Some ==> {
            &&& (r->0).1 == b2n_bytes((r->0).0).len() <= b@.len()
            &&& b@.subrange(0, (r->0).1 as int) == b2n_bytes((r->0).0)
        },
{
    if b.len() < 1 {
        return None;
    }
    let tag = b[0];
    if tag == 0 {
        if b.len() < 10 {
            return None;
        }
        let serial = read_serial(b, 1);
        let msg = Bridge2Node::InitializeAck { serial, use_pipe: b[9] };
        assert(b@.subrange(0, 10) =~= b2n_bytes(msg));
        Some((msg, 10))
    } else if tag == 1 {
        if b.len() < 9 {
            return None;
        }
        let serial = read_serial(b, 1);
        let msg = Bridge2Node::Keepalive { serial };
        assert(b@.subrange(0, 9) =~= b2n_bytes(msg));
        Some((msg, 9))
    } else if tag == 2 {
        if b.len() < 3 {
            return None;
        }
        let msg = Bridge2Node::Proxy { part: b[1], ttl_parts: b[2] };
        assert(b@.subrange(0, 3) =~= b2n_bytes(msg));
        Some((msg, 3))
    } else if tag == 3 {
        assert(b@.subrange(0, 1) =~= b2n_bytes(Bridge2Node::Reset));
        Some((Bridge2Node::Reset, 1))
    } else {
        None
    }
}

/// Takes the header with key `key` off `data`, and returns what follows it.
fn take_key2<'a>(data: &'a [u8], key: [u8; 2]) -> (r: Option<&'a [u8]>)
    ensures
        r is Some <==> has_key2(data@, key),
        r is Some ==> r->0@ == after_header(data@),
{
    let (k, remain) = take_header(data)?;
    match k {
        HeaderKey::Key2(kb) => {
            assert(kb@.len() == 2);
            assert(data@.subrange(1, 3) == kb@);
            if kb[0] == key[0] && kb[1] == key[1] {
                assert(kb@ =~= key@);
                Some(remain)
            } else {
                assert(kb@[0] != key@[0] || kb@[1] != key@[1]);
                None
            }
        },
        HeaderKey::Key1(b) => {
            assert(key_bytes(k).len() == 1);
            None
        },
        HeaderKey::Key4(kb) => {
            assert(kb@.len() == 4);
            None
        },
        HeaderKey::Key8(kb) => {
            assert(kb@.len() == 8);
            None
        },
    }
}

/// The message and payload that a bridge frame body `body` holds: the
/// encoding of messages is prefix-free, so they are the only ones.
pub proof fn b2n_unique(m: Bridge2Node, rest: Seq<u8>, body: Seq<u8>)
    requires
        b2n_bytes(m) + rest == body,
    ensures
        forall|m2: Bridge2Node, rest2: Seq<u8>|
            b2n_bytes(m2) + rest2 == body ==> m2 == m && rest2 == rest,
{
    assert forall|m2: Bridge2Node, rest2: Seq<u8>| b2n_bytes(m2) + rest2 == body implies m2 == m && rest2
        == rest by {
        let a = b2n_bytes(m);
        let b = b2n_bytes(m2);
        assert(a[0] == body[0]);
        assert(b[0] == body[0]);
        assert(a.len() == b.len());
        assert(a == body.subrange(0, a.len() as int));
        assert(b == body.subrange(0, b.len() as int));
        match (m, m2) {
            (
                Bridge2Node::InitializeAck { serial, use_pipe },
                Bridge2Node::InitializeAck { serial: s2, use_pipe: u2 },
            ) => {
                assert(serial@ =~= a.subrange(1, 9));
                assert(s2@ =~= b.subrange(1, 9));
                assert(serial =~= s2);
                assert(use_pipe == a[9]);
                assert(u2 == b[9]);
            },
            (Bridge2Node::Keepalive { serial }, Bridge2Node::Keepalive { serial: s2 }) => {
                assert(serial@ =~= a.subrange(1, 9));
                assert(s2@ =~= b.subrange(1, 9));
                assert(serial =~= s2);
            },
            (Bridge2Node::Proxy { part, ttl_parts }, Bridge2Node::Proxy { part: part2, ttl_parts: ttl2 }) => {
                assert(a[1] == part && a[2] == ttl_parts);
                assert(b[1] == part2 && b[2] == ttl2);
            },
            _ => {},
        }
        assert(rest =~= body.subrange(a.len() as int, body.len() as int));
        assert(rest2 =~= body.subrange(b.len() as int, body.len() as int));
    }
}

/// The message and payload that a node frame body `body` holds: the
/// encoding of messages is prefix-free, so they are the only ones.
pub proof fn n2b_unique(m: Node2Bridge, rest: Seq<u8>, body: Seq<u8>)
    requires
        n2b_bytes(m) + rest == body,
    ensures
        forall|m2: Node2Bridge, rest2: Seq<u8>|
            n2b_bytes(m2) + rest2 == body ==> m2 == m && rest2 == rest,
{
    assert forall|m2: Node2Bridge, rest2: Seq<u8>| n2b_bytes(m2) + rest2 == body implies m2 == m && rest2
        == rest by {
        let a = n2b_bytes(m);
        let b = n2b_bytes(m2);
        assert(a[0] == body[0]);
        assert(b[0] == body[0]);
        assert(a.len() == b.len());
        assert(a == body.subrange(0, a.len() as int));
        assert(b == body.subrange(0, b.len() as int));
        match (m, m2) {
            (Node2Bridge::Initialize { serial }, Node2Bridge::Initialize { serial: s2 }) => {
                assert(serial@ =~= a.subrange(1, 9));
                assert(s2@ =~= b.subrange(1, 9));
                assert(serial =~= s2);
            },
            (Node2Bridge::Keepalive { serial }, Node2Bridge::Keepalive { serial: s2 }) => {
                assert(serial@ =~= a.subrange(1, 9));
                assert(s2@ =~= b.subrange(1, 9));
                assert(serial =~= s2);
            },
            (Node2Bridge::Proxy { part, ttl_parts }, Node2Bridge::Proxy { part: part2, ttl_parts: ttl2 }) => {
                assert(a[1] == part && a[2] == ttl_parts);
                assert(b[1] == part2 && b[2] == ttl2);
            },
            _ => {},
        }
        assert(rest =~= body.subrange(a.len() as int, body.len() as int));
        assert(rest2 =~= body.subrange(b.len() as int, body.len() as int));
    }
}

/// A frame written for topic `key` holds a header with that key, and the
/// message and payload it was written with are the only ones its body can
/// be read as: reading the frame back gives them again.
pub proof fn lemma_n2b_frame_round_trip(key: [u8; 2], seq_no: u16, m: Node2Bridge, payload: Seq<u8>)
    ensures
        ({
            let frame = header2_bytes(key, seq_no) + n2b_bytes(m) + payload;
            &&& has_key2(frame, key)
            &&& after_header(frame) == n2b_bytes(m) + payload
            &&& n2b_decodable(after_header(frame))
            &&& forall|m2: Node2Bridge, rest2: Seq<u8>|
                n2b_bytes(m2) + rest2 == after_header(frame) ==> m2 == m && rest2 == payload
        }),
{
    let frame = header2_bytes(key, seq_no) + n2b_bytes(m) + payload;
    lemma_header2_len(key, seq_no, n2b_bytes(m) + payload);
    assert(frame == header2_bytes(key, seq_no) + (n2b_bytes(m) + payload));
    n2b_unique(m, payload, n2b_bytes(m) + payload);
}

/// A frame written for topic `key` holds a header with that key, and the
/// message and payload it was written with are the only ones its body can
/// be read as: reading the frame back gives them again.
pub proof fn lemma_b2n_frame_round_trip(key: [u8; 2], seq_no: u16, m: Bridge2Node, payload: Seq<u8>)
    ensures
        ({
            let frame = header2_bytes(key, seq_no) + b2n_bytes(m) + payload;
            &&& has_key2(frame, key)
            &&& after_header(frame) == b2n_bytes(m) + payload
            &&& b2n_decodable(after_header(frame))
            &&& forall|m2: Bridge2Node, rest2: Seq<u8>|
                b2n_bytes(m2) + rest2 == after_header(frame) ==> m2 == m && rest2 == payload
        }),
{
    let frame = header2_bytes(key, seq_no) + b2n_bytes(m) + payload;
    lemma_header2_len(key, seq_no, b2n_bytes(m) + payload);
    assert(frame == header2_bytes(key, seq_no) + (b2n_bytes(m) + payload));
    b2n_unique(m, payload, b2n_bytes(m) + payload);
}

proof fn lemma_header2_len(key: [u8; 2], seq_no: u16, body: Seq<u8>)
    ensures
        header_len(header2_bytes(key, seq_no) + body) == Some(5int),
        has_key2(header2_bytes(key, seq_no) + body, key),
        after_header(header2_bytes(key, seq_no) + body) == body,
{
    let d = header2_bytes(key, seq_no) + body;
    assert(d[0] == 0x50u8);
    assert(d.subrange(1, 3) =~= key@);
    assert(d.subrange(5, d.len() as int) =~= body);
}

/// A message of one of the two control topics, with its encoding on the
/// wire.
pub trait ControlMessage: Sized {
    /// The bytes that encode the message.
    spec fn wire(&self) -> Seq<u8>;

    /// Whether `b` starts with the encoding of a message of this topic.
    spec fn decodable(b: Seq<u8>) -> bool;

    /// Appends the encoding of the message to `out`.
    fn encode_into(&self, out: &mut Vec<u8>)
        ensures
            final(out)@ == old(out)@ + self.wire(),
    ;

    /// Takes a message off the front of `b`, with the length it used.
    fn decode(b: &[u8]) -> (r: Option<(Self, usize)>)
        ensures
            r is Some <==> Self::decodable(b@),
            r is Some ==> {
                &&& (r->0).1 == (r->0).0.wire().len() <= b@.len()
                &&& b@.subrange(0, (r->0).1 as int) == (r->0).0.wire()
            },
    ;
}

impl ControlMessage for Node2Bridge {
    open spec fn wire(&self) -> Seq<u8> {
        n2b_bytes(*self)
    }

    open spec fn decodable(b: Seq<u8>) -> bool {
        n2b_decodable(b)
    }

    fn encode_into(&self, out: &mut Vec<u8>) {
        encode_n2b(self, out);
    }

    fn decode(b: &[u8]) -> (r: Option<(Node2Bridge, usize)>) {
        decode_n2b(b)
    }
}

impl ControlMessage for Bridge2Node {
    open spec fn wire(&self) -> Seq<u8> {
        b2n_bytes(*self)
    }

    open spec fn decodable(b: Seq<u8>) -> bool {
        b2n_decodable(b)
    }

    fn encode_into(&self, out: &mut Vec<u8>) {
        encode_b2n(self, out);
    }

    fn decode(b: &[u8]) -> (r: Option<(Bridge2Node, usize)>) {
        decode_b2n(b)
    }
}

/// The message of topic `T` in a frame whose header carries `key`, with the
/// payload bytes after it; `None` for a frame of another topic or a
/// malformed one.
pub fn extract_topic2<T: ControlMessage>(data: &[u8], key: [u8; 2]) -> (r: Option<TopicExtract<T>>)
    ensures
        r is Some <==> has_key2(data@, key) && T::decodable(after_header(data@)),
        r is Some ==> r->0.msg.wire() + r->0.remain@ == after_header(data@),
{
    let body = take_key2(data, key)?;
    let (msg, used) = T::decode(body)?;
    let remain = copy_range(body, used, body.len());
    assert(body@ =~= body@.subrange(0, used as int) + body@.subrange(used as int, body@.len() as int));
    Some(TopicExtract { msg, remain })
}

/// A frame of topic `key`: a header with `seq_no`, the message, then
/// `payload`.
pub fn write_topic2<T: ControlMessage>(msg: &T, key: [u8; 2], seq_no: u16, payload: &[u8]) -> (r: Vec<u8>)
    ensures
        r@ == header2_bytes(key, seq_no) + msg.wire() + payload@,
{
    let mut out: Vec<u8> = Vec::new();
    push_header2(&mut out, key, seq_no);
    msg.encode_into(&mut out);
    append_bytes(&mut out, payload);
    out
}

} // verus!
