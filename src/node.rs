use vstd::prelude::*;
use crate::bytes::copy_range;
use crate::bridge::{chunk_count, chunk_of};
use crate::codec::{b2n_unique, after_header, b2n_bytes, b2n_decodable, extract_topic2, has_key2, header2_bytes, n2b_bytes, write_topic2, Bridge2Node, Node2Bridge};
use crate::frag::{frag_step, FragBuf, FRAG_CHUNK};
use crate::table::{serial_eq, Serial};

verus! {

/// How long, in milliseconds, a node waits between two keepalives.
pub const KEEPALIVE_MS: u64 = 3_000;

/// The little-endian bytes of `x`.
pub open spec fn le_bytes(x: u64) -> Seq<u8> {
    seq![
        (x % 0x100) as u8,
        ((x / 0x100) % 0x100) as u8,
        ((x / 0x1_0000) % 0x100) as u8,
        ((x / 0x100_0000) % 0x100) as u8,
        ((x / 0x1_0000_0000) % 0x100) as u8,
        ((x / 0x100_0000_0000) % 0x100) as u8,
        ((x / 0x1_0000_0000_0000) % 0x100) as u8,
        ((x / 0x100_0000_0000_0000) % 0x100) as u8,
    ]
}

/// A node's serial as it travels on the wire.
pub fn serial_bytes(x: u64) -> (r: Serial)
    ensures
        r@ == le_bytes(x),
{
    let r = [
        (x % 0x100) as u8,
        ((x / 0x100) % 0x100) as u8,
        ((x / 0x1_0000) % 0x100) as u8,
        ((x / 0x100_0000) % 0x100) as u8,
        ((x / 0x1_0000_0000) % 0x100) as u8,
        ((x / 0x100_0000_0000) % 0x100) as u8,
        ((x / 0x1_0000_0000_0000) % 0x100) as u8,
        ((x / 0x100_0000_0000_0000) % 0x100) as u8,
    ];
    assert(r@ =~= le_bytes(x));
    r
}

/// `x + 1`, wrapping to zero past the largest value.
pub open spec fn wrap_inc(x: u16) -> u16 {
    if x == u16::MAX {
        0
    } else {
        (x + 1) as u16
    }
}

/// The node's sending side: its pipe, and the sequence number and packet
/// id of the next packet it sends.
pub struct EsbTx {
    pub ctr: u16,
    pub pipe: u8,
    pub pid: u8,
    pub serial: u64,
}

/// A packet for the radio: its 2-bit packet id and its bytes.
#[derive(Debug, PartialEq, Eq)]
pub struct Packet {
    pub pid: u8,
    pub data: Vec<u8>,
}

/// The frame that carries fragment `i` of `n` of `buf` to the bridge.
pub open spec fn n2b_proxy_frame(key: [u8; 2], seq_no: u16, buf: Seq<u8>, i: int, n: int) -> Seq<u8> {
    header2_bytes(key, seq_no) + n2b_bytes(Node2Bridge::Proxy { part: i as u8, ttl_parts: n as u8 })
        + chunk_of(buf, i)
}

impl EsbTx {
    pub fn new(serial: u64, pipe: u8) -> (r: Self)
        ensures
            r.serial == serial,
            r.pipe == pipe,
            r.ctr == 0,
            r.pid == 0,
    {
        EsbTx { ctr: 0, pipe, pid: 0, serial }
    }

    /// Takes the next sequence number.
    fn ctr(&mut self) -> (r: u16)
        ensures
            r == old(self).ctr,
            final(self).ctr == wrap_inc(old(self).ctr),
            final(self).pid == old(self).pid,
            final(self).pipe == old(self).pipe,
            final(self).serial == old(self).serial,
    {
        let n = self.ctr;
        self.ctr = if n == u16::MAX {
            0
        } else {
            n + 1
        };
        n
    }

    /// Takes the next packet id: the low two bits of a wrapping counter.
    fn pid(&mut self) -> (r: u8)
        ensures
            r == old(self).pid % 4,
            final(self).pid == (if old(self).pid == u8::MAX {
                0
            } else {
                (old(self).pid + 1) as u8
            }),
            final(self).ctr == old(self).ctr,
            final(self).pipe == old(self).pipe,
            final(self).serial == old(self).serial,
    {
        let n = self.pid;
        self.pid = if n == u8::MAX {
            0
        } else {
            n + 1
        };
        n % 4
    }

    /// The keepalive packet, carrying the node's serial.
    pub fn send_keepalive(&mut self, key: [u8; 2]) -> (r: Packet)
        ensures
            r.pid == old(self).pid % 4,
            r.data@ == header2_bytes(key, old(self).ctr) + seq![1u8] + le_bytes(old(self).serial),
            final(self).ctr == wrap_inc(old(self).ctr),
            final(self).pid == (if old(self).pid == u8::MAX {
                0
            } else {
                (old(self).pid + 1) as u8
            }),
            final(self).pipe == old(self).pipe,
            final(self).serial == old(self).serial,
    {
        let pid = self.pid();
        let seq_no = self.ctr();
        let msg = Node2Bridge::Keepalive { serial: serial_bytes(self.serial) };
        let empty: Vec<u8> = Vec::new();
        let data = write_topic2(&msg, key, seq_no, empty.as_slice());
        assert(data@ =~= header2_bytes(key, seq_no) + seq![1u8] + le_bytes(self.serial));
        Packet { pid, data }
    }

    /// The idle packet, sent between keepalives so that the radio is polled.
    pub fn send_nop(&mut self, key: [u8; 2]) -> (r: Packet)
        ensures
            r.pid == old(self).pid % 4,
            r.data@ == header2_bytes(key, old(self).ctr) + seq![3u8],
            final(self).ctr == wrap_inc(old(self).ctr),
            final(self).pid == (if old(self).pid == u8::MAX {
                0
            } else {
                (old(self).pid + 1) as u8
            }),
            final(self).pipe == old(self).pipe,
            final(self).serial == old(self).serial,
    {
        let pid = self.pid();
        let seq_no = self.ctr();
        let empty: Vec<u8> = Vec::new();
        let data = write_topic2(&Node2Bridge::Nop, key, seq_no, empty.as_slice());
        assert(data@ =~= header2_bytes(key, seq_no) + seq![3u8]);
        Packet { pid, data }
    }

    /// The packets that carry the frame `buf` to the bridge: one fragment of
    /// at most `FRAG_CHUNK` bytes each, numbered in order, each with the next
    /// packet id and sequence number.
    pub fn send_raw(&mut self, key: [u8; 2], buf: &[u8]) -> (r: Vec<Packet>)
        requires
            buf@.len() <= 255 * FRAG_CHUNK,
        ensures
            r@.len() == chunk_count(buf@.len() as int),
            forall|i: int|
                0 <= i < r@.len() ==> (#[trigger] r@[i]).data@ == n2b_proxy_frame(
                    key,
                    ((old(self).ctr + i) % 0x1_0000) as u16,
                    buf@,
                    i,
                    r@.len() as int,
                ) && r@[i].pid == ((old(self).pid + i) % 0x100) % 4,
            final(self).ctr == ((old(self).ctr + r@.len()) % 0x1_0000) as u16,
            final(self).pid == ((old(self).pid + r@.len()) % 0x100) as u8,
            final(self).pipe == old(self).pipe,
            final(self).serial == old(self).serial,
    {
        let len = buf.len();
        let chunks: usize = (len + FRAG_CHUNK - 1) / FRAG_CHUNK;
        let mut out: Vec<Packet> = Vec::new();
        let mut i: usize = 0;
        let mut start: usize = 0;
        while i < chunks
            invariant
                chunks == chunk_count(len as int),
                chunks <= 255,
                len == buf@.len(),
                len <= 255 * FRAG_CHUNK,
                i <= chunks,
                start == i * FRAG_CHUNK,
                out@.len() == i,
                self.ctr == ((old(self).ctr + i) % 0x1_0000) as u16,
                self.pid == ((old(self).pid + i) % 0x100) as u8,
                self.pipe == old(self).pipe,
                self.serial == old(self).serial,
                forall|j: int|
                    0 <= j < i ==> (#[trigger] out@[j]).data@ == n2b_proxy_frame(
                        key,
                        ((old(self).ctr + j) % 0x1_0000) as u16,
                        buf@,
                        j,
                        chunks as int,
                    ) && out@[j].pid == ((old(self).pid + j) % 0x100) % 4,
            decreases chunks - i,
        {
            let end = if len - start >= FRAG_CHUNK {
                start + FRAG_CHUNK
            } else {
                len
            };
            let piece = copy_range(buf, start, end);
            let pid = self.pid();
            let seq_no = self.ctr();
            let data = write_topic2(
                &Node2Bridge::Proxy { part: i as u8, ttl_parts: chunks as u8 },
                key,
                seq_no,
                piece.as_slice(),
            );
            out.push(Packet { pid, data });
            i = i + 1;
            start = start + FRAG_CHUNK;
        }
        out
    }
}

/// What the node makes of one packet that the radio delivered.
#[derive(Debug, PartialEq, Eq)]
pub enum RxEvent {
    /// Not for this node's session, malformed, or nothing to deliver yet.
    Ignored,
    /// A whole frame for the node's RPC server.
    Frame(Vec<u8>),
    /// The bridge spoke of another serial or pipe than the node's own.
    ProtocolViolation,
    /// The bridge told the node to attach again.
    Reset,
}

/// The node's receiving side: its serial, its pipe and its reassembler.
pub struct EsbRx {
    pub serial: u64,
    pub pipe: u8,
    pub frag_buf: FragBuf,
}

impl EsbRx {
    pub fn new(serial: u64, pipe: u8) -> (r: Self)
        ensures
            r.serial == serial,
            r.pipe == pipe,
            r.frag_buf.wf(),
            r.frag_buf.status() is Idle,
    {
        EsbRx { serial, pipe, frag_buf: FragBuf::new() }
    }

    /// Handles one packet that arrived on `pkt_pipe`: only packets on the
    /// node's own pipe that hold a bridge message under `key` count.
    pub fn receive_packet(&mut self, key: [u8; 2], pkt_pipe: u8, data: &[u8]) -> (r: RxEvent)
        requires
            old(self).frag_buf.wf(),
        ensures
            final(self).frag_buf.wf(),
            final(self).serial == old(self).serial,
            final(self).pipe == old(self).pipe,
            ({
                let ours = pkt_pipe == old(self).pipe && has_key2(data@, key) && b2n_decodable(
                    after_header(data@),
                );
                &&& !ours ==> r is Ignored && final(self).frag_buf == old(self).frag_buf
                &&& ours ==> rx_event(
                    old(self).frag_buf.status(),
                    old(self).frag_buf.buffered(),
                    final(self).frag_buf.status(),
                    final(self).frag_buf.buffered(),
                    le_bytes(old(self).serial),
                    old(self).pipe,
                    after_header(data@),
                    r,
                )
            }),
    {
        if pkt_pipe != self.pipe {
            return RxEvent::Ignored;
        }
        let e = match extract_topic2::<Bridge2Node>(data, key) {
            Some(e) => e,
            None => {
                return RxEvent::Ignored;
            },
        };
        let ours = serial_bytes(self.serial);
        proof {
            b2n_unique(e.msg, e.remain@, after_header(data@));
        }
        match e.msg {
            Bridge2Node::InitializeAck { serial, use_pipe } => {
                if !serial_eq(&serial, &ours) || use_pipe != self.pipe {
                    RxEvent::ProtocolViolation
                } else {
                    RxEvent::Ignored
                }
            },
            Bridge2Node::Keepalive { serial } => {
                if !serial_eq(&serial, &ours) {
                    RxEvent::ProtocolViolation
                } else {
                    RxEvent::Ignored
                }
            },
            Bridge2Node::Proxy { part, ttl_parts } => {
                if ttl_parts == 0 {
                    return RxEvent::Ignored;
                }
                match self.frag_buf.handle_frag(part, ttl_parts, e.remain.as_slice()) {
                    Some(frame) => RxEvent::Frame(frame),
                    None => RxEvent::Ignored,
                }
            },
            Bridge2Node::Reset => RxEvent::Reset,
        }
    }
}

/// The node's attach handshake: the sequence number and packet id of its
/// next `Initialize`.
pub struct Attach {
    pub ctr: u16,
    pub pid: u8,
}

impl Attach {
    pub fn new() -> (r: Self)
        ensures
            r.ctr == 0,
            r.pid == 0,
    {
        Attach { ctr: 0, pid: 0 }
    }

    /// The next `Initialize` for the node with `serial`, sent on pipe `0`.
    /// Packet ids cycle through `0..4`; the sequence number is advanced
    /// (wrapping) before it is used.
    pub fn next_request(&mut self, key: [u8; 2], serial: u64) -> (r: Packet)
        requires
            old(self).pid < 4,
        ensures
            final(self).pid < 4,
            r.pid == old(self).pid,
            final(self).pid == (old(self).pid + 1) % 4,
            final(self).ctr == wrap_inc(old(self).ctr),
            r.data@ == header2_bytes(key, wrap_inc(old(self).ctr)) + seq![0u8] + le_bytes(serial),
    {
        let pid = self.pid;
        self.pid = (pid + 1) % 4;
        self.ctr = if self.ctr == u16::MAX {
            0
        } else {
            self.ctr + 1
        };
        let msg = Node2Bridge::Initialize { serial: serial_bytes(serial) };
        let empty: Vec<u8> = Vec::new();
        let data = write_topic2(&msg, key, self.ctr, empty.as_slice());
        assert(data@ =~= header2_bytes(key, self.ctr) + seq![0u8] + le_bytes(serial));
        Packet { pid, data }
    }
}

/// The pipe that an `InitializeAck` frame body hands to the node whose
/// serial travels as `ours`.
pub open spec fn ack_in(body: Seq<u8>, ours: Seq<u8>) -> Option<u8> {
    if body.len() >= 10 && body[0] == 0 && body.subrange(1, 9) == ours {
        Some(body[9])
    } else {
        None
    }
}

/// The pipe that a packet hands to the node with `serial`: one that holds
/// an `InitializeAck` under `key` for that serial; any other packet is
/// passed over.
pub fn attach_reply(key: [u8; 2], serial: u64, data: &[u8]) -> (r: Option<u8>)
    ensures
        r == (if has_key2(data@, key) {
            ack_in(after_header(data@), le_bytes(serial))
        } else {
            None
        }),
{
    let e = match extract_topic2::<Bridge2Node>(data, key) {
        Some(e) => e,
        None => {
            return None;
        },
    };
    let ours = serial_bytes(serial);
    let ghost body = after_header(data@);
    match e.msg {
        Bridge2Node::InitializeAck { serial: s, use_pipe } => {
            assert(body[0] == 0);
            assert(body.subrange(1, 9) =~= s@);
            assert(body[9] == use_pipe);
            if serial_eq(&s, &ours) {
                Some(use_pipe)
            } else {
                None
            }
        },
        _ => {
            assert(body[0] != 0);
            None
        },
    }
}

/// When the node last sent a keepalive, in milliseconds of its monotonic
/// clock.
pub struct KeepaliveTimer {
    pub last_ka: u64,
}

impl KeepaliveTimer {
    pub fn new(now: u64) -> (r: Self)
        ensures
            r.last_ka == now,
    {
        KeepaliveTimer { last_ka: now }
    }

    /// On a tick at `now`: whether a keepalive is due (`KEEPALIVE_MS` or more
    /// since the last one, which is then taken to be sent now) rather than
    /// an idle packet.
    pub fn tick(&mut self, now: u64) -> (r: bool)
        ensures
            r == (now >= old(self).last_ka && now - old(self).last_ka >= KEEPALIVE_MS),
            r ==> final(self).last_ka == now,
            !r ==> final(self).last_ka == old(self).last_ka,
    {
        if now >= self.last_ka && now - self.last_ka >= KEEPALIVE_MS {
            self.last_ka = now;
            true
        } else {
            false
        }
    }
}

/// What receiving the bridge frame body `body` does on a node with wire
/// serial `ours` and pipe `pipe`: a message naming another serial or pipe is
/// a protocol violation, `Reset` asks to attach again, and a fragment goes
/// to the reassembler (those of `0` parts are ignored).
pub open spec fn rx_event(
    status: crate::frag::FragStatus,
    buf: Seq<u8>,
    status2: crate::frag::FragStatus,
    buf2: Seq<u8>,
    ours: Seq<u8>,
    pipe: u8,
    body: Seq<u8>,
    r: RxEvent,
) -> bool {
    exists|m: Bridge2Node, rest: Seq<u8>|
        #![trigger b2n_bytes(m), rest.len()]
        b2n_bytes(m) + rest == body && match m {
            Bridge2Node::InitializeAck { serial, use_pipe } => {
                &&& (status2, buf2) == (status, buf)
                &&& if serial@ != ours || use_pipe != pipe {
                    r is ProtocolViolation
                } else {
                    r is Ignored
                }
            },
            Bridge2Node::Keepalive { serial } => {
                &&& (status2, buf2) == (status, buf)
                &&& if serial@ != ours {
                    r is ProtocolViolation
                } else {
                    r is Ignored
                }
            },
            Bridge2Node::Proxy { part, ttl_parts } => {
                if ttl_parts == 0 {
                    (status2, buf2) == (status, buf) && r is Ignored
                } else {
                    let step = frag_step(status, buf, part, ttl_parts, rest);
                    &&& status2 == step.0
                    &&& buf2 == step.1
                    &&& step.2 is Some ==> r is Frame && r->Frame_0@ == step.2->0
                    &&& step.2 is None ==> r is Ignored
                }
            },
            Bridge2Node::Reset => (status2, buf2) == (status, buf) && r is Reset,
        }
}

} // verus!
