use vstd::prelude::*;
use crate::bytes::copy_range;
use crate::codec::{b2n_bytes, header2_bytes, write_topic2, Bridge2Node, Node2Bridge};
use crate::frag::{frag_step, FragBuf, FragStatus, FRAG_CHUNK};
use crate::table::{snapshot_items, snapshot_new, allocation, holds, present, occupied_serials, survives, Serial, Table, PIPE_SLOTS};

verus! {

/// How long, in milliseconds, a node may stay silent before its pipe is freed.
pub const TIMEOUT_MS: u64 = 30_000;

/// A frame on its way between the host and a node, addressed by the node's
/// serial.
#[derive(Clone, Debug, PartialEq, Eq)]
pub struct ProxyMessage {
    pub serial: Serial,
    pub msg: Vec<u8>,
}

/// Why a frame from the host could not be sent on.
#[derive(Clone, Copy, Debug, PartialEq, Eq, Structural)]
pub enum ProxyError {
    UnknownDevice,
}

/// What the bridge does about one packet from a node: the reply to send back
/// on the packet's pipe, and a frame to hand up to the host.
#[derive(Debug, PartialEq, Eq)]
pub struct Dispatch {
    pub reply: Option<Bridge2Node>,
    pub forward: Option<ProxyMessage>,
}

/// The bridge's transport state: the pipe table, one reassembler per pipe,
/// and the sequence counters of its two outgoing streams.
pub struct Bridge {
    pub table: Table,
    pub frag_bufs: Vec<FragBuf>,
    pub table_ctr: u16,
    pub proxy_ctr: u16,
}

/// Seven idle reassemblers, one per pipe.
pub fn fbufs() -> (r: Vec<FragBuf>)
    ensures
        r@.len() == PIPE_SLOTS,
        forall|i: int| 0 <= i < PIPE_SLOTS ==> (#[trigger] r@[i]).wf() && r@[i].status() == FragStatus::Idle,
{
    let mut v: Vec<FragBuf> = Vec::new();
    let mut i: usize = 0;
    while i < PIPE_SLOTS
        invariant
            i <= PIPE_SLOTS,
            v@.len() == i,
            forall|j: int| 0 <= j < i ==> (#[trigger] v@[j]).wf() && v@[j].status() == FragStatus::Idle,
        decreases PIPE_SLOTS - i,
    {
        v.push(FragBuf::new());
        i = i + 1;
    }
    v
}

/// The pipe that an `InitializeAck` hands out.
pub open spec fn ack_pipe(reply: Option<Bridge2Node>) -> Option<u8> {
    match reply {
        Some(Bridge2Node::InitializeAck { serial, use_pipe }) => Some(use_pipe),
        _ => None,
    }
}

/// Number of fragments that a frame of `len` bytes is cut into.
pub open spec fn chunk_count(len: int) -> int {
    (len + FRAG_CHUNK - 1) / FRAG_CHUNK as int
}

/// The bytes of fragment `i` of `msg`.
pub open spec fn chunk_of(msg: Seq<u8>, i: int) -> Seq<u8> {
    let end = if (i + 1) * FRAG_CHUNK <= msg.len() {
        (i + 1) * FRAG_CHUNK
    } else {
        msg.len() as int
    };
    msg.subrange(i * FRAG_CHUNK, end)
}

/// The frame that carries fragment `i` of `n` of `msg` to a node.
pub open spec fn proxy_frame(key: [u8; 2], msg: Seq<u8>, i: int, n: int) -> Seq<u8> {
    header2_bytes(key, 0) + b2n_bytes(Bridge2Node::Proxy { part: i as u8, ttl_parts: n as u8 })
        + chunk_of(msg, i)
}

/// Cuts a frame from the host into the fragments that carry it to the node
/// with `arg.serial`, and names the pipe to send them on. Fails with
/// `UnknownDevice` when no pipe is held by that serial.
pub fn proxy_handler(table: &Table, key: [u8; 2], arg: &ProxyMessage) -> (r: Result<(u8, Vec<Vec<u8>>), ProxyError>)
    requires
        table.wf(),
        arg.msg@.len() <= 255 * FRAG_CHUNK,
    ensures
        r is Err <==> !present(table@, arg.serial),
        r is Err ==> r->Err_0 == ProxyError::UnknownDevice,
        r is Ok ==> {
            let (pipe, frames) = r->Ok_0;
            &&& 1 <= pipe <= PIPE_SLOTS
            &&& holds(table@[pipe - 1], arg.serial)
            &&& frames@.len() == chunk_count(arg.msg@.len() as int)
            &&& forall|i: int|
                0 <= i < frames@.len() ==> (#[trigger] frames@[i])@ == proxy_frame(
                    key,
                    arg.msg@,
                    i,
                    frames@.len() as int,
                )
        },
{
    let pipe = match table.pipe_for_serial(&arg.serial) {
        Some(p) => p,
        None => {
            return Err(ProxyError::UnknownDevice);
        },
    };
    let len = arg.msg.len();
    let chunks: usize = (len + FRAG_CHUNK - 1) / FRAG_CHUNK;
    assert(chunks <= 255);
    let mut frames: Vec<Vec<u8>> = Vec::new();
    let mut i: usize = 0;
    let mut start: usize = 0;
    while i < chunks
        invariant
            chunks == chunk_count(len as int),
            chunks <= 255,
            len == arg.msg@.len(),
            len <= 255 * FRAG_CHUNK,
            i <= chunks,
            start == i * FRAG_CHUNK,
            frames@.len() == i,
            forall|j: int|
                0 <= j < i ==> (#[trigger] frames@[j])@ == proxy_frame(key, arg.msg@, j, chunks as int),
        decreases chunks - i,
    {
        assert(start < len);
        let end = if len - start >= FRAG_CHUNK {
            start + FRAG_CHUNK
        } else {
            len
        };
        let piece = copy_range(arg.msg.as_slice(), start, end);
        let frame = write_topic2(
            &Bridge2Node::Proxy { part: i as u8, ttl_parts: chunks as u8 },
            key,
            0,
            piece.as_slice(),
        );
        frames.push(frame);
        i = i + 1;
        start = start + FRAG_CHUNK;
    }
    Ok((pipe, frames))
}

impl Bridge {
    pub open spec fn bufs(&self) -> Seq<FragBuf> {
        self.frag_bufs@
    }

    pub open spec fn wf(&self) -> bool {
        &&& self.table.wf()
        &&& self.bufs().len() == PIPE_SLOTS
        &&& forall|i: int| 0 <= i < PIPE_SLOTS ==> (#[trigger] self.bufs()[i]).wf()
    }

    /// A bridge with an empty table and idle reassemblers.
    pub fn new() -> (r: Self)
        ensures
            r.wf(),
            forall|i: int| 0 <= i < PIPE_SLOTS ==> #[trigger] r.table@[i] is None,
            forall|i: int| 0 <= i < PIPE_SLOTS ==> (#[trigger] r.bufs()[i]).status() == FragStatus::Idle,
            r.table_ctr == 0,
            r.proxy_ctr == 0,
    {
        Bridge { table: Table::new(), frag_bufs: fbufs(), table_ctr: 0, proxy_ctr: 0 }
    }

    /// Takes the next sequence number of the table stream.
    pub fn table_ctr(&mut self) -> (r: u16)
        ensures
            r == old(self).table_ctr,
            final(self).table_ctr == (if old(self).table_ctr == u16::MAX {
                0
            } else {
                (old(self).table_ctr + 1) as u16
            }),
            final(self).proxy_ctr == old(self).proxy_ctr,
            final(self).table == old(self).table,
            final(self).bufs() == old(self).bufs(),
    {
        let n = self.table_ctr;
        self.table_ctr = if n == u16::MAX {
            0
        } else {
            n + 1
        };
        n
    }

    /// Takes the next sequence number of the stream of replies and proxied
    /// frames.
    pub fn proxy_ctr(&mut self) -> (r: u16)
        ensures
            r == old(self).proxy_ctr,
            final(self).proxy_ctr == (if old(self).proxy_ctr == u16::MAX {
                0
            } else {
                (old(self).proxy_ctr + 1) as u16
            }),
            final(self).table_ctr == old(self).table_ctr,
            final(self).table == old(self).table,
            final(self).bufs() == old(self).bufs(),
    {
        let n = self.proxy_ctr;
        self.proxy_ctr = if n == u16::MAX {
            0
        } else {
            n + 1
        };
        n
    }

    /// Table maintenance: frees the pipes of nodes silent for `TIMEOUT_MS`
    /// at `now`, and returns the sequence number and the serials to publish.
    pub fn table_tick(&mut self, now: u64) -> (r: (u16, heapless::Vec<[u8; 8], 7>))
        requires
            old(self).wf(),
        ensures
            final(self).wf(),
            r.0 == old(self).table_ctr,
            snapshot_items(r.1) == occupied_serials(final(self).table@),
            forall|i: int|
                0 <= i < PIPE_SLOTS ==> #[trigger] final(self).table@[i] == (match old(self).table@[i] {
                    Some(e) => if survives(e, now, TIMEOUT_MS) {
                        Some(e)
                    } else {
                        None
                    },
                    None => None,
                }),
            final(self).bufs() == old(self).bufs(),
            final(self).proxy_ctr == old(self).proxy_ctr,
    {
        self.table.cull_older_than(TIMEOUT_MS, now);
        let mut sers = snapshot_new();
        self.table.extract_table(&mut sers);
        let seq_no = self.table_ctr();
        (seq_no, sers)
    }

    /// Answers an `Initialize` from `serial`: the pipe it is given, or
    /// `Reset` when the table is full.
    pub fn init_serial(&mut self, serial: &Serial, now: u64) -> (r: Bridge2Node)
        requires
            old(self).wf(),
        ensures
            final(self).wf(),
            allocation(old(self).table@, final(self).table@, *serial, now, ack_pipe(Some(r))),
            r is InitializeAck ==> r->InitializeAck_serial == *serial,
            r is InitializeAck || r is Reset,
            final(self).bufs() == old(self).bufs(),
            final(self).table_ctr == old(self).table_ctr,
            final(self).proxy_ctr == old(self).proxy_ctr,
    {
        match self.table.allocate_pipe(serial, now) {
            Some(crate::table::PipeAlloc::New(pipe)) => Bridge2Node::InitializeAck { serial: *serial, use_pipe: pipe },
            Some(crate::table::PipeAlloc::Existing(pipe)) => Bridge2Node::InitializeAck { serial: *serial, use_pipe: pipe },
            None => Bridge2Node::Reset,
        }
    }

    /// Feeds a fragment that arrived on `pipe` to that pipe's reassembler.
    /// A pipe that no node holds is answered with `Reset`; a complete frame
    /// is handed up under the serial of the pipe's node.
    pub fn proxy(&mut self, pipe: u8, remain: &[u8], part: u8, ttl_parts: u8) -> (r: Dispatch)
        requires
            old(self).wf(),
        ensures
            final(self).wf(),
            final(self).table == old(self).table,
            final(self).table_ctr == old(self).table_ctr,
            final(self).proxy_ctr == old(self).proxy_ctr,
            !(1 <= pipe <= PIPE_SLOTS && old(self).table@[pipe - 1] is Some) ==> {
                &&& r.reply == Some(Bridge2Node::Reset)
                &&& r.forward is None
                &&& final(self).bufs() == old(self).bufs()
            },
            (1 <= pipe <= PIPE_SLOTS && old(self).table@[pipe - 1] is Some) ==> {
                let i = pipe - 1;
                let b = old(self).bufs()[i];
                let step = frag_step(b.status(), b.buffered(), part, ttl_parts, remain@);
                &&& r.reply is None
                &&& ttl_parts == 0 ==> r.forward is None && final(self).bufs() == old(self).bufs()
                &&& ttl_parts != 0 ==> {
                    &&& final(self).bufs() == old(self).bufs().update(i, final(self).bufs()[i])
                    &&& final(self).bufs()[i].status() == step.0
                    &&& final(self).bufs()[i].buffered() == step.1
                    &&& r.forward is Some <==> step.2 is Some
                    &&& r.forward is Some ==> {
                        &&& r.forward->0.serial == old(self).table@[i]->0.serial
                        &&& r.forward->0.msg@ == step.2->0
                    }
                }
            },
    {
        let ser = match self.table.serial_for_pipe(pipe) {
            Some(s) => s,
            None => {
                return Dispatch { reply: Some(Bridge2Node::Reset), forward: None };
            },
        };
        if ttl_parts == 0 {
            return Dispatch { reply: None, forward: None };
        }
        let idx = (pipe - 1) as usize;
        let mut fb = self.frag_bufs.remove(idx);
        let done = fb.handle_frag(part, ttl_parts, remain);
        self.frag_bufs.insert(idx, fb);
        assert(self.frag_bufs@ =~= old(self).frag_bufs@.update(idx as int, fb));
        match done {
            Some(msg) => Dispatch { reply: None, forward: Some(ProxyMessage { serial: ser, msg }) },
            None => Dispatch { reply: None, forward: None },
        }
    }

    /// Handles one message that arrived on `pipe`, with the bytes that
    /// followed it in the packet, at `now`.
    pub fn handle(&mut self, pipe: u8, msg: &Node2Bridge, remain: &[u8], now: u64) -> (r: Dispatch)
        requires
            old(self).wf(),
        ensures
            final(self).wf(),
            final(self).table_ctr == old(self).table_ctr,
            final(self).proxy_ctr == old(self).proxy_ctr,
            pipe == 0 ==> match *msg {
                Node2Bridge::Initialize { serial } => {
                    &&& allocation(old(self).table@, final(self).table@, serial, now, ack_pipe(r.reply))
                    &&& r.reply is Some
                    &&& (r.reply->0 is InitializeAck && r.reply->0->InitializeAck_serial == serial)
                        || r.reply->0 is Reset
                    &&& r.forward is None
                    &&& final(self).bufs() == old(self).bufs()
                },
                _ => {
                    &&& r.reply == Some(Bridge2Node::Reset)
                    &&& r.forward is None
                    &&& final(self).table == old(self).table
                    &&& final(self).bufs() == old(self).bufs()
                },
            },
            pipe != 0 ==> match *msg {
                Node2Bridge::Initialize { serial } => {
                    &&& r.reply == Some(Bridge2Node::Reset)
                    &&& r.forward is None
                    &&& final(self).table == old(self).table
                    &&& final(self).bufs() == old(self).bufs()
                },
                Node2Bridge::Keepalive { serial } => {
                    let ok = pipe <= PIPE_SLOTS && holds(old(self).table@[pipe - 1], serial);
                    &&& ok ==> r.reply == Some(Bridge2Node::Keepalive { serial })
                    &&& ok ==> final(self).table@ == old(self).table@.update(
                        pipe - 1,
                        Some(crate::table::Element { serial, last_msg: now }),
                    )
                    &&& !ok ==> r.reply == Some(Bridge2Node::Reset)
                    &&& !ok ==> final(self).table@ == old(self).table@
                    &&& r.forward is None
                    &&& final(self).bufs() == old(self).bufs()
                },
                Node2Bridge::Proxy { part, ttl_parts } => {
                    &&& final(self).table == old(self).table
                    &&& !(pipe <= PIPE_SLOTS && old(self).table@[pipe - 1] is Some) ==> {
                        &&& r.reply == Some(Bridge2Node::Reset)
                        &&& r.forward is None
                        &&& final(self).bufs() == old(self).bufs()
                    }
                    &&& (pipe <= PIPE_SLOTS && old(self).table@[pipe - 1] is Some) ==> {
                        let i = pipe - 1;
                        let b = old(self).bufs()[i];
                        let step = frag_step(b.status(), b.buffered(), part, ttl_parts, remain@);
                        &&& r.reply is None
                        &&& ttl_parts == 0 ==> r.forward is None && final(self).bufs() == old(self).bufs()
                        &&& ttl_parts != 0 ==> {
                            &&& final(self).bufs() == old(self).bufs().update(i, final(self).bufs()[i])
                            &&& final(self).bufs()[i].status() == step.0
                            &&& final(self).bufs()[i].buffered() == step.1
                            &&& r.forward is Some <==> step.2 is Some
                            &&& r.forward is Some ==> {
                                &&& r.forward->0.serial == old(self).table@[i]->0.serial
                                &&& r.forward->0.msg@ == step.2->0
                            }
                        }
                    }
                },
                Node2Bridge::Nop => {
                    &&& r.reply is None
                    &&& r.forward is None
                    &&& final(self).table == old(self).table
                    &&& final(self).bufs() == old(self).bufs()
                },
            },
    {
        match msg {
            Node2Bridge::Initialize { serial } => {
                if pipe == 0 {
                    let reply = self.init_serial(serial, now);
                    Dispatch { reply: Some(reply), forward: None }
                } else {
                    Dispatch { reply: Some(Bridge2Node::Reset), forward: None }
                }
            },
            Node2Bridge::Keepalive { serial } => {
                if pipe == 0 {
                    Dispatch { reply: Some(Bridge2Node::Reset), forward: None }
                } else if self.table.update_time(pipe, serial, now) {
                    Dispatch { reply: Some(Bridge2Node::Keepalive { serial: *serial }), forward: None }
                } else {
                    Dispatch { reply: Some(Bridge2Node::Reset), forward: None }
                }
            },
            Node2Bridge::Proxy { part, ttl_parts } => {
                if pipe == 0 {
                    Dispatch { reply: Some(Bridge2Node::Reset), forward: None }
                } else {
                    self.proxy(pipe, remain, *part, *ttl_parts)
                }
            },
            Node2Bridge::Nop => {
                if pipe == 0 {
                    Dispatch { reply: Some(Bridge2Node::Reset), forward: None }
                } else {
                    Dispatch { reply: None, forward: None }
                }
            },
        }
    }

    /// The frame that carries `reply`, under the next sequence number of the
    /// reply stream and the topic key `key`.
    pub fn reply_frame(&mut self, key: [u8; 2], reply: &Bridge2Node) -> (r: Vec<u8>)
        ensures
            r@ == header2_bytes(key, old(self).proxy_ctr) + b2n_bytes(*reply),
            final(self).proxy_ctr == (if old(self).proxy_ctr == u16::MAX {
                0
            } else {
                (old(self).proxy_ctr + 1) as u16
            }),
            final(self).table_ctr == old(self).table_ctr,
            final(self).table == old(self).table,
            final(self).bufs() == old(self).bufs(),
    {
        let seq_no = self.proxy_ctr();
        let empty: Vec<u8> = Vec::new();
        let r = write_topic2(reply, key, seq_no, empty.as_slice());
        assert(r@ =~= header2_bytes(key, seq_no) + b2n_bytes(*reply));
        r
    }
}

} // verus!
