use vstd::prelude::*;
use crate::bytes::append_bytes;

verus! {

/// Largest frame, in bytes, that a reassembler can hold.
pub const FRAG_CAPACITY: usize = 1024;

/// Most bytes of a frame that one fragment carries.
pub const FRAG_CHUNK: usize = 128;

/// Progress of the frame being reassembled.
#[derive(Clone, Copy, Debug, PartialEq, Eq, Structural)]
pub enum FragStatus {
    Idle,
    Active { position: usize, rx_frags: u8, ttl_frags: u8 },
}

/// Reassembles one logical frame from an ordered run of `(part, total)`
/// fragments.
pub struct FragBuf {
    data: Vec<u8>,
    status: FragStatus,
}

/// The state that a first fragment (`part == 0`) of a `ttl`-part frame leads to.
pub open spec fn frag_start(ttl: u8, data: Seq<u8>) -> (FragStatus, Seq<u8>) {
    if data.len() > FRAG_CAPACITY {
        (FragStatus::Idle, Seq::empty())
    } else {
        (FragStatus::Active { position: data.len() as usize, rx_frags: 1, ttl_frags: ttl }, data)
    }
}

/// One step of the reassembler: from a status and the buffered bytes, on
/// fragment `part` of `ttl` carrying `data`, the next status, the next
/// buffered bytes and the completed frame, if any.
pub open spec fn frag_step(status: FragStatus, buf: Seq<u8>, part: u8, ttl: u8, data: Seq<u8>) -> (
    FragStatus,
    Seq<u8>,
    Option<Seq<u8>>,
) {
    if ttl == 0 {
        (FragStatus::Idle, Seq::empty(), None)
    } else if part == 0 && ttl == 1 {
        (status, buf, Some(data))
    } else {
        match status {
            FragStatus::Idle => {
                if part == 0 {
                    (frag_start(ttl, data).0, frag_start(ttl, data).1, None)
                } else {
                    (FragStatus::Idle, Seq::empty(), None)
                }
            },
            FragStatus::Active { position, rx_frags, ttl_frags } => {
                if rx_frags != part || ttl_frags != ttl {
                    if part == 0 {
                        (frag_start(ttl, data).0, frag_start(ttl, data).1, None)
                    } else {
                        (FragStatus::Idle, Seq::empty(), None)
                    }
                } else if buf.len() + data.len() > FRAG_CAPACITY {
                    (FragStatus::Idle, Seq::empty(), None)
                } else if part + 1 == ttl {
                    (FragStatus::Idle, Seq::empty(), Some(buf + data))
                } else {
                    (
                        FragStatus::Active {
                            position: (buf.len() + data.len()) as usize,
                            rx_frags: (part + 1) as u8,
                            ttl_frags: ttl,
                        },
                        buf + data,
                        None,
                    )
                }
            },
        }
    }
}

/// Nothing is buffered while idle; while active, `position` counts the
/// bytes buffered, at most the capacity, and the fragment expected next lies
/// strictly inside the frame.
pub open spec fn frag_wf(status: FragStatus, buf: Seq<u8>) -> bool {
    match status {
        FragStatus::Idle => buf.len() == 0,
        FragStatus::Active { position, rx_frags, ttl_frags } => {
            &&& position as int == buf.len()
            &&& position <= FRAG_CAPACITY
            &&& 1 <= rx_frags < ttl_frags
        },
    }
}

impl FragBuf {
    /// The status and the bytes buffered for the frame in flight.
    pub closed spec fn view(&self) -> (FragStatus, Seq<u8>) {
        (self.status, self.data@)
    }

    pub open spec fn status(&self) -> FragStatus {
        self@.0
    }

    pub open spec fn buffered(&self) -> Seq<u8> {
        self@.1
    }

    pub open spec fn wf(&self) -> bool {
        frag_wf(self.status(), self.buffered())
    }

    pub fn new() -> (r: Self)
        ensures
            r.wf(),
            r.status() == FragStatus::Idle,
            r.buffered() == Seq::<u8>::empty(),
    {
        FragBuf { data: Vec::new(), status: FragStatus::Idle }
    }

    /// Drops any frame in flight.
    pub fn reset_frag(&mut self)
        ensures
            final(self).wf(),
            final(self).status() == FragStatus::Idle,
            final(self).buffered() == Seq::<u8>::empty(),
    {
        self.status = FragStatus::Idle;
        self.data.clear();
    }

    /// Restarts on the first fragment of a `ttl`-part frame.
    fn start(&mut self, ttl: u8, data: &[u8])
        requires
            ttl >= 2,
        ensures
            final(self).wf(),
            final(self)@ == frag_start(ttl, data@),
    {
        self.data.clear();
        if data.len() > FRAG_CAPACITY {
            self.status = FragStatus::Idle;
        } else {
            append_bytes(&mut self.data, data);
            self.status = FragStatus::Active { position: data.len(), rx_frags: 1, ttl_frags: ttl };
        }
    }

    /// Feeds fragment `part` of a `ttl_parts`-part frame. Returns the whole
    /// frame when this fragment completes it. A single-fragment frame
    /// (`part == 0`, `ttl_parts == 1`) is handed back at once and leaves the
    /// frame in flight untouched.
    pub fn handle_frag(&mut self, part: u8, ttl_parts: u8, data: &[u8]) -> (r: Option<Vec<u8>>)
        requires
            old(self).wf(),
        ensures
            final(self).wf(),
            ({
                let (st, buf, out) = frag_step(old(self).status(), old(self).buffered(), part, ttl_parts, data@);
                &&& final(self).status() == st
                &&& final(self).buffered() == buf
                &&& out is Some <==> r is Some
                &&& r is Some ==> r->0@ == out->0
            }),
    {
        if ttl_parts < 1 {
            self.reset_frag();
            return None;
        }
        if part == 0 && ttl_parts == 1 {
            let mut out: Vec<u8> = Vec::new();
            append_bytes(&mut out, data);
            return Some(out);
        }
        match self.status {
            FragStatus::Idle => {
                if part == 0 {
                    self.start(ttl_parts, data);
                } else {
                    self.reset_frag();
                }
                None
            },
            FragStatus::Active { position, rx_frags, ttl_frags } => {
                if rx_frags != part || ttl_frags != ttl_parts {
                    if part == 0 {
                        self.start(ttl_parts, data);
                    } else {
                        self.reset_frag();
                    }
                    return None;
                }
                if data.len() > FRAG_CAPACITY - position {
                    self.reset_frag();
                    return None;
                }
                append_bytes(&mut self.data, data);
                let end = position + data.len();
                if part + 1 == ttl_parts {
                    let mut out: Vec<u8> = Vec::new();
                    std::mem::swap(&mut out, &mut self.data);
                    self.status = FragStatus::Idle;
                    Some(out)
                } else {
                    self.status = FragStatus::Active { position: end, rx_frags: part + 1, ttl_frags: ttl_parts };
                    None
                }
            },
        }
    }
}

impl Default for FragBuf {
    fn default() -> (r: Self)
        ensures
            r.wf(),
            r.status() == FragStatus::Idle,
            r.buffered() == Seq::<u8>::empty(),
    {
        FragBuf::new()
    }
}

} // verus!
