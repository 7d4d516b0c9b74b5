use vstd::prelude::*;

verus! {

/// Number of pipes that the bridge hands out to nodes (pipes `1..=7`).
pub const PIPE_SLOTS: usize = 7;

/// A node's 64-bit serial, in little-endian byte order.
pub type Serial = [u8; 8];

/// The node that holds a pipe, and when the bridge last heard from it, in
/// milliseconds of the bridge's monotonic clock.
#[derive(Clone, Copy, Debug)]
pub struct Element {
    pub serial: Serial,
    pub last_msg: u64,
}

/// Outcome of a successful allocation: the pipe that was handed out anew, or
/// the one that the serial already held.
#[derive(Clone, Copy, Debug, PartialEq, Eq, Structural)]
pub enum PipeAlloc {
    New(u8),
    Existing(u8),
}

/// The bridge's pipe table: slot `i` belongs to pipe `i + 1`.
pub struct Table {
    addr_allocs: Vec<Option<Element>>,
}

#[verifier::external_type_specification]
#[verifier::external_body]
#[verifier::reject_recursive_types(T)]
pub struct ExHeaplessVec<T, const N: usize>(heapless::Vec<T, N>);

/// The serials that a snapshot vector holds, in order.
pub uninterp spec fn snapshot_items(v: heapless::Vec<[u8; 8], 7>) -> Seq<[u8; 8]>;

/// Relies on `heapless::Vec::new`: the vector starts empty.
#[verifier::external_body]
pub(crate) fn snapshot_new() -> (r: heapless::Vec<[u8; 8], 7>)
    ensures
        snapshot_items(r) == Seq::<[u8; 8]>::empty(),
{
    heapless::Vec::new()
}

/// Relies on `heapless::Vec::clear`: no item is left.
#[verifier::external_body]
fn snapshot_clear(v: &mut heapless::Vec<[u8; 8], 7>)
    ensures
        snapshot_items(*final(v)) == Seq::<[u8; 8]>::empty(),
{
    v.clear()
}

/// Relies on `heapless::Vec::push`: below the capacity of seven the item is
/// appended and `Ok` returned; at the capacity nothing changes and the item
/// comes back as `Err`.
#[verifier::external_body]
fn snapshot_push(v: &mut heapless::Vec<[u8; 8], 7>, item: [u8; 8]) -> (r: bool)
    ensures
        snapshot_items(*old(v)).len() < 7 ==> r && snapshot_items(*final(v)) == snapshot_items(*old(v)).push(
            item,
        ),
        snapshot_items(*old(v)).len() >= 7 ==> !r && snapshot_items(*final(v)) == snapshot_items(*old(v)),
{
    v.push(item).is_ok()
}

/// Whether `slot` is occupied by `serial`.
pub open spec fn holds(slot: Option<Element>, serial: Serial) -> bool {
    slot is Some && slot->0.serial == serial
}

/// The serials of the occupied slots, in slot order.
pub open spec fn occupied_serials(slots: Seq<Option<Element>>) -> Seq<Serial>
    decreases slots.len(),
{
    if slots.len() == 0 {
        Seq::empty()
    } else {
        let rest = occupied_serials(slots.drop_last());
        match slots.last() {
            Some(e) => rest.push(e.serial),
            None => rest,
        }
    }
}

/// Whether the slot is kept by a cull at `now` with threshold `dur`: it was
/// heard from no later than `now`, and less than `dur` milliseconds ago.
pub open spec fn survives(e: Element, now: u64, dur: u64) -> bool {
    e.last_msg <= now && now - e.last_msg < dur
}

/// Whether some slot is occupied by `serial`.
pub open spec fn present(slots: Seq<Option<Element>>, serial: Serial) -> bool {
    exists|i: int| 0 <= i < slots.len() && holds(#[trigger] slots[i], serial)
}

/// The pipe named by an allocation's outcome.
pub open spec fn alloc_pipe(r: Option<PipeAlloc>) -> Option<u8> {
    match r {
        Some(PipeAlloc::New(p)) => Some(p),
        Some(PipeAlloc::Existing(p)) => Some(p),
        None => None,
    }
}

/// How allocating a pipe for `serial` at `now` takes the slots `old` to
/// `new` with outcome `pipe`: a serial already present keeps its pipe and
/// nothing changes; otherwise it takes the first free slot, heard from at
/// `now`; with no free slot there is no pipe and nothing changes.
pub open spec fn allocation(
    old: Seq<Option<Element>>,
    new: Seq<Option<Element>>,
    serial: Serial,
    now: u64,
    pipe: Option<u8>,
) -> bool {
    if present(old, serial) {
        &&& pipe is Some
        &&& 1 <= pipe->0 <= old.len()
        &&& holds(old[pipe->0 - 1], serial)
        &&& new == old
    } else if exists|i: int| 0 <= i < old.len() && #[trigger] old[i] is None {
        &&& pipe is Some
        &&& 1 <= pipe->0 <= old.len()
        &&& old[pipe->0 - 1] is None
        &&& forall|j: int| 0 <= j < pipe->0 - 1 ==> #[trigger] old[j] is Some
        &&& new == old.update(pipe->0 - 1, Some(Element { serial, last_msg: now }))
    } else {
        &&& pipe is None
        &&& new == old
    }
}

/// Compares two serials byte by byte.
pub(crate) fn serial_eq(a: &Serial, b: &Serial) -> (r: bool)
    ensures
        r == (*a == *b),
        r == (a@ == b@),
{
    let mut i: usize = 0;
    while i < 8
        invariant
            i <= 8,
            forall|j: int| 0 <= j < i ==> a[j] == b[j],
        decreases 8 - i,
    {
        if a[i] != b[i] {
            return false;
        }
        i = i + 1;
    }
    assert(*a =~= *b);
    true
}

impl Table {
    /// The slots, pipe `1` first.
    pub closed spec fn view(&self) -> Seq<Option<Element>> {
        self.addr_allocs@
    }

    /// Seven slots, and no serial in two of them.
    pub open spec fn wf(&self) -> bool {
        &&& self@.len() == PIPE_SLOTS
        &&& forall|i: int, j: int|
            0 <= i < j < self@.len() && #[trigger] self@[i] is Some && #[trigger] self@[j] is Some
                ==> self@[i]->0.serial != self@[j]->0.serial
    }

    /// An empty table.
    pub fn new() -> (r: Self)
        ensures
            r.wf(),
            forall|i: int| 0 <= i < PIPE_SLOTS ==> #[trigger] r@[i] is None,
    {
        let mut addr_allocs: Vec<Option<Element>> = Vec::new();
        let mut i: usize = 0;
        while i < PIPE_SLOTS
            invariant
                i <= PIPE_SLOTS,
                addr_allocs@.len() == i,
                forall|j: int| 0 <= j < i ==> #[trigger] addr_allocs@[j] is None,
            decreases PIPE_SLOTS - i,
        {
            addr_allocs.push(None);
            i = i + 1;
        }
        Table { addr_allocs }
    }

    /// Gives `serial` a pipe. Where it already holds one, that pipe is
    /// returned as `Existing` and nothing changes; otherwise the first free
    /// slot becomes its own, heard from at `now`, and is returned as `New`;
    /// with no free slot the result is `None` and nothing changes.
    pub fn allocate_pipe(&mut self, serial: &Serial, now: u64) -> (r: Option<PipeAlloc>)
        requires
            old(self).wf(),
        ensures
            final(self).wf(),
            allocation(old(self)@, final(self)@, *serial, now, alloc_pipe(r)),
            r is Some ==> (r->0 is Existing <==> present(old(self)@, *serial)),
    {
        let mut first_empty: Option<usize> = None;
        let mut i: usize = 0;
        while i < PIPE_SLOTS
            invariant
                self.wf(),
                self@ == old(self)@,
                i <= PIPE_SLOTS,
                forall|j: int| 0 <= j < i ==> !holds(#[trigger] self@[j], *serial),
                first_empty is None ==> forall|j: int| 0 <= j < i ==> #[trigger] self@[j] is Some,
                first_empty is Some ==> {
                    &&& first_empty->0 < i
                    &&& self@[first_empty->0 as int] is None
                    &&& forall|j: int| 0 <= j < first_empty->0 ==> #[trigger] self@[j] is Some
                },
            decreases PIPE_SLOTS - i,
        {
            match self.addr_allocs[i] {
                Some(e) => {
                    if serial_eq(&e.serial, serial) {
                        return Some(PipeAlloc::Existing((i as u8) + 1));
                    }
                },
                None => {
                    if first_empty.is_none() {
                        first_empty = Some(i);
                    }
                },
            }
            i = i + 1;
        }
        match first_empty {
            Some(s) => {
                self.addr_allocs.set(s, Some(Element { serial: *serial, last_msg: now }));
                Some(PipeAlloc::New((s as u8) + 1))
            },
            None => None,
        }
    }

    /// The pipe that `serial` holds, if any.
    pub fn pipe_for_serial(&self, serial: &Serial) -> (r: Option<u8>)
        requires
            self.wf(),
        ensures
            r is Some ==> 1 <= r->0 <= PIPE_SLOTS && holds(self@[r->0 - 1], *serial),
            r is None ==> forall|j: int| 0 <= j < PIPE_SLOTS ==> !holds(#[trigger] self@[j], *serial),
    {
        let mut i: usize = 0;
        while i < PIPE_SLOTS
            invariant
                self.wf(),
                i <= PIPE_SLOTS,
                forall|j: int| 0 <= j < i ==> !holds(#[trigger] self@[j], *serial),
            decreases PIPE_SLOTS - i,
        {
            if let Some(e) = self.addr_allocs[i] {
                if serial_eq(&e.serial, serial) {
                    return Some((i as u8) + 1);
                }
            }
            i = i + 1;
        }
        None
    }

    /// Whether `pipe` is one of the table's pipes and is held by a node.
    pub fn pipe_valid(&self, pipe: u8) -> (r: bool)
        requires
            self.wf(),
        ensures
            r == (1 <= pipe <= PIPE_SLOTS && self@[pipe - 1] is Some),
    {
        if pipe == 0 {
            return false;
        }
        let idx = (pipe - 1) as usize;
        if idx >= PIPE_SLOTS {
            return false;
        }
        self.addr_allocs[idx].is_some()
    }

    /// The serial of the node that holds `pipe`; never one for pipe `0`.
    pub fn serial_for_pipe(&self, pipe: u8) -> (r: Option<Serial>)
        requires
            self.wf(),
        ensures
            r is Some <==> (1 <= pipe <= PIPE_SLOTS && self@[pipe - 1] is Some),
            r is Some ==> r->0 == self@[pipe - 1]->0.serial,
    {
        if pipe == 0 {
            return None;
        }
        let idx = (pipe - 1) as usize;
        if idx >= PIPE_SLOTS {
            return None;
        }
        match self.addr_allocs[idx] {
            Some(e) => Some(e.serial),
            None => None,
        }
    }

    /// Records that the node on `pipe` was heard from at `now`. Succeeds
    /// only where that slot is held by `serial`; otherwise nothing changes.
    pub fn update_time(&mut self, pipe: u8, serial: &Serial, now: u64) -> (r: bool)
        requires
            old(self).wf(),
        ensures
            final(self).wf(),
            r == (1 <= pipe <= PIPE_SLOTS && holds(old(self)@[pipe - 1], *serial)),
            r ==> final(self)@ == old(self)@.update(
                pipe - 1,
                Some(Element { serial: *serial, last_msg: now }),
            ),
            !r ==> final(self)@ == old(self)@,
    {
        if pipe == 0 {
            return false;
        }
        let idx = (pipe - 1) as usize;
        if idx >= PIPE_SLOTS {
            return false;
        }
        match self.addr_allocs[idx] {
            Some(e) => {
                if serial_eq(&e.serial, serial) {
                    self.addr_allocs.set(idx, Some(Element { serial: e.serial, last_msg: now }));
                    true
                } else {
                    false
                }
            },
            None => false,
        }
    }

    /// Frees every slot whose node was last heard from `dur` or more milliseconds
    /// before `now`, or after `now` (a clock that went backwards).
    pub fn cull_older_than(&mut self, dur: u64, now: u64)
        requires
            old(self).wf(),
        ensures
            final(self).wf(),
            forall|i: int|
                0 <= i < PIPE_SLOTS ==> #[trigger] final(self)@[i] == (match old(self)@[i] {
                    Some(e) => if survives(e, now, dur) {
                        Some(e)
                    } else {
                        None
                    },
                    None => None,
                }),
            forall|i: int|
                0 <= i < PIPE_SLOTS && #[trigger] final(self)@[i] is Some ==> survives(
                    final(self)@[i]->0,
                    now,
                    dur,
                ),
    {
        let mut i: usize = 0;
        while i < PIPE_SLOTS
            invariant
                self.wf(),
                i <= PIPE_SLOTS,
                forall|j: int|
                    0 <= j < i ==> #[trigger] self@[j] == (match old(self)@[j] {
                        Some(e) => if survives(e, now, dur) {
                            Some(e)
                        } else {
                            None
                        },
                        None => None,
                    }),
                forall|j: int| i <= j < PIPE_SLOTS ==> #[trigger] self@[j] == old(self)@[j],
            decreases PIPE_SLOTS - i,
        {
            if let Some(e) = self.addr_allocs[i] {
                if now < e.last_msg || now - e.last_msg >= dur {
                    self.addr_allocs.set(i, None);
                }
            }
            i = i + 1;
        }
    }

    /// Replaces the contents of `out` by the serials of the occupied slots,
    /// pipe `1` first.
    pub fn extract_table(&self, out: &mut heapless::Vec<[u8; 8], 7>)
        requires
            self.wf(),
        ensures
            snapshot_items(*final(out)) == occupied_serials(self@),
    {
        snapshot_clear(out);
        let mut i: usize = 0;
        while i < PIPE_SLOTS
            invariant
                self.wf(),
                i <= PIPE_SLOTS,
                snapshot_items(*out) == occupied_serials(self@.subrange(0, i as int)),
                snapshot_items(*out).len() <= i,
            decreases PIPE_SLOTS - i,
        {
            assert(self@.subrange(0, i + 1 as int).drop_last() == self@.subrange(0, i as int));
            if let Some(e) = self.addr_allocs[i] {
                snapshot_push(out, e.serial);
            }
            i = i + 1;
        }
        assert(self@.subrange(0, PIPE_SLOTS as int) == self@);
    }
}

impl Default for Table {
    fn default() -> (r: Self)
        ensures
            r.wf(),
            forall|i: int| 0 <= i < PIPE_SLOTS ==> #[trigger] r@[i] is None,
    {
        Table::new()
    }
}

} // verus!
