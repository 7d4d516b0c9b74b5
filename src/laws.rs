use vstd::prelude::*;
use crate::bridge::{chunk_count, chunk_of};
use crate::frag::{frag_start, frag_step, frag_wf, FragStatus, FRAG_CAPACITY, FRAG_CHUNK};

verus! {

/// The bytes of `pieces`, one after the other.
pub open spec fn joined(pieces: Seq<Seq<u8>>) -> Seq<u8>
    decreases pieces.len(),
{
    if pieces.len() == 0 {
        Seq::empty()
    } else {
        joined(pieces.drop_last()) + pieces.last()
    }
}

/// The reassembler after the first `k` of `pieces` were fed as parts
/// `0, 1, ..` of a `pieces.len()`-part frame, with what the last of them
/// returned.
pub open spec fn feed(status: FragStatus, buf: Seq<u8>, pieces: Seq<Seq<u8>>, k: nat) -> (
    FragStatus,
    Seq<u8>,
    Option<Seq<u8>>,
)
    decreases k,
{
    if k == 0 {
        (status, buf, None)
    } else {
        let prev = feed(status, buf, pieces, (k - 1) as nat);
        frag_step(prev.0, prev.1, (k - 1) as u8, pieces.len() as u8, pieces[k - 1])
    }
}

proof fn lemma_joined_take(pieces: Seq<Seq<u8>>, k: int)
    requires
        0 <= k < pieces.len(),
    ensures
        joined(pieces.take(k + 1)) == joined(pieces.take(k)) + pieces[k],
        joined(pieces.take(k + 1)).len() >= joined(pieces.take(k)).len(),
{
    assert(pieces.take(k + 1).drop_last() == pieces.take(k));
}

proof fn lemma_joined_take_len(pieces: Seq<Seq<u8>>, k: int)
    requires
        0 <= k <= pieces.len(),
    ensures
        joined(pieces.take(k)).len() <= joined(pieces).len(),
    decreases pieces.len() - k,
{
    if k < pieces.len() {
        lemma_joined_take(pieces, k);
        lemma_joined_take_len(pieces, k + 1);
    } else {
        assert(pieces.take(k) == pieces);
    }
}

/// Feeding a frame of at most the capacity, cut into any run of pieces, as
/// parts `0..n` of an `n`-part frame leaves every piece but the last pending
/// with the bytes so far buffered, and the last one returns the whole frame,
/// whatever the reassembler held before.
pub proof fn lemma_round_trip(status: FragStatus, buf: Seq<u8>, pieces: Seq<Seq<u8>>)
    requires
        frag_wf(status, buf),
        1 <= pieces.len() <= 255,
        joined(pieces).len() <= FRAG_CAPACITY,
    ensures
        forall|k: nat|
            1 <= k < pieces.len() ==> {
                let r = #[trigger] feed(status, buf, pieces, k);
                &&& r.0 == (FragStatus::Active {
                    position: joined(pieces.take(k as int)).len() as usize,
                    rx_frags: k as u8,
                    ttl_frags: pieces.len() as u8,
                })
                &&& r.1 == joined(pieces.take(k as int))
                &&& r.2 is None
            },
        feed(status, buf, pieces, pieces.len()).2 == Some(joined(pieces)),
{
    let n = pieces.len();
    if n == 1 {
        assert(pieces.take(0) == Seq::<Seq<u8>>::empty());
        assert(pieces.drop_last() == Seq::<Seq<u8>>::empty());
        assert(joined(pieces) == pieces[0]);
    } else {
        lemma_round_trip_prefix(status, buf, pieces, (n - 1) as nat);
        let prev = feed(status, buf, pieces, (n - 1) as nat);
        lemma_joined_take(pieces, n - 1);
        assert(pieces.take(n as int) == pieces);
        assert forall|k: nat| 1 <= k < pieces.len() implies {
            let r = #[trigger] feed(status, buf, pieces, k);
            &&& r.0 == (FragStatus::Active {
                position: joined(pieces.take(k as int)).len() as usize,
                rx_frags: k as u8,
                ttl_frags: pieces.len() as u8,
            })
            &&& r.1 == joined(pieces.take(k as int))
            &&& r.2 is None
        } by {
            lemma_round_trip_prefix(status, buf, pieces, k);
        }
    }
}

proof fn lemma_round_trip_prefix(status: FragStatus, buf: Seq<u8>, pieces: Seq<Seq<u8>>, k: nat)
    requires
        frag_wf(status, buf),
        2 <= pieces.len() <= 255,
        joined(pieces).len() <= FRAG_CAPACITY,
        1 <= k < pieces.len(),
    ensures
        ({
            let r = feed(status, buf, pieces, k);
            &&& r.0 == (FragStatus::Active {
                position: joined(pieces.take(k as int)).len() as usize,
                rx_frags: k as u8,
                ttl_frags: pieces.len() as u8,
            })
            &&& r.1 == joined(pieces.take(k as int))
            &&& r.2 is None
        }),
    decreases k,
{
    lemma_joined_take_len(pieces, k as int);
    lemma_joined_take(pieces, k - 1);
    if k == 1 {
        assert(pieces.take(0) == Seq::<Seq<u8>>::empty());
        assert(Seq::<u8>::empty() + pieces[0] == pieces[0]);
    } else {
        lemma_round_trip_prefix(status, buf, pieces, (k - 1) as nat);
    }
}

/// A first fragment of a multi-fragment frame restarts the reassembler
/// whatever it held: the bytes buffered before are discarded and only the
/// new fragment is kept (or nothing, if it alone exceeds the capacity).
pub proof fn lemma_restart(status: FragStatus, buf: Seq<u8>, ttl: u8, data: Seq<u8>)
    requires
        frag_wf(status, buf),
        ttl >= 2,
    ensures
        frag_step(status, buf, 0, ttl, data).0 == frag_start(ttl, data).0,
        frag_step(status, buf, 0, ttl, data).1 == frag_start(ttl, data).1,
        frag_step(status, buf, 0, ttl, data).2 is None,
        data.len() <= FRAG_CAPACITY ==> frag_step(status, buf, 0, ttl, data).1 == data,
        data.len() <= FRAG_CAPACITY ==> frag_step(status, buf, 0, ttl, data).0 == (FragStatus::Active {
            position: data.len() as usize,
            rx_frags: 1,
            ttl_frags: ttl,
        }),
{
}

/// While a frame is in flight, a later fragment whose `(part, total)` is not
/// the one expected drops the frame and leaves the reassembler idle, and so
/// does an expected fragment that would overflow the capacity.
pub proof fn lemma_rejection(status: FragStatus, buf: Seq<u8>, part: u8, ttl: u8, data: Seq<u8>)
    requires
        frag_wf(status, buf),
        status is Active,
        part != 0,
        (part != status->rx_frags || ttl != status->ttl_frags) || buf.len() + data.len() > FRAG_CAPACITY,
    ensures
        frag_step(status, buf, part, ttl, data).0 == FragStatus::Idle,
        frag_step(status, buf, part, ttl, data).1 == Seq::<u8>::empty(),
        frag_step(status, buf, part, ttl, data).2 is None,
{
}

/// A frame that fits in one chunk comes out the same whether it is sent as
/// the single fragment `0/1` or as the two fragments `0/2` and `1/2` whose
/// bytes make it up, whatever the reassembler held before.
pub proof fn lemma_fast_path(status: FragStatus, buf: Seq<u8>, first: Seq<u8>, second: Seq<u8>)
    requires
        frag_wf(status, buf),
        first.len() + second.len() <= FRAG_CHUNK,
    ensures
        frag_step(status, buf, 0, 1, first + second).2 == Some(first + second),
        frag_step(status, buf, 0, 2, first).2 is None,
        ({
            let s = frag_step(status, buf, 0, 2, first);
            frag_step(s.0, s.1, 1, 2, second).2 == Some(first + second)
        }),
{
}

/// The pieces that a frame of `msg` is cut into for sending.
pub open spec fn chunks_of(msg: Seq<u8>) -> Seq<Seq<u8>> {
    Seq::new(chunk_count(msg.len() as int) as nat, |i: int| chunk_of(msg, i))
}

proof fn lemma_chunks_prefix(msg: Seq<u8>, k: int)
    requires
        0 <= k <= chunk_count(msg.len() as int),
    ensures
        joined(chunks_of(msg).take(k)) == msg.subrange(
            0,
            if k * FRAG_CHUNK <= msg.len() {
                k * FRAG_CHUNK
            } else {
                msg.len() as int
            },
        ),
    decreases k,
{
    if k == 0 {
        assert(chunks_of(msg).take(0) == Seq::<Seq<u8>>::empty());
        assert(msg.subrange(0, 0) == Seq::<u8>::empty());
    } else {
        lemma_chunks_prefix(msg, k - 1);
        lemma_joined_take(chunks_of(msg), k - 1);
        assert(msg.subrange(0, (k - 1) * FRAG_CHUNK) + chunk_of(msg, k - 1) =~= msg.subrange(
            0,
            if k * FRAG_CHUNK <= msg.len() {
                k * FRAG_CHUNK
            } else {
                msg.len() as int
            },
        ));
    }
}

/// The pieces that a frame is cut into for sending, one per `FRAG_CHUNK`
/// bytes, join back to the frame; a frame that fits a reassembler is cut
/// into at most 255 of them, so fed as parts `0..n` of an `n`-part frame
/// they come out as the frame.
pub proof fn lemma_chunks_rejoin(msg: Seq<u8>)
    ensures
        joined(chunks_of(msg)) == msg,
        msg.len() <= FRAG_CAPACITY ==> chunks_of(msg).len() <= 255,
{
    let n = chunk_count(msg.len() as int);
    lemma_chunks_prefix(msg, n);
    assert(chunks_of(msg).take(n) == chunks_of(msg));
    assert(msg.subrange(0, msg.len() as int) == msg);
}

} // verus!
