use vstd::prelude::*;

verus! {

/// Why a run-length encoded band could not be decoded.
#[derive(Clone, Copy, Debug, PartialEq, Eq, Structural)]
pub enum DecodeError {
    DecodeOrEof,
    Overflow,
}

/// What postcard reads as an `i32` off the front of `data`: the value and
/// the number of bytes it took.
pub uninterp spec fn postcard_i32(data: Seq<u8>) -> Option<(i32, int)>;

/// Relies on `postcard::take_from_bytes::<i32>`: it reads one zigzag varint
/// off the front of the bytes, taking at least one byte, and hands back the
/// bytes after it.
#[verifier::external_body]
fn take_i32(data: &[u8]) -> (r: Option<(i32, &[u8])>)
    ensures
        r is Some <==> postcard_i32(data@) is Some,
        r is Some ==> {
            &&& (r->0).0 == (postcard_i32(data@)->0).0
            &&& 1 <= (postcard_i32(data@)->0).1 <= data@.len()
            &&& (r->0).1@ == data@.subrange((postcard_i32(data@)->0).1, data@.len() as int)
        },
{
    postcard::take_from_bytes::<i32>(data).ok()
}

/// The length of a run.
pub open spec fn run_len(val: i32) -> int {
    if val < 0 {
        -(val as int)
    } else {
        val as int
    }
}

/// One run, announced by `val` and read from `rest`, with `room` bytes left
/// in the output: a negative `val` takes that many literal bytes, any other
/// repeats the next byte `val` times. The bytes it yields, and how many of
/// `rest` it used.
pub open spec fn run_step(val: i32, rest: Seq<u8>, room: int) -> Result<(Seq<u8>, int), DecodeError> {
    let len = run_len(val);
    if len > room {
        Err(DecodeError::Overflow)
    } else if val < 0 {
        if len > rest.len() {
            Err(DecodeError::DecodeOrEof)
        } else {
            Ok((rest.subrange(0, len), len))
        }
    } else {
        if rest.len() == 0 {
            Err(DecodeError::DecodeOrEof)
        } else {
            Ok((Seq::new(len as nat, |k: int| rest[0]), 1))
        }
    }
}

/// The bytes that the runs in `data` decode to, with `room` bytes of output.
pub open spec fn rle_decode(data: Seq<u8>, room: int) -> Result<Seq<u8>, DecodeError>
    decreases data.len(),
{
    if data.len() == 0 {
        Ok(Seq::empty())
    } else {
        match postcard_i32(data) {
            None => Err(DecodeError::DecodeOrEof),
            Some((val, n)) => {
                if n < 1 || n > data.len() {
                    Err(DecodeError::DecodeOrEof)
                } else {
                    let rest = data.subrange(n, data.len() as int);
                    match run_step(val, rest, room) {
                        Err(e) => Err(e),
                        Ok((out, used)) => {
                            if used < 0 || used > rest.len() {
                                Err(DecodeError::DecodeOrEof)
                            } else {
                                match rle_decode(rest.subrange(used, rest.len() as int), room - out.len()) {
                                    Ok(tail) => Ok(out + tail),
                                    Err(e) => Err(e),
                                }
                            }
                        },
                    }
                }
            },
        }
    }
}

/// Writes the run announced by `val` and read from `rest` into `buf` at
/// `pos`, and returns how many bytes of `rest` it used and how many it
/// wrote. On an error `buf` is left as it was.
pub fn expand_run(val: i32, rest: &[u8], buf: &mut Vec<u8>, pos: usize) -> (r: Result<(usize, usize), DecodeError>)
    requires
        pos <= old(buf)@.len(),
    ensures
        match run_step(val, rest@, old(buf)@.len() - pos) {
            Ok((out, used)) => {
                &&& r == Ok::<(usize, usize), DecodeError>((used as usize, out.len() as usize))
                &&& 0 <= used <= rest@.len()
                &&& final(buf)@ == old(buf)@.subrange(0, pos as int) + out + old(buf)@.subrange(
                    pos + out.len(),
                    old(buf)@.len() as int,
                )
            },
            Err(e) => r == Err::<(usize, usize), DecodeError>(e) && final(buf)@ == old(buf)@,
        },
{
    let len: usize = if val < 0 {
        (0i64 - (val as i64)) as usize
    } else {
        val as usize
    };
    if len > buf.len() - pos {
        return Err(DecodeError::Overflow);
    }
    if val < 0 {
        if len > rest.len() {
            return Err(DecodeError::DecodeOrEof);
        }
        let mut i: usize = 0;
        while i < len
            invariant
                len <= rest@.len(),
                pos + len <= buf.len(),
                buf@.len() == old(buf)@.len(),
                i <= len,
                forall|k: int| 0 <= k < pos ==> buf@[k] == old(buf)@[k],
                forall|k: int| pos <= k < pos + i ==> buf@[k] == rest@[k - pos],
                forall|k: int| pos + len <= k < buf@.len() ==> buf@[k] == old(buf)@[k],
            decreases len - i,
        {
            buf.set(pos + i, rest[i]);
            i = i + 1;
        }
        assert(buf@ =~= old(buf)@.subrange(0, pos as int) + rest@.subrange(0, len as int) + old(
            buf,
        )@.subrange(pos + len, old(buf)@.len() as int));
        Ok((len, len))
    } else {
        if rest.len() == 0 {
            return Err(DecodeError::DecodeOrEof);
        }
        let b = rest[0];
        let mut i: usize = 0;
        while i < len
            invariant
                pos + len <= buf.len(),
                buf@.len() == old(buf)@.len(),
                i <= len,
                forall|k: int| 0 <= k < pos ==> buf@[k] == old(buf)@[k],
                forall|k: int| pos <= k < pos + i ==> buf@[k] == b,
                forall|k: int| pos + len <= k < buf@.len() ==> buf@[k] == old(buf)@[k],
            decreases len - i,
        {
            buf.set(pos + i, b);
            i = i + 1;
        }
        assert(buf@ =~= old(buf)@.subrange(0, pos as int) + Seq::new(len as nat, |k: int| rest@[0])
            + old(buf)@.subrange(pos + len, old(buf)@.len() as int));
        Ok((1, len))
    }
}

/// Decodes the run-length encoded `data` into the front of `buf`, whose
/// length is the room there is; the bytes of `buf` past the decoded ones are
/// left as they were.
pub fn decode_to(data: &[u8], buf: &mut Vec<u8>) -> (r: Result<(), DecodeError>)
    ensures
        final(buf)@.len() == old(buf)@.len(),
        match rle_decode(data@, old(buf)@.len() as int) {
            Ok(out) => {
                &&& r is Ok
                &&& final(buf)@ == out + old(buf)@.subrange(out.len() as int, old(buf)@.len() as int)
            },
            Err(e) => r == Err::<(), DecodeError>(e),
        },
{
    let mut rest: &[u8] = data;
    let mut pos: usize = 0;
    let ghost total = old(buf)@.len() as int;
    while rest.len() > 0
        invariant
            pos <= buf.len(),
            buf.len() == total,
            total == old(buf)@.len(),
            buf@.subrange(pos as int, total) == old(buf)@.subrange(pos as int, total),
            rle_decode(data@, total) == match rle_decode(rest@, total - pos) {
                Ok(tail) => Ok(buf@.subrange(0, pos as int) + tail),
                Err(e) => Err::<Seq<u8>, DecodeError>(e),
            },
        decreases rest@.len(),
    {
        let (val, after) = match take_i32(rest) {
            Some(t) => t,
            None => {
                return Err(DecodeError::DecodeOrEof);
            },
        };
        let ghost old_buf = buf@;
        let ghost room = total - pos;
        let (used, written) = match expand_run(val, after, buf, pos) {
            Ok(u) => u,
            Err(e) => {
                return Err(e);
            },
        };
        let ghost out = run_step(val, after@, room)->Ok_0.0;
        let (_, next) = after.split_at(used);
        proof {
            assert(after@.subrange(used as int, after@.len() as int) == next@);
            assert(rle_decode(rest@, room) == match rle_decode(next@, room - out.len()) {
                Ok(tail) => Ok(out + tail),
                Err(e) => Err::<Seq<u8>, DecodeError>(e),
            });
            assert(buf@.subrange(0, pos + out.len()) =~= old_buf.subrange(0, pos as int) + out);
            assert forall|k: int| pos + out.len() <= k < total implies buf@[k] == old(buf)@[k] by {
                assert(buf@[k] == old_buf.subrange(pos + out.len(), total)[k - pos - out.len()]);
                assert(old_buf[k] == old_buf.subrange(pos as int, total)[k - pos]);
                assert(old(buf)@[k] == old(buf)@.subrange(pos as int, total)[k - pos]);
            }
            assert(buf@.subrange(pos + out.len(), total) =~= old(buf)@.subrange(pos + out.len(), total));
            assert(written == out.len() && out.len() <= room);
            match rle_decode(next@, room - out.len()) {
                Ok(t) => {
                    assert(old_buf.subrange(0, pos as int) + (out + t) =~= buf@.subrange(
                        0,
                        pos + out.len(),
                    ) + t);
                },
                Err(e) => {},
            }
        }
        rest = next;
        pos = pos + written;
    }
    assert(buf@ =~= buf@.subrange(0, pos as int) + old(buf)@.subrange(pos as int, total));
    Ok(())
}

} // verus!
