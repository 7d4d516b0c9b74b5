use vstd::prelude::*;

verus! {

/// Bytes shown on one line of a dump.
pub const DUMP_WIDTH: usize = 16;

/// The upper-case hex digit for `n` (below 16).
pub open spec fn hex_digit(n: int) -> u8 {
    if n < 10 {
        (0x30 + n) as u8
    } else {
        (0x41 + n - 10) as u8
    }
}

/// `b` as two hex digits.
pub open spec fn hex2(b: u8) -> Seq<u8> {
    seq![hex_digit((b / 16) as int), hex_digit((b % 16) as int)]
}

/// `x` as eight hex digits.
pub open spec fn hex8(x: u32) -> Seq<u8> {
    seq![
        hex_digit(((x / 0x1000_0000) % 16) as int),
        hex_digit(((x / 0x100_0000) % 16) as int),
        hex_digit(((x / 0x10_0000) % 16) as int),
        hex_digit(((x / 0x1_0000) % 16) as int),
        hex_digit(((x / 0x1000) % 16) as int),
        hex_digit(((x / 0x100) % 16) as int),
        hex_digit(((x / 0x10) % 16) as int),
        hex_digit((x % 16) as int),
    ]
}

/// How a byte shows in the text column: itself when it is printable ASCII,
/// else a middle dot (in UTF-8).
pub open spec fn shown(b: u8) -> Seq<u8> {
    if 0x20 <= b <= 0x7e {
        seq![b]
    } else {
        seq![0xc2u8, 0xb7u8]
    }
}

/// The hex column: each byte as a space and two hex digits.
pub open spec fn hex_col(ch: Seq<u8>) -> Seq<u8>
    decreases ch.len(),
{
    if ch.len() == 0 {
        Seq::empty()
    } else {
        hex_col(ch.drop_last()) + seq![0x20u8] + hex2(ch.last())
    }
}

/// The text column.
pub open spec fn text_col(ch: Seq<u8>) -> Seq<u8>
    decreases ch.len(),
{
    if ch.len() == 0 {
        Seq::empty()
    } else {
        text_col(ch.drop_last()) + shown(ch.last())
    }
}

/// One line of a dump: the address, the bytes in hex padded to the full
/// width, and the bytes as text.
pub open spec fn dump_line(addr: u32, ch: Seq<u8>) -> Seq<u8> {
    seq![0x30u8, 0x78u8] + hex8(addr) + seq![0x20u8, 0x7cu8] + hex_col(ch) + Seq::new(
        (3 * (DUMP_WIDTH - ch.len())) as nat,
        |i: int| 0x20u8,
    ) + seq![0x20u8, 0x7cu8, 0x20u8] + text_col(ch) + seq![0x0au8]
}

/// The bytes of line `i` of a dump of `data`.
pub open spec fn line_bytes(data: Seq<u8>, i: int) -> Seq<u8> {
    let end = if (i + 1) * DUMP_WIDTH <= data.len() {
        (i + 1) * DUMP_WIDTH
    } else {
        data.len() as int
    };
    data.subrange(i * DUMP_WIDTH, end)
}

/// The first `k` lines of a dump of `data` read from `base`.
pub open spec fn dump_lines(base: u32, data: Seq<u8>, k: int) -> Seq<u8>
    decreases k,
{
    if k <= 0 {
        Seq::empty()
    } else {
        dump_lines(base, data, k - 1) + dump_line((base + (k - 1) * DUMP_WIDTH) as u32, line_bytes(data, k - 1))
    }
}

/// Number of lines in a dump of `len` bytes.
pub open spec fn line_count(len: int) -> int {
    (len + DUMP_WIDTH - 1) / DUMP_WIDTH as int
}

fn hex_digit_exec(n: u8) -> (r: u8)
    requires
        n < 16,
    ensures
        r == hex_digit(n as int),
{
    if n < 10 {
        0x30 + n
    } else {
        0x41 + n - 10
    }
}

fn push_hex8(out: &mut Vec<u8>, x: u32)
    ensures
        final(out)@ == old(out)@ + hex8(x),
{
    out.push(hex_digit_exec(((x / 0x1000_0000) % 16) as u8));
    out.push(hex_digit_exec(((x / 0x100_0000) % 16) as u8));
    out.push(hex_digit_exec(((x / 0x10_0000) % 16) as u8));
    out.push(hex_digit_exec(((x / 0x1_0000) % 16) as u8));
    out.push(hex_digit_exec(((x / 0x1000) % 16) as u8));
    out.push(hex_digit_exec(((x / 0x100) % 16) as u8));
    out.push(hex_digit_exec(((x / 0x10) % 16) as u8));
    out.push(hex_digit_exec((x % 16) as u8));
    assert(final(out)@ =~= old(out)@ + hex8(x));
}

/// Appends one line of a dump.
fn push_line(out: &mut Vec<u8>, addr: u32, data: &[u8], start: usize, end: usize)
    requires
        start <= end <= data@.len(),
        end - start <= DUMP_WIDTH,
    ensures
        final(out)@ == old(out)@ + dump_line(addr, data@.subrange(start as int, end as int)),
{
    let ghost ch = data@.subrange(start as int, end as int);
    out.push(0x30u8);
    out.push(0x78u8);
    push_hex8(out, addr);
    out.push(0x20u8);
    out.push(0x7cu8);
    let ghost before_hex = out@;
    let mut i: usize = start;
    while i < end
        invariant
            start <= i <= end,
            end <= data@.len(),
            ch == data@.subrange(start as int, end as int),
            out@ == before_hex + hex_col(data@.subrange(start as int, i as int)),
        decreases end - i,
    {
        let b = data[i];
        out.push(0x20u8);
        out.push(hex_digit_exec(b / 16));
        out.push(hex_digit_exec(b % 16));
        i = i + 1;
        assert(data@.subrange(start as int, i as int).drop_last() == data@.subrange(start as int, i - 1 as int));
        assert(out@ =~= before_hex + hex_col(data@.subrange(start as int, i as int)));
    }
    let ghost before_pad = out@;
    let pad: usize = DUMP_WIDTH - (end - start);
    let mut p: usize = 0;
    while p < pad
        invariant
            p <= pad,
            out@ == before_pad + Seq::new((3 * p) as nat, |j: int| 0x20u8),
        decreases pad - p,
    {
        out.push(0x20u8);
        out.push(0x20u8);
        out.push(0x20u8);
        p = p + 1;
        assert(out@ =~= before_pad + Seq::new((3 * p) as nat, |j: int| 0x20u8));
    }
    out.push(0x20u8);
    out.push(0x7cu8);
    out.push(0x20u8);
    let ghost before_text = out@;
    let mut i: usize = start;
    while i < end
        invariant
            start <= i <= end,
            end <= data@.len(),
            out@ == before_text + text_col(data@.subrange(start as int, i as int)),
        decreases end - i,
    {
        let b = data[i];
        if 0x20 <= b && b <= 0x7e {
            out.push(b);
        } else {
            out.push(0xc2u8);
            out.push(0xb7u8);
        }
        i = i + 1;
        assert(data@.subrange(start as int, i as int).drop_last() == data@.subrange(start as int, i - 1 as int));
        assert(out@ =~= before_text + text_col(data@.subrange(start as int, i as int)));
    }
    out.push(0x0au8);
    assert(out@ =~= old(out)@ + dump_line(addr, ch));
}

/// A hex dump of `data`, read from address `base`: one line per sixteen
/// bytes, as UTF-8 text.
pub fn dump_chunk(base: u32, data: &[u8]) -> (r: Vec<u8>)
    requires
        base + data@.len() <= 0x1_0000_0000,
    ensures
        r@ == dump_lines(base, data@, line_count(data@.len() as int)),
{
    let mut out: Vec<u8> = Vec::new();
    let len = data.len();
    let lines: usize = len / DUMP_WIDTH + if len % DUMP_WIDTH == 0 {
        0
    } else {
        1
    };
    assert(lines == line_count(len as int));
    let mut k: usize = 0;
    let mut start: usize = 0;
    while k < lines
        invariant
            lines == line_count(len as int),
            len == data@.len(),
            base + len <= 0x1_0000_0000,
            k <= lines,
            start as int == (if k * DUMP_WIDTH <= len {
                k * DUMP_WIDTH
            } else {
                len as int
            }),
            out@ == dump_lines(base, data@, k as int),
        decreases lines - k,
    {
        let end = if len - start >= DUMP_WIDTH {
            start + DUMP_WIDTH
        } else {
            len
        };
        let addr: u32 = (base as usize + start) as u32;
        push_line(&mut out, addr, data, start, end);
        assert(data@.subrange(start as int, end as int) == line_bytes(data@, k as int));
        k = k + 1;
        start = end;
    }
    out
}

} // verus!
