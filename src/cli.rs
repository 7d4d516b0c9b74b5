use vstd::prelude::*;
use vstd::utf8::*;
use vstd::string::*;

verus! {

/// Value of an ASCII digit in any radix up to 36; `36` for a byte that is
/// no digit at all.
pub open spec fn digit_of(b: u8) -> int {
    if 0x30 <= b <= 0x39 {
        b - 0x30
    } else if 0x61 <= b <= 0x7a {
        b - 0x61 + 10
    } else if 0x41 <= b <= 0x5a {
        b - 0x41 + 10
    } else {
        36
    }
}

/// The number that the digits `d` spell in `radix`, if all are digits there.
pub open spec fn digits_value(d: Seq<u8>, radix: int) -> Option<int>
    decreases d.len(),
{
    if d.len() == 0 {
        Some(0)
    } else {
        match digits_value(d.drop_last(), radix) {
            Some(v) => if digit_of(d.last()) < radix {
                Some(v * radix + digit_of(d.last()))
            } else {
                None
            },
            None => None,
        }
    }
}

/// The unsigned number that `s` spells in `radix`: an optional `+`, then one
/// or more digits and nothing else.
pub open spec fn radix_value(s: Seq<u8>, radix: u32) -> Option<int> {
    let d = if s.len() > 0 && s[0] == 0x2b {
        s.drop_first()
    } else {
        s
    };
    if d.len() == 0 {
        None
    } else {
        digits_value(d, radix as int)
    }
}

/// `radix_value`, where it fits below `max`.
pub open spec fn radix_value_upto(s: Seq<u8>, radix: u32, max: int) -> Option<int> {
    match radix_value(s, radix) {
        Some(v) => if v <= max {
            Some(v)
        } else {
            None
        },
        None => None,
    }
}

/// Relies on `u8::from_str_radix`, as its documentation states it: an
/// optional `+` and then only digits of `radix` are read, and anything else,
/// or a value past the type's range, is an error.
#[verifier::external_body]
fn parse_u8(src: &str, radix: u32) -> (r: Option<u8>)
    requires
        2 <= radix <= 36,
    ensures
        r is Some <==> radix_value_upto(src.spec_bytes(), radix, u8::MAX as int) is Some,
        r is Some ==> r->0 == radix_value_upto(src.spec_bytes(), radix, u8::MAX as int)->0,
{
    u8::from_str_radix(src, radix).ok()
}

/// Relies on `u16::from_str_radix`, as its documentation states it: an
/// optional `+` and then only digits of `radix` are read, and anything else,
/// or a value past the type's range, is an error.
#[verifier::external_body]
fn parse_u16(src: &str, radix: u32) -> (r: Option<u16>)
    requires
        2 <= radix <= 36,
    ensures
        r is Some <==> radix_value_upto(src.spec_bytes(), radix, u16::MAX as int) is Some,
        r is Some ==> r->0 == radix_value_upto(src.spec_bytes(), radix, u16::MAX as int)->0,
{
    u16::from_str_radix(src, radix).ok()
}

/// Relies on `u32::from_str_radix`, as its documentation states it: an
/// optional `+` and then only digits of `radix` are read, and anything else,
/// or a value past the type's range, is an error.
#[verifier::external_body]
fn parse_u32(src: &str, radix: u32) -> (r: Option<u32>)
    requires
        2 <= radix <= 36,
    ensures
        r is Some <==> radix_value_upto(src.spec_bytes(), radix, u32::MAX as int) is Some,
        r is Some ==> r->0 == radix_value_upto(src.spec_bytes(), radix, u32::MAX as int)->0,
{
    u32::from_str_radix(src, radix).ok()
}

/// Relies on `u64::from_str_radix`, as its documentation states it: an
/// optional `+` and then only digits of `radix` are read, and anything else,
/// or a value past the type's range, is an error.
#[verifier::external_body]
fn parse_u64(src: &str, radix: u32) -> (r: Option<u64>)
    requires
        2 <= radix <= 36,
    ensures
        r is Some <==> radix_value_upto(src.spec_bytes(), radix, u64::MAX as int) is Some,
        r is Some ==> r->0 == radix_value_upto(src.spec_bytes(), radix, u64::MAX as int)->0,
{
    u64::from_str_radix(src, radix).ok()
}

/// Relies on `u128::from_str_radix`, as its documentation states it: an
/// optional `+` and then only digits of `radix` are read, and anything else,
/// or a value past the type's range, is an error.
#[verifier::external_body]
fn parse_u128(src: &str, radix: u32) -> (r: Option<u128>)
    requires
        2 <= radix <= 36,
    ensures
        r is Some <==> radix_value_upto(src.spec_bytes(), radix, u128::MAX as int) is Some,
        r is Some ==> r->0 == radix_value_upto(src.spec_bytes(), radix, u128::MAX as int)->0,
{
    u128::from_str_radix(src, radix).ok()
}

/// Relies on `usize::from_str_radix`, as its documentation states it: an
/// optional `+` and then only digits of `radix` are read, and anything else,
/// or a value past the type's range, is an error.
#[verifier::external_body]
fn parse_usize(src: &str, radix: u32) -> (r: Option<usize>)
    requires
        2 <= radix <= 36,
    ensures
        r is Some <==> radix_value_upto(src.spec_bytes(), radix, usize::MAX as int) is Some,
        r is Some ==> r->0 == radix_value_upto(src.spec_bytes(), radix, usize::MAX as int)->0,
{
    usize::from_str_radix(src, radix).ok()
}

/// An unsigned integer type that can be read from text in a given radix.
pub trait FromStrRadix: Sized {
    /// The value that the bytes `s` spell in `radix`, where the type holds it.
    spec fn radix_parsed(s: Seq<u8>, radix: u32) -> Option<Self>;

    fn from_str_radix_gen(src: &str, radix: u32) -> (r: Option<Self>)
        requires
            2 <= radix <= 36,
        ensures
            r == Self::radix_parsed(src.spec_bytes(), radix),
    ;
}

impl FromStrRadix for u8 {
    open spec fn radix_parsed(s: Seq<u8>, radix: u32) -> Option<u8> {
        match radix_value_upto(s, radix, u8::MAX as int) {
            Some(v) => Some(v as u8),
            None => None,
        }
    }

    fn from_str_radix_gen(src: &str, radix: u32) -> (r: Option<u8>) {
        parse_u8(src, radix)
    }
}

impl FromStrRadix for u16 {
    open spec fn radix_parsed(s: Seq<u8>, radix: u32) -> Option<u16> {
        match radix_value_upto(s, radix, u16::MAX as int) {
            Some(v) => Some(v as u16),
            None => None,
        }
    }

    fn from_str_radix_gen(src: &str, radix: u32) -> (r: Option<u16>) {
        parse_u16(src, radix)
    }
}

impl FromStrRadix for u32 {
    open spec fn radix_parsed(s: Seq<u8>, radix: u32) -> Option<u32> {
        match radix_value_upto(s, radix, u32::MAX as int) {
            Some(v) => Some(v as u32),
            None => None,
        }
    }

    fn from_str_radix_gen(src: &str, radix: u32) -> (r: Option<u32>) {
        parse_u32(src, radix)
    }
}

impl FromStrRadix for u64 {
    open spec fn radix_parsed(s: Seq<u8>, radix: u32) -> Option<u64> {
        match radix_value_upto(s, radix, u64::MAX as int) {
            Some(v) => Some(v as u64),
            None => None,
        }
    }

    fn from_str_radix_gen(src: &str, radix: u32) -> (r: Option<u64>) {
        parse_u64(src, radix)
    }
}

impl FromStrRadix for u128 {
    open spec fn radix_parsed(s: Seq<u8>, radix: u32) -> Option<u128> {
        match radix_value_upto(s, radix, u128::MAX as int) {
            Some(v) => Some(v as u128),
            None => None,
        }
    }

    fn from_str_radix_gen(src: &str, radix: u32) -> (r: Option<u128>) {
        parse_u128(src, radix)
    }
}

impl FromStrRadix for usize {
    open spec fn radix_parsed(s: Seq<u8>, radix: u32) -> Option<usize> {
        match radix_value_upto(s, radix, usize::MAX as int) {
            Some(v) => Some(v as usize),
            None => None,
        }
    }

    fn from_str_radix_gen(src: &str, radix: u32) -> (r: Option<usize>) {
        parse_usize(src, radix)
    }
}

/// `b` without every leading `0x`.
pub open spec fn strip_0x(b: Seq<u8>) -> Seq<u8>
    decreases b.len(),
{
    if b.len() >= 2 && b[0] == 0x30 && b[1] == 0x78 {
        strip_0x(b.subrange(2, b.len() as int))
    } else {
        b
    }
}

/// `b` without every trailing `h`.
pub open spec fn strip_h(b: Seq<u8>) -> Seq<u8>
    decreases b.len(),
{
    if b.len() >= 1 && b.last() == 0x68 {
        strip_h(b.drop_last())
    } else {
        b
    }
}

/// The digits of a number written as `0x..` or `..h` in hex, else in
/// decimal, and their radix.
pub open spec fn hex_or_dec_digits(b: Seq<u8>) -> (Seq<u8>, u32) {
    if b.len() >= 2 && b[0] == 0x30 && b[1] == 0x78 {
        (strip_0x(b), 16)
    } else if b.len() >= 1 && b.last() == 0x68 {
        (strip_h(b), 16)
    } else {
        (b, 10)
    }
}

proof fn lemma_ascii_prefix_boundary(bytes: Seq<u8>, k: int)
    requires
        valid_utf8(bytes),
        0 <= k <= bytes.len(),
        forall|i: int| 0 <= i < k ==> bytes[i] < 0x80,
    ensures
        is_char_boundary(bytes, k),
    decreases k,
{
    if k > 0 {
        assert(bytes[0] < 0x80);
        assert(length_of_first_scalar(bytes) == 1);
        let rest = pop_first_scalar(bytes);
        assert(valid_utf8(rest));
        lemma_ascii_prefix_boundary(rest, k - 1);
    }
}

/// Reads a number written in hex as `0x..` or `..h`, or else in decimal.
pub fn hex_or_dec<T: FromStrRadix>(s: &str) -> (r: Option<T>)
    ensures
        r == T::radix_parsed(hex_or_dec_digits(s.spec_bytes()).0, hex_or_dec_digits(s.spec_bytes()).1),
{
    let bytes = s.as_bytes();
    let len = bytes.len();
    let ghost b = s.spec_bytes();
    proof {
        broadcast use encode_utf8_valid_utf8;
        assert(valid_utf8(b));
    }
    if len >= 2 && bytes[0] == 0x30 && bytes[1] == 0x78 {
        let mut lo: usize = 0;
        assert(b.subrange(0, len as int) == b);
        while lo < len - 1 && bytes[lo] == 0x30 && bytes[lo + 1] == 0x78
            invariant
                len == b.len(),
                bytes@ == b,
                lo <= len,
                len >= 2,
                strip_0x(b) == strip_0x(b.subrange(lo as int, len as int)),
                forall|i: int| 0 <= i < lo ==> b[i] < 0x80,
            decreases len - lo,
        {
            assert(b.subrange(lo as int, len as int).subrange(2, len - lo) == b.subrange(lo + 2, len as int));
            lo = lo + 2;
        }
        assert(strip_0x(b.subrange(lo as int, len as int)) == b.subrange(lo as int, len as int));
        proof {
            lemma_ascii_prefix_boundary(b, lo as int);
        }
        let (_, digits) = s.split_at(lo);
        T::from_str_radix_gen(digits, 16)
    } else if len >= 1 && bytes[len - 1] == 0x68 {
        let mut hi: usize = len;
        assert(b.subrange(0, len as int) == b);
        while hi >= 1 && bytes[hi - 1] == 0x68
            invariant
                len == b.len(),
                bytes@ == b,
                hi <= len,
                forall|i: int| hi <= i < len ==> b[i] == 0x68,
                strip_h(b) == strip_h(b.subrange(0, hi as int)),
            decreases hi,
        {
            assert(b.subrange(0, hi as int).drop_last() == b.subrange(0, hi - 1));
            hi = hi - 1;
        }
        assert(strip_h(b.subrange(0, hi as int)) == b.subrange(0, hi as int));
        proof {
            if hi < len {
                assert(b[hi as int] == 0x68);
                is_char_boundary_iff_not_is_continuation_byte(b, hi as int);
            } else {
                is_char_boundary_start_end_of_seq(b);
            }
        }
        let (digits, _) = s.split_at(hi);
        T::from_str_radix_gen(digits, 16)
    } else {
        T::from_str_radix_gen(s, 10)
    }
}

} // verus!
