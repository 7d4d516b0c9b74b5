use vstd::prelude::*;
use crate::icd::{InvalidIndex, SetRGBCommand};

verus! {

/// PWM duty word for a `1` bit (the high bit reverses polarity).
pub const T1H: u16 = 0x8000 | 13;

/// PWM duty word for a `0` bit.
pub const T0H: u16 = 0x8000 | 7;

/// PWM word that ends a frame.
pub const RES: u16 = 0x8000;

/// Number of LEDs on the strip.
pub const LED_CT: usize = 120;

/// Number of PWM words: 24 per LED and one to end the frame.
pub const BUF_CT: usize = 24 * LED_CT + 1;

/// One LED's colour.
#[derive(Clone, Copy, Debug, PartialEq, Eq, Structural)]
pub struct RGB8 {
    pub r: u8,
    pub g: u8,
    pub b: u8,
}

/// Channel `c` of `led`: red, green, then blue, in the order they are sent.
pub open spec fn channel(led: RGB8, c: int) -> u8 {
    if c == 0 {
        led.r
    } else if c == 1 {
        led.g
    } else {
        led.b
    }
}

/// Whether bit `k` of `v`, counted from the most significant, is set.
pub open spec fn msb_bit(v: u8, k: int) -> bool {
    (v >> ((7 - k) as u8)) & 1u8 == 1u8
}

/// The PWM word for bit `k` (from the most significant) of `v`.
pub open spec fn bit_word(v: u8, k: int) -> u16 {
    if msb_bit(v, k) {
        T1H
    } else {
        T0H
    }
}

/// Writes into `buf` the PWM words that send `rgb` down the strip: 24 words
/// per LED, each channel most significant bit first. The last word is left
/// as it was.
pub fn fill(rgb: &Vec<RGB8>, buf: &mut Vec<u16>)
    requires
        rgb@.len() == LED_CT,
        old(buf)@.len() == BUF_CT,
    ensures
        final(buf)@.len() == BUF_CT,
        final(buf)@[BUF_CT - 1] == old(buf)@[BUF_CT - 1],
        forall|i: int, c: int, k: int|
            0 <= i < LED_CT && 0 <= c < 3 && 0 <= k < 8 ==> #[trigger] final(buf)@[24 * i + 8 * c + k]
                == bit_word(channel(#[trigger] rgb@[i], c), k),
{
    let mut i: usize = 0;
    while i < LED_CT
        invariant
            rgb@.len() == LED_CT,
            buf@.len() == BUF_CT,
            i <= LED_CT,
            buf@[BUF_CT - 1] == old(buf)@[BUF_CT - 1],
            forall|j: int, c: int, k: int|
                0 <= j < i && 0 <= c < 3 && 0 <= k < 8 ==> #[trigger] buf@[24 * j + 8 * c + k]
                    == bit_word(channel(#[trigger] rgb@[j], c), k),
        decreases LED_CT - i,
    {
        let led = rgb[i];
        let mut c: usize = 0;
        while c < 3
            invariant
                rgb@.len() == LED_CT,
                buf@.len() == BUF_CT,
                i < LED_CT,
                c <= 3,
                led == rgb@[i as int],
                buf@[BUF_CT - 1] == old(buf)@[BUF_CT - 1],
                forall|j: int, c2: int, k: int|
                    0 <= j < i && 0 <= c2 < 3 && 0 <= k < 8 ==> #[trigger] buf@[24 * j + 8 * c2 + k]
                        == bit_word(channel(#[trigger] rgb@[j], c2), k),
                forall|c2: int, k: int|
                    0 <= c2 < c && 0 <= k < 8 ==> #[trigger] buf@[24 * i + 8 * c2 + k] == bit_word(
                        channel(led, c2),
                        k,
                    ),
            decreases 3 - c,
        {
            let v: u8 = if c == 0 {
                led.r
            } else if c == 1 {
                led.g
            } else {
                led.b
            };
            let mut k: usize = 0;
            while k < 8
                invariant
                    rgb@.len() == LED_CT,
                    buf@.len() == BUF_CT,
                    i < LED_CT,
                    c < 3,
                    k <= 8,
                    led == rgb@[i as int],
                    v == channel(led, c as int),
                    buf@[BUF_CT - 1] == old(buf)@[BUF_CT - 1],
                    forall|j: int, c2: int, k2: int|
                        0 <= j < i && 0 <= c2 < 3 && 0 <= k2 < 8 ==> #[trigger] buf@[24 * j + 8 * c2 + k2]
                            == bit_word(channel(#[trigger] rgb@[j], c2), k2),
                    forall|c2: int, k2: int|
                        0 <= c2 < c && 0 <= k2 < 8 ==> #[trigger] buf@[24 * i + 8 * c2 + k2] == bit_word(
                            channel(led, c2),
                            k2,
                        ),
                    forall|k2: int| 0 <= k2 < k ==> #[trigger] buf@[24 * i + 8 * c + k2] == bit_word(v, k2),
                decreases 8 - k,
            {
                let shift: u8 = (7 - k) as u8;
                let w: u16 = if (v >> shift) & 1u8 == 1u8 {
                    T1H
                } else {
                    T0H
                };
                buf.set(24 * i + 8 * c + k, w);
                k = k + 1;
            }
            c = c + 1;
        }
        i = i + 1;
    }
}

/// Sets the colour of LED `arg.pos`; an index past the strip is refused
/// and nothing changes.
pub fn set_one_rgb(rgb_buf: &mut Vec<RGB8>, arg: &SetRGBCommand) -> (r: Result<(), InvalidIndex>)
    ensures
        r is Ok <==> arg.pos < old(rgb_buf)@.len(),
        r is Ok ==> final(rgb_buf)@ == old(rgb_buf)@.update(arg.pos as int, arg.color),
        r is Err ==> final(rgb_buf)@ == old(rgb_buf)@,
{
    let pos = arg.pos as usize;
    if pos >= rgb_buf.len() {
        return Err(InvalidIndex);
    }
    rgb_buf.set(pos, arg.color);
    Ok(())
}

/// Sets every LED to `color`.
pub fn set_all_rgb(rgb_buf: &mut Vec<RGB8>, color: RGB8)
    ensures
        final(rgb_buf)@.len() == old(rgb_buf)@.len(),
        forall|i: int| 0 <= i < final(rgb_buf)@.len() ==> #[trigger] final(rgb_buf)@[i] == color,
{
    let mut i: usize = 0;
    while i < rgb_buf.len()
        invariant
            i <= rgb_buf@.len(),
            rgb_buf@.len() == old(rgb_buf)@.len(),
            forall|j: int| 0 <= j < i ==> #[trigger] rgb_buf@[j] == color,
        decreases rgb_buf@.len() - i,
    {
        rgb_buf.set(i, color);
        i = i + 1;
    }
}

} // verus!
