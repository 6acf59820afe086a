//! Eight bit RGBA colours and the packed sixteen bit forms they are unpacked from.
use vstd::prelude::*;

verus! {

/// A colour with eight bits per channel.
#[derive(Clone, Copy, Debug, PartialEq, Eq, Structural)]
pub struct Rgba {
    pub r: u8,
    pub g: u8,
    pub b: u8,
    pub a: u8,
}

/// Transparent black: what a texel holds when nothing was written to it.
pub open spec fn clear() -> Rgba {
    Rgba { r: 0, g: 0, b: 0, a: 0 }
}

/// A five bit channel widened to eight bits by repeating its top bits.
pub open spec fn widen5(v: int) -> int {
    v * 8 + v / 4
}

/// A six bit channel widened to eight bits by repeating its top bits.
pub open spec fn widen6(v: int) -> int {
    v * 4 + v / 16
}

/// The opaque colour packed in `c` as five, six and five bits, red on top.
pub open spec fn rgb565(c: u16) -> Rgba {
    Rgba {
        r: widen5(c as int / 2048) as u8,
        g: widen6(c as int / 32 % 64) as u8,
        b: widen5(c as int % 32) as u8,
        a: 255,
    }
}

/// The colour packed in `c` as four nibbles: alpha on top, then red, green and blue.
pub open spec fn argb4444(c: u16) -> Rgba {
    Rgba {
        r: (c as int / 256 % 16 * 17) as u8,
        g: (c as int / 16 % 16 * 17) as u8,
        b: (c as int % 16 * 17) as u8,
        a: (c as int / 4096 * 17) as u8,
    }
}

/// The weighted mean of two channel values, rounded down.
pub open spec fn mix(v0: u8, v1: u8, w0: int, w1: int) -> int {
    (v0 * w0 + v1 * w1) / (w0 + w1)
}

/// The opaque colour whose channels are the weighted means of those of `c0` and `c1`.
pub open spec fn mixed(c0: Rgba, c1: Rgba, w0: int, w1: int) -> Rgba {
    Rgba {
        r: mix(c0.r, c1.r, w0, w1) as u8,
        g: mix(c0.g, c1.g, w0, w1) as u8,
        b: mix(c0.b, c1.b, w0, w1) as u8,
        a: 255,
    }
}

/// Unpacks a colour of five, six and five bits; the result is opaque.
pub fn decode_rgb565(c: u16) -> (out: Rgba)
    ensures
        out == rgb565(c),
{
    let r: u8 = ((c >> 11) & 0x1F) as u8;
    let g: u8 = ((c >> 5) & 0x3F) as u8;
    let b: u8 = (c & 0x1F) as u8;
    assert(((c >> 11) & 0x1F) as u8 == c / 2048 && ((c >> 5) & 0x3F) as u8 == c / 32 % 64 && (c
        & 0x1F) as u8 == c % 32) by (bit_vector);
    assert((r << 3) | (r >> 2) == r * 8 + r / 4 && (b << 3) | (b >> 2) == b * 8 + b / 4)
        by (bit_vector)
        requires
            r < 32,
            b < 32,
    ;
    assert((g << 2) | (g >> 4) == g * 4 + g / 16) by (bit_vector)
        requires
            g < 64,
    ;
    Rgba { r: (r << 3) | (r >> 2), g: (g << 2) | (g >> 4), b: (b << 3) | (b >> 2), a: 255 }
}

/// Unpacks a colour of four nibbles.
pub fn decode_argb4444(c: u16) -> (out: Rgba)
    ensures
        out == argb4444(c),
{
    let a: u8 = ((c >> 12) & 0xF) as u8;
    let r: u8 = ((c >> 8) & 0xF) as u8;
    let g: u8 = ((c >> 4) & 0xF) as u8;
    let b: u8 = (c & 0xF) as u8;
    assert(((c >> 12) & 0xF) as u8 == c / 4096 && ((c >> 8) & 0xF) as u8 == c / 256 % 16 && ((c
        >> 4) & 0xF) as u8 == c / 16 % 16 && (c & 0xF) as u8 == c % 16) by (bit_vector);
    Rgba {
        r: repeat_nibble(r),
        g: repeat_nibble(g),
        b: repeat_nibble(b),
        a: repeat_nibble(a),
    }
}

/// Widens a nibble to a byte by writing it twice.
pub fn repeat_nibble(v: u8) -> (out: u8)
    requires
        v < 16,
    ensures
        out == v * 17,
{
    assert((v << 4) | v == v * 17) by (bit_vector)
        requires
            v < 16,
    ;
    (v << 4) | v
}

/// A weighted mean of bytes is no larger than the larger of them.
proof fn lemma_mix_bounds(v0: u8, v1: u8, w0: int, w1: int)
    requires
        0 <= w0,
        0 <= w1,
        0 < w0 + w1,
    ensures
        v0 <= v1 ==> v0 <= mix(v0, v1, w0, w1) <= v1,
        v1 <= v0 ==> v1 <= mix(v0, v1, w0, w1) <= v0,
{
    let lo = if v0 <= v1 { v0 as int } else { v1 as int };
    let hi = if v0 <= v1 { v1 as int } else { v0 as int };
    let s = v0 * w0 + v1 * w1;
    assert(lo * (w0 + w1) <= s <= hi * (w0 + w1)) by (nonlinear_arith)
        requires
            lo <= v0 <= hi,
            lo <= v1 <= hi,
            0 <= w0,
            0 <= w1,
            s == v0 * w0 + v1 * w1,
    ;
    assert(lo <= s / (w0 + w1) <= hi) by (nonlinear_arith)
        requires
            lo * (w0 + w1) <= s <= hi * (w0 + w1),
            0 < w0 + w1,
    ;
}

/// The weighted mean of two channel values.
fn mix_channel(v0: u8, v1: u8, w0: usize, w1: usize) -> (out: u8)
    requires
        0 < w0 + w1,
        255 * (w0 + w1) <= usize::MAX,
    ensures
        out == mix(v0, v1, w0 as int, w1 as int),
{
    proof {
        lemma_mix_bounds(v0, v1, w0 as int, w1 as int);
    }
    assert(v0 * w0 <= 255 * w0 && v1 * w1 <= 255 * w1 && 0 <= v0 * w0 && 0 <= v1 * w1)
        by (nonlinear_arith)
        requires
            0 <= v0 <= 255,
            0 <= v1 <= 255,
            0 <= w0,
            0 <= w1,
    ;
    ((v0 as usize * w0 + v1 as usize * w1) / (w0 + w1)) as u8
}

/// Mixes two colours channel by channel, `w0` parts of `c0` to `w1` parts of `c1`. The result is
/// opaque whatever the two alphas are.
pub fn lerp_color(c0: Rgba, c1: Rgba, w0: usize, w1: usize) -> (out: Rgba)
    requires
        0 < w0 + w1,
        255 * (w0 + w1) <= usize::MAX,
    ensures
        out == mixed(c0, c1, w0 as int, w1 as int),
{
    Rgba {
        r: mix_channel(c0.r, c1.r, w0, w1),
        g: mix_channel(c0.g, c1.g, w0, w1),
        b: mix_channel(c0.b, c1.b, w0, w1),
        a: 255,
    }
}

/// Unpacking keeps the ends of each channel's range: all bits clear is black, all bits set is
/// white.
pub proof fn rgb565_keeps_extremes()
    ensures
        rgb565(0) == (Rgba { r: 0, g: 0, b: 0, a: 255 }),
        rgb565(0xFFFF) == (Rgba { r: 255, g: 255, b: 255, a: 255 }),
{
}

/// Distinct packed colours unpack to distinct colours.
pub proof fn rgb565_is_injective(c0: u16, c1: u16)
    requires
        rgb565(c0) == rgb565(c1),
    ensures
        c0 == c1,
{
}

/// A word is made of its four nibbles.
proof fn lemma_nibbles(c: u16)
    ensures
        c == 4096 * (c / 4096) + 256 * (c / 256 % 16) + 16 * (c / 16 % 16) + c % 16,
        c / 4096 < 16,
{
    assert(c == 4096 * (c / 4096) + 256 * (c / 256 % 16) + 16 * (c / 16 % 16) + c % 16 && c / 4096
        < 16) by (bit_vector);
}

/// Distinct packed colours unpack to distinct colours.
pub proof fn argb4444_is_injective(c0: u16, c1: u16)
    requires
        argb4444(c0) == argb4444(c1),
    ensures
        c0 == c1,
{
    lemma_nibbles(c0);
    lemma_nibbles(c1);
}

/// Every channel of a mix lies between the two channels that it was made from.
pub proof fn mixed_lies_between(c0: Rgba, c1: Rgba, w0: int, w1: int)
    requires
        0 <= w0,
        0 <= w1,
        0 < w0 + w1,
    ensures
        c0.r <= mixed(c0, c1, w0, w1).r <= c1.r || c1.r <= mixed(c0, c1, w0, w1).r <= c0.r,
        c0.g <= mixed(c0, c1, w0, w1).g <= c1.g || c1.g <= mixed(c0, c1, w0, w1).g <= c0.g,
        c0.b <= mixed(c0, c1, w0, w1).b <= c1.b || c1.b <= mixed(c0, c1, w0, w1).b <= c0.b,
{
    lemma_mix_bounds(c0.r, c1.r, w0, w1);
    lemma_mix_bounds(c0.g, c1.g, w0, w1);
    lemma_mix_bounds(c0.b, c1.b, w0, w1);
}

/// The colour of what was never written has no light and no alpha.
pub proof fn clear_is_nothing()
    ensures
        clear().r == 0,
        clear().g == 0,
        clear().b == 0,
        clear().a == 0,
{
}

/// The bits of a word of five, six and five bits.
proof fn lemma_565_bits(c: u16)
    ensures
        c == 2048 * (c / 2048) + 32 * (c / 32 % 64) + c % 32,
        c / 2048 < 32,
{
    assert(c == 2048 * (c / 2048) + 32 * (c / 32 % 64) + c % 32 && c / 2048 < 32) by (bit_vector);
}

/// A widened channel has its own bits on top and repeats the top ones of them below.
proof fn lemma_widened_bits(v5: int, v6: int)
    requires
        0 <= v5 < 32,
        0 <= v6 < 64,
    ensures
        0 <= widen5(v5) <= 255,
        widen5(v5) / 8 == v5,
        widen5(v5) % 8 == widen5(v5) / 32,
        0 <= widen6(v6) <= 255,
        widen6(v6) / 4 == v6,
        widen6(v6) % 4 == widen6(v6) / 64,
{
}

/// The top bits of the unpacked channels make up the packed word again: five of red, six of green,
/// five of blue. The low bits of each channel repeat its top bits, and alpha is full.
pub proof fn rgb565_packs_back(c: u16)
    ensures
        2048 * (rgb565(c).r as int / 8) + 32 * (rgb565(c).g as int / 4) + rgb565(c).b as int / 8
            == c,
        rgb565(c).r as int % 8 == rgb565(c).r as int / 32,
        rgb565(c).g as int % 4 == rgb565(c).g as int / 64,
        rgb565(c).b as int % 8 == rgb565(c).b as int / 32,
        rgb565(c).a == 255,
{
    lemma_565_bits(c);
    let v = c as int;
    lemma_widened_bits(v / 2048, v / 32 % 64);
    lemma_widened_bits(v % 32, v / 32 % 64);
}

/// The unpacked channels of a word of four nibbles are nibbles written twice, and the nibbles make
/// up the word again: alpha, red, green and blue from the top.
pub proof fn argb4444_packs_back(c: u16)
    ensures
        4096 * (argb4444(c).a as int / 16) + 256 * (argb4444(c).r as int / 16) + 16 * (argb4444(
            c,
        ).g as int / 16) + argb4444(c).b as int / 16 == c,
        argb4444(c).a as int % 16 == argb4444(c).a as int / 16,
        argb4444(c).r as int % 16 == argb4444(c).r as int / 16,
        argb4444(c).g as int % 16 == argb4444(c).g as int / 16,
        argb4444(c).b as int % 16 == argb4444(c).b as int / 16,
{
    lemma_nibbles(c);
}

/// A weighted mean, rounded down, is less than one below the exact one.
proof fn lemma_mix_is_mean(v0: u8, v1: u8, w0: int, w1: int)
    requires
        0 <= w0,
        0 <= w1,
        0 < w0 + w1,
    ensures
        0 <= mix(v0, v1, w0, w1) <= 255,
        mix(v0, v1, w0, w1) * (w0 + w1) <= v0 * w0 + v1 * w1,
        v0 * w0 + v1 * w1 < mix(v0, v1, w0, w1) * (w0 + w1) + (w0 + w1),
{
    lemma_mix_bounds(v0, v1, w0, w1);
    let s = v0 * w0 + v1 * w1;
    let m = mix(v0, v1, w0, w1);
    assert(m * (w0 + w1) <= s < m * (w0 + w1) + (w0 + w1)) by (nonlinear_arith)
        requires
            m == s / (w0 + w1),
            0 < w0 + w1,
    ;
}

/// The weights of a mix: each channel times both weights is at most what the two colours weigh, and
/// by less than the weights below it. The mix is opaque.
pub proof fn mixed_is_the_mean(c0: Rgba, c1: Rgba, w0: int, w1: int)
    requires
        0 <= w0,
        0 <= w1,
        0 < w0 + w1,
    ensures
        ({
            let m = mixed(c0, c1, w0, w1);
            &&& m.r * (w0 + w1) <= c0.r * w0 + c1.r * w1 < m.r * (w0 + w1) + (w0 + w1)
            &&& m.g * (w0 + w1) <= c0.g * w0 + c1.g * w1 < m.g * (w0 + w1) + (w0 + w1)
            &&& m.b * (w0 + w1) <= c0.b * w0 + c1.b * w1 < m.b * (w0 + w1) + (w0 + w1)
            &&& m.a == 255
        }),
{
    lemma_mix_is_mean(c0.r, c1.r, w0, w1);
    lemma_mix_is_mean(c0.g, c1.g, w0, w1);
    lemma_mix_is_mean(c0.b, c1.b, w0, w1);
}

} // verus!
