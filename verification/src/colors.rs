//! Pixel output: averages an accumulated color over its sample count,
//! applies the square-root gamma transform, quantizes to bytes and writes
//! one plain-text line of three decimal integers.
use vstd::prelude::*;

use crate::fx::{Fx, fclamp, fdiv, fsqrt, lemma_sqrt_floor_unique, lemma_tdiv_mag, sabs};
use crate::vec3::{Color, vbounded};

verus! {

/// The decimal digits of a nonnegative integer, as ASCII bytes.
pub open spec fn dec_spec(n: int) -> Seq<u8>
    decreases n,
{
    if n < 10 {
        seq![(48 + n) as u8]
    } else {
        dec_spec(n / 10) + seq![(48 + n % 10) as u8]
    }
}

/// Appends the decimal digits of `n`.
pub fn push_dec(w: &mut Vec<u8>, n: u64)
    ensures
        final(w)@ == old(w)@ + dec_spec(n as int),
    decreases n,
{
    if n < 10 {
        w.push((48 + n) as u8);
    } else {
        push_dec(w, n / 10);
        let d = n % 10;
        w.push((48 + d) as u8);
    }
}

/// The displayed byte of one accumulated channel: average over the sample
/// count, gamma-correct by square root, scale by 256 under the 0.999
/// ceiling. A negative average quantizes to zero.
pub open spec fn pixel_byte(ch: int, spp: int) -> int {
    let scaled = fdiv(ch, spp * 65536);
    if scaled < 0 {
        0
    } else {
        let g = fsqrt(scaled);
        let cl = fclamp(g, 0, 65470);
        256 * cl / 65536
    }
}

/// The output line of one pixel: three space-separated bytes in decimal
/// and a newline.
pub open spec fn color_line(c: crate::vec3::V3, spp: int) -> Seq<u8> {
    dec_spec(pixel_byte(c.x, spp)) + seq![32u8] + dec_spec(pixel_byte(c.y, spp)) + seq![32u8]
        + dec_spec(pixel_byte(c.z, spp)) + seq![10u8]
}

/// The gamma-corrected byte of one channel.
fn channel_byte(ch: Fx, samples_per_pixel: usize) -> (b: u8)
    requires
        1 <= samples_per_pixel <= 0x8000_0000,
        sabs(ch.0 as int) <= 0x4000_0000_0000,
    ensures
        b as int == pixel_byte(ch.0 as int, samples_per_pixel as int),
{
    let spp = Fx((samples_per_pixel as i64) * 65536);
    let scaled = ch.div(spp);
    if scaled.0 < 0 {
        return 0u8;
    }
    let g = scaled.sqrt();
    let cl = g.min(Fx(65470));
    proof {
        lemma_tdiv_mag(256 * cl.0 as int, 65536);
        assert(256 * cl.0 / 65536 == (256 * cl.0 as int) / 65536);
    }
    let wide: i64 = 256 * cl.0;
    let q: i64 = (wide as u64 / 65536) as i64;
    proof {
        vstd::arithmetic::div_mod::lemma_div_is_ordered(256 * cl.0 as int, (256 * 65470) as int, 65536);
    }
    q as u8
}

/// Writes one pixel's color line: each channel averaged over the sample
/// count, gamma-corrected, quantized and printed in decimal.
pub fn write_color_to_writer(writer: &mut Vec<u8>, pixel_color: Color, samples_per_pixel: usize)
    requires
        1 <= samples_per_pixel <= 0x8000_0000,
        vbounded(pixel_color@, 0x4000_0000_0000),
    ensures
        final(writer)@ == old(writer)@ + color_line(pixel_color@, samples_per_pixel as int),
{
    let bx = channel_byte(pixel_color.x, samples_per_pixel);
    let by = channel_byte(pixel_color.y, samples_per_pixel);
    let bz = channel_byte(pixel_color.z, samples_per_pixel);
    push_dec(writer, bx as u64);
    writer.push(32u8);
    push_dec(writer, by as u64);
    writer.push(32u8);
    push_dec(writer, bz as u64);
    writer.push(10u8);
}

/// A pixel whose accumulator holds exactly the sample count in every
/// channel averages to one, and the gamma transform and quantization send
/// it to the full byte 255.
pub proof fn lemma_unit_pixel(spp: int)
    requires
        1 <= spp,
    ensures
        pixel_byte(spp * 65536, spp) == 255,
{
    let denom = spp * 65536;
    assert(denom >= 65536) by (nonlinear_arith)
        requires
            spp >= 1,
            denom == spp * 65536;
    assert(fdiv(denom, denom) == 65536) by {
        assert(denom * 65536 == 65536 * denom) by (nonlinear_arith)
            requires
                denom == denom;
        vstd::arithmetic::div_mod::lemma_div_multiples_vanish(65536, denom);
        assert(sabs(denom * 65536) / sabs(denom) == 65536);
    }
    assert(fsqrt(65536) == 65536) by {
        lemma_sqrt_floor_unique((65536 * 65536) as int, 65536);
    }
    assert(fclamp(65536, 0, 65470) == 65470);
    assert(256 * 65470 / 65536 == 255);
}

} // verus!
