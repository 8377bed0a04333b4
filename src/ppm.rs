//! The plain-text PPM ("P3") image format.
//!
//! A file is the header `P3`, the width, the height and the largest channel
//! value 255, each on a line of its own, followed by one line `r g b` per
//! pixel, top row first and left to right within a row. Numbers are written
//! in decimal without leading zeros.
use vstd::prelude::*;

verus! {

/// The ASCII decimal digits of `n`, most significant first.
pub open spec fn decimal(n: nat) -> Seq<u8>
    decreases n,
{
    if n < 10 {
        seq![(48 + n) as u8]
    } else {
        decimal(n / 10).push((48 + n % 10) as u8)
    }
}

/// The header of an image of `width` by `height` pixels.
pub open spec fn header_bytes(width: nat, height: nat) -> Seq<u8> {
    seq![80u8, 51u8, 10u8] + decimal(width) + seq![10u8] + decimal(height) + seq![
        10u8,
        50u8,
        53u8,
        53u8,
        10u8,
    ]
}

/// The line of one pixel.
pub open spec fn pixel_bytes(p: (u64, u64, u64)) -> Seq<u8> {
    decimal(p.0 as nat) + seq![32u8] + decimal(p.1 as nat) + seq![32u8] + decimal(p.2 as nat)
        + seq![10u8]
}

/// The lines of a run of pixels, in order.
pub open spec fn pixels_bytes(ps: Seq<(u64, u64, u64)>) -> Seq<u8>
    decreases ps.len(),
{
    if ps.len() == 0 {
        Seq::empty()
    } else {
        pixels_bytes(ps.drop_last()) + pixel_bytes(ps.last())
    }
}

/// Appends the decimal digits of `n`.
pub fn push_decimal(out: &mut Vec<u8>, n: u64)
    ensures
        final(out)@ == old(out)@ + decimal(n as nat),
    decreases n,
{
    if n >= 10 {
        push_decimal(out, n / 10);
    }
    out.push((48 + n % 10) as u8);
    assert(final(out)@ =~= old(out)@ + decimal(n as nat));
}

/// The header of an image of `width` by `height` pixels.
pub fn ppm_header(width: u64, height: u64) -> (r: Vec<u8>)
    ensures
        r@ == header_bytes(width as nat, height as nat),
{
    let mut out: Vec<u8> = Vec::new();
    out.push(80u8);
    out.push(51u8);
    out.push(10u8);
    push_decimal(&mut out, width);
    out.push(10u8);
    push_decimal(&mut out, height);
    out.push(10u8);
    out.push(50u8);
    out.push(53u8);
    out.push(53u8);
    out.push(10u8);
    assert(out@ =~= header_bytes(width as nat, height as nat));
    out
}

/// Appends the line of one pixel with channels `r`, `g` and `b`.
pub fn push_pixel(out: &mut Vec<u8>, r: u64, g: u64, b: u64)
    ensures
        final(out)@ == old(out)@ + pixel_bytes((r, g, b)),
{
    push_decimal(out, r);
    out.push(32u8);
    push_decimal(out, g);
    out.push(32u8);
    push_decimal(out, b);
    out.push(10u8);
    assert(final(out)@ =~= old(out)@ + pixel_bytes((r, g, b)));
}

/// The whole file of an image of `width` by `height` pixels, given row by
/// row from the top. There is no such file when the number of pixels does
/// not match the size.
pub fn encode_ppm(width: u64, height: u64, pixels: &Vec<(u64, u64, u64)>) -> (r: Option<Vec<u8>>)
    ensures
        r is None <==> pixels@.len() != width * height,
        r matches Some(bytes) ==> bytes@ == header_bytes(width as nat, height as nat)
            + pixels_bytes(pixels@),
{
    assert(width as u128 * height as u128 <= u128::MAX) by (nonlinear_arith)
        requires
            width <= u64::MAX,
            height <= u64::MAX,
    ;
    let count: u128 = width as u128 * height as u128;
    if pixels.len() as u128 != count {
        return None;
    }
    let mut out = ppm_header(width, height);
    let mut i: usize = 0;
    while i < pixels.len()
        invariant
            0 <= i <= pixels@.len(),
            out@ == header_bytes(width as nat, height as nat) + pixels_bytes(pixels@.take(i as int)),
        decreases pixels.len() - i,
    {
        let (r, g, b) = pixels[i];
        push_pixel(&mut out, r, g, b);
        assert(pixels@.take(i + 1).drop_last() =~= pixels@.take(i as int));
        assert(out@ =~= header_bytes(width as nat, height as nat) + pixels_bytes(
            pixels@.take(i + 1),
        ));
        i += 1;
    }
    assert(pixels@.take(i as int) =~= pixels@);
    Some(out)
}

} // verus!
