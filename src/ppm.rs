//! The image file: plain-text PPM, a header with the magic line, the size and the
//! largest channel value, then one line per pixel. The kernel's row 0 is the
//! bottom of the image, so rows are written from the last to the first.
use vstd::prelude::*;

use crate::vector::{UVec2, UVec3};

verus! {

/// The pixel written at place `p` of the file, for an image of width `w`
/// and height `h`.
pub open spec fn file_index(w: int, h: int, p: int) -> int {
    (h - 1 - p / w) * w + p % w
}

/// The pixels in the order the file lists them.
pub fn file_order(pixels: &Vec<UVec3>, size: UVec2) -> (r: Vec<UVec3>)
    requires
        pixels@.len() == size.x * size.y,
    ensures
        r@ == Seq::new(
            (size.x * size.y) as nat,
            |p: int| pixels@[file_index(size.x as int, size.y as int, p)],
        ),
{
    let n = pixels.len();
    let w = size.x as usize;
    let h = size.y as usize;
    let ghost want = Seq::new(
        (size.x * size.y) as nat,
        |p: int| pixels@[file_index(size.x as int, size.y as int, p)],
    );
    let mut out: Vec<UVec3> = Vec::new();
    let mut row: usize = 0;
    while row < h
        invariant
            w == size.x,
            h == size.y,
            pixels@.len() == w * h,
            n == pixels@.len(),
            want == Seq::new(
                (size.x * size.y) as nat,
                |p: int| pixels@[file_index(size.x as int, size.y as int, p)],
            ),
            row <= h,
            out@.len() == row * w,
            forall|p: int| 0 <= p < out@.len() ==> #[trigger] out@[p] == want[p],
        decreases h - row,
    {
        let y = h - 1 - row;
        let mut x: usize = 0;
        while x < w
            invariant
                w == size.x,
                h == size.y,
                pixels@.len() == w * h,
                n == pixels@.len(),
                want == Seq::new(
                    (size.x * size.y) as nat,
                    |p: int| pixels@[file_index(size.x as int, size.y as int, p)],
                ),
                row < h,
                y == h - 1 - row,
                x <= w,
                out@.len() == row * w + x,
                forall|p: int| 0 <= p < out@.len() ==> #[trigger] out@[p] == want[p],
            decreases w - x,
        {
            proof {
                assert(y * w + x < w * h) by (nonlinear_arith)
                    requires y < h, x < w;
                assert(row * w + x < w * h) by (nonlinear_arith)
                    requires row < h, x < w;
                vstd::arithmetic::div_mod::lemma_fundamental_div_mod_converse(
                    row * w + x, w as int, row as int, x as int);
            }
            out.push(pixels[y * w + x]);
            x = x + 1;
        }
        proof {
            assert(row * w + w == (row + 1) * w) by (nonlinear_arith);
        }
        row = row + 1;
    }
    proof {
        assert(h * w == size.x * size.y) by (nonlinear_arith)
            requires h == size.y, w == size.x;
        assert(out@ =~= want);
    }
    out
}

/// The decimal digits of `n`, without leading zeros.
pub open spec fn decimal(n: nat) -> Seq<u8>
    decreases n,
{
    if n < 10 {
        seq![(48 + n) as u8]
    } else {
        decimal(n / 10) + seq![(48 + n % 10) as u8]
    }
}

/// The plain-text PPM magic line, the width and height, and 255, each on a line.
pub open spec fn header(size: UVec2) -> Seq<u8> {
    seq![80u8, 51u8, 10u8] + decimal(size.x as nat) + seq![32u8] + decimal(size.y as nat) + seq![
        10u8,
        50u8,
        53u8,
        53u8,
        10u8,
    ]
}

/// `r g b` and a line break.
pub open spec fn pixel_line(p: UVec3) -> Seq<u8> {
    decimal(p.x as nat) + seq![32u8] + decimal(p.y as nat) + seq![32u8] + decimal(p.z as nat) + seq![10u8]
}

pub open spec fn lines(ps: Seq<UVec3>) -> Seq<u8>
    decreases ps.len(),
{
    if ps.len() == 0 {
        Seq::empty()
    } else {
        lines(ps.drop_last()) + pixel_line(ps.last())
    }
}

/// The whole file for pixels laid out row by row from the bottom.
pub open spec fn ppm_spec(pixels: Seq<UVec3>, size: UVec2) -> Seq<u8> {
    header(size) + lines(
        Seq::new((size.x * size.y) as nat, |p: int| pixels[file_index(size.x as int, size.y as int, p)]),
    )
}

/// Appends the decimal digits of `n`.
pub fn push_decimal(out: &mut Vec<u8>, n: u32)
    ensures
        final(out)@ == old(out)@ + decimal(n as nat),
    decreases n,
{
    if n >= 10 {
        push_decimal(out, n / 10);
    }
    out.push((48 + n % 10) as u8);
    proof {
        if n < 10 {
            assert(n % 10 == n);
        }
        assert(out@ =~= old(out)@ + decimal(n as nat));
    }
}

/// Writes the image file for pixels laid out row by row from the bottom.
pub fn ppm(pixels: &Vec<UVec3>, size: UVec2) -> (r: Vec<u8>)
    requires
        pixels@.len() == size.x * size.y,
    ensures
        r@ == ppm_spec(pixels@, size),
{
    let mut out: Vec<u8> = Vec::new();
    out.push(80);
    out.push(51);
    out.push(10);
    push_decimal(&mut out, size.x);
    out.push(32);
    push_decimal(&mut out, size.y);
    out.push(10);
    out.push(50);
    out.push(53);
    out.push(53);
    out.push(10);
    assert(out@ =~= header(size));
    let ordered = file_order(pixels, size);
    let ghost hdr = out@;
    let mut i: usize = 0;
    while i < ordered.len()
        invariant
            i <= ordered@.len(),
            hdr == header(size),
            out@ == hdr + lines(ordered@.subrange(0, i as int)),
        decreases ordered@.len() - i,
    {
        let p = ordered[i];
        let ghost before = out@;
        push_decimal(&mut out, p.x);
        out.push(32);
        push_decimal(&mut out, p.y);
        out.push(32);
        push_decimal(&mut out, p.z);
        out.push(10);
        proof {
            assert(out@ =~= before + pixel_line(p));
            assert(ordered@.subrange(0, i + 1).drop_last() =~= ordered@.subrange(0, i as int));
            assert(out@ =~= hdr + lines(ordered@.subrange(0, i + 1)));
        }
        i = i + 1;
    }
    assert(ordered@.subrange(0, i as int) =~= ordered@);
    out
}

} // verus!
