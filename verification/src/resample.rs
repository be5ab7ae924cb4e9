//! Nearest-neighbour resampling.

use vstd::prelude::*;
use crate::pixels::{lemma_offset_inverse, lemma_offset_split, PixelBuffer, PixelGrid, Rgb};

verus! {

/// The source coordinate that target coordinate `pos` samples, along an axis
/// of `source` pixels resampled to `target` pixels:
/// `floor(pos * source / target)`.
pub open spec fn nearest(pos: int, source: nat, target: nat) -> int {
    pos * source / (target as int)
}

/// Whether a grid has no pixel.
pub open spec fn is_empty(pixels: PixelGrid) -> bool {
    pixels.width == 0 || pixels.height == 0
}

/// The source resampled to `width * height` pixels: target pixel `(x, y)` is
/// the source pixel at `(nearest(x), nearest(y))`. A source without pixels
/// has nothing to sample and gives black.
pub open spec fn resampled(source: PixelGrid, width: nat, height: nat) -> PixelGrid {
    PixelGrid {
        width,
        height,
        bytes: Seq::new(
            width * height * 3,
            |i: int|
                {
                    let x = (i / 3) % (width as int);
                    let y = (i / 3) / (width as int);
                    if is_empty(source) {
                        0u8
                    } else {
                        source.bytes[source.offset(
                            nearest(x, source.width, width),
                            nearest(y, source.height, height),
                        ) + i % 3]
                    }
                },
        ),
    }
}

/// A sampled coordinate lies on the source axis.
pub proof fn lemma_nearest_bounds(pos: int, source: nat, target: nat)
    requires
        0 <= pos < target,
    ensures
        0 <= nearest(pos, source, target),
        source > 0 ==> nearest(pos, source, target) < source,
        source == target ==> nearest(pos, source, target) == pos,
{
    let t = target as int;
    let s = source as int;
    assert(0 <= pos * s) by (nonlinear_arith)
        requires
            0 <= pos,
            0 <= s,
    ;
    vstd::arithmetic::div_mod::lemma_div_pos_is_pos(pos * s, t);
    if source > 0 {
        assert(pos * s < s * t) by (nonlinear_arith)
            requires
                0 <= pos < t,
                0 < s,
        ;
        assert(s * t == t * s) by (nonlinear_arith);
        vstd::arithmetic::div_mod::lemma_div_by_multiple_is_strongly_ordered(pos * s, s * t, s, t);
        vstd::arithmetic::div_mod::lemma_div_multiples_vanish(s, t);
    }
    if source == target {
        assert(pos * t == t * pos) by (nonlinear_arith);
        vstd::arithmetic::div_mod::lemma_div_multiples_vanish(pos, t);
    }
}

/// Each target pixel is the source pixel at the sampled coordinates.
pub proof fn lemma_resampled_pointwise(source: PixelGrid, width: nat, height: nat, x: int, y: int)
    requires
        0 <= x < width,
        0 <= y < height,
        !is_empty(source),
    ensures
        source.in_bounds(nearest(x, source.width, width), nearest(y, source.height, height)),
        resampled(source, width, height).pixel(x, y) == source.pixel(
            nearest(x, source.width, width),
            nearest(y, source.height, height),
        ),
{
    lemma_nearest_bounds(x, source.width, width);
    lemma_nearest_bounds(y, source.height, height);
    lemma_offset_split(width, height, x, y, 0);
    lemma_offset_split(width, height, x, y, 1);
    lemma_offset_split(width, height, x, y, 2);
}

/// Resampling to the source's own size copies it byte for byte.
pub proof fn lemma_resample_identity(source: PixelGrid)
    requires
        source.wf(),
    ensures
        resampled(source, source.width, source.height) == source,
{
    let out = resampled(source, source.width, source.height);
    assert forall|i: int| 0 <= i < source.bytes.len() implies out.bytes[i] == source.bytes[i] by {
        lemma_offset_inverse(source.width, source.height, i);
        let x = (i / 3) % (source.width as int);
        let y = (i / 3) / (source.width as int);
        lemma_nearest_bounds(x, source.width, source.width);
        lemma_nearest_bounds(y, source.height, source.height);
    }
    assert(out.bytes =~= source.bytes);
}

/// The source coordinate sampled by target coordinate `pos`.
fn nearest_index(pos: usize, source: usize, target: usize) -> (i: usize)
    requires
        pos < target,
        source > 0,
    ensures
        i == nearest(pos as int, source as nat, target as nat),
        i < source,
{
    proof {
        lemma_nearest_bounds(pos as int, source as nat, target as nat);
        assert(0 <= pos * source <= u128::MAX) by (nonlinear_arith)
            requires
                0 <= pos <= 0xffff_ffff_ffff_ffff,
                0 <= source <= 0xffff_ffff_ffff_ffff,
        ;
    }
    let scaled: u128 = (pos as u128) * (source as u128);
    (scaled / (target as u128)) as usize
}

/// A new buffer of exactly `width * height` pixels, each taken from the
/// source pixel nearest to it; no interpolation. Works in both directions,
/// shrinking and enlarging.
pub fn resample(source: &PixelBuffer, width: usize, height: usize) -> (out: PixelBuffer)
    requires
        source.wf(),
        width * height * 3 <= usize::MAX,
    ensures
        out.wf(),
        out@ == resampled(source@, width as nat, height as nat),
        out@.width == width,
        out@.height == height,
        out@.bytes.len() == width * height * 3,
        width == source@.width && height == source@.height ==> out@ == source@,
{
    proof {
        lemma_resample_identity(source@);
    }
    if source.width() == 0 || source.height() == 0 {
        let out = PixelBuffer::filled(width, height, Rgb::black());
        assert(out@.bytes =~= resampled(source@, width as nat, height as nat).bytes);
        return out;
    }
    assert(width * height <= width * height * 3) by (nonlinear_arith);
    let count: usize = width * height;
    let mut data: Vec<u8> = Vec::with_capacity(count * 3);
    let ghost target = resampled(source@, width as nat, height as nat);
    let mut y: usize = 0;
    while y < height
        invariant
            y <= height,
            source.wf(),
            !is_empty(source@),
            width * height * 3 <= usize::MAX,
            target == resampled(source@, width as nat, height as nat),
            data@.len() == y * width * 3,
            forall|i: int| 0 <= i < data@.len() ==> data@[i] == target.bytes[i],
        decreases height - y,
    {
        let sy = nearest_index(y, source.height(), height);
        let mut x: usize = 0;
        while x < width
            invariant
                x <= width,
                y < height,
                source.wf(),
                !is_empty(source@),
                width * height * 3 <= usize::MAX,
                sy == nearest(y as int, source@.height, height as nat),
                sy < source@.height,
                target == resampled(source@, width as nat, height as nat),
                data@.len() == (y * width + x) * 3,
                forall|i: int| 0 <= i < data@.len() ==> data@[i] == target.bytes[i],
            decreases width - x,
        {
            let sx = nearest_index(x, source.width(), width);
            let p = source.pixel_at(sx, sy);
            proof {
                lemma_offset_split(width as nat, height as nat, x as int, y as int, 0);
                lemma_offset_split(width as nat, height as nat, x as int, y as int, 1);
                lemma_offset_split(width as nat, height as nat, x as int, y as int, 2);
            }
            data.push(p.r);
            data.push(p.g);
            data.push(p.b);
            x += 1;
        }
        proof {
            assert((y * width + width) * 3 == (y + 1) * width * 3) by (nonlinear_arith);
        }
        y += 1;
    }
    proof {
        assert(height * width * 3 == width * height * 3) by (nonlinear_arith);
        assert(data@ =~= target.bytes);
    }
    PixelBuffer::from_raw(width, height, data).unwrap()
}

} // verus!
