//! The sizes of the three planes of a frame.

use vstd::prelude::*;
use crate::colorspace::{Colorspace, Subsampling};

verus! {

/// Half of `n`, rounded up.
pub open spec fn half_up(n: nat) -> nat {
    (n + 1) / 2
}

/// The sizes in bytes of the Y, U and V planes of a frame. The Y plane
/// holds one sample for each pixel. A chroma plane holds none for
/// grayscale; one for every two by two pixels, rounded up, for 4:2:0; one
/// for every two pixels of a row, rounded up, for 4:2:2; and one for each
/// pixel for 4:4:4.
pub open spec fn plane_sizes(width: nat, height: nat, colorspace: Colorspace) -> (nat, nat, nat) {
    let sample = colorspace.bytes_per_sample();
    let luma = width * height * sample;
    let chroma = match colorspace.subsampling() {
        Subsampling::Mono => 0,
        Subsampling::S420 => half_up(width) * half_up(height) * sample,
        Subsampling::S422 => half_up(width) * height * sample,
        Subsampling::S444 => luma,
    };
    (luma, chroma, chroma)
}

/// The size in bytes of a whole frame: its three planes together.
pub open spec fn frame_size(width: nat, height: nat, colorspace: Colorspace) -> nat {
    let (y_len, u_len, v_len) = plane_sizes(width, height, colorspace);
    y_len + u_len + v_len
}

/// A chroma plane is never larger than the luma plane, and a luma plane
/// holds at least one byte for each pixel.
pub proof fn lemma_plane_bounds(width: nat, height: nat, colorspace: Colorspace)
    ensures
        plane_sizes(width, height, colorspace).1 <= plane_sizes(width, height, colorspace).0,
        plane_sizes(width, height, colorspace).2 == plane_sizes(width, height, colorspace).1,
        width * height <= plane_sizes(width, height, colorspace).0,
        half_up(width) * half_up(height) <= half_up(width) * height <= width * height,
        plane_sizes(width, height, colorspace).0 <= frame_size(width, height, colorspace),
{
    let sample = colorspace.bytes_per_sample();
    let cw = half_up(width);
    let ch = half_up(height);
    assert(cw <= width && ch <= height);
    assert(cw * ch <= cw * height) by (nonlinear_arith)
        requires
            ch <= height,
    ;
    assert(cw * height <= width * height) by (nonlinear_arith)
        requires
            cw <= width,
    ;
    assert(width * height <= width * height * sample) by (nonlinear_arith)
        requires
            1 <= sample,
    ;
    assert(cw * ch * sample <= width * height * sample) by (nonlinear_arith)
        requires
            cw * ch <= width * height,
    ;
    assert(cw * height * sample <= width * height * sample) by (nonlinear_arith)
        requires
            cw * height <= width * height,
    ;
}

/// Half of `n`, rounded up, without overflow.
fn half_rounded_up(n: usize) -> (half: usize)
    ensures
        half == half_up(n as nat),
        half <= n,
{
    n / 2 + n % 2
}

/// Computes the sizes of the three planes of a frame that fits in memory.
pub fn get_plane_sizes(width: usize, height: usize, colorspace: Colorspace) -> (sizes: (
    usize,
    usize,
    usize,
))
    requires
        frame_size(width as nat, height as nat, colorspace) <= usize::MAX,
    ensures
        sizes.0 == plane_sizes(width as nat, height as nat, colorspace).0,
        sizes.1 == plane_sizes(width as nat, height as nat, colorspace).1,
        sizes.2 == plane_sizes(width as nat, height as nat, colorspace).2,
        sizes.0 + sizes.1 + sizes.2 == frame_size(width as nat, height as nat, colorspace),
{
    proof {
        lemma_plane_bounds(width as nat, height as nat, colorspace);
    }
    let sample: usize = colorspace.get_bytes_per_sample();
    let pixels: usize = width * height;
    let y_plane_size: usize = pixels * sample;
    let chroma_size: usize = match colorspace.get_subsampling() {
        Subsampling::Mono => 0,
        Subsampling::S420 => half_rounded_up(width) * half_rounded_up(height) * sample,
        Subsampling::S422 => half_rounded_up(width) * height * sample,
        Subsampling::S444 => y_plane_size,
    };
    (y_plane_size, chroma_size, chroma_size)
}

/// Computes the sizes of the three planes of a frame, or `None` where the
/// frame is too large for its size to be a `usize`.
pub fn checked_plane_sizes(width: usize, height: usize, colorspace: Colorspace) -> (sizes: Option<
    (usize, usize, usize),
>)
    ensures
        match sizes {
            Some(sizes) => {
                &&& frame_size(width as nat, height as nat, colorspace) <= usize::MAX
                &&& sizes.0 == plane_sizes(width as nat, height as nat, colorspace).0
                &&& sizes.1 == plane_sizes(width as nat, height as nat, colorspace).1
                &&& sizes.2 == plane_sizes(width as nat, height as nat, colorspace).2
            },
            None => frame_size(width as nat, height as nat, colorspace) > usize::MAX,
        },
{
    proof {
        lemma_plane_bounds(width as nat, height as nat, colorspace);
    }
    let sample: usize = colorspace.get_bytes_per_sample();
    let pixels: usize = match width.checked_mul(height) {
        Some(pixels) => pixels,
        None => {
            return None;
        },
    };
    let y_plane_size: usize = match pixels.checked_mul(sample) {
        Some(size) => size,
        None => {
            return None;
        },
    };
    let chroma_size: usize = match colorspace.get_subsampling() {
        Subsampling::Mono => 0,
        Subsampling::S420 => half_rounded_up(width) * half_rounded_up(height) * sample,
        Subsampling::S422 => half_rounded_up(width) * height * sample,
        Subsampling::S444 => y_plane_size,
    };
    let luma_and_u: usize = match y_plane_size.checked_add(chroma_size) {
        Some(sum) => sum,
        None => {
            return None;
        },
    };
    match luma_and_u.checked_add(chroma_size) {
        Some(_) => Some((y_plane_size, chroma_size, chroma_size)),
        None => None,
    }
}

} // verus!
