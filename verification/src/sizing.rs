//! Image dimensions and the memory an image takes.

use vstd::prelude::*;

verus! {

#[derive(Debug, Clone, Copy)]
pub struct ImageSize {
    pub width: u32,
    pub height: u32,
}

/// The bytes of an image at four bytes a pixel, capped at `u64::MAX`.
pub open spec fn rgba_bytes(size: ImageSize) -> int {
    if size.width * size.height * 4 > u64::MAX {
        u64::MAX as int
    } else {
        size.width * size.height * 4
    }
}

pub fn estimate_rgba_bytes(size: ImageSize) -> (bytes: u64)
    ensures
        bytes == rgba_bytes(size),
{
    assert(size.width * size.height <= 0xFFFF_FFFF * 0xFFFF_FFFF) by (nonlinear_arith)
        requires
            0 <= size.width <= 0xFFFF_FFFF,
            0 <= size.height <= 0xFFFF_FFFF,
    ;
    let pixels: u64 = (size.width as u64) * (size.height as u64);
    if pixels > u64::MAX / 4 {
        u64::MAX
    } else {
        pixels * 4
    }
}

/// The pixel count of a size, capped at `u32::MAX`.
pub open spec fn capped_pixels(size: ImageSize) -> int {
    if size.width * size.height > u32::MAX {
        u32::MAX as int
    } else {
        size.width * size.height
    }
}

/// Whether an image is left at its size under a pixel budget: it fits the
/// budget, or it has no pixels at all.
pub fn keeps_its_size(size: ImageSize, max_pixels: u32) -> (kept: bool)
    ensures
        kept == (capped_pixels(size) <= max_pixels || size.width == 0 || size.height == 0),
{
    let pixels: u32 = match size.width.checked_mul(size.height) {
        Some(p) => p,
        None => u32::MAX,
    };
    pixels <= max_pixels || size.width == 0 || size.height == 0
}

/// The largest image, in bytes at four bytes a pixel, for which the larger
/// model is allowed.
pub const LARGE_MODEL_BYTE_LIMIT: u64 = 67_108_864;

/// Whether an image is small enough for the larger model.
pub fn allows_large_model(width: u32, height: u32) -> (allowed: bool)
    ensures
        allowed == (rgba_bytes(ImageSize { width, height }) <= LARGE_MODEL_BYTE_LIMIT),
{
    estimate_rgba_bytes(ImageSize { width, height }) <= LARGE_MODEL_BYTE_LIMIT
}

} // verus!
