//! What has to be settled before a frame is drawn, and how pixels are
//! addressed.
use vstd::prelude::*;

pub mod pre;

verus! {

/// `v` held to the largest 32-bit number.
pub open spec fn capped(v: int) -> int {
    if v > u32::MAX {
        u32::MAX as int
    } else {
        v
    }
}

/// Offset of the pixel at column `x` and row `y` in a buffer of rows
/// `width` pixels long with four bytes to the pixel. Every step of the
/// computation is held to the largest 32-bit number.
pub open spec fn pixel_offset(x: u32, y: u32, width: u32) -> int {
    capped(capped(capped(y * width) + x) * 4)
}

/// Offset, in bytes, of the pixel at column `x` and row `y` of a frame
/// `width` pixels wide.
pub fn row_major(x: u32, y: u32, width: u32) -> (offset: usize)
    ensures
        offset == pixel_offset(x, y, width),
{
    let cap: u64 = 0xffff_ffff;
    assert(y * width <= 0xffff_ffff * 0xffff_ffff) by (nonlinear_arith)
        requires
            y <= 0xffff_ffff,
            width <= 0xffff_ffff,
    ;
    let rows: u64 = (y as u64) * (width as u64);
    let rows: u64 = if rows > cap {
        cap
    } else {
        rows
    };
    let pixels: u64 = rows + x as u64;
    let pixels: u64 = if pixels > cap {
        cap
    } else {
        pixels
    };
    let bytes: u64 = pixels * 4;
    let bytes: u64 = if bytes > cap {
        cap
    } else {
        bytes
    };
    bytes as usize
}

} // verus!
