//! Test-card pixel patterns written into dumb buffers before presentation.
//!
//! Pixels are 32 bits, four bytes each, so byte `idx` of the buffer belongs
//! to color channel `idx % 4` of the pixel at linear index `idx / 4`. The
//! color-bar pattern paints six 100-column bars on the left of each row
//! and leaves every column from 600 on black.

use vstd::prelude::*;

verus! {

/// Byte `idx` of the vertical color-bar pattern for a row width of `width`
/// pixels: each channel of a pixel is full or zero depending on which
/// 100-column bar the pixel's column falls in.
pub open spec fn bar_byte(idx: int, width: int) -> u8
    recommends
        width > 0,
{
    let col = idx % 4;
    let x = (idx / 4) % width;
    if (col == 0 && x <= 99) || (col == 1 && 100 <= x && x <= 199) || (col == 2 && 200 <= x && x
        <= 299) || ((col == 0 || col == 1) && 300 <= x && x <= 399) || ((col == 1 || col == 2)
        && 400 <= x && x <= 499) || ((col == 0 || col == 2) && 500 <= x && x <= 599) {
        255
    } else {
        0
    }
}

/// Renders `len` bytes of the vertical color-bar pattern for rows of
/// `width` pixels.
pub fn color_bar_bytes(len: usize, width: usize) -> (r: Vec<u8>)
    requires
        width > 0,
    ensures
        r@.len() == len,
        forall|i: int| 0 <= i < len ==> r@[i] == bar_byte(i, width as int),
{
    let mut out: Vec<u8> = Vec::new();
    let mut idx: usize = 0;
    while idx < len
        invariant
            idx <= len,
            width > 0,
            out@.len() == idx,
            forall|i: int| 0 <= i < idx ==> out@[i] == bar_byte(i, width as int),
        decreases len - idx,
    {
        let col = idx % 4;
        let x = idx / 4 % width;
        let v: u8 = if (col == 0 && x <= 99) || (col == 1 && 100 <= x && x <= 199) || (col == 2
            && 200 <= x && x <= 299) || ((col == 0 || col == 1) && 300 <= x && x <= 399) || ((col
            == 1 || col == 2) && 400 <= x && x <= 499) || ((col == 0 || col == 2) && 500 <= x && x
            <= 599) {
            255
        } else {
            0
        };
        out.push(v);
        idx = idx + 1;
    }
    out
}

/// Renders `len` bytes all equal to `v`: a solid frame, e.g. white when
/// every channel is full.
pub fn solid_bytes(len: usize, v: u8) -> (r: Vec<u8>)
    ensures
        r@.len() == len,
        forall|i: int| 0 <= i < len ==> r@[i] == v,
{
    let mut out: Vec<u8> = Vec::new();
    let mut idx: usize = 0;
    while idx < len
        invariant
            idx <= len,
            out@.len() == idx,
            forall|i: int| 0 <= i < idx ==> out@[i] == v,
        decreases len - idx,
    {
        out.push(v);
        idx = idx + 1;
    }
    out
}

} // verus!
