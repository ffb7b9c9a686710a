//! Raster frames: a grid of colours blown up by an integer zoom into the
//! bytes of an RGBA image, row by row, four bytes a pixel.

use crate::color::Rgba;
use vstd::arithmetic::div_mod::lemma_fundamental_div_mod_converse;
use vstd::prelude::*;

verus! {

/// Channel `k` of `c`: red, green, blue, then alpha.
pub open spec fn channel(c: Rgba, k: int) -> u8 {
    if k == 0 {
        c.r
    } else if k == 1 {
        c.g
    } else if k == 2 {
        c.b
    } else {
        c.a
    }
}

/// Byte `k` of the image that shows `colors`, a grid `width` cells wide, each
/// cell drawn as a `zoom` by `zoom` square.
pub open spec fn frame_byte(colors: Seq<Rgba>, width: int, zoom: int, k: int) -> u8 {
    let row = width * zoom;
    let pixel = k / 4;
    let y = pixel / row;
    let x = pixel % row;
    channel(colors[(y / zoom) * width + x / zoom], k % 4)
}

/// The image byte for channel `c` of pixel `(x, y)` is that channel of the
/// cell the pixel falls in.
proof fn lemma_frame_byte_at(colors: Seq<Rgba>, width: int, zoom: int, y: int, x: int, c: int)
    requires
        width > 0,
        zoom > 0,
        0 <= y,
        0 <= x < width * zoom,
        0 <= c < 4,
    ensures
        frame_byte(colors, width, zoom, 4 * (y * (width * zoom) + x) + c) == channel(
            colors[(y / zoom) * width + x / zoom],
            c,
        ),
{
    let row = width * zoom;
    let pixel = y * row + x;
    lemma_fundamental_div_mod_converse(4 * pixel + c, 4, pixel, c);
    lemma_fundamental_div_mod_converse(pixel, row, y, x);
}

/// The source cell of pixel `(x, y)` lies inside the grid.
proof fn lemma_source_in_grid(width: int, height: int, zoom: int, y: int, x: int)
    requires
        width > 0,
        zoom > 0,
        0 <= y < height * zoom,
        0 <= x < width * zoom,
    ensures
        0 <= (y / zoom) * width + x / zoom < width * height,
{
    vstd::arithmetic::div_mod::lemma_div_pos_is_pos(y, zoom);
    vstd::arithmetic::div_mod::lemma_div_pos_is_pos(x, zoom);
    vstd::arithmetic::div_mod::lemma_div_is_ordered(y, height * zoom - 1, zoom);
    vstd::arithmetic::div_mod::lemma_div_is_ordered(x, width * zoom - 1, zoom);
    assert(height * zoom - 1 == (height - 1) * zoom + (zoom - 1) && width * zoom - 1 == (width
        - 1) * zoom + (zoom - 1)) by (nonlinear_arith);
    lemma_fundamental_div_mod_converse(height * zoom - 1, zoom, height - 1, zoom - 1);
    lemma_fundamental_div_mod_converse(width * zoom - 1, zoom, width - 1, zoom - 1);
    let a = y / zoom;
    let b = x / zoom;
    assert(0 <= a * width + b < width * height) by (nonlinear_arith)
        requires
            0 <= a <= height - 1,
            0 <= b <= width - 1,
            width > 0,
    ;
}

/// The RGBA bytes of the image that shows `colors`, a `width` by `height`
/// grid stored row by row, with each cell drawn as a `zoom` by `zoom`
/// square.
pub fn scale_frame(colors: &[Rgba], width: usize, height: usize, zoom: usize) -> (r: Vec<u8>)
    requires
        width > 0,
        height > 0,
        zoom > 0,
        colors@.len() == width * height,
        4 * (width * zoom) * (height * zoom) <= usize::MAX,
    ensures
        r@.len() == 4 * (width * zoom) * (height * zoom),
        forall|k: int|
            0 <= k < r@.len() ==> #[trigger] r@[k] == frame_byte(
                colors@,
                width as int,
                zoom as int,
                k,
            ),
{
    let ghost w = width as int;
    let ghost z = zoom as int;
    proof {
        assert(w * z <= 4 * (w * z) * (height * z) && height * z <= 4 * (w * z) * (height * z))
            by (nonlinear_arith)
            requires
                w > 0,
                z > 0,
                height > 0,
        ;
    }
    let n = colors.len();
    let row = width * zoom;
    let rows = height * zoom;
    let mut r: Vec<u8> = Vec::new();
    let mut y: usize = 0;
    while y < rows
        invariant
            row == w * z,
            rows == height * z,
            w == width,
            z == zoom,
            width > 0,
            zoom > 0,
            colors@.len() == width * height,
            n == colors@.len(),
            4 * row * rows <= usize::MAX,
            y <= rows,
            r@.len() == 4 * (y * row),
            forall|k: int|
                0 <= k < r@.len() ==> #[trigger] r@[k] == frame_byte(colors@, w, z, k),
        decreases rows - y,
    {
        let mut x: usize = 0;
        while x < row
            invariant
                row == w * z,
                rows == height * z,
                w == width,
                z == zoom,
                width > 0,
                zoom > 0,
                colors@.len() == width * height,
                n == colors@.len(),
                4 * row * rows <= usize::MAX,
                y < rows,
                x <= row,
                r@.len() == 4 * (y * row + x),
                forall|k: int|
                    0 <= k < r@.len() ==> #[trigger] r@[k] == frame_byte(colors@, w, z, k),
            decreases row - x,
        {
            proof {
                lemma_source_in_grid(w, height as int, z, y as int, x as int);
                assert(4 * (y * row + x) + 4 <= 4 * row * rows) by (nonlinear_arith)
                    requires
                        y < rows,
                        x < row,
                ;
            }
            let cell = colors[(y / zoom) * width + x / zoom];
            let ghost base = 4 * (y * row + x);
            proof {
                lemma_frame_byte_at(colors@, w, z, y as int, x as int, 0);
                lemma_frame_byte_at(colors@, w, z, y as int, x as int, 1);
                lemma_frame_byte_at(colors@, w, z, y as int, x as int, 2);
                lemma_frame_byte_at(colors@, w, z, y as int, x as int, 3);
            }
            r.push(cell.r);
            r.push(cell.g);
            r.push(cell.b);
            r.push(cell.a);
            assert forall|k: int| 0 <= k < r@.len() implies #[trigger] r@[k] == frame_byte(
                colors@,
                w,
                z,
                k,
            ) by {
                if k >= base {
                    assert(k == base + (k - base));
                }
            }
            x = x + 1;
        }
        assert(4 * (y * row + row) == 4 * ((y + 1) * row)) by (nonlinear_arith);
        y = y + 1;
    }
    assert(4 * (rows * row) == 4 * (width * zoom) * (height * zoom)) by (nonlinear_arith)
        requires
            row == width * zoom,
            rows == height * zoom,
    ;
    r
}

} // verus!
