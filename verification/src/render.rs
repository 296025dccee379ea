use vstd::prelude::*;
use vstd::pervasive::unreached;
use crate::grid::Grid;

verus! {

/// An RGBA raster image, held opaquely: image's pixel buffer carried
/// through to the caller, who persists or displays it.
#[verifier::external_body]
pub struct RasterImage {
    pub buffer: image::ImageBuffer<image::Rgba<u8>, Vec<u8>>,
}

/// What image::ImageBuffer::from_raw builds from the given dimensions and
/// raw RGBA bytes: a value depending on those arguments alone.
pub uninterp spec fn image_from_raw(width: u32, height: u32, bytes: Seq<u8>) -> RasterImage;

/// Relies on image::ImageBuffer::from_raw: for 4-channel RGBA pixels over
/// u8 it returns Some exactly when the buffer holds at least
/// 4 * width * height bytes (a product too large for usize can never be
/// covered, so it then yields None), and what it builds is a function of
/// its arguments alone.
#[verifier::external_body]
fn build_image(width: u32, height: u32, bytes: Vec<u8>) -> (r: Option<RasterImage>)
    ensures
        r is Some <==> 4 * (width as int) * (height as int) <= bytes@.len(),
        r is Some ==> r.unwrap() == image_from_raw(width, height, bytes@),
{
    match image::ImageBuffer::from_raw(width, height, bytes) {
        Some(buffer) => Some(RasterImage { buffer }),
        None => None,
    }
}

/// Floor scaling from an output pixel index to a cell index: the quotient
/// `pixel * cells / size`, clamped at the high edge so it never passes
/// `cells - 1`. For a nonnegative pixel the quotient is nonnegative, so no
/// clamp is needed at zero.
pub open spec fn spec_scaled_index(pixel: int, size: int, cells: int) -> int {
    let scaled = pixel * cells / size;
    if scaled <= cells - 1 {
        scaled
    } else {
        cells - 1
    }
}

/// Maps an output pixel coordinate to the index of the cell whose region
/// covers it, by floor scaling clamped at the high edge.
pub fn scaled_index(pixel: u32, size: u32, cells: usize) -> (i: usize)
    requires
        1 <= size,
        1 <= cells,
        cells < 0x1_0000_0000,
    ensures
        i == spec_scaled_index(pixel as int, size as int, cells as int),
        i < cells,
{
    proof {
        assert((pixel as int) * (cells as int) < 0x1_0000_0000 * 0x1_0000_0000)
            by (nonlinear_arith)
            requires
                0 <= (pixel as int),
                (pixel as int) < 0x1_0000_0000,
                0 <= (cells as int),
                (cells as int) < 0x1_0000_0000,
        ;
    }
    let scaled: u64 = (pixel as u64) * (cells as u64) / (size as u64);
    if scaled <= (cells - 1) as u64 {
        scaled as usize
    } else {
        cells - 1
    }
}

/// The byte at offset k of a pixel's RGBA quadruple: live cells are drawn
/// in one fixed color (63, 3, 3, 255) and dead cells in another
/// (0, 0, 0, 255).
pub open spec fn color_byte(alive: bool, k: int) -> u8 {
    if alive {
        if k == 0 {
            63u8
        } else if k == 1 {
            3u8
        } else if k == 2 {
            3u8
        } else {
            255u8
        }
    } else {
        if k == 3 {
            255u8
        } else {
            0u8
        }
    }
}

/// The state shown at output pixel (x, y): the cell whose region covers
/// the pixel under floor scaling of both coordinates.
pub open spec fn pixel_cell(g: Grid, x: int, y: int, image_width: int, image_height: int) -> bool {
    g.cell(
        spec_scaled_index(y, image_height, g.height as int),
        spec_scaled_index(x, image_width, g.width as int),
    )
}

/// The byte at offset k of the RGBA quadruple for output pixel (x, y).
pub open spec fn pixel_byte(
    g: Grid,
    x: int,
    y: int,
    k: int,
    image_width: int,
    image_height: int,
) -> u8 {
    color_byte(pixel_cell(g, x, y, image_width, image_height), k)
}

/// The whole raw RGBA buffer for a board at the given output dimensions:
/// row-major pixels, 4 bytes each.
pub open spec fn rendered_bytes(g: Grid, image_width: int, image_height: int) -> Seq<u8> {
    Seq::new(
        (4 * image_width * image_height) as nat,
        |j: int|
            pixel_byte(g, (j / 4) % image_width, (j / 4) / image_width, j % 4, image_width,
                image_height),
    )
}

/// Renders the board to a raw RGBA byte buffer of the given output
/// dimensions. The buffer must fit in memory; beyond that, every byte is
/// pinned down: pixel (x, y) shows the color of the cell covering it.
pub fn render_rgba(grid: &Grid, image_width: u32, image_height: u32) -> (bytes: Vec<u8>)
    requires
        grid.wf(),
        1 <= image_width,
        1 <= image_height,
        grid.width < 0x1_0000_0000,
        grid.height < 0x1_0000_0000,
        4 * (image_width as int) * (image_height as int) <= usize::MAX,
    ensures
        bytes@.len() == 4 * (image_width as int) * (image_height as int),
        forall|x: int, y: int, k: int|
            0 <= x < image_width && 0 <= y < image_height && 0 <= k < 4
                ==> bytes@[4 * (y * (image_width as int) + x) + k]
                    == #[trigger] pixel_byte(*grid, x, y, k, image_width as int,
                        image_height as int),
        bytes@ == rendered_bytes(*grid, image_width as int, image_height as int),
{
    let ghost w = image_width as int;
    let ghost h = image_height as int;
    let mut bytes: Vec<u8> = Vec::new();
    let mut y: u32 = 0;
    while y < image_height
        invariant
            grid.wf(),
            1 <= image_width,
            1 <= image_height,
            grid.width < 0x1_0000_0000,
            grid.height < 0x1_0000_0000,
            w == image_width as int,
            h == image_height as int,
            y <= image_height,
            bytes@.len() == 4 * ((y as int) * w),
            forall|xx: int, yy: int, kk: int|
                0 <= xx < w && 0 <= yy < y && 0 <= kk < 4
                    ==> bytes@[4 * (yy * w + xx) + kk]
                        == #[trigger] pixel_byte(*grid, xx, yy, kk, w, h),
        decreases image_height - y,
    {
        let mut x: u32 = 0;
        while x < image_width
            invariant
                grid.wf(),
                1 <= image_width,
                1 <= image_height,
                grid.width < 0x1_0000_0000,
                grid.height < 0x1_0000_0000,
                w == image_width as int,
                h == image_height as int,
                y < image_height,
                x <= image_width,
                bytes@.len() == 4 * ((y as int) * w + (x as int)),
                forall|xx: int, yy: int, kk: int|
                    0 <= xx < w && 0 <= yy < y && 0 <= kk < 4
                        ==> bytes@[4 * (yy * w + xx) + kk]
                            == #[trigger] pixel_byte(*grid, xx, yy, kk, w, h),
                forall|xx: int, kk: int|
                    0 <= xx < x && 0 <= kk < 4
                        ==> bytes@[4 * ((y as int) * w + xx) + kk]
                            == #[trigger] pixel_byte(*grid, xx, y as int, kk, w, h),
            decreases image_width - x,
        {
            let ghost old_bytes = bytes@;
            let gy = scaled_index(y, image_height, grid.height);
            let gx = scaled_index(x, image_width, grid.width);
            let alive = grid.get(gy, gx);
            if alive {
                bytes.push(63);
                bytes.push(3);
                bytes.push(3);
                bytes.push(255);
            } else {
                bytes.push(0);
                bytes.push(0);
                bytes.push(0);
                bytes.push(255);
            }
            proof {
                let xi = x as int;
                let yi = y as int;
                let l = 4 * (yi * w + xi);
                assert(bytes@.len() == l + 4);
                assert(pixel_cell(*grid, xi, yi, w, h) == alive);
                assert forall|xx: int, yy: int, kk: int|
                    0 <= xx < w && 0 <= yy < yi && 0 <= kk < 4
                        implies bytes@[4 * (yy * w + xx) + kk]
                            == #[trigger] pixel_byte(*grid, xx, yy, kk, w, h) by {
                    assert(yy * w + xx < yi * w) by (nonlinear_arith)
                        requires
                            0 <= xx < w,
                            0 <= yy,
                            yy < yi,
                    ;
                    assert(bytes@[4 * (yy * w + xx) + kk] == old_bytes[4 * (yy * w + xx) + kk]);
                }
                assert forall|xx: int, kk: int|
                    0 <= xx < xi + 1 && 0 <= kk < 4
                        implies bytes@[4 * (yi * w + xx) + kk]
                            == #[trigger] pixel_byte(*grid, xx, yi, kk, w, h) by {
                    if xx < xi {
                        assert(bytes@[4 * (yi * w + xx) + kk] == old_bytes[4 * (yi * w + xx) + kk]);
                    } else {
                        assert(bytes@[l + kk] == color_byte(alive, kk));
                    }
                }
            }
            x = x + 1;
        }
        proof {
            let yi = y as int;
            assert forall|xx: int, yy: int, kk: int|
                0 <= xx < w && 0 <= yy < yi + 1 && 0 <= kk < 4
                    implies bytes@[4 * (yy * w + xx) + kk]
                        == #[trigger] pixel_byte(*grid, xx, yy, kk, w, h) by {
            }
            assert(4 * (yi * w + w) == 4 * ((yi + 1) * w)) by (nonlinear_arith);
        }
        y = y + 1;
    }
    proof {
        let expected = rendered_bytes(*grid, w, h);
        assert(bytes@.len() == 4 * (h * w));
        assert(4 * (h * w) == 4 * w * h && 4 * w * h == 4 * (w * h)) by (nonlinear_arith);
        assert(4 * w * h >= 0);
        assert(bytes@.len() == expected.len());
        assert forall|j: int| 0 <= j < bytes@.len() implies bytes@[j] == expected[j] by {
            assert(j < 4 * (w * h));
            let p = j / 4;
            let k = j % 4;
            let x = p % w;
            let yy = p / w;
            vstd::arithmetic::div_mod::lemma_fundamental_div_mod(j, 4);
            vstd::arithmetic::div_mod::lemma_mod_bound(j, 4);
            vstd::arithmetic::div_mod::lemma_div_pos_is_pos(j, 4);
            vstd::arithmetic::div_mod::lemma_multiply_divide_lt(j, 4, w * h);
            vstd::arithmetic::div_mod::lemma_fundamental_div_mod(p, w);
            vstd::arithmetic::div_mod::lemma_mod_bound(p, w);
            vstd::arithmetic::div_mod::lemma_div_pos_is_pos(p, w);
            vstd::arithmetic::div_mod::lemma_multiply_divide_lt(p, w, h);
            assert(j == 4 * (yy * w + x) + k) by (nonlinear_arith)
                requires
                    j == 4 * p + k,
                    p == w * yy + x,
            ;
        }
        assert(bytes@ =~= expected);
    }
    bytes
}

/// One row of the board as display glyphs: the live glyph for a live cell,
/// the dead glyph for a dead one. This is the compute half of the terminal
/// dump; writing the line out is the caller's affair.
pub fn row_glyphs(grid: &Grid, row: usize, alive_glyph: char, dead_glyph: char) -> (line: Vec<
    char,
>)
    requires
        grid.wf(),
        (row as int) < grid.height,
    ensures
        line@.len() == grid.width,
        forall|c: int|
            0 <= c < grid.width
                ==> line@[c] == (if grid.cell(row as int, c) {
                    alive_glyph
                } else {
                    dead_glyph
                }),
{
    let mut line: Vec<char> = Vec::new();
    let mut col: usize = 0;
    while col < grid.width
        invariant
            grid.wf(),
            row < grid.height,
            col <= grid.width,
            line@.len() == col,
            forall|c: int|
                0 <= c < col
                    ==> line@[c] == (if grid.cell(row as int, c) {
                        alive_glyph
                    } else {
                        dead_glyph
                    }),
        decreases grid.width - col,
    {
        if grid.get(row, col) {
            line.push(alive_glyph);
        } else {
            line.push(dead_glyph);
        }
        col = col + 1;
    }
    line
}

/// Renders the board to an RGBA raster image of the given output
/// dimensions: exactly the raster that image's `from_raw` builds from the
/// rendered byte buffer, in which each pixel takes the fixed live or dead
/// color of the cell whose region covers it.
pub fn generate_image(grid: &Grid, image_width: u32, image_height: u32) -> (img: RasterImage)
    requires
        grid.wf(),
        1 <= image_width,
        1 <= image_height,
        grid.width < 0x1_0000_0000,
        grid.height < 0x1_0000_0000,
        4 * (image_width as int) * (image_height as int) <= usize::MAX,
    ensures
        img == image_from_raw(
            image_width,
            image_height,
            rendered_bytes(*grid, image_width as int, image_height as int),
        ),
{
    let bytes = render_rgba(grid, image_width, image_height);
    let r = build_image(image_width, image_height, bytes);
    if let Some(img) = r {
        img
    } else {
        unreached()
    }
}

} // verus!
