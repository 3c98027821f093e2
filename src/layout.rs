//! Layout arithmetic of one GPU execution: how many workgroups cover an image,
//! how wide a row of the readback buffer is once aligned, and how the packed
//! pixels are recovered from that buffer.
use vstd::prelude::*;
use vstd::arithmetic::div_mod::{lemma_fundamental_div_mod, lemma_fundamental_div_mod_converse};

verus! {

/// Width of one compute workgroup tile, in invocations.
pub const WORKGROUP_SIZE_X: u32 = 16;

/// Height of one compute workgroup tile, in invocations.
pub const WORKGROUP_SIZE_Y: u32 = 16;

/// Byte alignment that a row of a texture-to-buffer copy must have.
pub const ROW_ALIGNMENT: u32 = 256;

/// Bytes in one RGBA pixel with 8 bits per channel.
pub const BYTES_PER_PIXEL: u32 = 4;

/// Largest width whose aligned row still fits in a `u32`.
pub const MAX_ROW_PIXELS: u32 = 0x3fff_ffc0;

/// The smallest multiple of `ROW_ALIGNMENT` that holds `width` pixels.
pub open spec fn padded_stride(width: int) -> int {
    ((width * 4 + 255) / 256) * 256
}

/// The smallest number of tiles of `tile` that covers `extent`.
pub open spec fn tiles_covering(extent: int, tile: int) -> int {
    (extent + tile - 1) / tile
}

/// Packed pixel bytes read out of a buffer whose rows are `stride` bytes apart:
/// byte `c` of row `r` is found at `r * stride + c`.
pub open spec fn unpadded(padded: Seq<u8>, row_bytes: int, stride: int, rows: int) -> Seq<u8> {
    Seq::new((row_bytes * rows) as nat, |i: int| padded[(i / row_bytes) * stride + i % row_bytes])
}

/// Byte `c` of row `r` of a buffer whose rows are `stride` bytes apart.
pub open spec fn row_byte(buf: Seq<u8>, stride: int, r: int, c: int) -> u8 {
    buf[r * stride + c]
}

/// Row stride of the readback buffer: `width * 4` rounded up to a multiple of 256.
pub fn padded_bytes_per_row(width: u32) -> (r: u32)
    requires
        width <= MAX_ROW_PIXELS,
    ensures
        r as int == padded_stride(width as int),
        r >= width * 4,
        r % 256 == 0,
        r < width * 4 + 256,
{
    let bytes_per_row: u32 = width * BYTES_PER_PIXEL;
    let padding: u32 = (ROW_ALIGNMENT - bytes_per_row % ROW_ALIGNMENT) % ROW_ALIGNMENT;
    let r: u32 = bytes_per_row + padding;
    proof {
        let b = bytes_per_row as int;
        let q = b / 256;
        let m = b % 256;
        lemma_fundamental_div_mod_converse(b, 256, q, m);
        if m == 0 {
            lemma_fundamental_div_mod_converse(b + 255, 256, q, 255);
        } else {
            lemma_fundamental_div_mod_converse(b + 255, 256, q + 1, m - 1);
        }
    }
    r
}

/// Number of workgroups of size `tile` needed to cover `extent` invocations.
pub fn workgroup_count(extent: u32, tile: u32) -> (r: u32)
    requires
        tile > 0,
    ensures
        r as int == tiles_covering(extent as int, tile as int),
        r * tile >= extent,
        r == 0 || (r - 1) * tile < extent,
{
    let q: u32 = extent / tile;
    let m: u32 = extent % tile;
    proof {
        lemma_fundamental_div_mod(extent as int, tile as int);
        assert(extent == q * tile + m) by (nonlinear_arith)
            requires extent == tile * q + m;
        assert(0 <= m < tile);
        if m == 0 {
            lemma_fundamental_div_mod_converse(extent + tile - 1, tile as int, q as int, tile - 1);
        } else {
            assert((q + 1) * tile == q * tile + tile) by (nonlinear_arith);
            lemma_fundamental_div_mod_converse(extent + tile - 1, tile as int, q + 1, m - 1);
        }
        assert(q * tile <= extent) by (nonlinear_arith)
            requires extent == q * tile + m, m >= 0;
        assert((q - 1) * tile == q * tile - tile) by (nonlinear_arith);
        if m > 0 {
            assert(2 * q <= extent) by (nonlinear_arith)
                requires q * tile <= extent, tile >= 2, q >= 0;
        }
    }
    if m == 0 {
        q
    } else {
        assert((q + 1) * tile == q * tile + tile) by (nonlinear_arith);
        q + 1
    }
}

/// Workgroups dispatched for an image, in x and in y: every pixel is covered
/// by the 16 by 16 tiles.
pub fn dispatch_size(width: u32, height: u32) -> (r: (u32, u32))
    ensures
        r.0 as int == tiles_covering(width as int, 16),
        r.1 as int == tiles_covering(height as int, 16),
        r.0 * 16 >= width,
        r.1 * 16 >= height,
        r.0 == 0 || (r.0 - 1) * 16 < width,
        r.1 == 0 || (r.1 - 1) * 16 < height,
{
    (workgroup_count(width, WORKGROUP_SIZE_X), workgroup_count(height, WORKGROUP_SIZE_Y))
}

/// Recovers the tightly packed pixel bytes of a `width` by `height` image from a
/// readback buffer whose rows are `padded_bytes_per_row(width)` bytes apart.
pub fn strip_padding(padded: &[u8], width: u32, height: u32) -> (r: Vec<u8>)
    requires
        width <= MAX_ROW_PIXELS,
        padded@.len() == padded_stride(width as int) * height,
    ensures
        r@ == unpadded(padded@, width * 4, padded_stride(width as int), height as int),
        r@.len() == width * 4 * height,
{
    let stride: u32 = padded_bytes_per_row(width);
    let row_bytes: u32 = width * BYTES_PER_PIXEL;
    let ghost s = stride as int;
    let ghost w4 = row_bytes as int;
    let total: usize = padded.len();
    let mut out: Vec<u8> = Vec::new();
    let mut row: u32 = 0;
    let mut base: usize = 0;
    while row < height
        invariant
            row <= height,
            s == padded_stride(width as int),
            w4 == width * 4,
            w4 == row_bytes,
            s == stride,
            total == padded@.len(),
            s >= w4,
            padded@.len() == s * height,
            base == row * s,
            out@.len() == row * w4,
            forall|i: int| 0 <= i < out@.len() ==> out@[i] == padded@[(i / w4) * s + i % w4],
        decreases height - row,
    {
        assert((row + 1) * s <= height * s) by (nonlinear_arith)
            requires row + 1 <= height, s >= 0;
        assert((row + 1) * s == row * s + s) by (nonlinear_arith);
        let mut col: u32 = 0;
        while col < row_bytes
            invariant
                row < height,
                col <= row_bytes,
                s == padded_stride(width as int),
                w4 == row_bytes,
                s == stride,
                total == padded@.len(),
                s >= w4,
                padded@.len() == s * height,
                base == row * s,
                base + s <= padded@.len(),
                out@.len() == row * w4 + col,
                forall|i: int| 0 <= i < out@.len() ==> out@[i] == padded@[(i / w4) * s + i % w4],
            decreases row_bytes - col,
        {
            let ghost i = out@.len() as int;
            out.push(padded[base + col as usize]);
            proof {
                lemma_fundamental_div_mod_converse(i, w4, row as int, col as int);
            }
            col += 1;
        }
        base = base + stride as usize;
        row += 1;
        assert(out@.len() == row * w4) by (nonlinear_arith)
            requires out@.len() == (row - 1) * w4 + w4;
    }
    assert(out@.len() == w4 * height) by (nonlinear_arith)
        requires out@.len() == height * w4;
    assert(out@ =~= unpadded(padded@, width * 4, padded_stride(width as int), height as int));
    out
}

/// Stripping restores the packed pixels exactly: from any buffer of `height`
/// rows laid `padded_stride(width)` bytes apart, each starting with the
/// `width * 4` bytes of that row of the image, whatever its padding bytes hold.
pub proof fn lemma_strip_padding_restores_pixels(pixels: Seq<u8>, padded: Seq<u8>, width: u32, height: u32)
    requires
        pixels.len() == width * 4 * height,
        padded.len() == padded_stride(width as int) * height,
        forall|r: int, c: int| 0 <= r < height && 0 <= c < width * 4
            ==> #[trigger] row_byte(padded, padded_stride(width as int), r, c)
                == row_byte(pixels, width * 4, r, c),
    ensures
        unpadded(padded, width * 4, padded_stride(width as int), height as int) == pixels,
{
    let w4 = width * 4;
    let s = padded_stride(width as int);
    let u = unpadded(padded, w4, s, height as int);
    assert forall|i: int| 0 <= i < pixels.len() implies u[i] == pixels[i] by {
        let r = i / w4;
        let c = i % w4;
        lemma_fundamental_div_mod(i, w4);
        assert(i == r * w4 + c) by (nonlinear_arith)
            requires i == w4 * r + c;
        assert(r < height) by (nonlinear_arith)
            requires i == r * w4 + c, c >= 0, i < w4 * height, w4 > 0;
        assert(row_byte(padded, s, r, c) == row_byte(pixels, w4, r, c));
    }
    assert(u =~= pixels);
}

} // verus!
