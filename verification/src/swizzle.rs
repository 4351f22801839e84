//! The tile encoder: rearranges a linear, row-major buffer into the graphics
//! processor's native layout of 16-byte by 8-row tiles.

use vstd::prelude::*;
use vstd::arithmetic::div_mod::lemma_fundamental_div_mod;
use vstd::arithmetic::div_mod::lemma_fundamental_div_mod_converse;

verus! {

/// Width of one tile, in bytes.
pub const TILE_WIDTH: usize = 16;

/// Height of one tile, in rows.
pub const TILE_HEIGHT: usize = 8;

/// Size of one tile, in bytes.
pub const TILE_BYTES: usize = 128;

/// Bytes that one pixel takes in the canonical format.
pub const BYTES_PER_PIXEL: usize = 4;

/// Whether a buffer of `len` bytes, `row_bytes` to a row, can be cut into
/// whole tiles.
pub open spec fn tileable(len: int, row_bytes: int, height: int) -> bool {
    &&& 0 <= row_bytes
    &&& 0 <= height
    &&& row_bytes % 16 == 0
    &&& height % 8 == 0
    &&& len == row_bytes * height
}

/// Where in the linear buffer the byte at position `i` of the tiled buffer
/// comes from. Tiles follow each other left to right, then top to bottom;
/// inside a tile the eight rows of sixteen bytes follow each other.
pub open spec fn linear_index(i: int, row_bytes: int) -> int {
    let columns = row_bytes / 16;
    let tile = i / 128;
    let inner = i % 128;
    ((tile / columns) * 8 + inner / 16) * row_bytes + (tile % columns) * 16 + inner % 16
}

/// Where in the tiled buffer the byte at position `j` of the linear buffer
/// goes: the inverse of `linear_index`.
pub open spec fn tiled_index(j: int, row_bytes: int) -> int {
    let columns = row_bytes / 16;
    let row = j / row_bytes;
    let column = j % row_bytes;
    ((row / 8) * columns + column / 16) * 128 + (row % 8) * 16 + column % 16
}

/// The tiled form of a linear buffer.
pub open spec fn tiled(linear: Seq<u8>, row_bytes: int) -> Seq<u8> {
    Seq::new(linear.len(), |i: int| linear[linear_index(i, row_bytes)])
}

/// The linear form of a tiled buffer.
pub open spec fn untiled(tiles: Seq<u8>, row_bytes: int) -> Seq<u8> {
    Seq::new(tiles.len(), |j: int| tiles[tiled_index(j, row_bytes)])
}

/// Byte `c` of row `a` lies inside an image of `h` rows of `w` bytes, and
/// the next row starts `w` bytes on.
pub(crate) proof fn lemma_offset_in_bounds(a: int, h: int, c: int, w: int)
    by (nonlinear_arith)
    requires
        0 <= a < h,
        0 <= c < w,
    ensures
        0 <= a * w,
        0 <= a * w + c < h * w,
        h * w == w * h,
        (a + 1) * w == a * w + w,
{
}

/// The byte that lies `b` bytes into row `r` of the tile in tile row `ty`
/// and tile column `tx` comes from row `ty * 8 + r` of the linear buffer,
/// `tx * 16 + b` bytes in.
proof fn lemma_linear_index_of_parts(ty: int, tx: int, r: int, b: int, columns: int)
    requires
        0 <= ty,
        0 <= tx < columns,
        0 <= r < 8,
        0 <= b < 16,
    ensures
        linear_index(((ty * columns + tx) * 8 + r) * 16 + b, columns * 16) == (ty * 8 + r) * (
        columns * 16) + tx * 16 + b,
{
    let i = ((ty * columns + tx) * 8 + r) * 16 + b;
    let tile = ty * columns + tx;
    assert(i == tile * 128 + (r * 16 + b));
    lemma_fundamental_div_mod_converse(i, 128, tile, r * 16 + b);
    lemma_fundamental_div_mod_converse(tile, columns, ty, tx);
    assert((columns * 16) / 16 == columns);
}

proof fn lemma_next_tile_row(ty: int, columns: int)
    by (nonlinear_arith)
    ensures
        (ty + 1) * columns == ty * columns + columns,
{
}

/// Rearranges a padded, linear image into tiles.
///
/// The image has `pitch` pixels (so `pitch * 4` bytes) to a row and `height`
/// rows. Its rows must fill whole tiles: a row is a multiple of 16 bytes long
/// and the number of rows is a multiple of 8.
pub fn swizzle(pitch: usize, height: usize, padded: &[u8]) -> (tiles: Vec<u8>)
    requires
        tileable(padded@.len() as int, pitch * 4, height as int),
    ensures
        tiles@ == tiled(padded@, pitch * 4),
{
    if padded.len() == 0 {
        let tiles: Vec<u8> = Vec::new();
        assert(tiles@ =~= tiled(padded@, pitch * 4));
        return tiles;
    }
    assert(height >= 1 && pitch * 4 <= padded@.len()) by (nonlinear_arith)
        requires
            padded@.len() == (pitch * 4) * height,
            padded@.len() > 0,
    ;
    let row_bytes: usize = pitch * BYTES_PER_PIXEL;
    let columns: usize = row_bytes / TILE_WIDTH;
    let tile_rows: usize = height / TILE_HEIGHT;
    let mut tiles: Vec<u8> = Vec::with_capacity(padded.len());
    let mut ty: usize = 0;
    while ty < tile_rows
        invariant
            ty <= tile_rows,
            columns * 16 == row_bytes,
            tile_rows * 8 == height,
            padded@.len() == row_bytes * height <= usize::MAX,
            tiles@.len() == (ty * columns) * 128,
            forall|k: int|
                0 <= k < tiles@.len() ==> tiles@[k] == padded@[linear_index(k, row_bytes as int)],
        decreases tile_rows - ty,
    {
        let mut tx: usize = 0;
        while tx < columns
            invariant
                ty < tile_rows,
                tx <= columns,
                columns * 16 == row_bytes,
                tile_rows * 8 == height,
                padded@.len() == row_bytes * height <= usize::MAX,
                tiles@.len() == (ty * columns + tx) * 128,
                forall|k: int|
                    0 <= k < tiles@.len() ==> tiles@[k] == padded@[linear_index(
                        k,
                        row_bytes as int,
                    )],
            decreases columns - tx,
        {
            let mut r: usize = 0;
            while r < TILE_HEIGHT
                invariant
                    ty < tile_rows,
                    tx < columns,
                    r <= 8,
                    columns * 16 == row_bytes,
                    tile_rows * 8 == height,
                    padded@.len() == row_bytes * height <= usize::MAX,
                    tiles@.len() == ((ty * columns + tx) * 8 + r) * 16,
                    forall|k: int|
                        0 <= k < tiles@.len() ==> tiles@[k] == padded@[linear_index(
                            k,
                            row_bytes as int,
                        )],
                decreases 8 - r,
            {
                proof {
                    lemma_offset_in_bounds(
                        ty * 8 + r,
                        height as int,
                        tx * 16 + 15,
                        row_bytes as int,
                    );
                }
                let start: usize = (ty * TILE_HEIGHT + r) * row_bytes + tx * TILE_WIDTH;
                let mut b: usize = 0;
                while b < TILE_WIDTH
                    invariant
                        ty < tile_rows,
                        tx < columns,
                        r < 8,
                        b <= 16,
                        columns * 16 == row_bytes,
                        start == (ty * 8 + r) * row_bytes + tx * 16,
                        start + 15 < padded@.len() <= usize::MAX,
                        tiles@.len() == ((ty * columns + tx) * 8 + r) * 16 + b,
                        forall|k: int|
                            0 <= k < tiles@.len() ==> tiles@[k] == padded@[linear_index(
                                k,
                                row_bytes as int,
                            )],
                    decreases 16 - b,
                {
                    proof {
                        lemma_linear_index_of_parts(
                            ty as int,
                            tx as int,
                            r as int,
                            b as int,
                            columns as int,
                        );
                    }
                    tiles.push(padded[start + b]);
                    b += 1;
                }
                r += 1;
            }
            tx += 1;
        }
        proof {
            lemma_next_tile_row(ty as int, columns as int);
        }
        ty += 1;
    }
    proof {
        assert(tiles@.len() == padded@.len()) by (nonlinear_arith)
            requires
                tiles@.len() == (tile_rows * columns) * 128,
                columns * 16 == row_bytes,
                tile_rows * 8 == height,
                padded@.len() == row_bytes * height <= usize::MAX,
        ;
        assert(tiles@ =~= tiled(padded@, row_bytes as int));
    }
    tiles
}

proof fn lemma_quotient_below(x: int, d: int, h: int)
    by (nonlinear_arith)
    requires
        0 < d,
        0 <= x < d * h,
    ensures
        0 <= x / d < h,
{
}

proof fn lemma_tile_count(columns: int, tile_rows: int, ty: int, tx: int)
    by (nonlinear_arith)
    requires
        0 <= ty < tile_rows,
        0 <= tx < columns,
    ensures
        0 <= ty * columns + tx < tile_rows * columns,
        (columns * 16) * (tile_rows * 8) == (tile_rows * columns) * 128,
{
}

/// Every byte of the linear buffer has a place in the tiled buffer, and
/// `linear_index` leads back from there.
pub proof fn lemma_tiled_index_inverse(j: int, row_bytes: int, height: int)
    requires
        tileable(row_bytes * height, row_bytes, height),
        0 <= j < row_bytes * height,
    ensures
        0 <= tiled_index(j, row_bytes) < row_bytes * height,
        linear_index(tiled_index(j, row_bytes), row_bytes) == j,
{
    assert(row_bytes > 0) by (nonlinear_arith)
        requires
            0 <= j < row_bytes * height,
            0 <= row_bytes,
    ;
    let columns = row_bytes / 16;
    let tile_rows = height / 8;
    let row = j / row_bytes;
    let column = j % row_bytes;
    lemma_fundamental_div_mod(j, row_bytes);
    lemma_quotient_below(j, row_bytes, height);
    let (ty, r) = (row / 8, row % 8);
    let (tx, b) = (column / 16, column % 16);
    lemma_tile_count(columns, tile_rows, ty, tx);
    lemma_linear_index_of_parts(ty, tx, r, b, columns);
    assert(row_bytes * row == row * row_bytes) by (nonlinear_arith);
}

/// Every byte of the tiled buffer comes from a place in the linear buffer,
/// and `tiled_index` leads back from there.
pub proof fn lemma_linear_index_inverse(i: int, row_bytes: int, height: int)
    requires
        tileable(row_bytes * height, row_bytes, height),
        0 <= i < row_bytes * height,
    ensures
        0 <= linear_index(i, row_bytes) < row_bytes * height,
        tiled_index(linear_index(i, row_bytes), row_bytes) == i,
{
    assert(row_bytes > 0) by (nonlinear_arith)
        requires
            0 <= i < row_bytes * height,
            0 <= row_bytes,
    ;
    let columns = row_bytes / 16;
    let tile_rows = height / 8;
    let tile = i / 128;
    let inner = i % 128;
    let (ty, tx) = (tile / columns, tile % columns);
    let (r, b) = (inner / 16, inner % 16);
    lemma_fundamental_div_mod(tile, columns);
    assert(columns * ty == ty * columns) by (nonlinear_arith);
    assert(tile < columns * tile_rows) by (nonlinear_arith)
        requires
            i < (columns * 16) * (tile_rows * 8),
            tile == i / 128,
    ;
    lemma_quotient_below(tile, columns, tile_rows);
    let j = linear_index(i, row_bytes);
    assert(j == (ty * 8 + r) * row_bytes + (tx * 16 + b));
    lemma_offset_in_bounds(ty * 8 + r, height, tx * 16 + b, row_bytes);
    lemma_fundamental_div_mod_converse(j, row_bytes, ty * 8 + r, tx * 16 + b);
}

/// Puts a tiled image back into linear, row-major order: the inverse of
/// `swizzle`, for images of the same shape.
pub fn unswizzle(pitch: usize, height: usize, tiles: &[u8]) -> (linear: Vec<u8>)
    requires
        tileable(tiles@.len() as int, pitch * 4, height as int),
    ensures
        linear@ == untiled(tiles@, pitch * 4),
{
    if tiles.len() == 0 {
        let linear: Vec<u8> = Vec::new();
        assert(linear@ =~= untiled(tiles@, pitch * 4));
        return linear;
    }
    assert(height >= 1 && pitch * 4 <= tiles@.len()) by (nonlinear_arith)
        requires
            tiles@.len() == (pitch * 4) * height,
            tiles@.len() > 0,
    ;
    let row_bytes: usize = pitch * BYTES_PER_PIXEL;
    let columns: usize = row_bytes / TILE_WIDTH;
    let mut linear: Vec<u8> = Vec::with_capacity(tiles.len());
    let mut y: usize = 0;
    while y < height
        invariant
            y <= height,
            columns * 16 == row_bytes,
            tileable(tiles@.len() as int, row_bytes as int, height as int),
            tiles@.len() <= usize::MAX,
            linear@.len() == y * row_bytes,
            forall|k: int|
                0 <= k < linear@.len() ==> linear@[k] == tiles@[tiled_index(k, row_bytes as int)],
        decreases height - y,
    {
        let mut x: usize = 0;
        while x < row_bytes
            invariant
                y < height,
                x <= row_bytes,
                columns * 16 == row_bytes,
                tileable(tiles@.len() as int, row_bytes as int, height as int),
                tiles@.len() <= usize::MAX,
                linear@.len() == y * row_bytes + x,
                forall|k: int|
                    0 <= k < linear@.len() ==> linear@[k] == tiles@[tiled_index(
                        k,
                        row_bytes as int,
                    )],
            decreases row_bytes - x,
        {
            proof {
                let j = y * row_bytes + x;
                lemma_offset_in_bounds(y as int, height as int, x as int, row_bytes as int);
                lemma_fundamental_div_mod_converse(j, row_bytes as int, y as int, x as int);
                lemma_tiled_index_inverse(j, row_bytes as int, height as int);
            }
            let at: usize = ((y / TILE_HEIGHT) * columns + x / TILE_WIDTH) * TILE_BYTES + (y
                % TILE_HEIGHT) * TILE_WIDTH + x % TILE_WIDTH;
            linear.push(tiles[at]);
            x += 1;
        }
        proof {
            lemma_next_tile_row(y as int, row_bytes as int);
        }
        y += 1;
    }
    proof {
        assert(height * row_bytes == row_bytes * height) by (nonlinear_arith);
        assert(linear@ =~= untiled(tiles@, row_bytes as int));
    }
    linear
}

/// Tiling moves every byte and loses none: untiling a tiled buffer gives
/// the buffer back, byte for byte. A buffer is as long tiled as it was
/// linear.
pub proof fn lemma_tiling_round_trip(linear: Seq<u8>, row_bytes: int, height: int)
    requires
        tileable(linear.len() as int, row_bytes, height),
    ensures
        tiled(linear, row_bytes).len() == linear.len(),
        untiled(tiled(linear, row_bytes), row_bytes) == linear,
{
    let back = untiled(tiled(linear, row_bytes), row_bytes);
    assert forall|j: int| 0 <= j < linear.len() implies back[j] == linear[j] by {
        lemma_tiled_index_inverse(j, row_bytes, height);
    }
    assert(back =~= linear);
}

/// Tiling an untiled buffer gives the buffer back as well: the two maps
/// are inverse to each other.
pub proof fn lemma_untiling_round_trip(tiles: Seq<u8>, row_bytes: int, height: int)
    requires
        tileable(tiles.len() as int, row_bytes, height),
    ensures
        untiled(tiles, row_bytes).len() == tiles.len(),
        tiled(untiled(tiles, row_bytes), row_bytes) == tiles,
{
    let back = tiled(untiled(tiles, row_bytes), row_bytes);
    assert forall|i: int| 0 <= i < tiles.len() implies back[i] == tiles[i] by {
        lemma_linear_index_inverse(i, row_bytes, height);
    }
    assert(back =~= tiles);
}

} // verus!
