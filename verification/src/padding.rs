//! The row padder: widens every row of a decoded image to the graphics
//! processor's block width.

use vstd::prelude::*;
use vstd::arithmetic::div_mod::lemma_fundamental_div_mod_converse;
use crate::error::AllocationError;
use crate::swizzle::lemma_offset_in_bounds;
use crate::swizzle::BYTES_PER_PIXEL;

verus! {

/// The block width of the graphics processor, in pixels: a row's pitch is a
/// multiple of it.
pub const BLOCK_WIDTH: usize = 8;

/// The pitch of an image `width` pixels wide: the smallest multiple of the
/// block width that is not below `width`.
pub open spec fn padded_width(width: int) -> int {
    ((width + 7) / 8) * 8
}

/// The size in bytes of the padded form of a `width` by `height` image.
pub open spec fn padded_len(width: int, height: int) -> int {
    padded_width(width) * 4 * height
}

/// The padded form of an image whose rows lie one after the other in `rows`,
/// `width * 4` bytes each: every row keeps its bytes and is filled up with
/// zeros to `padded_width(width) * 4` bytes.
pub open spec fn padded(rows: Seq<u8>, width: int, height: int) -> Seq<u8> {
    let from = width * 4;
    let to = padded_width(width) * 4;
    Seq::new(
        padded_len(width, height) as nat,
        |i: int|
            if i % to < from {
                rows[(i / to) * from + i % to]
            } else {
                0u8
            },
    )
}

/// The pitch for an image `width` pixels wide, unless it is more than a
/// `usize` holds.
pub fn pitch_for(width: usize) -> (pitch: Option<usize>)
    ensures
        match pitch {
            Some(p) => p == padded_width(width as int),
            None => padded_width(width as int) > usize::MAX,
        },
{
    if width > usize::MAX - 7 {
        None
    } else {
        Some((width + 7) / BLOCK_WIDTH * BLOCK_WIDTH)
    }
}

/// Whether the padded form of a `width` by `height` image can be held: its
/// pitch and its size in bytes are numbers that a `usize` holds.
pub open spec fn padded_fits(width: int, height: int) -> bool {
    padded_width(width) <= usize::MAX && padded_len(width, height) <= usize::MAX
}

/// The pitch and the size in bytes of the padded form of a `width` by
/// `height` image, unless one of them is more than a `usize` holds.
pub fn padded_size(width: usize, height: usize) -> (size: Option<(usize, usize)>)
    ensures
        match size {
            Some((pitch, len)) => {
                &&& pitch == padded_width(width as int)
                &&& len == padded_len(width as int, height as int)
            },
            None => !padded_fits(width as int, height as int),
        },
{
    let pitch = match pitch_for(width) {
        Some(p) => p,
        None => {
            return None;
        },
    };
    let row_bytes = match pitch.checked_mul(BYTES_PER_PIXEL) {
        Some(n) => n,
        None => {
            if height == 0 {
                assert(padded_len(width as int, 0) == 0) by (nonlinear_arith);
                return Some((pitch, 0));
            }
            assert(padded_len(width as int, height as int) >= pitch * 4) by (nonlinear_arith)
                requires
                    height >= 1,
                    pitch == padded_width(width as int),
            ;
            return None;
        },
    };
    match row_bytes.checked_mul(height) {
        Some(len) => Some((pitch, len)),
        None => None,
    }
}

proof fn lemma_row_offset(y: int, x: int, height: int, to: int)
    requires
        0 <= y < height,
        0 <= x < to,
    ensures
        0 <= y * to,
        0 <= y * to + x < to * height,
        (y * to + x) / to == y,
        (y * to + x) % to == x,
        (y + 1) * to == y * to + to,
{
    lemma_offset_in_bounds(y, height, x, to);
    lemma_fundamental_div_mod_converse(y * to + x, to, y, x);
}

/// Pads the rows of an image into `store`, the storage that the allocator
/// gave for the result, or fails where it gave none.
///
/// `rows` holds `height` rows of `width * 4` bytes.
pub fn pad_rows_in(width: usize, height: usize, rows: &[u8], store: Option<Vec<u8>>) -> (result:
    Result<(usize, Vec<u8>), AllocationError>)
    requires
        rows@.len() == width * 4 * height,
        padded_fits(width as int, height as int),
        store matches Some(buffer) ==> buffer@.len() == 0,
    ensures
        match result {
            Ok((pitch, bytes)) => {
                &&& store is Some
                &&& pitch == padded_width(width as int)
                &&& bytes@ == padded(rows@, width as int, height as int)
            },
            Err(e) => {
                &&& store is None
                &&& e.requested_size == padded_len(width as int, height as int)
            },
        },
{
    let (pitch, size) = match padded_size(width, height) {
        Some(fit) => fit,
        None => {
            return Err(AllocationError { requested_size: usize::MAX });
        },
    };
    let mut bytes = match store {
        Some(buffer) => buffer,
        None => {
            return Err(AllocationError { requested_size: size });
        },
    };
    if height == 0 || width == 0 {
        // No row holds a pixel: the padded form is empty too.
        assert(padded_len(width as int, height as int) == 0) by (nonlinear_arith)
            requires
                height == 0 || width == 0,
        ;
        assert(bytes@ =~= padded(rows@, width as int, height as int));
        return Ok((pitch, bytes));
    }
    assert(width * 4 <= rows@.len() && padded_width(width as int) * 4 <= size) by (nonlinear_arith)
        requires
            rows@.len() == width * 4 * height,
            size == padded_width(width as int) * 4 * height,
            height >= 1,
            width >= 1,
    ;
    let total: usize = rows.len();
    let from: usize = width * BYTES_PER_PIXEL;
    let to: usize = pitch * BYTES_PER_PIXEL;
    let mut y: usize = 0;
    while y < height
        invariant
            y <= height,
            from == width * 4,
            to == padded_width(width as int) * 4,
            from <= to,
            0 < to,
            rows@.len() == from * height <= usize::MAX,
            size == to * height,
            bytes@.len() == y * to,
            forall|k: int|
                0 <= k < bytes@.len() ==> bytes@[k] == padded(
                    rows@,
                    width as int,
                    height as int,
                )[k],
        decreases height - y,
    {
        proof {
            lemma_row_offset(y as int, from as int - 1, height as int, from as int);
        }
        let start: usize = y * from;
        let mut x: usize = 0;
        while x < to
            invariant
                y < height,
                x <= to,
                from == width * 4,
                to == padded_width(width as int) * 4,
                from <= to,
                start == y * from,
                start + from <= rows@.len(),
                rows@.len() == from * height <= usize::MAX,
                size == to * height,
                bytes@.len() == y * to + x,
                forall|k: int|
                    0 <= k < bytes@.len() ==> bytes@[k] == padded(
                        rows@,
                        width as int,
                        height as int,
                    )[k],
            decreases to - x,
        {
            proof {
                lemma_row_offset(y as int, x as int, height as int, to as int);
            }
            if x < from {
                bytes.push(rows[start + x]);
            } else {
                bytes.push(0);
            }
            x += 1;
        }
        proof {
            lemma_row_offset(y as int, 0, height as int, to as int);
        }
        y += 1;
    }
    proof {
        assert(height * to == to * height) by (nonlinear_arith);
        assert(bytes@ =~= padded(rows@, width as int, height as int));
    }
    Ok((pitch, bytes))
}

/// Pads every row of a decoded image to the pitch.
///
/// `rows` holds `height` rows of `width * 4` bytes. The result is the pitch
/// in pixels and the padded rows, `pitch * 4` bytes each: a row's bytes
/// first, then zeros. The one way to fail is to get no memory for the
/// result.
pub fn pad_rows(width: usize, height: usize, rows: &[u8]) -> (result: Result<
    (usize, Vec<u8>),
    AllocationError,
>)
    requires
        rows@.len() == width * 4 * height,
    ensures
        match result {
            Ok((pitch, bytes)) => {
                &&& pitch == padded_width(width as int)
                &&& bytes@ == padded(rows@, width as int, height as int)
            },
            Err(e) => e.requested_size == if padded_fits(width as int, height as int) {
                padded_len(width as int, height as int)
            } else {
                usize::MAX as int
            },
        },
        !padded_fits(width as int, height as int) ==> result is Err,
{
    match padded_size(width, height) {
        Some((_, size)) => {
            let mut buffer: Vec<u8> = Vec::new();
            let store = if buffer.try_reserve(size).is_ok() {
                Some(buffer)
            } else {
                None
            };
            pad_rows_in(width, height, rows, store)
        },
        None => Err(AllocationError { requested_size: usize::MAX }),
    }
}

/// The bytes `from..to` of row `y` of an image whose rows are `row_bytes`
/// long.
pub open spec fn row_part(image: Seq<u8>, row_bytes: int, y: int, from: int, to: int) -> Seq<u8> {
    image.subrange(y * row_bytes + from, y * row_bytes + to)
}

/// The pitch is the smallest multiple of the block width that is not below
/// the width.
pub proof fn lemma_pitch_is_least_multiple(width: int)
    requires
        0 <= width,
    ensures
        padded_width(width) >= width,
        padded_width(width) % 8 == 0,
        padded_width(width) < width + 8,
{
}

/// Padding keeps every row and adds only zeros: in the padded image, row
/// `y` starts with the `width * 4` bytes of row `y` of the source, and the
/// rest of it, up to the pitch, is zero.
pub proof fn lemma_padding_keeps_rows(rows: Seq<u8>, width: int, height: int)
    requires
        0 <= width,
        0 <= height,
        rows.len() == width * 4 * height,
    ensures
        padded(rows, width, height).len() == padded_width(width) * 4 * height,
        forall|y: int|
            0 <= y < height ==> #[trigger] row_part(
                padded(rows, width, height),
                padded_width(width) * 4,
                y,
                0,
                width * 4,
            ) == row_part(rows, width * 4, y, 0, width * 4),
        forall|y: int, x: int|
            0 <= y < height && width * 4 <= x < padded_width(width) * 4 ==> #[trigger] padded(
                rows,
                width,
                height,
            )[y * (padded_width(width) * 4) + x] == 0,
{
    let from = width * 4;
    let to = padded_width(width) * 4;
    let image = padded(rows, width, height);
    assert(to * height >= 0) by (nonlinear_arith)
        requires
            to >= 0,
            height >= 0,
    ;
    assert forall|y: int| 0 <= y < height implies #[trigger] row_part(image, to, y, 0, from)
        == row_part(rows, from, y, 0, from) by {
        if from > 0 {
            lemma_offset_in_bounds(y, height, from - 1, to);
            lemma_offset_in_bounds(y, height, from - 1, from);
            let kept = row_part(image, to, y, 0, from);
            let given = row_part(rows, from, y, 0, from);
            assert forall|x: int| 0 <= x < from implies kept[x] == given[x] by {
                lemma_row_offset(y, x, height, to);
            }
            assert(kept =~= given);
        } else {
            assert(row_part(image, to, y, 0, from) =~= row_part(rows, from, y, 0, from));
        }
    }
    assert forall|y: int, x: int| 0 <= y < height && from <= x < to implies #[trigger] image[y
        * to + x] == 0 by {
        lemma_row_offset(y, x, height, to);
    }
}

} // verus!
