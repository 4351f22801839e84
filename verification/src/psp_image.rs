//! From a decoded image to a texture's bytes: every row is padded to the
//! pitch and, for textures that the graphics processor samples in its native
//! order, the padded image is cut into tiles.
//!
//! The decoder of the file format stands outside the library. What it gives
//! enters here as a `DecodedImage`, which is only made of pixels that are as
//! many as the width and the height say.

use vstd::prelude::*;
use crate::error::DecodeError;
use crate::error::DecodeReason;
use crate::error::PipelineError;
use crate::padding::pad_rows;
use crate::padding::padded;
use crate::padding::padded_fits;
use crate::padding::padded_len;
use crate::padding::padded_width;
use crate::swizzle::swizzle;
use crate::swizzle::tiled;
use crate::swizzle::TILE_HEIGHT;
use crate::texture::TextureView;

verus! {

/// A decoded image as plain values.
pub struct ImageView {
    /// Width in pixels.
    pub width: nat,
    /// Height in pixels.
    pub height: nat,
    /// The pixels, four bytes each, row after row from the top.
    pub pixels: Seq<u8>,
}

impl ImageView {
    /// What holds of every decoded image: it has four bytes for each of its
    /// pixels, and no others.
    pub open spec fn wf(self) -> bool {
        self.pixels.len() == self.width * 4 * self.height
    }
}

/// An image in the canonical pixel format: four bytes a pixel, row after
/// row from the top, whatever channels and bit depth its file had.
#[derive(Debug)]
pub struct DecodedImage {
    width: u32,
    height: u32,
    pixels: Vec<u8>,
}

impl View for DecodedImage {
    type V = ImageView;

    closed spec fn view(&self) -> ImageView {
        ImageView { width: self.width as nat, height: self.height as nat, pixels: self.pixels@ }
    }
}

impl DecodedImage {
    #[verifier::type_invariant]
    spec fn complete(self) -> bool {
        self.pixels@.len() == self.width * 4 * self.height
    }

    /// Takes what a decoder gave as an image. Pixels that are not exactly
    /// `width * 4 * height` bytes are no image of that size, and are
    /// refused as bad data.
    pub fn new(width: u32, height: u32, pixels: Vec<u8>) -> (result: Result<Self, DecodeError>)
        ensures
            match result {
                Ok(image) => {
                    &&& pixels@.len() == width * 4 * height
                    &&& image@ == ImageView {
                        width: width as nat,
                        height: height as nat,
                        pixels: pixels@,
                    }
                },
                Err(e) => pixels@.len() != width * 4 * height && e.reason == DecodeReason::BadData,
            },
    {
        let row: u64 = width as u64 * 4;
        assert(row * height < 0x4_0000_0000_0000_0000) by (nonlinear_arith)
            requires
                row <= 0x3_ffff_fffc,
                height <= 0xffff_ffff,
        ;
        let expected: u128 = (row as u128) * (height as u128);
        if pixels.len() as u128 == expected {
            Ok(DecodedImage { width, height, pixels })
        } else {
            Err(DecodeError { reason: DecodeReason::BadData })
        }
    }

    /// Width in pixels.
    pub fn width(&self) -> (width: u32)
        ensures
            width == self@.width,
    {
        self.width
    }

    /// Height in pixels.
    pub fn height(&self) -> (height: u32)
        ensures
            height == self@.height,
    {
        self.height
    }

    /// The pixels, four bytes each, row after row from the top.
    pub fn pixels(&self) -> (pixels: &[u8])
        ensures
            pixels@ == self@.pixels,
            self@.wf(),
    {
        proof {
            use_type_invariant(self);
        }
        self.pixels.as_slice()
    }
}

/// The `requested_size` of the error that reports that the padded form of a
/// `width` by `height` image could not be allocated.
pub open spec fn padding_request(width: int, height: int) -> int {
    if padded_fits(width, height) {
        padded_len(width, height)
    } else {
        usize::MAX as int
    }
}

/// The result of a load as plain values.
pub open spec fn outcome_of(result: Result<(u32, u32, usize, Vec<u8>), PipelineError>) -> Result<
    TextureView,
    PipelineError,
> {
    match result {
        Ok((width, height, pitch, data)) => Ok(
            TextureView {
                width: width as nat,
                height: height as nat,
                pitch: pitch as nat,
                bytes: data@,
            },
        ),
        Err(e) => Err(e),
    }
}

/// The linear texture of an image: its rows, each padded to the pitch.
pub open spec fn linear_texture(image: ImageView) -> TextureView {
    TextureView {
        width: image.width,
        height: image.height,
        pitch: padded_width(image.width as int) as nat,
        bytes: padded(image.pixels, image.width as int, image.height as int),
    }
}

/// The tiled texture of an image: its linear texture, cut into tiles.
pub open spec fn tiled_texture(image: ImageView) -> TextureView {
    TextureView {
        width: image.width,
        height: image.height,
        pitch: padded_width(image.width as int) as nat,
        bytes: tiled(
            padded(image.pixels, image.width as int, image.height as int),
            padded_width(image.width as int) * 4,
        ),
    }
}

/// Whether `outcome` is a way for the load of a linear texture from an
/// image to end: with the image's linear texture, or without memory for the
/// padded rows.
pub open spec fn linear_outcome(image: ImageView, outcome: Result<TextureView, PipelineError>) -> bool {
    match outcome {
        Ok(texture) => texture == linear_texture(image),
        Err(PipelineError::Allocation(e)) => e.requested_size == padding_request(
            image.width as int,
            image.height as int,
        ),
        Err(_) => false,
    }
}

/// Whether `outcome` is a way for the load of a tiled texture from an image
/// to end: with the image's tiled texture; with the refusal of a height that
/// fills no whole tiles; or, for a height that does, without memory for the
/// padded rows.
pub open spec fn tiled_outcome(image: ImageView, outcome: Result<TextureView, PipelineError>) -> bool {
    match outcome {
        Ok(texture) => image.height % 8 == 0 && texture == tiled_texture(image),
        Err(PipelineError::Decode(e)) => image.height % 8 != 0 && e.reason
            == DecodeReason::UnsupportedHeight,
        Err(PipelineError::Allocation(e)) => image.height % 8 == 0 && e.requested_size
            == padding_request(image.width as int, image.height as int),
        Err(PipelineError::Io(_)) => false,
    }
}

/// A tiled texture is well formed and of a shape that can be cut into
/// tiles, whatever image it comes from.
pub proof fn lemma_tiled_texture_is_tileable(image: ImageView)
    requires
        image.height % 8 == 0,
    ensures
        tiled_texture(image).wf(),
        tiled_texture(image).tiled_shape(),
{
    let pitch = padded_width(image.width as int);
    assert(pitch * 4 * image.height >= 0) by (nonlinear_arith)
        requires
            pitch >= 0,
            image.height >= 0,
    ;
    assert((pitch * 4) % 16 == 0 && (pitch * 4) * image.height == pitch * 4 * image.height);
}

/// Makes the linear texture of an image: pads every row to the pitch.
///
/// Returns width, height, pitch in pixels and the `pitch * 4 * height` bytes
/// of the texture.
pub fn load_png(image: &DecodedImage) -> (result: Result<(u32, u32, usize, Vec<u8>), PipelineError>)
    ensures
        linear_outcome(image@, outcome_of(result)),
        !padded_fits(image@.width as int, image@.height as int) ==> result is Err,
{
    let pixels = image.pixels();
    match pad_rows(image.width() as usize, image.height() as usize, pixels) {
        Ok((pitch, data)) => Ok((image.width(), image.height(), pitch, data)),
        Err(e) => Err(PipelineError::Allocation(e)),
    }
}

/// Makes the tiled texture of an image: pads every row to the pitch and
/// rearranges the padded image into the graphics processor's tiles.
///
/// Returns width, height, pitch in pixels and the `pitch * 4 * height` bytes
/// of the texture. An image whose height is not a multiple of the tile
/// height cannot be tiled and is refused.
pub fn load_png_swizzled(image: &DecodedImage) -> (result: Result<
    (u32, u32, usize, Vec<u8>),
    PipelineError,
>)
    ensures
        tiled_outcome(image@, outcome_of(result)),
        image@.height % 8 != 0 || !padded_fits(image@.width as int, image@.height as int)
            ==> result is Err,
{
    if image.height() as usize % TILE_HEIGHT != 0 {
        return Err(PipelineError::Decode(DecodeError { reason: DecodeReason::UnsupportedHeight }));
    }
    let pixels = image.pixels();
    match pad_rows(image.width() as usize, image.height() as usize, pixels) {
        Ok((pitch, padded_rows)) => {
            let data = swizzle(pitch, image.height() as usize, padded_rows.as_slice());
            Ok((image.width(), image.height(), pitch, data))
        },
        Err(e) => Err(PipelineError::Allocation(e)),
    }
}

} // verus!
