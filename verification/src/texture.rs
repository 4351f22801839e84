//! The texture record: an image's dimensions and its bytes as the graphics
//! processor reads them.

use vstd::prelude::*;
use crate::aligned::AlignedBytes;
use crate::swizzle::tileable;

verus! {

/// A texture as plain values.
pub struct TextureView {
    /// Width of the image, in pixels.
    pub width: nat,
    /// Height of the image, in pixels.
    pub height: nat,
    /// Width of a stored row, in pixels.
    pub pitch: nat,
    /// The stored rows.
    pub bytes: Seq<u8>,
}

impl TextureView {
    /// What holds of every texture: a stored row is a whole number of
    /// blocks and not narrower than the image, and the buffer holds
    /// `height` rows of `pitch` pixels, four bytes each.
    pub open spec fn wf(self) -> bool {
        &&& self.pitch >= self.width
        &&& self.pitch % 8 == 0
        &&& self.bytes.len() == self.pitch * 4 * self.height
    }

    /// Whether the texture has the shape of a tiled one: its rows fill
    /// whole tiles. Every texture in the cache has it.
    pub open spec fn tiled_shape(self) -> bool {
        tileable(self.bytes.len() as int, (self.pitch * 4) as int, self.height as int)
    }
}

/// A texture: the image's dimensions, the pitch of its stored rows and the
/// pixel buffer, aligned for the graphics processor.
#[derive(Debug)]
pub struct TextureHandle {
    width: usize,
    height: usize,
    pitch: usize,
    pixels: AlignedBytes,
}

impl View for TextureHandle {
    type V = TextureView;

    closed spec fn view(&self) -> TextureView {
        TextureView {
            width: self.width as nat,
            height: self.height as nat,
            pitch: self.pitch as nat,
            bytes: self.pixels@,
        }
    }
}

impl TextureHandle {
    /// Whether the texture is well formed.
    pub open spec fn wf(&self) -> bool {
        self@.wf()
    }

    /// Makes a texture of its parts.
    pub fn new(width: usize, height: usize, pitch: usize, pixels: AlignedBytes) -> (texture: Self)
        requires
            (TextureView {
                width: width as nat,
                height: height as nat,
                pitch: pitch as nat,
                bytes: pixels@,
            }).wf(),
        ensures
            texture.wf(),
            texture@ == (TextureView {
                width: width as nat,
                height: height as nat,
                pitch: pitch as nat,
                bytes: pixels@,
            }),
    {
        TextureHandle { width, height, pitch, pixels }
    }

    /// Width of the image, in pixels.
    pub fn width(&self) -> (width: usize)
        ensures
            width == self@.width,
    {
        self.width
    }

    /// Height of the image, in pixels.
    pub fn height(&self) -> (height: usize)
        ensures
            height == self@.height,
    {
        self.height
    }

    /// Width of a stored row, in pixels.
    pub fn pitch(&self) -> (pitch: usize)
        ensures
            pitch == self@.pitch,
    {
        self.pitch
    }

    /// The stored rows, for upload to the graphics processor.
    pub fn raw_bytes(&self) -> (bytes: &[u8])
        ensures
            bytes@ == self@.bytes,
    {
        self.pixels.as_slice()
    }
}

} // verus!
