//! Texture assets for a renderer on a games console with little memory and a
//! fixed-function graphics processor.
//!
//! A texture comes a long way before it can be drawn. Its file is read from
//! storage ([`file_loader`]) and decoded to four bytes a pixel. Every row of
//! the decoded image is padded to the width that the graphics processor
//! addresses ([`padding`]), and the padded image is cut into the tiles in
//! which the processor keeps textures ([`swizzle`], [`psp_image`]). The
//! result is kept in a cache under the file's name, and handed out by
//! handles that are counted ([`psp_assets`]): a name is loaded once, however
//! often it is asked for, and a texture that nothing refers to leaves the
//! cache at the end of the frame.
//!
//! The library decides and computes; it reads no file, decodes no file
//! format and draws nothing. What it needs from outside it is given as
//! values: the answers of storage, the decoded image, the reading of a
//! stick.

pub mod aligned;
pub mod error;
pub mod file_loader;
pub mod padding;
pub mod psp_assets;
pub mod psp_geometry;
pub mod psp_image;
pub mod psp_input;
pub mod psp_print;
pub mod swizzle;
pub mod text;
pub mod texture;
pub mod texture_map;
