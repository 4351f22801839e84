use psp_textures::error::DecodeError;
use psp_textures::error::DecodeReason;
use psp_textures::error::PipelineError;
use psp_textures::padding::pad_rows;
use psp_textures::padding::pitch_for;
use psp_textures::psp_image::DecodedImage;
use psp_textures::psp_image::load_png;
use psp_textures::psp_image::load_png_swizzled;
use psp_textures::swizzle::swizzle;
use psp_textures::swizzle::unswizzle;

/// Decodes a file with the decoder that the program uses.
fn decode(bytes: &[u8]) -> Result<DecodedImage, DecodeError> {
    let bad_header = DecodeError { reason: DecodeReason::BadHeader };
    let bad_data = DecodeError { reason: DecodeReason::BadData };
    let header = minipng::decode_png_header(bytes).map_err(|_| bad_header)?;
    let mut buffer = vec![0; header.required_bytes_rgba8bpc()];
    let mut image = minipng::decode_png(bytes, &mut buffer).map_err(|_| bad_data)?;
    image.convert_to_rgba8bpc().map_err(|_| bad_data)?;
    DecodedImage::new(image.width(), image.height(), image.pixels().to_vec())
}

fn chunk(kind: &[u8; 4], data: &[u8]) -> Vec<u8> {
    let mut out = Vec::new();
    out.extend_from_slice(&(data.len() as u32).to_be_bytes());
    out.extend_from_slice(kind);
    out.extend_from_slice(data);
    out.extend_from_slice(&[0, 0, 0, 0]);
    out
}

/// An 8-bit RGBA PNG file with stored (uncompressed) image data.
fn png_rgba8(width: u32, height: u32, pixels: &[u8]) -> Vec<u8> {
    assert_eq!(pixels.len(), (width * height * 4) as usize);
    png_with(width, height, 8, 6, width as usize * 4, pixels)
}

/// A PNG file of the given bit depth and colour type with stored
/// (uncompressed) image data; `samples` holds the rows, `row` bytes each.
fn png_with(
    width: u32,
    height: u32,
    depth: u8,
    colour: u8,
    row: usize,
    samples: &[u8],
) -> Vec<u8> {
    assert_eq!(samples.len(), row * height as usize);
    let mut raw = Vec::new();
    for y in 0..height as usize {
        raw.push(0);
        raw.extend_from_slice(&samples[y * row..(y + 1) * row]);
    }
    let mut zlib = vec![0x78, 0x01];
    let blocks: Vec<&[u8]> = raw.chunks(60000).collect();
    for (i, block) in blocks.iter().enumerate() {
        zlib.push(if i + 1 == blocks.len() { 1 } else { 0 });
        let len = block.len() as u16;
        zlib.extend_from_slice(&len.to_le_bytes());
        zlib.extend_from_slice(&(!len).to_le_bytes());
        zlib.extend_from_slice(block);
    }
    zlib.extend_from_slice(&[0, 0, 0, 0]);
    let mut header = Vec::new();
    header.extend_from_slice(&width.to_be_bytes());
    header.extend_from_slice(&height.to_be_bytes());
    header.extend_from_slice(&[depth, colour, 0, 0, 0]);
    let mut file = vec![137, 80, 78, 71, 13, 10, 26, 10];
    file.extend_from_slice(&chunk(b"IHDR", &header));
    file.extend_from_slice(&chunk(b"IDAT", &zlib));
    file.extend_from_slice(&chunk(b"IEND", &[]));
    file
}

fn gradient(width: u32, height: u32) -> Vec<u8> {
    let mut pixels = Vec::new();
    for i in 0..(width * height * 4) as usize {
        pixels.push((i * 7 + i / 251 + 1) as u8);
    }
    pixels
}

#[test]
fn decode_gives_the_pixels_of_the_file() {
    let pixels = gradient(3, 2);
    let image = decode(&png_rgba8(3, 2, &pixels)).unwrap();
    assert_eq!(image.width(), 3);
    assert_eq!(image.height(), 2);
    assert_eq!(image.pixels(), &pixels[..]);
}

#[test]
fn thirty_by_sixteen_image_is_padded_and_tiled() {
    let pixels = gradient(30, 16);
    let (width, height, pitch, data) = load_png_swizzled(&decode(&png_rgba8(30, 16, &pixels)).unwrap()).unwrap();
    assert_eq!((width, height, pitch), (30, 16, 32));
    assert_eq!(data.len(), 2048);
    let (_, padded) = pad_rows(30, 16, &pixels).unwrap();
    assert_eq!(padded.len(), 32 * 4 * 16);
    assert_eq!(data, swizzle(32, 16, &padded));
    assert_eq!(unswizzle(32, 16, &data), padded);
    // 8 columns by 2 rows of tiles, 128 bytes each
    assert_eq!(data.len() / 128, 16);
    // second tile, first row: bytes 16..32 of the first padded row
    assert_eq!(&data[128..144], &padded[16..32]);
    // first tile, second row: bytes 0..16 of the second padded row
    assert_eq!(&data[16..32], &padded[128..144]);
    // first tile of the second tile row: row 8 of the padded image
    assert_eq!(&data[8 * 128..8 * 128 + 16], &padded[8 * 128..8 * 128 + 16]);
}

#[test]
fn linear_load_pads_without_tiling() {
    let pixels = gradient(5, 3);
    let (width, height, pitch, data) = load_png(&decode(&png_rgba8(5, 3, &pixels)).unwrap()).unwrap();
    assert_eq!((width, height, pitch), (5, 3, 8));
    assert_eq!(data.len(), 8 * 4 * 3);
    for y in 0..3 {
        assert_eq!(&data[y * 32..y * 32 + 20], &pixels[y * 20..(y + 1) * 20]);
        assert!(data[y * 32 + 20..(y + 1) * 32].iter().all(|b| *b == 0));
    }
}

#[test]
fn pitch_rounds_up_to_the_block_width() {
    assert_eq!(pitch_for(0), Some(0));
    assert_eq!(pitch_for(1), Some(8));
    assert_eq!(pitch_for(8), Some(8));
    assert_eq!(pitch_for(9), Some(16));
    assert_eq!(pitch_for(30), Some(32));
    assert_eq!(pitch_for(usize::MAX), None);
}

#[test]
fn height_that_fills_no_whole_tiles_is_refused() {
    let pixels = gradient(4, 10);
    let result = load_png_swizzled(&decode(&png_rgba8(4, 10, &pixels)).unwrap());
    match result {
        Err(PipelineError::Decode(e)) => assert_eq!(e.reason, DecodeReason::UnsupportedHeight),
        other => panic!("unexpected result: {:?}", other),
    }
}

#[test]
fn pixels_must_be_as_many_as_the_size_says() {
    let image = DecodedImage::new(2, 3, vec![7; 24]).unwrap();
    assert_eq!((image.width(), image.height()), (2, 3));
    assert_eq!(image.pixels(), &[7u8; 24][..]);
    assert_eq!(DecodedImage::new(2, 3, vec![7; 23]).unwrap_err().reason, DecodeReason::BadData);
    assert_eq!(DecodedImage::new(2, 3, vec![7; 25]).unwrap_err().reason, DecodeReason::BadData);
    assert_eq!(DecodedImage::new(0, 3, vec![7; 1]).unwrap_err().reason, DecodeReason::BadData);
    assert!(DecodedImage::new(0, 3, vec![]).is_ok());
    assert!(DecodedImage::new(u32::MAX, u32::MAX, vec![]).is_err());
}

#[test]
fn image_without_rows_is_an_empty_texture() {
    let empty = DecodedImage::new(5, 0, vec![]).unwrap();
    assert_eq!(load_png(&empty), Ok((5, 0, 8, vec![])));
    assert_eq!(load_png_swizzled(&empty), Ok((5, 0, 8, vec![])));
}

#[test]
fn grey_image_becomes_opaque_rgba() {
    let file = png_with(3, 2, 8, 0, 3, &[10, 20, 30, 40, 50, 60]);
    let image = decode(&file).unwrap();
    assert_eq!((image.width(), image.height()), (3, 2));
    assert_eq!(
        image.pixels(),
        &[
            10, 10, 10, 255, 20, 20, 20, 255, 30, 30, 30, 255, 40, 40, 40, 255, 50, 50, 50, 255,
            60, 60, 60, 255
        ][..]
    );
}

#[test]
fn rgb_image_gets_an_opaque_alpha() {
    let file = png_with(2, 1, 8, 2, 6, &[1, 2, 3, 4, 5, 6]);
    let image = decode(&file).unwrap();
    assert_eq!(image.pixels(), &[1, 2, 3, 255, 4, 5, 6, 255][..]);
}

#[test]
fn sixteen_bit_image_keeps_the_high_bytes() {
    let file = png_with(1, 2, 16, 6, 8, &[1, 0, 2, 0, 3, 0, 4, 0, 5, 9, 6, 9, 7, 9, 8, 9]);
    let image = decode(&file).unwrap();
    assert_eq!((image.width(), image.height()), (1, 2));
    assert_eq!(image.pixels(), &[1, 2, 3, 4, 5, 6, 7, 8][..]);
}

#[test]
fn one_bit_image_is_black_and_white() {
    // eight pixels to a byte, the first in the highest bit
    let file = png_with(8, 1, 1, 0, 1, &[0b1010_0001]);
    let image = decode(&file).unwrap();
    let expected: Vec<u8> = [255u8, 0, 255, 0, 0, 0, 0, 255]
        .iter()
        .flat_map(|v| [*v, *v, *v, 255])
        .collect();
    assert_eq!(image.pixels(), &expected[..]);
}

#[test]
fn large_image_is_padded_and_tiled_in_full() {
    let pixels = gradient(100, 64);
    let (width, height, pitch, data) = load_png_swizzled(&decode(&png_rgba8(100, 64, &pixels)).unwrap()).unwrap();
    assert_eq!((width, height, pitch), (100, 64, 104));
    let (_, padded) = pad_rows(100, 64, &pixels).unwrap();
    assert_eq!(unswizzle(pitch, 64, &data), padded);
}
