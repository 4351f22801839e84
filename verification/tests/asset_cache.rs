use std::cell::Cell;

use psp_textures::error::AllocationError;
use psp_textures::error::DecodeError;
use psp_textures::error::DecodeReason;
use psp_textures::error::IoError;
use psp_textures::error::IoStage;
use psp_textures::error::PipelineError;
use psp_textures::padding::pad_rows;
use psp_textures::psp_assets::file_name_of;
use psp_textures::psp_assets::Asset;
use psp_textures::psp_assets::AssetServer;
use psp_textures::psp_assets::Font;
use psp_textures::psp_assets::Image;
use psp_textures::psp_image::DecodedImage;
use psp_textures::swizzle::swizzle;
use psp_textures::swizzle::unswizzle;

fn pattern(width: u32, height: u32, seed: usize) -> Vec<u8> {
    let mut pixels = Vec::new();
    for i in 0..(width * height * 4) as usize {
        pixels.push((i * 13 + seed * 31 + i / 97) as u8);
    }
    pixels
}

/// A decoded image of the given size.
fn image(width: u32, height: u32, seed: usize) -> DecodedImage {
    DecodedImage::new(width, height, pattern(width, height, seed)).unwrap()
}

fn wall(_path: String) -> Result<DecodedImage, PipelineError> {
    Ok(image(4, 8, 3))
}

fn not_found(path: String) -> Result<DecodedImage, PipelineError> {
    Err(PipelineError::Io(IoError { path, stage: IoStage::Stat, size: None }))
}

#[test]
fn name_is_the_last_component_of_the_path() {
    assert_eq!(file_name_of("ms0:/psp/game/assets/cell_brick.png"), "cell_brick.png");
    assert_eq!(file_name_of("a\\b\\font.png"), "font.png");
    assert_eq!(file_name_of("a/b\\c/d.png"), "d.png");
    assert_eq!(file_name_of("plain.png"), "plain.png");
    assert_eq!(file_name_of("dir/"), "");
    assert_eq!(file_name_of(""), "");
    assert_eq!(Image::new("x/y/z.png").name(), "z.png");
    assert_eq!(Image::new("x/y/z.png").path(), "x/y/z.png");
    assert_eq!(Font::new("fonts\\default_font.png").name(), "default_font.png");
    assert_eq!(Font::new("fonts\\default_font.png").path(), "fonts\\default_font.png");
}

#[test]
fn adding_the_same_name_twice_loads_once() {
    let calls = Cell::new(0);
    let mut server = AssetServer::new();
    let first = server
        .add(Image::new("assets/brick.png"), |_path: String| {
            calls.set(calls.get() + 1);
            Ok(image(8, 8, 1))
        })
        .unwrap();
    let second = server
        .add(Image::new("assets/brick.png"), |_path: String| {
            calls.set(calls.get() + 1);
            Ok(image(8, 8, 1))
        })
        .unwrap();
    let third = server.add(Image::new("assets/brick.png"), not_found).unwrap();
    assert_eq!(calls.get(), 1);
    assert_eq!(first, second);
    assert_eq!(second, third);
    assert_eq!(server.size(), 1);
    assert_eq!(server.check_references("brick.png"), Some((3, 0)));
}

#[test]
fn paths_with_the_same_file_name_share_one_entry() {
    let brick_a = pattern(8, 8, 1);
    let calls = Cell::new(0);
    let mut server = AssetServer::new();
    let first = server
        .add(Image::new("a/brick.png"), |path: String| {
            calls.set(calls.get() + 1);
            assert_eq!(path, "a/brick.png");
            Ok(image(8, 8, 1))
        })
        .unwrap();
    let second = server
        .add(Image::new("b/brick.png"), |_path: String| {
            calls.set(calls.get() + 1);
            Ok(image(8, 8, 2))
        })
        .unwrap();
    assert_eq!(calls.get(), 1);
    assert_eq!(first, second);
    assert_eq!(first.name(), "brick.png");
    assert_eq!(server.size(), 1);
    // the texture is the one of the first path
    let (_, padded) = pad_rows(8, 8, &brick_a).unwrap();
    let texture = server.texture(&second).unwrap();
    assert_eq!(texture.raw_bytes(), &swizzle(8, 8, &padded)[..]);
}

#[test]
fn entry_lives_as_long_as_a_handle_is_out() {
    let mut server = AssetServer::new();
    let handle = server.add(Image::new("tex/wall.png"), wall).unwrap();
    assert_eq!(server.check_references("wall.png"), Some((1, 0)));
    server.drop_unused();
    assert_eq!(server.size(), 1);
    assert_eq!(server.check_references("wall.png"), Some((1, 0)));
    server.release(handle);
    assert_eq!(server.check_references("wall.png"), Some((0, 0)));
    assert_eq!(server.size(), 1);
    server.drop_unused();
    assert_eq!(server.size(), 0);
    assert_eq!(server.check_references("wall.png"), None);
    assert_eq!(server.get("wall.png"), None);
}

#[test]
fn get_counts_one_more_strong_handle() {
    let mut server = AssetServer::default();
    assert_eq!(server.get("wall.png"), None);
    let first = server.add(Image::new("wall.png"), wall).unwrap();
    let second = server.get("wall.png").unwrap();
    assert_eq!(first, second);
    assert_eq!(server.check_references("wall.png"), Some((2, 0)));
    server.release(first);
    server.drop_unused();
    assert_eq!(server.check_references("wall.png"), Some((1, 0)));
    assert!(server.texture(&second).is_some());
}

#[test]
fn weak_handle_keeps_the_entry_and_upgrades() {
    let mut server = AssetServer::new();
    let strong = server.add(Image::new("wall.png"), wall).unwrap();
    let weak = server.downgrade(&strong).unwrap();
    assert_eq!(server.check_references("wall.png"), Some((1, 1)));
    server.release(strong);
    server.drop_unused();
    assert_eq!(server.check_references("wall.png"), Some((0, 1)));
    let again = server.upgrade(&weak).unwrap();
    assert_eq!(server.check_references("wall.png"), Some((1, 1)));
    assert_eq!(server.texture(&again).unwrap().width(), 4);
    server.release(again);
    server.release_weak(weak);
    assert_eq!(server.check_references("wall.png"), Some((0, 0)));
    server.drop_unused();
    assert_eq!(server.size(), 0);
}

#[test]
fn handle_of_another_entry_does_not_upgrade() {
    let mut first_cache = AssetServer::new();
    let strong = first_cache.add(Image::new("wall.png"), wall).unwrap();
    let weak = first_cache.downgrade(&strong).unwrap();

    // a cache that never held the name
    let mut empty = AssetServer::new();
    assert_eq!(empty.upgrade(&weak), None);
    assert!(empty.texture(&strong).is_none());
    assert_eq!(empty.downgrade(&strong), None);

    // a cache whose entry of that name is a later one
    let mut other = AssetServer::new();
    let floor = other.add(Image::new("floor.png"), wall).unwrap();
    let wall_handle = other.add(Image::new("wall.png"), wall).unwrap();
    assert_eq!(other.upgrade(&weak), None);
    assert!(other.texture(&strong).is_none());
    assert_eq!(other.check_references("wall.png"), Some((1, 0)));
    other.release(strong);
    other.release_weak(weak);
    assert_eq!(other.check_references("wall.png"), Some((1, 0)));
    assert_eq!(other.check_references("floor.png"), Some((1, 0)));
    assert!(other.texture(&floor).is_some());
    assert!(other.texture(&wall_handle).is_some());
}

#[test]
fn release_never_counts_below_zero() {
    let mut server = AssetServer::new();
    let first = server.add(Image::new("wall.png"), wall).unwrap();
    let mut twin_cache = AssetServer::new();
    let twin = twin_cache.add(Image::new("wall.png"), wall).unwrap();
    server.release(first);
    server.release(twin);
    assert_eq!(server.check_references("wall.png"), Some((0, 0)));
}

#[test]
fn missing_file_is_an_io_error_and_changes_nothing() {
    let mut server = AssetServer::new();
    let kept = server.add(Image::new("wall.png"), wall).unwrap();
    let before = server.size();
    let result = server.add(Image::new("ms0:/nowhere/ghost.png"), not_found);
    match result {
        Err(PipelineError::Io(e)) => {
            assert_eq!(e.path, "ms0:/nowhere/ghost.png");
            assert_eq!(e.stage, IoStage::Stat);
            assert_eq!(e.size, None);
        }
        other => panic!("unexpected result: {:?}", other),
    }
    assert_eq!(server.size(), before);
    assert_eq!(server.check_references("ghost.png"), None);
    assert_eq!(server.get("ghost.png"), None);
    assert_eq!(server.check_references("wall.png"), Some((1, 0)));
    assert!(server.texture(&kept).is_some());
}

#[test]
fn failed_decode_makes_no_entry() {
    let mut server = AssetServer::new();
    let refused = PipelineError::Decode(DecodeError { reason: DecodeReason::BadHeader });
    let result = server.add(Image::new("broken.png"), |_path: String| Err(refused.clone()));
    assert_eq!(result, Err(refused));
    assert_eq!(server.size(), 0);
    // the name can be added later
    let handle = server.add(Image::new("broken.png"), wall).unwrap();
    assert_eq!(server.size(), 1);
    assert!(server.texture(&handle).is_some());
}

#[test]
fn height_that_fills_no_tiles_makes_no_entry() {
    let mut server = AssetServer::new();
    let result = server.add(Image::new("low.png"), |_path: String| Ok(image(4, 10, 0)));
    match result {
        Err(PipelineError::Decode(e)) => assert_eq!(e.reason, DecodeReason::UnsupportedHeight),
        other => panic!("unexpected result: {:?}", other),
    }
    assert_eq!(server.size(), 0);
}

#[test]
fn images_and_fonts_are_cached_in_tiles() {
    let pixels = pattern(30, 16, 5);
    let (pitch, padded) = pad_rows(30, 16, &pixels).unwrap();
    let tiles = swizzle(pitch, 16, &padded);
    assert_ne!(tiles, padded);
    let mut server = AssetServer::new();
    let image_handle = server.add(Image::new("img/sheet.png"), |_p: String| Ok(image(30, 16, 5)));
    let image_handle = image_handle.unwrap();
    let font_handle = server.add(Font::new("fonts/glyphs.png"), |_p: String| Ok(image(30, 16, 5)));
    let font_handle = font_handle.unwrap();
    for handle in [&image_handle, &font_handle] {
        let texture = server.texture(handle).unwrap();
        assert_eq!((texture.width(), texture.height(), texture.pitch()), (30, 16, 32));
        assert_eq!(texture.raw_bytes(), &tiles[..]);
        assert_eq!(unswizzle(pitch, 16, texture.raw_bytes()), padded);
        assert_eq!(texture.raw_bytes().as_ptr() as usize % 16, 0);
    }
    assert_eq!(server.size(), 2);
}

#[test]
fn entries_of_one_name_get_new_generations() {
    let mut server = AssetServer::new();
    let first = server.add(Image::new("wall.png"), wall).unwrap();
    let mut twin_cache = AssetServer::new();
    let kept = twin_cache.add(Image::new("wall.png"), wall).unwrap();
    assert_eq!(first, kept);
    server.release(first);
    server.drop_unused();
    let second = server.add(Image::new("wall.png"), wall).unwrap();
    assert_ne!(second, kept);
    assert!(server.texture(&kept).is_none());
    assert!(server.texture(&second).is_some());
}

#[test]
fn decoded_image_and_loaded_texture_can_be_added_directly() {
    let mut server = AssetServer::new();
    let direct = Image::new("a/direct.png");
    let handle = server.add_decoded(&direct, Ok(image(8, 8, 7))).unwrap();
    assert_eq!(server.check_references("direct.png"), Some((1, 0)));
    let again = server.add_decoded(&direct, not_found("a/direct.png".to_string())).unwrap();
    assert_eq!(handle, again);
    let font = Font::new("b/font.png");
    let loaded = font.load(&image(8, 8, 7));
    let glyphs = server.add_loaded(font.name(), loaded).unwrap();
    assert_eq!(server.texture(&glyphs).unwrap().pitch(), 8);
    let failed = server.add_loaded("bad.png".to_string(), font.load(&image(8, 9, 7)));
    assert!(matches!(failed, Err(PipelineError::Decode(_))));
    assert_eq!(server.size(), 2);
}

#[test]
fn error_of_the_load_is_returned_as_it_is() {
    let mut server = AssetServer::new();
    let error = PipelineError::Allocation(AllocationError { requested_size: 2048 });
    let result = server.add_loaded("big.png".to_string(), Err(error.clone()));
    assert_eq!(result, Err(error));
    assert_eq!(server.size(), 0);
    assert!(server.has_room("big.png"));
    assert!(server.has_room_to_watch("big.png"));
}
