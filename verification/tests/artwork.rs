use dexlauncher::engine::artwork::{crop_region, image_from_load, load_image, LoadFailure, SteamArtwork, GRID_HEIGHT, GRID_WIDTH, HERO_HEIGHT, HERO_WIDTH};
use image::{DynamicImage, ImageFormat, Rgb, RgbImage, Rgba, RgbaImage};
use std::io::Cursor;

fn png_bytes(image: DynamicImage) -> Vec<u8> {
    let mut buffer = Vec::new();
    image
        .write_to(&mut Cursor::new(&mut buffer), ImageFormat::Png)
        .expect("PNG encoding");
    buffer
}

/// A banner with a gradient and some texture, wider than the grid slot.
fn banner_png() -> Vec<u8> {
    let image = RgbImage::from_fn(1280, 480, |x, y| {
        Rgb([(x % 256) as u8, (y % 256) as u8, ((x * 7 + y * 13) % 256) as u8])
    });
    png_bytes(DynamicImage::ImageRgb8(image))
}

/// A transparent logo with noise, so that it does not compress to almost nothing.
fn logo_png() -> Vec<u8> {
    let mut state: u32 = 12345;
    let image = RgbaImage::from_fn(320, 160, |_, _| {
        state = state.wrapping_mul(1103515245).wrapping_add(12345);
        let v = (state >> 16) as u8;
        Rgba([v, v.wrapping_mul(3), v.wrapping_add(90), v / 2])
    });
    png_bytes(DynamicImage::ImageRgba8(image))
}

#[test]
fn test_generate_artwork() {
    let artwork = SteamArtwork::generate(&banner_png(), &logo_png()).expect("Failed to generate artwork");

    // Verify sizes are reasonable
    assert!(artwork.grid_jpeg.len() > 1000, "Grid image too small");
    assert!(artwork.hero_jpeg.len() > 1000, "Hero image too small");
    assert!(artwork.logo_png.len() > 1000, "Logo image too small");

    // Verify JPEG magic bytes
    assert_eq!(&artwork.grid_jpeg[0..2], &[0xFF, 0xD8], "Grid not a JPEG");
    assert_eq!(&artwork.hero_jpeg[0..2], &[0xFF, 0xD8], "Hero not a JPEG");

    // Verify PNG magic bytes
    assert_eq!(&artwork.logo_png[0..8], &[0x89, 0x50, 0x4E, 0x47, 0x0D, 0x0A, 0x1A, 0x0A], "Logo not a PNG");
}

#[test]
fn generated_pictures_have_the_slot_sizes() {
    let artwork = SteamArtwork::generate(&banner_png(), &logo_png()).expect("artwork");
    let grid = image::load_from_memory(&artwork.grid_jpeg).expect("grid decodes");
    let hero = image::load_from_memory(&artwork.hero_jpeg).expect("hero decodes");
    assert_eq!((grid.width(), grid.height()), (GRID_WIDTH, GRID_HEIGHT));
    assert_eq!((hero.width(), hero.height()), (HERO_WIDTH, HERO_HEIGHT));
}

#[test]
fn logo_is_kept_byte_for_byte() {
    let logo = logo_png();
    let artwork = SteamArtwork::generate(&banner_png(), &logo).expect("artwork");
    assert_eq!(artwork.logo_png, logo);
}

#[test]
fn undecodable_banner_is_a_steam_error() {
    let err = SteamArtwork::generate(b"not a picture at all", &logo_png()).unwrap_err();
    let message = err.to_message();
    assert!(
        message.starts_with("Steam error: Failed to decode banner.png: "),
        "{}",
        message
    );
}

/// The crop box as `f32` arithmetic gives it (release-build wrapping subtraction).
fn f32_crop(w: u32, h: u32, width: u32, height: u32) -> (u32, u32, u32, u32) {
    let src_ratio = w as f32 / h as f32;
    let dst_ratio = width as f32 / height as f32;
    let (cw, ch) = if src_ratio > dst_ratio {
        ((h as f32 * dst_ratio) as u32, h)
    } else {
        (w, (w as f32 / dst_ratio) as u32)
    };
    (w.wrapping_sub(cw) / 2, h.wrapping_sub(ch) / 2, cw, ch)
}

#[test]
fn crop_region_exact_values() {
    // 1280x480 is wider than 460:215: keep the height, width 480 * 2.1395... = 1026.97
    assert_eq!(crop_region(1280, 480, GRID_WIDTH, GRID_HEIGHT), (127, 0, 1026, 480));
    // a square source is taller than the hero slot: keep the width
    assert_eq!(crop_region(1000, 1000, HERO_WIDTH, HERO_HEIGHT), (0, 339, 1000, 322));
    // same ratio as the slot
    assert_eq!(crop_region(920, 430, GRID_WIDTH, GRID_HEIGHT), (0, 0, 920, 430));
    // empty sources give an empty crop
    assert_eq!(crop_region(0, 50, GRID_WIDTH, GRID_HEIGHT), (0, 25, 0, 0));
    assert_eq!(crop_region(50, 0, GRID_WIDTH, GRID_HEIGHT), (25, 0, 0, 0));
}

#[test]
fn crop_region_agrees_with_f32_arithmetic() {
    let slots = [(GRID_WIDTH, GRID_HEIGHT), (HERO_WIDTH, HERO_HEIGHT), (1, 3), (7, 1), (16_777_217, 3)];
    let mut sizes: Vec<u32> = (1..=300).collect();
    sizes.extend([1023, 1024, 1025, 4095, 8_388_607, 8_388_608, 8_388_609, 16_777_215, 16_777_216, 16_777_217, 16_777_219, 123_456_789, u32::MAX - 1, u32::MAX]);
    for &(width, height) in &slots {
        for &w in &sizes {
            for &h in &[1u32, 2, 3, 215, 480, 620, 1000, 16_777_217, u32::MAX] {
                assert_eq!(crop_region(w, h, width, height), f32_crop(w, h, width, height), "{}x{} for {}x{}", w, h, width, height);
                assert_eq!(crop_region(h, w, width, height), f32_crop(h, w, width, height), "{}x{} for {}x{}", h, w, width, height);
            }
        }
    }
}

#[test]
fn crops_of_ordinary_pictures_lie_inside_them() {
    let slots = [(GRID_WIDTH, GRID_HEIGHT), (HERO_WIDTH, HERO_HEIGHT), (1, 1), (3, 1000), (4_000_000_000, 1)];
    for &(width, height) in &slots {
        for w in (1..5000u32).step_by(37).chain([8_388_607]) {
            for h in (1..5000u32).step_by(41).chain([8_388_607]) {
                let (x, y, cw, ch) = crop_region(w, h, width, height);
                assert!(cw <= w && ch <= h, "{}x{} for {}x{}", w, h, width, height);
                assert!(cw == w || ch == h);
                assert_eq!((x, y), ((w - cw) / 2, (h - ch) / 2));
            }
        }
    }
}

#[test]
fn huge_pictures_can_get_a_crop_taller_than_themselves() {
    // beyond 2^23 pixels a side, f32 rounding can make the crop one pixel too
    // tall; the offset then wraps as the u32 subtraction does
    assert_eq!(f32_crop(35_895_446, 16_777_219, GRID_WIDTH, GRID_HEIGHT), (0, 2_147_483_647, 35_895_446, 16_777_220));
    assert_eq!(crop_region(35_895_446, 16_777_219, GRID_WIDTH, GRID_HEIGHT), (0, 2_147_483_647, 35_895_446, 16_777_220));
}

#[test]
fn load_failures_name_the_step_and_the_picture() {
    let read = match image_from_load(Err(LoadFailure::Read("early end".to_string())), "icon.png") {
        Err(e) => e,
        Ok(_) => panic!("a failed read loaded"),
    };
    assert_eq!(read.to_message(), "Steam error: Failed to read icon.png: early end");
    let decode = match image_from_load(Err(LoadFailure::Decode("bad header".to_string())), "logo.png") {
        Err(e) => e,
        Ok(_) => panic!("a failed decode loaded"),
    };
    assert_eq!(decode.to_message(), "Steam error: Failed to decode logo.png: bad header");
}

#[test]
fn load_image_loads_a_png_and_refuses_noise() {
    let picture = match load_image(&banner_png(), "banner.png") {
        Ok(p) => p,
        Err(e) => panic!("{}", e.to_message()),
    };
    assert_eq!((picture.width(), picture.height()), (1280, 480));
    let err = match load_image(b"noise", "noise.bin") {
        Err(e) => e,
        Ok(_) => panic!("noise loaded"),
    };
    assert!(err.to_message().starts_with("Steam error: Failed to decode noise.bin: "), "{}", err.to_message());
}

#[test]
fn generating_twice_gives_the_same_bytes() {
    let first = SteamArtwork::generate(&banner_png(), &logo_png()).expect("artwork");
    let second = SteamArtwork::generate(&banner_png(), &logo_png()).expect("artwork");
    assert_eq!(first.grid_jpeg, second.grid_jpeg);
    assert_eq!(first.hero_jpeg, second.hero_jpeg);
}
