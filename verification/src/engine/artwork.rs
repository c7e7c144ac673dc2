//! Steam artwork made from a banner and a logo: the banner is centre-cropped
//! to the aspect ratio of each Steam slot, resized to it and encoded as JPEG.
//!
//! The crop is computed in single precision; `crop_region` gives exactly the
//! box that `f32` arithmetic gives, rounding step by step.
use vstd::prelude::*;
use std::io::Cursor;
use image::{ImageFormat, ImageReader};
use crate::error::LauncherError;
use crate::text::push_str;
use crate::utils::single::{
    Single, single_of, single_ratio, single_to_u32, two_pow, single_of_u32, single_div,
    single_mul, single_gt, single_to_u32_exec, lemma_two_pow_values, lemma_single_exact_int,
    lemma_single_facts, lemma_single_monotone, lemma_rounded_is_exact, lemma_to_u32_monotone,
};

verus! {

/// Steam grid artwork size.
pub const GRID_WIDTH: u32 = 460;
pub const GRID_HEIGHT: u32 = 215;
/// Steam hero artwork size.
pub const HERO_WIDTH: u32 = 1920;
pub const HERO_HEIGHT: u32 = 620;

/// The three pictures Steam shows for a shortcut.
#[derive(Debug)]
pub struct SteamArtwork {
    pub grid_jpeg: Vec<u8>,
    pub hero_jpeg: Vec<u8>,
    pub logo_png: Vec<u8>,
}

/// The size `(cw, ch)` of the centre crop of a `w` by `h` image to the aspect
/// ratio of `width` by `height`. The ratios are single-precision quotients; a
/// source wider than the target keeps its height and gets the width
/// `h * ratio`, any other keeps its width and gets the height `w / ratio`, each
/// truncated. An empty source gives an empty crop (its ratio is zero, not a
/// number, or infinite, and the product or quotient that follows is zero).
pub open spec fn crop_size(w: nat, h: nat, width: nat, height: nat) -> (nat, nat) {
    if w == 0 || h == 0 {
        (0, 0)
    } else {
        let fw = single_of(w);
        let fh = single_of(h);
        let dst = single_ratio(single_of(width), single_of(height));
        if single_ratio(fw, fh) > dst {
            (single_to_u32(single_ratio(fh * dst, two_pow(128))), h)
        } else {
            (w, single_to_u32(single_ratio(fw, dst)))
        }
    }
}

/// Half of what is left of `total` beside `part`, the difference taken as a
/// wrapping `u32` subtraction.
pub open spec fn centre_offset(total: nat, part: nat) -> nat {
    if part <= total {
        ((total - part) as nat) / 2
    } else {
        ((total + 0x1_0000_0000 - part) as nat) / 2
    }
}

/// The crop box `(x, y, cw, ch)` of a `w` by `h` image for a `width` by `height` slot.
pub open spec fn crop_box(w: nat, h: nat, width: nat, height: nat) -> (nat, nat, nat, nat) {
    let (cw, ch) = crop_size(w, h, width, height);
    (centre_offset(w, cw), centre_offset(h, ch), cw, ch)
}

/// For pictures whose sides are below `2^23` pixels, the crop lies inside
/// the picture: it keeps one whole side and is no larger than the picture on
/// the other, so the offsets centre it without wrapping.
pub proof fn crop_lies_inside(w: nat, h: nat, width: nat, height: nat)
    requires
        1 <= w < 0x800000,
        1 <= h < 0x800000,
        1 <= width <= u32::MAX,
        1 <= height <= u32::MAX,
    ensures
        crop_size(w, h, width, height).0 <= w,
        crop_size(w, h, width, height).1 <= h,
        crop_size(w, h, width, height).0 == w || crop_size(w, h, width, height).1 == h,
        crop_box(w, h, width, height) == (
            ((w - crop_size(w, h, width, height).0) as nat) / 2,
            ((h - crop_size(w, h, width, height).1) as nat) / 2,
            crop_size(w, h, width, height).0,
            crop_size(w, h, width, height).1,
        ),
{
    lemma_two_pow_values();
    let s64 = two_pow(64);
    let s128 = two_pow(128);
    // the sides are exact
    lemma_single_exact_int(w, 1, w, 64);
    lemma_single_exact_int(h, 1, h, 64);
    let fw = single_of(w);
    let fh = single_of(h);
    assert(fw == w * s64 && fh == h * s64);
    // the slot's sides and ratio are within a factor 2 of the exact ones
    lemma_single_facts(width, 1);
    lemma_single_facts(height, 1);
    let tw = single_of(width);
    let th = single_of(height);
    assert(0x8000_0000_0000_0000 <= tw <= 0x2_0000_0000_0000_0000_0000_0000) by (nonlinear_arith)
        requires
            tw * 1 <= 2 * (width * s64),
            width * s64 <= 2 * tw * 1,
            1 <= width <= 0xffff_ffff,
            s64 == 0x1_0000_0000_0000_0000,
    ;
    assert(0x8000_0000_0000_0000 <= th <= 0x2_0000_0000_0000_0000_0000_0000) by (nonlinear_arith)
        requires
            th * 1 <= 2 * (height * s64),
            height * s64 <= 2 * th * 1,
            1 <= height <= 0xffff_ffff,
            s64 == 0x1_0000_0000_0000_0000,
    ;
    assert(two_pow(23) * th <= tw * s64) by (nonlinear_arith)
        requires
            0x8000_0000_0000_0000 <= tw,
            th <= 0x2_0000_0000_0000_0000_0000_0000,
            two_pow(23) == 0x800000,
            s64 == 0x1_0000_0000_0000_0000,
    ;
    lemma_single_facts(tw, th);
    let dst = single_ratio(tw, th);
    assert(0x2000_0000 <= dst <= 0x8_0000_0000_0000_0000_0000_0000) by (nonlinear_arith)
        requires
            dst * th <= 2 * (tw * s64),
            tw * s64 <= 2 * dst * th,
            0x8000_0000_0000_0000 <= tw <= 0x2_0000_0000_0000_0000_0000_0000,
            0x8000_0000_0000_0000 <= th <= 0x2_0000_0000_0000_0000_0000_0000,
            s64 == 0x1_0000_0000_0000_0000,
    ;
    assert(two_pow(23) * fh <= fw * s64) by (nonlinear_arith)
        requires
            fw == w * s64,
            fh == h * s64,
            1 <= w,
            h < 0x800000,
            two_pow(23) == 0x800000,
            s64 == 0x1_0000_0000_0000_0000,
    ;
    lemma_single_facts(fw, fh);
    let src = single_ratio(fw, fh);
    if src > dst {
        // the exact ratio is at least the slot's: otherwise it would round to at most `dst`
        assert(dst * h <= w * s64) by {
            if dst * h > w * s64 {
                assert(two_pow(23) * s64 <= dst * s64) by (nonlinear_arith)
                    requires
                        dst >= 0x2000_0000,
                        two_pow(23) == 0x800000,
                ;
                assert(fw * s64 <= dst * fh) by (nonlinear_arith)
                    requires
                        dst * h > w * s64,
                        fw == w * s64,
                        fh == h * s64,
                ;
                lemma_single_monotone(fw, fh, dst, s64);
                lemma_rounded_is_exact(tw, th);
            }
        }
        assert(two_pow(23) * s128 <= (fh * dst) * s64 && (fh * dst) * 1 <= w * s128) by (nonlinear_arith)
            requires
                dst * h <= w * s64,
                dst >= 0x2000_0000,
                fh == h * s64,
                h >= 1,
                two_pow(23) == 0x800000,
                s64 == 0x1_0000_0000_0000_0000,
                s128 == s64 * s64,
        ;
        assert(two_pow(23) * 1 <= w * s64);
        lemma_single_monotone(fh * dst, s128, w, 1);
        lemma_to_u32_monotone(single_ratio(fh * dst, s128), w * s64);
        assert((w * s64) / s64 == w) by (nonlinear_arith)
            requires
                s64 == 0x1_0000_0000_0000_0000,
        ;
    } else {
        // the exact ratio exceeds the slot's by at most a factor 1 + 2^-24
        assert((fw * s64) * 0x1000000 <= 0x1000001 * dst * fh) by (nonlinear_arith)
            requires
                (fw * s64) * 0x1000000 <= 0x1000001 * src * fh,
                src <= dst,
        ;
        assert(fw * 2 <= (2 * h + 1) * dst) by (nonlinear_arith)
            requires
                (fw * s64) * 0x1000000 <= 0x1000001 * dst * fh,
                fw == w * s64,
                fh == h * s64,
                h < 0x800000,
                s64 == 0x1_0000_0000_0000_0000,
        ;
        assert(two_pow(23) * dst <= fw * s64) by (nonlinear_arith)
            requires
                dst <= 0x8_0000_0000_0000_0000_0000_0000,
                fw == w * s64,
                w >= 1,
                two_pow(23) == 0x800000,
                s64 == 0x1_0000_0000_0000_0000,
        ;
        assert(two_pow(23) * 2 <= (2 * h + 1) * s64);
        lemma_single_monotone(fw, dst, 2 * h + 1, 2);
        assert(two_pow(63) * 2 == s64) by {
            crate::utils::single::lemma_two_pow_add(63, 1);
            assert(two_pow(1) == 2);
        }
        assert((2 * h + 1) * s64 == (2 * h + 1) * two_pow(63) * 2) by (nonlinear_arith)
            requires
                two_pow(63) * 2 == s64,
        ;
        lemma_single_exact_int(2 * h + 1, 2, 2 * h + 1, 63);
        lemma_to_u32_monotone(single_ratio(fw, dst), (2 * h + 1) * two_pow(63));
        assert(((2 * h + 1) * two_pow(63)) / s64 == h) by (nonlinear_arith)
            requires
                two_pow(63) * 2 == s64,
                s64 == 0x1_0000_0000_0000_0000,
        ;
    }
}

/// The crop box of a `w` by `h` image for a `width` by `height` slot.
pub fn crop_region(w: u32, h: u32, width: u32, height: u32) -> (r: (u32, u32, u32, u32))
    requires
        width >= 1,
        height >= 1,
    ensures
        (r.0 as nat, r.1 as nat, r.2 as nat, r.3 as nat) == crop_box(
            w as nat,
            h as nat,
            width as nat,
            height as nat,
        ),
{
    let (cw, ch) = crop_dimensions(w, h, width, height);
    (w.wrapping_sub(cw) / 2, h.wrapping_sub(ch) / 2, cw, ch)
}

fn crop_dimensions(w: u32, h: u32, width: u32, height: u32) -> (r: (u32, u32))
    requires
        width >= 1,
        height >= 1,
    ensures
        (r.0 as nat, r.1 as nat) == crop_size(w as nat, h as nat, width as nat, height as nat),
{
    if w == 0 || h == 0 {
        return (0, 0);
    }
    proof {
        lemma_two_pow_values();
    }
    let fw = single_of_u32(w);
    let fh = single_of_u32(h);
    let tw = single_of_u32(width);
    let th = single_of_u32(height);
    proof {
        assert(two_pow(23) * fh.value() <= fw.value() * two_pow(64) && fw.value() * two_pow(64)
            < two_pow(144) * fh.value()) by (nonlinear_arith)
            requires
                0x8000_0000_0000_0000 <= fw.value() <= 0x2_0000_0000_0000_0000_0000_0000,
                0x8000_0000_0000_0000 <= fh.value() <= 0x2_0000_0000_0000_0000_0000_0000,
                two_pow(23) == 0x800000,
                two_pow(64) == 0x1_0000_0000_0000_0000,
                two_pow(144) == 0x1_0000_0000_0000_0000_0000_0000_0000_0000_0000,
        ;
        assert(two_pow(23) * th.value() <= tw.value() * two_pow(64) && tw.value() * two_pow(64)
            < two_pow(144) * th.value()) by (nonlinear_arith)
            requires
                0x8000_0000_0000_0000 <= tw.value() <= 0x2_0000_0000_0000_0000_0000_0000,
                0x8000_0000_0000_0000 <= th.value() <= 0x2_0000_0000_0000_0000_0000_0000,
                two_pow(23) == 0x800000,
                two_pow(64) == 0x1_0000_0000_0000_0000,
                two_pow(144) == 0x1_0000_0000_0000_0000_0000_0000_0000_0000_0000,
        ;
    }
    let src = single_div(&fw, &fh);
    let dst = single_div(&tw, &th);
    proof {
        assert(0x2000_0000 <= dst.value() <= 0x8_0000_0000_0000_0000_0000_0000) by (nonlinear_arith)
            requires
                dst.value() * th.value() <= 2 * (tw.value() * 0x1_0000_0000_0000_0000),
                tw.value() * 0x1_0000_0000_0000_0000 <= 2 * dst.value() * th.value(),
                0x8000_0000_0000_0000 <= tw.value() <= 0x2_0000_0000_0000_0000_0000_0000,
                0x8000_0000_0000_0000 <= th.value() <= 0x2_0000_0000_0000_0000_0000_0000,
        ;
    }
    if single_gt(&src, &dst) {
        proof {
            assert(two_pow(23) * two_pow(128) <= (fh.value() * dst.value()) * two_pow(64) && (
            fh.value() * dst.value()) * two_pow(64) < two_pow(144) * two_pow(128))
                by (nonlinear_arith)
                requires
                    0x2000_0000 <= dst.value() <= 0x8_0000_0000_0000_0000_0000_0000,
                    0x8000_0000_0000_0000 <= fh.value() <= 0x2_0000_0000_0000_0000_0000_0000,
                    two_pow(23) == 0x800000,
                    two_pow(64) == 0x1_0000_0000_0000_0000,
                    two_pow(128) == 0x1_0000_0000_0000_0000_0000_0000_0000_0000,
                    two_pow(144) == 0x1_0000_0000_0000_0000_0000_0000_0000_0000_0000,
            ;
        }
        let cropped = single_mul(&fh, &dst);
        (single_to_u32_exec(&cropped), h)
    } else {
        proof {
            assert(two_pow(23) * dst.value() <= fw.value() * two_pow(64) && fw.value() * two_pow(
                64,
            ) < two_pow(144) * dst.value()) by (nonlinear_arith)
                requires
                    0x2000_0000 <= dst.value() <= 0x8_0000_0000_0000_0000_0000_0000,
                    0x8000_0000_0000_0000 <= fw.value() <= 0x2_0000_0000_0000_0000_0000_0000,
                    two_pow(23) == 0x800000,
                    two_pow(64) == 0x1_0000_0000_0000_0000,
                    two_pow(144) == 0x1_0000_0000_0000_0000_0000_0000_0000_0000_0000,
            ;
        }
        let cropped = single_div(&fw, &dst);
        (w, single_to_u32_exec(&cropped))
    }
}

/// Why a picture could not be loaded: its start could not be read to guess
/// its format, or its data could not be decoded. Each holds the outside
/// error's text.
#[derive(Debug)]
pub enum LoadFailure {
    Read(String),
    Decode(String),
}

/// What the image crate makes of `bytes`: the width and height of the decoded
/// picture, or which step failed (`true` when reading the start of the data to
/// guess its format, `false` when decoding) with the crate's error message. It
/// depends on the bytes alone (the crate's format-detection and decoding hooks
/// stay as the crate starts them: nothing here registers any).
pub uninterp spec fn picture_load(bytes: Seq<u8>) -> Result<(u32, u32), (bool, Seq<char>)>;

/// `ImageReader::new(Cursor::new(bytes)).with_guessed_format()`, then
/// `decode()`, then the decoded picture's `width()` and `height()`, from the
/// image crate. Claimed: the size, or the failed step with the crate's error
/// message, is `picture_load` of the bytes.
#[verifier::external_body]
fn load_picture(bytes: &[u8]) -> (r: Result<(u32, u32), LoadFailure>)
    ensures
        match r {
            Ok((w, h)) => picture_load(bytes@) == Ok::<(u32, u32), (bool, Seq<char>)>((w, h)),
            Err(LoadFailure::Read(d)) => picture_load(bytes@) == Err::<(u32, u32), (bool, Seq<char>)>(
                (true, d@),
            ),
            Err(LoadFailure::Decode(d)) => picture_load(bytes@) == Err::<(u32, u32), (bool, Seq<char>)>(
                (false, d@),
            ),
        },
{
    let reader = match ImageReader::new(Cursor::new(bytes)).with_guessed_format() {
        Ok(reader) => reader,
        Err(e) => return Err(LoadFailure::Read(e.to_string())),
    };
    match reader.decode() {
        Ok(image) => Ok((image.width(), image.height())),
        Err(e) => Err(LoadFailure::Decode(e.to_string())),
    }
}

/// A picture that the image crate can decode: its bytes and its size.
pub struct Picture {
    bytes: Vec<u8>,
    width: u32,
    height: u32,
}

impl View for Picture {
    /// Its bytes, its width and its height.
    type V = (Seq<u8>, u32, u32);

    closed spec fn view(&self) -> (Seq<u8>, u32, u32) {
        (self.bytes@, self.width, self.height)
    }
}

impl Picture {
    /// Width in pixels.
    pub fn width(&self) -> (w: u32)
        ensures
            w == self@.1,
    {
        self.width
    }

    /// Height in pixels.
    pub fn height(&self) -> (h: u32)
        ensures
            h == self@.2,
    {
        self.height
    }
}

/// The JPEG bytes that the image crate writes for the picture decoded from
/// `source`, cropped to the box `crop` (`crop_imm`, which clamps the box to
/// the picture) and resized to `size` (`resize_exact`, Lanczos), or the text
/// of the first error among these steps. Every step is deterministic, so it
/// depends on these values alone.
pub uninterp spec fn jpeg_rendering(
    source: Seq<u8>,
    crop: (u32, u32, u32, u32),
    size: (u32, u32),
) -> Result<Seq<u8>, Seq<char>>;

/// From the image crate: decodes `source` (`ImageReader` with a guessed
/// format, `decode`), crops it (`crop_imm`), resizes it (`resize_exact` with
/// `Lanczos3`) and writes it as JPEG into a new buffer. Claimed: the bytes, or
/// the error's text, are `jpeg_rendering` of these arguments; and the crate's
/// JPEG encoder writes the start-of-image marker `FF D8` before anything
/// else, so a buffer it fills without error starts with it.
#[verifier::external_body]
fn render_slot(source: &[u8], crop: (u32, u32, u32, u32), size: (u32, u32)) -> (r: Result<
    Vec<u8>,
    String,
>)
    ensures
        match r {
            Ok(v) => jpeg_rendering(source@, crop, size) == Ok::<Seq<u8>, Seq<char>>(v@),
            Err(e) => jpeg_rendering(source@, crop, size) == Err::<Seq<u8>, Seq<char>>(e@),
        },
        r matches Ok(v) ==> v@.len() >= 2 && v@[0] == 0xFF && v@[1] == 0xD8,
{
    let reader = ImageReader::new(Cursor::new(source)).with_guessed_format().map_err(|e| e.to_string())?;
    let image = reader.decode().map_err(|e| e.to_string())?;
    let slot = image.crop_imm(crop.0, crop.1, crop.2, crop.3).resize_exact(
        size.0,
        size.1,
        image::imageops::FilterType::Lanczos3,
    );
    let mut buffer = Vec::new();
    match slot.write_to(&mut Cursor::new(&mut buffer), ImageFormat::Jpeg) {
        Ok(()) => Ok(buffer),
        Err(e) => Err(e.to_string()),
    }
}

/// `v` holds a JPEG stream's start-of-image marker first.
pub open spec fn starts_as_jpeg(v: Seq<u8>) -> bool {
    v.len() >= 2 && v[0] == 0xFF && v[1] == 0xD8
}

/// A Steam error whose message is `head`, then `name`, then `tail`, then the outside detail.
fn steam_error(head: &str, name: &str, tail: &str, detail: &str) -> (e: LauncherError)
    ensures
        e matches LauncherError::Steam(m) && m@ == head@ + name@ + tail@ + detail@,
{
    let mut m = String::from_str(head);
    push_str(&mut m, name);
    push_str(&mut m, tail);
    push_str(&mut m, detail);
    LauncherError::Steam(m)
}

/// The message of a failed load of the picture `name`: `Failed to read `
/// (format guessing) or `Failed to decode ` (decoding), the name, `: ` and the
/// image crate's text.
pub open spec fn load_message(name: Seq<char>, read_stage: bool, detail: Seq<char>) -> Seq<char> {
    (if read_stage {
        "Failed to read "@
    } else {
        "Failed to decode "@
    }) + name + ": "@ + detail
}

/// The message of a JPEG that could not be encoded, with the encoder's text.
pub open spec fn encode_message(detail: Seq<char>) -> Seq<char> {
    "Failed to encode JPEG: "@ + detail
}

/// What loading the picture `name` gives once the image crate has answered:
/// the picture itself, or a Steam error that names the failed step and the
/// picture and carries the crate's text.
pub fn image_from_load(loaded: Result<Picture, LoadFailure>, name: &str) -> (r: Result<
    Picture,
    LauncherError,
>)
    ensures
        loaded matches Ok(i) ==> r == Ok::<Picture, LauncherError>(i),
        loaded matches Err(LoadFailure::Read(d)) ==> r matches Err(LauncherError::Steam(m))
            && m@ == load_message(name@, true, d@),
        loaded matches Err(LoadFailure::Decode(d)) ==> r matches Err(LauncherError::Steam(m))
            && m@ == load_message(name@, false, d@),
{
    match loaded {
        Ok(image) => Ok(image),
        Err(LoadFailure::Read(detail)) => Err(
            steam_error("Failed to read ", name, ": ", detail.as_str()),
        ),
        Err(LoadFailure::Decode(detail)) => Err(
            steam_error("Failed to decode ", name, ": ", detail.as_str()),
        ),
    }
}

/// Loads a picture, naming it `name` in the error: it loads exactly when the
/// image crate can guess and decode `bytes`, with the size the crate reports,
/// and otherwise the message names the step that failed, the picture and the
/// crate's text.
pub fn load_image(bytes: &[u8], name: &str) -> (r: Result<Picture, LauncherError>)
    ensures
        match picture_load(bytes@) {
            Ok((w, h)) => r matches Ok(p) && p@ == (bytes@, w, h),
            Err((stage, d)) => r matches Err(LauncherError::Steam(m)) && m@ == load_message(
                name@,
                stage,
                d,
            ),
        },
{
    let loaded = match load_picture(bytes) {
        Ok((width, height)) => Ok(Picture { bytes: bytes_of(bytes), width, height }),
        Err(failure) => Err(failure),
    };
    let r = image_from_load(loaded, name);
    proof {
        if let Err((stage, d)) = picture_load(bytes@) {
            let m = r->Err_0->Steam_0@;
            if stage {
                assert(m == load_message(name@, true, d));
            } else {
                assert(m == load_message(name@, false, d));
            }
        }
    }
    r
}

/// The crop box of a `w` by `h` picture for a `width` by `height` slot, in pixels.
pub open spec fn crop_in_pixels(w: u32, h: u32, width: u32, height: u32) -> (u32, u32, u32, u32) {
    let b = crop_box(w as nat, h as nat, width as nat, height as nat);
    (b.0 as u32, b.1 as u32, b.2 as u32, b.3 as u32)
}

/// The JPEG for a `width` by `height` slot of the picture decoded from
/// `source`, whose size is `w` by `h`: its centre crop to the slot's aspect
/// ratio, resized to the slot.
pub open spec fn slot_jpeg(source: Seq<u8>, w: u32, h: u32, width: u32, height: u32) -> Result<
    Seq<u8>,
    Seq<char>,
> {
    jpeg_rendering(source, crop_in_pixels(w, h, width, height), (width, height))
}

/// Centre-crops `picture` to the aspect ratio of `width` by `height` (the box of
/// `crop_region` for its size), resizes it to that size and encodes it as JPEG.
pub fn resize_and_encode(picture: &Picture, width: u32, height: u32) -> (r: Result<
    Vec<u8>,
    LauncherError,
>)
    requires
        width >= 1,
        height >= 1,
    ensures
        match slot_jpeg(picture@.0, picture@.1, picture@.2, width, height) {
            Ok(v) => r matches Ok(b) && b@ == v,
            Err(d) => r matches Err(LauncherError::Steam(m)) && m@ == encode_message(d),
        },
        r matches Ok(v) ==> starts_as_jpeg(v@),
{
    let crop = crop_region(picture.width, picture.height, width, height);
    assert(crop == crop_in_pixels(picture@.1, picture@.2, width, height));
    match render_slot(picture.bytes.as_slice(), crop, (width, height)) {
        Ok(buffer) => Ok(buffer),
        Err(detail) => {
            let e = steam_error("Failed to encode JPEG: ", "", "", detail.as_str());
            proof {
                reveal_strlit("");
                assert(e->Steam_0@ == "Failed to encode JPEG: "@ + detail@);
            }
            Err(e)
        },
    }
}

/// A copy of `bytes`.
fn bytes_of(bytes: &[u8]) -> (v: Vec<u8>)
    ensures
        v@ == bytes@,
{
    let mut v: Vec<u8> = Vec::new();
    for i in 0..bytes.len()
        invariant
            v@ == bytes@.subrange(0, i as int),
    {
        v.push(bytes[i]);
    }
    v
}

/// What making artwork gives once both slots are rendered: the first failed
/// JPEG's error, or the two JPEGs with the logo.
pub open spec fn artwork_outcome(
    r: Result<SteamArtwork, LauncherError>,
    logo: Seq<u8>,
    grid: Result<Seq<u8>, Seq<char>>,
    hero: Result<Seq<u8>, Seq<char>>,
) -> bool {
    match grid {
        Err(d) => r matches Err(LauncherError::Steam(m)) && m@ == encode_message(d),
        Ok(g) => match hero {
            Err(d) => r matches Err(LauncherError::Steam(m)) && m@ == encode_message(d),
            Ok(hj) => r matches Ok(a) && a.grid_jpeg@ == g && a.hero_jpeg@ == hj && a.logo_png@
                == logo,
        },
    }
}

impl SteamArtwork {
    /// The Steam artwork for a banner and a logo: the banner centre-cropped and
    /// resized to the grid (460 by 215) and hero (1920 by 620) sizes as JPEG,
    /// and the logo as it is. A banner that cannot be loaded, or a slot that
    /// cannot be encoded, gives its error.
    pub fn generate(banner: &[u8], logo: &[u8]) -> (r: Result<SteamArtwork, LauncherError>)
        ensures
            match picture_load(banner@) {
                Err((stage, d)) => r matches Err(LauncherError::Steam(m)) && m@ == load_message(
                    "banner.png"@,
                    stage,
                    d,
                ),
                Ok((w, h)) => artwork_outcome(
                    r,
                    logo@,
                    slot_jpeg(banner@, w, h, GRID_WIDTH, GRID_HEIGHT),
                    slot_jpeg(banner@, w, h, HERO_WIDTH, HERO_HEIGHT),
                ),
            },
            r matches Ok(a) ==> starts_as_jpeg(a.grid_jpeg@) && starts_as_jpeg(a.hero_jpeg@),
    {
        let banner_image = match load_image(banner, "banner.png") {
            Ok(image) => image,
            Err(e) => {
                return Err(e);
            },
        };
        let grid_jpeg = match resize_and_encode(&banner_image, GRID_WIDTH, GRID_HEIGHT) {
            Ok(v) => v,
            Err(e) => {
                return Err(e);
            },
        };
        let hero_jpeg = match resize_and_encode(&banner_image, HERO_WIDTH, HERO_HEIGHT) {
            Ok(v) => v,
            Err(e) => {
                return Err(e);
            },
        };
        let logo_png = bytes_of(logo);
        Ok(SteamArtwork { grid_jpeg, hero_jpeg, logo_png })
    }
}

} // verus!
