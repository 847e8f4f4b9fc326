use image::{DynamicImage, ImageFormat};
use vstd::prelude::*;

use crate::error::ProcessError;
use crate::rules::{chars_of, extension, extension_bounds};

verus! {

#[verifier::external_type_specification]
#[verifier::external_body]
pub struct ExDynamicImage(image::DynamicImage);

#[verifier::external_type_specification]
pub struct ExImageFormat(image::ImageFormat);

#[verifier::external_type_specification]
#[verifier::external_body]
pub struct ExImageError(image::ImageError);

/// Width and height of every watermarked image, and of the watermark.
pub const CANVAS: u32 = 500;

/// Names the image that `image::load_from_memory` decodes from bytes, if any.
pub uninterp spec fn image_decoded(b: Seq<u8>) -> Option<DynamicImage>;

/// Names the width and height of an image.
pub uninterp spec fn image_dims(d: DynamicImage) -> (u32, u32);

/// Names the image that `DynamicImage::resize_exact` makes with nearest-neighbour
/// sampling.
pub uninterp spec fn image_resized(d: DynamicImage, w: u32, h: u32) -> DynamicImage;

/// Names the image that `imageops::overlay` makes by blending an RGBA raster of the
/// given size over the top-left corner of an image.
pub uninterp spec fn image_overlaid(d: DynamicImage, w: u32, h: u32, rgba: Seq<u8>) -> DynamicImage;

/// `ext` equals the lower-case ASCII word `w` once its ASCII letters are lower-cased.
pub open spec fn ascii_word(ext: Seq<char>, w: Seq<char>) -> bool {
    ext.len() == w.len() && forall|i: int|
        0 <= i < w.len() ==> (#[trigger] ext[i] == w[i] || ('a' <= w[i] <= 'z' && ext[i] as u32 + 32
            == w[i] as u32))
}

/// The format that `ImageFormat::from_extension` gives an extension, if any.
pub open spec fn image_format_of(e: Seq<char>) -> Option<ImageFormat> {
    if ascii_word(e, seq!['a', 'v', 'i', 'f']) {
        Some(ImageFormat::Avif)
    } else if ascii_word(e, seq!['j', 'p', 'g']) || ascii_word(e, seq!['j', 'p', 'e', 'g'])
        || ascii_word(e, seq!['j', 'f', 'i', 'f']) {
        Some(ImageFormat::Jpeg)
    } else if ascii_word(e, seq!['p', 'n', 'g']) || ascii_word(e, seq!['a', 'p', 'n', 'g']) {
        Some(ImageFormat::Png)
    } else if ascii_word(e, seq!['g', 'i', 'f']) {
        Some(ImageFormat::Gif)
    } else if ascii_word(e, seq!['w', 'e', 'b', 'p']) {
        Some(ImageFormat::WebP)
    } else if ascii_word(e, seq!['t', 'i', 'f']) || ascii_word(e, seq!['t', 'i', 'f', 'f']) {
        Some(ImageFormat::Tiff)
    } else if ascii_word(e, seq!['t', 'g', 'a']) {
        Some(ImageFormat::Tga)
    } else if ascii_word(e, seq!['d', 'd', 's']) {
        Some(ImageFormat::Dds)
    } else if ascii_word(e, seq!['b', 'm', 'p']) {
        Some(ImageFormat::Bmp)
    } else if ascii_word(e, seq!['i', 'c', 'o']) {
        Some(ImageFormat::Ico)
    } else if ascii_word(e, seq!['h', 'd', 'r']) {
        Some(ImageFormat::Hdr)
    } else if ascii_word(e, seq!['e', 'x', 'r']) {
        Some(ImageFormat::OpenExr)
    } else if ascii_word(e, seq!['p', 'b', 'm']) || ascii_word(e, seq!['p', 'a', 'm'])
        || ascii_word(e, seq!['p', 'p', 'm']) || ascii_word(e, seq!['p', 'g', 'm'])
        || ascii_word(e, seq!['p', 'n', 'm']) {
        Some(ImageFormat::Pnm)
    } else if ascii_word(e, seq!['f', 'f']) {
        Some(ImageFormat::Farbfeld)
    } else if ascii_word(e, seq!['q', 'o', 'i']) {
        Some(ImageFormat::Qoi)
    } else {
        None
    }
}

/// Names the bytes that `DynamicImage::write_to` produces in a format, if it can.
pub uninterp spec fn image_encoded(d: DynamicImage, f: ImageFormat) -> Option<Seq<u8>>;

/// An RGBA image, four bytes per pixel, row after row.
pub struct Raster {
    pub width: u32,
    pub height: u32,
    pub pixels: Vec<u8>,
}

impl Raster {
    /// The pixel buffer holds exactly four bytes per pixel.
    pub open spec fn wf(&self) -> bool {
        self.pixels@.len() == 4 * (self.width as int) * (self.height as int)
    }

    /// A raster of the given size over `pixels`; `None` unless `pixels` holds four
    /// bytes per pixel.
    pub fn new(width: u32, height: u32, pixels: Vec<u8>) -> (r: Option<Raster>)
        ensures
            r is Some <==> pixels@.len() == 4 * (width as int) * (height as int),
            r matches Some(x) ==> x.wf() && x.width == width && x.height == height && x.pixels@
                == pixels@,
    {
        let n = pixels.len() as u128;
        assert((width as u128) * (height as u128) <= 0xffff_ffffu128 * 0xffff_ffffu128) by (nonlinear_arith);
        let need = 4u128 * ((width as u128) * (height as u128));
        assert(need as int == 4 * (width as int) * (height as int)) by (nonlinear_arith)
            requires
                need as int == 4 * ((width as int) * (height as int)),
        ;
        if n == need {
            Some(Raster { width, height, pixels })
        } else {
            None
        }
    }
}

/// Relies on `image::load_from_memory`: decodes an image in any enabled format,
/// guessed from its bytes.
#[verifier::external_body]
fn decode_image(b: &Vec<u8>) -> (r: Result<DynamicImage, image::ImageError>)
    ensures
        r is Ok <==> image_decoded(b@) is Some,
        r matches Ok(d) ==> image_decoded(b@) == Some(d),
{
    image::load_from_memory(b)
}

/// Relies on `DynamicImage::resize_exact` with nearest-neighbour sampling: the new
/// image has exactly the given dimensions.
#[verifier::external_body]
fn resize_nearest(d: &DynamicImage, w: u32, h: u32) -> (r: DynamicImage)
    ensures
        r == image_resized(*d, w, h),
        image_dims(r) == (w, h),
{
    d.resize_exact(w, h, image::imageops::FilterType::Nearest)
}

/// Relies on `imageops::overlay` at offset (0, 0): blends the raster over the image
/// in place, cropping what falls outside; the image keeps its dimensions.
#[verifier::external_body]
fn overlay_at_origin(d: &mut DynamicImage, top: &Raster)
    requires
        top.wf(),
    ensures
        *final(d) == image_overlaid(*old(d), top.width, top.height, top.pixels@),
        image_dims(*final(d)) == image_dims(*old(d)),
{
    if let Some(t) = image::RgbaImage::from_raw(top.width, top.height, top.pixels.clone()) {
        image::imageops::overlay(d, &t, 0, 0)
    }
}

/// Relies on `ImageFormat::from_extension`: its table of extensions, matched after
/// lower-casing ASCII letters.
#[verifier::external_body]
fn format_from_extension(ext: &str) -> (r: Option<ImageFormat>)
    ensures
        r == image_format_of(ext@),
{
    ImageFormat::from_extension(ext)
}

/// Relies on `DynamicImage::write_to`: encodes the image in the given format, or
/// fails where the format has no encoder.
#[verifier::external_body]
fn encode_image(d: &DynamicImage, f: ImageFormat) -> (r: Result<Vec<u8>, image::ImageError>)
    ensures
        r is Ok <==> image_encoded(*d, f) is Some,
        r matches Ok(v) ==> image_encoded(*d, f) == Some(v@),
{
    let mut out = std::io::Cursor::new(Vec::new());
    match d.write_to(&mut out, f) {
        Ok(()) => Ok(out.into_inner()),
        Err(e) => Err(e),
    }
}

/// `d` brought to the canvas size, with the watermark `w` blended on top.
pub open spec fn watermarked(d: DynamicImage, w: Raster) -> DynamicImage {
    image_overlaid(image_resized(d, CANVAS, CANVAS), w.width, w.height, w.pixels@)
}

/// The format of a file named `path`, from its extension.
pub open spec fn format_of_name(path: Seq<char>) -> Option<ImageFormat> {
    match extension(path) {
        Some(e) => image_format_of(e),
        None => None,
    }
}

/// What `overlay_watermark` returns for an image file's bytes `source`, to be written
/// under the name `dest`.
pub open spec fn overlay_result(source: Seq<u8>, dest: Seq<char>, w: Raster) -> Result<
    Seq<u8>,
    (),
> {
    match image_decoded(source) {
        None => Err(()),
        Some(d) => match format_of_name(dest) {
            None => Err(()),
            Some(f) => match image_encoded(watermarked(d, w), f) {
                None => Err(()),
                Some(b) => Ok(b),
            },
        },
    }
}

/// Resizes `img` to the canvas with nearest-neighbour sampling and blends the
/// watermark over it.
pub fn composite(img: &DynamicImage, watermark_img: &Raster) -> (r: DynamicImage)
    requires
        watermark_img.wf(),
    ensures
        r == watermarked(*img, *watermark_img),
        image_dims(r) == (CANVAS, CANVAS),
{
    let mut out = resize_nearest(img, CANVAS, CANVAS);
    overlay_at_origin(&mut out, watermark_img);
    out
}

/// The format of a file named `path`, from its extension.
pub fn image_format_of_name(path: &str) -> (r: Option<ImageFormat>)
    ensures
        r == format_of_name(path@),
{
    let p = chars_of(path);
    match extension_bounds(&p) {
        None => None,
        Some((a, b)) => format_from_extension(path.substring_char(a, b)),
    }
}

/// Decodes the image file `source`, watermarks it on a 500 by 500 canvas, and encodes
/// the result in the format that the extension of `dest` names. Fails with `DecodeError` where
/// `source` is no image, and with `EncodeError` where `dest` names no format that
/// can be written.
pub fn overlay_watermark(source: &Vec<u8>, dest: &str, watermark_img: &Raster) -> (r: Result<
    Vec<u8>,
    ProcessError,
>)
    requires
        watermark_img.wf(),
    ensures
        match overlay_result(source@, dest@, *watermark_img) {
            Ok(b) => r matches Ok(v) && v@ == b,
            Err(()) => r is Err,
        },
        r matches Err(e) ==> (e is DecodeError <==> image_decoded(source@) is None),
        r matches Err(e) ==> e is DecodeError || e is EncodeError,
        image_decoded(source@) matches Some(d) ==> image_dims(watermarked(d, *watermark_img)) == (
            CANVAS,
            CANVAS,
        ),
{
    let img = match decode_image(source) {
        Ok(d) => d,
        Err(_) => {
            return Err(ProcessError::DecodeError(String::from_str("not a readable image")));
        },
    };
    let out = composite(&img, watermark_img);
    let f = match image_format_of_name(dest) {
        Some(f) => f,
        None => {
            return Err(ProcessError::EncodeError(String::from_str("no image format for this name")));
        },
    };
    match encode_image(&out, f) {
        Ok(v) => Ok(v),
        Err(_) => Err(ProcessError::EncodeError(String::from_str("image could not be encoded"))),
    }
}

} // verus!
