use filigram::{overlay_watermark, ProcessError, Raster};
use image::{DynamicImage, ImageFormat, Rgb, RgbImage};
use std::io::Cursor;

fn source_image(format: ImageFormat) -> Vec<u8> {
    let img = RgbImage::from_fn(64, 48, |x, y| Rgb([(x * 4) as u8, (y * 5) as u8, 200]));
    let mut out = Cursor::new(Vec::new());
    DynamicImage::ImageRgb8(img).write_to(&mut out, format).unwrap();
    out.into_inner()
}

fn watermark() -> Raster {
    let mut pixels = vec![0u8; 500 * 500 * 4];
    for y in 0..500usize {
        for x in 0..500usize {
            if x.abs_diff(y) < 20 {
                let i = (y * 500 + x) * 4;
                pixels[i + 3] = 110;
            }
        }
    }
    Raster::new(500, 500, pixels).unwrap()
}

fn run_test(extension: &str, format: ImageFormat) {
    let src = source_image(format);
    let watermark_img = watermark();
    let out = overlay_watermark(&src, &format!("tmp/test.{}", extension), &watermark_img).unwrap();
    let img = image::load_from_memory(&out).unwrap();
    assert_eq!(img.width(), 500);
    assert_eq!(img.height(), 500);
}

#[test]
fn test_jpeg() {
    run_test("jpg", ImageFormat::Jpeg);
}

#[test]
fn test_gif() {
    run_test("gif", ImageFormat::Gif);
}

#[test]
fn test_webp() {
    run_test("webp", ImageFormat::WebP);
}

#[test]
fn test_bmp() {
    run_test("bmp", ImageFormat::Bmp);
}

#[test]
fn watermark_pixels_differ_from_plain_resize() {
    let src = source_image(ImageFormat::Png);
    let out = overlay_watermark(&src, "out/x.png", &watermark()).unwrap();
    let marked = image::load_from_memory(&out).unwrap().to_rgba8();
    let plain = image::load_from_memory(&src)
        .unwrap()
        .resize_exact(500, 500, image::imageops::FilterType::Nearest)
        .to_rgba8();
    // on the diagonal band the watermark is translucent black
    assert_ne!(marked.get_pixel(250, 250), plain.get_pixel(250, 250));
    // away from it the resized source is untouched
    assert_eq!(marked.get_pixel(400, 10), plain.get_pixel(400, 10));
}

#[test]
fn undecodable_source_is_a_decode_error() {
    let r = overlay_watermark(&vec![1, 2, 3, 4], "out/x.png", &watermark());
    assert!(matches!(r, Err(ProcessError::DecodeError(_))));
}

#[test]
fn unknown_destination_format_is_an_encode_error() {
    let src = source_image(ImageFormat::Png);
    let r = overlay_watermark(&src, "out/x.unknownfmt", &watermark());
    assert!(matches!(r, Err(ProcessError::EncodeError(_))));
    let r = overlay_watermark(&src, "out/noextension", &watermark());
    assert!(matches!(r, Err(ProcessError::EncodeError(_))));
}

#[test]
fn raster_needs_four_bytes_per_pixel() {
    assert!(Raster::new(2, 3, vec![0; 24]).is_some());
    assert!(Raster::new(2, 3, vec![0; 23]).is_none());
    assert!(Raster::new(0, 0, vec![]).is_some());
}

#[test]
fn destination_format_follows_extension_in_any_case() {
    let src = source_image(ImageFormat::Png);
    let out = overlay_watermark(&src, "out/x.JPG", &watermark()).unwrap();
    assert_eq!(image::guess_format(&out).unwrap(), ImageFormat::Jpeg);
    let out = overlay_watermark(&src, "out/x.Bmp", &watermark()).unwrap();
    assert_eq!(image::guess_format(&out).unwrap(), ImageFormat::Bmp);
}
