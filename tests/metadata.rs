use filigram::error::{aborts_run, CopyFailurePolicy};
use filigram::metadata::{format_for_extension, format_of_path, MetadataFormat};
use filigram::{recopy_metadata, ProcessError};
use image::{DynamicImage, ImageFormat, Rgb, RgbImage};
use img_parts::jpeg::{Jpeg, JpegSegment};
use img_parts::Bytes;
use img_parts::png::Png;
use img_parts::{ImageEXIF, ImageICC};
use std::io::Cursor;

const EXIF: &[u8] = b"II*\0\x08\0\0\0NIKON\0COOLPIX P6000";

fn encoded(format: ImageFormat, shade: u8) -> Vec<u8> {
    let img = RgbImage::from_fn(16, 16, |x, y| Rgb([x as u8 * 8, y as u8 * 8, shade]));
    let mut out = Cursor::new(Vec::new());
    DynamicImage::ImageRgb8(img).write_to(&mut out, format).unwrap();
    out.into_inner()
}

#[test]
fn png_exif_and_icc_are_carried_over() {
    let mut original = Png::from_bytes(encoded(ImageFormat::Png, 10).into()).unwrap();
    original.set_exif(Some(EXIF.to_vec().into()));
    original.set_icc_profile(Some(b"profile bytes".to_vec().into()));
    let original = original.encoder().bytes().to_vec();
    let output = encoded(ImageFormat::Png, 90);
    let out = recopy_metadata("/in/pic.png", &original, &output).unwrap().unwrap();
    let copy = Png::from_bytes(out.into()).unwrap();
    assert_eq!(copy.exif().unwrap().to_vec(), EXIF.to_vec());
    assert_eq!(copy.icc_profile().unwrap().to_vec(), b"profile bytes".to_vec());
    let pixels = image::load_from_memory(&copy.encoder().bytes()).unwrap();
    assert_eq!(pixels, image::load_from_memory(&output).unwrap());
}

#[test]
fn jpeg_exif_is_carried_over() {
    let mut original = Jpeg::from_bytes(encoded(ImageFormat::Jpeg, 10).into()).unwrap();
    original.set_exif(Some(EXIF.to_vec().into()));
    let original = original.encoder().bytes().to_vec();
    let output = encoded(ImageFormat::Jpeg, 90);
    let out = recopy_metadata("/in/PIC.JPEG", &original, &output).unwrap().unwrap();
    let copy = Jpeg::from_bytes(out.into()).unwrap();
    assert_eq!(copy.exif().unwrap().to_vec(), EXIF.to_vec());
    assert!(copy.icc_profile().is_none());
}

#[test]
fn missing_metadata_stays_missing() {
    let original = encoded(ImageFormat::Png, 10);
    let output = encoded(ImageFormat::Png, 90);
    let out = recopy_metadata("a.png", &original, &output).unwrap().unwrap();
    let copy = Png::from_bytes(out.into()).unwrap();
    assert!(copy.exif().is_none());
    assert!(copy.icc_profile().is_none());
}

#[test]
fn other_formats_are_left_alone() {
    let b = encoded(ImageFormat::Bmp, 10);
    assert_eq!(recopy_metadata("a.bmp", &b, &b), Ok(None));
    assert_eq!(recopy_metadata("a", &b, &b), Ok(None));
}

#[test]
fn non_container_bytes_are_a_metadata_error() {
    let good = encoded(ImageFormat::Png, 10);
    let r = recopy_metadata("a.png", &vec![1, 2, 3], &good);
    assert!(matches!(r, Err(ProcessError::MetadataError(_))));
    let r = recopy_metadata("a.jpg", &good, &good);
    assert!(matches!(r, Err(ProcessError::MetadataError(_))));
}

#[test]
fn formats_by_extension() {
    assert_eq!(format_for_extension("png"), Some(MetadataFormat::Png));
    assert_eq!(format_for_extension("jpg"), Some(MetadataFormat::Jpeg));
    assert_eq!(format_for_extension("jpeg"), Some(MetadataFormat::Jpeg));
    assert_eq!(format_for_extension("JPG"), None);
    assert_eq!(format_for_extension("gif"), None);
    assert_eq!(format_of_path("/x/y.PnG"), Some(MetadataFormat::Png));
    assert_eq!(format_of_path("/x/y"), None);
}

#[test]
fn failure_policy() {
    let copy = ProcessError::CopyError("a".to_string());
    assert!(aborts_run(CopyFailurePolicy::Abort, &copy));
    assert!(!aborts_run(CopyFailurePolicy::SkipAndContinue, &copy));
    assert!(aborts_run(CopyFailurePolicy::SkipAndContinue, &ProcessError::NotADirectory("d".to_string())));
    assert!(aborts_run(CopyFailurePolicy::SkipAndContinue, &ProcessError::FontError("f".to_string())));
    assert!(aborts_run(CopyFailurePolicy::SkipAndContinue, &ProcessError::FsError("f".to_string())));
    assert!(!aborts_run(CopyFailurePolicy::Abort, &ProcessError::DecodeError("x".to_string())));
    assert!(!aborts_run(CopyFailurePolicy::Abort, &ProcessError::EncodeError("x".to_string())));
    assert!(!aborts_run(CopyFailurePolicy::Abort, &ProcessError::MetadataError("x".to_string())));
}

#[test]
fn output_with_cut_short_icc_segment_is_a_metadata_error() {
    let original = encoded(ImageFormat::Jpeg, 10);
    let mut output = Jpeg::from_bytes(encoded(ImageFormat::Jpeg, 90).into()).unwrap();
    output
        .segments_mut()
        .insert(1, JpegSegment::new_with_contents(0xE2, Bytes::from_static(b"ICC_PROFILE\0")));
    let output = output.encoder().bytes().to_vec();
    let r = recopy_metadata("a.jpg", &original, &output);
    assert!(matches!(r, Err(ProcessError::MetadataError(_))));
}

#[test]
fn recopied_bytes_are_the_serialized_container() {
    let mut original = Png::from_bytes(encoded(ImageFormat::Png, 10).into()).unwrap();
    original.set_exif(Some(EXIF.to_vec().into()));
    let original_bytes = original.encoder().bytes().to_vec();
    let output = encoded(ImageFormat::Png, 90);
    let first = recopy_metadata("a.png", &original_bytes, &output).unwrap().unwrap();
    let second = recopy_metadata("a.png", &original_bytes, &output).unwrap().unwrap();
    assert_eq!(first, second);
    let mut expected = Png::from_bytes(output.clone().into()).unwrap();
    expected.set_exif(Some(EXIF.to_vec().into()));
    expected.set_icc_profile(None);
    assert_eq!(first, expected.encoder().bytes().to_vec());
}

#[test]
fn jpeg_scan_data_is_kept() {
    let mut original = Jpeg::from_bytes(encoded(ImageFormat::Jpeg, 10).into()).unwrap();
    original.set_exif(Some(EXIF.to_vec().into()));
    let original = original.encoder().bytes().to_vec();
    let output = encoded(ImageFormat::Jpeg, 90);
    let out = recopy_metadata("a.jpg", &original, &output).unwrap().unwrap();
    assert_eq!(image::load_from_memory(&out).unwrap(), image::load_from_memory(&output).unwrap());
}
