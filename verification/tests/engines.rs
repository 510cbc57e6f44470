use image::{DynamicImage, ImageFormat as CodecFormat};
use std::io::Cursor;
use thinflux::engines::{optimize_jpeg, optimize_png, JpegError};
use thinflux::engines::{png_has_truncated_animation_chunk, png_preset, rewrite_decoded_jpeg};
use thinflux::jpeg::{DecodedImage, PixelLayout};

fn encoded(img: &DynamicImage, format: CodecFormat) -> Vec<u8> {
    let mut out = Cursor::new(Vec::new());
    img.write_to(&mut out, format).unwrap();
    out.into_inner()
}

#[test]
fn png_engine_only_writes_smaller_files() {
    let img = DynamicImage::new_rgb8(64, 64);
    let png = encoded(&img, CodecFormat::Png);
    let rw = optimize_png(&png, 2).unwrap();
    assert_eq!(rw.original_size, png.len());
    match &rw.contents {
        Some(v) => {
            assert!(v.len() < png.len());
            assert_eq!(rw.final_size, v.len());
            assert!(image::load_from_memory(v).is_ok());
        }
        None => assert_eq!(rw.final_size, png.len()),
    }
    // Optimising again finds nothing smaller or something smaller; never larger.
    let again = optimize_png(&png, 200).unwrap();
    assert!(again.final_size <= again.original_size);
}

#[test]
fn png_engine_rejects_non_png() {
    assert!(optimize_png(b"not a png", 2).is_err());
}

#[test]
fn jpeg_engine_reencodes_at_the_level_quality() {
    let img = DynamicImage::new_rgb8(32, 32);
    let jpeg = encoded(&img, CodecFormat::Jpeg);
    let rw = optimize_jpeg(&jpeg, 4).unwrap();
    let v = rw.contents.unwrap();
    assert_eq!(rw.original_size, jpeg.len());
    assert_eq!(rw.final_size, v.len());
    assert_eq!(&v[0..2], &[0xFF, 0xD8]);
}

#[test]
fn jpeg_engine_reports_undecodable_files() {
    assert!(matches!(optimize_jpeg(b"nope", 2), Err(JpegError::Decode(_))));
}

#[test]
fn png_levels_above_six_use_preset_six() {
    assert_eq!(png_preset(0), 0);
    assert_eq!(png_preset(4), 4);
    assert_eq!(png_preset(6), 6);
    assert_eq!(png_preset(7), 6);
    assert_eq!(png_preset(255), 6);
}

#[test]
fn decoded_pixels_are_written_as_a_new_jpeg_file() {
    let image = DecodedImage { pixels: vec![10u8; 8 * 8 * 4], width: 8, height: 8, layout: PixelLayout::Rgba8 };
    let rw = rewrite_decoded_jpeg(1234, &image, 3).unwrap();
    assert_eq!(rw.original_size, 1234);
    let v = rw.contents.unwrap();
    assert_eq!(rw.final_size, v.len());
    assert_eq!(&v[0..2], &[0xFF, 0xD8]);
    let empty = DecodedImage { pixels: vec![], width: 0, height: 5, layout: PixelLayout::Luma8 };
    assert!(matches!(rewrite_decoded_jpeg(10, &empty, 3), Err(JpegError::Encode(_))));
}

fn crc32(bytes: &[u8]) -> u32 {
    let mut c = 0xFFFF_FFFFu32;
    for &b in bytes {
        c ^= b as u32;
        for _ in 0..8 {
            c = if c & 1 == 1 { (c >> 1) ^ 0xEDB8_8320 } else { c >> 1 };
        }
    }
    c ^ 0xFFFF_FFFF
}

fn chunk(name: &[u8; 4], data: &[u8]) -> Vec<u8> {
    let mut out = (data.len() as u32).to_be_bytes().to_vec();
    out.extend_from_slice(name);
    out.extend_from_slice(data);
    let mut named = name.to_vec();
    named.extend_from_slice(data);
    out.extend_from_slice(&crc32(&named).to_be_bytes());
    out
}

const SIGNATURE: [u8; 8] = [0x89, 0x50, 0x4E, 0x47, 0x0D, 0x0A, 0x1A, 0x0A];

#[test]
fn png_checksums_follow_the_standard() {
    // The checksum of an empty IEND chunk, as every PNG file ends with it.
    assert_eq!(crc32(b"IEND"), 0xAE42_6082);
}

#[test]
fn truncated_animation_chunks_are_detected() {
    let mut short = SIGNATURE.to_vec();
    short.extend(chunk(b"tEXt", b"hello"));
    short.extend(chunk(b"fdAT", &[0, 1]));
    assert!(png_has_truncated_animation_chunk(&short));
    let mut fine = SIGNATURE.to_vec();
    fine.extend(chunk(b"fcTL", &[0, 0, 0, 0]));
    fine.extend(chunk(b"IEND", &[]));
    assert!(!png_has_truncated_animation_chunk(&fine));
    // After IEND nothing is read.
    let mut after_end = SIGNATURE.to_vec();
    after_end.extend(chunk(b"IEND", &[]));
    after_end.extend(chunk(b"fcTL", &[1]));
    assert!(!png_has_truncated_animation_chunk(&after_end));
    // Without the signature oxipng stops before the chunks.
    assert!(!png_has_truncated_animation_chunk(&chunk(b"fcTL", &[])));
    // A real PNG has none.
    let png = encoded(&DynamicImage::new_rgb8(4, 4), CodecFormat::Png);
    assert!(!png_has_truncated_animation_chunk(&png));
}

#[test]
fn oxipng_stops_before_a_short_chunk_on_earlier_errors() {
    // A checksum that does not match ends the reading first.
    let mut bad_crc = SIGNATURE.to_vec();
    let mut text = chunk(b"tEXt", b"hello");
    let last = text.len() - 1;
    text[last] ^= 1;
    bad_crc.extend(text);
    bad_crc.extend(chunk(b"fdAT", &[0]));
    assert!(!png_has_truncated_animation_chunk(&bad_crc));
    // So does an animation chunk out of sequence.
    let mut out_of_order = SIGNATURE.to_vec();
    out_of_order.extend(chunk(b"fcTL", &[0, 0, 0, 5]));
    out_of_order.extend(chunk(b"fdAT", &[0]));
    assert!(!png_has_truncated_animation_chunk(&out_of_order));
    // And frame data before any frame.
    let mut no_frame = SIGNATURE.to_vec();
    no_frame.extend(chunk(b"fdAT", &[0, 0, 0, 0, 9]));
    no_frame.extend(chunk(b"fcTL", &[0]));
    assert!(!png_has_truncated_animation_chunk(&no_frame));
    // In sequence, the short chunk is reached.
    let mut in_order = SIGNATURE.to_vec();
    in_order.extend(chunk(b"fcTL", &[0, 0, 0, 0]));
    in_order.extend(chunk(b"fcTL", &[0, 0]));
    assert!(png_has_truncated_animation_chunk(&in_order));
}

#[test]
fn png_engine_errors_carry_oxipng_text() {
    let expected = oxipng::optimize_from_memory(b"not a png", &oxipng::Options::from_preset(2))
        .unwrap_err()
        .to_string();
    assert_eq!(optimize_png(b"not a png", 2).unwrap_err(), expected);
}
