//! JPEG re-encoding: quality levels, and the calls into the `image` crate.
use image::codecs::jpeg::JpegEncoder;
use image::{DynamicImage, ImageBuffer};
use vstd::prelude::*;

verus! {

/// JPEG quality (0 to 100) for a compression level (0 to 6): 95, 85, 75 and 65 for
/// levels 0 to 3, and 50 for every higher level.
pub open spec fn jpeg_quality(level: u8) -> u8 {
    if level == 0 {
        95
    } else if level == 1 {
        85
    } else if level == 2 {
        75
    } else if level == 3 {
        65
    } else {
        50
    }
}

/// Maps the universal compression level to a JPEG quality.
pub fn jpeg_quality_from_level(level: u8) -> (q: u8)
    ensures
        q == jpeg_quality(level),
{
    match level {
        0 => 95,
        1 => 85,
        2 => 75,
        3 => 65,
        _ => 50,
    }
}

/// Layout of raw 8-bit pixels.
#[derive(Debug, Clone, Copy, PartialEq, Eq, Structural)]
pub enum PixelLayout {
    /// Three bytes per pixel: red, green, blue.
    Rgb8,
    /// Four bytes per pixel: red, green, blue, alpha.
    Rgba8,
    /// One byte per pixel: grey.
    Luma8,
    /// Two bytes per pixel: grey, alpha.
    LumaA8,
}

/// Bytes per pixel of a layout.
pub open spec fn channel_count(layout: PixelLayout) -> nat {
    match layout {
        PixelLayout::Rgb8 => 3,
        PixelLayout::Rgba8 => 4,
        PixelLayout::Luma8 => 1,
        PixelLayout::LumaA8 => 2,
    }
}

/// A buffer of `len` bytes holds a `width` by `height` image of `channels` bytes per
/// pixel: the test that `ImageBuffer::from_raw` makes, which computes
/// `channels * width` and then its product with `height` in `usize`, fails where
/// either overflows, and allows extra bytes.
pub open spec fn pixels_fit(len: nat, channels: nat, width: u32, height: u32) -> bool {
    channels * width <= usize::MAX && channels * width * height <= len
}

/// A buffer of `len` bytes holds exactly a `width` by `height` image of `channels`
/// bytes per pixel.
pub open spec fn pixels_exact(len: nat, channels: nat, width: u32, height: u32) -> bool {
    pixels_fit(len, channels, width, height) && len == channels * width * height
}

/// Both sides of an image lie between 1 and 65535 pixels, the sizes that the JPEG
/// encoder accepts.
pub open spec fn jpeg_size_ok(width: u32, height: u32) -> bool {
    1 <= width <= 65535 && 1 <= height <= 65535
}

/// The bytes begin with the JPEG start-of-image marker `FF D8`.
pub open spec fn starts_with_soi(bytes: Seq<u8>) -> bool {
    bytes.len() >= 2 && bytes[0] == 0xFFu8 && bytes[1] == 0xD8u8
}

/// Pixels decoded from a JPEG file, as plain values.
pub struct DecodedImage {
    pub pixels: Vec<u8>,
    pub width: u32,
    pub height: u32,
    pub layout: PixelLayout,
}

/// The JPEG file that `JpegEncoder::encode_image` writes, at `quality`, for the
/// `DynamicImage` that holds the image `ImageBuffer::from_raw(width, height, pixels)`
/// builds in `layout`; `None` where the encoder fails.
pub uninterp spec fn jpeg_of_pixels(
    pixels: Seq<u8>,
    width: u32,
    height: u32,
    layout: PixelLayout,
    quality: u8,
) -> Option<Seq<u8>>;

/// `ImageBuffer::from_raw` followed by `JpegEncoder::encode_image` on the
/// `DynamicImage` that holds it. The encoder fails exactly where a side is 0 or above
/// 65535 (it writes into memory, and checks nothing else), and its output begins with
/// the start-of-image marker. The error is returned as its text.
#[verifier::external_body]
pub(crate) fn encode_jpeg_pixels(
    pixels: &[u8],
    width: u32,
    height: u32,
    layout: PixelLayout,
    quality: u8,
) -> (r: Result<Vec<u8>, String>)
    requires
        pixels_fit(pixels@.len(), channel_count(layout), width, height),
    ensures
        r is Ok <==> jpeg_of_pixels(pixels@, width, height, layout, quality) is Some,
        r matches Ok(v) ==> jpeg_of_pixels(pixels@, width, height, layout, quality) == Some(v@),
        r is Ok <==> jpeg_size_ok(width, height),
        r matches Ok(v) ==> starts_with_soi(v@),
{
    let v = pixels.to_vec();
    let image = match layout {
        PixelLayout::Rgb8 => ImageBuffer::from_raw(width, height, v).map(DynamicImage::ImageRgb8),
        PixelLayout::Rgba8 => ImageBuffer::from_raw(width, height, v).map(DynamicImage::ImageRgba8),
        PixelLayout::Luma8 => ImageBuffer::from_raw(width, height, v).map(DynamicImage::ImageLuma8),
        PixelLayout::LumaA8 => ImageBuffer::from_raw(width, height, v).map(DynamicImage::ImageLumaA8),
    }.ok_or_else(String::new)?;
    let mut out = Vec::new();
    JpegEncoder::new_with_quality(&mut out, quality).encode_image(&image).map_err(|e| e.to_string())?;
    Ok(out)
}

/// The JPEG file that `DynamicImage::write_with_encoder` writes through a
/// `JpegEncoder` at `quality`, for the image `ImageBuffer::from_raw(width, height,
/// pixels)` builds in `layout`; `None` where the encoder fails.
pub uninterp spec fn jpeg_written(
    pixels: Seq<u8>,
    width: u32,
    height: u32,
    layout: PixelLayout,
    quality: u8,
) -> Option<Seq<u8>>;

/// `ImageBuffer::from_raw` followed by `DynamicImage::write_with_encoder` with a
/// `JpegEncoder` at `quality`, which keeps grey and RGB as they are and first drops
/// the alpha channel of the other two layouts. The encoder fails exactly where a side
/// is 0 or above 65535, and its output begins with the start-of-image marker. The
/// pixels must fill the buffer exactly: the encoder panics on extra bytes.
#[verifier::external_body]
pub(crate) fn write_jpeg_pixels(
    pixels: &[u8],
    width: u32,
    height: u32,
    layout: PixelLayout,
    quality: u8,
) -> (r: Result<Vec<u8>, String>)
    requires
        pixels_exact(pixels@.len(), channel_count(layout), width, height),
    ensures
        r is Ok <==> jpeg_written(pixels@, width, height, layout, quality) is Some,
        r matches Ok(v) ==> jpeg_written(pixels@, width, height, layout, quality) == Some(v@),
        r is Ok <==> jpeg_size_ok(width, height),
        r matches Ok(v) ==> starts_with_soi(v@),
{
    let v = pixels.to_vec();
    let image = match layout {
        PixelLayout::Rgb8 => ImageBuffer::from_raw(width, height, v).map(DynamicImage::ImageRgb8),
        PixelLayout::Rgba8 => ImageBuffer::from_raw(width, height, v).map(DynamicImage::ImageRgba8),
        PixelLayout::Luma8 => ImageBuffer::from_raw(width, height, v).map(DynamicImage::ImageLuma8),
        PixelLayout::LumaA8 => ImageBuffer::from_raw(width, height, v).map(DynamicImage::ImageLumaA8),
    }.ok_or_else(String::new)?;
    let mut out = Vec::new();
    image.write_with_encoder(JpegEncoder::new_with_quality(&mut out, quality)).map_err(|e| e.to_string())?;
    Ok(out)
}

/// Whether `outcome` is one of the results that `image::load_from_memory_with_format`
/// with the JPEG format can give for these bytes: `Some` of the decoded pixels, width,
/// height and layout, or `None` for a refusal. A relation, not a function: the decoder
/// may take different code paths (and round differently) on different CPUs.
pub uninterp spec fn jpeg_may_decode(
    bytes: Seq<u8>,
    outcome: Option<(Seq<u8>, u32, u32, PixelLayout)>,
) -> bool;

/// Whether the bytes decode as a JPEG file: the decoder refuses them exactly where a
/// refusal is among its outcomes (whether the file is well formed does not depend on
/// the CPU).
pub open spec fn jpeg_decodes(bytes: Seq<u8>) -> bool {
    !jpeg_may_decode(bytes, None)
}

/// `image::load_from_memory_with_format` with the JPEG format, the image's pixels
/// handed out as plain values: one of the decoder's possible outcomes for the bytes.
/// The JPEG decoder yields only grey, grey with alpha, RGB and RGBA images of 8 bits
/// (`ColorType::from_jpeg`), each in a buffer that holds the image exactly, and sides
/// between 1 and 65535 (a JPEG header holds 16-bit sides, and zune-jpeg refuses 0).
#[verifier::external_body]
pub(crate) fn decode_jpeg(bytes: &[u8]) -> (r: Result<DecodedImage, String>)
    ensures
        match r {
            Ok(d) => jpeg_may_decode(bytes@, Some((d.pixels@, d.width, d.height, d.layout))),
            Err(_) => jpeg_may_decode(bytes@, None),
        },
        r is Ok <==> !jpeg_may_decode(bytes@, None),
        r matches Ok(d) ==> pixels_exact(d.pixels@.len(), channel_count(d.layout), d.width, d.height)
            && jpeg_size_ok(d.width, d.height),
{
    let img = image::load_from_memory_with_format(bytes, image::ImageFormat::Jpeg).map_err(|e| e.to_string())?;
    let layout = match &img {
        DynamicImage::ImageRgb8(_) => PixelLayout::Rgb8,
        DynamicImage::ImageRgba8(_) => PixelLayout::Rgba8,
        DynamicImage::ImageLuma8(_) => PixelLayout::Luma8,
        DynamicImage::ImageLumaA8(_) => PixelLayout::LumaA8,
        other => return Err(format!("{:?}", other.color())),
    };
    Ok(DecodedImage { width: img.width(), height: img.height(), layout, pixels: img.into_bytes() })
}

/// Whether `len` bytes hold a `width` by `height` image of `channels` bytes per pixel.
pub fn fits(len: usize, channels: usize, width: u32, height: u32) -> (r: bool)
    ensures
        r == pixels_fit(len as nat, channels as nat, width, height),
{
    match channels.checked_mul(width as usize) {
        None => false,
        Some(cw) => match cw.checked_mul(height as usize) {
            None => false,
            Some(total) => total <= len,
        },
    }
}

/// The message of [`encode_as_jpeg`] when the buffer is too small for the image.
pub open spec fn buffer_error(channels: usize) -> Seq<char> {
    if channels == 3 {
        "Falha ao construir ImageBuffer RGB"@
    } else {
        "Falha ao construir ImageBuffer Grayscale"@
    }
}

/// The layout that [`encode_as_jpeg`] gives `channels` bytes per pixel.
pub open spec fn layout_for(channels: usize) -> PixelLayout {
    if channels == 3 {
        PixelLayout::Rgb8
    } else {
        PixelLayout::Luma8
    }
}

/// What [`encode_as_jpeg`] returns for these arguments.
pub open spec fn encode_as_jpeg_result(
    raw: Seq<u8>,
    width: usize,
    height: usize,
    channels: usize,
    quality: u8,
    r: Result<Vec<u8>, String>,
) -> bool {
    let layout = layout_for(channels);
    let (w, h) = (width as u32, height as u32);
    if !pixels_fit(raw.len(), channel_count(layout), w, h) {
        r matches Err(e) && e@ == buffer_error(channels)
    } else {
        match jpeg_of_pixels(raw, w, h, layout, quality) {
            Some(v) => r matches Ok(out) && out@ == v,
            None => r matches Err(e) && crate::text::starts_with(e@, "Falha no JpegEncoder: "@),
        }
    }
}

/// Rebuilds raw pixels (RGB when `channels` is 3, grey otherwise) as an image of
/// `width` by `height` (each cut to 32 bits, as `as u32` does) and encodes it as JPEG.
pub fn encode_as_jpeg(raw: &[u8], width: usize, height: usize, channels: usize, quality: u8) -> (r:
    Result<Vec<u8>, String>)
    ensures
        encode_as_jpeg_result(raw@, width, height, channels, quality, r),
        r is Ok <==> pixels_fit(raw@.len(), channel_count(layout_for(channels)), width as u32, height as u32)
            && jpeg_size_ok(width as u32, height as u32),
        r matches Ok(v) ==> starts_with_soi(v@),
        channels == 3 && pixels_fit(raw@.len(), 3, width as u32, height as u32) ==> match jpeg_of_pixels(
            raw@,
            width as u32,
            height as u32,
            PixelLayout::Rgb8,
            quality,
        ) {
            Some(v) => r matches Ok(out) && out@ == v,
            None => r is Err,
        },
        channels != 3 && pixels_fit(raw@.len(), 1, width as u32, height as u32) ==> match jpeg_of_pixels(
            raw@,
            width as u32,
            height as u32,
            PixelLayout::Luma8,
            quality,
        ) {
            Some(v) => r matches Ok(out) && out@ == v,
            None => r is Err,
        },
{
    #[verifier::truncate]
    let w = width as u32;
    #[verifier::truncate]
    let h = height as u32;
    let layout = if channels == 3 {
        PixelLayout::Rgb8
    } else {
        PixelLayout::Luma8
    };
    let per_pixel: usize = if channels == 3 {
        3
    } else {
        1
    };
    if !fits(raw.len(), per_pixel, w, h) {
        if channels == 3 {
            return Err(String::from_str("Falha ao construir ImageBuffer RGB"));
        } else {
            return Err(String::from_str("Falha ao construir ImageBuffer Grayscale"));
        }
    }
    match encode_jpeg_pixels(raw, w, h, layout, quality) {
        Ok(v) => Ok(v),
        Err(e) => {
            let m = crate::text::join("Falha no JpegEncoder: ", e.as_str());
            assert(m@.subrange(0, "Falha no JpegEncoder: "@.len() as int) =~= "Falha no JpegEncoder: "@);
            Err(m)
        },
    }
}

} // verus!
