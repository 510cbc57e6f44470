//! The PNG and JPEG engines, and the WebP quality scale.
use crate::jpeg::{
    channel_count, decode_jpeg, jpeg_decodes, jpeg_quality, jpeg_quality_from_level, jpeg_size_ok,
    jpeg_may_decode, jpeg_written, pixels_exact, starts_with_soi, write_jpeg_pixels, DecodedImage, PixelLayout,
};
use vstd::prelude::*;

verus! {

/// What an engine makes of a file: the new contents to write, where there are
/// any, and the file's size before and after.
#[derive(Debug)]
pub struct Rewrite {
    pub contents: Option<Vec<u8>>,
    pub original_size: usize,
    pub final_size: usize,
}

/// A rewrite of `original` bytes that writes only what is strictly smaller: the
/// sizes are the file's before and after.
pub open spec fn shrinks_only(r: Rewrite, original: nat) -> bool {
    &&& r.original_size == original
    &&& match r.contents {
        Some(v) => v@.len() < original && r.final_size == v@.len(),
        None => r.final_size == original,
    }
}

/// The rule that every size-guarded engine follows: `candidate` replaces a file of
/// `original_size` bytes only where it is strictly smaller.
pub open spec fn keeps_if_smaller(r: Rewrite, original_size: nat, candidate: Seq<u8>) -> bool {
    &&& r.original_size == original_size
    &&& if candidate.len() < original_size {
        r.contents matches Some(v) && v@ == candidate && r.final_size == candidate.len()
    } else {
        r.contents is None && r.final_size == original_size
    }
}

/// Decides between a file of `original_size` bytes and a candidate replacement: the
/// candidate is written only where it is strictly smaller.
pub fn keep_if_smaller(original_size: usize, candidate: Vec<u8>) -> (r: Rewrite)
    ensures
        keeps_if_smaller(r, original_size as nat, candidate@),
        shrinks_only(r, original_size as nat),
{
    if candidate.len() < original_size {
        let n = candidate.len();
        Rewrite { contents: Some(candidate), original_size, final_size: n }
    } else {
        Rewrite { contents: None, original_size, final_size: original_size }
    }
}

/// A rewrite of `original` bytes that always writes new contents.
pub open spec fn rewrites_all(r: Rewrite, original: nat) -> bool {
    &&& r.original_size == original
    &&& match r.contents {
        Some(v) => r.final_size == v@.len(),
        None => false,
    }
}

/// Whether `bytes` begin with the eight-byte PNG file signature.
pub open spec fn has_png_signature(bytes: Seq<u8>) -> bool {
    &&& bytes.len() >= 8
    &&& bytes[0] == 0x89u8 && bytes[1] == 0x50u8 && bytes[2] == 0x4Eu8 && bytes[3] == 0x47u8
    &&& bytes[4] == 0x0Du8 && bytes[5] == 0x0Au8 && bytes[6] == 0x1Au8 && bytes[7] == 0x0Au8
}

/// The big-endian 32-bit number stored at `i`.
pub open spec fn be_u32_at(b: Seq<u8>, i: int) -> nat {
    (b[i] as nat) * 16777216 + (b[i + 1] as nat) * 65536 + (b[i + 2] as nat) * 256 + (b[i + 3] as nat)
}

/// The four bytes at `i` are `c0 c1 c2 c3`.
pub open spec fn four_bytes_at(b: Seq<u8>, i: int, c0: u8, c1: u8, c2: u8, c3: u8) -> bool {
    b[i] == c0 && b[i + 1] == c1 && b[i + 2] == c2 && b[i + 3] == c3
}

/// One bit step of the CRC-32 of PNG (reflected polynomial `EDB88320`).
pub open spec fn crc_bit(c: u32) -> u32 {
    if c & 1u32 == 1u32 {
        (c >> 1u32) ^ 0xEDB88320u32
    } else {
        c >> 1u32
    }
}

/// The CRC register after one more byte.
pub open spec fn crc_byte(c: u32, b: u8) -> u32 {
    let x = c ^ (b as u32);
    crc_bit(crc_bit(crc_bit(crc_bit(crc_bit(crc_bit(crc_bit(crc_bit(x))))))))
}

/// The CRC register after the bytes `s`, from its start value `FFFFFFFF`.
pub open spec fn crc_register(s: Seq<u8>) -> u32
    decreases s.len(),
{
    if s.len() == 0 {
        0xFFFFFFFFu32
    } else {
        crc_byte(crc_register(s.drop_last()), s.last())
    }
}

/// The CRC-32 of `s`, as PNG checks its chunks with it.
pub open spec fn crc32_of(s: Seq<u8>) -> u32 {
    crc_register(s) ^ 0xFFFFFFFFu32
}

/// Reading the chunks of a PNG file from `offset` as oxipng's parser does
/// (`PngData::from_slice` with the default options, which keep every chunk and check
/// every checksum), with `seq` the next animation sequence number, `idat` whether image
/// data was read and `frame` whether an animation frame was started: the parser reaches
/// an animation chunk (`fcTL` or `fdAT`) with fewer than the four bytes of its sequence
/// number, before anything ends the reading (the end of the file, a chunk that runs
/// past it, `IEND`) or fails it (a checksum that does not match, a sequence number out
/// of order, a frame control chunk after the image data shorter than 26 bytes, frame
/// data before any frame).
pub open spec fn short_animation_chunk_from(b: Seq<u8>, offset: nat, seq: nat, idat: bool, frame: bool) -> bool
    decreases b.len() - offset,
{
    if offset + 12 > b.len() {
        false
    } else {
        let length = be_u32_at(b, offset as int);
        let at = offset + 4int;
        let next = offset + 12 + length;
        if next > b.len() {
            false
        } else if four_bytes_at(b, at, 0x49, 0x45, 0x4E, 0x44) {
            false
        } else if crc32_of(b.subrange(at, at + 4 + length)) as nat != be_u32_at(b, at + 4 + length) {
            false
        } else if four_bytes_at(b, at, 0x49, 0x44, 0x41, 0x54) {
            short_animation_chunk_from(b, next, seq, idat || length > 0, frame)
        } else if four_bytes_at(b, at, 0x66, 0x63, 0x54, 0x4C) || four_bytes_at(b, at, 0x66, 0x64, 0x41, 0x54) {
            let seq2 = (seq + 1) % 4294967296;
            if length < 4 {
                true
            } else if be_u32_at(b, at + 4) != seq {
                false
            } else if four_bytes_at(b, at, 0x66, 0x63, 0x54, 0x4C) {
                if idat && length < 26 {
                    false
                } else {
                    short_animation_chunk_from(b, next, seq2, idat, frame || idat)
                }
            } else if !frame {
                false
            } else {
                short_animation_chunk_from(b, next, seq2, idat, frame)
            }
        } else {
            short_animation_chunk_from(b, next, seq, idat, frame)
        }
    }
}

/// A PNG file on which oxipng panics: its parser reads the sequence number of an
/// animation chunk as the chunk's first four data bytes without checking its length
/// (`png/mod.rs`, `&chunk.data[0..4]`).
pub open spec fn has_truncated_animation_chunk(b: Seq<u8>) -> bool {
    has_png_signature(b) && short_animation_chunk_from(b, 8, 0, false, false)
}

fn crc_bit_exec(c: u32) -> (r: u32)
    ensures
        r == crc_bit(c),
{
    if c & 1u32 == 1u32 {
        (c >> 1u32) ^ 0xEDB88320u32
    } else {
        c >> 1u32
    }
}

/// The CRC-32 of `data[start..end]`.
fn crc32_range(data: &[u8], start: usize, end: usize) -> (r: u32)
    requires
        start <= end <= data@.len(),
    ensures
        r == crc32_of(data@.subrange(start as int, end as int)),
{
    let mut c: u32 = 0xFFFFFFFFu32;
    let mut i: usize = start;
    while i < end
        invariant
            start <= i <= end <= data@.len(),
            c == crc_register(data@.subrange(start as int, i as int)),
        decreases end - i,
    {
        let x = c ^ (data[i] as u32);
        c = crc_bit_exec(crc_bit_exec(crc_bit_exec(crc_bit_exec(crc_bit_exec(crc_bit_exec(crc_bit_exec(crc_bit_exec(x))))))));
        assert(data@.subrange(start as int, i + 1).drop_last() =~= data@.subrange(start as int, i as int));
        i += 1;
    }
    c ^ 0xFFFFFFFFu32
}

/// Whether `data` begins with the PNG signature.
pub fn png_signature_ok(data: &[u8]) -> (r: bool)
    ensures
        r == has_png_signature(data@),
{
    data.len() >= 8 && data[0] == 0x89u8 && data[1] == 0x50u8 && data[2] == 0x4Eu8 && data[3] == 0x47u8
        && data[4] == 0x0Du8 && data[5] == 0x0Au8 && data[6] == 0x1Au8 && data[7] == 0x0Au8
}

/// Whether oxipng would panic on `data`, which is then not to be handed to it.
pub fn png_has_truncated_animation_chunk(data: &[u8]) -> (r: bool)
    ensures
        r == has_truncated_animation_chunk(data@),
{
    if !png_signature_ok(data) {
        return false;
    }
    let mut offset: usize = 8;
    let mut seq: u32 = 0;
    let mut idat = false;
    let mut frame = false;
    loop
        invariant
            8 <= offset <= data@.len(),
            has_png_signature(data@),
            short_animation_chunk_from(data@, 8, 0, false, false) == short_animation_chunk_from(
                data@,
                offset as nat,
                seq as nat,
                idat,
                frame,
            ),
        decreases data@.len() - offset,
    {
        if data.len() - offset < 12 {
            return false;
        }
        let length: u64 = (data[offset] as u64) * 16777216 + (data[offset + 1] as u64) * 65536
            + (data[offset + 2] as u64) * 256 + (data[offset + 3] as u64);
        assert(length == be_u32_at(data@, offset as int));
        let rest: usize = data.len() - offset - 12;
        if (rest as u64) < length {
            return false;
        }
        let l = length as usize;
        let at = offset + 4;
        let next = offset + 12 + l;
        if data[at] == 0x49u8 && data[at + 1] == 0x45u8 && data[at + 2] == 0x4Eu8 && data[at + 3] == 0x44u8 {
            return false;
        }
        let end = at + 4 + l;
        let stored: u64 = (data[end] as u64) * 16777216 + (data[end + 1] as u64) * 65536
            + (data[end + 2] as u64) * 256 + (data[end + 3] as u64);
        assert(stored == be_u32_at(data@, end as int));
        if (crc32_range(data, at, end) as u64) != stored {
            return false;
        }
        let is_idat = data[at] == 0x49u8 && data[at + 1] == 0x44u8 && data[at + 2] == 0x41u8 && data[at + 3]
            == 0x54u8;
        let is_fctl = data[at] == 0x66u8 && data[at + 1] == 0x63u8 && data[at + 2] == 0x54u8 && data[at + 3]
            == 0x4Cu8;
        let is_fdat = data[at] == 0x66u8 && data[at + 1] == 0x64u8 && data[at + 2] == 0x41u8 && data[at + 3]
            == 0x54u8;
        if is_idat {
            idat = idat || l > 0;
        } else if is_fctl || is_fdat {
            if l < 4 {
                return true;
            }
            let number: u64 = (data[at + 4] as u64) * 16777216 + (data[at + 5] as u64) * 65536
                + (data[at + 6] as u64) * 256 + (data[at + 7] as u64);
            assert(number == be_u32_at(data@, at + 4));
            if number != seq as u64 {
                return false;
            }
            seq = if seq == 0xFFFF_FFFFu32 {
                0
            } else {
                seq + 1
            };
            if is_fctl {
                if idat && l < 26 {
                    return false;
                }
                frame = frame || idat;
            } else if !frame {
                return false;
            }
        }
        offset = next;
    }
}

/// Whether `outcome` is one of the results that `oxipng::optimize_from_memory` can give
/// for `bytes` with `Options::from_preset(preset)`: `Ok` of the bytes it returns, or
/// `Err` of the text of its error (`PngError`'s `Display`). This is a relation, not a function: the trials run in
/// parallel, and where several candidates are equally small the one that wins may
/// differ from run to run, so more than one outcome may be possible for the same
/// arguments. Only the set of possible outcomes is fixed by the arguments.
pub uninterp spec fn oxipng_may_give(
    bytes: Seq<u8>,
    preset: u8,
    outcome: Result<Seq<u8>, Seq<char>>,
) -> bool;

/// `oxipng::optimize_from_memory` with `Options::from_preset(preset)`. What it returns
/// is one of its possible outcomes for these arguments. Input that does not begin with
/// the PNG signature is refused (the source parses the header before anything else).
/// The result is never longer than the input, and of the same length only where it is
/// the input itself (the source returns the input when it found nothing smaller).
/// Which outcome comes, and so which bytes and whether a signed input succeeds, is
/// not stated.
#[verifier::external_body]
pub(crate) fn optimize_png_data(data: &[u8], preset: u8) -> (r: Result<Vec<u8>, String>)
    requires
        !has_truncated_animation_chunk(data@),
    ensures
        match r {
            Ok(v) => oxipng_may_give(data@, preset, Ok(v@)),
            Err(e) => oxipng_may_give(data@, preset, Err(e@)),
        },
        !has_png_signature(data@) ==> r is Err,
        r matches Ok(v) ==> v@.len() <= data@.len() && (v@.len() == data@.len() ==> v@ == data@),
{
    oxipng::optimize_from_memory(data, &oxipng::Options::from_preset(preset)).map_err(|e| e.to_string())
}

/// The oxipng preset for a compression level: the level itself, capped at 6.
pub open spec fn png_preset_of(level: u8) -> u8 {
    if level > 6 {
        6
    } else {
        level
    }
}

/// The oxipng preset for a compression level (levels above 6 act as 6).
pub fn png_preset(level: u8) -> (p: u8)
    ensures
        p == png_preset_of(level),
{
    if level > 6 {
        6
    } else {
        level
    }
}

/// What the PNG engine answers for `data` once oxipng gave `outcome`: oxipng's error
/// text, or the optimised bytes kept only where they are smaller.
pub open spec fn png_engine_answer(
    data: Seq<u8>,
    outcome: Result<Seq<u8>, Seq<char>>,
    r: Result<Rewrite, String>,
) -> bool {
    match outcome {
        Err(t) => r matches Err(e) && e@ == t,
        Ok(v) => r matches Ok(w) && keeps_if_smaller(w, data.len(), v),
    }
}

/// Lossless PNG optimisation at `level`: oxipng runs with the preset of the level
/// (capped at 6), and the file is rewritten only where the result is smaller; the
/// error is oxipng's text, and input that is not a PNG is always an error.
pub fn optimize_png(data: &[u8], level: u8) -> (r: Result<Rewrite, String>)
    requires
        !has_truncated_animation_chunk(data@),
    ensures
        exists|outcome: Result<Seq<u8>, Seq<char>>|
            #[trigger] oxipng_may_give(data@, png_preset_of(level), outcome)
                && png_engine_answer(data@, outcome, r) && match outcome {
                Ok(v) => r matches Ok(w) && w.original_size == data@.len() && (v.len() < data@.len() ==> (
                w.contents matches Some(c) && c@ == v && w.final_size == v.len())) && (v.len()
                    >= data@.len() ==> (w.contents is None && w.final_size == data@.len())),
                Err(t) => r matches Err(e) && e@ == t,
            },
        !has_png_signature(data@) ==> r is Err,
        r matches Ok(w) ==> shrinks_only(w, data@.len()),
{
    let preset = png_preset(level);
    match optimize_png_data(data, preset) {
        Ok(optimized) => {
            let ghost o = optimized@;
            let w = keep_if_smaller(data.len(), optimized);
            assert(oxipng_may_give(data@, preset, Ok(o)));
            Ok(w)
        },
        Err(e) => {
            assert(oxipng_may_give(data@, preset, Err(e@)));
            Err(e)
        },
    }
}

/// What the JPEG engine answers for a file of `original` bytes whose decoded pixels
/// are `pixels` (`width` by `height`, in `layout`): the encoder's JPEG at the quality of
/// `level`, written whatever its size, or the encoder's error.
pub open spec fn jpeg_engine_answer(
    original: nat,
    pixels: Seq<u8>,
    width: u32,
    height: u32,
    layout: PixelLayout,
    level: u8,
    r: Result<Rewrite, JpegError>,
) -> bool {
    match jpeg_written(pixels, width, height, layout, jpeg_quality(level)) {
        None => r matches Err(JpegError::Encode(_)),
        Some(v) => r matches Ok(w) && w.original_size == original && w.final_size == v.len() && (
        w.contents matches Some(c) && c@ == v),
    }
}

/// Encodes decoded pixels as the new contents of a JPEG file of `original_size` bytes,
/// at the quality of `level`.
pub fn rewrite_decoded_jpeg(original_size: usize, image: &DecodedImage, level: u8) -> (r: Result<
    Rewrite,
    JpegError,
>)
    requires
        pixels_exact(image.pixels@.len(), channel_count(image.layout), image.width, image.height),
    ensures
        jpeg_engine_answer(
            original_size as nat,
            image.pixels@,
            image.width,
            image.height,
            image.layout,
            level,
            r,
        ),
        r is Ok <==> jpeg_size_ok(image.width, image.height),
        r matches Ok(w) ==> w.contents matches Some(c) && starts_with_soi(c@),
{
    let quality = jpeg_quality_from_level(level);
    match write_jpeg_pixels(image.pixels.as_slice(), image.width, image.height, image.layout, quality) {
        Ok(v) => {
            let n = v.len();
            Ok(Rewrite { contents: Some(v), original_size, final_size: n })
        },
        Err(e) => Err(JpegError::Encode(e)),
    }
}

/// Why the JPEG engine failed: the file did not decode, or the new JPEG could not be
/// encoded (the file is then left empty, as it has been opened for writing).
#[derive(Debug)]
pub enum JpegError {
    Decode(String),
    Encode(String),
}

/// Re-encodes a JPEG file at the quality of `level` (95, 85, 75, 65, then 50): the
/// decoded pixels are written again through the JPEG encoder, and the new file is
/// written whatever its size. A file that decodes is always re-encoded.
pub fn optimize_jpeg(data: &[u8], level: u8) -> (r: Result<Rewrite, JpegError>)
    ensures
        r matches Err(JpegError::Decode(_)) <==> !jpeg_decodes(data@),
        jpeg_decodes(data@) ==> r is Ok,
        jpeg_decodes(data@) ==> exists|pixels: Seq<u8>, width: u32, height: u32, layout: PixelLayout|
            jpeg_may_decode(data@, Some((pixels, width, height, layout))) && pixels_exact(
                pixels.len(),
                channel_count(layout),
                width,
                height,
            ) && #[trigger] jpeg_engine_answer(data@.len(), pixels, width, height, layout, level, r),
        r matches Ok(w) ==> rewrites_all(w, data@.len()),
        r matches Ok(w) ==> w.contents matches Some(c) && starts_with_soi(c@),
{
    let image = match decode_jpeg(data) {
        Ok(i) => i,
        Err(e) => {
            return Err(JpegError::Decode(e));
        },
    };
    rewrite_decoded_jpeg(data.len(), &image, level)
}

/// WebP quality, in percent, for a compression level: 90, 82, 75 and 65 for levels 0
/// to 3, and 50 for every higher level.
pub open spec fn webp_quality(level: u8) -> u8 {
    if level == 0 {
        90
    } else if level == 1 {
        82
    } else if level == 2 {
        75
    } else if level == 3 {
        65
    } else {
        50
    }
}

/// Maps the universal compression level to a WebP quality, in percent.
pub fn webp_quality_from_level(level: u8) -> (q: u8)
    ensures
        q == webp_quality(level),
{
    match level {
        0 => 90,
        1 => 82,
        2 => 75,
        3 => 65,
        _ => 50,
    }
}

} // verus!
