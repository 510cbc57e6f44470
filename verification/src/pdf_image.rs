//! Re-encoding of the images embedded in a PDF: which streams are images, which
//! filters can be handled, and when the recompressed bytes replace the old ones.
use crate::jpeg::{
    channel_count, decode_jpeg, encode_as_jpeg, encode_jpeg_pixels, jpeg_decodes, jpeg_may_decode,
    jpeg_size_ok,
    jpeg_of_pixels, jpeg_quality, jpeg_quality_from_level, layout_for, pixels_exact, pixels_fit,
    DecodedImage, PixelLayout,
};
use crate::pdf_model::{
    ascii_bytes, ascii_literal, decoded_content, decompress_stream, dict_get, dictionary_entries, lookup,
    plain_entries, remove_stream_entry, replace_stream_content, set_integer_entry, set_name_entry,
    stream_bytes, stream_content, stream_dict, stream_entries, EntryModel, ItemModel, PdfItem,
    PdfValue,
};
use crate::text::{decimal, join, starts_with, usize_to_decimal};
use lopdf::{Dictionary, Stream};
use vstd::prelude::*;

verus! {

/// `/Filter`
pub open spec fn filter_key() -> Seq<u8> {
    ascii_bytes(seq!['F', 'i', 'l', 't', 'e', 'r'])
}

/// `/DecodeParms`
pub open spec fn decode_parms_key() -> Seq<u8> {
    ascii_bytes(seq!['D', 'e', 'c', 'o', 'd', 'e', 'P', 'a', 'r', 'm', 's'])
}

/// `/Length`
pub open spec fn length_key() -> Seq<u8> {
    ascii_bytes(seq!['L', 'e', 'n', 'g', 't', 'h'])
}

/// `/Subtype`
pub open spec fn subtype_key() -> Seq<u8> {
    ascii_bytes(seq!['S', 'u', 'b', 't', 'y', 'p', 'e'])
}

/// `/Width`
pub open spec fn width_key() -> Seq<u8> {
    ascii_bytes(seq!['W', 'i', 'd', 't', 'h'])
}

/// `/Height`
pub open spec fn height_key() -> Seq<u8> {
    ascii_bytes(seq!['H', 'e', 'i', 'g', 'h', 't'])
}

/// `/BitsPerComponent`
pub open spec fn bits_key() -> Seq<u8> {
    ascii_bytes(
        seq!['B', 'i', 't', 's', 'P', 'e', 'r', 'C', 'o', 'm', 'p', 'o', 'n', 'e', 'n', 't'],
    )
}

/// `/ColorSpace`
pub open spec fn color_space_key() -> Seq<u8> {
    ascii_bytes(seq!['C', 'o', 'l', 'o', 'r', 'S', 'p', 'a', 'c', 'e'])
}

/// The name `Image`.
pub open spec fn image_name() -> Seq<u8> {
    ascii_bytes(seq!['I', 'm', 'a', 'g', 'e'])
}

/// The name `DCTDecode` (baseline JPEG).
pub open spec fn dct_name() -> Seq<u8> {
    ascii_bytes(seq!['D', 'C', 'T', 'D', 'e', 'c', 'o', 'd', 'e'])
}

/// The name `JPXDecode` (JPEG 2000).
pub open spec fn jpx_name() -> Seq<u8> {
    ascii_bytes(seq!['J', 'P', 'X', 'D', 'e', 'c', 'o', 'd', 'e'])
}

/// The name `DeviceRGB`.
pub open spec fn device_rgb_name() -> Seq<u8> {
    ascii_bytes(seq!['D', 'e', 'v', 'i', 'c', 'e', 'R', 'G', 'B'])
}

/// The name `DeviceCMYK`.
pub open spec fn device_cmyk_name() -> Seq<u8> {
    ascii_bytes(seq!['D', 'e', 'v', 'i', 'c', 'e', 'C', 'M', 'Y', 'K'])
}

/// The colour space that stands for an indirect reference: `Unknown`.
pub open spec fn unknown_name() -> Seq<u8> {
    ascii_bytes(seq!['U', 'n', 'k', 'n', 'o', 'w', 'n'])
}

/// A name, or the first element of an array when that element is a name; empty
/// otherwise.
pub open spec fn first_name(v: Option<EntryModel>) -> Seq<u8> {
    match v {
        Some(EntryModel::Name(n)) => n,
        Some(EntryModel::Array(a)) => if a.len() > 0 {
            match a[0] {
                ItemModel::Name(n) => n,
                ItemModel::Other => Seq::empty(),
            }
        } else {
            Seq::empty()
        },
        _ => Seq::empty(),
    }
}

/// The filter that decides how an image stream is handled.
pub open spec fn filter_name(m: Map<Seq<u8>, EntryModel>) -> Seq<u8> {
    first_name(lookup(m, filter_key()))
}

/// The colour space of an image stream; an indirect reference reads as `Unknown`.
pub open spec fn color_space_name(m: Map<Seq<u8>, EntryModel>) -> Seq<u8> {
    match lookup(m, color_space_key()) {
        Some(EntryModel::Reference) => unknown_name(),
        v => first_name(v),
    }
}

/// An integer entry read as `usize` (a negative one wraps, as `as usize` does).
pub open spec fn entry_int(v: Option<EntryModel>) -> Option<usize> {
    match v {
        Some(EntryModel::Integer(n)) => Some(n as usize),
        _ => None,
    }
}

/// The stream's dictionary says `/Subtype /Image`.
pub open spec fn is_image(m: Map<Seq<u8>, EntryModel>) -> bool {
    lookup(m, subtype_key()) == Some(EntryModel::Name(image_name()))
}

/// The number of bytes that a `width` by `height` image of `channels` components of
/// `bits` bits needs (`bits / 8` bytes per component), saturated at `usize::MAX`.
pub open spec fn expected_len(width: usize, height: usize, channels: usize, bits: usize) -> nat {
    let p = width * height * channels * (bits / 8);
    if p <= usize::MAX {
        p as nat
    } else {
        usize::MAX as nat
    }
}

/// The message for an image whose content is shorter than its dimensions need.
pub open spec fn insufficient_message(expected: nat, got: nat) -> Seq<char> {
    "Bytes insuficientes: esperado "@ + decimal(expected) + ", obtido "@ + decimal(got)
}

/// `r` failed with the message `msg`.
pub open spec fn fails_with(r: Result<(), String>, msg: Seq<char>) -> bool {
    r matches Err(e) && e@ == msg
}

/// `r` failed with a message that begins with `prefix`.
pub open spec fn fails_starting(r: Result<(), String>, prefix: Seq<char>) -> bool {
    r matches Err(e) && starts_with(e@, prefix)
}

/// What the re-encoding of an uncompressed image does, once the stream holds the
/// entries `m` and the decoded bytes `raw`: `r` is the result, and `fm`, `fb` the
/// stream's entries and bytes afterwards.
pub open spec fn raw_image_outcome(
    m: Map<Seq<u8>, EntryModel>,
    raw: Seq<u8>,
    level: u8,
    r: Result<(), String>,
    fm: Map<Seq<u8>, EntryModel>,
    fb: Seq<u8>,
) -> bool {
    let kept = fm == m && fb == raw;
    match entry_int(lookup(m, width_key())) {
        None => kept && fails_with(r, "Stream sem /Width"@),
        Some(w) => match entry_int(lookup(m, height_key())) {
            None => kept && fails_with(r, "Stream sem /Height"@),
            Some(h) => {
                let bits = match entry_int(lookup(m, bits_key())) {
                    Some(b) => b,
                    None => 8usize,
                };
                let cs = color_space_name(m);
                if cs == device_cmyk_name() {
                    kept && fails_with(r, "CMYK não suportado — ignorado"@)
                } else {
                    let c: usize = if cs == device_rgb_name() {
                        3
                    } else {
                        1
                    };
                    let expected = expected_len(w, h, c, bits);
                    let layout = layout_for(c);
                    let (w32, h32) = (w as u32, h as u32);
                    if raw.len() < expected {
                        kept && fails_with(r, insufficient_message(expected, raw.len()))
                    } else if !pixels_fit(raw.len(), channel_count(layout), w32, h32) {
                        kept && fails_with(r, crate::jpeg::buffer_error(c))
                    } else {
                        match jpeg_of_pixels(raw, w32, h32, layout, jpeg_quality(level)) {
                            None => kept && fails_starting(r, "Falha no JpegEncoder: "@),
                            Some(v) => r is Ok && if v.len() < raw.len() {
                                fb == v && fm == m.remove(decode_parms_key()).insert(
                                    filter_key(),
                                    EntryModel::Name(dct_name()),
                                ).insert(length_key(), EntryModel::Integer(v.len() as i64))
                            } else {
                                kept
                            },
                        }
                    }
                }
            },
        },
    }
}

/// `candidate` replaces bytes `b0` (with `Length` updated in the entries `m0`) only
/// where it is strictly shorter; `m1`, `b1` are the entries and bytes afterwards.
pub open spec fn replaced_if_shorter(
    m0: Map<Seq<u8>, EntryModel>,
    b0: Seq<u8>,
    candidate: Seq<u8>,
    m1: Map<Seq<u8>, EntryModel>,
    b1: Seq<u8>,
) -> bool {
    if candidate.len() < b0.len() {
        b1 == candidate && m1 == m0.insert(length_key(), EntryModel::Integer(candidate.len() as i64))
    } else {
        m1 == m0 && b1 == b0
    }
}

/// What re-encoding decoded JPEG pixels does to a `DCTDecode` stream of entries `m0`
/// and bytes `b0`: the encoder's JPEG at the quality of `level` replaces the bytes only
/// where it is shorter (the filter stays); an encoder failure leaves the stream as it
/// was.
pub open spec fn dct_pixels_outcome(
    m0: Map<Seq<u8>, EntryModel>,
    b0: Seq<u8>,
    pixels: Seq<u8>,
    width: u32,
    height: u32,
    layout: PixelLayout,
    level: u8,
    r: Result<(), String>,
    m1: Map<Seq<u8>, EntryModel>,
    b1: Seq<u8>,
) -> bool {
    match jpeg_of_pixels(pixels, width, height, layout, jpeg_quality(level)) {
        None => m1 == m0 && b1 == b0 && fails_starting(r, "Falha ao reencodar JPEG: "@),
        Some(v) => r is Ok && replaced_if_shorter(m0, b0, v, m1, b1),
    }
}

/// What the re-encoding of a JPEG (`DCTDecode`) stream does: bytes that are no JPEG
/// that decodes are refused and the stream is left as it was; otherwise pixels that the
/// decoder can give for the bytes are re-encoded as [`dct_pixels_outcome`] says.
pub open spec fn dct_outcome(
    m0: Map<Seq<u8>, EntryModel>,
    b0: Seq<u8>,
    level: u8,
    r: Result<(), String>,
    m1: Map<Seq<u8>, EntryModel>,
    b1: Seq<u8>,
) -> bool {
    if !jpeg_decodes(b0) {
        m1 == m0 && b1 == b0 && fails_starting(r, "Falha ao decodificar DCTDecode JPEG: "@)
    } else {
        exists|pixels: Seq<u8>, width: u32, height: u32, layout: PixelLayout|
            jpeg_may_decode(b0, Some((pixels, width, height, layout))) && pixels_exact(
                pixels.len(),
                channel_count(layout),
                width,
                height,
            ) && jpeg_size_ok(width, height)
                && #[trigger] dct_pixels_outcome(m0, b0, pixels, width, height, layout, level, r, m1, b1)
    }
}

fn subtype_key_bytes() -> (r: &'static [u8])
    ensures
        r@ == subtype_key(),
{
    proof {
        reveal_strlit("Subtype");
        assert("Subtype"@ =~= seq!['S', 'u', 'b', 't', 'y', 'p', 'e']);
    }
    ascii_literal("Subtype")
}

fn image_name_bytes() -> (r: &'static [u8])
    ensures
        r@ == image_name(),
{
    proof {
        reveal_strlit("Image");
        assert("Image"@ =~= seq!['I', 'm', 'a', 'g', 'e']);
    }
    ascii_literal("Image")
}

fn filter_key_bytes() -> (r: &'static [u8])
    ensures
        r@ == filter_key(),
{
    proof {
        reveal_strlit("Filter");
        assert("Filter"@ =~= seq!['F', 'i', 'l', 't', 'e', 'r']);
    }
    ascii_literal("Filter")
}

fn decode_parms_key_bytes() -> (r: &'static [u8])
    ensures
        r@ == decode_parms_key(),
{
    proof {
        reveal_strlit("DecodeParms");
        assert("DecodeParms"@ =~= seq!['D', 'e', 'c', 'o', 'd', 'e', 'P', 'a', 'r', 'm', 's']);
    }
    ascii_literal("DecodeParms")
}

fn length_key_bytes() -> (r: &'static [u8])
    ensures
        r@ == length_key(),
{
    proof {
        reveal_strlit("Length");
        assert("Length"@ =~= seq!['L', 'e', 'n', 'g', 't', 'h']);
    }
    ascii_literal("Length")
}

fn width_key_bytes() -> (r: &'static [u8])
    ensures
        r@ == width_key(),
{
    proof {
        reveal_strlit("Width");
        assert("Width"@ =~= seq!['W', 'i', 'd', 't', 'h']);
    }
    ascii_literal("Width")
}

fn height_key_bytes() -> (r: &'static [u8])
    ensures
        r@ == height_key(),
{
    proof {
        reveal_strlit("Height");
        assert("Height"@ =~= seq!['H', 'e', 'i', 'g', 'h', 't']);
    }
    ascii_literal("Height")
}

fn bits_key_bytes() -> (r: &'static [u8])
    ensures
        r@ == bits_key(),
{
    proof {
        reveal_strlit("BitsPerComponent");
        assert("BitsPerComponent"@ =~= seq!['B', 'i', 't', 's', 'P', 'e', 'r', 'C', 'o', 'm', 'p', 'o', 'n', 'e', 'n', 't']);
    }
    ascii_literal("BitsPerComponent")
}

fn color_space_key_bytes() -> (r: &'static [u8])
    ensures
        r@ == color_space_key(),
{
    proof {
        reveal_strlit("ColorSpace");
        assert("ColorSpace"@ =~= seq!['C', 'o', 'l', 'o', 'r', 'S', 'p', 'a', 'c', 'e']);
    }
    ascii_literal("ColorSpace")
}

fn dct_name_bytes() -> (r: &'static [u8])
    ensures
        r@ == dct_name(),
{
    proof {
        reveal_strlit("DCTDecode");
        assert("DCTDecode"@ =~= seq!['D', 'C', 'T', 'D', 'e', 'c', 'o', 'd', 'e']);
    }
    ascii_literal("DCTDecode")
}

fn jpx_name_bytes() -> (r: &'static [u8])
    ensures
        r@ == jpx_name(),
{
    proof {
        reveal_strlit("JPXDecode");
        assert("JPXDecode"@ =~= seq!['J', 'P', 'X', 'D', 'e', 'c', 'o', 'd', 'e']);
    }
    ascii_literal("JPXDecode")
}

fn device_rgb_name_bytes() -> (r: &'static [u8])
    ensures
        r@ == device_rgb_name(),
{
    proof {
        reveal_strlit("DeviceRGB");
        assert("DeviceRGB"@ =~= seq!['D', 'e', 'v', 'i', 'c', 'e', 'R', 'G', 'B']);
    }
    ascii_literal("DeviceRGB")
}

fn device_cmyk_name_bytes() -> (r: &'static [u8])
    ensures
        r@ == device_cmyk_name(),
{
    proof {
        reveal_strlit("DeviceCMYK");
        assert("DeviceCMYK"@ =~= seq!['D', 'e', 'v', 'i', 'c', 'e', 'C', 'M', 'Y', 'K']);
    }
    ascii_literal("DeviceCMYK")
}

fn unknown_name_bytes() -> (r: &'static [u8])
    ensures
        r@ == unknown_name(),
{
    proof {
        reveal_strlit("Unknown");
        assert("Unknown"@ =~= seq!['U', 'n', 'k', 'n', 'o', 'w', 'n']);
    }
    ascii_literal("Unknown")
}

fn bytes_eq(a: &[u8], b: &[u8]) -> (r: bool)
    ensures
        r == (a@ == b@),
{
    if a.len() != b.len() {
        return false;
    }
    let mut i: usize = 0;
    while i < a.len()
        invariant
            i <= a.len(),
            a.len() == b.len(),
            forall|j: int| 0 <= j < i ==> a@[j] == b@[j],
        decreases a.len() - i,
    {
        if a[i] != b[i] {
            return false;
        }
        i += 1;
    }
    assert(a@ =~= b@);
    true
}

fn first_name_of(v: Option<PdfValue>) -> (r: Vec<u8>)
    ensures
        r@ == first_name(match v {
            Some(x) => Some(x@),
            None => None,
        }),
{
    match v {
        Some(PdfValue::Name(n)) => n,
        Some(PdfValue::Array(mut a)) => {
            if a.len() > 0 {
                let ghost a0 = a@;
                let first = a.remove(0);
                assert(a0.map_values(|i: PdfItem| i@)[0] == first@);
                match first {
                    PdfItem::Name(n) => n,
                    PdfItem::Other => Vec::new(),
                }
            } else {
                Vec::new()
            }
        },
        _ => Vec::new(),
    }
}

/// Detects whether a stream is an image, by its `/Subtype /Image` entry.
pub fn is_image_stream(stream: &Stream) -> (r: bool)
    ensures
        r == is_image(stream_entries(*stream)),
{
    match dict_get(stream_dict(stream), subtype_key_bytes()) {
        Some(PdfValue::Name(n)) => bytes_eq(n.as_slice(), image_name_bytes()),
        _ => false,
    }
}

/// Reads an integer entry of a dictionary as `usize` (a negative one wraps, as
/// `as usize` does); `None` where the key is absent or holds no integer.
pub fn get_dict_int(dict: &Dictionary, key: &[u8]) -> (r: Option<usize>)
    ensures
        r == entry_int(lookup(dictionary_entries(*dict), key@)),
{
    match dict_get(dict, key) {
        Some(PdfValue::Integer(n)) => {
            #[verifier::truncate]
            let u = n as usize;
            Some(u)
        },
        _ => None,
    }
}

fn filter_of(stream: &Stream) -> (r: Vec<u8>)
    ensures
        r@ == filter_name(stream_entries(*stream)),
{
    first_name_of(dict_get(stream_dict(stream), filter_key_bytes()))
}

fn color_space_of(stream: &Stream) -> (r: Vec<u8>)
    ensures
        r@ == color_space_name(stream_entries(*stream)),
{
    match dict_get(stream_dict(stream), color_space_key_bytes()) {
        Some(PdfValue::Reference) => vstd::slice::slice_to_vec(unknown_name_bytes()),
        v => first_name_of(v),
    }
}

proof fn lemma_product_bound(a: nat, b: nat, c: nat, d: nat)
    requires
        a >= 1,
        b >= 1,
        c >= 1,
        d >= 1,
    ensures
        a * b <= a * b * c,
        a * b * c <= a * b * c * d,
{
    assert(a * b <= a * b * c) by (nonlinear_arith)
        requires
            a >= 1,
            b >= 1,
            c >= 1,
    ;
    assert(a * b >= 1) by (nonlinear_arith)
        requires
            a >= 1,
            b >= 1,
    ;
    assert(a * b * c <= a * b * c * d) by (nonlinear_arith)
        requires
            a * b >= 1,
            c >= 1,
            d >= 1,
    ;
}

/// `width * height * channels * (bits / 8)`, saturated at `usize::MAX`.
fn expected_size(width: usize, height: usize, channels: usize, bits: usize) -> (r: usize)
    ensures
        r as nat == expected_len(width, height, channels, bits),
{
    let per = bits / 8;
    if width == 0 || height == 0 || channels == 0 || per == 0 {
        assert(width * height * channels * per == 0) by (nonlinear_arith)
            requires
                width == 0 || height == 0 || channels == 0 || per == 0,
        ;
        return 0;
    }
    proof {
        lemma_product_bound(width as nat, height as nat, channels as nat, per as nat);
    }
    match width.checked_mul(height) {
        None => usize::MAX,
        Some(wh) => match wh.checked_mul(channels) {
            None => usize::MAX,
            Some(whc) => match whc.checked_mul(per) {
                None => usize::MAX,
                Some(all) => all,
            },
        },
    }
}

fn insufficient_error(expected: usize, got: usize) -> (r: String)
    ensures
        r@ == insufficient_message(expected as nat, got as nat),
{
    let mut s = String::from_str("Bytes insuficientes: esperado ");
    let e = usize_to_decimal(expected);
    s.append(e.as_str());
    s.append(", obtido ");
    let g = usize_to_decimal(got);
    s.append(g.as_str());
    s
}

/// Re-encodes a JPEG (`DCTDecode`) stream at the quality of `level`: the bytes are
/// already a JPEG file, so they are decoded and encoded again, and the new bytes
/// replace the old ones only when they are shorter (the filter stays `DCTDecode`).
pub fn recompress_dct_stream(stream: &mut Stream, level: u8) -> (r: Result<(), String>)
    ensures
        dct_outcome(
            stream_entries(*old(stream)),
            stream_bytes(*old(stream)),
            level,
            r,
            stream_entries(*final(stream)),
            stream_bytes(*final(stream)),
        ),
        jpeg_decodes(stream_bytes(*old(stream))) ==> r is Ok,
{
    let original = stream_content(stream);
    let image = match decode_jpeg(original.as_slice()) {
        Ok(image) => image,
        Err(e) => {
            return Err(join("Falha ao decodificar DCTDecode JPEG: ", e.as_str()));
        },
    };
    let ghost m0 = stream_entries(*stream);
    let ghost b0 = stream_bytes(*stream);
    let r = recompress_decoded_jpeg(stream, &image, level);
    assert(dct_pixels_outcome(
        m0,
        b0,
        image.pixels@,
        image.width,
        image.height,
        image.layout,
        level,
        r,
        stream_entries(*stream),
        stream_bytes(*stream),
    ));
    r
}

/// Re-encodes the decoded pixels of a `DCTDecode` stream at the quality of `level`, and
/// puts the new JPEG in place of the stream's bytes only where it is shorter.
pub fn recompress_decoded_jpeg(stream: &mut Stream, image: &DecodedImage, level: u8) -> (r: Result<
    (),
    String,
>)
    requires
        pixels_exact(image.pixels@.len(), channel_count(image.layout), image.width, image.height),
    ensures
        dct_pixels_outcome(
            stream_entries(*old(stream)),
            stream_bytes(*old(stream)),
            image.pixels@,
            image.width,
            image.height,
            image.layout,
            level,
            r,
            stream_entries(*final(stream)),
            stream_bytes(*final(stream)),
        ),
        r is Ok <==> jpeg_size_ok(image.width, image.height),
{
    let quality = jpeg_quality_from_level(level);
    match encode_jpeg_pixels(image.pixels.as_slice(), image.width, image.height, image.layout, quality) {
        Ok(v) => {
            replace_if_shorter(stream, v);
            Ok(())
        },
        Err(e) => Err(join("Falha ao reencodar JPEG: ", e.as_str())),
    }
}

/// Puts `candidate` in place of the stream's bytes, with `Length` updated, only where
/// it is strictly shorter; otherwise the stream stays as it was.
pub fn replace_if_shorter(stream: &mut Stream, candidate: Vec<u8>)
    ensures
        replaced_if_shorter(
            stream_entries(*old(stream)),
            stream_bytes(*old(stream)),
            candidate@,
            stream_entries(*final(stream)),
            stream_bytes(*final(stream)),
        ),
{
    let original_len = stream_content(stream).len();
    if candidate.len() < original_len {
        #[verifier::truncate]
        let length = candidate.len() as i64;
        replace_stream_content(stream, candidate);
        set_integer_entry(stream, length_key_bytes(), length);
    }
}

/// What [`recompress_image_stream`] does to a stream whose entries were `m0`, bytes
/// `b0` and decoded content `decoded`, with result `r` and entries `m1` and bytes `b1`
/// afterwards.
pub open spec fn image_stream_outcome(
    m0: Map<Seq<u8>, EntryModel>,
    b0: Seq<u8>,
    decoded: Option<Seq<u8>>,
    level: u8,
    r: Result<(), String>,
    m1: Map<Seq<u8>, EntryModel>,
    b1: Seq<u8>,
) -> bool {
    let f = filter_name(m0);
    if f == dct_name() {
        dct_outcome(m0, b0, level, r, m1, b1)
    } else if f == jpx_name() {
        m1 == m0 && b1 == b0 && fails_with(r, "JPXDecode (JPEG2000) não suportado — ignorado"@)
    } else {
        match decoded {
            None => m1 == m0 && b1 == b0 && fails_starting(r, "Falha ao descomprimir stream: "@),
            Some(raw) => raw_image_outcome(plain_entries(m0, raw.len()), raw, level, r, m1, b1),
        }
    }
}

/// Extracts, re-encodes and puts back the pixels of an image stream: a JPEG stream is
/// re-encoded as such; a JPEG 2000 one is refused; any other is decompressed, read as
/// RGB (`/DeviceRGB`) or grey (any other colour space but `/DeviceCMYK`, which is
/// refused) pixels of its `/Width`, `/Height` and `/BitsPerComponent` (8 by default),
/// and encoded as JPEG at the quality of `level`; the JPEG replaces the pixels, under
/// `/Filter /DCTDecode` and without `/DecodeParms`, only where it is shorter. A stream
/// that was decompressed stays so whatever comes after.
pub fn recompress_image_stream(stream: &mut Stream, level: u8) -> (r: Result<(), String>)
    ensures
        image_stream_outcome(
            stream_entries(*old(stream)),
            stream_bytes(*old(stream)),
            decoded_content(*old(stream)),
            level,
            r,
            stream_entries(*final(stream)),
            stream_bytes(*final(stream)),
        ),
{
    let ghost m0 = stream_entries(*stream);
    let ghost b0 = stream_bytes(*stream);
    let filter = filter_of(stream);
    assert(dct_name().len() == 9 && jpx_name().len() == 9);
    assert(dct_name()[0] != jpx_name()[0]);
    if bytes_eq(filter.as_slice(), dct_name_bytes()) {
        return recompress_dct_stream(stream, level);
    }
    if bytes_eq(filter.as_slice(), jpx_name_bytes()) {
        return Err(String::from_str("JPXDecode (JPEG2000) não suportado — ignorado"));
    }
    match decompress_stream(stream) {
        Ok(()) => {},
        Err(e) => {
            return Err(join("Falha ao descomprimir stream: ", e.as_str()));
        },
    }
    let ghost raw_model = stream_bytes(*stream);
    let ghost m = stream_entries(*stream);
    assert(m == plain_entries(m0, raw_model.len()));
    let r = recompress_raw(stream, level);
    assert(raw_image_outcome(m, raw_model, level, r, stream_entries(*stream), stream_bytes(*stream)));
    r
}

/// Re-encodes the pixels that an image stream holds (already decoded) as JPEG, as
/// [`raw_image_outcome`] says.
pub fn recompress_raw(stream: &mut Stream, level: u8) -> (r: Result<(), String>)
    ensures
        raw_image_outcome(
            stream_entries(*old(stream)),
            stream_bytes(*old(stream)),
            level,
            r,
            stream_entries(*final(stream)),
            stream_bytes(*final(stream)),
        ),
{
    let raw = stream_content(stream);
    let width = match get_dict_int(stream_dict(stream), width_key_bytes()) {
        Some(w) => w,
        None => {
            return Err(String::from_str("Stream sem /Width"));
        },
    };
    let height = match get_dict_int(stream_dict(stream), height_key_bytes()) {
        Some(h) => h,
        None => {
            return Err(String::from_str("Stream sem /Height"));
        },
    };
    let bits = match get_dict_int(stream_dict(stream), bits_key_bytes()) {
        Some(b) => b,
        None => 8,
    };
    let color_space = color_space_of(stream);
    assert(device_rgb_name().len() == 9 && device_cmyk_name().len() == 10);
    let channels: usize = if bytes_eq(color_space.as_slice(), device_rgb_name_bytes()) {
        3
    } else if bytes_eq(color_space.as_slice(), device_cmyk_name_bytes()) {
        return Err(String::from_str("CMYK não suportado — ignorado"));
    } else {
        1
    };
    let expected = expected_size(width, height, channels, bits);
    if raw.len() < expected {
        return Err(insufficient_error(expected, raw.len()));
    }
    let quality = jpeg_quality_from_level(level);
    let recompressed = match encode_as_jpeg(raw.as_slice(), width, height, channels, quality) {
        Ok(v) => v,
        Err(e) => {
            return Err(e);
        },
    };
    if recompressed.len() < raw.len() {
        #[verifier::truncate]
        let length = recompressed.len() as i64;
        replace_stream_content(stream, recompressed);
        remove_stream_entry(stream, decode_parms_key_bytes());
        set_name_entry(stream, filter_key_bytes(), dct_name_bytes());
        set_integer_entry(stream, length_key_bytes(), length);
    }
    Ok(())
}

} // verus!
