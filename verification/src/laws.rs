//! Properties that hold across the library's functions.
use crate::engines::{
    jpeg_engine_answer, oxipng_may_give, png_engine_answer, png_preset_of, shrinks_only, webp_quality,
    JpegError, Rewrite,
};
use crate::format::{
    ascii_lower_char, ascii_lowercase, ascii_upper_char, ascii_uppercase, format_of_extension,
    format_of_lowercase, is_ascii_text, unicode_lowercase,
};
use crate::jpeg::{
    channel_count, encode_as_jpeg_result, jpeg_may_decode, jpeg_of_pixels, jpeg_quality, jpeg_size_ok,
    jpeg_written, pixels_exact, pixels_fit, PixelLayout,
};
use crate::path::{file_name, last_index, lemma_last_index_bounds, path_extension};
use crate::pdf::{
    document_processed, info_key, is_silenced_error, pdf_engine_answer, pdf_run, temp_file_name,
    PdfError, PdfRewrite, StreamStep,
};
use crate::pdf_image::{
    dct_name, dct_outcome, dct_pixels_outcome, filter_key, filter_name, image_stream_outcome, insufficient_message, jpx_name, raw_image_outcome,
};
use crate::pdf_model::{
    document_ids, document_streams, id_before, increasing_ids, lookup, referenced_ids, saved_pdf,
    trailer_entries,
    EntryModel,
};
use crate::router::{accepts, engine_of, extension_or_empty, texts};
use lopdf::Document;
use crate::text::contains;
use vstd::prelude::*;

verus! {

/// A higher compression level never asks for a higher JPEG or WebP quality.
pub proof fn law_quality_never_rises(low: u8, high: u8)
    requires
        low <= high,
    ensures
        jpeg_quality(high) <= jpeg_quality(low),
        webp_quality(high) <= webp_quality(low),
{
}

/// Every level from 4 upwards, up to 255, gives the lowest quality, 50.
pub proof fn law_quality_floor(level: u8)
    requires
        level >= 4,
    ensures
        jpeg_quality(level) == 50,
        webp_quality(level) == 50,
{
}

/// An engine that writes only what is strictly smaller never makes a file grow, and
/// writes nothing when it did not shrink it.
pub proof fn law_rewrite_never_grows(r: Rewrite, original: nat)
    requires
        shrinks_only(r, original),
    ensures
        r.final_size <= r.original_size,
        r.contents is Some <==> r.final_size < r.original_size,
{
}

/// Re-encoding a JPEG stream never makes its bytes longer, and a failed re-encoding
/// leaves the stream as it was.
pub proof fn law_jpeg_stream_never_grows(
    m0: Map<Seq<u8>, EntryModel>,
    b0: Seq<u8>,
    level: u8,
    r: Result<(), String>,
    m1: Map<Seq<u8>, EntryModel>,
    b1: Seq<u8>,
)
    requires
        dct_outcome(m0, b0, level, r, m1, b1),
    ensures
        b1.len() <= b0.len(),
        r is Err ==> m1 == m0 && b1 == b0,
{
}

/// Re-encoded pixels replace the decoded ones only where they are shorter.
pub proof fn law_pixels_replaced_only_if_shorter(
    m: Map<Seq<u8>, EntryModel>,
    raw: Seq<u8>,
    level: u8,
    r: Result<(), String>,
    fm: Map<Seq<u8>, EntryModel>,
    fb: Seq<u8>,
)
    requires
        raw_image_outcome(m, raw, level, r, fm, fb),
    ensures
        fb.len() <= raw.len(),
        fb != raw ==> r is Ok,
{
}

/// The format of an extension does not depend on its case: extensions with the same
/// lowercase form name the same format.
pub proof fn law_format_ignores_case(a: Seq<char>, b: Seq<char>)
    requires
        unicode_lowercase(a) == unicode_lowercase(b),
    ensures
        format_of_extension(a) == format_of_extension(b),
{
}

/// A scan keeps exactly the listed files that it accepts, and only those.
pub proof fn law_scan_keeps_exactly(files: Seq<String>, types: Option<Seq<Seq<char>>>, p: Seq<char>)
    ensures
        texts(files).filter(|q: Seq<char>| accepts(q, types)).contains(p) <==> (texts(
            files,
        ).contains(p) && accepts(p, types)),
{
    let f = |q: Seq<char>| accepts(q, types);
    let s = texts(files);
    if s.filter(f).contains(p) {
        s.lemma_filter_contains_rev(f, p);
        let i = choose|i: int| 0 <= i < s.filter(f).len() && s.filter(f)[i] == p;
        s.lemma_filter_pred(f, i);
    }
    if s.contains(p) && accepts(p, types) {
        let i = choose|i: int| 0 <= i < s.len() && s[i] == p;
        s.lemma_filter_contains(f, i);
    }
}

/// Without a list of types, a scan keeps a file that has an extension exactly when
/// the router has an engine for it.
pub proof fn law_scan_agrees_with_router(p: Seq<char>)
    requires
        path_extension(p) is Some,
    ensures
        accepts(p, None) <==> engine_of(format_of_extension(extension_or_empty(p))) is Some,
{
}

/// Known limitations (JPEG 2000 and CMYK images, images shorter than their size)
/// are answered with messages that the PDF engine does not report.
pub proof fn law_limitations_are_silenced(expected: nat, got: nat)
    ensures
        is_silenced_error("JPXDecode (JPEG2000) não suportado — ignorado"@),
        is_silenced_error("CMYK não suportado — ignorado"@),
        is_silenced_error(insufficient_message(expected, got)),
{
    reveal_strlit("JPXDecode (JPEG2000) não suportado — ignorado");
    reveal_strlit("JPXDecode");
    reveal_strlit("CMYK não suportado — ignorado");
    reveal_strlit("CMYK");
    reveal_strlit("Bytes insuficientes: esperado ");
    reveal_strlit("Bytes insuficientes");
    lemma_prefix_contained("JPXDecode (JPEG2000) não suportado — ignorado"@, "JPXDecode"@);
    lemma_prefix_contained("CMYK não suportado — ignorado"@, "CMYK"@);
    lemma_prefix_contained(insufficient_message(expected, got), "Bytes insuficientes"@);
}

/// A text contains each of its prefixes.
proof fn lemma_prefix_contained(s: Seq<char>, prefix: Seq<char>)
    requires
        prefix.len() <= s.len(),
        forall|i: int| 0 <= i < prefix.len() ==> s[i] == prefix[i],
    ensures
        contains(s, prefix),
{
    let i: int = 0;
    assert(s.subrange(i, i + prefix.len()) =~= prefix);
}

/// A JPEG 2000 image stream is always refused, with a silenced message, and left as
/// it was.
pub proof fn law_jpx_streams_untouched(
    m0: Map<Seq<u8>, EntryModel>,
    b0: Seq<u8>,
    decoded: Option<Seq<u8>>,
    level: u8,
    r: Result<(), String>,
    m1: Map<Seq<u8>, EntryModel>,
    b1: Seq<u8>,
)
    requires
        image_stream_outcome(m0, b0, decoded, level, r, m1, b1),
        filter_name(m0) == jpx_name(),
    ensures
        m1 == m0,
        b1 == b0,
        r matches Err(e) && is_silenced_error(e@),
{
    reveal_strlit("JPXDecode");
    assert(filter_name(m0) != crate::pdf_image::dct_name()) by {
        assert(jpx_name()[0] != crate::pdf_image::dct_name()[0]);
    }
    law_limitations_are_silenced(0, 0);
}

/// Every character after the last `/` of a text is not a `/`.
proof fn lemma_after_last_slash(p: Seq<char>, k: int)
    requires
        last_index(p, '/') < k < p.len(),
    ensures
        p[k] != '/',
    decreases p.len(),
{
    lemma_last_index_bounds(p, '/');
    if p.last() == '/' {
    } else if k == p.len() - 1 {
        assert(p[k] == p.last());
    } else {
        lemma_after_last_slash(p.drop_last(), k);
        assert(p.drop_last()[k] == p[k]);
    }
}

/// A file name holds no `/`.
proof fn lemma_file_name_has_no_slash(p: Seq<char>)
    ensures
        file_name(p) matches Some(n) ==> !n.contains('/'),
    decreases p.len(),
{
    lemma_last_index_bounds(p, '/');
    let i = last_index(p, '/');
    let segment = p.subrange(i + 1, p.len() as int);
    if segment.len() == 0 || segment == seq!['.'] || segment == seq!['.', '.'] {
        if i >= 0 && segment != seq!['.', '.'] {
            lemma_file_name_has_no_slash(p.subrange(0, i));
        }
    } else {
        assert forall|k: int| 0 <= k < segment.len() implies segment[k] != '/' by {
            lemma_after_last_slash(p, i + 1 + k);
        }
    }
}

/// The temporary file of a PDF is named without any `/`, so that it lands in the
/// directory of the PDF it replaces.
pub proof fn law_temp_file_in_same_directory(path: Seq<char>)
    ensures
        !temp_file_name(path).contains('/'),
{
    lemma_file_name_has_no_slash(path);
    reveal_strlit(".thinflux_tmp_");
    reveal_strlit("unnamed");
    reveal_strlit(".pdf");
    let name = match file_name(path) {
        Some(n) => n,
        None => "unnamed"@,
    };
    let t = temp_file_name(path);
    assert forall|k: int| 0 <= k < t.len() implies t[k] != '/' by {
        if k < ".thinflux_tmp_"@.len() {
        } else if k < ".thinflux_tmp_"@.len() + name.len() {
            assert(t[k] == name[k - ".thinflux_tmp_"@.len()]);
        } else {
        }
    }
}

/// Every level above 6 gives oxipng the preset of level 6, so the PNG engine can give
/// the same outcomes at such a level as at 6.
pub proof fn law_png_levels_above_six_act_as_six(
    data: Seq<u8>,
    level: u8,
    outcome: Result<Seq<u8>, Seq<char>>,
)
    requires
        level > 6,
    ensures
        png_preset_of(level) == png_preset_of(6),
        oxipng_may_give(data, png_preset_of(level), outcome) == oxipng_may_give(
            data,
            png_preset_of(6),
            outcome,
        ),
{
}

/// A `DCTDecode` image stream is never decompressed: its `/Filter` entry is the same
/// afterwards, and its bytes are either kept or replaced by a shorter JPEG.
pub proof fn law_jpeg_streams_keep_their_filter(
    m0: Map<Seq<u8>, EntryModel>,
    b0: Seq<u8>,
    decoded: Option<Seq<u8>>,
    level: u8,
    r: Result<(), String>,
    m1: Map<Seq<u8>, EntryModel>,
    b1: Seq<u8>,
)
    requires
        image_stream_outcome(m0, b0, decoded, level, r, m1, b1),
        filter_name(m0) == dct_name(),
    ensures
        lookup(m1, filter_key()) == lookup(m0, filter_key()),
        b1 == b0 || b1.len() < b0.len(),
{
    assert(filter_key().len() == 6);
    assert(crate::pdf_image::length_key().len() == 6);
    assert(filter_key()[0] != crate::pdf_image::length_key()[0]);
}

/// The PDF engine's document has lost `/Info` from its trailer.
pub proof fn law_pdf_metadata_removed(
    d0: Document,
    d1: Document,
    d2: Document,
    level: u8,
    ids: Seq<(u32, u16)>,
    steps: Map<(u32, u16), StreamStep>,
    warnings: Seq<String>,
)
    requires
        pdf_run(d0, d1, d2, level, ids, steps, warnings),
    ensures
        !trailer_entries(d2).dom().contains(info_key()),
{
}

/// Image failures never make the PDF engine fail: where the optimised document saves,
/// the engine succeeds, whatever its images gave.
pub proof fn law_image_failures_never_fail_the_pdf_engine(
    data: Seq<u8>,
    d2: Document,
    warnings: Seq<String>,
    r: Result<PdfRewrite, PdfError>,
)
    requires
        pdf_engine_answer(data, d2, warnings, r),
        saved_pdf(d2) is Some,
    ensures
        r is Ok,
{
}

/// A scan without a list of types keeps the same files as one restricted to png, jpg,
/// jpeg, webp and pdf.
pub proof fn law_default_scan_types(p: Seq<char>)
    ensures
        accepts(p, None) == accepts(
            p,
            Some(
                seq![
                    seq!['p', 'n', 'g'],
                    seq!['j', 'p', 'g'],
                    seq!['j', 'p', 'e', 'g'],
                    seq!['w', 'e', 'b', 'p'],
                    seq!['p', 'd', 'f'],
                ],
            ),
        ),
{
    let five: Seq<Seq<char>> = seq![
        seq!['p', 'n', 'g'],
        seq!['j', 'p', 'g'],
        seq!['j', 'p', 'e', 'g'],
        seq!['w', 'e', 'b', 'p'],
        seq!['p', 'd', 'f'],
    ];
    if let Some(e) = path_extension(p) {
        let lower = unicode_lowercase(e);
        if crate::router::is_default_type(lower) {
            if lower == five[0] {
                assert(five.contains(lower));
            } else if lower == five[1] {
                assert(five.contains(lower));
            } else if lower == five[2] {
                assert(five.contains(lower));
            } else if lower == five[3] {
                assert(five.contains(lower));
            } else {
                assert(five[4] == lower);
                assert(five.contains(lower));
            }
        }
        if five.contains(lower) {
            let j = choose|j: int| 0 <= j < five.len() && five[j] == lower;
            assert(crate::router::is_default_type(lower));
        }
    }
}

/// Widening the list of types never drops a file from a scan.
pub proof fn law_scan_widens_with_its_types(p: Seq<char>, a: Seq<Seq<char>>, b: Seq<Seq<char>>)
    requires
        forall|t: Seq<char>| a.contains(t) ==> b.contains(t),
    ensures
        accepts(p, Some(a)) ==> accepts(p, Some(b)),
{
}

/// The format of an ASCII extension does not depend on its case: the extension, its
/// uppercase and its lowercase forms (all ASCII again) name the same format.
pub proof fn law_format_ignores_ascii_case(s: Seq<char>)
    requires
        is_ascii_text(s),
    ensures
        is_ascii_text(ascii_uppercase(s)),
        is_ascii_text(ascii_lowercase(s)),
        format_of_lowercase(ascii_lowercase(ascii_uppercase(s))) == format_of_lowercase(
            ascii_lowercase(s),
        ),
        format_of_lowercase(ascii_lowercase(ascii_lowercase(s))) == format_of_lowercase(
            ascii_lowercase(s),
        ),
{
    assert forall|i: int| 0 <= i < s.len() implies ascii_lower_char(ascii_upper_char(s[i]))
        == ascii_lower_char(s[i]) && (ascii_upper_char(s[i]) as u32) < 128 && (ascii_lower_char(
        s[i],
    ) as u32) < 128 && ascii_lower_char(ascii_lower_char(s[i])) == ascii_lower_char(s[i]) by {
        let c = s[i];
        assert((c as u32) < 128);
    }
    assert(ascii_lowercase(ascii_uppercase(s)) =~= ascii_lowercase(s));
    assert(ascii_lowercase(ascii_lowercase(s)) =~= ascii_lowercase(s));
    assert forall|i: int| 0 <= i < ascii_uppercase(s).len() implies (#[trigger] ascii_uppercase(s)[i] as u32)
        < 128 by {
        assert(ascii_uppercase(s)[i] == ascii_upper_char(s[i]));
    }
    assert forall|i: int| 0 <= i < ascii_lowercase(s).len() implies (#[trigger] ascii_lowercase(s)[i] as u32)
        < 128 by {
        assert(ascii_lowercase(s)[i] == ascii_lower_char(s[i]));
    }
}

/// Two lists of object identifiers, each in increasing order, that hold the same
/// identifiers are the same list: the PDF engine visits the objects, and reports the
/// image failures, in an order that the document's identifiers fix.
pub proof fn law_object_order_fixed_by_ids(a: Seq<(u32, u16)>, b: Seq<(u32, u16)>)
    requires
        increasing_ids(a),
        increasing_ids(b),
        forall|x: (u32, u16)| a.contains(x) <==> b.contains(x),
    ensures
        a == b,
    decreases a.len() + b.len(),
{
    if a.len() == 0 {
        if b.len() > 0 {
            assert(b.contains(b[0]));
        }
        assert(b =~= a);
    } else if b.len() == 0 {
        assert(a.contains(a[0]));
    } else {
        let la = a.last();
        let lb = b.last();
        assert(a.contains(la) && a[a.len() - 1] == la);
        assert(b.contains(lb) && b[b.len() - 1] == lb);
        let j = choose|j: int| 0 <= j < b.len() && b[j] == la;
        let i = choose|i: int| 0 <= i < a.len() && a[i] == lb;
        if j < b.len() - 1 {
            assert(id_before(b[j], b[b.len() - 1]));
            if i < a.len() - 1 {
                assert(id_before(a[i], a[a.len() - 1]));
            }
            assert(false);
        }
        let a1 = a.drop_last();
        let b1 = b.drop_last();
        assert forall|x: (u32, u16)| a1.contains(x) implies b1.contains(x) by {
            let k = choose|k: int| 0 <= k < a1.len() && a1[k] == x;
            assert(a[k] == x && id_before(a[k], a[a.len() - 1]));
            assert(b.contains(x));
            let m = choose|m: int| 0 <= m < b.len() && b[m] == x;
            assert(m != b.len() - 1);
            assert(b1[m] == x);
        }
        assert forall|x: (u32, u16)| b1.contains(x) implies a1.contains(x) by {
            let k = choose|k: int| 0 <= k < b1.len() && b1[k] == x;
            assert(b[k] == x && id_before(b[k], b[b.len() - 1]));
            assert(a.contains(x));
            let m = choose|m: int| 0 <= m < a.len() && a[m] == x;
            assert(m != a.len() - 1);
            assert(a1[m] == x);
        }
        assert(increasing_ids(a1)) by {
            assert forall|p: int, q: int| 0 <= p < q < a1.len() implies id_before(
                #[trigger] a1[p],
                #[trigger] a1[q],
            ) by {
                assert(a1[p] == a[p] && a1[q] == a[q]);
            }
        }
        assert(increasing_ids(b1)) by {
            assert forall|p: int, q: int| 0 <= p < q < b1.len() implies id_before(
                #[trigger] b1[p],
                #[trigger] b1[q],
            ) by {
                assert(b1[p] == b[p] && b1[q] == b[q]);
            }
        }
        law_object_order_fixed_by_ids(a1, b1);
        assert(a =~= a1.push(la));
        assert(b =~= b1.push(lb));
    }
}

/// Pixels that were re-encoded as JPEG are declared as such: where the stream's bytes
/// changed, its `/Filter` is `/DCTDecode` and it has no `/DecodeParms`.
pub proof fn law_reencoded_pixels_declared_as_jpeg(
    m: Map<Seq<u8>, EntryModel>,
    raw: Seq<u8>,
    level: u8,
    r: Result<(), String>,
    fm: Map<Seq<u8>, EntryModel>,
    fb: Seq<u8>,
)
    requires
        raw_image_outcome(m, raw, level, r, fm, fb),
        fb != raw,
    ensures
        lookup(fm, filter_key()) == Some(EntryModel::Name(dct_name())),
        !fm.dom().contains(crate::pdf_image::decode_parms_key()),
{
    assert(filter_key().len() == 6 && crate::pdf_image::length_key().len() == 6);
    assert(filter_key()[0] != crate::pdf_image::length_key()[0]);
    assert(crate::pdf_image::decode_parms_key().len() == 11);
}

/// After pruning, the PDF engine's document holds only objects that its trailer
/// reaches: every other object, such as the metadata dictionary that `/Info` pointed
/// to where nothing else refers to it, is gone.
pub proof fn law_pdf_keeps_only_referenced_objects(
    d0: Document,
    d1: Document,
    d2: Document,
    level: u8,
    ids: Seq<(u32, u16)>,
    steps: Map<(u32, u16), StreamStep>,
    warnings: Seq<String>,
    id: (u32, u16),
)
    requires
        pdf_run(d0, d1, d2, level, ids, steps, warnings),
    ensures
        document_ids(d2).contains(id) <==> (document_ids(d1).contains(id) && referenced_ids(d1).contains(
            id,
        )),
{
}

/// Two levels of the same JPEG quality re-encode a JPEG stream alike.
proof fn lemma_dct_outcome_by_quality(
    m0: Map<Seq<u8>, EntryModel>,
    b0: Seq<u8>,
    l1: u8,
    l2: u8,
    r: Result<(), String>,
    m1: Map<Seq<u8>, EntryModel>,
    b1: Seq<u8>,
)
    requires
        jpeg_quality(l1) == jpeg_quality(l2),
    ensures
        dct_outcome(m0, b0, l1, r, m1, b1) == dct_outcome(m0, b0, l2, r, m1, b1),
{
    assert forall|px: Seq<u8>, w: u32, h: u32, l: PixelLayout|
        #[trigger] dct_pixels_outcome(m0, b0, px, w, h, l, l1, r, m1, b1) == dct_pixels_outcome(
            m0,
            b0,
            px,
            w,
            h,
            l,
            l2,
            r,
            m1,
            b1,
        ) by {}
    if crate::jpeg::jpeg_decodes(b0) {
        if dct_outcome(m0, b0, l1, r, m1, b1) {
            let (px, w, h, l) = choose|px: Seq<u8>, w: u32, h: u32, l: PixelLayout|
                crate::jpeg::jpeg_may_decode(b0, Some((px, w, h, l))) && crate::jpeg::pixels_exact(
                    px.len(),
                    crate::jpeg::channel_count(l),
                    w,
                    h,
                ) && crate::jpeg::jpeg_size_ok(w, h) && #[trigger] dct_pixels_outcome(
                    m0,
                    b0,
                    px,
                    w,
                    h,
                    l,
                    l1,
                    r,
                    m1,
                    b1,
                );
            assert(dct_pixels_outcome(m0, b0, px, w, h, l, l2, r, m1, b1));
        }
        if dct_outcome(m0, b0, l2, r, m1, b1) {
            let (px, w, h, l) = choose|px: Seq<u8>, w: u32, h: u32, l: PixelLayout|
                crate::jpeg::jpeg_may_decode(b0, Some((px, w, h, l))) && crate::jpeg::pixels_exact(
                    px.len(),
                    crate::jpeg::channel_count(l),
                    w,
                    h,
                ) && crate::jpeg::jpeg_size_ok(w, h) && #[trigger] dct_pixels_outcome(
                    m0,
                    b0,
                    px,
                    w,
                    h,
                    l,
                    l2,
                    r,
                    m1,
                    b1,
                );
            assert(dct_pixels_outcome(m0, b0, px, w, h, l, l1, r, m1, b1));
        }
    }
}

/// Every level above 6 acts as level 6 in every engine: the PNG engine can answer the
/// same, the JPEG engine answers the same for the same decoded pixels, and an image
/// stream and a whole PDF document are processed alike.
pub proof fn law_levels_above_six_act_as_six(
    level: u8,
    data: Seq<u8>,
    outcome: Result<Seq<u8>, Seq<char>>,
    png: Result<Rewrite, String>,
    pixels: Seq<u8>,
    width: u32,
    height: u32,
    layout: PixelLayout,
    jpeg: Result<Rewrite, JpegError>,
    m0: Map<Seq<u8>, EntryModel>,
    b0: Seq<u8>,
    decoded: Option<Seq<u8>>,
    r: Result<(), String>,
    m1: Map<Seq<u8>, EntryModel>,
    b1: Seq<u8>,
    d0: Document,
    d1: Document,
    ids: Seq<(u32, u16)>,
    steps: Map<(u32, u16), StreamStep>,
    warnings: Seq<String>,
)
    requires
        level > 6,
    ensures
        png_preset_of(level) == png_preset_of(6),
        jpeg_quality(level) == jpeg_quality(6),
        webp_quality(level) == webp_quality(6),
        (oxipng_may_give(data, png_preset_of(level), outcome) && png_engine_answer(data, outcome, png))
            == (oxipng_may_give(data, png_preset_of(6), outcome) && png_engine_answer(data, outcome, png)),
        jpeg_engine_answer(data.len(), pixels, width, height, layout, level, jpeg) == jpeg_engine_answer(
            data.len(),
            pixels,
            width,
            height,
            layout,
            6,
            jpeg,
        ),
        image_stream_outcome(m0, b0, decoded, level, r, m1, b1) == image_stream_outcome(
            m0,
            b0,
            decoded,
            6,
            r,
            m1,
            b1,
        ),
        document_processed(d0, d1, level, ids, steps, warnings) == document_processed(
            d0,
            d1,
            6,
            ids,
            steps,
            warnings,
        ),
{
    lemma_dct_outcome_by_quality(m0, b0, level, 6, r, m1, b1);
    assert(forall|raw: Seq<u8>, m: Map<Seq<u8>, EntryModel>|
        #[trigger] raw_image_outcome(m, raw, level, r, m1, b1) == raw_image_outcome(m, raw, 6, r, m1, b1));
    assert(forall|s0: crate::pdf_model::StreamModel, st: StreamStep, s1: crate::pdf_model::StreamModel|
        #[trigger] crate::pdf::stream_processed(s0, level, st, s1) == crate::pdf::stream_processed(
            s0,
            6,
            st,
            s1,
        )) by {
        assert forall|s0: crate::pdf_model::StreamModel, st: StreamStep, s1: crate::pdf_model::StreamModel|
            #[trigger] crate::pdf::stream_processed(s0, level, st, s1) == crate::pdf::stream_processed(
                s0,
                6,
                st,
                s1,
            ) by {
            if let Some(rr) = st.result {
                lemma_dct_outcome_by_quality(s0.entries, s0.bytes, level, 6, rr, st.entries, st.bytes);
            }
        }
    }
}

/// The PNG engine writes what oxipng found wherever it is smaller: when oxipng gives
/// bytes `v` shorter than the input, the answer is `v` itself as the new contents, of
/// size `v.len()`; otherwise the file is left as it is.
pub proof fn law_png_writes_oxipng_result(data: Seq<u8>, v: Seq<u8>, r: Result<Rewrite, String>)
    requires
        png_engine_answer(data, Ok(v), r),
    ensures
        r matches Ok(w) && w.original_size == data.len(),
        v.len() < data.len() ==> (r matches Ok(w) && w.contents matches Some(c) && c@ == v && w.final_size
            == v.len()),
        v.len() >= data.len() ==> (r matches Ok(w) && w.contents is None && w.final_size == data.len()),
{
}

/// The JPEG engine writes the encoder's JPEG of the decoded pixels at the quality of
/// the level: 95, 85, 75 and 65 for levels 0 to 3, 50 above; the encoder's failure is
/// the engine's.
pub proof fn law_jpeg_engine_writes_at_level_quality(
    original: nat,
    pixels: Seq<u8>,
    width: u32,
    height: u32,
    layout: PixelLayout,
    level: u8,
    quality: u8,
    r: Result<Rewrite, JpegError>,
)
    requires
        jpeg_engine_answer(original, pixels, width, height, layout, level, r),
        quality == (if level == 0 {
            95u8
        } else if level == 1 {
            85u8
        } else if level == 2 {
            75u8
        } else if level == 3 {
            65u8
        } else {
            50u8
        }),
    ensures
        match jpeg_written(pixels, width, height, layout, quality) {
            Some(v) => r matches Ok(w) && w.contents matches Some(c) && c@ == v && w.final_size == v.len()
                && w.original_size == original,
            None => r matches Err(JpegError::Encode(_)),
        },
{
}

/// Raw pixels are encoded as RGB when there are three channels and as grey otherwise,
/// each time as `width` by `height` pixels at the quality asked for.
pub proof fn law_raw_pixels_keep_their_colours(
    raw: Seq<u8>,
    width: usize,
    height: usize,
    channels: usize,
    quality: u8,
    r: Result<Vec<u8>, String>,
)
    requires
        encode_as_jpeg_result(raw, width, height, channels, quality, r),
    ensures
        channels == 3 && pixels_fit(raw.len(), 3, width as u32, height as u32) ==> match jpeg_of_pixels(
            raw,
            width as u32,
            height as u32,
            PixelLayout::Rgb8,
            quality,
        ) {
            Some(v) => r matches Ok(out) && out@ == v,
            None => r is Err,
        },
        channels != 3 && pixels_fit(raw.len(), 1, width as u32, height as u32) ==> match jpeg_of_pixels(
            raw,
            width as u32,
            height as u32,
            PixelLayout::Luma8,
            quality,
        ) {
            Some(v) => r matches Ok(out) && out@ == v,
            None => r is Err,
        },
{
}

/// Decoded JPEG pixels are re-encoded at the quality of the level (95, 85, 75, 65 for
/// levels 0 to 3, 50 above), and that JPEG replaces the stream's bytes exactly where it
/// is shorter; where the encoder fails, the stream is left as it was.
pub proof fn law_jpeg_stream_reencoded_at_level_quality(
    m0: Map<Seq<u8>, EntryModel>,
    b0: Seq<u8>,
    pixels: Seq<u8>,
    width: u32,
    height: u32,
    layout: PixelLayout,
    level: u8,
    quality: u8,
    r: Result<(), String>,
    m1: Map<Seq<u8>, EntryModel>,
    b1: Seq<u8>,
)
    requires
        dct_pixels_outcome(m0, b0, pixels, width, height, layout, level, r, m1, b1),
        quality == (if level == 0 {
            95u8
        } else if level == 1 {
            85u8
        } else if level == 2 {
            75u8
        } else if level == 3 {
            65u8
        } else {
            50u8
        }),
    ensures
        match jpeg_of_pixels(pixels, width, height, layout, quality) {
            Some(v) => r is Ok && (v.len() < b0.len() ==> b1 == v && lookup(
                m1,
                crate::pdf_image::length_key(),
            ) == Some(EntryModel::Integer(v.len() as i64))) && (v.len() >= b0.len() ==> b1 == b0 && m1
                == m0),
            None => r is Err && b1 == b0 && m1 == m0,
        },
{
}

/// Whatever an image stream's re-encoding writes is either its old bytes, its decoded
/// bytes, or a JPEG that the encoder made at the quality of the level (95, 85, 75, 65
/// for levels 0 to 3, 50 above).
pub proof fn law_image_stream_written_at_level_quality(
    m0: Map<Seq<u8>, EntryModel>,
    b0: Seq<u8>,
    decoded: Option<Seq<u8>>,
    level: u8,
    quality: u8,
    r: Result<(), String>,
    m1: Map<Seq<u8>, EntryModel>,
    b1: Seq<u8>,
)
    requires
        image_stream_outcome(m0, b0, decoded, level, r, m1, b1),
        quality == (if level == 0 {
            95u8
        } else if level == 1 {
            85u8
        } else if level == 2 {
            75u8
        } else if level == 3 {
            65u8
        } else {
            50u8
        }),
    ensures
        b1 == b0 || decoded == Some(b1) || exists|px: Seq<u8>, w: u32, h: u32, l: PixelLayout|
            #[trigger] jpeg_of_pixels(px, w, h, l, quality) == Some(b1),
{
    if filter_name(m0) == dct_name() {
        if crate::jpeg::jpeg_decodes(b0) {
            let (px, w, h, l) = choose|px: Seq<u8>, w: u32, h: u32, l: PixelLayout|
                jpeg_may_decode(b0, Some((px, w, h, l))) && pixels_exact(px.len(), channel_count(l), w, h)
                    && jpeg_size_ok(w, h) && #[trigger] dct_pixels_outcome(
                    m0,
                    b0,
                    px,
                    w,
                    h,
                    l,
                    level,
                    r,
                    m1,
                    b1,
                );
            if b1 != b0 {
                assert(jpeg_of_pixels(px, w, h, l, quality) == Some(b1));
            }
        }
    } else if filter_name(m0) != jpx_name() {
        if let Some(raw) = decoded {
            let m = crate::pdf_model::plain_entries(m0, raw.len());
            if b1 != raw {
                let w = crate::pdf_image::entry_int(lookup(m, crate::pdf_image::width_key()))->0;
                let h = crate::pdf_image::entry_int(lookup(m, crate::pdf_image::height_key()))->0;
                let c: usize = if crate::pdf_image::color_space_name(m) == crate::pdf_image::device_rgb_name() {
                    3
                } else {
                    1
                };
                assert(jpeg_of_pixels(raw, w as u32, h as u32, crate::jpeg::layout_for(c), quality) == Some(b1));
            }
        }
    }
}

/// In the PDF engine every stream ends its image step with its old bytes, its decoded
/// bytes, or a JPEG that the encoder made at the quality of the engine's level (95, 85,
/// 75, 65 for levels 0 to 3, 50 above): a re-encoded image is never made at another
/// level's quality.
pub proof fn law_pdf_images_written_at_level_quality(
    d0: Document,
    d1: Document,
    level: u8,
    quality: u8,
    ids: Seq<(u32, u16)>,
    steps: Map<(u32, u16), StreamStep>,
    warnings: Seq<String>,
    id: (u32, u16),
)
    requires
        document_processed(d0, d1, level, ids, steps, warnings),
        document_streams(d0).contains_key(id),
        quality == (if level == 0 {
            95u8
        } else if level == 1 {
            85u8
        } else if level == 2 {
            75u8
        } else if level == 3 {
            65u8
        } else {
            50u8
        }),
    ensures
        steps[id].bytes == document_streams(d0)[id].bytes || document_streams(d0)[id].decoded == Some(
            steps[id].bytes,
        ) || exists|px: Seq<u8>, w: u32, h: u32, l: PixelLayout|
            #[trigger] jpeg_of_pixels(px, w, h, l, quality) == Some(steps[id].bytes),
{
    let s0 = document_streams(d0)[id];
    let st = steps[id];
    if crate::pdf_image::is_image(s0.entries) {
        let rr = st.result->0;
        law_image_stream_written_at_level_quality(
            s0.entries,
            s0.bytes,
            s0.decoded,
            level,
            quality,
            rr,
            st.entries,
            st.bytes,
        );
    }
}

} // verus!
