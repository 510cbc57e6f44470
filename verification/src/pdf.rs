//! The PDF engine: re-encodes embedded images, deflates streams, drops unused
//! objects, and keeps the result only where it is smaller.
use crate::engines::{keep_if_smaller, keeps_if_smaller, shrinks_only, Rewrite};
use crate::pdf_model::{stream_bytes, stream_entries};
use crate::pdf_image::{image_stream_outcome, is_image, is_image_stream, recompress_image_stream};
use crate::pdf_model::{
    ascii_bytes, ascii_literal, compress_outcome, compress_stream, document_frame, document_ids,
    document_model,
    document_streams, increasing_ids, pdf_may_load, referenced_ids,
    load_pdf, object_ids, pdf_loads, prune_pdf_objects, remove_trailer_entry, restore_stream,
    save_pdf, saved_pdf, stream_model, take_stream, trailer_entries, EntryModel, StreamModel,
};
use lopdf::Document;
use crate::path::{file_name, path_file_name};
use crate::text::{contains, str_contains};
use vstd::prelude::*;

verus! {

/// An image failure of a known kind, which the engine does not report: JPEG 2000 and
/// CMYK images, features that lopdf lacks, and images shorter than their size.
pub open spec fn is_silenced_error(e: Seq<char>) -> bool {
    ||| contains(e, "JPXDecode"@)
    ||| contains(e, "CMYK"@)
    ||| contains(e, "missing feature of lopdf"@)
    ||| contains(e, "Bytes insuficientes"@)
}

/// Whether an image failure is of a known kind, not worth a warning.
pub fn is_silenced(e: &str) -> (r: bool)
    ensures
        r == is_silenced_error(e@),
{
    str_contains(e, "JPXDecode") || str_contains(e, "CMYK") || str_contains(
        e,
        "missing feature of lopdf",
    ) || str_contains(e, "Bytes insuficientes")
}

/// None of the warnings is of a silenced kind.
pub open spec fn warnings_reported(w: Seq<String>) -> bool {
    forall|i: int| 0 <= i < w.len() ==> !is_silenced_error(#[trigger] w[i]@)
}

/// What the PDF engine made of a file, and the image failures worth a warning.
#[derive(Debug)]
pub struct PdfRewrite {
    pub rewrite: Rewrite,
    pub warnings: Vec<String>,
}

/// Why the PDF engine failed.
#[derive(Debug)]
pub enum PdfError {
    /// The bytes are no PDF that lopdf can read (lopdf's text).
    Load(String),
    /// The optimised document could not be written (lopdf's text), after the image
    /// failures in `warnings`.
    Save { message: String, warnings: Vec<String> },
}

/// `/Info`, the trailer's entry for the document's metadata (producer, author).
pub open spec fn info_key() -> Seq<u8> {
    ascii_bytes(seq!['I', 'n', 'f', 'o'])
}

fn info_key_bytes() -> (r: &'static [u8])
    ensures
        r@ == info_key(),
{
    proof {
        reveal_strlit("Info");
        assert("Info"@ =~= seq!['I', 'n', 'f', 'o']);
    }
    ascii_literal("Info")
}

/// What happened to one stream on its way through the engine: the result of its image
/// re-encoding (`None` for a stream that is no image), and its entries and bytes
/// between that step and compression.
pub struct StreamStep {
    pub result: Option<Result<(), String>>,
    pub entries: Map<Seq<u8>, EntryModel>,
    pub bytes: Seq<u8>,
}

/// A stream `s0` became `s1` through `step`: an image stream is re-encoded as
/// [`image_stream_outcome`] says, any other left as it is, and then every stream is
/// compressed as [`compress_outcome`] says.
pub open spec fn stream_processed(s0: StreamModel, level: u8, step: StreamStep, s1: StreamModel) -> bool {
    &&& if is_image(s0.entries) {
        step.result matches Some(r) && image_stream_outcome(
            s0.entries,
            s0.bytes,
            s0.decoded,
            level,
            r,
            step.entries,
            step.bytes,
        )
    } else {
        step.result is None && step.entries == s0.entries && step.bytes == s0.bytes
    }
    &&& compress_outcome(step.entries, step.bytes, s1.entries, s1.bytes)
}

/// The warning that a step gives: its image failure, unless of a silenced kind.
pub open spec fn step_warnings(step: StreamStep) -> Seq<String> {
    match step.result {
        Some(Err(e)) => if is_silenced_error(e@) {
            Seq::empty()
        } else {
            seq![e]
        },
        _ => Seq::empty(),
    }
}

/// The warnings of the steps of the objects `ids`, in that order.
pub open spec fn warnings_of(ids: Seq<(u32, u16)>, steps: Map<(u32, u16), StreamStep>) -> Seq<String>
    decreases ids.len(),
{
    if ids.len() == 0 {
        Seq::empty()
    } else {
        warnings_of(ids.drop_last(), steps) + if steps.contains_key(ids.last()) {
            step_warnings(steps[ids.last()])
        } else {
            Seq::empty()
        }
    }
}

/// Document `d0` became `d1` at `level`, visiting its objects in increasing order of
/// identifier (`ids`, which the set of identifiers fixes), the streams through
/// `steps`, with `warnings`: the trailer lost `/Info`, every stream was
/// processed as [`stream_processed`] says, and nothing else changed, neither in the
/// model nor in what it leaves out ([`document_frame`]).
pub open spec fn document_processed(
    d0: Document,
    d1: Document,
    level: u8,
    ids: Seq<(u32, u16)>,
    steps: Map<(u32, u16), StreamStep>,
    warnings: Seq<String>,
) -> bool {
    &&& ids.no_duplicates()
    &&& increasing_ids(ids)
    &&& forall|id: (u32, u16)| #[trigger] ids.contains(id) <==> document_ids(d0).contains(id)
    &&& document_ids(d1) == document_ids(d0)
    &&& document_frame(d1) == document_frame(d0)
    &&& trailer_entries(d1) == trailer_entries(d0).remove(info_key())
    &&& document_streams(d1).dom() == document_streams(d0).dom()
    &&& steps.dom() == document_streams(d0).dom()
    &&& forall|id: (u32, u16)| #[trigger]
        document_streams(d0).contains_key(id) ==> stream_processed(
            document_streams(d0)[id],
            level,
            steps[id],
            document_streams(d1)[id],
        )
    &&& warnings == warnings_of(ids, steps)
}

proof fn lemma_warnings_ignore_other_steps(
    ids: Seq<(u32, u16)>,
    steps: Map<(u32, u16), StreamStep>,
    k: (u32, u16),
    step: StreamStep,
)
    requires
        !ids.contains(k),
    ensures
        warnings_of(ids, steps.insert(k, step)) == warnings_of(ids, steps),
    decreases ids.len(),
{
    if ids.len() > 0 {
        assert(ids.last() == ids[ids.len() - 1]);
        assert(!ids.drop_last().contains(k)) by {
            if ids.drop_last().contains(k) {
                let j = choose|j: int| 0 <= j < ids.drop_last().len() && ids.drop_last()[j] == k;
                assert(ids[j] == k);
            }
        }
        lemma_warnings_ignore_other_steps(ids.drop_last(), steps, k, step);
    }
}

/// Drops the trailer's `/Info` and processes every stream of the document: an image
/// stream is re-encoded (see `recompress_image_stream`), and every stream is then
/// deflated where that pays. The image failures that are not of a silenced kind come
/// back as warnings, in increasing order of the objects' identifiers.
pub fn process_document(doc: &mut Document, level: u8) -> (warnings: Vec<String>)
    ensures
        exists|ids: Seq<(u32, u16)>, steps: Map<(u32, u16), StreamStep>|
            #[trigger] document_processed(*old(doc), *final(doc), level, ids, steps, warnings@),
        warnings_reported(warnings@),
{
    let ghost d0 = *doc;
    let ghost s0 = document_streams(d0);
    remove_trailer_entry(doc, info_key_bytes());
    let ids = object_ids(doc);
    let mut warnings: Vec<String> = Vec::new();
    let ghost mut steps: Map<(u32, u16), StreamStep> = Map::empty();
    let mut i: usize = 0;
    while i < ids.len()
        invariant
            i <= ids@.len(),
            ids@.no_duplicates(),
            increasing_ids(ids@),
            forall|id: (u32, u16)| #[trigger] ids@.contains(id) <==> document_ids(d0).contains(id),
            forall|id: (u32, u16)| s0.contains_key(id) ==> #[trigger] ids@.contains(id),
            s0 == document_streams(d0),
            document_ids(*doc) == document_ids(d0),
            document_frame(*doc) == document_frame(d0),
            trailer_entries(*doc) == trailer_entries(d0).remove(info_key()),
            document_streams(*doc).dom() == s0.dom(),
            forall|k: int|
                i <= k < ids@.len() && s0.contains_key(#[trigger] ids@[k]) ==> document_streams(
                    *doc,
                )[ids@[k]] == s0[ids@[k]],
            forall|id: (u32, u16)| #[trigger]
                steps.contains_key(id) <==> (ids@.take(i as int).contains(id) && s0.contains_key(id)),
            forall|id: (u32, u16)| #[trigger]
                steps.contains_key(id) ==> stream_processed(
                    s0[id],
                    level,
                    steps[id],
                    document_streams(*doc)[id],
                ),
            warnings@ == warnings_of(ids@.take(i as int), steps),
            warnings_reported(warnings@),
        decreases ids@.len() - i,
    {
        let id = ids[i];
        let ghost before = document_streams(*doc);
        let ghost old_steps = steps;
        let ghost old_warnings = warnings@;
        assert(!ids@.take(i as int).contains(id)) by {
            if ids@.take(i as int).contains(id) {
                let j = choose|j: int| 0 <= j < i && ids@.take(i as int)[j] == id;
                assert(ids@[j] == ids@[i as int]);
            }
        }
        assert(ids@.take(i + 1) == ids@.take(i as int).push(id));
        assert(ids@.take(i + 1).drop_last() == ids@.take(i as int));
        match take_stream(doc, id) {
            Some(mut stream) => {
                assert(s0.contains_key(id));
                assert(before[id] == s0[id]);
                let ghost m0 = stream_entries(stream);
                let mut result: Option<Result<(), String>> = None;
                if is_image_stream(&stream) {
                    let r = recompress_image_stream(&mut stream, level);
                    match &r {
                        Ok(()) => {},
                        Err(e) => {
                            if !is_silenced(e.as_str()) {
                                warnings.push(e.clone());
                            }
                        },
                    }
                    result = Some(r);
                }
                let ghost step = StreamStep {
                    result,
                    entries: stream_entries(stream),
                    bytes: stream_bytes(stream),
                };
                compress_stream(&mut stream);
                restore_stream(doc, id, stream);
                proof {
                    assert(ids@.contains(id));
                    assert(document_ids(*doc) =~= document_ids(d0));
                    lemma_warnings_ignore_other_steps(ids@.take(i as int), old_steps, id, step);
                    steps = old_steps.insert(id, step);
                    assert(stream_processed(s0[id], level, step, document_streams(*doc)[id]));
                    assert forall|x: (u32, u16)| #[trigger] steps.contains_key(x) implies stream_processed(
                        s0[x],
                        level,
                        steps[x],
                        document_streams(*doc)[x],
                    ) by {
                        if x != id {
                            assert(old_steps.contains_key(x));
                            assert(before.remove(id)[x] == before[x]);
                        }
                    }
                    assert forall|k: int|
                        i + 1 <= k < ids@.len() && s0.contains_key(#[trigger] ids@[k]) implies document_streams(
                            *doc,
                        )[ids@[k]] == s0[ids@[k]] by {
                        assert(ids@[k] != id);
                        assert(before.remove(id)[ids@[k]] == before[ids@[k]]);
                    }
                    assert(document_streams(*doc).dom() =~= s0.dom());
                    assert(warnings@ =~= warnings_of(ids@.take(i + 1), steps));
                }
            },
            None => {
                proof {
                    assert(!s0.contains_key(id));
                    assert(warnings@ =~= warnings_of(ids@.take(i + 1), steps));
                }
            },
        }
        i += 1;
    }
    proof {
        assert(ids@.take(ids@.len() as int) == ids@);
        assert(steps.dom() =~= s0.dom());
        assert(document_processed(d0, *doc, level, ids@, steps, warnings@));
    }
    warnings
}

/// A document `d2` is `d1` with unreferenced objects dropped: it keeps exactly the
/// objects that the trailer reaches, unchanged, and the trailer.
pub open spec fn pruned(d1: Document, d2: Document) -> bool {
    &&& document_ids(d2) == document_ids(d1).intersect(referenced_ids(d1))
    &&& document_streams(d2) == document_streams(d1).restrict(document_ids(d2))
    &&& trailer_entries(d2) == trailer_entries(d1)
}

/// The run of the PDF engine on a loaded document `d0`: processed into `d1`, pruned
/// into `d2`.
pub open spec fn pdf_run(
    d0: Document,
    d1: Document,
    d2: Document,
    level: u8,
    ids: Seq<(u32, u16)>,
    steps: Map<(u32, u16), StreamStep>,
    warnings: Seq<String>,
) -> bool {
    document_processed(d0, d1, level, ids, steps, warnings) && pruned(d1, d2)
}

/// What the PDF engine answers for a file `data` whose optimised document is `d2`:
/// where `d2` saves, its bytes replace the file only where they are strictly smaller;
/// where it does not, the save error; the warnings either way.
pub open spec fn pdf_engine_answer(
    data: Seq<u8>,
    d2: Document,
    warnings: Seq<String>,
    r: Result<PdfRewrite, PdfError>,
) -> bool {
    match saved_pdf(d2) {
        None => r matches Err(PdfError::Save { warnings: w, .. }) && w@ == warnings,
        Some(bytes) => r matches Ok(p) && p.warnings@ == warnings && keeps_if_smaller(
            p.rewrite,
            data.len(),
            bytes,
        ),
    }
}

/// Optimises a PDF file held in memory at `level`: drops the trailer's `Info`,
/// re-encodes every image stream (see `recompress_image_stream`), collecting the
/// failures that are not of a silenced kind, deflates every stream that has no
/// filter where that pays, prunes unreferenced objects and saves. The saved bytes
/// replace the file only where they are strictly smaller. Image failures never make
/// the engine fail: only loading and saving can.
pub fn optimize_pdf(data: &[u8], level: u8) -> (r: Result<PdfRewrite, PdfError>)
    ensures
        r matches Err(PdfError::Load(_)) <==> !pdf_loads(data@),
        pdf_loads(data@) ==> exists|
            d0: Document,
            d1: Document,
            d2: Document,
            ids: Seq<(u32, u16)>,
            steps: Map<(u32, u16), StreamStep>,
            warnings: Seq<String>,
        |
            #[trigger] pdf_run(d0, d1, d2, level, ids, steps, warnings) && pdf_may_load(
                data@,
                Some(document_model(d0)),
            ) && pdf_engine_answer(data@, d2, warnings, r),
        r matches Ok(p) ==> shrinks_only(p.rewrite, data@.len()) && warnings_reported(
            p.warnings@,
        ),
        r matches Err(PdfError::Save { warnings, .. }) ==> warnings_reported(warnings@),
{
    let mut doc = match load_pdf(data) {
        Ok(d) => d,
        Err(e) => {
            return Err(PdfError::Load(e));
        },
    };
    let ghost d0 = doc;
    let warnings = process_document(&mut doc, level);
    let ghost d1 = doc;
    let ghost (ids, steps) = choose|ids: Seq<(u32, u16)>, steps: Map<(u32, u16), StreamStep>|
        document_processed(d0, d1, level, ids, steps, warnings@);
    prune_pdf_objects(&mut doc);
    let ghost d2 = doc;
    assert(pdf_run(d0, d1, d2, level, ids, steps, warnings@));
    match save_pdf(&mut doc) {
        Ok(b) => {
            let ghost bytes = b@;
            let rewrite = keep_if_smaller(data.len(), b);
            let r = PdfRewrite { rewrite, warnings };
            assert(pdf_engine_answer(data@, d2, r.warnings@, Ok::<PdfRewrite, PdfError>(r)));
            Ok(r)
        },
        Err(message) => {
            Err(PdfError::Save { message, warnings })
        },
    }
}

/// The name of the temporary file that a PDF is written to before it replaces the
/// file at `path`: `.thinflux_tmp_` and that file's name (`unnamed` where it has
/// none), then `.pdf`.
pub open spec fn temp_file_name(path: Seq<char>) -> Seq<char> {
    let name = match file_name(path) {
        Some(n) => n,
        None => "unnamed"@,
    };
    ".thinflux_tmp_"@ + name + ".pdf"@
}

/// The name of the temporary file for the PDF at `path`, in the same directory.
pub fn pdf_temp_file_name(path: &str) -> (r: String)
    ensures
        r@ == temp_file_name(path@),
{
    let mut s = String::from_str(".thinflux_tmp_");
    match path_file_name(path) {
        Some(n) => s.append(n.as_str()),
        None => s.append("unnamed"),
    }
    s.append(".pdf");
    s
}

} // verus!
