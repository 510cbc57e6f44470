//! How the optimiser sees a PDF: lopdf's documents, streams and dictionaries,
//! with a plain model of the dictionary entries that the logic reads.
use lopdf::{Dictionary, Document, Object, Stream};
use vstd::prelude::*;

verus! {

/// A parsed PDF document of the `lopdf` crate.
#[verifier::external_type_specification]
#[verifier::external_body]
pub struct ExDocument(Document);

/// A PDF stream object of the `lopdf` crate: a dictionary and a byte content.
#[verifier::external_type_specification]
#[verifier::external_body]
pub struct ExStream(Stream);

/// A PDF dictionary of the `lopdf` crate.
#[verifier::external_type_specification]
#[verifier::external_body]
pub struct ExDictionary(Dictionary);

/// An element of a PDF array, as far as the optimiser reads it.
#[derive(Debug)]
pub enum PdfItem {
    Name(Vec<u8>),
    Other,
}

/// A PDF object stored under a dictionary key, as far as the optimiser reads it:
/// integers, names, indirect references and arrays; everything else is `Other`.
#[derive(Debug)]
pub enum PdfValue {
    Integer(i64),
    Name(Vec<u8>),
    Reference,
    Array(Vec<PdfItem>),
    Other,
}

/// Mathematical counterpart of [`PdfItem`].
pub enum ItemModel {
    Name(Seq<u8>),
    Other,
}

/// Mathematical counterpart of [`PdfValue`].
pub enum EntryModel {
    Integer(i64),
    Name(Seq<u8>),
    Reference,
    Array(Seq<ItemModel>),
    Other,
}

impl View for PdfItem {
    type V = ItemModel;

    open spec fn view(&self) -> ItemModel {
        match self {
            PdfItem::Name(n) => ItemModel::Name(n@),
            PdfItem::Other => ItemModel::Other,
        }
    }
}

impl View for PdfValue {
    type V = EntryModel;

    open spec fn view(&self) -> EntryModel {
        match self {
            PdfValue::Integer(n) => EntryModel::Integer(*n),
            PdfValue::Name(n) => EntryModel::Name(n@),
            PdfValue::Reference => EntryModel::Reference,
            PdfValue::Array(a) => EntryModel::Array(a@.map_values(|i: PdfItem| i@)),
            PdfValue::Other => EntryModel::Other,
        }
    }
}

/// The entries of a dictionary, each value seen through [`EntryModel`].
pub uninterp spec fn dictionary_entries(d: Dictionary) -> Map<Seq<u8>, EntryModel>;

/// The entries of a stream's dictionary, each value seen through [`EntryModel`].
pub uninterp spec fn stream_entries(s: Stream) -> Map<Seq<u8>, EntryModel>;

/// The content bytes of a stream.
pub uninterp spec fn stream_bytes(s: Stream) -> Seq<u8>;

/// The value stored under `key`, if any.
pub open spec fn lookup(m: Map<Seq<u8>, EntryModel>, key: Seq<u8>) -> Option<EntryModel> {
    if m.dom().contains(key) {
        Some(m[key])
    } else {
        None
    }
}

/// The bytes of an ASCII text.
pub open spec fn ascii_bytes(s: Seq<char>) -> Seq<u8> {
    s.map_values(|c: char| c as u8)
}

/// The bytes of an ASCII literal.
pub fn ascii_literal(s: &'static str) -> (r: &'static [u8])
    requires
        vstd::string::is_ascii(s),
    ensures
        r@ == ascii_bytes(s@),
{
    let r = s.as_bytes();
    assert(r@ =~= ascii_bytes(s@));
    r
}

/// `Dictionary::get`: the object stored under `key`, converted to a [`PdfValue`]
/// (an array element by element); `None` where the key is absent.
#[verifier::external_body]
pub(crate) fn dict_get(d: &Dictionary, key: &[u8]) -> (r: Option<PdfValue>)
    ensures
        r matches Some(v) ==> lookup(dictionary_entries(*d), key@) == Some(v@),
        r is None ==> lookup(dictionary_entries(*d), key@) is None,
{
    match d.get(key) {
        Ok(Object::Integer(n)) => Some(PdfValue::Integer(*n)),
        Ok(Object::Name(n)) => Some(PdfValue::Name(n.clone())),
        Ok(Object::Reference(_)) => Some(PdfValue::Reference),
        Ok(Object::Array(a)) => Some(PdfValue::Array(a.iter().map(|o| match o {
            Object::Name(n) => PdfItem::Name(n.clone()),
            _ => PdfItem::Other,
        }).collect())),
        Ok(_) => Some(PdfValue::Other),
        Err(_) => None,
    }
}

/// The `dict` field of a stream.
#[verifier::external_body]
pub(crate) fn stream_dict(s: &Stream) -> (r: &Dictionary)
    ensures
        dictionary_entries(*r) == stream_entries(*s),
{
    &s.dict
}

/// A copy of the `content` field of a stream.
#[verifier::external_body]
pub(crate) fn stream_content(s: &Stream) -> (r: Vec<u8>)
    ensures
        r@ == stream_bytes(*s),
{
    s.content.clone()
}

/// The entries that `Stream::set_plain_content` leaves: no `Filter`, no `DecodeParms`,
/// and a `Length` equal to the new content's length.
pub open spec fn plain_entries(m: Map<Seq<u8>, EntryModel>, len: nat) -> Map<Seq<u8>, EntryModel> {
    m.remove(ascii_bytes(seq!['F', 'i', 'l', 't', 'e', 'r'])).remove(
        ascii_bytes(seq!['D', 'e', 'c', 'o', 'd', 'e', 'P', 'a', 'r', 'm', 's']),
    ).insert(
        ascii_bytes(seq!['L', 'e', 'n', 'g', 't', 'h']),
        EntryModel::Integer(len as i64),
    )
}

/// The bytes that decoding a stream through its filters gives (`Stream::decode_filters`),
/// a function of the stream's dictionary and content; `None` where decoding fails.
pub uninterp spec fn decoded_content(s: Stream) -> Option<Seq<u8>>;

/// `Stream::decompress`: decodes the content through the stream's filters. On success
/// the content is the decoded bytes, the filter entries are gone and `Length` is the
/// decoded length; a stream without a `Filter` entry keeps its bytes. On failure
/// nothing changed.
#[verifier::external_body]
pub(crate) fn decompress_stream(s: &mut Stream) -> (r: Result<(), String>)
    ensures
        r is Ok <==> decoded_content(*old(s)) is Some,
        r is Ok ==> decoded_content(*old(s)) == Some(stream_bytes(*final(s))),
        r is Err ==> stream_entries(*final(s)) == stream_entries(*old(s)) && stream_bytes(
            *final(s),
        ) == stream_bytes(*old(s)),
        r is Ok ==> stream_entries(*final(s)) == plain_entries(
            stream_entries(*old(s)),
            stream_bytes(*final(s)).len(),
        ),
        !stream_entries(*old(s)).dom().contains(ascii_bytes(seq!['F', 'i', 'l', 't', 'e', 'r']))
            ==> r is Ok && stream_bytes(*final(s)) == stream_bytes(*old(s)),
{
    s.decompress().map_err(|e| e.to_string())
}

/// `Dictionary::remove` on the stream's dictionary.
#[verifier::external_body]
pub(crate) fn remove_stream_entry(s: &mut Stream, key: &[u8])
    ensures
        stream_entries(*final(s)) == stream_entries(*old(s)).remove(key@),
        stream_bytes(*final(s)) == stream_bytes(*old(s)),
{
    s.dict.remove(key);
}

/// `Dictionary::set` of an integer on the stream's dictionary.
#[verifier::external_body]
pub(crate) fn set_integer_entry(s: &mut Stream, key: &[u8], value: i64)
    ensures
        stream_entries(*final(s)) == stream_entries(*old(s)).insert(key@, EntryModel::Integer(value)),
        stream_bytes(*final(s)) == stream_bytes(*old(s)),
{
    s.dict.set(key.to_vec(), Object::Integer(value));
}

/// `Dictionary::set` of a name on the stream's dictionary.
#[verifier::external_body]
pub(crate) fn set_name_entry(s: &mut Stream, key: &[u8], value: &[u8])
    ensures
        stream_entries(*final(s)) == stream_entries(*old(s)).insert(key@, EntryModel::Name(value@)),
        stream_bytes(*final(s)) == stream_bytes(*old(s)),
{
    s.dict.set(key.to_vec(), Object::Name(value.to_vec()));
}

/// Assignment to the `content` field of a stream; the dictionary is untouched.
#[verifier::external_body]
pub(crate) fn replace_stream_content(s: &mut Stream, content: Vec<u8>)
    ensures
        stream_bytes(*final(s)) == content@,
        stream_entries(*final(s)) == stream_entries(*old(s)),
{
    s.content = content;
}

/// The zlib stream that lopdf's `zlib_compress` makes of `bytes` at level 9 (flate2's
/// best compression); `None` where it fails.
pub uninterp spec fn zlib_deflated(bytes: Seq<u8>) -> Option<Seq<u8>>;

/// What `Stream::compress` does to a stream of entries `m0` and bytes `b0`: a stream
/// with a `Filter` entry is left as it is; any other is deflated where the deflated
/// bytes are more than 19 bytes shorter, gaining `Filter /FlateDecode` and a new
/// `Length`, and left as it is otherwise.
pub open spec fn compress_outcome(
    m0: Map<Seq<u8>, EntryModel>,
    b0: Seq<u8>,
    m1: Map<Seq<u8>, EntryModel>,
    b1: Seq<u8>,
) -> bool {
    let kept = m1 == m0 && b1 == b0;
    if m0.dom().contains(ascii_bytes(seq!['F', 'i', 'l', 't', 'e', 'r'])) {
        kept
    } else {
        match zlib_deflated(b0) {
            Some(z) => if z.len() + 19 < b0.len() {
                b1 == z && m1 == m0.insert(
                    ascii_bytes(seq!['F', 'i', 'l', 't', 'e', 'r']),
                    EntryModel::Name(
                        ascii_bytes(seq!['F', 'l', 'a', 't', 'e', 'D', 'e', 'c', 'o', 'd', 'e']),
                    ),
                ).insert(
                    ascii_bytes(seq!['L', 'e', 'n', 'g', 't', 'h']),
                    EntryModel::Integer(z.len() as i64),
                )
            } else {
                kept
            },
            None => kept,
        }
    }
}

/// `Stream::compress`, as [`compress_outcome`] says; its error (that of the zlib
/// encoder) is dropped, as the stream is then left as it was.
#[verifier::external_body]
pub(crate) fn compress_stream(s: &mut Stream)
    ensures
        compress_outcome(
            stream_entries(*old(s)),
            stream_bytes(*old(s)),
            stream_entries(*final(s)),
            stream_bytes(*final(s)),
        ),
        !stream_entries(*old(s)).dom().contains(ascii_bytes(seq!['F', 'i', 'l', 't', 'e', 'r'])) ==> (
        zlib_deflated(stream_bytes(*old(s))) matches Some(z) ==> (z.len() + 19 < stream_bytes(
            *old(s),
        ).len() ==> stream_bytes(*final(s)) == z)),
{
    let _ = s.compress();
}

/// How the optimiser sees a stream: its entries, its bytes, and what decoding it gives.
pub struct StreamModel {
    pub entries: Map<Seq<u8>, EntryModel>,
    pub bytes: Seq<u8>,
    pub decoded: Option<Seq<u8>>,
}

/// The model of a stream.
pub open spec fn stream_model(s: Stream) -> StreamModel {
    StreamModel { entries: stream_entries(s), bytes: stream_bytes(s), decoded: decoded_content(s) }
}

/// The stream objects of a document (`Document::objects`), by identifier.
pub uninterp spec fn document_streams(doc: Document) -> Map<(u32, u16), StreamModel>;

/// The identifiers of all objects of a document, streams or not.
pub uninterp spec fn document_ids(doc: Document) -> Set<(u32, u16)>;

/// The entries of a document's trailer, each value seen through [`EntryModel`].
pub uninterp spec fn trailer_entries(doc: Document) -> Map<Seq<u8>, EntryModel>;

/// What the model of a document leaves out, as plain bytes: those that
/// `Document::save_to` would write for the document once its trailer and every stream
/// (dictionary and content) were emptied. They hold the version, the binary mark, the
/// cross-reference settings, the identifiers of all objects and every object that is
/// not a stream; `None` where that save fails.
pub uninterp spec fn document_frame(doc: Document) -> Option<Seq<u8>>;

/// The bytes that `Document::save_to` writes for a document (its version, binary mark,
/// objects in identifier order, cross-reference data and trailer); `None` where saving
/// fails.
pub uninterp spec fn saved_pdf(doc: Document) -> Option<Seq<u8>>;

/// How the optimiser sees a document: the identifiers of its objects, its streams and
/// its trailer.
pub struct DocumentModel {
    pub ids: Set<(u32, u16)>,
    pub streams: Map<(u32, u16), StreamModel>,
    pub trailer: Map<Seq<u8>, EntryModel>,
}

/// The model of a document.
pub open spec fn document_model(doc: Document) -> DocumentModel {
    DocumentModel {
        ids: document_ids(doc),
        streams: document_streams(doc),
        trailer: trailer_entries(doc),
    }
}

/// Whether `outcome` is one of the results that `Document::load_mem` can give for
/// these bytes: `Some` of the model of the document it reads, or `None` for a refusal.
/// A relation, not a function: objects are parsed in parallel, and where a malformed
/// file holds the same object twice, which copy stays may vary from run to run.
pub uninterp spec fn pdf_may_load(bytes: Seq<u8>, outcome: Option<DocumentModel>) -> bool;

/// Whether `Document::load_mem` accepts these bytes as a PDF file: it refuses them
/// exactly where a refusal is among its outcomes (any object that fails to parse fails
/// the whole load, whatever the order of the parse).
pub open spec fn pdf_loads(bytes: Seq<u8>) -> bool {
    !pdf_may_load(bytes, None)
}

/// `Document::load_mem`: parses a PDF file held in memory. The document it gives is one
/// of its possible outcomes for the bytes, and it fails exactly where failure is one of
/// them.
#[verifier::external_body]
pub(crate) fn load_pdf(bytes: &[u8]) -> (r: Result<Document, String>)
    ensures
        match r {
            Ok(d) => pdf_may_load(bytes@, Some(document_model(d))),
            Err(_) => pdf_may_load(bytes@, None),
        },
        r is Ok <==> !pdf_may_load(bytes@, None),
{
    Document::load_mem(bytes).map_err(|e| e.to_string())
}

/// `Dictionary::remove` on the document's trailer; the objects are untouched.
#[verifier::external_body]
pub(crate) fn remove_trailer_entry(doc: &mut Document, key: &[u8])
    ensures
        trailer_entries(*final(doc)) == trailer_entries(*old(doc)).remove(key@),
        document_streams(*final(doc)) == document_streams(*old(doc)),
        document_ids(*final(doc)) == document_ids(*old(doc)),
        document_frame(*final(doc)) == document_frame(*old(doc)),
{
    doc.trailer.remove(key);
}

/// Identifier `a` comes before `b`: object number first, then generation (the
/// lexicographic order of tuples).
pub open spec fn id_before(a: (u32, u16), b: (u32, u16)) -> bool {
    a.0 < b.0 || (a.0 == b.0 && a.1 < b.1)
}

/// The identifiers are in increasing order, each once.
pub open spec fn increasing_ids(ids: Seq<(u32, u16)>) -> bool {
    forall|i: int, j: int| 0 <= i < j < ids.len() ==> id_before(#[trigger] ids[i], #[trigger] ids[j])
}

/// The identifiers of the document's objects, each once and in increasing order (the
/// keys of the `BTreeMap` `Document::objects`, which it walks in sorted order); every
/// stream is among them.
#[verifier::external_body]
pub(crate) fn object_ids(doc: &Document) -> (r: Vec<(u32, u16)>)
    ensures
        r@.no_duplicates(),
        increasing_ids(r@),
        forall|id: (u32, u16)| #[trigger] r@.contains(id) <==> document_ids(*doc).contains(id),
        forall|id: (u32, u16)| document_streams(*doc).contains_key(id) ==> #[trigger] r@.contains(id),
{
    doc.objects.keys().copied().collect()
}

/// Moves the stream stored under `id` out of the document, leaving an empty stream
/// in its place until [`restore_stream`] puts it back; `None`, with nothing changed,
/// where the object under `id` is not a stream.
#[verifier::external_body]
pub(crate) fn take_stream(doc: &mut Document, id: (u32, u16)) -> (r: Option<Stream>)
    ensures
        match r {
            Some(s) => document_streams(*old(doc)).contains_key(id) && stream_model(s)
                == document_streams(*old(doc))[id] && document_streams(*final(doc)).dom()
                == document_streams(*old(doc)).dom() && document_streams(*final(doc)).remove(id)
                == document_streams(*old(doc)).remove(id),
            None => !document_streams(*old(doc)).contains_key(id) && document_streams(*final(doc))
                == document_streams(*old(doc)),
        },
        document_ids(*final(doc)) == document_ids(*old(doc)),
        trailer_entries(*final(doc)) == trailer_entries(*old(doc)),
        document_frame(*final(doc)) == document_frame(*old(doc)),
{
    match doc.objects.get_mut(&id) {
        Some(Object::Stream(s)) => Some(std::mem::replace(s, Stream::new(Dictionary::new(), vec![]))),
        _ => None,
    }
}

/// Stores `s` as the object under `id` (`BTreeMap::insert` on `Document::objects`).
#[verifier::external_body]
pub(crate) fn restore_stream(doc: &mut Document, id: (u32, u16), s: Stream)
    ensures
        document_streams(*final(doc)) == document_streams(*old(doc)).insert(id, stream_model(s)),
        document_ids(*final(doc)) == document_ids(*old(doc)).insert(id),
        trailer_entries(*final(doc)) == trailer_entries(*old(doc)),
        document_streams(*old(doc)).contains_key(id) ==> document_frame(*final(doc)) == document_frame(
            *old(doc),
        ),
{
    doc.objects.insert(id, Object::Stream(s));
}

/// The identifiers of the objects that the trailer reaches, directly or through other
/// objects (`Document::traverse_objects`, which follows every reference in the
/// trailer, in arrays, dictionaries and stream dictionaries, from object to object);
/// a function of the document alone. It may hold identifiers of objects that are
/// missing.
pub uninterp spec fn referenced_ids(doc: Document) -> Set<(u32, u16)>;

/// `Document::prune_objects`: drops exactly the objects that the trailer does not
/// reach; the objects that stay, and the trailer, are untouched.
#[verifier::external_body]
pub(crate) fn prune_pdf_objects(doc: &mut Document)
    ensures
        document_ids(*final(doc)) == document_ids(*old(doc)).intersect(referenced_ids(*old(doc))),
        document_streams(*final(doc)) == document_streams(*old(doc)).restrict(
            document_ids(*final(doc)),
        ),
        trailer_entries(*final(doc)) == trailer_entries(*old(doc)),
{
    doc.prune_objects();
}

/// `Document::save_to` into a byte buffer: the bytes it writes for the document.
#[verifier::external_body]
pub(crate) fn save_pdf(doc: &mut Document) -> (r: Result<Vec<u8>, String>)
    ensures
        r is Ok <==> saved_pdf(*old(doc)) is Some,
        r matches Ok(v) ==> saved_pdf(*old(doc)) == Some(v@),
{
    let mut buffer = Vec::new();
    doc.save_to(&mut buffer).map_err(|e| e.to_string())?;
    Ok(buffer)
}

} // verus!
