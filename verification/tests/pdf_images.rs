use image::codecs::jpeg::JpegEncoder;
use image::{DynamicImage, ImageBuffer, Rgb};
use lopdf::{Dictionary, Document, Object, Stream};
use thinflux::jpeg::encode_as_jpeg;
use thinflux::pdf::{is_silenced, optimize_pdf, pdf_temp_file_name, PdfError};
use thinflux::pdf_image::{get_dict_int, is_image_stream, recompress_dct_stream, recompress_image_stream};
use thinflux::jpeg::{DecodedImage, PixelLayout};
use thinflux::pdf::process_document;
use thinflux::pdf_image::{recompress_decoded_jpeg, recompress_raw};

fn make_image_stream(filter: Option<&[u8]>, extra: &[(&[u8], Object)]) -> Stream {
    let mut dict = Dictionary::new();
    dict.set("Type", Object::Name(b"XObject".to_vec()));
    dict.set("Subtype", Object::Name(b"Image".to_vec()));
    if let Some(f) = filter {
        dict.set("Filter", Object::Name(f.to_vec()));
    }
    for (k, v) in extra {
        dict.set(*k, v.clone());
    }
    Stream::new(dict, vec![])
}

fn make_content_stream() -> Stream {
    let mut dict = Dictionary::new();
    dict.set("Length", Object::Integer(0));
    Stream::new(dict, vec![])
}

fn make_minimal_jpeg_bytes() -> Vec<u8> {
    let buf = ImageBuffer::<Rgb<u8>, _>::from_raw(1, 1, vec![255u8, 255, 255]).unwrap();
    let img = DynamicImage::ImageRgb8(buf);
    let mut out = Vec::new();
    let mut enc = JpegEncoder::new_with_quality(&mut out, 90);
    enc.encode_image(&img).unwrap();
    out
}

fn make_minimal_pdf_bytes() -> Vec<u8> {
    let mut doc = Document::with_version("1.5");
    let pages_id = doc.new_object_id();
    let page_id = doc.new_object_id();
    doc.objects.insert(
        pages_id,
        Object::Dictionary({
            let mut d = Dictionary::new();
            d.set("Type", Object::Name(b"Pages".to_vec()));
            d.set("Kids", Object::Array(vec![Object::Reference(page_id)]));
            d.set("Count", Object::Integer(1));
            d
        }),
    );
    doc.objects.insert(
        page_id,
        Object::Dictionary({
            let mut d = Dictionary::new();
            d.set("Type", Object::Name(b"Page".to_vec()));
            d.set("Parent", Object::Reference(pages_id));
            d.set(
                "MediaBox",
                Object::Array(vec![
                    Object::Integer(0),
                    Object::Integer(0),
                    Object::Integer(612),
                    Object::Integer(792),
                ]),
            );
            d
        }),
    );
    doc.trailer.set("Root", Object::Reference(pages_id));
    let mut buf = Vec::new();
    doc.save_to(&mut buf).unwrap();
    buf
}

#[test]
fn test_is_image_stream_detects_image() {
    let stream = make_image_stream(None, &[]);
    assert!(is_image_stream(&stream));
}

#[test]
fn test_is_image_stream_rejects_content_stream() {
    let stream = make_content_stream();
    assert!(!is_image_stream(&stream));
}

#[test]
fn test_is_image_stream_rejects_subtype_form() {
    let mut dict = Dictionary::new();
    dict.set("Subtype", Object::Name(b"Form".to_vec()));
    let stream = Stream::new(dict, vec![]);
    assert!(!is_image_stream(&stream));
}

#[test]
fn test_is_image_stream_no_subtype() {
    let dict = Dictionary::new();
    let stream = Stream::new(dict, vec![]);
    assert!(!is_image_stream(&stream));
}

#[test]
fn test_jpxdecode_returns_silent_err() {
    let mut stream = make_image_stream(
        Some(b"JPXDecode"),
        &[
            (b"Width", Object::Integer(10)),
            (b"Height", Object::Integer(10)),
            (b"BitsPerComponent", Object::Integer(8)),
            (b"ColorSpace", Object::Name(b"DeviceRGB".to_vec())),
        ],
    );
    let result = recompress_image_stream(&mut stream, 2);
    assert!(result.is_err());
    assert!(result.unwrap_err().contains("JPXDecode"));
}

#[test]
fn test_cmyk_returns_silent_err() {
    let mut stream = make_image_stream(
        Some(b"FlateDecode"),
        &[
            (b"Width", Object::Integer(4)),
            (b"Height", Object::Integer(4)),
            (b"BitsPerComponent", Object::Integer(8)),
            (b"ColorSpace", Object::Name(b"DeviceCMYK".to_vec())),
        ],
    );
    let result = recompress_image_stream(&mut stream, 2);
    if let Err(e) = result {
        assert!(e.contains("CMYK") || e.contains("descomprimir"), "Erro inesperado: {e}");
    }
}

#[test]
fn test_dct_stream_with_valid_jpeg_compress() {
    let jpeg_bytes = make_minimal_jpeg_bytes();
    let original_len = jpeg_bytes.len();
    let mut dict = Dictionary::new();
    dict.set("Subtype", Object::Name(b"Image".to_vec()));
    dict.set("Filter", Object::Name(b"DCTDecode".to_vec()));
    dict.set("Width", Object::Integer(1));
    dict.set("Height", Object::Integer(1));
    dict.set("Length", Object::Integer(original_len as i64));
    let mut stream = Stream::new(dict, jpeg_bytes);
    let result = recompress_dct_stream(&mut stream, 3);
    assert!(result.is_ok(), "Esperado Ok, obtido: {:?}", result);
}

#[test]
fn test_dct_stream_with_invalid_bytes_returns_err() {
    let mut dict = Dictionary::new();
    dict.set("Filter", Object::Name(b"DCTDecode".to_vec()));
    let mut stream = Stream::new(dict, b"isso_nao_e_jpeg".to_vec());
    let result = recompress_dct_stream(&mut stream, 2);
    assert!(result.is_err());
    assert!(result.unwrap_err().contains("decodificar"));
}

#[test]
fn test_get_dict_int_reads_integer() {
    let mut dict = Dictionary::new();
    dict.set("Width", Object::Integer(640));
    assert_eq!(get_dict_int(&dict, b"Width"), Some(640));
}

#[test]
fn test_get_dict_int_returns_none_for_absent_key() {
    let dict = Dictionary::new();
    assert_eq!(get_dict_int(&dict, b"Width"), None);
}

#[test]
fn test_get_dict_int_returns_none_for_wrong_type() {
    let mut dict = Dictionary::new();
    dict.set("Width", Object::Name(b"nao_e_inteiro".to_vec()));
    assert_eq!(get_dict_int(&dict, b"Width"), None);
}

#[test]
fn test_encode_as_jpeg_rgb_returns_valid_bytes() {
    let raw = vec![255u8; 2 * 2 * 3];
    let result = encode_as_jpeg(&raw, 2, 2, 3, 75);
    assert!(result.is_ok());
    let bytes = result.unwrap();
    assert_eq!(&bytes[0..2], &[0xFF, 0xD8], "Bytes não são um JPEG válido");
}

#[test]
fn test_encode_as_jpeg_grayscale_returns_valid_bytes() {
    let raw = vec![128u8; 4 * 4];
    let result = encode_as_jpeg(&raw, 4, 4, 1, 75);
    assert!(result.is_ok());
    let bytes = result.unwrap();
    assert_eq!(&bytes[0..2], &[0xFF, 0xD8]);
}

#[test]
fn test_encode_as_jpeg_buffer_too_small_returns_err() {
    let raw = vec![0u8; 1];
    let result = encode_as_jpeg(&raw, 10, 10, 3, 75);
    assert!(result.is_err());
}

#[test]
fn encode_as_jpeg_reports_each_failure() {
    assert_eq!(encode_as_jpeg(&[0u8; 1], 10, 10, 3, 75).unwrap_err(), "Falha ao construir ImageBuffer RGB");
    assert_eq!(encode_as_jpeg(&[0u8; 1], 10, 10, 1, 75).unwrap_err(), "Falha ao construir ImageBuffer Grayscale");
    // A zero-sized image fits any buffer but the encoder refuses it.
    assert!(encode_as_jpeg(&[], 0, 0, 1, 75).unwrap_err().starts_with("Falha no JpegEncoder: "));
}

#[test]
fn test_optimize_pdf_invalid_file_returns_err() {
    let result = optimize_pdf(b"isto nao e um pdf valido", 2);
    assert!(matches!(result, Err(PdfError::Load(_))));
}

#[test]
fn optimize_pdf_never_grows_the_file() {
    let pdf = make_minimal_pdf_bytes();
    let result = optimize_pdf(&pdf, 6).unwrap();
    let rw = result.rewrite;
    assert_eq!(rw.original_size, pdf.len());
    assert!(rw.final_size <= rw.original_size);
    match rw.contents {
        Some(v) => {
            assert!(v.len() < pdf.len());
            assert_eq!(v.len(), rw.final_size);
            assert!(Document::load_mem(&v).is_ok());
        }
        None => assert_eq!(rw.final_size, pdf.len()),
    }
}

fn pdf_with_stream(stream: Stream) -> Vec<u8> {
    let mut doc = Document::with_version("1.5");
    let pages_id = doc.new_object_id();
    let page_id = doc.new_object_id();
    let image_id = doc.add_object(Object::Stream(stream));
    let mut xobject = Dictionary::new();
    xobject.set("Im1", Object::Reference(image_id));
    let mut resources = Dictionary::new();
    resources.set("XObject", Object::Dictionary(xobject));
    let mut page = Dictionary::new();
    page.set("Type", Object::Name(b"Page".to_vec()));
    page.set("Parent", Object::Reference(pages_id));
    page.set("Resources", Object::Dictionary(resources));
    doc.set_object(page_id, Object::Dictionary(page));
    let mut pages = Dictionary::new();
    pages.set("Type", Object::Name(b"Pages".to_vec()));
    pages.set("Kids", Object::Array(vec![Object::Reference(page_id)]));
    pages.set("Count", Object::Integer(1));
    doc.set_object(pages_id, Object::Dictionary(pages));
    let mut catalog = Dictionary::new();
    catalog.set("Type", Object::Name(b"Catalog".to_vec()));
    catalog.set("Pages", Object::Reference(pages_id));
    let catalog_id = doc.add_object(Object::Dictionary(catalog));
    doc.trailer.set("Root", Object::Reference(catalog_id));
    let mut info = Dictionary::new();
    info.set("Producer", Object::Name(b"someone".to_vec()));
    let info_id = doc.add_object(Object::Dictionary(info));
    doc.trailer.set("Info", Object::Reference(info_id));
    let mut buf = Vec::new();
    doc.save_to(&mut buf).unwrap();
    buf
}

#[test]
fn optimize_pdf_shrinks_raw_images_and_drops_info() {
    // A 64x64 flat RGB image stored without any filter: re-encoding pays.
    let stream = make_image_stream(
        None,
        &[
            (b"Width", Object::Integer(64)),
            (b"Height", Object::Integer(64)),
            (b"BitsPerComponent", Object::Integer(8)),
            (b"ColorSpace", Object::Name(b"DeviceRGB".to_vec())),
        ],
    );
    let mut stream = stream;
    stream.set_content(vec![200u8; 64 * 64 * 3]);
    let pdf = pdf_with_stream(stream);
    let result = optimize_pdf(&pdf, 3).unwrap();
    assert!(result.warnings.is_empty());
    let out = result.rewrite.contents.expect("the PDF should shrink");
    assert!(out.len() < pdf.len());
    let doc = Document::load_mem(&out).unwrap();
    assert!(doc.trailer.get(b"Info").is_err());
    let images: Vec<_> = doc
        .objects
        .values()
        .filter_map(|o| if let Object::Stream(s) = o { Some(s) } else { None })
        .filter(|s| s.dict.get(b"Subtype").ok() == Some(&Object::Name(b"Image".to_vec())))
        .collect();
    assert_eq!(images.len(), 1);
    // The JPEG bytes are declared as such, so the stream pass left them as they are.
    assert_eq!(images[0].dict.get(b"Filter").unwrap(), &Object::Name(b"DCTDecode".to_vec()));
    assert_eq!(&images[0].content[0..2], &[0xFF, 0xD8]);
}

#[test]
fn raw_image_is_replaced_by_a_shorter_jpeg() {
    let mut stream = make_image_stream(
        None,
        &[
            (b"Width", Object::Integer(32)),
            (b"Height", Object::Integer(32)),
            (b"ColorSpace", Object::Name(b"DeviceGray".to_vec())),
        ],
    );
    stream.set_content(vec![17u8; 32 * 32]);
    assert!(recompress_image_stream(&mut stream, 0).is_ok());
    assert!(stream.content.len() < 32 * 32);
    assert_eq!(&stream.content[0..2], &[0xFF, 0xD8]);
    assert_eq!(stream.dict.get(b"Length").unwrap(), &Object::Integer(stream.content.len() as i64));
    assert_eq!(stream.dict.get(b"Filter").unwrap(), &Object::Name(b"DCTDecode".to_vec()));
}

#[test]
fn flate_image_is_decompressed_before_reencoding() {
    let mut stream = make_image_stream(
        None,
        &[
            (b"Width", Object::Integer(32)),
            (b"Height", Object::Integer(32)),
            (b"ColorSpace", Object::Name(b"DeviceRGB".to_vec())),
        ],
    );
    stream.set_content(vec![90u8; 32 * 32 * 3]);
    stream.compress().unwrap();
    assert!(stream.dict.get(b"Filter").is_ok());
    assert!(recompress_image_stream(&mut stream, 2).is_ok());
    assert_eq!(stream.dict.get(b"Filter").unwrap(), &Object::Name(b"DCTDecode".to_vec()));
    assert!(stream.dict.get(b"DecodeParms").is_err());
    assert_eq!(&stream.content[0..2], &[0xFF, 0xD8]);
}

#[test]
fn short_image_reports_expected_and_actual_sizes() {
    let mut stream = make_image_stream(
        None,
        &[
            (b"Width", Object::Integer(10)),
            (b"Height", Object::Integer(10)),
            (b"ColorSpace", Object::Name(b"DeviceRGB".to_vec())),
        ],
    );
    stream.set_content(vec![1u8; 7]);
    let e = recompress_image_stream(&mut stream, 2).unwrap_err();
    assert_eq!(e, "Bytes insuficientes: esperado 300, obtido 7");
    assert!(is_silenced(&e));
}

#[test]
fn missing_dimensions_are_reported() {
    let mut stream = make_image_stream(None, &[(b"Height", Object::Integer(2))]);
    assert_eq!(recompress_image_stream(&mut stream, 2).unwrap_err(), "Stream sem /Width");
    let mut stream = make_image_stream(None, &[(b"Width", Object::Integer(2))]);
    assert_eq!(recompress_image_stream(&mut stream, 2).unwrap_err(), "Stream sem /Height");
}

#[test]
fn oversized_dimensions_saturate_instead_of_overflowing() {
    let mut stream = make_image_stream(
        None,
        &[
            (b"Width", Object::Integer(i64::MAX)),
            (b"Height", Object::Integer(i64::MAX)),
            (b"ColorSpace", Object::Name(b"DeviceRGB".to_vec())),
        ],
    );
    stream.set_content(vec![1u8; 3]);
    let e = recompress_image_stream(&mut stream, 2).unwrap_err();
    assert_eq!(e, format!("Bytes insuficientes: esperado {}, obtido 3", usize::MAX));
}

#[test]
fn silenced_errors_are_the_known_limitations() {
    assert!(is_silenced("JPXDecode (JPEG2000) não suportado — ignorado"));
    assert!(is_silenced("CMYK não suportado — ignorado"));
    assert!(is_silenced("... missing feature of lopdf ..."));
    assert!(!is_silenced("Stream sem /Width"));
    assert!(!is_silenced("Falha ao descomprimir stream: x"));
}

#[test]
fn temp_file_sits_next_to_the_pdf() {
    assert_eq!(pdf_temp_file_name("dir/test_atomic_rename.pdf"), ".thinflux_tmp_test_atomic_rename.pdf.pdf");
    assert_eq!(pdf_temp_file_name("/"), ".thinflux_tmp_unnamed.pdf");
}

#[test]
fn jpeg_stream_never_grows() {
    let pixels: Vec<u8> = (0..48 * 48 * 3).map(|i| ((i * 7919) % 251) as u8).collect();
    let buf = ImageBuffer::<Rgb<u8>, _>::from_raw(48, 48, pixels).unwrap();
    let mut jpeg = Vec::new();
    JpegEncoder::new_with_quality(&mut jpeg, 100)
        .encode_image(&DynamicImage::ImageRgb8(buf))
        .unwrap();
    let mut dict = Dictionary::new();
    dict.set("Subtype", Object::Name(b"Image".to_vec()));
    dict.set("Filter", Object::Name(b"DCTDecode".to_vec()));
    let mut stream = Stream::new(dict, jpeg.clone());
    assert!(recompress_image_stream(&mut stream, 6).is_ok());
    assert!(stream.content.len() < jpeg.len());
    assert_eq!(stream.dict.get(b"Length").unwrap(), &Object::Integer(stream.content.len() as i64));
    assert_eq!(stream.dict.get(b"Filter").unwrap(), &Object::Name(b"DCTDecode".to_vec()));
}

#[test]
fn jpx_stream_is_left_as_it_was() {
    let mut stream = make_image_stream(Some(b"JPXDecode"), &[]);
    stream.set_content(vec![1, 2, 3]);
    let before = stream.clone();
    let e = recompress_image_stream(&mut stream, 2).unwrap_err();
    assert!(is_silenced(&e));
    assert_eq!(stream, before);
}

#[test]
fn decoded_jpeg_pixels_reencode_at_the_level_quality() {
    // A noisy 16x16 grey image, stored as a high-quality JPEG: re-encoding at the lowest
    // quality shortens it, and the filter stays DCTDecode.
    let pixels: Vec<u8> = (0..256u32).map(|i| ((i * 97) % 251) as u8).collect();
    let buf = ImageBuffer::<image::Luma<u8>, _>::from_raw(16, 16, pixels.clone()).unwrap();
    let mut original = Vec::new();
    JpegEncoder::new_with_quality(&mut original, 100).encode_image(&DynamicImage::ImageLuma8(buf)).unwrap();
    let mut stream = make_image_stream(Some(b"DCTDecode"), &[]);
    stream.set_content(original.clone());
    let image = DecodedImage { pixels, width: 16, height: 16, layout: PixelLayout::Luma8 };
    assert!(recompress_decoded_jpeg(&mut stream, &image, 6).is_ok());
    assert!(stream.content.len() < original.len());
    assert_eq!(&stream.content[0..2], &[0xFF, 0xD8]);
    assert_eq!(stream.dict.get(b"Filter").unwrap(), &Object::Name(b"DCTDecode".to_vec()));
    assert_eq!(stream.dict.get(b"Length").unwrap(), &Object::Integer(stream.content.len() as i64));
}

#[test]
fn decoded_jpeg_pixels_of_no_size_leave_the_stream() {
    let mut stream = make_image_stream(Some(b"DCTDecode"), &[]);
    stream.set_content(vec![1, 2, 3]);
    let image = DecodedImage { pixels: vec![], width: 0, height: 0, layout: PixelLayout::Rgb8 };
    let err = recompress_decoded_jpeg(&mut stream, &image, 2).unwrap_err();
    assert!(err.starts_with("Falha ao reencodar JPEG: "));
    assert_eq!(stream.content, vec![1, 2, 3]);
}

#[test]
fn raw_pixels_are_reencoded_by_the_public_step() {
    let mut stream = make_image_stream(
        None,
        &[(b"Width", Object::Integer(32)), (b"Height", Object::Integer(32))],
    );
    stream.set_content(vec![40u8; 32 * 32]);
    assert!(recompress_raw(&mut stream, 1).is_ok());
    assert_eq!(stream.dict.get(b"Filter").unwrap(), &Object::Name(b"DCTDecode".to_vec()));
    assert!(stream.content.len() < 32 * 32);
    assert_eq!(&stream.content[0..2], &[0xFF, 0xD8]);
}

#[test]
fn processing_a_document_drops_info_and_deflates_streams() {
    let mut doc = Document::with_version("1.5");
    let mut info = Dictionary::new();
    info.set("Producer", Object::Name(b"someone".to_vec()));
    let info_id = doc.add_object(Object::Dictionary(info));
    doc.trailer.set("Info", Object::Reference(info_id));
    let text_id = doc.add_object(Object::Stream(Stream::new(Dictionary::new(), vec![b'a'; 4000])));
    let mut cmyk = make_image_stream(
        None,
        &[
            (b"Width", Object::Integer(2)),
            (b"Height", Object::Integer(2)),
            (b"ColorSpace", Object::Name(b"DeviceCMYK".to_vec())),
        ],
    );
    cmyk.set_content(vec![0u8; 16]);
    doc.add_object(Object::Stream(cmyk));
    let mut broken = make_image_stream(None, &[(b"Height", Object::Integer(2))]);
    broken.set_content(vec![0u8; 4]);
    doc.add_object(Object::Stream(broken));
    let warnings = process_document(&mut doc, 2);
    // The CMYK image is a known limitation, silenced; the image without a width is not.
    assert_eq!(warnings, vec!["Stream sem /Width".to_string()]);
    assert!(doc.trailer.get(b"Info").is_err());
    match doc.objects.get(&text_id) {
        Some(Object::Stream(s)) => {
            assert_eq!(s.dict.get(b"Filter").unwrap(), &Object::Name(b"FlateDecode".to_vec()));
            assert!(s.content.len() + 19 < 4000);
            assert_eq!(s.decompressed_content().unwrap(), vec![b'a'; 4000]);
        }
        _ => panic!("the stream should still be there"),
    }
}
