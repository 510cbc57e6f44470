use thinflux::engines::webp_quality_from_level;
use thinflux::format::ImageFormat;
use thinflux::jpeg::jpeg_quality_from_level;
use thinflux::path::{path_extension_of, path_file_name};
use thinflux::router::{find_supported_files, is_supported_file, optimize_image, Engine, UnsupportedFormat};
use thinflux::text::{str_contains, usize_to_decimal};

#[test]
fn test_jpeg_quality_from_level_covers_all() {
    assert_eq!(jpeg_quality_from_level(0), 95);
    assert_eq!(jpeg_quality_from_level(1), 85);
    assert_eq!(jpeg_quality_from_level(2), 75);
    assert_eq!(jpeg_quality_from_level(3), 65);
    assert_eq!(jpeg_quality_from_level(4), 50);
    assert_eq!(jpeg_quality_from_level(6), 50);
    assert_eq!(jpeg_quality_from_level(255), 50);
}

#[test]
fn test_image_format_detection_case_insensitive() {
    assert_eq!(ImageFormat::from_extension("JPEG"), ImageFormat::Jpeg);
    assert_eq!(ImageFormat::from_extension("JPG"), ImageFormat::Jpeg);
    assert_eq!(ImageFormat::from_extension("PNG"), ImageFormat::Png);
    assert_eq!(ImageFormat::from_extension("WEBP"), ImageFormat::Webp);
    assert_eq!(ImageFormat::from_extension("PDF"), ImageFormat::Pdf);
    assert_eq!(ImageFormat::from_extension("txt"), ImageFormat::Unknown);
    assert_eq!(ImageFormat::from_extension(""), ImageFormat::Unknown);
}

#[test]
fn webp_quality_covers_all_levels() {
    assert_eq!(webp_quality_from_level(0), 90);
    assert_eq!(webp_quality_from_level(1), 82);
    assert_eq!(webp_quality_from_level(2), 75);
    assert_eq!(webp_quality_from_level(3), 65);
    assert_eq!(webp_quality_from_level(4), 50);
    assert_eq!(webp_quality_from_level(255), 50);
}

#[test]
fn quality_never_rises_with_level() {
    for low in 0..=255u8 {
        for high in low..=255u8 {
            assert!(jpeg_quality_from_level(high) <= jpeg_quality_from_level(low));
            assert!(webp_quality_from_level(high) <= webp_quality_from_level(low));
        }
    }
}

#[test]
fn extension_follows_std_path_rules() {
    let cases = [
        "a/b/foto.png",
        "foto.tar.gz",
        ".bashrc",
        "a.",
        "dir/",
        "dir/.",
        "x/..",
        "/",
        "",
        ".",
        "..",
        "a/.hidden.PNG",
        "a//b.jpg//",
        "./c.webp",
        "sem_extensao",
    ];
    for c in cases {
        let expected = std::path::Path::new(c)
            .extension()
            .map(|e| e.to_str().unwrap().to_string());
        assert_eq!(path_extension_of(c), expected, "extension of {c:?}");
        let expected_name = std::path::Path::new(c)
            .file_name()
            .map(|e| e.to_str().unwrap().to_string());
        assert_eq!(path_file_name(c), expected_name, "file name of {c:?}");
    }
}

#[test]
fn router_sends_each_format_to_its_engine() {
    assert_eq!(optimize_image("x/a.PNG"), Ok(Engine::Png));
    assert_eq!(optimize_image("x/a.jpeg"), Ok(Engine::Jpeg));
    assert_eq!(optimize_image("x/a.Jpg"), Ok(Engine::Jpeg));
    assert_eq!(optimize_image("a.webp"), Ok(Engine::Webp));
    assert_eq!(optimize_image("doc.pdf"), Ok(Engine::Pdf));
    assert_eq!(optimize_image("notas.txt"), Err(UnsupportedFormat));
    assert_eq!(optimize_image("png"), Err(UnsupportedFormat));
    assert_eq!(optimize_image(".png"), Err(UnsupportedFormat));
}

fn strings(v: &[&str]) -> Vec<String> {
    v.iter().map(|s| s.to_string()).collect()
}

#[test]
fn test_find_supported_files_recursively() {
    // The files that a walk of the directory yields, the subdirectory's among them.
    let walked = strings(&[
        "/tmp/d/foto1.png",
        "/tmp/d/sub/foto2.jpg",
        "/tmp/d/imagem.webp",
        "/tmp/d/doc.pdf",
        "/tmp/d/texto.txt",
    ]);
    let found = find_supported_files(walked, None);
    assert_eq!(found.len(), 4);
    assert!(!found.iter().any(|p| p.ends_with(".txt")), "O scanner não deveria listar arquivos .txt");
}

#[test]
fn test_find_supported_files_with_custom_types() {
    let walked = strings(&["/tmp/d/foto.png", "/tmp/d/imagem.jpg", "/tmp/d/doc.pdf"]);
    let custom_types = Some(strings(&["png", "jpg"]));
    let found = find_supported_files(walked, custom_types);
    assert_eq!(found.len(), 2);
    assert!(
        !found.iter().any(|p| p.ends_with(".pdf")),
        "O PDF deveria ter sido filtrado e ignorado pelo escopo customizado!"
    );
}

#[test]
fn scan_keeps_order_and_lowercases_extensions() {
    let walked = strings(&["b.JPEG", "a.txt", "c.Pdf", "d", "e.webp"]);
    assert_eq!(find_supported_files(walked, None), strings(&["b.JPEG", "c.Pdf", "e.webp"]));
}

#[test]
fn custom_types_are_compared_as_given() {
    // The extension is lowercased; the listed types are not.
    assert!(is_supported_file("x.PNG", &Some(strings(&["png"]))));
    assert!(!is_supported_file("x.png", &Some(strings(&["PNG"]))));
    assert!(is_supported_file("x.txt", &Some(strings(&["txt"]))));
    assert!(!is_supported_file("x", &Some(strings(&[""]))));
}

#[test]
fn decimal_rendering_matches_display() {
    for n in [0usize, 7, 10, 99, 100, 12345, usize::MAX] {
        assert_eq!(usize_to_decimal(n), n.to_string());
    }
}

#[test]
fn substring_search_matches_std() {
    let cases = [("abc", ""), ("", "a"), ("JPXDecode x", "JPXDecode"), ("xCMYK", "CMYK"), ("ab", "abc"), ("não", "ão")];
    for (h, n) in cases {
        assert_eq!(str_contains(h, n), h.contains(n), "{h:?} contains {n:?}");
    }
}

#[test]
fn scan_without_types_agrees_with_router() {
    for p in ["a.png", "b.JPG", "c.jpeg", "d.webp", "e.PDF", "f.txt", "g.gif", "h.tar.gz"] {
        let kept = is_supported_file(p, &None);
        assert_eq!(kept, optimize_image(p).is_ok(), "{p}");
    }
}
