use std::io::Write;
use entrusted::mimetypes::{
    byte_range_matches, detect_from_contents, is_cfb, is_gif, is_jpeg, is_pdf, is_png, is_rtf, is_tiff,
    is_zip, legacy_office_mime_for_clsid, office_mime, DetectError,
};

fn zip_of(entries: &[(&str, &str)]) -> Vec<u8> {
    let mut w = zip::ZipWriter::new(std::io::Cursor::new(Vec::new()));
    let opts = zip::write::SimpleFileOptions::default().compression_method(zip::CompressionMethod::Stored);
    for (name, text) in entries {
        w.start_file(*name, opts).unwrap();
        w.write_all(text.as_bytes()).unwrap();
    }
    w.finish().unwrap().into_inner()
}

#[test]
fn signatures_are_recognised() {
    assert!(is_png(&[0x89, 0x50, 0x4E, 0x47, 0x0D, 0x0A, 0x1A, 0x0A]));
    assert!(is_gif(b"GIF89a.."));
    assert!(is_jpeg(&[0xFF, 0xD8, 0xFF]));
    assert!(is_tiff(&[0x49, 0x49, 0x2A, 0x00]));
    assert!(is_rtf(b"{\\rtf1"));
    assert!(is_pdf(b"%PDF-1.7"));
    assert!(is_zip(&[0x50, 0x4B, 0x03, 0x04]));
    assert!(is_cfb(&[0xD0, 0xCF, 0x11, 0xE0, 0xA1, 0xB1, 0x1A, 0xE1]));
    assert!(!is_pdf(b"%PD"));
    assert!(!is_gif(b"GIF87a.."));
}

#[test]
fn byte_ranges_compare_as_hexadecimal() {
    assert!(byte_range_matches(&[0x25, 0x50, 0x44, 0x46], 0, 4, "25 50 44 46"));
    assert!(!byte_range_matches(&[0x25, 0x50, 0x44, 0x47], 0, 4, "25 50 44 46"));
    assert!(!byte_range_matches(&[0x25, 0x50], 0, 4, "25 50 44 46"));
    assert!(byte_range_matches(&[0x00, 0xAB], 1, 2, "AB"));
}

#[test]
fn plain_types_come_from_the_signature() {
    let mut png = vec![0x89, 0x50, 0x4E, 0x47, 0x0D, 0x0A, 0x1A, 0x0A];
    png.extend_from_slice(&[0u8; 16]);
    assert!(matches!(detect_from_contents(png), Ok(Some("image/png"))));
    assert!(matches!(detect_from_contents(b"%PDF-1.4 rest".to_vec()), Ok(Some("application/pdf"))));
    assert!(matches!(detect_from_contents(b"plain text".to_vec()), Ok(None)));
    assert!(matches!(detect_from_contents(Vec::new()), Ok(None)));
}

#[test]
fn opendocument_text_is_found_in_its_mimetype_entry() {
    let data = zip_of(&[("mimetype", "application/vnd.oasis.opendocument.text"), ("content.xml", "<x/>")]);
    assert!(matches!(detect_from_contents(data), Ok(Some("application/vnd.oasis.opendocument.text"))));
}

#[test]
fn office_open_xml_is_found_in_its_relationships() {
    let data = zip_of(&[("[Content_Types].xml", "<Types/>"), ("_rels/.rels", "<Target=\"word/document.xml\"/>")]);
    assert!(matches!(office_mime(data), Ok(Some("application/vnd.openxmlformats-officedocument.wordprocessingml.document"))));
}

#[test]
fn plain_zip_has_no_office_type() {
    let data = zip_of(&[("a.txt", "hello"), ("b.txt", "world")]);
    assert!(matches!(office_mime(data), Ok(None)));
}

#[test]
fn damaged_zip_is_an_archive_error() {
    assert!(matches!(detect_from_contents(vec![0x50, 0x4B, 0x03, 0x04, 1, 2, 3]), Err(DetectError::Archive)));
}

#[test]
fn damaged_compound_file_is_a_compound_error() {
    let data = vec![0xD0, 0xCF, 0x11, 0xE0, 0xA1, 0xB1, 0x1A, 0xE1, 0, 0];
    assert!(matches!(detect_from_contents(data), Err(DetectError::Compound)));
}

#[test]
fn class_ids_name_legacy_office_types() {
    assert_eq!(legacy_office_mime_for_clsid("00020906-0000-0000-c000-000000000046"), Some("application/msword"));
    assert_eq!(legacy_office_mime_for_clsid("00020820-0000-0000-c000-000000000046"), Some("application/vnd.ms-excel"));
    assert_eq!(legacy_office_mime_for_clsid("64818d10-4f9b-11cf-86ea-00aa00b929e8"), Some("application/vnd.ms-powerpoint"));
    assert_eq!(legacy_office_mime_for_clsid("00000000-0000-0000-0000-000000000000"), None);
}
