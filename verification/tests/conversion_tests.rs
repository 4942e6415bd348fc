use entrusted::conversion::office_filter_name;
use std::io::Write;
use entrusted::conversion::{
    conversion_for_mime, conversion_plan, desktop_input_pdf_path, detect_input_mime, file_uri, image_kind_for_mime,
    input_pdf_path, input_processor, office_input_copy_path, probe_ole_mime, probe_zip_mime, processor_for_format,
    select_conversion, ConversionType, ImageKind, InputProcessor,
};
use entrusted::paths::join_path_text;

fn zip_of(entries: &[(&str, &str)]) -> Vec<u8> {
    let mut w = zip::ZipWriter::new(std::io::Cursor::new(Vec::new()));
    let opts = zip::write::SimpleFileOptions::default().compression_method(zip::CompressionMethod::Stored);
    for (name, text) in entries {
        w.start_file(*name, opts).unwrap();
        w.write_all(text.as_bytes()).unwrap();
    }
    w.finish().unwrap().into_inner()
}

#[test]
fn media_types_go_to_their_converters() {
    assert!(matches!(conversion_for_mime("application/pdf"), Some(ConversionType::PassThrough)));
    assert!(matches!(conversion_for_mime("image/x-tiff"), Some(ConversionType::Convert)));
    match conversion_for_mime("application/vnd.ms-excel") {
        Some(ConversionType::LibreOffice(filter, ext)) => {
            assert_eq!(filter, "calc_pdf_Export");
            assert_eq!(ext, "xls");
        },
        _ => panic!("spreadsheets go to LibreOffice"),
    }
    match conversion_for_mime("application/vnd.oasis.opendocument.graphics") {
        Some(ConversionType::LibreOffice(filter, ext)) => {
            assert_eq!(filter, "impress_pdf_Export");
            assert_eq!(ext, "odg");
        },
        _ => panic!("drawings go to LibreOffice"),
    }
    assert!(conversion_for_mime("text/plain").is_none());
}

#[test]
fn unsupported_media_type_is_reported() {
    match select_conversion("text/plain") {
        Err(msg) => assert_eq!(msg, "Unsupported mime type: text/plain."),
        Ok(_) => panic!("text is not supported"),
    }
}

#[test]
fn images_have_decoders() {
    assert_eq!(image_kind_for_mime("image/png"), Ok(ImageKind::Png));
    assert_eq!(image_kind_for_mime("image/x-tiff"), Ok(ImageKind::Tiff));
    assert_eq!(image_kind_for_mime("image/bmp"), Err("Unsupported image type".to_string()));
}

#[test]
fn paths_of_the_intermediate_pdf() {
    assert_eq!(input_pdf_path("/tmp", "input_file"), "/tmp/input_file_input.pdf");
    assert_eq!(input_pdf_path("/tmp/", "doc"), "/tmp/doc_input.pdf");
    assert_eq!(file_uri("/tmp/a.pdf"), "file:///tmp/a.pdf");
    assert_eq!(office_input_copy_path("docx"), "/tmp/input.docx");
    assert_eq!(desktop_input_pdf_path("/work/1", "report"), "/work/1/report.pdf");
    assert_eq!(join_path_text("", "a"), "a");
}

#[test]
fn formats_go_to_their_processors() {
    assert!(matches!(processor_for_format("PDF", true), Some(InputProcessor::Pdf)));
    assert!(matches!(processor_for_format("EPUB", true), Some(InputProcessor::Image)));
    assert!(processor_for_format("EPUB", false).is_none());
    assert!(matches!(processor_for_format("JPG", false), Some(InputProcessor::Image)));
    assert!(processor_for_format("JPG", true).is_none());
    match processor_for_format("DOCX", true) {
        Some(InputProcessor::Office(ext)) => assert_eq!(ext, "docx"),
        _ => panic!("documents go to the office suite"),
    }
    assert!(processor_for_format("ZIP", true).is_none());
}

#[test]
fn pdf_input_is_recognised_by_its_format() {
    let data = b"%PDF-1.4\n1 0 obj\n<<>>\nendobj\ntrailer\n<<>>\n%%EOF\n".to_vec();
    assert!(matches!(input_processor(&data, true), Some(InputProcessor::Pdf)));
}

#[test]
fn media_type_of_an_input() {
    let mut png = vec![0x89, 0x50, 0x4E, 0x47, 0x0D, 0x0A, 0x1A, 0x0A];
    png.extend_from_slice(&[0u8; 24]);
    assert_eq!(detect_input_mime(png), Ok("image/png"));
    assert_eq!(
        detect_input_mime(b"nothing known".to_vec()),
        Err("Cannot determine input mime-type! Does the input have a known file extension?".to_string())
    );
}

#[test]
fn zip_probe_finds_office_documents() {
    let docx = zip_of(&[("[Content_Types].xml", "<Types/>"), ("_rels/.rels", "ppt/presentation.xml")]);
    assert_eq!(probe_zip_mime(docx), "application/vnd.openxmlformats-officedocument.presentationml.presentation");
    let plain = zip_of(&[("a.txt", "a")]);
    assert_eq!(probe_zip_mime(plain), "application/zip");
    let drawing = zip_of(&[("mimetype", "application/vnd.oasis.opendocument.graphics"), ("content.xml", "<x/>")]);
    assert_eq!(probe_zip_mime(drawing), "");
    assert_eq!(probe_zip_mime(vec![1, 2, 3]), "application/zip");
}

#[test]
fn ole_probe_without_signature() {
    assert_eq!(probe_ole_mime(vec![1, 2, 3, 4, 5, 6, 7, 8, 9]), "application/x-ole-storage");
    assert_eq!(probe_ole_mime(vec![0xD0, 0xCF, 0x11, 0xE0, 0xA1, 0xB1, 0x1A, 0xE1, 0]), "application/x-ole-storage");
}

#[test]
fn pdf_input_plan() {
    let data = b"%PDF-1.4\n%%EOF\n".to_vec();
    match conversion_plan("/tmp/input_file", data) {
        Ok((ConversionType::PassThrough, pdf)) => assert_eq!(pdf, "/tmp/input_file_input.pdf"),
        _ => panic!("a PDF is copied"),
    }
    match conversion_plan("/tmp/input_file", b"GIF89a\x01\x00\x01\x00".to_vec()) {
        Ok((ConversionType::Convert, pdf)) => assert_eq!(pdf, "/tmp/input_file_input.pdf"),
        _ => panic!("a gif is drawn"),
    }
    match conversion_plan("/tmp/input_file", b"BM\x00\x00\x00\x00\x00\x00".to_vec()) {
        Err(msg) => assert_eq!(msg, "Unsupported mime type: image/bmp."),
        Ok(_) => panic!("bitmaps are not converted"),
    }
}

#[test]
fn office_filters_by_extension() {
    assert_eq!(office_filter_name("/a/b.pptx"), "impress_pdf_Export");
    assert_eq!(office_filter_name("/a/b.odg"), "impress_pdf_Export");
    assert_eq!(office_filter_name("/a/b.xls"), "calc_pdf_Export");
    assert_eq!(office_filter_name("/a/b.docx"), "writer_pdf_Export");
    assert_eq!(office_filter_name("x"), "writer_pdf_Export");
}

#[test]
fn container_input_errors_are_translated() {
    let tr = entrusted::l10n::GettextTranslations::untranslated("en".to_string());
    let pdf = b"%PDF-1.7\n%\xe2\xe3\xcf\xd3\n1 0 obj\n<<>>\nendobj\n";
    match entrusted::conversion::container_input_plan(&tr, "/tmp/missing.pdf", false, pdf) {
        Err(m) => assert_eq!(m, "Cannot find file at /tmp/missing.pdf"),
        Ok(_) => panic!("the file is missing"),
    }
    match entrusted::conversion::container_input_plan(&tr, "/tmp/notes.bin", true, b"\x00\x01\x02\x03") {
        Err(m) => assert_eq!(m, "Mime type error! Does the input have a 'known' file extension?"),
        Ok(_) => panic!("the format is unknown"),
    }
    match entrusted::conversion::container_input_plan(&tr, "/tmp/doc.pdf", true, pdf) {
        Ok((InputProcessor::Pdf, p)) => assert_eq!(p, "/tmp/doc_input.pdf"),
        _ => panic!("a PDF is processed as a PDF"),
    }
    match entrusted::conversion::desktop_input_plan(&tr, "/tmp/doc.pdf", true, pdf, "/work") {
        Ok((InputProcessor::Pdf, p)) => assert_eq!(p, "/work/doc.pdf"),
        _ => panic!("a PDF is processed as a PDF"),
    }
}
