use entrusted::requests::{content_disposition, conversion_request, decode_request_id, encode_request_id, is_base64, split_on_separator, upload_record, upload_response};
use entrusted::l10n::GettextTranslations;

fn english() -> GettextTranslations {
    GettextTranslations::untranslated("en".to_string())
}

#[test]
fn request_id_reads_back_the_names_of_the_results() {
    let id = encode_request_id("1234-uuid", "report.docx");
    assert_eq!(decode_request_id(&id), Some(("1234-uuid-entrusted.pdf".to_string(), "report-entrusted.pdf".to_string())));
}

#[test]
fn request_id_is_base58_of_the_base64_token() {
    let token = format!("{};{}", base64_lib::encode(&b"u".to_vec()), base64_lib::encode(&b"n.pdf".to_vec()));
    assert_eq!(encode_request_id("u", "n.pdf"), bs58::encode(token).into_string());
}

#[test]
fn foreign_request_ids_are_refused() {
    assert_eq!(decode_request_id("not-base58!"), None);
    let one_part = bs58::encode("QUJD").into_string();
    assert_eq!(decode_request_id(&one_part), None);
    let not_base64 = bs58::encode("a$;QUJD").into_string();
    assert_eq!(decode_request_id(&not_base64), None);
}

#[test]
fn tokens_split_on_their_only_separator() {
    assert_eq!(split_on_separator("ab;cd"), Some(("ab".to_string(), "cd".to_string())));
    assert_eq!(split_on_separator("abcd"), None);
    assert_eq!(split_on_separator("a;b;c"), None);
    assert!(is_base64("QUJD"));
    assert!(is_base64("QQ=="));
    assert!(!is_base64("QUJ"));
    assert!(!is_base64("Q;=="));
}

#[test]
fn downloads_name_the_file_percent_encoded() {
    assert_eq!(content_disposition("my file.pdf"), "attachment; filename*=UTF-8''my%20file%2Epdf");
    assert_eq!(content_disposition("é"), "attachment; filename*=UTF-8''%C3%A9");
}

#[test]
fn uploads_are_checked() {
    let tr = english();
    assert_eq!(upload_record("".to_string(), 3, "".to_string(), "".to_string(), "u", "/tmp", &tr).err(), Some("Missing 'filename' in form data".to_string()));
    assert_eq!(upload_record("a.pdf".to_string(), 0, "".to_string(), "".to_string(), "u", "/tmp", &tr).err(), Some("Missing 'file' in form data".to_string()));
    assert_eq!(
        upload_record("noext".to_string(), 3, "".to_string(), "".to_string(), "u", "/tmp", &tr).err(),
        Some("Mime type error! Does the input have a 'known' file extension?: noext".to_string())
    );
    let ok = upload_record("a.pdf".to_string(), 3, "eng".to_string(), "".to_string(), "u1", "/tmp/g", &tr).ok().unwrap();
    assert_eq!(ok.fileext, "pdf");
    assert_eq!(ok.location, "/tmp/g/u1.pdf");
    assert_eq!(ok.id, encode_request_id("u1", "a.pdf"));
    let (opts, out) = conversion_request(&ok, "/tmp/g", "img:1");
    assert_eq!(opts.ci_image_name, "img:1");
    assert_eq!(opts.opt_ocr_lang, Some("eng".to_string()));
    assert_eq!(opts.opt_passwd, None);
    assert_eq!(out, "/tmp/g/u1-entrusted.pdf");
    let resp = upload_response("abc");
    assert_eq!(resp.tracking_uri, "/api/v1/events/abc");
}
