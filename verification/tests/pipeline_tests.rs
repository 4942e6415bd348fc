use entrusted::pipeline::{
    elapsed_message, merge_role, merge_step_progress, ocr_code_error, ocr_writer_options, page_pdf_path, page_report,
    step_progress_range, MergeRole,
};
use entrusted::l10n::GettextTranslations;

fn english() -> GettextTranslations {
    GettextTranslations::untranslated("en".to_string())
}

#[test]
fn steps_share_the_progress_bar() {
    let r = step_progress_range(1);
    assert_eq!((r.min, r.max), (20, 90));
    assert_eq!((step_progress_range(3).min, step_progress_range(3).max), (98, 98));
}

#[test]
fn pages_are_reported() {
    let range = step_progress_range(1);
    let rep = page_report(&range, 0, 2, false, &english());
    assert_eq!(rep.progress, 55);
    assert_eq!(rep.extract_message, "Extracting page 1 into a PNG image");
    assert_eq!(rep.convert_message, "Saving PNG image 1 to PDF");
    let last = page_report(&range, 1, 2, true, &english());
    assert_eq!(last.progress, 90);
    assert_eq!(last.convert_message, "Performing OCR on page 2");
}

#[test]
fn ocr_setup() {
    assert_eq!(ocr_writer_options("eng+fra", "/tess"), "ocr-language=eng+fra,compression=flate,ocr-datadir=/tess");
    assert_eq!(ocr_code_error(&english(), "eng+fra"), None);
    assert_eq!(
        ocr_code_error(&english(), "eng+zzz"),
        Some("Unknown language code for the ocr-lang parameter: zzz. Hint: Try 'eng' for English.".to_string())
    );
}

#[test]
fn page_files_and_final_report() {
    assert_eq!(page_pdf_path("/work", 3), "/work/page-3.pdf");
    assert_eq!(elapsed_message(&english(), 7_384_000), "Elapsed time: hours minutes seconds");
}

#[test]
fn merge_roles_and_progress() {
    assert_eq!(merge_role("Catalog"), MergeRole::Catalog);
    assert_eq!(merge_role("Pages"), MergeRole::PageTree);
    assert_eq!(merge_role("Page"), MergeRole::Page);
    assert_eq!(merge_role("Outline"), MergeRole::Dropped);
    assert_eq!(merge_role("Font"), MergeRole::Copied);
    assert_eq!(merge_role(""), MergeRole::Copied);
    let range = step_progress_range(2);
    assert_eq!(merge_step_progress(&range, 1), 91);
    assert_eq!(merge_step_progress(&range, 7), 98);
}
