//! The steps of the sanitization of one document in the desktop
//! application: what each page step reports, how OCR is set up, where the
//! pages are written, and the final report.
use vstd::prelude::*;
use crate::text::{decimal, push_str, usize_to_text};
use crate::paths::{join_path, join_path_text};
use crate::progress::{clock_parts, duration_words, elapsed_time_words, plural_rule_covers, ProgressRange};
use crate::ocrlang::{first_unknown_code, first_unknown_ocr_code, split_plus};
use crate::l10n::{catalog_forms, gettext_fmt_spec, gettext_spec, GettextTranslations, Translations};

verus! {

/// The part of the progress bar of each step: the input as a PDF, the
/// pages, their merge, and the move of the result.
pub open spec fn step_range(step: nat) -> (usize, usize) {
    if step == 0 { (0, 20) } else if step == 1 { (20, 90) } else if step == 2 { (90, 98) } else { (98, 98) }
}

/// The part of the progress bar of step `step` (0 to 3).
pub fn step_progress_range(step: usize) -> (r: ProgressRange)
    requires
        step <= 3,
    ensures
        (r.min, r.max) == step_range(step as nat),
        r.wf(),
{
    if step == 0 {
        ProgressRange::new(0, 20)
    } else if step == 1 {
        ProgressRange::new(20, 90)
    } else if step == 2 {
        ProgressRange::new(90, 98)
    } else {
        ProgressRange::new(98, 98)
    }
}

/// The steps follow each other on the progress bar without going back.
pub proof fn law_steps_advance(step: nat)
    requires
        step < 3,
    ensures
        step_range(step).0 <= step_range(step).1,
        step_range(step).1 == step_range(step + 1).0,
{
}

/// The template of the message that reports the conversion of a page to
/// PDF, with or without OCR.
pub open spec fn page_template(ocr: bool) -> Seq<char> {
    if ocr { "Performing OCR on page {0}"@ } else { "Saving PNG image {0} to PDF"@ }
}

/// What the page step reports for the page of index `index` of
/// `page_count`: the progress value, the message of its extraction and the
/// message of its conversion.
pub struct PageReport {
    pub progress: usize,
    pub extract_message: String,
    pub convert_message: String,
}

/// Reports on the page of index `index` of `page_count` in the page step
/// `range`.
pub fn page_report(range: &ProgressRange, index: usize, page_count: usize, ocr: bool, tr: &GettextTranslations) -> (r: PageReport)
    requires
        range.wf(),
        index < page_count,
    ensures
        r.progress == range.value_at((index + 1) as nat, page_count as nat),
        exists|n: &str| n@ == decimal((index + 1) as nat)
            && r.extract_message@ == gettext_fmt_spec(gettext_spec(catalog_forms(tr.catalog), "Extracting page {0} into a PNG image"@), seq![n])
            && r.convert_message@ == gettext_fmt_spec(gettext_spec(catalog_forms(tr.catalog), page_template(ocr)), seq![n]),
{
    let page_num = index + 1;
    let progress = range.progress_at(page_num, page_count);
    let page_text = usize_to_text(page_num);
    let n: &str = page_text.as_str();
    let p1: Vec<&str> = vec![n];
    assert(p1@ == seq![n]);
    let extract_message = tr.gettext_fmt("Extracting page {0} into a PNG image", p1);
    let p2: Vec<&str> = vec![n];
    assert(p2@ == seq![n]);
    let convert_message = if ocr {
        tr.gettext_fmt("Performing OCR on page {0}", p2)
    } else {
        tr.gettext_fmt("Saving PNG image {0} to PDF", p2)
    };
    PageReport { progress, extract_message, convert_message }
}

/// The message that refuses the OCR languages `ocr_lang` of a document:
/// the first unknown code is named.
pub fn ocr_code_error(tr: &GettextTranslations, ocr_lang: &str) -> (r: Option<String>)
    ensures
        match first_unknown_code(split_plus(ocr_lang@)) {
            None => r is None,
            Some(code) => r is Some && exists|c: &str| c@ == code
                && r->0@ == gettext_fmt_spec(gettext_spec(catalog_forms(tr.catalog),
                    "Unknown language code for the ocr-lang parameter: {0}. Hint: Try 'eng' for English."@), seq![c]),
        },
{
    match first_unknown_ocr_code(ocr_lang) {
        None => None,
        Some(code) => {
            let c: &str = code.as_str();
            let params: Vec<&str> = vec![c];
            assert(params@ == seq![c]);
            Some(tr.gettext_fmt("Unknown language code for the ocr-lang parameter: {0}. Hint: Try 'eng' for English.", params))
        },
    }
}

/// The options of the PDF writer that recognises text in `lang_code` with
/// the trained data of `data_dir`.
pub open spec fn ocr_writer_options_spec(lang_code: Seq<char>, data_dir: Seq<char>) -> Seq<char> {
    "ocr-language="@ + lang_code + ",compression=flate,ocr-datadir="@ + data_dir
}

/// The options of the PDF writer with text recognition.
pub fn ocr_writer_options(lang_code: &str, data_dir: &str) -> (r: String)
    ensures
        r@ == ocr_writer_options_spec(lang_code@, data_dir@),
{
    let mut r = String::new();
    push_str(&mut r, "ocr-language=");
    push_str(&mut r, lang_code);
    push_str(&mut r, ",compression=flate,ocr-datadir=");
    push_str(&mut r, data_dir);
    r
}

/// Where the PDF of the page of index `index` is written in `dir`.
pub fn page_pdf_path(dir: &str, index: usize) -> (r: String)
    ensures
        r@ == join_path(dir@, "page-"@ + decimal(index as nat) + ".pdf"@),
{
    let mut name = String::new();
    push_str(&mut name, "page-");
    let i = usize_to_text(index);
    push_str(&mut name, i.as_str());
    push_str(&mut name, ".pdf");
    join_path_text(dir, name.as_str())
}

/// The last message of a conversion: the elapsed time in words.
pub fn elapsed_message(tr: &GettextTranslations, millis: u128) -> (r: String)
    requires
        plural_rule_covers(tr, clock_parts(millis as nat).0 as u64, clock_parts(millis as nat).1 as u64, clock_parts(millis as nat).2 as u64),
    ensures
        r@ == gettext_spec(catalog_forms(tr.catalog), "Elapsed time"@) + ": "@
            + duration_words(tr, clock_parts(millis as nat).0 as u64, clock_parts(millis as nat).1 as u64, clock_parts(millis as nat).2 as u64),
{
    let mut r = tr.gettext("Elapsed time");
    push_str(&mut r, ": ");
    let words = elapsed_time_words(millis, tr);
    push_str(&mut r, words.as_str());
    r
}


/// What the merge of the page documents does with an object, by its type:
/// the first catalog becomes the catalog of the result, the page trees are
/// merged into one, pages are re-parented afterwards, outlines are dropped,
/// and every other object is copied.
#[derive(PartialEq, Eq, Structural, Clone, Copy, Debug)]
pub enum MergeRole {
    Catalog,
    PageTree,
    Page,
    Dropped,
    Copied,
}

/// The role of an object of type `kind` in the merge.
pub open spec fn merge_role_spec(kind: Seq<char>) -> MergeRole {
    if kind == "Catalog"@ {
        MergeRole::Catalog
    } else if kind == "Pages"@ {
        MergeRole::PageTree
    } else if kind == "Page"@ {
        MergeRole::Page
    } else if kind == "Outlines"@ || kind == "Outline"@ {
        MergeRole::Dropped
    } else {
        MergeRole::Copied
    }
}

/// The role of an object of type `kind` (empty where it has none) in
/// the merge of the page documents.
pub fn merge_role(kind: &str) -> (r: MergeRole)
    ensures
        r == merge_role_spec(kind@),
{
    if crate::text::same_text(kind, "Catalog") {
        MergeRole::Catalog
    } else if crate::text::same_text(kind, "Pages") {
        MergeRole::PageTree
    } else if crate::text::same_text(kind, "Page") {
        MergeRole::Page
    } else if crate::text::same_text(kind, "Outlines") || crate::text::same_text(kind, "Outline") {
        MergeRole::Dropped
    } else {
        MergeRole::Copied
    }
}

/// The number of sub-steps of the merge that the container tool reports.
pub const MERGE_STEP_COUNT: usize = 7;

/// The progress value of sub-step `step_num` of the merge.
pub fn merge_step_progress(range: &ProgressRange, step_num: usize) -> (v: usize)
    requires
        range.wf(),
        step_num <= 7,
    ensures
        v == range.value_at(step_num as nat, 7),
        range.min <= v <= range.max,
{
    range.progress_at(step_num, MERGE_STEP_COUNT)
}

} // verus!
