//! How an input document becomes the PDF that the sanitizer renders: the
//! media type of the input, the converter that each media type goes to and
//! where the intermediate PDF is written.
use vstd::prelude::*;
use crate::text::{contains_text, push_str, same_text};
use crate::options::ascii_upper_char;
use crate::l10n::{catalog_forms, gettext_fmt_spec, gettext_spec, GettextTranslations, Translations};
use crate::paths::{join_path, join_path_text, parent_of, path_file_stem, path_parent, stem_of};
use crate::containers::{lowercase, to_lowercase};
use crate::mimetypes::{
    cfb_signature, compound_root_clsid, compound_root_clsid_text, legacy_mime_spec,
    legacy_office_mime_for_clsid, mime_is, office_mime_of_entries, office_probe, read_zip_entries,
    relevant_entries, starts_with_bytes, zip_listing, openxml_kind, is_deciding_name,
};

verus! {

// ---------------------------------------------------------------------------
// Media types

/// `infer::get`: the media type that the signature matchers of `infer` find
/// first for `data`, `None` where none matches.
pub uninterp spec fn inferred_mime(data: Seq<u8>) -> Option<Seq<char>>;

/// `infer::get` on `data`, then `Type::mime_type`. `infer` reports
/// `application/x-ole-storage` from one matcher only, which requires the
/// eight bytes of the compound file signature at the start of `data`.
#[verifier::external_body]
fn infer_mime(data: &[u8]) -> (r: Option<&'static str>)
    ensures
        mime_is(r, inferred_mime(data@)),
        mime_is(r, Some("application/x-ole-storage"@)) ==> starts_with_bytes(data@, cfb_signature()),
{
    infer::get(data).map(|t| t.mime_type())
}

/// The number of leading bytes that `infer` reads from a file.
pub const INFER_READ_LIMIT: usize = 8192;

/// The bytes of a file that `infer::get_from_path` looks at.
pub open spec fn infer_window(contents: Seq<u8>) -> Seq<u8> {
    if contents.len() <= 8192 { contents } else { contents.take(8192) }
}

/// The media type of a zip container once its entries are probed: the
/// office type found, or `application/zip` where the probe fails or finds
/// none (OpenDocument drawings are not recognised).
pub open spec fn probed_zip_mime(data: Seq<u8>) -> Seq<char> {
    match zip_listing(data) {
        None => "application/zip"@,
        Some(entries) => match office_probe(relevant_entries(entries), 0, 0, 0, ""@, ""@, false) {
            Ok(Some(m)) => m,
            _ => "application/zip"@,
        },
    }
}

/// Probes the entries of the zip container `data` for an office type.
pub fn probe_zip_mime(data: Vec<u8>) -> (r: &'static str)
    ensures
        r@ == probed_zip_mime(data@),
{
    match read_zip_entries(data) {
        Err(_) => "application/zip",
        Ok(entries) => match office_mime_of_entries(&entries, false) {
            Ok(Some(m)) => m,
            _ => "application/zip",
        },
    }
}

/// Whether comparing the start of `data` with the compound file signature
/// runs past its end: `data` is shorter than the signature and agrees with
/// it as far as it goes.
pub open spec fn ole_compare_overruns(data: Seq<u8>) -> bool {
    data.len() < 8 && data == cfb_signature().take(data.len() as int)
}

/// The media type of a compound file once its root class id is read: a
/// legacy office type, or `application/x-ole-storage`.
pub open spec fn probed_ole_mime(data: Seq<u8>) -> Seq<char> {
    if starts_with_bytes(data, cfb_signature()) {
        match compound_root_clsid(data) {
            Some(clsid) => match legacy_mime_spec(clsid) {
                Some(m) => m,
                None => "application/x-ole-storage"@,
            },
            None => "application/x-ole-storage"@,
        }
    } else {
        "application/x-ole-storage"@
    }
}

fn starts_with_ole_signature(data: &Vec<u8>) -> (r: bool)
    requires
        !ole_compare_overruns(data@),
    ensures
        r == starts_with_bytes(data@, cfb_signature()),
{
    let sig: [u8; 8] = [208u8, 207u8, 17u8, 224u8, 161u8, 177u8, 26u8, 225u8];
    assert(sig@ == cfb_signature());
    let mut i: usize = 0;
    while i < 8
        invariant
            i <= 8,
            sig@ == cfb_signature(),
            !ole_compare_overruns(data@),
            i <= data.len(),
            data@.take(i as int) == cfb_signature().take(i as int),
        decreases 8 - i,
    {
        if i >= data.len() {
            assert(data@ == cfb_signature().take(data@.len() as int));
            assert(false);
            return false;
        }
        if data[i] != sig[i] {
            if data.len() >= 8 {
                assert(data@.subrange(0, 8)[i as int] == data@[i as int]);
            }
            return false;
        }
        assert(data@.take(i + 1) == data@.take(i as int).push(data@[i as int]));
        assert(cfb_signature().take(i + 1) == cfb_signature().take(i as int).push(cfb_signature()[i as int]));
        i = i + 1;
        if i == data.len() && i < 8 {
            assert(data@ == data@.take(i as int));
            assert(false);
        }
    }
    assert(data@.subrange(0, 8) == data@.take(8));
    assert(cfb_signature().take(8) =~= cfb_signature());
    true
}

/// Probes the compound file `buffer` for a legacy office type.
pub fn probe_ole_mime(buffer: Vec<u8>) -> (r: &'static str)
    requires
        !ole_compare_overruns(buffer@),
    ensures
        r@ == probed_ole_mime(buffer@),
{
    if starts_with_ole_signature(&buffer) {
        match compound_root_clsid_text(buffer) {
            Ok(clsid) => match legacy_office_mime_for_clsid(clsid.as_str()) {
                Some(m) => m,
                None => "application/x-ole-storage",
            },
            Err(_) => "application/x-ole-storage",
        }
    } else {
        "application/x-ole-storage"
    }
}

/// The message given where no signature matches the input.
pub open spec fn unknown_mime_message() -> Seq<char> {
    "Cannot determine input mime-type! Does the input have a known file extension?"@
}

/// The media type of an input file of contents `contents`: what `infer`
/// finds in its first bytes, refined by probing zip containers and compound
/// files for office documents.
pub open spec fn input_mime_spec(contents: Seq<u8>) -> Option<Seq<char>> {
    match inferred_mime(infer_window(contents)) {
        None => None,
        Some(m) => if m == "application/zip"@ {
            Some(probed_zip_mime(contents))
        } else if m == "application/x-ole-storage"@ {
            Some(probed_ole_mime(contents))
        } else {
            Some(m)
        },
    }
}

/// The media type of the input file of contents `contents`, or the message
/// given where no signature matches.
pub fn detect_input_mime(contents: Vec<u8>) -> (r: Result<&'static str, String>)
    ensures
        match input_mime_spec(contents@) {
            Some(m) => r is Ok && r->Ok_0@ == m,
            None => r is Err && r->Err_0@ == unknown_mime_message(),
        },
{
    let window_len: usize = if contents.len() <= INFER_READ_LIMIT { contents.len() } else { INFER_READ_LIMIT };
    let kind = infer_mime(vstd::slice::slice_subrange(contents.as_slice(), 0, window_len));
    assert(contents@.subrange(0, window_len as int) == infer_window(contents@));
    match kind {
        None => Err("Cannot determine input mime-type! Does the input have a known file extension?".to_owned()),
        Some(m) => {
            if same_text(m, "application/zip") {
                Ok(probe_zip_mime(contents))
            } else if same_text(m, "application/x-ole-storage") {
                assert(infer_window(contents@).subrange(0, 8) == contents@.subrange(0, 8));
                Ok(probe_ole_mime(contents))
            } else {
                Ok(m)
            }
        },
    }
}

// ---------------------------------------------------------------------------
// Converters

/// How an input of some media type becomes a PDF: it is one already, LibreOffice
/// exports it with a filter (from a copy with a file extension), or it is an
/// image drawn onto a page.
pub enum ConversionType {
    PassThrough,
    LibreOffice(String, String),
    Convert,
}

/// A conversion, its filter and extension as character sequences.
pub enum ConversionPlan {
    PassThrough,
    LibreOffice(Seq<char>, Seq<char>),
    Convert,
}

impl ConversionType {
    pub open spec fn plan(&self) -> ConversionPlan {
        match self {
            ConversionType::PassThrough => ConversionPlan::PassThrough,
            ConversionType::LibreOffice(f, e) => ConversionPlan::LibreOffice(f@, e@),
            ConversionType::Convert => ConversionPlan::Convert,
        }
    }
}

/// The conversion of each supported media type.
pub open spec fn conversion_spec(mime: Seq<char>) -> Option<ConversionPlan> {
    if mime == "application/pdf"@ {
        Some(ConversionPlan::PassThrough)
    } else if mime == "application/vnd.openxmlformats-officedocument.wordprocessingml.document"@ {
        Some(ConversionPlan::LibreOffice("writer_pdf_Export"@, "docx"@))
    } else if mime == "application/vnd.ms-word.document.macroEnabled.12"@ {
        Some(ConversionPlan::LibreOffice("writer_pdf_Export"@, "docm"@))
    } else if mime == "application/vnd.openxmlformats-officedocument.spreadsheetml.sheet"@ {
        Some(ConversionPlan::LibreOffice("calc_pdf_Export"@, "xlsx"@))
    } else if mime == "application/vnd.openxmlformats-officedocument.presentationml.presentation"@ {
        Some(ConversionPlan::LibreOffice("impress_pdf_Export"@, "pptx"@))
    } else if mime == "application/msword"@ {
        Some(ConversionPlan::LibreOffice("writer_pdf_Export"@, "doc"@))
    } else if mime == "application/vnd.ms-excel"@ {
        Some(ConversionPlan::LibreOffice("calc_pdf_Export"@, "xls"@))
    } else if mime == "application/vnd.ms-powerpoint"@ {
        Some(ConversionPlan::LibreOffice("impress_pdf_Export"@, "ppt"@))
    } else if mime == "application/vnd.oasis.opendocument.text"@ {
        Some(ConversionPlan::LibreOffice("writer_pdf_Export"@, "odt"@))
    } else if mime == "application/vnd.oasis.opendocument.graphics"@ {
        Some(ConversionPlan::LibreOffice("impress_pdf_Export"@, "odg"@))
    } else if mime == "application/vnd.oasis.opendocument.presentation"@ {
        Some(ConversionPlan::LibreOffice("impress_pdf_Export"@, "odp"@))
    } else if mime == "application/vnd.oasis.opendocument.spreadsheet"@ {
        Some(ConversionPlan::LibreOffice("calc_pdf_Export"@, "ods"@))
    } else if mime == "image/jpeg"@ || mime == "image/gif"@ || mime == "image/png"@
        || mime == "image/tiff"@ || mime == "image/x-tiff"@ {
        Some(ConversionPlan::Convert)
    } else {
        None
    }
}

fn office(filter: &str, ext: &str) -> (r: ConversionType)
    ensures
        r.plan() == ConversionPlan::LibreOffice(filter@, ext@),
{
    ConversionType::LibreOffice(filter.to_owned(), ext.to_owned())
}

/// The conversion of the media type `mime`, `None` where it is not
/// supported.
pub fn conversion_for_mime(mime: &str) -> (r: Option<ConversionType>)
    ensures
        match conversion_spec(mime@) {
            None => r is None,
            Some(p) => r is Some && r->0.plan() == p,
        },
{
    if same_text(mime, "application/pdf") {
        Some(ConversionType::PassThrough)
    } else if same_text(mime, "application/vnd.openxmlformats-officedocument.wordprocessingml.document") {
        Some(office("writer_pdf_Export", "docx"))
    } else if same_text(mime, "application/vnd.ms-word.document.macroEnabled.12") {
        Some(office("writer_pdf_Export", "docm"))
    } else if same_text(mime, "application/vnd.openxmlformats-officedocument.spreadsheetml.sheet") {
        Some(office("calc_pdf_Export", "xlsx"))
    } else if same_text(mime, "application/vnd.openxmlformats-officedocument.presentationml.presentation") {
        Some(office("impress_pdf_Export", "pptx"))
    } else if same_text(mime, "application/msword") {
        Some(office("writer_pdf_Export", "doc"))
    } else if same_text(mime, "application/vnd.ms-excel") {
        Some(office("calc_pdf_Export", "xls"))
    } else if same_text(mime, "application/vnd.ms-powerpoint") {
        Some(office("impress_pdf_Export", "ppt"))
    } else if same_text(mime, "application/vnd.oasis.opendocument.text") {
        Some(office("writer_pdf_Export", "odt"))
    } else if same_text(mime, "application/vnd.oasis.opendocument.graphics") {
        Some(office("impress_pdf_Export", "odg"))
    } else if same_text(mime, "application/vnd.oasis.opendocument.presentation") {
        Some(office("impress_pdf_Export", "odp"))
    } else if same_text(mime, "application/vnd.oasis.opendocument.spreadsheet") {
        Some(office("calc_pdf_Export", "ods"))
    } else if same_text(mime, "image/jpeg") || same_text(mime, "image/gif") || same_text(mime, "image/png")
        || same_text(mime, "image/tiff") || same_text(mime, "image/x-tiff") {
        Some(ConversionType::Convert)
    } else {
        None
    }
}

/// The message given for a media type without a conversion.
pub open spec fn unsupported_mime_message(mime: Seq<char>) -> Seq<char> {
    "Unsupported mime type: "@ + mime + "."@
}

/// The conversion of `mime`, or the message given where it has none.
pub fn select_conversion(mime: &str) -> (r: Result<ConversionType, String>)
    ensures
        match conversion_spec(mime@) {
            None => r is Err && r->Err_0@ == unsupported_mime_message(mime@),
            Some(p) => r is Ok && r->Ok_0.plan() == p,
        },
{
    match conversion_for_mime(mime) {
        Some(c) => Ok(c),
        None => {
            let mut msg = String::new();
            push_str(&mut msg, "Unsupported mime type: ");
            push_str(&mut msg, mime);
            push_str(&mut msg, ".");
            Err(msg)
        },
    }
}

/// The image decoders of the converter of images.
#[derive(PartialEq, Eq, Structural, Clone, Copy, Debug)]
pub enum ImageKind {
    Png,
    Jpeg,
    Gif,
    Tiff,
}

/// The image decoder of each image media type.
pub open spec fn image_kind_spec(mime: Seq<char>) -> Option<ImageKind> {
    if mime == "image/png"@ {
        Some(ImageKind::Png)
    } else if mime == "image/jpeg"@ {
        Some(ImageKind::Jpeg)
    } else if mime == "image/gif"@ {
        Some(ImageKind::Gif)
    } else if mime == "image/tiff"@ || mime == "image/x-tiff"@ {
        Some(ImageKind::Tiff)
    } else {
        None
    }
}

/// The image decoder of `mime`, or the message given for another type.
pub fn image_kind_for_mime(mime: &str) -> (r: Result<ImageKind, String>)
    ensures
        match image_kind_spec(mime@) {
            Some(k) => r == Ok::<ImageKind, String>(k),
            None => r is Err && r->Err_0@ == "Unsupported image type"@,
        },
{
    if same_text(mime, "image/png") {
        Ok(ImageKind::Png)
    } else if same_text(mime, "image/jpeg") {
        Ok(ImageKind::Jpeg)
    } else if same_text(mime, "image/gif") {
        Ok(ImageKind::Gif)
    } else if same_text(mime, "image/tiff") || same_text(mime, "image/x-tiff") {
        Ok(ImageKind::Tiff)
    } else {
        Err("Unsupported image type".to_owned())
    }
}

/// Every type that the converter of images accepts has an image decoder.
pub proof fn law_converted_images_have_decoders(mime: Seq<char>)
    requires
        conversion_spec(mime) == Some(ConversionPlan::Convert),
    ensures
        image_kind_spec(mime) is Some,
{
}

// ---------------------------------------------------------------------------
// Paths

/// Where the container tool writes the PDF of the input of base name `stem`
/// in the directory `parent`: `{parent}/{stem}_input.pdf`.
pub open spec fn input_pdf_location(parent: Seq<char>, stem: Seq<char>) -> Seq<char> {
    join_path(parent, stem + "_input.pdf"@)
}

/// The path of the intermediate PDF of the input `{parent}/{stem}.*`.
pub fn input_pdf_path(parent: &str, stem: &str) -> (r: String)
    ensures
        r@ == input_pdf_location(parent@, stem@),
{
    let mut name = String::new();
    push_str(&mut name, stem);
    push_str(&mut name, "_input.pdf");
    join_path_text(parent, name.as_str())
}

/// The file URI of the absolute path `path`.
pub fn file_uri(path: &str) -> (r: String)
    ensures
        r@ == "file://"@ + path@,
{
    let mut r = String::new();
    push_str(&mut r, "file://");
    push_str(&mut r, path);
    r
}

/// Where LibreOffice reads its copy of an input of extension `ext`.
pub fn office_input_copy_path(ext: &str) -> (r: String)
    ensures
        r@ == "/tmp/input."@ + ext@,
{
    let mut r = String::new();
    push_str(&mut r, "/tmp/input.");
    push_str(&mut r, ext);
    r
}

// ---------------------------------------------------------------------------
// Processors of the desktop application and of the container tool

/// `FileFormat::from_bytes`, then `FileFormat::short_name`: the short name
/// of the format that `file-format` recognises in `data`, where it has one.
pub uninterp spec fn format_short_name(data: Seq<u8>) -> Option<Seq<char>>;

/// `FileFormat::from_bytes(data).short_name()`.
#[verifier::external_body]
fn file_format_short_name(data: &[u8]) -> (r: Option<String>)
    ensures
        match r {
            Some(s) => format_short_name(data@) == Some(s@),
            None => format_short_name(data@) is None,
        },
{
    file_format::FileFormat::from_bytes(data).short_name().map(|s| s.to_owned())
}

/// What turns an input into a PDF: nothing for a PDF, the image and e-book
/// renderer, or the office suite (which reads a copy with this extension).
pub enum InputProcessor {
    Pdf,
    Image,
    Office(String),
}

/// An input processor, its extension as a character sequence.
pub enum ProcessorPlan {
    Pdf,
    Image,
    Office(Seq<char>),
}

impl InputProcessor {
    pub open spec fn plan(&self) -> ProcessorPlan {
        match self {
            InputProcessor::Pdf => ProcessorPlan::Pdf,
            InputProcessor::Image => ProcessorPlan::Image,
            InputProcessor::Office(e) => ProcessorPlan::Office(e@),
        }
    }
}

/// Whether a format goes to the office suite.
pub open spec fn is_office_format(s: Seq<char>) -> bool {
    s == "DOC"@ || s == "DOCX"@ || s == "ODG"@ || s == "ODP"@ || s == "ODS"@ || s == "ODT"@
        || s == "PPT"@ || s == "PPTX"@ || s == "RTF"@ || s == "XLS"@ || s == "XLSX"@
}

/// Whether the desktop application renders a format as images or e-books.
pub open spec fn is_desktop_image_format(s: Seq<char>) -> bool {
    s == "EPUB"@ || s == "MOBI"@ || s == "CBZ"@ || s == "FB2"@ || s == "BMP"@ || s == "PNM"@
        || s == "PNG"@ || s == "JPEG"@ || s == "GIF"@ || s == "TIFF"@
}

/// Whether the container tool renders a format as an image.
pub open spec fn is_container_image_format(s: Seq<char>) -> bool {
    s == "BMP"@ || s == "PNM"@ || s == "PNG"@ || s == "JPG"@ || s == "GIF"@ || s == "TIFF"@
}

/// The processor of the format of short name `s`; `desktop` selects the
/// formats of the desktop application, otherwise those of the container
/// tool.
pub open spec fn processor_spec(s: Seq<char>, desktop: bool) -> Option<ProcessorPlan> {
    if s == "PDF"@ {
        Some(ProcessorPlan::Pdf)
    } else if (desktop && is_desktop_image_format(s)) || (!desktop && is_container_image_format(s)) {
        Some(ProcessorPlan::Image)
    } else if is_office_format(s) {
        Some(ProcessorPlan::Office(lowercase(s)))
    } else {
        None
    }
}

fn is_office_format_exec(s: &str) -> (r: bool)
    ensures
        r == is_office_format(s@),
{
    same_text(s, "DOC") || same_text(s, "DOCX") || same_text(s, "ODG") || same_text(s, "ODP")
        || same_text(s, "ODS") || same_text(s, "ODT") || same_text(s, "PPT") || same_text(s, "PPTX")
        || same_text(s, "RTF") || same_text(s, "XLS") || same_text(s, "XLSX")
}

fn is_desktop_image_format_exec(s: &str) -> (r: bool)
    ensures
        r == is_desktop_image_format(s@),
{
    same_text(s, "EPUB") || same_text(s, "MOBI") || same_text(s, "CBZ") || same_text(s, "FB2")
        || same_text(s, "BMP") || same_text(s, "PNM") || same_text(s, "PNG") || same_text(s, "JPEG")
        || same_text(s, "GIF") || same_text(s, "TIFF")
}

fn is_container_image_format_exec(s: &str) -> (r: bool)
    ensures
        r == is_container_image_format(s@),
{
    same_text(s, "BMP") || same_text(s, "PNM") || same_text(s, "PNG") || same_text(s, "JPG")
        || same_text(s, "GIF") || same_text(s, "TIFF")
}

/// The processor of the format of short name `short_name`.
pub fn processor_for_format(short_name: &str, desktop: bool) -> (r: Option<InputProcessor>)
    ensures
        match processor_spec(short_name@, desktop) {
            None => r is None,
            Some(p) => r is Some && r->0.plan() == p,
        },
{
    if same_text(short_name, "PDF") {
        Some(InputProcessor::Pdf)
    } else if (desktop && is_desktop_image_format_exec(short_name))
        || (!desktop && is_container_image_format_exec(short_name)) {
        Some(InputProcessor::Image)
    } else if is_office_format_exec(short_name) {
        Some(InputProcessor::Office(to_lowercase(short_name)))
    } else {
        None
    }
}

/// The processor of the input file of contents `contents`, by the format
/// that `file-format` recognises in it; `None` where it has no processor.
pub open spec fn input_processor_spec(contents: Seq<u8>, desktop: bool) -> Option<ProcessorPlan> {
    match format_short_name(contents) {
        None => None,
        Some(s) => processor_spec(s, desktop),
    }
}

/// The processor of the input file of contents `contents`, or `None` where
/// its format is not recognised or not supported.
pub fn input_processor(contents: &[u8], desktop: bool) -> (r: Option<InputProcessor>)
    ensures
        match input_processor_spec(contents@, desktop) {
            None => r is None,
            Some(p) => r is Some && r->0.plan() == p,
        },
{
    match file_format_short_name(contents) {
        None => None,
        Some(s) => processor_for_format(s.as_str(), desktop),
    }
}

/// What the desktop application does with the input file `input`, which
/// exists where `exists`, of contents `contents`, working in `work_dir`: its
/// processor and where its PDF is written; or the translated message of the
/// first check that fails (presence, format, base name, supported format).
pub open spec fn desktop_input_spec(forms: Map<Seq<char>, Seq<Seq<char>>>, input: &str, exists: bool, contents: Seq<u8>, work_dir: Seq<char>) -> Result<(ProcessorPlan, Seq<char>), Seq<char>> {
    let unknown = gettext_spec(forms, "Mime type error! Does the input have a 'known' file extension?"@);
    if !exists {
        Err(gettext_fmt_spec(gettext_spec(forms, "Cannot find file at {0}"@), seq![input]))
    } else {
        match format_short_name(contents) {
            None => Err(unknown),
            Some(short) => match stem_of(input@) {
                None => Err(gettext_fmt_spec(gettext_spec(forms, "Could not determine basename for file {0}"@), seq![input])),
                Some(stem) => match processor_spec(short, true) {
                    None => Err(unknown),
                    Some(p) => Ok((p, join_path(work_dir, stem + ".pdf"@))),
                },
            },
        }
    }
}

/// Plans the processing of the input file `input` by the desktop
/// application, working in `work_dir`: `exists` tells whether the file is
/// there, `contents` are its bytes.
pub fn desktop_input_plan(tr: &GettextTranslations, input: &str, exists: bool, contents: &[u8], work_dir: &str) -> (r: Result<(InputProcessor, String), String>)
    ensures
        match desktop_input_spec(catalog_forms(tr.catalog), input, exists, contents@, work_dir@) {
            Ok((p, pdf)) => r matches Ok(v) && v.0.plan() == p && v.1@ == pdf,
            Err(msg) => r matches Err(m) && m@ == msg,
        },
{
    if !exists {
        let params: Vec<&str> = vec![input];
        assert(params@ == seq![input]);
        return Err(tr.gettext_fmt("Cannot find file at {0}", params));
    }
    let short = match file_format_short_name(contents) {
        None => return Err(tr.gettext("Mime type error! Does the input have a 'known' file extension?")),
        Some(s) => s,
    };
    let stem = match path_file_stem(input) {
        None => {
            let params: Vec<&str> = vec![input];
            assert(params@ == seq![input]);
            return Err(tr.gettext_fmt("Could not determine basename for file {0}", params));
        },
        Some(s) => s,
    };
    match processor_for_format(short.as_str(), true) {
        None => Err(tr.gettext("Mime type error! Does the input have a 'known' file extension?")),
        Some(p) => Ok((p, desktop_input_pdf_path(work_dir, stem.as_str()))),
    }
}

/// What the container tool does with the input file `input`, which exists
/// where `exists`, of contents `contents`: its processor and where its PDF
/// is written; or the translated message of the first check that fails
/// (presence, format, folder, base name, supported format).
pub open spec fn container_input_spec(forms: Map<Seq<char>, Seq<Seq<char>>>, input: &str, exists: bool, contents: Seq<u8>) -> Result<(ProcessorPlan, Seq<char>), Seq<char>> {
    let unknown = gettext_spec(forms, "Mime type error! Does the input have a 'known' file extension?"@);
    if !exists {
        Err(gettext_fmt_spec(gettext_spec(forms, "Cannot find file at {0}"@), seq![input]))
    } else {
        match format_short_name(contents) {
            None => Err(unknown),
            Some(short) => match parent_of(input@) {
                None => Err(gettext_spec(forms, "Cannot find input parent directory!"@)),
                Some(parent) => match stem_of(input@) {
                    None => Err(gettext_fmt_spec(gettext_spec(forms, "Could not determine basename for file {0}"@), seq![input])),
                    Some(stem) => match processor_spec(short, false) {
                        None => Err(unknown),
                        Some(p) => Ok((p, input_pdf_location(parent, stem))),
                    },
                },
            },
        }
    }
}

/// Plans the processing of the input file `input` by the container tool:
/// `exists` tells whether the file is there, `contents` are its bytes.
pub fn container_input_plan(tr: &GettextTranslations, input: &str, exists: bool, contents: &[u8]) -> (r: Result<(InputProcessor, String), String>)
    ensures
        match container_input_spec(catalog_forms(tr.catalog), input, exists, contents@) {
            Ok((p, pdf)) => r matches Ok(v) && v.0.plan() == p && v.1@ == pdf,
            Err(msg) => r matches Err(m) && m@ == msg,
        },
{
    if !exists {
        let params: Vec<&str> = vec![input];
        assert(params@ == seq![input]);
        return Err(tr.gettext_fmt("Cannot find file at {0}", params));
    }
    let short = match file_format_short_name(contents) {
        None => return Err(tr.gettext("Mime type error! Does the input have a 'known' file extension?")),
        Some(s) => s,
    };
    let parent = match path_parent(input) {
        None => return Err(tr.gettext("Cannot find input parent directory!")),
        Some(p) => p,
    };
    let stem = match path_file_stem(input) {
        None => {
            let params: Vec<&str> = vec![input];
            assert(params@ == seq![input]);
            return Err(tr.gettext_fmt("Could not determine basename for file {0}", params));
        },
        Some(s) => s,
    };
    match processor_for_format(short.as_str(), false) {
        None => Err(tr.gettext("Mime type error! Does the input have a 'known' file extension?")),
        Some(p) => Ok((p, input_pdf_path(parent.as_str(), stem.as_str()))),
    }
}

/// Where the desktop application writes the PDF of an input of base name
/// `stem`: `{dir}/{stem}.pdf`, in its working directory `dir`.
pub fn desktop_input_pdf_path(dir: &str, stem: &str) -> (r: String)
    ensures
        r@ == join_path(dir@, stem@ + ".pdf"@),
{
    let mut name = String::new();
    push_str(&mut name, stem);
    push_str(&mut name, ".pdf");
    join_path_text(dir, name.as_str())
}


/// What the container tool does with the input file `input` of contents
/// `contents`: the conversion of its media type and where its PDF is
/// written; or the message of the first check that fails (media type,
/// conversion, folder, base name).
pub open spec fn conversion_plan_spec(input: Seq<char>, contents: Seq<u8>) -> Result<(ConversionPlan, Seq<char>), Seq<char>> {
    match input_mime_spec(contents) {
        None => Err(unknown_mime_message()),
        Some(mime) => match conversion_spec(mime) {
            None => Err(unsupported_mime_message(mime)),
            Some(plan) => match parent_of(input) {
                None => Err("Cannot find input parent directory!"@),
                Some(parent) => match stem_of(input) {
                    None => Err("Cannot determine input basename for file "@ + input + "!"@),
                    Some(stem) => Ok((plan, input_pdf_location(parent, stem))),
                },
            },
        },
    }
}

/// Plans the conversion of the input file `input` of contents `contents`.
pub fn conversion_plan(input: &str, contents: Vec<u8>) -> (r: Result<(ConversionType, String), String>)
    ensures
        match conversion_plan_spec(input@, contents@) {
            Ok((plan, pdf)) => r is Ok && r->Ok_0.0.plan() == plan && r->Ok_0.1@ == pdf,
            Err(msg) => r is Err && r->Err_0@ == msg,
        },
{
    let mime = match detect_input_mime(contents) {
        Ok(m) => m,
        Err(e) => return Err(e),
    };
    let conversion = match select_conversion(mime) {
        Ok(c) => c,
        Err(e) => return Err(e),
    };
    let parent = match path_parent(input) {
        Some(p) => p,
        None => return Err("Cannot find input parent directory!".to_owned()),
    };
    let stem = match path_file_stem(input) {
        Some(s) => s,
        None => {
            let mut msg = String::new();
            push_str(&mut msg, "Cannot determine input basename for file ");
            push_str(&mut msg, input);
            push_str(&mut msg, "!");
            return Err(msg);
        },
    };
    let pdf = input_pdf_path(parent.as_str(), stem.as_str());
    Ok((conversion, pdf))
}


/// The export filter of the office suite for a file named `path_name`, by
/// its extension: presentations and drawings, spreadsheets, else text.
pub open spec fn office_filter_spec(path_name: Seq<char>) -> Seq<char> {
    if ends_with(path_name, ".pptx"@) || ends_with(path_name, ".ppt"@) || ends_with(path_name, ".odp"@) || ends_with(path_name, ".odg"@) {
        "impress_pdf_Export"@
    } else if ends_with(path_name, ".xlsx"@) || ends_with(path_name, ".xls"@) || ends_with(path_name, ".ods"@) {
        "calc_pdf_Export"@
    } else {
        "writer_pdf_Export"@
    }
}

/// Whether `s` ends with `suffix`.
pub open spec fn ends_with(s: Seq<char>, suffix: Seq<char>) -> bool {
    s.len() >= suffix.len() && s.subrange(s.len() - suffix.len(), s.len() as int) == suffix
}

fn ends_with_text(s: &str, suffix: &str) -> (r: bool)
    ensures
        r == ends_with(s@, suffix@),
{
    let a = crate::text::chars_of(s);
    let b = crate::text::chars_of(suffix);
    if a.len() < b.len() {
        return false;
    }
    let off = a.len() - b.len();
    let mut i: usize = 0;
    while i < b.len()
        invariant
            a@ == s@,
            b@ == suffix@,
            off == a.len() - b.len(),
            i <= b.len(),
            forall|k: int| 0 <= k < i ==> a@[off + k] == b@[k],
        decreases b.len() - i,
    {
        if a[off + i] != b[i] {
            assert(s@.subrange(s@.len() - suffix@.len(), s@.len() as int)[i as int] != suffix@[i as int]);
            return false;
        }
        i = i + 1;
    }
    assert(s@.subrange(s@.len() - suffix@.len(), s@.len() as int) =~= suffix@);
    true
}

/// The export filter of the office suite for the file named `path_name`.
pub fn office_filter_name(path_name: &str) -> (r: &'static str)
    ensures
        r@ == office_filter_spec(path_name@),
{
    if ends_with_text(path_name, ".pptx") || ends_with_text(path_name, ".ppt") || ends_with_text(path_name, ".odp") || ends_with_text(path_name, ".odg") {
        "impress_pdf_Export"
    } else if ends_with_text(path_name, ".xlsx") || ends_with_text(path_name, ".xls") || ends_with_text(path_name, ".ods") {
        "calc_pdf_Export"
    } else {
        "writer_pdf_Export"
    }
}

// ---------------------------------------------------------------------------
// Laws across the tables

proof fn lemma_office_names_are_not_pdf_or_images_a()
    ensures
        "DOC"@ != "PDF"@ && !is_desktop_image_format("DOC"@) && !is_container_image_format("DOC"@),
        "DOCX"@ != "PDF"@ && !is_desktop_image_format("DOCX"@) && !is_container_image_format("DOCX"@),
        "ODG"@ != "PDF"@ && !is_desktop_image_format("ODG"@) && !is_container_image_format("ODG"@),
        "ODP"@ != "PDF"@ && !is_desktop_image_format("ODP"@) && !is_container_image_format("ODP"@),
        "ODS"@ != "PDF"@ && !is_desktop_image_format("ODS"@) && !is_container_image_format("ODS"@),
        "ODT"@ != "PDF"@ && !is_desktop_image_format("ODT"@) && !is_container_image_format("ODT"@),
{
    reveal_strlit("BMP");
    reveal_strlit("CBZ");
    reveal_strlit("DOC");
    reveal_strlit("DOCX");
    reveal_strlit("EPUB");
    reveal_strlit("FB2");
    reveal_strlit("GIF");
    reveal_strlit("JPEG");
    reveal_strlit("JPG");
    reveal_strlit("MOBI");
    reveal_strlit("ODG");
    reveal_strlit("ODP");
    reveal_strlit("ODS");
    reveal_strlit("ODT");
    reveal_strlit("PDF");
    reveal_strlit("PNG");
    reveal_strlit("PNM");
    reveal_strlit("TIFF");
    assert("DOC"@ != "PDF"@) by { assert("DOC"@[0] != "PDF"@[0]); }
    assert("DOC"@ != "EPUB"@) by { assert("DOC"@.len() != "EPUB"@.len()); }
    assert("DOC"@ != "MOBI"@) by { assert("DOC"@.len() != "MOBI"@.len()); }
    assert("DOC"@ != "CBZ"@) by { assert("DOC"@[0] != "CBZ"@[0]); }
    assert("DOC"@ != "FB2"@) by { assert("DOC"@[0] != "FB2"@[0]); }
    assert("DOC"@ != "BMP"@) by { assert("DOC"@[0] != "BMP"@[0]); }
    assert("DOC"@ != "PNM"@) by { assert("DOC"@[0] != "PNM"@[0]); }
    assert("DOC"@ != "PNG"@) by { assert("DOC"@[0] != "PNG"@[0]); }
    assert("DOC"@ != "JPEG"@) by { assert("DOC"@.len() != "JPEG"@.len()); }
    assert("DOC"@ != "GIF"@) by { assert("DOC"@[0] != "GIF"@[0]); }
    assert("DOC"@ != "TIFF"@) by { assert("DOC"@.len() != "TIFF"@.len()); }
    assert("DOC"@ != "JPG"@) by { assert("DOC"@[0] != "JPG"@[0]); }
    assert("DOCX"@ != "PDF"@) by { assert("DOCX"@.len() != "PDF"@.len()); }
    assert("DOCX"@ != "EPUB"@) by { assert("DOCX"@[0] != "EPUB"@[0]); }
    assert("DOCX"@ != "MOBI"@) by { assert("DOCX"@[0] != "MOBI"@[0]); }
    assert("DOCX"@ != "CBZ"@) by { assert("DOCX"@.len() != "CBZ"@.len()); }
    assert("DOCX"@ != "FB2"@) by { assert("DOCX"@.len() != "FB2"@.len()); }
    assert("DOCX"@ != "BMP"@) by { assert("DOCX"@.len() != "BMP"@.len()); }
    assert("DOCX"@ != "PNM"@) by { assert("DOCX"@.len() != "PNM"@.len()); }
    assert("DOCX"@ != "PNG"@) by { assert("DOCX"@.len() != "PNG"@.len()); }
    assert("DOCX"@ != "JPEG"@) by { assert("DOCX"@[0] != "JPEG"@[0]); }
    assert("DOCX"@ != "GIF"@) by { assert("DOCX"@.len() != "GIF"@.len()); }
    assert("DOCX"@ != "TIFF"@) by { assert("DOCX"@[0] != "TIFF"@[0]); }
    assert("DOCX"@ != "JPG"@) by { assert("DOCX"@.len() != "JPG"@.len()); }
    assert("ODG"@ != "PDF"@) by { assert("ODG"@[0] != "PDF"@[0]); }
    assert("ODG"@ != "EPUB"@) by { assert("ODG"@.len() != "EPUB"@.len()); }
    assert("ODG"@ != "MOBI"@) by { assert("ODG"@.len() != "MOBI"@.len()); }
    assert("ODG"@ != "CBZ"@) by { assert("ODG"@[0] != "CBZ"@[0]); }
    assert("ODG"@ != "FB2"@) by { assert("ODG"@[0] != "FB2"@[0]); }
    assert("ODG"@ != "BMP"@) by { assert("ODG"@[0] != "BMP"@[0]); }
    assert("ODG"@ != "PNM"@) by { assert("ODG"@[0] != "PNM"@[0]); }
    assert("ODG"@ != "PNG"@) by { assert("ODG"@[0] != "PNG"@[0]); }
    assert("ODG"@ != "JPEG"@) by { assert("ODG"@.len() != "JPEG"@.len()); }
    assert("ODG"@ != "GIF"@) by { assert("ODG"@[0] != "GIF"@[0]); }
    assert("ODG"@ != "TIFF"@) by { assert("ODG"@.len() != "TIFF"@.len()); }
    assert("ODG"@ != "JPG"@) by { assert("ODG"@[0] != "JPG"@[0]); }
    assert("ODP"@ != "PDF"@) by { assert("ODP"@[0] != "PDF"@[0]); }
    assert("ODP"@ != "EPUB"@) by { assert("ODP"@.len() != "EPUB"@.len()); }
    assert("ODP"@ != "MOBI"@) by { assert("ODP"@.len() != "MOBI"@.len()); }
    assert("ODP"@ != "CBZ"@) by { assert("ODP"@[0] != "CBZ"@[0]); }
    assert("ODP"@ != "FB2"@) by { assert("ODP"@[0] != "FB2"@[0]); }
    assert("ODP"@ != "BMP"@) by { assert("ODP"@[0] != "BMP"@[0]); }
    assert("ODP"@ != "PNM"@) by { assert("ODP"@[0] != "PNM"@[0]); }
    assert("ODP"@ != "PNG"@) by { assert("ODP"@[0] != "PNG"@[0]); }
    assert("ODP"@ != "JPEG"@) by { assert("ODP"@.len() != "JPEG"@.len()); }
    assert("ODP"@ != "GIF"@) by { assert("ODP"@[0] != "GIF"@[0]); }
    assert("ODP"@ != "TIFF"@) by { assert("ODP"@.len() != "TIFF"@.len()); }
    assert("ODP"@ != "JPG"@) by { assert("ODP"@[0] != "JPG"@[0]); }
    assert("ODS"@ != "PDF"@) by { assert("ODS"@[0] != "PDF"@[0]); }
    assert("ODS"@ != "EPUB"@) by { assert("ODS"@.len() != "EPUB"@.len()); }
    assert("ODS"@ != "MOBI"@) by { assert("ODS"@.len() != "MOBI"@.len()); }
    assert("ODS"@ != "CBZ"@) by { assert("ODS"@[0] != "CBZ"@[0]); }
    assert("ODS"@ != "FB2"@) by { assert("ODS"@[0] != "FB2"@[0]); }
    assert("ODS"@ != "BMP"@) by { assert("ODS"@[0] != "BMP"@[0]); }
    assert("ODS"@ != "PNM"@) by { assert("ODS"@[0] != "PNM"@[0]); }
    assert("ODS"@ != "PNG"@) by { assert("ODS"@[0] != "PNG"@[0]); }
    assert("ODS"@ != "JPEG"@) by { assert("ODS"@.len() != "JPEG"@.len()); }
    assert("ODS"@ != "GIF"@) by { assert("ODS"@[0] != "GIF"@[0]); }
    assert("ODS"@ != "TIFF"@) by { assert("ODS"@.len() != "TIFF"@.len()); }
    assert("ODS"@ != "JPG"@) by { assert("ODS"@[0] != "JPG"@[0]); }
    assert("ODT"@ != "PDF"@) by { assert("ODT"@[0] != "PDF"@[0]); }
    assert("ODT"@ != "EPUB"@) by { assert("ODT"@.len() != "EPUB"@.len()); }
    assert("ODT"@ != "MOBI"@) by { assert("ODT"@.len() != "MOBI"@.len()); }
    assert("ODT"@ != "CBZ"@) by { assert("ODT"@[0] != "CBZ"@[0]); }
    assert("ODT"@ != "FB2"@) by { assert("ODT"@[0] != "FB2"@[0]); }
    assert("ODT"@ != "BMP"@) by { assert("ODT"@[0] != "BMP"@[0]); }
    assert("ODT"@ != "PNM"@) by { assert("ODT"@[0] != "PNM"@[0]); }
    assert("ODT"@ != "PNG"@) by { assert("ODT"@[0] != "PNG"@[0]); }
    assert("ODT"@ != "JPEG"@) by { assert("ODT"@.len() != "JPEG"@.len()); }
    assert("ODT"@ != "GIF"@) by { assert("ODT"@[0] != "GIF"@[0]); }
    assert("ODT"@ != "TIFF"@) by { assert("ODT"@.len() != "TIFF"@.len()); }
    assert("ODT"@ != "JPG"@) by { assert("ODT"@[0] != "JPG"@[0]); }
}

proof fn lemma_office_names_are_not_pdf_or_images_b()
    ensures
        "PPT"@ != "PDF"@ && !is_desktop_image_format("PPT"@) && !is_container_image_format("PPT"@),
        "PPTX"@ != "PDF"@ && !is_desktop_image_format("PPTX"@) && !is_container_image_format("PPTX"@),
        "RTF"@ != "PDF"@ && !is_desktop_image_format("RTF"@) && !is_container_image_format("RTF"@),
        "XLS"@ != "PDF"@ && !is_desktop_image_format("XLS"@) && !is_container_image_format("XLS"@),
        "XLSX"@ != "PDF"@ && !is_desktop_image_format("XLSX"@) && !is_container_image_format("XLSX"@),
{
    reveal_strlit("BMP");
    reveal_strlit("CBZ");
    reveal_strlit("EPUB");
    reveal_strlit("FB2");
    reveal_strlit("GIF");
    reveal_strlit("JPEG");
    reveal_strlit("JPG");
    reveal_strlit("MOBI");
    reveal_strlit("PDF");
    reveal_strlit("PNG");
    reveal_strlit("PNM");
    reveal_strlit("PPT");
    reveal_strlit("PPTX");
    reveal_strlit("RTF");
    reveal_strlit("TIFF");
    reveal_strlit("XLS");
    reveal_strlit("XLSX");
    assert("PPT"@ != "PDF"@) by { assert("PPT"@[1] != "PDF"@[1]); }
    assert("PPT"@ != "EPUB"@) by { assert("PPT"@.len() != "EPUB"@.len()); }
    assert("PPT"@ != "MOBI"@) by { assert("PPT"@.len() != "MOBI"@.len()); }
    assert("PPT"@ != "CBZ"@) by { assert("PPT"@[0] != "CBZ"@[0]); }
    assert("PPT"@ != "FB2"@) by { assert("PPT"@[0] != "FB2"@[0]); }
    assert("PPT"@ != "BMP"@) by { assert("PPT"@[0] != "BMP"@[0]); }
    assert("PPT"@ != "PNM"@) by { assert("PPT"@[1] != "PNM"@[1]); }
    assert("PPT"@ != "PNG"@) by { assert("PPT"@[1] != "PNG"@[1]); }
    assert("PPT"@ != "JPEG"@) by { assert("PPT"@.len() != "JPEG"@.len()); }
    assert("PPT"@ != "GIF"@) by { assert("PPT"@[0] != "GIF"@[0]); }
    assert("PPT"@ != "TIFF"@) by { assert("PPT"@.len() != "TIFF"@.len()); }
    assert("PPT"@ != "JPG"@) by { assert("PPT"@[0] != "JPG"@[0]); }
    assert("PPTX"@ != "PDF"@) by { assert("PPTX"@.len() != "PDF"@.len()); }
    assert("PPTX"@ != "EPUB"@) by { assert("PPTX"@[0] != "EPUB"@[0]); }
    assert("PPTX"@ != "MOBI"@) by { assert("PPTX"@[0] != "MOBI"@[0]); }
    assert("PPTX"@ != "CBZ"@) by { assert("PPTX"@.len() != "CBZ"@.len()); }
    assert("PPTX"@ != "FB2"@) by { assert("PPTX"@.len() != "FB2"@.len()); }
    assert("PPTX"@ != "BMP"@) by { assert("PPTX"@.len() != "BMP"@.len()); }
    assert("PPTX"@ != "PNM"@) by { assert("PPTX"@.len() != "PNM"@.len()); }
    assert("PPTX"@ != "PNG"@) by { assert("PPTX"@.len() != "PNG"@.len()); }
    assert("PPTX"@ != "JPEG"@) by { assert("PPTX"@[0] != "JPEG"@[0]); }
    assert("PPTX"@ != "GIF"@) by { assert("PPTX"@.len() != "GIF"@.len()); }
    assert("PPTX"@ != "TIFF"@) by { assert("PPTX"@[0] != "TIFF"@[0]); }
    assert("PPTX"@ != "JPG"@) by { assert("PPTX"@.len() != "JPG"@.len()); }
    assert("RTF"@ != "PDF"@) by { assert("RTF"@[0] != "PDF"@[0]); }
    assert("RTF"@ != "EPUB"@) by { assert("RTF"@.len() != "EPUB"@.len()); }
    assert("RTF"@ != "MOBI"@) by { assert("RTF"@.len() != "MOBI"@.len()); }
    assert("RTF"@ != "CBZ"@) by { assert("RTF"@[0] != "CBZ"@[0]); }
    assert("RTF"@ != "FB2"@) by { assert("RTF"@[0] != "FB2"@[0]); }
    assert("RTF"@ != "BMP"@) by { assert("RTF"@[0] != "BMP"@[0]); }
    assert("RTF"@ != "PNM"@) by { assert("RTF"@[0] != "PNM"@[0]); }
    assert("RTF"@ != "PNG"@) by { assert("RTF"@[0] != "PNG"@[0]); }
    assert("RTF"@ != "JPEG"@) by { assert("RTF"@.len() != "JPEG"@.len()); }
    assert("RTF"@ != "GIF"@) by { assert("RTF"@[0] != "GIF"@[0]); }
    assert("RTF"@ != "TIFF"@) by { assert("RTF"@.len() != "TIFF"@.len()); }
    assert("RTF"@ != "JPG"@) by { assert("RTF"@[0] != "JPG"@[0]); }
    assert("XLS"@ != "PDF"@) by { assert("XLS"@[0] != "PDF"@[0]); }
    assert("XLS"@ != "EPUB"@) by { assert("XLS"@.len() != "EPUB"@.len()); }
    assert("XLS"@ != "MOBI"@) by { assert("XLS"@.len() != "MOBI"@.len()); }
    assert("XLS"@ != "CBZ"@) by { assert("XLS"@[0] != "CBZ"@[0]); }
    assert("XLS"@ != "FB2"@) by { assert("XLS"@[0] != "FB2"@[0]); }
    assert("XLS"@ != "BMP"@) by { assert("XLS"@[0] != "BMP"@[0]); }
    assert("XLS"@ != "PNM"@) by { assert("XLS"@[0] != "PNM"@[0]); }
    assert("XLS"@ != "PNG"@) by { assert("XLS"@[0] != "PNG"@[0]); }
    assert("XLS"@ != "JPEG"@) by { assert("XLS"@.len() != "JPEG"@.len()); }
    assert("XLS"@ != "GIF"@) by { assert("XLS"@[0] != "GIF"@[0]); }
    assert("XLS"@ != "TIFF"@) by { assert("XLS"@.len() != "TIFF"@.len()); }
    assert("XLS"@ != "JPG"@) by { assert("XLS"@[0] != "JPG"@[0]); }
    assert("XLSX"@ != "PDF"@) by { assert("XLSX"@.len() != "PDF"@.len()); }
    assert("XLSX"@ != "EPUB"@) by { assert("XLSX"@[0] != "EPUB"@[0]); }
    assert("XLSX"@ != "MOBI"@) by { assert("XLSX"@[0] != "MOBI"@[0]); }
    assert("XLSX"@ != "CBZ"@) by { assert("XLSX"@.len() != "CBZ"@.len()); }
    assert("XLSX"@ != "FB2"@) by { assert("XLSX"@.len() != "FB2"@.len()); }
    assert("XLSX"@ != "BMP"@) by { assert("XLSX"@.len() != "BMP"@.len()); }
    assert("XLSX"@ != "PNM"@) by { assert("XLSX"@.len() != "PNM"@.len()); }
    assert("XLSX"@ != "PNG"@) by { assert("XLSX"@.len() != "PNG"@.len()); }
    assert("XLSX"@ != "JPEG"@) by { assert("XLSX"@[0] != "JPEG"@[0]); }
    assert("XLSX"@ != "GIF"@) by { assert("XLSX"@.len() != "GIF"@.len()); }
    assert("XLSX"@ != "TIFF"@) by { assert("XLSX"@[0] != "TIFF"@[0]); }
    assert("XLSX"@ != "JPG"@) by { assert("XLSX"@.len() != "JPG"@.len()); }
}

/// No office format is named like the PDF format or an image format, so
/// each of them reaches the office processor.
proof fn lemma_office_format_processor(s: Seq<char>)
    requires
        is_office_format(s),
    ensures
        processor_spec(s, true) == Some(ProcessorPlan::Office(lowercase(s))),
        processor_spec(s, false) == Some(ProcessorPlan::Office(lowercase(s))),
{
    lemma_office_names_are_not_pdf_or_images_a();
    lemma_office_names_are_not_pdf_or_images_b();
}

proof fn lemma_dot_suffix(e: Seq<char>, y: Seq<char>)
    requires
        forall|k: int| 0 <= k < e.len() ==> e[k] != '.',
    ensures
        ends_with(seq!['.'] + e, seq!['.'] + y) <==> e == y,
{
    let p = seq!['.'] + e;
    let x = seq!['.'] + y;
    if ends_with(p, x) {
        let sub = p.subrange(p.len() - x.len(), p.len() as int);
        assert(sub[0] == '.');
        if x.len() < p.len() {
            assert(sub[0] == p[p.len() - x.len()]);
            assert(p[p.len() - x.len()] == e[p.len() - x.len() - 1]);
        }
        assert(x.len() == p.len());
        assert(sub =~= p);
        assert forall|k: int| 0 <= k < e.len() implies e[k] == y[k] by {
            assert(p[k + 1] == x[k + 1]);
        }
        assert(e =~= y);
    }
    if e == y {
        assert(p.subrange(p.len() - x.len(), p.len() as int) =~= x);
    }
}

proof fn lemma_filter_of_extension(e: Seq<char>)
    requires
        e == "docx"@ || e == "docm"@ || e == "doc"@ || e == "odt"@
            || e == "xlsx"@ || e == "xls"@ || e == "ods"@
            || e == "pptx"@ || e == "ppt"@ || e == "odp"@ || e == "odg"@,
    ensures
        (e == "docx"@ || e == "docm"@ || e == "doc"@ || e == "odt"@) ==> office_filter_spec("."@ + e) == "writer_pdf_Export"@,
        (e == "xlsx"@ || e == "xls"@ || e == "ods"@) ==> office_filter_spec("."@ + e) == "calc_pdf_Export"@,
        (e == "pptx"@ || e == "ppt"@ || e == "odp"@ || e == "odg"@) ==> office_filter_spec("."@ + e) == "impress_pdf_Export"@,
{
    reveal_strlit(".");
    reveal_strlit("docx"); reveal_strlit("docm"); reveal_strlit("doc"); reveal_strlit("odt");
    reveal_strlit("xlsx"); reveal_strlit("xls"); reveal_strlit("ods");
    reveal_strlit("pptx"); reveal_strlit("ppt"); reveal_strlit("odp"); reveal_strlit("odg");
    reveal_strlit(".pptx"); reveal_strlit(".ppt"); reveal_strlit(".odp"); reveal_strlit(".odg");
    reveal_strlit(".xlsx"); reveal_strlit(".xls"); reveal_strlit(".ods");
    assert("."@ =~= seq!['.']);
    assert(".pptx"@ =~= seq!['.'] + "pptx"@);
    assert(".ppt"@ =~= seq!['.'] + "ppt"@);
    assert(".odp"@ =~= seq!['.'] + "odp"@);
    assert(".odg"@ =~= seq!['.'] + "odg"@);
    assert(".xlsx"@ =~= seq!['.'] + "xlsx"@);
    assert(".xls"@ =~= seq!['.'] + "xls"@);
    assert(".ods"@ =~= seq!['.'] + "ods"@);
    assert("docx"@ != "docm"@) by { assert("docx"@[3] != "docm"@[3]); }
    assert("docx"@ != "xlsx"@) by { assert("docx"@[0] != "xlsx"@[0]); }
    assert("docx"@ != "pptx"@) by { assert("docx"@[0] != "pptx"@[0]); }
    assert("docm"@ != "xlsx"@) by { assert("docm"@[0] != "xlsx"@[0]); }
    assert("docm"@ != "pptx"@) by { assert("docm"@[0] != "pptx"@[0]); }
    assert("xlsx"@ != "pptx"@) by { assert("xlsx"@[0] != "pptx"@[0]); }
    assert("doc"@ != "odt"@) by { assert("doc"@[0] != "odt"@[0]); }
    assert("doc"@ != "xls"@) by { assert("doc"@[0] != "xls"@[0]); }
    assert("doc"@ != "ods"@) by { assert("doc"@[0] != "ods"@[0]); }
    assert("doc"@ != "ppt"@) by { assert("doc"@[0] != "ppt"@[0]); }
    assert("doc"@ != "odp"@) by { assert("doc"@[0] != "odp"@[0]); }
    assert("doc"@ != "odg"@) by { assert("doc"@[0] != "odg"@[0]); }
    assert("odt"@ != "xls"@) by { assert("odt"@[0] != "xls"@[0]); }
    assert("odt"@ != "ods"@) by { assert("odt"@[2] != "ods"@[2]); }
    assert("odt"@ != "ppt"@) by { assert("odt"@[0] != "ppt"@[0]); }
    assert("odt"@ != "odp"@) by { assert("odt"@[2] != "odp"@[2]); }
    assert("odt"@ != "odg"@) by { assert("odt"@[2] != "odg"@[2]); }
    assert("xls"@ != "ods"@) by { assert("xls"@[0] != "ods"@[0]); }
    assert("xls"@ != "ppt"@) by { assert("xls"@[0] != "ppt"@[0]); }
    assert("xls"@ != "odp"@) by { assert("xls"@[0] != "odp"@[0]); }
    assert("xls"@ != "odg"@) by { assert("xls"@[0] != "odg"@[0]); }
    assert("ods"@ != "ppt"@) by { assert("ods"@[0] != "ppt"@[0]); }
    assert("ods"@ != "odp"@) by { assert("ods"@[2] != "odp"@[2]); }
    assert("ods"@ != "odg"@) by { assert("ods"@[2] != "odg"@[2]); }
    assert("ppt"@ != "odp"@) by { assert("ppt"@[0] != "odp"@[0]); }
    assert("ppt"@ != "odg"@) by { assert("ppt"@[0] != "odg"@[0]); }
    assert("odp"@ != "odg"@) by { assert("odp"@[2] != "odg"@[2]); }
    let exts = seq!["pptx"@, "ppt"@, "odp"@, "odg"@, "xlsx"@, "xls"@, "ods"@];
    assert forall|k: int| 0 <= k < exts.len() implies (ends_with("."@ + e, seq!['.'] + #[trigger] exts[k]) <==> e == exts[k]) by {
        lemma_dot_suffix(e, exts[k]);
    }
    assert(exts[0] == "pptx"@ && exts[1] == "ppt"@ && exts[2] == "odp"@ && exts[3] == "odg"@);
    assert(exts[4] == "xlsx"@ && exts[5] == "xls"@ && exts[6] == "ods"@);
}

/// Law: every media type that the converter exports with the office suite
/// is exported with the filter of its extension's family: word-processing
/// documents with the writer filter, spreadsheets with the calc filter, and
/// presentations and drawings with the impress filter.
pub proof fn law_office_filter_matches_extension(mime: Seq<char>)
    ensures
        conversion_spec(mime) matches Some(ConversionPlan::LibreOffice(f, e)) ==> f == office_filter_spec("."@ + e),
{
    match conversion_spec(mime) {
        Some(ConversionPlan::LibreOffice(f, e)) => {
            lemma_filter_of_extension(e);
        },
        _ => {},
    }
}

/// The extension under which the converter exports `mime` with the office
/// suite, where it does.
pub open spec fn office_extension(mime: Seq<char>) -> Option<Seq<char>> {
    match conversion_spec(mime) {
        Some(ConversionPlan::LibreOffice(_, e)) => Some(e),
        _ => None,
    }
}

/// `s` with the ASCII letters `a` to `z` raised.
pub open spec fn upper_text(s: Seq<char>) -> Seq<char> {
    s.map_values(|c: char| ascii_upper_char(c))
}

/// Law: a `_rels/.rels` text that points to exactly one main part gives the
/// media type that the converter exports with that part's family: a
/// workbook as a spreadsheet (`calc_pdf_Export`, `xlsx`), a document as
/// word processing (`writer_pdf_Export`, `docx`), a presentation as a
/// presentation (`impress_pdf_Export`, `pptx`).
pub proof fn law_openxml_parts_convert_by_family(text: Seq<char>, prev: Seq<char>)
    ensures
        contains_text(text, "xl/workbook.xml"@) && !contains_text(text, "ppt/presentation.xml"@) && !contains_text(text, "word/document.xml"@)
            ==> conversion_spec(openxml_kind(text, prev)) == Some(ConversionPlan::LibreOffice("calc_pdf_Export"@, "xlsx"@)),
        contains_text(text, "word/document.xml"@) && !contains_text(text, "ppt/presentation.xml"@)
            ==> conversion_spec(openxml_kind(text, prev)) == Some(ConversionPlan::LibreOffice("writer_pdf_Export"@, "docx"@)),
        contains_text(text, "ppt/presentation.xml"@)
            ==> conversion_spec(openxml_kind(text, prev)) == Some(ConversionPlan::LibreOffice("impress_pdf_Export"@, "pptx"@)),
{
    let sheet = "application/vnd.openxmlformats-officedocument.spreadsheetml.sheet"@;
    let word = "application/vnd.openxmlformats-officedocument.wordprocessingml.document"@;
    if contains_text(text, "xl/workbook.xml"@) && !contains_text(text, "ppt/presentation.xml"@) && !contains_text(text, "word/document.xml"@) {
        assert(openxml_kind(text, prev) == sheet);
    }
    if contains_text(text, "word/document.xml"@) && !contains_text(text, "ppt/presentation.xml"@) {
        assert(openxml_kind(text, prev) == word);
    }
    if contains_text(text, "ppt/presentation.xml"@) {
        assert(openxml_kind(text, prev) == "application/vnd.openxmlformats-officedocument.presentationml.presentation"@);
    }
    reveal_strlit("application/pdf");
    reveal_strlit("application/vnd.openxmlformats-officedocument.wordprocessingml.document");
    reveal_strlit("application/vnd.ms-word.document.macroEnabled.12");
    reveal_strlit("application/vnd.openxmlformats-officedocument.spreadsheetml.sheet");
    reveal_strlit("application/vnd.openxmlformats-officedocument.presentationml.presentation");
    reveal_strlit("application/msword");
    reveal_strlit("application/vnd.ms-excel");
    reveal_strlit("application/vnd.ms-powerpoint");
    reveal_strlit("application/vnd.oasis.opendocument.text");
    reveal_strlit("application/vnd.oasis.opendocument.graphics");
    reveal_strlit("application/vnd.oasis.opendocument.presentation");
    reveal_strlit("application/vnd.oasis.opendocument.spreadsheet");
    reveal_strlit("image/jpeg");
    reveal_strlit("image/gif");
    reveal_strlit("image/png");
    reveal_strlit("image/tiff");
    reveal_strlit("image/x-tiff");
    assert("image/jpeg"@ != "image/tiff"@) by { assert("image/jpeg"@[6] != "image/tiff"@[6]); }
    assert("image/gif"@ != "image/png"@) by { assert("image/gif"@[6] != "image/png"@[6]); }
}

/// Law: the three Office Open XML families are told apart: `_rels/.rels`
/// texts that point only to a workbook, only to a document, or to a
/// presentation give three different media types.
pub proof fn law_openxml_families_distinct(sheet: Seq<char>, doc: Seq<char>, pres: Seq<char>, p1: Seq<char>, p2: Seq<char>, p3: Seq<char>)
    requires
        contains_text(sheet, "xl/workbook.xml"@) && !contains_text(sheet, "ppt/presentation.xml"@) && !contains_text(sheet, "word/document.xml"@),
        contains_text(doc, "word/document.xml"@) && !contains_text(doc, "ppt/presentation.xml"@),
        contains_text(pres, "ppt/presentation.xml"@),
    ensures
        openxml_kind(sheet, p1) != openxml_kind(doc, p2),
        openxml_kind(sheet, p1) != openxml_kind(pres, p3),
        openxml_kind(doc, p2) != openxml_kind(pres, p3),
{
    law_openxml_parts_convert_by_family(sheet, p1);
    law_openxml_parts_convert_by_family(doc, p2);
    law_openxml_parts_convert_by_family(pres, p3);
    reveal_strlit("xlsx"); reveal_strlit("docx"); reveal_strlit("pptx");
    assert("xlsx"@ != "docx"@) by { assert("xlsx"@[0] != "docx"@[0]); }
    assert("xlsx"@ != "pptx"@) by { assert("xlsx"@[0] != "pptx"@[0]); }
    assert("docx"@ != "pptx"@) by { assert("docx"@[0] != "pptx"@[0]); }
}

/// Law: a zip container whose entries are `[Content_Types].xml` and a
/// `_rels/.rels` pointing only to a workbook is detected as a spreadsheet,
/// which the converter exports as one.
pub proof fn law_spreadsheet_container_is_a_spreadsheet(types_text: Option<Seq<char>>, rels: Seq<char>)
    requires
        contains_text(rels, "xl/workbook.xml"@) && !contains_text(rels, "ppt/presentation.xml"@) && !contains_text(rels, "word/document.xml"@),
    ensures
        office_probe(relevant_entries(seq![(Some("[Content_Types].xml"@), types_text), (Some("_rels/.rels"@), Some(rels))]), 0, 0, 0, ""@, ""@, true)
            == Ok::<Option<Seq<char>>, ()>(Some("application/vnd.openxmlformats-officedocument.spreadsheetml.sheet"@)),
        conversion_spec("application/vnd.openxmlformats-officedocument.spreadsheetml.sheet"@)
            == Some(ConversionPlan::LibreOffice("calc_pdf_Export"@, "xlsx"@)),
{
    reveal_strlit("[Content_Types].xml"); reveal_strlit("_rels/.rels"); reveal_strlit("mimetype"); reveal_strlit("content.xml");
    let raw = seq![(Some("[Content_Types].xml"@), types_text), (Some("_rels/.rels"@), Some(rels))];
    let es = relevant_entries(raw);
    assert(raw.len() == 2 && es.len() == 2);
    assert(raw[0] == (Some("[Content_Types].xml"@), types_text));
    assert(raw[1] == (Some("_rels/.rels"@), Some(rels)));
    assert("[Content_Types].xml"@.len() == 19);
    assert("mimetype"@.len() == 8);
    assert("_rels/.rels"@.len() == 11);
    assert(!is_deciding_name("[Content_Types].xml"@));
    assert(is_deciding_name("_rels/.rels"@));
    assert(es[0] == (Some("[Content_Types].xml"@), None::<Seq<char>>));
    assert(es[1] == (Some("_rels/.rels"@), Some(rels)));
    assert("_rels/.rels"@ != "content.xml"@) by { assert("_rels/.rels"@[0] != "content.xml"@[0]); }
    assert(office_probe(es, 1, 0, 1, ""@, ""@, true) == Ok::<Option<Seq<char>>, ()>(Some(openxml_kind(rels, ""@))));
    law_openxml_parts_convert_by_family(rels, ""@);
    reveal_strlit("application/pdf");
    reveal_strlit("application/vnd.openxmlformats-officedocument.wordprocessingml.document");
    reveal_strlit("application/vnd.ms-word.document.macroEnabled.12");
    reveal_strlit("application/vnd.openxmlformats-officedocument.spreadsheetml.sheet");
    reveal_strlit("application/vnd.openxmlformats-officedocument.presentationml.presentation");
    reveal_strlit("application/msword");
    reveal_strlit("application/vnd.ms-excel");
    reveal_strlit("application/vnd.ms-powerpoint");
    reveal_strlit("application/vnd.oasis.opendocument.text");
    reveal_strlit("application/vnd.oasis.opendocument.graphics");
    reveal_strlit("application/vnd.oasis.opendocument.presentation");
    reveal_strlit("application/vnd.oasis.opendocument.spreadsheet");
    reveal_strlit("image/jpeg");
    reveal_strlit("image/gif");
    reveal_strlit("image/png");
    reveal_strlit("image/tiff");
    reveal_strlit("image/x-tiff");
    assert("image/jpeg"@ != "image/tiff"@) by { assert("image/jpeg"@[6] != "image/tiff"@[6]); }
    assert("image/gif"@ != "image/png"@) by { assert("image/gif"@[6] != "image/png"@[6]); }
}

/// The office rows of the conversion table, one by one.
proof fn lemma_office_rows()
    ensures
        conversion_spec("application/vnd.openxmlformats-officedocument.wordprocessingml.document"@) == Some(ConversionPlan::LibreOffice("writer_pdf_Export"@, "docx"@)),
        conversion_spec("application/vnd.ms-word.document.macroEnabled.12"@) == Some(ConversionPlan::LibreOffice("writer_pdf_Export"@, "docm"@)),
        conversion_spec("application/vnd.openxmlformats-officedocument.spreadsheetml.sheet"@) == Some(ConversionPlan::LibreOffice("calc_pdf_Export"@, "xlsx"@)),
        conversion_spec("application/vnd.openxmlformats-officedocument.presentationml.presentation"@) == Some(ConversionPlan::LibreOffice("impress_pdf_Export"@, "pptx"@)),
        conversion_spec("application/msword"@) == Some(ConversionPlan::LibreOffice("writer_pdf_Export"@, "doc"@)),
        conversion_spec("application/vnd.ms-excel"@) == Some(ConversionPlan::LibreOffice("calc_pdf_Export"@, "xls"@)),
        conversion_spec("application/vnd.ms-powerpoint"@) == Some(ConversionPlan::LibreOffice("impress_pdf_Export"@, "ppt"@)),
        conversion_spec("application/vnd.oasis.opendocument.text"@) == Some(ConversionPlan::LibreOffice("writer_pdf_Export"@, "odt"@)),
        conversion_spec("application/vnd.oasis.opendocument.graphics"@) == Some(ConversionPlan::LibreOffice("impress_pdf_Export"@, "odg"@)),
        conversion_spec("application/vnd.oasis.opendocument.presentation"@) == Some(ConversionPlan::LibreOffice("impress_pdf_Export"@, "odp"@)),
        conversion_spec("application/vnd.oasis.opendocument.spreadsheet"@) == Some(ConversionPlan::LibreOffice("calc_pdf_Export"@, "ods"@)),
{
    reveal_strlit("application/pdf");
    reveal_strlit("application/vnd.openxmlformats-officedocument.wordprocessingml.document");
    reveal_strlit("application/vnd.ms-word.document.macroEnabled.12");
    reveal_strlit("application/vnd.openxmlformats-officedocument.spreadsheetml.sheet");
    reveal_strlit("application/vnd.openxmlformats-officedocument.presentationml.presentation");
    reveal_strlit("application/msword");
    reveal_strlit("application/vnd.ms-excel");
    reveal_strlit("application/vnd.ms-powerpoint");
    reveal_strlit("application/vnd.oasis.opendocument.text");
    reveal_strlit("application/vnd.oasis.opendocument.graphics");
    reveal_strlit("application/vnd.oasis.opendocument.presentation");
    reveal_strlit("application/vnd.oasis.opendocument.spreadsheet");
    assert("application/vnd.openxmlformats-officedocument.wordprocessingml.document"@ != "application/pdf"@) by { assert("application/vnd.openxmlformats-officedocument.wordprocessingml.document"@.len() != "application/pdf"@.len()); }
    assert("application/vnd.ms-word.document.macroEnabled.12"@ != "application/pdf"@) by { assert("application/vnd.ms-word.document.macroEnabled.12"@.len() != "application/pdf"@.len()); }
    assert("application/vnd.ms-word.document.macroEnabled.12"@ != "application/vnd.openxmlformats-officedocument.wordprocessingml.document"@) by { assert("application/vnd.ms-word.document.macroEnabled.12"@.len() != "application/vnd.openxmlformats-officedocument.wordprocessingml.document"@.len()); }
    assert("application/vnd.openxmlformats-officedocument.spreadsheetml.sheet"@ != "application/pdf"@) by { assert("application/vnd.openxmlformats-officedocument.spreadsheetml.sheet"@.len() != "application/pdf"@.len()); }
    assert("application/vnd.openxmlformats-officedocument.spreadsheetml.sheet"@ != "application/vnd.openxmlformats-officedocument.wordprocessingml.document"@) by { assert("application/vnd.openxmlformats-officedocument.spreadsheetml.sheet"@.len() != "application/vnd.openxmlformats-officedocument.wordprocessingml.document"@.len()); }
    assert("application/vnd.openxmlformats-officedocument.spreadsheetml.sheet"@ != "application/vnd.ms-word.document.macroEnabled.12"@) by { assert("application/vnd.openxmlformats-officedocument.spreadsheetml.sheet"@.len() != "application/vnd.ms-word.document.macroEnabled.12"@.len()); }
    assert("application/vnd.openxmlformats-officedocument.presentationml.presentation"@ != "application/pdf"@) by { assert("application/vnd.openxmlformats-officedocument.presentationml.presentation"@.len() != "application/pdf"@.len()); }
    assert("application/vnd.openxmlformats-officedocument.presentationml.presentation"@ != "application/vnd.openxmlformats-officedocument.wordprocessingml.document"@) by { assert("application/vnd.openxmlformats-officedocument.presentationml.presentation"@.len() != "application/vnd.openxmlformats-officedocument.wordprocessingml.document"@.len()); }
    assert("application/vnd.openxmlformats-officedocument.presentationml.presentation"@ != "application/vnd.ms-word.document.macroEnabled.12"@) by { assert("application/vnd.openxmlformats-officedocument.presentationml.presentation"@.len() != "application/vnd.ms-word.document.macroEnabled.12"@.len()); }
    assert("application/vnd.openxmlformats-officedocument.presentationml.presentation"@ != "application/vnd.openxmlformats-officedocument.spreadsheetml.sheet"@) by { assert("application/vnd.openxmlformats-officedocument.presentationml.presentation"@.len() != "application/vnd.openxmlformats-officedocument.spreadsheetml.sheet"@.len()); }
    assert("application/msword"@ != "application/pdf"@) by { assert("application/msword"@.len() != "application/pdf"@.len()); }
    assert("application/msword"@ != "application/vnd.openxmlformats-officedocument.wordprocessingml.document"@) by { assert("application/msword"@.len() != "application/vnd.openxmlformats-officedocument.wordprocessingml.document"@.len()); }
    assert("application/msword"@ != "application/vnd.ms-word.document.macroEnabled.12"@) by { assert("application/msword"@.len() != "application/vnd.ms-word.document.macroEnabled.12"@.len()); }
    assert("application/msword"@ != "application/vnd.openxmlformats-officedocument.spreadsheetml.sheet"@) by { assert("application/msword"@.len() != "application/vnd.openxmlformats-officedocument.spreadsheetml.sheet"@.len()); }
    assert("application/msword"@ != "application/vnd.openxmlformats-officedocument.presentationml.presentation"@) by { assert("application/msword"@.len() != "application/vnd.openxmlformats-officedocument.presentationml.presentation"@.len()); }
    assert("application/vnd.ms-excel"@ != "application/pdf"@) by { assert("application/vnd.ms-excel"@.len() != "application/pdf"@.len()); }
    assert("application/vnd.ms-excel"@ != "application/vnd.openxmlformats-officedocument.wordprocessingml.document"@) by { assert("application/vnd.ms-excel"@.len() != "application/vnd.openxmlformats-officedocument.wordprocessingml.document"@.len()); }
    assert("application/vnd.ms-excel"@ != "application/vnd.ms-word.document.macroEnabled.12"@) by { assert("application/vnd.ms-excel"@.len() != "application/vnd.ms-word.document.macroEnabled.12"@.len()); }
    assert("application/vnd.ms-excel"@ != "application/vnd.openxmlformats-officedocument.spreadsheetml.sheet"@) by { assert("application/vnd.ms-excel"@.len() != "application/vnd.openxmlformats-officedocument.spreadsheetml.sheet"@.len()); }
    assert("application/vnd.ms-excel"@ != "application/vnd.openxmlformats-officedocument.presentationml.presentation"@) by { assert("application/vnd.ms-excel"@.len() != "application/vnd.openxmlformats-officedocument.presentationml.presentation"@.len()); }
    assert("application/vnd.ms-excel"@ != "application/msword"@) by { assert("application/vnd.ms-excel"@.len() != "application/msword"@.len()); }
    assert("application/vnd.ms-powerpoint"@ != "application/pdf"@) by { assert("application/vnd.ms-powerpoint"@.len() != "application/pdf"@.len()); }
    assert("application/vnd.ms-powerpoint"@ != "application/vnd.openxmlformats-officedocument.wordprocessingml.document"@) by { assert("application/vnd.ms-powerpoint"@.len() != "application/vnd.openxmlformats-officedocument.wordprocessingml.document"@.len()); }
    assert("application/vnd.ms-powerpoint"@ != "application/vnd.ms-word.document.macroEnabled.12"@) by { assert("application/vnd.ms-powerpoint"@.len() != "application/vnd.ms-word.document.macroEnabled.12"@.len()); }
    assert("application/vnd.ms-powerpoint"@ != "application/vnd.openxmlformats-officedocument.spreadsheetml.sheet"@) by { assert("application/vnd.ms-powerpoint"@.len() != "application/vnd.openxmlformats-officedocument.spreadsheetml.sheet"@.len()); }
    assert("application/vnd.ms-powerpoint"@ != "application/vnd.openxmlformats-officedocument.presentationml.presentation"@) by { assert("application/vnd.ms-powerpoint"@.len() != "application/vnd.openxmlformats-officedocument.presentationml.presentation"@.len()); }
    assert("application/vnd.ms-powerpoint"@ != "application/msword"@) by { assert("application/vnd.ms-powerpoint"@.len() != "application/msword"@.len()); }
    assert("application/vnd.ms-powerpoint"@ != "application/vnd.ms-excel"@) by { assert("application/vnd.ms-powerpoint"@.len() != "application/vnd.ms-excel"@.len()); }
    assert("application/vnd.oasis.opendocument.text"@ != "application/pdf"@) by { assert("application/vnd.oasis.opendocument.text"@.len() != "application/pdf"@.len()); }
    assert("application/vnd.oasis.opendocument.text"@ != "application/vnd.openxmlformats-officedocument.wordprocessingml.document"@) by { assert("application/vnd.oasis.opendocument.text"@.len() != "application/vnd.openxmlformats-officedocument.wordprocessingml.document"@.len()); }
    assert("application/vnd.oasis.opendocument.text"@ != "application/vnd.ms-word.document.macroEnabled.12"@) by { assert("application/vnd.oasis.opendocument.text"@.len() != "application/vnd.ms-word.document.macroEnabled.12"@.len()); }
    assert("application/vnd.oasis.opendocument.text"@ != "application/vnd.openxmlformats-officedocument.spreadsheetml.sheet"@) by { assert("application/vnd.oasis.opendocument.text"@.len() != "application/vnd.openxmlformats-officedocument.spreadsheetml.sheet"@.len()); }
    assert("application/vnd.oasis.opendocument.text"@ != "application/vnd.openxmlformats-officedocument.presentationml.presentation"@) by { assert("application/vnd.oasis.opendocument.text"@.len() != "application/vnd.openxmlformats-officedocument.presentationml.presentation"@.len()); }
    assert("application/vnd.oasis.opendocument.text"@ != "application/msword"@) by { assert("application/vnd.oasis.opendocument.text"@.len() != "application/msword"@.len()); }
    assert("application/vnd.oasis.opendocument.text"@ != "application/vnd.ms-excel"@) by { assert("application/vnd.oasis.opendocument.text"@.len() != "application/vnd.ms-excel"@.len()); }
    assert("application/vnd.oasis.opendocument.text"@ != "application/vnd.ms-powerpoint"@) by { assert("application/vnd.oasis.opendocument.text"@.len() != "application/vnd.ms-powerpoint"@.len()); }
    assert("application/vnd.oasis.opendocument.graphics"@ != "application/pdf"@) by { assert("application/vnd.oasis.opendocument.graphics"@.len() != "application/pdf"@.len()); }
    assert("application/vnd.oasis.opendocument.graphics"@ != "application/vnd.openxmlformats-officedocument.wordprocessingml.document"@) by { assert("application/vnd.oasis.opendocument.graphics"@.len() != "application/vnd.openxmlformats-officedocument.wordprocessingml.document"@.len()); }
    assert("application/vnd.oasis.opendocument.graphics"@ != "application/vnd.ms-word.document.macroEnabled.12"@) by { assert("application/vnd.oasis.opendocument.graphics"@.len() != "application/vnd.ms-word.document.macroEnabled.12"@.len()); }
    assert("application/vnd.oasis.opendocument.graphics"@ != "application/vnd.openxmlformats-officedocument.spreadsheetml.sheet"@) by { assert("application/vnd.oasis.opendocument.graphics"@.len() != "application/vnd.openxmlformats-officedocument.spreadsheetml.sheet"@.len()); }
    assert("application/vnd.oasis.opendocument.graphics"@ != "application/vnd.openxmlformats-officedocument.presentationml.presentation"@) by { assert("application/vnd.oasis.opendocument.graphics"@.len() != "application/vnd.openxmlformats-officedocument.presentationml.presentation"@.len()); }
    assert("application/vnd.oasis.opendocument.graphics"@ != "application/msword"@) by { assert("application/vnd.oasis.opendocument.graphics"@.len() != "application/msword"@.len()); }
    assert("application/vnd.oasis.opendocument.graphics"@ != "application/vnd.ms-excel"@) by { assert("application/vnd.oasis.opendocument.graphics"@.len() != "application/vnd.ms-excel"@.len()); }
    assert("application/vnd.oasis.opendocument.graphics"@ != "application/vnd.ms-powerpoint"@) by { assert("application/vnd.oasis.opendocument.graphics"@.len() != "application/vnd.ms-powerpoint"@.len()); }
    assert("application/vnd.oasis.opendocument.graphics"@ != "application/vnd.oasis.opendocument.text"@) by { assert("application/vnd.oasis.opendocument.graphics"@.len() != "application/vnd.oasis.opendocument.text"@.len()); }
    assert("application/vnd.oasis.opendocument.presentation"@ != "application/pdf"@) by { assert("application/vnd.oasis.opendocument.presentation"@.len() != "application/pdf"@.len()); }
    assert("application/vnd.oasis.opendocument.presentation"@ != "application/vnd.openxmlformats-officedocument.wordprocessingml.document"@) by { assert("application/vnd.oasis.opendocument.presentation"@.len() != "application/vnd.openxmlformats-officedocument.wordprocessingml.document"@.len()); }
    assert("application/vnd.oasis.opendocument.presentation"@ != "application/vnd.ms-word.document.macroEnabled.12"@) by { assert("application/vnd.oasis.opendocument.presentation"@.len() != "application/vnd.ms-word.document.macroEnabled.12"@.len()); }
    assert("application/vnd.oasis.opendocument.presentation"@ != "application/vnd.openxmlformats-officedocument.spreadsheetml.sheet"@) by { assert("application/vnd.oasis.opendocument.presentation"@.len() != "application/vnd.openxmlformats-officedocument.spreadsheetml.sheet"@.len()); }
    assert("application/vnd.oasis.opendocument.presentation"@ != "application/vnd.openxmlformats-officedocument.presentationml.presentation"@) by { assert("application/vnd.oasis.opendocument.presentation"@.len() != "application/vnd.openxmlformats-officedocument.presentationml.presentation"@.len()); }
    assert("application/vnd.oasis.opendocument.presentation"@ != "application/msword"@) by { assert("application/vnd.oasis.opendocument.presentation"@.len() != "application/msword"@.len()); }
    assert("application/vnd.oasis.opendocument.presentation"@ != "application/vnd.ms-excel"@) by { assert("application/vnd.oasis.opendocument.presentation"@.len() != "application/vnd.ms-excel"@.len()); }
    assert("application/vnd.oasis.opendocument.presentation"@ != "application/vnd.ms-powerpoint"@) by { assert("application/vnd.oasis.opendocument.presentation"@.len() != "application/vnd.ms-powerpoint"@.len()); }
    assert("application/vnd.oasis.opendocument.presentation"@ != "application/vnd.oasis.opendocument.text"@) by { assert("application/vnd.oasis.opendocument.presentation"@.len() != "application/vnd.oasis.opendocument.text"@.len()); }
    assert("application/vnd.oasis.opendocument.presentation"@ != "application/vnd.oasis.opendocument.graphics"@) by { assert("application/vnd.oasis.opendocument.presentation"@.len() != "application/vnd.oasis.opendocument.graphics"@.len()); }
    assert("application/vnd.oasis.opendocument.spreadsheet"@ != "application/pdf"@) by { assert("application/vnd.oasis.opendocument.spreadsheet"@.len() != "application/pdf"@.len()); }
    assert("application/vnd.oasis.opendocument.spreadsheet"@ != "application/vnd.openxmlformats-officedocument.wordprocessingml.document"@) by { assert("application/vnd.oasis.opendocument.spreadsheet"@.len() != "application/vnd.openxmlformats-officedocument.wordprocessingml.document"@.len()); }
    assert("application/vnd.oasis.opendocument.spreadsheet"@ != "application/vnd.ms-word.document.macroEnabled.12"@) by { assert("application/vnd.oasis.opendocument.spreadsheet"@.len() != "application/vnd.ms-word.document.macroEnabled.12"@.len()); }
    assert("application/vnd.oasis.opendocument.spreadsheet"@ != "application/vnd.openxmlformats-officedocument.spreadsheetml.sheet"@) by { assert("application/vnd.oasis.opendocument.spreadsheet"@.len() != "application/vnd.openxmlformats-officedocument.spreadsheetml.sheet"@.len()); }
    assert("application/vnd.oasis.opendocument.spreadsheet"@ != "application/vnd.openxmlformats-officedocument.presentationml.presentation"@) by { assert("application/vnd.oasis.opendocument.spreadsheet"@.len() != "application/vnd.openxmlformats-officedocument.presentationml.presentation"@.len()); }
    assert("application/vnd.oasis.opendocument.spreadsheet"@ != "application/msword"@) by { assert("application/vnd.oasis.opendocument.spreadsheet"@.len() != "application/msword"@.len()); }
    assert("application/vnd.oasis.opendocument.spreadsheet"@ != "application/vnd.ms-excel"@) by { assert("application/vnd.oasis.opendocument.spreadsheet"@.len() != "application/vnd.ms-excel"@.len()); }
    assert("application/vnd.oasis.opendocument.spreadsheet"@ != "application/vnd.ms-powerpoint"@) by { assert("application/vnd.oasis.opendocument.spreadsheet"@.len() != "application/vnd.ms-powerpoint"@.len()); }
    assert("application/vnd.oasis.opendocument.spreadsheet"@ != "application/vnd.oasis.opendocument.text"@) by { assert("application/vnd.oasis.opendocument.spreadsheet"@.len() != "application/vnd.oasis.opendocument.text"@.len()); }
    assert("application/vnd.oasis.opendocument.spreadsheet"@ != "application/vnd.oasis.opendocument.graphics"@) by { assert("application/vnd.oasis.opendocument.spreadsheet"@.len() != "application/vnd.oasis.opendocument.graphics"@.len()); }
    assert("application/vnd.oasis.opendocument.spreadsheet"@ != "application/vnd.oasis.opendocument.presentation"@) by { assert("application/vnd.oasis.opendocument.spreadsheet"@.len() != "application/vnd.oasis.opendocument.presentation"@.len()); }
}

proof fn lemma_office_extension_processor(e: Seq<char>)
    requires
        e == "docx"@ || e == "xlsx"@ || e == "pptx"@ || e == "doc"@ || e == "xls"@ || e == "ppt"@ || e == "odt"@ || e == "odg"@ || e == "odp"@ || e == "ods"@,
    ensures
        is_office_format(upper_text(e)),
        processor_spec(upper_text(e), true) == Some(ProcessorPlan::Office(lowercase(upper_text(e)))),
        processor_spec(upper_text(e), false) == Some(ProcessorPlan::Office(lowercase(upper_text(e)))),
{
    if e == "docx"@ {
        reveal_strlit("docx");
        reveal_strlit("DOCX");
        assert(upper_text(e) =~= "DOCX"@);
        lemma_office_format_processor("DOCX"@);
    }
    if e == "xlsx"@ {
        reveal_strlit("xlsx");
        reveal_strlit("XLSX");
        assert(upper_text(e) =~= "XLSX"@);
        lemma_office_format_processor("XLSX"@);
    }
    if e == "pptx"@ {
        reveal_strlit("pptx");
        reveal_strlit("PPTX");
        assert(upper_text(e) =~= "PPTX"@);
        lemma_office_format_processor("PPTX"@);
    }
    if e == "doc"@ {
        reveal_strlit("doc");
        reveal_strlit("DOC");
        assert(upper_text(e) =~= "DOC"@);
        lemma_office_format_processor("DOC"@);
    }
    if e == "xls"@ {
        reveal_strlit("xls");
        reveal_strlit("XLS");
        assert(upper_text(e) =~= "XLS"@);
        lemma_office_format_processor("XLS"@);
    }
    if e == "ppt"@ {
        reveal_strlit("ppt");
        reveal_strlit("PPT");
        assert(upper_text(e) =~= "PPT"@);
        lemma_office_format_processor("PPT"@);
    }
    if e == "odt"@ {
        reveal_strlit("odt");
        reveal_strlit("ODT");
        assert(upper_text(e) =~= "ODT"@);
        lemma_office_format_processor("ODT"@);
    }
    if e == "odg"@ {
        reveal_strlit("odg");
        reveal_strlit("ODG");
        assert(upper_text(e) =~= "ODG"@);
        lemma_office_format_processor("ODG"@);
    }
    if e == "odp"@ {
        reveal_strlit("odp");
        reveal_strlit("ODP");
        assert(upper_text(e) =~= "ODP"@);
        lemma_office_format_processor("ODP"@);
    }
    if e == "ods"@ {
        reveal_strlit("ods");
        reveal_strlit("ODS");
        assert(upper_text(e) =~= "ODS"@);
        lemma_office_format_processor("ODS"@);
    }
}

/// Law: every media type that the converter exports with the office suite,
/// but for the macro-enabled Word type that only the container tool reads,
/// has an office format whose name is its extension in capitals, which both
/// the desktop application and the container tool hand to the office
/// processor.
pub proof fn law_converted_office_types_have_a_processor(mime: Seq<char>)
    ensures
        match conversion_spec(mime) {
            Some(ConversionPlan::LibreOffice(_, e)) => e != "docm"@ ==> is_office_format(upper_text(e))
                && processor_spec(upper_text(e), true) == Some(ProcessorPlan::Office(lowercase(upper_text(e))))
                && processor_spec(upper_text(e), false) == Some(ProcessorPlan::Office(lowercase(upper_text(e)))),
            _ => true,
        },
{
    match conversion_spec(mime) {
        Some(ConversionPlan::LibreOffice(_, e)) => {
            if e != "docm"@ {
                lemma_office_extension_processor(e);
            }
        },
        _ => {},
    }
}

/// Law: every office format but RTF (which the desktop application reads
/// through its format detection only) is the extension, in capitals, of a
/// media type that the converter exports with the office suite.
pub proof fn law_office_formats_are_converted_types(s: Seq<char>)
    ensures
        is_office_format(s) && s != "RTF"@ ==> exists|m: Seq<char>| #[trigger] office_extension(m) is Some && upper_text(office_extension(m)->0) == s,
{
    lemma_office_rows();
    if s == "DOCX"@ {
        reveal_strlit("docx");
        reveal_strlit("DOCX");
        assert(upper_text("docx"@) =~= "DOCX"@);
        assert(office_extension("application/vnd.openxmlformats-officedocument.wordprocessingml.document"@) == Some("docx"@));
    }
    if s == "XLSX"@ {
        reveal_strlit("xlsx");
        reveal_strlit("XLSX");
        assert(upper_text("xlsx"@) =~= "XLSX"@);
        assert(office_extension("application/vnd.openxmlformats-officedocument.spreadsheetml.sheet"@) == Some("xlsx"@));
    }
    if s == "PPTX"@ {
        reveal_strlit("pptx");
        reveal_strlit("PPTX");
        assert(upper_text("pptx"@) =~= "PPTX"@);
        assert(office_extension("application/vnd.openxmlformats-officedocument.presentationml.presentation"@) == Some("pptx"@));
    }
    if s == "DOC"@ {
        reveal_strlit("doc");
        reveal_strlit("DOC");
        assert(upper_text("doc"@) =~= "DOC"@);
        assert(office_extension("application/msword"@) == Some("doc"@));
    }
    if s == "XLS"@ {
        reveal_strlit("xls");
        reveal_strlit("XLS");
        assert(upper_text("xls"@) =~= "XLS"@);
        assert(office_extension("application/vnd.ms-excel"@) == Some("xls"@));
    }
    if s == "PPT"@ {
        reveal_strlit("ppt");
        reveal_strlit("PPT");
        assert(upper_text("ppt"@) =~= "PPT"@);
        assert(office_extension("application/vnd.ms-powerpoint"@) == Some("ppt"@));
    }
    if s == "ODT"@ {
        reveal_strlit("odt");
        reveal_strlit("ODT");
        assert(upper_text("odt"@) =~= "ODT"@);
        assert(office_extension("application/vnd.oasis.opendocument.text"@) == Some("odt"@));
    }
    if s == "ODG"@ {
        reveal_strlit("odg");
        reveal_strlit("ODG");
        assert(upper_text("odg"@) =~= "ODG"@);
        assert(office_extension("application/vnd.oasis.opendocument.graphics"@) == Some("odg"@));
    }
    if s == "ODP"@ {
        reveal_strlit("odp");
        reveal_strlit("ODP");
        assert(upper_text("odp"@) =~= "ODP"@);
        assert(office_extension("application/vnd.oasis.opendocument.presentation"@) == Some("odp"@));
    }
    if s == "ODS"@ {
        reveal_strlit("ods");
        reveal_strlit("ODS");
        assert(upper_text("ods"@) =~= "ODS"@);
        assert(office_extension("application/vnd.oasis.opendocument.spreadsheet"@) == Some("ods"@));
    }
}

} // verus!
