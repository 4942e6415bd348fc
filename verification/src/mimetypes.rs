//! Recognition of the input document's type from its first bytes, and of
//! office documents from what their zip or compound-file container holds.
use std::io::Cursor;
use std::io::Read;
use vstd::prelude::*;
use zip::result::ZipError;
use zip::ZipArchive;
use crate::text::{contains_text, same_text, text_contains};

verus! {

#[verifier::external_type_specification]
#[verifier::external_body]
#[verifier::reject_recursive_types(R)]
pub struct ExZipArchive<R>(ZipArchive<R>);

#[verifier::external_type_specification]
#[verifier::external_body]
#[verifier::reject_recursive_types(T)]
pub struct ExCursor<T>(Cursor<T>);

#[verifier::external_type_specification]
#[verifier::external_body]
pub struct ExZipError(ZipError);

#[verifier::external_type_specification]
#[verifier::external_body]
pub struct ExIoError(std::io::Error);

/// The entries of a zip archive read from `data`, each its name and its
/// contents read as UTF-8 text (`None` where the entry cannot be opened or
/// read), or `None` where `data` is no readable zip archive.
pub uninterp spec fn zip_listing(data: Seq<u8>) -> Option<Seq<(Option<Seq<char>>, Option<Seq<char>>)>>;

/// The entries of an open zip archive, as in `zip_listing`.
pub uninterp spec fn zip_entries(archive: ZipArchive<Cursor<Vec<u8>>>) -> Seq<(Option<Seq<char>>, Option<Seq<char>>)>;

/// The class id of the root storage of the compound file read from `data`,
/// in lower-case hyphenated form, or `None` where `data` is no readable
/// compound file.
pub uninterp spec fn compound_root_clsid(data: Seq<u8>) -> Option<Seq<char>>;

/// `zip::ZipArchive::new` over the bytes `data`: the archive, whose entries
/// are those of `zip_listing(data)`, or the error where that is `None`.
/// Reading the central directory checks every offset and size it reads
/// against the data and answers malformed archives with an error, so no
/// input is left out.
#[verifier::external_body]
fn zip_open(data: Vec<u8>) -> (r: Result<ZipArchive<Cursor<Vec<u8>>>, ZipError>)
    ensures
        match r {
            Ok(a) => zip_listing(data@) == Some(zip_entries(a)),
            Err(_) => zip_listing(data@) is None,
        },
{
    ZipArchive::new(Cursor::new(data))
}

/// `ZipArchive::len`: the number of entries.
#[verifier::external_body]
fn zip_len(archive: &ZipArchive<Cursor<Vec<u8>>>) -> (n: usize)
    ensures
        n == zip_entries(*archive).len(),
{
    archive.len()
}

/// `ZipArchive::by_index` then `ZipFile::name`: the name of entry `i`, or
/// `None` where the entry cannot be opened.
#[verifier::external_body]
fn zip_entry_name(archive: &mut ZipArchive<Cursor<Vec<u8>>>, i: usize) -> (r: Option<String>)
    requires
        i < zip_entries(*old(archive)).len(),
    ensures
        zip_entries(*final(archive)) == zip_entries(*old(archive)),
        match r {
            Some(s) => zip_entries(*old(archive))[i as int].0 == Some(s@),
            None => zip_entries(*old(archive))[i as int].0 is None,
        },
{
    match archive.by_index(i) {
        Ok(f) => Some(f.name().to_string()),
        Err(_) => None,
    }
}

/// `ZipArchive::by_index` then `Read::read_to_string`: the contents of
/// entry `i` as text, or `None` where it cannot be opened or read as UTF-8.
/// The entry's data is read through bounded readers and its decompressor,
/// which answer truncated or corrupt data with an error.
#[verifier::external_body]
fn zip_entry_text(archive: &mut ZipArchive<Cursor<Vec<u8>>>, i: usize) -> (r: Option<String>)
    requires
        i < zip_entries(*old(archive)).len(),
    ensures
        zip_entries(*final(archive)) == zip_entries(*old(archive)),
        match r {
            Some(s) => zip_entries(*old(archive))[i as int].1 == Some(s@),
            None => zip_entries(*old(archive))[i as int].1 is None,
        },
{
    match archive.by_index(i) {
        Ok(mut f) => {
            let mut text = String::new();
            match f.read_to_string(&mut text) {
                Ok(_) => Some(text),
                Err(_) => None,
            }
        },
        Err(_) => None,
    }
}

/// `cfb::CompoundFile::open` over the bytes `data`, then the class id of its
/// root entry rendered as text. Opening checks the file's length, every
/// sector index of its DIFAT, FAT and directory chains, and repeated
/// sectors, and answers each fault with an error.
#[verifier::external_body]
pub(crate) fn compound_root_clsid_text(data: Vec<u8>) -> (r: Result<String, std::io::Error>)
    ensures
        match r {
            Ok(s) => compound_root_clsid(data@) == Some(s@),
            Err(_) => compound_root_clsid(data@) is None,
        },
{
    cfb::CompoundFile::open(Cursor::new(data)).map(|f| f.root_entry().clsid().to_string())
}

/// Why a document's type could not be determined.
#[derive(Debug, Clone, Copy, PartialEq, Eq, Structural)]
pub enum DetectError {
    /// The zip container could not be read.
    Archive,
    /// An entry of the zip container that decides the type could not be read.
    Entry,
    /// The compound-file container could not be read.
    Compound,
}

// ---------------------------------------------------------------------------
// Detection from the first bytes

/// What the first bytes of a document show it to be.
#[derive(Debug, Clone, Copy, PartialEq, Eq, Structural)]
pub enum SignatureKind {
    Png,
    Gif,
    Jpeg,
    Tiff,
    Rtf,
    Pdf,
    Zip,
    Compound,
    Unknown,
}

/// The kind that the header `h` shows, the signatures being tried in the
/// order PNG, GIF, JPEG, TIFF, RTF, PDF, zip, compound file.
pub open spec fn signature_kind_spec(h: Seq<u8>) -> SignatureKind {
    if byte_range_matches_spec(h, 0, 8, "89 50 4E 47 0D 0A 1A 0A"@) {
        SignatureKind::Png
    } else if byte_range_matches_spec(h, 0, 6, "47 49 46 38 39 61"@) {
        SignatureKind::Gif
    } else if byte_range_matches_spec(h, 0, 2, "FF D8"@) {
        SignatureKind::Jpeg
    } else if byte_range_matches_spec(h, 0, 4, "49 49 2A 00"@) {
        SignatureKind::Tiff
    } else if byte_range_matches_spec(h, 0, 5, "7B 5C 72 74 66"@) {
        SignatureKind::Rtf
    } else if byte_range_matches_spec(h, 0, 4, "25 50 44 46"@) {
        SignatureKind::Pdf
    } else if byte_range_matches_spec(h, 0, 4, "50 4B 03 04"@) {
        SignatureKind::Zip
    } else if byte_range_matches_spec(h, 0, 8, "D0 CF 11 E0 A1 B1 1A E1"@) {
        SignatureKind::Compound
    } else {
        SignatureKind::Unknown
    }
}

/// The kind of document that the header `h` shows.
pub fn signature_kind(h: &[u8]) -> (k: SignatureKind)
    ensures
        k == signature_kind_spec(h@),
{
    if is_png(h) {
        SignatureKind::Png
    } else if is_gif(h) {
        SignatureKind::Gif
    } else if is_jpeg(h) {
        SignatureKind::Jpeg
    } else if is_tiff(h) {
        SignatureKind::Tiff
    } else if is_rtf(h) {
        SignatureKind::Rtf
    } else if is_pdf(h) {
        SignatureKind::Pdf
    } else if is_zip(h) {
        SignatureKind::Zip
    } else if is_cfb(h) {
        SignatureKind::Compound
    } else {
        SignatureKind::Unknown
    }
}

/// The first eight bytes of `contents`, padded with zero bytes: what a single
/// read of a document into an eight-byte buffer gives.
pub open spec fn header_of(contents: Seq<u8>) -> Seq<u8> {
    Seq::new(8, |i: int| if i < contents.len() { contents[i] } else { 0u8 })
}

/// The eight-byte header of `contents`.
pub fn header_bytes(contents: &[u8]) -> (h: Vec<u8>)
    ensures
        h@ == header_of(contents@),
{
    let mut h: Vec<u8> = Vec::new();
    let mut i: usize = 0;
    while i < 8
        invariant
            i <= 8,
            h@.len() == i,
            forall|k: int| 0 <= k < i ==> h@[k] == (if k < contents@.len() { contents@[k] } else { 0u8 }),
        decreases 8 - i,
    {
        if i < contents.len() {
            h.push(contents[i]);
        } else {
            h.push(0u8);
        }
        i = i + 1;
    }
    assert(h@ == header_of(contents@));
    h
}

/// The media type that stands for a kind found from the first bytes, for the
/// kinds that need no further look into the document.
pub open spec fn plain_kind_mime(k: SignatureKind) -> Seq<char> {
    match k {
        SignatureKind::Png => "image/png"@,
        SignatureKind::Gif => "image/gif"@,
        SignatureKind::Jpeg => "image/jpeg"@,
        SignatureKind::Tiff => "image/tiff"@,
        SignatureKind::Rtf => "application/rtf"@,
        _ => "application/pdf"@,
    }
}

/// Whether the media type `r` is the text `s`.
pub open spec fn mime_is(r: Option<&'static str>, s: Option<Seq<char>>) -> bool {
    match (r, s) {
        (Some(a), Some(b)) => a@ == b,
        (None, None) => true,
        _ => false,
    }
}

/// The media type of a document from its contents: from its first bytes for
/// images, RTF and PDF, and from what its container holds for office
/// documents; `None` where it is none of these.
pub fn detect_from_contents(contents: Vec<u8>) -> (r: Result<Option<&'static str>, DetectError>)
    ensures
        match signature_kind_spec(header_of(contents@)) {
            SignatureKind::Zip => match zip_listing(contents@) {
                None => r == Err::<Option<&'static str>, DetectError>(DetectError::Archive),
                Some(entries) => office_result_is(r, office_probe(relevant_entries(entries), 0, 0, 0, ""@, ""@, true)),
            },
            SignatureKind::Compound => match compound_root_clsid(contents@) {
                None => r == Err::<Option<&'static str>, DetectError>(DetectError::Compound),
                Some(clsid) => r is Ok && mime_is(r->Ok_0, legacy_mime_spec(clsid)),
            },
            SignatureKind::Unknown => r == Ok::<Option<&'static str>, DetectError>(None),
            k => r is Ok && mime_is(r->Ok_0, Some(plain_kind_mime(k))),
        },
{
    let h = header_bytes(contents.as_slice());
    match signature_kind(h.as_slice()) {
        SignatureKind::Png => Ok(Some("image/png")),
        SignatureKind::Gif => Ok(Some("image/gif")),
        SignatureKind::Jpeg => Ok(Some("image/jpeg")),
        SignatureKind::Tiff => Ok(Some("image/tiff")),
        SignatureKind::Rtf => Ok(Some("application/rtf")),
        SignatureKind::Pdf => Ok(Some("application/pdf")),
        SignatureKind::Zip => office_mime(contents),
        SignatureKind::Compound => legacy_office_mime(contents),
        SignatureKind::Unknown => Ok(None),
    }
}

// ---------------------------------------------------------------------------
// Office documents in a zip container

/// An entry of a zip container as the office probe reads it: its name where
/// it could be opened, and its text where it could be read and its name is
/// one whose text decides the type.
pub struct ZipEntryProbe {
    pub name: Option<String>,
    pub text: Option<String>,
}

/// The name and text of an entry, as character sequences.
pub open spec fn probe_view(e: ZipEntryProbe) -> (Option<Seq<char>>, Option<Seq<char>>) {
    (
        match e.name { Some(n) => Some(n@), None => None },
        match e.text { Some(t) => Some(t@), None => None },
    )
}

/// Whether the text of an entry of this name decides the document type.
pub open spec fn is_deciding_name(name: Seq<char>) -> bool {
    name == "mimetype"@ || name == "_rels/.rels"@
}

/// The entries with the text kept only for the names whose text decides the
/// type.
pub open spec fn relevant_entries(entries: Seq<(Option<Seq<char>>, Option<Seq<char>>)>) -> Seq<(Option<Seq<char>>, Option<Seq<char>>)> {
    entries.map_values(|e: (Option<Seq<char>>, Option<Seq<char>>)|
        match e.0 {
            Some(n) => if is_deciding_name(n) { e } else { (e.0, None) },
            None => (None, None),
        })
}

/// The OpenDocument type that the `mimetype` entry `text` names, or `prev`;
/// drawings are recognised only where `graphics` holds.
pub open spec fn opendocument_kind(text: Seq<char>, prev: Seq<char>, graphics: bool) -> Seq<char> {
    if contains_text(text, "application/vnd.oasis.opendocument.text"@) {
        "application/vnd.oasis.opendocument.text"@
    } else if contains_text(text, "application/vnd.oasis.opendocument.spreadsheet"@) {
        "application/vnd.oasis.opendocument.spreadsheet"@
    } else if contains_text(text, "application/vnd.oasis.opendocument.presentation"@) {
        "application/vnd.oasis.opendocument.presentation"@
    } else if graphics && contains_text(text, "application/vnd.oasis.opendocument.graphics"@) {
        "application/vnd.oasis.opendocument.graphics"@
    } else {
        prev
    }
}

/// The Office Open XML type that the `_rels/.rels` entry `text` points to,
/// or `prev`.
pub open spec fn openxml_kind(text: Seq<char>, prev: Seq<char>) -> Seq<char> {
    if contains_text(text, "ppt/presentation.xml"@) {
        "application/vnd.openxmlformats-officedocument.presentationml.presentation"@
    } else if contains_text(text, "word/document.xml"@) {
        "application/vnd.openxmlformats-officedocument.wordprocessingml.document"@
    } else if contains_text(text, "xl/workbook.xml"@) {
        "application/vnd.openxmlformats-officedocument.spreadsheetml.sheet"@
    } else {
        prev
    }
}

/// The result of probing `entries[i..]` with `odt` OpenDocument and `ooxml`
/// Office Open XML entries of interest seen so far, and the types they gave:
/// the first family to show its two entries of interest gives the type; an
/// unreadable deciding entry is an error; no decision gives `None`.
pub open spec fn office_probe(entries: Seq<(Option<Seq<char>>, Option<Seq<char>>)>, i: int, odt: nat, ooxml: nat, ret_odt: Seq<char>, ret_ooxml: Seq<char>, graphics: bool) -> Result<Option<Seq<char>>, ()>
    decreases entries.len() - i,
{
    if i < 0 || i >= entries.len() {
        Ok(None)
    } else {
        match entries[i].0 {
            None => office_probe(entries, i + 1, odt, ooxml, ret_odt, ret_ooxml, graphics),
            Some(name) => {
                if name == "mimetype"@ || name == "content.xml"@ {
                    if name == "mimetype"@ && entries[i].1 is None {
                        Err(())
                    } else {
                        let r = if name == "mimetype"@ { opendocument_kind(entries[i].1->0, ret_odt, graphics) } else { ret_odt };
                        if odt + 1 == 2 {
                            Ok(Some(r))
                        } else if ooxml == 2 {
                            Ok(Some(ret_ooxml))
                        } else {
                            office_probe(entries, i + 1, odt + 1, ooxml, r, ret_ooxml, graphics)
                        }
                    }
                } else if name == "_rels/.rels"@ || name == "[Content_Types].xml"@ {
                    if name == "_rels/.rels"@ && entries[i].1 is None {
                        Err(())
                    } else {
                        let r = if name == "_rels/.rels"@ { openxml_kind(entries[i].1->0, ret_ooxml) } else { ret_ooxml };
                        if odt == 2 {
                            Ok(Some(ret_odt))
                        } else if ooxml + 1 == 2 {
                            Ok(Some(r))
                        } else {
                            office_probe(entries, i + 1, odt, ooxml + 1, ret_odt, r, graphics)
                        }
                    }
                } else if odt == 2 {
                    Ok(Some(ret_odt))
                } else if ooxml == 2 {
                    Ok(Some(ret_ooxml))
                } else {
                    office_probe(entries, i + 1, odt, ooxml, ret_odt, ret_ooxml, graphics)
                }
            },
        }
    }
}

/// Whether the office probe's result `r` is the outcome `s`.
pub open spec fn office_result_is(r: Result<Option<&'static str>, DetectError>, s: Result<Option<Seq<char>>, ()>) -> bool {
    match (r, s) {
        (Ok(a), Ok(b)) => mime_is(a, b),
        (Err(e), Err(_)) => e == DetectError::Entry,
        _ => false,
    }
}

fn opendocument_kind_exec(text: &str, prev: &'static str, graphics: bool) -> (r: &'static str)
    ensures
        r@ == opendocument_kind(text@, prev@, graphics),
{
    if text_contains(text, "application/vnd.oasis.opendocument.text") {
        "application/vnd.oasis.opendocument.text"
    } else if text_contains(text, "application/vnd.oasis.opendocument.spreadsheet") {
        "application/vnd.oasis.opendocument.spreadsheet"
    } else if text_contains(text, "application/vnd.oasis.opendocument.presentation") {
        "application/vnd.oasis.opendocument.presentation"
    } else if graphics && text_contains(text, "application/vnd.oasis.opendocument.graphics") {
        "application/vnd.oasis.opendocument.graphics"
    } else {
        prev
    }
}

fn openxml_kind_exec(text: &str, prev: &'static str) -> (r: &'static str)
    ensures
        r@ == openxml_kind(text@, prev@),
{
    if text_contains(text, "ppt/presentation.xml") {
        "application/vnd.openxmlformats-officedocument.presentationml.presentation"
    } else if text_contains(text, "word/document.xml") {
        "application/vnd.openxmlformats-officedocument.wordprocessingml.document"
    } else if text_contains(text, "xl/workbook.xml") {
        "application/vnd.openxmlformats-officedocument.spreadsheetml.sheet"
    } else {
        prev
    }
}

/// The office type that the entries of a zip container show, in the order of
/// the entries: see `office_probe`.
pub fn office_mime_of_entries(entries: &Vec<ZipEntryProbe>, graphics: bool) -> (r: Result<Option<&'static str>, DetectError>)
    ensures
        office_result_is(r, office_probe(entries@.map_values(|e: ZipEntryProbe| probe_view(e)), 0, 0, 0, ""@, ""@, graphics)),
{
    let ghost es = entries@.map_values(|e: ZipEntryProbe| probe_view(e));
    let mut odt: usize = 0;
    let mut ooxml: usize = 0;
    let mut ret_odt: &'static str = "";
    let mut ret_ooxml: &'static str = "";
    let mut i: usize = 0;
    while i < entries.len()
        invariant
            es == entries@.map_values(|e: ZipEntryProbe| probe_view(e)),
            i <= entries@.len(),
            odt < 2,
            ooxml < 2,
            office_probe(es, 0, 0, 0, ""@, ""@, graphics) == office_probe(es, i as int, odt as nat, ooxml as nat, ret_odt@, ret_ooxml@, graphics),
        decreases entries.len() - i,
    {
        assert(es[i as int] == probe_view(entries@[i as int]));
        match &entries[i].name {
            None => {},
            Some(name) => {
                let is_mimetype = same_text(name.as_str(), "mimetype");
                let is_rels = same_text(name.as_str(), "_rels/.rels");
                if is_mimetype || same_text(name.as_str(), "content.xml") {
                    if is_mimetype {
                        match &entries[i].text {
                            None => return Err(DetectError::Entry),
                            Some(t) => {
                                ret_odt = opendocument_kind_exec(t.as_str(), ret_odt, graphics);
                            },
                        }
                    }
                    odt = odt + 1;
                } else if is_rels || same_text(name.as_str(), "[Content_Types].xml") {
                    if is_rels {
                        match &entries[i].text {
                            None => return Err(DetectError::Entry),
                            Some(t) => {
                                ret_ooxml = openxml_kind_exec(t.as_str(), ret_ooxml);
                            },
                        }
                    }
                    ooxml = ooxml + 1;
                }
                if odt == 2 {
                    return Ok(Some(ret_odt));
                } else if ooxml == 2 {
                    return Ok(Some(ret_ooxml));
                }
            },
        }
        i = i + 1;
    }
    Ok(None)
}

/// Reads the entries of the zip container `data` for the office probe.
pub fn read_zip_entries(data: Vec<u8>) -> (r: Result<Vec<ZipEntryProbe>, DetectError>)
    ensures
        match zip_listing(data@) {
            None => r == Err::<Vec<ZipEntryProbe>, DetectError>(DetectError::Archive),
            Some(entries) => r is Ok && r->Ok_0@.map_values(|e: ZipEntryProbe| probe_view(e)) == relevant_entries(entries),
        },
{
    let ghost listing = zip_listing(data@);
    let mut archive = match zip_open(data) {
        Ok(a) => a,
        Err(_) => return Err(DetectError::Archive),
    };
    let ghost entries = zip_entries(archive);
    let n = zip_len(&archive);
    let mut res: Vec<ZipEntryProbe> = Vec::new();
    let mut i: usize = 0;
    while i < n
        invariant
            zip_entries(archive) == entries,
            n == entries.len(),
            i <= n,
            res@.len() == i,
            forall|k: int| 0 <= k < i ==> #[trigger] probe_view(res@[k]) == relevant_entries(entries)[k],
        decreases n - i,
    {
        let name = zip_entry_name(&mut archive, i);
        let entry = match name {
            None => ZipEntryProbe { name: None, text: None },
            Some(nm) => {
                if same_text(nm.as_str(), "mimetype") || same_text(nm.as_str(), "_rels/.rels") {
                    let t = zip_entry_text(&mut archive, i);
                    ZipEntryProbe { name: Some(nm), text: t }
                } else {
                    ZipEntryProbe { name: Some(nm), text: None }
                }
            },
        };
        assert(probe_view(entry) == relevant_entries(entries)[i as int]);
        res.push(entry);
        i = i + 1;
    }
    assert(res@.map_values(|e: ZipEntryProbe| probe_view(e)) =~= relevant_entries(entries));
    Ok(res)
}

/// The office type of the zip container `data`: an OpenDocument type from
/// its `mimetype` entry or an Office Open XML type from its `_rels/.rels`
/// entry, whichever family shows its two entries of interest first.
pub fn office_mime(data: Vec<u8>) -> (r: Result<Option<&'static str>, DetectError>)
    ensures
        match zip_listing(data@) {
            None => r == Err::<Option<&'static str>, DetectError>(DetectError::Archive),
            Some(entries) => office_result_is(r, office_probe(relevant_entries(entries), 0, 0, 0, ""@, ""@, true)),
        },
{
    match read_zip_entries(data) {
        Err(e) => Err(e),
        Ok(entries) => office_mime_of_entries(&entries, true),
    }
}

// ---------------------------------------------------------------------------
// Legacy office documents in a compound file

/// The legacy office type that a root class id stands for.
pub open spec fn legacy_mime_spec(clsid: Seq<char>) -> Option<Seq<char>> {
    if clsid == "00020810-0000-0000-c000-000000000046"@ || clsid == "00020820-0000-0000-c000-000000000046"@ {
        Some("application/vnd.ms-excel"@)
    } else if clsid == "00020906-0000-0000-c000-000000000046"@ {
        Some("application/msword"@)
    } else if clsid == "64818d10-4f9b-11cf-86ea-00aa00b929e8"@ {
        Some("application/vnd.ms-powerpoint"@)
    } else {
        None
    }
}

/// The legacy office type of the root class id `clsid`.
pub fn legacy_office_mime_for_clsid(clsid: &str) -> (r: Option<&'static str>)
    ensures
        mime_is(r, legacy_mime_spec(clsid@)),
{
    if same_text(clsid, "00020810-0000-0000-c000-000000000046") || same_text(clsid, "00020820-0000-0000-c000-000000000046") {
        Some("application/vnd.ms-excel")
    } else if same_text(clsid, "00020906-0000-0000-c000-000000000046") {
        Some("application/msword")
    } else if same_text(clsid, "64818d10-4f9b-11cf-86ea-00aa00b929e8") {
        Some("application/vnd.ms-powerpoint")
    } else {
        None
    }
}

/// The legacy office type of the compound file `data`, from the class id of
/// its root storage.
pub fn legacy_office_mime(data: Vec<u8>) -> (r: Result<Option<&'static str>, DetectError>)
    ensures
        match compound_root_clsid(data@) {
            None => r == Err::<Option<&'static str>, DetectError>(DetectError::Compound),
            Some(clsid) => r is Ok && mime_is(r->Ok_0, legacy_mime_spec(clsid)),
        },
{
    match compound_root_clsid_text(data) {
        Err(_) => Err(DetectError::Compound),
        Ok(clsid) => Ok(legacy_office_mime_for_clsid(clsid.as_str())),
    }
}

// ---------------------------------------------------------------------------
// Signatures

/// The hexadecimal digit (upper case) of the value `d`.
pub open spec fn hex_digit(d: int) -> char {
    if d < 10 {
        (('0' as int) + d) as char
    } else {
        (('A' as int) + d - 10) as char
    }
}

/// `format!("{:02X}", b)`.
pub open spec fn hex_pair(b: u8) -> Seq<char> {
    seq![hex_digit(b as int / 16), hex_digit(b as int % 16)]
}

/// The upper-case hexadecimal rendering of `bytes`, two digits each.
pub open spec fn hex_text(bytes: Seq<u8>) -> Seq<char>
    decreases bytes.len(),
{
    if bytes.len() == 0 {
        Seq::empty()
    } else {
        hex_text(bytes.drop_last()) + hex_pair(bytes.last())
    }
}

/// `s` without its spaces (`s.replace(' ', "")`).
pub open spec fn without_spaces(s: Seq<char>) -> Seq<char>
    decreases s.len(),
{
    if s.len() == 0 {
        Seq::empty()
    } else if s.last() == ' ' {
        without_spaces(s.drop_last())
    } else {
        without_spaces(s.drop_last()).push(s.last())
    }
}

/// Whether `data[lo..hi]` exists and, rendered in hexadecimal, is the
/// signature `sig` once its spaces are taken out.
pub open spec fn byte_range_matches_spec(data: Seq<u8>, lo: int, hi: int, sig: Seq<char>) -> bool {
    data.len() >= hi && hex_text(data.subrange(lo, hi)) == without_spaces(sig)
}

fn hex_digit_exec(d: u8) -> (c: char)
    requires
        d < 16,
    ensures
        c == hex_digit(d as int),
{
    if d < 10 {
        ((48u8 + d) as char)
    } else {
        ((55u8 + d) as char)
    }
}

proof fn lemma_hex_text_len(bytes: Seq<u8>)
    ensures
        hex_text(bytes).len() == 2 * bytes.len(),
    decreases bytes.len(),
{
    if bytes.len() > 0 {
        lemma_hex_text_len(bytes.drop_last());
    }
}

/// Whether the bytes `data[lo..hi]`, written in upper-case hexadecimal, are
/// the signature `sig_expected_raw` (spaces in it are ignored).
pub fn byte_range_matches(data: &[u8], lo: usize, hi: usize, sig_expected_raw: &str) -> (r: bool)
    requires
        lo <= hi,
    ensures
        r == byte_range_matches_spec(data@, lo as int, hi as int, sig_expected_raw@),
{
    if data.len() < hi {
        return false;
    }
    let mut actual: Vec<char> = Vec::new();
    let mut idx = lo;
    while idx < hi
        invariant
            lo <= idx <= hi <= data@.len(),
            actual@ == hex_text(data@.subrange(lo as int, idx as int)),
        decreases hi - idx,
    {
        let b = data[idx];
        actual.push(hex_digit_exec(b / 16));
        actual.push(hex_digit_exec(b % 16));
        proof {
            let s = data@.subrange(lo as int, idx + 1);
            assert(s.drop_last() == data@.subrange(lo as int, idx as int));
            assert(s.last() == b);
        }
        idx = idx + 1;
    }
    let sig = crate::text::chars_of(sig_expected_raw);
    let mut expected: Vec<char> = Vec::new();
    let mut k: usize = 0;
    while k < sig.len()
        invariant
            k <= sig@.len(),
            expected@ == without_spaces(sig@.subrange(0, k as int)),
        decreases sig.len() - k,
    {
        if sig[k] != ' ' {
            expected.push(sig[k]);
        }
        proof {
            let s = sig@.subrange(0, k + 1);
            assert(s.drop_last() == sig@.subrange(0, k as int));
        }
        k = k + 1;
    }
    assert(sig@.subrange(0, sig@.len() as int) == sig@);
    assert(expected@ == without_spaces(sig_expected_raw@));
    if actual.len() != expected.len() {
        return false;
    }
    let mut j: usize = 0;
    while j < actual.len()
        invariant
            actual@.len() == expected@.len(),
            actual@ == hex_text(data@.subrange(lo as int, hi as int)),
            expected@ == without_spaces(sig_expected_raw@),
            data@.len() >= hi,
            j <= actual@.len(),
            forall|m: int| 0 <= m < j ==> actual@[m] == expected@[m],
        decreases actual.len() - j,
    {
        if actual[j] != expected[j] {
            assert(actual@[j as int] != expected@[j as int]);
            return false;
        }
        j = j + 1;
    }
    assert(actual@ == expected@);
    true
}

proof fn lemma_hex_digit_injective(a: int, b: int)
    requires
        0 <= a < 16,
        0 <= b < 16,
        hex_digit(a) == hex_digit(b),
    ensures
        a == b,
{
}

proof fn lemma_hex_pair_injective(a: u8, b: u8)
    requires
        hex_pair(a) == hex_pair(b),
    ensures
        a == b,
{
    assert(hex_pair(a)[0] == hex_pair(b)[0]);
    assert(hex_pair(a)[1] == hex_pair(b)[1]);
    lemma_hex_digit_injective(a as int / 16, b as int / 16);
    lemma_hex_digit_injective(a as int % 16, b as int % 16);
}

/// Hexadecimal rendering tells byte strings of equal length apart.
proof fn lemma_hex_text_injective(a: Seq<u8>, b: Seq<u8>)
    requires
        a.len() == b.len(),
        hex_text(a) == hex_text(b),
    ensures
        a == b,
    decreases a.len(),
{
    if a.len() > 0 {
        lemma_hex_text_len(a.drop_last());
        lemma_hex_text_len(b.drop_last());
        let ha = hex_text(a.drop_last());
        let hb = hex_text(b.drop_last());
        assert(hex_text(a) == ha + hex_pair(a.last()));
        assert(hex_text(b) == hb + hex_pair(b.last()));
        assert(ha == hex_text(a).subrange(0, ha.len() as int));
        assert(hb == hex_text(b).subrange(0, hb.len() as int));
        assert(hex_pair(a.last()) == hex_text(a).subrange(ha.len() as int, hex_text(a).len() as int));
        assert(hex_pair(b.last()) == hex_text(b).subrange(hb.len() as int, hex_text(b).len() as int));
        lemma_hex_text_injective(a.drop_last(), b.drop_last());
        lemma_hex_pair_injective(a.last(), b.last());
        assert(a == a.drop_last().push(a.last()));
        assert(b == b.drop_last().push(b.last()));
    }
}

/// A signature check at the start of `data` accepts exactly the data that
/// starts with the bytes `sig`, once the text of the signature is known to be
/// the rendering of `sig`.
proof fn lemma_signature_bytes(data: Seq<u8>, sig: Seq<u8>, sig_text: Seq<char>)
    requires
        without_spaces(sig_text) == hex_text(sig),
    ensures
        byte_range_matches_spec(data, 0, sig.len() as int, sig_text)
            == (data.len() >= sig.len() && data.subrange(0, sig.len() as int) == sig),
{
    if data.len() >= sig.len() {
        if hex_text(data.subrange(0, sig.len() as int)) == hex_text(sig) {
            lemma_hex_text_injective(data.subrange(0, sig.len() as int), sig);
        }
    }
}

/// The zip signature `50 4B 03 04`.
pub open spec fn zip_signature() -> Seq<u8> {
    seq![0x50u8, 0x4Bu8, 0x03u8, 0x04u8]
}

/// The compound-file signature `D0 CF 11 E0 A1 B1 1A E1`.
pub open spec fn cfb_signature() -> Seq<u8> {
    seq![0xD0u8, 0xCFu8, 0x11u8, 0xE0u8, 0xA1u8, 0xB1u8, 0x1Au8, 0xE1u8]
}

/// The RTF signature `{\rtf`.
pub open spec fn rtf_signature() -> Seq<u8> {
    seq![0x7Bu8, 0x5Cu8, 0x72u8, 0x74u8, 0x66u8]
}

/// The PDF signature `%PDF`.
pub open spec fn pdf_signature() -> Seq<u8> {
    seq![0x25u8, 0x50u8, 0x44u8, 0x46u8]
}

/// The PNG signature.
pub open spec fn png_signature() -> Seq<u8> {
    seq![0x89u8, 0x50u8, 0x4Eu8, 0x47u8, 0x0Du8, 0x0Au8, 0x1Au8, 0x0Au8]
}

/// The GIF signature `GIF89a`.
pub open spec fn gif_signature() -> Seq<u8> {
    seq![0x47u8, 0x49u8, 0x46u8, 0x38u8, 0x39u8, 0x61u8]
}

/// The JPEG signature.
pub open spec fn jpeg_signature() -> Seq<u8> {
    seq![0xFFu8, 0xD8u8]
}

/// The little-endian TIFF signature `II*\0`.
pub open spec fn tiff_signature() -> Seq<u8> {
    seq![0x49u8, 0x49u8, 0x2Au8, 0x00u8]
}

/// Whether `data` starts with the bytes `sig`.
pub open spec fn starts_with_bytes(data: Seq<u8>, sig: Seq<u8>) -> bool {
    data.len() >= sig.len() && data.subrange(0, sig.len() as int) == sig
}

/// Whether `data` starts like a zip archive.
pub fn is_zip(data: &[u8]) -> (r: bool)
    ensures
        r == byte_range_matches_spec(data@, 0, 4, "50 4B 03 04"@),
{
    byte_range_matches(data, 0, 4, "50 4B 03 04")
}

/// Whether `data` starts like a compound file (legacy office document).
pub fn is_cfb(data: &[u8]) -> (r: bool)
    ensures
        r == byte_range_matches_spec(data@, 0, 8, "D0 CF 11 E0 A1 B1 1A E1"@),
{
    byte_range_matches(data, 0, 8, "D0 CF 11 E0 A1 B1 1A E1")
}

/// Whether `data` starts like an RTF document.
pub fn is_rtf(data: &[u8]) -> (r: bool)
    ensures
        r == byte_range_matches_spec(data@, 0, 5, "7B 5C 72 74 66"@),
{
    byte_range_matches(data, 0, 5, "7B 5C 72 74 66")
}

/// Whether `data` starts like a PDF document.
pub fn is_pdf(data: &[u8]) -> (r: bool)
    ensures
        r == byte_range_matches_spec(data@, 0, 4, "25 50 44 46"@),
{
    byte_range_matches(data, 0, 4, "25 50 44 46")
}

/// Whether `data` starts like a PNG image.
pub fn is_png(data: &[u8]) -> (r: bool)
    ensures
        r == byte_range_matches_spec(data@, 0, 8, "89 50 4E 47 0D 0A 1A 0A"@),
{
    byte_range_matches(data, 0, 8, "89 50 4E 47 0D 0A 1A 0A")
}

/// Whether `data` starts like a GIF image.
pub fn is_gif(data: &[u8]) -> (r: bool)
    ensures
        r == byte_range_matches_spec(data@, 0, 6, "47 49 46 38 39 61"@),
{
    byte_range_matches(data, 0, 6, "47 49 46 38 39 61")
}

/// Whether `data` starts like a JPEG image.
pub fn is_jpeg(data: &[u8]) -> (r: bool)
    ensures
        r == byte_range_matches_spec(data@, 0, 2, "FF D8"@),
{
    byte_range_matches(data, 0, 2, "FF D8")
}

/// Whether `data` starts like a TIFF image.
pub fn is_tiff(data: &[u8]) -> (r: bool)
    ensures
        r == byte_range_matches_spec(data@, 0, 4, "49 49 2A 00"@),
{
    byte_range_matches(data, 0, 4, "49 49 2A 00")
}

proof fn lemma_zip_signature(data: Seq<u8>)
    ensures
        byte_range_matches_spec(data, 0, 4, "50 4B 03 04"@) == starts_with_bytes(data, zip_signature()),
{
    reveal_strlit("50 4B 03 04");
    reveal_with_fuel(without_spaces, 24);
    reveal_with_fuel(hex_text, 9);
    assert(without_spaces("50 4B 03 04"@) == hex_text(zip_signature()));
    lemma_signature_bytes(data, zip_signature(), "50 4B 03 04"@);
}

proof fn lemma_cfb_signature(data: Seq<u8>)
    ensures
        byte_range_matches_spec(data, 0, 8, "D0 CF 11 E0 A1 B1 1A E1"@) == starts_with_bytes(data, cfb_signature()),
{
    reveal_strlit("D0 CF 11 E0 A1 B1 1A E1");
    reveal_with_fuel(without_spaces, 24);
    reveal_with_fuel(hex_text, 9);
    assert(without_spaces("D0 CF 11 E0 A1 B1 1A E1"@) == hex_text(cfb_signature()));
    lemma_signature_bytes(data, cfb_signature(), "D0 CF 11 E0 A1 B1 1A E1"@);
}

proof fn lemma_rtf_signature(data: Seq<u8>)
    ensures
        byte_range_matches_spec(data, 0, 5, "7B 5C 72 74 66"@) == starts_with_bytes(data, rtf_signature()),
{
    reveal_strlit("7B 5C 72 74 66");
    reveal_with_fuel(without_spaces, 24);
    reveal_with_fuel(hex_text, 9);
    assert(without_spaces("7B 5C 72 74 66"@) == hex_text(rtf_signature()));
    lemma_signature_bytes(data, rtf_signature(), "7B 5C 72 74 66"@);
}

proof fn lemma_pdf_signature(data: Seq<u8>)
    ensures
        byte_range_matches_spec(data, 0, 4, "25 50 44 46"@) == starts_with_bytes(data, pdf_signature()),
{
    reveal_strlit("25 50 44 46");
    reveal_with_fuel(without_spaces, 24);
    reveal_with_fuel(hex_text, 9);
    assert(without_spaces("25 50 44 46"@) == hex_text(pdf_signature()));
    lemma_signature_bytes(data, pdf_signature(), "25 50 44 46"@);
}

proof fn lemma_png_signature(data: Seq<u8>)
    ensures
        byte_range_matches_spec(data, 0, 8, "89 50 4E 47 0D 0A 1A 0A"@) == starts_with_bytes(data, png_signature()),
{
    reveal_strlit("89 50 4E 47 0D 0A 1A 0A");
    reveal_with_fuel(without_spaces, 24);
    reveal_with_fuel(hex_text, 9);
    assert(without_spaces("89 50 4E 47 0D 0A 1A 0A"@) == hex_text(png_signature()));
    lemma_signature_bytes(data, png_signature(), "89 50 4E 47 0D 0A 1A 0A"@);
}

proof fn lemma_gif_signature(data: Seq<u8>)
    ensures
        byte_range_matches_spec(data, 0, 6, "47 49 46 38 39 61"@) == starts_with_bytes(data, gif_signature()),
{
    reveal_strlit("47 49 46 38 39 61");
    reveal_with_fuel(without_spaces, 24);
    reveal_with_fuel(hex_text, 9);
    assert(without_spaces("47 49 46 38 39 61"@) == hex_text(gif_signature()));
    lemma_signature_bytes(data, gif_signature(), "47 49 46 38 39 61"@);
}

proof fn lemma_jpeg_signature(data: Seq<u8>)
    ensures
        byte_range_matches_spec(data, 0, 2, "FF D8"@) == starts_with_bytes(data, jpeg_signature()),
{
    reveal_strlit("FF D8");
    reveal_with_fuel(without_spaces, 24);
    reveal_with_fuel(hex_text, 9);
    assert(without_spaces("FF D8"@) == hex_text(jpeg_signature()));
    lemma_signature_bytes(data, jpeg_signature(), "FF D8"@);
}

proof fn lemma_tiff_signature(data: Seq<u8>)
    ensures
        byte_range_matches_spec(data, 0, 4, "49 49 2A 00"@) == starts_with_bytes(data, tiff_signature()),
{
    reveal_strlit("49 49 2A 00");
    reveal_with_fuel(without_spaces, 24);
    reveal_with_fuel(hex_text, 9);
    assert(without_spaces("49 49 2A 00"@) == hex_text(tiff_signature()));
    lemma_signature_bytes(data, tiff_signature(), "49 49 2A 00"@);
}

/// Law: each signature check accepts exactly the data that starts with the
/// signature's bytes.
pub proof fn law_signatures_are_byte_prefixes(data: Seq<u8>)
    ensures
        byte_range_matches_spec(data, 0, 4, "50 4B 03 04"@) == starts_with_bytes(data, zip_signature()),
        byte_range_matches_spec(data, 0, 8, "D0 CF 11 E0 A1 B1 1A E1"@) == starts_with_bytes(data, cfb_signature()),
        byte_range_matches_spec(data, 0, 5, "7B 5C 72 74 66"@) == starts_with_bytes(data, rtf_signature()),
        byte_range_matches_spec(data, 0, 4, "25 50 44 46"@) == starts_with_bytes(data, pdf_signature()),
        byte_range_matches_spec(data, 0, 8, "89 50 4E 47 0D 0A 1A 0A"@) == starts_with_bytes(data, png_signature()),
        byte_range_matches_spec(data, 0, 6, "47 49 46 38 39 61"@) == starts_with_bytes(data, gif_signature()),
        byte_range_matches_spec(data, 0, 2, "FF D8"@) == starts_with_bytes(data, jpeg_signature()),
        byte_range_matches_spec(data, 0, 4, "49 49 2A 00"@) == starts_with_bytes(data, tiff_signature()),
{
    lemma_zip_signature(data);
    lemma_cfb_signature(data);
    lemma_rtf_signature(data);
    lemma_pdf_signature(data);
    lemma_png_signature(data);
    lemma_gif_signature(data);
    lemma_jpeg_signature(data);
    lemma_tiff_signature(data);
}

} // verus!
