//! Conversion requests of the web server: the identifier handed out for an
//! uploaded file and read back when its result is downloaded, the checks of
//! an upload, and the headers of a download.
use vstd::prelude::*;
use vstd::utf8::{decode_utf8, encode_utf8, valid_utf8};
use crate::text::push_str;
use crate::paths::{extension_of, join_path, join_path_text, path_extension, without_extension};
use crate::mimetypes::hex_pair;
use crate::webserver::{output_filename_for, result_filename, ConversionOptions, UploadResponse, UploadedFile};
use crate::l10n::{catalog_forms, gettext_spec, GettextTranslations, Translations};

verus! {

// ---------------------------------------------------------------------------
// Encodings

/// `bs58::encode(data).into_string()`: the Base58 text of `data`.
pub uninterp spec fn base58_text(data: Seq<u8>) -> Seq<char>;

/// `bs58::decode(text).into_vec()`: the bytes that the Base58 text `text`
/// stands for, `None` where it is not Base58.
pub uninterp spec fn base58_bytes(text: Seq<char>) -> Option<Seq<u8>>;

/// `bs58::encode(data).into_string()`.
#[verifier::external_body]
fn bs58_encode(data: &[u8]) -> (r: String)
    ensures
        r@ == base58_text(data@),
{
    bs58::encode(data).into_string()
}

/// `bs58::decode(text).into_vec()`, its error dropped. Decoding gives back
/// the bytes that were encoded.
#[verifier::external_body]
fn bs58_decode(text: &str) -> (r: Option<Vec<u8>>)
    ensures
        match r {
            Some(v) => base58_bytes(text@) == Some(v@),
            None => base58_bytes(text@) is None,
        },
        forall|d: Seq<u8>| text@ == #[trigger] base58_text(d) ==> (r is Some && r->0@ == d),
{
    bs58::decode(text).into_vec().ok()
}

/// `base64_lib::encode(data)`: the Base64 text of `data` (standard
/// alphabet, `=` padding).
pub uninterp spec fn base64_text(data: Seq<u8>) -> Seq<char>;

/// `base64_lib::decode(text)`: the bytes of the Base64 text `text`.
pub uninterp spec fn base64_bytes(text: Seq<char>) -> Seq<u8>;

/// Whether `c` is a letter or digit of ASCII.
pub open spec fn is_ascii_alnum_char(c: char) -> bool {
    ('A' <= c && c <= 'Z') || ('a' <= c && c <= 'z') || ('0' <= c && c <= '9')
}

/// Whether `c` belongs to the standard Base64 alphabet or is its padding.
pub open spec fn is_base64_char(c: char) -> bool {
    is_ascii_alnum_char(c) || c == '+' || c == '/' || c == '='
}

/// The number of occurrences of `c` in `s`.
pub open spec fn count_char(s: Seq<char>, c: char) -> nat
    decreases s.len(),
{
    if s.len() == 0 {
        0
    } else {
        count_char(s.drop_last(), c) + if s.last() == c { 1nat } else { 0nat }
    }
}

/// Whether `base64_lib::decode` accepts `text` without panicking: whole
/// groups of four characters of the alphabet, at most two of them padding.
pub open spec fn is_base64_text(text: Seq<char>) -> bool {
    &&& text.len() % 4 == 0
    &&& forall|i: int| 0 <= i < text.len() ==> is_base64_char(#[trigger] text[i])
    &&& count_char(text, '=') <= 2
}

/// `base64_lib::encode`. Its text is made of whole groups of four
/// characters of the alphabet, with at most two padding characters.
#[verifier::external_body]
fn base64_encode(data: &Vec<u8>) -> (r: String)
    ensures
        r@ == base64_text(data@),
        is_base64_text(r@),
{
    base64_lib::encode(data)
}

/// `base64_lib::decode`, which panics on text that is not Base64. Decoding
/// gives back the bytes that were encoded.
#[verifier::external_body]
fn base64_decode(text: &String) -> (r: Vec<u8>)
    requires
        is_base64_text(text@),
    ensures
        r@ == base64_bytes(text@),
        forall|d: Seq<u8>| text@ == #[trigger] base64_text(d) ==> r@ == d,
{
    base64_lib::decode(text)
}

/// `str::as_bytes`: the UTF-8 encoding of `s`.
fn utf8_of(s: &str) -> (r: Vec<u8>)
    ensures
        r@ == encode_utf8(s@),
{
    s.as_bytes_vec()
}

/// `std::str::from_utf8`: the text that the bytes encode, where they are
/// valid UTF-8.
#[verifier::external_body]
fn text_of_utf8(bytes: &[u8]) -> (r: Option<String>)
    ensures
        r is Some == valid_utf8(bytes@),
        r is Some ==> r->0@ == decode_utf8(bytes@),
{
    match std::str::from_utf8(bytes) {
        Ok(s) => Some(s.to_owned()),
        Err(_) => None,
    }
}

proof fn lemma_utf8_round_trip(s: Seq<char>)
    ensures
        valid_utf8(encode_utf8(s)),
        decode_utf8(encode_utf8(s)) == s,
{
    vstd::utf8::encode_utf8_valid_utf8(s);
    vstd::utf8::encode_utf8_decode_utf8(s);
}

// ---------------------------------------------------------------------------
// Request identifiers

/// The token of a request: the Base64 texts of the file's id and of its
/// name, separated by `;`.
pub open spec fn request_token(file_id: Seq<char>, filename: Seq<char>) -> Seq<char> {
    base64_text(encode_utf8(file_id)) + ";"@ + base64_text(encode_utf8(filename))
}

/// The identifier of the request for the file `file_id` named `filename`:
/// the Base58 text of the UTF-8 bytes of its token.
pub open spec fn request_id_text(file_id: Seq<char>, filename: Seq<char>) -> Seq<char> {
    base58_text(encode_utf8(request_token(file_id, filename)))
}

/// Whether the Base64 texts of the file id and name are made of the
/// alphabet only, as the encoder guarantees of the texts it produces.
pub open spec fn encodes_cleanly(file_id: Seq<char>, filename: Seq<char>) -> bool {
    is_base64_text(base64_text(encode_utf8(file_id))) && is_base64_text(base64_text(encode_utf8(filename)))
}

/// The identifier handed out for the uploaded file `file_id` named
/// `filename`.
pub fn encode_request_id(file_id: &str, filename: &str) -> (r: String)
    ensures
        r@ == request_id_text(file_id@, filename@)
            && encodes_cleanly(file_id@, filename@),
{
    let id_text = base64_encode(&utf8_of(file_id));
    let name_text = base64_encode(&utf8_of(filename));
    let mut token = String::new();
    push_str(&mut token, id_text.as_str());
    push_str(&mut token, ";");
    push_str(&mut token, name_text.as_str());
    let bytes = utf8_of(token.as_str());
    bs58_encode(bytes.as_slice())
}

/// The two parts of `t` around its only `;`, where it has exactly one.
pub open spec fn split_pair(t: Seq<char>) -> Option<(Seq<char>, Seq<char>)> {
    if count_char(t, ';') == 1 {
        let i = choose|i: int| 0 <= i < t.len() && t[i] == ';';
        Some((t.subrange(0, i), t.subrange(i + 1, t.len() as int)))
    } else {
        None
    }
}

proof fn lemma_count_char_append(a: Seq<char>, b: Seq<char>, c: char)
    ensures
        count_char(a + b, c) == count_char(a, c) + count_char(b, c),
    decreases b.len(),
{
    if b.len() == 0 {
        assert(a + b =~= a);
    } else {
        assert((a + b).drop_last() =~= a + b.drop_last());
        lemma_count_char_append(a, b.drop_last(), c);
    }
}

proof fn lemma_count_zero(s: Seq<char>, c: char)
    requires
        forall|i: int| 0 <= i < s.len() ==> s[i] != c,
    ensures
        count_char(s, c) == 0,
    decreases s.len(),
{
    if s.len() > 0 {
        lemma_count_zero(s.drop_last(), c);
    }
}

proof fn lemma_count_positive(s: Seq<char>, c: char, i: int)
    requires
        0 <= i < s.len(),
        s[i] == c,
    ensures
        count_char(s, c) >= 1,
    decreases s.len(),
{
    if i < s.len() - 1 {
        lemma_count_positive(s.drop_last(), c, i);
    }
}

/// The only `;` of `t` is at `i`.
proof fn lemma_split_at_only(t: Seq<char>, i: int)
    requires
        0 <= i < t.len(),
        t[i] == ';',
        count_char(t, ';') == 1,
    ensures
        forall|j: int| 0 <= j < t.len() && t[j] == ';' ==> j == i,
{
    assert forall|j: int| 0 <= j < t.len() && t[j] == ';' implies j == i by {
        if j != i {
            let lo = if i < j { i } else { j };
            let hi = if i < j { j } else { i };
            let left = t.subrange(0, hi);
            let right = t.subrange(hi, t.len() as int);
            assert(t =~= left + right);
            lemma_count_char_append(left, right, ';');
            lemma_count_positive(left, ';', lo);
            lemma_count_positive(right, ';', 0);
        }
    }
}

/// The parts of `t` around its only `;`, where it has exactly one.
pub fn split_on_separator(t: &str) -> (r: Option<(String, String)>)
    ensures
        match split_pair(t@) {
            Some(p) => r is Some && (r->0).0@ == p.0 && (r->0).1@ == p.1,
            None => r is None,
        },
{
    let chars = crate::text::chars_of(t);
    let mut count: usize = 0;
    let mut pos: usize = 0;
    let mut i: usize = 0;
    while i < chars.len()
        invariant
            chars@ == t@,
            i <= chars.len(),
            count as nat == count_char(t@.take(i as int), ';'),
            count <= i,
            count >= 1 ==> pos < i && t@[pos as int] == ';',
        decreases chars.len() - i,
    {
        assert(t@.take(i + 1).drop_last() =~= t@.take(i as int));
        if chars[i] == ';' {
            if count == 0 {
                pos = i;
            }
            count = count + 1;
        }
        i = i + 1;
    }
    assert(t@.take(t@.len() as int) =~= t@);
    if count == 1 {
        proof {
            lemma_split_at_only(t@, pos as int);
        }
        let left = crate::text::string_from_range(&chars, 0, pos);
        let right = crate::text::string_from_range(&chars, pos + 1, chars.len());
        Some((left, right))
    } else {
        None
    }
}

/// The file id and name that the request identifier `request_id` carries,
/// where it is the Base58 text of a UTF-8 token of two Base64 parts each of
/// UTF-8 text.
pub open spec fn request_parts(request_id: Seq<char>) -> Option<(Seq<char>, Seq<char>)> {
    match base58_bytes(request_id) {
        None => None,
        Some(bytes) => if !valid_utf8(bytes) {
            None
        } else {
            match split_pair(decode_utf8(bytes)) {
                None => None,
                Some(parts) => if !is_base64_text(parts.0) || !is_base64_text(parts.1) {
                    None
                } else if !valid_utf8(base64_bytes(parts.0)) || !valid_utf8(base64_bytes(parts.1)) {
                    None
                } else {
                    Some((decode_utf8(base64_bytes(parts.0)), decode_utf8(base64_bytes(parts.1))))
                },
            }
        },
    }
}

/// The stored file and the download name of a request: the names of the
/// results of its file id and of its file name.
pub open spec fn download_names(parts: (Seq<char>, Seq<char>)) -> (Seq<char>, Seq<char>) {
    (result_filename(without_extension(parts.0)), result_filename(without_extension(parts.1)))
}

fn decode_part(part: &String) -> (r: Option<String>)
    ensures
        is_base64_text(part@) && valid_utf8(base64_bytes(part@)) ==> r is Some && r->0@ == decode_utf8(base64_bytes(part@)),
        !(is_base64_text(part@) && valid_utf8(base64_bytes(part@))) ==> r is None,
        forall|s: Seq<char>| part@ == #[trigger] base64_text(encode_utf8(s)) && is_base64_text(part@) ==> r is Some && r->0@ == s,
{
    if !is_base64(part.as_str()) {
        return None;
    }
    let bytes = base64_decode(part);
    proof {
        assert forall|s: Seq<char>| part@ == #[trigger] base64_text(encode_utf8(s)) implies bytes@ == encode_utf8(s) by {
        }
    }
    let r = text_of_utf8(bytes.as_slice());
    proof {
        assert forall|s: Seq<char>| part@ == #[trigger] base64_text(encode_utf8(s)) && is_base64_text(part@) implies r is Some && r->0@ == s by {
            lemma_utf8_round_trip(s);
        }
    }
    r
}

/// Whether `s` is text that `base64_lib::decode` accepts.
pub fn is_base64(s: &str) -> (r: bool)
    ensures
        r == is_base64_text(s@),
{
    let chars = crate::text::chars_of(s);
    if chars.len() % 4 != 0 {
        return false;
    }
    let mut pads: usize = 0;
    let mut i: usize = 0;
    while i < chars.len()
        invariant
            chars@ == s@,
            i <= chars.len(),
            pads as nat == count_char(s@.take(i as int), '='),
            pads <= i,
            forall|j: int| 0 <= j < i ==> is_base64_char(#[trigger] s@[j]),
        decreases chars.len() - i,
    {
        let c = chars[i];
        let ok = ('A' <= c && c <= 'Z') || ('a' <= c && c <= 'z') || ('0' <= c && c <= '9')
            || c == '+' || c == '/' || c == '=';
        if !ok {
            return false;
        }
        assert(s@.take(i + 1).drop_last() =~= s@.take(i as int));
        if c == '=' {
            pads = pads + 1;
        }
        i = i + 1;
    }
    assert(s@.take(s@.len() as int) =~= s@);
    pads <= 2
}

/// The stored file and the download name that the request identifier
/// `request_id` designates; `None` where it is not one that this server
/// hands out (in particular where a part is not Base64, on which the
/// decoder would panic). An identifier handed out for a file id and name
/// gives back the names of the results of that id and name.
pub fn decode_request_id(request_id: &str) -> (r: Option<(String, String)>)
    ensures
        match request_parts(request_id@) {
            Some(parts) => r is Some && ((r->0).0@, (r->0).1@) == download_names(parts),
            None => r is None,
        },
        forall|file_id: Seq<char>, filename: Seq<char>|
            request_id@ == #[trigger] request_id_text(file_id, filename) && encodes_cleanly(file_id, filename) ==>
                r is Some && ((r->0).0@, (r->0).1@) == download_names((file_id, filename)),
{
    let decoded = bs58_decode(request_id);
    proof {
        assert forall|file_id: Seq<char>, filename: Seq<char>|
            request_id@ == #[trigger] request_id_text(file_id, filename) implies
                decoded is Some && decoded->0@ == encode_utf8(request_token(file_id, filename)) by {
            assert(request_id@ == base58_text(encode_utf8(request_token(file_id, filename))));
        }
    }
    let bytes = match decoded {
        Some(b) => b,
        None => return None,
    };
    proof {
        assert forall|file_id: Seq<char>, filename: Seq<char>|
            request_id@ == #[trigger] request_id_text(file_id, filename) implies valid_utf8(bytes@) by {
            lemma_utf8_round_trip(request_token(file_id, filename));
        }
    }
    let token = match text_of_utf8(bytes.as_slice()) {
        Some(t) => t,
        None => return None,
    };
    proof {
        assert forall|file_id: Seq<char>, filename: Seq<char>|
            request_id@ == #[trigger] request_id_text(file_id, filename) implies
                token@ == request_token(file_id, filename) by {
            let t = request_token(file_id, filename);
            assert(request_id@ == base58_text(encode_utf8(t)));
            lemma_utf8_round_trip(t);
        }
    }
    let (id_part, name_part) = match split_on_separator(token.as_str()) {
        Some(p) => p,
        None => {
            proof { lemma_tokens_split(token@); }
            return None;
        },
    };
    proof { lemma_tokens_split(token@); }
    let file_id = match decode_part(&id_part) {
        Some(v) => v,
        None => return None,
    };
    let filename = match decode_part(&name_part) {
        Some(v) => v,
        None => return None,
    };
    let a = output_filename_for(file_id);
    let b = output_filename_for(filename);
    Some((a, b))
}

/// A token of two Base64 texts splits back into them.
proof fn lemma_tokens_split(t: Seq<char>)
    ensures
        forall|file_id: Seq<char>, filename: Seq<char>| t == #[trigger] request_token(file_id, filename) && encodes_cleanly(file_id, filename) ==>
            split_pair(t) == Some((base64_text(encode_utf8(file_id)), base64_text(encode_utf8(filename)))),
{
    assert forall|file_id: Seq<char>, filename: Seq<char>| t == #[trigger] request_token(file_id, filename) && encodes_cleanly(file_id, filename) implies
        split_pair(t) == Some((base64_text(encode_utf8(file_id)), base64_text(encode_utf8(filename)))) by {
        let a = base64_text(encode_utf8(file_id));
        let b = base64_text(encode_utf8(filename));
        assert forall|k: int| 0 <= k < a.len() implies a[k] != ';' by { assert(is_base64_char(a[k])); }
        assert forall|k: int| 0 <= k < b.len() implies b[k] != ';' by { assert(is_base64_char(b[k])); }
        lemma_count_zero(a, ';');
        lemma_count_zero(b, ';');
        lemma_count_char_append(a, ";"@, ';');
        lemma_count_char_append(a + ";"@, b, ';');
        reveal_strlit(";");
        assert(count_char(";"@, ';') == 1) by {
            reveal_strlit(";");
            assert(";"@.len() == 1);
            assert(";"@.last() == ';');
            assert(";"@.drop_last() =~= Seq::<char>::empty());
            assert(count_char(Seq::<char>::empty(), ';') == 0);
        }
        let i = a.len() as int;
        assert(t[i] == ';');
        lemma_split_at_only(t, i);
        let j = choose|j: int| 0 <= j < t.len() && t[j] == ';';
        assert(j == i);
        assert(t.subrange(0, i) =~= a);
        assert(t.subrange(i + 1, t.len() as int) =~= b);
    }
}


// ---------------------------------------------------------------------------
// Downloads

/// Whether the byte `b` is an ASCII letter or digit.
pub open spec fn is_ascii_alnum_byte(b: u8) -> bool {
    (65 <= b <= 90) || (97 <= b <= 122) || (48 <= b <= 57)
}

/// The percent-encoding of one byte: the byte itself where it is an ASCII
/// letter or digit, `%` and two upper-case hexadecimal digits otherwise.
pub open spec fn percent_piece(b: u8) -> Seq<char> {
    if is_ascii_alnum_byte(b) { seq![b as char] } else { seq!['%'] + hex_pair(b) }
}

/// The percent-encoding of `bytes` that keeps only ASCII letters and
/// digits.
pub open spec fn percent_encoded(bytes: Seq<u8>) -> Seq<char>
    decreases bytes.len(),
{
    if bytes.len() == 0 {
        Seq::empty()
    } else {
        percent_encoded(bytes.drop_last()) + percent_piece(bytes.last())
    }
}

/// `percent_encode(data, NON_ALPHANUMERIC).to_string()`: every byte that is
/// not an ASCII letter or digit (non-ASCII bytes included) becomes `%XX`
/// with upper-case hexadecimal digits; the other bytes are kept.
#[verifier::external_body]
fn percent_encode_text(data: &[u8]) -> (r: String)
    ensures
        r@ == percent_encoded(data@),
{
    percent_encoding::percent_encode(data, percent_encoding::NON_ALPHANUMERIC).to_string()
}

/// The `Content-Disposition` of the download of a result named `filename`.
pub open spec fn content_disposition_spec(filename: Seq<char>) -> Seq<char> {
    "attachment; filename*=UTF-8''"@ + percent_encoded(encode_utf8(filename))
}

/// The `Content-Disposition` header of the download of `filename`.
pub fn content_disposition(filename: &str) -> (r: String)
    ensures
        r@ == content_disposition_spec(filename@),
{
    let bytes = utf8_of(filename);
    let encoded = percent_encode_text(bytes.as_slice());
    let mut r = String::new();
    push_str(&mut r, "attachment; filename*=UTF-8''");
    push_str(&mut r, encoded.as_str());
    r
}

// ---------------------------------------------------------------------------
// Uploads

/// Why an upload is refused.
pub open spec fn upload_error_spec(forms: Map<Seq<char>, Seq<Seq<char>>>, filename: Seq<char>, file_len: nat) -> Option<Seq<char>> {
    if filename.len() == 0 {
        Some(gettext_spec(forms, "Missing 'filename' in form data"@))
    } else if file_len == 0 {
        Some(gettext_spec(forms, "Missing 'file' in form data"@))
    } else if extension_of(filename) is None {
        Some(gettext_spec(forms, "Mime type error! Does the input have a 'known' file extension?"@) + ": "@ + filename)
    } else {
        None
    }
}

/// Where an uploaded file of id `file_id` and extension `ext` is stored in
/// the folder `tmpdir`.
pub open spec fn upload_location(tmpdir: Seq<char>, file_id: Seq<char>, ext: Seq<char>) -> Seq<char> {
    join_path(tmpdir, file_id + "."@ + ext)
}

/// The record of an upload of `file_len` bytes named `filename`, stored
/// under the fresh id `file_id` in `tmpdir`, or the reason it is refused: a
/// missing name, an empty file, or a name without extension.
pub fn upload_record(filename: String, file_len: usize, ocrlang: String, docpassword: String, file_id: &str, tmpdir: &str, tr: &GettextTranslations) -> (r: Result<UploadedFile, String>)
    ensures
        match upload_error_spec(catalog_forms(tr.catalog), filename@, file_len as nat) {
            Some(msg) => r is Err && r->Err_0@ == msg,
            None => r is Ok && {
                let u = r->Ok_0;
                &&& u.id@ == request_id_text(file_id@, filename@)
                &&& encodes_cleanly(file_id@, filename@)
                &&& Some(u.fileext@) == extension_of(filename@)
                &&& u.location@ == upload_location(tmpdir@, file_id@, u.fileext@)
                &&& u.ocrlang == ocrlang
                &&& u.docpassword == docpassword
                &&& u.visualquality@.len() == 0
            },
        },
{
    if filename.unicode_len() == 0 {
        return Err(tr.gettext("Missing 'filename' in form data"));
    }
    if file_len == 0 {
        return Err(tr.gettext("Missing 'file' in form data"));
    }
    let id = encode_request_id(file_id, filename.as_str());
    let ext = match path_extension(filename.as_str()) {
        Some(e) => e,
        None => {
            let mut msg = tr.gettext("Mime type error! Does the input have a 'known' file extension?");
            push_str(&mut msg, ": ");
            push_str(&mut msg, filename.as_str());
            return Err(msg);
        },
    };
    let mut name = String::new();
    push_str(&mut name, file_id);
    push_str(&mut name, ".");
    push_str(&mut name, ext.as_str());
    let location = join_path_text(tmpdir, name.as_str());
    Ok(UploadedFile { id, docpassword, location, ocrlang, fileext: ext, visualquality: String::new() })
}

/// The answer to an accepted upload: its id and where its progress is
/// followed.
pub fn upload_response(id: &str) -> (r: UploadResponse)
    ensures
        r.request_id@ == id@,
        r.tracking_uri@ == "/api/v1/events/"@ + id@,
{
    let mut uri = String::new();
    push_str(&mut uri, "/api/v1/events/");
    push_str(&mut uri, id);
    UploadResponse::new(id.to_owned(), uri)
}

/// An option that is absent where the text is empty.
pub open spec fn nonempty(s: Seq<char>) -> Option<Seq<char>> {
    if s.len() == 0 { None } else { Some(s) }
}

fn nonempty_text(s: &String) -> (r: Option<String>)
    ensures
        match r { Some(t) => nonempty(s@) == Some(t@), None => nonempty(s@) is None },
{
    if s.unicode_len() == 0 { None } else { Some(s.clone()) }
}

/// The conversion that an upload asks for: the server's image, the OCR
/// language and password where given, the visual quality; and where the
/// result is written in `tmpdir`.
pub fn conversion_request(upload: &UploadedFile, tmpdir: &str, image: &str) -> (r: (ConversionOptions, String))
    ensures
        r.0.ci_image_name@ == image@,
        match r.0.opt_ocr_lang { Some(t) => nonempty(upload.ocrlang@) == Some(t@), None => nonempty(upload.ocrlang@) is None },
        match r.0.opt_passwd { Some(t) => nonempty(upload.docpassword@) == Some(t@), None => nonempty(upload.docpassword@) is None },
        r.0.visualquality@ == upload.visualquality@,
        r.1@ == join_path(tmpdir@, result_filename(without_extension(upload.location@))),
{
    let opts = ConversionOptions::new(image.to_owned(), nonempty_text(&upload.ocrlang), nonempty_text(&upload.docpassword), upload.visualquality.clone());
    let name = output_filename_for(upload.location.clone());
    (opts, join_path_text(tmpdir, name.as_str()))
}

} // verus!
