//! The options of a conversion in the desktop application and its command
//! line: visual quality, output location and file naming, passwords, the
//! saved settings, and the events that a conversion reports.
use vstd::prelude::*;
use crate::text::{decimal, is_blank, is_blank_text, push_str, same_text, usize_to_text};
use crate::containers::{ascii_lower, is_ascii_text, lowercase, to_lowercase};
use crate::paths::{join_path, join_path_text, parent_of, path_file_stem, path_parent, stem_of};
use std::sync::mpsc::SendError;
use uuid::Uuid;

verus! {

/// The suffix given to sanitized files by default.
pub const DEFAULT_FILE_SUFFIX: &'static str = "entrusted";

/// The namespace of the application's folders.
pub const NAMESPACE_APP: &'static str = "com.rimerosolutions.entrusted";

// ---------------------------------------------------------------------------
// Visual quality

/// The resolution at which pages are rendered.
#[derive(PartialEq, Eq, Structural, Clone, Copy, Debug)]
pub enum VisualQuality {
    Low,
    Medium,
    High,
}

/// The lower-case form of `s` that the parsers of settings compare: the
/// ASCII lower-case form of ASCII text, Unicode's otherwise.
pub open spec fn folded(s: Seq<char>) -> Seq<char> {
    if is_ascii_text(s) { ascii_lower(s) } else { lowercase(s) }
}

fn fold_text(s: &str) -> (r: String)
    ensures
        r@ == folded(s@),
{
    to_lowercase(s)
}

/// The visual quality that a setting names, in any case.
pub open spec fn quality_named(s: Seq<char>) -> Option<VisualQuality> {
    if folded(s) == "low"@ {
        Some(VisualQuality::Low)
    } else if folded(s) == "medium"@ {
        Some(VisualQuality::Medium)
    } else if folded(s) == "high"@ {
        Some(VisualQuality::High)
    } else {
        None
    }
}

impl VisualQuality {
    /// The quality used where none is chosen.
    pub fn default_value() -> (r: Self)
        ensures
            r == VisualQuality::Medium,
    {
        VisualQuality::Medium
    }

    /// The display name of the quality.
    pub open spec fn name(self) -> Seq<char> {
        match self {
            VisualQuality::Low => "Low"@,
            VisualQuality::Medium => "Medium"@,
            VisualQuality::High => "High"@,
        }
    }

    /// The display name of the quality (what `Display` prints).
    pub fn to_text(&self) -> (r: String)
        ensures
            r@ == self.name(),
    {
        match self {
            VisualQuality::Low => "Low".to_owned(),
            VisualQuality::Medium => "Medium".to_owned(),
            VisualQuality::High => "High".to_owned(),
        }
    }

    /// The quality named `s` (`low`, `medium` or `high`, in any case), or
    /// the message `Invalid visual quality: {s}`.
    pub fn from_str(s: &str) -> (r: Result<Self, String>)
        ensures
            match quality_named(s@) {
                Some(q) => r == Ok::<VisualQuality, String>(q),
                None => r is Err && r->Err_0@ == "Invalid visual quality: "@ + s@,
            },
    {
        let l = fold_text(s);
        if same_text(l.as_str(), "low") {
            Ok(VisualQuality::Low)
        } else if same_text(l.as_str(), "medium") {
            Ok(VisualQuality::Medium)
        } else if same_text(l.as_str(), "high") {
            Ok(VisualQuality::High)
        } else {
            let mut msg = String::new();
            push_str(&mut msg, "Invalid visual quality: ");
            push_str(&mut msg, s);
            Err(msg)
        }
    }
}

/// Reading back the display name of a quality gives the same quality.
pub proof fn law_visual_quality_round_trip(q: VisualQuality)
    ensures
        quality_named(q.name()) == Some(q),
{
    reveal_strlit("Low");
    reveal_strlit("Medium");
    reveal_strlit("High");
    reveal_strlit("low");
    reveal_strlit("medium");
    reveal_strlit("high");
    let n = q.name();
    assert(is_ascii_text(n));
    match q {
        VisualQuality::Low => {
            assert(ascii_lower(n) =~= "low"@);
        },
        VisualQuality::Medium => {
            assert(ascii_lower(n) =~= "medium"@);
            assert(ascii_lower(n) != "low"@);
        },
        VisualQuality::High => {
            assert(ascii_lower(n) =~= "high"@);
            assert(ascii_lower(n) != "low"@);
            assert(ascii_lower(n) != "medium"@);
        },
    }
}

// ---------------------------------------------------------------------------
// Appearance

/// The colour theme of the desktop application.
#[derive(PartialEq, Eq, Structural, Clone, Copy, Debug)]
pub enum UiTheme {
    Light,
    Dark,
    System,
}

/// The theme that a saved setting names: `light` or `dark` in any case,
/// otherwise (or unset) the system's.
pub open spec fn theme_named(setting: Option<Seq<char>>) -> UiTheme {
    match setting {
        Some(s) => if folded(s) == "light"@ {
            UiTheme::Light
        } else if folded(s) == "dark"@ {
            UiTheme::Dark
        } else {
            UiTheme::System
        },
        None => UiTheme::System,
    }
}

impl UiTheme {
    /// The theme of the saved setting `theme_opt`.
    pub fn from_setting(theme_opt: Option<String>) -> (r: Self)
        ensures
            r == theme_named(match theme_opt { Some(s) => Some(s@), None => None }),
    {
        match theme_opt {
            Some(v) => {
                let l = fold_text(v.as_str());
                if same_text(l.as_str(), "light") {
                    UiTheme::Light
                } else if same_text(l.as_str(), "dark") {
                    UiTheme::Dark
                } else {
                    UiTheme::System
                }
            },
            None => UiTheme::System,
        }
    }

    /// The display name of the theme.
    pub open spec fn name(self) -> Seq<char> {
        match self {
            UiTheme::Light => "Light"@,
            UiTheme::Dark => "Dark"@,
            UiTheme::System => "System"@,
        }
    }

    /// The display name of the theme (what `Display` prints).
    pub fn to_text(&self) -> (r: String)
        ensures
            r@ == self.name(),
    {
        match self {
            UiTheme::Light => "Light".to_owned(),
            UiTheme::Dark => "Dark".to_owned(),
            UiTheme::System => "System".to_owned(),
        }
    }
}

// ---------------------------------------------------------------------------
// Conversion options

/// The options of the conversion of one document.
pub struct ConvertOptions {
    pub output_folder: Option<String>,
    pub filename_suffix: String,
    pub visual_quality: VisualQuality,
    pub ocr_lang_code: Option<String>,
    pub password_decrypt: Option<String>,
    pub password_encrypt: Option<String>,
}

impl ConvertOptions {
    /// Options from their values.
    pub fn new(output_folder: Option<String>,
               filename_suffix: String,
               visual_quality: VisualQuality,
               ocr_lang_code: Option<String>,
               password_decrypt: Option<String>,
               password_encrypt: Option<String>,
    ) -> (r: Self)
        ensures
            r.output_folder == output_folder,
            r.filename_suffix == filename_suffix,
            r.visual_quality == visual_quality,
            r.ocr_lang_code == ocr_lang_code,
            r.password_decrypt == password_decrypt,
            r.password_encrypt == password_encrypt,
    {
        ConvertOptions { output_folder, filename_suffix, visual_quality, ocr_lang_code, password_decrypt, password_encrypt }
    }

    /// A copy of the options.
    pub fn duplicate(&self) -> (r: Self)
        ensures
            opt_text(r.output_folder) == opt_text(self.output_folder),
            r.filename_suffix@ == self.filename_suffix@,
            r.visual_quality == self.visual_quality,
            opt_text(r.ocr_lang_code) == opt_text(self.ocr_lang_code),
            opt_text(r.password_decrypt) == opt_text(self.password_decrypt),
            opt_text(r.password_encrypt) == opt_text(self.password_encrypt),
    {
        ConvertOptions {
            output_folder: copy_opt(&self.output_folder),
            filename_suffix: self.filename_suffix.clone(),
            visual_quality: self.visual_quality,
            ocr_lang_code: copy_opt(&self.ocr_lang_code),
            password_decrypt: copy_opt(&self.password_decrypt),
            password_encrypt: copy_opt(&self.password_encrypt),
        }
    }
}

/// The text of an optional string.
pub open spec fn opt_text(o: Option<String>) -> Option<Seq<char>> {
    match o {
        Some(s) => Some(s@),
        None => None,
    }
}

fn copy_opt(o: &Option<String>) -> (r: Option<String>)
    ensures
        opt_text(r) == opt_text(*o),
{
    match o {
        Some(s) => Some(s.clone()),
        None => None,
    }
}

/// The options that one file of a batch overrides: each is empty where it
/// is not set.
pub struct FileUploadOptions {
    pub password_decrypt: String,
    pub password_encrypt: String,
    pub output_folder: String,
}

impl FileUploadOptions {
    /// Options that override nothing.
    pub fn empty() -> (r: Self)
        ensures
            r.password_decrypt@ == Seq::<char>::empty(),
            r.password_encrypt@ == Seq::<char>::empty(),
            r.output_folder@ == Seq::<char>::empty(),
    {
        FileUploadOptions { password_decrypt: String::new(), password_encrypt: String::new(), output_folder: String::new() }
    }
}

/// An override: the file's value where it is not blank, else the global one.
pub open spec fn overridden(global: Option<Seq<char>>, file_value: Seq<char>) -> Option<Seq<char>> {
    if is_blank(file_value) { global } else { Some(file_value) }
}

fn override_opt(global: &Option<String>, file_value: &String) -> (r: Option<String>)
    ensures
        opt_text(r) == overridden(opt_text(*global), file_value@),
{
    if is_blank_text(file_value.as_str()) { copy_opt(global) } else { Some(file_value.clone()) }
}

/// The options of one file of a batch: the global options, with the output
/// folder and the passwords that the file sets (where not blank).
pub fn combine_options(global_options: &ConvertOptions, file_options: &FileUploadOptions) -> (r: ConvertOptions)
    ensures
        opt_text(r.output_folder) == overridden(opt_text(global_options.output_folder), file_options.output_folder@),
        opt_text(r.password_decrypt) == overridden(opt_text(global_options.password_decrypt), file_options.password_decrypt@),
        opt_text(r.password_encrypt) == overridden(opt_text(global_options.password_encrypt), file_options.password_encrypt@),
        r.filename_suffix@ == global_options.filename_suffix@,
        r.visual_quality == global_options.visual_quality,
        opt_text(r.ocr_lang_code) == opt_text(global_options.ocr_lang_code),
{
    ConvertOptions {
        output_folder: override_opt(&global_options.output_folder, &file_options.output_folder),
        filename_suffix: global_options.filename_suffix.clone(),
        visual_quality: global_options.visual_quality,
        ocr_lang_code: copy_opt(&global_options.ocr_lang_code),
        password_decrypt: override_opt(&global_options.password_decrypt, &file_options.password_decrypt),
        password_encrypt: override_opt(&global_options.password_encrypt, &file_options.password_encrypt),
    }
}

/// A file that overrides nothing keeps the global options.
pub proof fn law_empty_overrides_keep_global(global: Option<Seq<char>>)
    ensures
        overridden(global, Seq::empty()) == global,
{
    assert(is_blank(Seq::<char>::empty()));
}

// ---------------------------------------------------------------------------
// Output files

/// The name of the `counter`-th candidate for the output of the input of
/// base name `stem`: `{stem}-{suffix}.pdf` first, then
/// `{stem}-{suffix}.{counter}.pdf`.
pub open spec fn output_candidate_name(stem: Seq<char>, suffix: Seq<char>, counter: nat) -> Seq<char> {
    if counter == 0 {
        stem + "-"@ + suffix + ".pdf"@
    } else {
        stem + "-"@ + suffix + "."@ + decimal(counter) + ".pdf"@
    }
}

/// The `counter`-th candidate path for the output of the input of base
/// name `stem` in the folder `dir`; the first that does not exist is used.
pub fn output_candidate(dir: &str, stem: &str, suffix: &str, counter: usize) -> (r: String)
    ensures
        r@ == join_path(dir@, output_candidate_name(stem@, suffix@, counter as nat)),
{
    let mut name = String::new();
    push_str(&mut name, stem);
    push_str(&mut name, "-");
    push_str(&mut name, suffix);
    if counter > 0 {
        push_str(&mut name, ".");
        let c = usize_to_text(counter);
        push_str(&mut name, c.as_str());
    }
    push_str(&mut name, ".pdf");
    join_path_text(dir, name.as_str())
}

/// The folder of the output: the chosen output folder, or the input's own.
pub fn output_folder_for(output_folder: Option<String>, input_parent: Option<String>) -> (r: Option<String>)
    ensures
        r == (match output_folder { Some(f) => Some(f), None => input_parent }),
{
    match output_folder {
        Some(f) => Some(f),
        None => input_parent,
    }
}

/// Where the outputs of `input` go: its base name, and the folder
/// `output_folder` where one is set, else the folder of `input`; `None`
/// where either cannot be determined.
pub open spec fn output_location_spec(input: Seq<char>, output_folder: Option<Seq<char>>) -> Option<(Seq<char>, Seq<char>)> {
    let folder = match output_folder { Some(f) => Some(f), None => parent_of(input) };
    match (stem_of(input), folder) {
        (Some(stem), Some(dir)) => Some((stem, dir)),
        _ => None,
    }
}

/// The base name of `input` and the folder its outputs go to.
pub fn output_location(input: &str, output_folder: Option<String>) -> (r: Option<(String, String)>)
    ensures
        match output_location_spec(input@, match output_folder { Some(f) => Some(f@), None => None }) {
            Some((stem, dir)) => r matches Some(p) && p.0@ == stem && p.1@ == dir,
            None => r is None,
        },
{
    let stem = path_file_stem(input);
    let folder = match output_folder {
        Some(f) => Some(f),
        None => path_parent(input),
    };
    match (stem, folder) {
        (Some(stem), Some(dir)) => Some((stem, dir)),
        _ => None,
    }
}

/// The `k`-th candidate path for the output of `stem` in `dir`.
pub open spec fn candidate_path(dir: Seq<char>, stem: Seq<char>, suffix: Seq<char>, k: nat) -> Seq<char> {
    join_path(dir, output_candidate_name(stem, suffix, k))
}

/// The texts of `v`.
pub open spec fn string_texts(v: Seq<String>) -> Seq<Seq<char>> {
    v.map_values(|s: String| s@)
}

proof fn lemma_candidate_paths_distinct(dir: Seq<char>, stem: Seq<char>, suffix: Seq<char>, c1: nat, c2: nat)
    requires
        c1 != c2,
    ensures
        candidate_path(dir, stem, suffix, c1) != candidate_path(dir, stem, suffix, c2),
{
    law_output_candidates_distinct(stem, suffix, c1, c2);
    let a = output_candidate_name(stem, suffix, c1);
    let b = output_candidate_name(stem, suffix, c2);
    reveal_strlit("-");
    assert(a.len() > 0 && b.len() > 0);
    assert(a[0] == b[0]) by {
        if stem.len() > 0 {
            assert(a[0] == stem[0] && b[0] == stem[0]);
        } else {
            assert(a[0] == '-' && b[0] == '-');
        }
    }
    let pa = candidate_path(dir, stem, suffix, c1);
    let pb = candidate_path(dir, stem, suffix, c2);
    if pa == pb && !(a[0] == '/') && dir.len() > 0 {
        let pre = if dir.last() == '/' { dir } else { dir + "/"@ };
        assert(pa == pre + a && pb == pre + b);
        assert(a =~= pa.subrange(pre.len() as int, pa.len() as int));
        assert(b =~= pb.subrange(pre.len() as int, pb.len() as int));
    }
}

proof fn lemma_taken_candidates_bounded(dir: Seq<char>, stem: Seq<char>, suffix: Seq<char>, taken: Seq<Seq<char>>, k: nat)
    requires
        forall|j: nat| j < k ==> taken.contains(#[trigger] candidate_path(dir, stem, suffix, j)),
    ensures
        k <= taken.len(),
{
    let cands = Seq::new(k, |j: int| candidate_path(dir, stem, suffix, j as nat));
    assert forall|i: int, j: int| 0 <= i < cands.len() && 0 <= j < cands.len() && i != j implies cands[i] != cands[j] by {
        lemma_candidate_paths_distinct(dir, stem, suffix, i as nat, j as nat);
    }
    cands.unique_seq_to_set();
    assert(cands.to_set().subset_of(taken.to_set())) by {
        assert forall|p: Seq<char>| cands.to_set().contains(p) implies taken.to_set().contains(p) by {
            let i = choose|i: int| 0 <= i < cands.len() && cands[i] == p;
            assert(taken.contains(candidate_path(dir, stem, suffix, i as nat)));
        }
    }
    vstd::set_lib::lemma_len_subset(cands.to_set(), taken.to_set());
    taken.lemma_cardinality_of_set();
}

fn holds_text(taken: &Vec<String>, p: &str) -> (r: bool)
    ensures
        r == string_texts(taken@).contains(p@),
{
    let mut i: usize = 0;
    while i < taken.len()
        invariant
            i <= taken@.len(),
            forall|k: int| 0 <= k < i ==> taken@[k]@ != p@,
        decreases taken.len() - i,
    {
        if same_text(taken[i].as_str(), p) {
            assert(string_texts(taken@)[i as int] == p@);
            return true;
        }
        i = i + 1;
    }
    proof {
        if string_texts(taken@).contains(p@) {
            let k = choose|k: int| 0 <= k < string_texts(taken@).len() && string_texts(taken@)[k] == p@;
            assert(taken@[k]@ == p@);
        }
    }
    false
}

/// The first candidate path for the output of `stem` in `dir` that is not
/// among `taken` (the paths that already exist): the candidates are tried
/// in order, `{stem}-{suffix}.pdf`, then `{stem}-{suffix}.1.pdf`, and so on.
pub fn first_free_output(dir: &str, stem: &str, suffix: &str, taken: &Vec<String>) -> (r: String)
    ensures
        exists|k: nat| r@ == #[trigger] candidate_path(dir@, stem@, suffix@, k)
            && forall|j: nat| j < k ==> string_texts(taken@).contains(#[trigger] candidate_path(dir@, stem@, suffix@, j)),
        !string_texts(taken@).contains(r@),
{
    let ghost t = string_texts(taken@);
    let mut counter: usize = 0;
    let mut candidate = output_candidate(dir, stem, suffix, 0);
    while holds_text(taken, candidate.as_str())
        invariant
            t == string_texts(taken@),
            candidate@ == candidate_path(dir@, stem@, suffix@, counter as nat),
            forall|j: nat| j < counter ==> t.contains(#[trigger] candidate_path(dir@, stem@, suffix@, j)),
            counter <= taken@.len(),
        decreases taken@.len() - counter,
    {
        proof {
            assert forall|j: nat| j < counter + 1 implies t.contains(#[trigger] candidate_path(dir@, stem@, suffix@, j)) by {
                if j == counter as nat {
                    assert(t.contains(candidate@));
                }
            }
            lemma_taken_candidates_bounded(dir@, stem@, suffix@, t, (counter + 1) as nat);
            assert(t.len() == taken@.len());
            assert(counter + 1 <= taken.len());
        }
        counter = counter + 1;
        candidate = output_candidate(dir, stem, suffix, counter);
    }
    candidate
}

/// The message given where the output location cannot be determined.
pub open spec fn output_path_error() -> Seq<char> {
    "Cannot determine resulting PDF output path based on selected input document location!"@
}

proof fn lemma_decimal_len_pos(n: nat)
    ensures
        decimal(n).len() >= 1,
    decreases n,
{
    if n >= 10 {
        lemma_decimal_len_pos(n / 10);
    }
}

proof fn lemma_digit_char_injective(a: nat, b: nat)
    requires
        a < 10,
        b < 10,
        crate::text::digit_char(a) == crate::text::digit_char(b),
    ensures
        a == b,
{
}

proof fn lemma_decimal_injective(a: nat, b: nat)
    requires
        decimal(a) == decimal(b),
    ensures
        a == b,
    decreases a + b,
{
    lemma_decimal_len_pos(a / 10);
    lemma_decimal_len_pos(b / 10);
    if a < 10 && b < 10 {
        assert(decimal(a) == seq![crate::text::digit_char(a)]);
        assert(decimal(b) == seq![crate::text::digit_char(b)]);
        assert(decimal(a)[0] == decimal(b)[0]);
        assert(seq![crate::text::digit_char(a)][0] == crate::text::digit_char(a));
        assert(seq![crate::text::digit_char(b)][0] == crate::text::digit_char(b));
        lemma_digit_char_injective(a, b);
    } else if a < 10 {
        assert(decimal(b).len() == decimal(b / 10).len() + 1);
        assert(decimal(a).len() == 1);
    } else if b < 10 {
        assert(decimal(a).len() == decimal(a / 10).len() + 1);
        assert(decimal(b).len() == 1);
    } else {
        let da = decimal(a);
        let db = decimal(b);
        assert(da == decimal(a / 10).push(crate::text::digit_char(a % 10)));
        assert(db == decimal(b / 10).push(crate::text::digit_char(b % 10)));
        assert(da.last() == db.last());
        lemma_digit_char_injective(a % 10, b % 10);
        assert(da.drop_last() == decimal(a / 10));
        assert(db.drop_last() == decimal(b / 10));
        lemma_decimal_injective(a / 10, b / 10);
    }
}

/// Different counters name different candidates, so that trying them in
/// turn never reuses a name.
pub proof fn law_output_candidates_distinct(stem: Seq<char>, suffix: Seq<char>, c1: nat, c2: nat)
    requires
        c1 != c2,
    ensures
        output_candidate_name(stem, suffix, c1) != output_candidate_name(stem, suffix, c2),
{
    let base = stem + "-"@ + suffix;
    let a = output_candidate_name(stem, suffix, c1);
    let b = output_candidate_name(stem, suffix, c2);
    reveal_strlit(".pdf");
    reveal_strlit(".");
    if c1 == 0 || c2 == 0 {
        let k: nat = if c1 == 0 { c2 } else { c1 };
        lemma_decimal_len_pos(k);
        if a == b {
            let short = base + ".pdf"@;
            let long = base + "."@ + decimal(k) + ".pdf"@;
            assert(long.len() > short.len());
            assert(short.len() == long.len());
        }
    } else {
        if a == b {
            let la = base + "."@ + decimal(c1);
            let lb = base + "."@ + decimal(c2);
            assert(a == la + ".pdf"@);
            assert(b == lb + ".pdf"@);
            assert(".pdf"@.len() == 4);
            assert(a.len() == la.len() + 4);
            assert(b.len() == lb.len() + 4);
            assert(la.len() == lb.len());
            assert(la =~= a.subrange(0, la.len() as int));
            assert(lb =~= b.subrange(0, lb.len() as int));
            assert(decimal(c1) =~= la.subrange(base.len() as int + 1, la.len() as int));
            assert(decimal(c2) =~= lb.subrange(base.len() as int + 1, lb.len() as int));
            lemma_decimal_injective(c1, c2);
        }
    }
}

// ---------------------------------------------------------------------------
// Settings

/// The settings saved by the desktop application.
pub struct AppConfig {
    pub ocr_lang: Option<String>,
    pub file_suffix: Option<String>,
    pub visual_quality: Option<String>,
    pub output_folder: Option<String>,
    pub ui_theme: Option<String>,
}

impl Default for AppConfig {
    /// No setting but the default file suffix.
    fn default() -> (r: Self)
        ensures
            r.ocr_lang is None,
            opt_text(r.file_suffix) == Some("entrusted"@),
            r.visual_quality is None,
            r.output_folder is None,
            r.ui_theme is None,
    {
        AppConfig {
            ocr_lang: None,
            file_suffix: Some(DEFAULT_FILE_SUFFIX.to_owned()),
            visual_quality: None,
            output_folder: None,
            ui_theme: None,
        }
    }
}

// ---------------------------------------------------------------------------
// Events

#[verifier::external_type_specification]
#[verifier::external_body]
pub struct ExUuid(Uuid);

#[verifier::external_type_specification]
#[verifier::external_body]
#[verifier::reject_recursive_types(T)]
pub struct ExSendError<T>(SendError<T>);

/// What the sanitization of a batch reports to the user interface.
pub enum AppEvent {
    /// The conversion of the file of this row started.
    ConversionStarted(usize),
    /// The document made progress: its id, the percentage and a message.
    ConversionProgressed(Uuid, usize, String),
    /// The conversion of the file of this row failed.
    ConversionFailed(usize),
    /// The conversion of the file of this row ended, with the output where
    /// it was not interrupted.
    ConversionFinished(usize, Option<String>),
    /// The batch ended: completed, failed and total tasks.
    AllConversionEnded(usize, usize, usize),
}

/// Where the events of a conversion go.
pub trait EventSender {
    /// Sends `evt`, or hands it back where the receiver is gone.
    fn send(&self, evt: AppEvent) -> Result<(), SendError<AppEvent>>;
}

/// The summary event of a batch of `count` tasks of which `failed` failed.
pub fn batch_ended(failed: usize, count: usize) -> (r: AppEvent)
    requires
        failed <= count,
    ensures
        r == AppEvent::AllConversionEnded((count - failed) as usize, failed, count),
{
    AppEvent::AllConversionEnded(count - failed, failed, count)
}

// ---------------------------------------------------------------------------
// The sanitizer

/// The locations of the office suite and of the OCR data that the
/// sanitizer uses, where they were found.
pub struct Sanitizer {
    pub office_opt: Option<String>,
    pub tessdata_opt: Option<String>,
}

impl Sanitizer {
    /// The sanitizer with the office suite and OCR data found at `data`.
    pub fn new(data: (Option<String>, Option<String>)) -> (r: Self)
        ensures
            r.office_opt == data.0,
            r.tessdata_opt == data.1,
    {
        Sanitizer { office_opt: data.0, tessdata_opt: data.1 }
    }
}

/// The working folder of the conversion of the document `doc_id`: the
/// application's folder in `tmp_dir`, then the document's own.
pub open spec fn work_dir_spec(tmp_dir: Seq<char>, doc_id: Seq<char>) -> Seq<char> {
    join_path(join_path(tmp_dir, "com.rimerosolutions.entrusted"@), doc_id)
}

/// The working folder of the conversion of the document `doc_id`.
pub fn work_dir(tmp_dir: &str, doc_id: &str) -> (r: String)
    ensures
        r@ == work_dir_spec(tmp_dir@, doc_id@),
{
    let app_dir = join_path_text(tmp_dir, NAMESPACE_APP);
    proof { reveal_strlit("com.rimerosolutions.entrusted"); }
    join_path_text(app_dir.as_str(), doc_id)
}


// ---------------------------------------------------------------------------
// Command line

/// The file suffix of the command line: the one given, else the saved
/// one, else the default.
pub fn file_suffix_choice(given: Option<String>, saved: Option<String>) -> (r: String)
    ensures
        r@ == match given {
            Some(g) => g@,
            None => match saved { Some(s) => s@, None => "entrusted"@ },
        },
{
    match given {
        Some(g) => g,
        None => match saved {
            Some(s) => s,
            None => DEFAULT_FILE_SUFFIX.to_owned(),
        },
    }
}

/// The visual quality of the command line: the one named, else the
/// default (`medium`).
pub fn visual_quality_choice(given: Option<&str>) -> (r: Result<VisualQuality, String>)
    ensures
        match given {
            Some(g) => match quality_named(g@) {
                Some(q) => r == Ok::<VisualQuality, String>(q),
                None => r is Err && r->Err_0@ == "Invalid visual quality: "@ + g@,
            },
            None => r == Ok::<VisualQuality, String>(VisualQuality::Medium),
        },
{
    match given {
        Some(g) => VisualQuality::from_str(g),
        None => Ok(VisualQuality::default_value()),
    }
}


// ---------------------------------------------------------------------------
// Settings screen

/// The state of a file of a batch.
#[derive(PartialEq, Eq, Structural, Clone, Copy, Debug)]
pub enum FileUploadStatus {
    Pending,
    Processing,
    Interrupted,
    Succeeded,
    Failed,
}

impl FileUploadStatus {
    /// The display name of the state.
    pub open spec fn name(self) -> Seq<char> {
        match self {
            FileUploadStatus::Pending => "Pending"@,
            FileUploadStatus::Processing => "Processing"@,
            FileUploadStatus::Interrupted => "Interrupted"@,
            FileUploadStatus::Succeeded => "Succeeded"@,
            FileUploadStatus::Failed => "Failed"@,
        }
    }

    /// The display name of the state (what `Display` prints).
    pub fn to_text(&self) -> (r: String)
        ensures
            r@ == self.name(),
    {
        match self {
            FileUploadStatus::Pending => "Pending".to_owned(),
            FileUploadStatus::Processing => "Processing".to_owned(),
            FileUploadStatus::Interrupted => "Interrupted".to_owned(),
            FileUploadStatus::Succeeded => "Succeeded".to_owned(),
            FileUploadStatus::Failed => "Failed".to_owned(),
        }
    }
}

/// The codes of `codes` whose box is ticked in `selections`, in order.
pub open spec fn ticked_codes(codes: Seq<Seq<char>>, selections: Seq<bool>) -> Seq<Seq<char>>
    decreases codes.len(),
{
    if codes.len() == 0 {
        Seq::empty()
    } else {
        let rest = ticked_codes(codes.drop_last(), selections);
        let i = codes.len() - 1;
        if i < selections.len() && selections[i] { rest.push(codes.last()) } else { rest }
    }
}

/// The OCR setting of the settings screen: the ticked language codes
/// joined by `+`, where OCR is enabled and one is ticked.
pub open spec fn ocr_setting_spec(enable_ocr: bool, codes: Seq<Seq<char>>, selections: Seq<bool>) -> Option<Seq<char>> {
    if enable_ocr && ticked_codes(codes, selections).len() > 0 {
        Some(crate::runner::join_words(ticked_codes(codes, selections), "+"@))
    } else {
        None
    }
}

/// The OCR languages chosen on the settings screen.
pub fn ocr_setting(enable_ocr: bool, codes: &Vec<String>, selections: &Vec<bool>) -> (r: Option<String>)
    requires
        selections.len() == codes.len(),
    ensures
        opt_text(r) == ocr_setting_spec(enable_ocr, codes@.map_values(|c: String| c@), selections@),
{
    if !enable_ocr {
        return None;
    }
    let ghost cv = codes@.map_values(|c: String| c@);
    let mut joined = String::new();
    let mut count: usize = 0;
    let mut i: usize = 0;
    while i < codes.len()
        invariant
            cv == codes@.map_values(|c: String| c@),
            selections.len() == codes.len(),
            i <= codes.len(),
            count as nat == ticked_codes(cv.take(i as int), selections@).len(),
            count <= i,
            joined@ == crate::runner::join_words(ticked_codes(cv.take(i as int), selections@), "+"@),
        decreases codes.len() - i,
    {
        assert(cv.take(i + 1).drop_last() =~= cv.take(i as int));
        assert(cv.take(i + 1).last() == codes@[i as int]@);
        let ghost before = ticked_codes(cv.take(i as int), selections@);
        if selections[i] {
            assert(ticked_codes(cv.take(i + 1), selections@) == before.push(codes@[i as int]@));
            assert(before.push(codes@[i as int]@).drop_last() =~= before);
            if count > 0 {
                push_str(&mut joined, "+");
            }
            push_str(&mut joined, codes[i].as_str());
            count = count + 1;
        } else {
            assert(ticked_codes(cv.take(i + 1), selections@) == before);
        }
        i = i + 1;
    }
    assert(cv.take(codes.len() as int) =~= cv);
    if count > 0 { Some(joined) } else { None }
}

/// The output folder of the settings screen: none where results go beside
/// their inputs or no folder is given, the folder otherwise.
pub fn output_folder_setting(same_folder: bool, dedicated_folder: &str) -> (r: Option<String>)
    ensures
        opt_text(r) == if same_folder || is_blank(dedicated_folder@) { None } else { Some(dedicated_folder@) },
{
    if same_folder || is_blank_text(dedicated_folder) {
        None
    } else {
        Some(dedicated_folder.to_owned())
    }
}


/// `char::to_uppercase`: the upper-case form of `c` by Unicode's rules,
/// which may be more than one character.
pub uninterp spec fn uppercase_of(c: char) -> Seq<char>;

/// The ASCII upper-case form of `c`: the letters `a` to `z` raised, the
/// other characters kept.
pub open spec fn ascii_upper_char(c: char) -> char {
    if 'a' <= c && c <= 'z' { ((c as u32) - 32) as char } else { c }
}

/// `char::to_uppercase`, collected. Of an ASCII character, Unicode's
/// mapping raises the letters `a` to `z` and keeps the others.
#[verifier::external_body]
fn char_to_uppercase(c: char) -> (r: String)
    ensures
        r@ == uppercase_of(c),
        (c as u32) < 128 ==> r@ == seq![ascii_upper_char(c)],
{
    c.to_uppercase().collect()
}

/// `text` with its first character in upper case.
pub open spec fn capitalized(text: Seq<char>) -> Seq<char> {
    if text.len() == 0 { Seq::empty() } else { uppercase_of(text[0]) + text.drop_first() }
}

/// `text` with its first character in upper case.
pub fn capitalize_first_letter(text: &str) -> (r: String)
    ensures
        r@ == capitalized(text@),
        text@.len() > 0 && (text@[0] as u32) < 128 ==> r@ == seq![ascii_upper_char(text@[0])] + text@.drop_first(),
{
    let chars = crate::text::chars_of(text);
    if chars.len() == 0 {
        return String::new();
    }
    let mut r = char_to_uppercase(chars[0]);
    crate::text::push_range(&mut r, &chars, 1, chars.len());
    assert(chars@.subrange(1, chars@.len() as int) =~= text@.drop_first());
    r
}

} // verus!
