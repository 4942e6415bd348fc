//! The desktop client that drives a container runtime: its options and
//! settings, the progress messages that the sanitizer prints, the default
//! output location and the check for a newer release.
use vstd::prelude::*;
use crate::text::push_str;
use crate::paths::{join_path, join_path_text, parent_of, path_file_stem, path_parent, stem_of};
use crate::options::opt_text;
use crate::l10n::{catalog_forms, gettext_spec, GettextTranslations, Translations};
use semver::{Version, VersionReq};

verus! {

/// The suffix given to sanitized files by default.
pub const DEFAULT_FILE_SUFFIX: &'static str = "entrusted";

/// The JSON log format of the sanitizer.
pub const LOG_FORMAT_JSON: &'static str = "json";

/// The version of this program.
pub const APP_VERSION: &'static str = "0.1.0";

/// The options of a conversion run in a container.
pub struct ConvertOptions {
    pub container_image_name: String,
    pub log_format: String,
    pub visual_quality: String,
    pub opt_ocr_lang: Option<String>,
    pub opt_passwd: Option<String>,
    pub seccomp_profile_enabled: bool,
}

impl ConvertOptions {
    /// Options from their values.
    pub fn new(container_image_name: String,
               log_format: String,
               visual_quality: String,
               opt_ocr_lang: Option<String>,
               opt_passwd: Option<String>,
               seccomp_profile_enabled: bool,
    ) -> (r: Self)
        ensures
            r.container_image_name == container_image_name,
            r.log_format == log_format,
            r.visual_quality == visual_quality,
            r.opt_ocr_lang == opt_ocr_lang,
            r.opt_passwd == opt_passwd,
            r.seccomp_profile_enabled == seccomp_profile_enabled,
    {
        ConvertOptions { container_image_name, log_format, visual_quality, opt_ocr_lang, opt_passwd, seccomp_profile_enabled }
    }
}

/// A progress line of the sanitizer: its message and its percentage.
pub struct LogMessage {
    pub data: String,
    pub percent_complete: usize,
}

impl LogMessage {
    /// The progress line of `data` at `percent_complete`.
    pub fn new(data: String, percent_complete: usize) -> (r: Self)
        ensures
            r.data == data,
            r.percent_complete == percent_complete,
    {
        LogMessage { data, percent_complete }
    }
}

/// A published release: its page and its tag.
pub struct ReleaseInfo {
    pub html_url: String,
    pub tag_name: String,
}

/// The settings saved by the desktop client.
pub struct AppConfig {
    pub ocr_lang: Option<String>,
    pub file_suffix: Option<String>,
    pub container_image_name: Option<String>,
    pub openwith_appname: Option<String>,
    pub visual_quality: Option<String>,
    pub seccomp_profile_disabled: Option<bool>,
}

impl Default for AppConfig {
    /// No setting but the default file suffix.
    fn default() -> (r: Self)
        ensures
            r.ocr_lang is None,
            opt_text(r.file_suffix) == Some("entrusted"@),
            r.container_image_name is None,
            r.openwith_appname is None,
            r.visual_quality is None,
            r.seccomp_profile_disabled is None,
    {
        AppConfig {
            ocr_lang: None,
            file_suffix: Some(DEFAULT_FILE_SUFFIX.to_owned()),
            container_image_name: None,
            openwith_appname: None,
            visual_quality: None,
            seccomp_profile_disabled: None,
        }
    }
}

/// The image of the sanitizer for the version `version` of the client.
pub open spec fn container_image_for(version: Seq<char>) -> Seq<char> {
    "docker.io/uycyjnzgntrn/entrusted_container"@ + ":"@ + version
}

/// The image of the sanitizer that matches the version `version`.
pub fn container_image_name_for(version: &str) -> (r: String)
    ensures
        r@ == container_image_for(version@),
{
    let mut r = String::new();
    push_str(&mut r, "docker.io/uycyjnzgntrn/entrusted_container");
    push_str(&mut r, ":");
    push_str(&mut r, version);
    r
}

/// The image of the sanitizer that matches this client.
pub fn default_container_image_name() -> (r: String)
    ensures
        r@ == container_image_for(APP_VERSION@),
{
    container_image_name_for(APP_VERSION)
}

/// The message given where the output location cannot be determined.
pub open spec fn output_path_error() -> Seq<char> {
    "Cannot determine resulting PDF output path based on selected input document location!"@
}

/// The default output of the input `input`: `{stem}-{suffix}.pdf` beside it.
pub open spec fn default_output_spec(input: Seq<char>, file_suffix: Seq<char>) -> Option<Seq<char>> {
    match (stem_of(input), parent_of(input)) {
        (Some(stem), Some(dir)) => Some(join_path(dir, stem + "-"@ + file_suffix + ".pdf"@)),
        _ => None,
    }
}

/// The default output of the input `input`, or the message given where the
/// input has no base name or folder.
pub fn default_output_path(input: &str, file_suffix: &str) -> (r: Result<String, String>)
    ensures
        match default_output_spec(input@, file_suffix@) {
            Some(p) => r is Ok && r->Ok_0@ == p,
            None => r is Err && r->Err_0@ == output_path_error(),
        },
{
    match (path_file_stem(input), path_parent(input)) {
        (Some(stem), Some(dir)) => {
            let mut name = String::new();
            push_str(&mut name, stem.as_str());
            push_str(&mut name, "-");
            push_str(&mut name, file_suffix);
            push_str(&mut name, ".pdf");
            Ok(join_path_text(dir.as_str(), name.as_str()))
        },
        _ => Err("Cannot determine resulting PDF output path based on selected input document location!".to_owned()),
    }
}

/// Where the first command-line client writes the result of `input`:
/// `{stem}-safe.pdf` beside it.
pub open spec fn safe_output_spec(input: Seq<char>) -> Option<Seq<char>> {
    match (stem_of(input), parent_of(input)) {
        (Some(stem), Some(dir)) => Some(join_path(dir, stem + "-safe.pdf"@)),
        _ => None,
    }
}

/// The result path of `input` of the first command-line client, or the
/// message given where the input has no base name or folder.
pub fn get_output_path(input: &str) -> (r: Result<String, String>)
    ensures
        match safe_output_spec(input@) {
            Some(p) => r is Ok && r->Ok_0@ == p,
            None => r is Err && r->Err_0@ == "Cannot determine PDF output path!"@,
        },
{
    match (path_file_stem(input), path_parent(input)) {
        (Some(stem), Some(dir)) => {
            let mut name = String::new();
            push_str(&mut name, stem.as_str());
            push_str(&mut name, "-safe.pdf");
            Ok(join_path_text(dir.as_str(), name.as_str()))
        },
        _ => Err("Cannot determine PDF output path!".to_owned()),
    }
}

// ---------------------------------------------------------------------------
// Release check

#[verifier::external_type_specification]
#[verifier::external_body]
pub struct ExVersionReq(VersionReq);

#[verifier::external_type_specification]
#[verifier::external_body]
pub struct ExVersion(Version);

#[verifier::external_type_specification]
#[verifier::external_body]
pub struct ExSemverError(semver::Error);

/// Whether `semver` reads `text` as a version requirement.
pub uninterp spec fn is_version_req(text: Seq<char>) -> bool;

/// Whether `semver` reads `text` as a version.
pub uninterp spec fn is_version(text: Seq<char>) -> bool;

/// `VersionReq::parse`.
#[verifier::external_body]
fn parse_version_req(text: &str) -> (r: Result<VersionReq, semver::Error>)
    ensures
        r is Ok == is_version_req(text@),
{
    VersionReq::parse(text)
}

/// `Version::parse`.
#[verifier::external_body]
fn parse_version(text: &str) -> (r: Result<Version, semver::Error>)
    ensures
        r is Ok == is_version(text@),
{
    Version::parse(text)
}

/// Whether the version read from `version` meets the requirement read from
/// `req`, as `semver` decides it.
pub uninterp spec fn version_req_matches(req: Seq<char>, version: Seq<char>) -> bool;

/// A version requirement and a version, each kept with the text that
/// `semver` read it from.
pub struct VersionPair {
    req_text: String,
    req: VersionReq,
    version_text: String,
    version: Version,
}

impl VersionPair {
    /// The texts of the requirement and of the version.
    pub closed spec fn view(&self) -> (Seq<char>, Seq<char>) {
        (self.req_text@, self.version_text@)
    }

    /// The requirement read from `req_text` and the version read from
    /// `version_text`, where both can be read.
    pub fn parse(req_text: &str, version_text: &str) -> (r: Result<Self, bool>)
        ensures
            match r {
                Ok(p) => is_version_req(req_text@) && is_version(version_text@) && p@ == (req_text@, version_text@),
                Err(req_failed) => req_failed == !is_version_req(req_text@)
                    && (!req_failed ==> !is_version(version_text@)),
            },
    {
        match parse_version_req(req_text) {
            Err(_) => Err(true),
            Ok(req) => match parse_version(version_text) {
                Err(_) => Err(false),
                Ok(version) => Ok(VersionPair {
                    req_text: req_text.to_string(),
                    req,
                    version_text: version_text.to_string(),
                    version,
                }),
            },
        }
    }
}

/// `VersionReq::matches`: whether the version of `pair` meets its
/// requirement, both read by `semver` from the texts that `pair` keeps.
#[verifier::external_body]
fn version_matches(pair: &VersionPair) -> (r: bool)
    ensures
        r == version_req_matches(pair@.0, pair@.1),
{
    pair.req.matches(&pair.version)
}

/// The release offered to the user: `release` where it is newer, nothing
/// otherwise.
pub fn offered_release(newer: bool, release: ReleaseInfo) -> (r: Option<ReleaseInfo>)
    ensures
        newer ==> r == Some(release),
        !newer ==> r is None,
{
    if newer { Some(release) } else { None }
}

/// The outcome of comparing the running version `current_version` with the
/// latest release `release`: nothing where they are the same; an error
/// where either version cannot be read; otherwise the release where it is
/// newer than the running version.
pub fn release_update(current_version: &str, release: ReleaseInfo, tr: &GettextTranslations) -> (r: Result<Option<ReleaseInfo>, String>)
    ensures
        current_version@ == release.tag_name@ ==> r == Ok::<Option<ReleaseInfo>, String>(None),
        current_version@ != release.tag_name@ && !is_version_req(">"@ + current_version@) ==>
            r is Err && r->Err_0@ == gettext_spec(catalog_forms(tr.catalog), "Could not current software version!"@),
        current_version@ != release.tag_name@ && is_version_req(">"@ + current_version@) && !is_version(release.tag_name@) ==>
            r is Err && r->Err_0@ == gettext_spec(catalog_forms(tr.catalog), "Could not read latest release version!"@),
        current_version@ != release.tag_name@ && is_version_req(">"@ + current_version@) && is_version(release.tag_name@) ==>
            r == Ok::<Option<ReleaseInfo>, String>(
                if version_req_matches(">"@ + current_version@, release.tag_name@) { Some(release) } else { None }),
{
    if crate::text::same_text(current_version, release.tag_name.as_str()) {
        return Ok(None);
    }
    let mut req_text = String::new();
    push_str(&mut req_text, ">");
    push_str(&mut req_text, current_version);
    match VersionPair::parse(req_text.as_str(), release.tag_name.as_str()) {
        Err(true) => Err(tr.gettext("Could not current software version!")),
        Err(false) => Err(tr.gettext("Could not read latest release version!")),
        Ok(pair) => {
            let newer = version_matches(&pair);
            Ok(offered_release(newer, release))
        },
    }
}

} // verus!
