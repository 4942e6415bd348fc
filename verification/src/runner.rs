//! The command lines that the desktop client and the web server run to
//! sanitize a document, and the messages they report about them.
use vstd::prelude::*;
use crate::paths::{join_path, join_path_text};
use crate::text::{decimal, push_str, text_contains, contains_text, usize_to_text, same_text};
use crate::containers::{texts, ocr_part, ContainerProgram, ENV_VAR_ENTRUSTED_DOC_PASSWD, ENV_VAR_ENTRUSTED_LANGID};
use crate::l10n::{catalog_forms, gettext_spec, gettext_fmt_spec, GettextTranslations, Translations};

verus! {

fn owned(s: &str) -> (r: String)
    ensures
        r@ == s@,
{
    s.to_owned()
}

fn push_owned(v: &mut Vec<String>, s: &str)
    ensures
        texts(final(v)@) == texts(old(v)@).push(s@),
{
    v.push(owned(s));
    assert(texts(v@) =~= texts(old(v)@).push(s@));
}

fn push_option_pair(v: &mut Vec<String>, flag: &str, value: &Option<String>)
    ensures
        texts(final(v)@) == texts(old(v)@) + match value {
            Some(x) => seq![flag@, x@],
            None => Seq::<Seq<char>>::empty(),
        },
{
    match value {
        Some(x) => {
            push_owned(v, flag);
            push_owned(v, x.as_str());
        },
        None => {
            assert(texts(v@) =~= texts(v@) + Seq::<Seq<char>>::empty());
        },
    }
}

/// The text of an optional string.
pub open spec fn opt_view(o: Option<String>) -> Option<Seq<char>> {
    match o {
        Some(s) => Some(s@),
        None => None,
    }
}

// ---------------------------------------------------------------------------
// The sanitizer run in place (inside a sandboxed desktop application)

/// The options of the in-place sanitizer: the OCR language where chosen,
/// the input and output files, the visual quality and the log format.
pub open spec fn native_args_spec(input: Seq<char>, output: Seq<char>, ocr_lang: Option<Seq<char>>, visual_quality: Seq<char>, log_format: Seq<char>) -> Seq<Seq<char>> {
    ocr_part(ocr_lang) + seq![
        "--input-filename"@, input, "--output-filename"@, output,
        "--visual-quality"@, visual_quality, "--log-format"@, log_format,
    ]
}

/// The options of the in-place sanitizer.
pub fn native_process_args(input: &str, output: &str, opt_ocr_lang: &Option<String>, visual_quality: &str, log_format: &str) -> (r: Vec<String>)
    ensures
        texts(r@) == native_args_spec(input@, output@, opt_view(*opt_ocr_lang), visual_quality@, log_format@),
{
    let mut r: Vec<String> = Vec::new();
    push_option_pair(&mut r, "--ocr-lang", opt_ocr_lang);
    assert(texts(r@) == ocr_part(opt_view(*opt_ocr_lang)));
    push_owned(&mut r, "--input-filename");
    push_owned(&mut r, input);
    push_owned(&mut r, "--output-filename");
    push_owned(&mut r, output);
    push_owned(&mut r, "--visual-quality");
    push_owned(&mut r, visual_quality);
    push_owned(&mut r, "--log-format");
    push_owned(&mut r, log_format);
    assert(texts(r@) =~= native_args_spec(input@, output@, opt_view(*opt_ocr_lang), visual_quality@, log_format@));
    r
}

/// The texts of a list of environment variables.
pub open spec fn env_texts(v: Seq<(String, String)>) -> Seq<(Seq<char>, Seq<char>)> {
    v.map_values(|p: (String, String)| (p.0@, p.1@))
}

/// The environment of the in-place sanitizer: the locale, and the
/// document's password where there is one.
pub open spec fn native_env_spec(langid: Seq<char>, passwd: Option<Seq<char>>) -> Seq<(Seq<char>, Seq<char>)> {
    seq![("ENTRUSTED_LANGID"@, langid)] + match passwd {
        Some(p) => seq![("ENTRUSTED_DOC_PASSWD"@, p)],
        None => Seq::empty(),
    }
}

/// The environment of the in-place sanitizer.
pub fn native_process_env(langid: &str, opt_passwd: &Option<String>) -> (r: Vec<(String, String)>)
    ensures
        env_texts(r@) == native_env_spec(langid@, opt_view(*opt_passwd)),
{
    let mut r: Vec<(String, String)> = Vec::new();
    r.push((owned(ENV_VAR_ENTRUSTED_LANGID), owned(langid)));
    match opt_passwd {
        Some(p) => {
            r.push((owned(ENV_VAR_ENTRUSTED_DOC_PASSWD), owned(p.as_str())));
        },
        None => {},
    }
    proof {
        reveal_strlit("ENTRUSTED_LANGID");
        reveal_strlit("ENTRUSTED_DOC_PASSWD");
    }
    assert(env_texts(r@) =~= native_env_spec(langid@, opt_view(*opt_passwd)));
    r
}

// ---------------------------------------------------------------------------
// The container image

/// The arguments that check that the image `image` is present.
pub fn image_inspect_args(image: &str) -> (r: Vec<String>)
    ensures
        texts(r@) == seq!["inspect"@, image@],
{
    let mut r: Vec<String> = Vec::new();
    push_owned(&mut r, "inspect");
    push_owned(&mut r, image);
    assert(texts(r@) =~= seq!["inspect"@, image@]);
    r
}

/// The arguments that download the image `image`.
pub fn image_pull_args(image: &str) -> (r: Vec<String>)
    ensures
        texts(r@) == seq!["pull"@, image@],
{
    let mut r: Vec<String> = Vec::new();
    push_owned(&mut r, "pull");
    push_owned(&mut r, image);
    assert(texts(r@) =~= seq!["pull"@, image@]);
    r
}

// ---------------------------------------------------------------------------
// Reporting a command

/// The words of `ws` separated by `sep`.
pub open spec fn join_words(ws: Seq<Seq<char>>, sep: Seq<char>) -> Seq<char>
    decreases ws.len(),
{
    if ws.len() == 0 {
        Seq::empty()
    } else if ws.len() == 1 {
        ws[0]
    } else {
        join_words(ws.drop_last(), sep) + sep + ws.last()
    }
}

/// What is shown of a word of a command line: the word, or a fixed mask
/// for a word that carries the document's password.
pub open spec fn masked_word(w: Seq<char>) -> Seq<char> {
    if contains_text(w, "ENTRUSTED_DOC_PASSWD"@) { "ENTRUSTED_DOC_PASSWD=***"@ } else { w }
}

/// The words of a command line as they are shown.
pub open spec fn masked_words(ws: Seq<Seq<char>>) -> Seq<Seq<char>> {
    ws.map_values(|w: Seq<char>| masked_word(w))
}

/// The command line of the runtime `exe` with its sub-commands and `args`,
/// as it is shown: the program, a space and the masked words.
pub open spec fn shown_command_line(exe: Seq<char>, words: Seq<Seq<char>>) -> Seq<char> {
    exe + " "@ + join_words(masked_words(words), " "@)
}

fn mask_word(w: &str) -> (r: &str)
    ensures
        r@ == masked_word(w@),
{
    if text_contains(w, ENV_VAR_ENTRUSTED_DOC_PASSWD) { "ENTRUSTED_DOC_PASSWD=***" } else { w }
}

/// The sub-commands of the runtime followed by the arguments.
pub open spec fn command_words(sub_commands: Seq<&str>, args: Seq<String>) -> Seq<Seq<char>> {
    sub_commands.map_values(|s: &str| s@) + texts(args)
}

/// The command line that is shown for running `exe` with `sub_commands`
/// and `args`, the document's password masked.
pub fn shown_command(exe: &str, sub_commands: &Vec<&str>, args: &Vec<String>) -> (r: String)
    requires
        sub_commands.len() + args.len() <= usize::MAX,
    ensures
        r@ == shown_command_line(exe@, command_words(sub_commands@, args@)),
{
    let ghost words = command_words(sub_commands@, args@);
    let mut line = String::new();
    let mut i: usize = 0;
    let n = sub_commands.len() + args.len();
    while i < n
        invariant
            words == command_words(sub_commands@, args@),
            n == words.len(),
            i <= n,
            line@ == join_words(masked_words(words).take(i as int), " "@),
        decreases n - i,
    {
        let w: &str = if i < sub_commands.len() { sub_commands[i] } else { args[i - sub_commands.len()].as_str() };
        assert(w@ == words[i as int]);
        let m = mask_word(w);
        if i > 0 {
            push_str(&mut line, " ");
        }
        push_str(&mut line, m);
        assert(masked_words(words).take(i + 1).drop_last() =~= masked_words(words).take(i as int));
        i = i + 1;
    }
    assert(masked_words(words).take(n as int) =~= masked_words(words));
    let mut r = String::new();
    push_str(&mut r, exe);
    push_str(&mut r, " ");
    push_str(&mut r, line.as_str());
    r
}

/// No word shown of a command line carries the password variable but the
/// fixed mask; the other words are shown as they are.
pub proof fn law_shown_words_hide_password(words: Seq<Seq<char>>, i: int)
    requires
        0 <= i < words.len(),
    ensures
        masked_words(words).len() == words.len(),
        contains_text(words[i], "ENTRUSTED_DOC_PASSWD"@) ==> masked_words(words)[i] == "ENTRUSTED_DOC_PASSWD=***"@,
        !contains_text(words[i], "ENTRUSTED_DOC_PASSWD"@) ==> masked_words(words)[i] == words[i],
{
}

/// The message that announces a command.
pub fn running_command_message(tr: &GettextTranslations, exe: &str, sub_commands: &Vec<&str>, args: &Vec<String>) -> (r: String)
    requires
        sub_commands.len() + args.len() <= usize::MAX,
    ensures
        exists|line: &str| line@ == shown_command_line(exe@, command_words(sub_commands@, args@))
            && r@ == gettext_fmt_spec(gettext_spec(catalog_forms(tr.catalog), "Running command: {0}"@), seq![line]),
{
    let line = shown_command(exe, sub_commands, args);
    let l: &str = line.as_str();
    let params: Vec<&str> = vec![l];
    assert(params@ == seq![l]);
    tr.gettext_fmt("Running command: {0}", params)
}

/// A progress line in plain format: the percentage, `% ` and the message.
pub open spec fn plain_progress_line(percent: nat, data: Seq<char>) -> Seq<char> {
    decimal(percent) + "% "@ + data
}

/// Renders a progress line in plain format.
pub fn print_progress_plain(percent_complete: usize, data: String) -> (r: String)
    ensures
        r@ == plain_progress_line(percent_complete as nat, data@),
{
    let mut r = usize_to_text(percent_complete);
    push_str(&mut r, "% ");
    push_str(&mut r, data.as_str());
    r
}

/// Whether progress is printed in plain format rather than as JSON.
pub fn is_plain_log_format(log_format: &str) -> (r: bool)
    ensures
        r == (log_format@ == "plain"@),
{
    same_text(log_format, "plain")
}

/// The message that announces the conversion of `path`.
pub fn converting_message(tr: &GettextTranslations, path: &str) -> (r: String)
    ensures
        r@ == gettext_spec(catalog_forms(tr.catalog), "Converting"@) + " "@ + path@,
{
    let mut r = tr.gettext("Converting");
    push_str(&mut r, " ");
    push_str(&mut r, path);
    r
}

// ---------------------------------------------------------------------------
// Failures

/// The explanation of an abrupt end of the container process with exit
/// code `code` (out of memory, or a memory access fault).
pub open spec fn crash_explanation_spec(forms: Map<Seq<char>, Seq<Seq<char>>>, code: Option<i32>) -> Option<Seq<char>> {
    match code {
        Some(c) => if c == 139 {
            Some(gettext_spec(forms, "Conversion failed!"@) + " "@ + gettext_spec(forms, "Container process terminated abruptly potentially due to a memory access fault. Please report the issue at: https://github.com/rimerosolutions/entrusted/issues"@))
        } else if c == 137 {
            Some(gettext_spec(forms, "Conversion failed!"@) + " "@ + gettext_spec(forms, "Container process terminated abruptly potentially due to memory usage. Are PDF pages too big? Try increasing the container engine memory allocation?"@))
        } else {
            None
        },
        None => None,
    }
}

/// The failure message reported where the container process ended with the
/// exit code `code` (`None` where it was ended by a signal), if any.
pub fn crash_explanation(tr: &GettextTranslations, code: Option<i32>) -> (r: Option<String>)
    ensures
        opt_view(r) == crash_explanation_spec(catalog_forms(tr.catalog), code),
{
    match code {
        Some(c) => {
            if c == 139 || c == 137 {
                let explanation = if c == 139 {
                    tr.gettext("Container process terminated abruptly potentially due to a memory access fault. Please report the issue at: https://github.com/rimerosolutions/entrusted/issues")
                } else {
                    tr.gettext("Container process terminated abruptly potentially due to memory usage. Are PDF pages too big? Try increasing the container engine memory allocation?")
                };
                let mut r = tr.gettext("Conversion failed!");
                push_str(&mut r, " ");
                push_str(&mut r, explanation.as_str());
                Some(r)
            } else {
                None
            }
        },
        None => None,
    }
}

/// What happens to the files once the container has run: the output file
/// already there is removed; the sanitized result, where the container
/// wrote it, is copied to the output and then removed; otherwise the
/// conversion fails with `error`.
pub struct FinishPlan {
    pub remove_existing_output: bool,
    pub copy_result: bool,
    pub error: Option<String>,
}

/// The message given where the container ran but wrote no result.
pub open spec fn missing_result_message() -> Seq<char> {
    "Potential sanitization process crash detected, the sanitized PDF result was not created."@
}

/// The plan for the files after a run of the container that succeeded,
/// where `output_exists` tells whether the output file is already there and
/// `result_exists` whether the container wrote its result.
pub fn finish_plan(tr: &GettextTranslations, output_exists: bool, result_exists: bool) -> (r: FinishPlan)
    ensures
        r.remove_existing_output == output_exists,
        r.copy_result == result_exists,
        result_exists ==> r.error is None,
        !result_exists ==> (r.error matches Some(e) && e@ == gettext_spec(catalog_forms(tr.catalog), missing_result_message())),
{
    let error = if result_exists {
        None
    } else {
        Some(tr.gettext("Potential sanitization process crash detected, the sanitized PDF result was not created."))
    };
    FinishPlan { remove_existing_output: output_exists, copy_result: result_exists, error }
}

/// The two commands that make sure the sanitizing image is present.
#[derive(PartialEq, Eq, Structural, Clone, Copy, Debug)]
pub enum ImageCommand {
    Inspect,
    Pull,
}

/// What follows an image command: run another one after showing a
/// progress message, be done (showing a message, if any), or fail with a
/// message shown at full progress.
pub enum ImageAction {
    Run(ImageCommand, usize, String),
    Done(Option<(usize, String)>),
    Fail(String),
}

/// What follows the image command `command`, which succeeded or not: an
/// image that is present is used; one that is missing is downloaded, with a
/// notice; a failed download fails.
pub fn after_image_command(tr: &GettextTranslations, command: ImageCommand, succeeded: bool) -> (r: ImageAction)
    ensures
        command == ImageCommand::Inspect && succeeded ==> r matches ImageAction::Done(None),
        command == ImageCommand::Inspect && !succeeded ==> (r matches ImageAction::Run(c, p, m)
            && c == ImageCommand::Pull && p == 1
            && m@ == gettext_spec(catalog_forms(tr.catalog), "Please wait, downloading sandbox image (roughly 600 MB)"@)),
        command == ImageCommand::Pull && succeeded ==> (r matches ImageAction::Done(Some((p, m)))
            && p == 5 && m@ == gettext_spec(catalog_forms(tr.catalog), "Container image download completed..."@)),
        command == ImageCommand::Pull && !succeeded ==> (r matches ImageAction::Fail(m)
            && m@ == gettext_spec(catalog_forms(tr.catalog), "Couldn't download container image!"@)),
{
    match command {
        ImageCommand::Inspect => {
            if succeeded {
                ImageAction::Done(None)
            } else {
                ImageAction::Run(ImageCommand::Pull, 1, tr.gettext("Please wait, downloading sandbox image (roughly 600 MB)"))
            }
        },
        ImageCommand::Pull => {
            if succeeded {
                ImageAction::Done(Some((5, tr.gettext("Container image download completed..."))))
            } else {
                ImageAction::Fail(tr.gettext("Couldn't download container image!"))
            }
        },
    }
}

/// Where the input file named `file_name` is copied for a runtime that
/// shares only the folder `tmp_dir` with its containers:
/// `{tmp_dir}/entrusted/requests/{file_name}`.
pub open spec fn shared_input_spec(tmp_dir: Seq<char>, file_name: Seq<char>) -> Seq<char> {
    join_path(join_path(join_path(tmp_dir, "entrusted"@), "requests"@), file_name)
}

/// The folder of `shared_input_spec`: `{tmp_dir}/entrusted/requests`.
pub fn shared_input_dir(tmp_dir: &str) -> (r: String)
    ensures
        r@ == join_path(join_path(tmp_dir@, "entrusted"@), "requests"@),
{
    let base = join_path_text(tmp_dir, "entrusted");
    join_path_text(base.as_str(), "requests")
}

/// Where the input file named `file_name` is copied for a runtime that
/// shares only the folder `tmp_dir` with its containers.
pub fn shared_input_path(tmp_dir: &str, file_name: &str) -> (r: String)
    ensures
        r@ == shared_input_spec(tmp_dir@, file_name@),
{
    let dir = shared_input_dir(tmp_dir);
    join_path_text(dir.as_str(), file_name)
}

/// The operating systems that the desktop client gives advice for.
#[derive(PartialEq, Eq, Structural, Clone, Copy, Debug)]
pub enum HostOs {
    Windows,
    MacOs,
    Other,
}

/// The advice given where no container runtime is found.
pub open spec fn install_advice(os: HostOs) -> Seq<char> {
    match os {
        HostOs::Windows => "Please install Docker and make sure that it's running."@,
        HostOs::MacOs => "Please install Docker Desktop and make sure that it's running."@,
        HostOs::Other => "Please install Docker or Podman, and make sure that it's running."@,
    }
}

/// The message reported where no container runtime is found on `os`.
pub fn missing_runtime_message(tr: &GettextTranslations, os: HostOs) -> (r: String)
    ensures
        r@ == gettext_spec(catalog_forms(tr.catalog), "No container runtime executable found!"@) + "\n"@
            + gettext_spec(catalog_forms(tr.catalog), install_advice(os)),
{
    let mut r = tr.gettext("No container runtime executable found!");
    push_str(&mut r, "\n");
    let advice = match os {
        HostOs::Windows => tr.gettext("Please install Docker and make sure that it's running."),
        HostOs::MacOs => tr.gettext("Please install Docker Desktop and make sure that it's running."),
        HostOs::Other => tr.gettext("Please install Docker or Podman, and make sure that it's running."),
    };
    push_str(&mut r, advice.as_str());
    r
}

// ---------------------------------------------------------------------------
// The command-line sanitizer run by the web server

/// The options of the command-line sanitizer run for a web request: JSON
/// logs, the image, the output and input files, the OCR language where
/// chosen and the password prompt where a password was given.
pub open spec fn cli_args_spec(image: Seq<char>, output: Seq<char>, input: Seq<char>, ocr_lang: Option<Seq<char>>, has_passwd: bool) -> Seq<Seq<char>> {
    seq![
        "--log-format"@, "json"@, "--container-image-name"@, image,
        "--output-filename"@, output, "--input-filename"@, input,
    ] + ocr_part(ocr_lang) + if has_passwd { seq!["--passwd-prompt"@] } else { Seq::empty() }
}

/// The options of the command-line sanitizer run for a web request.
pub fn cli_conversion_args(image: &str, output: &str, input: &str, opt_ocr_lang: &Option<String>, has_passwd: bool) -> (r: Vec<String>)
    ensures
        texts(r@) == cli_args_spec(image@, output@, input@, opt_view(*opt_ocr_lang), has_passwd),
{
    let mut r: Vec<String> = Vec::new();
    push_owned(&mut r, "--log-format");
    push_owned(&mut r, "json");
    push_owned(&mut r, "--container-image-name");
    push_owned(&mut r, image);
    push_owned(&mut r, "--output-filename");
    push_owned(&mut r, output);
    push_owned(&mut r, "--input-filename");
    push_owned(&mut r, input);
    let ghost base = texts(r@);
    push_option_pair(&mut r, "--ocr-lang", opt_ocr_lang);
    if has_passwd {
        push_owned(&mut r, "--passwd-prompt");
    }
    assert(texts(r@) =~= cli_args_spec(image@, output@, input@, opt_view(*opt_ocr_lang), has_passwd));
    r
}

/// The environment of the command-line sanitizer run for a web request:
/// the locale, and the password to enter where one was given.
pub open spec fn cli_env_spec(langid: Seq<char>, passwd: Option<Seq<char>>) -> Seq<(Seq<char>, Seq<char>)> {
    seq![("ENTRUSTED_LANGID"@, langid)] + match passwd {
        Some(p) => seq![("ENTRUSTED_AUTOMATED_PASSWORD_ENTRY"@, p)],
        None => Seq::empty(),
    }
}

/// The environment of the command-line sanitizer run for a web request.
pub fn cli_conversion_env(langid: &str, opt_passwd: &Option<String>) -> (r: Vec<(String, String)>)
    ensures
        env_texts(r@) == cli_env_spec(langid@, opt_view(*opt_passwd)),
{
    let mut r: Vec<(String, String)> = Vec::new();
    r.push((owned(ENV_VAR_ENTRUSTED_LANGID), owned(langid)));
    match opt_passwd {
        Some(p) => {
            r.push((owned("ENTRUSTED_AUTOMATED_PASSWORD_ENTRY"), owned(p.as_str())));
        },
        None => {},
    }
    proof {
        reveal_strlit("ENTRUSTED_LANGID");
    }
    assert(env_texts(r@) =~= cli_env_spec(langid@, opt_view(*opt_passwd)));
    r
}

/// Where the result of the request `refid` is downloaded from.
pub fn download_path(refid: &str) -> (r: String)
    ensures
        r@ == "/api/v1/downloads/"@ + refid@,
{
    let mut r = String::new();
    push_str(&mut r, "/api/v1/downloads/");
    push_str(&mut r, refid);
    r
}


// ---------------------------------------------------------------------------
// Runtimes of the sanitizer

/// The sanitizer run in a container by the runtime `container_program`.
pub struct ContainerizedSanitizerRt {
    pub container_program: ContainerProgram<'static>,
}

impl ContainerizedSanitizerRt {
    pub fn new(container_program: ContainerProgram<'static>) -> (r: Self)
        ensures
            r.container_program == container_program,
    {
        ContainerizedSanitizerRt { container_program }
    }
}

/// The sanitizer run in place, inside the sandbox of the application, by
/// the program `container_program`.
pub struct NativeSanitizerRt {
    pub container_program: ContainerProgram<'static>,
}

impl NativeSanitizerRt {
    pub fn new(container_program: ContainerProgram<'static>) -> (r: Self)
        ensures
            r.container_program == container_program,
    {
        NativeSanitizerRt { container_program }
    }
}

/// How the desktop client runs the sanitizer.
pub enum SanitizerRt {
    Containerized(ContainerizedSanitizerRt),
    Native(NativeSanitizerRt),
}

/// The runtime of the sanitizer: in a container, unless the application
/// runs as a Flatpak (`FLATPAK_ID` set), where it runs in place.
pub fn sanitizer_rt(container_program: ContainerProgram<'static>, flatpak_id_set: bool) -> (r: SanitizerRt)
    ensures
        !flatpak_id_set ==> (r matches SanitizerRt::Containerized(c) && c.container_program == container_program),
        flatpak_id_set ==> (r matches SanitizerRt::Native(n) && n.container_program == container_program),
{
    if !flatpak_id_set {
        SanitizerRt::Containerized(ContainerizedSanitizerRt::new(container_program))
    } else {
        SanitizerRt::Native(NativeSanitizerRt::new(container_program))
    }
}

} // verus!
