use entrusted::runner::{after_image_command, ImageAction, ImageCommand};
use entrusted::runner::{
    cli_conversion_args, cli_conversion_env, converting_message, crash_explanation, download_path, image_inspect_args,
    image_pull_args, is_plain_log_format, missing_runtime_message, native_process_args, native_process_env,
    print_progress_plain, running_command_message, shown_command, HostOs,
};
use entrusted::l10n::GettextTranslations;

fn english() -> GettextTranslations {
    GettextTranslations::untranslated("en".to_string())
}

fn strings(v: &[&str]) -> Vec<String> {
    v.iter().map(|s| s.to_string()).collect()
}

#[test]
fn password_is_masked_in_shown_commands() {
    let args = strings(&["run", "-e", "ENTRUSTED_DOC_PASSWD=secret", "image"]);
    assert_eq!(shown_command("/usr/bin/docker", &vec![], &args), "/usr/bin/docker run -e ENTRUSTED_DOC_PASSWD=*** image");
    assert_eq!(shown_command("lima", &vec!["nerdctl"], &strings(&["pull", "x"])), "lima nerdctl pull x");
    assert_eq!(
        running_command_message(&english(), "podman", &vec![], &strings(&["inspect", "img"])),
        "Running command: podman inspect img"
    );
}

#[test]
fn progress_lines_in_plain_format() {
    assert_eq!(print_progress_plain(50, "halfway".to_string()), "50% halfway");
    assert!(is_plain_log_format("plain"));
    assert!(!is_plain_log_format("json"));
    assert_eq!(converting_message(&english(), "/a/b.pdf"), "Converting /a/b.pdf");
}

#[test]
fn abrupt_ends_are_explained() {
    assert_eq!(
        crash_explanation(&english(), Some(137)),
        Some("Conversion failed! Container process terminated abruptly potentially due to memory usage. Are PDF pages too big? Try increasing the container engine memory allocation?".to_string())
    );
    assert_eq!(
        crash_explanation(&english(), Some(139)),
        Some("Conversion failed! Container process terminated abruptly potentially due to a memory access fault. Please report the issue at: https://github.com/rimerosolutions/entrusted/issues".to_string())
    );
    assert_eq!(crash_explanation(&english(), Some(1)), None);
    assert_eq!(crash_explanation(&english(), None), None);
}

#[test]
fn missing_runtime_advice_per_system() {
    assert_eq!(
        missing_runtime_message(&english(), HostOs::Other),
        "No container runtime executable found!\nPlease install Docker or Podman, and make sure that it's running."
    );
    assert_eq!(
        missing_runtime_message(&english(), HostOs::MacOs),
        "No container runtime executable found!\nPlease install Docker Desktop and make sure that it's running."
    );
}

#[test]
fn arguments_of_the_in_place_sanitizer() {
    let args = native_process_args("/in.docx", "/out.pdf", &Some("eng".to_string()), "medium", "json");
    assert_eq!(args, strings(&["--ocr-lang", "eng", "--input-filename", "/in.docx", "--output-filename", "/out.pdf", "--visual-quality", "medium", "--log-format", "json"]));
    let env = native_process_env("fr", &Some("pw".to_string()));
    assert_eq!(env, vec![("ENTRUSTED_LANGID".to_string(), "fr".to_string()), ("ENTRUSTED_DOC_PASSWD".to_string(), "pw".to_string())]);
    assert_eq!(native_process_env("en", &None).len(), 1);
}

#[test]
fn arguments_of_the_image_checks() {
    assert_eq!(image_inspect_args("img:1"), strings(&["inspect", "img:1"]));
    assert_eq!(image_pull_args("img:1"), strings(&["pull", "img:1"]));
}

#[test]
fn arguments_of_the_web_conversion() {
    let args = cli_conversion_args("img", "/o.pdf", "/i.doc", &None, true);
    assert_eq!(args, strings(&["--log-format", "json", "--container-image-name", "img", "--output-filename", "/o.pdf", "--input-filename", "/i.doc", "--passwd-prompt"]));
    let env = cli_conversion_env("en", &Some("pw".to_string()));
    assert_eq!(env[1], ("ENTRUSTED_AUTOMATED_PASSWORD_ENTRY".to_string(), "pw".to_string()));
    assert_eq!(download_path("abc"), "/api/v1/downloads/abc");
}

#[test]
fn runtime_of_the_sanitizer() {
    use_runtime_kinds();
}

fn use_runtime_kinds() {
    let p = entrusted::containers::ContainerProgram::new("/usr/bin/docker".to_string(), vec![], vec![], None);
    assert!(matches!(entrusted::runner::sanitizer_rt(p, false), entrusted::runner::SanitizerRt::Containerized(_)));
    let q = entrusted::containers::ContainerProgram::new("/app/bin/entrusted-container".to_string(), vec![], vec![], None);
    match entrusted::runner::sanitizer_rt(q, true) {
        entrusted::runner::SanitizerRt::Native(n) => assert_eq!(n.container_program.exec_path, "/app/bin/entrusted-container"),
        _ => panic!("a Flatpak runs the sanitizer in place"),
    }
}

#[test]
fn finishing_removes_the_old_output_and_copies_the_result() {
    let tr = entrusted::l10n::GettextTranslations::untranslated("en".to_string());
    let plan = entrusted::runner::finish_plan(&tr, true, true);
    assert!(plan.remove_existing_output && plan.copy_result && plan.error.is_none());
    let plan = entrusted::runner::finish_plan(&tr, true, false);
    assert!(plan.remove_existing_output && !plan.copy_result);
    assert_eq!(plan.error, Some("Potential sanitization process crash detected, the sanitized PDF result was not created.".to_string()));
    let plan = entrusted::runner::finish_plan(&tr, false, true);
    assert!(!plan.remove_existing_output && plan.copy_result);
}

#[test]
fn a_missing_image_is_pulled() {
    let tr = entrusted::l10n::GettextTranslations::untranslated("en".to_string());
    assert!(matches!(after_image_command(&tr, ImageCommand::Inspect, true), ImageAction::Done(None)));
    match after_image_command(&tr, ImageCommand::Inspect, false) {
        ImageAction::Run(ImageCommand::Pull, 1, m) => assert_eq!(m, "Please wait, downloading sandbox image (roughly 600 MB)"),
        _ => panic!("a missing image is pulled"),
    }
    match after_image_command(&tr, ImageCommand::Pull, true) {
        ImageAction::Done(Some((5, m))) => assert_eq!(m, "Container image download completed..."),
        _ => panic!("a pulled image is used"),
    }
    match after_image_command(&tr, ImageCommand::Pull, false) {
        ImageAction::Fail(m) => assert_eq!(m, "Couldn't download container image!"),
        _ => panic!("a failed pull fails"),
    }
}

#[test]
fn inputs_are_shared_under_the_requests_folder() {
    assert_eq!(entrusted::runner::shared_input_path("/tmp/lima", "doc.pdf"), "/tmp/lima/entrusted/requests/doc.pdf");
    assert_eq!(entrusted::runner::shared_input_dir("/tmp/lima/"), "/tmp/lima/entrusted/requests");
}
