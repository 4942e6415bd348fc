use entrusted::containers::{
    choose_runtime, container_run_args, desktop_runtime_stubs, gvisor_enabled, legacy_runtime_stubs,
    ContainerProgram, ContainerRunRequest,
};

fn strings(v: &[&str]) -> Vec<String> {
    v.iter().map(|s| s.to_string()).collect()
}

#[test]
fn gvisor_is_enabled_by_true_or_yes() {
    assert!(gvisor_enabled(Some("YES")));
    assert!(gvisor_enabled(Some("true")));
    assert!(!gvisor_enabled(Some("1")));
    assert!(!gvisor_enabled(None));
    assert!(gvisor_enabled(Some("True")));
}

#[test]
fn runtimes_looked_for() {
    let stubs = desktop_runtime_stubs(false);
    assert_eq!(stubs.iter().map(|s| s.cmd).collect::<Vec<_>>(), vec!["docker", "podman", "nerdctl"]);
    assert_eq!(desktop_runtime_stubs(true).len(), 1);
    assert_eq!(legacy_runtime_stubs(true).len(), 4);
    assert_eq!(legacy_runtime_stubs(false)[2].tmp_dir, Some("/tmp/lima"));
}

#[test]
fn first_found_runtime_is_chosen() {
    let stubs = desktop_runtime_stubs(false);
    let found = vec![None, Some("/usr/bin/podman".to_string()), Some("/usr/bin/nerdctl".to_string())];
    let p = choose_runtime(&stubs, &found).unwrap();
    assert_eq!(p.exec_path, "/usr/bin/podman");
    assert_eq!(p.suggested_run_args, vec!["--userns", "keep-id", "--security-opt", "no-new-privileges"]);
    assert!(choose_runtime(&stubs, &vec![None, None, None]).is_none());
    let q = ContainerProgram::new("/x".to_string(), vec![], vec![], None);
    assert!(q.suggested_tmp_dir.is_none());
}

#[test]
fn sanitizing_container_command_line() {
    let req = ContainerRunRequest {
        suggested_run_args: vec!["--userns", "keep-id"],
        seccomp_profile_path: Some("/tmp/p.json".to_string()),
        input_location: "/in.pdf".to_string(),
        safe_dir_location: "/tmp/safe".to_string(),
        langid: "en".to_string(),
        opt_passwd: Some("pw".to_string()),
        container_image_name: "img:1".to_string(),
        opt_ocr_lang: Some("eng".to_string()),
        visual_quality: "medium".to_string(),
        log_format: "json".to_string(),
    };
    assert_eq!(container_run_args(&req), strings(&[
        "run", "--rm", "--network", "none", "--cap-drop", "all", "--userns", "keep-id",
        "--security-opt", "seccomp=/tmp/p.json",
        "-v", "/in.pdf:/tmp/input_file:Z", "-v", "/tmp/safe:/safezone:Z", "-e", "ENTRUSTED_LANGID=en",
        "-e", "ENTRUSTED_DOC_PASSWD=pw",
        "img:1", "/usr/local/bin/entrusted-container",
        "--ocr-lang", "eng", "--visual-quality", "medium", "--log-format", "json",
    ]));
}

#[test]
fn empty_password_is_not_passed() {
    let req = ContainerRunRequest {
        suggested_run_args: vec![],
        seccomp_profile_path: None,
        input_location: "/in".to_string(),
        safe_dir_location: "/s".to_string(),
        langid: "fr".to_string(),
        opt_passwd: Some("".to_string()),
        container_image_name: "i".to_string(),
        opt_ocr_lang: None,
        visual_quality: "low".to_string(),
        log_format: "plain".to_string(),
    };
    let args = container_run_args(&req);
    assert!(!args.iter().any(|a| a.contains("ENTRUSTED_DOC_PASSWD")));
    assert_eq!(args.len(), 6 + 6 + 2 + 4);
}
