use entrusted::client::{
    container_image_name_for, default_container_image_name, default_output_path, offered_release, release_update,
    AppConfig, ConvertOptions, LogMessage, ReleaseInfo,
};
use entrusted::l10n::GettextTranslations;

fn english() -> GettextTranslations {
    GettextTranslations::untranslated("en".to_string())
}

fn release(tag: &str) -> ReleaseInfo {
    ReleaseInfo { html_url: "https://example.org/r".to_string(), tag_name: tag.to_string() }
}

#[test]
fn default_output_is_beside_the_input() {
    assert_eq!(default_output_path("/home/u/doc.pdf", "entrusted"), Ok("/home/u/doc-entrusted.pdf".to_string()));
    assert_eq!(default_output_path("/home/u/archive.tar.gz", "safe"), Ok("/home/u/archive.tar-safe.pdf".to_string()));
    assert_eq!(
        default_output_path("/", "entrusted"),
        Err("Cannot determine resulting PDF output path based on selected input document location!".to_string())
    );
}

#[test]
fn image_matches_the_client_version() {
    assert_eq!(container_image_name_for("0.3.2"), "docker.io/uycyjnzgntrn/entrusted_container:0.3.2");
    assert_eq!(default_container_image_name(), "docker.io/uycyjnzgntrn/entrusted_container:0.1.0");
}

#[test]
fn newer_releases_are_offered() {
    let tr = english();
    assert!(matches!(release_update("0.1.0", release("0.1.0"), &tr), Ok(None)));
    match release_update("0.1.0", release("0.2.0"), &tr) {
        Ok(Some(r)) => assert_eq!(r.tag_name, "0.2.0"),
        _ => panic!("0.2.0 is newer"),
    }
    assert!(matches!(release_update("0.2.0", release("0.1.0"), &tr), Ok(None)));
    match release_update("0.1.0", release("garbage"), &tr) {
        Err(msg) => assert_eq!(msg, "Could not read latest release version!"),
        _ => panic!("the tag is no version"),
    }
    match release_update("not a version", release("0.1.0"), &tr) {
        Err(msg) => assert_eq!(msg, "Could not current software version!"),
        _ => panic!("the current version cannot be read"),
    }
    assert!(offered_release(false, release("1.0.0")).is_none());
}

#[test]
fn client_records() {
    let c = AppConfig::default();
    assert_eq!(c.file_suffix, Some("entrusted".to_string()));
    assert!(c.seccomp_profile_disabled.is_none());
    let o = ConvertOptions::new("img".to_string(), "json".to_string(), "medium".to_string(), None, None, true);
    assert!(o.seccomp_profile_enabled);
    let l = LogMessage::new("x".to_string(), 5);
    assert_eq!(l.percent_complete, 5);
}

#[test]
fn first_client_writes_beside_the_input() {
    assert_eq!(entrusted::client::get_output_path("/docs/a.doc"), Ok("/docs/a-safe.pdf".to_string()));
    assert_eq!(entrusted::client::get_output_path("/"), Err("Cannot determine PDF output path!".to_string()));
}
