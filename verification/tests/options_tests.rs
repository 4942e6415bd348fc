use entrusted::options::output_location;
use entrusted::options::{capitalize_first_letter, ocr_setting, output_folder_setting, FileUploadStatus};
use entrusted::options::{
    batch_ended, combine_options, file_suffix_choice, output_candidate, output_folder_for, visual_quality_choice,
    work_dir, AppConfig, AppEvent, ConvertOptions, FileUploadOptions, Sanitizer, UiTheme, VisualQuality,
};

#[test]
fn visual_quality_names() {
    assert_eq!(VisualQuality::default_value(), VisualQuality::Medium);
    assert_eq!(VisualQuality::High.to_text(), "High");
    assert_eq!(VisualQuality::from_str("HIGH"), Ok(VisualQuality::High));
    assert_eq!(VisualQuality::from_str("low"), Ok(VisualQuality::Low));
    assert_eq!(VisualQuality::from_str("ultra"), Err("Invalid visual quality: ultra".to_string()));
}

#[test]
fn visual_quality_read_back_from_its_name() {
    for q in [VisualQuality::Low, VisualQuality::Medium, VisualQuality::High] {
        assert_eq!(VisualQuality::from_str(&q.to_text()), Ok(q));
    }
}

#[test]
fn themes_of_saved_settings() {
    assert_eq!(UiTheme::from_setting(Some("DARK".to_string())), UiTheme::Dark);
    assert_eq!(UiTheme::from_setting(Some("light".to_string())), UiTheme::Light);
    assert_eq!(UiTheme::from_setting(Some("blue".to_string())), UiTheme::System);
    assert_eq!(UiTheme::from_setting(None), UiTheme::System);
    assert_eq!(UiTheme::Dark.to_text(), "Dark");
}

#[test]
fn file_options_override_global_options() {
    let global = ConvertOptions::new(Some("/out".to_string()), "entrusted".to_string(), VisualQuality::Low,
        Some("eng".to_string()), None, Some("secret".to_string()));
    let file = FileUploadOptions { password_decrypt: "open".to_string(), password_encrypt: "  ".to_string(), output_folder: "/elsewhere".to_string() };
    let r = combine_options(&global, &file);
    assert_eq!(r.output_folder, Some("/elsewhere".to_string()));
    assert_eq!(r.password_decrypt, Some("open".to_string()));
    assert_eq!(r.password_encrypt, Some("secret".to_string()));
    assert_eq!(r.filename_suffix, "entrusted");
    assert_eq!(r.visual_quality, VisualQuality::Low);
    assert_eq!(r.ocr_lang_code, Some("eng".to_string()));
}

#[test]
fn empty_file_options_keep_global_options() {
    let global = ConvertOptions::new(None, "x".to_string(), VisualQuality::High, None, Some("p".to_string()), None);
    let r = combine_options(&global, &FileUploadOptions::empty());
    assert_eq!(r.output_folder, None);
    assert_eq!(r.password_decrypt, Some("p".to_string()));
    assert_eq!(r.password_encrypt, None);
}

#[test]
fn output_candidates_are_numbered() {
    assert_eq!(output_candidate("/out", "doc", "entrusted", 0), "/out/doc-entrusted.pdf");
    assert_eq!(output_candidate("/out", "doc", "entrusted", 1), "/out/doc-entrusted.1.pdf");
    assert_eq!(output_candidate("/out/", "doc", "x", 12), "/out/doc-x.12.pdf");
    assert_ne!(output_candidate("/o", "a", "b", 1), output_candidate("/o", "a", "b", 0));
}

#[test]
fn output_folder_defaults_to_the_input_folder() {
    assert_eq!(output_folder_for(Some("/a".to_string()), Some("/b".to_string())), Some("/a".to_string()));
    assert_eq!(output_folder_for(None, Some("/b".to_string())), Some("/b".to_string()));
    assert_eq!(output_folder_for(None, None), None);
}

#[test]
fn saved_settings_default_to_the_suffix() {
    let c = AppConfig::default();
    assert_eq!(c.file_suffix, Some("entrusted".to_string()));
    assert!(c.ocr_lang.is_none() && c.visual_quality.is_none() && c.output_folder.is_none() && c.ui_theme.is_none());
}

#[test]
fn command_line_choices() {
    assert_eq!(file_suffix_choice(Some("safe".to_string()), Some("saved".to_string())), "safe");
    assert_eq!(file_suffix_choice(None, Some("saved".to_string())), "saved");
    assert_eq!(file_suffix_choice(None, None), "entrusted");
    assert_eq!(visual_quality_choice(None), Ok(VisualQuality::Medium));
    assert_eq!(visual_quality_choice(Some("low")), Ok(VisualQuality::Low));
    assert!(visual_quality_choice(Some("bad")).is_err());
}

#[test]
fn sanitizer_and_work_folder() {
    let s = Sanitizer::new((Some("/opt/office".to_string()), None));
    assert_eq!(s.office_opt, Some("/opt/office".to_string()));
    assert_eq!(s.tessdata_opt, None);
    assert_eq!(work_dir("/tmp", "abc"), "/tmp/com.rimerosolutions.entrusted/abc");
}

#[test]
fn batch_summary() {
    assert!(matches!(batch_ended(1, 3), AppEvent::AllConversionEnded(2, 1, 3)));
}

#[test]
fn settings_screen_choices() {
    let codes = vec!["eng".to_string(), "fra".to_string(), "deu".to_string()];
    assert_eq!(ocr_setting(true, &codes, &vec![true, false, true]), Some("eng+deu".to_string()));
    assert_eq!(ocr_setting(true, &codes, &vec![false, false, false]), None);
    assert_eq!(ocr_setting(false, &codes, &vec![true, true, true]), None);
    assert_eq!(output_folder_setting(true, "/x"), None);
    assert_eq!(output_folder_setting(false, "  "), None);
    assert_eq!(output_folder_setting(false, "/x"), Some("/x".to_string()));
    assert_eq!(FileUploadStatus::Interrupted.to_text(), "Interrupted");
    assert_eq!(capitalize_first_letter("medium"), "Medium");
    assert_eq!(capitalize_first_letter(""), "");
    assert_eq!(capitalize_first_letter("école"), "École");
}

#[test]
fn outputs_go_next_to_the_input_unless_a_folder_is_set() {
    assert_eq!(output_location("/home/me/report.docx", None), Some(("report".to_string(), "/home/me".to_string())));
    assert_eq!(output_location("/home/me/report.docx", Some("/tmp/out".to_string())), Some(("report".to_string(), "/tmp/out".to_string())));
    assert_eq!(output_location("/", None), None);
}

#[test]
fn the_first_free_output_name_is_chosen() {
    let taken = vec!["/out/doc-safe.pdf".to_string(), "/out/doc-safe.1.pdf".to_string()];
    assert_eq!(entrusted::options::first_free_output("/out", "doc", "safe", &taken), "/out/doc-safe.2.pdf");
    assert_eq!(entrusted::options::first_free_output("/out", "doc", "safe", &Vec::new()), "/out/doc-safe.pdf");
}

#[test]
fn ascii_first_letters_are_raised() {
    assert_eq!(capitalize_first_letter("entrusted"), "Entrusted");
    assert_eq!(capitalize_first_letter("Already"), "Already");
    assert_eq!(capitalize_first_letter("éclair"), "Éclair");
    assert_eq!(capitalize_first_letter("ßa"), "SSa");
}
