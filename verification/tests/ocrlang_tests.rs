use entrusted::ocrlang::{
    default_selection, sort_by_name, OcrLang,
    check_ocr_lang, english_ocr_lang_key_by_name, first_unknown_ocr_code, is_ocr_lang_code, list_languages,
    ocr_lang_key_by_name, ocr_lang_param_error, cli_ocr_lang_error,
};
use entrusted::l10n::{GettextTranslations, Messages};

#[test]
fn language_codes_are_known() {
    assert!(is_ocr_lang_code("eng"));
    assert!(is_ocr_lang_code("chi_sim"));
    assert!(!is_ocr_lang_code("xyz"));
    assert_eq!(first_unknown_ocr_code("eng+fra"), None);
    assert_eq!(first_unknown_ocr_code("eng+xyz+abc"), Some("xyz".to_string()));
    assert_eq!(first_unknown_ocr_code(""), Some("".to_string()));
}

#[test]
fn language_names_by_code() {
    let m = Messages::untranslated("en".to_string());
    let names = ocr_lang_key_by_name(&m);
    let english = english_ocr_lang_key_by_name();
    assert_eq!(names.len(), english.len());
    assert!(names.iter().any(|(code, name)| *code == "eng" && name == "ocrlang-english"));
    assert!(english.iter().any(|(code, name)| *code == "eng" && *name == "English"));
}

#[test]
fn unknown_languages_are_refused() {
    let tr = GettextTranslations::untranslated("en".to_string());
    assert_eq!(ocr_lang_param_error(&tr, "eng+fra"), None);
    assert_eq!(
        ocr_lang_param_error(&tr, "eng+xyz"),
        Some("Unknown language code for the ocr-lang parameter: eng+xyz. Hint: Try 'eng' for English.".to_string())
    );
    let m = Messages::untranslated("en".to_string());
    assert!(check_ocr_lang(&m, "eng").is_ok());
    let err = check_ocr_lang(&m, "eng+fra").unwrap_err();
    assert!(err.starts_with("msg-ocrlang-msg-unsupported eng+fra. msg-ocrlang-msg-hint"));
    assert!(err.contains("eng (ocrlang-english)"));
}

#[test]
fn languages_are_listed() {
    let pairs = vec![("eng", "English".to_string()), ("fra", "French".to_string())];
    assert_eq!(list_languages(&pairs), "eng (English), fra (French)");
    assert_eq!(list_languages(&vec![]), "");
}

#[test]
fn languages_are_offered_by_name() {
    let langs = vec![
        OcrLang::new("fra".to_string(), "French".to_string()),
        OcrLang::new("eng".to_string(), "English".to_string()),
        OcrLang::new("deu".to_string(), "German".to_string()),
        OcrLang::new("ara".to_string(), "Arabic".to_string()),
    ];
    let sorted = sort_by_name(langs);
    let names: Vec<String> = sorted.iter().map(|l| l.to_text()).collect();
    assert_eq!(names, vec!["Arabic", "English", "French", "German"]);
    let (initial, ticks) = default_selection(&sorted, "eng");
    assert_eq!(initial, 1);
    assert_eq!(ticks, vec![false, true, false, false]);
    let (none, no_ticks) = default_selection(&sorted, "xxx");
    assert_eq!(none, 0);
    assert_eq!(no_ticks, vec![false; 4]);
}

#[test]
fn command_line_refusal_lists_the_languages() {
    let tr = entrusted::l10n::GettextTranslations::untranslated("en".to_string());
    assert!(cli_ocr_lang_error(&tr, "eng+fra").is_none());
    let msg = cli_ocr_lang_error(&tr, "eng+xyz").unwrap();
    assert!(msg.starts_with("Unknown language code for the ocr-lang parameter: eng+xyz. Hint: Try 'eng' for English. => "));
    assert!(msg.contains("eng (English), enm (English, Middle (1100-1500)), epo (Esperanto)"));
    assert!(msg.contains("fra (French)"));
}
