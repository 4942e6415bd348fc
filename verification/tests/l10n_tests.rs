use entrusted::l10n::{fill_plural, fill_template, CatalogRegistry, GettextTranslations, Messages, Translations, UiTranslationRegistry};
use entrusted::mofile::{has_total_plural_rule, is_safe_mo_file};

fn english() -> GettextTranslations {
    GettextTranslations::untranslated("en".to_string())
}

#[test]
fn untranslated_messages_are_kept() {
    let tr = english();
    assert_eq!(tr.langid(), "en");
    assert_eq!(tr.gettext("Conversion failed!"), "Conversion failed!");
    assert_eq!(tr.gettext_fmt("Cannot find file at {0}", vec!["/a"]), "Cannot find file at /a");
    assert_eq!(tr.gettext_fmt("{0}{1}{2}{3}{4}", vec!["a", "b", "c", "d", "e"]), "too-many-params-4-values-max");
}

#[test]
fn plural_forms_without_translation() {
    let tr = english();
    assert_eq!(tr.ngettext("{n} page", "{n} pages", 1), "1 page");
    assert_eq!(tr.ngettext("{n} page", "{n} pages", 3), "3 pages");
    assert_eq!(tr.ngettext_fmt("{n} file in {1}", "{n} files in {1}", 2, vec!["/x"]), "2 files in /x");
    assert_eq!(tr.ngettext_fmt("{0} files", "{0} files", 2, vec!["/x"]), "2 files");
}

#[test]
fn templates_are_filled() {
    assert_eq!(fill_template("a {0} b {1}", &vec!["x", "y"]), "a x b y");
    assert_eq!(fill_template("nothing", &vec![]), "nothing");
    assert_eq!(fill_plural("{n} item of {1}", 4, &vec!["z"]), "4 item of z");
}

#[test]
fn messages_by_key() {
    let m = Messages::untranslated("fr".to_string());
    assert_eq!(m.langid(), "fr");
    assert_eq!(m.get_message("msg-ocrlang-msg-hint"), "msg-ocrlang-msg-hint");
}

#[test]
fn invalid_catalogs_are_not_loaded() {
    let mut reg = CatalogRegistry::new();
    let bad: &[u8] = b"not an mo file";
    reg.load_translations(&vec![("en", bad)]);
    assert_eq!(reg.len(), 0);
    assert!(reg.new_translations("en").is_none());
}

#[test]
fn web_translations_by_negotiated_locale() {
    let en: &[u8] = b"{\"lang\":\"en\"}";
    let fr: &[u8] = b"{\"lang\":\"fr\"}";
    let reg = UiTranslationRegistry::new(&vec![("en", en), ("fr", fr)]);
    assert_eq!(reg.ui_translation_for("fr-FR"), Some(fr.to_vec()));
    assert_eq!(reg.ui_translation_for("de"), Some(en.to_vec()));
}

fn mo_file(original: &str, translated: &str) -> Vec<u8> {
    let header: u32 = 28;
    let o_off = header + 16;
    let t_off = o_off + original.len() as u32 + 1;
    let words: [u32; 11] = [
        0x950412de, 0, 1, header, header + 8, 0, 0,
        original.len() as u32, o_off, translated.len() as u32, t_off,
    ];
    let mut bytes = Vec::new();
    for w in words.iter() {
        bytes.extend_from_slice(&w.to_le_bytes());
    }
    bytes.extend_from_slice(original.as_bytes());
    bytes.push(0);
    bytes.extend_from_slice(translated.as_bytes());
    bytes.push(0);
    bytes
}

#[test]
fn loaded_catalogs_translate_and_later_files_replace_earlier_ones() {
    let first = mo_file("Hello", "Bonjour");
    let second = mo_file("Hello", "Salut");
    let mut reg = CatalogRegistry::new();
    reg.load_translations(&vec![("fr", first.as_slice()), ("fr", second.as_slice())]);
    assert_eq!(reg.len(), 1);
    let t = reg.new_translations("fr").expect("a catalog for fr");
    assert_eq!(t.gettext("Hello"), "Salut");
    assert_eq!(t.gettext("Goodbye"), "Goodbye");
}

#[test]
fn plural_rules_that_parse_safely_are_recognised() {
    let good = mo_file("", "Language: fr\nPlural-Forms: nplurals=2; plural=(n > 1);\n");
    assert!(is_safe_mo_file(&good));
    assert!(has_total_plural_rule(&good));
    let open_paren = mo_file("", "Plural-Forms: nplurals=2; plural=(;\n");
    assert!(!is_safe_mo_file(&open_paren));
    let colon_first = mo_file("", "Plural-Forms: nplurals=2; plural=n : 1 ? 0;\n");
    assert!(!is_safe_mo_file(&colon_first));
    let by_zero = mo_file("", "Plural-Forms: nplurals=2; plural=n%0;\n");
    assert!(is_safe_mo_file(&by_zero));
    assert!(!has_total_plural_rule(&by_zero));
    let by_ten = mo_file("", "Plural-Forms: nplurals=2; plural=(n%10==1 ? 0 : 1);\n");
    assert!(is_safe_mo_file(&by_ten));
    assert!(has_total_plural_rule(&by_ten));
    assert!(is_safe_mo_file(b"not an mo file"));
}

#[test]
fn translations_from_an_mo_file_use_its_plural_rule() {
    let data = mo_file("", "Language: fr\nPlural-Forms: nplurals=2; plural=(n > 1);\n");
    let t = GettextTranslations::from_mo_file("fr".to_string(), &data).expect("the file parses");
    assert_eq!(t.langid(), "fr");
    assert_eq!(t.ngettext("{n} page", "{n} pages", 0), "0 pages");
    assert_eq!(t.ngettext("{n} page", "{n} pages", 1), "1 page");
    assert!(GettextTranslations::from_mo_file("fr".to_string(), b"not an mo file").is_none());
}
