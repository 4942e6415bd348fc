//! The languages that text recognition (OCR) supports, and the check of a
//! requested set of language codes.
use vstd::prelude::*;
use crate::l10n::{catalog_forms, gettext_spec, gettext_fmt_spec, GettextTranslations, Messages, Translations};
use crate::text::{chars_of, push_str, same_text, string_from_range};
use crate::runner::join_words;

verus! {

/// The OCR languages: the message key of each language's name, and its
/// language code.
pub open spec fn ocr_lang_keys() -> Seq<(&'static str, &'static str)> {
    seq![
        ("ocrlang-afrikaans", "ar"), ("ocrlang-albanian", "sqi"), ("ocrlang-amharic", "amh"),
        ("ocrlang-arabic", "ara"), ("ocrlang-arabic-script", "Arabic"), ("ocrlang-armenian", "hye"),
        ("ocrlang-armenian-script", "Armenian"), ("ocrlang-assamese", "asm"), ("ocrlang-azerbaijani", "aze"),
        ("ocrlang-azerbaijani-cyrillic", "aze_cyrl"), ("ocrlang-basque", "eus"), ("ocrlang-belarusian", "bel"),
        ("ocrlang-bengali", "ben"), ("ocrlang-bengali-script", "Bengali"), ("ocrlang-bosnian", "bos"),
        ("ocrlang-breton", "bre"), ("ocrlang-bulgarian", "bul"), ("ocrlang-burmese", "mya"),
        ("ocrlang-canadian-aboriginal-script", "Canadian_Aboriginal"), ("ocrlang-catalan", "cat"), ("ocrlang-cebuano", "ceb"),
        ("ocrlang-cherokee", "chr"), ("ocrlang-cherokee-script", "Cherokee"), ("ocrlang-chinese-simplified", "chi_sim"),
        ("ocrlang-chinese-simplified-vertical", "chi_sim_vert"), ("ocrlang-chinese-traditional", "chi_tra"), ("ocrlang-chinese-traditional-vertical", "chi_tra_vert"),
        ("ocrlang-corsican", "cos"), ("ocrlang-croatian", "hrv"), ("ocrlang-cyrillic-script", "Cyrillic"),
        ("ocrlang-czech", "ces"), ("ocrlang-danish", "dan"), ("ocrlang-devanagari-script", "Devanagari"),
        ("ocrlang-divehi", "div"), ("ocrlang-dutch", "nld"), ("ocrlang-dzongkha", "dzo"),
        ("ocrlang-english", "eng"), ("ocrlang-english-middle-1100-1500", "enm"), ("ocrlang-esperanto", "epo"),
        ("ocrlang-estonian", "est"), ("ocrlang-ethiopic-script", "Ethiopic"), ("ocrlang-faroese", "fao"),
        ("ocrlang-filipino", "fil"), ("ocrlang-finnish", "fin"), ("ocrlang-fraktur-script", "Fraktur"),
        ("ocrlang-frankish", "frk"), ("ocrlang-french", "fra"), ("ocrlang-french-middle-ca-1400-1600", "frm"),
        ("ocrlang-frisian-western", "fry"), ("ocrlang-gaelic-scots", "gla"), ("ocrlang-galician", "glg"),
        ("ocrlang-georgian", "kat"), ("ocrlang-georgian-script", "Georgian"), ("ocrlang-german", "deu"),
        ("ocrlang-greek", "ell"), ("ocrlang-greek-script", "Greek"), ("ocrlang-gujarati", "guj"),
        ("ocrlang-gujarati-script", "Gujarati"), ("ocrlang-gurmukhi-script", "Gurmukhi"), ("ocrlang-hangul-script", "Hangul"),
        ("ocrlang-hangul-vertical-script", "Hangul_vert"), ("ocrlang-han-simplified-script", "HanS"), ("ocrlang-han-simplified-vertical-script", "HanS_vert"),
        ("ocrlang-han-traditional-script", "HanT"), ("ocrlang-han-traditional-vertical-script", "HanT_vert"), ("ocrlang-hatian", "hat"),
        ("ocrlang-hebrew", "heb"), ("ocrlang-hebrew-script", "Hebrew"), ("ocrlang-hindi", "hin"),
        ("ocrlang-hungarian", "hun"), ("ocrlang-icelandic", "isl"), ("ocrlang-indonesian", "ind"),
        ("ocrlang-inuktitut", "iku"), ("ocrlang-irish", "gle"), ("ocrlang-italian", "ita"),
        ("ocrlang-italian-old", "ita_old"), ("ocrlang-japanese", "jpn"), ("ocrlang-japanese-script", "Japanese"),
        ("ocrlang-japanese-vertical", "jpn_vert"), ("ocrlang-japanese-vertical-script", "Japanese_vert"), ("ocrlang-javanese", "jav"),
        ("ocrlang-kannada", "kan"), ("ocrlang-kannada-script", "Kannada"), ("ocrlang-kazakh", "kaz"),
        ("ocrlang-khmer", "khm"), ("ocrlang-khmer-script", "Khmer"), ("ocrlang-korean", "kor"),
        ("ocrlang-korean-vertical", "kor_vert"), ("ocrlang-kurdish-arabic", "kur_ara"), ("ocrlang-kyrgyz", "kir"),
        ("ocrlang-lao", "lao"), ("ocrlang-lao-script", "Lao"), ("ocrlang-latin", "lat"),
        ("ocrlang-latin-script", "Latin"), ("ocrlang-latvian", "lav"), ("ocrlang-lithuanian", "lit"),
        ("ocrlang-luxembourgish", "ltz"), ("ocrlang-macedonian", "mkd"), ("ocrlang-malayalam", "mal"),
        ("ocrlang-malayalam-script", "Malayalam"), ("ocrlang-malay", "msa"), ("ocrlang-maltese", "mlt"),
        ("ocrlang-maori", "mri"), ("ocrlang-marathi", "mar"), ("ocrlang-mongolian", "mon"),
        ("ocrlang-myanmar-script", "Myanmar"), ("ocrlang-nepali", "nep"), ("ocrlang-norwegian", "nor"),
        ("ocrlang-occitan-post-1500", "oci"), ("ocrlang-old-georgian", "kat_old"), ("ocrlang-oriya-odia-script", "Oriya"),
        ("ocrlang-oriya", "ori"), ("ocrlang-pashto", "pus"), ("ocrlang-persian", "fas"),
        ("ocrlang-polish", "pol"), ("ocrlang-portuguese", "por"), ("ocrlang-punjabi", "pan"),
        ("ocrlang-quechua", "que"), ("ocrlang-romanian", "ron"), ("ocrlang-russian", "rus"),
        ("ocrlang-sanskrit", "san"), ("ocrlang-script-and-orientation", "osd"), ("ocrlang-serbian-latin", "srp_latn"),
        ("ocrlang-serbian", "srp"), ("ocrlang-sindhi", "snd"), ("ocrlang-sinhala-script", "Sinhala"),
        ("ocrlang-sinhala", "sin"), ("ocrlang-slovakian", "slk"), ("ocrlang-slovenian", "slv"),
        ("ocrlang-spanish-castilian-old", "spa_old"), ("ocrlang-spanish", "spa"), ("ocrlang-sundanese", "sun"),
        ("ocrlang-swahili", "swa"), ("ocrlang-swedish", "swe"), ("ocrlang-syriac-script", "Syriac"),
        ("ocrlang-syriac", "syr"), ("ocrlang-tajik", "tgk"), ("ocrlang-tamil-script", "Tamil"),
        ("ocrlang-tamil", "tam"), ("ocrlang-tatar", "tat"), ("ocrlang-telugu-script", "Telugu"),
        ("ocrlang-telugu", "tel"), ("ocrlang-thaana-script", "Thaana"), ("ocrlang-thai-script", "Thai"),
        ("ocrlang-thai", "tha"), ("ocrlang-tibetan-script", "Tibetan"), ("ocrlang-tibetan-standard", "bod"),
        ("ocrlang-tigrinya", "tir"), ("ocrlang-tonga", "ton"), ("ocrlang-turkish", "tur"),
        ("ocrlang-ukrainian", "ukr"), ("ocrlang-urdu", "urd"), ("ocrlang-uyghur", "uig"),
        ("ocrlang-uzbek-cyrillic", "uzb_cyrl"), ("ocrlang-uzbek", "uzb"), ("ocrlang-vietnamese-script", "Vietnamese"),
        ("ocrlang-vietnamese", "vie"), ("ocrlang-welsh", "cym"), ("ocrlang-yiddish", "yid"),
        ("ocrlang-yoruba", "yor"),
    ]
}

/// The OCR languages: each language's English name, and its language code.
pub open spec fn ocr_lang_english_names() -> Seq<(&'static str, &'static str)> {
    seq![
        ("Afrikaans", "ar"), ("Albanian", "sqi"), ("Amharic", "amh"),
        ("Arabic", "ara"), ("Arabic script", "Arabic"), ("Armenian", "hye"),
        ("Armenian script", "Armenian"), ("Assamese", "asm"), ("Azerbaijani", "aze"),
        ("Azerbaijani (Cyrillic)", "aze_cyrl"), ("Basque", "eus"), ("Belarusian", "bel"),
        ("Bengali", "ben"), ("Bengali script", "Bengali"), ("Bosnian", "bos"),
        ("Breton", "bre"), ("Bulgarian", "bul"), ("Burmese", "mya"),
        ("Canadian Aboriginal script", "Canadian_Aboriginal"), ("Catalan", "cat"), ("Cebuano", "ceb"),
        ("Cherokee", "chr"), ("Cherokee script", "Cherokee"), ("Chinese - Simplified", "chi_sim"),
        ("Chinese - Simplified (vertical)", "chi_sim_vert"), ("Chinese - Traditional", "chi_tra"), ("Chinese - Traditional (vertical)", "chi_tra_vert"),
        ("Corsican", "cos"), ("Croatian", "hrv"), ("Cyrillic script", "Cyrillic"),
        ("Czech", "ces"), ("Danish", "dan"), ("Devanagari script", "Devanagari"),
        ("Divehi", "div"), ("Dutch", "nld"), ("Dzongkha", "dzo"),
        ("English", "eng"), ("English, Middle (1100-1500)", "enm"), ("Esperanto", "epo"),
        ("Estonian", "est"), ("Ethiopic script", "Ethiopic"), ("Faroese", "fao"),
        ("Filipino", "fil"), ("Finnish", "fin"), ("Fraktur script", "Fraktur"),
        ("Frankish", "frk"), ("French", "fra"), ("French, Middle (ca.1400-1600)", "frm"),
        ("Frisian (Western)", "fry"), ("Gaelic (Scots)", "gla"), ("Galician", "glg"),
        ("Georgian", "kat"), ("Georgian script", "Georgian"), ("German", "deu"),
        ("Greek", "ell"), ("Greek script", "Greek"), ("Gujarati", "guj"),
        ("Gujarati script", "Gujarati"), ("Gurmukhi script", "Gurmukhi"), ("Hangul script", "Hangul"),
        ("Hangul (vertical) script", "Hangul_vert"), ("Han - Simplified script", "HanS"), ("Han - Simplified (vertical) script", "HanS_vert"),
        ("Han - Traditional script", "HanT"), ("Han - Traditional (vertical) script", "HanT_vert"), ("Hatian", "hat"),
        ("Hebrew", "heb"), ("Hebrew script", "Hebrew"), ("Hindi", "hin"),
        ("Hungarian", "hun"), ("Icelandic", "isl"), ("Indonesian", "ind"),
        ("Inuktitut", "iku"), ("Irish", "gle"), ("Italian", "ita"),
        ("Italian - Old", "ita_old"), ("Japanese", "jpn"), ("Japanese script", "Japanese"),
        ("Japanese (vertical)", "jpn_vert"), ("Japanese (vertical) script", "Japanese_vert"), ("Javanese", "jav"),
        ("Kannada", "kan"), ("Kannada script", "Kannada"), ("Kazakh", "kaz"),
        ("Khmer", "khm"), ("Khmer script", "Khmer"), ("Korean", "kor"),
        ("Korean (vertical)", "kor_vert"), ("Kurdish (Arabic)", "kur_ara"), ("Kyrgyz", "kir"),
        ("Lao", "lao"), ("Lao script", "Lao"), ("Latin", "lat"),
        ("Latin script", "Latin"), ("Latvian", "lav"), ("Lithuanian", "lit"),
        ("Luxembourgish", "ltz"), ("Macedonian", "mkd"), ("Malayalam", "mal"),
        ("Malayalam script", "Malayalam"), ("Malay", "msa"), ("Maltese", "mlt"),
        ("Maori", "mri"), ("Marathi", "mar"), ("Mongolian", "mon"),
        ("Myanmar script", "Myanmar"), ("Nepali", "nep"), ("Norwegian", "nor"),
        ("Occitan (post 1500)", "oci"), ("Old Georgian", "kat_old"), ("Oriya (Odia) script", "Oriya"),
        ("Oriya", "ori"), ("Pashto", "pus"), ("Persian", "fas"),
        ("Polish", "pol"), ("Portuguese", "por"), ("Punjabi", "pan"),
        ("Quechua", "que"), ("Romanian", "ron"), ("Russian", "rus"),
        ("Sanskrit", "san"), ("script and orientation", "osd"), ("Serbian (Latin)", "srp_latn"),
        ("Serbian", "srp"), ("Sindhi", "snd"), ("Sinhala script", "Sinhala"),
        ("Sinhala", "sin"), ("Slovakian", "slk"), ("Slovenian", "slv"),
        ("Spanish, Castilian - Old", "spa_old"), ("Spanish", "spa"), ("Sundanese", "sun"),
        ("Swahili", "swa"), ("Swedish", "swe"), ("Syriac script", "Syriac"),
        ("Syriac", "syr"), ("Tajik", "tgk"), ("Tamil script", "Tamil"),
        ("Tamil", "tam"), ("Tatar", "tat"), ("Telugu script", "Telugu"),
        ("Telugu", "tel"), ("Thaana script", "Thaana"), ("Thai script", "Thai"),
        ("Thai", "tha"), ("Tibetan script", "Tibetan"), ("Tibetan Standard", "bod"),
        ("Tigrinya", "tir"), ("Tonga", "ton"), ("Turkish", "tur"),
        ("Ukrainian", "ukr"), ("Urdu", "urd"), ("Uyghur", "uig"),
        ("Uzbek (Cyrillic)", "uzb_cyrl"), ("Uzbek", "uzb"), ("Vietnamese script", "Vietnamese"),
        ("Vietnamese", "vie"), ("Welsh", "cym"), ("Yiddish", "yid"),
        ("Yoruba", "yor"),
    ]
}

/// The message key and language code of each OCR language.
pub fn ocr_lang_key_table() -> (r: Vec<(&'static str, &'static str)>)
    ensures
        r@ == ocr_lang_keys(),
{
    let r = vec![
        ("ocrlang-afrikaans", "ar"), ("ocrlang-albanian", "sqi"), ("ocrlang-amharic", "amh"),
        ("ocrlang-arabic", "ara"), ("ocrlang-arabic-script", "Arabic"), ("ocrlang-armenian", "hye"),
        ("ocrlang-armenian-script", "Armenian"), ("ocrlang-assamese", "asm"), ("ocrlang-azerbaijani", "aze"),
        ("ocrlang-azerbaijani-cyrillic", "aze_cyrl"), ("ocrlang-basque", "eus"), ("ocrlang-belarusian", "bel"),
        ("ocrlang-bengali", "ben"), ("ocrlang-bengali-script", "Bengali"), ("ocrlang-bosnian", "bos"),
        ("ocrlang-breton", "bre"), ("ocrlang-bulgarian", "bul"), ("ocrlang-burmese", "mya"),
        ("ocrlang-canadian-aboriginal-script", "Canadian_Aboriginal"), ("ocrlang-catalan", "cat"), ("ocrlang-cebuano", "ceb"),
        ("ocrlang-cherokee", "chr"), ("ocrlang-cherokee-script", "Cherokee"), ("ocrlang-chinese-simplified", "chi_sim"),
        ("ocrlang-chinese-simplified-vertical", "chi_sim_vert"), ("ocrlang-chinese-traditional", "chi_tra"), ("ocrlang-chinese-traditional-vertical", "chi_tra_vert"),
        ("ocrlang-corsican", "cos"), ("ocrlang-croatian", "hrv"), ("ocrlang-cyrillic-script", "Cyrillic"),
        ("ocrlang-czech", "ces"), ("ocrlang-danish", "dan"), ("ocrlang-devanagari-script", "Devanagari"),
        ("ocrlang-divehi", "div"), ("ocrlang-dutch", "nld"), ("ocrlang-dzongkha", "dzo"),
        ("ocrlang-english", "eng"), ("ocrlang-english-middle-1100-1500", "enm"), ("ocrlang-esperanto", "epo"),
        ("ocrlang-estonian", "est"), ("ocrlang-ethiopic-script", "Ethiopic"), ("ocrlang-faroese", "fao"),
        ("ocrlang-filipino", "fil"), ("ocrlang-finnish", "fin"), ("ocrlang-fraktur-script", "Fraktur"),
        ("ocrlang-frankish", "frk"), ("ocrlang-french", "fra"), ("ocrlang-french-middle-ca-1400-1600", "frm"),
        ("ocrlang-frisian-western", "fry"), ("ocrlang-gaelic-scots", "gla"), ("ocrlang-galician", "glg"),
        ("ocrlang-georgian", "kat"), ("ocrlang-georgian-script", "Georgian"), ("ocrlang-german", "deu"),
        ("ocrlang-greek", "ell"), ("ocrlang-greek-script", "Greek"), ("ocrlang-gujarati", "guj"),
        ("ocrlang-gujarati-script", "Gujarati"), ("ocrlang-gurmukhi-script", "Gurmukhi"), ("ocrlang-hangul-script", "Hangul"),
        ("ocrlang-hangul-vertical-script", "Hangul_vert"), ("ocrlang-han-simplified-script", "HanS"), ("ocrlang-han-simplified-vertical-script", "HanS_vert"),
        ("ocrlang-han-traditional-script", "HanT"), ("ocrlang-han-traditional-vertical-script", "HanT_vert"), ("ocrlang-hatian", "hat"),
        ("ocrlang-hebrew", "heb"), ("ocrlang-hebrew-script", "Hebrew"), ("ocrlang-hindi", "hin"),
        ("ocrlang-hungarian", "hun"), ("ocrlang-icelandic", "isl"), ("ocrlang-indonesian", "ind"),
        ("ocrlang-inuktitut", "iku"), ("ocrlang-irish", "gle"), ("ocrlang-italian", "ita"),
        ("ocrlang-italian-old", "ita_old"), ("ocrlang-japanese", "jpn"), ("ocrlang-japanese-script", "Japanese"),
        ("ocrlang-japanese-vertical", "jpn_vert"), ("ocrlang-japanese-vertical-script", "Japanese_vert"), ("ocrlang-javanese", "jav"),
        ("ocrlang-kannada", "kan"), ("ocrlang-kannada-script", "Kannada"), ("ocrlang-kazakh", "kaz"),
        ("ocrlang-khmer", "khm"), ("ocrlang-khmer-script", "Khmer"), ("ocrlang-korean", "kor"),
        ("ocrlang-korean-vertical", "kor_vert"), ("ocrlang-kurdish-arabic", "kur_ara"), ("ocrlang-kyrgyz", "kir"),
        ("ocrlang-lao", "lao"), ("ocrlang-lao-script", "Lao"), ("ocrlang-latin", "lat"),
        ("ocrlang-latin-script", "Latin"), ("ocrlang-latvian", "lav"), ("ocrlang-lithuanian", "lit"),
        ("ocrlang-luxembourgish", "ltz"), ("ocrlang-macedonian", "mkd"), ("ocrlang-malayalam", "mal"),
        ("ocrlang-malayalam-script", "Malayalam"), ("ocrlang-malay", "msa"), ("ocrlang-maltese", "mlt"),
        ("ocrlang-maori", "mri"), ("ocrlang-marathi", "mar"), ("ocrlang-mongolian", "mon"),
        ("ocrlang-myanmar-script", "Myanmar"), ("ocrlang-nepali", "nep"), ("ocrlang-norwegian", "nor"),
        ("ocrlang-occitan-post-1500", "oci"), ("ocrlang-old-georgian", "kat_old"), ("ocrlang-oriya-odia-script", "Oriya"),
        ("ocrlang-oriya", "ori"), ("ocrlang-pashto", "pus"), ("ocrlang-persian", "fas"),
        ("ocrlang-polish", "pol"), ("ocrlang-portuguese", "por"), ("ocrlang-punjabi", "pan"),
        ("ocrlang-quechua", "que"), ("ocrlang-romanian", "ron"), ("ocrlang-russian", "rus"),
        ("ocrlang-sanskrit", "san"), ("ocrlang-script-and-orientation", "osd"), ("ocrlang-serbian-latin", "srp_latn"),
        ("ocrlang-serbian", "srp"), ("ocrlang-sindhi", "snd"), ("ocrlang-sinhala-script", "Sinhala"),
        ("ocrlang-sinhala", "sin"), ("ocrlang-slovakian", "slk"), ("ocrlang-slovenian", "slv"),
        ("ocrlang-spanish-castilian-old", "spa_old"), ("ocrlang-spanish", "spa"), ("ocrlang-sundanese", "sun"),
        ("ocrlang-swahili", "swa"), ("ocrlang-swedish", "swe"), ("ocrlang-syriac-script", "Syriac"),
        ("ocrlang-syriac", "syr"), ("ocrlang-tajik", "tgk"), ("ocrlang-tamil-script", "Tamil"),
        ("ocrlang-tamil", "tam"), ("ocrlang-tatar", "tat"), ("ocrlang-telugu-script", "Telugu"),
        ("ocrlang-telugu", "tel"), ("ocrlang-thaana-script", "Thaana"), ("ocrlang-thai-script", "Thai"),
        ("ocrlang-thai", "tha"), ("ocrlang-tibetan-script", "Tibetan"), ("ocrlang-tibetan-standard", "bod"),
        ("ocrlang-tigrinya", "tir"), ("ocrlang-tonga", "ton"), ("ocrlang-turkish", "tur"),
        ("ocrlang-ukrainian", "ukr"), ("ocrlang-urdu", "urd"), ("ocrlang-uyghur", "uig"),
        ("ocrlang-uzbek-cyrillic", "uzb_cyrl"), ("ocrlang-uzbek", "uzb"), ("ocrlang-vietnamese-script", "Vietnamese"),
        ("ocrlang-vietnamese", "vie"), ("ocrlang-welsh", "cym"), ("ocrlang-yiddish", "yid"),
        ("ocrlang-yoruba", "yor"),
    ];
    assert(r@ =~= ocr_lang_keys());
    r
}

/// The English name and language code of each OCR language.
pub fn ocr_lang_english_table() -> (r: Vec<(&'static str, &'static str)>)
    ensures
        r@ == ocr_lang_english_names(),
{
    let r = vec![
        ("Afrikaans", "ar"), ("Albanian", "sqi"), ("Amharic", "amh"),
        ("Arabic", "ara"), ("Arabic script", "Arabic"), ("Armenian", "hye"),
        ("Armenian script", "Armenian"), ("Assamese", "asm"), ("Azerbaijani", "aze"),
        ("Azerbaijani (Cyrillic)", "aze_cyrl"), ("Basque", "eus"), ("Belarusian", "bel"),
        ("Bengali", "ben"), ("Bengali script", "Bengali"), ("Bosnian", "bos"),
        ("Breton", "bre"), ("Bulgarian", "bul"), ("Burmese", "mya"),
        ("Canadian Aboriginal script", "Canadian_Aboriginal"), ("Catalan", "cat"), ("Cebuano", "ceb"),
        ("Cherokee", "chr"), ("Cherokee script", "Cherokee"), ("Chinese - Simplified", "chi_sim"),
        ("Chinese - Simplified (vertical)", "chi_sim_vert"), ("Chinese - Traditional", "chi_tra"), ("Chinese - Traditional (vertical)", "chi_tra_vert"),
        ("Corsican", "cos"), ("Croatian", "hrv"), ("Cyrillic script", "Cyrillic"),
        ("Czech", "ces"), ("Danish", "dan"), ("Devanagari script", "Devanagari"),
        ("Divehi", "div"), ("Dutch", "nld"), ("Dzongkha", "dzo"),
        ("English", "eng"), ("English, Middle (1100-1500)", "enm"), ("Esperanto", "epo"),
        ("Estonian", "est"), ("Ethiopic script", "Ethiopic"), ("Faroese", "fao"),
        ("Filipino", "fil"), ("Finnish", "fin"), ("Fraktur script", "Fraktur"),
        ("Frankish", "frk"), ("French", "fra"), ("French, Middle (ca.1400-1600)", "frm"),
        ("Frisian (Western)", "fry"), ("Gaelic (Scots)", "gla"), ("Galician", "glg"),
        ("Georgian", "kat"), ("Georgian script", "Georgian"), ("German", "deu"),
        ("Greek", "ell"), ("Greek script", "Greek"), ("Gujarati", "guj"),
        ("Gujarati script", "Gujarati"), ("Gurmukhi script", "Gurmukhi"), ("Hangul script", "Hangul"),
        ("Hangul (vertical) script", "Hangul_vert"), ("Han - Simplified script", "HanS"), ("Han - Simplified (vertical) script", "HanS_vert"),
        ("Han - Traditional script", "HanT"), ("Han - Traditional (vertical) script", "HanT_vert"), ("Hatian", "hat"),
        ("Hebrew", "heb"), ("Hebrew script", "Hebrew"), ("Hindi", "hin"),
        ("Hungarian", "hun"), ("Icelandic", "isl"), ("Indonesian", "ind"),
        ("Inuktitut", "iku"), ("Irish", "gle"), ("Italian", "ita"),
        ("Italian - Old", "ita_old"), ("Japanese", "jpn"), ("Japanese script", "Japanese"),
        ("Japanese (vertical)", "jpn_vert"), ("Japanese (vertical) script", "Japanese_vert"), ("Javanese", "jav"),
        ("Kannada", "kan"), ("Kannada script", "Kannada"), ("Kazakh", "kaz"),
        ("Khmer", "khm"), ("Khmer script", "Khmer"), ("Korean", "kor"),
        ("Korean (vertical)", "kor_vert"), ("Kurdish (Arabic)", "kur_ara"), ("Kyrgyz", "kir"),
        ("Lao", "lao"), ("Lao script", "Lao"), ("Latin", "lat"),
        ("Latin script", "Latin"), ("Latvian", "lav"), ("Lithuanian", "lit"),
        ("Luxembourgish", "ltz"), ("Macedonian", "mkd"), ("Malayalam", "mal"),
        ("Malayalam script", "Malayalam"), ("Malay", "msa"), ("Maltese", "mlt"),
        ("Maori", "mri"), ("Marathi", "mar"), ("Mongolian", "mon"),
        ("Myanmar script", "Myanmar"), ("Nepali", "nep"), ("Norwegian", "nor"),
        ("Occitan (post 1500)", "oci"), ("Old Georgian", "kat_old"), ("Oriya (Odia) script", "Oriya"),
        ("Oriya", "ori"), ("Pashto", "pus"), ("Persian", "fas"),
        ("Polish", "pol"), ("Portuguese", "por"), ("Punjabi", "pan"),
        ("Quechua", "que"), ("Romanian", "ron"), ("Russian", "rus"),
        ("Sanskrit", "san"), ("script and orientation", "osd"), ("Serbian (Latin)", "srp_latn"),
        ("Serbian", "srp"), ("Sindhi", "snd"), ("Sinhala script", "Sinhala"),
        ("Sinhala", "sin"), ("Slovakian", "slk"), ("Slovenian", "slv"),
        ("Spanish, Castilian - Old", "spa_old"), ("Spanish", "spa"), ("Sundanese", "sun"),
        ("Swahili", "swa"), ("Swedish", "swe"), ("Syriac script", "Syriac"),
        ("Syriac", "syr"), ("Tajik", "tgk"), ("Tamil script", "Tamil"),
        ("Tamil", "tam"), ("Tatar", "tat"), ("Telugu script", "Telugu"),
        ("Telugu", "tel"), ("Thaana script", "Thaana"), ("Thai script", "Thai"),
        ("Thai", "tha"), ("Tibetan script", "Tibetan"), ("Tibetan Standard", "bod"),
        ("Tigrinya", "tir"), ("Tonga", "ton"), ("Turkish", "tur"),
        ("Ukrainian", "ukr"), ("Urdu", "urd"), ("Uyghur", "uig"),
        ("Uzbek (Cyrillic)", "uzb_cyrl"), ("Uzbek", "uzb"), ("Vietnamese script", "Vietnamese"),
        ("Vietnamese", "vie"), ("Welsh", "cym"), ("Yiddish", "yid"),
        ("Yoruba", "yor"),
    ];
    assert(r@ =~= ocr_lang_english_names());
    r
}

/// Law: the table of language keys and the table of English names list the
/// same languages in the same order: at every position both give the same
/// Tesseract code, so a code is accepted exactly where it has an English
/// name.
#[verifier::rlimit(100)]
pub proof fn law_key_table_matches_english_names()
    ensures
        ocr_lang_keys().len() == ocr_lang_english_names().len(),
        forall|i: int| 0 <= i < ocr_lang_keys().len() ==> #[trigger] ocr_lang_keys()[i].1 == ocr_lang_english_names()[i].1,
{
    let a = ocr_lang_keys();
    let b = ocr_lang_english_names();
    assert(a.len() == b.len());
    assert forall|i: int| 0 <= i < a.len() implies #[trigger] a[i].1 == b[i].1 by {
    }
}

/// Law: a code is an OCR language code exactly where the English-name table
/// lists it.
pub proof fn law_known_codes_are_the_named_ones(code: Seq<char>)
    ensures
        is_known_ocr_code(code) <==> exists|i: int| 0 <= i < ocr_lang_english_names().len() && #[trigger] ocr_lang_english_names()[i].1@ == code,
{
    law_key_table_matches_english_names();
    if is_known_ocr_code(code) {
        let i = choose|i: int| 0 <= i < ocr_lang_keys().len() && #[trigger] ocr_lang_keys()[i].1@ == code;
        assert(ocr_lang_english_names()[i].1 == ocr_lang_keys()[i].1);
    }
    if exists|i: int| 0 <= i < ocr_lang_english_names().len() && #[trigger] ocr_lang_english_names()[i].1@ == code {
        let i = choose|i: int| 0 <= i < ocr_lang_english_names().len() && #[trigger] ocr_lang_english_names()[i].1@ == code;
        assert(ocr_lang_keys()[i].1 == ocr_lang_english_names()[i].1);
    }
}

/// Whether `code` is the code of an OCR language.
pub open spec fn is_known_ocr_code(code: Seq<char>) -> bool {
    exists|i: int| 0 <= i < ocr_lang_keys().len() && #[trigger] ocr_lang_keys()[i].1@ == code
}

/// The codes of the OCR languages, each with its name translated by
/// `l10n` (the message of its key).
pub fn ocr_lang_key_by_name(l10n: &Messages) -> (r: Vec<(&'static str, String)>)
    ensures
        r@.len() == ocr_lang_keys().len(),
        forall|i: int| 0 <= i < r@.len() ==> #[trigger] r@[i].0 == ocr_lang_keys()[i].1
            && r@[i].1@ == gettext_spec(catalog_forms(l10n.catalog), ocr_lang_keys()[i].0@),
{
    let table = ocr_lang_key_table();
    let mut r: Vec<(&'static str, String)> = Vec::new();
    let mut i: usize = 0;
    while i < table.len()
        invariant
            table@ == ocr_lang_keys(),
            i <= table@.len(),
            r@.len() == i,
            forall|k: int| 0 <= k < i ==> #[trigger] r@[k].0 == ocr_lang_keys()[k].1
                && r@[k].1@ == gettext_spec(catalog_forms(l10n.catalog), ocr_lang_keys()[k].0@),
        decreases table.len() - i,
    {
        let (key, code) = table[i];
        let name = l10n.get_message(key);
        r.push((code, name));
        i = i + 1;
    }
    r
}

/// The codes of the OCR languages, each with its English name.
pub fn english_ocr_lang_key_by_name() -> (r: Vec<(&'static str, &'static str)>)
    ensures
        r@.len() == ocr_lang_english_names().len(),
        forall|i: int| 0 <= i < r@.len() ==> #[trigger] r@[i] == (ocr_lang_english_names()[i].1, ocr_lang_english_names()[i].0),
{
    let table = ocr_lang_english_table();
    let mut r: Vec<(&'static str, &'static str)> = Vec::new();
    let mut i: usize = 0;
    while i < table.len()
        invariant
            table@ == ocr_lang_english_names(),
            i <= table@.len(),
            r@.len() == i,
            forall|k: int| 0 <= k < i ==> #[trigger] r@[k] == (ocr_lang_english_names()[k].1, ocr_lang_english_names()[k].0),
        decreases table.len() - i,
    {
        let (name, code) = table[i];
        r.push((code, name));
        i = i + 1;
    }
    r
}

/// Whether `code` is the code of an OCR language.
pub fn is_ocr_lang_code(code: &str) -> (b: bool)
    ensures
        b == is_known_ocr_code(code@),
{
    let table = ocr_lang_key_table();
    let mut i: usize = 0;
    while i < table.len()
        invariant
            table@ == ocr_lang_keys(),
            i <= table@.len(),
            forall|k: int| 0 <= k < i ==> #[trigger] ocr_lang_keys()[k].1@ != code@,
        decreases table.len() - i,
    {
        if same_text(table[i].1, code) {
            return true;
        }
        i = i + 1;
    }
    false
}

/// The index of the first `+` of `s` at or after `from`, or `s.len()`.
pub open spec fn next_plus(s: Seq<char>, from: int) -> int
    decreases s.len() - from,
{
    if from >= s.len() {
        s.len() as int
    } else if s[from] == '+' {
        from
    } else {
        next_plus(s, from + 1)
    }
}

proof fn lemma_next_plus(s: Seq<char>, from: int)
    requires
        0 <= from <= s.len(),
    ensures
        from <= next_plus(s, from) <= s.len(),
        next_plus(s, from) < s.len() ==> s[next_plus(s, from)] == '+',
    decreases s.len() - from,
{
    if from < s.len() && s[from] != '+' {
        lemma_next_plus(s, from + 1);
    }
}

/// The parts of `s[from..]` between the `+` signs (`split('+')`).
pub open spec fn split_plus_from(s: Seq<char>, from: int) -> Seq<Seq<char>>
    decreases s.len() - from,
{
    if from < 0 || from > s.len() {
        Seq::empty()
    } else {
        let k = next_plus(s, from);
        if from < s.len() && k < s.len() && k >= from {
            seq![s.subrange(from, k)] + split_plus_from(s, k + 1)
        } else {
            seq![s.subrange(from, s.len() as int)]
        }
    }
}

/// The language codes of a `+`-separated list such as `eng+fra`.
pub open spec fn split_plus(s: Seq<char>) -> Seq<Seq<char>> {
    split_plus_from(s, 0)
}

/// The first part of `parts` that is no OCR language code.
pub open spec fn first_unknown_code(parts: Seq<Seq<char>>) -> Option<Seq<char>>
    decreases parts.len(),
{
    if parts.len() == 0 {
        None
    } else if !is_known_ocr_code(parts[0]) {
        Some(parts[0])
    } else {
        first_unknown_code(parts.drop_first())
    }
}

/// The first code of the `+`-separated list `ocr_lang` that is no OCR
/// language code, or `None` where all are.
pub fn first_unknown_ocr_code(ocr_lang: &str) -> (r: Option<String>)
    ensures
        match first_unknown_code(split_plus(ocr_lang@)) {
            Some(c) => r matches Some(s) && s@ == c,
            None => r is None,
        },
{
    let v = chars_of(ocr_lang);
    let ghost sv = v@;
    let mut start: usize = 0;
    loop
        invariant
            sv == v@,
            sv == ocr_lang@,
            start <= v@.len(),
            first_unknown_code(split_plus(sv)) == first_unknown_code(split_plus_from(sv, start as int)),
        decreases v@.len() - start,
    {
        let mut k = start;
        while k < v.len() && v[k] != '+'
            invariant
                start <= k <= v@.len(),
                next_plus(sv, start as int) == next_plus(sv, k as int),
                sv == v@,
            decreases v.len() - k,
        {
            k = k + 1;
        }
        proof { lemma_next_plus(sv, start as int); }
        let part = string_from_range(&v, start, k);
        let ghost parts = split_plus_from(sv, start as int);
        if !is_ocr_lang_code(part.as_str()) {
            assert(parts[0] == part@);
            return Some(part);
        }
        if k == v.len() {
            assert(parts == seq![part@]);
            assert(parts.drop_first() =~= Seq::<Seq<char>>::empty());
            assert(is_known_ocr_code(parts[0]));
            assert(first_unknown_code(parts.drop_first()) is None);
            assert(first_unknown_code(parts) is None);
            return None;
        }
        assert(parts.drop_first() == split_plus_from(sv, k + 1));
        start = k + 1;
    }
}


/// The listing of languages `code (name)`, separated by `, `.
pub open spec fn language_listing(pairs: Seq<(&'static str, String)>) -> Seq<char> {
    join_words(pairs.map_values(|p: (&'static str, String)| p.0@ + " ("@ + p.1@ + ")"@), ", "@)
}

/// Lists the languages `pairs` as `code (name)`, separated by `, `.
pub fn list_languages(pairs: &Vec<(&'static str, String)>) -> (r: String)
    ensures
        r@ == language_listing(pairs@),
{
    let ghost pieces = pairs@.map_values(|p: (&'static str, String)| p.0@ + " ("@ + p.1@ + ")"@);
    let mut r = String::new();
    let mut i: usize = 0;
    while i < pairs.len()
        invariant
            pieces == pairs@.map_values(|p: (&'static str, String)| p.0@ + " ("@ + p.1@ + ")"@),
            i <= pairs@.len(),
            r@ == join_words(pieces.take(i as int), ", "@),
        decreases pairs.len() - i,
    {
        if i > 0 {
            push_str(&mut r, ", ");
        }
        let (code, name) = &pairs[i];
        push_str(&mut r, code);
        push_str(&mut r, " (");
        push_str(&mut r, name.as_str());
        push_str(&mut r, ")");
        assert(pieces.take(i + 1).drop_last() =~= pieces.take(i as int));
        i = i + 1;
    }
    assert(pieces.take(pairs@.len() as int) =~= pieces);
    r
}

/// The message that refuses the OCR language `proposed`, followed by the
/// languages that are supported.
pub open spec fn unsupported_ocr_lang_spec(forms: Map<Seq<char>, Seq<Seq<char>>>, proposed: Seq<char>, listing: Seq<char>) -> Seq<char> {
    gettext_spec(forms, "msg-ocrlang-msg-unsupported"@) + " "@ + proposed + ". "@
        + gettext_spec(forms, "msg-ocrlang-msg-hint"@) + listing
}

/// Checks the OCR language `proposed` of the command-line client: it must
/// be the code of one language; otherwise the message lists the supported
/// languages.
pub fn check_ocr_lang(l10n: &Messages, proposed: &str) -> (r: Result<(), String>)
    ensures
        is_known_ocr_code(proposed@) ==> r is Ok,
        !is_known_ocr_code(proposed@) ==> r is Err && exists|pairs: Seq<(&'static str, String)>|
            pairs.len() == ocr_lang_keys().len()
            && (forall|i: int| 0 <= i < pairs.len() ==> #[trigger] pairs[i].0 == ocr_lang_keys()[i].1
                && pairs[i].1@ == gettext_spec(catalog_forms(l10n.catalog), ocr_lang_keys()[i].0@))
            && r->Err_0@ == unsupported_ocr_lang_spec(catalog_forms(l10n.catalog), proposed@, language_listing(pairs)),
{
    if is_ocr_lang_code(proposed) {
        return Ok(());
    }
    let supported = ocr_lang_key_by_name(l10n);
    let mut msg = l10n.get_message("msg-ocrlang-msg-unsupported");
    push_str(&mut msg, " ");
    push_str(&mut msg, proposed);
    push_str(&mut msg, ". ");
    let hint = l10n.get_message("msg-ocrlang-msg-hint");
    push_str(&mut msg, hint.as_str());
    let listing = list_languages(&supported);
    push_str(&mut msg, listing.as_str());
    Err(msg)
}

/// The message that refuses the `+`-separated OCR languages `proposed`
/// where one of them is unknown.
pub fn ocr_lang_param_error(tr: &GettextTranslations, proposed: &str) -> (r: Option<String>)
    ensures
        first_unknown_code(split_plus(proposed@)) is None ==> r is None,
        first_unknown_code(split_plus(proposed@)) is Some ==> r is Some && gettext_fmt_spec(
            gettext_spec(catalog_forms(tr.catalog), "Unknown language code for the ocr-lang parameter: {0}. Hint: Try 'eng' for English."@),
            seq![proposed]) == r->0@,
{
    match first_unknown_ocr_code(proposed) {
        None => None,
        Some(_) => {
            let params: Vec<&str> = vec![proposed];
            assert(params@ == seq![proposed]);
            Some(tr.gettext_fmt("Unknown language code for the ocr-lang parameter: {0}. Hint: Try 'eng' for English.", params))
        },
    }
}


/// The supported OCR languages as the command-line client lists them:
/// `code (name)` for each language, its English name translated, joined by
/// `, `.
pub open spec fn cli_language_listing(forms: Map<Seq<char>, Seq<Seq<char>>>) -> Seq<char> {
    join_words(
        Seq::new(ocr_lang_english_names().len(), |i: int|
            ocr_lang_english_names()[i].1@ + " ("@ + gettext_spec(forms, ocr_lang_english_names()[i].0@) + ")"@),
        ", "@,
    )
}

/// The codes of the OCR languages, each with its English name translated
/// by `tr`.
pub fn translated_ocr_languages(tr: &GettextTranslations) -> (r: Vec<(&'static str, String)>)
    ensures
        r@.len() == ocr_lang_english_names().len(),
        forall|i: int| 0 <= i < r@.len() ==> #[trigger] r@[i].0 == ocr_lang_english_names()[i].1
            && r@[i].1@ == gettext_spec(catalog_forms(tr.catalog), ocr_lang_english_names()[i].0@),
{
    let table = ocr_lang_english_table();
    let mut r: Vec<(&'static str, String)> = Vec::new();
    let mut i: usize = 0;
    while i < table.len()
        invariant
            table@ == ocr_lang_english_names(),
            i <= table@.len(),
            r@.len() == i,
            forall|k: int| 0 <= k < i ==> #[trigger] r@[k].0 == ocr_lang_english_names()[k].1
                && r@[k].1@ == gettext_spec(catalog_forms(tr.catalog), ocr_lang_english_names()[k].0@),
        decreases table.len() - i,
    {
        let (name, code) = table[i];
        r.push((code, tr.gettext(name)));
        i = i + 1;
    }
    r
}

/// The message of the command-line client that refuses the `+`-separated
/// OCR languages `proposed` where one of them is unknown: the translated
/// refusal, ` => `, then the supported languages.
pub fn cli_ocr_lang_error(tr: &GettextTranslations, proposed: &str) -> (r: Option<String>)
    ensures
        first_unknown_code(split_plus(proposed@)) is None ==> r is None,
        first_unknown_code(split_plus(proposed@)) is Some ==> r is Some && r->0@ == gettext_fmt_spec(
            gettext_spec(catalog_forms(tr.catalog), "Unknown language code for the ocr-lang parameter: {0}. Hint: Try 'eng' for English."@),
            seq![proposed]) + " => "@ + cli_language_listing(catalog_forms(tr.catalog)),
{
    match ocr_lang_param_error(tr, proposed) {
        None => None,
        Some(refusal) => {
            let mut msg = refusal;
            push_str(&mut msg, " => ");
            let languages = translated_ocr_languages(tr);
            let listing = list_languages(&languages);
            proof {
                let pieces = languages@.map_values(|p: (&'static str, String)| p.0@ + " ("@ + p.1@ + ")"@);
                let expected = Seq::new(ocr_lang_english_names().len(), |i: int|
                    ocr_lang_english_names()[i].1@ + " ("@ + gettext_spec(catalog_forms(tr.catalog), ocr_lang_english_names()[i].0@) + ")"@);
                assert(pieces =~= expected);
            }
            push_str(&mut msg, listing.as_str());
            Some(msg)
        },
    }
}

// ---------------------------------------------------------------------------
// Choice of languages in the desktop application

/// An OCR language offered for selection: its code and its name.
pub struct OcrLang {
    pub id: String,
    pub name: String,
}

impl OcrLang {
    /// The language of code `id` named `name`.
    pub fn new(id: String, name: String) -> (r: Self)
        ensures
            r.id == id,
            r.name == name,
    {
        OcrLang { id, name }
    }

    /// The name shown for the language (what `Display` prints).
    pub fn to_text(&self) -> (r: String)
        ensures
            r@ == self.name@,
    {
        self.name.clone()
    }
}

/// Whether `a` comes before or is `b` in the order of `String`: the
/// lexicographic order of the characters' code points (which is that of
/// their UTF-8 bytes).
pub open spec fn text_le(a: Seq<char>, b: Seq<char>) -> bool
    decreases a.len(),
{
    if a.len() == 0 {
        true
    } else if b.len() == 0 {
        false
    } else if (a[0] as u32) < (b[0] as u32) {
        true
    } else if (a[0] as u32) > (b[0] as u32) {
        false
    } else {
        text_le(a.drop_first(), b.drop_first())
    }
}

proof fn lemma_text_le_total(a: Seq<char>, b: Seq<char>)
    ensures
        text_le(a, b) || text_le(b, a),
    decreases a.len(),
{
    if a.len() > 0 && b.len() > 0 && (a[0] as u32) == (b[0] as u32) {
        lemma_text_le_total(a.drop_first(), b.drop_first());
    }
}

proof fn lemma_text_le_trans(a: Seq<char>, b: Seq<char>, c: Seq<char>)
    requires
        text_le(a, b),
        text_le(b, c),
    ensures
        text_le(a, c),
    decreases a.len(),
{
    if a.len() > 0 && b.len() > 0 && c.len() > 0 && (a[0] as u32) == (b[0] as u32) && (b[0] as u32) == (c[0] as u32) {
        lemma_text_le_trans(a.drop_first(), b.drop_first(), c.drop_first());
    }
}

fn text_le_exec(a: &str, b: &str) -> (r: bool)
    ensures
        r == text_le(a@, b@),
{
    let x = chars_of(a);
    let y = chars_of(b);
    let mut i: usize = 0;
    assert(a@.subrange(0, a@.len() as int) =~= a@);
    assert(b@.subrange(0, b@.len() as int) =~= b@);
    while i < x.len() && i < y.len()
        invariant
            x@ == a@,
            y@ == b@,
            i <= x@.len(),
            i <= y@.len(),
            text_le(a@, b@) == text_le(a@.subrange(i as int, a@.len() as int), b@.subrange(i as int, b@.len() as int)),
        decreases x.len() - i,
    {
        let c = x[i];
        let d = y[i];
        let ghost sa = a@.subrange(i as int, a@.len() as int);
        let ghost sb = b@.subrange(i as int, b@.len() as int);
        assert(sa[0] == c && sb[0] == d);
        if (c as u32) < (d as u32) {
            return true;
        }
        if (c as u32) > (d as u32) {
            return false;
        }
        assert(sa.drop_first() =~= a@.subrange(i + 1, a@.len() as int));
        assert(sb.drop_first() =~= b@.subrange(i + 1, b@.len() as int));
        i = i + 1;
    }
    i == x.len()
}

/// Whether the languages are in the order of their names.
pub open spec fn sorted_by_name(s: Seq<OcrLang>) -> bool {
    forall|i: int, j: int| 0 <= i < j < s.len() ==> text_le(s[i].name@, s[j].name@)
}

/// The languages in the order of their names.
pub fn sort_by_name(langs: Vec<OcrLang>) -> (r: Vec<OcrLang>)
    ensures
        sorted_by_name(r@),
        r@.to_multiset() == langs@.to_multiset(),
{
    broadcast use vstd::seq_lib::to_multiset_insert;
    let ghost all = langs@;
    let mut out: Vec<OcrLang> = Vec::new();
    proof {
        assert(all.take(0).to_multiset() =~= out@.to_multiset()) by {
            assert(all.take(0) =~= Seq::<OcrLang>::empty());
            assert(out@ =~= Seq::<OcrLang>::empty());
        }
    }
    for x in it: langs
        invariant
            it.seq() == all,
            sorted_by_name(out@),
            out@.to_multiset() == all.take(it.index() as int).to_multiset(),
    {
        let ghost i = it.index();
        assert(x == all[i as int]);
        let mut p: usize = 0;
        while p < out.len() && text_le_exec(out[p].name.as_str(), x.name.as_str())
            invariant
                p <= out@.len(),
                forall|k: int| 0 <= k < p ==> text_le(#[trigger] out@[k].name@, x.name@),
            decreases out.len() - p,
        {
            p = p + 1;
        }
        let ghost before = out@;
        out.insert(p, x);
        proof {
            assert(out@ == before.insert(p as int, x));
            if p < before.len() {
                assert(!text_le(before[p as int].name@, x.name@));
                lemma_text_le_total(before[p as int].name@, x.name@);
            }
            assert forall|a: int, b: int| 0 <= a < b < out@.len() implies text_le(out@[a].name@, out@[b].name@) by {
                if b < p {
                    assert(out@[a] == before[a] && out@[b] == before[b]);
                } else if b == p {
                    assert(out@[a] == before[a]);
                } else if a == p {
                    assert(out@[b] == before[b - 1]);
                    if b - 1 > p {
                        lemma_text_le_trans(x.name@, before[p as int].name@, before[b - 1].name@);
                    }
                } else if a < p {
                    assert(out@[a] == before[a] && out@[b] == before[b - 1]);
                } else {
                    assert(out@[a] == before[a - 1] && out@[b] == before[b - 1]);
                }
            }
            assert(all.take(i + 1) =~= all.take(i as int).push(x));
            vstd::seq_lib::to_multiset_build(all.take(i as int), x);
            vstd::seq_lib::to_multiset_insert(before, p as int, x);
        }
    }
    proof {
        assert(all.take(all.len() as int) =~= all);
    }
    out
}

/// The index of the first language of code `code`.
pub open spec fn first_with_code(s: Seq<OcrLang>, code: Seq<char>) -> Option<int>
    decreases s.len(),
{
    if s.len() == 0 {
        None
    } else {
        match first_with_code(s.drop_last(), code) {
            Some(i) => Some(i),
            None => if s.last().id@ == code { Some(s.len() - 1) } else { None },
        }
    }
}

proof fn lemma_first_with_code(s: Seq<OcrLang>, code: Seq<char>, j: int)
    requires
        0 <= j < s.len(),
        s[j].id@ == code,
        forall|k: int| 0 <= k < j ==> #[trigger] s[k].id@ != code,
    ensures
        first_with_code(s, code) == Some(j),
    decreases s.len(),
{
    if j < s.len() - 1 {
        lemma_first_with_code(s.drop_last(), code, j);
    } else {
        lemma_first_with_code_none(s.drop_last(), code);
    }
}

proof fn lemma_first_with_code_none(s: Seq<OcrLang>, code: Seq<char>)
    requires
        forall|k: int| 0 <= k < s.len() ==> #[trigger] s[k].id@ != code,
    ensures
        first_with_code(s, code) is None,
    decreases s.len(),
{
    if s.len() > 0 {
        lemma_first_with_code_none(s.drop_last(), code);
    }
}

/// The language selected at first: the first one of code `code`, alone
/// ticked; the first one, none ticked, where there is none of that code.
pub fn default_selection(langs: &Vec<OcrLang>, code: &str) -> (r: (usize, Vec<bool>))
    ensures
        r.1@.len() == langs@.len(),
        match first_with_code(langs@, code@) {
            Some(i) => r.0 == i && forall|k: int| 0 <= k < langs@.len() ==> r.1@[k] == (k == i),
            None => r.0 == 0 && forall|k: int| 0 <= k < langs@.len() ==> !r.1@[k],
        },
{
    let mut ticks: Vec<bool> = Vec::new();
    let mut i: usize = 0;
    while i < langs.len()
        invariant
            i <= langs@.len(),
            ticks@.len() == i,
            forall|k: int| 0 <= k < i ==> !ticks@[k],
        decreases langs.len() - i,
    {
        ticks.push(false);
        i = i + 1;
    }
    let mut j: usize = 0;
    while j < langs.len()
        invariant
            j <= langs@.len(),
            ticks@.len() == langs@.len(),
            forall|k: int| 0 <= k < langs@.len() ==> !ticks@[k],
            forall|k: int| 0 <= k < j ==> #[trigger] langs@[k].id@ != code@,
        decreases langs.len() - j,
    {
        if same_text(langs[j].id.as_str(), code) {
            ticks.set(j, true);
            proof {
                lemma_first_with_code(langs@, code@, j as int);
            }
            return (j, ticks);
        }
        j = j + 1;
    }
    proof {
        lemma_first_with_code_none(langs@, code@);
    }
    (0, ticks)
}

} // verus!
