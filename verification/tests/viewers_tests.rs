use entrusted::viewers::{desktop_entry_names, launch_command, viewer_entry, PdfViewers};

#[test]
fn entry_names_skip_empty_parts() {
    assert_eq!(desktop_entry_names("org.gnome.Evince.desktop;;okular.desktop;"), vec!["org.gnome.Evince.desktop".to_string(), "okular.desktop".to_string()]);
    assert_eq!(desktop_entry_names(""), Vec::<String>::new());
    assert_eq!(desktop_entry_names(";;"), Vec::<String>::new());
}

#[test]
fn field_codes_are_taken_out_of_commands() {
    assert_eq!(launch_command("evince %U"), "evince ");
    assert_eq!(launch_command("firefox -new-tab %u %f"), "firefox -new-tab  ");
    assert_eq!(launch_command("okular"), "okular");
    assert_eq!(launch_command("%%uu"), "%u");
}

#[test]
fn try_exec_is_preferred_over_exec() {
    assert_eq!(viewer_entry(Some("Evince"), Some("evince"), Some("evince %U")), Some(("Evince".to_string(), "evince".to_string())));
    assert_eq!(viewer_entry(Some("Evince"), None, Some("evince %U")), Some(("Evince".to_string(), "evince ".to_string())));
    assert_eq!(viewer_entry(None, Some("evince"), None), None);
    assert_eq!(viewer_entry(Some("Evince"), None, None), None);
}

#[test]
fn a_later_viewer_of_the_same_name_replaces_the_earlier() {
    let mut viewers = PdfViewers::new();
    viewers.record("Evince".to_string(), "evince".to_string());
    viewers.record("Okular".to_string(), "okular".to_string());
    viewers.record("Evince".to_string(), "/usr/bin/evince".to_string());
    assert_eq!(viewers.len(), 2);
    assert_eq!(viewers.command_of("Evince"), Some("/usr/bin/evince".to_string()));
    assert_eq!(viewers.command_of("Okular"), Some("okular".to_string()));
    assert_eq!(viewers.command_of("Atril"), None);
}

#[test]
fn recording_a_list_records_each_in_turn() {
    let mut viewers = PdfViewers::new();
    viewers.record_all(vec![("A".to_string(), "a".to_string()), ("B".to_string(), "b".to_string()), ("A".to_string(), "c".to_string())]);
    assert_eq!(viewers.len(), 2);
    assert_eq!(viewers.command_of("A"), Some("c".to_string()));
}
