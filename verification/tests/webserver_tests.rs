use entrusted::webserver::{
    i32_to_text, output_filename_for, parse_accept_language, progress_made, ClientCursor, CompletionMessage,
    Notification, NotificationStore, PollStep, UploadedFile,
};

fn note(event: &str, id: &str, data: &str) -> Notification {
    Notification::new(event.to_string(), id.to_string(), data.to_string())
}

#[test]
fn notifications_are_kept_per_request() {
    let mut store = NotificationStore::new();
    assert!(!store.contains("r1"));
    store.register("r1".to_string());
    assert!(store.contains("r1"));
    assert!(store.push("r1", note("processing_update", "1", "a")));
    assert!(!store.push("r2", note("processing_update", "1", "a")));
    let n = store.get("r1", 0).unwrap();
    assert_eq!((n.event.as_str(), n.id.as_str(), n.data.as_str()), ("processing_update", "1", "a"));
    assert!(store.get("r1", 1).is_none());
    store.remove("r1");
    assert!(!store.contains("r1"));
}

#[test]
fn registering_again_drops_old_notifications() {
    let mut store = NotificationStore::new();
    store.register("r".to_string());
    store.push("r", note("processing_update", "1", "a"));
    store.register("r".to_string());
    assert!(store.get("r", 0).is_none());
}

#[test]
fn progress_is_recorded_with_its_counter() {
    let mut store = NotificationStore::new();
    store.register("r".to_string());
    assert!(progress_made(&mut store, "r".to_string(), "processing_update", "{}".to_string(), 7, "Could not find notification for".to_string()).is_ok());
    assert_eq!(store.get("r", 0).unwrap().id, "7");
    assert_eq!(
        progress_made(&mut store, "x".to_string(), "processing_update", "{}".to_string(), 1, "Could not find notification for".to_string()),
        Err("Could not find notification for : x.".to_string())
    );
}

#[test]
fn client_walks_notifications_in_order_until_the_last() {
    let mut store = NotificationStore::new();
    store.register("r".to_string());
    let mut c = ClientCursor::new("r".to_string());
    assert!(matches!(c.poll_next(&store), PollStep::Pending));
    store.push("r", note("processing_update", "1", "a"));
    store.push("r", note("processing_success", "2", "b"));
    store.push("r", note("processing_update", "3", "c"));
    match c.poll_next(&store) { PollStep::Next(n) => assert_eq!(n.id, "1"), _ => panic!("first notification") }
    match c.poll_next(&store) { PollStep::Next(n) => assert_eq!(n.id, "2"), _ => panic!("second notification") }
    assert!(matches!(c.poll_next(&store), PollStep::Ended));
}

#[test]
fn accept_language_gives_the_first_language() {
    assert_eq!(parse_accept_language(Some("fr-CA,fr;q=0.9,en;q=0.8"), "en".to_string()), "fr-CA");
    assert_eq!(parse_accept_language(Some("de;q=0.5"), "en".to_string()), "de");
    assert_eq!(parse_accept_language(None, "en".to_string()), "en");
}

#[test]
fn result_names_and_records() {
    assert_eq!(output_filename_for("abc.docx".to_string()), "abc-entrusted.pdf");
    assert_eq!(output_filename_for("/tmp/x/abc".to_string()), "/tmp/x/abc-entrusted.pdf");
    assert_eq!(i32_to_text(-42), "-42");
    assert_eq!(CompletionMessage::new("/d".to_string()).percent_complete, 100);
    assert!(UploadedFile::empty().id.is_empty());
}
