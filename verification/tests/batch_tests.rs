use entrusted::batch::{batch_label, BatchProgress, BatchRun, FileEntry, FileList, RunStep};
use entrusted::l10n::GettextTranslations;
use entrusted::options::{AppEvent, FileUploadOptions, FileUploadStatus};

fn english() -> GettextTranslations {
    GettextTranslations::untranslated("en".to_string())
}

fn entry(path: &str) -> FileEntry {
    FileEntry::new(path.to_string(), FileUploadOptions::empty())
}

fn paths(list: &FileList) -> Vec<String> {
    (0..list.len()).map(|i| list.get(i).path.clone()).collect()
}

#[test]
fn files_are_listed_once() {
    let mut list = FileList::new();
    list.add_files(vec![entry("/a.pdf"), entry("/b.pdf"), entry("/a.pdf")]);
    assert_eq!(paths(&list), vec!["/a.pdf", "/b.pdf"]);
    list.add_files(vec![entry("/b.pdf"), entry("/c.pdf")]);
    assert_eq!(paths(&list), vec!["/a.pdf", "/b.pdf", "/c.pdf"]);
}

#[test]
fn adding_the_same_files_twice_changes_nothing() {
    let mut list = FileList::new();
    list.add_files(vec![entry("/a"), entry("/b")]);
    list.add_files(vec![entry("/a"), entry("/b")]);
    assert_eq!(paths(&list), vec!["/a", "/b"]);
}

#[test]
fn selections_and_deletion() {
    let mut list = FileList::new();
    list.add_files(vec![entry("/a"), entry("/b"), entry("/c")]);
    assert!(list.can_select_or_deselect_all(true));
    assert!(!list.can_select_or_deselect_all(false));
    list.toggle_all_selections(true);
    assert!(!list.can_select_or_deselect_all(true));
    list.delete_selected();
    assert_eq!(list.len(), 0);
    list.add_files(vec![entry("/x"), entry("/y")]);
    list.set_options(1, FileUploadOptions { password_decrypt: "p".to_string(), password_encrypt: String::new(), output_folder: String::new() });
    assert_eq!(list.get(1).options.password_decrypt, "p");
    list.delete_selected();
    assert_eq!(paths(&list), vec!["/x", "/y"]);
}

#[test]
fn batch_states_follow_the_events() {
    let tr = english();
    let mut b = BatchProgress::new(3, &tr);
    assert_eq!(b.label, "Documents processing:");
    b.ack_proc_event(AppEvent::ConversionStarted(0), &tr);
    assert_eq!(b.statuses[0], FileUploadStatus::Processing);
    b.ack_proc_event(AppEvent::ConversionProgressed(uuid::Uuid::nil(), 40, "half".to_string()), &tr);
    assert_eq!(b.progress_log.len(), 1);
    b.ack_proc_event(AppEvent::ConversionFinished(0, Some("/out.pdf".to_string())), &tr);
    assert_eq!(b.statuses[0], FileUploadStatus::Succeeded);
    assert_eq!(b.outputs[0], Some("/out.pdf".to_string()));
    b.ack_proc_event(AppEvent::ConversionFailed(1), &tr);
    assert_eq!(b.statuses[1], FileUploadStatus::Failed);
    b.ack_proc_event(AppEvent::ConversionFinished(2, None), &tr);
    assert_eq!(b.statuses[2], FileUploadStatus::Interrupted);
    assert!(b.interrupted);
    assert_eq!(b.processed_count, 3);
    b.ack_proc_event(AppEvent::AllConversionEnded(1, 1, 3), &tr);
    assert!(b.done);
    assert_eq!(b.label, "The processing was interrupted!");
}

#[test]
fn batch_summaries() {
    let tr = english();
    assert_eq!(batch_label(false, 3, 0, 3, &tr), "All documents were successfully processed!");
    assert_eq!(batch_label(false, 0, 1, 1, &tr), "The document failed to process!");
    assert_eq!(batch_label(false, 0, 4, 4, &tr), "All documents failed to process!");
    assert_eq!(batch_label(false, 2, 2, 4, &tr), "2 documents out of 4 failed processing!");
    assert_eq!(batch_label(true, 4, 0, 4, &tr), "The processing was interrupted!");
}

fn with_folder(path: &str, folder: &str) -> FileEntry {
    let mut options = FileUploadOptions::empty();
    options.output_folder = folder.to_string();
    FileEntry::new(path.to_string(), options)
}

#[test]
fn options_stay_with_their_files() {
    let mut list = FileList::new();
    list.add_files(vec![with_folder("/a", "/out/a"), with_folder("/b", "/out/b"), with_folder("/c", "/out/c")]);
    list.set_selected(1, true);
    assert!(list.get(1).selected);
    assert!(!list.get(0).selected);
    list.delete_selected();
    assert_eq!(paths(&list), vec!["/a", "/c"]);
    assert_eq!(list.get(1).options.output_folder, "/out/c");
    list.toggle_all_selections(true);
    assert_eq!(list.get(0).options.output_folder, "/out/a");
    list.set_options(0, FileUploadOptions::empty());
    assert_eq!(list.get(0).options.output_folder, "");
    assert_eq!(list.get(1).options.output_folder, "/out/c");
}

#[test]
fn a_batch_run_counts_outcomes_and_ends_with_the_tallies() {
    let mut run = BatchRun::new(3);
    assert!(matches!(run.next_step(false), RunStep::Start(0, AppEvent::ConversionStarted(0))));
    let events = run.record_outcome(uuid::Uuid::nil(), Ok(Some("/out/a.pdf".to_string())));
    assert!(matches!(events.as_slice(), [AppEvent::ConversionFinished(0, Some(_))]));
    let events = run.record_outcome(uuid::Uuid::nil(), Err("boom".to_string()));
    assert_eq!(events.len(), 2);
    assert!(matches!(&events[0], AppEvent::ConversionProgressed(_, 100, m) if m == "boom"));
    assert!(matches!(events[1], AppEvent::ConversionFailed(1)));
    assert!(matches!(run.next_step(true), RunStep::End(AppEvent::AllConversionEnded(1, 1, 3))));
}

#[test]
fn the_first_selected_file_is_configured() {
    let mut list = FileList::new();
    list.add_files(vec![entry("/a"), entry("/b"), entry("/c")]);
    assert_eq!(list.first_selected(), None);
    list.set_selected(2, true);
    list.set_selected(1, true);
    assert_eq!(list.first_selected(), Some(1));
}
