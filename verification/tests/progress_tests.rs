use entrusted::progress::{elapsed_parts, elapsed_time_string, elapsed_time_words, elapsed_total_words, ProgressRange};
use entrusted::l10n::GettextTranslations;

#[test]
fn progress_stays_within_its_range() {
    let r = ProgressRange::new(40, 90);
    assert_eq!(r.delta(), 50);
    assert_eq!(r.progress_at(0, 4), 40);
    assert_eq!(r.progress_at(1, 2), 65);
    assert_eq!(r.progress_at(1, 3), 56);
    assert_eq!(r.progress_at(4, 4), 90);
}

#[test]
fn progress_range_moves() {
    let mut r = ProgressRange::new(0, 20);
    r.update(90, 98);
    assert_eq!((r.min, r.max), (90, 98));
}

#[test]
fn elapsed_time_in_clock_parts() {
    assert_eq!(elapsed_parts(3_723_456), (1, 2, 3));
    assert_eq!(elapsed_parts(59_999), (0, 0, 59));
    assert_eq!(elapsed_time_string(3_723_000), "1 hour(s) 2 minute(s) 3 seconds(s)");
    assert_eq!(elapsed_time_string(0), "0 hour(s) 0 minute(s) 0 seconds(s)");
}

#[test]
fn elapsed_time_in_words() {
    let tr = GettextTranslations::untranslated("en".to_string());
    assert_eq!(elapsed_time_words(3_723_000, &tr), "hour minutes seconds");
    assert_eq!(elapsed_time_words(61_000, &tr), "hours minute second");
    assert_eq!(elapsed_total_words(3_723_000, &tr), "hour minutes seconds");
}
