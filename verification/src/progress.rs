//! Progress reporting of a conversion: the share of the progress bar that a
//! step owns, the value reported after each page, and the elapsed time
//! printed once the conversion ends.
use vstd::prelude::*;
use crate::text::{decimal, push_str, u128_to_text};
use crate::l10n::{catalog_forms, ngettext_fmt_spec, plural_form, plural_index, GettextTranslations, Translations};

verus! {

/// The part `[min, max]` of the progress bar (in percent) that one step of
/// a conversion reports in.
pub struct ProgressRange {
    pub min: usize,
    pub max: usize,
}

impl ProgressRange {
    /// Whether the range is not reversed.
    pub open spec fn wf(&self) -> bool {
        self.min <= self.max
    }

    /// The range `[min, max]`.
    pub fn new(min: usize, max: usize) -> (r: Self)
        ensures
            r.min == min,
            r.max == max,
    {
        ProgressRange { min, max }
    }

    /// Moves the range to `[new_min, new_max]`.
    pub fn update(&mut self, new_min: usize, new_max: usize)
        ensures
            final(self).min == new_min,
            final(self).max == new_max,
    {
        self.min = new_min;
        self.max = new_max;
    }

    /// The width of the range.
    pub fn delta(&self) -> (d: usize)
        requires
            self.wf(),
        ensures
            d == self.max - self.min,
    {
        self.max - self.min
    }

    /// The value reported after `step` of `count` units of work: the lower
    /// bound plus the same share of the width, rounded down.
    pub open spec fn value_at(&self, step: nat, count: nat) -> int {
        self.min + (step * ((self.max - self.min) as nat)) / count
    }

    /// The value reported after `step` of `count` units of work.
    pub fn progress_at(&self, step: usize, count: usize) -> (v: usize)
        requires
            self.wf(),
            0 < count,
            step <= count,
        ensures
            v == self.value_at(step as nat, count as nat),
            self.min <= v <= self.max,
    {
        let d = self.delta();
        assert((step as u128) * (d as u128) <= 0xffff_ffff_ffff_ffffu128 * 0xffff_ffff_ffff_ffffu128) by (nonlinear_arith)
            requires step <= 0xffff_ffff_ffff_ffffu128, d <= 0xffff_ffff_ffff_ffffu128, 0 <= step, 0 <= d;
        let share: u128 = (step as u128) * (d as u128) / (count as u128);
        proof {
            lemma_share_bounded(step as nat, d as nat, count as nat);
        }
        self.min + (share as usize)
    }
}

proof fn lemma_share_bounded(step: nat, d: nat, count: nat)
    requires
        0 < count,
        step <= count,
    ensures
        (step * d) / count <= d,
        0 <= (step * d) / count,
{
    assert(step * d <= count * d) by (nonlinear_arith)
        requires step <= count;
    assert((step * d) / count <= (count * d) / count) by (nonlinear_arith)
        requires step * d <= count * d, 0 < count;
    assert((count * d) / count == d) by (nonlinear_arith)
        requires 0 < count;
    assert(0 <= (step * d) / count) by (nonlinear_arith)
        requires 0 < count;
}

/// Progress never leaves the range of its step, starts at its lower bound,
/// reaches its upper bound with the last unit of work, and never goes back.
pub proof fn law_progress_within_range(range: ProgressRange, s1: nat, s2: nat, count: nat)
    requires
        range.wf(),
        0 < count,
        s1 <= s2 <= count,
    ensures
        range.min <= range.value_at(s1, count) <= range.value_at(s2, count) <= range.max,
        range.value_at(0, count) == range.min,
        range.value_at(count, count) == range.max,
{
    let d = (range.max - range.min) as nat;
    lemma_share_bounded(s2, d, count);
    lemma_share_bounded(s1, d, count);
    assert(s1 * d <= s2 * d) by (nonlinear_arith)
        requires s1 <= s2;
    assert((s1 * d) / count <= (s2 * d) / count) by (nonlinear_arith)
        requires s1 * d <= s2 * d, 0 < count;
    assert((0 * d) / count == 0) by (nonlinear_arith)
        requires 0 < count;
    assert((count * d) / count == d) by (nonlinear_arith)
        requires 0 < count;
}

/// Milliseconds in an hour, a minute and a second.
pub const MILLIS_PER_HOUR: u128 = 3600000;
pub const MILLIS_PER_MINUTE: u128 = 60000;
pub const MILLIS_PER_SECOND: u128 = 1000;

/// The whole hours, the minutes past them and the seconds past those of a
/// duration of `millis` milliseconds.
pub open spec fn clock_parts(millis: nat) -> (nat, nat, nat) {
    (
        millis / 3600000,
        (millis % 3600000) / 60000,
        (millis % 60000) / 1000,
    )
}

/// The hours, minutes and seconds of `millis`, as a clock shows them.
pub fn elapsed_parts(millis: u128) -> (r: (u128, u128, u128))
    ensures
        (r.0 as nat, r.1 as nat, r.2 as nat) == clock_parts(millis as nat),
{
    let hours = millis / MILLIS_PER_HOUR;
    let minutes = (millis % MILLIS_PER_HOUR) / MILLIS_PER_MINUTE;
    let seconds = (millis % MILLIS_PER_MINUTE) / MILLIS_PER_SECOND;
    (hours, minutes, seconds)
}

/// The clock parts of a duration give it back, to the millisecond left
/// over, and the minutes and seconds stay under sixty; counting whole
/// seconds first gives the same parts.
pub proof fn law_elapsed_parts_recompose(millis: nat)
    ensures
        clock_parts(millis).0 * 3600000 + clock_parts(millis).1 * 60000
            + clock_parts(millis).2 * 1000 + millis % 1000 == millis,
        clock_parts(millis).1 < 60,
        clock_parts(millis).2 < 60,
        clock_parts(millis).0 == (millis / 1000) / 3600,
        clock_parts(millis).1 == ((millis / 1000) % 3600) / 60,
        clock_parts(millis).2 == (millis / 1000) % 60,
{
    let m = millis as int;
    assert(m == (m / 3600000) * 3600000 + m % 3600000) by (nonlinear_arith);
    assert(m % 3600000 == ((m % 3600000) / 60000) * 60000 + (m % 3600000) % 60000) by (nonlinear_arith);
    assert((m % 3600000) % 60000 == m % 60000) by (nonlinear_arith);
    assert(m % 60000 == ((m % 60000) / 1000) * 1000 + (m % 60000) % 1000) by (nonlinear_arith);
    assert((m % 60000) % 1000 == m % 1000) by (nonlinear_arith);
    assert((m % 3600000) / 60000 < 60) by (nonlinear_arith);
    assert((m % 60000) / 1000 < 60) by (nonlinear_arith);
    assert(m / 3600000 == (m / 1000) / 3600) by (nonlinear_arith);
    assert((m % 3600000) / 60000 == ((m / 1000) % 3600) / 60) by (nonlinear_arith);
    assert((m % 60000) / 1000 == (m / 1000) % 60) by (nonlinear_arith);
}

/// The elapsed-time text printed at the end of a conversion by the
/// container tool: `"{h} hour(s) {m} minute(s) {s} seconds(s)"`.
pub open spec fn elapsed_clock_text(millis: nat) -> Seq<char> {
    decimal(clock_parts(millis).0) + " hour(s) "@ + decimal(clock_parts(millis).1) + " minute(s) "@
        + decimal(clock_parts(millis).2) + " seconds(s)"@
}

/// Renders the elapsed time of a conversion, as the container tool logs it.
pub fn elapsed_time_string(millis: u128) -> (r: String)
    ensures
        r@ == elapsed_clock_text(millis as nat),
{
    let (hours, minutes, seconds) = elapsed_parts(millis);
    let mut r = u128_to_text(hours);
    push_str(&mut r, " hour(s) ");
    let m = u128_to_text(minutes);
    push_str(&mut r, m.as_str());
    push_str(&mut r, " minute(s) ");
    let s = u128_to_text(seconds);
    push_str(&mut r, s.as_str());
    push_str(&mut r, " seconds(s)");
    r
}

/// What `ngettext(msg_id, msg_id_plural, n)` gives with the translations
/// `tr`.
pub open spec fn plural_word(tr: &GettextTranslations, msg_id: Seq<char>, msg_id_plural: Seq<char>, n: u64) -> Seq<char> {
    ngettext_fmt_spec(plural_form(catalog_forms(tr.catalog), msg_id, msg_id_plural, n, plural_index(tr.catalog, n)->0), n, Seq::empty())
}

/// Whether the plural rule of `tr` gives a form for each of the counts.
pub open spec fn plural_rule_covers(tr: &GettextTranslations, hours: u64, minutes: u64, seconds: u64) -> bool {
    &&& plural_index(tr.catalog, hours) is Some
    &&& plural_index(tr.catalog, minutes) is Some
    &&& plural_index(tr.catalog, seconds) is Some
}

/// The words of a duration of `hours`, `minutes` and `seconds`.
pub open spec fn duration_words(tr: &GettextTranslations, hours: u64, minutes: u64, seconds: u64) -> Seq<char> {
    unit_words_text(
        plural_word(tr, "hour"@, "hours"@, hours),
        plural_word(tr, "minute"@, "minutes"@, minutes),
        plural_word(tr, "second"@, "seconds"@, seconds),
    )
}

/// The three unit words of a duration, separated by single spaces.
pub open spec fn unit_words_text(h: Seq<char>, m: Seq<char>, s: Seq<char>) -> Seq<char> {
    h + " "@ + m + " "@ + s
}

fn unit_words(tr: &GettextTranslations, hours: u64, minutes: u64, seconds: u64) -> (r: String)
    requires
        plural_rule_covers(tr, hours, minutes, seconds),
    ensures
        r@ == duration_words(tr, hours, minutes, seconds),
{
    let h = tr.ngettext("hour", "hours", hours);
    let m = tr.ngettext("minute", "minutes", minutes);
    let s = tr.ngettext("second", "seconds", seconds);
    let mut r = String::new();
    push_str(&mut r, h.as_str());
    push_str(&mut r, " ");
    push_str(&mut r, m.as_str());
    push_str(&mut r, " ");
    push_str(&mut r, s.as_str());
    assert(r@ == unit_words_text(h@, m@, s@));
    r
}

/// The elapsed-time words of the desktop application: the plural forms of
/// "hour", "minute" and "second" chosen for the clock parts of `millis`
/// (each taken as a `u64`, as the application does).
pub fn elapsed_time_words(millis: u128, tr: &GettextTranslations) -> (r: String)
    requires
        plural_rule_covers(tr, clock_parts(millis as nat).0 as u64, clock_parts(millis as nat).1 as u64, clock_parts(millis as nat).2 as u64),
    ensures
        r@ == duration_words(tr, clock_parts(millis as nat).0 as u64, clock_parts(millis as nat).1 as u64, clock_parts(millis as nat).2 as u64),
{
    let total_seconds = millis / MILLIS_PER_SECOND;
    let hours = total_seconds / 3600;
    let minutes = (total_seconds % 3600) / 60;
    let seconds = total_seconds % 60;
    proof {
        law_elapsed_parts_recompose(millis as nat);
    }
    unit_words(tr, hours as u64, minutes as u64, seconds as u64)
}

/// The elapsed-time words of the container tool, which counts the whole
/// seconds, minutes and hours of `millis` each on its own.
pub fn elapsed_total_words(millis: u128, tr: &GettextTranslations) -> (r: String)
    requires
        plural_rule_covers(tr, ((millis as nat) / 3600000) as u64, ((millis as nat) / 60000) as u64, ((millis as nat) / 1000) as u64),
    ensures
        r@ == duration_words(tr, ((millis as nat) / 3600000) as u64, ((millis as nat) / 60000) as u64, ((millis as nat) / 1000) as u64),
{
    let seconds = millis / MILLIS_PER_SECOND;
    let minutes = millis / MILLIS_PER_MINUTE;
    let hours = millis / MILLIS_PER_HOUR;
    unit_words(tr, hours as u64, minutes as u64, seconds as u64)
}

} // verus!
