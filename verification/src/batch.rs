//! The batch of files of the desktop application: the list of files to
//! sanitize, kept free of duplicates, and the state of their processing as
//! the sanitizer reports it.
use vstd::prelude::*;
use crate::text::usize_to_text;
use crate::options::{AppEvent, FileUploadOptions, FileUploadStatus};
use crate::l10n::{catalog_forms, gettext_fmt_spec, gettext_spec, GettextTranslations, Translations};
use uuid::Uuid;

verus! {

// ---------------------------------------------------------------------------
// Files to sanitize

/// A file to sanitize: its path, whether it is selected in the list, and
/// the options it overrides.
pub struct FileEntry {
    pub path: String,
    pub selected: bool,
    pub options: FileUploadOptions,
}

impl FileEntry {
    /// A file of the list, not selected.
    pub fn new(path: String, options: FileUploadOptions) -> (r: Self)
        ensures
            r.path == path,
            !r.selected,
            r.options == options,
    {
        FileEntry { path, selected: false, options }
    }
}

/// A file of the list as its path and selection.
pub open spec fn entry_view(e: FileEntry) -> (Seq<char>, bool) {
    (e.path@, e.selected)
}

/// Whether one of `s` has the path `p`.
pub open spec fn has_path(s: Seq<(Seq<char>, bool)>, p: Seq<char>) -> bool {
    exists|i: int| 0 <= i < s.len() && #[trigger] s[i].0 == p
}

/// Whether no two of `s` have the same path.
pub open spec fn distinct_paths(s: Seq<(Seq<char>, bool)>) -> bool {
    forall|i: int, j: int| 0 <= i < j < s.len() ==> s[i].0 != s[j].0
}

/// The list `acc` after `files` were added in turn, each file whose path
/// is already listed being left out.
pub open spec fn added(acc: Seq<(Seq<char>, bool)>, files: Seq<(Seq<char>, bool)>) -> Seq<(Seq<char>, bool)>
    decreases files.len(),
{
    if files.len() == 0 {
        acc
    } else {
        let a = added(acc, files.drop_last());
        if has_path(a, files.last().0) { a } else { a.push(files.last()) }
    }
}

/// The list without its selected files.
pub open spec fn unselected(s: Seq<(Seq<char>, bool)>) -> Seq<(Seq<char>, bool)>
    decreases s.len(),
{
    if s.len() == 0 {
        s
    } else {
        let r = unselected(s.drop_last());
        if !s.last().1 { r.push(s.last()) } else { r }
    }
}

/// The files of `s` as paths and selections.
pub open spec fn entry_views(s: Seq<FileEntry>) -> Seq<(Seq<char>, bool)> {
    s.map_values(|e: FileEntry| entry_view(e))
}

/// The files `acc` after `files` were added in turn, each file whose path
/// is already listed being left out.
pub open spec fn added_files(acc: Seq<FileEntry>, files: Seq<FileEntry>) -> Seq<FileEntry>
    decreases files.len(),
{
    if files.len() == 0 {
        acc
    } else {
        let a = added_files(acc, files.drop_last());
        if has_path(entry_views(a), files.last().path@) { a } else { a.push(files.last()) }
    }
}

/// The files of `s` that are not selected, in order.
pub open spec fn unselected_files(s: Seq<FileEntry>) -> Seq<FileEntry>
    decreases s.len(),
{
    if s.len() == 0 {
        s
    } else {
        let r = unselected_files(s.drop_last());
        if !s.last().selected { r.push(s.last()) } else { r }
    }
}

/// The files to sanitize, each path listed once.
pub struct FileList {
    entries: Vec<FileEntry>,
}

impl FileList {
    /// The files, as paths and selections, in the order they were added.
    pub closed spec fn view(&self) -> Seq<(Seq<char>, bool)> {
        entry_views(self.entries@)
    }

    /// The files with their options, in the order they were added.
    pub closed spec fn files(&self) -> Seq<FileEntry> {
        self.entries@
    }

    /// The paths and selections are those of the files.
    pub proof fn lemma_view_of_files(&self)
        ensures
            self.view() == entry_views(self.files()),
    {
    }

    /// Whether no path is listed twice.
    pub open spec fn wf(&self) -> bool {
        distinct_paths(self.view())
    }

    /// An empty list.
    pub fn new() -> (r: Self)
        ensures
            r.wf(),
            r.view() == Seq::<(Seq<char>, bool)>::empty(),
            r.files() == Seq::<FileEntry>::empty(),
    {
        let r = FileList { entries: Vec::new() };
        assert(r.view() =~= Seq::<(Seq<char>, bool)>::empty());
        r
    }

    /// The number of files.
    pub fn len(&self) -> (n: usize)
        ensures
            n == self.view().len(),
    {
        self.entries.len()
    }

    /// The file at `index`.
    pub fn get(&self, index: usize) -> (r: &FileEntry)
        requires
            index < self.view().len(),
        ensures
            entry_view(*r) == self.view()[index as int],
            *r == self.files()[index as int],
    {
        &self.entries[index]
    }

    fn contains_path(&self, p: &str) -> (r: bool)
        ensures
            r == has_path(self.view(), p@),
    {
        let mut i: usize = 0;
        while i < self.entries.len()
            invariant
                i <= self.entries@.len(),
                forall|k: int| 0 <= k < i ==> #[trigger] self.view()[k].0 != p@,
            decreases self.entries.len() - i,
        {
            assert(self.view()[i as int] == entry_view(self.entries@[i as int]));
            if crate::text::same_text(self.entries[i].path.as_str(), p) {
                assert(self.view()[i as int].0 == p@);
                return true;
            }
            i = i + 1;
        }
        false
    }

    /// Adds `files` in turn, leaving out each file whose path is already
    /// listed.
    pub fn add_files(&mut self, files: Vec<FileEntry>)
        requires
            old(self).wf(),
        ensures
            final(self).wf(),
            final(self).view() == added(old(self).view(), files@.map_values(|e: FileEntry| entry_view(e))),
            final(self).files() == added_files(old(self).files(), files@),
    {
        let ghost fv = files@.map_values(|e: FileEntry| entry_view(e));
        let ghost start = self.view();
        let ghost start_files = self.files();
        let ghost all = files@;
        for f in it: files
            invariant
                it.seq() == all,
                fv == all.map_values(|e: FileEntry| entry_view(e)),
                self.wf(),
                self.view() == added(start, fv.take(it.index() as int)),
                self.files() == added_files(start_files, all.take(it.index() as int)),
        {
            let ghost i = it.index();
            assert(f == all[i as int]);
            assert(fv.take(i + 1).drop_last() =~= fv.take(i as int));
            assert(fv.take(i + 1).last() == entry_view(f));
            assert(all.take(i + 1).drop_last() =~= all.take(i as int));
            assert(all.take(i + 1).last() == f);
            if !self.contains_path(f.path.as_str()) {
                let ghost before = self.view();
                self.entries.push(f);
                proof {
                    assert(self.view() =~= before.push(entry_view(f)));
                    assert forall|a: int, b: int| 0 <= a < b < self.view().len() implies self.view()[a].0 != self.view()[b].0 by {
                        if b == before.len() {
                            assert(!has_path(before, entry_view(f).0));
                            assert(before[a].0 != entry_view(f).0);
                        }
                    }
                }
            }
        }
        proof {
            assert(fv.take(all.len() as int) =~= fv);
            assert(all.take(all.len() as int) =~= all);
        }
    }

    /// Drops the selected files.
    pub fn delete_selected(&mut self)
        requires
            old(self).wf(),
        ensures
            final(self).wf(),
            final(self).view() == unselected(old(self).view()),
            final(self).files() == unselected_files(old(self).files()),
    {
        let ghost start = self.view();
        let mut entries: Vec<FileEntry> = Vec::new();
        std::mem::swap(&mut entries, &mut self.entries);
        let ghost all = entries@;
        assert(all.map_values(|e: FileEntry| entry_view(e)) == start);
        let mut kept: Vec<FileEntry> = Vec::new();
        for e in it: entries
            invariant
                it.seq() == all,
                start == all.map_values(|e: FileEntry| entry_view(e)),
                distinct_paths(start),
                kept@.map_values(|e: FileEntry| entry_view(e)) == unselected(start.take(it.index() as int)),
                kept@ == unselected_files(all.take(it.index() as int)),
        {
            let ghost i = it.index();
            assert(e == all[i as int]);
            assert(all.take(i + 1).drop_last() =~= all.take(i as int));
            assert(all.take(i + 1).last() == e);
            assert(start.take(i + 1).drop_last() =~= start.take(i as int));
            assert(start.take(i + 1).last() == entry_view(e));
            let ghost before = kept@;
            if !e.selected {
                kept.push(e);
                assert(kept@.map_values(|e: FileEntry| entry_view(e)) =~= before.map_values(|e: FileEntry| entry_view(e)).push(entry_view(e)));
            }
        }
        proof {
            assert(start.take(all.len() as int) =~= start);
            assert(all.take(all.len() as int) =~= all);
            lemma_unselected_distinct(start);
        }
        self.entries = kept;
        assert(self.view() == unselected(start));
    }

    /// Whether selecting (or deselecting) all files would change a file:
    /// one of them is not yet in that state.
    pub fn can_select_or_deselect_all(&self, add_selection: bool) -> (r: bool)
        ensures
            r == exists|i: int| 0 <= i < self.view().len() && #[trigger] self.view()[i].1 != add_selection,
    {
        let mut i: usize = 0;
        while i < self.entries.len()
            invariant
                i <= self.entries@.len(),
                forall|k: int| 0 <= k < i ==> #[trigger] self.view()[k].1 == add_selection,
            decreases self.entries.len() - i,
        {
            assert(self.view()[i as int] == entry_view(self.entries@[i as int]));
            if self.entries[i].selected != add_selection {
                assert(self.view()[i as int].1 != add_selection);
                return true;
            }
            i = i + 1;
        }
        false
    }

    /// Selects (or deselects) every file.
    pub fn toggle_all_selections(&mut self, add_selection: bool)
        requires
            old(self).wf(),
        ensures
            final(self).wf(),
            final(self).view().len() == old(self).view().len(),
            forall|i: int| 0 <= i < final(self).view().len() ==>
                #[trigger] final(self).view()[i] == (old(self).view()[i].0, add_selection),
            final(self).files().len() == old(self).files().len(),
            forall|i: int| 0 <= i < final(self).files().len() ==>
                (#[trigger] final(self).files()[i]).path == old(self).files()[i].path
                    && final(self).files()[i].options == old(self).files()[i].options
                    && final(self).files()[i].selected == add_selection,
    {
        let ghost start = self.view();
        let mut entries: Vec<FileEntry> = Vec::new();
        std::mem::swap(&mut entries, &mut self.entries);
        let ghost all = entries@;
        let mut out: Vec<FileEntry> = Vec::new();
        for e in it: entries
            invariant
                it.seq() == all,
                start == all.map_values(|e: FileEntry| entry_view(e)),
                out@.len() == it.index(),
                forall|k: int| 0 <= k < out@.len() ==> #[trigger] entry_view(out@[k]) == (start[k].0, add_selection),
                forall|k: int| 0 <= k < out@.len() ==> (#[trigger] out@[k]).path == all[k].path
                    && out@[k].options == all[k].options && out@[k].selected == add_selection,
        {
            let ghost i = it.index();
            assert(e == all[i as int]);
            assert(start[i as int] == entry_view(e));
            let mut e = e;
            e.selected = add_selection;
            out.push(e);
        }
        self.entries = out;
        proof {
            assert forall|a: int, b: int| 0 <= a < b < self.view().len() implies self.view()[a].0 != self.view()[b].0 by {
                assert(self.view()[a] == entry_view(self.entries@[a]));
                assert(self.view()[b] == entry_view(self.entries@[b]));
            }
            assert forall|i: int| 0 <= i < self.view().len() implies #[trigger] self.view()[i] == (start[i].0, add_selection) by {
                assert(self.view()[i] == entry_view(self.entries@[i]));
            }
        }
    }

    /// Replaces the options of the file at `index`.
    pub fn set_options(&mut self, index: usize, options: FileUploadOptions)
        requires
            old(self).wf(),
            index < old(self).view().len(),
        ensures
            final(self).wf(),
            final(self).view() == old(self).view(),
            final(self).get_options(index as int) == options,
            final(self).files().len() == old(self).files().len(),
            final(self).files()[index as int].path == old(self).files()[index as int].path,
            final(self).files()[index as int].selected == old(self).files()[index as int].selected,
            forall|j: int| 0 <= j < final(self).files().len() && j != index ==> #[trigger] final(self).files()[j] == old(self).files()[j],
    {
        let ghost start = self.view();
        let mut e = self.entries.remove(index);
        e.options = options;
        self.entries.insert(index, e);
        proof {
            assert(self.view() =~= start);
        }
    }

    /// The options of the file at `index`.
    pub open spec fn get_options(&self, index: int) -> FileUploadOptions {
        self.files()[index].options
    }

    /// The position of the first selected file, the one whose options are
    /// configured.
    pub fn first_selected(&self) -> (r: Option<usize>)
        ensures
            match r {
                Some(i) => i < self.view().len() && self.view()[i as int].1
                    && forall|k: int| 0 <= k < i ==> !(#[trigger] self.view()[k]).1,
                None => forall|k: int| 0 <= k < self.view().len() ==> !(#[trigger] self.view()[k]).1,
            },
    {
        let mut i: usize = 0;
        while i < self.entries.len()
            invariant
                i <= self.entries@.len(),
                forall|k: int| 0 <= k < i ==> !(#[trigger] self.view()[k]).1,
            decreases self.entries.len() - i,
        {
            assert(self.view()[i as int] == entry_view(self.entries@[i as int]));
            if self.entries[i].selected {
                return Some(i);
            }
            i = i + 1;
        }
        None
    }

    /// Selects (or deselects) the file at `index`.
    pub fn set_selected(&mut self, index: usize, selected: bool)
        requires
            old(self).wf(),
            index < old(self).view().len(),
        ensures
            final(self).wf(),
            final(self).view() == old(self).view().update(index as int, (old(self).view()[index as int].0, selected)),
            final(self).files().len() == old(self).files().len(),
            final(self).files()[index as int].path == old(self).files()[index as int].path,
            final(self).files()[index as int].options == old(self).files()[index as int].options,
            final(self).files()[index as int].selected == selected,
            forall|j: int| 0 <= j < final(self).files().len() && j != index ==> #[trigger] final(self).files()[j] == old(self).files()[j],
    {
        let ghost start = self.view();
        let mut e = self.entries.remove(index);
        e.selected = selected;
        self.entries.insert(index, e);
        proof {
            assert(self.view() =~= start.update(index as int, (start[index as int].0, selected)));
            assert forall|a: int, b: int| 0 <= a < b < self.view().len() implies self.view()[a].0 != self.view()[b].0 by {
                assert(self.view()[a].0 == start[a].0);
                assert(self.view()[b].0 == start[b].0);
            }
        }
    }
}

proof fn lemma_unselected_members(s: Seq<(Seq<char>, bool)>)
    ensures
        forall|i: int| 0 <= i < unselected(s).len() ==> exists|j: int| 0 <= j < s.len() && s[j] == #[trigger] unselected(s)[i],
    decreases s.len(),
{
    if s.len() > 0 {
        lemma_unselected_members(s.drop_last());
        let r = unselected(s.drop_last());
        assert forall|i: int| 0 <= i < unselected(s).len() implies exists|j: int| 0 <= j < s.len() && s[j] == #[trigger] unselected(s)[i] by {
            if i < r.len() {
                let j = choose|j: int| 0 <= j < s.drop_last().len() && s.drop_last()[j] == r[i];
                assert(s[j] == unselected(s)[i]);
            } else {
                assert(s[s.len() - 1] == unselected(s)[i]);
            }
        }
    }
}

proof fn lemma_unselected_distinct(s: Seq<(Seq<char>, bool)>)
    requires
        distinct_paths(s),
    ensures
        distinct_paths(unselected(s)),
    decreases s.len(),
{
    if s.len() > 0 {
        let t = s.drop_last();
        assert(distinct_paths(t));
        lemma_unselected_distinct(t);
        lemma_unselected_members(t);
        let r = unselected(t);
        if !s.last().1 {
            assert forall|a: int, b: int| 0 <= a < b < unselected(s).len() implies unselected(s)[a].0 != unselected(s)[b].0 by {
                if b == r.len() {
                    let j = choose|j: int| 0 <= j < t.len() && #[trigger] t[j] == r[a];
                    assert(s[j] == r[a]);
                }
            }
        }
    }
}

/// Adding files that are all listed already leaves the list unchanged.
pub proof fn law_adding_listed_files_changes_nothing(acc: Seq<(Seq<char>, bool)>, files: Seq<(Seq<char>, bool)>)
    requires
        forall|i: int| 0 <= i < files.len() ==> has_path(acc, #[trigger] files[i].0),
    ensures
        added(acc, files) == acc,
    decreases files.len(),
{
    if files.len() > 0 {
        law_adding_listed_files_changes_nothing(acc, files.drop_last());
        assert(has_path(acc, files[files.len() - 1].0));
    }
}

proof fn lemma_added_lists_all(acc: Seq<(Seq<char>, bool)>, files: Seq<(Seq<char>, bool)>)
    ensures
        forall|i: int| 0 <= i < files.len() ==> has_path(added(acc, files), #[trigger] files[i].0),
        forall|i: int| 0 <= i < acc.len() ==> has_path(added(acc, files), #[trigger] acc[i].0),
    decreases files.len(),
{
    if files.len() > 0 {
        let a = added(acc, files.drop_last());
        lemma_added_lists_all(acc, files.drop_last());
        assert forall|i: int| 0 <= i < files.len() implies has_path(added(acc, files), #[trigger] files[i].0) by {
            if i < files.len() - 1 {
                assert(files.drop_last()[i] == files[i]);
                assert(has_path(a, files[i].0));
                let k = choose|k: int| 0 <= k < a.len() && a[k].0 == files[i].0;
                if !has_path(a, files.last().0) {
                    assert(a.push(files.last())[k] == a[k]);
                }
            } else {
                if !has_path(a, files.last().0) {
                    assert(a.push(files.last())[a.len() as int] == files.last());
                }
            }
        }
        assert forall|i: int| 0 <= i < acc.len() implies has_path(added(acc, files), #[trigger] acc[i].0) by {
            assert(has_path(a, acc[i].0));
            let k = choose|k: int| 0 <= k < a.len() && a[k].0 == acc[i].0;
            if !has_path(a, files.last().0) {
                assert(a.push(files.last())[k] == a[k]);
            }
        }
    }
}

/// Adding the same files a second time changes nothing.
pub proof fn law_adding_files_twice(acc: Seq<(Seq<char>, bool)>, files: Seq<(Seq<char>, bool)>)
    ensures
        added(added(acc, files), files) == added(acc, files),
{
    lemma_added_lists_all(acc, files);
    law_adding_listed_files_changes_nothing(added(acc, files), files);
}


// ---------------------------------------------------------------------------
// Processing of a batch

/// The summary of a batch that ended: interrupted, all failed, some failed
/// (counted), or all processed.
pub open spec fn batch_label_spec(forms: Map<Seq<char>, Seq<Seq<char>>>, interrupted: bool, succeeded: nat, failed: nat, total: nat, counted: Seq<char>) -> bool {
    if interrupted {
        counted == gettext_spec(forms, "The processing was interrupted!"@)
    } else if succeeded != total {
        if total == 1 {
            counted == gettext_spec(forms, "The document failed to process!"@)
        } else if failed == total {
            counted == gettext_spec(forms, "All documents failed to process!"@)
        } else {
            exists|a: &str, b: &str| a@ == crate::text::decimal(failed) && b@ == crate::text::decimal(total)
                && counted == gettext_fmt_spec(gettext_spec(forms, "{0} documents out of {1} failed processing!"@), seq![a, b])
        }
    } else {
        counted == gettext_spec(forms, "All documents were successfully processed!"@)
    }
}

/// The summary shown once a batch has ended.
pub fn batch_label(interrupted: bool, succeeded: usize, failed: usize, total: usize, tr: &GettextTranslations) -> (r: String)
    ensures
        batch_label_spec(catalog_forms(tr.catalog), interrupted, succeeded as nat, failed as nat, total as nat, r@),
{
    if interrupted {
        tr.gettext("The processing was interrupted!")
    } else if succeeded != total {
        if total == 1 {
            tr.gettext("The document failed to process!")
        } else if failed == total {
            tr.gettext("All documents failed to process!")
        } else {
            let f = usize_to_text(failed);
            let t = usize_to_text(total);
            let a: &str = f.as_str();
            let b: &str = t.as_str();
            let params: Vec<&str> = vec![a, b];
            assert(params@ == seq![a, b]);
            tr.gettext_fmt("{0} documents out of {1} failed processing!", params)
        }
    } else {
        tr.gettext("All documents were successfully processed!")
    }
}

/// The progress value of a finished step.
pub const PROGRESS_VALUE_MAX: usize = 100;

/// The run of a batch of `total` files, one after the other: the index of
/// the next file, and how many succeeded and failed so far.
pub struct BatchRun {
    pub total: usize,
    pub next: usize,
    pub succeeded: usize,
    pub failed: usize,
}

/// What the run does next: start the conversion of a file (after sending
/// that it started), or end with the final event.
pub enum RunStep {
    Start(usize, AppEvent),
    End(AppEvent),
}

impl BatchRun {
    /// Every file handled so far either succeeded or failed.
    pub open spec fn wf(&self) -> bool {
        &&& self.next <= self.total
        &&& self.succeeded + self.failed == self.next
    }

    /// A run of `total` files that has not started.
    pub fn new(total: usize) -> (r: Self)
        ensures
            r.wf(),
            r.total == total,
            r.next == 0,
            r.succeeded == 0,
            r.failed == 0,
    {
        BatchRun { total, next: 0, succeeded: 0, failed: 0 }
    }

    /// What comes next: where a stop was requested or every file was
    /// handled, the final event with the tallies; otherwise the start of
    /// the next file.
    pub fn next_step(&self, stop_requested: bool) -> (r: RunStep)
        requires
            self.wf(),
        ensures
            stop_requested || self.next == self.total ==>
                r == RunStep::End(AppEvent::AllConversionEnded(self.succeeded, self.failed, self.total)),
            !stop_requested && self.next < self.total ==>
                r == RunStep::Start(self.next, AppEvent::ConversionStarted(self.next)),
    {
        if stop_requested || self.next >= self.total {
            RunStep::End(AppEvent::AllConversionEnded(self.succeeded, self.failed, self.total))
        } else {
            RunStep::Start(self.next, AppEvent::ConversionStarted(self.next))
        }
    }

    /// Records how the conversion of the current file, of document id
    /// `doc_id`, ended, and gives the events to send: its output where it
    /// succeeded; its error, at full progress, then its failure otherwise.
    pub fn record_outcome(&mut self, doc_id: Uuid, outcome: Result<Option<String>, String>) -> (events: Vec<AppEvent>)
        requires
            old(self).wf(),
            old(self).next < old(self).total,
        ensures
            final(self).wf(),
            final(self).total == old(self).total,
            final(self).next == old(self).next + 1,
            match outcome {
                Ok(output) => final(self).succeeded == old(self).succeeded + 1
                    && final(self).failed == old(self).failed
                    && events@ == seq![AppEvent::ConversionFinished(old(self).next, output)],
                Err(msg) => final(self).failed == old(self).failed + 1
                    && final(self).succeeded == old(self).succeeded
                    && events@ == seq![AppEvent::ConversionProgressed(doc_id, PROGRESS_VALUE_MAX, msg), AppEvent::ConversionFailed(old(self).next)],
            },
    {
        let index = self.next;
        self.next = self.next + 1;
        match outcome {
            Ok(output) => {
                self.succeeded = self.succeeded + 1;
                vec![AppEvent::ConversionFinished(index, output)]
            },
            Err(msg) => {
                self.failed = self.failed + 1;
                vec![AppEvent::ConversionProgressed(doc_id, PROGRESS_VALUE_MAX, msg), AppEvent::ConversionFailed(index)]
            },
        }
    }
}

/// The processing of a batch of files as the user interface shows it.
pub struct BatchProgress {
    /// The state of each file.
    pub statuses: Vec<FileUploadStatus>,
    /// The result of each file, where it was produced.
    pub outputs: Vec<Option<String>>,
    /// The progress reported, in the order it came: document, value and
    /// message.
    pub progress_log: Vec<(Uuid, usize, String)>,
    /// Whether a conversion was interrupted.
    pub interrupted: bool,
    /// The number of files whose processing ended.
    pub processed_count: usize,
    /// Whether the batch ended.
    pub done: bool,
    /// The summary shown for the batch.
    pub label: String,
}

impl BatchProgress {
    /// Whether the states and results are kept for the same files.
    pub open spec fn wf(&self) -> bool {
        self.statuses@.len() == self.outputs@.len()
    }

    /// Whether `event` names a file of the batch, and the count of ended
    /// files can grow where it ends one.
    pub open spec fn accepts(&self, event: AppEvent) -> bool {
        match event {
            AppEvent::ConversionStarted(i) => i < self.statuses@.len(),
            AppEvent::ConversionFailed(i) => i < self.statuses@.len() && self.processed_count < usize::MAX,
            AppEvent::ConversionFinished(i, _) => i < self.statuses@.len() && self.processed_count < usize::MAX,
            _ => true,
        }
    }

    /// A batch of `count` files, all waiting.
    pub fn new(count: usize, tr: &GettextTranslations) -> (r: Self)
        ensures
            r.wf(),
            r.statuses@.len() == count,
            forall|i: int| 0 <= i < count ==> r.statuses@[i] == FileUploadStatus::Pending && r.outputs@[i] is None,
            r.progress_log@.len() == 0,
            !r.interrupted,
            r.processed_count == 0,
            !r.done,
            r.label@ == gettext_spec(catalog_forms(tr.catalog), "Documents processing:"@),
    {
        let mut statuses: Vec<FileUploadStatus> = Vec::new();
        let mut outputs: Vec<Option<String>> = Vec::new();
        let mut i: usize = 0;
        while i < count
            invariant
                i <= count,
                statuses@.len() == i,
                outputs@.len() == i,
                forall|k: int| 0 <= k < i ==> statuses@[k] == FileUploadStatus::Pending && outputs@[k] is None,
            decreases count - i,
        {
            statuses.push(FileUploadStatus::Pending);
            outputs.push(None);
            i = i + 1;
        }
        BatchProgress {
            statuses,
            outputs,
            progress_log: Vec::new(),
            interrupted: false,
            processed_count: 0,
            done: false,
            label: tr.gettext("Documents processing:"),
        }
    }

    /// Takes in an event of the sanitizer: a file started, failed or ended
    /// (with its result, or interrupted), progress was made, or the batch
    /// ended.
    pub fn ack_proc_event(&mut self, event: AppEvent, tr: &GettextTranslations)
        requires
            old(self).wf(),
            old(self).accepts(event),
        ensures
            final(self).wf(),
            match event {
                AppEvent::ConversionStarted(i) => {
                    &&& final(self).statuses@ == old(self).statuses@.update(i as int, FileUploadStatus::Processing)
                    &&& final(self).outputs@ == old(self).outputs@
                    &&& final(self).processed_count == old(self).processed_count
                    &&& final(self).interrupted == old(self).interrupted
                    &&& final(self).done == old(self).done
                },
                AppEvent::ConversionFailed(i) => {
                    &&& final(self).statuses@ == old(self).statuses@.update(i as int, FileUploadStatus::Failed)
                    &&& final(self).outputs@ == old(self).outputs@
                    &&& final(self).processed_count == old(self).processed_count + 1
                    &&& final(self).interrupted == old(self).interrupted
                    &&& final(self).done == old(self).done
                },
                AppEvent::ConversionFinished(i, out) => {
                    &&& final(self).processed_count == old(self).processed_count + 1
                    &&& final(self).done == old(self).done
                    &&& match out {
                        Some(_) => {
                            &&& final(self).statuses@ == old(self).statuses@.update(i as int, FileUploadStatus::Succeeded)
                            &&& final(self).outputs@ == old(self).outputs@.update(i as int, out)
                            &&& final(self).interrupted == old(self).interrupted
                        },
                        None => {
                            &&& final(self).statuses@ == old(self).statuses@.update(i as int, FileUploadStatus::Interrupted)
                            &&& final(self).outputs@ == old(self).outputs@
                            &&& final(self).interrupted
                        },
                    }
                },
                AppEvent::ConversionProgressed(doc_id, value, message) => {
                    &&& final(self).progress_log@ == old(self).progress_log@.push((doc_id, value, message))
                    &&& final(self).statuses@ == old(self).statuses@
                    &&& final(self).outputs@ == old(self).outputs@
                    &&& final(self).processed_count == old(self).processed_count
                    &&& final(self).done == old(self).done
                },
                AppEvent::AllConversionEnded(succeeded, failed, total) => {
                    &&& final(self).done
                    &&& batch_label_spec(catalog_forms(tr.catalog), old(self).interrupted, succeeded as nat, failed as nat, total as nat, final(self).label@)
                    &&& final(self).statuses@ == old(self).statuses@
                    &&& final(self).outputs@ == old(self).outputs@
                    &&& final(self).processed_count == old(self).processed_count
                },
            },
    {
        match event {
            AppEvent::ConversionFinished(index, output_opt) => {
                match output_opt {
                    Some(output) => {
                        self.outputs.set(index, Some(output));
                        self.statuses.set(index, FileUploadStatus::Succeeded);
                    },
                    None => {
                        self.statuses.set(index, FileUploadStatus::Interrupted);
                        self.interrupted = true;
                    },
                }
                self.processed_count = self.processed_count + 1;
            },
            AppEvent::ConversionStarted(index) => {
                self.statuses.set(index, FileUploadStatus::Processing);
            },
            AppEvent::ConversionFailed(index) => {
                self.statuses.set(index, FileUploadStatus::Failed);
                self.processed_count = self.processed_count + 1;
            },
            AppEvent::ConversionProgressed(doc_id, value, message) => {
                self.progress_log.push((doc_id, value, message));
            },
            AppEvent::AllConversionEnded(succeeded, failed, total) => {
                self.label = batch_label(self.interrupted, succeeded, failed, total, tr);
                self.done = true;
            },
        }
    }
}

} // verus!
