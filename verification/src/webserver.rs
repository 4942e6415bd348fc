//! The web server's data model and the decisions of its request handlers:
//! the progress notifications kept per conversion request, the way a client
//! walks through them, the names of results and the language of a request.
use vstd::prelude::*;
use crate::text::{chars_of, decimal, push_str, same_text, string_from_range};
use crate::paths::{path_without_extension, without_extension};

verus! {

/// A progress notification sent to the browser: its event name, its id and
/// its data.
pub struct Notification {
    pub event: String,
    pub id: String,
    pub data: String,
}

/// The event name, id and data of a notification.
pub open spec fn notification_view(n: Notification) -> (Seq<char>, Seq<char>, Seq<char>) {
    (n.event@, n.id@, n.data@)
}

impl Notification {
    pub fn new(event: String, id: String, data: String) -> (r: Self)
        ensures
            r.event == event,
            r.id == id,
            r.data == data,
    {
        Self { event, id, data }
    }

    /// A copy of the notification.
    pub fn duplicate(&self) -> (r: Self)
        ensures
            notification_view(r) == notification_view(*self),
    {
        Notification { event: self.event.clone(), id: self.id.clone(), data: self.data.clone() }
    }
}

/// The options of a conversion request.
pub struct ConversionOptions {
    pub ci_image_name: String,
    pub opt_ocr_lang: Option<String>,
    pub opt_passwd: Option<String>,
    pub visualquality: String,
}

impl ConversionOptions {
    pub fn new(ci_image_name: String, opt_ocr_lang: Option<String>, opt_passwd: Option<String>, visualquality: String) -> (r: Self)
        ensures
            r.ci_image_name == ci_image_name,
            r.opt_ocr_lang == opt_ocr_lang,
            r.opt_passwd == opt_passwd,
            r.visualquality == visualquality,
    {
        Self { ci_image_name, opt_ocr_lang, opt_passwd, visualquality }
    }
}

/// The message that ends a conversion: its data and a completion of 100%.
pub struct CompletionMessage {
    pub percent_complete: usize,
    pub data: String,
}

impl CompletionMessage {
    pub fn new(new_data: String) -> (r: Self)
        ensures
            r.data == new_data,
            r.percent_complete == 100,
    {
        Self { data: new_data, percent_complete: 100 }
    }
}

/// The answer to an upload: the id of the request and where to follow it.
pub struct UploadResponse {
    pub request_id: String,
    pub tracking_uri: String,
}

impl UploadResponse {
    pub fn new(request_id: String, tracking_uri: String) -> (r: Self)
        ensures
            r.request_id == request_id,
            r.tracking_uri == tracking_uri,
    {
        Self { request_id, tracking_uri }
    }
}

/// The answer to a request for the user interface's translations.
pub struct TranslationResponse {
    pub id: String,
    pub tracking_uri: String,
}

/// A file received by upload, with the options sent along with it.
pub struct UploadedFile {
    pub id: String,
    pub docpassword: String,
    pub location: String,
    pub ocrlang: String,
    pub fileext: String,
    pub visualquality: String,
}

impl UploadedFile {
    /// The record with every field empty (the `Default` of the record).
    pub fn empty() -> (r: Self)
        ensures
            r.id@.len() == 0,
            r.docpassword@.len() == 0,
            r.location@.len() == 0,
            r.ocrlang@.len() == 0,
            r.fileext@.len() == 0,
            r.visualquality@.len() == 0,
    {
        UploadedFile {
            id: String::new(),
            docpassword: String::new(),
            location: String::new(),
            ocrlang: String::new(),
            fileext: String::new(),
            visualquality: String::new(),
        }
    }
}

// ---------------------------------------------------------------------------
// Notifications per request

/// The notifications of a request, as text triples.
pub type NotificationsView = Seq<(Seq<char>, Seq<char>, Seq<char>)>;

/// The notifications kept for each conversion request, by request id.
pub struct NotificationStore {
    groups: Vec<(String, Vec<Notification>)>,
}

/// Whether the event ends the notifications of a request.
pub open spec fn is_final_event(event: Seq<char>) -> bool {
    event == "processing_failure"@ || event == "processing_success"@
}

impl NotificationStore {
    /// The request ids, in the order they were registered.
    pub closed spec fn keys(&self) -> Seq<Seq<char>> {
        self.groups@.map_values(|g: (String, Vec<Notification>)| g.0@)
    }

    /// The notifications of each request.
    pub closed spec fn view(&self) -> Map<Seq<char>, NotificationsView> {
        Map::new(
            |k: Seq<char>| self.keys().contains(k),
            |k: Seq<char>| {
                let i = choose|i: int| 0 <= i < self.groups@.len() && self.groups@[i].0@ == k;
                self.groups@[i].1@.map_values(|n: Notification| notification_view(n))
            },
        )
    }

    /// No request id is registered twice.
    pub closed spec fn wf(&self) -> bool {
        forall|i: int, j: int| 0 <= i < j < self.groups@.len() ==> self.groups@[i].0@ != self.groups@[j].0@
    }

    proof fn lemma_view_at(&self, i: int)
        requires
            self.wf(),
            0 <= i < self.groups@.len(),
        ensures
            self.view().contains_key(self.groups@[i].0@),
            self.view()[self.groups@[i].0@] == self.groups@[i].1@.map_values(|n: Notification| notification_view(n)),
    {
        let k = self.groups@[i].0@;
        assert(self.keys()[i] == k);
        assert(self.keys().contains(k));
        let j = choose|j: int| 0 <= j < self.groups@.len() && self.groups@[j].0@ == k;
        assert(j == i);
    }

    /// A store with no request.
    pub fn new() -> (r: Self)
        ensures
            r.wf(),
            r.view() == Map::<Seq<char>, NotificationsView>::empty(),
    {
        let r = NotificationStore { groups: Vec::new() };
        assert(r.view() =~= Map::<Seq<char>, NotificationsView>::empty());
        r
    }

    fn index_of(&self, refid: &str) -> (r: Option<usize>)
        requires
            self.wf(),
        ensures
            match r {
                Some(i) => i < self.groups@.len() && self.groups@[i as int].0@ == refid@,
                None => !self.view().contains_key(refid@),
            },
    {
        let mut i: usize = 0;
        while i < self.groups.len()
            invariant
                i <= self.groups@.len(),
                forall|k: int| 0 <= k < i ==> self.groups@[k].0@ != refid@,
            decreases self.groups.len() - i,
        {
            if same_text(self.groups[i].0.as_str(), refid) {
                return Some(i);
            }
            i = i + 1;
        }
        proof {
            if self.keys().contains(refid@) {
                let k = choose|k: int| 0 <= k < self.keys().len() && self.keys()[k] == refid@;
                assert(self.groups@[k].0@ == refid@);
            }
        }
        None
    }

    /// Whether notifications are kept for the request `refid`.
    pub fn contains(&self, refid: &str) -> (r: bool)
        requires
            self.wf(),
        ensures
            r == self.view().contains_key(refid@),
    {
        match self.index_of(refid) {
            Some(i) => {
                proof { self.lemma_view_at(i as int); }
                true
            },
            None => false,
        }
    }

    /// Starts keeping notifications for the request `refid`, with none yet;
    /// notifications kept for it before are dropped.
    pub fn register(&mut self, refid: String)
        requires
            old(self).wf(),
        ensures
            final(self).wf(),
            final(self).view() == old(self).view().insert(refid@, Seq::empty()),
    {
        let ghost old_view = self.view();
        match self.index_of(refid.as_str()) {
            Some(i) => {
                let ghost before = self.groups@;
                self.groups.set(i, (refid, Vec::new()));
                proof {
                    assert(self.keys() == old(self).keys());
                    assert forall|a: int, b: int| 0 <= a < b < self.groups@.len() implies self.groups@[a].0@ != self.groups@[b].0@ by {
                        assert(self.keys()[a] == old(self).keys()[a]);
                        assert(self.keys()[b] == old(self).keys()[b]);
                        assert(old(self).keys()[a] == before[a].0@);
                        assert(old(self).keys()[b] == before[b].0@);
                    }
                    assert forall|k: Seq<char>| #[trigger] self.view().contains_key(k) == old_view.insert(refid@, Seq::empty()).contains_key(k) by {
                        if old(self).keys().contains(k) {
                            assert(self.keys().contains(k));
                        }
                        if self.keys().contains(k) {
                            assert(old(self).keys().contains(k));
                        }
                        assert(old(self).keys()[i as int] == refid@);
                        assert(old(self).keys().contains(refid@));
                        assert(self.view().contains_key(k) == self.keys().contains(k));
                        assert(old_view.contains_key(k) == old(self).keys().contains(k));
                        assert(old_view.insert(refid@, Seq::empty()).contains_key(k) == (old_view.contains_key(k) || k == refid@));
                    }
                    assert forall|k: Seq<char>| #[trigger] self.view().contains_key(k) implies self.view()[k] == old_view.insert(refid@, Seq::empty())[k] by {
                        let j = choose|j: int| 0 <= j < self.keys().len() && self.keys()[j] == k;
                        assert(self.groups@[j].0@ == k);
                        self.lemma_view_at(j);
                        if j == i {
                            assert(self.groups@[j].1@.map_values(|n: Notification| notification_view(n)) =~= Seq::<(Seq<char>, Seq<char>, Seq<char>)>::empty());
                        } else {
                            assert(before[j] == self.groups@[j]);
                            old(self).lemma_view_at(j);
                        }
                    }
                    assert(self.view() =~= old_view.insert(refid@, Seq::empty()));
                }
            },
            None => {
                let ghost before = self.groups@;
                self.groups.push((refid, Vec::new()));
                proof {
                    let n = before.len() as int;
                    assert forall|a: int, b: int| 0 <= a < b < self.groups@.len() implies self.groups@[a].0@ != self.groups@[b].0@ by {
                        if b == n {
                            assert(old(self).keys()[a] == before[a].0@);
                        }
                    }
                    assert forall|j: int| 0 <= j < n implies #[trigger] self.keys()[j] == old(self).keys()[j] by {}
                    assert forall|k: Seq<char>| #[trigger] self.view().contains_key(k) == old_view.insert(refid@, Seq::empty()).contains_key(k) by {
                        if old(self).keys().contains(k) {
                            let j = choose|j: int| 0 <= j < old(self).keys().len() && old(self).keys()[j] == k;
                            assert(self.keys()[j] == k);
                            assert(self.keys().contains(k));
                        }
                        if self.keys().contains(k) {
                            let j = choose|j: int| 0 <= j < self.keys().len() && self.keys()[j] == k;
                            if j < n {
                                assert(old(self).keys()[j] == k);
                                assert(old(self).keys().contains(k));
                            } else {
                                assert(self.groups@[n].0@ == refid@);
                                assert(k == refid@);
                            }
                        }
                        if k == refid@ {
                            assert(self.keys()[n] == k);
                            assert(self.keys().contains(k));
                        }
                        assert(self.view().contains_key(k) == self.keys().contains(k));
                        assert(old_view.contains_key(k) == old(self).keys().contains(k));
                        assert(self.keys().contains(k) == (old(self).keys().contains(k) || k == refid@));
                        assert(old_view.insert(refid@, Seq::empty()).contains_key(k) == (old_view.contains_key(k) || k == refid@));
                    }
                    assert forall|k: Seq<char>| #[trigger] self.view().contains_key(k) implies self.view()[k] == old_view.insert(refid@, Seq::empty())[k] by {
                        let j = choose|j: int| 0 <= j < self.keys().len() && self.keys()[j] == k;
                        assert(self.groups@[j].0@ == k);
                        self.lemma_view_at(j);
                        if j == n {
                            assert(self.groups@[j].1@.map_values(|n: Notification| notification_view(n)) =~= Seq::<(Seq<char>, Seq<char>, Seq<char>)>::empty());
                        } else {
                            assert(before[j] == self.groups@[j]);
                            old(self).lemma_view_at(j);
                        }
                    }
                    assert(self.view() =~= old_view.insert(refid@, Seq::empty()));
                }
            },
        }
    }

    /// Stops keeping notifications for the request `refid`.
    pub fn remove(&mut self, refid: &str)
        requires
            old(self).wf(),
        ensures
            final(self).wf(),
            final(self).view() == old(self).view().remove(refid@),
    {
        let ghost old_view = self.view();
        match self.index_of(refid) {
            None => {
                assert(self.view() =~= old_view.remove(refid@));
            },
            Some(i) => {
                let ghost before = self.groups@;
                let _ = self.groups.remove(i);
                proof {
                    let n = before.len() as int;
                    assert forall|j: int| 0 <= j < self.groups@.len() implies #[trigger] self.groups@[j] == before[if j < i { j } else { j + 1 }] by {}
                    assert forall|a: int, b: int| 0 <= a < b < self.groups@.len() implies self.groups@[a].0@ != self.groups@[b].0@ by {
                        let a0 = if a < i { a } else { a + 1 };
                        let b0 = if b < i { b } else { b + 1 };
                        assert(old(self).keys()[a0] == before[a0].0@);
                        assert(old(self).keys()[b0] == before[b0].0@);
                    }
                    assert forall|k: Seq<char>| #[trigger] self.view().contains_key(k) == old_view.remove(refid@).contains_key(k) by {
                        if self.keys().contains(k) {
                            let j = choose|j: int| 0 <= j < self.keys().len() && self.keys()[j] == k;
                            let j0 = if j < i { j } else { j + 1 };
                            assert(old(self).keys()[j0] == before[j0].0@);
                            assert(old(self).keys().contains(k));
                            assert(k != refid@);
                        }
                        if old_view.remove(refid@).contains_key(k) {
                            let j0 = choose|j: int| 0 <= j < old(self).keys().len() && old(self).keys()[j] == k;
                            assert(j0 != i);
                            let j = if j0 < i { j0 } else { j0 - 1 };
                            assert(self.keys()[j] == k);
                        }
                    }
                    assert forall|k: Seq<char>| #[trigger] self.view().contains_key(k) implies self.view()[k] == old_view.remove(refid@)[k] by {
                        let j = choose|j: int| 0 <= j < self.keys().len() && self.keys()[j] == k;
                        let j0 = if j < i { j } else { j + 1 };
                        self.lemma_view_at(j);
                        old(self).lemma_view_at(j0);
                    }
                    assert(self.view() =~= old_view.remove(refid@));
                }
            },
        }
    }

    /// Adds a notification at the end of those of the request `refid`.
    /// Returns `false`, and changes nothing, where no notifications are kept
    /// for that request.
    pub fn push(&mut self, refid: &str, n: Notification) -> (r: bool)
        requires
            old(self).wf(),
        ensures
            final(self).wf(),
            r == old(self).view().contains_key(refid@),
            r ==> final(self).view() == old(self).view().insert(refid@, old(self).view()[refid@].push(notification_view(n))),
            !r ==> final(self).view() == old(self).view(),
    {
        let ghost old_view = self.view();
        let ghost nv = notification_view(n);
        match self.index_of(refid) {
            None => false,
            Some(i) => {
                proof { self.lemma_view_at(i as int); }
                let ghost before = self.groups@;
                let (key, mut list) = self.groups.remove(i);
                list.push(n);
                self.groups.insert(i, (key, list));
                proof {
                    assert forall|j: int| 0 <= j < self.groups@.len() && j != i implies #[trigger] self.groups@[j] == before[j] by {}
                    assert(self.groups@[i as int].0@ == refid@);
                    assert forall|j: int| 0 <= j < self.groups@.len() implies #[trigger] self.keys()[j] == old(self).keys()[j] by {}
                    assert(self.keys() =~= old(self).keys());
                    assert forall|a: int, b: int| 0 <= a < b < self.groups@.len() implies self.groups@[a].0@ != self.groups@[b].0@ by {
                        assert(self.keys()[a] == old(self).keys()[a]);
                        assert(self.keys()[b] == old(self).keys()[b]);
                        assert(old(self).keys()[a] == before[a].0@);
                        assert(old(self).keys()[b] == before[b].0@);
                    }
                    assert forall|k: Seq<char>| #[trigger] self.view().contains_key(k) implies self.view()[k] == old_view.insert(refid@, old_view[refid@].push(nv))[k] by {
                        let j = choose|j: int| 0 <= j < self.keys().len() && self.keys()[j] == k;
                        self.lemma_view_at(j);
                        old(self).lemma_view_at(j);
                        if j == i {
                            assert(self.groups@[j].1@.map_values(|m: Notification| notification_view(m)) =~= before[j].1@.map_values(|m: Notification| notification_view(m)).push(nv));
                        }
                    }
                    assert(self.view() =~= old_view.insert(refid@, old_view[refid@].push(nv)));
                }
                true
            },
        }
    }

    /// The notification at position `idx` of the request `refid`, where there
    /// is one.
    pub fn get(&self, refid: &str, idx: usize) -> (r: Option<Notification>)
        requires
            self.wf(),
        ensures
            match r {
                Some(n) => self.view().contains_key(refid@) && idx < self.view()[refid@].len()
                    && self.view()[refid@].len() <= usize::MAX
                    && notification_view(n) == self.view()[refid@][idx as int],
                None => !(self.view().contains_key(refid@) && idx < self.view()[refid@].len()),
            },
    {
        match self.index_of(refid) {
            None => None,
            Some(i) => {
                proof { self.lemma_view_at(i as int); }
                let len = self.groups[i].1.len();
                assert(self.view()[refid@].len() == len);
                if idx < len {
                    Some(self.groups[i].1[idx].duplicate())
                } else {
                    None
                }
            },
        }
    }
}

/// The message of a notification that could not be kept:
/// `"{err_find_notif} : {refid}."`.
pub open spec fn missing_request_message(err_find_notif: Seq<char>, refid: Seq<char>) -> Seq<char> {
    err_find_notif + " : "@ + refid + "."@
}

/// Records the progress of the request `refid`: a notification with the
/// event `event`, the id `counter` in decimal and the data `data`. Fails with
/// `missing_request_message` where no notifications are kept for the request.
pub fn progress_made(store: &mut NotificationStore, refid: String, event: &str, data: String, counter: i32, err_find_notif: String) -> (r: Result<(), String>)
    requires
        old(store).wf(),
    ensures
        final(store).wf(),
        r is Ok == old(store).view().contains_key(refid@),
        r is Ok ==> final(store).view() == old(store).view().insert(refid@, old(store).view()[refid@].push((event@, signed_decimal(counter as int), data@))),
        r matches Err(m) ==> final(store).view() == old(store).view() && m@ == missing_request_message(err_find_notif@, refid@),
{
    let mut ev = String::new();
    push_str(&mut ev, event);
    let id = i32_to_text(counter);
    let n = Notification::new(ev, id, data);
    if store.push(refid.as_str(), n) {
        Ok(())
    } else {
        let mut m = err_find_notif;
        push_str(&mut m, " : ");
        push_str(&mut m, refid.as_str());
        push_str(&mut m, ".");
        Err(m)
    }
}

/// The decimal representation of an integer, with a `-` for a negative one.
pub open spec fn signed_decimal(n: int) -> Seq<char> {
    if n < 0 {
        seq!['-'] + decimal((-n) as nat)
    } else {
        decimal(n as nat)
    }
}

/// Renders `n` in decimal, as `format!("{}", n)` does.
pub fn i32_to_text(n: i32) -> (r: String)
    ensures
        r@ == signed_decimal(n as int),
{
    if n < 0 {
        let mut r = String::new();
        crate::text::push_char(&mut r, '-');
        let m: u64 = (-(n as i64)) as u64;
        let digits = crate::text::u64_to_text(m);
        push_str(&mut r, digits.as_str());
        r
    } else {
        crate::text::u64_to_text(n as u64)
    }
}

// ---------------------------------------------------------------------------
// A client following the notifications of a request

/// Where a client that follows the notifications of a request stands.
pub struct ClientCursor {
    pub refid: String,
    pub idx: usize,
    pub done: bool,
}

/// What a client is given when it asks for the next notification.
pub enum PollStep {
    /// The stream has ended.
    Ended,
    /// The next notification.
    Next(Notification),
    /// No new notification yet.
    Pending,
}


/// What a poll gives, as text.
pub enum PollView {
    Ended,
    Next((Seq<char>, Seq<char>, Seq<char>)),
    Pending,
}

/// The view of a poll step.
pub open spec fn poll_step_view(r: PollStep) -> PollView {
    match r {
        PollStep::Ended => PollView::Ended,
        PollStep::Next(n) => PollView::Next(notification_view(n)),
        PollStep::Pending => PollView::Pending,
    }
}

/// A poll by a client at position `idx` of the notifications of `refid`,
/// `done` once it was given a final notification: what it is given, and its
/// new position and state.
pub open spec fn poll_spec(m: Map<Seq<char>, NotificationsView>, refid: Seq<char>, idx: nat, done: bool) -> (PollView, nat, bool) {
    if done {
        (PollView::Ended, idx, done)
    } else if m.contains_key(refid) && idx < m[refid].len() {
        (PollView::Next(m[refid][idx as int]), idx + 1, is_final_event(m[refid][idx as int].0))
    } else {
        (PollView::Pending, idx, done)
    }
}

/// The notifications after `progress_made` recorded one for `refid`.
pub open spec fn after_progress(m: Map<Seq<char>, NotificationsView>, refid: Seq<char>, n: (Seq<char>, Seq<char>, Seq<char>)) -> Map<Seq<char>, NotificationsView> {
    m.insert(refid, m[refid].push(n))
}

/// Law: a client that has taken every notification of a request is given,
/// at its next poll, the notification recorded next for that request.
pub proof fn law_recorded_notification_is_polled_next(m: Map<Seq<char>, NotificationsView>, refid: Seq<char>, n: (Seq<char>, Seq<char>, Seq<char>))
    requires
        m.contains_key(refid),
    ensures
        poll_spec(after_progress(m, refid, n), refid, m[refid].len(), false)
            == (PollView::Next(n), m[refid].len() + 1, is_final_event(n.0)),
{
    assert(after_progress(m, refid, n)[refid][m[refid].len() as int] == n);
}

/// Law: a client is given the notifications of its request in the order they
/// were recorded, one per poll, and nothing before they are recorded.
pub proof fn law_notifications_in_order(m: Map<Seq<char>, NotificationsView>, refid: Seq<char>, idx: nat)
    ensures
        m.contains_key(refid) && idx < m[refid].len() ==> poll_spec(m, refid, idx, false).0 == PollView::Next(m[refid][idx as int])
            && poll_spec(m, refid, idx, false).1 == idx + 1,
        !(m.contains_key(refid) && idx < m[refid].len()) ==> poll_spec(m, refid, idx, false) == (PollView::Pending, idx, false),
{
}

/// Law: once a client was given a final notification (success or failure),
/// its stream has ended, whatever is recorded afterwards.
pub proof fn law_final_notification_ends_stream(m: Map<Seq<char>, NotificationsView>, m2: Map<Seq<char>, NotificationsView>, refid: Seq<char>, idx: nat)
    requires
        m.contains_key(refid),
        idx < m[refid].len(),
        is_final_event(m[refid][idx as int].0),
    ensures
        poll_spec(m, refid, idx, false).2,
        poll_spec(m2, refid, poll_spec(m, refid, idx, false).1, true) == (PollView::Ended, idx + 1, true),
{
}

/// Law: a request registered anew has no notification: its client waits.
pub proof fn law_registered_request_waits(m: Map<Seq<char>, NotificationsView>, refid: Seq<char>)
    ensures
        poll_spec(m.insert(refid, Seq::empty()), refid, 0, false) == (PollView::Pending, 0nat, false),
{
}

impl ClientCursor {
    /// A client at the start of the notifications of `refid`.
    pub fn new(refid: String) -> (r: Self)
        ensures
            r.refid == refid,
            r.idx == 0,
            !r.done,
    {
        ClientCursor { refid, idx: 0, done: false }
    }

    /// The next step of the stream: the end once a final notification was
    /// given, the next notification where there is one (the cursor moves past
    /// it and is done after a final event), or nothing yet.
    pub fn poll_next(&mut self, store: &NotificationStore) -> (r: PollStep)
        requires
            store.wf(),
        ensures
            final(self).refid == old(self).refid,
            poll_step_view(r) == poll_spec(store.view(), old(self).refid@, old(self).idx as nat, old(self).done).0,
            final(self).idx == poll_spec(store.view(), old(self).refid@, old(self).idx as nat, old(self).done).1,
            final(self).done == poll_spec(store.view(), old(self).refid@, old(self).idx as nat, old(self).done).2,
    {
        if self.done {
            return PollStep::Ended;
        }
        match store.get(self.refid.as_str(), self.idx) {
            Some(n) => {
                if same_text(n.event.as_str(), "processing_failure") || same_text(n.event.as_str(), "processing_success") {
                    self.done = true;
                }
                assert(self.idx < store.view()[self.refid@].len());
                self.idx = self.idx + 1;
                PollStep::Next(n)
            },
            None => PollStep::Pending,
        }
    }
}

// ---------------------------------------------------------------------------
// Names and languages

/// The name of the result of request `base`: `"{base}-entrusted.pdf"`.
pub open spec fn result_filename(base: Seq<char>) -> Seq<char> {
    base + "-"@ + "entrusted"@ + ".pdf"@
}

/// The name of the sanitized result, from the request id without its
/// extension.
pub fn output_filename_from_base(base: &str) -> (r: String)
    ensures
        r@ == result_filename(base@),
{
    let mut r = String::new();
    push_str(&mut r, base);
    push_str(&mut r, "-");
    push_str(&mut r, "entrusted");
    push_str(&mut r, ".pdf");
    r
}

/// The name of the sanitized result of the request `request_id`.
pub fn output_filename_for(request_id: String) -> (r: String)
    ensures
        r@ == result_filename(without_extension(request_id@)),
{
    let base = path_without_extension(request_id.as_str());
    output_filename_from_base(base.as_str())
}

/// The position of the first `,` or `;` of `s`, or its length.
pub open spec fn first_separator(s: Seq<char>) -> int
    decreases s.len(),
{
    if s.len() == 0 {
        0
    } else if first_separator(s.drop_last()) < s.len() - 1 {
        first_separator(s.drop_last())
    } else if s.last() == ',' || s.last() == ';' {
        s.len() - 1
    } else {
        s.len() as int
    }
}

/// The language a request asks for: the first language of its
/// `Accept-Language` header, without its weight, or `fallback` where the
/// header is no visible text (`None`).
pub open spec fn accept_language_spec(header: Option<Seq<char>>, fallback: Seq<char>) -> Seq<char> {
    match header {
        None => fallback,
        Some(h) => h.subrange(0, first_separator(h)),
    }
}

proof fn lemma_first_separator(s: Seq<char>)
    ensures
        0 <= first_separator(s) <= s.len(),
        forall|k: int| 0 <= k < first_separator(s) ==> #[trigger] s[k] != ',' && s[k] != ';',
        first_separator(s) < s.len() ==> (s[first_separator(s)] == ',' || s[first_separator(s)] == ';'),
    decreases s.len(),
{
    if s.len() > 0 {
        lemma_first_separator(s.drop_last());
        assert forall|k: int| 0 <= k < first_separator(s) implies #[trigger] s[k] != ',' && s[k] != ';' by {
            if k < s.len() - 1 {
                assert(s[k] == s.drop_last()[k]);
            }
        }
    }
}

proof fn lemma_first_separator_at(s: Seq<char>, i: int)
    requires
        0 <= i <= s.len(),
        forall|k: int| 0 <= k < i ==> #[trigger] s[k] != ',' && s[k] != ';',
        i == s.len() || s[i] == ',' || s[i] == ';',
    ensures
        first_separator(s) == i,
{
    lemma_first_separator(s);
    let f = first_separator(s);
    if f < i {
        assert(s[f] == ',' || s[f] == ';');
    }
}

/// The language that the `Accept-Language` header `header` asks for first:
/// the header up to its first `,` or `;`; `fallback` where the header could
/// not be read as text.
pub fn parse_accept_language(header: Option<&str>, fallback_lang: String) -> (r: String)
    ensures
        r@ == accept_language_spec(match header { Some(h) => Some(h@), None => None }, fallback_lang@),
{
    match header {
        None => fallback_lang,
        Some(h) => {
            let v = chars_of(h);
            let mut i: usize = 0;
            while i < v.len() && v[i] != ',' && v[i] != ';'
                invariant
                    i <= v@.len(),
                    forall|k: int| 0 <= k < i ==> #[trigger] v@[k] != ',' && v@[k] != ';',
                decreases v.len() - i,
            {
                i = i + 1;
            }
            proof { lemma_first_separator_at(v@, i as int); }
            string_from_range(&v, 0, i)
        },
    }
}

} // verus!
