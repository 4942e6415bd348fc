//! The PDF viewers that a Linux desktop registers: the desktop entries that
//! a MIME association names, the command each entry launches, and the table
//! of viewers by name that the associations build up.
use vstd::prelude::*;
use crate::text::{chars_of, same_text, string_from_chars};

verus! {

// ---------------------------------------------------------------------------
// Entry names

/// Scans `s` for `;`-separated names: the non-empty names finished so far,
/// and the name in progress at the end of `s`.
pub open spec fn entry_scan(s: Seq<char>) -> (Seq<Seq<char>>, Seq<char>)
    decreases s.len(),
{
    if s.len() == 0 {
        (Seq::empty(), Seq::empty())
    } else {
        let (done, cur) = entry_scan(s.drop_last());
        if s.last() == ';' {
            (if cur.len() > 0 { done.push(cur) } else { done }, Seq::empty())
        } else {
            (done, cur.push(s.last()))
        }
    }
}

/// The desktop entries named in the `;`-separated list `refs`, in order,
/// empty names left out.
pub open spec fn entry_names_spec(refs: Seq<char>) -> Seq<Seq<char>> {
    let (done, cur) = entry_scan(refs);
    if cur.len() > 0 { done.push(cur) } else { done }
}

/// The texts of `v`.
pub open spec fn texts(v: Seq<String>) -> Seq<Seq<char>> {
    v.map_values(|e: String| e@)
}

/// The desktop entries named in the `;`-separated list `refs` of a MIME
/// association.
pub fn desktop_entry_names(refs: &str) -> (r: Vec<String>)
    ensures
        texts(r@) == entry_names_spec(refs@),
{
    let cs = chars_of(refs);
    let mut done: Vec<String> = Vec::new();
    let mut cur: Vec<char> = Vec::new();
    let mut i: usize = 0;
    proof {
        assert(texts(done@) =~= Seq::<Seq<char>>::empty());
        assert(cs@.take(0) =~= Seq::<char>::empty());
    }
    while i < cs.len()
        invariant
            cs@ == refs@,
            i <= cs@.len(),
            entry_scan(cs@.take(i as int)) == (texts(done@), cur@),
        decreases cs.len() - i,
    {
        let c = cs[i];
        proof {
            assert(cs@.take(i + 1).drop_last() =~= cs@.take(i as int));
            assert(cs@.take(i + 1).last() == c);
        }
        if c == ';' {
            if cur.len() > 0 {
                let name = string_from_chars(cur.as_slice());
                let ghost before = done@;
                done.push(name);
                proof {
                    assert(texts(done@) =~= texts(before).push(cur@));
                }
            }
            cur = Vec::new();
            proof {
                assert(cur@ =~= Seq::<char>::empty());
            }
        } else {
            cur.push(c);
        }
        i = i + 1;
    }
    proof {
        assert(cs@.take(cs@.len() as int) =~= cs@);
    }
    if cur.len() > 0 {
        let name = string_from_chars(cur.as_slice());
        let ghost before = done@;
        done.push(name);
        proof {
            assert(texts(done@) =~= texts(before).push(cur@));
        }
    }
    done
}

// ---------------------------------------------------------------------------
// Launch commands

/// `s` with each occurrence of `pat` taken out, the occurrences found from
/// the left without overlap (as `str::replace(pat, "")` does).
pub open spec fn without_pattern(s: Seq<char>, pat: Seq<char>) -> Seq<char>
    decreases s.len(),
{
    if s.len() == 0 {
        s
    } else if 0 < pat.len() <= s.len() && s.take(pat.len() as int) == pat {
        without_pattern(s.skip(pat.len() as int), pat)
    } else {
        seq![s[0]] + without_pattern(s.skip(1), pat)
    }
}

/// The command of a desktop entry's `Exec` or `TryExec` key with the field
/// codes `%u`, `%U`, `%f` and `%F` taken out, in that order.
pub open spec fn launch_command_spec(cmd: Seq<char>) -> Seq<char> {
    without_pattern(
        without_pattern(without_pattern(without_pattern(cmd, seq!['%', 'u']), seq!['%', 'U']), seq!['%', 'f']),
        seq!['%', 'F'],
    )
}

/// Whether `pat` occurs in `s` at `i`.
fn occurs_at_index(s: &Vec<char>, i: usize, pat: &Vec<char>) -> (r: bool)
    requires
        i <= s@.len(),
    ensures
        r == (pat@.len() <= s@.len() - i && s@.skip(i as int).take(pat@.len() as int) == pat@),
{
    if pat.len() > s.len() - i {
        return false;
    }
    let mut k: usize = 0;
    while k < pat.len()
        invariant
            i + pat@.len() <= s@.len(),
            s@.len() == s.len(),
            k <= pat@.len(),
            forall|j: int| 0 <= j < k ==> s@[i + j] == pat@[j],
        decreases pat.len() - k,
    {
        if s[i + k] != pat[k] {
            assert(s@.skip(i as int).take(pat@.len() as int)[k as int] != pat@[k as int]);
            return false;
        }
        k = k + 1;
    }
    assert(s@.skip(i as int).take(pat@.len() as int) =~= pat@);
    true
}

/// `s` with the occurrences of `pat` taken out.
fn remove_pattern(s: &Vec<char>, pat: &Vec<char>) -> (r: Vec<char>)
    requires
        pat@.len() > 0,
    ensures
        r@ == without_pattern(s@, pat@),
{
    let mut out: Vec<char> = Vec::new();
    let mut i: usize = 0;
    proof {
        assert(s@.skip(0) =~= s@);
        assert(out@ + without_pattern(s@.skip(0), pat@) =~= without_pattern(s@, pat@));
    }
    while i < s.len()
        invariant
            i <= s@.len(),
            pat@.len() > 0,
            out@ + without_pattern(s@.skip(i as int), pat@) == without_pattern(s@, pat@),
        decreases s.len() - i,
    {
        let ghost rest = s@.skip(i as int);
        if occurs_at_index(s, i, pat) {
            proof {
                assert(rest.skip(pat@.len() as int) =~= s@.skip(i + pat@.len()));
            }
            i = i + pat.len();
        } else {
            let ghost before = out@;
            out.push(s[i]);
            proof {
                assert(rest[0] == s@[i as int]);
                assert(rest.skip(1) =~= s@.skip(i + 1));
                assert(out@ + without_pattern(s@.skip(i + 1), pat@) =~= before + (seq![rest[0]] + without_pattern(rest.skip(1), pat@)));
            }
            i = i + 1;
        }
    }
    proof {
        assert(s@.skip(i as int) =~= Seq::<char>::empty());
        assert(out@ + Seq::<char>::empty() =~= out@);
    }
    out
}

/// The command that a desktop entry launches, from the value of its
/// `TryExec` or `Exec` key: the field codes `%u`, `%U`, `%f` and `%F`
/// taken out.
pub fn launch_command(cmd: &str) -> (r: String)
    ensures
        r@ == launch_command_spec(cmd@),
{
    let cs = chars_of(cmd);
    let a = remove_pattern(&cs, &vec!['%', 'u']);
    let b = remove_pattern(&a, &vec!['%', 'U']);
    let c = remove_pattern(&b, &vec!['%', 'f']);
    let d = remove_pattern(&c, &vec!['%', 'F']);
    string_from_chars(d.as_slice())
}

/// The viewer that a desktop entry describes, from its `Name`, `TryExec`
/// and `Exec` keys: its name and the command it launches (that of
/// `TryExec`, else that of `Exec`); `None` where it has no name or neither
/// command.
pub open spec fn viewer_entry_spec(name: Option<Seq<char>>, try_exec: Option<Seq<char>>, exec: Option<Seq<char>>) -> Option<(Seq<char>, Seq<char>)> {
    let cmd = if try_exec is Some { try_exec } else { exec };
    match (name, cmd) {
        (Some(n), Some(c)) => Some((n, launch_command_spec(c))),
        _ => None,
    }
}

/// The text of an optional string slice.
pub open spec fn opt_text(o: Option<&str>) -> Option<Seq<char>> {
    match o {
        Some(s) => Some(s@),
        None => None,
    }
}

/// The viewer described by a desktop entry with the keys `name`,
/// `try_exec` and `exec`.
pub fn viewer_entry(name: Option<&str>, try_exec: Option<&str>, exec: Option<&str>) -> (r: Option<(String, String)>)
    ensures
        match viewer_entry_spec(opt_text(name), opt_text(try_exec), opt_text(exec)) {
            Some((n, c)) => r matches Some(p) && p.0@ == n && p.1@ == c,
            None => r is None,
        },
{
    let cmd = match try_exec {
        Some(c) => Some(c),
        None => exec,
    };
    match (name, cmd) {
        (Some(n), Some(c)) => Some((n.to_string(), launch_command(c))),
        _ => None,
    }
}

// ---------------------------------------------------------------------------
// Viewers by name

/// The command of each viewer name of `s`, a later pair replacing an
/// earlier one of the same name.
pub open spec fn pairs_map(s: Seq<(Seq<char>, Seq<char>)>) -> Map<Seq<char>, Seq<char>>
    decreases s.len(),
{
    if s.len() == 0 {
        Map::empty()
    } else {
        pairs_map(s.drop_last()).insert(s.last().0, s.last().1)
    }
}

/// Whether no name occurs twice in `s`.
pub open spec fn distinct_names(s: Seq<(Seq<char>, Seq<char>)>) -> bool {
    forall|i: int, j: int| 0 <= i < j < s.len() ==> s[i].0 != s[j].0
}

proof fn lemma_pairs_map_update(s: Seq<(Seq<char>, Seq<char>)>, p: int, x: (Seq<char>, Seq<char>))
    requires
        distinct_names(s),
        0 <= p < s.len(),
        s[p].0 == x.0,
    ensures
        pairs_map(s.update(p, x)) == pairs_map(s).insert(x.0, x.1),
    decreases s.len(),
{
    let t = s.update(p, x);
    if p == s.len() - 1 {
        assert(t.drop_last() =~= s.drop_last());
        assert(pairs_map(t) =~= pairs_map(s).insert(x.0, x.1));
    } else {
        let d = s.drop_last();
        assert(t.drop_last() =~= d.update(p, x));
        lemma_pairs_map_update(d, p, x);
        assert(s.last() == s[s.len() - 1]);
        assert(s.last().0 != x.0);
        assert(t.last() == s.last());
        assert(pairs_map(t) =~= pairs_map(s).insert(x.0, x.1));
    }
}

proof fn lemma_pairs_map_keys(s: Seq<(Seq<char>, Seq<char>)>, name: Seq<char>)
    ensures
        pairs_map(s).contains_key(name) <==> exists|i: int| 0 <= i < s.len() && #[trigger] s[i].0 == name,
    decreases s.len(),
{
    if s.len() > 0 {
        let d = s.drop_last();
        lemma_pairs_map_keys(d, name);
        if pairs_map(s).contains_key(name) && s.last().0 != name {
            let i = choose|i: int| 0 <= i < d.len() && #[trigger] d[i].0 == name;
            assert(s[i] == d[i]);
        }
        if exists|i: int| 0 <= i < s.len() && #[trigger] s[i].0 == name {
            let i = choose|i: int| 0 <= i < s.len() && #[trigger] s[i].0 == name;
            if i < s.len() - 1 {
                assert(d[i] == s[i]);
            }
        }
    }
}

proof fn lemma_pairs_map_at(s: Seq<(Seq<char>, Seq<char>)>, i: int)
    requires
        distinct_names(s),
        0 <= i < s.len(),
    ensures
        pairs_map(s).contains_key(s[i].0),
        pairs_map(s)[s[i].0] == s[i].1,
    decreases s.len(),
{
    if i < s.len() - 1 {
        let d = s.drop_last();
        assert(d[i] == s[i]);
        lemma_pairs_map_at(d, i);
        assert(s.last() == s[s.len() - 1]);
    }
}

/// The PDF viewers by name, each name listed once with its command.
pub struct PdfViewers {
    entries: Vec<(String, String)>,
}

impl PdfViewers {
    /// The viewers as (name, command) pairs, in the order they were first
    /// recorded.
    pub closed spec fn pairs(&self) -> Seq<(Seq<char>, Seq<char>)> {
        self.entries@.map_values(|e: (String, String)| (e.0@, e.1@))
    }

    /// The command of each viewer name.
    pub open spec fn view(&self) -> Map<Seq<char>, Seq<char>> {
        pairs_map(self.pairs())
    }

    /// No name is listed twice.
    pub open spec fn wf(&self) -> bool {
        distinct_names(self.pairs())
    }

    /// No viewer.
    pub fn new() -> (r: Self)
        ensures
            r.wf(),
            r.view() == Map::<Seq<char>, Seq<char>>::empty(),
    {
        let r = PdfViewers { entries: Vec::new() };
        assert(r.pairs() =~= Seq::<(Seq<char>, Seq<char>)>::empty());
        r
    }

    /// The number of viewers.
    pub fn len(&self) -> (n: usize)
        requires
            self.wf(),
        ensures
            n == self.view().len(),
    {
        proof {
            self.lemma_len();
        }
        self.entries.len()
    }

    proof fn lemma_len(&self)
        requires
            self.wf(),
        ensures
            self.view().len() == self.pairs().len(),
            self.view().dom().finite(),
        decreases self.pairs().len(),
    {
        lemma_pairs_map_len(self.pairs());
    }

    fn position(&self, name: &str) -> (r: Option<usize>)
        ensures
            match r {
                Some(i) => i < self.pairs().len() && self.pairs()[i as int].0 == name@,
                None => forall|i: int| 0 <= i < self.pairs().len() ==> #[trigger] self.pairs()[i].0 != name@,
            },
    {
        let mut i: usize = 0;
        while i < self.entries.len()
            invariant
                i <= self.entries@.len(),
                forall|k: int| 0 <= k < i ==> #[trigger] self.pairs()[k].0 != name@,
            decreases self.entries.len() - i,
        {
            if same_text(self.entries[i].0.as_str(), name) {
                return Some(i);
            }
            i = i + 1;
        }
        None
    }

    /// Records the viewer `name` with the command `command`, in place of
    /// any earlier command of that name.
    pub fn record(&mut self, name: String, command: String)
        requires
            old(self).wf(),
        ensures
            final(self).wf(),
            final(self).view() == old(self).view().insert(name@, command@),
    {
        let ghost x = (name@, command@);
        match self.position(name.as_str()) {
            Some(p) => {
                let ghost before = self.pairs();
                self.entries.set(p, (name, command));
                proof {
                    assert(self.pairs() =~= before.update(p as int, x));
                    lemma_pairs_map_update(before, p as int, x);
                }
            },
            None => {
                let ghost before = self.pairs();
                self.entries.push((name, command));
                proof {
                    assert(self.pairs() =~= before.push(x));
                    assert(self.pairs().drop_last() =~= before);
                }
            },
        }
    }

    /// Records each viewer of `viewers` in turn.
    pub fn record_all(&mut self, viewers: Vec<(String, String)>)
        requires
            old(self).wf(),
        ensures
            final(self).wf(),
            final(self).view() == pairs_map_after(old(self).view(), viewers@.map_values(|e: (String, String)| (e.0@, e.1@))),
    {
        let ghost all = viewers@.map_values(|e: (String, String)| (e.0@, e.1@));
        let ghost start = self.view();
        for v in it: viewers
            invariant
                self.wf(),
                it.seq() == viewers@,
                all == viewers@.map_values(|e: (String, String)| (e.0@, e.1@)),
                self.view() == pairs_map_after(start, all.take(it.index() as int)),
        {
            let ghost k = it.index();
            proof {
                assert(all.take(k + 1).drop_last() =~= all.take(k as int));
                assert(all.take(k + 1).last() == (v.0@, v.1@));
            }
            self.record(v.0, v.1);
        }
        proof {
            assert(all.take(all.len() as int) =~= all);
        }
    }

    /// The command of the viewer `name`.
    pub fn command_of(&self, name: &str) -> (r: Option<String>)
        requires
            self.wf(),
        ensures
            match r {
                Some(c) => self.view().contains_key(name@) && self.view()[name@] == c@,
                None => !self.view().contains_key(name@),
            },
    {
        proof {
            lemma_pairs_map_keys(self.pairs(), name@);
        }
        match self.position(name) {
            Some(p) => {
                proof {
                    lemma_pairs_map_at(self.pairs(), p as int);
                    assert(self.pairs()[p as int].1 == self.entries@[p as int].1@);
                }
                Some(self.entries[p].1.clone())
            },
            None => None,
        }
    }
}

proof fn lemma_pairs_map_len(s: Seq<(Seq<char>, Seq<char>)>)
    requires
        distinct_names(s),
    ensures
        pairs_map(s).dom().finite(),
        pairs_map(s).len() == s.len(),
    decreases s.len(),
{
    if s.len() > 0 {
        let d = s.drop_last();
        assert(distinct_names(d));
        lemma_pairs_map_len(d);
        lemma_pairs_map_keys(d, s.last().0);
        if pairs_map(d).contains_key(s.last().0) {
            let i = choose|i: int| 0 <= i < d.len() && #[trigger] d[i].0 == s.last().0;
            assert(s[i] == d[i]);
            assert(s.last() == s[s.len() - 1]);
        }
    }
}

/// The table `m` after the viewers `viewers` were recorded in turn.
pub open spec fn pairs_map_after(m: Map<Seq<char>, Seq<char>>, viewers: Seq<(Seq<char>, Seq<char>)>) -> Map<Seq<char>, Seq<char>>
    decreases viewers.len(),
{
    if viewers.len() == 0 {
        m
    } else {
        pairs_map_after(m, viewers.drop_last()).insert(viewers.last().0, viewers.last().1)
    }
}

} // verus!
