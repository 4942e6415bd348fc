//! Run-time string templates in the style of `format!`: `{}` takes the next
//! positional argument, `{N}` the argument at index `N`, `{name}` the first
//! argument of that name; `{{` and `}}` stand for single braces. A
//! placeholder that cannot be resolved is copied to the output as it is.
use vstd::prelude::*;
use crate::text::{chars_of, is_white_space, push_range, push_str, trim, trim_bounds, trim_end, trim_start};

verus! {

/// Index of the first `{` or `}` of `s` at or after `pos`, or `s.len()`.
pub open spec fn next_brace(s: Seq<char>, pos: int) -> int
    decreases s.len() - pos,
{
    if pos >= s.len() {
        s.len() as int
    } else if s[pos] == '{' || s[pos] == '}' {
        pos
    } else {
        next_brace(s, pos + 1)
    }
}

/// Index of the first `}` of `s` at or after `pos`, or `s.len()`.
pub open spec fn next_close(s: Seq<char>, pos: int) -> int
    decreases s.len() - pos,
{
    if pos >= s.len() {
        s.len() as int
    } else if s[pos] == '}' {
        pos
    } else {
        next_close(s, pos + 1)
    }
}

pub proof fn lemma_next_brace(s: Seq<char>, pos: int)
    requires
        0 <= pos,
    ensures
        pos <= next_brace(s, pos) <= s.len() || (pos > s.len() && next_brace(s, pos) == s.len()),
        next_brace(s, pos) < s.len() ==> (s[next_brace(s, pos)] == '{' || s[next_brace(s, pos)] == '}'),
    decreases s.len() - pos,
{
    if pos < s.len() && !(s[pos] == '{' || s[pos] == '}') {
        lemma_next_brace(s, pos + 1);
    }
}

pub proof fn lemma_next_close(s: Seq<char>, pos: int)
    requires
        0 <= pos,
    ensures
        pos <= next_close(s, pos) <= s.len() || (pos > s.len() && next_close(s, pos) == s.len()),
        next_close(s, pos) < s.len() ==> s[next_close(s, pos)] == '}',
    decreases s.len() - pos,
{
    if pos < s.len() && s[pos] != '}' {
        lemma_next_close(s, pos + 1);
    }
}

/// Whether `c` is an ASCII decimal digit.
pub open spec fn is_digit(c: char) -> bool {
    '0' <= c && c <= '9'
}

/// The value of the ASCII digit `c`.
pub open spec fn digit_value(c: char) -> nat {
    ((c as int) - ('0' as int)) as nat
}

/// The value of a string of decimal digits.
pub open spec fn digits_value(t: Seq<char>) -> nat
    decreases t.len(),
{
    if t.len() == 0 {
        0
    } else {
        digits_value(t.drop_last()) * 10 + digit_value(t.last())
    }
}

/// `t` without the single `+` sign that may start it.
pub open spec fn unsigned_digits(t: Seq<char>) -> Seq<char> {
    if t.len() > 0 && t[0] == '+' {
        t.drop_first()
    } else {
        t
    }
}

/// What `t.parse::<usize>()` gives: an optional `+`, then one or more ASCII
/// digits whose value fits in `usize`.
pub open spec fn parse_index(t: Seq<char>) -> Option<nat> {
    let d = unsigned_digits(t);
    if d.len() > 0 && (forall|i: int| 0 <= i < d.len() ==> is_digit(#[trigger] d[i]))
        && digits_value(d) <= usize::MAX {
        Some(digits_value(d))
    } else {
        None
    }
}

/// Index of the first argument whose name is `name`.
pub open spec fn find_name(args: Seq<(Seq<char>, Seq<char>)>, name: Seq<char>) -> Option<nat>
    decreases args.len(),
{
    if args.len() == 0 {
        None
    } else {
        match find_name(args.drop_last(), name) {
            Some(i) => Some(i),
            None => if args.last().0 == name {
                Some((args.len() - 1) as nat)
            } else {
                None
            },
        }
    }
}

/// What the placeholder `s[p..=e]` stands for, with `s[pos..p]` before it:
/// the text before it and the value of argument `k`, or the placeholder
/// itself where there is no such argument.
pub open spec fn with_argument(s: Seq<char>, args: Seq<(Seq<char>, Seq<char>)>, pos: int, p: int, e: int, k: nat) -> Seq<char> {
    s.subrange(pos, p) + if k < args.len() {
        args[k as int].1
    } else {
        s.subrange(p, e + 1)
    }
}

/// The rendering of `s[pos..]`, where `auto` positional arguments were
/// already taken by `{}` placeholders.
pub open spec fn render(s: Seq<char>, args: Seq<(Seq<char>, Seq<char>)>, pos: int, auto: nat) -> Seq<char>
    decreases s.len() - pos,
{
    if pos < 0 || pos >= s.len() {
        Seq::empty()
    } else {
        let p = next_brace(s, pos);
        proof { lemma_next_brace(s, pos); }
        if p >= s.len() {
            s.subrange(pos, s.len() as int)
        } else if s[p] == '}' {
            let skip = if p + 1 < s.len() && s[p + 1] == '}' { p + 2 } else { p + 1 };
            s.subrange(pos, p + 1) + render(s, args, skip, auto)
        } else if p + 1 < s.len() && s[p + 1] == '{' {
            s.subrange(pos, p + 1) + render(s, args, p + 2, auto)
        } else {
            let e = next_close(s, p);
            proof { lemma_next_close(s, p); }
            if e >= s.len() {
                s.subrange(pos, p + 1) + render(s, args, p + 1, auto)
            } else if e == p + 1 {
                with_argument(s, args, pos, p, e, auto) + render(s, args, e + 1, auto + 1)
            } else {
                let name = trim(s.subrange(p + 1, e));
                match parse_index(name) {
                    Some(n) => with_argument(s, args, pos, p, e, n) + render(s, args, e + 1, auto),
                    None => match find_name(args, name) {
                        Some(k) => with_argument(s, args, pos, p, e, k) + render(s, args, e + 1, auto),
                        None => s.subrange(pos, e) + render(s, args, e, auto),
                    },
                }
            }
        }
    }
}

/// The text that the template `s` renders to with the arguments `args`
/// (each a name and a rendered value).
pub open spec fn format_spec(s: Seq<char>, args: Seq<(Seq<char>, Seq<char>)>) -> Seq<char> {
    render(s, args, 0, 0)
}

/// The names and values of `args`, as character sequences.
pub open spec fn arg_views(args: Seq<(&str, &str)>) -> Seq<(Seq<char>, Seq<char>)> {
    args.map_values(|a: (&str, &str)| (a.0@, a.1@))
}

/// A template together with its arguments, each a name and a rendered value.
/// Positional arguments have the empty name.
pub struct FormatArg<'a> {
    pub format_str: &'a str,
    pub args: &'a [(&'a str, &'a str)],
}

impl<'a> FormatArg<'a> {
    /// The rendered text of the template.
    pub fn to_text(&self) -> (res: String)
        ensures
            res@ == format_spec(self.format_str@, arg_views(self.args@)),
    {
        render_template(self.format_str, self.args)
    }
}

fn next_brace_exec(v: &[char], pos: usize) -> (p: usize)
    requires
        pos <= v@.len(),
    ensures
        p as int == next_brace(v@, pos as int),
        pos <= p <= v@.len(),
        p < v@.len() ==> (v@[p as int] == '{' || v@[p as int] == '}'),
{
    proof { lemma_next_brace(v@, pos as int); }
    let mut p = pos;
    while p < v.len() && v[p] != '{' && v[p] != '}'
        invariant
            pos <= p <= v@.len(),
            next_brace(v@, pos as int) == next_brace(v@, p as int),
        decreases v.len() - p,
    {
        p = p + 1;
    }
    p
}

fn next_close_exec(v: &[char], pos: usize) -> (p: usize)
    requires
        pos <= v@.len(),
    ensures
        p as int == next_close(v@, pos as int),
        pos <= p <= v@.len(),
        p < v@.len() ==> v@[p as int] == '}',
{
    proof { lemma_next_close(v@, pos as int); }
    let mut p = pos;
    while p < v.len() && v[p] != '}'
        invariant
            pos <= p <= v@.len(),
            next_close(v@, pos as int) == next_close(v@, p as int),
        decreases v.len() - p,
    {
        p = p + 1;
    }
    p
}

proof fn lemma_digits_value_grows(t: Seq<char>, k: int)
    requires
        0 <= k <= t.len(),
    ensures
        digits_value(t.subrange(0, k)) <= digits_value(t),
    decreases t.len() - k,
{
    if k < t.len() {
        lemma_digits_value_grows(t, k + 1);
        let a = t.subrange(0, k + 1);
        assert(a.drop_last() == t.subrange(0, k));
        assert(digits_value(a) >= digits_value(a.drop_last())) by (nonlinear_arith)
            requires digits_value(a) == digits_value(a.drop_last()) * 10 + digit_value(a.last());
    } else {
        assert(t.subrange(0, k) == t);
    }
}

/// `t.parse::<usize>()` for `t == v[a..b]`.
pub fn parse_index_exec(v: &[char], a: usize, b: usize) -> (res: Option<usize>)
    requires
        a <= b <= v@.len(),
    ensures
        match parse_index(v@.subrange(a as int, b as int)) {
            Some(n) => res == Some(n as usize),
            None => res is None,
        },
{
    let ghost t = v@.subrange(a as int, b as int);
    let start = if a < b && v[a] == '+' { a + 1 } else { a };
    let ghost d = v@.subrange(start as int, b as int);
    assert(d == unsigned_digits(t)) by {
        if a < b && v@[a as int] == '+' {
            assert(t[0] == '+');
            assert(t.drop_first() == d);
        }
    }
    if start == b {
        return None;
    }
    let mut acc: usize = 0;
    let mut i = start;
    while i < b
        invariant
            a <= start <= i <= b <= v@.len(),
            d == v@.subrange(start as int, b as int),
            t == v@.subrange(a as int, b as int),
            d == unsigned_digits(t),
            forall|k: int| 0 <= k < i - start ==> is_digit(#[trigger] d[k]),
            acc as nat == digits_value(d.subrange(0, i - start)),
        decreases b - i,
    {
        let c = v[i];
        if !('0' <= c && c <= '9') {
            assert(!is_digit(d[i - start]));
            assert(!(forall|m: int| 0 <= m < d.len() ==> is_digit(#[trigger] d[m])));
            assert(parse_index(t) is None);
            return None;
        }
        let dv: usize = (c as u32 - '0' as u32) as usize;
        assert(dv as nat == digit_value(c));
        let ghost pre = d.subrange(0, i - start);
        let ghost next = d.subrange(0, i - start + 1);
        assert(next.drop_last() == pre);
        assert(next.last() == c);
        if acc > (usize::MAX - dv) / 10 {
            proof {
                assert(acc * 10 + dv > usize::MAX) by (nonlinear_arith)
                    requires acc > (usize::MAX - dv) / 10, dv <= 9;
                lemma_digits_value_grows(d, i - start + 1);
                assert(digits_value(next) == acc * 10 + dv);
                assert(digits_value(d) > usize::MAX);
                assert(parse_index(t) is None);
            }
            return None;
        }
        proof {
            assert(acc * 10 + dv <= usize::MAX) by (nonlinear_arith)
                requires acc <= (usize::MAX - dv) / 10, dv <= 9;
        }
        acc = acc * 10 + dv;
        i = i + 1;
    }
    assert(d.subrange(0, d.len() as int) == d);
    Some(acc)
}

fn same_chars(v: &[char], a: usize, b: usize, name: &[char]) -> (r: bool)
    requires
        a <= b <= v@.len(),
    ensures
        r == (v@.subrange(a as int, b as int) == name@),
{
    if b - a != name.len() {
        return false;
    }
    let mut k: usize = 0;
    while k < name.len()
        invariant
            a <= b <= v@.len(),
            b - a == name@.len(),
            k <= name@.len(),
            forall|m: int| 0 <= m < k ==> v@[a + m] == name@[m],
        decreases name.len() - k,
    {
        assert(a + k < v.len());
        if v[a + k] != name[k] {
            assert(v@.subrange(a as int, b as int)[k as int] != name@[k as int]);
            return false;
        }
        k = k + 1;
    }
    assert(v@.subrange(a as int, b as int) == name@);
    true
}

proof fn lemma_find_name_prefix(args: Seq<(Seq<char>, Seq<char>)>, name: Seq<char>, k: int)
    requires
        0 <= k <= args.len(),
        forall|j: int| 0 <= j < k ==> args[j].0 != name,
    ensures
        find_name(args.subrange(0, k), name) is None,
    decreases k,
{
    if k > 0 {
        let s = args.subrange(0, k);
        assert(s.drop_last() == args.subrange(0, k - 1));
        lemma_find_name_prefix(args, name, k - 1);
    }
}

proof fn lemma_find_name_extend(args: Seq<(Seq<char>, Seq<char>)>, name: Seq<char>, k: int, n: int)
    requires
        0 <= k < n <= args.len(),
        find_name(args.subrange(0, k + 1), name) == Some(k as nat),
    ensures
        find_name(args.subrange(0, n), name) == Some(k as nat),
    decreases n - k,
{
    if n > k + 1 {
        lemma_find_name_extend(args, name, k, n - 1);
        assert(args.subrange(0, n).drop_last() == args.subrange(0, n - 1));
    }
}

/// Index of the first argument named `v[a..b]`.
fn find_name_exec(v: &[char], a: usize, b: usize, names: &Vec<Vec<char>>, Ghost(args): Ghost<Seq<(Seq<char>, Seq<char>)>>) -> (res: Option<usize>)
    requires
        a <= b <= v@.len(),
        names@.len() == args.len(),
        forall|j: int| 0 <= j < args.len() ==> #[trigger] names@[j]@ == args[j].0,
    ensures
        res matches Some(j) ==> find_name(args, v@.subrange(a as int, b as int)) == Some(j as nat),
        res is None ==> find_name(args, v@.subrange(a as int, b as int)) is None,
{
    let ghost name = v@.subrange(a as int, b as int);
    let mut j: usize = 0;
    while j < names.len()
        invariant
            a <= b <= v@.len(),
            names@.len() == args.len(),
            forall|i: int| 0 <= i < args.len() ==> #[trigger] names@[i]@ == args[i].0,
            j <= args.len(),
            name == v@.subrange(a as int, b as int),
            forall|i: int| 0 <= i < j ==> args[i].0 != name,
        decreases names.len() - j,
    {
        if same_chars(v, a, b, &names[j]) {
            proof {
                lemma_find_name_prefix(args, name, j as int);
                let s = args.subrange(0, j + 1);
                assert(s.drop_last() == args.subrange(0, j as int));
                assert(s.last() == args[j as int]);
                lemma_find_name_extend(args, name, j as int, args.len() as int);
                assert(args.subrange(0, args.len() as int) == args);
            }
            return Some(j);
        }
        j = j + 1;
    }
    proof {
        lemma_find_name_prefix(args, name, args.len() as int);
        assert(args.subrange(0, args.len() as int) == args);
    }
    None
}

proof fn lemma_render_end(s: Seq<char>, args: Seq<(Seq<char>, Seq<char>)>, auto: nat)
    ensures
        render(s, args, s.len() as int, auto) == Seq::<char>::empty(),
{
}

/// One step of the rendering of `s[pos..]`: appends to `out` the text that
/// comes before the next unresolved position, and returns that position and
/// the count of positional arguments taken so far.
fn render_step(s: &Vec<char>, pos: usize, auto: usize, names: &Vec<Vec<char>>, args: &[(&str, &str)], out: &mut String, Ghost(a): Ghost<Seq<(Seq<char>, Seq<char>)>>) -> (res: (usize, usize))
    requires
        a == arg_views(args@),
        names@.len() == a.len(),
        forall|i: int| 0 <= i < a.len() ==> #[trigger] names@[i]@ == a[i].0,
        auto <= pos < s@.len(),
    ensures
        pos < res.0 <= s@.len(),
        res.1 <= res.0,
        final(out)@ + render(s@, a, res.0 as int, res.1 as nat) == old(out)@ + render(s@, a, pos as int, auto as nat),
{
    let ghost sv = s@;
    let ghost before = out@;
    let ghost cur = render(sv, a, pos as int, auto as nat);
    let len = s.len();
    let p = next_brace_exec(s.as_slice(), pos);
    if p == len {
        push_range(out, s.as_slice(), pos, len);
        assert(cur == sv.subrange(pos as int, len as int));
        proof { lemma_render_end(sv, a, auto as nat); }
        (len, auto)
    } else if s[p] == '}' {
        let skip = if p + 1 < len && s[p + 1] == '}' { p + 2 } else { p + 1 };
        push_range(out, s.as_slice(), pos, p + 1);
        assert(cur == sv.subrange(pos as int, p + 1) + render(sv, a, skip as int, auto as nat));
        (skip, auto)
    } else if p + 1 < len && s[p + 1] == '{' {
        push_range(out, s.as_slice(), pos, p + 1);
        assert(cur == sv.subrange(pos as int, p + 1) + render(sv, a, p + 2, auto as nat));
        (p + 2, auto)
    } else {
        let e = next_close_exec(s.as_slice(), p);
        proof { lemma_next_close(sv, p as int); }
        if e == len {
            push_range(out, s.as_slice(), pos, p + 1);
            assert(cur == sv.subrange(pos as int, p + 1) + render(sv, a, p + 1, auto as nat));
            (p + 1, auto)
        } else {
            placeholder_step(s, pos, p, e, auto, names, args, out, Ghost(a))
        }
    }
}

/// The step of `render_step` for a placeholder `s[p..=e]`.
fn placeholder_step(s: &Vec<char>, pos: usize, p: usize, e: usize, auto: usize, names: &Vec<Vec<char>>, args: &[(&str, &str)], out: &mut String, Ghost(a): Ghost<Seq<(Seq<char>, Seq<char>)>>) -> (res: (usize, usize))
    requires
        a == arg_views(args@),
        names@.len() == a.len(),
        forall|i: int| 0 <= i < a.len() ==> #[trigger] names@[i]@ == a[i].0,
        auto <= pos <= p < e < s@.len(),
        p == next_brace(s@, pos as int),
        s@[p as int] == '{',
        !(p + 1 < s@.len() && s@[p + 1] == '{'),
        e == next_close(s@, p as int),
    ensures
        pos < res.0 <= s@.len(),
        res.1 <= res.0,
        final(out)@ + render(s@, a, res.0 as int, res.1 as nat) == old(out)@ + render(s@, a, pos as int, auto as nat),
{
    let ghost sv = s@;
    let ghost before = out@;
    let ghost cur = render(sv, a, pos as int, auto as nat);
    let ghost name = trim(sv.subrange(p + 1, e as int));
    assert(e < s.len());
    let mut next_auto = auto;
    let k: Option<usize> = if e == p + 1 {
        next_auto = auto + 1;
        assert(cur == with_argument(sv, a, pos as int, p as int, e as int, auto as nat) + render(sv, a, e + 1, next_auto as nat));
        Some(auto)
    } else {
        let (ta, tb) = trim_bounds(s.as_slice(), p + 1, e);
        assert(sv.subrange(ta as int, tb as int) == name);
        match parse_index_exec(s.as_slice(), ta, tb) {
            Some(n) => {
                assert(parse_index(name) == Some(n as nat));
                assert(cur == with_argument(sv, a, pos as int, p as int, e as int, n as nat) + render(sv, a, e + 1, auto as nat));
                Some(n)
            },
            None => {
                assert(parse_index(name) is None);
                let f = find_name_exec(s.as_slice(), ta, tb, names, Ghost(a));
                match f {
                    Some(j) => {
                        assert(find_name(a, name) == Some(j as nat));
                        assert(cur == with_argument(sv, a, pos as int, p as int, e as int, j as nat) + render(sv, a, e + 1, auto as nat));
                    },
                    None => {
                        assert(find_name(a, name) is None);
                        assert(cur == sv.subrange(pos as int, e as int) + render(sv, a, e as int, auto as nat));
                    },
                }
                f
            },
        }
    };
    match k {
        Some(k) => {
            push_range(out, s.as_slice(), pos, p);
            if k < args.len() {
                let value = args[k].1;
                assert(a[k as int].1 == value@);
                push_str(out, value);
            } else {
                push_range(out, s.as_slice(), p, e + 1);
            }
            assert(out@ == before + with_argument(sv, a, pos as int, p as int, e as int, k as nat));
            (e + 1, next_auto)
        },
        None => {
            push_range(out, s.as_slice(), pos, e);
            (e, auto)
        },
    }
}

/// Renders the template `format_str` with the arguments `args`.
pub fn render_template(format_str: &str, args: &[(&str, &str)]) -> (res: String)
    ensures
        res@ == format_spec(format_str@, arg_views(args@)),
{
    let ghost a = arg_views(args@);
    let s = chars_of(format_str);
    let ghost sv = s@;
    let len = s.len();
    let mut names: Vec<Vec<char>> = Vec::new();
    let mut j: usize = 0;
    while j < args.len()
        invariant
            j <= args@.len(),
            a == arg_views(args@),
            names@.len() == j,
            forall|i: int| 0 <= i < j ==> #[trigger] names@[i]@ == a[i].0,
        decreases args.len() - j,
    {
        let nv = chars_of(args[j].0);
        names.push(nv);
        j = j + 1;
    }
    let mut out = String::new();
    let mut pos: usize = 0;
    let mut auto: usize = 0;
    while pos < len
        invariant
            len == s@.len(),
            sv == s@,
            sv == format_str@,
            a == arg_views(args@),
            names@.len() == a.len(),
            forall|i: int| 0 <= i < a.len() ==> #[trigger] names@[i]@ == a[i].0,
            auto <= pos <= len,
            out@ + render(sv, a, pos as int, auto as nat) == render(sv, a, 0, 0),
        decreases len - pos,
    {
        let (np, na) = render_step(&s, pos, auto, &names, args, &mut out, Ghost(a));
        pos = np;
        auto = na;
    }
    proof { lemma_render_end(sv, a, auto as nat); }
    out
}

/// Renders `template` with the positional arguments `params` (each of empty
/// name), as `runtime_format!(template, params[0], ...)` does.
pub fn format_positional(template: &str, params: &[&str]) -> (res: String)
    ensures
        res@ == format_spec(template@, positional_args(params@)),
{
    let mut pairs: Vec<(&str, &str)> = Vec::new();
    let mut i: usize = 0;
    while i < params.len()
        invariant
            i <= params@.len(),
            pairs@.len() == i,
            forall|k: int| 0 <= k < i ==> #[trigger] pairs@[k] == ("", params@[k]),
        decreases params.len() - i,
    {
        pairs.push(("", params[i]));
        i = i + 1;
    }
    proof {
        reveal_strlit("");
        assert forall|k: int| 0 <= k < params@.len() implies #[trigger] arg_views(pairs@)[k] == positional_args(params@)[k] by {
            assert(pairs@[k] == ("", params@[k]));
            assert(""@ == Seq::<char>::empty());
        }
        assert(arg_views(pairs@) =~= positional_args(params@));
    }
    render_template(template, pairs.as_slice())
}

/// Positional arguments: each value of `params` with the empty name.
pub open spec fn positional_args(params: Seq<&str>) -> Seq<(Seq<char>, Seq<char>)> {
    params.map_values(|p: &str| (Seq::<char>::empty(), p@))
}

/// Whether `s` holds neither `{` nor `}`.
pub open spec fn brace_free(s: Seq<char>) -> bool {
    forall|i: int| 0 <= i < s.len() ==> #[trigger] s[i] != '{' && s[i] != '}'
}

proof fn lemma_next_brace_over_free(s: Seq<char>, k: int, m: int)
    requires
        0 <= k <= m <= s.len(),
        forall|i: int| k <= i < m ==> #[trigger] s[i] != '{' && s[i] != '}',
    ensures
        next_brace(s, k) == next_brace(s, m),
    decreases m - k,
{
    if k < m {
        lemma_next_brace_over_free(s, k + 1, m);
    }
}

proof fn lemma_next_close_over_free(s: Seq<char>, k: int, m: int)
    requires
        0 <= k <= m <= s.len(),
        forall|i: int| k <= i < m ==> #[trigger] s[i] != '}',
    ensures
        next_close(s, k) == next_close(s, m),
    decreases m - k,
{
    if k < m {
        lemma_next_close_over_free(s, k + 1, m);
    }
}

/// Rendering from position `k` of `s`, where `s[k..]` has no brace, copies it.
proof fn lemma_render_free_tail(s: Seq<char>, args: Seq<(Seq<char>, Seq<char>)>, k: int, auto: nat)
    requires
        0 <= k <= s.len(),
        forall|i: int| k <= i < s.len() ==> #[trigger] s[i] != '{' && s[i] != '}',
    ensures
        render(s, args, k, auto) == s.subrange(k, s.len() as int),
{
    lemma_next_brace_over_free(s, k, s.len() as int);
}

/// Law: a template that holds no brace renders to itself, whatever the
/// arguments.
pub proof fn law_plain_template_is_kept(s: Seq<char>, args: Seq<(Seq<char>, Seq<char>)>)
    requires
        brace_free(s),
    ensures
        format_spec(s, args) == s,
{
    lemma_render_free_tail(s, args, 0, 0);
    assert(s.subrange(0, s.len() as int) == s);
}

/// Renders `x + mid + y` where `x` has no brace, in terms of the first step
/// taken at the end of `x`.
proof fn lemma_free_prefix(x: Seq<char>, mid: Seq<char>, y: Seq<char>)
    requires
        brace_free(x),
        brace_free(y),
    ensures
        next_brace(x + mid + y, 0) == next_brace(x + mid + y, x.len() as int),
        forall|i: int| (x + mid).len() <= i < (x + mid + y).len() ==> #[trigger] (x + mid + y)[i] != '{' && (x + mid + y)[i] != '}',
{
    let s = x + mid + y;
    assert forall|i: int| 0 <= i < x.len() implies #[trigger] s[i] != '{' && s[i] != '}' by {
        assert(s[i] == x[i]);
    }
    lemma_next_brace_over_free(s, 0, x.len() as int);
    assert forall|i: int| (x + mid).len() <= i < s.len() implies #[trigger] s[i] != '{' && s[i] != '}' by {
        assert(s[i] == y[i - (x + mid).len()]);
    }
}

/// Law: `{0}` between two texts without braces stands for the first
/// argument.
pub proof fn law_indexed_placeholder(x: Seq<char>, y: Seq<char>, args: Seq<(Seq<char>, Seq<char>)>)
    requires
        brace_free(x),
        brace_free(y),
        args.len() > 0,
    ensures
        format_spec(x + seq!['{', '0', '}'] + y, args) == x + args[0].1 + y,
{
    let mid = seq!['{', '0', '}'];
    let s = x + mid + y;
    let n = x.len() as int;
    lemma_free_prefix(x, mid, y);
    assert(s[n] == '{' && s[n + 1] == '0' && s[n + 2] == '}');
    assert(next_brace(s, n) == n);
    assert(next_close(s, n + 2) == n + 2);
    assert(next_close(s, n + 1) == n + 2);
    assert(next_close(s, n) == n + 2);
    let t = s.subrange(n + 1, n + 2);
    assert(t == seq!['0']);
    assert(!is_white_space('0'));
    assert(trim_start(t) == t);
    assert(trim_end(t) == t);
    assert(trim(t) == t);
    assert(unsigned_digits(t) == t);
    assert(t.drop_last() == Seq::<char>::empty());
    assert(t.last() == '0');
    assert(digit_value('0') == 0);
    assert(digits_value(Seq::<char>::empty()) == 0);
    assert(digits_value(t) == digits_value(t.drop_last()) * 10 + digit_value(t.last()));
    assert(is_digit(t[0]));
    assert(digits_value(t) == 0);
    assert(parse_index(t) == Some(0nat));
    lemma_render_free_tail(s, args, n + 3, 0);
    assert(s.subrange(0, n) == x);
    assert(s.subrange(n + 3, s.len() as int) == y);
}

/// Law: `{}` between two texts without braces stands for the first
/// argument.
pub proof fn law_next_placeholder(x: Seq<char>, y: Seq<char>, args: Seq<(Seq<char>, Seq<char>)>)
    requires
        brace_free(x),
        brace_free(y),
        args.len() > 0,
    ensures
        format_spec(x + seq!['{', '}'] + y, args) == x + args[0].1 + y,
{
    let mid = seq!['{', '}'];
    let s = x + mid + y;
    let n = x.len() as int;
    lemma_free_prefix(x, mid, y);
    assert(s[n] == '{' && s[n + 1] == '}');
    assert(next_brace(s, n) == n);
    assert(next_close(s, n + 1) == n + 1);
    assert(next_close(s, n) == n + 1);
    lemma_render_free_tail(s, args, n + 2, 1);
    assert(s.subrange(0, n) == x);
    assert(s.subrange(n + 2, s.len() as int) == y);
}

/// Law: `{{` and `}}` between texts without braces stand for one brace.
pub proof fn law_escaped_braces(x: Seq<char>, y: Seq<char>, args: Seq<(Seq<char>, Seq<char>)>)
    requires
        brace_free(x),
        brace_free(y),
    ensures
        format_spec(x + seq!['{', '{'] + y, args) == x + seq!['{'] + y,
        format_spec(x + seq!['}', '}'] + y, args) == x + seq!['}'] + y,
{
    let n = x.len() as int;
    let s1 = x + seq!['{', '{'] + y;
    lemma_free_prefix(x, seq!['{', '{'], y);
    assert(s1[n] == '{' && s1[n + 1] == '{');
    assert(next_brace(s1, n) == n);
    lemma_render_free_tail(s1, args, n + 2, 0);
    assert(s1.subrange(0, n + 1) == x + seq!['{']);
    assert(s1.subrange(n + 2, s1.len() as int) == y);
    let s2 = x + seq!['}', '}'] + y;
    lemma_free_prefix(x, seq!['}', '}'], y);
    assert(s2[n] == '}' && s2[n + 1] == '}');
    assert(next_brace(s2, n) == n);
    lemma_render_free_tail(s2, args, n + 2, 0);
    assert(s2.subrange(0, n + 1) == x + seq!['}']);
    assert(s2.subrange(n + 2, s2.len() as int) == y);
}

/// Law: a placeholder naming an argument stands for the value of the first
/// argument of that name.
pub proof fn law_named_placeholder(x: Seq<char>, name: Seq<char>, y: Seq<char>, args: Seq<(Seq<char>, Seq<char>)>, k: nat)
    requires
        brace_free(x),
        brace_free(y),
        brace_free(name),
        name.len() > 0,
        trim(name) == name,
        parse_index(name) is None,
        find_name(args, name) == Some(k),
        k < args.len(),
    ensures
        format_spec(x + (seq!['{'] + name + seq!['}']) + y, args) == x + args[k as int].1 + y,
{
    let mid = seq!['{'] + name + seq!['}'];
    let s = x + mid + y;
    let n = x.len() as int;
    let m = name.len() as int;
    lemma_free_prefix(x, mid, y);
    assert(s[n] == '{');
    assert(s[n + 1] == name[0]);
    assert(next_brace(s, n) == n);
    assert forall|i: int| n + 1 <= i < n + 1 + m implies #[trigger] s[i] != '}' by {
        assert(s[i] == name[i - n - 1]);
    }
    lemma_next_close_over_free(s, n + 1, n + 1 + m);
    assert(s[n + 1 + m] == '}');
    assert(next_close(s, n) == n + 1 + m);
    assert(s.subrange(n + 1, n + 1 + m) == name);
    lemma_render_free_tail(s, args, n + 2 + m, 0);
    assert(s.subrange(0, n) == x);
    assert(s.subrange(n + 2 + m, s.len() as int) == y);
}

/// Law: a placeholder whose index has no argument is kept as it is.
pub proof fn law_missing_argument_is_kept(x: Seq<char>, y: Seq<char>, args: Seq<(Seq<char>, Seq<char>)>)
    requires
        brace_free(x),
        brace_free(y),
        args.len() == 0,
    ensures
        format_spec(x + seq!['{', '0', '}'] + y, args) == x + seq!['{', '0', '}'] + y,
{
    let mid = seq!['{', '0', '}'];
    let s = x + mid + y;
    let n = x.len() as int;
    lemma_free_prefix(x, mid, y);
    assert(s[n] == '{' && s[n + 1] == '0' && s[n + 2] == '}');
    assert(next_brace(s, n) == n);
    assert(next_close(s, n + 2) == n + 2);
    assert(next_close(s, n + 1) == n + 2);
    assert(next_close(s, n) == n + 2);
    let t = s.subrange(n + 1, n + 2);
    assert(t == seq!['0']);
    assert(trim_start(t) == t);
    assert(trim_end(t) == t);
    assert(unsigned_digits(t) == t);
    assert(t.drop_last() == Seq::<char>::empty());
    assert(t.last() == '0');
    assert(digit_value('0') == 0);
    assert(digits_value(Seq::<char>::empty()) == 0);
    assert(digits_value(t) == digits_value(t.drop_last()) * 10 + digit_value(t.last()));
    assert(is_digit(t[0]));
    assert(parse_index(t) == Some(0nat));
    lemma_render_free_tail(s, args, n + 3, 0);
    assert(s.subrange(0, n) == x);
    assert(s.subrange(n, n + 3) == mid);
    assert(s.subrange(n + 3, s.len() as int) == y);
}

/// Rendering from `pos`, where `s[pos..p]` has no brace and `{}` stands at
/// `p`: the text up to `p`, the next positional argument, then the rest.
proof fn lemma_render_next_placeholder(s: Seq<char>, args: Seq<(Seq<char>, Seq<char>)>, pos: int, p: int, auto: nat)
    requires
        0 <= pos <= p,
        p + 1 < s.len(),
        s[p] == '{',
        s[p + 1] == '}',
        forall|i: int| pos <= i < p ==> #[trigger] s[i] != '{' && s[i] != '}',
    ensures
        render(s, args, pos, auto) == with_argument(s, args, pos, p, p + 1, auto) + render(s, args, p + 2, auto + 1),
{
    lemma_next_brace_over_free(s, pos, p);
    assert(next_brace(s, p) == p);
    assert(next_close(s, p + 1) == p + 1);
    assert(next_close(s, p) == p + 1);
}

/// Law: two `{}` placeholders, between texts without braces, stand for the
/// first and the second argument in turn.
pub proof fn law_two_next_placeholders(x: Seq<char>, y: Seq<char>, z: Seq<char>, args: Seq<(Seq<char>, Seq<char>)>)
    requires
        brace_free(x),
        brace_free(y),
        brace_free(z),
        args.len() >= 2,
    ensures
        format_spec(x + seq!['{', '}'] + y + seq!['{', '}'] + z, args) == x + args[0].1 + y + args[1].1 + z,
{
    let s = x + seq!['{', '}'] + y + seq!['{', '}'] + z;
    let a = x.len() as int;
    let b = a + 2 + y.len();
    assert forall|i: int| 0 <= i < a implies #[trigger] s[i] != '{' && s[i] != '}' by {
        assert(s[i] == x[i]);
    }
    assert(s[a] == '{' && s[a + 1] == '}');
    lemma_render_next_placeholder(s, args, 0, a, 0);
    assert forall|i: int| a + 2 <= i < b implies #[trigger] s[i] != '{' && s[i] != '}' by {
        assert(s[i] == y[i - a - 2]);
    }
    assert(s[b] == '{' && s[b + 1] == '}');
    lemma_render_next_placeholder(s, args, a + 2, b, 1);
    assert forall|i: int| b + 2 <= i < s.len() implies #[trigger] s[i] != '{' && s[i] != '}' by {
        assert(s[i] == z[i - b - 2]);
    }
    lemma_render_free_tail(s, args, b + 2, 2);
    assert(s.subrange(0, a) == x);
    assert(s.subrange(a + 2, b) == y);
    assert(s.subrange(b + 2, s.len() as int) == z);
}

/// Law: a placeholder written with doubled braces, `{{0}}`, between texts
/// without braces, is kept as the text `{0}` and takes no argument.
pub proof fn law_doubled_braces_around_placeholder(x: Seq<char>, y: Seq<char>, args: Seq<(Seq<char>, Seq<char>)>)
    requires
        brace_free(x),
        brace_free(y),
    ensures
        format_spec(x + seq!['{', '{', '0', '}', '}'] + y, args) == x + seq!['{', '0', '}'] + y,
{
    let mid = seq!['{', '{', '0', '}', '}'];
    let s = x + mid + y;
    let n = x.len() as int;
    lemma_free_prefix(x, mid, y);
    assert(s[n] == '{' && s[n + 1] == '{' && s[n + 2] == '0' && s[n + 3] == '}' && s[n + 4] == '}');
    assert(next_brace(s, n) == n);
    assert(next_brace(s, n + 3) == n + 3);
    assert(next_brace(s, n + 2) == n + 3);
    lemma_render_free_tail(s, args, n + 5, 0);
    assert(render(s, args, n + 2, 0) == s.subrange(n + 2, n + 4) + render(s, args, n + 5, 0));
    assert(s.subrange(0, n + 1) == x + seq!['{']);
    assert(s.subrange(n + 2, n + 4) == seq!['0', '}']);
    assert(s.subrange(n + 5, s.len() as int) == y);
    assert(x + seq!['{'] + (seq!['0', '}'] + y) =~= x + seq!['{', '0', '}'] + y);
}

} // verus!
