//! Checks of MO translation files made before they are handed to the
//! gettext parser: where the file's header sits, whether its plural rule
//! lies in the class of rules that the parser reads without fault, and
//! whether that rule never takes a remainder by zero.
use vstd::prelude::*;

verus! {

// ---------------------------------------------------------------------------
// Reading the file's tables

/// The byte order of an MO file by its magic number: `Some(true)` for
/// little-endian, `Some(false)` for big-endian, `None` for no MO file.
pub open spec fn mo_byte_order(d: Seq<u8>) -> Option<bool> {
    if d.len() < 4 {
        None
    } else if d[0] == 0xde && d[1] == 0x12 && d[2] == 0x04 && d[3] == 0x95 {
        Some(true)
    } else if d[0] == 0x95 && d[1] == 0x04 && d[2] == 0x12 && d[3] == 0xde {
        Some(false)
    } else {
        None
    }
}

/// The 32-bit number stored at `at` in the byte order `little`.
pub open spec fn u32_at(d: Seq<u8>, at: int, little: bool) -> nat {
    if little {
        (d[at] as nat) + 256 * (d[at + 1] as nat) + 65536 * (d[at + 2] as nat) + 16777216 * (d[at + 3] as nat)
    } else {
        (d[at + 3] as nat) + 256 * (d[at + 2] as nat) + 65536 * (d[at + 1] as nat) + 16777216 * (d[at] as nat)
    }
}

/// The index of the first NUL byte of `s` at or after `k`, or `s.len()`.
pub open spec fn nul_index(s: Seq<u8>, k: int) -> int
    decreases s.len() - k,
{
    if k >= s.len() {
        s.len() as int
    } else if s[k] == 0 {
        k
    } else {
        nul_index(s, k + 1)
    }
}

/// The header of an MO file: the bytes of the first translated string up
/// to its first NUL byte; `None` where the file holds no first string that
/// the parser would read (too short, no magic number, no string, or a
/// first translation outside the file).
pub open spec fn mo_header(d: Seq<u8>) -> Option<Seq<u8>> {
    if d.len() < 28 {
        None
    } else {
        match mo_byte_order(d) {
            None => None,
            Some(le) => {
                let count = u32_at(d, 8, le);
                let tt = u32_at(d, 16, le);
                if count == 0 || tt + 8 > d.len() {
                    None
                } else {
                    let len = u32_at(d, tt as int, le);
                    let off = u32_at(d, (tt + 4) as int, le);
                    if off + len + 1 > d.len() {
                        None
                    } else {
                        let seg = d.subrange(off as int, (off + len) as int);
                        Some(seg.take(nul_index(seg, 0)))
                    }
                }
            },
        }
    }
}

/// Whether every string-table entry that lies inside the file gives an
/// offset and a length no larger than the file, so that the parser's sums
/// of the two do not overflow.
pub open spec fn mo_entries_fit(d: Seq<u8>) -> bool {
    d.len() < 28 || match mo_byte_order(d) {
        None => true,
        Some(le) => {
            let count = u32_at(d, 8, le);
            let ot = u32_at(d, 12, le);
            let tt = u32_at(d, 16, le);
            forall|i: int| #![trigger (8 * i)] 0 <= i < count ==>
                (ot + 8 * i + 8 <= d.len() ==> u32_at(d, ot + 8 * i, le) <= d.len() && u32_at(d, ot + 8 * i + 4, le) <= d.len())
                && (tt + 8 * i + 8 <= d.len() ==> u32_at(d, tt + 8 * i, le) <= d.len() && u32_at(d, tt + 8 * i + 4, le) <= d.len())
        },
    }
}

// ---------------------------------------------------------------------------
// The header's plural rule

/// The state of a left-to-right scan of a header.
#[derive(Clone, Copy)]
pub struct HeaderScan {
    /// Every byte so far is ASCII.
    pub ascii: bool,
    /// Every `:` so far is the first of its line, or follows a `?` with
    /// only spaces and digits between.
    pub colons_ok: bool,
    /// A `:` was seen on the current line.
    pub seen_colon: bool,
    /// Since the last `?` of the line there were only spaces and digits.
    pub after_question: bool,
    /// Every `(` so far follows a `=` (spaces aside) and opens a group that
    /// closes on its line before any `;`, with no `(` inside; every `)`
    /// closes such a group and is followed, spaces aside, by `;`, a line
    /// end or the end of the header.
    pub parens_ok: bool,
    /// The last byte of the line that was not a space (0 for none).
    pub last_non_space: u8,
    /// A group is open.
    pub in_group: bool,
    /// A group was closed and only spaces followed.
    pub pending_close: bool,
    /// The number of operator bytes (`!=<>&|%?:`), counted up to 1000.
    pub ops: u32,
    /// Every `%` so far is followed, spaces aside, by one to nine digits not
    /// all zero, then, spaces aside, by an operator byte other than `%`, a
    /// `)`, a `;` or a line end.
    pub rem_ok: bool,
    /// Where the scan of the last `%` stands: 0 done, 1 before its digits,
    /// 2 in its digits, 3 after them.
    pub mod_phase: u8,
    /// The number of digits after the last `%`, counted up to 10.
    pub mod_digits: u8,
    /// One of those digits is not zero.
    pub mod_nonzero: bool,
}

/// The state before any byte.
pub open spec fn scan_start() -> HeaderScan {
    HeaderScan {
        ascii: true, colons_ok: true, seen_colon: false, after_question: false,
        parens_ok: true, last_non_space: 0, in_group: false, pending_close: false,
        ops: 0, rem_ok: true, mod_phase: 0, mod_digits: 0, mod_nonzero: false,
    }
}

/// Whether `b` is a decimal digit.
pub open spec fn is_digit_byte(b: u8) -> bool {
    48 <= b <= 57
}

/// Whether `b` is one of the operator bytes `!=<>&|%?:`.
pub open spec fn is_op_byte(b: u8) -> bool {
    b == 33 || b == 61 || b == 60 || b == 62 || b == 38 || b == 124 || b == 37 || b == 63 || b == 58
}

/// Whether `b` may follow the number after a `%`: an operator byte other
/// than `%`, `)`, `;` or a line end.
pub open spec fn ends_remainder(b: u8) -> bool {
    (is_op_byte(b) && b != 37) || b == 41 || b == 59 || b == 10
}

/// The remainder part of a scan step: phase, digit count, nonzero flag and
/// whether all is still well.
pub open spec fn mod_step(phase: u8, digits: u8, nonzero: bool, ok: bool, b: u8) -> (u8, u8, bool, bool) {
    if phase == 1 {
        if b == 32 {
            (1, digits, nonzero, ok)
        } else if is_digit_byte(b) {
            (2, 1, b != 48, ok)
        } else {
            (if b == 37 { 1 } else { 0 }, 0, false, false)
        }
    } else if phase == 2 && is_digit_byte(b) {
        let d = if digits < 10 { (digits + 1) as u8 } else { 10 };
        (2, d, nonzero || b != 48, ok && d <= 9)
    } else if phase == 2 || phase == 3 {
        let ok2 = ok && (phase == 3 || nonzero);
        if b == 32 {
            (3, digits, nonzero, ok2)
        } else if ends_remainder(b) {
            (0, 0, false, ok2)
        } else if b == 37 {
            (1, 0, false, false)
        } else {
            (0, 0, false, false)
        }
    } else if b == 37 {
        (1, 0, false, ok)
    } else {
        (0, 0, false, ok)
    }
}

/// One step of the scan, over the byte `b`.
pub open spec fn scan_step(s: HeaderScan, b: u8) -> HeaderScan {
    let colons_ok = s.colons_ok && (b != 58 || !s.seen_colon || s.after_question);
    let seen_colon = if b == 10 { false } else { s.seen_colon || b == 58 };
    let after_question = if b == 63 { true } else if b == 32 || is_digit_byte(b) { s.after_question } else { false };
    let close_ok = !s.pending_close || b == 32 || b == 59 || b == 10;
    let open_ok = b != 40 || (!s.in_group && s.last_non_space == 61);
    let shut_ok = b != 41 || s.in_group;
    let inside_ok = !s.in_group || (b != 59 && b != 10 && b != 40);
    let parens_ok = s.parens_ok && close_ok && open_ok && shut_ok && inside_ok;
    let in_group = if b == 40 { true } else if b == 41 { false } else { s.in_group };
    let pending_close = if b == 41 { true } else { s.pending_close && b == 32 };
    let last_non_space = if b == 10 { 0 } else if b == 32 { s.last_non_space } else { b };
    let ops = if is_op_byte(b) && s.ops < 1000 { (s.ops + 1) as u32 } else { s.ops };
    let m = mod_step(s.mod_phase, s.mod_digits, s.mod_nonzero, s.rem_ok, b);
    HeaderScan {
        ascii: s.ascii && b < 128,
        colons_ok, seen_colon, after_question,
        parens_ok, last_non_space, in_group, pending_close,
        ops, rem_ok: m.3, mod_phase: m.0, mod_digits: m.1, mod_nonzero: m.2,
    }
}

/// The scan of the header `h`.
pub open spec fn header_scan(h: Seq<u8>) -> HeaderScan
    decreases h.len(),
{
    if h.len() == 0 {
        scan_start()
    } else {
        scan_step(header_scan(h.drop_last()), h.last())
    }
}

/// Whether the plural rule of the header `h` lies in the class that the
/// parser reads without fault: the header is ASCII with at most 512
/// operator bytes, every `:` is the first of its line or closes a `? n :`
/// branch, and parentheses only wrap the end of a value right after a `=`.
pub open spec fn header_parse_safe(h: Seq<u8>) -> bool {
    let s = header_scan(h);
    s.ascii && s.colons_ok && s.parens_ok && !s.in_group && s.ops <= 512
}

/// Whether every `%` of the header `h` takes its remainder by a literal
/// number that is not zero.
pub open spec fn header_remainders_nonzero(h: Seq<u8>) -> bool {
    let s = header_scan(h);
    s.rem_ok && s.mod_phase != 1 && !(s.mod_phase == 2 && !s.mod_nonzero)
}

/// Whether the gettext parser reads the MO file `d` without fault.
pub open spec fn mo_file_parse_safe(d: Seq<u8>) -> bool {
    &&& mo_entries_fit(d)
    &&& match mo_header(d) {
        Some(h) => header_parse_safe(h),
        None => true,
    }
}

/// Whether the plural rule of the MO file `d` never takes a remainder by
/// zero: it has no header, or its header's remainders are all by literal
/// numbers that are not zero.
pub open spec fn mo_plural_rule_total(d: Seq<u8>) -> bool {
    match mo_header(d) {
        Some(h) => header_remainders_nonzero(h),
        None => true,
    }
}

// ---------------------------------------------------------------------------
// Executable checks

fn read_u32(d: &[u8], at: usize, little: bool) -> (r: u64)
    requires
        at + 4 <= d@.len(),
    ensures
        r == u32_at(d@, at as int, little),
{
    let b0 = d[at] as u64;
    let b1 = d[at + 1] as u64;
    let b2 = d[at + 2] as u64;
    let b3 = d[at + 3] as u64;
    if little {
        b0 + 256 * b1 + 65536 * b2 + 16777216 * b3
    } else {
        b3 + 256 * b2 + 65536 * b1 + 16777216 * b0
    }
}

fn byte_order(d: &[u8]) -> (r: Option<bool>)
    ensures
        r == mo_byte_order(d@),
{
    if d.len() < 4 {
        None
    } else if d[0] == 0xde && d[1] == 0x12 && d[2] == 0x04 && d[3] == 0x95 {
        Some(true)
    } else if d[0] == 0x95 && d[1] == 0x04 && d[2] == 0x12 && d[3] == 0xde {
        Some(false)
    } else {
        None
    }
}

fn step(s: HeaderScan, b: u8) -> (r: HeaderScan)
    ensures
        r == scan_step(s, b),
{
    let colons_ok = s.colons_ok && (b != 58 || !s.seen_colon || s.after_question);
    let seen_colon = if b == 10 { false } else { s.seen_colon || b == 58 };
    let digit = 48 <= b && b <= 57;
    let after_question = if b == 63 { true } else if b == 32 || digit { s.after_question } else { false };
    let close_ok = !s.pending_close || b == 32 || b == 59 || b == 10;
    let open_ok = b != 40 || (!s.in_group && s.last_non_space == 61);
    let shut_ok = b != 41 || s.in_group;
    let inside_ok = !s.in_group || (b != 59 && b != 10 && b != 40);
    let parens_ok = s.parens_ok && close_ok && open_ok && shut_ok && inside_ok;
    let in_group = if b == 40 { true } else if b == 41 { false } else { s.in_group };
    let pending_close = if b == 41 { true } else { s.pending_close && b == 32 };
    let last_non_space = if b == 10 { 0 } else if b == 32 { s.last_non_space } else { b };
    let op = b == 33 || b == 61 || b == 60 || b == 62 || b == 38 || b == 124 || b == 37 || b == 63 || b == 58;
    let ops = if op && s.ops < 1000 { s.ops + 1 } else { s.ops };
    let ends = (op && b != 37) || b == 41 || b == 59 || b == 10;
    let (mod_phase, mod_digits, mod_nonzero, rem_ok) = if s.mod_phase == 1 {
        if b == 32 {
            (1u8, s.mod_digits, s.mod_nonzero, s.rem_ok)
        } else if digit {
            (2u8, 1u8, b != 48, s.rem_ok)
        } else {
            (if b == 37 { 1u8 } else { 0u8 }, 0u8, false, false)
        }
    } else if s.mod_phase == 2 && digit {
        let d: u8 = if s.mod_digits < 10 { s.mod_digits + 1 } else { 10 };
        (2u8, d, s.mod_nonzero || b != 48, s.rem_ok && d <= 9)
    } else if s.mod_phase == 2 || s.mod_phase == 3 {
        let ok2 = s.rem_ok && (s.mod_phase == 3 || s.mod_nonzero);
        if b == 32 {
            (3u8, s.mod_digits, s.mod_nonzero, ok2)
        } else if ends {
            (0u8, 0u8, false, ok2)
        } else if b == 37 {
            (1u8, 0u8, false, false)
        } else {
            (0u8, 0u8, false, false)
        }
    } else if b == 37 {
        (1u8, 0u8, false, s.rem_ok)
    } else {
        (0u8, 0u8, false, s.rem_ok)
    };
    HeaderScan {
        ascii: s.ascii && b < 128,
        colons_ok, seen_colon, after_question,
        parens_ok, last_non_space, in_group, pending_close,
        ops, rem_ok, mod_phase, mod_digits, mod_nonzero,
    }
}

/// The scan of the header of `d`, where it has one.
fn scan_header(d: &[u8]) -> (r: Option<HeaderScan>)
    ensures
        match mo_header(d@) {
            Some(h) => r == Some(header_scan(h)),
            None => r is None,
        },
{
    if d.len() < 28 {
        return None;
    }
    let le = match byte_order(d) {
        None => return None,
        Some(le) => le,
    };
    let count = read_u32(d, 8, le);
    let tt = read_u32(d, 16, le);
    let n = d.len() as u64;
    if count == 0 || tt + 8 > n {
        return None;
    }
    let tpos = tt as usize;
    let len = read_u32(d, tpos, le);
    let off = read_u32(d, tpos + 4, le);
    if off + len + 1 > n {
        return None;
    }
    let start = off as usize;
    let stop = (off + len) as usize;
    let ghost seg = d@.subrange(start as int, stop as int);
    let mut k: usize = start;
    let mut s = HeaderScan {
        ascii: true, colons_ok: true, seen_colon: false, after_question: false,
        parens_ok: true, last_non_space: 0, in_group: false, pending_close: false,
        ops: 0, rem_ok: true, mod_phase: 0, mod_digits: 0, mod_nonzero: false,
    };
    proof {
        assert(seg.take(0) =~= Seq::<u8>::empty());
    }
    while k < stop && d[k] != 0
        invariant
            start <= k <= stop,
            stop <= d@.len(),
            seg == d@.subrange(start as int, stop as int),
            nul_index(seg, 0) == nul_index(seg, k - start),
            s == header_scan(seg.take(k - start)),
        decreases stop - k,
    {
        let b = d[k];
        proof {
            assert(seg[k - start] == b);
            assert(seg.take(k - start + 1).drop_last() =~= seg.take(k - start));
        }
        s = step(s, b);
        k = k + 1;
    }
    proof {
        if k < stop {
            assert(seg[k - start] == 0);
        }
        assert(nul_index(seg, k - start) == k - start);
    }
    Some(s)
}

/// Whether every string-table entry of `d` inside the file fits.
fn entries_fit(d: &[u8]) -> (r: bool)
    ensures
        r == mo_entries_fit(d@),
{
    if d.len() < 28 {
        return true;
    }
    let le = match byte_order(d) {
        None => return true,
        Some(le) => le,
    };
    let count = read_u32(d, 8, le);
    let ot = read_u32(d, 12, le);
    let tt = read_u32(d, 16, le);
    let n = d.len() as u64;
    let ghost dd = d@;
    let mut i: u64 = 0;
    while i < count && (ot + 8 * i + 8 <= n || tt + 8 * i + 8 <= n)
        invariant
            d@ == dd,
            dd.len() == d.len(),
            dd.len() >= 28,
            n == dd.len(),
            mo_byte_order(dd) == Some(le),
            count == u32_at(dd, 8, le),
            ot == u32_at(dd, 12, le),
            tt == u32_at(dd, 16, le),
            count < 0x1_0000_0000,
            ot < 0x1_0000_0000,
            tt < 0x1_0000_0000,
            i <= count,
            forall|j: int| #![trigger (8 * j)] 0 <= j < i ==>
                (ot + 8 * j + 8 <= dd.len() ==> u32_at(dd, ot + 8 * j, le) <= dd.len() && u32_at(dd, ot + 8 * j + 4, le) <= dd.len())
                && (tt + 8 * j + 8 <= dd.len() ==> u32_at(dd, tt + 8 * j, le) <= dd.len() && u32_at(dd, tt + 8 * j + 4, le) <= dd.len()),
        decreases count - i,
    {
        if ot + 8 * i + 8 <= n {
            let p = (ot + 8 * i) as usize;
            let a = read_u32(d, p, le);
            let b = read_u32(d, p + 4, le);
            if a > n || b > n {
                assert(!(u32_at(dd, ot + 8 * i, le) <= dd.len() && u32_at(dd, ot + 8 * i + 4, le) <= dd.len()));
                return false;
            }
        }
        if tt + 8 * i + 8 <= n {
            let p = (tt + 8 * i) as usize;
            let a = read_u32(d, p, le);
            let b = read_u32(d, p + 4, le);
            if a > n || b > n {
                assert(!(u32_at(dd, tt + 8 * i, le) <= dd.len() && u32_at(dd, tt + 8 * i + 4, le) <= dd.len()));
                return false;
            }
        }
        i = i + 1;
    }
    proof {
        assert forall|j: int| #![trigger (8 * j)] 0 <= j < count implies
            (ot + 8 * j + 8 <= dd.len() ==> u32_at(dd, ot + 8 * j, le) <= dd.len() && u32_at(dd, ot + 8 * j + 4, le) <= dd.len())
            && (tt + 8 * j + 8 <= dd.len() ==> u32_at(dd, tt + 8 * j, le) <= dd.len() && u32_at(dd, tt + 8 * j + 4, le) <= dd.len()) by {
            if j >= i {
                assert(8 * j >= 8 * i);
            }
        }
    }
    true
}

/// Whether the gettext parser reads the MO file `data` without fault.
pub fn is_safe_mo_file(data: &[u8]) -> (r: bool)
    ensures
        r == mo_file_parse_safe(data@),
{
    let fit = entries_fit(data);
    match scan_header(data) {
        None => fit,
        Some(s) => fit && s.ascii && s.colons_ok && s.parens_ok && !s.in_group && s.ops <= 512,
    }
}

/// Whether the plural rule of the MO file `data` never takes a remainder
/// by zero.
pub fn has_total_plural_rule(data: &[u8]) -> (r: bool)
    ensures
        r == mo_plural_rule_total(data@),
{
    match scan_header(data) {
        None => true,
        Some(s) => s.rem_ok && s.mod_phase != 1 && !(s.mod_phase == 2 && !s.mod_nonzero),
    }
}

} // verus!
