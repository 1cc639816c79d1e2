use vstd::prelude::*;
use vstd::string::*;
use crate::types::{spec_string_views, spec_pair_views};

verus! {

// ---------------------------------------------------------------------------
// Character scans. Each spec scan walks the sequence one position at a time,
// which lets an executable loop mirror it step for step.
// ---------------------------------------------------------------------------

/// The index of the first occurrence of `c` in `s` at or after `i`, or
/// `s.len()` if there is none.
pub open spec fn scan_for(s: Seq<char>, c: char, i: int) -> int
    decreases s.len() - i,
{
    if i < 0 || i >= s.len() {
        s.len() as int
    } else if s[i] == c {
        i
    } else {
        scan_for(s, c, i + 1)
    }
}

/// What the forward scan finds: the nearest occurrence, with nothing equal
/// to `c` before it.
pub proof fn lemma_scan_for(s: Seq<char>, c: char, i: int)
    requires
        0 <= i <= s.len(),
    ensures
        i <= scan_for(s, c, i) <= s.len(),
        scan_for(s, c, i) < s.len() ==> s[scan_for(s, c, i)] == c,
        forall|j: int| i <= j < scan_for(s, c, i) ==> s[j] != c,
    decreases s.len() - i,
{
    if i < s.len() && s[i] != c {
        lemma_scan_for(s, c, i + 1);
    }
}

/// A position with no occurrence before it pins the forward scan down.
pub proof fn lemma_scan_for_pins(s: Seq<char>, c: char, i: int, k: int)
    requires
        0 <= i <= k <= s.len(),
        forall|j: int| i <= j < k ==> s[j] != c,
        k < s.len() ==> s[k] == c,
    ensures
        scan_for(s, c, i) == k,
{
    lemma_scan_for(s, c, i);
    let r = scan_for(s, c, i);
    if r < k {
        assert(s[r] != c);
    }
    if r > k {
        assert(k < s.len());
        assert(s[k] != c);
    }
}

/// The index of the last occurrence of `c` in `s` at or before `i`, or `-1`
/// if there is none.
pub open spec fn scan_back_for(s: Seq<char>, c: char, i: int) -> int
    decreases i + 1,
{
    if i < 0 || i >= s.len() {
        -1
    } else if s[i] == c {
        i
    } else {
        scan_back_for(s, c, i - 1)
    }
}

/// What the backward scan finds: the nearest occurrence looking down, with
/// nothing equal to `c` above it.
pub proof fn lemma_scan_back_for(s: Seq<char>, c: char, i: int)
    requires
        -1 <= i < s.len(),
    ensures
        -1 <= scan_back_for(s, c, i) <= i,
        scan_back_for(s, c, i) >= 0 ==> s[scan_back_for(s, c, i)] == c,
        forall|j: int| scan_back_for(s, c, i) < j <= i ==> s[j] != c,
    decreases i + 1,
{
    if 0 <= i && s[i] != c {
        lemma_scan_back_for(s, c, i - 1);
    }
}

/// A position with no occurrence above it pins the backward scan down.
pub proof fn lemma_scan_back_for_pins(s: Seq<char>, c: char, i: int, k: int)
    requires
        -1 <= k <= i < s.len(),
        forall|j: int| k < j <= i ==> s[j] != c,
        k >= 0 ==> s[k] == c,
    ensures
        scan_back_for(s, c, i) == k,
{
    lemma_scan_back_for(s, c, i);
    let r = scan_back_for(s, c, i);
    if r > k {
        assert(s[r] != c);
    }
    if r < k {
        assert(k >= 0);
        assert(s[k] != c);
    }
}

// ---------------------------------------------------------------------------
// Line splitting, as Rust's `lines` does it: split at each line feed,
// dropping a carriage return that stands immediately before one; a final
// line needs no terminator, and a terminator at the very end opens no
// further line.
// ---------------------------------------------------------------------------

/// A line body with a single trailing carriage return removed.
pub open spec fn spec_chop_cr(l: Seq<char>) -> Seq<char> {
    if l.len() > 0 && l[l.len() - 1] == '\r' {
        l.subrange(0, l.len() - 1)
    } else {
        l
    }
}

/// The lines of `s`.
pub open spec fn spec_lines(s: Seq<char>) -> Seq<Seq<char>>
    decreases s.len(),
{
    if s.len() == 0 {
        Seq::empty()
    } else {
        let i = scan_for(s, '\n', 0);
        if 0 <= i < s.len() {
            seq![spec_chop_cr(s.subrange(0, i))] + spec_lines(s.subrange(i + 1, s.len() as int))
        } else {
            seq![s]
        }
    }
}

/// Splits `s` into its lines.
pub fn split_lines(s: &str) -> (r: Vec<String>)
    ensures
        spec_string_views(r@) == spec_lines(s@),
{
    let n = s.unicode_len();
    let mut out: Vec<String> = Vec::new();
    let mut start: usize = 0;
    let mut i: usize = 0;
    proof {
        assert(s@.subrange(0, n as int) =~= s@);
        assert(spec_string_views(out@) + spec_lines(s@) =~= spec_lines(s@));
    }
    while i < n
        invariant
            start <= i <= n,
            n == s@.len(),
            forall|j: int| start <= j < i ==> s@[j] != '\n',
            spec_lines(s@) == spec_string_views(out@) + spec_lines(s@.subrange(start as int, n as int)),
        decreases n - i,
    {
        if s.get_char(i) == '\n' {
            let end = if i > start && s.get_char(i - 1) == '\r' { i - 1 } else { i };
            let line = s.substring_char(start, end).to_owned();
            proof {
                let t = s@.subrange(start as int, n as int);
                lemma_scan_for_pins(t, '\n', 0, i - start);
                assert(t.subrange(0, i - start) =~= s@.subrange(start as int, i as int));
                assert(spec_chop_cr(t.subrange(0, i - start)) =~= line@);
                assert(t.subrange(i - start + 1, t.len() as int)
                    =~= s@.subrange(i + 1, n as int));
                assert(spec_string_views(out@.push(line))
                    =~= spec_string_views(out@).push(line@));
                assert(spec_string_views(out@).push(line@) + spec_lines(s@.subrange(i + 1, n as int))
                    =~= spec_string_views(out@) + spec_lines(t));
            }
            out.push(line);
            start = i + 1;
        }
        i += 1;
    }
    if start < n {
        let line = s.substring_char(start, n).to_owned();
        proof {
            let t = s@.subrange(start as int, n as int);
            lemma_scan_for_pins(t, '\n', 0, t.len() as int);
            assert(spec_lines(t) =~= seq![t]);
            assert(t =~= line@);
            assert(spec_string_views(out@.push(line))
                =~= spec_string_views(out@).push(line@));
            assert(spec_string_views(out@) + seq![line@]
                =~= spec_string_views(out@).push(line@));
        }
        out.push(line);
    } else {
        proof {
            assert(s@.subrange(start as int, n as int) =~= Seq::<char>::empty());
            assert(spec_string_views(out@) + Seq::<Seq<char>>::empty()
                =~= spec_string_views(out@));
        }
    }
    out
}

// ---------------------------------------------------------------------------
// Whitespace-separated tokens, as Rust's `split_whitespace` yields them.
// Only the second token is ever needed: the status code of a status line.
// ---------------------------------------------------------------------------

/// The Unicode White_Space characters: what whitespace splitting splits at.
pub open spec fn spec_is_ws(c: char) -> bool {
    c == ' ' || c == '\t' || c == '\n' || c == '\r' || c == '\u{b}' || c == '\u{c}'
        || c == '\u{85}' || c == '\u{a0}' || c == '\u{1680}'
        || (0x2000 <= c as u32 && c as u32 <= 0x200a)
        || c == '\u{2028}' || c == '\u{2029}' || c == '\u{202f}' || c == '\u{205f}'
        || c == '\u{3000}'
}

/// Decides `spec_is_ws`.
pub fn is_ws_char(c: char) -> (r: bool)
    ensures
        r == spec_is_ws(c),
{
    c == ' ' || c == '\t' || c == '\n' || c == '\r' || c == '\u{b}' || c == '\u{c}'
        || c == '\u{85}' || c == '\u{a0}' || c == '\u{1680}'
        || (0x2000 <= c as u32 && c as u32 <= 0x200a)
        || c == '\u{2028}' || c == '\u{2029}' || c == '\u{202f}' || c == '\u{205f}'
        || c == '\u{3000}'
}

/// The index of the first whitespace character at or after `i`, or `s.len()`
/// if there is none.
pub open spec fn scan_ws(s: Seq<char>, i: int) -> int
    decreases s.len() - i,
{
    if i < 0 || i >= s.len() {
        s.len() as int
    } else if spec_is_ws(s[i]) {
        i
    } else {
        scan_ws(s, i + 1)
    }
}

/// A position with no whitespace before it pins the whitespace scan down.
pub proof fn lemma_scan_ws_pins(s: Seq<char>, i: int, k: int)
    requires
        0 <= i <= k <= s.len(),
        forall|j: int| i <= j < k ==> !spec_is_ws(s[j]),
        k < s.len() ==> spec_is_ws(s[k]),
    ensures
        scan_ws(s, i) == k,
    decreases k - i,
{
    if i < k {
        lemma_scan_ws_pins(s, i + 1, k);
    }
}

/// The index of the first non-whitespace character at or after `i`, or
/// `s.len()` if there is none.
pub open spec fn scan_non_ws(s: Seq<char>, i: int) -> int
    decreases s.len() - i,
{
    if i < 0 || i >= s.len() {
        s.len() as int
    } else if !spec_is_ws(s[i]) {
        i
    } else {
        scan_non_ws(s, i + 1)
    }
}

/// A position with only whitespace before it pins the non-whitespace scan
/// down.
pub proof fn lemma_scan_non_ws_pins(s: Seq<char>, i: int, k: int)
    requires
        0 <= i <= k <= s.len(),
        forall|j: int| i <= j < k ==> spec_is_ws(s[j]),
        k < s.len() ==> !spec_is_ws(s[k]),
    ensures
        scan_non_ws(s, i) == k,
    decreases k - i,
{
    if i < k {
        lemma_scan_non_ws_pins(s, i + 1, k);
    }
}

/// Walks to the first whitespace character at or after `from`.
fn scan_ws_exec(s: &str, from: usize) -> (r: usize)
    requires
        from <= s@.len(),
    ensures
        from <= r <= s@.len(),
        r as int == scan_ws(s@, from as int),
{
    let n = s.unicode_len();
    let mut i: usize = from;
    while i < n
        invariant
            from <= i <= n,
            n == s@.len(),
            forall|j: int| from <= j < i ==> !spec_is_ws(s@[j]),
        decreases n - i,
    {
        if is_ws_char(s.get_char(i)) {
            proof {
                lemma_scan_ws_pins(s@, from as int, i as int);
            }
            return i;
        }
        i += 1;
    }
    proof {
        lemma_scan_ws_pins(s@, from as int, n as int);
    }
    n
}

/// Walks to the first non-whitespace character at or after `from`.
fn scan_non_ws_exec(s: &str, from: usize) -> (r: usize)
    requires
        from <= s@.len(),
    ensures
        from <= r <= s@.len(),
        r as int == scan_non_ws(s@, from as int),
{
    let n = s.unicode_len();
    let mut i: usize = from;
    while i < n
        invariant
            from <= i <= n,
            n == s@.len(),
            forall|j: int| from <= j < i ==> spec_is_ws(s@[j]),
        decreases n - i,
    {
        if !is_ws_char(s.get_char(i)) {
            proof {
                lemma_scan_non_ws_pins(s@, from as int, i as int);
            }
            return i;
        }
        i += 1;
    }
    proof {
        lemma_scan_non_ws_pins(s@, from as int, n as int);
    }
    n
}

/// The second whitespace-separated token of `s`, if it has two.
pub open spec fn spec_second_token(s: Seq<char>) -> Option<Seq<char>> {
    let a = scan_non_ws(s, 0);
    let b = scan_ws(s, a);
    let c = scan_non_ws(s, b);
    if c < s.len() {
        Some(s.subrange(c, scan_ws(s, c)))
    } else {
        None
    }
}

/// The view of an optional owned string.
pub open spec fn spec_opt_view(o: Option<String>) -> Option<Seq<char>> {
    match o {
        Some(s) => Some(s@),
        None => None,
    }
}

/// Extracts the second whitespace-separated token of `line`, if it has two.
pub fn second_token(line: &str) -> (r: Option<String>)
    ensures
        spec_opt_view(r) == spec_second_token(line@),
{
    let n = line.unicode_len();
    let a = scan_non_ws_exec(line, 0);
    let b = scan_ws_exec(line, a);
    let c = scan_non_ws_exec(line, b);
    if c < n {
        let d = scan_ws_exec(line, c);
        let t = line.substring_char(c, d).to_owned();
        Some(t)
    } else {
        None
    }
}

// ---------------------------------------------------------------------------
// Decimal parsing with the exact acceptance of `u16` text parsing: an
// optional leading '+', then at least one ASCII digit, nothing else, and a
// value of at most 65535.
// ---------------------------------------------------------------------------

/// An ASCII decimal digit.
pub open spec fn spec_is_digit(c: char) -> bool {
    0x30 <= c as u32 && c as u32 <= 0x39
}

/// Whether every character is an ASCII decimal digit.
pub open spec fn spec_all_digits(ds: Seq<char>) -> bool {
    forall|j: int| 0 <= j < ds.len() ==> spec_is_digit(ds[j])
}

/// The value of a digit string, most significant digit first.
pub open spec fn spec_digits_val(ds: Seq<char>) -> int
    decreases ds.len(),
{
    if ds.len() == 0 {
        0
    } else {
        spec_digits_val(ds.drop_last()) * 10 + (ds.last() as u32 - 0x30)
    }
}

/// A digit string's value is never negative.
pub proof fn lemma_digits_val_nonneg(ds: Seq<char>)
    requires
        spec_all_digits(ds),
    ensures
        spec_digits_val(ds) >= 0,
    decreases ds.len(),
{
    if ds.len() > 0 {
        assert(spec_all_digits(ds.drop_last()));
        lemma_digits_val_nonneg(ds.drop_last());
    }
}

/// Extending a digit string can only grow its value.
pub proof fn lemma_digits_val_extend(ds: Seq<char>, k: int)
    requires
        0 <= k <= ds.len(),
        spec_all_digits(ds),
    ensures
        spec_digits_val(ds.subrange(0, k)) <= spec_digits_val(ds),
    decreases ds.len() - k,
{
    if k == ds.len() {
        assert(ds.subrange(0, k) =~= ds);
    } else {
        let shorter = ds.subrange(0, k);
        let longer = ds.subrange(0, k + 1);
        assert(longer.drop_last() =~= shorter);
        assert(spec_all_digits(shorter));
        lemma_digits_val_nonneg(shorter);
        lemma_digits_val_extend(ds, k + 1);
    }
}

/// The result of parsing `t` the way `u16` text parsing does.
pub open spec fn spec_parse_u16(t: Seq<char>) -> Option<u16> {
    let ds = if t.len() > 0 && t[0] == '+' {
        t.drop_first()
    } else {
        t
    };
    if ds.len() > 0 && spec_all_digits(ds) && spec_digits_val(ds) <= 65535 {
        Some(spec_digits_val(ds) as u16)
    } else {
        None
    }
}

/// Parses `t` with the exact acceptance of `u16` text parsing.
pub fn parse_u16(t: &str) -> (r: Option<u16>)
    ensures
        r == spec_parse_u16(t@),
{
    let n = t.unicode_len();
    let offset: usize = if n > 0 && t.get_char(0) == '+' { 1 } else { 0 };
    let ghost ds = if t@.len() > 0 && t@[0] == '+' { t@.drop_first() } else { t@ };
    proof {
        assert(ds =~= t@.subrange(offset as int, n as int));
    }
    if offset == n {
        return None;
    }
    let mut acc: u32 = 0;
    let mut i: usize = offset;
    while i < n
        invariant
            offset <= i <= n,
            n == t@.len(),
            ds == t@.subrange(offset as int, n as int),
            ds == (if t@.len() > 0 && t@[0] == '+' { t@.drop_first() } else { t@ }),
            ds.len() > 0,
            forall|j: int| offset <= j < i ==> spec_is_digit(t@[j]),
            acc <= 65535,
            acc as int == spec_digits_val(t@.subrange(offset as int, i as int)),
        decreases n - i,
    {
        let c = t.get_char(i);
        let u = c as u32;
        if u < 0x30 || u > 0x39 {
            proof {
                assert(!spec_is_digit(t@[i as int]));
                assert(ds[i - offset] == t@[i as int]);
                assert(0 <= i - offset < ds.len());
                assert(!spec_all_digits(ds));
                assert(spec_parse_u16(t@) is None);
            }
            return None;
        }
        proof {
            let prefix = t@.subrange(offset as int, i as int);
            let grown = t@.subrange(offset as int, i + 1);
            assert(grown.drop_last() =~= prefix);
            assert(grown.last() == t@[i as int]);
            assert(spec_digits_val(grown)
                == spec_digits_val(prefix) * 10 + (t@[i as int] as u32 - 0x30));
        }
        acc = acc * 10 + (u - 0x30);
        i += 1;
        if acc > 65535 {
            proof {
                let prefix = t@.subrange(offset as int, i as int);
                assert(acc as int == spec_digits_val(prefix));
                if spec_all_digits(ds) {
                    assert(prefix =~= ds.subrange(0, i - offset));
                    lemma_digits_val_extend(ds, i - offset);
                    assert(spec_digits_val(ds) > 65535);
                }
                assert(spec_parse_u16(t@) is None);
            }
            return None;
        }
    }
    proof {
        assert(t@.subrange(offset as int, n as int) =~= ds);
        assert(forall|j: int| 0 <= j < ds.len() ==> ds[j] == t@[j + offset]);
        assert(spec_all_digits(ds));
    }
    Some(acc as u16)
}

/// The status code of a status line: its second token read as a `u16`, with
/// 0 for a missing or unreadable token.
pub open spec fn spec_status_code_of_line(line: Seq<char>) -> u16 {
    match spec_second_token(line) {
        Some(t) => match spec_parse_u16(t) {
            Some(v) => v,
            None => 0,
        },
        None => 0,
    }
}

/// The status code of a whole raw response: read from its first line, or 0
/// when there is none.
pub open spec fn spec_status_code(raw: Seq<char>) -> u16 {
    let ls = spec_lines(raw);
    if ls.len() > 0 {
        spec_status_code_of_line(ls[0])
    } else {
        spec_status_code_of_line(Seq::empty())
    }
}

/// Reads the status code out of one status line.
pub fn status_code_of_line(line: &str) -> (r: u16)
    ensures
        r == spec_status_code_of_line(line@),
{
    match second_token(line) {
        Some(t) => match parse_u16(t.as_str()) {
            Some(v) => v,
            None => 0,
        },
        None => 0,
    }
}

// ---------------------------------------------------------------------------
// Header lines. Every line after the status line up to the first empty line
// is a header; each is split at the first ": ". A line without that
// separator is all name and no value.
// ---------------------------------------------------------------------------

/// The index of the first occurrence of the separator ": " at or after `i`,
/// or `s.len()` if there is none.
pub open spec fn scan_sep(s: Seq<char>, i: int) -> int
    decreases s.len() - i,
{
    if i < 0 || i + 1 >= s.len() {
        s.len() as int
    } else if s[i] == ':' && s[i + 1] == ' ' {
        i
    } else {
        scan_sep(s, i + 1)
    }
}

/// What the separator scan finds: the nearest separator, with none before
/// it.
pub proof fn lemma_scan_sep(s: Seq<char>, i: int)
    requires
        0 <= i <= s.len(),
    ensures
        i <= scan_sep(s, i) <= s.len(),
        scan_sep(s, i) < s.len() ==> scan_sep(s, i) + 2 <= s.len() && s[scan_sep(s, i)] == ':'
            && s[scan_sep(s, i) + 1] == ' ',
        forall|j: int| i <= j < scan_sep(s, i) ==> !(j + 1 < s.len() && #[trigger] s[j] == ':'
            && s[j + 1] == ' '),
    decreases s.len() - i,
{
    if i + 1 < s.len() && !(s[i] == ':' && s[i + 1] == ' ') {
        lemma_scan_sep(s, i + 1);
    }
}

/// A position with no separator before it pins the separator scan down.
pub proof fn lemma_scan_sep_pins(s: Seq<char>, i: int, k: int)
    requires
        0 <= i <= k <= s.len(),
        forall|j: int| i <= j < k ==> !(j + 1 < s.len() && #[trigger] s[j] == ':' && s[j + 1]
            == ' '),
        k < s.len() ==> k + 1 < s.len() && s[k] == ':' && s[k + 1] == ' ',
    ensures
        scan_sep(s, i) == k,
    decreases k - i,
{
    if i < k {
        lemma_scan_sep_pins(s, i + 1, k);
    }
}

/// One header line split at its first ": ".
pub open spec fn spec_split_header(l: Seq<char>) -> (Seq<char>, Seq<char>) {
    let p = scan_sep(l, 0);
    if 0 <= p && p + 2 <= l.len() {
        (l.subrange(0, p), l.subrange(p + 2, l.len() as int))
    } else {
        (l, Seq::empty())
    }
}

/// Splits one header line at its first ": "; without one, the whole line is
/// the name and the value is empty.
pub fn split_header_line(line: &str) -> (r: (String, String))
    ensures
        (r.0@, r.1@) == spec_split_header(line@),
{
    let n = line.unicode_len();
    let mut i: usize = 0;
    while i < n
        invariant
            0 <= i <= n,
            n == line@.len(),
            forall|j: int| 0 <= j < i ==> !(j + 1 < n && #[trigger] line@[j] == ':' && line@[j
                + 1] == ' '),
        decreases n - i,
    {
        if i + 1 < n && line.get_char(i) == ':' && line.get_char(i + 1) == ' ' {
            proof {
                lemma_scan_sep_pins(line@, 0, i as int);
            }
            let name = line.substring_char(0, i).to_owned();
            let value = line.substring_char(i + 2, n).to_owned();
            return (name, value);
        }
        i += 1;
    }
    proof {
        lemma_scan_sep_pins(line@, 0, n as int);
    }
    (line.to_owned(), String::new())
}

/// The longest prefix of non-empty lines.
pub open spec fn spec_take_until_blank(ls: Seq<Seq<char>>) -> Seq<Seq<char>>
    decreases ls.len(),
{
    if ls.len() == 0 || ls[0].len() == 0 {
        Seq::empty()
    } else {
        seq![ls[0]] + spec_take_until_blank(ls.drop_first())
    }
}

/// A blank line (or the end) with only non-empty lines before it pins the
/// prefix down to exactly those lines.
pub proof fn lemma_take_until_blank_prefix(ls: Seq<Seq<char>>, k: int)
    requires
        0 <= k <= ls.len(),
        forall|j: int| 0 <= j < k ==> ls[j].len() > 0,
        k < ls.len() ==> ls[k].len() == 0,
    ensures
        spec_take_until_blank(ls) == ls.subrange(0, k),
    decreases k,
{
    if k == 0 {
        assert(ls.subrange(0, 0) =~= Seq::<Seq<char>>::empty());
    } else {
        let tail = ls.drop_first();
        assert(forall|j: int| 0 <= j < k - 1 ==> tail[j].len() > 0);
        lemma_take_until_blank_prefix(tail, k - 1);
        assert(seq![ls[0]] + tail.subrange(0, k - 1) =~= ls.subrange(0, k));
    }
}

/// The header lines of a split response: everything after the first line up
/// to the first empty line.
pub open spec fn spec_header_lines_of(ls: Seq<Seq<char>>) -> Seq<Seq<char>> {
    if ls.len() == 0 {
        Seq::empty()
    } else {
        spec_take_until_blank(ls.drop_first())
    }
}

/// The header lines of a raw response.
pub open spec fn spec_header_lines(raw: Seq<char>) -> Seq<Seq<char>> {
    spec_header_lines_of(spec_lines(raw))
}

/// The parsed header pairs of a raw response, one per header line, in line
/// order.
pub open spec fn spec_headers(raw: Seq<char>) -> Seq<(Seq<char>, Seq<char>)> {
    spec_header_lines(raw).map_values(|l: Seq<char>| spec_split_header(l))
}

/// Splits every header line of an already line-split response into a (name,
/// value) pair.
pub fn headers_of_lines(lines: &Vec<String>) -> (r: Vec<(String, String)>)
    ensures
        spec_pair_views(r@) == spec_header_lines_of(spec_string_views(lines@))
            .map_values(|l: Seq<char>| spec_split_header(l)),
{
    let ghost ls = spec_string_views(lines@);
    let mut out: Vec<(String, String)> = Vec::new();
    if lines.len() == 0 {
        proof {
            assert(spec_pair_views(out@) =~= Seq::<(Seq<char>, Seq<char>)>::empty());
        }
        return out;
    }
    let mut i: usize = 1;
    while i < lines.len() && !lines[i].as_str().is_empty()
        invariant
            1 <= i <= lines.len(),
            ls == spec_string_views(lines@),
            ls.len() == lines@.len(),
            forall|j: int| 1 <= j < i ==> ls[j].len() > 0,
            spec_pair_views(out@) == ls.subrange(1, i as int)
                .map_values(|l: Seq<char>| spec_split_header(l)),
        decreases lines.len() - i,
    {
        let pair = split_header_line(lines[i].as_str());
        proof {
            let mapped = ls.subrange(1, i as int).map_values(|l: Seq<char>| spec_split_header(l));
            assert(spec_pair_views(out@.push(pair)) =~= spec_pair_views(out@).push(
                (pair.0@, pair.1@),
            ));
            assert(ls.subrange(1, i + 1).map_values(|l: Seq<char>| spec_split_header(l))
                =~= mapped.push(spec_split_header(ls[i as int])));
        }
        out.push(pair);
        i += 1;
    }
    proof {
        let tail = ls.drop_first();
        assert(forall|j: int| 0 <= j < i - 1 ==> tail[j].len() > 0);
        lemma_take_until_blank_prefix(tail, i - 1);
        assert(tail.subrange(0, i - 1) =~= ls.subrange(1, i as int));
    }
    out
}

// ---------------------------------------------------------------------------
// Heuristic body extraction: the slice from the first '{' (or the start, if
// there is none) through the last '}' (or the end, if there is none). This
// is a brace heuristic, not a JSON parse.
// ---------------------------------------------------------------------------

/// Where the heuristic body slice begins.
pub open spec fn spec_body_start(s: Seq<char>) -> int {
    let i = scan_for(s, '{', 0);
    if i < s.len() {
        i
    } else {
        0
    }
}

/// Where the heuristic body slice ends.
pub open spec fn spec_body_end(s: Seq<char>) -> int {
    let j = scan_back_for(s, '}', s.len() - 1);
    if j >= 0 {
        j + 1
    } else {
        s.len() as int
    }
}

/// Whether the slice's ends stand in order. When the first '{' comes after
/// the last '}', the reversed range makes the raw byte slicing panic, so
/// that case is kept out of the extraction's domain.
pub open spec fn spec_body_in_bounds(s: Seq<char>) -> bool {
    spec_body_start(s) <= spec_body_end(s)
}

/// The heuristic body slice itself.
pub open spec fn spec_json_slice(s: Seq<char>) -> Seq<char>
    recommends
        spec_body_in_bounds(s),
{
    s.subrange(spec_body_start(s), spec_body_end(s))
}

/// Walks to the start of the heuristic body slice.
fn body_start_exec(s: &str) -> (r: usize)
    ensures
        r as int == spec_body_start(s@),
        r <= s@.len(),
{
    let n = s.unicode_len();
    let mut i: usize = 0;
    while i < n
        invariant
            0 <= i <= n,
            n == s@.len(),
            forall|j: int| 0 <= j < i ==> s@[j] != '{',
        decreases n - i,
    {
        if s.get_char(i) == '{' {
            proof {
                lemma_scan_for_pins(s@, '{', 0, i as int);
            }
            return i;
        }
        i += 1;
    }
    proof {
        lemma_scan_for_pins(s@, '{', 0, n as int);
    }
    0
}

/// Walks to the end of the heuristic body slice.
fn body_end_exec(s: &str) -> (r: usize)
    ensures
        r as int == spec_body_end(s@),
        r <= s@.len(),
{
    let n = s.unicode_len();
    let mut i: usize = n;
    while i > 0
        invariant
            0 <= i <= n,
            n == s@.len(),
            forall|j: int| i <= j < n ==> s@[j] != '}',
        decreases i,
    {
        i -= 1;
        if s.get_char(i) == '}' {
            proof {
                lemma_scan_back_for_pins(s@, '}', n - 1, i as int);
            }
            return i + 1;
        }
    }
    proof {
        if n > 0 {
            lemma_scan_back_for_pins(s@, '}', n - 1, -1);
        }
    }
    n
}

/// Decides whether the heuristic body slice of `raw` has its ends in order,
/// so that `extract_json_body` may be called on it.
pub fn body_slice_in_bounds(raw: &str) -> (r: bool)
    ensures
        r == spec_body_in_bounds(raw@),
{
    let start = body_start_exec(raw);
    let end = body_end_exec(raw);
    start <= end
}

/// Extracts the heuristic body slice of `raw`.
pub fn extract_json_body(raw: &str) -> (r: String)
    requires
        spec_body_in_bounds(raw@),
    ensures
        r@ == spec_json_slice(raw@),
{
    let start = body_start_exec(raw);
    let end = body_end_exec(raw);
    raw.substring_char(start, end).to_owned()
}

// ---------------------------------------------------------------------------
// The laws of the parser, each proved once and for all inputs.
// ---------------------------------------------------------------------------

/// Every header line yields exactly one parsed entry, in order; the entry at
/// each position is that line split at its first ": ".
pub proof fn lemma_one_entry_per_header_line(raw: Seq<char>)
    ensures
        spec_headers(raw).len() == spec_header_lines(raw).len(),
        forall|i: int| 0 <= i < spec_header_lines(raw).len() ==> #[trigger] spec_headers(raw)[i]
            == spec_split_header(spec_header_lines(raw)[i]),
{
}

/// A split that found a separator reconstructs its line: the name, then
/// ": ", then the value.
pub proof fn lemma_split_header_with_separator(l: Seq<char>)
    requires
        scan_sep(l, 0) < l.len(),
    ensures
        spec_split_header(l).0 + ": "@ + spec_split_header(l).1 == l,
{
    reveal_strlit(": ");
    lemma_scan_sep(l, 0);
    let p = scan_sep(l, 0);
    assert(l.subrange(0, p) + ": "@ + l.subrange(p + 2, l.len() as int) =~= l);
}

/// A line in which ": " nowhere occurs becomes all name and no value.
pub proof fn lemma_split_header_without_separator(l: Seq<char>)
    requires
        forall|j: int| 0 <= j < l.len() ==> !(j + 1 < l.len() && #[trigger] l[j] == ':' && l[j
            + 1] == ' '),
    ensures
        spec_split_header(l) == (l, Seq::<char>::empty()),
{
    lemma_scan_sep_pins(l, 0, l.len() as int);
}

/// The heuristic body slice runs from the first '{' — or the start, if there
/// is none — through the last '}' — or the end, if there is none.
pub proof fn lemma_body_slice_bounds(s: Seq<char>)
    ensures
        s.contains('{') ==> s[spec_body_start(s)] == '{' && (forall|j: int|
            0 <= j < spec_body_start(s) ==> s[j] != '{'),
        !s.contains('{') ==> spec_body_start(s) == 0,
        s.contains('}') ==> spec_body_end(s) >= 1 && s[spec_body_end(s) - 1] == '}' && (forall|j:
            int| spec_body_end(s) <= j < s.len() ==> s[j] != '}'),
        !s.contains('}') ==> spec_body_end(s) == s.len(),
{
    lemma_scan_for(s, '{', 0);
    if s.len() > 0 {
        lemma_scan_back_for(s, '}', s.len() - 1);
    }
    if s.contains('{') {
        let w = choose|w: int| 0 <= w < s.len() && s[w] == '{';
        assert(scan_for(s, '{', 0) < s.len());
    }
    if s.contains('}') {
        let w = choose|w: int| 0 <= w < s.len() && s[w] == '}';
        assert(scan_back_for(s, '}', s.len() - 1) >= 0);
    }
}

} // verus!
