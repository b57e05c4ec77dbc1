//! Character-level scanning used by the Dockerfile syntax: trimming, splitting
//! into tokens and at separators, prefix stripping and number parsing.

use vstd::prelude::*;
use crate::text::{char_is_whitespace, is_ws};

verus! {

/// Classes of characters that the syntax trims or splits at.
#[derive(Debug, Clone, Copy, PartialEq, Eq, Structural)]
pub enum CharClass {
    /// Unicode whitespace (`char::is_whitespace`).
    Whitespace,
    /// The characters trimmed around a JSON-style array: `[`, `]`, space, line feed.
    ArrayEdge,
    /// One given character.
    Only(char),
}

/// True when `c` belongs to the class.
pub open spec fn in_class(k: CharClass, c: char) -> bool {
    match k {
        CharClass::Whitespace => is_ws(c),
        CharClass::ArrayEdge => c == '[' || c == ']' || c == ' ' || c == '\n',
        CharClass::Only(x) => c == x,
    }
}

/// Whether `c` belongs to the class.
pub fn is_in_class(k: CharClass, c: char) -> (r: bool)
    ensures
        r == in_class(k, c),
{
    match k {
        CharClass::Whitespace => char_is_whitespace(c),
        CharClass::ArrayEdge => c == '[' || c == ']' || c == ' ' || c == '\n',
        CharClass::Only(x) => c == x,
    }
}

/// The text without its leading characters of the class.
pub open spec fn trim_start_by(s: Seq<char>, k: CharClass) -> Seq<char>
    decreases s.len(),
{
    if s.len() > 0 && in_class(k, s[0]) {
        trim_start_by(s.drop_first(), k)
    } else {
        s
    }
}

/// The text without its trailing characters of the class.
pub open spec fn trim_end_by(s: Seq<char>, k: CharClass) -> Seq<char>
    decreases s.len(),
{
    if s.len() > 0 && in_class(k, s.last()) {
        trim_end_by(s.drop_last(), k)
    } else {
        s
    }
}

/// The text without leading and trailing characters of the class.
pub open spec fn trim_by(s: Seq<char>, k: CharClass) -> Seq<char> {
    trim_end_by(trim_start_by(s, k), k)
}

/// The text without leading and trailing whitespace (`str::trim`).
pub open spec fn trim_ws(s: Seq<char>) -> Seq<char> {
    trim_by(s, CharClass::Whitespace)
}

/// The characters of `v` from `a` to `b`.
pub fn slice_chars(v: &Vec<char>, a: usize, b: usize) -> (r: Vec<char>)
    requires
        a <= b <= v.len(),
    ensures
        r@ == v@.subrange(a as int, b as int),
{
    let mut out: Vec<char> = Vec::new();
    let mut i = a;
    while i < b
        invariant
            a <= i <= b <= v.len(),
            out@ == v@.subrange(a as int, i as int),
        decreases b - i,
    {
        out.push(v[i]);
        assert(v@.subrange(a as int, i + 1) =~= v@.subrange(a as int, i as int).push(v@[i as int]));
        i = i + 1;
    }
    out
}

/// Removes leading characters of the class.
pub fn trim_start_chars(v: &Vec<char>, k: CharClass) -> (r: Vec<char>)
    ensures
        r@ == trim_start_by(v@, k),
{
    let mut i: usize = 0;
    assert(v@.skip(0) =~= v@);
    while i < v.len() && is_in_class(k, v[i])
        invariant
            i <= v.len(),
            trim_start_by(v@, k) == trim_start_by(v@.skip(i as int), k),
        decreases v.len() - i,
    {
        assert(v@.skip(i as int).drop_first() =~= v@.skip(i + 1));
        i = i + 1;
    }
    assert(v@.subrange(i as int, v.len() as int) =~= v@.skip(i as int));
    slice_chars(v, i, v.len())
}

/// Removes trailing characters of the class.
pub fn trim_end_chars(v: &Vec<char>, k: CharClass) -> (r: Vec<char>)
    ensures
        r@ == trim_end_by(v@, k),
{
    let mut n = v.len();
    assert(v@.take(n as int) =~= v@);
    while n > 0 && is_in_class(k, v[n - 1])
        invariant
            n <= v.len(),
            trim_end_by(v@, k) == trim_end_by(v@.take(n as int), k),
        decreases n,
    {
        assert(v@.take(n as int).drop_last() =~= v@.take(n - 1));
        n = n - 1;
    }
    assert(v@.subrange(0, n as int) =~= v@.take(n as int));
    slice_chars(v, 0, n)
}

/// Removes leading and trailing characters of the class.
pub fn trim_chars(v: &Vec<char>, k: CharClass) -> (r: Vec<char>)
    ensures
        r@ == trim_by(v@, k),
{
    let a = trim_start_chars(v, k);
    trim_end_chars(&a, k)
}

/// The whitespace-separated tokens of a text (`str::split_whitespace`).
pub open spec fn tokens(s: Seq<char>) -> Seq<Seq<char>>
    decreases s.len(),
{
    if s.len() == 0 {
        Seq::empty()
    } else {
        let t = tokens(s.drop_last());
        let c = s.last();
        if is_ws(c) {
            t
        } else if s.len() >= 2 && !is_ws(s[s.len() - 2]) {
            t.update(t.len() - 1, t.last().push(c))
        } else {
            t.push(seq![c])
        }
    }
}

/// Splits a text into its whitespace-separated tokens.
pub fn split_tokens(v: &Vec<char>) -> (r: Vec<Vec<char>>)
    ensures
        r@.len() == tokens(v@).len(),
        forall|i: int| 0 <= i < r@.len() ==> #[trigger] r@[i]@ == tokens(v@)[i],
{
    let mut out: Vec<Vec<char>> = Vec::new();
    let mut cur: Vec<char> = Vec::new();
    let mut in_token = false;
    let mut i: usize = 0;
    while i < v.len()
        invariant
            i <= v.len(),
            in_token ==> i > 0 && !is_ws(v@[i - 1]),
            !in_token ==> (i == 0 || is_ws(v@[i - 1])) && cur@.len() == 0,
            ({
                let t = tokens(v@.take(i as int));
                if in_token {
                    &&& t.len() == out@.len() + 1
                    &&& t.last() == cur@
                    &&& forall|j: int| 0 <= j < out@.len() ==> #[trigger] out@[j]@ == t[j]
                } else {
                    &&& t.len() == out@.len()
                    &&& forall|j: int| 0 <= j < out@.len() ==> #[trigger] out@[j]@ == t[j]
                }
            }),
        decreases v.len() - i,
    {
        let c = v[i];
        let ghost s = v@.take(i + 1);
        assert(s.drop_last() =~= v@.take(i as int));
        if char_is_whitespace(c) {
            if in_token {
                let done = cur;
                out.push(done);
                cur = Vec::new();
                in_token = false;
            }
        } else {
            cur.push(c);
            in_token = true;
        }
        i = i + 1;
    }
    if in_token {
        out.push(cur);
    }
    assert(v@.take(v.len() as int) =~= v@);
    out
}

/// Index of the first character of the class, if any.
pub open spec fn first_in(s: Seq<char>, k: CharClass) -> Option<nat>
    decreases s.len(),
{
    if s.len() == 0 {
        None
    } else if in_class(k, s[0]) {
        Some(0)
    } else {
        match first_in(s.drop_first(), k) {
            Some(j) => Some(j + 1),
            None => None,
        }
    }
}

proof fn lemma_first_in_skip(s: Seq<char>, k: CharClass, i: int)
    requires
        0 <= i <= s.len(),
        forall|j: int| 0 <= j < i ==> !in_class(k, #[trigger] s[j]),
    ensures
        first_in(s, k) == (match first_in(s.skip(i), k) {
            Some(j) => Some((j + i) as nat),
            None => None::<nat>,
        }),
    decreases i,
{
    if i > 0 {
        assert(s.drop_first().skip(i - 1) =~= s.skip(i));
        assert forall|j: int| 0 <= j < i - 1 implies !in_class(k, #[trigger] s.drop_first()[j]) by {
            assert(s.drop_first()[j] == s[j + 1]);
        }
        lemma_first_in_skip(s.drop_first(), k, i - 1);
    } else {
        assert(s.skip(0) =~= s);
    }
}

/// Index of the first character of the class, if any.
pub fn find_in(v: &Vec<char>, k: CharClass) -> (r: Option<usize>)
    ensures
        r == (match first_in(v@, k) {
            Some(j) => Some(j as usize),
            None => None::<usize>,
        }),
        r matches Some(j) ==> j < v.len() && first_in(v@, k) == Some(j as nat),
{
    let mut i: usize = 0;
    while i < v.len()
        invariant
            i <= v.len(),
            forall|j: int| 0 <= j < i ==> !in_class(k, #[trigger] v@[j]),
        decreases v.len() - i,
    {
        if is_in_class(k, v[i]) {
            proof {
                lemma_first_in_skip(v@, k, i as int);
            }
            return Some(i);
        }
        i = i + 1;
    }
    proof {
        lemma_first_in_skip(v@, k, i as int);
    }
    None
}

/// The parts of a text split at the first character of the class, that character
/// dropped; `None` when the text holds no such character.
pub open spec fn split_once_by(s: Seq<char>, k: CharClass) -> Option<(Seq<char>, Seq<char>)> {
    match first_in(s, k) {
        Some(i) => Some((s.take(i as int), s.skip(i as int + 1))),
        None => None,
    }
}

/// Splits at the first character of the class.
pub fn split_once_chars(v: &Vec<char>, k: CharClass) -> (r: Option<(Vec<char>, Vec<char>)>)
    ensures
        match split_once_by(v@, k) {
            Some((a, b)) => r matches Some((x, y)) && x@ == a && y@ == b,
            None => r is None,
        },
{
    match find_in(v, k) {
        Some(i) => {
            assert(first_in(v@, k) == Some(i as nat));
            let a = slice_chars(v, 0, i);
            let b = slice_chars(v, i + 1, v.len());
            assert(v@.subrange(0, i as int) =~= v@.take(i as int));
            assert(v@.subrange(i + 1, v.len() as int) =~= v@.skip(i + 1));
            Some((a, b))
        },
        None => None,
    }
}

/// Splits a text at every occurrence of `c` (`str::split`); there is always a part.
pub open spec fn split_at_char(t: Seq<char>, c: char) -> Seq<Seq<char>>
    decreases t.len(),
{
    if t.len() == 0 {
        seq![Seq::<char>::empty()]
    } else {
        let p = split_at_char(t.drop_last(), c);
        if t.last() == c {
            p.push(Seq::<char>::empty())
        } else {
            p.update(p.len() - 1, p.last().push(t.last()))
        }
    }
}

pub proof fn lemma_split_at_char_nonempty(t: Seq<char>, c: char)
    ensures
        split_at_char(t, c).len() >= 1,
    decreases t.len(),
{
    if t.len() > 0 {
        lemma_split_at_char_nonempty(t.drop_last(), c);
    }
}

/// Splits a text at every occurrence of `c`.
pub fn split_chars_at(v: &Vec<char>, c: char) -> (r: Vec<Vec<char>>)
    ensures
        r@.len() == split_at_char(v@, c).len(),
        forall|i: int| 0 <= i < r@.len() ==> #[trigger] r@[i]@ == split_at_char(v@, c)[i],
{
    let mut out: Vec<Vec<char>> = Vec::new();
    let mut cur: Vec<char> = Vec::new();
    let mut i: usize = 0;
    while i < v.len()
        invariant
            i <= v.len(),
            ({
                let p = split_at_char(v@.take(i as int), c);
                &&& p.len() == out@.len() + 1
                &&& p.last() == cur@
                &&& forall|j: int| 0 <= j < out@.len() ==> #[trigger] out@[j]@ == p[j]
            }),
        decreases v.len() - i,
    {
        let x = v[i];
        assert(v@.take(i + 1).drop_last() =~= v@.take(i as int));
        proof {
            lemma_split_at_char_nonempty(v@.take(i as int), c);
        }
        if x == c {
            let done = cur;
            out.push(done);
            cur = Vec::new();
        } else {
            cur.push(x);
        }
        i = i + 1;
    }
    out.push(cur);
    assert(v@.take(v.len() as int) =~= v@);
    out
}

/// True when `s` begins with `p`.
pub open spec fn has_prefix(s: Seq<char>, p: Seq<char>) -> bool {
    p.len() <= s.len() && s.take(p.len() as int) == p
}

/// True when `s` ends with `p`.
pub open spec fn has_suffix(s: Seq<char>, p: Seq<char>) -> bool {
    p.len() <= s.len() && s.skip(s.len() - p.len()) == p
}

/// Whether `v` begins with `p`.
pub fn starts_with_chars(v: &Vec<char>, p: &Vec<char>) -> (r: bool)
    ensures
        r == has_prefix(v@, p@),
{
    if p.len() > v.len() {
        return false;
    }
    let mut j: usize = 0;
    while j < p.len()
        invariant
            j <= p.len() <= v.len(),
            forall|k: int| 0 <= k < j ==> v@[k] == p@[k],
        decreases p.len() - j,
    {
        if v[j] != p[j] {
            assert(v@.take(p.len() as int)[j as int] != p@[j as int]);
            return false;
        }
        j = j + 1;
    }
    assert(v@.take(p.len() as int) =~= p@);
    true
}

/// Whether two texts are equal.
pub fn same_chars(a: &Vec<char>, b: &Vec<char>) -> (r: bool)
    ensures
        r == (a@ == b@),
{
    if a.len() != b.len() {
        return false;
    }
    let r = starts_with_chars(a, b);
    assert(a@.take(b@.len() as int) =~= a@);
    r
}

/// The text with every repetition of the prefix `p` removed from its start
/// (`str::trim_start_matches` with a text pattern).
pub open spec fn strip_prefix_all(s: Seq<char>, p: Seq<char>) -> Seq<char>
    decreases s.len(),
{
    if p.len() > 0 && has_prefix(s, p) {
        strip_prefix_all(s.skip(p.len() as int), p)
    } else {
        s
    }
}

/// Removes every repetition of the prefix `p` from the start of `v`.
pub fn strip_prefix_all_chars(v: &Vec<char>, p: &Vec<char>) -> (r: Vec<char>)
    ensures
        r@ == strip_prefix_all(v@, p@),
{
    let mut cur = slice_chars(v, 0, v.len());
    assert(v@.subrange(0, v.len() as int) =~= v@);
    if p.len() == 0 {
        return cur;
    }
    while starts_with_chars(&cur, p)
        invariant
            p@.len() > 0,
            strip_prefix_all(v@, p@) == strip_prefix_all(cur@, p@),
        decreases cur@.len(),
    {
        let n = cur.len();
        let next = slice_chars(&cur, p.len(), n);
        assert(cur@.subrange(p.len() as int, n as int) =~= cur@.skip(p.len() as int));
        cur = next;
    }
    cur
}

/// The lowercase of an ASCII letter; other characters unchanged.
pub open spec fn ascii_lower(c: char) -> char {
    if 'A' <= c && c <= 'Z' {
        ((c as u32) + 32) as char
    } else {
        c
    }
}

/// Equality ignoring ASCII case (`str::eq_ignore_ascii_case`).
pub open spec fn eq_ascii_ci(a: Seq<char>, b: Seq<char>) -> bool {
    a.len() == b.len() && forall|i: int| 0 <= i < a.len() ==> ascii_lower(a[i]) == ascii_lower(b[i])
}

fn to_ascii_lower(c: char) -> (r: char)
    ensures
        r == ascii_lower(c),
{
    if 'A' <= c && c <= 'Z' {
        let b = (c as u8) + 32;
        b as char
    } else {
        c
    }
}

/// Whether two texts are equal ignoring ASCII case.
pub fn eq_ignore_ascii_case_chars(a: &Vec<char>, b: &Vec<char>) -> (r: bool)
    ensures
        r == eq_ascii_ci(a@, b@),
{
    if a.len() != b.len() {
        return false;
    }
    let mut i: usize = 0;
    while i < a.len()
        invariant
            i <= a.len(),
            a.len() == b.len(),
            forall|j: int| 0 <= j < i ==> ascii_lower(a@[j]) == ascii_lower(b@[j]),
        decreases a.len() - i,
    {
        if to_ascii_lower(a[i]) != to_ascii_lower(b[i]) {
            return false;
        }
        i = i + 1;
    }
    true
}

/// The value of a text of decimal digits.
pub open spec fn digits_value(d: Seq<char>) -> nat
    decreases d.len(),
{
    if d.len() == 0 {
        0
    } else {
        digits_value(d.drop_last()) * 10 + ((d.last() as u32) - ('0' as u32)) as nat
    }
}

/// True when every character is an ASCII digit.
pub open spec fn all_digits(d: Seq<char>) -> bool {
    forall|i: int| 0 <= i < d.len() ==> '0' <= #[trigger] d[i] && d[i] <= '9'
}

/// `str::parse::<usize>`: an optional `+` followed by at least one ASCII digit,
/// with a value that fits in a `usize`.
pub open spec fn parse_usize_spec(s: Seq<char>) -> Option<usize> {
    let d = if s.len() > 0 && s[0] == '+' { s.drop_first() } else { s };
    if d.len() == 0 || !all_digits(d) || digits_value(d) > usize::MAX {
        None
    } else {
        Some(digits_value(d) as usize)
    }
}

proof fn lemma_digits_value_grows(d: Seq<char>, i: int)
    requires
        0 <= i <= d.len(),
        all_digits(d),
    ensures
        digits_value(d.take(i)) <= digits_value(d),
    decreases d.len() - i,
{
    if i < d.len() {
        lemma_digits_value_grows(d, i + 1);
        assert(d.take(i + 1).drop_last() =~= d.take(i));
    } else {
        assert(d.take(i) =~= d);
    }
}

/// Parses a decimal `usize` as `str::parse` does.
pub fn parse_usize_chars(v: &Vec<char>) -> (r: Option<usize>)
    ensures
        r == parse_usize_spec(v@),
{
    let start: usize = if v.len() > 0 && v[0] == '+' { 1 } else { 0 };
    let ghost d = if v@.len() > 0 && v@[0] == '+' { v@.drop_first() } else { v@ };
    assert(d =~= v@.skip(start as int));
    if start == v.len() {
        return None;
    }
    let mut k: usize = start;
    while k < v.len()
        invariant
            start <= k <= v.len(),
            d == v@.skip(start as int),
            d == (if v@.len() > 0 && v@[0] == '+' { v@.drop_first() } else { v@ }),
            forall|j: int| start <= j < k ==> '0' <= #[trigger] v@[j] && v@[j] <= '9',
        decreases v.len() - k,
    {
        let c = v[k];
        if !('0' <= c && c <= '9') {
            assert(d[k - start] == c);
            assert(!all_digits(d));
            return None;
        }
        k = k + 1;
    }
    assert(all_digits(d)) by {
        assert forall|i: int| 0 <= i < d.len() implies '0' <= #[trigger] d[i] && d[i] <= '9' by {
            assert(d[i] == v@[i + start]);
        }
    }
    let mut acc: usize = 0;
    let mut i: usize = start;
    while i < v.len()
        invariant
            start <= i <= v.len(),
            d == v@.skip(start as int),
            d == (if v@.len() > 0 && v@[0] == '+' { v@.drop_first() } else { v@ }),
            all_digits(d),
            acc == digits_value(d.take(i - start)),
        decreases v.len() - i,
    {
        let c = v[i];
        assert(d[i - start] == c);
        let dig = ((c as u32) - ('0' as u32)) as usize;
        assert(d.take(i - start + 1).drop_last() =~= d.take(i - start));
        if acc > (usize::MAX - dig) / 10 {
            proof {
                assert(digits_value(d.take(i - start + 1)) == acc * 10 + dig);
                assert(acc * 10 + dig > usize::MAX) by (nonlinear_arith)
                    requires
                        acc > (usize::MAX - dig) / 10,
                        dig <= 9,
                ;
                lemma_digits_value_grows(d, i - start + 1);
                assert(digits_value(d) > usize::MAX);
            }
            return None;
        }
        assert(acc * 10 + dig <= usize::MAX) by (nonlinear_arith)
            requires
                acc <= (usize::MAX - dig) / 10,
                dig <= 9,
        ;
        acc = acc * 10 + dig;
        i = i + 1;
    }
    assert(d.take(v.len() - start) =~= d);
    Some(acc)
}

/// The lines of a text as `str::lines` yields them, as character vectors.
pub fn text_lines(t: &str) -> (r: Vec<Vec<char>>)
    ensures
        r@.len() == crate::buffer::commands::std_lines(t@).len(),
        forall|i: int|
            0 <= i < r@.len() ==> #[trigger] r@[i]@ == crate::buffer::commands::std_lines(t@)[i],
{
    let parts = crate::text::split_newlines(t);
    let ghost p = crate::text::split_nl(t@);
    proof {
        crate::text::lemma_split_nl_nonempty(t@);
    }
    assert(crate::text::view_lines(parts@) == p);
    let ends_nl = !t.is_empty() && ends_with_newline(t);
    let q_len = if ends_nl { parts.len() - 1 } else { parts.len() };
    let mut out: Vec<Vec<char>> = Vec::new();
    if t.is_empty() {
        assert(crate::buffer::commands::std_lines(t@) =~= Seq::empty());
        return out;
    }
    let mut i: usize = 0;
    while i < q_len
        invariant
            i <= q_len,
            q_len <= parts.len(),
            crate::text::view_lines(parts@) == p,
            p.len() >= 1,
            p == crate::text::split_nl(t@),
            t@.len() > 0,
            q_len == (if t@.last() == '\n' { p.len() - 1 } else { p.len() as int }),
            out@.len() == i,
            forall|j: int|
                0 <= j < i ==> #[trigger] out@[j]@ == crate::buffer::commands::std_lines(t@)[j],
        decreases q_len - i,
    {
        let line = crate::text::chars_of(parts[i].as_str());
        assert(line@ == p[i as int]);
        let n = line.len();
        let cut = i + 1 < parts.len() && n > 0 && line[n - 1] == '\r';
        let item = if cut { slice_chars(&line, 0, n - 1) } else { line };
        proof {
            if cut {
                assert(line@.subrange(0, n - 1) =~= line@.drop_last());
            }
        }
        proof {
            let q = if t@.last() == '\n' { p.drop_last() } else { p };
            assert(q[i as int] == p[i as int]);
            assert(crate::buffer::commands::std_lines(t@).len() == q.len());
            assert(crate::buffer::commands::std_lines(t@)[i as int] == item@);
        }
        out.push(item);
        i = i + 1;
    }
    proof {
        let q = if t@.last() == '\n' { p.drop_last() } else { p };
        assert(crate::buffer::commands::std_lines(t@).len() == q.len());
    }
    out
}

fn ends_with_newline(t: &str) -> (r: bool)
    requires
        t@.len() > 0,
    ensures
        r == (t@.last() == '\n'),
{
    let v = crate::text::chars_of(t);
    v[v.len() - 1] == '\n'
}

} // verus!
