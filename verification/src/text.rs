//! Character-level text helpers: conversions between `str`/`String` and
//! character vectors, newline splitting and joining, and decimal rendering.

use vstd::prelude::*;

verus! {

/// The character content of every line of a line vector.
pub open spec fn view_lines(v: Seq<String>) -> Seq<Seq<char>> {
    v.map_values(|s: String| s@)
}

/// Joins parts with a single `'\n'` between consecutive parts.
pub open spec fn join_nl(parts: Seq<Seq<char>>) -> Seq<char>
    decreases parts.len(),
{
    if parts.len() == 0 {
        Seq::empty()
    } else if parts.len() == 1 {
        parts[0]
    } else {
        join_nl(parts.drop_last()) + seq!['\n'] + parts.last()
    }
}

/// Splits text at every `'\n'`; the result always has at least one part.
pub open spec fn split_nl(t: Seq<char>) -> Seq<Seq<char>>
    decreases t.len(),
{
    if t.len() == 0 {
        seq![Seq::<char>::empty()]
    } else {
        let p = split_nl(t.drop_last());
        if t.last() == '\n' {
            p.push(Seq::<char>::empty())
        } else {
            p.update(p.len() - 1, p.last().push(t.last()))
        }
    }
}

/// True when the text holds no newline character.
pub open spec fn no_newline(t: Seq<char>) -> bool {
    forall|i: int| 0 <= i < t.len() ==> t[i] != '\n'
}

/// The decimal digit character for `d < 10`.
pub open spec fn digit_char(d: nat) -> char {
    if d == 0 { '0' } else if d == 1 { '1' } else if d == 2 { '2' } else if d == 3 { '3' }
    else if d == 4 { '4' } else if d == 5 { '5' } else if d == 6 { '6' } else if d == 7 { '7' }
    else if d == 8 { '8' } else { '9' }
}

/// The decimal rendering of a natural number, without leading zeros.
pub open spec fn decimal(n: nat) -> Seq<char>
    decreases n,
{
    if n < 10 {
        seq![digit_char(n)]
    } else {
        decimal(n / 10).push(digit_char(n % 10))
    }
}

/// Removes every trailing `'\r'`.
pub open spec fn strip_trailing_cr(s: Seq<char>) -> Seq<char>
    decreases s.len(),
{
    if s.len() > 0 && s.last() == '\r' {
        strip_trailing_cr(s.drop_last())
    } else {
        s
    }
}

pub proof fn lemma_split_nl_nonempty(t: Seq<char>)
    ensures
        split_nl(t).len() >= 1,
    decreases t.len(),
{
    if t.len() > 0 {
        lemma_split_nl_nonempty(t.drop_last());
    }
}

/// The number of parts of a split is one more than the number of newlines.
pub proof fn lemma_split_nl_single(t: Seq<char>)
    requires
        no_newline(t),
    ensures
        split_nl(t) == seq![t],
    decreases t.len(),
{
    if t.len() > 0 {
        let u = t.drop_last();
        assert forall|i: int| 0 <= i < u.len() implies u[i] != '\n' by {
            assert(u[i] == t[i]);
        }
        lemma_split_nl_single(u);
        assert(t.last() == t[t.len() - 1]);
        assert(u.push(t.last()) =~= t);
    } else {
        assert(t =~= Seq::<char>::empty());
    }
}

/// Joining the parts of a split gives back the text.
pub proof fn lemma_join_split(t: Seq<char>)
    ensures
        join_nl(split_nl(t)) == t,
    decreases t.len(),
{
    if t.len() == 0 {
    } else {
        let u = t.drop_last();
        lemma_join_split(u);
        lemma_split_nl_nonempty(u);
        let p = split_nl(u);
        if t.last() == '\n' {
            let q = p.push(Seq::<char>::empty());
            assert(q.drop_last() =~= p);
            assert(join_nl(q) =~= join_nl(p) + seq!['\n']);
            assert(u.push('\n') =~= t);
        } else {
            let q = p.update(p.len() - 1, p.last().push(t.last()));
            assert(q.drop_last() =~= p.drop_last());
            if p.len() == 1 {
                assert(join_nl(q) =~= u.push(t.last()));
            } else {
                assert(join_nl(p) == join_nl(p.drop_last()) + seq!['\n'] + p.last());
                assert(join_nl(q) =~= join_nl(p).push(t.last()));
            }
            assert(u.push(t.last()) =~= t);
        }
    }
}

proof fn lemma_split_append_plain(a: Seq<char>, b: Seq<char>)
    requires
        no_newline(b),
    ensures
        split_nl(a + b) == split_nl(a).update(
            split_nl(a).len() - 1,
            split_nl(a).last() + b,
        ),
    decreases b.len(),
{
    lemma_split_nl_nonempty(a);
    if b.len() == 0 {
        assert(a + b =~= a);
        assert(split_nl(a).last() + b =~= split_nl(a).last());
        assert(split_nl(a).update(split_nl(a).len() - 1, split_nl(a).last()) =~= split_nl(a));
    } else {
        let b1 = b.drop_last();
        lemma_split_append_plain(a, b1);
        assert((a + b).drop_last() =~= a + b1);
        assert((a + b).last() == b.last());
        let p = split_nl(a);
        let q = p.update(p.len() - 1, p.last() + b1);
        assert(q.last() == p.last() + b1);
        assert(q.last().push(b.last()) =~= p.last() + b);
        assert(q.update(q.len() - 1, q.last().push(b.last())) =~= p.update(
            p.len() - 1,
            p.last() + b,
        ));
    }
}

/// Splitting joined newline-free parts gives back the parts.
pub proof fn lemma_split_join(parts: Seq<Seq<char>>)
    requires
        parts.len() >= 1,
        forall|i: int| 0 <= i < parts.len() ==> no_newline(#[trigger] parts[i]),
    ensures
        split_nl(join_nl(parts)) == parts,
    decreases parts.len(),
{
    if parts.len() == 1 {
        lemma_split_nl_single(parts[0]);
        assert(seq![parts[0]] =~= parts);
    } else {
        let init = parts.drop_last();
        assert forall|i: int| 0 <= i < init.len() implies no_newline(#[trigger] init[i]) by {
            assert(init[i] == parts[i]);
        }
        lemma_split_join(init);
        let a = join_nl(init) + seq!['\n'];
        assert(a.drop_last() =~= join_nl(init));
        assert(split_nl(a) == init.push(Seq::<char>::empty()));
        assert(no_newline(parts[parts.len() - 1]));
        lemma_split_append_plain(a, parts.last());
        assert(join_nl(parts) == a + parts.last());
        assert(Seq::<char>::empty() + parts.last() =~= parts.last());
        assert(init.push(Seq::<char>::empty()).update(init.len() as int, parts.last()) =~= parts);
    }
}

/// Converts a string slice into its characters.
pub fn chars_of(s: &str) -> (res: Vec<char>)
    ensures
        res@ == s@,
{
    let mut res: Vec<char> = Vec::new();
    for c in it: s.chars()
        invariant
            res@ == it.seq().take(it.index() as int),
    {
        res.push(c);
    }
    res
}

/// Builds a `String` from a character slice (`FromIterator<&char>` for `String`).
#[verifier::external_body]
pub fn string_from_chars(v: &[char]) -> (res: String)
    ensures
        res@ == v@,
{
    v.iter().collect()
}

/// Copies the characters `v[from..to]`.
pub fn chars_range(v: &Vec<char>, from: usize, to: usize) -> (res: Vec<char>)
    requires
        from <= to <= v.len(),
    ensures
        res@ == v@.subrange(from as int, to as int),
{
    let mut res: Vec<char> = Vec::new();
    let mut i = from;
    while i < to
        invariant
            from <= i <= to <= v.len(),
            res@ == v@.subrange(from as int, i as int),
        decreases to - i,
    {
        res.push(v[i]);
        i = i + 1;
    }
    res
}

/// A `String` holding the characters `v[from..to]`.
pub fn string_of_range(v: &Vec<char>, from: usize, to: usize) -> (res: String)
    requires
        from <= to <= v.len(),
    ensures
        res@ == v@.subrange(from as int, to as int),
{
    let r = chars_range(v, from, to);
    string_from_chars(r.as_slice())
}

/// The number of characters of a string.
pub fn char_count(s: &str) -> (n: usize)
    ensures
        n == s@.len(),
{
    let v = chars_of(s);
    v.len()
}

/// Concatenates two character sequences into a new `String`.
pub fn concat_strs(a: &str, b: &str) -> (res: String)
    ensures
        res@ == a@ + b@,
{
    let mut r = a.to_owned();
    r.append(b);
    r
}

/// Joins strings with `'\n'` between them.
pub fn join_lines(parts: &[String]) -> (res: String)
    ensures
        res@ == join_nl(view_lines(parts@)),
{
    let mut res = String::new();
    let mut i: usize = 0;
    while i < parts.len()
        invariant
            i <= parts.len(),
            res@ == join_nl(view_lines(parts@.take(i as int))),
        decreases parts.len() - i,
    {
        let ghost before = view_lines(parts@.take(i as int));
        let ghost after = view_lines(parts@.take(i + 1));
        assert(after.drop_last() =~= before);
        if i > 0 {
            res.append("\n");
            proof {
                reveal_strlit("\n");
            }
        }
        res.append(parts[i].as_str());
        proof {
            if i == 0 {
                assert(after =~= seq![parts@[0]@]);
            }
        }
        i = i + 1;
    }
    assert(parts@.take(parts.len() as int) =~= parts@);
    res
}

/// Splits text at every `'\n'`, returning each part as a `String`.
pub fn split_newlines(t: &str) -> (res: Vec<String>)
    ensures
        view_lines(res@) == split_nl(t@),
        res.len() >= 1,
{
    let chars = chars_of(t);
    let mut parts: Vec<String> = Vec::new();
    let mut cur: Vec<char> = Vec::new();
    let mut i: usize = 0;
    while i < chars.len()
        invariant
            i <= chars.len(),
            chars@ == t@,
            split_nl(chars@.take(i as int)) == view_lines(parts@).push(cur@),
        decreases chars.len() - i,
    {
        let c = chars[i];
        assert(chars@.take(i + 1).drop_last() =~= chars@.take(i as int));
        if c == '\n' {
            let s = string_from_chars(cur.as_slice());
            parts.push(s);
            cur = Vec::new();
            assert(view_lines(parts@) =~= view_lines(parts@.drop_last()).push(s@));
        } else {
            cur.push(c);
        }
        i = i + 1;
    }
    let s = string_from_chars(cur.as_slice());
    parts.push(s);
    assert(chars@.take(chars.len() as int) =~= chars@);
    assert(view_lines(parts@) =~= view_lines(parts@.drop_last()).push(s@));
    parts
}

/// Removes every trailing `'\r'` of a string.
pub fn trim_trailing_cr(s: &String) -> (res: String)
    ensures
        res@ == strip_trailing_cr(s@),
{
    let v = chars_of(s.as_str());
    let mut n = v.len();
    assert(v@.take(n as int) =~= v@);
    while n > 0 && v[n - 1] == '\r'
        invariant
            n <= v.len(),
            strip_trailing_cr(v@) == strip_trailing_cr(v@.take(n as int)),
        decreases n,
    {
        assert(v@.take(n as int).drop_last() =~= v@.take(n - 1));
        n = n - 1;
    }
    assert(v@.take(v.len() as int) =~= v@);
    string_of_range(&v, 0, n)
}

/// The characters of the decimal rendering of `n`.
pub fn decimal_chars(n: usize) -> (res: Vec<char>)
    ensures
        res@ == decimal(n as nat),
    decreases n,
{
    let d = n % 10;
    let c = if d == 0 { '0' } else if d == 1 { '1' } else if d == 2 { '2' } else if d == 3 {
        '3'
    } else if d == 4 { '4' } else if d == 5 { '5' } else if d == 6 { '6' } else if d == 7 {
        '7'
    } else if d == 8 { '8' } else { '9' };
    if n < 10 {
        let mut v: Vec<char> = Vec::new();
        v.push(c);
        v
    } else {
        let mut v = decimal_chars(n / 10);
        v.push(c);
        v
    }
}

/// The decimal rendering of `n` as a `String`.
pub fn usize_to_string(n: usize) -> (res: String)
    ensures
        res@ == decimal(n as nat),
{
    let v = decimal_chars(n);
    string_from_chars(v.as_slice())
}

/// The decimal digits of a `u64`, most significant first.
pub fn decimal_chars_u64(n: u64) -> (res: Vec<char>)
    ensures
        res@ == decimal(n as nat),
    decreases n,
{
    let d = n % 10;
    let c = if d == 0 { '0' } else if d == 1 { '1' } else if d == 2 { '2' } else if d == 3 {
        '3'
    } else if d == 4 { '4' } else if d == 5 { '5' } else if d == 6 { '6' } else if d == 7 {
        '7'
    } else if d == 8 { '8' } else { '9' };
    if n < 10 {
        let mut v: Vec<char> = Vec::new();
        v.push(c);
        v
    } else {
        let mut v = decimal_chars_u64(n / 10);
        v.push(c);
        v
    }
}

/// The decimal rendering of a `u64` as a `String`.
pub fn u64_to_string(n: u64) -> (res: String)
    ensures
        res@ == decimal(n as nat),
{
    let v = decimal_chars_u64(n);
    string_from_chars(v.as_slice())
}

/// Appends the decimal rendering of `n` to `s`.
pub fn push_decimal(s: &mut String, n: usize)
    ensures
        final(s)@ == old(s)@ + decimal(n as nat),
{
    let d = usize_to_string(n);
    s.append(d.as_str());
}

} // verus!

verus! {

/// Unicode `White_Space` classification of a character (`char::is_whitespace`).
pub uninterp spec fn is_ws(c: char) -> bool;

/// Unicode alphabetic-or-numeric classification of a character (`char::is_alphanumeric`).
pub uninterp spec fn is_alnum(c: char) -> bool;

/// True for ASCII letters and digits.
pub open spec fn is_ascii_alnum(c: char) -> bool {
    ('a' <= c && c <= 'z') || ('A' <= c && c <= 'Z') || ('0' <= c && c <= '9')
}

/// True for space, tab, line feed and carriage return.
pub open spec fn is_ascii_blank(c: char) -> bool {
    c == ' ' || c == '\t' || c == '\n' || c == '\r'
}

/// `char::is_whitespace`. Its result is named `is_ws`; the documented facts that
/// space, tab, line feed and carriage return are whitespace and ASCII letters and
/// digits are not are stated here. The Unicode table itself is left unstated.
#[verifier::external_body]
pub(crate) fn char_is_whitespace(c: char) -> (r: bool)
    ensures
        r == is_ws(c),
        is_ascii_blank(c) ==> r,
        is_ascii_alnum(c) ==> !r,
{
    c.is_whitespace()
}

/// `char::is_alphanumeric`. Its result is named `is_alnum`; the documented facts
/// that ASCII letters and digits are alphanumeric and space, tab, line feed and
/// carriage return are not are stated here. The Unicode tables are left unstated.
#[verifier::external_body]
pub(crate) fn char_is_alphanumeric(c: char) -> (r: bool)
    ensures
        r == is_alnum(c),
        is_ascii_alnum(c) ==> r,
        is_ascii_blank(c) ==> !r,
{
    c.is_alphanumeric()
}

} // verus!

verus! {

pub proof fn lemma_view_push(v: Seq<String>, s: String)
    ensures
        view_lines(v.push(s)) == view_lines(v).push(s@),
{
    assert(view_lines(v.push(s)) =~= view_lines(v).push(s@));
}

pub proof fn lemma_view_insert(v: Seq<String>, i: int, s: String)
    requires
        0 <= i <= v.len(),
    ensures
        view_lines(v.insert(i, s)) == view_lines(v).insert(i, s@),
{
    assert(view_lines(v.insert(i, s)) =~= view_lines(v).insert(i, s@));
}

pub proof fn lemma_view_remove(v: Seq<String>, i: int)
    requires
        0 <= i < v.len(),
    ensures
        view_lines(v.remove(i)) == view_lines(v).remove(i),
{
    assert(view_lines(v.remove(i)) =~= view_lines(v).remove(i));
}

pub proof fn lemma_view_update(v: Seq<String>, i: int, s: String)
    requires
        0 <= i < v.len(),
    ensures
        view_lines(v.update(i, s)) == view_lines(v).update(i, s@),
{
    assert(view_lines(v.update(i, s)) =~= view_lines(v).update(i, s@));
}

} // verus!

verus! {

/// Unicode lowercase mapping of a text (`str::to_lowercase`).
pub uninterp spec fn lowercase(s: Seq<char>) -> Seq<char>;

/// Unicode uppercase mapping of a text (`str::to_uppercase`).
pub uninterp spec fn uppercase(s: Seq<char>) -> Seq<char>;

/// True when every character of the text is ASCII.
pub open spec fn is_ascii_text(s: Seq<char>) -> bool {
    forall|i: int| 0 <= i < s.len() ==> (s[i] as u32) < 128
}

/// The ASCII uppercase of a character: `a`..`z` become `A`..`Z`, others stay.
pub open spec fn ascii_upper(c: char) -> char {
    if 'a' <= c && c <= 'z' { ((c as u32) - 32) as char } else { c }
}

/// The ASCII lowercase of a character: `A`..`Z` become `a`..`z`, others stay.
pub open spec fn ascii_lower(c: char) -> char {
    if 'A' <= c && c <= 'Z' { ((c as u32) + 32) as char } else { c }
}

/// `str::to_lowercase`. Its result is named `lowercase` of the text; on ASCII text
/// the Unicode mapping is the ASCII one, character for character, and that is
/// stated. The Unicode case tables beyond ASCII are left unstated.
#[verifier::external_body]
pub(crate) fn str_to_lowercase(s: &str) -> (r: String)
    ensures
        r@ == lowercase(s@),
        is_ascii_text(s@) ==> r@ == s@.map_values(|c: char| ascii_lower(c)),
{
    s.to_lowercase()
}

/// `str::to_uppercase`. Its result is named `uppercase` of the text; on ASCII text
/// the Unicode mapping is the ASCII one, character for character, and that is
/// stated. The Unicode case tables beyond ASCII are left unstated.
#[verifier::external_body]
pub(crate) fn str_to_uppercase(s: &str) -> (r: String)
    ensures
        r@ == uppercase(s@),
        is_ascii_text(s@) ==> r@ == s@.map_values(|c: char| ascii_upper(c)),
{
    s.to_uppercase()
}

/// Every occurrence of `from` replaced by `to`.
pub open spec fn replace_char(s: Seq<char>, from: char, to: char) -> Seq<char> {
    s.map_values(|c: char| if c == from { to } else { c })
}

/// Replaces every occurrence of a character by another.
pub fn replace_char_in(s: &str, from: char, to: char) -> (r: String)
    ensures
        r@ == replace_char(s@, from, to),
{
    let cs = chars_of(s);
    let mut out: Vec<char> = Vec::new();
    let mut i: usize = 0;
    while i < cs.len()
        invariant
            i <= cs.len(),
            cs@ == s@,
            out@ == replace_char(s@.take(i as int), from, to),
        decreases cs.len() - i,
    {
        let c = cs[i];
        out.push(if c == from { to } else { c });
        assert(replace_char(s@.take(i + 1), from, to) =~= replace_char(s@.take(i as int), from, to).push(
            if c == from { to } else { c },
        ));
        i = i + 1;
    }
    assert(s@.take(cs.len() as int) =~= s@);
    string_from_chars(out.as_slice())
}

/// True when the two texts are equal.
pub fn str_eq(a: &str, b: &str) -> (r: bool)
    ensures
        r == (a@ == b@),
{
    let x = chars_of(a);
    let y = chars_of(b);
    if x.len() != y.len() {
        return false;
    }
    let mut i: usize = 0;
    while i < x.len()
        invariant
            i <= x.len(),
            x.len() == y.len(),
            x@ == a@,
            y@ == b@,
            forall|j: int| 0 <= j < i ==> x@[j] == y@[j],
        decreases x.len() - i,
    {
        if x[i] != y[i] {
            return false;
        }
        i = i + 1;
    }
    assert(a@ =~= b@);
    true
}

/// True when `needle` occurs in `hay` starting at index `i`.
pub open spec fn occurs_at(hay: Seq<char>, needle: Seq<char>, i: int) -> bool {
    0 <= i && i + needle.len() <= hay.len() && hay.subrange(i, i + needle.len()) == needle
}

/// True when `needle` occurs somewhere in `hay`.
pub open spec fn contains_seq(hay: Seq<char>, needle: Seq<char>) -> bool {
    exists|i: int| occurs_at(hay, needle, i)
}

/// True when `needle` occurs in `hay` at index `i` (characters compared one by one).
fn matches_at(hay: &Vec<char>, needle: &Vec<char>, i: usize) -> (r: bool)
    requires
        i + needle.len() <= hay.len(),
    ensures
        r == (hay@.subrange(i as int, i + needle.len()) == needle@),
{
    let mut j: usize = 0;
    while j < needle.len()
        invariant
            j <= needle.len(),
            i + needle.len() <= hay.len(),
            forall|k: int| 0 <= k < j ==> hay@[i + k] == needle@[k],
        decreases needle.len() - j,
    {
        if hay[i + j] != needle[j] {
            assert(hay@.subrange(i as int, i + needle.len())[j as int] != needle@[j as int]);
            return false;
        }
        j = j + 1;
    }
    assert(hay@.subrange(i as int, i + needle.len()) =~= needle@);
    true
}

/// True when `needle` occurs in `hay`.
pub fn str_contains(hay: &str, needle: &str) -> (r: bool)
    ensures
        r == contains_seq(hay@, needle@),
{
    let h = chars_of(hay);
    let n = chars_of(needle);
    if n.len() > h.len() {
        return false;
    }
    let last = h.len() - n.len();
    let mut i: usize = 0;
    loop
        invariant
            h@ == hay@,
            n@ == needle@,
            n.len() <= h.len(),
            last == h.len() - n.len(),
            i <= last,
            forall|k: int| 0 <= k < i ==> !occurs_at(hay@, needle@, k),
        decreases last - i,
    {
        if matches_at(&h, &n, i) {
            assert(occurs_at(hay@, needle@, i as int));
            return true;
        }
        if i == last {
            assert forall|k: int| occurs_at(hay@, needle@, k) implies false by {
                assert(0 <= k <= last);
            }
            return false;
        }
        i = i + 1;
    }
}

/// True when `hay` begins with `prefix`.
pub fn str_starts_with(hay: &str, prefix: &str) -> (r: bool)
    ensures
        r == (prefix@.len() <= hay@.len() && hay@.take(prefix@.len() as int) == prefix@),
{
    let h = chars_of(hay);
    let p = chars_of(prefix);
    if p.len() > h.len() {
        return false;
    }
    let r = matches_at(&h, &p, 0);
    assert(h@.subrange(0, p.len() as int) =~= h@.take(p.len() as int));
    r
}

/// True when `hay` ends with `suffix`.
pub fn str_ends_with(hay: &str, suffix: &str) -> (r: bool)
    ensures
        r == (suffix@.len() <= hay@.len() && hay@.skip(hay@.len() - suffix@.len()) == suffix@),
{
    let h = chars_of(hay);
    let p = chars_of(suffix);
    if p.len() > h.len() {
        return false;
    }
    let start = h.len() - p.len();
    let r = matches_at(&h, &p, start);
    assert(h@.subrange(start as int, h.len() as int) =~= h@.skip(start as int));
    r
}

} // verus!
