//! Helpers for diagnostic identifiers, timestamps and byte-offset positions.

use vstd::prelude::*;
use std::hash::{Hash, Hasher};
use vstd::utf8::{is_char_boundary, is_continuation_byte};
use vstd::string::StringSliceAdditionalSpecFns;
use crate::diagnostics::position::{DiagnosticPosition, dpos_new};
use crate::diagnostics::range::DiagnosticRange;
use crate::text::{lowercase, replace_char, replace_char_in, str_to_lowercase};

verus! {

/// The 64-bit hash `std::collections::hash_map::DefaultHasher` (created with
/// `DefaultHasher::new`) gives of the rule name, line, column and message, hashed
/// in that order.
pub uninterp spec fn key_hash(rule_name: Seq<char>, line: usize, column: usize, message: Seq<char>) -> u64;

/// `DefaultHasher::new`, then `Hash::hash` of the tuple of the four values, then
/// `Hasher::finish`. Claimed: the result is the named hash of the four values.
#[verifier::external_body]
fn hash_key(rule_name: &str, line: usize, column: usize, message: &str) -> (r: u64)
    ensures
        r == key_hash(rule_name@, line, column, message@),
{
    let mut hasher = std::collections::hash_map::DefaultHasher::new();
    (rule_name, line, column, message).hash(&mut hasher);
    hasher.finish()
}

/// The lowercase hexadecimal digit of `d < 16`.
pub open spec fn hex_digit(d: nat) -> char {
    if d < 10 {
        crate::text::digit_char(d)
    } else {
        (('a' as nat) + (d - 10)) as char
    }
}

/// The last `n` hexadecimal digits of `v`, most significant first (zero padded).
pub open spec fn hex_digits(v: nat, n: nat) -> Seq<char>
    decreases n,
{
    if n == 0 {
        Seq::empty()
    } else {
        hex_digits(v / 16, (n - 1) as nat).push(hex_digit(v % 16))
    }
}

fn hex_char(d: u64) -> (c: char)
    requires
        d < 16,
    ensures
        c == hex_digit(d as nat),
{
    match d {
        0 => '0',
        1 => '1',
        2 => '2',
        3 => '3',
        4 => '4',
        5 => '5',
        6 => '6',
        7 => '7',
        8 => '8',
        9 => '9',
        10 => 'a',
        11 => 'b',
        12 => 'c',
        13 => 'd',
        14 => 'e',
        _ => 'f',
    }
}

/// Appends the last `n` hexadecimal digits of `v`.
fn push_hex(s: &mut Vec<char>, v: u64, n: u64)
    ensures
        final(s)@ == old(s)@ + hex_digits(v as nat, n as nat),
    decreases n,
{
    if n > 0 {
        push_hex(s, v / 16, n - 1);
        let c = hex_char(v % 16);
        s.push(c);
    }
}

/// The identifier of a diagnostic: the rule name lowercased with spaces turned
/// into dashes, a dash, and the low 32 bits of the key hash in 8 hex digits.
pub open spec fn diagnostic_id(rule_name: Seq<char>, line: usize, column: usize, message: Seq<char>) -> Seq<char> {
    replace_char(lowercase(rule_name), ' ', '-') + seq!['-'] + hex_digits(
        (key_hash(rule_name, line, column, message) % 0x1_0000_0000) as nat,
        8,
    )
}

/// Generates the identifier of a diagnostic from rule, location and message.
pub fn generate_diagnostic_id(rule_name: &str, line: usize, column: usize, message: &str) -> (r:
    String)
    ensures
        r@ == diagnostic_id(rule_name@, line, column, message@),
{
    let h = hash_key(rule_name, line, column, message);
    let low = h % 0x1_0000_0000;
    let lower = str_to_lowercase(rule_name);
    let mut id = replace_char_in(lower.as_str(), ' ', '-');
    id.append("-");
    proof {
        reveal_strlit("-");
    }
    let mut hex: Vec<char> = Vec::new();
    push_hex(&mut hex, low, 8);
    let hs = crate::text::string_from_chars(hex.as_slice());
    id.append(hs.as_str());
    assert(hex@ =~= hex_digits(low as nat, 8));
    id
}

/// The current system time in milliseconds since the Unix epoch (0 when the clock
/// reads before the epoch). Nothing is claimed of the value: it is the clock's.
#[verifier::external_body]
pub fn current_timestamp_ms() -> (r: u64) {
    std::time::SystemTime::now()
        .duration_since(std::time::UNIX_EPOCH)
        .map(|d| d.as_millis() as u64)
        .unwrap_or(0)
}

/// Number of line feeds among the bytes.
pub open spec fn count_newlines(b: Seq<u8>) -> nat
    decreases b.len(),
{
    if b.len() == 0 {
        0
    } else {
        count_newlines(b.drop_last()) + if b.last() == 10u8 { 1nat } else { 0nat }
    }
}

/// Index just past the last line feed among the bytes, or 0 when there is none.
pub open spec fn last_line_start(b: Seq<u8>) -> nat
    decreases b.len(),
{
    if b.len() == 0 {
        0
    } else if b.last() == 10u8 {
        b.len()
    } else {
        last_line_start(b.drop_last())
    }
}

/// Number of characters that start among the bytes: those that are not UTF-8
/// continuation bytes.
pub open spec fn count_char_starts(b: Seq<u8>) -> nat
    decreases b.len(),
{
    if b.len() == 0 {
        0
    } else {
        count_char_starts(b.drop_last()) + if is_continuation_byte(b.last()) { 0nat } else { 1nat }
    }
}

/// The position of a byte offset (clamped to the text): 1-based line, 1-based
/// column counted in characters from the line's start, and the offset.
pub open spec fn position_of(b: Seq<u8>, offset: usize) -> DiagnosticPosition {
    let o = if offset <= b.len() { offset as int } else { b.len() as int };
    let start = last_line_start(b.take(o));
    dpos_new(
        (1 + count_newlines(b.take(o))) as usize,
        (1 + count_char_starts(b.subrange(start as int, o))) as usize,
        o as usize,
    )
}

/// True when slicing the text at the offset (clamped to the text) does not panic.
pub open spec fn offset_ok(b: Seq<u8>, offset: usize) -> bool {
    offset >= b.len() || is_char_boundary(b, offset as int)
}

proof fn lemma_counts_bounded(b: Seq<u8>)
    ensures
        count_newlines(b) <= b.len(),
        last_line_start(b) <= b.len(),
        count_char_starts(b) <= b.len(),
    decreases b.len(),
{
    if b.len() > 0 {
        lemma_counts_bounded(b.drop_last());
    }
}

/// Computes the 1-based line and column of a byte offset within a text.
pub fn offset_to_position(source: &str, offset: usize) -> (r: DiagnosticPosition)
    requires
        source.spec_bytes().len() < usize::MAX,
        offset_ok(source.spec_bytes(), offset),
    ensures
        r == position_of(source.spec_bytes(), offset),
{
    let bytes = source.as_bytes();
    let ghost b = source.spec_bytes();
    let n = bytes.len();
    let o = if offset <= n { offset } else { n };
    let mut line: usize = 1;
    let mut start: usize = 0;
    let mut i: usize = 0;
    while i < o
        invariant
            bytes@ == b,
            n == b.len(),
            n < usize::MAX,
            o <= n,
            i <= o,
            line == 1 + count_newlines(b.take(i as int)),
            start == last_line_start(b.take(i as int)),
        decreases o - i,
    {
        proof {
            assert(b.take(i + 1).drop_last() =~= b.take(i as int));
            lemma_counts_bounded(b.take(i as int));
        }
        if bytes[i] == 10u8 {
            line = line + 1;
            start = i + 1;
        }
        i = i + 1;
    }
    proof {
        lemma_counts_bounded(b.take(o as int));
    }
    let mut col: usize = 1;
    let mut j: usize = start;
    while j < o
        invariant
            bytes@ == b,
            n == b.len(),
            n < usize::MAX,
            o <= n,
            start <= j <= o,
            col == 1 + count_char_starts(b.subrange(start as int, j as int)),
        decreases o - j,
    {
        proof {
            assert(b.subrange(start as int, j + 1).drop_last() =~= b.subrange(start as int, j as int));
            lemma_counts_bounded(b.subrange(start as int, j as int));
        }
        let x = bytes[j];
        if !(x >= 0x80u8 && x <= 0xbfu8) {
            col = col + 1;
        }
        j = j + 1;
    }
    DiagnosticPosition::new(line, col, o)
}

/// The range between two byte offsets (an end before the start counts as the start).
pub fn offsets_to_range(source: &str, start_offset: usize, end_offset: usize) -> (r: DiagnosticRange)
    requires
        source.spec_bytes().len() < usize::MAX,
        offset_ok(source.spec_bytes(), start_offset),
        offset_ok(source.spec_bytes(), end_offset),
    ensures
        r.start == position_of(source.spec_bytes(), start_offset),
        r.end == position_of(
            source.spec_bytes(),
            if end_offset >= start_offset { end_offset } else { start_offset },
        ),
{
    let start_pos = offset_to_position(source, start_offset);
    let e = if end_offset >= start_offset { end_offset } else { start_offset };
    let end_pos = offset_to_position(source, e);
    DiagnosticRange::new(start_pos, end_pos)
}

} // verus!
