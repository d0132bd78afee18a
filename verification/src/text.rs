//! Small verified helpers on strings, seen as sequences of characters.

use vstd::prelude::*;
use vstd::string::*;
use crate::unicode::{is_whitespace, is_whitespace_char};

verus! {

/// The characters of `s`, in order.
pub fn chars_of(s: &str) -> (v: Vec<char>)
    ensures
        v@ == s@,
{
    let mut v: Vec<char> = Vec::new();
    for c in it: s.chars()
        invariant
            v@ == it.seq().take(it.index() as int),
            it.seq() == s@,
    {
        v.push(c);
    }
    v
}

/// Whether two string slices hold the same characters.
pub fn str_eq(a: &str, b: &str) -> (same: bool)
    ensures
        same == (a@ == b@),
{
    let x = chars_of(a);
    let y = chars_of(b);
    if x.len() != y.len() {
        return false;
    }
    let mut i: usize = 0;
    while i < x.len()
        invariant
            x@ == a@,
            y@ == b@,
            x.len() == y.len(),
            i <= x.len(),
            forall|k: int| 0 <= k < i ==> x[k] == y[k],
        decreases x.len() - i,
    {
        if x[i] != y[i] {
            assert(a@[i as int] != b@[i as int]);
            return false;
        }
        i += 1;
    }
    assert(x@ =~= y@);
    true
}

/// `needle` stands in `hay` at position `at`.
pub open spec fn occurs_at(hay: Seq<char>, needle: Seq<char>, at: int) -> bool {
    0 <= at && at + needle.len() <= hay.len() && hay.subrange(at, at + needle.len()) == needle
}

/// `needle` stands somewhere in `hay`.
pub open spec fn contains_text(hay: Seq<char>, needle: Seq<char>) -> bool {
    exists|at: int| occurs_at(hay, needle, at)
}

/// Whether `needle` stands in `hay` at position `at`, on character vectors.
pub fn matches_at(hay: &Vec<char>, needle: &Vec<char>, at: usize) -> (found: bool)
    requires
        at + needle.len() <= hay.len(),
    ensures
        found == occurs_at(hay@, needle@, at as int),
{
    let mut k: usize = 0;
    while k < needle.len()
        invariant
            at + needle.len() <= hay.len(),
            k <= needle.len(),
            forall|j: int| 0 <= j < k ==> hay[at + j] == needle[j],
        decreases needle.len() - k,
    {
        if hay[at + k] != needle[k] {
            assert(hay@.subrange(at as int, at + needle.len())[k as int] != needle@[k as int]);
            return false;
        }
        k += 1;
    }
    assert(hay@.subrange(at as int, at + needle.len()) =~= needle@);
    true
}

/// Whether `needle` stands somewhere in `hay`, on character vectors.
pub fn contains_chars(hay: &Vec<char>, needle: &Vec<char>) -> (found: bool)
    ensures
        found == contains_text(hay@, needle@),
{
    if needle.len() > hay.len() {
        return false;
    }
    let last: usize = hay.len() - needle.len();
    let mut at: usize = 0;
    while at < last
        invariant
            needle.len() <= hay.len(),
            last == hay.len() - needle.len(),
            at <= last,
            forall|p: int| 0 <= p < at ==> !occurs_at(hay@, needle@, p),
        decreases last - at,
    {
        if matches_at(hay, needle, at) {
            return true;
        }
        at += 1;
    }
    matches_at(hay, needle, last)
}

/// Whether the string `needle` stands somewhere in the string `hay`.
pub fn str_contains(hay: &str, needle: &str) -> (found: bool)
    ensures
        found == contains_text(hay@, needle@),
{
    let h = chars_of(hay);
    let n = chars_of(needle);
    contains_chars(&h, &n)
}

/// `text` with every occurrence of `pattern` taken out, found from left to
/// right. An empty pattern takes nothing out.
pub open spec fn without_pattern(text: Seq<char>, pattern: Seq<char>) -> Seq<char>
    decreases text.len(),
{
    if pattern.len() == 0 || text.len() < pattern.len() {
        text
    } else if text.subrange(0, pattern.len() as int) == pattern {
        without_pattern(text.subrange(pattern.len() as int, text.len() as int), pattern)
    } else {
        seq![text[0]] + without_pattern(text.subrange(1, text.len() as int), pattern)
    }
}

/// Takes every occurrence of `pattern` out of `text`.
pub fn remove_pattern(text: &str, pattern: &str) -> (out: String)
    ensures
        out@ == without_pattern(text@, pattern@),
{
    let cs = chars_of(text);
    let pat = chars_of(pattern);
    let n: usize = cs.len();
    let m: usize = pat.len();
    if m == 0 || n < m {
        return text.to_owned();
    }
    let mut out = String::new();
    let mut kept: usize = 0;
    let mut i: usize = 0;
    assert(text@.subrange(0, n as int) =~= text@);
    while i <= n - m
        invariant
            cs@ == text@,
            pat@ == pattern@,
            n == cs.len(),
            m == pat.len(),
            0 < m <= n,
            kept <= i <= n,
            without_pattern(text@, pattern@) == out@ + text@.subrange(kept as int, i as int)
                + without_pattern(text@.subrange(i as int, n as int), pattern@),
        decreases n - i,
    {
        let ghost rest = text@.subrange(i as int, n as int);
        if matches_at(&cs, &pat, i) {
            proof {
                assert(rest.subrange(0, m as int) =~= text@.subrange(i as int, i + m));
                assert(rest.subrange(m as int, rest.len() as int) =~= text@.subrange(i + m, n as int));
                assert(text@.subrange((i + m) as int, (i + m) as int) =~= Seq::<char>::empty());
                assert(out@ + text@.subrange(kept as int, i as int) + Seq::<char>::empty() =~= out@
                    + text@.subrange(kept as int, i as int));
            }
            out.append(text.substring_char(kept, i));
            i += m;
            kept = i;
        } else {
            proof {
                assert(rest.subrange(0, m as int) =~= text@.subrange(i as int, i + m));
                assert(rest.subrange(1, rest.len() as int) =~= text@.subrange(i + 1, n as int));
                assert(text@.subrange(kept as int, i as int) + seq![rest[0]] =~= text@.subrange(
                    kept as int,
                    i + 1,
                ));
                assert(out@ + text@.subrange(kept as int, i as int) + (seq![rest[0]]
                    + without_pattern(text@.subrange(i + 1, n as int), pattern@)) =~= out@
                    + text@.subrange(kept as int, i + 1) + without_pattern(
                    text@.subrange(i + 1, n as int),
                    pattern@,
                ));
            }
            i += 1;
        }
    }
    proof {
        assert(text@.subrange(kept as int, i as int) + text@.subrange(i as int, n as int)
            =~= text@.subrange(kept as int, n as int));
        assert(out@ + text@.subrange(kept as int, i as int) + text@.subrange(i as int, n as int)
            =~= out@ + text@.subrange(kept as int, n as int));
    }
    out.append(text.substring_char(kept, n));
    out
}

/// The texts that a list of strings holds.
pub open spec fn texts(strings: Seq<String>) -> Seq<Seq<char>> {
    Seq::new(strings.len(), |i: int| strings[i]@)
}

/// The digit for `d`, in lower case; `d` is below sixteen.
pub open spec fn digit_char(d: int) -> char {
    if d == 0 { '0' } else if d == 1 { '1' } else if d == 2 { '2' } else if d == 3 { '3' }
    else if d == 4 { '4' } else if d == 5 { '5' } else if d == 6 { '6' } else if d == 7 { '7' }
    else if d == 8 { '8' } else if d == 9 { '9' } else if d == 10 { 'a' } else if d == 11 { 'b' }
    else if d == 12 { 'c' } else if d == 13 { 'd' } else if d == 14 { 'e' } else { 'f' }
}

/// `n` written in the given base, without leading zeros.
pub open spec fn radix_text(n: nat, base: nat) -> Seq<char>
    decreases n,
    via radix_text_decreases
{
    if n < base || base < 2 {
        seq![digit_char(n as int)]
    } else {
        radix_text(n / base, base).push(digit_char((n % base) as int))
    }
}

#[via_fn]
proof fn radix_text_decreases(n: nat, base: nat) {
    if !(n < base || base < 2) {
        assert(n / base < n) by (nonlinear_arith)
            requires
                n >= base,
                base >= 2,
        ;
    }
}

/// `n` in hexadecimal, lower case, without leading zeros.
pub open spec fn hex_text(n: nat) -> Seq<char> {
    radix_text(n, 16)
}

/// `n` in decimal.
pub open spec fn decimal_text(n: nat) -> Seq<char> {
    radix_text(n, 10)
}

fn digit_str(d: u8) -> (t: &'static str)
    requires
        d < 16,
    ensures
        t@ == seq![digit_char(d as int)],
{
    proof {
        reveal_strlit("0");
        reveal_strlit("1");
        reveal_strlit("2");
        reveal_strlit("3");
        reveal_strlit("4");
        reveal_strlit("5");
        reveal_strlit("6");
        reveal_strlit("7");
        reveal_strlit("8");
        reveal_strlit("9");
        reveal_strlit("a");
        reveal_strlit("b");
        reveal_strlit("c");
        reveal_strlit("d");
        reveal_strlit("e");
        reveal_strlit("f");
    }
    let t = match d {
        0 => "0",
        1 => "1",
        2 => "2",
        3 => "3",
        4 => "4",
        5 => "5",
        6 => "6",
        7 => "7",
        8 => "8",
        9 => "9",
        10 => "a",
        11 => "b",
        12 => "c",
        13 => "d",
        14 => "e",
        _ => "f",
    };
    assert(t@ =~= seq![digit_char(d as int)]);
    t
}

/// The digits `low`, each below sixteen, from the last to the first.
pub open spec fn digits_reversed(low: Seq<u8>) -> Seq<char> {
    Seq::new(low.len(), |k: int| digit_char(low[low.len() - 1 - k] as int))
}

/// `value` written in the given base, without leading zeros.
pub fn to_radix(value: u64, base: u64) -> (s: String)
    requires
        2 <= base <= 16,
    ensures
        s@ == radix_text(value as nat, base as nat),
{
    let mut low: Vec<u8> = Vec::new();
    let mut n: u64 = value;
    while n >= base
        invariant
            2 <= base <= 16,
            forall|k: int| 0 <= k < low.len() ==> low[k] < 16,
            radix_text(value as nat, base as nat) == radix_text(n as nat, base as nat)
                + digits_reversed(low@),
        decreases n,
    {
        let d: u8 = (n % base) as u8;
        proof {
            let next = low@.push(d);
            assert(digits_reversed(next) =~= seq![digit_char(d as int)] + digits_reversed(low@));
            assert(radix_text(n as nat, base as nat) == radix_text((n / base) as nat, base as nat).push(
                digit_char(d as int),
            ));
            assert(radix_text((n / base) as nat, base as nat).push(digit_char(d as int))
                + digits_reversed(low@) =~= radix_text((n / base) as nat, base as nat)
                + digits_reversed(next));
        }
        low.push(d);
        n = n / base;
    }
    let mut s: String = digit_str(n as u8).to_owned();
    let mut i: usize = low.len();
    while i > 0
        invariant
            i <= low.len(),
            n < 16,
            forall|k: int| 0 <= k < low.len() ==> low[k] < 16,
            s@ == seq![digit_char(n as int)] + digits_reversed(low@).take(low.len() - i),
        decreases i,
    {
        i -= 1;
        let t = digit_str(low[i]);
        proof {
            let all = digits_reversed(low@);
            assert(all.take(low.len() - i) =~= all.take(low.len() - i - 1).push(
                digit_char(low[i as int] as int),
            ));
            assert(s@ + t@ =~= seq![digit_char(n as int)] + all.take(low.len() - i));
        }
        s.append(t);
    }
    proof {
        let all = digits_reversed(low@);
        assert(all.take(low.len() as int) =~= all);
    }
    s
}

/// `value` in hexadecimal, lower case, without leading zeros.
pub fn to_hex(value: u64) -> (s: String)
    ensures
        s@ == hex_text(value as nat),
{
    to_radix(value, 16)
}

/// `value` in decimal.
pub fn to_decimal(value: u64) -> (s: String)
    ensures
        s@ == decimal_text(value as nat),
{
    to_radix(value, 10)
}

/// The position of the first text equal to `text`, or the number of texts
/// if there is none.
pub open spec fn index_of_text(all: Seq<Seq<char>>, text: Seq<char>) -> int
    decreases all.len(),
{
    if all.len() == 0 {
        0
    } else if all[0] == text {
        0
    } else {
        1 + index_of_text(all.drop_first(), text)
    }
}

/// `at` is the position of the first text equal to `text`.
pub proof fn lemma_index_of_text(all: Seq<Seq<char>>, text: Seq<char>, at: int)
    requires
        0 <= at <= all.len(),
        forall|k: int| 0 <= k < at ==> all[k] != text,
        at == all.len() || all[at] == text,
    ensures
        index_of_text(all, text) == at,
    decreases all.len(),
{
    if at > 0 {
        let rest = all.drop_first();
        assert forall|k: int| 0 <= k < at - 1 implies rest[k] != text by {
            assert(rest[k] == all[k + 1]);
        }
        lemma_index_of_text(rest, text, at - 1);
    }
}

/// `a` comes before `b` in the order of strings: at the first position
/// where they differ `a` has the smaller character, or `a` ends there and
/// `b` goes on.
pub open spec fn text_lt_from(a: Seq<char>, b: Seq<char>, i: int) -> bool
    decreases a.len() - i,
{
    if i < 0 || i >= b.len() {
        false
    } else if i >= a.len() {
        true
    } else if a[i] != b[i] {
        (a[i] as u32) < (b[i] as u32)
    } else {
        text_lt_from(a, b, i + 1)
    }
}

/// `a` comes before `b` in the order of strings.
pub open spec fn text_lt(a: Seq<char>, b: Seq<char>) -> bool {
    text_lt_from(a, b, 0)
}

/// Whether `a` comes before `b` in the order of strings.
pub fn str_lt(a: &str, b: &str) -> (less: bool)
    ensures
        less == text_lt(a@, b@),
{
    let x = chars_of(a);
    let y = chars_of(b);
    let mut i: usize = 0;
    while i < x.len() && i < y.len()
        invariant
            x@ == a@,
            y@ == b@,
            i <= x.len(),
            i <= y.len(),
            text_lt(a@, b@) == text_lt_from(a@, b@, i as int),
        decreases x.len() - i,
    {
        if x[i] != y[i] {
            return (x[i] as u32) < (y[i] as u32);
        }
        i += 1;
    }
    i < y.len()
}

/// The characters of `s` from `from` to `to` as a string of their own.
pub fn piece(s: &str, from: usize, to: usize) -> (word: String)
    requires
        from <= to <= s@.len(),
    ensures
        word@ == s@.subrange(from as int, to as int),
{
    s.substring_char(from, to).to_owned()
}

/// What separates the fields of a text.
#[derive(Debug, Clone, Copy, PartialEq, Eq, Structural)]
pub enum Separator {
    /// This character.
    Char(char),
    /// Any white space.
    Whitespace,
}

impl Separator {
    /// `c` separates.
    pub open spec fn separates(self, c: char) -> bool {
        match self {
            Separator::Char(sep) => c == sep,
            Separator::Whitespace => is_whitespace_char(c),
        }
    }

    fn is_separator(&self, c: char) -> (b: bool)
        ensures
            b == self.separates(c),
    {
        match self {
            Separator::Char(sep) => c == *sep,
            Separator::Whitespace => is_whitespace(c),
        }
    }
}

/// The fields of `s` from position `i` on, where the field in progress
/// began at `start`. Each separator ends a field. Empty fields count only
/// if `keep_empty` says so.
pub open spec fn fields_from(s: Seq<char>, sep: Separator, keep_empty: bool, start: int, i: int) -> Seq<
    Seq<char>,
>
    decreases s.len() - i,
{
    let pending = if start < i || keep_empty {
        seq![s.subrange(start, i)]
    } else {
        Seq::<Seq<char>>::empty()
    };
    if i < 0 || i >= s.len() {
        pending
    } else if sep.separates(s[i]) {
        pending + fields_from(s, sep, keep_empty, i + 1, i + 1)
    } else {
        fields_from(s, sep, keep_empty, start, i + 1)
    }
}

/// The fields of `s` between separators.
pub open spec fn fields(s: Seq<char>, sep: Separator, keep_empty: bool) -> Seq<Seq<char>> {
    fields_from(s, sep, keep_empty, 0, 0)
}

/// The pieces of `s` between occurrences of `sep`, empty pieces included:
/// one more than there are occurrences.
pub open spec fn pieces(s: Seq<char>, sep: char) -> Seq<Seq<char>> {
    fields(s, Separator::Char(sep), true)
}

/// The runs of characters of `s` that are not white space.
pub open spec fn tokens(s: Seq<char>) -> Seq<Seq<char>> {
    fields(s, Separator::Whitespace, false)
}

/// Splits `s` into its fields.
pub fn split_fields(s: &str, sep: Separator, keep_empty: bool) -> (out: Vec<String>)
    ensures
        texts(out@) == fields(s@, sep, keep_empty),
{
    let cs = chars_of(s);
    let n: usize = cs.len();
    let mut out: Vec<String> = Vec::new();
    let mut start: usize = 0;
    let mut i: usize = 0;
    assert(texts(out@) =~= Seq::<Seq<char>>::empty());
    while i < n
        invariant
            cs@ == s@,
            n == cs.len(),
            start <= i <= n,
            fields(s@, sep, keep_empty) == texts(out@) + fields_from(
                s@,
                sep,
                keep_empty,
                start as int,
                i as int,
            ),
        decreases n - i,
    {
        if sep.is_separator(cs[i]) {
            if start < i || keep_empty {
                let ghost before = texts(out@);
                out.push(piece(s, start, i));
                assert(texts(out@) =~= before.push(s@.subrange(start as int, i as int)));
            }
            proof {
                assert(fields(s@, sep, keep_empty) =~= texts(out@) + fields_from(
                    s@,
                    sep,
                    keep_empty,
                    i + 1,
                    i + 1,
                ));
            }
            start = i + 1;
        }
        i += 1;
    }
    if start < i || keep_empty {
        let ghost before = texts(out@);
        out.push(piece(s, start, n));
        assert(texts(out@) =~= before.push(s@.subrange(start as int, n as int)));
    }
    assert(fields(s@, sep, keep_empty) =~= texts(out@));
    out
}

/// A count, held at the largest number that the machine can count to.
pub open spec fn capped(n: nat) -> nat {
    if n > usize::MAX {
        usize::MAX as nat
    } else {
        n
    }
}

/// The first position from `i` on that holds no white space.
pub open spec fn first_visible(s: Seq<char>, i: int) -> int
    decreases s.len() - i,
{
    if 0 <= i < s.len() && is_whitespace_char(s[i]) {
        first_visible(s, i + 1)
    } else {
        i
    }
}

/// The position after the last character before `j` that is no white
/// space.
pub open spec fn last_visible(s: Seq<char>, j: int) -> int
    decreases j,
{
    if 0 < j <= s.len() && is_whitespace_char(s[j - 1]) {
        last_visible(s, j - 1)
    } else {
        j
    }
}

/// `s` without the white space at its start and at its end.
pub open spec fn trimmed(s: Seq<char>) -> Seq<char> {
    let from = first_visible(s, 0);
    let to = last_visible(s, s.len() as int);
    if from < to {
        s.subrange(from, to)
    } else {
        Seq::empty()
    }
}

/// Takes the white space off both ends of `s`.
pub fn trim(s: &str) -> (out: String)
    ensures
        out@ == trimmed(s@),
{
    let cs = chars_of(s);
    let n: usize = cs.len();
    let mut from: usize = 0;
    while from < n && is_whitespace(cs[from])
        invariant
            cs@ == s@,
            n == cs.len(),
            from <= n,
            first_visible(s@, 0) == first_visible(s@, from as int),
        decreases n - from,
    {
        from += 1;
    }
    let mut to: usize = n;
    while to > 0 && is_whitespace(cs[to - 1])
        invariant
            cs@ == s@,
            n == cs.len(),
            to <= n,
            last_visible(s@, n as int) == last_visible(s@, to as int),
        decreases to,
    {
        to -= 1;
    }
    if from < to {
        piece(s, from, to)
    } else {
        String::new()
    }
}

/// A line without the carriage return at its end, if it has one.
pub open spec fn without_return(line: Seq<char>) -> Seq<char> {
    if line.len() > 0 && line.last() == '\r' {
        line.drop_last()
    } else {
        line
    }
}

/// The lines of `s`. A line ends with a line feed, or with a carriage
/// return and a line feed; what follows the last line feed is a line only
/// if it is not empty.
pub open spec fn text_lines(s: Seq<char>) -> Seq<Seq<char>> {
    let parts = pieces(s, '\n');
    let count = if parts.len() > 0 && parts.last().len() == 0 {
        (parts.len() - 1) as nat
    } else {
        parts.len()
    };
    Seq::new(
        count,
        |i: int|
            if i < parts.len() - 1 {
                without_return(parts[i])
            } else {
                parts[i]
            },
    )
}

/// Splits `s` into its lines.
pub fn lines_of(s: &str) -> (lines: Vec<String>)
    ensures
        texts(lines@) == text_lines(s@),
{
    let parts = split_fields(s, Separator::Char('\n'), true);
    let mut lines: Vec<String> = Vec::new();
    if parts.len() == 0 {
        assert(texts(lines@) =~= text_lines(s@));
        return lines;
    }
    let last: usize = parts.len() - 1;
    let count: usize = if parts[last].as_str().unicode_len() == 0 {
        last
    } else {
        parts.len()
    };
    let mut i: usize = 0;
    while i < count
        invariant
            i <= count <= parts.len(),
            last == parts.len() - 1,
            lines.len() == i,
            forall|k: int|
                0 <= k < i ==> lines[k]@ == if k < last {
                    without_return(parts[k]@)
                } else {
                    parts[k]@
                },
        decreases count - i,
    {
        let part = parts[i].as_str();
        let len: usize = part.unicode_len();
        if i < last && len > 0 && part.get_char(len - 1) == '\r' {
            let line = piece(part, 0, len - 1);
            assert(line@ =~= without_return(part@));
            lines.push(line);
        } else {
            lines.push(parts[i].clone());
        }
        i += 1;
    }
    assert(texts(lines@) =~= text_lines(s@));
    lines
}

/// The texts put together with `sep` between them.
pub open spec fn joined_with(parts: Seq<Seq<char>>, sep: Seq<char>) -> Seq<char>
    decreases parts.len(),
{
    if parts.len() == 0 {
        Seq::empty()
    } else if parts.len() == 1 {
        parts[0]
    } else {
        joined_with(parts.drop_last(), sep) + sep + parts.last()
    }
}

/// Puts the strings from position `from` on together with `sep` between
/// them.
pub fn join_from(parts: &Vec<String>, from: usize, sep: &str) -> (out: String)
    requires
        from <= parts.len(),
    ensures
        out@ == joined_with(texts(parts@).skip(from as int), sep@),
{
    let mut out = String::new();
    let ghost rest = texts(parts@).skip(from as int);
    let mut i: usize = from;
    assert(rest.take(0) =~= Seq::<Seq<char>>::empty());
    while i < parts.len()
        invariant
            from <= i <= parts.len(),
            rest == texts(parts@).skip(from as int),
            out@ == joined_with(rest.take(i - from), sep@),
        decreases parts.len() - i,
    {
        proof {
            let now = rest.take(i - from + 1);
            assert(now.drop_last() =~= rest.take(i - from));
            assert(now.last() == parts[i as int]@);
        }
        if i > from {
            out.append(sep);
        } else {
            assert(out@ + parts[i as int]@ =~= parts[i as int]@);
        }
        out.append(parts[i].as_str());
        i += 1;
    }
    assert(rest.take(parts.len() - from) =~= rest);
    out
}

} // verus!
