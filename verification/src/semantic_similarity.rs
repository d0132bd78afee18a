//! Keywords of a change: words taken from the paths, contents and diffs of
//! the staged files, ranked by how often they occur.

use vstd::prelude::*;
use vstd::string::*;
use crate::context::StagedFile;
use crate::sync::{file_name, lemma_name_start_is, name_start};
use crate::text::{
    capped, chars_of, contains_chars, contains_text, fields_from, pieces, piece, split_fields,
    str_eq, texts, tokens, Separator,
};
use vstd::utf8::encode_utf8;
use crate::unicode::{
    is_alphanumeric, is_alphanumeric_char, is_lowercase, is_lowercase_char, is_uppercase,
    is_uppercase_char, lowercase_text, to_lowercase,
};

verus! {

/// Where the run of uppercase letters that starts at `i` ends.
pub open spec fn upper_run_end(s: Seq<char>, i: int) -> int
    decreases s.len() - i,
{
    if 0 <= i < s.len() && is_uppercase_char(s[i]) {
        upper_run_end(s, i + 1)
    } else {
        i
    }
}

proof fn lemma_upper_run_end(s: Seq<char>, i: int)
    requires
        0 <= i <= s.len(),
    ensures
        i <= upper_run_end(s, i) <= s.len(),
        i < s.len() && is_uppercase_char(s[i]) ==> i < upper_run_end(s, i),
    decreases s.len() - i,
{
    if i < s.len() && is_uppercase_char(s[i]) {
        lemma_upper_run_end(s, i + 1);
    }
}

/// A run of two or more uppercase letters from `i` to `j` that a lowercase
/// letter or the end of the text follows: an acronym, whose last letter
/// starts the next word.
pub open spec fn is_acronym(s: Seq<char>, i: int, j: int) -> bool {
    j > i + 1 && (j == s.len() || (j < s.len() && is_lowercase_char(s[j])))
}

/// The words of `s` from position `i` on, where the word in progress began
/// at `start`. An uppercase letter ends the word in progress. An acronym
/// gives a word of its own without its last letter; any other uppercase
/// letter starts a new word.
pub open spec fn camel_words_from(s: Seq<char>, start: int, i: int) -> Seq<Seq<char>>
    decreases s.len() - i,
    via camel_words_decreases
{
    let pending = if start < i {
        seq![s.subrange(start, i)]
    } else {
        Seq::<Seq<char>>::empty()
    };
    if i < 0 || i >= s.len() {
        pending
    } else if is_uppercase_char(s[i]) {
        let j = upper_run_end(s, i);
        if is_acronym(s, i, j) {
            pending + seq![s.subrange(i, j - 1)] + camel_words_from(s, j - 1, j)
        } else {
            pending + camel_words_from(s, i, i + 1)
        }
    } else {
        camel_words_from(s, start, i + 1)
    }
}

#[via_fn]
proof fn camel_words_decreases(s: Seq<char>, start: int, i: int) {
    if 0 <= i < s.len() {
        lemma_upper_run_end(s, i);
    }
}

/// The words of a name written in camel case.
pub open spec fn camel_words(s: Seq<char>) -> Seq<Seq<char>> {
    camel_words_from(s, 0, 0)
}

/// Split camelCase into individual words.
pub fn split_camel_case(s: &str) -> (words: Vec<String>)
    ensures
        texts(words@) == camel_words(s@),
{
    let cs = chars_of(s);
    let n: usize = cs.len();
    let mut words: Vec<String> = Vec::new();
    let mut start: usize = 0;
    let mut i: usize = 0;
    assert(texts(words@) =~= Seq::<Seq<char>>::empty());
    while i < n
        invariant
            cs@ == s@,
            n == cs.len(),
            start <= i <= n,
            camel_words(s@) == texts(words@) + camel_words_from(s@, start as int, i as int),
        decreases n - i,
    {
        if is_uppercase(cs[i]) {
            let ghost before = texts(words@);
            if start < i {
                words.push(piece(s, start, i));
                assert(texts(words@) =~= before.push(s@.subrange(start as int, i as int)));
            }
            let ghost flushed = texts(words@);
            let mut j: usize = i;
            while j < n && is_uppercase(cs[j])
                invariant
                    cs@ == s@,
                    n == cs.len(),
                    i <= j <= n,
                    upper_run_end(s@, i as int) == upper_run_end(s@, j as int),
                decreases n - j,
            {
                j += 1;
            }
            if j > i + 1 && (j == n || is_lowercase(cs[j])) {
                words.push(piece(s, i, j - 1));
                proof {
                    assert(texts(words@) =~= flushed.push(s@.subrange(i as int, j - 1)));
                    assert(camel_words(s@) =~= texts(words@) + camel_words_from(s@, j - 1, j as int));
                }
                start = j - 1;
                i = j;
            } else {
                proof {
                    assert(camel_words(s@) =~= texts(words@) + camel_words_from(
                        s@,
                        i as int,
                        i + 1,
                    ));
                }
                start = i;
                i += 1;
            }
        } else {
            i += 1;
        }
    }
    if start < i {
        let ghost before = texts(words@);
        words.push(piece(s, start, n));
        assert(texts(words@) =~= before.push(s@.subrange(start as int, n as int)));
    }
    assert(camel_words(s@) =~= texts(words@));
    words
}

/// Which words are kept.
#[derive(Debug, Clone, Copy, PartialEq, Eq, Structural)]
pub enum WordRule {
    /// Words of more than this many bytes.
    Longer(usize),
    /// Words of more than this many bytes that hold only letters, digits
    /// and underscores.
    Plain(usize),
    /// Lines of a diff that were added or removed.
    Changed,
}

/// `c` can stand in a plain word.
pub open spec fn is_word_char(c: char) -> bool {
    is_alphanumeric_char(c) || c == '_'
}

impl WordRule {
    /// The rule keeps `word`.
    pub open spec fn accepts(self, word: Seq<char>) -> bool {
        match self {
            WordRule::Longer(min) => encode_utf8(word).len() > min,
            WordRule::Plain(min) => encode_utf8(word).len() > min && forall|i: int|
                0 <= i < word.len() ==> is_word_char(#[trigger] word[i]),
            WordRule::Changed => word.len() > 0 && (word[0] == '+' || word[0] == '-'),
        }
    }

    fn keeps(&self, word: &str) -> (b: bool)
        ensures
            b == self.accepts(word@),
    {
        match self {
            WordRule::Longer(min) => word.as_bytes().len() > *min,
            WordRule::Plain(min) => {
                if word.as_bytes().len() <= *min {
                    return false;
                }
                let cs = chars_of(word);
                let mut i: usize = 0;
                while i < cs.len()
                    invariant
                        i <= cs.len(),
                        cs@ == word@,
                        *self == WordRule::Plain(*min),
                        encode_utf8(word@).len() > *min,
                        forall|k: int| 0 <= k < i ==> is_word_char(#[trigger] word@[k]),
                    decreases cs.len() - i,
                {
                    if !(is_alphanumeric(cs[i]) || cs[i] == '_') {
                        assert(!is_word_char(word@[i as int]));
                        return false;
                    }
                    i += 1;
                }
                true
            },
            WordRule::Changed => {
                if word.unicode_len() == 0 {
                    return false;
                }
                let first = word.get_char(0);
                first == '+' || first == '-'
            },
        }
    }
}

/// The words among `words` that the rule keeps, in order.
pub open spec fn kept(words: Seq<Seq<char>>, rule: WordRule) -> Seq<Seq<char>>
    decreases words.len(),
{
    if words.len() == 0 {
        Seq::empty()
    } else if rule.accepts(words.last()) {
        kept(words.drop_last(), rule).push(words.last())
    } else {
        kept(words.drop_last(), rule)
    }
}

/// Each word in lower case.
pub open spec fn lowered(words: Seq<Seq<char>>) -> Seq<Seq<char>> {
    Seq::new(words.len(), |i: int| lowercase_text(words[i]))
}

/// How a text is taken apart.
#[derive(Debug, Clone, Copy, PartialEq, Eq, Structural)]
pub enum Parts {
    /// Into the words of a camel-case name.
    Camel,
    /// Into its runs of characters that are not white space.
    Tokens,
}

impl Parts {
    /// The parts of `text`.
    pub open spec fn of(self, text: Seq<char>) -> Seq<Seq<char>> {
        match self {
            Parts::Camel => camel_words(text),
            Parts::Tokens => tokens(text),
        }
    }
}

/// The parts of each text, one after the other.
pub open spec fn parts_of_all(items: Seq<Seq<char>>, parts: Parts) -> Seq<Seq<char>>
    decreases items.len(),
{
    if items.len() == 0 {
        Seq::empty()
    } else {
        parts_of_all(items.drop_last(), parts) + parts.of(items.last())
    }
}

fn keep_words(words: &Vec<String>, rule: WordRule) -> (out: Vec<String>)
    ensures
        texts(out@) == kept(texts(words@), rule),
{
    let mut out: Vec<String> = Vec::new();
    let mut i: usize = 0;
    assert(texts(out@) =~= Seq::<Seq<char>>::empty());
    while i < words.len()
        invariant
            i <= words.len(),
            texts(out@) == kept(texts(words@).take(i as int), rule),
        decreases words.len() - i,
    {
        proof {
            let now = texts(words@).take(i + 1);
            assert(now.drop_last() =~= texts(words@).take(i as int));
            assert(now.last() == words[i as int]@);
        }
        if rule.keeps(words[i].as_str()) {
            let ghost before = texts(out@);
            out.push(words[i].clone());
            assert(texts(out@) =~= before.push(words[i as int]@));
        }
        i += 1;
    }
    assert(texts(words@).take(words.len() as int) =~= texts(words@));
    out
}

fn lower_words(words: &Vec<String>) -> (out: Vec<String>)
    ensures
        texts(out@) == lowered(texts(words@)),
{
    let mut out: Vec<String> = Vec::new();
    let mut i: usize = 0;
    while i < words.len()
        invariant
            i <= words.len(),
            out.len() == i,
            forall|k: int| 0 <= k < i ==> out[k]@ == lowercase_text(words[k]@),
        decreases words.len() - i,
    {
        out.push(to_lowercase(words[i].as_str()));
        i += 1;
    }
    assert(texts(out@) =~= lowered(texts(words@)));
    out
}

fn take_words(words: &Vec<String>, limit: usize) -> (out: Vec<String>)
    ensures
        texts(out@) == if words.len() > limit {
            texts(words@).take(limit as int)
        } else {
            texts(words@)
        },
{
    let mut out: Vec<String> = Vec::new();
    let mut i: usize = 0;
    while i < words.len() && i < limit
        invariant
            i <= words.len(),
            i <= limit,
            out.len() == i,
            forall|k: int| 0 <= k < i ==> out[k]@ == words[k]@,
        decreases words.len() - i,
    {
        out.push(words[i].clone());
        i += 1;
    }
    if words.len() > limit {
        assert(texts(out@) =~= texts(words@).take(limit as int));
    } else {
        assert(texts(out@) =~= texts(words@));
    }
    out
}

fn parts_of(text: &str, parts: Parts) -> (out: Vec<String>)
    ensures
        texts(out@) == parts.of(text@),
{
    match parts {
        Parts::Camel => split_camel_case(text),
        Parts::Tokens => split_fields(text, Separator::Whitespace, false),
    }
}

fn split_all(items: &Vec<String>, parts: Parts) -> (out: Vec<String>)
    ensures
        texts(out@) == parts_of_all(texts(items@), parts),
{
    let mut out: Vec<String> = Vec::new();
    let mut i: usize = 0;
    assert(texts(out@) =~= Seq::<Seq<char>>::empty());
    while i < items.len()
        invariant
            i <= items.len(),
            texts(out@) == parts_of_all(texts(items@).take(i as int), parts),
        decreases items.len() - i,
    {
        proof {
            let now = texts(items@).take(i + 1);
            assert(now.drop_last() =~= texts(items@).take(i as int));
            assert(now.last() == items[i as int]@);
        }
        let more = parts_of(items[i].as_str(), parts);
        let ghost start = texts(out@);
        let mut j: usize = 0;
        while j < more.len()
            invariant
                j <= more.len(),
                texts(out@) == start + texts(more@).take(j as int),
            decreases more.len() - j,
        {
            let ghost before = texts(out@);
            out.push(more[j].clone());
            proof {
                assert(texts(out@) =~= before.push(more[j as int]@));
                assert(texts(more@).take(j + 1) =~= texts(more@).take(j as int).push(more[j as int]@));
                assert(texts(out@) =~= start + texts(more@).take(j + 1));
            }
            j += 1;
        }
        assert(texts(more@).take(more.len() as int) =~= texts(more@));
        i += 1;
    }
    assert(texts(items@).take(items.len() as int) =~= texts(items@));
    out
}

/// The part of a file name before its first dot.
pub open spec fn stem(name: Seq<char>) -> Seq<char> {
    pieces(name, '.')[0]
}

/// The keywords that a path gives: the name of the file without what
/// follows its first dot, taken apart at underscores and as camel case, in
/// lower case, without the words of two bytes or less.
pub open spec fn path_words(path: Seq<char>) -> Seq<Seq<char>> {
    kept(
        lowered(parts_of_all(pieces(stem(file_name(path)), '_'), Parts::Camel)),
        WordRule::Longer(2),
    )
}

/// The keywords that a content gives: of its first hundred words, those of
/// more than three bytes made of letters, digits and underscores, in lower
/// case.
pub open spec fn content_words(content: Seq<char>) -> Seq<Seq<char>> {
    let words = tokens(content);
    let first = if words.len() > 100 {
        words.take(100)
    } else {
        words
    };
    lowered(kept(first, WordRule::Plain(3)))
}

/// The keywords that a diff gives: the first fifty words of its added and
/// removed lines that have more than three bytes and are made of letters,
/// digits and underscores, in lower case.
pub open spec fn diff_words(diff: Seq<char>) -> Seq<Seq<char>> {
    let lines = kept(pieces(diff, '\n'), WordRule::Changed);
    let words = lowered(kept(parts_of_all(lines, Parts::Tokens), WordRule::Plain(3)));
    if words.len() > 50 {
        words.take(50)
    } else {
        words
    }
}

proof fn lemma_fields_first(s: Seq<char>, sep: Separator, start: int, i: int)
    requires
        0 <= start <= i <= s.len(),
    ensures
        fields_from(s, sep, true, start, i).len() >= 1,
    decreases s.len() - i,
{
    if i < s.len() && !sep.separates(s[i]) {
        lemma_fields_first(s, sep, start, i + 1);
    }
}

fn words_of_path(path: &str) -> (words: Vec<String>)
    ensures
        texts(words@) == path_words(path@),
{
    let cs = chars_of(path);
    let n: usize = cs.len();
    let mut start: usize = n;
    while start > 0 && cs[start - 1] != '/'
        invariant
            start <= n,
            n == cs.len(),
            cs@ == path@,
            forall|k: int| start <= k < n ==> path@[k] != '/',
        decreases start,
    {
        start -= 1;
    }
    proof {
        lemma_name_start_is(path@, start as int);
    }
    let name = piece(path, start, n);
    let parts = split_fields(name.as_str(), Separator::Char('.'), true);
    proof {
        lemma_fields_first(name@, Separator::Char('.'), 0, 0);
    }
    let name_without_ext = &parts[0];
    let sections = split_fields(name_without_ext.as_str(), Separator::Char('_'), true);
    let camel = split_all(&sections, Parts::Camel);
    let lower = lower_words(&camel);
    keep_words(&lower, WordRule::Longer(2))
}

fn words_of_content(content: &str) -> (words: Vec<String>)
    ensures
        texts(words@) == content_words(content@),
{
    let all = split_fields(content, Separator::Whitespace, false);
    let first = take_words(&all, 100);
    let plain = keep_words(&first, WordRule::Plain(3));
    lower_words(&plain)
}

fn words_of_diff(diff: &str) -> (words: Vec<String>)
    ensures
        texts(words@) == diff_words(diff@),
{
    let lines = split_fields(diff, Separator::Char('\n'), true);
    let changed = keep_words(&lines, WordRule::Changed);
    let all = split_all(&changed, Parts::Tokens);
    let plain = keep_words(&all, WordRule::Plain(3));
    let lower = lower_words(&plain);
    take_words(&lower, 50)
}

/// A keyword and the weight it has gathered.
#[derive(Debug)]
pub struct KeywordCount {
    pub word: String,
    pub count: usize,
}

/// The keywords and weights of a list of counts, in order.
pub open spec fn tally(counts: Seq<KeywordCount>) -> Seq<(Seq<char>, nat)> {
    Seq::new(counts.len(), |i: int| (counts[i].word@, counts[i].count as nat))
}

/// The position of `word` among the entries, or their number if it is not
/// among them.
pub open spec fn position_of(entries: Seq<(Seq<char>, nat)>, word: Seq<char>) -> int
    decreases entries.len(),
{
    if entries.len() == 0 {
        0
    } else if entries[0].0 == word {
        0
    } else {
        1 + position_of(entries.drop_first(), word)
    }
}

/// The entries after `word` gained `weight`: a word that is new comes last.
pub open spec fn bumped(entries: Seq<(Seq<char>, nat)>, word: Seq<char>, weight: nat) -> Seq<
    (Seq<char>, nat),
> {
    let at = position_of(entries, word);
    if at < entries.len() {
        entries.update(at, (word, capped(entries[at].1 + weight)))
    } else {
        entries.push((word, capped(weight)))
    }
}

/// The entries after each of `words` gained `weight`, one after the other.
pub open spec fn bumped_all(entries: Seq<(Seq<char>, nat)>, words: Seq<Seq<char>>, weight: nat) -> Seq<
    (Seq<char>, nat),
>
    decreases words.len(),
{
    if words.len() == 0 {
        entries
    } else {
        bumped(bumped_all(entries, words.drop_last(), weight), words.last(), weight)
    }
}

proof fn lemma_position_of(entries: Seq<(Seq<char>, nat)>, word: Seq<char>, at: int)
    requires
        0 <= at <= entries.len(),
        forall|k: int| 0 <= k < at ==> entries[k].0 != word,
        at == entries.len() || entries[at].0 == word,
    ensures
        position_of(entries, word) == at,
    decreases entries.len(),
{
    if at > 0 {
        let rest = entries.drop_first();
        assert forall|k: int| 0 <= k < at - 1 implies rest[k].0 != word by {
            assert(rest[k] == entries[k + 1]);
        }
        lemma_position_of(rest, word, at - 1);
    }
}

fn bump(counts: &mut Vec<KeywordCount>, word: &str, weight: usize)
    ensures
        tally(final(counts)@) == bumped(tally(old(counts)@), word@, weight as nat),
{
    let ghost before = tally(counts@);
    let mut i: usize = 0;
    while i < counts.len()
        invariant
            i <= counts.len(),
            counts@ == old(counts)@,
            forall|k: int| 0 <= k < i ==> before[k].0 != word@,
            before == tally(counts@),
        decreases counts.len() - i,
    {
        if str_eq(counts[i].word.as_str(), word) {
            proof {
                lemma_position_of(before, word@, i as int);
            }
            let count = counts[i].count.saturating_add(weight);
            counts.set(i, KeywordCount { word: word.to_owned(), count });
            assert(tally(counts@) =~= bumped(before, word@, weight as nat));
            return;
        }
        i += 1;
    }
    proof {
        lemma_position_of(before, word@, counts.len() as int);
    }
    counts.push(KeywordCount { word: word.to_owned(), count: weight });
    assert(tally(counts@) =~= bumped(before, word@, weight as nat));
}

fn bump_all(counts: &mut Vec<KeywordCount>, words: &Vec<String>, weight: usize)
    ensures
        tally(final(counts)@) == bumped_all(tally(old(counts)@), texts(words@), weight as nat),
{
    let mut i: usize = 0;
    while i < words.len()
        invariant
            i <= words.len(),
            tally(counts@) == bumped_all(
                tally(old(counts)@),
                texts(words@).take(i as int),
                weight as nat,
            ),
        decreases words.len() - i,
    {
        proof {
            let now = texts(words@).take(i + 1);
            assert(now.drop_last() =~= texts(words@).take(i as int));
            assert(now.last() == words[i as int]@);
        }
        bump(counts, words[i].as_str(), weight);
        i += 1;
    }
    assert(texts(words@).take(words.len() as int) =~= texts(words@));
}

/// The entries after one staged file was looked at: the words of its path
/// weigh two each, the words of its content and of its diff one each.
pub open spec fn file_tally(entries: Seq<(Seq<char>, nat)>, file: StagedFile) -> Seq<(Seq<char>, nat)> {
    let with_path = bumped_all(entries, path_words(file.path@), 2);
    let with_content = match file.content {
        Some(content) => bumped_all(with_path, content_words(content@), 1),
        None => with_path,
    };
    bumped_all(with_content, diff_words(file.diff@), 1)
}

/// The keywords of the staged files with their weights, each keyword where
/// it was first seen.
pub open spec fn files_tally(files: Seq<StagedFile>) -> Seq<(Seq<char>, nat)>
    decreases files.len(),
{
    if files.len() == 0 {
        Seq::empty()
    } else {
        file_tally(files_tally(files.drop_last()), files.last())
    }
}

/// The ranking names the entry at position `j`.
pub open spec fn names(order: Seq<usize>, j: int) -> bool {
    exists|k: int| 0 <= k < order.len() && #[trigger] order[k] == j
}

/// `order` ranks the entries: it names each entry once, the heavier before
/// the lighter, and entries of equal weight in the order in which they
/// stand.
pub open spec fn is_ranking(entries: Seq<(Seq<char>, nat)>, order: Seq<usize>) -> bool {
    &&& order.len() == entries.len()
    &&& forall|k: int| 0 <= k < order.len() ==> (#[trigger] order[k]) < entries.len()
    &&& forall|a: int, b: int| 0 <= a < b < order.len() ==> order[a] != order[b]
    &&& forall|j: int| 0 <= j < entries.len() ==> #[trigger] names(order, j)
    &&& forall|a: int, b: int|
        0 <= a < b < order.len() ==> entries[order[a] as int].1 >= entries[order[b] as int].1
    &&& forall|a: int, b: int|
        0 <= a < b < order.len() && entries[order[a] as int].1 == entries[order[b] as int].1
            ==> order[a] < order[b]
}

/// The first `limit` keywords of a ranking.
pub open spec fn top_words(entries: Seq<(Seq<char>, nat)>, order: Seq<usize>, limit: nat) -> Seq<
    Seq<char>,
> {
    Seq::new(
        if order.len() > limit {
            limit
        } else {
            order.len()
        },
        |k: int| entries[order[k] as int].0,
    )
}

fn rank(counts: &Vec<KeywordCount>) -> (order: Vec<usize>)
    ensures
        is_ranking(tally(counts@), order@),
{
    let ghost entries = tally(counts@);
    let mut order: Vec<usize> = Vec::new();
    let mut i: usize = 0;
    while i < counts.len()
        invariant
            i <= counts.len(),
            entries == tally(counts@),
            order.len() == i,
            forall|k: int| 0 <= k < order.len() ==> (#[trigger] order[k]) < i,
            forall|a: int, b: int| 0 <= a < b < order.len() ==> order[a] != order[b],
            forall|j: int| 0 <= j < i ==> #[trigger] names(order@, j),
            forall|a: int, b: int|
                0 <= a < b < order.len() ==> entries[order[a] as int].1 >= entries[order[b] as int].1,
            forall|a: int, b: int|
                0 <= a < b < order.len() && entries[order[a] as int].1 == entries[order[b] as int].1
                    ==> order[a] < order[b],
        decreases counts.len() - i,
    {
        let weight = counts[i].count;
        let mut p: usize = 0;
        while p < order.len() && counts[order[p]].count >= weight
            invariant
                p <= order.len(),
                i < counts.len(),
                weight == counts[i as int].count,
                entries == tally(counts@),
                forall|k: int| 0 <= k < order.len() ==> (#[trigger] order[k]) < i,
                forall|k: int| 0 <= k < p ==> entries[order[k] as int].1 >= weight,
            decreases order.len() - p,
        {
            p += 1;
        }
        let ghost before = order@;
        order.insert(p, i);
        proof {
            assert(forall|k: int| 0 <= k < p ==> order[k] == before[k]);
            assert(order[p as int] == i);
            assert(forall|k: int| p < k < order.len() ==> order[k] == before[k - 1]);
            assert forall|j: int| 0 <= j < i + 1 implies #[trigger] names(order@, j) by {
                if j == i {
                    assert(order[p as int] == j);
                } else {
                    assert(names(before, j));
                    let k = choose|k: int| 0 <= k < before.len() && #[trigger] before[k] == j;
                    if k < p {
                        assert(order[k] == j);
                    } else {
                        assert(order[k + 1] == j);
                    }
                }
            }
            assert forall|a: int, b: int| 0 <= a < b < order.len() implies entries[order[a] as int].1
                >= entries[order[b] as int].1 && (entries[order[a] as int].1
                == entries[order[b] as int].1 ==> order[a] < order[b]) by {
                if b < p {
                } else if b == p {
                } else if a < p {
                    assert(order[b] == before[b - 1]);
                } else if a == p {
                    assert(order[b] == before[b - 1]);
                    assert(entries[before[p as int] as int].1 < weight);
                    if b - 1 > p {
                        assert(entries[before[p as int] as int].1 >= entries[before[b - 1] as int].1);
                    }
                } else {
                    assert(order[a] == before[a - 1]);
                    assert(order[b] == before[b - 1]);
                }
            }
            assert forall|a: int, b: int| 0 <= a < b < order.len() implies order[a] != order[b] by {
                let x = if a < p { a } else { a - 1 };
                let y = if b < p { b } else { b - 1 };
                if a != p && b != p {
                    assert(order[a] == before[x]);
                    assert(order[b] == before[y]);
                }
            }
        }
        i += 1;
    }
    order
}

/// Ranks keywords by what the staged files say.
pub struct SemanticSimilarity {}

impl SemanticSimilarity {
    /// A ranker of keywords.
    pub fn new() -> (this: Self) {
        Self {  }
    }

    /// Gives each keyword of the path a weight of two.
    pub fn extract_from_path(&self, path: &str, counts: &mut Vec<KeywordCount>)
        ensures
            tally(final(counts)@) == bumped_all(tally(old(counts)@), path_words(path@), 2),
    {
        let words = words_of_path(path);
        bump_all(counts, &words, 2);
    }

    /// Gives each keyword of the content a weight of one.
    pub fn extract_from_content(&self, content: &str, counts: &mut Vec<KeywordCount>)
        ensures
            tally(final(counts)@) == bumped_all(tally(old(counts)@), content_words(content@), 1),
    {
        let words = words_of_content(content);
        bump_all(counts, &words, 1);
    }

    /// Gives each keyword of the diff a weight of one.
    pub fn extract_from_diff(&self, diff: &str, counts: &mut Vec<KeywordCount>)
        ensures
            tally(final(counts)@) == bumped_all(tally(old(counts)@), diff_words(diff@), 1),
    {
        let words = words_of_diff(diff);
        bump_all(counts, &words, 1);
    }

    /// The weights of the keywords of all staged files.
    pub fn count_keywords(&self, staged_files: &[StagedFile]) -> (counts: Vec<KeywordCount>)
        ensures
            tally(counts@) == files_tally(staged_files@),
    {
        let mut counts: Vec<KeywordCount> = Vec::new();
        let mut i: usize = 0;
        assert(tally(counts@) =~= Seq::<(Seq<char>, nat)>::empty());
        while i < staged_files.len()
            invariant
                i <= staged_files.len(),
                tally(counts@) == files_tally(staged_files@.take(i as int)),
            decreases staged_files.len() - i,
        {
            proof {
                let now = staged_files@.take(i + 1);
                assert(now.drop_last() =~= staged_files@.take(i as int));
                assert(now.last() == staged_files[i as int]);
            }
            let file = &staged_files[i];
            self.extract_from_path(file.path.as_str(), &mut counts);
            if let Some(content) = &file.content {
                self.extract_from_content(content.as_str(), &mut counts);
            }
            self.extract_from_diff(file.diff.as_str(), &mut counts);
            i += 1;
        }
        assert(staged_files@.take(staged_files.len() as int) =~= staged_files@);
        counts
    }

    /// Extract enhanced keywords from staged files and their changes: the
    /// twenty heaviest keywords, the heaviest first, and of two that weigh
    /// the same the one that was seen first.
    pub fn extract_keywords(&self, staged_files: &[StagedFile]) -> (keywords: Vec<String>)
        ensures
            exists|order: Seq<usize>|
                is_ranking(files_tally(staged_files@), order) && texts(keywords@) == top_words(
                    files_tally(staged_files@),
                    order,
                    20,
                ),
    {
        let counts = self.count_keywords(staged_files);
        let order = rank(&counts);
        let mut keywords: Vec<String> = Vec::new();
        let mut k: usize = 0;
        while k < order.len() && k < 20
            invariant
                k <= order.len(),
                k <= 20,
                keywords.len() == k,
                is_ranking(tally(counts@), order@),
                forall|j: int| 0 <= j < k ==> keywords[j]@ == tally(counts@)[order[j] as int].0,
            decreases order.len() - k,
        {
            keywords.push(counts[order[k]].word.clone());
            k += 1;
        }
        assert(texts(keywords@) =~= top_words(tally(counts@), order@, 20));
        keywords
    }
}

/// How many of the keywords stand in the text.
pub open spec fn matches_in(keywords: Seq<Seq<char>>, text: Seq<char>) -> nat
    decreases keywords.len(),
{
    if keywords.len() == 0 {
        0
    } else {
        matches_in(keywords.drop_last(), text) + if contains_text(text, keywords.last()) {
            1nat
        } else {
            0nat
        }
    }
}

/// The weight of a keyword: two for one that looks like a file name or a
/// path, one for any other.
pub open spec fn weight_of(keyword: Seq<char>) -> nat {
    if keyword.contains('.') || keyword.contains('/') {
        2
    } else {
        1
    }
}

impl SemanticSimilarity {
    /// Get weight for a keyword based on its type (file names get higher
    /// weight).
    pub fn get_keyword_weight(&self, keyword: &str) -> (weight: u8)
        ensures
            weight == weight_of(keyword@),
    {
        let cs = chars_of(keyword);
        let mut i: usize = 0;
        while i < cs.len()
            invariant
                i <= cs.len(),
                cs@ == keyword@,
                forall|k: int| 0 <= k < i ==> keyword@[k] != '.' && keyword@[k] != '/',
            decreases cs.len() - i,
        {
            if cs[i] == '.' || cs[i] == '/' {
                assert(keyword@.contains(cs[i as int]));
                return 2;
            }
            i += 1;
        }
        1
    }

    /// Counts the keywords that stand in the message, read in lower case.
    /// The similarity of the message to the change is this count divided
    /// by the number of keywords.
    pub fn count_matching_keywords(&self, keywords: &[String], message: &str) -> (matches: usize)
        ensures
            matches == matches_in(texts(keywords@), lowercase_text(message@)),
            matches <= keywords.len(),
    {
        let message_lower = to_lowercase(message);
        let text = chars_of(message_lower.as_str());
        let mut matches: usize = 0;
        let mut i: usize = 0;
        while i < keywords.len()
            invariant
                i <= keywords.len(),
                matches <= i,
                text@ == lowercase_text(message@),
                matches == matches_in(texts(keywords@).take(i as int), text@),
            decreases keywords.len() - i,
        {
            proof {
                let now = texts(keywords@).take(i + 1);
                assert(now.drop_last() =~= texts(keywords@).take(i as int));
                assert(now.last() == keywords[i as int]@);
            }
            let word = chars_of(keywords[i].as_str());
            if contains_chars(&text, &word) {
                matches += 1;
            }
            i += 1;
        }
        assert(texts(keywords@).take(keywords.len() as int) =~= texts(keywords@));
        matches
    }
}

} // verus!
