//! Checking that a destination still matches its source: what two
//! directory comparisons found becomes a result and the lines to show.

use vstd::prelude::*;
use vstd::string::*;
use crate::error::ErrorType;
use crate::text::{remove_pattern, texts, without_pattern};

verus! {

/// `text` as the standard library prints it for debugging: in double
/// quotes, with the characters that need it escaped.
pub uninterp spec fn debug_quoted(text: Seq<char>) -> Seq<char>;

/// Calls the standard library's `Debug` formatting of `str` through
/// `format!`. The contract only names the result: it is the quoted form of
/// the text, a function of the text alone.
#[verifier::external_body]
fn quote(text: &str) -> (quoted: String)
    ensures
        quoted@ == debug_quoted(text@),
{
    format!("{text:?}")
}

/// The path of a file that a comparison found.
#[derive(Debug)]
pub enum FoundPath {
    /// The path as text.
    Text(String),
    /// A path that is no UTF-8 text, as the platform shows it for
    /// debugging.
    Rendered(String),
}

impl FoundPath {
    /// The path as a report shows it: a text in quotes, a path that is no
    /// text as it was rendered.
    pub open spec fn shown(self) -> Seq<char> {
        match self {
            FoundPath::Text(text) => debug_quoted(text@),
            FoundPath::Rendered(rendered) => rendered@,
        }
    }

    /// The path as a report shows it.
    pub fn show(&self) -> (text: String)
        ensures
            text@ == self.shown(),
    {
        match self {
            FoundPath::Text(text) => quote(text.as_str()),
            FoundPath::Rendered(rendered) => rendered.clone(),
        }
    }
}

/// The files that the two comparisons found, by their paths. Among the
/// missing files a path that is no UTF-8 text is `None`: such a path cannot
/// be shown below the root, and ends the report.
#[derive(Debug)]
pub struct Differences {
    /// The root of the fresh checkout.
    pub temp_root: Option<String>,
    /// Files of the fresh checkout that the destination lacks.
    pub missing: Vec<Option<String>>,
    /// Files of the destination that the fresh checkout lacks.
    pub extra: Vec<FoundPath>,
    /// Files of the destination that differ from the fresh checkout.
    pub changed: Vec<FoundPath>,
}

/// What comparing the fresh checkout with the destination gave.
#[derive(Debug)]
pub enum Comparison {
    /// One of the two comparisons could not be made.
    Failed,
    /// Both were made.
    Done(Differences),
}

/// The lines to show for one entry and its result: `Ok(true)` when the
/// destination matches, `Ok(false)` when it does not.
#[derive(Debug)]
pub struct CheckReport {
    pub lines: Vec<String>,
    pub result: Result<bool, ErrorType>,
}

/// How many paths at the start of `files` are text.
pub open spec fn leading_text(files: Seq<Option<String>>) -> nat
    decreases files.len(),
{
    if files.len() == 0 || files[0] is None {
        0
    } else {
        1 + leading_text(files.drop_first())
    }
}

/// The first line of every report.
pub open spec fn header_line(prefix: Seq<char>) -> Seq<char> {
    "  - "@ + prefix + "compare `src` and `dst`"@
}

/// The line for a file that the destination lacks; the root of the fresh
/// checkout is taken out of its path.
pub open spec fn missing_line(prefix: Seq<char>, root: Seq<char>, file: Seq<char>) -> Seq<char> {
    "    "@ + prefix + "! file "@ + debug_quoted(without_pattern(file, root)) + " does not exist"@
}

/// The line for a file that the fresh checkout lacks.
pub open spec fn extra_line(prefix: Seq<char>, shown: Seq<char>) -> Seq<char> {
    "    "@ + prefix + "! file "@ + shown + " does not exist on original"@
}

/// The line for a file that differs.
pub open spec fn changed_line(prefix: Seq<char>, shown: Seq<char>) -> Seq<char> {
    "    "@ + prefix + "! file "@ + shown + " is not identical to original"@
}

/// The failure that the differences lead to, if any: a missing file is
/// reported by its path below the root, so both must be text.
pub open spec fn differences_error(d: Differences) -> Option<ErrorType> {
    if d.missing.len() > 0 && (d.temp_root is None || leading_text(d.missing@) < d.missing.len()) {
        Some(ErrorType::CheckDifferenceStringReplace)
    } else {
        None
    }
}

/// The lines for the missing files: one for each path up to the first that
/// is no text, none at all without a root.
pub open spec fn missing_lines(prefix: Seq<char>, d: Differences) -> Seq<Seq<char>> {
    if d.temp_root is None {
        Seq::empty()
    } else {
        Seq::new(
            leading_text(d.missing@),
            |i: int| missing_line(prefix, d.temp_root->0@, d.missing[i]->0@),
        )
    }
}

/// The lines for the files that only the destination has and for those that
/// differ.
pub open spec fn drift_lines(prefix: Seq<char>, d: Differences) -> Seq<Seq<char>> {
    Seq::new(d.extra.len() as nat, |i: int| extra_line(prefix, d.extra[i].shown())) + Seq::new(
        d.changed.len() as nat,
        |i: int| changed_line(prefix, d.changed[i].shown()),
    )
}

/// All lines of the report.
pub open spec fn report_lines(prefix: Seq<char>, comparison: Comparison) -> Seq<Seq<char>> {
    match comparison {
        Comparison::Failed => seq![header_line(prefix)],
        Comparison::Done(d) => if differences_error(d) is Some {
            seq![header_line(prefix)] + missing_lines(prefix, d)
        } else {
            seq![header_line(prefix)] + missing_lines(prefix, d) + drift_lines(prefix, d)
        },
    }
}

/// The result: the destination matches when nothing is missing, nothing is
/// extra and nothing differs.
pub open spec fn report_result(comparison: Comparison) -> Result<bool, ErrorType> {
    match comparison {
        Comparison::Failed => Err(ErrorType::CheckDifferenceExecution),
        Comparison::Done(d) => match differences_error(d) {
            Some(e) => Err(e),
            None => Ok(d.missing.len() == 0 && d.extra.len() == 0 && d.changed.len() == 0),
        },
    }
}

proof fn lemma_leading_text(files: Seq<Option<String>>, n: int)
    requires
        0 <= n <= files.len(),
        forall|k: int| 0 <= k < n ==> files[k] is Some,
        n == files.len() || files[n] is None,
    ensures
        leading_text(files) == n,
    decreases files.len(),
{
    if n > 0 {
        let rest = files.drop_first();
        assert forall|k: int| 0 <= k < n - 1 implies rest[k] is Some by {
            assert(rest[k] == files[k + 1]);
        }
        lemma_leading_text(rest, n - 1);
    }
}

fn line_of(head: &str, prefix: &str, middle: &str, quoted: &str, tail: &str) -> (line: String)
    ensures
        line@ == head@ + prefix@ + middle@ + quoted@ + tail@,
{
    let mut line = String::new();
    line.append(head);
    line.append(prefix);
    line.append(middle);
    line.append(quoted);
    line.append(tail);
    assert(line@ =~= head@ + prefix@ + middle@ + quoted@ + tail@);
    line
}

/// Turns what the two comparisons found into the report of one entry.
/// `prefix` stands before each message and names the entry.
pub fn compare_with_temp(prefix: &str, comparison: Comparison) -> (report: CheckReport)
    ensures
        texts(report.lines@) == report_lines(prefix@, comparison),
        report.result == report_result(comparison),
{
    let mut lines: Vec<String> = Vec::new();
    let mut header = String::new();
    header.append("  - ");
    header.append(prefix);
    header.append("compare `src` and `dst`");
    assert(header@ =~= header_line(prefix@));
    lines.push(header);
    assert(texts(lines@) =~= seq![header_line(prefix@)]);
    let d = match comparison {
        Comparison::Failed => {
            return CheckReport { lines, result: Err(ErrorType::CheckDifferenceExecution) };
        },
        Comparison::Done(d) => d,
    };
    let mut result = true;
    if d.missing.len() > 0 {
        let root = match &d.temp_root {
            None => {
                assert(missing_lines(prefix@, d) =~= Seq::<Seq<char>>::empty());
                assert(texts(lines@) =~= report_lines(prefix@, comparison));
                return CheckReport { lines, result: Err(ErrorType::CheckDifferenceStringReplace) };
            },
            Some(root) => root,
        };
        let mut i: usize = 0;
        while i < d.missing.len()
            invariant
                i <= d.missing.len(),
                comparison == Comparison::Done(d),
                d.temp_root == Some(*root),
                forall|k: int| 0 <= k < i ==> d.missing[k] is Some,
                texts(lines@) == seq![header_line(prefix@)] + Seq::new(
                    i as nat,
                    |k: int| missing_line(prefix@, root@, d.missing[k]->0@),
                ),
            decreases d.missing.len() - i,
        {
            let file = match &d.missing[i] {
                None => {
                    proof {
                        lemma_leading_text(d.missing@, i as int);
                        assert(texts(lines@) =~= report_lines(prefix@, comparison));
                    }
                    return CheckReport {
                        lines,
                        result: Err(ErrorType::CheckDifferenceStringReplace),
                    };
                },
                Some(file) => file,
            };
            let shown = remove_pattern(file.as_str(), root.as_str());
            let quoted = quote(shown.as_str());
            let line = line_of("    ", prefix, "! file ", quoted.as_str(), " does not exist");
            let ghost before = texts(lines@);
            lines.push(line);
            proof {
                assert(texts(lines@) =~= before.push(missing_line(prefix@, root@, file@)));
                assert(texts(lines@) =~= seq![header_line(prefix@)] + Seq::new(
                    (i + 1) as nat,
                    |k: int| missing_line(prefix@, root@, d.missing[k]->0@),
                ));
            }
            i += 1;
        }
        proof {
            lemma_leading_text(d.missing@, d.missing.len() as int);
        }
        result = false;
    } else {
        proof {
            lemma_leading_text(d.missing@, 0);
            assert(missing_lines(prefix@, d) =~= Seq::<Seq<char>>::empty());
        }
    }
    assert(texts(lines@) =~= seq![header_line(prefix@)] + missing_lines(prefix@, d));
    assert(differences_error(d) is None);
    let ghost start = texts(lines@);
    let mut j: usize = 0;
    while j < d.extra.len()
        invariant
            j <= d.extra.len(),
            texts(lines@) == start + Seq::new(j as nat, |k: int| extra_line(prefix@, d.extra[k].shown())),
        decreases d.extra.len() - j,
    {
        let quoted = d.extra[j].show();
        let line = line_of("    ", prefix, "! file ", quoted.as_str(), " does not exist on original");
        let ghost before = texts(lines@);
        lines.push(line);
        proof {
            assert(texts(lines@) =~= before.push(extra_line(prefix@, d.extra[j as int].shown())));
            assert(texts(lines@) =~= start + Seq::new(
                (j + 1) as nat,
                |k: int| extra_line(prefix@, d.extra[k].shown()),
            ));
        }
        j += 1;
    }
    if d.extra.len() > 0 {
        result = false;
    }
    let ghost mid = texts(lines@);
    let mut c: usize = 0;
    while c < d.changed.len()
        invariant
            c <= d.changed.len(),
            texts(lines@) == mid + Seq::new(c as nat, |k: int| changed_line(prefix@, d.changed[k].shown())),
        decreases d.changed.len() - c,
    {
        let quoted = d.changed[c].show();
        let line = line_of(
            "    ",
            prefix,
            "! file ",
            quoted.as_str(),
            " is not identical to original",
        );
        let ghost before = texts(lines@);
        lines.push(line);
        proof {
            assert(texts(lines@) =~= before.push(changed_line(prefix@, d.changed[c as int].shown())));
            assert(texts(lines@) =~= mid + Seq::new(
                (c + 1) as nat,
                |k: int| changed_line(prefix@, d.changed[k].shown()),
            ));
        }
        c += 1;
    }
    if d.changed.len() > 0 {
        result = false;
    }
    proof {
        assert(texts(lines@) =~= report_lines(prefix@, comparison));
    }
    CheckReport { lines, result: Ok(result) }
}

/// A comparison that found nothing missing, nothing extra and nothing
/// changed gives the result that the destination matches, and any file it
/// found prevents that result.
pub proof fn lemma_result_of_differences(d: Differences)
    ensures
        report_result(Comparison::Done(d)) == Ok::<bool, ErrorType>(true) <==> d.missing.len() == 0
            && d.extra.len() == 0 && d.changed.len() == 0,
{
    if d.missing.len() == 0 {
        assert(differences_error(d) is None);
    }
}

} // verus!
