//! Suggesting what to do with each commit of a rebase.

use vstd::prelude::*;
use vstd::string::*;
use crate::text::{
    chars_of, contains_chars, contains_text, decimal_text, str_eq, to_decimal, trim, trimmed,
};
use crate::unicode::{lowercase_text, to_lowercase};

verus! {

/// What a rebase does with a commit.
#[derive(Debug, Clone, Copy, PartialEq, Eq, Structural)]
pub enum RebaseAction {
    Pick,
    Reword,
    Edit,
    Squash,
    Fixup,
    Drop,
}

/// A commit of the branch that is rebased, with the suggestion for it.
#[derive(Debug)]
pub struct RebaseCommit {
    pub hash: String,
    pub message: String,
    pub author: String,
    pub date: String,
    pub suggested_action: RebaseAction,
    /// How sure the suggestion is, in hundredths.
    pub confidence: u8,
    pub reasoning: String,
}

/// The commits to rebase and where they go.
#[derive(Debug)]
pub struct RebaseAnalysis {
    pub commits: Vec<RebaseCommit>,
    pub upstream: String,
    pub branch: String,
    pub suggested_operations: usize,
}

/// What a rebase did.
#[derive(Debug)]
pub struct RebaseResult {
    pub operations_performed: usize,
    pub commits_processed: usize,
    pub success: bool,
    pub conflicts: Vec<String>,
}

/// One suggestion as it was read from an answer: each part is there or
/// not.
#[derive(Debug)]
pub struct Suggestion {
    pub action: Option<String>,
    /// How sure the suggestion is, in hundredths.
    pub confidence: Option<u8>,
    pub reasoning: Option<String>,
}

/// A suggestion: an action, how sure it is in hundredths, and why.
pub struct Advice {
    pub action: RebaseAction,
    pub confidence: u8,
    pub reasoning: Seq<char>,
}

/// The suggestion that simple rules give for a commit message, read in
/// lower case: fixes and refactorings are kept, work in progress is
/// squashed, added tests are dropped, everything else is kept.
pub open spec fn fallback_advice(message: Seq<char>) -> Advice {
    let lower = lowercase_text(message);
    if contains_text(lower, "fix"@) || contains_text(lower, "refactor"@) {
        Advice {
            action: RebaseAction::Pick,
            confidence: 80,
            reasoning: "Fix/refactor commits are typically kept as-is"@,
        }
    } else if contains_text(lower, "wip"@) || contains_text(lower, "work in progress"@) {
        Advice {
            action: RebaseAction::Squash,
            confidence: 90,
            reasoning: "WIP commits should be squashed"@,
        }
    } else if contains_text(lower, "test"@) && contains_text(lower, "add"@) {
        Advice {
            action: RebaseAction::Drop,
            confidence: 60,
            reasoning: "Test additions are often not needed in final history"@,
        }
    } else {
        Advice { action: RebaseAction::Pick, confidence: 70, reasoning: "Standard commit, keep as-is"@ }
    }
}

/// The action that a word of an answer names; an unknown word means
/// `Pick`.
pub open spec fn action_named(word: Seq<char>) -> RebaseAction {
    if word == "reword"@ {
        RebaseAction::Reword
    } else if word == "edit"@ {
        RebaseAction::Edit
    } else if word == "squash"@ {
        RebaseAction::Squash
    } else if word == "fixup"@ {
        RebaseAction::Fixup
    } else if word == "drop"@ {
        RebaseAction::Drop
    } else {
        RebaseAction::Pick
    }
}

/// The suggestion that a read suggestion gives for a commit message: its
/// own when all three parts are there, else the one of the simple rules.
pub open spec fn advice_of(suggestion: Suggestion, message: Seq<char>) -> Advice {
    if suggestion.action is Some && suggestion.confidence is Some && suggestion.reasoning is Some {
        Advice {
            action: action_named(suggestion.action->0@),
            confidence: suggestion.confidence->0,
            reasoning: suggestion.reasoning->0@,
        }
    } else {
        fallback_advice(message)
    }
}

/// `after` is `before` with the suggestion `advice`: nothing else differs.
pub open spec fn carries(before: RebaseCommit, after: RebaseCommit, advice: Advice) -> bool {
    &&& after.hash@ == before.hash@
    &&& after.message@ == before.message@
    &&& after.author@ == before.author@
    &&& after.date@ == before.date@
    &&& after.suggested_action == advice.action
    &&& after.confidence == advice.confidence
    &&& after.reasoning@ == advice.reasoning
}

/// Whether the suggestions of an answer are used: there is an answer that
/// could be read, with one suggestion for each commit.
pub open spec fn answer_fits(answer: Option<Vec<Suggestion>>, commits: Seq<RebaseCommit>) -> bool {
    answer is Some && answer->0.len() == commits.len()
}

/// Names the action of a word of an answer.
pub fn action_of(word: &str) -> (action: RebaseAction)
    ensures
        action == action_named(word@),
{
    if str_eq(word, "reword") {
        RebaseAction::Reword
    } else if str_eq(word, "edit") {
        RebaseAction::Edit
    } else if str_eq(word, "squash") {
        RebaseAction::Squash
    } else if str_eq(word, "fixup") {
        RebaseAction::Fixup
    } else if str_eq(word, "drop") {
        RebaseAction::Drop
    } else {
        RebaseAction::Pick
    }
}

/// Service for handling AI-assisted rebase operations.
pub struct RebaseService {
    test_mode: bool,
}

impl RebaseService {
    /// Whether the service skips the calls to the language model.
    pub closed spec fn in_test_mode(&self) -> bool {
        self.test_mode
    }

    /// Create a new `RebaseService` instance.
    pub fn new() -> (service: Self)
        ensures
            !service.in_test_mode(),
    {
        Self { test_mode: false }
    }

    /// Create a new `RebaseService` instance in test mode (skips AI calls).
    pub fn new_test() -> (service: Self)
        ensures
            service.in_test_mode(),
    {
        Self { test_mode: true }
    }

    /// Whether the service skips the calls to the language model.
    pub fn is_test_mode(&self) -> (b: bool)
        ensures
            b == self.in_test_mode(),
    {
        self.test_mode
    }

    /// Whether the commits are analysed without asking the language model:
    /// there is nothing to ask about, or the service is in test mode.
    pub fn skips_model(&self, commits: &Vec<RebaseCommit>) -> (skip: bool)
        ensures
            skip == (commits.len() == 0 || self.in_test_mode()),
    {
        commits.len() == 0 || self.test_mode
    }

    /// Apply fallback action based on simple heuristics.
    pub fn apply_fallback_action(&self, commit: &mut RebaseCommit)
        ensures
            carries(*old(commit), *final(commit), fallback_advice(old(commit).message@)),
    {
        let msg_lower = to_lowercase(commit.message.as_str());
        let lower = chars_of(msg_lower.as_str());
        let fix = chars_of("fix");
        let refactor = chars_of("refactor");
        let wip = chars_of("wip");
        let progress = chars_of("work in progress");
        let test = chars_of("test");
        let add = chars_of("add");
        if contains_chars(&lower, &fix) || contains_chars(&lower, &refactor) {
            commit.suggested_action = RebaseAction::Pick;
            commit.reasoning = "Fix/refactor commits are typically kept as-is".to_owned();
            commit.confidence = 80;
        } else if contains_chars(&lower, &wip) || contains_chars(&lower, &progress) {
            commit.suggested_action = RebaseAction::Squash;
            commit.reasoning = "WIP commits should be squashed".to_owned();
            commit.confidence = 90;
        } else if contains_chars(&lower, &test) && contains_chars(&lower, &add) {
            commit.suggested_action = RebaseAction::Drop;
            commit.reasoning = "Test additions are often not needed in final history".to_owned();
            commit.confidence = 60;
        } else {
            commit.suggested_action = RebaseAction::Pick;
            commit.reasoning = "Standard commit, keep as-is".to_owned();
            commit.confidence = 70;
        }
    }

    fn apply_suggestion(&self, suggestion: &Suggestion, commit: &mut RebaseCommit)
        ensures
            carries(*old(commit), *final(commit), advice_of(*suggestion, old(commit).message@)),
    {
        match (&suggestion.action, &suggestion.confidence, &suggestion.reasoning) {
            (Some(action_str), Some(confidence), Some(reasoning)) => {
                commit.suggested_action = action_of(action_str.as_str());
                commit.confidence = *confidence;
                commit.reasoning = reasoning.clone();
            },
            _ => {
                self.apply_fallback_action(commit);
            },
        }
    }

    /// Fallback analysis using simple heuristics: every commit gets the
    /// suggestion of the simple rules.
    pub fn fallback_analysis(&self, commits: Vec<RebaseCommit>) -> (analysed: Vec<RebaseCommit>)
        ensures
            analysed.len() == commits.len(),
            forall|i: int|
                0 <= i < commits.len() ==> carries(
                    commits[i],
                    #[trigger] analysed[i],
                    fallback_advice(commits[i].message@),
                ),
    {
        let mut commits = commits;
        let ghost before = commits@;
        let mut i: usize = 0;
        while i < commits.len()
            invariant
                i <= commits.len(),
                commits.len() == before.len(),
                forall|k: int|
                    0 <= k < i ==> carries(
                        before[k],
                        #[trigger] commits[k],
                        fallback_advice(before[k].message@),
                    ),
                forall|k: int| i <= k < commits.len() ==> commits[k] == before[k],
            decreases commits.len() - i,
        {
            self.apply_fallback_action(&mut commits[i]);
            i += 1;
        }
        commits
    }

    /// Parse AI response and apply suggestions to commits. `answer` is the
    /// list of suggestions that the response holds, or `None` where the
    /// response is not such a list. Where the answer does not fit the
    /// commits, every commit gets the suggestion of the simple rules; else
    /// each commit gets its own suggestion, or that of the simple rules
    /// where a part of its suggestion is missing.
    pub fn parse_ai_response(&self, answer: Option<Vec<Suggestion>>, commits: Vec<RebaseCommit>) -> (analysed:
        Vec<RebaseCommit>)
        ensures
            analysed.len() == commits.len(),
            forall|i: int|
                0 <= i < commits.len() ==> carries(
                    commits[i],
                    #[trigger] analysed[i],
                    if answer_fits(answer, commits@) {
                        advice_of(answer->0[i], commits[i].message@)
                    } else {
                        fallback_advice(commits[i].message@)
                    },
                ),
    {
        let suggestions = match answer {
            Some(suggestions) => suggestions,
            None => {
                return self.fallback_analysis(commits);
            },
        };
        if suggestions.len() != commits.len() {
            return self.fallback_analysis(commits);
        }
        let mut commits = commits;
        let ghost before = commits@;
        let mut i: usize = 0;
        while i < commits.len()
            invariant
                i <= commits.len(),
                commits.len() == before.len(),
                suggestions.len() == before.len(),
                forall|k: int|
                    0 <= k < i ==> carries(
                        before[k],
                        #[trigger] commits[k],
                        advice_of(suggestions[k], before[k].message@),
                    ),
                forall|k: int| i <= k < commits.len() ==> commits[k] == before[k],
            decreases commits.len() - i,
        {
            self.apply_suggestion(&suggestions[i], &mut commits[i]);
            i += 1;
        }
        commits
    }

    /// The result of a rebase of no commits: nothing was done, and that is
    /// a success.
    pub fn empty_rebase_result() -> (result: RebaseResult)
        ensures
            result.operations_performed == 0,
            result.commits_processed == 0,
            result.success,
            result.conflicts.len() == 0,
    {
        RebaseResult { operations_performed: 0, commits_processed: 0, success: true, conflicts: Vec::new() }
    }
}

/// What the language model is told about its task.
pub const REBASE_SYSTEM_PROMPT: &'static str = "You are an expert Git rebase assistant. Your task is to analyze a series of commits and suggest appropriate rebase actions for each one.\n\nAvailable actions:\n- pick: Keep the commit as-is\n- reword: Change only the commit message\n- edit: Stop for manual editing of both message and content\n- squash: Combine this commit with the previous one, keeping both messages\n- fixup: Combine this commit with the previous one, keeping only the previous message\n- drop: Remove this commit entirely\n\nGuidelines:\n- Fix commits should generally be picked unless they're trivial\n- WIP/Work-in-progress commits should be squashed or fixup'd\n- Typos in commit messages should be reworded\n- Duplicate functionality commits should be squashed\n- Test commits should be dropped unless they're significant\n- Refactor commits that don't change behavior can be squashed\n- Breaking changes should be picked with clear messages\n\nReturn a JSON array of objects with this structure:\n[\n  {\n    \"action\": \"pick|reword|edit|squash|fixup|drop\",\n    \"confidence\": 0.0-1.0,\n    \"reasoning\": \"Brief explanation of why this action was chosen\"\n  },\n  ...\n]\n\nThe array should have exactly one object per input commit, in the same order.";

/// What the prompt says of the commit at position `index`.
pub open spec fn commit_lines(commit: RebaseCommit, index: nat) -> Seq<char> {
    "Commit "@ + decimal_text(index + 1) + ": "@ + trimmed(commit.message@) + "\nAuthor: "@
        + commit.author@ + "\nHash: "@ + commit.hash@ + "\n\n"@
}

/// What the prompt says of the first `n` commits.
pub open spec fn commits_text(commits: Seq<RebaseCommit>, n: nat) -> Seq<char>
    decreases n,
{
    if n == 0 || n > commits.len() {
        Seq::empty()
    } else {
        commits_text(commits, (n - 1) as nat) + commit_lines(commits[n - 1], (n - 1) as nat)
    }
}

/// The question that is put to the language model about the commits.
pub open spec fn user_prompt_text(commits: Seq<RebaseCommit>) -> Seq<char> {
    "Please analyze these commits and suggest rebase actions:\n\n"@ + commits_text(
        commits,
        commits.len(),
    ) + "Respond with only the JSON array, no additional text."@
}

/// Writes the question that is put to the language model about the
/// commits: each commit with its number, message, author and hash.
pub fn rebase_user_prompt(commits: &Vec<RebaseCommit>) -> (prompt: String)
    ensures
        prompt@ == user_prompt_text(commits@),
{
    let mut user_prompt = "Please analyze these commits and suggest rebase actions:\n\n".to_owned();
    let ghost head = user_prompt@;
    let mut i: usize = 0;
    assert(head + commits_text(commits@, 0) =~= head);
    while i < commits.len()
        invariant
            i <= commits.len(),
            user_prompt@ == head + commits_text(commits@, i as nat),
        decreases commits.len() - i,
    {
        let ghost before = user_prompt@;
        let number = to_decimal((i + 1) as u64);
        let message = trim(commits[i].message.as_str());
        user_prompt.append("Commit ");
        user_prompt.append(number.as_str());
        user_prompt.append(": ");
        user_prompt.append(message.as_str());
        user_prompt.append("\nAuthor: ");
        user_prompt.append(commits[i].author.as_str());
        user_prompt.append("\nHash: ");
        user_prompt.append(commits[i].hash.as_str());
        user_prompt.append("\n\n");
        proof {
            assert(user_prompt@ =~= before + commit_lines(commits[i as int], i as nat));
            assert(head + commits_text(commits@, i as nat) + commit_lines(commits[i as int], i as nat)
                =~= head + commits_text(commits@, (i + 1) as nat));
        }
        i += 1;
    }
    user_prompt.append("Respond with only the JSON array, no additional text.");
    user_prompt
}

/// The first `n` characters of a text, or all of it where it is shorter.
pub open spec fn first_chars(text: Seq<char>, n: int) -> Seq<char> {
    if text.len() > n {
        text.take(n)
    } else {
        text
    }
}

/// The short form of a commit id: its first seven characters.
pub fn short_hash(id: &str) -> (short: String)
    ensures
        short@ == first_chars(id@, 7),
{
    let n: usize = id.unicode_len();
    if n > 7 {
        let short = id.substring_char(0, 7).to_owned();
        assert(id@.subrange(0, 7) =~= id@.take(7));
        short
    } else {
        id.to_owned()
    }
}

/// A commit that nothing has been suggested for yet: it is kept, with
/// middling confidence.
pub fn pending_commit(id: &str, message: String, author: String, date: String) -> (commit: RebaseCommit)
    ensures
        commit.hash@ == first_chars(id@, 7),
        commit.message == message,
        commit.author == author,
        commit.date == date,
        commit.suggested_action == RebaseAction::Pick,
        commit.confidence == 50,
        commit.reasoning@ == "Default action"@,
{
    RebaseCommit {
        hash: short_hash(id),
        message,
        author,
        date,
        suggested_action: RebaseAction::Pick,
        confidence: 50,
        reasoning: "Default action".to_owned(),
    }
}

/// The analysis of the commits of `branch` that are not in `upstream`.
pub fn analysis_of(commits: Vec<RebaseCommit>, upstream: &str, branch: &str) -> (analysis: RebaseAnalysis)
    ensures
        analysis.commits == commits,
        analysis.upstream@ == upstream@,
        analysis.branch@ == branch@,
        analysis.suggested_operations == 0,
{
    RebaseAnalysis {
        commits,
        upstream: upstream.to_owned(),
        branch: branch.to_owned(),
        suggested_operations: 0,
    }
}

} // verus!
