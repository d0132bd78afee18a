//! Committing with hooks: what is run, in which order, and what may fail.

use vstd::prelude::*;
use vstd::string::*;

verus! {

/// The text of the failure of a commit to a remote repository.
pub const REMOTE_COMMIT_REFUSED: &'static str = "Cannot commit to a remote repository";

/// One step of a commit.
#[derive(Debug)]
pub enum CommitStep {
    /// Run the hook of this name. A failure of a required hook ends the
    /// commit with that failure; a failure of another hook is passed over.
    Hook { name: String, required: bool },
    /// Commit with the message.
    Commit,
    /// Amend this commit with the message.
    Amend(String),
}

/// A step as a mathematical value.
pub enum Step {
    Hook { name: Seq<char>, required: bool },
    Commit,
    Amend(Seq<char>),
}

impl View for CommitStep {
    type V = Step;

    open spec fn view(&self) -> Step {
        match self {
            CommitStep::Hook { name, required } => Step::Hook { name: name@, required: *required },
            CommitStep::Commit => Step::Commit,
            CommitStep::Amend(reference) => Step::Amend(reference@),
        }
    }
}

/// The steps of a plan, as values.
pub open spec fn steps_of(plan: Seq<CommitStep>) -> Seq<Step> {
    Seq::new(plan.len(), |i: int| plan[i]@)
}

/// The step that writes the commit: an amendment of the given commit, or of
/// `HEAD` where none is given, or a new commit.
pub open spec fn writing_step(amend: bool, commit_ref: Option<Seq<char>>) -> Step {
    if amend {
        Step::Amend(
            match commit_ref {
                Some(reference) => reference,
                None => "HEAD"@,
            },
        )
    } else {
        Step::Commit
    }
}

/// The steps of a commit. With verification the hook before the commit
/// must pass, and the hook after it runs but may fail.
pub open spec fn commit_steps(verify: bool, amend: bool, commit_ref: Option<Seq<char>>) -> Seq<Step> {
    if verify {
        seq![
            Step::Hook { name: "pre-commit"@, required: true },
            writing_step(amend, commit_ref),
            Step::Hook { name: "post-commit"@, required: false },
        ]
    } else {
        seq![writing_step(amend, commit_ref)]
    }
}

/// Plans a commit. A remote repository cannot be committed to.
pub fn perform_commit(remote: bool, verify: bool, amend: bool, commit_ref: Option<&str>) -> (r:
    Result<Vec<CommitStep>, String>)
    ensures
        match r {
            Ok(plan) => !remote && steps_of(plan@) == commit_steps(
                verify,
                amend,
                match commit_ref {
                    Some(reference) => Some(reference@),
                    None => None,
                },
            ),
            Err(e) => remote && e@ == REMOTE_COMMIT_REFUSED@,
        },
{
    if remote {
        return Err(REMOTE_COMMIT_REFUSED.to_owned());
    }
    let write = if amend {
        CommitStep::Amend(
            match commit_ref {
                Some(reference) => reference.to_owned(),
                None => "HEAD".to_owned(),
            },
        )
    } else {
        CommitStep::Commit
    };
    let mut plan: Vec<CommitStep> = Vec::new();
    if verify {
        plan.push(CommitStep::Hook { name: "pre-commit".to_owned(), required: true });
        plan.push(write);
        plan.push(CommitStep::Hook { name: "post-commit".to_owned(), required: false });
    } else {
        plan.push(write);
    }
    assert(steps_of(plan@) =~= commit_steps(
        verify,
        amend,
        match commit_ref {
            Some(reference) => Some(reference@),
            None => None,
        },
    ));
    Ok(plan)
}

/// The hook to run before a commit, if any: none for a remote repository,
/// none without verification.
pub fn pre_commit(remote: bool, verify: bool) -> (hook: Option<&'static str>)
    ensures
        match hook {
            Some(name) => !remote && verify && name@ == "pre-commit"@,
            None => remote || !verify,
        },
{
    if remote {
        return None;
    }
    if verify {
        Some("pre-commit")
    } else {
        None
    }
}

} // verus!
