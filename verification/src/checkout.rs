//! Checkout strategies: the commands that materialize a repository locally,
//! and what their exit codes mean.

use vstd::prelude::*;
use vstd::string::*;
use crate::parse::Method;
use crate::text::texts;

verus! {

/// A command that failed: its position in the plan and its exit code.
#[derive(Debug, Clone, Copy, PartialEq, Eq, Structural)]
pub struct CheckoutFailure {
    pub step: usize,
    pub code: i32,
}

/// The first command that ended with a code other than zero, if any.
pub open spec fn first_failure(codes: Seq<i32>) -> Option<CheckoutFailure> {
    if exists|i: int| 0 <= i < codes.len() && codes[i] != 0 {
        let i = choose|i: int|
            0 <= i < codes.len() && codes[i] != 0 && forall|j: int| 0 <= j < i ==> codes[j] == 0;
        Some(CheckoutFailure { step: i as usize, code: codes[i] })
    } else {
        None
    }
}

/// Judges the exit codes of the commands that were run, in order: the
/// checkout succeeded when all are zero, and failed at the first that is not.
pub fn checkout_result(codes: &Vec<i32>) -> (r: Result<(), CheckoutFailure>)
    ensures
        match r {
            Ok(_) => forall|i: int| 0 <= i < codes.len() ==> codes[i] == 0,
            Err(f) => f.step < codes.len() && codes[f.step as int] == f.code && f.code != 0
                && forall|j: int| 0 <= j < f.step ==> codes[j] == 0,
        },
        r is Err ==> first_failure(codes@) == Some(r->Err_0),
        r is Ok ==> first_failure(codes@) is None,
{
    let mut i: usize = 0;
    while i < codes.len()
        invariant
            i <= codes.len(),
            forall|j: int| 0 <= j < i ==> codes[j] == 0,
        decreases codes.len() - i,
    {
        if codes[i] != 0 {
            proof {
                let w = choose|w: int|
                    0 <= w < codes.len() && codes[w] != 0 && forall|j: int|
                        0 <= j < w ==> codes[j] == 0;
                assert(w == i) by {
                    if w < i {
                        assert(codes[w] == 0);
                    }
                    if w > i {
                        assert(codes[i as int] == 0);
                    }
                }
            }
            return Err(CheckoutFailure { step: i, code: codes[i] });
        }
        i += 1;
    }
    Ok(())
}

/// The arguments of `git init` for the directory.
pub open spec fn init_args(dir: Seq<char>) -> Seq<Seq<char>> {
    seq!["init"@, dir]
}

/// The arguments that name `url` as the remote `origin`.
pub open spec fn remote_args(dir: Seq<char>, url: Seq<char>) -> Seq<Seq<char>> {
    seq!["-C"@, dir, "remote"@, "add"@, "origin"@, url]
}

/// The arguments that narrow the working tree to `paths`.
pub open spec fn sparse_args(dir: Seq<char>, paths: Seq<Seq<char>>) -> Seq<Seq<char>> {
    seq!["-C"@, dir, "sparse-checkout"@, "set"@, "--no-cone"@] + paths
}

/// The arguments that fetch `reference` with history of depth one.
pub open spec fn fetch_args(dir: Seq<char>, reference: Seq<char>) -> Seq<Seq<char>> {
    seq!["-C"@, dir, "fetch"@, "--depth=1"@, "origin"@, reference]
}

/// The arguments that check out what was fetched.
pub open spec fn checkout_fetched_args(dir: Seq<char>) -> Seq<Seq<char>> {
    seq!["-C"@, dir, "-c"@, "advice.detachedHead=false"@, "checkout"@, "FETCH_HEAD"@]
}

/// The arguments of a clone that leaves file contents to be fetched later.
pub open spec fn partial_clone_args(dir: Seq<char>, url: Seq<char>) -> Seq<Seq<char>> {
    seq!["clone"@, "--filter=blob:none"@, "--no-checkout"@, url, dir]
}

/// The arguments that check out `reference`.
pub open spec fn checkout_args(dir: Seq<char>, reference: Seq<char>) -> Seq<Seq<char>> {
    seq!["-C"@, dir, "-c"@, "advice.detachedHead=false"@, "checkout"@, reference]
}

/// The commands of a strategy, each by its arguments, in the order in which
/// they run. Every strategy ends with the working tree on `reference`.
pub open spec fn plan_of(
    method: Method,
    url: Seq<char>,
    reference: Seq<char>,
    dir: Seq<char>,
    paths: Seq<Seq<char>>,
) -> Seq<Seq<Seq<char>>> {
    match method {
        Method::Shallow => seq![
            init_args(dir),
            remote_args(dir, url),
            sparse_args(dir, paths),
            fetch_args(dir, reference),
            checkout_fetched_args(dir),
        ],
        Method::ShallowNoSparse => seq![
            init_args(dir),
            remote_args(dir, url),
            fetch_args(dir, reference),
            checkout_fetched_args(dir),
        ],
        Method::Partial => seq![
            partial_clone_args(dir, url),
            sparse_args(dir, paths),
            checkout_args(dir, reference),
        ],
    }
}

/// The texts of each command of a plan.
pub open spec fn plan_texts(plan: Seq<Vec<String>>) -> Seq<Seq<Seq<char>>> {
    Seq::new(plan.len(), |i: int| texts(plan[i]@))
}

fn args2(a: &str, b: &str) -> (v: Vec<String>)
    ensures
        texts(v@) == seq![a@, b@],
{
    let mut v: Vec<String> = Vec::new();
    v.push(a.to_owned());
    v.push(b.to_owned());
    assert(texts(v@) =~= seq![a@, b@]);
    v
}

fn args5(a: &str, b: &str, c: &str, d: &str, e: &str) -> (v: Vec<String>)
    ensures
        texts(v@) == seq![a@, b@, c@, d@, e@],
{
    let mut v: Vec<String> = Vec::new();
    v.push(a.to_owned());
    v.push(b.to_owned());
    v.push(c.to_owned());
    v.push(d.to_owned());
    v.push(e.to_owned());
    assert(texts(v@) =~= seq![a@, b@, c@, d@, e@]);
    v
}

fn args6(a: &str, b: &str, c: &str, d: &str, e: &str, f: &str) -> (v: Vec<String>)
    ensures
        texts(v@) == seq![a@, b@, c@, d@, e@, f@],
{
    let mut v = args5(a, b, c, d, e);
    let ghost before = texts(v@);
    v.push(f.to_owned());
    assert(texts(v@) =~= before.push(f@));
    assert(texts(v@) =~= seq![a@, b@, c@, d@, e@, f@]);
    v
}

fn sparse_command(dir: &str, paths: &Vec<String>) -> (v: Vec<String>)
    ensures
        texts(v@) == sparse_args(dir@, texts(paths@)),
{
    let mut v = args5("-C", dir, "sparse-checkout", "set", "--no-cone");
    let ghost head = texts(v@);
    let mut i: usize = 0;
    while i < paths.len()
        invariant
            i <= paths.len(),
            texts(v@) == head + texts(paths@).take(i as int),
        decreases paths.len() - i,
    {
        let ghost before = texts(v@);
        v.push(paths[i].clone());
        proof {
            assert(texts(v@) =~= before.push(paths[i as int]@));
            assert(texts(paths@).take(i + 1) =~= texts(paths@).take(i as int).push(
                paths[i as int]@,
            ));
            assert(texts(v@) =~= head + texts(paths@).take(i + 1));
        }
        i += 1;
    }
    assert(texts(paths@).take(paths.len() as int) =~= texts(paths@));
    v
}

/// The commands that materialize `url` at `reference` in the directory
/// `dir` with the given strategy. `paths` are the paths that the entries of
/// this repository need; a strategy that checks out the full tree ignores
/// them.
pub fn materialize_plan(
    method: Method,
    url: &str,
    reference: &str,
    dir: &str,
    paths: &Vec<String>,
) -> (plan: Vec<Vec<String>>)
    ensures
        plan_texts(plan@) == plan_of(method, url@, reference@, dir@, texts(paths@)),
{
    let mut plan: Vec<Vec<String>> = Vec::new();
    match method {
        Method::Shallow => {
            plan.push(args2("init", dir));
            plan.push(args6("-C", dir, "remote", "add", "origin", url));
            plan.push(sparse_command(dir, paths));
            plan.push(args6("-C", dir, "fetch", "--depth=1", "origin", reference));
            plan.push(args6("-C", dir, "-c", "advice.detachedHead=false", "checkout", "FETCH_HEAD"));
        },
        Method::ShallowNoSparse => {
            plan.push(args2("init", dir));
            plan.push(args6("-C", dir, "remote", "add", "origin", url));
            plan.push(args6("-C", dir, "fetch", "--depth=1", "origin", reference));
            plan.push(args6("-C", dir, "-c", "advice.detachedHead=false", "checkout", "FETCH_HEAD"));
        },
        Method::Partial => {
            plan.push(args5("clone", "--filter=blob:none", "--no-checkout", url, dir));
            plan.push(sparse_command(dir, paths));
            plan.push(args6("-C", dir, "-c", "advice.detachedHead=false", "checkout", reference));
        },
    }
    assert(plan_texts(plan@) =~= plan_of(method, url@, reference@, dir@, texts(paths@)));
    plan
}

/// Why a checkout failed, told by the command that failed.
#[derive(Debug, Clone, Copy, PartialEq, Eq, Structural)]
pub enum CheckoutError {
    /// The local directory could not be prepared.
    Setup { code: i32 },
    /// The working tree could not be narrowed: the strategy is not
    /// supported here.
    UnsupportedStrategy { code: i32 },
    /// Nothing could be fetched: the remote cannot be reached, refuses
    /// access, or does not know the reference.
    RemoteUnavailable { code: i32 },
    /// What was fetched could not be checked out at the reference.
    UnknownReference { code: i32 },
}

/// The kind of failure that the command at position `step` of a strategy
/// stands for.
pub open spec fn error_of(method: Method, failure: CheckoutFailure) -> CheckoutError {
    let code = failure.code;
    match method {
        Method::Shallow => if failure.step == 2 {
            CheckoutError::UnsupportedStrategy { code }
        } else if failure.step == 3 {
            CheckoutError::RemoteUnavailable { code }
        } else if failure.step == 4 {
            CheckoutError::UnknownReference { code }
        } else {
            CheckoutError::Setup { code }
        },
        Method::ShallowNoSparse => if failure.step == 2 {
            CheckoutError::RemoteUnavailable { code }
        } else if failure.step == 3 {
            CheckoutError::UnknownReference { code }
        } else {
            CheckoutError::Setup { code }
        },
        Method::Partial => if failure.step == 0 {
            CheckoutError::RemoteUnavailable { code }
        } else if failure.step == 1 {
            CheckoutError::UnsupportedStrategy { code }
        } else if failure.step == 2 {
            CheckoutError::UnknownReference { code }
        } else {
            CheckoutError::Setup { code }
        },
    }
}

/// Says why a checkout with the given strategy failed.
pub fn classify(method: Method, failure: CheckoutFailure) -> (error: CheckoutError)
    ensures
        error == error_of(method, failure),
{
    let code = failure.code;
    match method {
        Method::Shallow => match failure.step {
            2 => CheckoutError::UnsupportedStrategy { code },
            3 => CheckoutError::RemoteUnavailable { code },
            4 => CheckoutError::UnknownReference { code },
            _ => CheckoutError::Setup { code },
        },
        Method::ShallowNoSparse => match failure.step {
            2 => CheckoutError::RemoteUnavailable { code },
            3 => CheckoutError::UnknownReference { code },
            _ => CheckoutError::Setup { code },
        },
        Method::Partial => match failure.step {
            0 => CheckoutError::RemoteUnavailable { code },
            1 => CheckoutError::UnsupportedStrategy { code },
            2 => CheckoutError::UnknownReference { code },
            _ => CheckoutError::Setup { code },
        },
    }
}

/// In every strategy the command before the last fetches or narrows, and
/// the last command checks out: a plan never ends before the working tree
/// is on the reference.
pub proof fn lemma_plans_end_with_checkout(
    method: Method,
    url: Seq<char>,
    reference: Seq<char>,
    dir: Seq<char>,
    paths: Seq<Seq<char>>,
)
    ensures
        ({
            let plan = plan_of(method, url, reference, dir, paths);
            &&& plan.len() >= 3
            &&& plan.last() == if method == Method::Partial {
                checkout_args(dir, reference)
            } else {
                checkout_fetched_args(dir)
            }
            &&& method != Method::Partial ==> plan[plan.len() - 2] == fetch_args(dir, reference)
        }),
{
}

} // verus!
