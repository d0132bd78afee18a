//! Syncing an entry: which files of the checkout go where.
//!
//! A sync copies every selected file below `src` to the same relative path
//! below `dst`, over what is there. Files of the destination that the source
//! no longer has are left alone unless pruning is asked for.

use vstd::prelude::*;
use vstd::string::*;
use crate::parse::Parsed;
use crate::text::{chars_of, str_eq, texts};

verus! {

/// `pattern` matches the whole of `text`: `*` stands for any run of
/// characters, `?` for any one character, every other character for itself.
pub open spec fn glob_matches(pattern: Seq<char>, text: Seq<char>) -> bool
    decreases pattern.len() + text.len(),
{
    if pattern.len() == 0 {
        text.len() == 0
    } else if pattern[0] == '*' {
        glob_matches(pattern.drop_first(), text) || (text.len() > 0 && glob_matches(
            pattern,
            text.drop_first(),
        ))
    } else {
        text.len() > 0 && (pattern[0] == '?' || pattern[0] == text[0]) && glob_matches(
            pattern.drop_first(),
            text.drop_first(),
        )
    }
}

fn glob_from(pattern: &Vec<char>, p: usize, text: &Vec<char>, t: usize) -> (found: bool)
    requires
        p <= pattern.len(),
        t <= text.len(),
    ensures
        found == glob_matches(pattern@.skip(p as int), text@.skip(t as int)),
    decreases pattern.len() - p + text.len() - t,
{
    let ghost pat = pattern@.skip(p as int);
    let ghost txt = text@.skip(t as int);
    proof {
        if p < pattern.len() {
            assert(pat.drop_first() =~= pattern@.skip(p + 1));
        }
        if t < text.len() {
            assert(txt.drop_first() =~= text@.skip(t + 1));
        }
    }
    if p == pattern.len() {
        t == text.len()
    } else if pattern[p] == '*' {
        if glob_from(pattern, p + 1, text, t) {
            true
        } else if t < text.len() {
            glob_from(pattern, p, text, t + 1)
        } else {
            false
        }
    } else if t < text.len() && (pattern[p] == '?' || pattern[p] == text[t]) {
        glob_from(pattern, p + 1, text, t + 1)
    } else {
        false
    }
}

/// Whether `pattern` matches the whole of `text`.
pub fn glob_match(pattern: &str, text: &str) -> (found: bool)
    ensures
        found == glob_matches(pattern@, text@),
{
    let p = chars_of(pattern);
    let t = chars_of(text);
    assert(p@.skip(0) =~= p@);
    assert(t@.skip(0) =~= t@);
    glob_from(&p, 0, &t, 0)
}

/// Where the file name starts in `path`: after its last separator.
pub open spec fn name_start(path: Seq<char>) -> int
    decreases path.len(),
{
    if path.len() == 0 {
        0
    } else if path.last() == '/' {
        path.len() as int
    } else {
        name_start(path.drop_last())
    }
}

/// The file name of `path`: what follows its last separator.
pub open spec fn file_name(path: Seq<char>) -> Seq<char> {
    path.subrange(name_start(path), path.len() as int)
}

/// A filter selects a path that it matches as a pattern, a file whose name
/// it matches, and every file below a directory that it matches.
pub open spec fn filter_selects(filter: Seq<char>, path: Seq<char>) -> bool {
    glob_matches(filter, path) || glob_matches(filter, file_name(path)) || exists|n: int|
        0 <= n < path.len() && path[n] == '/' && #[trigger] glob_matches(filter, path.subrange(0, n))
}

/// The filters of an entry select `path`: no filters select every path.
pub open spec fn selects(filters: Seq<Seq<char>>, path: Seq<char>) -> bool {
    filters.len() == 0 || exists|i: int| 0 <= i < filters.len() && filter_selects(filters[i], path)
}

/// The file name starts at `at` when a separator or the start of the path
/// stands before `at` and no separator follows.
pub proof fn lemma_name_start_is(path: Seq<char>, at: int)
    requires
        0 <= at <= path.len(),
        at == 0 || path[at - 1] == '/',
        forall|k: int| at <= k < path.len() ==> path[k] != '/',
    ensures
        name_start(path) == at,
    decreases path.len(),
{
    if path.len() > 0 && path.last() != '/' {
        lemma_name_start_is(path.drop_last(), at);
    }
}

fn filter_selects_path(filter: &Vec<char>, path: &Vec<char>) -> (found: bool)
    ensures
        found == filter_selects(filter@, path@),
{
    assert(filter@.skip(0) =~= filter@);
    assert(path@.skip(0) =~= path@);
    if glob_from(filter, 0, path, 0) {
        return true;
    }
    let n: usize = path.len();
    let mut start: usize = n;
    while start > 0 && path[start - 1] != '/'
        invariant
            start <= n,
            n == path.len(),
            forall|k: int| start <= k < n ==> path[k] != '/',
        decreases start,
    {
        start -= 1;
    }
    proof {
        lemma_name_start_is(path@, start as int);
        assert(path@.subrange(start as int, n as int) =~= path@.skip(start as int));
    }
    if glob_from(filter, 0, path, start) {
        return true;
    }
    assert(!glob_matches(filter@, file_name(path@)));
    let mut i: usize = 0;
    while i < n
        invariant
            i <= n,
            n == path.len(),
            !glob_matches(filter@, path@),
            !glob_matches(filter@, file_name(path@)),
            forall|k: int|
                0 <= k < i && path[k] == '/' ==> !#[trigger] glob_matches(
                    filter@,
                    path@.subrange(0, k),
                ),
        decreases n - i,
    {
        if path[i] == '/' {
            let mut head: Vec<char> = Vec::new();
            let mut j: usize = 0;
            while j < i
                invariant
                    j <= i <= path.len(),
                    head@ == path@.subrange(0, j as int),
                decreases i - j,
            {
                head.push(path[j]);
                assert(head@ =~= path@.subrange(0, j + 1));
                j += 1;
            }
            assert(head@.skip(0) =~= head@);
            assert(filter@.skip(0) =~= filter@);
            assert(head@ == path@.subrange(0, i as int));
            if glob_from(filter, 0, &head, 0) {
                assert(glob_matches(filter@, path@.subrange(0, i as int)));
                return true;
            }
            assert(!glob_matches(filter@, path@.subrange(0, i as int)));
        }
        i += 1;
    }
    false
}

/// Whether the filters select the path.
pub fn is_selected(filters: &Vec<String>, path: &str) -> (found: bool)
    ensures
        found == selects(texts(filters@), path@),
{
    if filters.len() == 0 {
        return true;
    }
    let p = chars_of(path);
    let mut i: usize = 0;
    while i < filters.len()
        invariant
            i <= filters.len(),
            p@ == path@,
            forall|k: int| 0 <= k < i ==> !filter_selects(texts(filters@)[k], path@),
        decreases filters.len() - i,
    {
        let f = chars_of(filters[i].as_str());
        if filter_selects_path(&f, &p) {
            assert(filter_selects(texts(filters@)[i as int], path@));
            return true;
        }
        i += 1;
    }
    false
}

/// `rel` below the directory `dir`; an empty `dir` is the root.
pub open spec fn joined(dir: Seq<char>, rel: Seq<char>) -> Seq<char> {
    if dir.len() == 0 {
        rel
    } else {
        dir + "/"@ + rel
    }
}

/// The path of `rel` below `dir`.
pub fn join_path(dir: &str, rel: &str) -> (path: String)
    ensures
        path@ == joined(dir@, rel@),
{
    if dir.unicode_len() == 0 {
        return rel.to_owned();
    }
    let mut path = dir.to_owned();
    path.append("/");
    path.append(rel);
    path
}

/// One file to copy: from the checkout to the working tree.
#[derive(Debug)]
pub struct CopyStep {
    /// The path of the file below the root of the checkout.
    pub from: String,
    /// The path of the file below the root of the working tree.
    pub to: String,
}

/// A copy as a pair of paths.
pub open spec fn copy_of(src: Seq<char>, dst: Seq<char>, rel: Seq<char>) -> (Seq<char>, Seq<char>) {
    (joined(src, rel), joined(dst, rel))
}

/// The files among `files` that the filters select, in the order of
/// `files`.
pub open spec fn selected_files(filters: Seq<Seq<char>>, files: Seq<Seq<char>>) -> Seq<Seq<char>>
    decreases files.len(),
{
    if files.len() == 0 {
        Seq::empty()
    } else if selects(filters, files.last()) {
        selected_files(filters, files.drop_last()).push(files.last())
    } else {
        selected_files(filters, files.drop_last())
    }
}

/// The copies of a sync: one for each selected file, in the order of the
/// listing.
pub open spec fn copies_of(entry: Parsed, files: Seq<Seq<char>>) -> Seq<(Seq<char>, Seq<char>)> {
    let chosen = selected_files(texts(entry.filters@), files);
    Seq::new(chosen.len(), |i: int| copy_of(entry.src@, entry.dst@, chosen[i]))
}

/// The pairs of paths of a plan.
pub open spec fn plan_pairs(plan: Seq<CopyStep>) -> Seq<(Seq<char>, Seq<char>)> {
    Seq::new(plan.len(), |i: int| (plan[i].from@, plan[i].to@))
}

/// Plans the sync of one entry. `files` lists the files of the checkout
/// below the entry's `src`, by their paths relative to it. Each file that
/// the entry's filters select is copied to the same relative path below the
/// entry's `dst`.
pub fn sync_plan(entry: &Parsed, files: &Vec<String>) -> (plan: Vec<CopyStep>)
    ensures
        plan_pairs(plan@) == copies_of(*entry, texts(files@)),
{
    let mut plan: Vec<CopyStep> = Vec::new();
    let ghost filters = texts(entry.filters@);
    let mut i: usize = 0;
    while i < files.len()
        invariant
            i <= files.len(),
            filters == texts(entry.filters@),
            plan_pairs(plan@) == copies_of(*entry, texts(files@).take(i as int)),
        decreases files.len() - i,
    {
        proof {
            let now = texts(files@).take(i + 1);
            assert(now.drop_last() =~= texts(files@).take(i as int));
            assert(now.last() == files[i as int]@);
        }
        if is_selected(&entry.filters, files[i].as_str()) {
            let from = join_path(entry.src.as_str(), files[i].as_str());
            let to = join_path(entry.dst.as_str(), files[i].as_str());
            let ghost before = plan_pairs(plan@);
            plan.push(CopyStep { from, to });
            proof {
                assert(plan_pairs(plan@) =~= before.push(
                    copy_of(entry.src@, entry.dst@, files[i as int]@),
                ));
                assert(plan_pairs(plan@) =~= copies_of(*entry, texts(files@).take(i + 1)));
            }
        } else {
            proof {
                assert(plan_pairs(plan@) =~= copies_of(*entry, texts(files@).take(i + 1)));
            }
        }
        i += 1;
    }
    assert(texts(files@).take(files.len() as int) =~= texts(files@));
    plan
}

/// `path` is one of `files`.
pub open spec fn lists(files: Seq<Seq<char>>, path: Seq<char>) -> bool {
    exists|i: int| 0 <= i < files.len() && files[i] == path
}

/// Whether `path` is one of `files`.
pub fn is_listed(files: &Vec<String>, path: &str) -> (found: bool)
    ensures
        found == lists(texts(files@), path@),
{
    let mut i: usize = 0;
    while i < files.len()
        invariant
            i <= files.len(),
            forall|k: int| 0 <= k < i ==> texts(files@)[k] != path@,
        decreases files.len() - i,
    {
        if str_eq(files[i].as_str(), path) {
            assert(texts(files@)[i as int] == path@);
            return true;
        }
        i += 1;
    }
    false
}

/// A file of the destination is stale when the sync does not write it: the
/// source does not list it, or the filters do not select it.
pub open spec fn is_stale(filters: Seq<Seq<char>>, source: Seq<Seq<char>>, path: Seq<char>) -> bool {
    !(lists(source, path) && selects(filters, path))
}

/// The stale files among `present`, in the order of `present`.
pub open spec fn stale_files(
    filters: Seq<Seq<char>>,
    source: Seq<Seq<char>>,
    present: Seq<Seq<char>>,
) -> Seq<Seq<char>>
    decreases present.len(),
{
    if present.len() == 0 {
        Seq::empty()
    } else if is_stale(filters, source, present.last()) {
        stale_files(filters, source, present.drop_last()).push(present.last())
    } else {
        stale_files(filters, source, present.drop_last())
    }
}

/// Plans the pruning of one entry: the files to remove from the
/// destination so that it holds nothing but what the sync writes. `files`
/// lists the source as for [`sync_plan`]; `present` lists the files below
/// the entry's `dst`, relative to it. The paths that come back are relative
/// to `dst` as well. Without pruning, a sync removes nothing.
pub fn prune_plan(entry: &Parsed, files: &Vec<String>, present: &Vec<String>, prune: bool) -> (stale:
    Vec<String>)
    ensures
        texts(stale@) == if prune {
            stale_files(texts(entry.filters@), texts(files@), texts(present@))
        } else {
            Seq::empty()
        },
{
    let mut stale: Vec<String> = Vec::new();
    if !prune {
        assert(texts(stale@) =~= Seq::<Seq<char>>::empty());
        return stale;
    }
    let ghost filters = texts(entry.filters@);
    let mut i: usize = 0;
    assert(texts(stale@) =~= Seq::<Seq<char>>::empty());
    while i < present.len()
        invariant
            i <= present.len(),
            filters == texts(entry.filters@),
            texts(stale@) == stale_files(filters, texts(files@), texts(present@).take(i as int)),
        decreases present.len() - i,
    {
        proof {
            let now = texts(present@).take(i + 1);
            assert(now.drop_last() =~= texts(present@).take(i as int));
            assert(now.last() == present[i as int]@);
        }
        let written = is_listed(files, present[i].as_str()) && is_selected(
            &entry.filters,
            present[i].as_str(),
        );
        if !written {
            let ghost before = texts(stale@);
            stale.push(present[i].clone());
            proof {
                assert(texts(stale@) =~= before.push(present[i as int]@));
            }
        }
        i += 1;
    }
    assert(texts(present@).take(present.len() as int) =~= texts(present@));
    stale
}

/// The part of a tree of files that the filters select. A tree holds the
/// content of each file by its relative path.
pub open spec fn selection(source: Map<Seq<char>, Seq<u8>>, filters: Seq<Seq<char>>) -> Map<
    Seq<char>,
    Seq<u8>,
> {
    source.restrict(Set::new(|path: Seq<char>| selects(filters, path)))
}

/// The destination after a sync from `source`: every selected file is
/// written over what was there; the other files of the destination stay,
/// unless the sync prunes.
pub open spec fn after_sync(
    source: Map<Seq<char>, Seq<u8>>,
    dest: Map<Seq<char>, Seq<u8>>,
    filters: Seq<Seq<char>>,
    prune: bool,
) -> Map<Seq<char>, Seq<u8>> {
    if prune {
        selection(source, filters)
    } else {
        dest.union_prefer_right(selection(source, filters))
    }
}

/// The files of `fresh` that `dest` lacks.
pub open spec fn missing_paths(fresh: Map<Seq<char>, Seq<u8>>, dest: Map<Seq<char>, Seq<u8>>) -> Set<
    Seq<char>,
> {
    Set::new(|path: Seq<char>| fresh.dom().contains(path) && !dest.dom().contains(path))
}

/// The files of `dest` that `fresh` holds with another content.
pub open spec fn changed_paths(fresh: Map<Seq<char>, Seq<u8>>, dest: Map<Seq<char>, Seq<u8>>) -> Set<
    Seq<char>,
> {
    Set::new(
        |path: Seq<char>|
            fresh.dom().contains(path) && dest.dom().contains(path) && fresh[path] != dest[path],
    )
}

/// The destination matches the fresh checkout: nothing is missing, nothing
/// is extra, nothing differs.
pub open spec fn trees_match(fresh: Map<Seq<char>, Seq<u8>>, dest: Map<Seq<char>, Seq<u8>>) -> bool {
    &&& missing_paths(fresh, dest) == Set::<Seq<char>>::empty()
    &&& missing_paths(dest, fresh) == Set::<Seq<char>>::empty()
    &&& changed_paths(fresh, dest) == Set::<Seq<char>>::empty()
}

/// A sync that prunes leaves a destination that matches what a fresh
/// checkout selects: a check right after it finds nothing.
pub proof fn lemma_sync_then_check(
    source: Map<Seq<char>, Seq<u8>>,
    dest: Map<Seq<char>, Seq<u8>>,
    filters: Seq<Seq<char>>,
)
    ensures
        trees_match(selection(source, filters), after_sync(source, dest, filters, true)),
{
    let fresh = selection(source, filters);
    assert(missing_paths(fresh, fresh) =~= Set::<Seq<char>>::empty());
    assert(changed_paths(fresh, fresh) =~= Set::<Seq<char>>::empty());
}

/// A sync that does not prune leaves a matching destination as well,
/// provided that the destination held no file that the sync does not
/// write.
pub proof fn lemma_sync_then_check_without_pruning(
    source: Map<Seq<char>, Seq<u8>>,
    dest: Map<Seq<char>, Seq<u8>>,
    filters: Seq<Seq<char>>,
)
    requires
        forall|path: Seq<char>|
            dest.dom().contains(path) ==> selection(source, filters).dom().contains(path),
    ensures
        trees_match(selection(source, filters), after_sync(source, dest, filters, false)),
{
    let fresh = selection(source, filters);
    let synced = after_sync(source, dest, filters, false);
    assert(missing_paths(fresh, synced) =~= Set::<Seq<char>>::empty());
    assert(missing_paths(synced, fresh) =~= Set::<Seq<char>>::empty());
    assert(changed_paths(fresh, synced) =~= Set::<Seq<char>>::empty());
}

/// Syncing twice is syncing once.
pub proof fn lemma_sync_is_idempotent(
    source: Map<Seq<char>, Seq<u8>>,
    dest: Map<Seq<char>, Seq<u8>>,
    filters: Seq<Seq<char>>,
    prune: bool,
)
    ensures
        after_sync(source, after_sync(source, dest, filters, prune), filters, prune) == after_sync(
            source,
            dest,
            filters,
            prune,
        ),
{
    let once = after_sync(source, dest, filters, prune);
    assert(after_sync(source, once, filters, prune) =~= once);
}

/// The plan copies exactly the selected files of the listing: each of them
/// has its copy, and each copy is of one of them.
pub proof fn lemma_plan_is_the_selection(entry: Parsed, files: Seq<Seq<char>>, path: Seq<char>)
    ensures
        lists(selected_files(texts(entry.filters@), files), path) <==> lists(files, path) && selects(
            texts(entry.filters@),
            path,
        ),
    decreases files.len(),
{
    let filters = texts(entry.filters@);
    if files.len() > 0 {
        let rest = files.drop_last();
        lemma_plan_is_the_selection(entry, rest, path);
        let chosen = selected_files(filters, files);
        let chosen_rest = selected_files(filters, rest);
        if lists(chosen, path) {
            let i = choose|i: int| 0 <= i < chosen.len() && chosen[i] == path;
            if i < chosen_rest.len() {
                assert(chosen_rest[i] == path);
                let j = choose|j: int| 0 <= j < rest.len() && rest[j] == path;
                assert(files[j] == path);
            } else {
                assert(files[files.len() - 1] == path);
            }
        }
        if lists(files, path) && selects(filters, path) {
            let j = choose|j: int| 0 <= j < files.len() && files[j] == path;
            if j < rest.len() {
                assert(rest[j] == path);
                let i = choose|i: int| 0 <= i < chosen_rest.len() && chosen_rest[i] == path;
                assert(chosen[i] == path);
            } else {
                assert(chosen[chosen.len() - 1] == path);
            }
        }
    }
}

} // verus!
