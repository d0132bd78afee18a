//! The `.gitwire` configuration: its entries and the rules they must meet.

use vstd::prelude::*;
use crate::error::ErrorType;
use crate::text::chars_of;
use vstd::string::*;

verus! {

/// The name of the configuration file, at the root of the repository.
pub const DOT_GIT_WIRE: &'static str = ".gitwire";

/// How a repository is fetched.
#[derive(Debug, Clone, Copy, PartialEq, Eq, Structural)]
pub enum Method {
    /// History of depth one, narrowed to the wanted paths.
    Shallow,
    /// History of depth one, with the full tree.
    ShallowNoSparse,
    /// A partial clone that fetches file contents when they are read.
    Partial,
}

/// One entry of the configuration.
#[derive(Debug)]
pub struct Parsed {
    /// A name for the entry, unique in the file when given.
    pub name: Option<String>,
    /// The URL of the repository to take files from.
    pub url: String,
    /// The branch (or other revision) to take them at.
    pub rev: String,
    /// A commit to pin the entry to.
    pub commit_hash: Option<String>,
    /// The path inside that repository.
    pub src: String,
    /// The path inside this repository.
    pub dst: String,
    /// Names or paths of the files to take; empty for all.
    pub filters: Vec<String>,
    /// How to fetch.
    pub mtd: Option<Method>,
}

/// The characters from `i` to `j` are one whole component of `path`:
/// they hold no separator, and a separator or an end of the path stands on
/// either side.
pub open spec fn component_at(path: Seq<char>, i: int, j: int) -> bool {
    &&& 0 <= i <= j <= path.len()
    &&& (i == 0 || path[i - 1] == '/')
    &&& (j == path.len() || path[j] == '/')
    &&& forall|k: int| i <= k < j ==> path[k] != '/'
}

/// The component names that no path of an entry may hold.
pub open spec fn forbidden(name: Seq<char>) -> bool {
    name == seq!['.'] || name == seq!['.', '.'] || name == seq!['.', 'g', 'i', 't']
}

/// `path` holds no forbidden component.
pub open spec fn path_is_sound(path: Seq<char>) -> bool {
    forall|i: int, j: int| component_at(path, i, j) ==> !forbidden(path.subrange(i, j))
}

/// Both paths of the entry are sound.
pub open spec fn entry_is_sound(entry: Parsed) -> bool {
    path_is_sound(entry.src@) && path_is_sound(entry.dst@)
}

fn is_forbidden(cs: &Vec<char>, a: usize, b: usize) -> (bad: bool)
    requires
        a <= b <= cs.len(),
    ensures
        bad == forbidden(cs@.subrange(a as int, b as int)),
{
    let ghost name = cs@.subrange(a as int, b as int);
    let len: usize = b - a;
    if len == 1 {
        let bad = cs[a] == '.';
        assert(bad ==> name =~= seq!['.']);
        assert(!bad ==> name[0] != '.');
        bad
    } else if len == 2 {
        let bad = cs[a] == '.' && cs[a + 1] == '.';
        assert(bad ==> name =~= seq!['.', '.']);
        assert(!bad ==> name[0] != '.' || name[1] != '.');
        bad
    } else if len == 4 {
        let bad = cs[a] == '.' && cs[a + 1] == 'g' && cs[a + 2] == 'i' && cs[a + 3] == 't';
        assert(bad ==> name =~= seq!['.', 'g', 'i', 't']);
        assert(!bad ==> name[0] != '.' || name[1] != 'g' || name[2] != 'i' || name[3] != 't');
        bad
    } else {
        assert(name.len() != 1 && name.len() != 2 && name.len() != 4);
        false
    }
}

/// Whether `path` is free of `.`, `..` and `.git` components.
pub fn check_path_soundness(path: &str) -> (ok: bool)
    ensures
        ok == path_is_sound(path@),
{
    let cs = chars_of(path);
    let n: usize = cs.len();
    let mut start: usize = 0;
    let mut i: usize = 0;
    while i < n
        invariant
            cs@ == path@,
            n == cs.len(),
            start <= i <= n,
            start == 0 || cs[start - 1] == '/',
            forall|k: int| start <= k < i ==> cs[k] != '/',
            forall|a: int, b: int|
                component_at(cs@, a, b) && b < start ==> !forbidden(cs@.subrange(a, b)),
        decreases n - i,
    {
        if cs[i] == '/' {
            if is_forbidden(&cs, start, i) {
                assert(component_at(cs@, start as int, i as int));
                return false;
            }
            assert forall|a: int, b: int|
                component_at(cs@, a, b) && b < i + 1 implies !forbidden(cs@.subrange(a, b)) by {
                if b >= start {
                    assert(b == i) by {
                        if b < i {
                            assert(cs[b] == '/');
                        }
                    }
                    if a < start {
                        assert(cs[start - 1] == '/');
                    }
                    if a > start {
                        assert(cs[a - 1] == '/');
                    }
                    assert(a == start);
                }
            }
            start = i + 1;
        }
        i += 1;
    }
    if is_forbidden(&cs, start, n) {
        assert(component_at(cs@, start as int, n as int));
        return false;
    }
    assert forall|a: int, b: int| component_at(cs@, a, b) implies !forbidden(cs@.subrange(a, b)) by {
        if b >= start {
            assert(b == n) by {
                if b < n {
                    assert(cs[b] == '/');
                }
            }
            if a < start {
                assert(cs[start - 1] == '/');
            }
            if a > start {
                assert(cs[a - 1] == '/');
            }
            assert(a == start);
        }
    }
    true
}

/// Whether both paths of an entry are sound.
pub fn check_parsed_item_soundness(parsed: &Parsed) -> (ok: bool)
    ensures
        ok == entry_is_sound(*parsed),
{
    let src_result_ok = check_path_soundness(parsed.src.as_str());
    let dst_result_ok = check_path_soundness(parsed.dst.as_str());
    src_result_ok && dst_result_ok
}

/// Two entries carry the same name.
pub open spec fn same_name(a: Parsed, b: Parsed) -> bool {
    a.name is Some && b.name is Some && a.name->0@ == b.name->0@
}

/// No two entries carry the same name.
pub open spec fn names_unique(entries: Seq<Parsed>) -> bool {
    forall|i: int, j: int| 0 <= i < j < entries.len() ==> !same_name(entries[i], entries[j])
}

/// Every entry is sound.
pub open spec fn all_sound(entries: Seq<Parsed>) -> bool {
    forall|i: int| 0 <= i < entries.len() ==> entry_is_sound(#[trigger] entries[i])
}

/// The failure that a list of entries is refused with, if it is refused:
/// soundness is looked at first, for all entries, then the names.
pub open spec fn validation_error(entries: Seq<Parsed>) -> Option<ErrorType> {
    if !all_sound(entries) {
        Some(ErrorType::DotGitWireFileSoundness)
    } else if !names_unique(entries) {
        Some(ErrorType::DotGitWireFileNameNotUnique)
    } else {
        None
    }
}

fn entries_are_sound(parsed: &Vec<Parsed>) -> (ok: bool)
    ensures
        ok == all_sound(parsed@),
{
    let mut i: usize = 0;
    while i < parsed.len()
        invariant
            i <= parsed.len(),
            forall|k: int| 0 <= k < i ==> entry_is_sound(#[trigger] parsed@[k]),
        decreases parsed.len() - i,
    {
        if !check_parsed_item_soundness(&parsed[i]) {
            return false;
        }
        i += 1;
    }
    true
}

fn have_same_name(a: &Parsed, b: &Parsed) -> (same: bool)
    ensures
        same == same_name(*a, *b),
{
    match (&a.name, &b.name) {
        (Some(x), Some(y)) => *x == *y,
        _ => false,
    }
}

fn names_are_unique(parsed: &Vec<Parsed>) -> (ok: bool)
    ensures
        ok == names_unique(parsed@),
{
    let mut j: usize = 0;
    while j < parsed.len()
        invariant
            j <= parsed.len(),
            forall|a: int, b: int| 0 <= a < b < j ==> !same_name(parsed@[a], parsed@[b]),
        decreases parsed.len() - j,
    {
        let mut i: usize = 0;
        while i < j
            invariant
                i <= j < parsed.len(),
                forall|a: int| 0 <= a < i ==> !same_name(parsed@[a], parsed@[j as int]),
            decreases j - i,
        {
            if have_same_name(&parsed[i], &parsed[j]) {
                return false;
            }
            i += 1;
        }
        j += 1;
    }
    true
}

/// Holds the entries to the rules: every `src` and `dst` sound, every name
/// used once. The entries come back unchanged when they pass.
pub fn validate_entries(parsed: Vec<Parsed>) -> (r: Result<Vec<Parsed>, ErrorType>)
    ensures
        match r {
            Ok(entries) => entries == parsed && validation_error(parsed@) is None,
            Err(e) => validation_error(parsed@) == Some(e),
        },
{
    if !entries_are_sound(&parsed) {
        return Err(ErrorType::DotGitWireFileSoundness);
    }
    if !names_are_unique(&parsed) {
        return Err(ErrorType::DotGitWireFileNameNotUnique);
    }
    Ok(parsed)
}

/// What asking the version-control tool for the repository root gave.
#[derive(Debug)]
pub enum RootQuery {
    /// The tool could not be run.
    CommandFailed,
    /// It printed bytes that are not UTF-8.
    NotUtf8,
    /// It printed this text.
    Output(String),
}

/// What reading the configuration file gave.
#[derive(Debug)]
pub enum ConfigFile {
    /// The file cannot be read.
    Unreadable,
    /// Its content does not have the form of a list of entries.
    Malformed,
    /// Its entries, in file order.
    Entries(Vec<Parsed>),
}

/// `text` without one trailing line ending, `"\r\n"` or `"\n"`.
pub open spec fn without_line_ending(text: Seq<char>) -> Seq<char> {
    if text.len() >= 2 && text[text.len() - 2] == '\r' && text[text.len() - 1] == '\n' {
        text.subrange(0, text.len() - 2)
    } else if text.len() >= 1 && text[text.len() - 1] == '\n' {
        text.subrange(0, text.len() - 1)
    } else {
        text
    }
}

/// Removes one trailing line ending from `string`.
pub fn remove_line_ending(string: String) -> (out: String)
    ensures
        out@ == without_line_ending(string@),
{
    let s = string.as_str();
    let n: usize = s.unicode_len();
    if n >= 2 && s.get_char(n - 2) == '\r' && s.get_char(n - 1) == '\n' {
        s.substring_char(0, n - 2).to_owned()
    } else if n >= 1 && s.get_char(n - 1) == '\n' {
        s.substring_char(0, n - 1).to_owned()
    } else {
        string
    }
}

/// The path of the configuration file in the repository rooted at `root`.
pub open spec fn dotgitwire_path(root: Seq<char>) -> Seq<char> {
    root + "/"@ + DOT_GIT_WIRE@
}

/// The failure that the root query leads to, if any.
pub open spec fn root_error(query: RootQuery) -> Option<ErrorType> {
    match query {
        RootQuery::CommandFailed => Some(ErrorType::RepositoryRootPathCommand),
        RootQuery::NotUtf8 => Some(ErrorType::RepositoryRootPathParse),
        RootQuery::Output(_) => None,
    }
}

/// The failure that locating the configuration file ends with, if any: a
/// failure of the root query, or else the absence of the file.
pub open spec fn path_error(query: RootQuery, exists: bool) -> Option<ErrorType> {
    if root_error(query) is Some {
        root_error(query)
    } else if !exists {
        Some(ErrorType::DotGitWireFileNotFound)
    } else {
        None
    }
}

/// The failure that the configuration file leads to, if any.
pub open spec fn file_error(file: ConfigFile) -> Option<ErrorType> {
    match file {
        ConfigFile::Unreadable => Some(ErrorType::DotGitWireFileOpen),
        ConfigFile::Malformed => Some(ErrorType::DotGitWireFileParse),
        ConfigFile::Entries(entries) => validation_error(entries@),
    }
}

/// The failure that parsing ends with, if any: the root is looked at first,
/// then whether the file is there, then the file. `file` is `None` where
/// there is no file.
pub open spec fn gitwire_error(query: RootQuery, file: Option<ConfigFile>) -> Option<ErrorType> {
    if path_error(query, file is Some) is Some {
        path_error(query, file is Some)
    } else {
        file_error(file->0)
    }
}

/// Where the configuration file of a repository would be: the repository
/// root and the path of the file, from what the version-control tool
/// printed. Whether a file is there is not looked at.
pub fn locate_dotgitwire_file(query: &RootQuery) -> (r: Result<(String, String), ErrorType>)
    ensures
        match r {
            Ok((root, file)) => *query is Output
                && root@ == without_line_ending(query->Output_0@)
                && file@ == dotgitwire_path(root@),
            Err(e) => root_error(*query) == Some(e),
        },
{
    match query {
        RootQuery::CommandFailed => Err(ErrorType::RepositoryRootPathCommand),
        RootQuery::NotUtf8 => Err(ErrorType::RepositoryRootPathParse),
        RootQuery::Output(root_str) => {
            let root = remove_line_ending(root_str.clone());
            let mut file = root.clone();
            file.append("/");
            file.append(DOT_GIT_WIRE);
            Ok((root, file))
        },
    }
}

/// The repository root and the path of its configuration file. `exists`
/// says whether a file is there at the path that [`locate_dotgitwire_file`]
/// gives for `query`. A failure of the root query comes first; a file that
/// is not there is the not-found error.
pub fn get_dotgitwire_file_path(query: RootQuery, exists: bool) -> (r: Result<(String, String), ErrorType>)
    ensures
        match r {
            Ok((root, file)) => query is Output && exists
                && root@ == without_line_ending(query->Output_0@)
                && file@ == dotgitwire_path(root@),
            Err(e) => if root_error(query) is Some {
                root_error(query) == Some(e)
            } else {
                !exists && e == ErrorType::DotGitWireFileNotFound
            },
        },
        r is Err ==> path_error(query, exists) == Some(r->Err_0),
        r is Ok ==> path_error(query, exists) is None,
{
    match locate_dotgitwire_file(&query) {
        Err(e) => Err(e),
        Ok((root, file)) => {
            if !exists {
                return Err(ErrorType::DotGitWireFileNotFound);
            }
            Ok((root, file))
        },
    }
}

/// The entries of the configuration file, once they have passed the rules.
pub fn parse_dotgitwire_file(file: ConfigFile) -> (r: Result<Vec<Parsed>, ErrorType>)
    ensures
        match r {
            Ok(entries) => file == ConfigFile::Entries(entries) && file_error(file) is None,
            Err(e) => file_error(file) == Some(e),
        },
{
    match file {
        ConfigFile::Unreadable => Err(ErrorType::DotGitWireFileOpen),
        ConfigFile::Malformed => Err(ErrorType::DotGitWireFileParse),
        ConfigFile::Entries(parsed) => validate_entries(parsed),
    }
}

/// The repository root and the validated entries. `file` is what reading
/// the configuration file gave, or `None` where no file is there. Every
/// rule is checked here, before anything is fetched or written.
pub fn parse_gitwire(query: RootQuery, file: Option<ConfigFile>) -> (r: Result<
    (String, Vec<Parsed>),
    ErrorType,
>)
    ensures
        match r {
            Ok((root, entries)) => query is Output
                && root@ == without_line_ending(query->Output_0@)
                && file == Some(ConfigFile::Entries(entries))
                && gitwire_error(query, file) is None,
            Err(e) => gitwire_error(query, file) == Some(e),
        },
{
    let root = match get_dotgitwire_file_path(query, file.is_some()) {
        Err(e) => {
            return Err(e);
        },
        Ok((root, _)) => root,
    };
    match file {
        None => Err(ErrorType::DotGitWireFileNotFound),
        Some(content) => match parse_dotgitwire_file(content) {
            Err(e) => Err(e),
            Ok(entries) => Ok((root, entries)),
        },
    }
}

/// An entry whose `src` or `dst` holds `.`, `..` or `.git` as a component
/// makes parsing fail with the soundness error, whatever else the file holds.
pub proof fn lemma_unsound_entry_is_rejected(root: String, entries: Vec<Parsed>, i: int)
    requires
        0 <= i < entries@.len(),
        !entry_is_sound(entries@[i]),
    ensures
        validation_error(entries@) == Some(ErrorType::DotGitWireFileSoundness),
        gitwire_error(RootQuery::Output(root), Some(ConfigFile::Entries(entries))) == Some(
            ErrorType::DotGitWireFileSoundness,
        ),
{
}

/// A path that holds `name` as a whole component from `i` to `j` is unsound
/// when `name` is `.`, `..` or `.git`.
pub proof fn lemma_forbidden_component_is_unsound(path: Seq<char>, i: int, j: int)
    requires
        component_at(path, i, j),
        forbidden(path.subrange(i, j)),
    ensures
        !path_is_sound(path),
{
}

/// Two entries with the same name make parsing fail with the duplicate-name
/// error, provided that every entry is sound: soundness is reported first.
pub proof fn lemma_shared_name_is_rejected(root: String, entries: Vec<Parsed>, i: int, j: int)
    requires
        0 <= i < j < entries@.len(),
        same_name(entries@[i], entries@[j]),
        all_sound(entries@),
    ensures
        validation_error(entries@) == Some(ErrorType::DotGitWireFileNameNotUnique),
        gitwire_error(RootQuery::Output(root), Some(ConfigFile::Entries(entries))) == Some(
            ErrorType::DotGitWireFileNameNotUnique,
        ),
{
}

} // verus!
