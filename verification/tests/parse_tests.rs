use gitwire::error::ErrorType;
use gitwire::parse::{
    check_parsed_item_soundness, check_path_soundness, get_dotgitwire_file_path,
    locate_dotgitwire_file, parse_dotgitwire_file, parse_gitwire, remove_line_ending,
    validate_entries, ConfigFile, Method, Parsed, RootQuery,
};

fn entry(name: Option<&str>, src: &str, dst: &str) -> Parsed {
    Parsed {
        name: name.map(|n| n.to_string()),
        url: "https://example.com/a.git".to_string(),
        rev: "main".to_string(),
        commit_hash: None,
        src: src.to_string(),
        dst: dst.to_string(),
        filters: vec![],
        mtd: Some(Method::Shallow),
    }
}

#[test]
fn line_ending_is_removed_once() {
    assert_eq!(remove_line_ending("/repo\n".to_string()), "/repo");
    assert_eq!(remove_line_ending("/repo\r\n".to_string()), "/repo");
    assert_eq!(remove_line_ending("/repo".to_string()), "/repo");
    assert_eq!(remove_line_ending("/repo\n\n".to_string()), "/repo\n");
    assert_eq!(remove_line_ending("/repo\r".to_string()), "/repo\r");
    assert_eq!(remove_line_ending("".to_string()), "");
    assert_eq!(remove_line_ending("\n".to_string()), "");
}

#[test]
fn sound_paths_pass() {
    assert!(check_path_soundness("src/lib"));
    assert!(check_path_soundness("/abs/path"));
    assert!(check_path_soundness(""));
    assert!(check_path_soundness("a//b"));
    assert!(check_path_soundness("...")); 
    assert!(check_path_soundness(".github/workflows"));
    assert!(check_path_soundness("a/.gitignore"));
    assert!(check_path_soundness("git"));
}

#[test]
fn forbidden_components_fail_anywhere() {
    assert!(!check_path_soundness("."));
    assert!(!check_path_soundness(".."));
    assert!(!check_path_soundness(".git"));
    assert!(!check_path_soundness("./a"));
    assert!(!check_path_soundness("a/./b"));
    assert!(!check_path_soundness("a/.."));
    assert!(!check_path_soundness("../escape"));
    assert!(!check_path_soundness("a/.git/config"));
    assert!(!check_path_soundness("a/b/.git"));
    assert!(!check_path_soundness("/.."));
}

#[test]
fn entry_needs_both_paths_sound() {
    assert!(check_parsed_item_soundness(&entry(None, "src", "dst")));
    assert!(!check_parsed_item_soundness(&entry(None, "../src", "dst")));
    assert!(!check_parsed_item_soundness(&entry(None, "src", "dst/.git")));
}

#[test]
fn escaping_destination_is_unsound() {
    let r = parse_gitwire(
        RootQuery::Output("/repo\n".to_string()),
        Some(ConfigFile::Entries(vec![entry(None, "src", "../escape")])),
    );
    assert_eq!(r.unwrap_err(), ErrorType::DotGitWireFileSoundness);
}

#[test]
fn duplicate_names_are_refused() {
    let r = validate_entries(vec![
        entry(Some("a"), "x", "y"),
        entry(None, "x", "z"),
        entry(Some("a"), "x", "w"),
    ]);
    assert_eq!(r.unwrap_err(), ErrorType::DotGitWireFileNameNotUnique);
    let r = validate_entries(vec![entry(Some(""), "x", "y"), entry(Some(""), "x", "z")]);
    assert_eq!(r.unwrap_err(), ErrorType::DotGitWireFileNameNotUnique);
}

#[test]
fn soundness_is_reported_before_names() {
    let r = validate_entries(vec![
        entry(Some("a"), "x", "y"),
        entry(Some("a"), "x", "z"),
        entry(Some("b"), "x/..", "z"),
    ]);
    assert_eq!(r.unwrap_err(), ErrorType::DotGitWireFileSoundness);
}

#[test]
fn valid_entries_come_back_unchanged() {
    let r = validate_entries(vec![
        entry(Some("a"), "x", "y"),
        entry(None, "x", "z"),
        entry(None, "x", "w"),
        entry(Some("b"), "x", "v"),
    ])
    .unwrap();
    assert_eq!(r.len(), 4);
    assert_eq!(r[0].name.as_deref(), Some("a"));
    assert_eq!(r[3].dst, "v");
    assert_eq!(validate_entries(vec![]).unwrap().len(), 0);
}

#[test]
fn root_failures_come_first() {
    assert_eq!(
        parse_gitwire(RootQuery::CommandFailed, None).unwrap_err(),
        ErrorType::RepositoryRootPathCommand
    );
    assert_eq!(
        parse_gitwire(RootQuery::NotUtf8, Some(ConfigFile::Entries(vec![]))).unwrap_err(),
        ErrorType::RepositoryRootPathParse
    );
}

#[test]
fn file_failures_are_told_apart() {
    let root = || RootQuery::Output("/r\n".to_string());
    assert_eq!(
        parse_gitwire(root(), None).unwrap_err(),
        ErrorType::DotGitWireFileNotFound
    );
    assert_eq!(
        parse_gitwire(root(), Some(ConfigFile::Unreadable)).unwrap_err(),
        ErrorType::DotGitWireFileOpen
    );
    assert_eq!(
        parse_gitwire(root(), Some(ConfigFile::Malformed)).unwrap_err(),
        ErrorType::DotGitWireFileParse
    );
    assert_eq!(
        parse_dotgitwire_file(ConfigFile::Malformed).unwrap_err(),
        ErrorType::DotGitWireFileParse
    );
}

#[test]
fn parse_gives_root_and_entries() {
    let (root, entries) = parse_gitwire(
        RootQuery::Output("/home/me/repo\r\n".to_string()),
        Some(ConfigFile::Entries(vec![entry(Some("one"), "a", "vendor/a")])),
    )
    .unwrap();
    assert_eq!(root, "/home/me/repo");
    assert_eq!(entries.len(), 1);
    assert_eq!(entries[0].dst, "vendor/a");
}

#[test]
fn config_path_is_below_root() {
    let (root, file) = get_dotgitwire_file_path(RootQuery::Output("/repo\n".to_string()), true).unwrap();
    assert_eq!(root, "/repo");
    assert_eq!(file, "/repo/.gitwire");
    let (root, file) = locate_dotgitwire_file(&RootQuery::Output("/repo\r\n".to_string())).unwrap();
    assert_eq!(root, "/repo");
    assert_eq!(file, "/repo/.gitwire");
    assert_eq!(
        locate_dotgitwire_file(&RootQuery::NotUtf8).unwrap_err(),
        ErrorType::RepositoryRootPathParse
    );
}

#[test]
fn absent_config_file_is_not_found() {
    assert_eq!(
        get_dotgitwire_file_path(RootQuery::Output("/repo\n".to_string()), false).unwrap_err(),
        ErrorType::DotGitWireFileNotFound
    );
    assert_eq!(
        get_dotgitwire_file_path(RootQuery::CommandFailed, true).unwrap_err(),
        ErrorType::RepositoryRootPathCommand
    );
    assert_eq!(
        get_dotgitwire_file_path(RootQuery::CommandFailed, false).unwrap_err(),
        ErrorType::RepositoryRootPathCommand
    );
    assert_eq!(
        get_dotgitwire_file_path(RootQuery::NotUtf8, false).unwrap_err(),
        ErrorType::RepositoryRootPathParse
    );
    assert_eq!(
        parse_dotgitwire_file(ConfigFile::Unreadable).unwrap_err(),
        ErrorType::DotGitWireFileOpen
    );
}

#[test]
fn error_messages_and_kinds() {
    assert_eq!(
        ErrorType::DotGitWireFileSoundness.message(),
        ".gitwire file's `src` and `dst` must not include '.', '..', and '.git'."
    );
    assert_eq!(
        ErrorType::DotGitWireFileNameNotUnique.message(),
        ".gitwire file's `name`s must be differ each other."
    );
    assert_eq!(ErrorType::DotGitWireFileNotFound.message(), "There is no .gitwire file in this repository");
    assert!(ErrorType::DotGitWireFileParse.is_configuration());
    assert!(ErrorType::RepositoryRootPathCommand.is_configuration());
    assert!(!ErrorType::CheckDifferenceExecution.is_configuration());
    assert!(!ErrorType::TempDirCreation.is_configuration());
    assert_eq!(ErrorType::TempDirCreation.message(), "failed to make a temporary directory");
    assert!(!ErrorType::CheckDifferenceStringReplace.is_configuration());
}
