use gitwire::context::StagedFile;
use gitwire::git_utils::is_binary_diff;
use gitwire::semantic_similarity::{split_camel_case, KeywordCount, SemanticSimilarity};
use gitwire::text::{split_fields, Separator};

#[test]
fn test_split_camel_case() {
    assert_eq!(split_camel_case("camelCase"), vec!["camel", "Case"]);
    assert_eq!(split_camel_case("XMLHttpRequest"), vec!["XML", "Http", "Request"]);
    assert_eq!(split_camel_case("simple"), vec!["simple"]);
}

#[test]
fn camel_case_edges() {
    assert_eq!(split_camel_case(""), Vec::<String>::new());
    assert_eq!(split_camel_case("A"), vec!["A"]);
    assert_eq!(split_camel_case("XML"), vec!["XM", "L"]);
    assert_eq!(split_camel_case("ABC1"), vec!["A", "B", "C1"]);
    assert_eq!(split_camel_case("parseURL"), vec!["parse", "UR", "L"]);
    assert_eq!(split_camel_case("aB"), vec!["a", "B"]);
    assert_eq!(split_camel_case("fooBarBaz"), vec!["foo", "Bar", "Baz"]);
}

#[test]
fn fields_of_a_text() {
    assert_eq!(split_fields("a:b::c", Separator::Char(':'), true), vec!["a", "b", "", "c"]);
    assert_eq!(split_fields("", Separator::Char(':'), true), vec![""]);
    assert_eq!(split_fields("a:", Separator::Char(':'), true), vec!["a", ""]);
    assert_eq!(split_fields("  a \t b\nc  ", Separator::Whitespace, false), vec!["a", "b", "c"]);
    assert_eq!(split_fields("   ", Separator::Whitespace, false), Vec::<String>::new());
}

#[test]
fn binary_diffs_are_recognized() {
    assert!(is_binary_diff("Binary files a/x.png and b/x.png differ"));
    assert!(is_binary_diff("index 1..2\nGIT binary patch\nliteral 5"));
    assert!(is_binary_diff("[Binary file changed]"));
    assert!(!is_binary_diff("+fn main() {}\n-fn old() {}"));
    assert!(!is_binary_diff("binary files"));
    assert!(!is_binary_diff(""));
}

fn counts_of(counts: &[KeywordCount]) -> Vec<(String, usize)> {
    counts.iter().map(|c| (c.word.clone(), c.count)).collect()
}

#[test]
fn path_words_weigh_two() {
    let s = SemanticSimilarity::new();
    let mut counts = Vec::new();
    s.extract_from_path("src/core/tokenOptimizer_utils.test.rs", &mut counts);
    assert_eq!(
        counts_of(&counts),
        vec![("token".to_string(), 2), ("optimizer".to_string(), 2), ("utils".to_string(), 2)]
    );
    s.extract_from_path("other/token_io.rs", &mut counts);
    assert_eq!(
        counts_of(&counts),
        vec![("token".to_string(), 4), ("optimizer".to_string(), 2), ("utils".to_string(), 2)]
    );
}

#[test]
fn content_words_are_plain_and_long() {
    let s = SemanticSimilarity::new();
    let mut counts = Vec::new();
    s.extract_from_content("let Value = compute_total(x); Value value abc total, m\u{e4}rz", &mut counts);
    assert_eq!(counts_of(&counts), vec![("value".to_string(), 3), ("m\u{e4}rz".to_string(), 1)]);
}

#[test]
fn only_the_first_hundred_words_of_a_content_count() {
    let s = SemanticSimilarity::new();
    let mut text = String::new();
    for _ in 0..100 {
        text.push_str("word ");
    }
    text.push_str("late");
    let mut counts = Vec::new();
    s.extract_from_content(&text, &mut counts);
    assert_eq!(counts_of(&counts), vec![("word".to_string(), 100)]);
}

#[test]
fn diff_words_come_from_changed_lines() {
    let s = SemanticSimilarity::new();
    let mut counts = Vec::new();
    s.extract_from_diff(
        " context line unchanged\n+added Widget here\n-removed widget\n@@ hunk header\n+\n",
        &mut counts,
    );
    assert_eq!(counts_of(&counts), vec![("widget".to_string(), 2), ("here".to_string(), 1)]);
}

#[test]
fn only_fifty_words_of_a_diff_count() {
    let s = SemanticSimilarity::new();
    let mut diff = String::new();
    for _ in 0..60 {
        diff.push_str("+ same\r\n");
    }
    let mut counts = Vec::new();
    s.extract_from_diff(&diff, &mut counts);
    assert_eq!(counts_of(&counts), vec![("same".to_string(), 50)]);
}

fn file(path: &str, diff: &str, content: Option<&str>) -> StagedFile {
    StagedFile {
        path: path.to_string(),
        diff: diff.to_string(),
        content: content.map(|c| c.to_string()),
        content_excluded: false,
    }
}

#[test]
fn keywords_are_ranked_by_weight() {
    let s = SemanticSimilarity::new();
    let files = vec![
        file("src/parser.rs", "+parser parser token\n-token", Some("token token token lexer")),
        file("src/lexer.rs", "+lexer", None),
    ];
    let keywords = s.extract_keywords(&files);
    assert_eq!(keywords, vec!["token", "parser", "lexer"]);
    assert_eq!(s.extract_keywords(&[]), Vec::<String>::new());
}

#[test]
fn at_most_twenty_keywords() {
    let s = SemanticSimilarity::new();
    let mut content = String::new();
    for i in 0..30 {
        content.push_str(&format!("word{:02} ", i));
    }
    content.push_str("word29 word29 word07");
    let keywords = s.extract_keywords(&[file("x", "", Some(&content))]);
    assert_eq!(keywords.len(), 20);
    assert_eq!(keywords[0], "word29");
    assert_eq!(keywords[1], "word07");
    assert_eq!(keywords[2], "word00");
    assert_eq!(keywords[19], "word18");
}

#[test]
fn keyword_weights_and_matches() {
    let s = SemanticSimilarity::new();
    assert_eq!(s.get_keyword_weight("main.rs"), 2);
    assert_eq!(s.get_keyword_weight("src/core"), 2);
    assert_eq!(s.get_keyword_weight("token"), 1);
    let keywords = vec!["test".to_string(), "function".to_string(), "absent".to_string()];
    assert_eq!(s.count_matching_keywords(&keywords, "Add TEST Function"), 2);
    assert_eq!(s.count_matching_keywords(&[], "anything"), 0);
}
