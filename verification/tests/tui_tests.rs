use gitwire::completion::{perform_commit, pre_commit, CommitStep};
use gitwire::rebase::{analysis_of, pending_commit, rebase_user_prompt, short_hash, RebaseAction, RebaseCommit};
use gitwire::text::{join_from, lines_of, trim};
use gitwire::token_optimizer::{chunk_token_limit, summary_chunks, TokenError, TokenOptimizer};
use gitwire::tui::{
    format_commit_message, handle_input, Effect, GeneratedMessage, InputResult, Key, Mode, TuiApp,
    TuiState,
};

fn message(title: &str, body: &str) -> GeneratedMessage {
    GeneratedMessage { emoji: None, title: title.to_string(), message: body.to_string() }
}

fn three() -> TuiState {
    TuiState::new(
        vec![message("one", " first body \n"), message("two", "second"), message("three", "third")],
        "be brief".to_string(),
    )
}

#[test]
fn new_state_starts_in_normal_mode() {
    let s = three();
    assert_eq!(s.mode, Mode::Normal);
    assert_eq!(s.current_index, 0);
    assert_eq!(s.status, "Press '?': help | 'Esc': exit");
    assert_eq!(s.message_text, "one\n\n first body \n");
    assert_eq!(s.instructions_text, "be brief");
    assert_eq!(s.custom_instructions, "be brief");
    assert!(s.dirty && !s.spinner && !s.instructions_visible && s.nav_bar_visible);
    assert!(s.is_ready());
    let empty = TuiState::new(vec![], String::new());
    assert_eq!(empty.messages.len(), 1);
    assert_eq!(empty.message_text, "\n\n");
    assert!(empty.is_ready());
}

#[test]
fn commit_message_format() {
    assert_eq!(format_commit_message(&message("t", "b")), "t\n\nb");
    let with_emoji = GeneratedMessage {
        emoji: Some("\u{2728}".to_string()),
        title: "t".to_string(),
        message: "b".to_string(),
    };
    assert_eq!(format_commit_message(&with_emoji), "\u{2728} t\n\nb");
}

#[test]
fn arrows_walk_through_the_messages_and_wrap() {
    let mut s = three();
    let h = s.handle_key(Key::Right);
    assert!(matches!(h.result, InputResult::Continue));
    assert_eq!(h.effect, Effect::Nothing);
    assert_eq!(s.current_index, 1);
    assert_eq!(s.status, "Viewing commit message 2/3");
    assert_eq!(s.message_text, "two\n\nsecond");
    s.handle_key(Key::Char('r'));
    assert_eq!(s.current_index, 2);
    s.handle_key(Key::Right);
    assert_eq!(s.current_index, 0);
    assert_eq!(s.status, "Viewing commit message 1/3");
    assert_eq!(s.message_text, "one\n\nfirst body");
    s.handle_key(Key::Left);
    assert_eq!(s.current_index, 2);
    assert_eq!(s.status, "Viewing commit message 3/3");
    s.handle_key(Key::Char('l'));
    assert_eq!(s.current_index, 1);
}

#[test]
fn normal_mode_keys() {
    let mut s = three();
    assert!(matches!(s.handle_key(Key::Esc).result, InputResult::Exit));
    s.dirty = false;
    let h = s.handle_key(Key::Char('x'));
    assert!(matches!(h.result, InputResult::Continue));
    assert!(s.dirty);
    assert_eq!(s.handle_key(Key::Char('R')).effect, Effect::Regenerate);
    s.handle_key(Key::Char('?'));
    assert!(!s.nav_bar_visible);
    assert_eq!(s.status, "Navigation bar hidden.");
    s.handle_key(Key::Char('?'));
    assert!(s.nav_bar_visible);
    assert_eq!(s.status, "Navigation bar shown.");
    s.spinner = true;
    s.handle_key(Key::Char('h'));
    assert_eq!(s.mode, Mode::Help);
    assert!(!s.spinner);
    assert_eq!(s.status, "Viewing help. Press any key to close.");
    s.handle_key(Key::Other);
    assert_eq!(s.mode, Mode::Normal);
    assert_eq!(s.status, "Help closed. Press '?' for help.");
    s.handle_key(Key::Char('C'));
    assert_eq!(s.mode, Mode::ContextSelection);
}

#[test]
fn enter_commits_the_current_message() {
    let mut s = three();
    s.handle_key(Key::Right);
    match s.handle_key(Key::Enter).result {
        InputResult::Commit(text) => assert_eq!(text, "two\n\nsecond"),
        _ => panic!("enter commits"),
    }
    assert_eq!(s.status, "Committing...");
    assert!(s.spinner);
}

#[test]
fn instructions_are_shown_edited_and_hidden() {
    let mut s = three();
    s.handle_key(Key::Char('i'));
    assert!(s.instructions_visible);
    assert_eq!(s.mode, Mode::EditingInstructions);
    assert_eq!(s.status, "Editing instructions. Press Esc to finish.");
    assert_eq!(s.handle_key(Key::Char('a')).effect, Effect::EditInstructions);
    s.instructions_text = "be long\nand kind".to_string();
    s.handle_key(Key::Esc);
    assert_eq!(s.mode, Mode::Normal);
    assert_eq!(s.custom_instructions, "be long\nand kind");
    assert_eq!(s.status, "Instructions updated.");
    s.handle_key(Key::Char('i'));
    assert!(!s.instructions_visible);
    assert_eq!(s.mode, Mode::Normal);
    assert_eq!(s.status, "Instructions hidden.");
}

#[test]
fn edited_text_becomes_title_and_body() {
    let mut s = three();
    s.handle_key(Key::Char('e'));
    assert_eq!(s.mode, Mode::EditingMessage);
    assert_eq!(s.handle_key(Key::Char('z')).effect, Effect::EditMessage);
    s.message_text = "  New title \r\n\n  \nline one\n\nline two\n".to_string();
    s.handle_key(Key::Esc);
    assert_eq!(s.mode, Mode::Normal);
    assert_eq!(s.messages[0].title, "New title");
    assert_eq!(s.messages[0].message, "line one\n\nline two");
    assert_eq!(s.status, "Commit message updated.");
    assert_eq!(s.message_text, "New title\n\nline one\n\nline two");
    s.handle_key(Key::Char('e'));
    s.message_text = String::new();
    s.handle_key(Key::Esc);
    assert_eq!(s.messages[0].title, "");
    assert_eq!(s.messages[0].message, "");
}

#[test]
fn completion_starts_from_the_first_line() {
    let mut s = three();
    s.handle_key(Key::Char('e'));
    s.message_text = "   \nbody".to_string();
    s.handle_key(Key::Tab);
    assert_eq!(s.mode, Mode::EditingMessage);
    assert_eq!(s.status, "Cannot complete empty message. Type something first.");
    s.message_text = "feat: add \nbody".to_string();
    s.handle_key(Key::Tab);
    assert_eq!(s.mode, Mode::Completing);
    assert_eq!(s.pending_completion_prefix.as_deref(), Some("feat: add "));
    assert_eq!(s.status, "Generating completion suggestions...");
}

#[test]
fn completions_are_cycled_and_accepted() {
    let mut s = three();
    s.mode = Mode::Completing;
    s.handle_key(Key::Tab);
    s.handle_key(Key::BackTab);
    s.handle_key(Key::Enter);
    assert_eq!(s.mode, Mode::Completing);
    s.completion_suggestions = vec!["a".to_string(), "b".to_string(), "c".to_string()];
    s.handle_key(Key::Tab);
    assert_eq!((s.completion_index, s.status.as_str()), (1, "Selected: b"));
    s.handle_key(Key::Tab);
    s.handle_key(Key::Tab);
    assert_eq!((s.completion_index, s.status.as_str()), (0, "Selected: a"));
    s.handle_key(Key::BackTab);
    assert_eq!((s.completion_index, s.status.as_str()), (2, "Selected: c"));
    s.handle_key(Key::BackTab);
    assert_eq!(s.completion_index, 1);
    s.handle_key(Key::Enter);
    assert_eq!(s.messages[0].title, "b");
    assert_eq!(s.message_text, "b\n\nfirst body");
    assert!(s.completion_suggestions.is_empty());
    assert_eq!(s.mode, Mode::EditingMessage);
    assert_eq!(s.status, "Completion accepted.");
}

#[test]
fn completion_is_cancelled_by_other_keys() {
    let mut s = three();
    s.mode = Mode::Completing;
    s.completion_suggestions = vec!["a".to_string()];
    s.handle_key(Key::Esc);
    assert_eq!(s.mode, Mode::EditingMessage);
    assert_eq!(s.status, "Completion cancelled.");
    assert!(s.completion_suggestions.is_empty());
    s.mode = Mode::Completing;
    s.completion_suggestions = vec!["a".to_string()];
    let h = s.handle_key(Key::Char('x'));
    assert_eq!(h.effect, Effect::EditMessage);
    assert_eq!(s.mode, Mode::EditingMessage);
    assert!(s.completion_suggestions.is_empty());
}

#[test]
fn context_selection_keys() {
    let mut s = three();
    s.mode = Mode::ContextSelection;
    assert_eq!(s.handle_key(Key::Up).effect, Effect::SelectionUp);
    assert_eq!(s.handle_key(Key::Down).effect, Effect::SelectionDown);
    assert_eq!(s.handle_key(Key::Char(' ')).effect, Effect::SelectionToggle);
    assert_eq!(s.handle_key(Key::Tab).effect, Effect::SelectionNextCategory);
    assert_eq!(s.mode, Mode::ContextSelection);
    s.handle_key(Key::Enter);
    assert_eq!(s.mode, Mode::Normal);
    assert_eq!(s.status, "Context selection confirmed. Press 'R' to regenerate with selected context.");
    s.mode = Mode::ContextSelection;
    s.handle_key(Key::Esc);
    assert_eq!(s.status, "Context selection cancelled.");
}

#[test]
fn generating_is_cancelled_by_escape_only() {
    let mut s = three();
    s.mode = Mode::Generating;
    s.handle_key(Key::Enter);
    assert_eq!(s.mode, Mode::Generating);
    s.handle_key(Key::Esc);
    assert_eq!(s.mode, Mode::Normal);
    assert_eq!(s.status, "Message generation cancelled.");
    s.mode = Mode::RebaseList;
    let h = s.handle_key(Key::Esc);
    assert!(matches!(h.result, InputResult::Continue));
    assert_eq!(s.mode, Mode::RebaseList);
}

struct App {
    state: TuiState,
    regenerated: usize,
}

impl TuiApp for App {
    fn get_state(&mut self) -> &mut TuiState {
        &mut self.state
    }

    fn handle_regenerate(&mut self) {
        self.regenerated += 1;
    }
}

#[test]
fn program_regenerates_on_request() {
    let mut app = App { state: three(), regenerated: 0 };
    let h = handle_input(&mut app, Key::Char('R')).unwrap();
    assert_eq!(h.effect, Effect::Regenerate);
    assert_eq!(app.regenerated, 1);
    handle_input(&mut app, Key::Right).unwrap();
    assert_eq!(app.regenerated, 1);
    assert_eq!(app.state.current_index, 1);
    app.state.current_index = 7;
    assert!(handle_input(&mut app, Key::Right).is_none());
}

#[test]
fn text_lines_and_trimming() {
    assert_eq!(lines_of("a\r\nb\n\nc\r"), vec!["a", "b", "", "c\r"]);
    assert_eq!(lines_of("a\n"), vec!["a"]);
    assert_eq!(lines_of(""), Vec::<String>::new());
    assert_eq!(lines_of("\n"), vec![""]);
    assert_eq!(trim("  a b \t\n"), "a b");
    assert_eq!(trim(" \n "), "");
    assert_eq!(trim(""), "");
    assert_eq!(trim("x"), "x");
    let parts = vec!["a".to_string(), "b".to_string(), "c".to_string()];
    assert_eq!(join_from(&parts, 0, ", "), "a, b, c");
    assert_eq!(join_from(&parts, 2, ", "), "c");
    assert_eq!(join_from(&parts, 3, ", "), "");
}

#[test]
fn commit_plans() {
    assert_eq!(perform_commit(true, true, false, None).unwrap_err(), "Cannot commit to a remote repository");
    let plan = perform_commit(false, false, false, None).unwrap();
    assert!(matches!(plan.as_slice(), [CommitStep::Commit]));
    let plan = perform_commit(false, false, true, None).unwrap();
    assert!(matches!(plan.as_slice(), [CommitStep::Amend(r)] if r == "HEAD"));
    let plan = perform_commit(false, true, true, Some("abc")).unwrap();
    assert!(matches!(
        plan.as_slice(),
        [
            CommitStep::Hook { name: pre, required: true },
            CommitStep::Amend(r),
            CommitStep::Hook { name: post, required: false },
        ] if pre == "pre-commit" && r == "abc" && post == "post-commit"
    ));
    let plan = perform_commit(false, true, false, Some("ignored")).unwrap();
    assert!(matches!(plan[1], CommitStep::Commit));
    assert_eq!(pre_commit(true, true), None);
    assert_eq!(pre_commit(false, false), None);
    assert_eq!(pre_commit(false, true), Some("pre-commit"));
}

#[test]
fn rebase_prompt_lists_the_commits() {
    let commit = |message: &str, author: &str, hash: &str| RebaseCommit {
        hash: hash.to_string(),
        message: message.to_string(),
        author: author.to_string(),
        date: String::new(),
        suggested_action: RebaseAction::Pick,
        confidence: 50,
        reasoning: String::new(),
    };
    assert_eq!(
        rebase_user_prompt(&vec![commit("  fix a\n", "ann", "abc1234"), commit("wip", "bob", "def5678")]),
        "Please analyze these commits and suggest rebase actions:\n\n\
         Commit 1: fix a\nAuthor: ann\nHash: abc1234\n\n\
         Commit 2: wip\nAuthor: bob\nHash: def5678\n\n\
         Respond with only the JSON array, no additional text."
    );
    assert_eq!(
        rebase_user_prompt(&vec![]),
        "Please analyze these commits and suggest rebase actions:\n\n\
         Respond with only the JSON array, no additional text."
    );
}

#[test]
fn texts_are_cut_with_an_ellipsis() {
    let optimizer = TokenOptimizer::new(10).unwrap();
    assert_eq!(optimizer.max_tokens(), 10);
    assert_eq!(TokenOptimizer::for_counting().unwrap().max_tokens(), 0);
    let text = "hello world, this is a longer sentence";
    let tokens = optimizer.encoder().encode_ordinary(text);
    let ellipsis = optimizer.encoder().encode_ordinary("\u{2026}");
    assert!(tokens.len() > 3);
    assert_eq!(optimizer.truncate_string(text, &tokens, &ellipsis, tokens.len()).unwrap(), text);
    assert_eq!(optimizer.truncate_string(text, &tokens, &ellipsis, 0).unwrap(), "\u{2026}");
    assert_eq!(optimizer.truncate_string(text, &tokens, &ellipsis, 3).unwrap(), "hello world\u{2026}");
    assert_eq!(optimizer.truncate_string(text, &tokens, &ellipsis, 1).unwrap(), "\u{2026}");
    assert!(matches!(
        optimizer.truncate_string(text, &tokens, &vec![], 3),
        Err(TokenError::EncodingFailed(_))
    ));
    assert!(matches!(
        optimizer.truncate_string(text, &vec![4_000_000_000, 1, 2], &ellipsis, 2),
        Err(TokenError::DecodingFailed(_))
    ));
}

#[test]
fn long_texts_are_cut_into_chunks() {
    assert_eq!(summary_chunks(""), Vec::<String>::new());
    assert_eq!(summary_chunks("short"), vec!["short"]);
    let text = "a".repeat(8001);
    let chunks = summary_chunks(&text);
    assert_eq!(chunks.iter().map(|c| c.len()).collect::<Vec<_>>(), vec![4000, 4000, 1]);
    assert_eq!(chunks.concat(), text);
    let exact = "b".repeat(4000);
    assert_eq!(summary_chunks(&exact), vec![exact.clone()]);
    assert_eq!(chunk_token_limit(1000, 3), 333);
}

#[test]
fn chunks_that_cut_a_character_are_left_out() {
    let text = format!("{}\u{e9}{}", "a".repeat(3999), "b".repeat(4005));
    let chunks = summary_chunks(&text);
    assert_eq!(chunks, vec!["b".repeat(6)]);
    let text = format!("{}\u{e9}{}", "a".repeat(3999), "b".repeat(10));
    assert_eq!(summary_chunks(&text), Vec::<String>::new());
    let text = format!("{}\u{e9}{}", "a".repeat(3998), "b".repeat(10));
    assert_eq!(summary_chunks(&text), vec![format!("{}\u{e9}", "a".repeat(3998)), "b".repeat(10)]);
}

#[test]
fn pending_commits_are_kept_by_default() {
    assert_eq!(short_hash("0123456789abcdef"), "0123456");
    assert_eq!(short_hash("0123456"), "0123456");
    assert_eq!(short_hash("abc"), "abc");
    let c = pending_commit("0123456789abcdef", "m".to_string(), "a".to_string(), "17".to_string());
    assert_eq!(c.hash, "0123456");
    assert_eq!(c.suggested_action, RebaseAction::Pick);
    assert_eq!(c.confidence, 50);
    assert_eq!(c.reasoning, "Default action");
    let a = analysis_of(vec![c], "main", "feature-branch");
    assert_eq!(a.upstream, "main");
    assert_eq!(a.branch, "feature-branch");
    assert_eq!(a.suggested_operations, 0);
    assert_eq!(a.commits.len(), 1);
}
