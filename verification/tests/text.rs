//! Texts, repositories and the search line.

use issuegator::chars::{
    cut_after, cut_before, cut_prefix, cut_suffix, decimal_chars, equal_but_case, find_char,
    find_text, is_white_space, join_texts, make_spaces, padded_right, split_lines, split_words,
    to_chars, to_text, trimmed, trimmed_end, trimmed_start, CharClass,
};
use issuegator::remote::{
    git_command_dir_for_path, git_output, git_remote_args, git_toplevel_args,
    github_repo_from_path, github_repo_from_remote, repo_for_path, RepoDir, RepoEvent, RepoStep,
};
use issuegator::search::{insert_paste, KeyKind, SearchLine, TextKey, CONTROL, SHIFT};

const SAMPLES: [&str; 14] = [
    "",
    " ",
    "a",
    " a ",
    "one two\tthree",
    "\u{a0}x\u{3000}\u{2028}y\u{85}",
    "a\nb\r\nc\rd\n\n",
    "\r\n",
    "\n",
    "last\r",
    "/a//b/",
    "///",
    "日本語 テスト",
    "a\u{200b}b",
];

#[test]
fn white_space_is_that_of_unicode() {
    for n in 0..=0x10ffffu32 {
        if let Some(c) = char::from_u32(n) {
            assert_eq!(is_white_space(c), c.is_whitespace(), "{n:x}");
        }
    }
}

#[test]
fn trimming() {
    for s in SAMPLES {
        let chars = to_chars(s);
        assert_eq!(to_text(trimmed(&chars, CharClass::WhiteSpace)), s.trim());
        assert_eq!(to_text(trimmed_end(&chars, CharClass::WhiteSpace)), s.trim_end());
        assert_eq!(to_text(trimmed_start(&chars, CharClass::WhiteSpace)), s.trim_start());
        assert_eq!(to_text(trimmed(&chars, CharClass::Just('/'))), s.trim_matches('/'));
    }
}

#[test]
fn words_and_lines() {
    for s in SAMPLES {
        let chars = to_chars(s);
        let words: Vec<String> = split_words(&chars).iter().map(|w| to_text(w)).collect();
        assert_eq!(words, s.split_whitespace().collect::<Vec<_>>());
        let lines: Vec<String> = split_lines(&chars, 400).iter().map(|l| to_text(l)).collect();
        assert_eq!(lines, s.lines().collect::<Vec<_>>());
        let two: Vec<String> = split_lines(&chars, 2).iter().map(|l| to_text(l)).collect();
        assert_eq!(two, s.lines().take(2).collect::<Vec<_>>());
    }
}

#[test]
fn cutting() {
    let s = to_chars("ab/cd/ef");
    assert_eq!(find_char(&s, '/'), 2);
    assert_eq!(find_char(&s, 'z'), 8);
    assert_eq!(to_text(cut_before(&s, '/')), "ab");
    assert_eq!(to_text(cut_before(&s, 'z')), "ab/cd/ef");
    assert_eq!(cut_after(&s, '/').map(to_text).as_deref(), Some("cd/ef"));
    assert_eq!(cut_after(&s, 'f').map(to_text).as_deref(), Some(""));
    assert!(cut_after(&s, 'z').is_none());
    assert_eq!(cut_prefix(&s, &to_chars("ab")).map(to_text).as_deref(), Some("/cd/ef"));
    assert!(cut_prefix(&s, &to_chars("b")).is_none());
    assert_eq!(cut_suffix(&s, &to_chars("ef")).map(to_text).as_deref(), Some("ab/cd/"));
    assert!(cut_suffix(&s, &to_chars("ab/cd/efg")).is_none());
    assert_eq!(find_text(&s, &to_chars("/c")), Some(2));
    assert_eq!(find_text(&s, &to_chars("")), Some(0));
    assert_eq!(find_text(&s, &to_chars("ef")), Some(6));
    assert_eq!(find_text(&s, &to_chars("fe")), None);
    assert_eq!(find_text(&[], &[]), Some(0));
}

#[test]
fn numbers_padding_and_joining() {
    for n in [0, 7, 10, 99, 100, 12345, u64::MAX] {
        assert_eq!(to_text(&decimal_chars(n)), n.to_string());
    }
    assert_eq!(make_spaces(3), "   ");
    assert_eq!(padded_right(&to_chars("ab"), 5), format!("{:<5}", "ab"));
    assert_eq!(padded_right(&to_chars("abcdef"), 5), "abcdef");
    let parts = vec!["a".to_string(), String::new(), "c".to_string()];
    assert_eq!(join_texts(&parts, ", "), parts.join(", "));
    assert_eq!(join_texts(&vec![], ", "), "");
    assert!(equal_but_case(&to_chars("OpEn"), &to_chars("open")));
    assert!(!equal_but_case(&to_chars("OPENED"), &to_chars("open")));
    assert!(!equal_but_case(&to_chars("@pen"), &to_chars("`pen")));
    assert!(!equal_but_case(&to_chars("Äb"), &to_chars("äb")));
}

fn remote(s: &str) -> Option<String> {
    github_repo_from_remote(s)
}

#[test]
fn remotes_name_repositories() {
    for s in [
        "git@github.com:owner/name.git",
        "git@github.com:owner/name",
        "https://github.com/owner/name.git",
        "https://github.com/owner/name",
        "ssh://git@github.com/owner/name.git",
        "  https://github.com/owner/name/\n",
        "https://github.com/owner/name/issues/3",
        "https://github.com/owner/name?tab=readme#top",
        "https://github.com//owner/name.git//",
        "https://token@github.com/ owner / name ",
    ] {
        assert_eq!(remote(s).as_deref(), Some("owner/name"), "{s}");
    }
    assert_eq!(remote("git@github.com:o/r.git.git").as_deref(), Some("o/r.git"));
    assert_eq!(remote("https://github.com/o/r.git/x").as_deref(), Some("o/r.git"));
    assert_eq!(remote("https://github.com/github.com/x").as_deref(), Some("github.com/x"));
}

#[test]
fn other_remotes_name_none() {
    for s in [
        "",
        " \n",
        "https://gitlab.com/owner/name.git",
        "git@github.com:owner",
        "git@github.com:owner/",
        "git@github.com:/name",
        "git@github.com:owner/.git",
        "git@github.com:owner//name",
        "https://github.com/?owner/name",
        " /tmp/repo",
    ] {
        assert_eq!(remote(s), None, "{s}");
    }
    assert_eq!(remote("x git@github.com:o/r"), None);
}

#[test]
fn paths_name_repositories() {
    assert_eq!(github_repo_from_path("o/r").as_deref(), Some("o/r"));
    assert_eq!(github_repo_from_path("o/r#a?b").as_deref(), Some("o/r"));
    assert_eq!(github_repo_from_path("o/r?a#b").as_deref(), Some("o/r"));
    assert_eq!(github_repo_from_path("o"), None);
    assert_eq!(github_repo_from_path(" / "), None);
}

#[test]
fn paths_name_the_same_with_more_around_them() {
    for (path, repo) in [
        ("the owner/a name", "the owner/a name"),
        ("the owner/a name.git", "the owner/a name"),
        ("o/r/issues/3", "o/r"),
        ("o/r/.git", "o/r"),
        ("o/r/x.git", "o/r"),
        ("o/r/x?y/z#w", "o/r"),
        ("o/r///", "o/r"),
        ("///o/r", "o/r"),
    ] {
        assert_eq!(github_repo_from_path(path).as_deref(), Some(repo), "{path}");
    }
    for path in ["o/r", "o/r.git", "o", "", "o/r?q", "o/r#f", "/", "o//r", "?o/r"] {
        let named = github_repo_from_path(path);
        assert_eq!(github_repo_from_path(&format!("/{path}")), named, "{path}");
        assert_eq!(github_repo_from_path(&format!("{path}/")), named, "{path}");
        for start in ["git@github.com:", "https://github.com/", "ssh://git@github.com/"] {
            assert_eq!(remote(&format!("{start}{path}")), named, "{start}{path}");
        }
    }
}

#[test]
fn git_answers() {
    assert_eq!(git_output(false, b"text"), None);
    assert_eq!(git_output(true, b"").as_deref(), Some(""));
    assert_eq!(git_output(true, b" text \r\n").as_deref(), Some(" text"));
    assert_eq!(git_output(true, "ä\n".as_bytes()).as_deref(), Some("ä"));
    assert_eq!(git_output(true, b"a\xffb\n").as_deref(), Some("a\u{fffd}b"));
    assert_eq!(
        git_toplevel_args(),
        vec!["-c", "color.ui=never", "rev-parse", "--show-toplevel"]
    );
    assert_eq!(
        git_remote_args(),
        vec!["-c", "color.ui=never", "remote", "get-url", "origin"]
    );
}

#[test]
fn folders_of_git() {
    assert!(matches!(git_command_dir_for_path(true, None), Some(RepoDir::Here)));
    assert!(matches!(git_command_dir_for_path(true, Some("/x")), Some(RepoDir::Here)));
    assert!(git_command_dir_for_path(false, None).is_none());
    assert!(git_command_dir_for_path(false, Some(" \n")).is_none());
    match git_command_dir_for_path(false, Some(" /x y\n")) {
        Some(RepoDir::At(dir)) => assert_eq!(dir, "/x y"),
        _ => panic!("a folder was named"),
    }
}

#[test]
fn steps_to_a_repository() {
    assert!(matches!(
        repo_for_path(RepoEvent::GitEntry(true)),
        RepoStep::AskRemote(RepoDir::Here)
    ));
    assert!(matches!(repo_for_path(RepoEvent::GitEntry(false)), RepoStep::AskTopLevel));
    assert!(matches!(repo_for_path(RepoEvent::TopLevel(None)), RepoStep::Done(None)));
    assert!(matches!(
        repo_for_path(RepoEvent::TopLevel(Some("\n".to_string()))),
        RepoStep::Done(None)
    ));
    match repo_for_path(RepoEvent::TopLevel(Some("/top\n".to_string()))) {
        RepoStep::AskRemote(RepoDir::At(dir)) => assert_eq!(dir, "/top"),
        _ => panic!("a folder was named"),
    }
    assert!(matches!(repo_for_path(RepoEvent::Remote(None)), RepoStep::Done(None)));
    match repo_for_path(RepoEvent::Remote(Some("git@github.com:o/r.git".to_string()))) {
        RepoStep::Done(repo) => assert_eq!(repo.as_deref(), Some("o/r")),
        _ => panic!("the repository was named"),
    }
}

fn line(text: &str, cursor: usize) -> SearchLine {
    SearchLine { text: text.to_string(), cursor }
}

#[test]
fn pasting_leaves_carriage_returns_out() {
    let mut search = line("ad", 1);
    insert_paste(&mut search, "b\rc\r");
    assert_eq!((search.text.as_str(), search.cursor), ("abcd", 3));
    insert_paste(&mut search, "");
    assert_eq!((search.text.as_str(), search.cursor), ("abcd", 3));
    let mut parts = SearchLine::new();
    insert_paste(&mut parts, "ä\r");
    insert_paste(&mut parts, "\rö");
    assert_eq!((parts.text.as_str(), parts.cursor), ("äö", 2));
}

#[test]
fn keys_edit_the_search_line() {
    let mut search = SearchLine::new();
    for c in "issue one".chars() {
        search.press(TextKey::Char(c), 0, KeyKind::Press);
    }
    search.press(TextKey::Char('X'), SHIFT, KeyKind::Repeat);
    assert_eq!((search.text.as_str(), search.cursor), ("issue oneX", 10));
    search.press(TextKey::Char('z'), 0, KeyKind::Release);
    search.press(TextKey::Other, 0, KeyKind::Press);
    assert_eq!((search.text.as_str(), search.cursor), ("issue oneX", 10));
    search.press(TextKey::Backspace, 0, KeyKind::Press);
    assert_eq!((search.text.as_str(), search.cursor), ("issue one", 9));
    search.press(TextKey::Left, 0, KeyKind::Press);
    assert_eq!((search.text.as_str(), search.cursor), ("issue one", 8));
    search.press(TextKey::Home, 0, KeyKind::Press);
    search.press(TextKey::Delete, 0, KeyKind::Press);
    assert_eq!((search.text.as_str(), search.cursor), ("ssue one", 0));
    search.press(TextKey::Right, 0, KeyKind::Press);
    search.press(TextKey::Char('-'), 0, KeyKind::Press);
    assert_eq!((search.text.as_str(), search.cursor), ("s-sue one", 2));
    search.press(TextKey::End, 0, KeyKind::Press);
    search.press(TextKey::Char('w'), CONTROL, KeyKind::Press);
    assert_eq!((search.text.as_str(), search.cursor), ("s-sue ", 6));
    search.delete_line();
    assert_eq!((search.text.as_str(), search.cursor), ("", 0));
    search.delete_line();
    assert_eq!((search.text.as_str(), search.cursor), ("", 0));
}

#[test]
fn columns_of_the_cursor() {
    assert_eq!(line("", 0).column(), 0);
    assert_eq!(line("abc", 2).column(), 2);
    assert_eq!(line("日本語", 2).column(), 4);
}

#[test]
fn deleted_text_stands_next_to_the_cursor() {
    let mut search = line("ae\u{301}b", 3);
    search.press(TextKey::Backspace, 0, KeyKind::Press);
    assert_eq!((search.text.as_str(), search.cursor), ("ab", 1));
    let mut search = line("ae\u{301}b", 1);
    search.press(TextKey::Delete, 0, KeyKind::Press);
    assert_eq!((search.text.as_str(), search.cursor), ("ab", 1));
    let mut search = line("one two three", 7);
    search.press(TextKey::Backspace, 4, KeyKind::Press);
    assert_eq!((search.text.as_str(), search.cursor), ("one  three", 4));
    search.press(TextKey::Delete, CONTROL, KeyKind::Press);
    assert_eq!((search.text.as_str(), search.cursor), ("one three", 4));
    search.press(TextKey::Backspace, SHIFT, KeyKind::Press);
    search.press(TextKey::Delete, 0, KeyKind::Release);
    assert_eq!((search.text.as_str(), search.cursor), ("one three", 4));
}

#[test]
fn moving_the_cursor_keeps_the_text() {
    let mut search = line("one two", 7);
    search.press(TextKey::Left, CONTROL, KeyKind::Press);
    assert_eq!((search.text.as_str(), search.cursor), ("one two", 4));
    search.press(TextKey::Left, SHIFT, KeyKind::Press);
    assert_eq!((search.text.as_str(), search.cursor), ("one two", 4));
    search.press(TextKey::Home, 0, KeyKind::Repeat);
    assert_eq!((search.text.as_str(), search.cursor), ("one two", 0));
    search.press(TextKey::Right, CONTROL, KeyKind::Press);
    assert_eq!((search.text.as_str(), search.cursor), ("one two", 4));
    search.press(TextKey::End, 0, KeyKind::Press);
    assert_eq!((search.text.as_str(), search.cursor), ("one two", 7));
    search.press(TextKey::Char('k'), CONTROL, KeyKind::Press);
    assert_eq!((search.text.as_str(), search.cursor), ("one two", 7));
}
