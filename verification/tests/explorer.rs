//! What is shown, and what events make of it.

use issuegator::details::{
    apply_detail, ensure_selected_issue_detail, merge_issue_details, selected_index_for_issue_number,
    selected_issue,
};
use issuegator::explorer::{
    cursor_cell, palette, Action, Explorer, Mouse, MouseKind, UiEvent,
};
use issuegator::layout::{issue_layout, Area, IssueLayout};
use issuegator::load::{IssueDetailResult, IssueLoadResult};
use issuegator::model::{IssueEntry, IssueStateFilter};
use issuegator::screen::{
    detail_title, issue_detail_text, issue_help_line, issue_list_items, issue_metadata, issue_row,
    list_title, short_timestamp, text_line_count, truncate_with_ellipsis, Color, Line,
};
use issuegator::search::{KeyKind, KeyName, KeyPress, TextKey, CONTROL};
use std::collections::HashSet;

fn issue(number: u64, title: &str) -> IssueEntry {
    IssueEntry {
        number,
        title: title.to_string(),
        state: "OPEN".to_string(),
        author: None,
        labels: vec![],
        assignees: vec![],
        milestone: None,
        comments: 0,
        created_at: None,
        updated_at: None,
        url: format!("https://github.com/o/r/issues/{number}"),
        body: None,
        detail_loaded: false,
        detail_error: None,
    }
}

fn line_text(line: &Line) -> String {
    line.spans.iter().map(|s| s.text.as_str()).collect()
}

fn contains(word: &str, text: &str) -> bool {
    text.contains(word)
}

fn ui() -> IssueLayout {
    issue_layout(Area { x: 0, y: 0, width: 100, height: 30 })
}

fn key(code: KeyName, modifiers: u8) -> UiEvent {
    UiEvent::Key(KeyPress { code, modifiers, kind: KeyKind::Press })
}

fn letter(c: char, modifiers: u8) -> UiEvent {
    key(KeyName::Text(TextKey::Char(c)), modifiers)
}

fn load(explorer: &Explorer, issues: Vec<IssueEntry>, done: bool) -> IssueLoadResult {
    IssueLoadResult {
        load_id: explorer.load_id,
        state: explorer.state_filter,
        issues,
        error: None,
        done,
    }
}

/// An explorer that has loaded issues 1 to 5.
fn loaded() -> Explorer {
    let (mut explorer, _) = Explorer::new("o/r".to_string());
    let issues = (1..=5).map(|n| issue(n, &format!("title {n}"))).collect();
    let result = load(&explorer, issues, true);
    explorer.on_issue_load(result, &contains);
    explorer
}

fn send(explorer: &mut Explorer, event: UiEvent) -> Action {
    explorer.on_event(&ui(), event, &contains)
}

#[test]
fn starts_with_a_load_of_open_issues() {
    let (explorer, action) = Explorer::new("o/r".to_string());
    assert!(matches!(action, Action::Load(IssueStateFilter::Open, 1)));
    assert!(explorer.loading && !explorer.loading_more && explorer.load_id == 1);
    assert!(explorer.issues.is_empty() && explorer.filtered.is_empty());
    assert_eq!(explorer.detail_page_step, 5);
}

#[test]
fn loads_fill_the_list() {
    let (mut explorer, _) = Explorer::new("o/r".to_string());
    explorer.list_offset = 3;
    explorer.detail_in_flight.insert(9);
    let first = load(&explorer, vec![issue(2, "b"), issue(1, "a")], false);
    explorer.on_issue_load(first, &contains);
    assert_eq!(explorer.filtered, vec![0, 1]);
    assert!(!explorer.loading && explorer.loading_more);
    assert!(explorer.list_offset == 0 && explorer.detail_in_flight.is_empty());
    explorer.detail_in_flight.insert(9);
    let second = load(&explorer, vec![issue(3, "c"), issue(2, "b"), issue(1, "a")], true);
    explorer.on_issue_load(second, &contains);
    assert_eq!(explorer.filtered, vec![0, 1, 2]);
    assert!(!explorer.loading_more && explorer.detail_in_flight.contains(&9));
}

#[test]
fn old_loads_are_dropped() {
    let mut explorer = loaded();
    let old = load(&explorer, vec![], true);
    assert!(matches!(
        send(&mut explorer, letter('r', 0)),
        Action::Load(IssueStateFilter::Open, 2)
    ));
    explorer.on_issue_load(old, &contains);
    assert!(explorer.loading && explorer.issues.len() == 5);
    let mut other = load(&explorer, vec![], true);
    other.state = IssueStateFilter::All;
    explorer.on_issue_load(other, &contains);
    assert!(explorer.loading && explorer.issues.len() == 5);
    let new = load(&explorer, vec![issue(8, "x")], true);
    explorer.on_issue_load(new, &contains);
    assert!(!explorer.loading && explorer.issues.len() == 1);
}

#[test]
fn selection_follows_the_issue() {
    let mut explorer = loaded();
    send(&mut explorer, key(KeyName::Down, 0));
    send(&mut explorer, key(KeyName::Down, 0));
    assert_eq!(explorer.selected, 2);
    let moved = load(&explorer, vec![issue(9, "n"), issue(8, "n"), issue(7, "n"), issue(3, "t")], true);
    explorer.on_issue_load(moved, &contains);
    assert_eq!(explorer.selected, 3);
    let gone = load(&explorer, vec![issue(9, "n"), issue(8, "n")], true);
    explorer.on_issue_load(gone, &contains);
    assert_eq!(explorer.selected, 1);
    let empty = load(&explorer, vec![], true);
    explorer.on_issue_load(empty, &contains);
    assert_eq!(explorer.selected, 0);
}

#[test]
fn failed_loads_tell_why() {
    let (mut explorer, _) = Explorer::new("o/r".to_string());
    let mut failed = load(&explorer, vec![], true);
    failed.error = Some("no network".to_string());
    explorer.on_issue_load(failed, &contains);
    let screen = explorer.draw(&ui());
    assert_eq!(line_text(&screen.detail[0]), "Unable to load issues");
    assert_eq!(line_text(&screen.detail[2]), "no network");
    send(&mut explorer, letter('r', 0));
    assert!(explorer.error.is_none());
}

#[test]
fn keys_that_leave() {
    let mut explorer = loaded();
    assert!(matches!(send(&mut explorer, key(KeyName::Esc, 0)), Action::Quit));
    assert!(matches!(send(&mut explorer, letter('c', CONTROL)), Action::Quit));
    match send(&mut explorer, key(KeyName::Enter, 0)) {
        Action::Choose(url) => assert_eq!(url, "https://github.com/o/r/issues/1"),
        _ => panic!("an issue is selected"),
    }
    send(&mut explorer, key(KeyName::Down, 0));
    match send(&mut explorer, letter('y', CONTROL)) {
        Action::Copy(url) => assert_eq!(url, "https://github.com/o/r/issues/2"),
        _ => panic!("an issue is selected"),
    }
    let (mut empty, _) = Explorer::new("o/r".to_string());
    assert!(matches!(send(&mut empty, key(KeyName::Enter, 0)), Action::Continue));
    assert!(matches!(send(&mut empty, letter('y', CONTROL)), Action::Continue));
}

#[test]
fn tab_goes_on_to_the_next_filter() {
    let mut explorer = loaded();
    explorer.detail_in_flight.insert(2);
    assert!(matches!(
        send(&mut explorer, key(KeyName::Tab, 0)),
        Action::Load(IssueStateFilter::Closed, 2)
    ));
    assert!(explorer.issues.is_empty() && explorer.filtered.is_empty());
    assert!(explorer.loading && explorer.detail_in_flight.is_empty());
    assert!(matches!(
        send(&mut explorer, key(KeyName::Tab, 0)),
        Action::Load(IssueStateFilter::All, 3)
    ));
    explorer.load_id = u64::MAX;
    assert!(matches!(
        send(&mut explorer, key(KeyName::Tab, 0)),
        Action::Load(IssueStateFilter::Open, u64::MAX)
    ));
}

#[test]
fn moves_undo_each_other() {
    let mut explorer = loaded();
    send(&mut explorer, key(KeyName::Up, 0));
    assert_eq!(explorer.selected, 0);
    for _ in 0..9 {
        send(&mut explorer, key(KeyName::Down, 0));
    }
    assert_eq!(explorer.selected, 4);
    send(&mut explorer, key(KeyName::Up, 0));
    send(&mut explorer, key(KeyName::Down, 0));
    assert_eq!(explorer.selected, 4);
}

#[test]
fn typing_filters() {
    let mut explorer = loaded();
    send(&mut explorer, key(KeyName::Down, 0));
    explorer.detail_max_scroll = 4;
    explorer.detail_scroll = 4;
    send(&mut explorer, letter('#', 0));
    assert_eq!((explorer.selected, explorer.detail_scroll), (0, 0));
    send(&mut explorer, letter('3', 0));
    assert_eq!(explorer.search.text, "#3");
    assert_eq!(explorer.filtered, vec![2]);
    explorer.detail_scroll = 4;
    send(&mut explorer, key(KeyName::Text(TextKey::Left), 0));
    assert_eq!((explorer.search.cursor, explorer.detail_scroll), (1, 4));
    send(&mut explorer, letter('u', CONTROL));
    assert_eq!(explorer.search.text, "");
    assert_eq!(explorer.filtered, vec![0, 1, 2, 3, 4]);
    assert_eq!(explorer.detail_scroll, 4);
}

#[test]
fn only_new_words_are_matched() {
    let mut explorer = loaded();
    explorer.draw(&ui());
    let unasked = |_: &str, _: &str| -> bool { panic!("no word is to be matched") };
    let result = load(&explorer, (1..=4).map(|n| issue(n, "t")).collect(), true);
    explorer.on_issue_load(result, &unasked);
    for event in [
        UiEvent::Paste(" \r ".to_string()),
        key(KeyName::Text(TextKey::Backspace), 0),
        letter('u', CONTROL),
        letter('r', 0),
        letter('y', CONTROL),
        key(KeyName::Down, 0),
        key(KeyName::Up, 0),
        key(KeyName::PageDown, 0),
        key(KeyName::Text(TextKey::End), CONTROL),
        UiEvent::Mouse(Mouse { kind: MouseKind::LeftDown, column: 1, row: 3 }),
        UiEvent::Other,
    ] {
        explorer.on_event(&ui(), event, &unasked);
        assert_eq!(explorer.filtered, vec![0, 1, 2, 3]);
    }
    send(&mut explorer, letter('#', 0));
    send(&mut explorer, letter('2', 0));
    for event in [
        key(KeyName::Text(TextKey::Left), 0),
        key(KeyName::Text(TextKey::End), 0),
        letter('r', 0),
        key(KeyName::Enter, 0),
        key(KeyName::Esc, 0),
    ] {
        explorer.on_event(&ui(), event, &unasked);
        assert_eq!(explorer.filtered, vec![1]);
    }
    explorer.on_event(&ui(), key(KeyName::Tab, 0), &unasked);
    assert!(explorer.filtered.is_empty());
}

#[test]
fn the_refresh_key_is_not_typed() {
    let mut explorer = loaded();
    send(&mut explorer, letter('r', 0));
    assert_eq!(explorer.search.text, "");
    assert_eq!(explorer.load_id, 2);
    send(&mut explorer, letter('R', 1));
    assert_eq!(explorer.search.text, "R");
}

#[test]
fn pasting_filters() {
    let mut explorer = loaded();
    send(&mut explorer, UiEvent::Paste("title\r 4".to_string()));
    assert_eq!(explorer.search.text, "title 4");
    assert_eq!(explorer.filtered, vec![3]);
    send(&mut explorer, UiEvent::Other);
    assert_eq!(explorer.filtered, vec![3]);
}

#[test]
fn description_scrolls_within_bounds() {
    let mut explorer = loaded();
    explorer.issues[0].body = Some("line\n".repeat(100));
    explorer.draw(&ui());
    assert_eq!(explorer.detail_page_step, 25);
    assert_eq!(explorer.detail_max_scroll, 80);
    send(&mut explorer, key(KeyName::PageDown, 0));
    assert_eq!(explorer.detail_scroll, 25);
    send(&mut explorer, key(KeyName::Text(TextKey::End), CONTROL));
    assert_eq!(explorer.detail_scroll, 80);
    send(&mut explorer, key(KeyName::PageDown, 0));
    assert_eq!(explorer.detail_scroll, 80);
    send(&mut explorer, key(KeyName::PageUp, 0));
    assert_eq!(explorer.detail_scroll, 55);
    send(&mut explorer, key(KeyName::Text(TextKey::Home), CONTROL));
    send(&mut explorer, key(KeyName::PageUp, 0));
    assert_eq!(explorer.detail_scroll, 0);
    explorer.detail_scroll = 80;
    explorer.issues[0].body = None;
    assert_eq!(explorer.draw(&ui()).detail_scroll, 0);
}

#[test]
fn the_mouse_selects_and_scrolls() {
    let mut explorer = loaded();
    let ui = ui();
    let on_list = (ui.results.x, ui.results.y + 3);
    let on_detail = (ui.detail.x, ui.detail.y);
    let mouse = |kind, (column, row)| UiEvent::Mouse(Mouse { kind, column, row });
    send(&mut explorer, mouse(MouseKind::LeftDown, on_list));
    assert_eq!(explorer.selected, 3);
    send(&mut explorer, mouse(MouseKind::ScrollDown, on_list));
    assert_eq!(explorer.selected, 4);
    send(&mut explorer, mouse(MouseKind::ScrollUp, on_list));
    assert_eq!(explorer.selected, 3);
    send(&mut explorer, mouse(MouseKind::LeftDown, on_detail));
    assert_eq!(explorer.selected, 3);
    send(&mut explorer, mouse(MouseKind::LeftDown, (ui.results.x, ui.results.y + 20)));
    assert_eq!(explorer.selected, 4);
    explorer.detail_max_scroll = 1;
    send(&mut explorer, mouse(MouseKind::ScrollDown, on_detail));
    send(&mut explorer, mouse(MouseKind::ScrollDown, on_detail));
    assert_eq!(explorer.detail_scroll, 1);
    send(&mut explorer, mouse(MouseKind::ScrollUp, on_detail));
    send(&mut explorer, mouse(MouseKind::Other, on_detail));
    assert_eq!((explorer.detail_scroll, explorer.selected), (0, 4));
}

fn detail(number: u64, body: Option<&str>, error: Option<&str>) -> IssueDetailResult {
    IssueDetailResult {
        number,
        body: body.map(|s| s.to_string()),
        milestone: Some("v1".to_string()),
        comments: if error.is_none() { Some(6) } else { None },
        error: error.map(|s| s.to_string()),
    }
}

#[test]
fn details_are_asked_for_once() {
    let mut explorer = loaded();
    assert_eq!(explorer.next_detail(), Some(1));
    assert_eq!(explorer.next_detail(), None);
    explorer.on_issue_detail(detail(1, Some("text"), None));
    assert!(explorer.detail_in_flight.is_empty());
    assert_eq!(explorer.next_detail(), None);
    assert_eq!(explorer.issues[0].body.as_deref(), Some("text"));
    assert_eq!(explorer.issues[0].comments, 6);
    send(&mut explorer, key(KeyName::Down, 0));
    assert_eq!(explorer.next_detail(), Some(2));
    explorer.on_issue_detail(detail(2, Some("lost"), Some("failed")));
    assert_eq!(explorer.issues[1].detail_error.as_deref(), Some("failed"));
    assert!(explorer.issues[1].detail_loaded && explorer.issues[1].body.is_none());
    assert_eq!(explorer.issues[1].comments, 0);
    assert_eq!(explorer.next_detail(), None);
    explorer.on_issue_detail(detail(77, Some("x"), None));
    assert_eq!(explorer.issues.len(), 5);
    let (mut empty, _) = Explorer::new("o/r".to_string());
    assert_eq!(empty.next_detail(), None);
}

#[test]
fn details_do_not_change_the_list() {
    let mut explorer = loaded();
    send(&mut explorer, UiEvent::Paste("needle".to_string()));
    assert!(explorer.filtered.is_empty());
    explorer.on_issue_detail(detail(2, Some("a needle"), None));
    assert!(explorer.filtered.is_empty());
    send(&mut explorer, UiEvent::Paste("".to_string()));
    assert_eq!(explorer.filtered, vec![1]);
}

#[test]
fn details_survive_a_reload() {
    let mut explorer = loaded();
    explorer.on_issue_detail(detail(4, Some("text"), None));
    let again = load(&explorer, vec![issue(4, "new title"), issue(5, "t")], true);
    explorer.on_issue_load(again, &contains);
    assert_eq!(explorer.issues[0].title, "new title");
    assert_eq!(explorer.issues[0].body.as_deref(), Some("text"));
    assert_eq!(explorer.issues[0].milestone.as_deref(), Some("v1"));
    assert!(explorer.issues[0].detail_loaded && !explorer.issues[1].detail_loaded);
}

#[test]
fn merging_details() {
    let mut older = vec![issue(1, "a"), issue(2, "b"), issue(3, "c")];
    apply_detail(&mut older, detail(1, None, None));
    apply_detail(&mut older, detail(2, None, Some("e")));
    let mut next = vec![issue(3, "c"), issue(2, "b2"), issue(1, "a2"), issue(4, "d")];
    next[1].milestone = Some("kept".to_string());
    next[0].comments = 11;
    merge_issue_details(&older, &mut next);
    assert!(!next[0].detail_loaded && next[0].comments == 11);
    assert_eq!(next[1].milestone.as_deref(), Some("kept"));
    assert_eq!(next[1].detail_error.as_deref(), Some("e"));
    assert_eq!(next[2].milestone.as_deref(), Some("v1"));
    assert_eq!((next[2].comments, next[2].title.as_str()), (6, "a2"));
    assert!(!next[3].detail_loaded);
    let once: Vec<String> = next.iter().map(|i| format!("{i:?}")).collect();
    merge_issue_details(&older, &mut next);
    assert_eq!(once, next.iter().map(|i| format!("{i:?}")).collect::<Vec<_>>());
}

#[test]
fn selected_issues() {
    let issues = vec![issue(10, "a"), issue(20, "b"), issue(30, "c")];
    assert_eq!(selected_issue(&issues, &[2, 0], 0).map(|i| i.number), Some(30));
    assert!(selected_issue(&issues, &[2, 0], 2).is_none());
    assert!(selected_issue(&issues, &[7], 0).is_none());
    assert_eq!(selected_index_for_issue_number(&issues, &[2, 0], 10), Some(1));
    assert_eq!(selected_index_for_issue_number(&issues, &[2, 0], 20), None);
    assert_eq!(selected_index_for_issue_number(&issues, &[9, 1], 20), Some(1));
    let mut in_flight = HashSet::new();
    assert_eq!(ensure_selected_issue_detail(&issues, &[1], 0, &mut in_flight), Some(20));
    assert_eq!(ensure_selected_issue_detail(&issues, &[1], 0, &mut in_flight), None);
    assert_eq!(ensure_selected_issue_detail(&issues, &[1], 1, &mut in_flight), None);
}

#[test]
fn truncation() {
    assert_eq!(truncate_with_ellipsis("abcdef", 0), "");
    assert_eq!(truncate_with_ellipsis("abcdef", 3), "abc");
    assert_eq!(truncate_with_ellipsis("abcdef", 5), "ab...");
    assert_eq!(truncate_with_ellipsis("abcdef", 6), "abcdef");
    assert_eq!(truncate_with_ellipsis("äöüäöü", 4), "ä...");
    let cut = truncate_with_ellipsis("abcdef", 5);
    assert_eq!(truncate_with_ellipsis(&cut, 5), cut);
    assert_eq!(truncate_with_ellipsis(&cut, 6), cut);
    assert_eq!(truncate_with_ellipsis(&cut, usize::MAX), cut);
}

#[test]
fn rows_of_issues() {
    let black = Color::Black;
    let mut entry = issue(12, "Add issue explorer");
    let row = issue_row(&entry, 40, black, black);
    assert_eq!(line_text(&row), "#12   OPEN  Add issue explorer          ");
    assert_eq!(row.spans.len(), 4);
    entry.labels = vec!["bug".to_string(), "ui".to_string()];
    entry.state = "closed".to_string();
    let row = issue_row(&entry, 40, black, Color::Rgb(1, 2, 3));
    assert_eq!(line_text(&row), "#12   DONE  Add issue explorer  [bug,ui]");
    assert_eq!(row.spans[0].style.fg, Some(Color::Rgb(1, 2, 3)));
    assert_eq!(row.spans[1].style.fg, Some(black));
    assert_eq!(row.spans[2].style.fg, None);
    assert_eq!(line_text(&issue_row(&entry, 30, black, black)), "#12   DONE  Add is... [bug,ui]");
    assert_eq!(line_text(&issue_row(&entry, 5, black, black)), "#12   DONE  [bug,ui]");
    for width in 0..60 {
        assert_eq!(line_text(&issue_row(&entry, width, black, black)).len(), width.max(20));
    }
    entry.state = "Open".to_string();
    entry.number = 1234567;
    assert_eq!(line_text(&issue_row(&entry, 0, black, black)), "#1234567OPEN  [bug,ui]");
}

#[test]
fn lists_of_rows() {
    let black = Color::Black;
    let issues: Vec<IssueEntry> = (1..=4).map(|n| issue(n, "t")).collect();
    let rows = |filtered: &[usize], offset, height| -> Vec<String> {
        issue_list_items(&issues, filtered, offset, height, 14, black, black)
            .iter()
            .map(line_text)
            .collect()
    };
    assert_eq!(rows(&[], 0, 3), vec!["No issues"]);
    assert_eq!(rows(&[0], 0, 0), vec!["No issues"]);
    assert_eq!(rows(&[3, 0, 1], 1, 9), vec!["#1    OPEN  t ", "#2    OPEN  t "]);
    assert_eq!(rows(&[3, 0, 1], 0, 1), vec!["#4    OPEN  t "]);
    assert_eq!(rows(&[9, 0], 0, 5), vec!["#1    OPEN  t "]);
    assert!(rows(&[0], 1, 5).is_empty());
}

#[test]
fn metadata_of_issues() {
    let mut entry = issue(1, "t");
    assert_eq!(issue_metadata(&entry), "State: OPEN | Comments: 0");
    entry.author = Some("ann".to_string());
    entry.comments = 12;
    entry.created_at = Some("2026-01-01T00:00:00Z".to_string());
    entry.updated_at = Some("T1".to_string());
    assert_eq!(
        issue_metadata(&entry),
        "State: OPEN | Comments: 12 | Author: ann | Created: 2026-01-01 | Updated: T1"
    );
    assert_eq!(short_timestamp("2026-01-02T03"), "2026-01-02");
    assert_eq!(short_timestamp("2026"), "2026");
    assert_eq!(short_timestamp(""), "");
}

fn shown(entry: Option<&IssueEntry>, error: Option<&str>, loading: bool) -> Vec<String> {
    let c = palette();
    let lines = issue_detail_text("o/r", entry, error, loading, c.accent, c.muted, c.text);
    assert_eq!(text_line_count(&lines), lines.len());
    lines.iter().map(line_text).collect()
}

#[test]
fn descriptions() {
    assert_eq!(shown(None, Some("e"), true), vec!["Loading GitHub issues..."]);
    assert_eq!(shown(None, Some("e"), false), vec!["Unable to load issues", "", "e"]);
    assert_eq!(shown(None, None, false), vec!["o/r", "", "No issue selected"]);
    let mut entry = issue(3, "t");
    let head = ["#3 t", "https://github.com/o/r/issues/3", "", "State: OPEN | Comments: 0"];
    let tail = |lines: &Vec<String>| lines[4..].to_vec();
    let lines = shown(Some(&entry), None, false);
    assert_eq!(lines[..4], head);
    assert_eq!(tail(&lines), vec!["", "Loading description..."]);
    entry.detail_loaded = true;
    entry.body = Some(" \n".to_string());
    assert_eq!(tail(&shown(Some(&entry), None, false)), vec!["", "No description"]);
    entry.body = Some("a\r\n\nb".to_string());
    assert_eq!(tail(&shown(Some(&entry), None, false)), vec!["", "a", "", "b"]);
    entry.labels = vec!["x".to_string(), "y".to_string()];
    entry.assignees = vec!["ann".to_string()];
    entry.milestone = Some("v1".to_string());
    entry.detail_error = Some("e".to_string());
    assert_eq!(
        tail(&shown(Some(&entry), None, false)),
        vec![
            "Labels: x, y",
            "Assignees: ann",
            "Milestone: v1",
            "",
            "Unable to load description: e",
        ]
    );
    entry.detail_error = None;
    entry.body = Some("x\n".repeat(1000));
    assert_eq!(shown(Some(&entry), None, false).len(), 408);
}

#[test]
fn help_and_titles() {
    let c = palette();
    let help = issue_help_line(IssueStateFilter::Closed, c.key, c.text, c.accent);
    assert_eq!(
        line_text(&help),
        "Issues  type filter  # number/label  @ author/assignee  Tab closed  r refresh  \
         Enter select URL  Ctrl+Y copy URL"
    );
    assert!(help.spans[0].style.bold && !help.spans[1].style.bold);
    assert_eq!(help.spans[2].style.fg, Some(Color::Rgb(150, 150, 150)));
    let open = IssueStateFilter::Open;
    assert_eq!(list_title(open, true, true, 1, 2), "* Issues open loading");
    assert_eq!(list_title(open, false, true, 1, 30), "* Issues open 1/30 loading more");
    assert_eq!(list_title(open, false, false, 0, 0), "* Issues open 0/0");
    assert_eq!(detail_title(None), "Details");
    assert_eq!(detail_title(Some(&issue(5, "t"))), "#5");
}

#[test]
fn the_selected_issue_is_on_the_screen() {
    let (mut explorer, _) = Explorer::new("o/r".to_string());
    let issues = (1..=60).map(|n| issue(n, "t")).collect();
    let result = load(&explorer, issues, true);
    explorer.on_issue_load(result, &contains);
    for _ in 0..40 {
        send(&mut explorer, key(KeyName::Down, 0));
    }
    let screen = explorer.draw(&ui());
    assert_eq!(explorer.list_offset, 17);
    assert_eq!(screen.selected_row, Some(23));
    assert_eq!(screen.rows.len(), 24);
    assert!(line_text(&screen.rows[23]).starts_with("#41 "));
    assert_eq!(screen.detail_title, "#41");
    assert_eq!(screen.list_title, "* Issues open 60/60");
    let again = explorer.draw(&ui());
    assert_eq!(explorer.list_offset, 17);
    assert_eq!(again.selected_row, Some(23));
}

#[test]
fn the_cursor_stays_on_the_search_line() {
    let mut explorer = loaded();
    send(&mut explorer, UiEvent::Paste("日本".to_string()));
    let screen = explorer.draw(&ui());
    assert_eq!(screen.search, "日本");
    assert_eq!(screen.cursor, (5, 1));
    send(&mut explorer, UiEvent::Paste("x".repeat(200)));
    assert_eq!(explorer.draw(&ui()).cursor, (44, 1));
    let search = Area { x: 10, y: 2, width: 5, height: 1 };
    assert_eq!(cursor_cell(3, search), (13, 2));
    assert_eq!(cursor_cell(usize::MAX, search), (15, 2));
}
