//! Issues as `gh` lists them, and the queries that filter them.

use issuegator::filter::{filter_issues, issue_matches};
use issuegator::load::{
    detail_result, first_stage, issue_list_args, issue_view_args, load_issue_detail, load_issues,
    load_result, stage_after, Answer, LoadStage,
};
use issuegator::model::{
    issue_entries, GhComments, GhIssue, GhIssueDetail, GhLabel, GhMilestone, GhUser, IssueEntry,
    IssueStateFilter, FULL_ISSUE_LIST_LIMIT, INITIAL_ISSUE_LIST_LIMIT,
};
use serde_json::Value;

fn text(value: &Value) -> Option<String> {
    value.as_str().map(|s| s.to_string())
}

fn comments(value: &Value) -> GhComments {
    match value {
        Value::Number(n) => GhComments::Count(n.as_u64().unwrap()),
        Value::Array(items) => GhComments::Items(items.clone()),
        _ => GhComments::Missing,
    }
}

fn users(value: &Value) -> Vec<GhUser> {
    value
        .as_array()
        .unwrap()
        .iter()
        .map(|u| GhUser { login: text(&u["login"]).unwrap() })
        .collect()
}

fn parse_issues_json(output: &str) -> Result<Vec<IssueEntry>, serde_json::Error> {
    let list = serde_json::from_str::<Vec<Value>>(output)?;
    let issues = list
        .iter()
        .map(|v| GhIssue {
            number: v["number"].as_u64().unwrap(),
            title: text(&v["title"]).unwrap(),
            state: text(&v["state"]).unwrap(),
            author: text(&v["author"]["login"]).map(|login| GhUser { login }),
            labels: v["labels"]
                .as_array()
                .unwrap()
                .iter()
                .map(|l| GhLabel { name: text(&l["name"]).unwrap() })
                .collect(),
            assignees: users(&v["assignees"]),
            milestone: text(&v["milestone"]["title"]).map(|title| GhMilestone { title }),
            comments: comments(&v["comments"]),
            created_at: text(&v["createdAt"]),
            updated_at: text(&v["updatedAt"]),
            url: text(&v["url"]).unwrap(),
            body: text(&v["body"]),
        })
        .collect();
    Ok(issue_entries(issues))
}

/// Whether the characters of the word stand in the text in their order.
fn fuzzy(word: &str, text: &str) -> bool {
    let text = text.to_lowercase();
    let mut rest = text.chars();
    word.to_lowercase().chars().all(|c| rest.any(|d| d == c))
}

#[test]
fn parses_issue_list_json() {
    let issues = parse_issues_json(
        r##"[
                {
                    "number": 12,
                    "title": "Add issue explorer",
                    "state": "OPEN",
                    "author": {"login": "yarden"},
                    "labels": [{"name": "feature"}],
                    "assignees": [{"login": "kcw"}],
                    "milestone": {"title": "v1"},
                    "comments": [{"id": "IC_1"}, {"id": "IC_2"}, {"id": "IC_3"}],
                    "createdAt": "2026-01-01T00:00:00Z",
                    "updatedAt": "2026-01-02T00:00:00Z",
                    "url": "https://github.com/o/r/issues/12",
                    "body": "Details"
                }
            ]"##,
    )
    .expect("valid issue JSON should parse");

    assert_eq!(issues.len(), 1);
    assert_eq!(issues[0].number, 12);
    assert_eq!(issues[0].labels, vec!["feature"]);
    assert_eq!(issues[0].assignees, vec!["kcw"]);
    assert_eq!(issues[0].milestone.as_deref(), Some("v1"));
    assert_eq!(issues[0].comments, 3);
}

#[test]
fn filters_issues_by_text_label_number_and_author() {
    let issues = parse_issues_json(
        r##"[
                {
                    "number": 12,
                    "title": "Add issue explorer",
                    "state": "OPEN",
                    "author": {"login": "yarden"},
                    "labels": [{"name": "feature"}],
                    "assignees": [],
                    "milestone": null,
                    "comments": 0,
                    "createdAt": null,
                    "updatedAt": null,
                    "url": "https://github.com/o/r/issues/12",
                    "body": "Details"
                }
            ]"##,
    )
    .expect("valid issue JSON should parse");

    assert_eq!(filter_issues(&issues, "explorer", &fuzzy), vec![0]);
    assert_eq!(filter_issues(&issues, "#feature", &fuzzy), vec![0]);
    assert_eq!(filter_issues(&issues, "#12", &fuzzy), vec![0]);
    assert_eq!(filter_issues(&issues, "@yarden", &fuzzy), vec![0]);
    assert!(filter_issues(&issues, "missing", &fuzzy).is_empty());
}

fn issue(number: u64, title: &str, labels: &[&str], author: Option<&str>) -> IssueEntry {
    let gh = GhIssue {
        number,
        title: title.to_string(),
        state: "OPEN".to_string(),
        author: author.map(|login| GhUser { login: login.to_string() }),
        labels: labels.iter().map(|l| GhLabel { name: l.to_string() }).collect(),
        assignees: vec![GhUser { login: "helper".to_string() }],
        milestone: None,
        comments: GhComments::default(),
        created_at: None,
        updated_at: None,
        url: format!("https://github.com/o/r/issues/{number}"),
        body: None,
    };
    issue_entries(vec![gh]).pop().unwrap()
}

fn same(word: &str, text: &str) -> bool {
    word == text
}

#[test]
fn query_without_words_keeps_all() {
    let issues = vec![issue(1, "a", &[], None), issue(2, "b", &[], None)];
    assert_eq!(filter_issues(&issues, "", &same), vec![0, 1]);
    assert_eq!(filter_issues(&issues, " \t\u{a0}\n", &same), vec![0, 1]);
    assert!(filter_issues(&[], "a", &same).is_empty());
}

#[test]
fn more_words_keep_fewer_issues() {
    let issues = vec![
        issue(31, "crash", &["bug"], Some("ann")),
        issue(32, "crash", &["docs"], Some("bob")),
        issue(40, "typo", &["docs"], Some("ann")),
    ];
    assert_eq!(filter_issues(&issues, "crash", &same), vec![0, 1]);
    assert_eq!(filter_issues(&issues, "#docs", &same), vec![1, 2]);
    assert_eq!(filter_issues(&issues, "crash #docs", &same), vec![1]);
    assert_eq!(filter_issues(&issues, "#docs   crash ", &same), vec![1]);
    assert_eq!(filter_issues(&issues, "@ann", &same), vec![0, 2]);
    assert_eq!(filter_issues(&issues, "@helper 3", &same), vec![0, 1]);
}

#[test]
fn number_finds_its_issue() {
    let issues = vec![issue(7, "a", &[], None), issue(1207, "b", &[], None)];
    assert_eq!(filter_issues(&issues, "#1207", &same), vec![1]);
    assert_eq!(filter_issues(&issues, "7", &same), vec![0, 1]);
    assert_eq!(filter_issues(&issues, "#20", &same), vec![1]);
    assert_eq!(filter_issues(&issues, "#", &same), vec![0, 1]);
    assert!(issue_matches(&issues[0], "a", &same));
    assert!(!issue_matches(&issues[0], "#a", &same));
    assert!(!issue_matches(&issues[0], "@a", &same));
    assert!(issue_matches(&issues[0], "@helper", &same));
}

#[test]
fn some_words_need_no_matching() {
    let mut entry = issue(1207, "a", &[], None);
    let yes = |_: &str, _: &str| true;
    let no = |_: &str, _: &str| false;
    for word in ["#1207", "#20", "#", "1207", "20", ""] {
        assert!(issue_matches(&entry, word, &no), "{word}");
    }
    assert!(!issue_matches(&entry, "#8", &yes));
    assert!(!issue_matches(&entry, "8", &no));
    assert!(issue_matches(&entry, "@1207", &yes));
    entry.assignees.clear();
    entry.author = None;
    assert!(!issue_matches(&entry, "@1207", &yes));
    assert!(!issue_matches(&entry, "@", &yes));
    let issues = vec![entry, issue(8, "b", &["x"], Some("ann"))];
    assert_eq!(filter_issues(&issues, "#8", &yes), vec![1]);
    assert_eq!(filter_issues(&issues, "#20", &no), vec![0]);
    assert_eq!(filter_issues(&issues, "@x 8", &yes), vec![1]);
    assert!(filter_issues(&issues, "8 20", &no).is_empty());
}

#[test]
fn lists_agree_with_fickle_matching() {
    let issues = vec![issue(8, "a", &[], None), issue(9, "b", &[], None), issue(80, "c", &[], None)];
    let calls = std::cell::Cell::new(0u32);
    let every_other = |_: &str, _: &str| {
        calls.set(calls.get() + 1);
        calls.get() % 2 == 0
    };
    assert_eq!(filter_issues(&issues, "#8", &every_other), vec![0, 2]);
    assert_eq!(calls.get(), 0);
    assert_eq!(filter_issues(&issues, "#x", &every_other), Vec::<usize>::new());
}

#[test]
fn filters_cycle() {
    let open = IssueStateFilter::Open;
    assert_eq!(open.next(), IssueStateFilter::Closed);
    assert_eq!(open.next().next(), IssueStateFilter::All);
    assert_eq!(open.next().next().next(), open);
    assert_eq!(open.gh_arg(), "open");
    assert_eq!(IssueStateFilter::Closed.gh_arg(), "closed");
    assert_eq!(IssueStateFilter::All.label(), "all");
}

#[test]
fn comments_are_counted() {
    assert_eq!(GhComments::Count(9).count(), 9);
    assert_eq!(GhComments::Items(vec![Value::Null, Value::Bool(true)]).count(), 2);
    assert_eq!(GhComments::Missing.count(), 0);
    assert_eq!(GhComments::default().count(), 0);
}

#[test]
fn gh_is_asked_for_lists_and_details() {
    assert_eq!(INITIAL_ISSUE_LIST_LIMIT, "30");
    assert_eq!(FULL_ISSUE_LIST_LIMIT, "1000");
    assert_eq!(
        issue_list_args("o/r", IssueStateFilter::All, LoadStage::Initial.limit()),
        vec![
            "issue",
            "list",
            "--repo",
            "o/r",
            "--state",
            "all",
            "--limit",
            "30",
            "--json",
            "number,title,state,author,labels,assignees,createdAt,updatedAt,url",
        ]
    );
    assert_eq!(
        issue_view_args("o/r", 18446744073709551615),
        vec![
            "issue",
            "view",
            "18446744073709551615",
            "--repo",
            "o/r",
            "--json",
            "body,comments,milestone",
        ]
    );
}

#[test]
fn answers_become_issues_or_messages() {
    assert_eq!(load_issues(Answer::Failed).unwrap_err(), "failed to load issues with gh");
    assert_eq!(load_issues(Answer::Unreadable("bad".to_string())).unwrap_err(), "bad");
    assert!(load_issues(Answer::Read(vec![])).unwrap().is_empty());
    let failed = load_issue_detail(40, Answer::Failed).err();
    assert_eq!(failed.as_deref(), Some("failed to load issue #40 with gh"));
    let unreadable = load_issue_detail(40, Answer::Unreadable("bad".to_string())).err();
    assert_eq!(unreadable.as_deref(), Some("bad"));
}

#[test]
fn loads_end() {
    assert_eq!(first_stage(), LoadStage::Initial);
    assert_eq!(first_stage().limit(), "30");
    let first = load_result(3, IssueStateFilter::Open, first_stage(), Ok(vec![]));
    assert!(!first.done);
    assert_eq!(stage_after(&first), Some(LoadStage::Full));
    assert_eq!(LoadStage::Full.limit(), "1000");
    let failed = load_result(3, IssueStateFilter::Open, LoadStage::Initial, Err("e".to_string()));
    assert!(failed.done && failed.issues.is_empty());
    assert_eq!(failed.error.as_deref(), Some("e"));
    assert_eq!(stage_after(&failed), None);
    let second = load_result(3, IssueStateFilter::Open, LoadStage::Full, Ok(vec![]));
    assert!(second.done && second.error.is_none() && second.load_id == 3);
    assert_eq!(stage_after(&second), None);
}

#[test]
fn details_become_results() {
    let detail = GhIssueDetail {
        body: Some("text".to_string()),
        milestone: Some(GhMilestone { title: "v2".to_string() }),
        comments: GhComments::Items(vec![Value::Null]),
    };
    let read = load_issue_detail(5, Answer::Read(detail));
    let result = detail_result(5, read);
    assert_eq!(result.number, 5);
    assert_eq!(result.body.as_deref(), Some("text"));
    assert_eq!(result.milestone.as_deref(), Some("v2"));
    assert_eq!(result.comments, Some(1));
    assert!(result.error.is_none());
    let failed = detail_result(5, Err("e".to_string()));
    assert!(failed.body.is_none() && failed.comments.is_none());
    assert_eq!(failed.error.as_deref(), Some("e"));
}
