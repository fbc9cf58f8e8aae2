//! What is asked of `gh`, and what becomes of its answers.

use crate::chars::{decimal, decimal_chars, to_text};
use crate::model::{
    entry_of, issue_entries, milestone_title, text_of, texts, views, GhComments, GhIssue,
    GhIssueDetail, IssueEntry, IssueStateFilter, IssueView, FULL_ISSUE_LIST_LIMIT, INITIAL_ISSUE_LIST_LIMIT,
};
use vstd::prelude::*;

verus! {

/// The issues are loaded in two stages: a few, so that there is something to show, and then all.
#[derive(Clone, Copy, Debug, PartialEq, Eq, Structural)]
pub enum LoadStage {
    Initial,
    Full,
}

impl LoadStage {
    /// How many issues the stage asks for.
    pub open spec fn most(self) -> Seq<char> {
        match self {
            LoadStage::Initial => "30"@,
            LoadStage::Full => "1000"@,
        }
    }

    /// Gives how many issues the stage asks for.
    pub fn limit(self) -> (r: &'static str)
        ensures
            r@ == self.most(),
            self is Initial ==> r@ == "30"@,
            self is Full ==> r@ == "1000"@,
    {
        match self {
            LoadStage::Initial => INITIAL_ISSUE_LIST_LIMIT,
            LoadStage::Full => FULL_ISSUE_LIST_LIMIT,
        }
    }
}

/// The issues that one stage of a load has brought.
pub struct IssueLoadResult {
    pub load_id: u64,
    pub state: IssueStateFilter,
    pub issues: Vec<IssueEntry>,
    pub error: Option<String>,
    /// Whether nothing more will come of this load.
    pub done: bool,
}

/// What the result of a stage holds.
#[verifier::ext_equal]
pub struct LoadView {
    pub load_id: u64,
    pub state: IssueStateFilter,
    pub issues: Seq<IssueView>,
    pub error: Option<Seq<char>>,
    pub done: bool,
}

impl View for IssueLoadResult {
    type V = LoadView;

    open spec fn view(&self) -> LoadView {
        LoadView {
            load_id: self.load_id,
            state: self.state,
            issues: views(self.issues@),
            error: text_of(self.error),
            done: self.done,
        }
    }
}

/// The details of one issue.
pub struct IssueDetailResult {
    pub number: u64,
    pub body: Option<String>,
    pub milestone: Option<String>,
    pub comments: Option<u64>,
    pub error: Option<String>,
}

/// What the details of an issue hold.
#[verifier::ext_equal]
pub struct DetailView {
    pub number: u64,
    pub body: Option<Seq<char>>,
    pub milestone: Option<Seq<char>>,
    pub comments: Option<u64>,
    pub error: Option<Seq<char>>,
}

impl View for IssueDetailResult {
    type V = DetailView;

    open spec fn view(&self) -> DetailView {
        DetailView {
            number: self.number,
            body: text_of(self.body),
            milestone: text_of(self.milestone),
            comments: self.comments,
            error: text_of(self.error),
        }
    }
}

/// Makes the arguments with which `gh` lists the issues of a repository.
pub fn issue_list_args(repo: &str, state: IssueStateFilter, limit: &str) -> (r: Vec<String>)
    ensures
        texts(r@) == seq![
            "issue"@,
            "list"@,
            "--repo"@,
            repo@,
            "--state"@,
            state.name(),
            "--limit"@,
            limit@,
            "--json"@,
            "number,title,state,author,labels,assignees,createdAt,updatedAt,url"@,
        ],
{
    vec![
        "issue".to_string(),
        "list".to_string(),
        "--repo".to_string(),
        repo.to_string(),
        "--state".to_string(),
        state.gh_arg().to_string(),
        "--limit".to_string(),
        limit.to_string(),
        "--json".to_string(),
        "number,title,state,author,labels,assignees,createdAt,updatedAt,url".to_string(),
    ]
}

/// Makes the arguments with which `gh` shows the details of an issue.
pub fn issue_view_args(repo: &str, number: u64) -> (r: Vec<String>)
    ensures
        texts(r@) == seq![
            "issue"@,
            "view"@,
            decimal(number as nat),
            "--repo"@,
            repo@,
            "--json"@,
            "body,comments,milestone"@,
        ],
{
    vec![
        "issue".to_string(),
        "view".to_string(),
        to_text(decimal_chars(number).as_slice()),
        "--repo".to_string(),
        repo.to_string(),
        "--json".to_string(),
        "body,comments,milestone".to_string(),
    ]
}

/// What became of a request to `gh`.
pub enum Answer<T> {
    /// The command could not be run, or it failed.
    Failed,
    /// What it wrote could not be read, for the given reason.
    Unreadable(String),
    /// What it wrote.
    Read(T),
}

/// Makes the issues, or an error message, of the answer to a request for a list.
pub fn load_issues(answer: Answer<Vec<GhIssue>>) -> (r: Result<Vec<IssueEntry>, String>)
    ensures
        match answer {
            Answer::Failed => r matches Err(e) && e@ == "failed to load issues with gh"@,
            Answer::Unreadable(message) => r matches Err(e) && e@ == message@,
            Answer::Read(issues) => r matches Ok(entries) && views(entries@) == Seq::new(
                issues@.len(),
                |i: int| entry_of(issues@[i]),
            ),
        },
{
    match answer {
        Answer::Failed => Err("failed to load issues with gh".to_string()),
        Answer::Unreadable(message) => Err(message),
        Answer::Read(issues) => Ok(issue_entries(issues)),
    }
}

/// Makes the details, or an error message, of the answer to a request for details.
pub fn load_issue_detail(number: u64, answer: Answer<GhIssueDetail>) -> (r: Result<
    GhIssueDetail,
    String,
>)
    ensures
        match answer {
            Answer::Failed => r matches Err(e) && e@ == "failed to load issue #"@ + decimal(
                number as nat,
            ) + " with gh"@,
            Answer::Unreadable(message) => r matches Err(e) && e@ == message@,
            Answer::Read(detail) => r == Ok::<GhIssueDetail, String>(detail),
        },
{
    match answer {
        Answer::Failed => {
            let mut message = "failed to load issue #".to_string();
            message.append(to_text(decimal_chars(number).as_slice()).as_str());
            message.append(" with gh");
            Err(message)
        },
        Answer::Unreadable(message) => Err(message),
        Answer::Read(detail) => Ok(detail),
    }
}

/// Makes the result of one stage of a load. A first stage that brought issues is followed by
/// another one; every other stage is the last.
pub fn load_result(
    load_id: u64,
    state: IssueStateFilter,
    stage: LoadStage,
    outcome: Result<Vec<IssueEntry>, String>,
) -> (r: IssueLoadResult)
    ensures
        r@ == load_of(load_id, state, stage, outcome),
        r.load_id == load_id,
        r.state == state,
        outcome matches Ok(issues) ==> r.issues == issues && r.error is None,
        outcome matches Err(message) ==> r.issues@.len() == 0 && r.error == Some(message),
        r.done <==> stage is Full || outcome is Err,
{
    match outcome {
        Ok(issues) => IssueLoadResult {
            load_id,
            state,
            issues,
            error: None,
            done: match stage {
                LoadStage::Initial => false,
                LoadStage::Full => true,
            },
        },
        Err(message) => IssueLoadResult {
            load_id,
            state,
            issues: Vec::new(),
            error: Some(message),
            done: true,
        },
    }
}

/// The result of one stage of a load.
pub open spec fn load_of(
    load_id: u64,
    state: IssueStateFilter,
    stage: LoadStage,
    outcome: Result<Vec<IssueEntry>, String>,
) -> LoadView {
    LoadView {
        load_id,
        state,
        issues: match outcome {
            Ok(issues) => views(issues@),
            Err(_) => Seq::empty(),
        },
        error: match outcome {
            Ok(_) => None,
            Err(message) => Some(message@),
        },
        done: !(stage is Initial && outcome is Ok),
    }
}

/// Gives the stage with which a load begins.
pub fn first_stage() -> (r: LoadStage)
    ensures
        r == LoadStage::Initial,
{
    LoadStage::Initial
}

/// Gives the stage that follows a result, if there is one.
pub fn stage_after(result: &IssueLoadResult) -> (r: Option<LoadStage>)
    ensures
        r == next_stage(result@),
{
    if result.done {
        None
    } else {
        Some(LoadStage::Full)
    }
}

/// The stage that follows a result.
pub open spec fn next_stage(result: LoadView) -> Option<LoadStage> {
    if result.done {
        None
    } else {
        Some(LoadStage::Full)
    }
}

/// A load ends: a first stage that fails is the last, one that brings issues is followed by the
/// full stage, and the full stage is the last whatever it brings.
pub proof fn law_loads_end(
    load_id: u64,
    state: IssueStateFilter,
    first: Result<Vec<IssueEntry>, String>,
    second: Result<Vec<IssueEntry>, String>,
)
    ensures
        next_stage(load_of(load_id, state, LoadStage::Initial, first)) == if first is Ok {
            Some(LoadStage::Full)
        } else {
            None
        },
        next_stage(load_of(load_id, state, LoadStage::Full, second)) is None,
{
}

/// Makes the result of a request for details.
pub fn detail_result(number: u64, outcome: Result<GhIssueDetail, String>) -> (r: IssueDetailResult)
    ensures
        r@ == detail_of(number, outcome),
        r.number == number,
        outcome matches Ok(detail) ==> {
            &&& r.body == detail.body
            &&& r.milestone is Some == detail.milestone is Some
            &&& detail.milestone is Some ==> r.milestone == Some(detail.milestone->0.title)
            &&& r.comments == Some(detail.comments.number())
            &&& r.error is None
        },
        outcome matches Err(message) ==> {
            &&& r.body is None
            &&& r.milestone is None
            &&& r.comments is None
            &&& r.error == Some(message)
        },
{
    match outcome {
        Ok(detail) => IssueDetailResult {
            number,
            body: detail.body,
            milestone: match detail.milestone {
                Some(milestone) => Some(milestone.title),
                None => None,
            },
            comments: Some(detail.comments.count()),
            error: None,
        },
        Err(message) => IssueDetailResult {
            number,
            body: None,
            milestone: None,
            comments: None,
            error: Some(message),
        },
    }
}

/// The result of a request for details.
pub open spec fn detail_of(number: u64, outcome: Result<GhIssueDetail, String>) -> DetailView {
    match outcome {
        Ok(detail) => DetailView {
            number,
            body: text_of(detail.body),
            milestone: milestone_title(detail.milestone),
            comments: Some(detail.comments.number()),
            error: None,
        },
        Err(message) => DetailView {
            number,
            body: None,
            milestone: None,
            comments: None,
            error: Some(message@),
        },
    }
}

/// A stage that brought issues hands on exactly these, in their order and without an error, for the
/// load and the filter that it was started with.
pub proof fn law_stage_hands_issues_on(
    load_id: u64,
    state: IssueStateFilter,
    stage: LoadStage,
    issues: Vec<IssueEntry>,
    place: int,
)
    ensures
        ({
            let result = load_of(load_id, state, stage, Ok(issues));
            &&& result.load_id == load_id
            &&& result.state == state
            &&& result.error is None
            &&& result.issues.len() == issues@.len()
            &&& 0 <= place < issues@.len() ==> result.issues[place] == issues@[place]@
        }),
{
}

/// A stage that failed brings no issues, but tells why, for the load and the filter that it was
/// started with.
pub proof fn law_failed_stage_tells_why(
    load_id: u64,
    state: IssueStateFilter,
    stage: LoadStage,
    message: String,
)
    ensures
        ({
            let result = load_of(load_id, state, stage, Err(message));
            &&& result.load_id == load_id
            &&& result.state == state
            &&& result.error == Some(message@)
            &&& result.issues.len() == 0
            &&& result.done
        }),
{
}

/// Details that were read are handed on as they are, for the issue that they were asked for.
pub proof fn law_details_are_handed_on(number: u64, detail: GhIssueDetail)
    ensures
        ({
            let result = detail_of(number, Ok(detail));
            &&& result.number == number
            &&& result.error is None
            &&& result.body is Some == detail.body is Some
            &&& detail.body matches Some(body) ==> result.body == Some(body@)
            &&& result.milestone is Some == detail.milestone is Some
            &&& detail.milestone matches Some(milestone) ==> result.milestone == Some(
                milestone.title@,
            )
            &&& detail.comments matches GhComments::Count(count) ==> result.comments == Some(count)
            &&& detail.comments is Missing ==> result.comments == Some(0u64)
        }),
{
}

/// Details that could not be had hand on nothing but the reason, for the issue that they were asked
/// for.
pub proof fn law_failed_details_tell_why(number: u64, message: String)
    ensures
        ({
            let result = detail_of(number, Err(message));
            &&& result.number == number
            &&& result.error == Some(message@)
            &&& result.body is None
            &&& result.milestone is None
            &&& result.comments is None
        }),
{
}

/// What is seen of the result of a stage is all that it holds.
pub proof fn law_view_shows_load(result: IssueLoadResult, k: int)
    ensures
        result@.load_id == result.load_id,
        result@.state == result.state,
        result@.issues.len() == result.issues@.len(),
        0 <= k < result.issues@.len() ==> result@.issues[k] == result.issues@[k]@,
        result@.error is Some == result.error is Some,
        result.error is Some ==> result@.error->0 == result.error->0@,
        result@.done == result.done,
{
}

/// What is seen of the result of a request for details is all that it holds.
pub proof fn law_view_shows_details(result: IssueDetailResult)
    ensures
        result@.number == result.number,
        result@.body is Some == result.body is Some,
        result.body is Some ==> result@.body->0 == result.body->0@,
        result@.milestone is Some == result.milestone is Some,
        result.milestone is Some ==> result@.milestone->0 == result.milestone->0@,
        result@.comments == result.comments,
        result@.error is Some == result.error is Some,
        result.error is Some ==> result@.error->0 == result.error->0@,
{
}

} // verus!
