//! Issues, as the explorer holds them and as `gh` reports them.

use vstd::prelude::*;

verus! {

/// A value of JSON, of which nothing is read but how many there are.
#[verifier::external_type_specification]
#[verifier::external_body]
pub struct ExJsonValue(serde_json::Value);

/// How many issues are asked for first.
pub const INITIAL_ISSUE_LIST_LIMIT: &'static str = "30";

/// How many issues are asked for when the first ones are there.
pub const FULL_ISSUE_LIST_LIMIT: &'static str = "1000";

/// The texts that a list of strings holds.
pub open spec fn texts(list: Seq<String>) -> Seq<Seq<char>> {
    Seq::new(list.len(), |i: int| list[i]@)
}

/// The text that an optional string holds.
pub open spec fn text_of(s: Option<String>) -> Option<Seq<char>> {
    match s {
        Some(s) => Some(s@),
        None => None,
    }
}

/// Which issues are listed.
#[derive(Clone, Copy, Debug, PartialEq, Eq, Structural)]
pub enum IssueStateFilter {
    Open,
    Closed,
    All,
}

impl IssueStateFilter {
    /// The filter that follows.
    pub open spec fn after(self) -> IssueStateFilter {
        match self {
            IssueStateFilter::Open => IssueStateFilter::Closed,
            IssueStateFilter::Closed => IssueStateFilter::All,
            IssueStateFilter::All => IssueStateFilter::Open,
        }
    }

    /// The filter's name.
    pub open spec fn name(self) -> Seq<char> {
        match self {
            IssueStateFilter::Open => "open"@,
            IssueStateFilter::Closed => "closed"@,
            IssueStateFilter::All => "all"@,
        }
    }

    /// Gives the filter that follows.
    pub fn next(self) -> (r: Self)
        ensures
            r == self.after(),
            self is Open ==> r is Closed,
            self is Closed ==> r is All,
            self is All ==> r is Open,
    {
        match self {
            Self::Open => Self::Closed,
            Self::Closed => Self::All,
            Self::All => Self::Open,
        }
    }

    /// Gives the filter as `gh` takes it.
    pub fn gh_arg(self) -> (r: &'static str)
        ensures
            r@ == self.name(),
            self is Open ==> r@ == "open"@,
            self is Closed ==> r@ == "closed"@,
            self is All ==> r@ == "all"@,
    {
        match self {
            Self::Open => "open",
            Self::Closed => "closed",
            Self::All => "all",
        }
    }

    /// Gives the filter as the screen shows it.
    pub fn label(self) -> (r: &'static str)
        ensures
            r@ == self.name(),
            self is Open ==> r@ == "open"@,
            self is Closed ==> r@ == "closed"@,
            self is All ==> r@ == "all"@,
    {
        match self {
            Self::Open => "open",
            Self::Closed => "closed",
            Self::All => "all",
        }
    }
}

/// Three steps lead back to a filter, and on the way each filter comes up.
pub proof fn law_filters_cycle(filter: IssueStateFilter, other: IssueStateFilter)
    ensures
        filter.after().after().after() == filter,
        other == filter || other == filter.after() || other == filter.after().after(),
        filter.after() != filter,
        filter.after().after() != filter,
{
}

/// An issue.
#[derive(Clone, Debug)]
pub struct IssueEntry {
    pub number: u64,
    pub title: String,
    pub state: String,
    pub author: Option<String>,
    pub labels: Vec<String>,
    pub assignees: Vec<String>,
    pub milestone: Option<String>,
    pub comments: u64,
    pub created_at: Option<String>,
    pub updated_at: Option<String>,
    pub url: String,
    pub body: Option<String>,
    /// Whether the issue's details were asked for and an answer has come.
    pub detail_loaded: bool,
    /// Why the details could not be had.
    pub detail_error: Option<String>,
}

/// What an issue holds.
#[verifier::ext_equal]
pub struct IssueView {
    pub number: u64,
    pub title: Seq<char>,
    pub state: Seq<char>,
    pub author: Option<Seq<char>>,
    pub labels: Seq<Seq<char>>,
    pub assignees: Seq<Seq<char>>,
    pub milestone: Option<Seq<char>>,
    pub comments: u64,
    pub created_at: Option<Seq<char>>,
    pub updated_at: Option<Seq<char>>,
    pub url: Seq<char>,
    pub body: Option<Seq<char>>,
    pub detail_loaded: bool,
    pub detail_error: Option<Seq<char>>,
}

impl View for IssueEntry {
    type V = IssueView;

    open spec fn view(&self) -> IssueView {
        IssueView {
            number: self.number,
            title: self.title@,
            state: self.state@,
            author: text_of(self.author),
            labels: texts(self.labels@),
            assignees: texts(self.assignees@),
            milestone: text_of(self.milestone),
            comments: self.comments,
            created_at: text_of(self.created_at),
            updated_at: text_of(self.updated_at),
            url: self.url@,
            body: text_of(self.body),
            detail_loaded: self.detail_loaded,
            detail_error: text_of(self.detail_error),
        }
    }
}

/// What the issues of a list hold.
pub open spec fn views(issues: Seq<IssueEntry>) -> Seq<IssueView> {
    Seq::new(issues.len(), |i: int| issues[i]@)
}

/// A user, as `gh` reports one.
pub struct GhUser {
    pub login: String,
}

/// A label, as `gh` reports one.
pub struct GhLabel {
    pub name: String,
}

/// A milestone, as `gh` reports one.
pub struct GhMilestone {
    pub title: String,
}

/// The comments of an issue, as `gh` reports them: their number, the comments themselves, or
/// nothing.
pub enum GhComments {
    Count(u64),
    Items(Vec<serde_json::Value>),
    Missing,
}

impl GhComments {
    /// How many comments there are.
    pub open spec fn number(self) -> u64 {
        match self {
            GhComments::Count(count) => count,
            GhComments::Items(items) => items@.len() as u64,
            GhComments::Missing => 0,
        }
    }

    /// Counts the comments.
    pub fn count(&self) -> (r: u64)
        ensures
            r == self.number(),
            *self matches GhComments::Count(count) ==> r == count,
            *self matches GhComments::Items(items) ==> r == items@.len(),
            *self is Missing ==> r == 0,
    {
        match self {
            Self::Count(count) => *count,
            Self::Items(items) => items.len() as u64,
            Self::Missing => 0,
        }
    }
}

impl Default for GhComments {
    fn default() -> (r: GhComments)
        ensures
            r is Missing,
    {
        GhComments::Missing
    }
}

/// An issue, as `gh` reports one in a list.
pub struct GhIssue {
    pub number: u64,
    pub title: String,
    pub state: String,
    pub author: Option<GhUser>,
    pub labels: Vec<GhLabel>,
    pub assignees: Vec<GhUser>,
    pub milestone: Option<GhMilestone>,
    pub comments: GhComments,
    pub created_at: Option<String>,
    pub updated_at: Option<String>,
    pub url: String,
    pub body: Option<String>,
}

/// The details of an issue, as `gh` reports them.
pub struct GhIssueDetail {
    pub body: Option<String>,
    pub milestone: Option<GhMilestone>,
    pub comments: GhComments,
}

/// The title of a milestone.
pub open spec fn milestone_title(milestone: Option<GhMilestone>) -> Option<Seq<char>> {
    match milestone {
        Some(milestone) => Some(milestone.title@),
        None => None,
    }
}

/// The issue that a reported one stands for. Its details are not loaded yet.
pub open spec fn entry_of(issue: GhIssue) -> IssueView {
    IssueView {
        number: issue.number,
        title: issue.title@,
        state: issue.state@,
        author: match issue.author {
            Some(author) => Some(author.login@),
            None => None,
        },
        labels: Seq::new(issue.labels@.len(), |i: int| issue.labels@[i].name@),
        assignees: Seq::new(issue.assignees@.len(), |i: int| issue.assignees@[i].login@),
        milestone: milestone_title(issue.milestone),
        comments: issue.comments.number(),
        created_at: text_of(issue.created_at),
        updated_at: text_of(issue.updated_at),
        url: issue.url@,
        body: text_of(issue.body),
        detail_loaded: false,
        detail_error: None,
    }
}

/// Takes the title out of a milestone.
fn take_title(milestone: Option<GhMilestone>) -> (r: Option<String>)
    ensures
        text_of(r) == milestone_title(milestone),
{
    match milestone {
        Some(milestone) => Some(milestone.title),
        None => None,
    }
}

/// Takes the names out of labels.
fn take_names(labels: Vec<GhLabel>) -> (r: Vec<String>)
    ensures
        texts(r@) == Seq::new(labels@.len(), |i: int| labels@[i].name@),
        r@.len() == labels@.len(),
        forall|i: int| 0 <= i < r@.len() ==> (#[trigger] r@[i])@ == labels@[i].name@,
{
    let ghost all = labels@;
    let mut r: Vec<String> = Vec::new();
    for label in it: labels
        invariant
            it.seq() == all,
            r@.len() == it.index(),
            forall|i: int| 0 <= i < r@.len() ==> (#[trigger] r@[i])@ == all[i].name@,
    {
        r.push(label.name);
    }
    r
}

/// Takes the names out of users.
fn take_logins(users: Vec<GhUser>) -> (r: Vec<String>)
    ensures
        texts(r@) == Seq::new(users@.len(), |i: int| users@[i].login@),
        r@.len() == users@.len(),
        forall|i: int| 0 <= i < r@.len() ==> (#[trigger] r@[i])@ == users@[i].login@,
{
    let ghost all = users@;
    let mut r: Vec<String> = Vec::new();
    for user in it: users
        invariant
            it.seq() == all,
            r@.len() == it.index(),
            forall|i: int| 0 <= i < r@.len() ==> (#[trigger] r@[i])@ == all[i].login@,
    {
        r.push(user.login);
    }
    r
}

/// Makes an issue of a reported one.
pub fn issue_entry(issue: GhIssue) -> (r: IssueEntry)
    ensures
        r@ == entry_of(issue),
        r.number == issue.number,
        r.title == issue.title,
        r.state == issue.state,
        r.author is Some == issue.author is Some,
        issue.author matches Some(author) ==> r.author == Some(author.login),
        r.labels@.len() == issue.labels@.len(),
        forall|i: int|
            0 <= i < r.labels@.len() ==> (#[trigger] r.labels@[i])@ == issue.labels@[i].name@,
        r.assignees@.len() == issue.assignees@.len(),
        forall|i: int|
            0 <= i < r.assignees@.len() ==> (#[trigger] r.assignees@[i])@
                == issue.assignees@[i].login@,
        r.milestone is Some == issue.milestone is Some,
        issue.milestone matches Some(milestone) ==> r.milestone->0@ == milestone.title@,
        r.comments == issue.comments.number(),
        r.created_at == issue.created_at,
        r.updated_at == issue.updated_at,
        r.url == issue.url,
        r.body == issue.body,
        !r.detail_loaded,
        r.detail_error is None,
{
    IssueEntry {
        number: issue.number,
        title: issue.title,
        state: issue.state,
        author: match issue.author {
            Some(author) => Some(author.login),
            None => None,
        },
        labels: take_names(issue.labels),
        assignees: take_logins(issue.assignees),
        milestone: take_title(issue.milestone),
        comments: issue.comments.count(),
        created_at: issue.created_at,
        updated_at: issue.updated_at,
        url: issue.url,
        body: issue.body,
        detail_loaded: false,
        detail_error: None,
    }
}

/// Makes issues of reported ones, in their order.
pub fn issue_entries(issues: Vec<GhIssue>) -> (r: Vec<IssueEntry>)
    ensures
        views(r@) == Seq::new(issues@.len(), |i: int| entry_of(issues@[i])),
{
    let ghost all = issues@;
    let mut r: Vec<IssueEntry> = Vec::new();
    for issue in it: issues
        invariant
            it.seq() == all,
            r@.len() == it.index(),
            forall|i: int| 0 <= i < r@.len() ==> (#[trigger] r@[i])@ == entry_of(all[i]),
    {
        r.push(issue_entry(issue));
    }
    r
}

/// What is seen of an issue is all that it holds.
pub proof fn law_view_shows_issue(issue: IssueEntry)
    ensures
        issue@.number == issue.number,
        issue@.title == issue.title@,
        issue@.state == issue.state@,
        issue@.comments == issue.comments,
        issue@.url == issue.url@,
        issue@.detail_loaded == issue.detail_loaded,
        issue@.author is Some == issue.author is Some,
        issue.author is Some ==> issue@.author->0 == issue.author->0@,
        issue@.milestone is Some == issue.milestone is Some,
        issue.milestone is Some ==> issue@.milestone->0 == issue.milestone->0@,
        issue@.created_at is Some == issue.created_at is Some,
        issue.created_at is Some ==> issue@.created_at->0 == issue.created_at->0@,
        issue@.updated_at is Some == issue.updated_at is Some,
        issue.updated_at is Some ==> issue@.updated_at->0 == issue.updated_at->0@,
        issue@.body is Some == issue.body is Some,
        issue.body is Some ==> issue@.body->0 == issue.body->0@,
        issue@.detail_error is Some == issue.detail_error is Some,
        issue.detail_error is Some ==> issue@.detail_error->0 == issue.detail_error->0@,
        issue@.labels.len() == issue.labels@.len(),
        forall|i: int|
            0 <= i < issue.labels@.len() ==> #[trigger] issue@.labels[i] == issue.labels@[i]@,
        issue@.assignees.len() == issue.assignees@.len(),
        forall|i: int|
            0 <= i < issue.assignees@.len() ==> #[trigger] issue@.assignees[i]
                == issue.assignees@[i]@,
{
}

/// What is seen of a list of issues is each of them, in their order.
pub proof fn law_view_shows_issues(issues: Seq<IssueEntry>, place: int)
    ensures
        views(issues).len() == issues.len(),
        0 <= place < issues.len() ==> views(issues)[place] == issues[place]@,
{
}

/// An issue that `gh` reported keeps everything that was reported, and has no details yet.
pub proof fn law_reported_issue_is_kept(issue: GhIssue)
    ensures
        ({
            let entry = entry_of(issue);
            &&& entry.number == issue.number
            &&& entry.title == issue.title@
            &&& entry.state == issue.state@
            &&& entry.url == issue.url@
            &&& entry.author is Some == issue.author is Some
            &&& issue.author is Some ==> entry.author->0 == issue.author->0.login@
            &&& entry.milestone is Some == issue.milestone is Some
            &&& issue.milestone is Some ==> entry.milestone->0 == issue.milestone->0.title@
            &&& entry.created_at is Some == issue.created_at is Some
            &&& issue.created_at is Some ==> entry.created_at->0 == issue.created_at->0@
            &&& entry.updated_at is Some == issue.updated_at is Some
            &&& issue.updated_at is Some ==> entry.updated_at->0 == issue.updated_at->0@
            &&& entry.body is Some == issue.body is Some
            &&& issue.body is Some ==> entry.body->0 == issue.body->0@
            &&& issue.comments matches GhComments::Count(count) ==> entry.comments == count
            &&& issue.comments matches GhComments::Items(items) ==> items@.len() <= u64::MAX
                ==> entry.comments == items@.len()
            &&& issue.comments is Missing ==> entry.comments == 0
            &&& !entry.detail_loaded
            &&& entry.detail_error is None
        }),
        entry_of(issue).labels.len() == issue.labels@.len(),
        forall|i: int|
            0 <= i < issue.labels@.len() ==> #[trigger] entry_of(issue).labels[i]
                == issue.labels@[i].name@,
        entry_of(issue).assignees.len() == issue.assignees@.len(),
        forall|i: int|
            0 <= i < issue.assignees@.len() ==> #[trigger] entry_of(issue).assignees[i]
                == issue.assignees@[i].login@,
{
}

} // verus!
