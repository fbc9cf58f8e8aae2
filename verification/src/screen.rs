//! The texts that the panes show.

use crate::chars::{
    before, cut_before, decimal, decimal_chars, equal_but_case, join, join_texts, law_joining,
    law_trimming, lines, make_spaces, pad_right, padded_right, same_but_case, spaces, split_lines,
    to_chars, to_text, trim, trimmed, white_space, CharClass,
};
use crate::filter::places;
use crate::layout::{greatest, least};
use crate::model::{texts, views, IssueEntry, IssueStateFilter, IssueView};
use vstd::prelude::*;

verus! {

/// A color of the terminal.
#[derive(Clone, Copy, Debug, PartialEq, Eq, Structural)]
pub enum Color {
    Black,
    Rgb(u8, u8, u8),
}

/// How a text is shown: in which color, if not in the usual one, and whether bold.
#[derive(Clone, Copy, Debug, PartialEq, Eq, Structural)]
pub struct Style {
    pub fg: Option<Color>,
    pub bold: bool,
}

/// A text shown in one way.
#[derive(Clone, Debug)]
pub struct Span {
    pub text: String,
    pub style: Style,
}

/// A line of the screen.
#[derive(Clone, Debug)]
pub struct Line {
    pub spans: Vec<Span>,
}

/// What a span holds.
#[verifier::ext_equal]
pub struct SpanView {
    pub text: Seq<char>,
    pub style: Style,
}

impl View for Span {
    type V = SpanView;

    open spec fn view(&self) -> SpanView {
        SpanView { text: self.text@, style: self.style }
    }
}

impl View for Line {
    type V = Seq<SpanView>;

    open spec fn view(&self) -> Seq<SpanView> {
        Seq::new(self.spans@.len(), |i: int| self.spans@[i]@)
    }
}

/// What the lines of a list hold.
pub open spec fn line_views(list: Seq<Line>) -> Seq<Seq<SpanView>> {
    Seq::new(list.len(), |i: int| list[i]@)
}

/// Text in a color.
pub open spec fn colored(color: Color) -> Style {
    Style { fg: Some(color), bold: false }
}

/// Bold text in a color.
pub open spec fn emphasized(color: Color) -> Style {
    Style { fg: Some(color), bold: true }
}

/// Text as it comes.
pub open spec fn plain_style() -> Style {
    Style { fg: None, bold: false }
}

/// A text shown in one way.
pub open spec fn span_of(text: Seq<char>, style: Style) -> SpanView {
    SpanView { text, style }
}

/// A line of one span.
pub open spec fn line_of(text: Seq<char>, style: Style) -> Seq<SpanView> {
    seq![span_of(text, style)]
}

/// Makes a span.
fn span(text: String, style: Style) -> (r: Span)
    ensures
        r@ == span_of(text@, style),
{
    Span { text, style }
}

/// Makes a line of one span.
fn line(text: String, style: Style) -> (r: Line)
    ensures
        r@ == line_of(text@, style),
{
    let r = Line { spans: vec![Span { text, style }] };
    assert(r@ =~= line_of(text@, style));
    r
}

/// Makes an empty line.
fn blank_line() -> (r: Line)
    ensures
        r@ == Seq::<SpanView>::empty(),
{
    let r = Line { spans: Vec::new() };
    assert(r@ =~= Seq::<SpanView>::empty());
    r
}

/// Adds a line.
fn add_line(list: &mut Vec<Line>, next: Line)
    ensures
        line_views(final(list)@) == line_views(old(list)@).push(next@),
{
    list.push(next);
    assert(line_views(list@) =~= line_views(old(list)@).push(next@));
}

/// Counts the lines of a text.
pub fn text_line_count(text: &Vec<Line>) -> (r: usize)
    ensures
        r == line_views(text@).len(),
{
    text.len()
}

/// A text cut to at most `max` characters. Where there is room for more than three, the last three
/// of them tell that it was cut.
pub open spec fn truncated(s: Seq<char>, max: int) -> Seq<char> {
    if s.len() <= max {
        s
    } else if max <= 3 {
        s.take(greatest(max, 0))
    } else {
        s.take(max - 3) + "..."@
    }
}

/// Cuts a text to at most `max` characters.
pub fn truncate_with_ellipsis(value: &str, max: usize) -> (r: String)
    ensures
        r@ == truncated(value@, max as int),
{
    let chars = to_chars(value);
    if chars.len() <= max {
        return value.to_string();
    }
    if max <= 3 {
        return to_text(vstd::slice::slice_subrange(chars.as_slice(), 0, max));
    }
    let mut r = to_text(vstd::slice::slice_subrange(chars.as_slice(), 0, max - 3));
    r.append("...");
    r
}

/// The labels of an issue as its row shows them.
pub open spec fn label_text(labels: Seq<Seq<char>>) -> Seq<char> {
    if labels.len() == 0 {
        Seq::empty()
    } else {
        "["@ + join(labels, ","@) + "]"@
    }
}

/// The start of an issue's row: its number and its state, each in its column.
pub open spec fn row_prefix(issue: IssueView) -> Seq<char> {
    "#"@ + pad_right(decimal(issue.number as nat), 5) + pad_right(
        if same_but_case(issue.state, "open"@) {
            "OPEN"@
        } else {
            "DONE"@
        },
        5,
    ) + " "@
}

/// The room between a title and the labels behind it.
pub open spec fn label_gap(labels: Seq<char>) -> int {
    if labels.len() == 0 {
        0
    } else {
        1
    }
}

/// The row of an issue: number and state at the left, labels at the right, and between them the
/// title, cut where there is no room for it.
pub open spec fn row_of(issue: IssueView, width: int, text: Color, muted: Color) -> Seq<SpanView> {
    let prefix = row_prefix(issue);
    let labels = label_text(issue.labels);
    let gap = label_gap(labels);
    let title = truncated(issue.title, greatest(width - (prefix.len() + labels.len() + gap), 0));
    seq![
        span_of(prefix, colored(muted)),
        span_of(title, colored(text)),
        span_of(spaces(width - (prefix.len() + title.len() + labels.len())), plain_style()),
        span_of(labels, colored(muted)),
    ]
}

/// The rows of the issues that a list names. A place where there is no issue has no row.
pub open spec fn rows_of(
    issues: Seq<IssueView>,
    list: Seq<int>,
    width: int,
    text: Color,
    muted: Color,
) -> Seq<Seq<SpanView>>
    decreases list.len(),
{
    if list.len() == 0 {
        Seq::empty()
    } else {
        let before = rows_of(issues, list.drop_last(), width, text, muted);
        if 0 <= list.last() < issues.len() {
            before.push(row_of(issues[list.last()], width, text, muted))
        } else {
            before
        }
    }
}

/// What the list pane shows: the entries of the filtered list from `offset` on, as many as fit.
pub open spec fn list_rows(
    issues: Seq<IssueView>,
    filtered: Seq<int>,
    offset: int,
    height: int,
    width: int,
    text: Color,
    muted: Color,
) -> Seq<Seq<SpanView>> {
    if filtered.len() == 0 || height == 0 {
        seq![line_of("No issues"@, colored(muted))]
    } else {
        let end = least(offset + height, filtered.len() as int);
        rows_of(issues, filtered.subrange(offset, end), width, text, muted)
    }
}

/// Subtracts, down to zero.
fn less(a: usize, b: usize) -> (r: usize)
    ensures
        r == greatest(a - b, 0),
{
    if a >= b {
        a - b
    } else {
        0
    }
}

/// Makes the labels of an issue's row.
fn make_label_text(labels: &Vec<String>) -> (r: String)
    ensures
        r@ == label_text(texts(labels@)),
{
    if labels.len() == 0 {
        return String::new();
    }
    let mut r = "[".to_string();
    r.append(join_texts(labels, ",").as_str());
    r.append("]");
    assert(texts(labels@) =~= Seq::new(labels@.len(), |i: int| labels@[i]@));
    r
}

/// Makes the start of an issue's row.
fn make_row_prefix(issue: &IssueEntry) -> (r: String)
    ensures
        r@ == row_prefix(issue@),
{
    let state = to_chars(issue.state.as_str());
    let open = to_chars("open");
    let shown = if equal_but_case(state.as_slice(), open.as_slice()) {
        to_chars("OPEN")
    } else {
        to_chars("DONE")
    };
    let mut r = "#".to_string();
    r.append(padded_right(decimal_chars(issue.number).as_slice(), 5).as_str());
    r.append(padded_right(shown.as_slice(), 5).as_str());
    r.append(" ");
    r
}

/// Makes the row of an issue.
pub fn issue_row(issue: &IssueEntry, width: usize, text: Color, muted: Color) -> (r: Line)
    ensures
        r@ == row_of(issue@, width as int, text, muted),
{
    let prefix = make_row_prefix(issue);
    let labels = make_label_text(&issue.labels);
    let prefix_len = prefix.as_str().unicode_len();
    let labels_len = labels.as_str().unicode_len();
    let gap: usize = if labels_len == 0 {
        0
    } else {
        1
    };
    let title_width = less(less(less(width, prefix_len), labels_len), gap);
    let title = truncate_with_ellipsis(issue.title.as_str(), title_width);
    let title_len = title.as_str().unicode_len();
    let padding = less(less(less(width, prefix_len), title_len), labels_len);
    let r = Line {
        spans: vec![
            span(prefix, Style { fg: Some(muted), bold: false }),
            span(title, Style { fg: Some(text), bold: false }),
            span(make_spaces(padding), Style { fg: None, bold: false }),
            span(labels, Style { fg: Some(muted), bold: false }),
        ],
    };
    proof {
        assert(spaces(padding as int) =~= spaces(
            width - (prefix@.len() + title@.len() + labels@.len()),
        ));
        assert(r@ =~= row_of(issue@, width as int, text, muted));
    }
    r
}

/// Makes what the list pane shows.
pub fn issue_list_items(
    issues: &[IssueEntry],
    filtered: &[usize],
    offset: usize,
    height: usize,
    width: usize,
    text: Color,
    muted: Color,
) -> (r: Vec<Line>)
    requires
        filtered@.len() == 0 || height == 0 || offset <= filtered@.len(),
    ensures
        line_views(r@) == list_rows(
            views(issues@),
            places(filtered@),
            offset as int,
            height as int,
            width as int,
            text,
            muted,
        ),
{
    let mut r: Vec<Line> = Vec::new();
    if filtered.len() == 0 || height == 0 {
        r.push(line("No issues".to_string(), Style { fg: Some(muted), bold: false }));
        assert(line_views(r@) =~= seq![line_of("No issues"@, colored(muted))]);
        return r;
    }
    let room = filtered.len() - offset;
    let end = if height <= room {
        offset + height
    } else {
        filtered.len()
    };
    let ghost shown = places(filtered@).subrange(offset as int, end as int);
    assert(line_views(r@) =~= rows_of(views(issues@), shown.take(0), width as int, text, muted));
    for k in offset..end
        invariant
            offset <= end <= filtered@.len(),
            shown == places(filtered@).subrange(offset as int, end as int),
            line_views(r@) == rows_of(
                views(issues@),
                shown.take(k - offset),
                width as int,
                text,
                muted,
            ),
    {
        let index = filtered[k];
        proof {
            assert(shown.take(k - offset + 1).drop_last() =~= shown.take(k - offset));
            assert(shown.take(k - offset + 1).last() == index);
        }
        if index < issues.len() {
            assert(views(issues@)[index as int] == issues@[index as int]@);
            add_line(&mut r, issue_row(&issues[index], width, text, muted));
        }
    }
    assert(shown.take(end - offset) =~= shown);
    r
}

/// The day of a point in time: what stands before the `T`, unless nothing does.
pub open spec fn day_of(timestamp: Seq<char>) -> Seq<char> {
    let date = before(timestamp, 'T');
    if date.len() == 0 {
        timestamp
    } else {
        date
    }
}

/// Gives the day of a point in time.
pub fn short_timestamp(value: &str) -> (r: String)
    ensures
        r@ == day_of(value@),
{
    let chars = to_chars(value);
    let date = cut_before(chars.as_slice(), 'T');
    if date.len() == 0 {
        value.to_string()
    } else {
        to_text(date)
    }
}

/// A part of the metadata, where there is something to say.
pub open spec fn noted(name: Seq<char>, value: Option<Seq<char>>) -> Seq<Seq<char>> {
    match value {
        Some(value) => seq![name + value],
        None => Seq::empty(),
    }
}

/// The day of a point in time that may be missing.
pub open spec fn day_noted(timestamp: Option<Seq<char>>) -> Option<Seq<char>> {
    match timestamp {
        Some(timestamp) => Some(day_of(timestamp)),
        None => None,
    }
}

/// The line that tells the state of an issue, how many comments it has, and where known who opened
/// it, when, and when it last changed.
pub open spec fn metadata_of(issue: IssueView) -> Seq<char> {
    join(
        seq!["State: "@ + issue.state, "Comments: "@ + decimal(issue.comments as nat)] + noted(
            "Author: "@,
            issue.author,
        ) + noted("Created: "@, day_noted(issue.created_at)) + noted(
            "Updated: "@,
            day_noted(issue.updated_at),
        ),
        " | "@,
    )
}

/// Makes a text of two.
fn two(a: &str, b: &str) -> (r: String)
    ensures
        r@ == a@ + b@,
{
    let mut r = a.to_string();
    r.append(b);
    r
}

/// Adds a text to a list.
fn add_text(list: &mut Vec<String>, next: String)
    ensures
        texts(final(list)@) == texts(old(list)@).push(next@),
{
    list.push(next);
    assert(texts(list@) =~= texts(old(list)@).push(next@));
}

/// Makes the line that tells about an issue.
pub fn issue_metadata(issue: &IssueEntry) -> (r: String)
    ensures
        r@ == metadata_of(issue@),
{
    let mut parts: Vec<String> = Vec::new();
    add_text(&mut parts, two("State: ", issue.state.as_str()));
    let comments = to_text(decimal_chars(issue.comments).as_slice());
    add_text(&mut parts, two("Comments: ", comments.as_str()));
    if let Some(author) = &issue.author {
        add_text(&mut parts, two("Author: ", author.as_str()));
    }
    if let Some(created) = &issue.created_at {
        add_text(&mut parts, two("Created: ", short_timestamp(created.as_str()).as_str()));
    }
    if let Some(updated) = &issue.updated_at {
        add_text(&mut parts, two("Updated: ", short_timestamp(updated.as_str()).as_str()));
    }
    proof {
        let all = seq!["State: "@ + issue@.state, "Comments: "@ + decimal(issue@.comments as nat)]
            + noted("Author: "@, issue@.author) + noted("Created: "@, day_noted(issue@.created_at))
            + noted("Updated: "@, day_noted(issue@.updated_at));
        assert(texts(parts@) =~= all);
        assert(texts(parts@) =~= Seq::new(parts@.len(), |i: int| parts@[i]@));
    }
    join_texts(&parts, " | ")
}

/// A line of the description, where there is something to say.
pub open spec fn list_line(
    name: Seq<char>,
    list: Seq<Seq<char>>,
    style: Style,
) -> Seq<Seq<SpanView>> {
    if list.len() == 0 {
        Seq::empty()
    } else {
        seq![line_of(name + join(list, ", "@), style)]
    }
}

/// The most lines of an issue's text that are shown.
pub const MOST_BODY_LINES: usize = 400;

/// The lines of an issue's own text: why it could not be had, the text itself, or a word on why
/// there is none.
pub open spec fn body_lines(issue: IssueView, value: Style, subtle: Style) -> Seq<Seq<SpanView>> {
    if issue.detail_error is Some {
        seq![line_of("Unable to load description: "@ + issue.detail_error->0, subtle)]
    } else if issue.body is Some && trim(issue.body->0, CharClass::WhiteSpace).len() > 0 {
        let all = lines(issue.body->0);
        Seq::new(
            if all.len() <= MOST_BODY_LINES {
                all.len()
            } else {
                MOST_BODY_LINES as nat
            },
            |i: int| line_of(all[i], value),
        )
    } else if issue.detail_loaded {
        seq![line_of("No description"@, subtle)]
    } else {
        seq![line_of("Loading description..."@, subtle)]
    }
}

/// The description of an issue.
pub open spec fn issue_lines(
    issue: IssueView,
    heading: Style,
    value: Style,
    subtle: Style,
) -> Seq<Seq<SpanView>> {
    seq![
        line_of("#"@ + decimal(issue.number as nat) + " "@ + issue.title, heading),
        line_of(issue.url, subtle),
        Seq::<SpanView>::empty(),
        line_of(metadata_of(issue), subtle),
    ] + list_line("Labels: "@, issue.labels, subtle) + list_line(
        "Assignees: "@,
        issue.assignees,
        subtle,
    ) + match issue.milestone {
        Some(milestone) => seq![line_of("Milestone: "@ + milestone, subtle)],
        None => Seq::empty(),
    } + seq![Seq::<SpanView>::empty()] + body_lines(issue, value, subtle)
}

/// What the description pane shows: that the issues are on their way, why they could not be had,
/// that no issue is selected, or the selected issue.
pub open spec fn detail_lines(
    repo: Seq<char>,
    issue: Option<IssueView>,
    error: Option<Seq<char>>,
    loading: bool,
    accent: Color,
    muted: Color,
    text: Color,
) -> Seq<Seq<SpanView>> {
    let heading = emphasized(accent);
    let subtle = colored(muted);
    if loading {
        seq![line_of("Loading GitHub issues..."@, heading)]
    } else if error is Some {
        seq![
            line_of("Unable to load issues"@, heading),
            Seq::<SpanView>::empty(),
            line_of(error->0, subtle),
        ]
    } else if issue is None {
        seq![
            line_of(repo, heading),
            Seq::<SpanView>::empty(),
            line_of("No issue selected"@, subtle),
        ]
    } else {
        issue_lines(issue->0, heading, colored(text), subtle)
    }
}

/// Makes the line of a list, where the list is not empty.
fn add_list_line(r: &mut Vec<Line>, name: &str, list: &Vec<String>, style: Style)
    ensures
        line_views(final(r)@) == line_views(old(r)@) + list_line(name@, texts(list@), style),
{
    if list.len() > 0 {
        let joined = join_texts(list, ", ");
        assert(texts(list@) =~= Seq::new(list@.len(), |i: int| list@[i]@));
        add_line(r, line(two(name, joined.as_str()), style));
    }
    assert(line_views(r@) =~= line_views(old(r)@) + list_line(name@, texts(list@), style));
}

/// Makes the lines of an issue's own text.
fn add_body_lines(r: &mut Vec<Line>, issue: &IssueEntry, value: Style, subtle: Style)
    ensures
        line_views(final(r)@) == line_views(old(r)@) + body_lines(issue@, value, subtle),
{
    let ghost start = line_views(r@);
    if let Some(error) = &issue.detail_error {
        add_line(r, line(two("Unable to load description: ", error.as_str()), subtle));
        assert(line_views(r@) =~= start + body_lines(issue@, value, subtle));
        return;
    }
    if let Some(body) = &issue.body {
        let chars = to_chars(body.as_str());
        if trimmed(chars.as_slice(), CharClass::WhiteSpace).len() > 0 {
            let all = split_lines(chars.as_slice(), MOST_BODY_LINES);
            let ghost shown = body_lines(issue@, value, subtle);
            assert(shown.take(0) =~= Seq::empty());
            for k in 0..all.len()
                invariant
                    all@.len() == shown.len(),
                    forall|i: int|
                        0 <= i < all@.len() ==> #[trigger] shown[i] == line_of(
                            all@[i]@,
                            value,
                        ),
                    line_views(r@) == start + shown.take(k as int),
            {
                add_line(r, line(to_text(all[k].as_slice()), value));
                assert(line_views(r@) =~= start + shown.take(k + 1));
            }
            assert(shown.take(all@.len() as int) =~= shown);
            return;
        }
    }
    if issue.detail_loaded {
        add_line(r, line("No description".to_string(), subtle));
    } else {
        add_line(r, line("Loading description...".to_string(), subtle));
    }
    assert(line_views(r@) =~= start + body_lines(issue@, value, subtle));
}

/// Makes what the description pane shows.
pub fn issue_detail_text(
    repo: &str,
    issue: Option<&IssueEntry>,
    error: Option<&str>,
    loading: bool,
    accent: Color,
    muted: Color,
    text: Color,
) -> (r: Vec<Line>)
    ensures
        line_views(r@) == detail_lines(
            repo@,
            match issue {
                Some(issue) => Some(issue@),
                None => None,
            },
            match error {
                Some(error) => Some(error@),
                None => None,
            },
            loading,
            accent,
            muted,
            text,
        ),
{
    let heading = Style { fg: Some(accent), bold: true };
    let value = Style { fg: Some(text), bold: false };
    let subtle = Style { fg: Some(muted), bold: false };
    let mut r: Vec<Line> = Vec::new();
    assert(line_views(r@) =~= Seq::empty());
    if loading {
        add_line(&mut r, line("Loading GitHub issues...".to_string(), heading));
        return r;
    }
    if let Some(error) = error {
        add_line(&mut r, line("Unable to load issues".to_string(), heading));
        add_line(&mut r, blank_line());
        add_line(&mut r, line(error.to_string(), subtle));
        return r;
    }
    let issue = match issue {
        Some(issue) => issue,
        None => {
            add_line(&mut r, line(repo.to_string(), heading));
            add_line(&mut r, blank_line());
            add_line(&mut r, line("No issue selected".to_string(), subtle));
            return r;
        },
    };
    let mut headline = "#".to_string();
    headline.append(to_text(decimal_chars(issue.number).as_slice()).as_str());
    headline.append(" ");
    headline.append(issue.title.as_str());
    add_line(&mut r, line(headline, heading));
    add_line(&mut r, line(issue.url.clone(), subtle));
    add_line(&mut r, blank_line());
    add_line(&mut r, line(issue_metadata(issue), subtle));
    add_list_line(&mut r, "Labels: ", &issue.labels, subtle);
    add_list_line(&mut r, "Assignees: ", &issue.assignees, subtle);
    if let Some(milestone) = &issue.milestone {
        add_line(&mut r, line(two("Milestone: ", milestone.as_str()), subtle));
    }
    add_line(&mut r, blank_line());
    add_body_lines(&mut r, issue, value, subtle);
    assert(line_views(r@) =~= issue_lines(issue@, heading, value, subtle));
    r
}

/// The line that tells the keys.
pub open spec fn help_of(
    state_filter: IssueStateFilter,
    key_color: Color,
    text: Color,
    accent: Color,
) -> Seq<SpanView> {
    let key = emphasized(key_color);
    let regular = colored(text);
    seq![
        span_of("Issues"@, emphasized(accent)),
        span_of("  type filter  "@, regular),
        span_of("#"@, key),
        span_of(" number/label  "@, regular),
        span_of("@"@, key),
        span_of(" author/assignee  "@, regular),
        span_of("Tab"@, key),
        span_of(" "@ + state_filter.name() + "  "@, regular),
        span_of("r"@, key),
        span_of(" refresh  "@, regular),
        span_of("Enter"@, key),
        span_of(" select URL  "@, regular),
        span_of("Ctrl+Y"@, key),
        span_of(" copy URL"@, regular),
    ]
}

/// Makes the line that tells the keys.
pub fn issue_help_line(
    state_filter: IssueStateFilter,
    key_color: Color,
    text: Color,
    accent: Color,
) -> (r: Line)
    ensures
        r@ == help_of(state_filter, key_color, text, accent),
{
    let key = Style { fg: Some(key_color), bold: true };
    let label = Style { fg: Some(accent), bold: true };
    let regular = Style { fg: Some(text), bold: false };
    let mut state = two(" ", state_filter.label());
    state.append("  ");
    let r = Line {
        spans: vec![
            span("Issues".to_string(), label),
            span("  type filter  ".to_string(), regular),
            span("#".to_string(), key),
            span(" number/label  ".to_string(), regular),
            span("@".to_string(), key),
            span(" author/assignee  ".to_string(), regular),
            span("Tab".to_string(), key),
            span(state, regular),
            span("r".to_string(), key),
            span(" refresh  ".to_string(), regular),
            span("Enter".to_string(), key),
            span(" select URL  ".to_string(), regular),
            span("Ctrl+Y".to_string(), key),
            span(" copy URL".to_string(), regular),
        ],
    };
    assert(r@ =~= help_of(state_filter, key_color, text, accent));
    r
}

/// The title of the list pane.
pub open spec fn list_title_of(
    state_filter: IssueStateFilter,
    loading: bool,
    loading_more: bool,
    shown: nat,
    total: nat,
) -> Seq<char> {
    let start = "* Issues "@ + state_filter.name();
    if loading {
        start + " loading"@
    } else {
        let counted = start + " "@ + decimal(shown) + "/"@ + decimal(total);
        if loading_more {
            counted + " loading more"@
        } else {
            counted
        }
    }
}

/// Makes the title of the list pane.
pub fn list_title(
    state_filter: IssueStateFilter,
    loading: bool,
    loading_more: bool,
    shown: usize,
    total: usize,
) -> (r: String)
    ensures
        r@ == list_title_of(state_filter, loading, loading_more, shown as nat, total as nat),
{
    let mut r = two("* Issues ", state_filter.label());
    if loading {
        r.append(" loading");
        return r;
    }
    r.append(" ");
    r.append(to_text(decimal_chars(shown as u64).as_slice()).as_str());
    r.append("/");
    r.append(to_text(decimal_chars(total as u64).as_slice()).as_str());
    if loading_more {
        r.append(" loading more");
    }
    r
}

/// The title of the description pane.
pub open spec fn detail_title_of(selected: Option<IssueView>) -> Seq<char> {
    match selected {
        Some(issue) => "#"@ + decimal(issue.number as nat),
        None => "Details"@,
    }
}

/// Makes the title of the description pane.
pub fn detail_title(selected: Option<&IssueEntry>) -> (r: String)
    ensures
        r@ == detail_title_of(
            match selected {
                Some(issue) => Some(issue@),
                None => None,
            },
        ),
{
    match selected {
        Some(issue) => two("#", to_text(decimal_chars(issue.number).as_slice()).as_str()),
        None => "Details".to_string(),
    }
}

/// A cut text has at most the characters that it may have; one that has no more stays as it is; and
/// cutting a cut text again, to the same width or a greater one, changes nothing.
pub proof fn law_truncation(s: Seq<char>, max: int, wider: int)
    requires
        0 <= max <= wider,
    ensures
        truncated(s, max).len() == least(s.len() as int, max),
        s.len() <= max ==> truncated(s, max) == s,
        truncated(truncated(s, max), wider) == truncated(s, max),
        3 < max < s.len() ==> s.take(max - 3).is_prefix_of(truncated(s, max))
            && "..."@.is_suffix_of(truncated(s, max)),
        max <= 3 ==> truncated(s, max).is_prefix_of(s),
{
    reveal_strlit("...");
    if 3 < max < s.len() {
        let cut = truncated(s, max);
        assert(cut.subrange(0, max - 3) =~= s.take(max - 3));
        assert(cut.subrange(max - 3, max) =~= "..."@);
    }
}

/// How many characters a line has.
pub open spec fn line_length(line: Seq<SpanView>) -> int
    decreases line.len(),
{
    if line.len() == 0 {
        0
    } else {
        line_length(line.drop_last()) + line.last().text.len()
    }
}

/// A row is exactly as wide as its pane, unless number, state and labels alone are wider; and
/// labels do not touch the title, as long as there is room for a space between them.
pub proof fn law_row_fills_width(issue: IssueView, width: int, text: Color, muted: Color)
    ensures
        line_length(row_of(issue, width, text, muted)) == greatest(
            width,
            (row_prefix(issue).len() + label_text(issue.labels).len()) as int,
        ),
        row_prefix(issue).len() + label_text(issue.labels).len() + label_gap(
            label_text(issue.labels),
        ) <= width && label_text(issue.labels).len() > 0 ==> row_of(
            issue,
            width,
            text,
            muted,
        )[2].text.len() > 0,
{
    let row = row_of(issue, width, text, muted);
    let prefix = row_prefix(issue);
    let labels = label_text(issue.labels);
    let room = greatest(width - (prefix.len() + labels.len() + label_gap(labels)), 0);
    law_truncation(issue.title, room, room);
    reveal_with_fuel(line_length, 5);
    assert(row.drop_last() =~= seq![row[0], row[1], row[2]]);
    assert(seq![row[0], row[1], row[2]].drop_last() =~= seq![row[0], row[1]]);
    assert(seq![row[0], row[1]].drop_last() =~= seq![row[0]]);
    assert(seq![row[0]].drop_last() =~= Seq::<SpanView>::empty());
}

/// The titles of all rows start in the same column, as long as numbers have at most five digits.
pub proof fn law_titles_line_up(issue: IssueView)
    requires
        issue.number < 100000,
    ensures
        row_prefix(issue).len() == 12,
{
    reveal_strlit("#");
    reveal_strlit(" ");
    reveal_strlit("OPEN");
    reveal_strlit("DONE");
    reveal_with_fuel(decimal, 6);
}

/// The day of a point in time is what stands before its `T`.
pub proof fn law_day_of_timestamp(date: Seq<char>, time: Seq<char>)
    requires
        date.len() > 0,
        !date.contains('T'),
    ensures
        day_of(date + seq!['T'] + time) == date,
        day_of(date) == date,
        day_of(seq!['T'] + time) == seq!['T'] + time,
        day_of(Seq::<char>::empty()) == Seq::<char>::empty(),
{
    let none = Seq::<char>::empty();
    crate::chars::law_cutting(none, 'T', time);
    assert(none + seq!['T'] + time =~= seq!['T'] + time);
    crate::chars::lemma_before_ends(date, 'T', time);
    crate::chars::lemma_before_whole(date, 'T');
}

/// Where a list names only issues that there are, it has a row for each entry.
pub proof fn lemma_rows(
    issues: Seq<IssueView>,
    list: Seq<int>,
    width: int,
    text: Color,
    muted: Color,
)
    requires
        forall|i: int| 0 <= i < list.len() ==> 0 <= #[trigger] list[i] < issues.len(),
    ensures
        rows_of(issues, list, width, text, muted) == Seq::new(
            list.len(),
            |i: int| row_of(issues[list[i]], width, text, muted),
        ),
    decreases list.len(),
{
    let all = Seq::new(list.len(), |i: int| row_of(issues[list[i]], width, text, muted));
    if list.len() > 0 {
        let init = list.drop_last();
        assert forall|i: int| 0 <= i < init.len() implies 0 <= #[trigger] init[i]
            < issues.len() by {
            assert(init[i] == list[i]);
        }
        lemma_rows(issues, init, width, text, muted);
        assert(0 <= list[list.len() - 1] < issues.len());
    }
    assert(rows_of(issues, list, width, text, muted) =~= all);
}

/// A row starts with the number of its issue and whether the issue is open, and ends with the labels;
/// the title stands between them, whole where there is room for it.
pub proof fn law_row_shows_issue(issue: IssueView, width: int, text: Color, muted: Color)
    ensures
        ({
            let row = row_of(issue, width, text, muted);
            let number = "#"@ + decimal(issue.number as nat);
            let labels = row[3].text;
            let room = width - row[0].text.len() - labels.len() - (if labels.len() > 0 {
                1int
            } else {
                0
            });
            let title = row[1].text;
            &&& row.len() == 4
            &&& number.is_prefix_of(row[0].text)
            &&& same_but_case(issue.state, "open"@) ==> "OPEN  "@.is_suffix_of(row[0].text)
            &&& !same_but_case(issue.state, "open"@) ==> "DONE  "@.is_suffix_of(row[0].text)
            &&& row[0].text.len() == 6 + (if number.len() < 6 {
                6
            } else {
                number.len()
            })
            &&& forall|k: int|
                number.len() <= k < row[0].text.len() - 6 ==> #[trigger] row[0].text[k] == ' '
            &&& issue.labels.len() == 0 ==> labels.len() == 0
            &&& issue.labels.len() > 0 ==> labels == "["@ + join(issue.labels, ","@) + "]"@
            &&& issue.title.len() <= room ==> title == issue.title
            &&& 3 < room < issue.title.len() ==> title == issue.title.take(room - 3) + "..."@
            &&& 0 <= room <= 3 && room < issue.title.len() ==> title == issue.title.take(room)
            &&& room < 0 ==> title.len() == 0
            &&& forall|k: int| 0 <= k < row[2].text.len() ==> #[trigger] row[2].text[k] == ' '
            &&& row[0].style == (Style { fg: Some(muted), bold: false })
            &&& row[1].style == (Style { fg: Some(text), bold: false })
            &&& row[2].style == (Style { fg: None, bold: false })
            &&& row[3].style == (Style { fg: Some(muted), bold: false })
        }),
{
    reveal_strlit("#");
    reveal_strlit(" ");
    reveal_strlit("OPEN");
    reveal_strlit("DONE");
    reveal_strlit("OPEN  ");
    reveal_strlit("DONE  ");
    reveal_strlit("[");
    reveal_strlit("]");
    let prefix = row_prefix(issue);
    let number = "#"@ + decimal(issue.number as nat);
    assert(prefix.subrange(0, number.len() as int) =~= number);
    let n = prefix.len() as int;
    if same_but_case(issue.state, "open"@) {
        assert(prefix.subrange(n - 6, n) =~= "OPEN  "@);
    } else {
        assert(prefix.subrange(n - 6, n) =~= "DONE  "@);
    }
}

/// The list pane shows one row for each entry of the list from its offset on, as many as there is
/// room for; row by row it is the issue that the entry names.
pub proof fn law_list_shows_entries(
    issues: Seq<IssueView>,
    filtered: Seq<int>,
    offset: int,
    height: int,
    width: int,
    text: Color,
    muted: Color,
    k: int,
)
    requires
        forall|i: int| 0 <= i < filtered.len() ==> 0 <= #[trigger] filtered[i] < issues.len(),
        0 <= offset < filtered.len(),
        0 < height,
    ensures
        ({
            let rows = list_rows(issues, filtered, offset, height, width, text, muted);
            &&& rows.len() <= height
            &&& rows.len() <= filtered.len() - offset
            &&& rows.len() == height || rows.len() == filtered.len() - offset
            &&& 0 <= k < rows.len() ==> rows[k] == row_of(
                issues[filtered[offset + k]],
                width,
                text,
                muted,
            )
        }),
{
    let shown = filtered.subrange(offset, least(offset + height, filtered.len() as int));
    assert forall|i: int| 0 <= i < shown.len() implies 0 <= #[trigger] shown[i]
        < issues.len() by {
        assert(shown[i] == filtered[offset + i]);
    }
    lemma_rows(issues, shown, width, text, muted);
}

/// A list without entries, and a pane without rows, say that there are no issues.
pub proof fn law_empty_list_says_so(
    issues: Seq<IssueView>,
    filtered: Seq<int>,
    offset: int,
    height: int,
    width: int,
    text: Color,
    muted: Color,
)
    requires
        filtered.len() == 0 || height == 0,
    ensures
        ({
            let rows = list_rows(issues, filtered, offset, height, width, text, muted);
            &&& rows.len() == 1
            &&& rows[0].len() == 1
            &&& rows[0][0].text == "No issues"@
            &&& rows[0][0].style == (Style { fg: Some(muted), bold: false })
        }),
{
}

/// What a value adds to the metadata: a bar, its name and itself.
pub open spec fn barred(name: Seq<char>, value: Option<Seq<char>>) -> Seq<char> {
    match value {
        Some(value) => " | "@ + name + value,
        None => Seq::empty(),
    }
}

/// A value that may be missing is joined with a bar where it is there.
proof fn lemma_join_noted(parts: Seq<Seq<char>>, name: Seq<char>, value: Option<Seq<char>>)
    requires
        parts.len() > 0,
    ensures
        join(parts + noted(name, value), " | "@) == join(parts, " | "@) + barred(name, value),
        (parts + noted(name, value)).len() > 0,
{
    match value {
        Some(value) => {
            law_joining(parts, name + value, " | "@);
            assert(parts + noted(name, Some(value)) =~= parts.push(name + value));
            assert(join(parts, " | "@) + " | "@ + (name + value) =~= join(parts, " | "@)
                + barred(name, Some(value)));
        },
        None => {
            assert(parts + noted(name, value) =~= parts);
            assert(join(parts, " | "@) + barred(name, value) =~= join(parts, " | "@));
        },
    }
}

/// The metadata of an issue tell its state and its comments, and then, each where it is known, its
/// author, the day it was opened and the day it last changed.
pub proof fn law_metadata(issue: IssueView)
    ensures
        metadata_of(issue) == "State: "@ + issue.state + " | "@ + "Comments: "@ + decimal(
            issue.comments as nat,
        ) + barred("Author: "@, issue.author) + barred(
            "Created: "@,
            match issue.created_at {
                Some(at) => Some(day_of(at)),
                None => None,
            },
        ) + barred(
            "Updated: "@,
            match issue.updated_at {
                Some(at) => Some(day_of(at)),
                None => None,
            },
        ),
{
    let a = "State: "@ + issue.state;
    let b = "Comments: "@ + decimal(issue.comments as nat);
    law_joining(seq![a], b, " | "@);
    law_joining(Seq::empty(), a, " | "@);
    assert(seq![a].push(b) =~= seq![a, b]);
    let one = seq![a, b];
    let two = one + noted("Author: "@, issue.author);
    let three = two + noted("Created: "@, day_noted(issue.created_at));
    lemma_join_noted(one, "Author: "@, issue.author);
    lemma_join_noted(two, "Created: "@, day_noted(issue.created_at));
    lemma_join_noted(three, "Updated: "@, day_noted(issue.updated_at));
    assert(a + " | "@ + b =~= "State: "@ + issue.state + " | "@ + "Comments: "@ + decimal(
        issue.comments as nat,
    ));
}

/// Whether a text holds more than white space.
pub open spec fn has_ink(s: Seq<char>) -> bool {
    exists|k: int| 0 <= k < s.len() && !white_space(#[trigger] s[k])
}

/// A text is trimmed down to nothing exactly where it is white space.
proof fn lemma_ink(s: Seq<char>)
    ensures
        has_ink(s) <==> trim(s, CharClass::WhiteSpace).len() > 0,
{
    let space = CharClass::WhiteSpace;
    let none = Seq::<char>::empty();
    if has_ink(s) {
        if trim(s, space).len() == 0 {
            crate::chars::lemma_trimmed_away(s, space);
        }
    } else {
        law_trimming(s, none, none, space);
        assert(s + none + none =~= s);
    }
}

/// A line of one text in one style.
pub open spec fn is_line(line: Seq<SpanView>, text: Seq<char>, style: Style) -> bool {
    &&& line.len() == 1
    &&& line[0].text == text
    &&& line[0].style == style
}

/// The description of an issue starts with its number and title, its address, an empty line and its
/// metadata. Its labels, its assignees and its milestone follow, each where there is one, and an
/// empty line before its text.
pub proof fn law_description_head(
    repo: Seq<char>,
    issue: IssueView,
    accent: Color,
    muted: Color,
    text: Color,
)
    ensures
        ({
            let all = detail_lines(repo, Some(issue), None, false, accent, muted, text);
            let heading = Style { fg: Some(accent), bold: true };
            let subtle = Style { fg: Some(muted), bold: false };
            let labels = if issue.labels.len() > 0 {
                1int
            } else {
                0
            };
            let assignees = if issue.assignees.len() > 0 {
                1int
            } else {
                0
            };
            let milestone = if issue.milestone is Some {
                1int
            } else {
                0
            };
            let blank = 4 + labels + assignees + milestone;
            &&& all.len() > blank
            &&& is_line(
                all[0],
                "#"@ + decimal(issue.number as nat) + " "@ + issue.title,
                heading,
            )
            &&& is_line(all[1], issue.url, subtle)
            &&& all[2].len() == 0
            &&& is_line(all[3], metadata_of(issue), subtle)
            &&& issue.labels.len() > 0 ==> is_line(
                all[4],
                "Labels: "@ + join(issue.labels, ", "@),
                subtle,
            )
            &&& issue.assignees.len() > 0 ==> is_line(
                all[4 + labels],
                "Assignees: "@ + join(issue.assignees, ", "@),
                subtle,
            )
            &&& issue.milestone is Some ==> is_line(
                all[4 + labels + assignees],
                "Milestone: "@ + issue.milestone->0,
                subtle,
            )
            &&& all[blank].len() == 0
            &&& forall|k: int|
                0 <= k < all.len() - blank - 1 ==> #[trigger] all[blank + 1 + k] == body_lines(
                    issue,
                    Style { fg: Some(text), bold: false },
                    subtle,
                )[k]
            &&& all.len() == blank + 1 + body_lines(
                issue,
                Style { fg: Some(text), bold: false },
                subtle,
            ).len()
        }),
{
}

/// The text of an issue is shown line by line, up to its first 400 lines. Where the details could not
/// be had, the reason stands in its place; where there is no text, whether it is still to come.
pub proof fn law_description_body(issue: IssueView, value: Style, subtle: Style, k: int)
    ensures
        ({
            let shown = body_lines(issue, value, subtle);
            &&& issue.detail_error is Some ==> shown.len() == 1 && is_line(
                shown[0],
                "Unable to load description: "@ + issue.detail_error->0,
                subtle,
            )
            &&& issue.detail_error is None && issue.body is Some && has_ink(issue.body->0) ==> {
                let all = lines(issue.body->0);
                &&& shown.len() <= all.len()
                &&& shown.len() <= 400
                &&& shown.len() == all.len() || shown.len() == 400
                &&& 0 <= k < shown.len() ==> is_line(shown[k], all[k], value)
            }
            &&& issue.detail_error is None && !(issue.body is Some && has_ink(issue.body->0)) ==> {
                &&& shown.len() == 1
                &&& issue.detail_loaded ==> is_line(shown[0], "No description"@, subtle)
                &&& !issue.detail_loaded ==> is_line(shown[0], "Loading description..."@, subtle)
            }
        }),
{
    if issue.body is Some {
        lemma_ink(issue.body->0);
    }
}

/// In place of an issue, the description tells that issues are being loaded, or why they could not be
/// loaded, or that none is selected, in this order.
pub proof fn law_description_without_issue(
    repo: Seq<char>,
    issue: Option<IssueView>,
    error: Option<Seq<char>>,
    loading: bool,
    accent: Color,
    muted: Color,
    text: Color,
)
    ensures
        ({
            let all = detail_lines(repo, issue, error, loading, accent, muted, text);
            let heading = Style { fg: Some(accent), bold: true };
            let subtle = Style { fg: Some(muted), bold: false };
            &&& loading ==> all.len() == 1 && is_line(
                all[0],
                "Loading GitHub issues..."@,
                heading,
            )
            &&& !loading && error is Some ==> {
                &&& all.len() == 3
                &&& is_line(all[0], "Unable to load issues"@, heading)
                &&& all[1].len() == 0
                &&& is_line(all[2], error->0, subtle)
            }
            &&& !loading && error is None && issue is None ==> {
                &&& all.len() == 3
                &&& is_line(all[0], repo, heading)
                &&& all[1].len() == 0
                &&& is_line(all[2], "No issue selected"@, subtle)
            }
        }),
{
}

/// The list of keys names the marks and the keys, and the filter that is on.
pub proof fn law_help_names_keys(
    state_filter: IssueStateFilter,
    key_color: Color,
    text: Color,
    accent: Color,
)
    ensures
        ({
            let help = help_of(state_filter, key_color, text, accent);
            let key = Style { fg: Some(key_color), bold: true };
            let regular = Style { fg: Some(text), bold: false };
            &&& help.len() == 14
            &&& help[0].text == "Issues"@ && help[0].style == (Style {
                fg: Some(accent),
                bold: true,
            })
            &&& help[1].text == "  type filter  "@
            &&& help[2].text == "#"@ && help[3].text == " number/label  "@
            &&& help[4].text == "@"@ && help[5].text == " author/assignee  "@
            &&& help[6].text == "Tab"@ && help[7].text == " "@ + state_filter.name() + "  "@
            &&& help[8].text == "r"@ && help[9].text == " refresh  "@
            &&& help[10].text == "Enter"@ && help[11].text == " select URL  "@
            &&& help[12].text == "Ctrl+Y"@ && help[13].text == " copy URL"@
            &&& forall|k: int| 1 <= k < 14 ==> (#[trigger] help[k]).style == if k % 2 == 0 {
                key
            } else {
                regular
            }
        }),
{
}

/// The title of the list names the filter. While nothing has come it says so; then it counts the
/// listed issues and all of them, and says whether more are to come.
pub proof fn law_list_title(
    state_filter: IssueStateFilter,
    loading: bool,
    loading_more: bool,
    shown: nat,
    total: nat,
)
    ensures
        ({
            let title = list_title_of(state_filter, loading, loading_more, shown, total);
            let start = "* Issues "@ + state_filter.name();
            let counted = start + " "@ + decimal(shown) + "/"@ + decimal(total);
            &&& loading ==> title == start + " loading"@
            &&& !loading && loading_more ==> title == counted + " loading more"@
            &&& !loading && !loading_more ==> title == counted
        }),
{
}

/// The title of the description is the number of the selected issue.
pub proof fn law_detail_title(issue: IssueView)
    ensures
        detail_title_of(Some(issue)) == "#"@ + decimal(issue.number as nat),
        detail_title_of(None) == "Details"@,
{
}

/// What is seen of a line is each of its texts, with its style, in their order.
pub proof fn law_view_shows_line(line: Line, k: int)
    ensures
        line@.len() == line.spans@.len(),
        0 <= k < line.spans@.len() ==> line@[k].text == line.spans@[k].text@ && line@[k].style
            == line.spans@[k].style,
{
}

/// An entry whose place holds no issue has no row; every other one has the row of its issue, behind
/// the rows of the entries before it.
pub proof fn law_rows_of_entries(
    issues: Seq<IssueView>,
    list: Seq<int>,
    place: int,
    width: int,
    text: Color,
    muted: Color,
)
    ensures
        rows_of(issues, Seq::<int>::empty(), width, text, muted).len() == 0,
        !(0 <= place < issues.len()) ==> rows_of(issues, list.push(place), width, text, muted)
            == rows_of(issues, list, width, text, muted),
        0 <= place < issues.len() ==> rows_of(issues, list.push(place), width, text, muted)
            == rows_of(issues, list, width, text, muted).push(
            row_of(issues[place], width, text, muted),
        ),
{
    assert(list.push(place).drop_last() =~= list);
}

/// The list pane shows nothing behind the last entry.
pub proof fn law_no_rows_behind_the_last(
    issues: Seq<IssueView>,
    filtered: Seq<int>,
    height: int,
    width: int,
    text: Color,
    muted: Color,
)
    requires
        filtered.len() > 0,
        height > 0,
    ensures
        list_rows(
            issues,
            filtered,
            filtered.len() as int,
            height,
            width,
            text,
            muted,
        ).len() == 0,
{
}

} // verus!
