//! The explorer: what it holds, and what each event makes of it.

use crate::chars::words;
use crate::details::{
    apply_detail, ensure_selected_issue_detail, first_entry, lemma_find_number, merge_issue_details,
    merged, names_number, selected_index_for_issue_number, selected_issue, selected_of,
    wanted_detail, with_detail,
};
use crate::filter::{
    answers, decides, filter_issues, is_answer, is_selection, kept, law_empty_query_keeps_all,
    places, Matcher,
};
use crate::layout::{
    greatest, has_cell, least, list_window_offset, rect_contains, window_offset, Area, IssueLayout,
};
use crate::load::{DetailView, IssueDetailResult, IssueLoadResult, LoadView};
use crate::model::{text_of, views, IssueEntry, IssueStateFilter, IssueView};
use crate::screen::{
    detail_lines, detail_title, detail_title_of, help_of, issue_detail_text, issue_help_line,
    issue_list_items, line_views, list_rows, list_title, list_title_of, text_line_count, Color,
    Line, SpanView,
};
use crate::search::{
    display_width, insert_at, insert_paste, pasted, pressed, KeyName, KeyPress, LineView,
    SearchLine, TextKey, SHIFT,
};
use std::collections::HashSet;
use vstd::prelude::*;

verus! {

/// The state of the explorer.
pub struct Explorer {
    pub repo: String,
    pub search: SearchLine,
    /// The selected entry of the filtered list.
    pub selected: usize,
    /// The first entry of the filtered list that is shown.
    pub list_offset: usize,
    /// The first line of the description that is shown.
    pub detail_scroll: usize,
    /// How far the description can be scrolled.
    pub detail_max_scroll: usize,
    /// How far the description is scrolled at once.
    pub detail_page_step: usize,
    pub state_filter: IssueStateFilter,
    pub issues: Vec<IssueEntry>,
    /// The places of the issues that are listed.
    pub filtered: Vec<usize>,
    /// Whether nothing has come yet of the last load.
    pub loading: bool,
    /// Whether more is to come of the last load.
    pub loading_more: bool,
    /// The number of the last load.
    pub load_id: u64,
    pub error: Option<String>,
    /// The issues whose details are under way.
    pub detail_in_flight: HashSet<u64>,
}

/// What the state of the explorer holds.
#[verifier::ext_equal]
pub struct ExplorerView {
    pub repo: Seq<char>,
    pub search: LineView,
    pub selected: int,
    pub list_offset: int,
    pub detail_scroll: int,
    pub detail_max_scroll: int,
    pub detail_page_step: int,
    pub state_filter: IssueStateFilter,
    pub issues: Seq<IssueView>,
    pub filtered: Seq<int>,
    pub loading: bool,
    pub loading_more: bool,
    pub load_id: u64,
    pub error: Option<Seq<char>>,
    pub detail_in_flight: Set<u64>,
}

impl View for Explorer {
    type V = ExplorerView;

    open spec fn view(&self) -> ExplorerView {
        ExplorerView {
            repo: self.repo@,
            search: self.search@,
            selected: self.selected as int,
            list_offset: self.list_offset as int,
            detail_scroll: self.detail_scroll as int,
            detail_max_scroll: self.detail_max_scroll as int,
            detail_page_step: self.detail_page_step as int,
            state_filter: self.state_filter,
            issues: views(self.issues@),
            filtered: places(self.filtered@),
            loading: self.loading,
            loading_more: self.loading_more,
            load_id: self.load_id,
            error: text_of(self.error),
            detail_in_flight: self.detail_in_flight@,
        }
    }
}

/// The last entry of a list of the given length; the first one of an empty list.
pub open spec fn last_entry(length: int) -> int {
    greatest(length - 1, 0)
}

impl ExplorerView {
    /// The cursor stands on the search line, the filtered list names issues in their order, an
    /// entry of it is selected unless it is empty, and the description is scrolled no further than
    /// it can be.
    pub open spec fn wf(self) -> bool {
        &&& self.search.wf()
        &&& is_selection(self.filtered, self.issues.len() as int)
        &&& 0 <= self.selected <= last_entry(self.filtered.len() as int)
        &&& 0 <= self.list_offset
        &&& 0 <= self.detail_scroll <= self.detail_max_scroll
        &&& 1 <= self.detail_page_step
    }

    /// The selected issue.
    pub open spec fn selection(self) -> Option<IssueView> {
        selected_of(self.issues, self.filtered, self.selected)
    }
}

/// What is to be done when an event was taken in.
pub enum Action {
    /// Nothing.
    Continue,
    /// Leave without a choice.
    Quit,
    /// Leave with this address.
    Choose(String),
    /// Put this address on the clipboard.
    Copy(String),
    /// Start a load of this number, for issues of this state.
    Load(IssueStateFilter, u64),
}

/// What an action holds.
pub enum ActionView {
    Continue,
    Quit,
    Choose(Seq<char>),
    Copy(Seq<char>),
    Load(IssueStateFilter, u64),
}

impl View for Action {
    type V = ActionView;

    open spec fn view(&self) -> ActionView {
        match *self {
            Action::Continue => ActionView::Continue,
            Action::Quit => ActionView::Quit,
            Action::Choose(url) => ActionView::Choose(url@),
            Action::Copy(url) => ActionView::Copy(url@),
            Action::Load(state, load_id) => ActionView::Load(state, load_id),
        }
    }
}

/// The explorer at its start: nothing is there yet, and the open issues are being loaded.
pub open spec fn initial(repo: Seq<char>) -> ExplorerView {
    ExplorerView {
        repo,
        search: LineView { text: Seq::empty(), cursor: 0 },
        selected: 0,
        list_offset: 0,
        detail_scroll: 0,
        detail_max_scroll: 0,
        detail_page_step: 5,
        state_filter: IssueStateFilter::Open,
        issues: Seq::empty(),
        filtered: Seq::empty(),
        loading: true,
        loading_more: false,
        load_id: 1,
        error: None,
        detail_in_flight: Set::empty(),
    }
}

/// The first entry of a filtered list that names an issue with the given number.
pub open spec fn entry_for(
    issues: Seq<IssueView>,
    filtered: Seq<int>,
    number: u64,
) -> Option<int> {
    if exists|entry: int| names_number(issues, filtered, entry, number) {
        Some(choose|entry: int| first_entry(issues, filtered, number, entry))
    } else {
        None
    }
}

/// The entry that is selected when a list was replaced by another one: the one that names the same
/// issue, and where there is none the one at the same place, or the last.
pub open spec fn reselected(
    s: ExplorerView,
    issues: Seq<IssueView>,
    filtered: Seq<int>,
) -> int {
    let stay = least(s.selected, last_entry(filtered.len() as int));
    match s.selection() {
        Some(issue) => match entry_for(issues, filtered, issue.number) {
            Some(entry) => entry,
            None => stay,
        },
        None => stay,
    }
}

/// Whether a result belongs to the last load that was started.
pub open spec fn is_current(s: ExplorerView, result: LoadView) -> bool {
    result.state == s.state_filter && result.load_id == s.load_id
}

/// The explorer after issues of the last load have come, of which the filtered list names these. The
/// details that are known already are kept, and so is the selection.
pub open spec fn loaded_with(
    s: ExplorerView,
    result: LoadView,
    filtered: Seq<int>,
) -> ExplorerView {
    let issues = merged(s.issues, result.issues);
    ExplorerView {
        issues,
        filtered,
        error: result.error,
        selected: reselected(s, issues, filtered),
        list_offset: if result.done {
            s.list_offset
        } else {
            0
        },
        detail_scroll: if result.done {
            s.detail_scroll
        } else {
            0
        },
        detail_in_flight: if result.done {
            s.detail_in_flight
        } else {
            Set::empty()
        },
        loading: false,
        loading_more: !result.done,
        ..s
    }
}

/// The explorer after issues have come. Those of an earlier load change nothing.
pub open spec fn loaded(s: ExplorerView, result: LoadView, rule: Matcher) -> ExplorerView {
    if is_current(s, result) {
        loaded_with(s, result, kept(merged(s.issues, result.issues), s.search.text, rule))
    } else {
        s
    }
}

/// An explorer that is as expected but for the filtered list.
pub open spec fn but_for_list(s: ExplorerView, expected: ExplorerView) -> bool {
    s == (ExplorerView { filtered: s.filtered, ..expected })
}

/// The explorer after details have come.
pub open spec fn detailed(s: ExplorerView, result: DetailView) -> ExplorerView {
    ExplorerView {
        issues: with_detail(s.issues, result),
        detail_in_flight: s.detail_in_flight.remove(result.number),
        ..s
    }
}

/// The explorer after it was asked whose details are wanted.
pub open spec fn asked(s: ExplorerView) -> ExplorerView {
    match wanted_detail(s.selection(), s.detail_in_flight) {
        Some(number) => ExplorerView {
            detail_in_flight: s.detail_in_flight.insert(number),
            ..s
        },
        None => s,
    }
}

/// The explorer with a list filtered anew, from its start.
pub open spec fn refiltered(s: ExplorerView, search: LineView, rule: Matcher) -> ExplorerView {
    ExplorerView {
        search,
        filtered: kept(s.issues, search.text, rule),
        selected: 0,
        list_offset: 0,
        ..s
    }
}

/// The explorer after a key was given to the search line, which made this line of it.
pub open spec fn edited(s: ExplorerView, search: LineView, rule: Matcher) -> ExplorerView {
    if search.text == s.search.text {
        ExplorerView { search, ..s }
    } else {
        ExplorerView { detail_scroll: 0, ..refiltered(s, search, rule) }
    }
}

/// The number of the load after the given one.
pub open spec fn next_load(load_id: u64) -> u64 {
    if load_id < u64::MAX {
        (load_id + 1) as u64
    } else {
        load_id
    }
}

/// The explorer after the next filter was chosen: it is empty and loads anew.
pub open spec fn switched(s: ExplorerView) -> ExplorerView {
    ExplorerView {
        state_filter: s.state_filter.after(),
        selected: 0,
        list_offset: 0,
        detail_scroll: 0,
        issues: Seq::empty(),
        filtered: Seq::empty(),
        detail_in_flight: Set::empty(),
        error: None,
        loading: true,
        loading_more: false,
        load_id: next_load(s.load_id),
        ..s
    }
}

/// The explorer after a refresh was asked for: it loads anew, and shows what it has meanwhile.
pub open spec fn refreshed(s: ExplorerView) -> ExplorerView {
    ExplorerView {
        detail_in_flight: Set::empty(),
        error: None,
        loading: true,
        loading_more: false,
        load_id: next_load(s.load_id),
        ..s
    }
}

/// The explorer with the entry before the selected one selected.
pub open spec fn moved_up(s: ExplorerView) -> ExplorerView {
    ExplorerView { selected: greatest(s.selected - 1, 0), ..s }
}

/// The explorer with the entry behind the selected one selected.
pub open spec fn moved_down(s: ExplorerView) -> ExplorerView {
    ExplorerView {
        selected: least(s.selected + 1, last_entry(s.filtered.len() as int)),
        ..s
    }
}

/// The explorer with the description scrolled by so many lines, as far as it goes.
pub open spec fn scrolled(s: ExplorerView, lines: int) -> ExplorerView {
    ExplorerView {
        detail_scroll: greatest(least(s.detail_scroll + lines, s.detail_max_scroll), 0),
        ..s
    }
}

/// Whether the key is a letter of the search line's keyboard.
pub open spec fn is_letter(key: KeyPress, c: char) -> bool {
    key.code == KeyName::Text(TextKey::Char(c))
}

/// The explorer after a key.
pub open spec fn after_key(s: ExplorerView, key: KeyPress, rule: Matcher) -> ExplorerView {
    let control = key.with_control();
    match key.code {
        KeyName::Esc => s,
        KeyName::Enter => s,
        KeyName::Tab => switched(s),
        KeyName::Up => moved_up(s),
        KeyName::Down => moved_down(s),
        KeyName::PageUp => scrolled(s, -s.detail_page_step),
        KeyName::PageDown => scrolled(s, s.detail_page_step),
        KeyName::Text(text_key) => if control && text_key == TextKey::Home {
            ExplorerView { detail_scroll: 0, ..s }
        } else if control && text_key == TextKey::End {
            ExplorerView { detail_scroll: s.detail_max_scroll, ..s }
        } else if control && (text_key == TextKey::Char('c') || text_key == TextKey::Char('y')) {
            s
        } else if !control && text_key == TextKey::Char('r') {
            refreshed(s)
        } else if control && text_key == TextKey::Char('u') {
            refiltered(s, LineView { text: Seq::empty(), cursor: 0 }, rule)
        } else {
            edited(s, pressed(s.search, text_key, key.modifiers, key.kind), rule)
        },
    }
}

/// Whether a key has the matching function asked: it edits the search line, and what it makes of it
/// is another text, which has words.
pub open spec fn asks(s: ExplorerView, key: KeyPress) -> bool {
    let control = key.with_control();
    match key.code {
        KeyName::Text(text_key) => if control && (text_key == TextKey::Home || text_key
            == TextKey::End || text_key == TextKey::Char('c') || text_key == TextKey::Char('y')
            || text_key == TextKey::Char('u')) {
            false
        } else if !control && text_key == TextKey::Char('r') {
            false
        } else {
            let text = pressed(s.search, text_key, key.modifiers, key.kind).text;
            text != s.search.text && words(text).len() > 0
        },
        _ => false,
    }
}

/// Whether the key types a character into the search line: it is pressed alone or with the shift
/// key, and is not the one that asks for a refresh.
pub open spec fn types(key: KeyPress, c: char) -> bool {
    &&& is_letter(key, c)
    &&& c != 'r'
    &&& key.modifiers == 0 || key.modifiers == SHIFT
    &&& key.kind !is Release
}

/// Whether the key does no more than move the cursor of the search line.
pub open spec fn moves_cursor(key: KeyPress) -> bool {
    ||| key.code == KeyName::Text(TextKey::Left)
    ||| key.code == KeyName::Text(TextKey::Right)
    ||| !key.with_control() && key.code == KeyName::Text(TextKey::Home)
    ||| !key.with_control() && key.code == KeyName::Text(TextKey::End)
}

/// The explorer after a character was typed: it stands at the cursor, and the list is filtered by
/// it, from its start.
pub open spec fn typed(s: ExplorerView, c: char, rule: Matcher) -> ExplorerView {
    ExplorerView {
        detail_scroll: 0,
        ..refiltered(s, insert_at(s.search, seq![c]), rule)
    }
}

/// What a key asks for.
pub open spec fn key_action(s: ExplorerView, key: KeyPress) -> ActionView {
    let control = key.with_control();
    if key.code is Esc || control && is_letter(key, 'c') {
        ActionView::Quit
    } else if control && is_letter(key, 'y') && s.selection() is Some {
        ActionView::Copy(s.selection()->0.url)
    } else if key.code is Enter && s.selection() is Some {
        ActionView::Choose(s.selection()->0.url)
    } else if key.code is Tab {
        ActionView::Load(s.state_filter.after(), next_load(s.load_id))
    } else if !control && is_letter(key, 'r') {
        ActionView::Load(s.state_filter, next_load(s.load_id))
    } else {
        ActionView::Continue
    }
}

/// The explorer after a text was pasted.
pub open spec fn after_paste(s: ExplorerView, text: Seq<char>, rule: Matcher) -> ExplorerView {
    ExplorerView {
        detail_scroll: 0,
        ..refiltered(s, insert_at(s.search, pasted(text)), rule)
    }
}

/// What happened to the mouse.
#[derive(Clone, Copy, Debug, PartialEq, Eq, Structural)]
pub enum MouseKind {
    LeftDown,
    ScrollUp,
    ScrollDown,
    Other,
}

/// A mouse event, and the cell where it happened.
#[derive(Clone, Copy, Debug, PartialEq, Eq, Structural)]
pub struct Mouse {
    pub kind: MouseKind,
    pub column: u16,
    pub row: u16,
}

/// The explorer after a mouse event: a click on the list selects, and the wheel scrolls the
/// description or moves the selection, by where the mouse is.
pub open spec fn after_mouse(s: ExplorerView, ui: IssueLayout, mouse: Mouse) -> ExplorerView {
    let on_detail = has_cell(ui.detail, mouse.column, mouse.row);
    let on_results = has_cell(ui.results, mouse.column, mouse.row);
    match mouse.kind {
        MouseKind::LeftDown => if on_results {
            ExplorerView {
                selected: least(
                    s.list_offset + (mouse.row - ui.results.y),
                    last_entry(s.filtered.len() as int),
                ),
                ..s
            }
        } else {
            s
        },
        MouseKind::ScrollUp => if on_detail {
            scrolled(s, -1)
        } else if on_results {
            moved_up(s)
        } else {
            s
        },
        MouseKind::ScrollDown => if on_detail {
            scrolled(s, 1)
        } else if on_results {
            moved_down(s)
        } else {
            s
        },
        MouseKind::Other => s,
    }
}

/// An event.
pub enum UiEvent {
    Key(KeyPress),
    Paste(String),
    Mouse(Mouse),
    /// An event without a meaning here.
    Other,
}

/// The explorer after an event.
pub open spec fn after_event(
    s: ExplorerView,
    ui: IssueLayout,
    event: UiEvent,
    rule: Matcher,
) -> ExplorerView {
    match event {
        UiEvent::Key(key) => after_key(s, key, rule),
        UiEvent::Paste(value) => after_paste(s, value@, rule),
        UiEvent::Mouse(mouse) => after_mouse(s, ui, mouse),
        UiEvent::Other => s,
    }
}

/// Whether an event has the matching function asked.
pub open spec fn event_asks(s: ExplorerView, event: UiEvent) -> bool {
    match event {
        UiEvent::Key(key) => asks(s, key),
        UiEvent::Paste(value) => words(insert_at(s.search, pasted(value@)).text).len() > 0,
        _ => false,
    }
}

/// What an event asks for.
pub open spec fn event_action(s: ExplorerView, event: UiEvent) -> ActionView {
    match event {
        UiEvent::Key(key) => key_action(s, key),
        _ => ActionView::Continue,
    }
}

/// The colors of the screen.
#[derive(Clone, Copy, Debug, PartialEq, Eq, Structural)]
pub struct Palette {
    pub accent: Color,
    /// Behind the selected row.
    pub warm: Color,
    pub text: Color,
    pub muted: Color,
    pub key: Color,
}

/// The colors of the screen.
pub open spec fn palette_of() -> Palette {
    Palette {
        accent: Color::Rgb(72, 166, 255),
        warm: Color::Rgb(255, 181, 92),
        text: Color::Black,
        muted: Color::Black,
        key: Color::Rgb(150, 150, 150),
    }
}

/// Gives the colors of the screen.
pub fn palette() -> (r: Palette)
    ensures
        r == palette_of(),
        r.accent == Color::Rgb(72, 166, 255),
        r.warm == Color::Rgb(255, 181, 92),
        r.text is Black,
        r.muted is Black,
        r.key == Color::Rgb(150, 150, 150),
{
    Palette {
        accent: Color::Rgb(72, 166, 255),
        warm: Color::Rgb(255, 181, 92),
        text: Color::Black,
        muted: Color::Black,
        key: Color::Rgb(150, 150, 150),
    }
}

/// What the screen shows.
pub struct Screen {
    pub list_title: String,
    pub search: String,
    /// The cell of the cursor.
    pub cursor: (u16, u16),
    pub rows: Vec<Line>,
    /// Which of the rows is selected.
    pub selected_row: Option<usize>,
    pub detail_title: String,
    pub detail: Vec<Line>,
    /// The first line of the description that is shown.
    pub detail_scroll: u16,
    pub help: Line,
}

/// What a screen holds.
#[verifier::ext_equal]
pub struct ScreenView {
    pub list_title: Seq<char>,
    pub search: Seq<char>,
    pub cursor: (u16, u16),
    pub rows: Seq<Seq<SpanView>>,
    pub selected_row: Option<usize>,
    pub detail_title: Seq<char>,
    pub detail: Seq<Seq<SpanView>>,
    pub detail_scroll: u16,
    pub help: Seq<SpanView>,
}

impl View for Screen {
    type V = ScreenView;

    open spec fn view(&self) -> ScreenView {
        ScreenView {
            list_title: self.list_title@,
            search: self.search@,
            cursor: self.cursor,
            rows: line_views(self.rows@),
            selected_row: self.selected_row,
            detail_title: self.detail_title@,
            detail: line_views(self.detail@),
            detail_scroll: self.detail_scroll,
            help: self.help@,
        }
    }
}

/// The cell of a cursor in the given column of the search line. It does not leave the line.
pub open spec fn cursor_cell_of(column: int, search: Area) -> (u16, u16) {
    ((search.x + least(column, search.width as int)) as u16, search.y)
}

/// Gives the cell of a cursor in the given column of the search line.
pub fn cursor_cell(column: usize, search: Area) -> (r: (u16, u16))
    requires
        search.x + search.width <= u16::MAX,
    ensures
        r == cursor_cell_of(column as int, search),
        r.0 == search.x + least(column as int, search.width as int),
        r.1 == search.y,
{
    let shift: u16 = if column <= search.width as usize {
        column as u16
    } else {
        search.width
    };
    (search.x + shift, search.y)
}

/// The lines of the description.
pub open spec fn description(s: ExplorerView) -> Seq<Seq<SpanView>> {
    let colors = palette_of();
    detail_lines(
        s.repo,
        s.selection(),
        s.error,
        s.loading && s.issues.len() == 0,
        colors.accent,
        colors.muted,
        colors.text,
    )
}

/// The explorer after it was brought in line with a screen: the selected entry is among those
/// shown, and the description is scrolled no further than its last line needs.
pub open spec fn drawn(s: ExplorerView, ui: IssueLayout) -> ExplorerView {
    let detail_height = greatest(ui.detail.height - 2, 0);
    let max_scroll = greatest(description(s).len() - detail_height, 0);
    ExplorerView {
        list_offset: window_offset(
            s.selected,
            s.list_offset,
            ui.results.height as int,
            s.filtered.len() as int,
        ),
        detail_page_step: greatest(detail_height, 1),
        detail_max_scroll: max_scroll,
        detail_scroll: least(s.detail_scroll, max_scroll),
        ..s
    }
}

/// What a screen that is laid out as given shows of the explorer.
pub open spec fn screen_of(s: ExplorerView, ui: IssueLayout) -> ScreenView {
    let colors = palette_of();
    let d = drawn(s, ui);
    ScreenView {
        list_title: list_title_of(
            s.state_filter,
            s.loading,
            s.loading_more,
            s.filtered.len(),
            s.issues.len(),
        ),
        search: s.search.text,
        cursor: cursor_cell_of(display_width(s.search.text.take(s.search.cursor)), ui.search),
        rows: list_rows(
            s.issues,
            s.filtered,
            d.list_offset,
            ui.results.height as int,
            ui.results.width as int,
            colors.text,
            colors.muted,
        ),
        selected_row: if d.selected >= d.list_offset {
            Some((d.selected - d.list_offset) as usize)
        } else {
            None
        },
        detail_title: detail_title_of(s.selection()),
        detail: description(s),
        detail_scroll: d.detail_scroll as u16,
        help: help_of(s.state_filter, colors.key, colors.text, colors.accent),
    }
}

/// The description has at most 408 lines, so how far it is scrolled can be told in sixteen bits.
pub proof fn law_description_is_short(s: ExplorerView)
    ensures
        description(s).len() <= 408,
{
}

/// Gives the lesser of two numbers.
fn smaller(a: usize, b: usize) -> (r: usize)
    ensures
        r == least(a as int, b as int),
{
    if a <= b {
        a
    } else {
        b
    }
}

/// Gives the last entry of a list of the given length.
fn last_of(length: usize) -> (r: usize)
    ensures
        r == last_entry(length as int),
{
    if length > 0 {
        length - 1
    } else {
        0
    }
}

/// Only one entry is the first that names a number, and there is one where any entry does.
proof fn lemma_entry_for(issues: Seq<IssueView>, filtered: Seq<int>, number: u64, entry: int)
    ensures
        first_entry(issues, filtered, number, entry) ==> entry_for(issues, filtered, number)
            == Some(entry),
{
    if first_entry(issues, filtered, number, entry) {
        let chosen = choose|e: int| first_entry(issues, filtered, number, e);
        assert(first_entry(issues, filtered, number, chosen));
        assert(names_number(issues, filtered, entry, number));
        assert(names_number(issues, filtered, chosen, number));
        assert(chosen == entry);
    }
}

impl Explorer {
    /// Makes an explorer of a repository, and gives the load it starts with.
    pub fn new(repo: String) -> (r: (Explorer, Action))
        ensures
            r.0@ == initial(repo@),
            r.0@.wf(),
            r.1@ == ActionView::Load(IssueStateFilter::Open, 1),
    {
        broadcast use vstd::std_specs::hash::group_hash_axioms;

        let explorer = Explorer {
            repo,
            search: SearchLine::new(),
            selected: 0,
            list_offset: 0,
            detail_scroll: 0,
            detail_max_scroll: 0,
            detail_page_step: 5,
            state_filter: IssueStateFilter::Open,
            issues: Vec::new(),
            filtered: Vec::new(),
            loading: true,
            loading_more: false,
            load_id: 1,
            error: None,
            detail_in_flight: HashSet::new(),
        };
        assert(explorer@ =~= initial(repo@));
        (explorer, Action::Load(IssueStateFilter::Open, 1))
    }

    /// Takes in issues that have come.
    pub fn on_issue_load<F: Fn(&str, &str) -> bool>(
        &mut self,
        result: IssueLoadResult,
        fuzzy_match: &F,
    )
        requires
            old(self)@.wf(),
            answers(*fuzzy_match),
        ensures
            final(self)@.wf(),
            !is_current(old(self)@, result@) ==> final(self)@ == old(self)@,
            is_current(old(self)@, result@) ==> final(self)@ == loaded_with(
                old(self)@,
                result@,
                final(self)@.filtered,
            ),
            is_current(old(self)@, result@) ==> is_answer(
                *fuzzy_match,
                final(self)@.issues,
                final(self)@.search.text,
                final(self)@.filtered,
            ),
            words(old(self)@.search.text).len() == 0 ==> forall|rule: Matcher|
                final(self)@ == #[trigger] loaded(old(self)@, result@, rule),
            forall|rule: Matcher| #[trigger]
                decides(*fuzzy_match, rule) ==> final(self)@ == loaded(old(self)@, result@, rule),
    {
        broadcast use vstd::std_specs::hash::group_hash_axioms;

        if result.state != self.state_filter || result.load_id != self.load_id {
            return;
        }
        let ghost s = self@;
        let number = match selected_issue(
            self.issues.as_slice(),
            self.filtered.as_slice(),
            self.selected,
        ) {
            Some(issue) => Some(issue.number),
            None => None,
        };
        let mut next = result.issues;
        merge_issue_details(self.issues.as_slice(), next.as_mut_slice());
        let filtered = filter_issues(next.as_slice(), self.search.text.as_str(), fuzzy_match);
        let stay = smaller(self.selected, last_of(filtered.len()));
        let selected = match number {
            Some(number) => match selected_index_for_issue_number(
                next.as_slice(),
                filtered.as_slice(),
                number,
            ) {
                Some(entry) => {
                    proof {
                        lemma_entry_for(
                            views(next@),
                            places(filtered@),
                            number,
                            entry as int,
                        );
                    }
                    entry
                },
                None => stay,
            },
            None => stay,
        };
        self.issues = next;
        self.filtered = filtered;
        self.error = result.error;
        self.selected = selected;
        if !result.done {
            self.list_offset = 0;
            self.detail_scroll = 0;
            self.detail_in_flight.clear();
        }
        self.loading = false;
        self.loading_more = !result.done;
        assert(self@ =~= loaded_with(s, result@, self@.filtered));
        assert forall|rule: Matcher| words(s.search.text).len() == 0 implies self@
            == #[trigger] loaded(s, result@, rule) by {
            law_empty_query_keeps_all(self@.issues, s.search.text, rule);
        }
        assert forall|rule: Matcher| #[trigger] decides(*fuzzy_match, rule) implies self@ == loaded(
            s,
            result@,
            rule,
        ) by {
            assert(self@ =~= loaded(s, result@, rule));
        }
    }

    /// Takes in details that have come.
    pub fn on_issue_detail(&mut self, result: IssueDetailResult)
        requires
            old(self)@.wf(),
        ensures
            final(self)@.wf(),
            final(self)@ == detailed(old(self)@, result@),
    {
        broadcast use vstd::std_specs::hash::group_hash_axioms;

        let ghost s = self@;
        proof {
            lemma_find_number(s.issues, result.number);
        }
        self.detail_in_flight.remove(&result.number);
        apply_detail(&mut self.issues, result);
        assert(self@ =~= detailed(s, result@));
    }

    /// Gives the number of the issue whose details are to be asked for, if there is one.
    pub fn next_detail(&mut self) -> (r: Option<u64>)
        requires
            old(self)@.wf(),
        ensures
            final(self)@.wf(),
            r == wanted_detail(old(self)@.selection(), old(self)@.detail_in_flight),
            final(self)@ == asked(old(self)@),
    {
        let ghost s = self@;
        let r = ensure_selected_issue_detail(
            self.issues.as_slice(),
            self.filtered.as_slice(),
            self.selected,
            &mut self.detail_in_flight,
        );
        assert(self@ =~= asked(s));
        r
    }

    /// Filters the list by the search line and goes to its start.
    fn refilter<F: Fn(&str, &str) -> bool>(&mut self, fuzzy_match: &F)
        requires
            old(self)@.wf(),
            answers(*fuzzy_match),
        ensures
            final(self)@.wf(),
            forall|rule: Matcher| #[trigger]
                decides(*fuzzy_match, rule) ==> final(self)@ == refiltered(
                    old(self)@,
                    old(self)@.search,
                    rule,
                ),
            forall|rule: Matcher|
                but_for_list(
                    final(self)@,
                    #[trigger] refiltered(old(self)@, old(self)@.search, rule),
                ),
            is_answer(
                *fuzzy_match,
                final(self)@.issues,
                final(self)@.search.text,
                final(self)@.filtered,
            ),
            words(old(self)@.search.text).len() == 0 ==> forall|rule: Matcher|
                final(self)@ == #[trigger] refiltered(old(self)@, old(self)@.search, rule),
    {
        let ghost s = self@;
        self.filtered = filter_issues(
            self.issues.as_slice(),
            self.search.text.as_str(),
            fuzzy_match,
        );
        self.selected = 0;
        self.list_offset = 0;
        assert forall|rule: Matcher| #[trigger] decides(*fuzzy_match, rule) implies self@
            == refiltered(s, s.search, rule) by {
            assert(self@ =~= refiltered(s, s.search, rule));
        }
        assert forall|rule: Matcher| words(s.search.text).len() == 0 implies self@
            == #[trigger] refiltered(s, s.search, rule) by {
            law_empty_query_keeps_all(s.issues, s.search.text, rule);
        }
    }

    /// Takes in the line that a key made of the search line. A new text filters the list anew; a
    /// cursor that only moved does not.
    pub fn set_search<F: Fn(&str, &str) -> bool>(&mut self, search: SearchLine, fuzzy_match: &F)
        requires
            old(self)@.wf(),
            search@.wf(),
            answers(*fuzzy_match),
        ensures
            final(self)@.wf(),
            search@.text == old(self)@.search.text ==> final(self)@ == (ExplorerView {
                search: search@,
                ..old(self)@
            }),
            forall|rule: Matcher|
                but_for_list(final(self)@, #[trigger] edited(old(self)@, search@, rule)),
            search@.text != old(self)@.search.text ==> is_answer(
                *fuzzy_match,
                final(self)@.issues,
                final(self)@.search.text,
                final(self)@.filtered,
            ),
            words(search@.text).len() == 0 ==> forall|rule: Matcher|
                final(self)@ == #[trigger] edited(old(self)@, search@, rule),
            forall|rule: Matcher| #[trigger]
                decides(*fuzzy_match, rule) ==> final(self)@ == edited(old(self)@, search@, rule),
    {
        let ghost s = self@;
        let same = search.text == self.search.text;
        self.search = search;
        let ghost held = self@;
        if !same {
            self.refilter(fuzzy_match);
            let ghost filtered = self@;
            self.detail_scroll = 0;
            assert forall|rule: Matcher| but_for_list(
                self@,
                #[trigger] edited(s, search@, rule),
            ) by {
                assert(but_for_list(filtered, refiltered(held, held.search, rule)));
                assert(self@ =~= (ExplorerView {
                    filtered: self@.filtered,
                    ..edited(s, search@, rule)
                }));
            }
            assert forall|rule: Matcher| words(search@.text).len() == 0 implies self@
                == #[trigger] edited(s, search@, rule) by {
                assert(filtered == refiltered(held, held.search, rule));
            }
        }
        assert forall|rule: Matcher| #[trigger] decides(*fuzzy_match, rule) implies self@ == edited(
            s,
            search@,
            rule,
        ) by {
            assert(self@ =~= edited(s, search@, rule));
        }
    }

    /// Starts a load that replaces the last one.
    fn load_anew(&mut self) -> (r: Action)
        requires
            old(self)@.wf(),
        ensures
            final(self)@.wf(),
            final(self)@ == refreshed(old(self)@),
            r@ == ActionView::Load(old(self)@.state_filter, next_load(old(self)@.load_id)),
    {
        broadcast use vstd::std_specs::hash::group_hash_axioms;

        let ghost s = self@;
        self.loading = true;
        self.loading_more = false;
        self.error = None;
        self.detail_in_flight.clear();
        self.load_id = self.load_id.saturating_add(1);
        assert(self@ =~= refreshed(s));
        Action::Load(self.state_filter, self.load_id)
    }

    /// Goes on to the next filter.
    fn switch_filter(&mut self) -> (r: Action)
        requires
            old(self)@.wf(),
        ensures
            final(self)@.wf(),
            final(self)@ == switched(old(self)@),
            r@ == ActionView::Load(old(self)@.state_filter.after(), next_load(old(self)@.load_id)),
    {
        let ghost s = self@;
        self.state_filter = self.state_filter.next();
        self.selected = 0;
        self.list_offset = 0;
        self.detail_scroll = 0;
        self.issues = Vec::new();
        self.filtered = Vec::new();
        let r = self.load_anew();
        assert(self@ =~= switched(s));
        r
    }

    /// Selects the entry before the selected one.
    fn move_up(&mut self)
        requires
            old(self)@.wf(),
        ensures
            final(self)@.wf(),
            final(self)@ == moved_up(old(self)@),
    {
        if self.selected > 0 {
            self.selected = self.selected - 1;
        }
    }

    /// Selects the entry behind the selected one.
    fn move_down(&mut self)
        requires
            old(self)@.wf(),
        ensures
            final(self)@.wf(),
            final(self)@ == moved_down(old(self)@),
    {
        if self.selected < last_of(self.filtered.len()) {
            self.selected = self.selected + 1;
        }
    }

    /// Scrolls the description towards its start.
    fn scroll_up(&mut self, lines: usize)
        requires
            old(self)@.wf(),
        ensures
            final(self)@.wf(),
            final(self)@ == scrolled(old(self)@, -(lines as int)),
    {
        self.detail_scroll = self.detail_scroll.saturating_sub(lines);
    }

    /// Scrolls the description towards its end.
    fn scroll_down(&mut self, lines: usize)
        requires
            old(self)@.wf(),
        ensures
            final(self)@.wf(),
            final(self)@ == scrolled(old(self)@, lines as int),
    {
        self.detail_scroll = smaller(
            self.detail_scroll.saturating_add(lines),
            self.detail_max_scroll,
        );
    }

    /// Gives the address of the selected issue.
    fn selected_url(&self) -> (r: Option<String>)
        requires
            self@.wf(),
        ensures
            r is Some == self@.selection() is Some,
            r matches Some(url) ==> url@ == self@.selection()->0.url,
    {
        match selected_issue(self.issues.as_slice(), self.filtered.as_slice(), self.selected) {
            Some(issue) => Some(issue.url.clone()),
            None => None,
        }
    }

    /// Takes in a key that the search line or a control command may get.
    fn on_text_key<F: Fn(&str, &str) -> bool>(
        &mut self,
        text_key: TextKey,
        key: KeyPress,
        fuzzy_match: &F,
    ) -> (r: Action)
        requires
            old(self)@.wf(),
            key.code == KeyName::Text(text_key),
            answers(*fuzzy_match),
        ensures
            final(self)@.wf(),
            r@ == key_action(old(self)@, key),
            forall|rule: Matcher|
                but_for_list(final(self)@, #[trigger] after_key(old(self)@, key, rule)),
            asks(old(self)@, key) ==> is_answer(
                *fuzzy_match,
                final(self)@.issues,
                final(self)@.search.text,
                final(self)@.filtered,
            ),
            !asks(old(self)@, key) ==> forall|rule: Matcher|
                final(self)@ == #[trigger] after_key(old(self)@, key, rule),
            forall|rule: Matcher| #[trigger]
                decides(*fuzzy_match, rule) ==> final(self)@ == after_key(old(self)@, key, rule),
            forall|rule: Matcher, c: char|
                #![trigger decides(*fuzzy_match, rule), typed(old(self)@, c, rule)]
                decides(*fuzzy_match, rule) && types(key, c) ==> final(self)@ == typed(
                    old(self)@,
                    c,
                    rule,
                ),
            moves_cursor(key) ==> final(self)@ == (ExplorerView {
                search: LineView { cursor: final(self)@.search.cursor, ..old(self)@.search },
                ..old(self)@
            }),
    {
        let control = key.control();
        assert(0u8 & 2 == 0 && 1u8 & 2 == 0) by (bit_vector);
        let ghost before = self@;
        match text_key {
            TextKey::Char('c') if control => Action::Quit,
            TextKey::Char('y') if control => match self.selected_url() {
                Some(url) => Action::Copy(url),
                None => Action::Continue,
            },
            TextKey::Char('r') if !control => self.load_anew(),
            TextKey::Home if control => {
                self.detail_scroll = 0;
                Action::Continue
            },
            TextKey::End if control => {
                self.detail_scroll = self.detail_max_scroll;
                Action::Continue
            },
            TextKey::Char('u') if control => {
                let ghost s = self@;
                self.search.delete_line();
                let ghost held = self@;
                self.refilter(fuzzy_match);
                assert forall|rule: Matcher| self@ == #[trigger] after_key(s, key, rule) by {
                    assert(self@ == refiltered(held, held.search, rule));
                }
                Action::Continue
            },
            _ => {
                let mut search = SearchLine {
                    text: self.search.text.clone(),
                    cursor: self.search.cursor,
                };
                search.press(text_key, key.modifiers, key.kind);
                self.set_search(search, fuzzy_match);
                assert forall|rule: Matcher, c: char|
                    #![trigger decides(*fuzzy_match, rule), typed(before, c, rule)]
                    decides(*fuzzy_match, rule) && types(key, c) implies self@ == typed(
                    before,
                    c,
                    rule,
                ) by {
                    assert(search@.text.len() == before.search.text.len() + 1);
                    assert(self@ == edited(before, search@, rule));
                }
                Action::Continue
            },
        }
    }

    /// Takes in a key.
    pub fn on_key<F: Fn(&str, &str) -> bool>(&mut self, key: KeyPress, fuzzy_match: &F) -> (r:
        Action)
        requires
            old(self)@.wf(),
            answers(*fuzzy_match),
        ensures
            final(self)@.wf(),
            r@ == key_action(old(self)@, key),
            forall|rule: Matcher|
                but_for_list(final(self)@, #[trigger] after_key(old(self)@, key, rule)),
            asks(old(self)@, key) ==> is_answer(
                *fuzzy_match,
                final(self)@.issues,
                final(self)@.search.text,
                final(self)@.filtered,
            ),
            !asks(old(self)@, key) ==> forall|rule: Matcher|
                final(self)@ == #[trigger] after_key(old(self)@, key, rule),
            forall|rule: Matcher| #[trigger]
                decides(*fuzzy_match, rule) ==> final(self)@ == after_key(old(self)@, key, rule),
            forall|rule: Matcher, c: char|
                #![trigger decides(*fuzzy_match, rule), typed(old(self)@, c, rule)]
                decides(*fuzzy_match, rule) && types(key, c) ==> final(self)@ == typed(
                    old(self)@,
                    c,
                    rule,
                ),
            moves_cursor(key) ==> final(self)@ == (ExplorerView {
                search: LineView { cursor: final(self)@.search.cursor, ..old(self)@.search },
                ..old(self)@
            }),
    {
        match key.code {
            KeyName::Esc => Action::Quit,
            KeyName::Enter => match self.selected_url() {
                Some(url) => Action::Choose(url),
                None => Action::Continue,
            },
            KeyName::Tab => self.switch_filter(),
            KeyName::Up => {
                self.move_up();
                Action::Continue
            },
            KeyName::Down => {
                self.move_down();
                Action::Continue
            },
            KeyName::PageUp => {
                self.scroll_up(self.detail_page_step);
                Action::Continue
            },
            KeyName::PageDown => {
                self.scroll_down(self.detail_page_step);
                Action::Continue
            },
            KeyName::Text(text_key) => self.on_text_key(text_key, key, fuzzy_match),
        }
    }

    /// Takes in a pasted text.
    pub fn on_paste<F: Fn(&str, &str) -> bool>(&mut self, value: &str, fuzzy_match: &F)
        requires
            old(self)@.wf(),
            answers(*fuzzy_match),
        ensures
            final(self)@.wf(),
            forall|rule: Matcher|
                but_for_list(final(self)@, #[trigger] after_paste(old(self)@, value@, rule)),
            is_answer(
                *fuzzy_match,
                final(self)@.issues,
                final(self)@.search.text,
                final(self)@.filtered,
            ),
            words(insert_at(old(self)@.search, pasted(value@)).text).len() == 0
                ==> forall|rule: Matcher|
                final(self)@ == #[trigger] after_paste(old(self)@, value@, rule),
            forall|rule: Matcher| #[trigger]
                decides(*fuzzy_match, rule) ==> final(self)@ == after_paste(
                    old(self)@,
                    value@,
                    rule,
                ),
    {
        let ghost s = self@;
        insert_paste(&mut self.search, value);
        let ghost held = self@;
        self.refilter(fuzzy_match);
        let ghost filtered = self@;
        self.detail_scroll = 0;
        assert forall|rule: Matcher| but_for_list(
            self@,
            #[trigger] after_paste(s, value@, rule),
        ) by {
            assert(but_for_list(filtered, refiltered(held, held.search, rule)));
            assert(self@ =~= (ExplorerView {
                filtered: self@.filtered,
                ..after_paste(s, value@, rule)
            }));
        }
        assert forall|rule: Matcher| words(held.search.text).len() == 0 implies self@
            == #[trigger] after_paste(s, value@, rule) by {
            assert(filtered == refiltered(held, held.search, rule));
        }
        assert forall|rule: Matcher| #[trigger] decides(*fuzzy_match, rule) implies self@
            == after_paste(s, value@, rule) by {
            assert(self@ =~= after_paste(s, value@, rule));
        }
    }

    /// Takes in a mouse event, on a screen that is laid out as given.
    pub fn on_mouse(&mut self, ui: &IssueLayout, mouse: Mouse)
        requires
            old(self)@.wf(),
        ensures
            final(self)@.wf(),
            final(self)@ == after_mouse(old(self)@, *ui, mouse),
    {
        let on_detail = rect_contains(ui.detail, mouse.column, mouse.row);
        let on_results = rect_contains(ui.results, mouse.column, mouse.row);
        match mouse.kind {
            MouseKind::LeftDown => {
                if on_results {
                    let row: usize = (mouse.row - ui.results.y) as usize;
                    self.selected = smaller(
                        self.list_offset.saturating_add(row),
                        last_of(self.filtered.len()),
                    );
                }
            },
            MouseKind::ScrollUp => {
                if on_detail {
                    self.scroll_up(1);
                } else if on_results {
                    self.move_up();
                }
            },
            MouseKind::ScrollDown => {
                if on_detail {
                    self.scroll_down(1);
                } else if on_results {
                    self.move_down();
                }
            },
            MouseKind::Other => {},
        }
    }

    /// Takes in an event, on a screen that is laid out as given.
    pub fn on_event<F: Fn(&str, &str) -> bool>(
        &mut self,
        ui: &IssueLayout,
        event: UiEvent,
        fuzzy_match: &F,
    ) -> (r: Action)
        requires
            old(self)@.wf(),
            answers(*fuzzy_match),
        ensures
            final(self)@.wf(),
            r@ == event_action(old(self)@, event),
            forall|rule: Matcher|
                but_for_list(final(self)@, #[trigger] after_event(old(self)@, *ui, event, rule)),
            event_asks(old(self)@, event) ==> is_answer(
                *fuzzy_match,
                final(self)@.issues,
                final(self)@.search.text,
                final(self)@.filtered,
            ),
            !event_asks(old(self)@, event) ==> forall|rule: Matcher|
                final(self)@ == #[trigger] after_event(old(self)@, *ui, event, rule),
            forall|rule: Matcher| #[trigger]
                decides(*fuzzy_match, rule) ==> final(self)@ == after_event(
                    old(self)@,
                    *ui,
                    event,
                    rule,
                ),
    {
        match event {
            UiEvent::Key(key) => self.on_key(key, fuzzy_match),
            UiEvent::Paste(value) => {
                self.on_paste(value.as_str(), fuzzy_match);
                Action::Continue
            },
            UiEvent::Mouse(mouse) => {
                self.on_mouse(ui, mouse);
                Action::Continue
            },
            UiEvent::Other => Action::Continue,
        }
    }

    /// Brings the list and the description in line with a screen that is laid out as given, and
    /// gives what the screen shows.
    pub fn draw(&mut self, ui: &IssueLayout) -> (r: Screen)
        requires
            old(self)@.wf(),
            ui.search.x + ui.search.width <= u16::MAX,
        ensures
            final(self)@.wf(),
            final(self)@ == drawn(old(self)@, *ui),
            r@ == screen_of(old(self)@, *ui),
    {
        let ghost s = self@;
        let colors = palette();
        let list_height = ui.results.height as usize;
        self.list_offset = list_window_offset(
            self.selected,
            self.list_offset,
            list_height,
            self.filtered.len(),
        );
        let rows = issue_list_items(
            self.issues.as_slice(),
            self.filtered.as_slice(),
            self.list_offset,
            list_height,
            ui.results.width as usize,
            colors.text,
            colors.muted,
        );
        let selected = selected_issue(
            self.issues.as_slice(),
            self.filtered.as_slice(),
            self.selected,
        );
        let detail = issue_detail_text(
            self.repo.as_str(),
            selected,
            match &self.error {
                Some(error) => Some(error.as_str()),
                None => None,
            },
            self.loading && self.issues.len() == 0,
            colors.accent,
            colors.muted,
            colors.text,
        );
        let title = detail_title(selected);
        let detail_height = ui.detail.height.saturating_sub(2) as usize;
        self.detail_page_step = if detail_height > 1 {
            detail_height
        } else {
            1
        };
        self.detail_max_scroll = text_line_count(&detail).saturating_sub(detail_height);
        self.detail_scroll = smaller(self.detail_scroll, self.detail_max_scroll);
        proof {
            law_description_is_short(s);
            assert(self@ =~= drawn(s, *ui));
        }
        let screen = Screen {
            list_title: list_title(
                self.state_filter,
                self.loading,
                self.loading_more,
                self.filtered.len(),
                self.issues.len(),
            ),
            search: self.search.text.clone(),
            cursor: cursor_cell(self.search.column(), ui.search),
            rows,
            selected_row: if self.selected >= self.list_offset {
                Some(self.selected - self.list_offset)
            } else {
                None
            },
            detail_title: title,
            detail,
            detail_scroll: self.detail_scroll as u16,
            help: issue_help_line(self.state_filter, colors.key, colors.text, colors.accent),
        };
        assert(screen@ =~= screen_of(s, *ui));
        screen
    }
}

/// What is seen of the explorer is all that it holds.
pub proof fn law_view_shows_explorer(e: Explorer, k: int)
    ensures
        e@.repo == e.repo@,
        e@.search == e.search@,
        e@.selected == e.selected,
        e@.list_offset == e.list_offset,
        e@.detail_scroll == e.detail_scroll,
        e@.detail_max_scroll == e.detail_max_scroll,
        e@.detail_page_step == e.detail_page_step,
        e@.state_filter == e.state_filter,
        e@.issues.len() == e.issues@.len(),
        0 <= k < e.issues@.len() ==> e@.issues[k] == e.issues@[k]@,
        e@.filtered.len() == e.filtered@.len(),
        0 <= k < e.filtered@.len() ==> e@.filtered[k] == e.filtered@[k],
        e@.loading == e.loading,
        e@.loading_more == e.loading_more,
        e@.load_id == e.load_id,
        e@.error is Some == e.error is Some,
        e.error is Some ==> e@.error->0 == e.error->0@,
        e@.detail_in_flight == e.detail_in_flight@,
{
}

/// What is seen of a screen is all that it holds.
pub proof fn law_view_shows_screen(screen: Screen, k: int)
    ensures
        screen@.list_title == screen.list_title@,
        screen@.search == screen.search@,
        screen@.cursor == screen.cursor,
        screen@.rows.len() == screen.rows@.len(),
        0 <= k < screen.rows@.len() ==> screen@.rows[k] == screen.rows@[k]@,
        screen@.selected_row == screen.selected_row,
        screen@.detail_title == screen.detail_title@,
        screen@.detail.len() == screen.detail@.len(),
        0 <= k < screen.detail@.len() ==> screen@.detail[k] == screen.detail@[k]@,
        screen@.detail_scroll == screen.detail_scroll,
        screen@.help == screen.help@,
{
}

/// What is seen of an action is what it asks for.
pub proof fn law_view_shows_action(url: String, state: IssueStateFilter, load_id: u64)
    ensures
        Action::Continue@ is Continue,
        Action::Quit@ is Quit,
        Action::Choose(url)@ == ActionView::Choose(url@),
        Action::Copy(url)@ == ActionView::Copy(url@),
        Action::Load(state, load_id)@ == ActionView::Load(state, load_id),
{
}

} // verus!
