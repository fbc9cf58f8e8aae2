//! What holds of the explorer, whatever happens to it.

use crate::chars::{decimal, lemma_find, lines, words};
use crate::details::{
    first_entry, law_reload_keeps_new_issues, lemma_find_number, merged, names_number, with_detail,
};
use crate::explorer::{
    after_event, after_key, after_mouse, asked, description, detailed, drawn, event_action, initial,
    is_current, is_letter, key_action, last_entry, law_description_is_short, loaded, moved_down,
    moved_up, palette_of, refreshed, screen_of, switched, typed, ActionView, ExplorerView, Mouse,
    MouseKind, UiEvent,
};
use crate::filter::{kept, law_empty_query_keeps_all, law_kept_are_the_matching, Matcher};
use crate::layout::{
    distance, law_selected_entry_is_shown, law_window_is_full, law_window_moves_least,
    law_window_rests, least, window_offset, Area, IssueLayout,
};
use crate::load::{DetailView, LoadView};
use crate::model::IssueView;
use crate::screen::{
    detail_lines, has_ink, help_of, is_line, law_description_body, law_description_head,
    law_list_shows_entries, lemma_rows, row_of, Color, Style,
};
use crate::search::{
    display_width, key_edit, law_inserting, pasted, KeyName, KeyPress, TextKey,
};
use vstd::prelude::*;

verus! {

/// Whether the list holds exactly the issues that the search line asks for.
pub open spec fn is_fresh(s: ExplorerView, rule: Matcher) -> bool {
    s.filtered == kept(s.issues, s.search.text, rule)
}

/// The list holds exactly the issues that the search line asks for: at the start, and still after
/// every load, after every event, after drawing, and after asking for details.
pub proof fn law_list_holds_the_matching(
    s: ExplorerView,
    repo: Seq<char>,
    load: LoadView,
    ui: IssueLayout,
    event: UiEvent,
    rule: Matcher,
)
    requires
        is_fresh(s, rule),
    ensures
        is_fresh(initial(repo), rule),
        is_fresh(loaded(s, load, rule), rule),
        is_fresh(after_event(s, ui, event, rule), rule),
        is_fresh(drawn(s, ui), rule),
        is_fresh(asked(s), rule),
{
}

/// Details that come for an issue do not change which issues are listed. Where nothing is searched
/// for, these are still the matching ones.
pub proof fn law_details_leave_the_list(s: ExplorerView, result: DetailView, rule: Matcher)
    ensures
        detailed(s, result).filtered == s.filtered,
        detailed(s, result).selected == s.selected,
        is_fresh(s, rule) && words(s.search.text).len() == 0 ==> is_fresh(
            detailed(s, result),
            rule,
        ),
{
    lemma_find_number(s.issues, result.number);
    if words(s.search.text).len() == 0 {
        law_empty_query_keeps_all(s.issues, s.search.text, rule);
        law_empty_query_keeps_all(detailed(s, result).issues, s.search.text, rule);
    }
}

/// When another load is started, what the earlier loads still bring changes nothing.
pub proof fn law_old_loads_are_dropped(s: ExplorerView, result: LoadView, rule: Matcher)
    requires
        result.load_id <= s.load_id,
        s.load_id < u64::MAX,
    ensures
        loaded(switched(s), result, rule) == switched(s),
        loaded(refreshed(s), result, rule) == refreshed(s),
{
}

/// A load keeps the selected issue selected, as long as it is still listed.
pub proof fn law_selection_follows_the_issue(
    s: ExplorerView,
    result: LoadView,
    rule: Matcher,
    entry: int,
)
    requires
        s.selection() is Some,
        is_current(s, result),
        names_number(
            loaded(s, result, rule).issues,
            loaded(s, result, rule).filtered,
            entry,
            s.selection()->0.number,
        ),
    ensures
        loaded(s, result, rule).selection() is Some,
        loaded(s, result, rule).selection()->0.number == s.selection()->0.number,
{
    let issues = merged(s.issues, result.issues);
    let filtered = kept(issues, s.search.text, rule);
    let number = s.selection()->0.number;
    lemma_first_entry(issues, filtered, number, entry);
    let first = choose|e: int| first_entry(issues, filtered, number, e);
    assert(first_entry(issues, filtered, number, first));
}

/// Where an entry names a number, there is a first one that does.
proof fn lemma_first_entry(issues: Seq<IssueView>, filtered: Seq<int>, number: u64, entry: int)
    requires
        names_number(issues, filtered, entry, number),
    ensures
        exists|e: int| first_entry(issues, filtered, number, e),
    decreases entry,
{
    if exists|j: int| 0 <= j < entry && names_number(issues, filtered, j, number) {
        let j = choose|j: int| 0 <= j < entry && names_number(issues, filtered, j, number);
        lemma_first_entry(issues, filtered, number, j);
    } else {
        assert(first_entry(issues, filtered, number, entry));
    }
}

/// Moving up undoes moving down, and moving down undoes moving up, but at the end of the list where
/// there is nothing to undo.
pub proof fn law_moves_undo_each_other(s: ExplorerView)
    requires
        s.wf(),
    ensures
        s.selected < last_entry(s.filtered.len() as int) ==> moved_up(moved_down(s)) == s,
        s.selected > 0 ==> moved_down(moved_up(s)) == s,
        s.selected == last_entry(s.filtered.len() as int) ==> moved_down(s) == s,
        s.selected == 0 ==> moved_up(s) == s,
{
}

/// No key but the one for the next filter touches the issues, no key touches the repository, and
/// the number of the load never goes back.
pub proof fn law_keys_keep_the_issues(s: ExplorerView, key: KeyPress, rule: Matcher)
    ensures
        key.code !is Tab ==> after_key(s, key, rule).issues == s.issues,
        key.code is Tab ==> after_key(s, key, rule).issues.len() == 0,
        after_key(s, key, rule).repo == s.repo,
        after_key(s, key, rule).load_id >= s.load_id,
{
}

/// Only escape and the control key with `c` leave without a choice, and an address that is chosen or
/// copied is that of the selected issue.
pub proof fn law_leaving(s: ExplorerView, key: KeyPress)
    ensures
        key_action(s, key) is Quit <==> key.code is Esc || key.with_control() && is_letter(key, 'c'),
        key_action(s, key) is Choose <==> key.code is Enter && s.selection() is Some,
        key_action(s, key) matches ActionView::Choose(url) ==> url == s.selection()->0.url,
        key_action(s, key) matches ActionView::Copy(url) ==> s.selection() is Some && url
            == s.selection()->0.url,
{
}

/// The explorer asks for a load exactly when it starts to wait for one, and for the load it waits
/// for.
pub proof fn law_load_is_asked_for(s: ExplorerView, key: KeyPress, rule: Matcher)
    ensures
        match key_action(s, key) {
            ActionView::Load(state, load_id) => {
                let after = after_key(s, key, rule);
                after.loading && after.state_filter == state && after.load_id == load_id
            },
            _ => {
                let after = after_key(s, key, rule);
                after.loading == s.loading && after.state_filter == s.state_filter && after.load_id
                    == s.load_id
            },
        },
{
}

/// Drawing twice is drawing once: what is shown does not move by itself.
pub proof fn law_drawing_rests(s: ExplorerView, ui: IssueLayout)
    requires
        s.wf(),
    ensures
        drawn(drawn(s, ui), ui) == drawn(s, ui),
        screen_of(drawn(s, ui), ui) == screen_of(s, ui),
{
    let d = drawn(s, ui);
    if s.filtered.len() > 0 && ui.results.height > 0 {
        law_window_rests(
            s.selected,
            s.list_offset,
            ui.results.height as int,
            s.filtered.len() as int,
        );
    }
    assert(description(d) == description(s));
    assert(drawn(d, ui) =~= d);
}

/// The selected issue is on the screen: one of the rows is marked, and it is the row of that issue.
pub proof fn law_selected_issue_is_shown(s: ExplorerView, ui: IssueLayout)
    requires
        s.wf(),
        s.filtered.len() > 0,
        s.filtered.len() <= usize::MAX,
        ui.results.height > 0,
    ensures
        s.selection() is Some,
        screen_of(s, ui).selected_row matches Some(k) && k < ui.results.height && k
            < screen_of(s, ui).rows.len() && screen_of(s, ui).rows[k as int] == row_of(
            s.selection()->0,
            ui.results.width as int,
            palette_of().text,
            palette_of().muted,
        ),
{
    let height = ui.results.height as int;
    let total = s.filtered.len() as int;
    law_selected_entry_is_shown(s.selected, s.list_offset, height, total);
    law_window_is_full(s.selected, s.list_offset, height, total);
    let offset = window_offset(s.selected, s.list_offset, height, total);
    let shown = s.filtered.subrange(offset, least(offset + height, total));
    assert forall|i: int| 0 <= i < shown.len() implies 0 <= #[trigger] shown[i]
        < s.issues.len() by {
        assert(shown[i] == s.filtered[offset + i]);
    }
    lemma_rows(
        s.issues,
        shown,
        ui.results.width as int,
        palette_of().text,
        palette_of().muted,
    );
    assert(shown[s.selected - offset] == s.filtered[s.selected]);
}

/// Nothing is there at the start: no issue, no search text, no error. The open issues are being
/// loaded.
pub proof fn law_start(repo: Seq<char>)
    ensures
        initial(repo).repo == repo,
        initial(repo).search.text.len() == 0,
        initial(repo).search.cursor == 0,
        initial(repo).issues.len() == 0,
        initial(repo).filtered.len() == 0,
        initial(repo).selected == 0,
        initial(repo).list_offset == 0,
        initial(repo).detail_scroll == 0,
        initial(repo).detail_max_scroll == 0,
        initial(repo).detail_page_step == 5,
        initial(repo).state_filter is Open,
        initial(repo).loading,
        !initial(repo).loading_more,
        initial(repo).load_id == 1,
        initial(repo).error is None,
        forall|number: u64| !#[trigger] initial(repo).detail_in_flight.contains(number),
{
}

/// A load is taken in exactly where it is the last one that was started: its number and its filter
/// are those of the explorer. Any other one changes nothing.
pub proof fn law_other_loads_change_nothing(s: ExplorerView, result: LoadView, rule: Matcher)
    requires
        result.load_id != s.load_id || result.state != s.state_filter,
    ensures
        loaded(s, result, rule) == s,
{
}

/// When issues of the last load come, the explorer holds exactly these, in their order, as they came
/// but for details that it has already; and it lists those that match its search text. What else
/// there is stays, but for what belongs to the load.
pub proof fn law_load_is_taken_in(s: ExplorerView, result: LoadView, rule: Matcher, place: int)
    requires
        result.load_id == s.load_id,
        result.state == s.state_filter,
    ensures
        ({
            let after = loaded(s, result, rule);
            &&& after.issues == merged(s.issues, result.issues)
            &&& after.issues.len() == result.issues.len()
            &&& 0 <= place < result.issues.len() ==> {
                let came = result.issues[place];
                let held = after.issues[place];
                &&& held.number == came.number && held.title == came.title
                &&& held.state == came.state && held.author == came.author
                &&& held.labels == came.labels && held.assignees == came.assignees
                &&& held.created_at == came.created_at && held.updated_at == came.updated_at
                &&& held.url == came.url
            }
            &&& after.filtered == kept(after.issues, s.search.text, rule)
            &&& after.error == result.error
            &&& !after.loading
            &&& after.loading_more == !result.done
            &&& after.repo == s.repo && after.search == s.search
            &&& after.state_filter == s.state_filter && after.load_id == s.load_id
            &&& after.detail_max_scroll == s.detail_max_scroll
            &&& after.detail_page_step == s.detail_page_step
        }),
{
    if 0 <= place < result.issues.len() {
        law_reload_keeps_new_issues(s.issues, result.issues, place);
    }
}

/// A stage that is not the last one takes the list and the description back to their starts, and
/// forgets which details are under way; the last one leaves them.
pub proof fn law_first_stage_starts_over(s: ExplorerView, result: LoadView, rule: Matcher)
    requires
        result.load_id == s.load_id,
        result.state == s.state_filter,
    ensures
        ({
            let after = loaded(s, result, rule);
            &&& result.done ==> after.list_offset == s.list_offset && after.detail_scroll
                == s.detail_scroll && after.detail_in_flight == s.detail_in_flight
            &&& !result.done ==> after.list_offset == 0 && after.detail_scroll == 0 && forall|
                number: u64,
            | !#[trigger] after.detail_in_flight.contains(number)
        }),
{
}

/// Where a load brings the selected issue again and it is listed, its first entry is selected.
pub proof fn law_load_selects_same_issue(
    s: ExplorerView,
    result: LoadView,
    rule: Matcher,
    entry: int,
)
    requires
        s.wf(),
        s.filtered.len() > 0,
        result.load_id == s.load_id,
        result.state == s.state_filter,
        0 <= entry < loaded(s, result, rule).filtered.len(),
        loaded(s, result, rule).issues[loaded(s, result, rule).filtered[entry]].number
            == s.issues[s.filtered[s.selected]].number,
    ensures
        ({
            let after = loaded(s, result, rule);
            let number = s.issues[s.filtered[s.selected]].number;
            &&& 0 <= after.selected <= entry
            &&& after.issues[after.filtered[after.selected]].number == number
            &&& forall|j: int|
                0 <= j < after.selected ==> after.issues[#[trigger] after.filtered[j]].number
                    != number
        }),
{
    let after = loaded(s, result, rule);
    let number = s.issues[s.filtered[s.selected]].number;
    law_kept_are_the_matching(after.issues, s.search.text, rule, 0);
    assert(0 <= after.filtered[entry] < after.issues.len());
    assert(names_number(after.issues, after.filtered, entry, number));
    lemma_first_entry(after.issues, after.filtered, number, entry);
    let first = choose|e: int| first_entry(after.issues, after.filtered, number, e);
    assert(first_entry(after.issues, after.filtered, number, first));
    assert(after.selected == first);
    assert forall|j: int| 0 <= j < after.selected implies after.issues[
        #[trigger] after.filtered[j]
    ].number != number by {
        assert(!names_number(after.issues, after.filtered, j, number));
    }
}

/// Where a load does not bring the selected issue again, or there was none, the entry at the same
/// place is selected, or the last one where the list is shorter.
pub proof fn law_load_without_selected_issue(s: ExplorerView, result: LoadView, rule: Matcher)
    requires
        s.wf(),
        result.load_id == s.load_id,
        result.state == s.state_filter,
        s.filtered.len() == 0 || forall|j: int|
            0 <= j < loaded(s, result, rule).filtered.len() ==> loaded(s, result, rule).issues[
                #[trigger] loaded(s, result, rule).filtered[j]
            ].number != s.issues[s.filtered[s.selected]].number,
    ensures
        ({
            let after = loaded(s, result, rule);
            &&& s.selected < after.filtered.len() ==> after.selected == s.selected
            &&& s.selected >= after.filtered.len() && after.filtered.len() > 0 ==> after.selected
                == after.filtered.len() - 1
            &&& after.filtered.len() == 0 ==> after.selected == 0
        }),
{
    let after = loaded(s, result, rule);
    if s.filtered.len() > 0 {
        let number = s.issues[s.filtered[s.selected]].number;
        assert forall|j: int| !names_number(after.issues, after.filtered, j, number) by {
            if names_number(after.issues, after.filtered, j, number) {
                assert(after.issues[after.filtered[j]].number == number);
            }
        }
    }
}

/// Details that come are no longer under way, and change nothing but the issues.
pub proof fn law_details_are_taken_in(s: ExplorerView, result: DetailView, number: u64)
    ensures
        ({
            let after = detailed(s, result);
            &&& after.issues == with_detail(s.issues, result)
            &&& after.detail_in_flight.contains(number) <==> s.detail_in_flight.contains(number)
                && number != result.number
            &&& after == (ExplorerView {
                issues: after.issues,
                detail_in_flight: after.detail_in_flight,
                ..s
            })
        }),
{
}

/// Details that are asked for are those of the selected issue, and are under way from then on.
/// Nothing else changes.
pub proof fn law_asking_for_details(s: ExplorerView, number: u64)
    requires
        s.wf(),
        s.filtered.len() > 0,
    ensures
        ({
            let after = asked(s);
            let issue = s.issues[s.filtered[s.selected]];
            &&& after.detail_in_flight.contains(number) <==> s.detail_in_flight.contains(number) || (
            number == issue.number && !issue.detail_loaded)
            &&& after == (ExplorerView { detail_in_flight: after.detail_in_flight, ..s })
        }),
{
}

/// Without a selected issue no details are asked for.
pub proof fn law_no_details_of_nothing(s: ExplorerView)
    requires
        s.wf(),
        s.filtered.len() == 0,
    ensures
        asked(s) == s,
{
}

/// The arrow keys select the entry before or behind the selected one, and stay at the ends. Nothing
/// else changes.
pub proof fn law_arrow_keys(s: ExplorerView, key: KeyPress, rule: Matcher)
    requires
        s.wf(),
    ensures
        ({
            let after = after_key(s, key, rule);
            &&& key.code is Up || key.code is Down ==> after == (ExplorerView {
                selected: after.selected,
                ..s
            })
            &&& key.code is Up && s.selected > 0 ==> after.selected == s.selected - 1
            &&& key.code is Up && s.selected == 0 ==> after.selected == 0
            &&& key.code is Down && s.selected + 1 < s.filtered.len() ==> after.selected
                == s.selected + 1
            &&& key.code is Down && s.selected + 1 >= s.filtered.len() ==> after.selected
                == s.selected
        }),
{
}

/// The page keys scroll the description by a page, and no further than it goes; with the control key,
/// the outer keys lead to its ends. Nothing else changes.
pub proof fn law_page_keys(s: ExplorerView, key: KeyPress, rule: Matcher)
    requires
        s.wf(),
    ensures
        ({
            let after = after_key(s, key, rule);
            let home = key.with_control() && key.code == KeyName::Text(TextKey::Home);
            let end = key.with_control() && key.code == KeyName::Text(TextKey::End);
            let up = s.detail_scroll - s.detail_page_step;
            let down = s.detail_scroll + s.detail_page_step;
            &&& key.code is PageUp || key.code is PageDown || home || end ==> after == (
            ExplorerView { detail_scroll: after.detail_scroll, ..s })
            &&& key.code is PageUp && up >= 0 ==> after.detail_scroll == up
            &&& key.code is PageUp && up < 0 ==> after.detail_scroll == 0
            &&& key.code is PageDown && down <= s.detail_max_scroll ==> after.detail_scroll == down
            &&& key.code is PageDown && down > s.detail_max_scroll ==> after.detail_scroll
                == s.detail_max_scroll
            &&& home ==> after.detail_scroll == 0
            &&& end ==> after.detail_scroll == s.detail_max_scroll
        }),
{
}

/// The key for the next filter empties the explorer and starts a load of the issues of that filter.
/// The search text stays.
pub proof fn law_next_filter_key(s: ExplorerView, key: KeyPress, rule: Matcher)
    requires
        key.code is Tab,
    ensures
        ({
            let after = after_key(s, key, rule);
            &&& after.state_filter == s.state_filter.after()
            &&& after.issues.len() == 0
            &&& after.filtered.len() == 0
            &&& after.selected == 0
            &&& after.list_offset == 0
            &&& after.detail_scroll == 0
            &&& forall|number: u64| !#[trigger] after.detail_in_flight.contains(number)
            &&& after.error is None
            &&& after.loading
            &&& !after.loading_more
            &&& s.load_id < u64::MAX ==> after.load_id == s.load_id + 1
            &&& after.search == s.search
            &&& after.repo == s.repo
            &&& after.detail_max_scroll == s.detail_max_scroll
            &&& after.detail_page_step == s.detail_page_step
            &&& key_action(s, key) == ActionView::Load(after.state_filter, after.load_id)
        }),
{
}

/// The key for a refresh starts a load of the same issues. What is listed, selected and searched for
/// stays meanwhile.
pub proof fn law_refresh_key(s: ExplorerView, key: KeyPress, rule: Matcher)
    requires
        !key.with_control(),
        key.code == KeyName::Text(TextKey::Char('r')),
    ensures
        ({
            let after = after_key(s, key, rule);
            &&& after == (ExplorerView {
                loading: true,
                loading_more: false,
                error: None,
                detail_in_flight: after.detail_in_flight,
                load_id: after.load_id,
                ..s
            })
            &&& forall|number: u64| !#[trigger] after.detail_in_flight.contains(number)
            &&& s.load_id < u64::MAX ==> after.load_id == s.load_id + 1
            &&& key_action(s, key) == ActionView::Load(s.state_filter, after.load_id)
        }),
{
}

/// The key that empties the search line has every issue listed again, from the first one on. The
/// description stays where it is.
pub proof fn law_emptying_key(s: ExplorerView, key: KeyPress, rule: Matcher)
    requires
        key.with_control(),
        key.code == KeyName::Text(TextKey::Char('u')),
    ensures
        ({
            let after = after_key(s, key, rule);
            &&& after.search.text.len() == 0
            &&& after.search.cursor == 0
            &&& after.filtered == Seq::new(s.issues.len(), |i: int| i)
            &&& after == (ExplorerView {
                search: after.search,
                filtered: after.filtered,
                selected: 0,
                list_offset: 0,
                ..s
            })
        }),
{
    law_empty_query_keeps_all(s.issues, Seq::empty(), rule);
}

/// The keys that leave and the one that copies change nothing.
pub proof fn law_leaving_changes_nothing(s: ExplorerView, key: KeyPress, rule: Matcher)
    requires
        key.code is Esc || key.code is Enter || key.with_control() && (key.code == KeyName::Text(
            TextKey::Char('c'),
        ) || key.code == KeyName::Text(TextKey::Char('y'))),
    ensures
        after_key(s, key, rule) == s,
{
}

/// Whether a key is handed to the search line: it is neither one that moves, scrolls, loads or
/// leaves, nor one of the commands with the control key.
pub open spec fn goes_to_search_line(key: KeyPress) -> bool {
    &&& key.code is Text
    &&& !(key.with_control() && (key.code->Text_0 == TextKey::Home || key.code->Text_0
        == TextKey::End || key.code->Text_0 == TextKey::Char('c') || key.code->Text_0
        == TextKey::Char('y') || key.code->Text_0 == TextKey::Char('u')))
    &&& !(!key.with_control() && key.code->Text_0 == TextKey::Char('r'))
}

/// Every other key edits the search line. A new text has the list filtered by it, from its start, and
/// the description taken back to its start; where the text stays, everything but the cursor does.
pub proof fn law_other_keys_edit(s: ExplorerView, key: KeyPress, rule: Matcher)
    requires
        goes_to_search_line(key),
    ensures
        ({
            let after = after_key(s, key, rule);
            let (text, cursor) = key_edit(
                s.search.text,
                s.search.cursor,
                key.code->Text_0,
                key.modifiers,
                key.kind,
            );
            &&& after.search.text == text
            &&& after.search.cursor == cursor
            &&& text == s.search.text ==> after == (ExplorerView { search: after.search, ..s })
            &&& text != s.search.text ==> after == (ExplorerView {
                search: after.search,
                filtered: kept(s.issues, text, rule),
                selected: 0,
                list_offset: 0,
                detail_scroll: 0,
                ..s
            })
            &&& key_action(s, key) is Continue
        }),
{
}

/// A typed character stands at the cursor, which moves behind it; the list is filtered by the new
/// text, from its start.
pub proof fn law_typing(
    s: ExplorerView,
    lead: Seq<char>,
    tail: Seq<char>,
    c: char,
    rule: Matcher,
)
    requires
        s.search.text == lead + tail,
        s.search.cursor == lead.len(),
    ensures
        ({
            let after = typed(s, c, rule);
            &&& after.search.text == lead + seq![c] + tail
            &&& after.search.cursor == s.search.cursor + 1
            &&& after.filtered == kept(s.issues, lead + seq![c] + tail, rule)
            &&& after == (ExplorerView {
                search: after.search,
                filtered: after.filtered,
                selected: 0,
                list_offset: 0,
                detail_scroll: 0,
                ..s
            })
        }),
{
    law_inserting(lead, seq![c], tail);
}

/// A pasted text stands at the cursor, which moves behind it, without its carriage returns; the list
/// is filtered by the new text, from its start.
pub proof fn law_pasting_filters(
    s: ExplorerView,
    lead: Seq<char>,
    tail: Seq<char>,
    value: String,
    ui: IssueLayout,
    rule: Matcher,
)
    requires
        s.search.text == lead + tail,
        s.search.cursor == lead.len(),
    ensures
        ({
            let after = after_event(s, ui, UiEvent::Paste(value), rule);
            let text = lead + pasted(value@) + tail;
            &&& after.search.text == text
            &&& after.search.cursor == lead.len() + pasted(value@).len()
            &&& after.filtered == kept(s.issues, text, rule)
            &&& after == (ExplorerView {
                search: after.search,
                filtered: after.filtered,
                selected: 0,
                list_offset: 0,
                detail_scroll: 0,
                ..s
            })
            &&& event_action(s, UiEvent::Paste(value)) is Continue
        }),
{
    law_inserting(lead, pasted(value@), tail);
}

/// A key event is its key; the other events ask for nothing, and one without a meaning changes
/// nothing.
pub proof fn law_events(
    s: ExplorerView,
    ui: IssueLayout,
    key: KeyPress,
    mouse: Mouse,
    rule: Matcher,
)
    ensures
        after_event(s, ui, UiEvent::Key(key), rule) == after_key(s, key, rule),
        event_action(s, UiEvent::Key(key)) == key_action(s, key),
        after_event(s, ui, UiEvent::Mouse(mouse), rule) == after_mouse(s, ui, mouse),
        event_action(s, UiEvent::Mouse(mouse)) is Continue,
        after_event(s, ui, UiEvent::Other, rule) == s,
        event_action(s, UiEvent::Other) is Continue,
{
}

/// What is chosen or copied is the address of the selected issue: chosen with the one key, copied
/// with the other, and with no other key.
pub proof fn law_address_of_the_selected(s: ExplorerView, key: KeyPress)
    requires
        s.wf(),
    ensures
        ({
            let url = s.issues[s.filtered[s.selected]].url;
            let copies = key.with_control() && key.code == KeyName::Text(TextKey::Char('y'));
            let action = key_action(s, key);
            &&& s.filtered.len() > 0 && key.code is Enter ==> action == ActionView::Choose(url)
            &&& s.filtered.len() > 0 && copies ==> action == ActionView::Copy(url)
            &&& s.filtered.len() == 0 && (key.code is Enter || copies) ==> action is Continue
            &&& action is Choose ==> key.code is Enter
            &&& action is Copy ==> copies
            &&& action is Load ==> key.code is Tab || !key.with_control() && key.code
                == KeyName::Text(TextKey::Char('r'))
        }),
{
}

/// Whether a cell of the screen lies in an area.
pub open spec fn lies_in(area: Area, column: u16, row: u16) -> bool {
    &&& area.x <= column && column < area.x + area.width
    &&& area.y <= row && row < area.y + area.height
}

/// Whether the list and the description lie within the columns and rows that there are.
pub open spec fn panes_fit(ui: IssueLayout) -> bool {
    &&& ui.results.x + ui.results.width <= u16::MAX
    &&& ui.results.y + ui.results.height <= u16::MAX
    &&& ui.detail.x + ui.detail.width <= u16::MAX
    &&& ui.detail.y + ui.detail.height <= u16::MAX
}

/// A left click on a row of the list that shows an entry selects the issue of that row, and changes
/// nothing else.
pub proof fn law_click_selects_the_row(s: ExplorerView, ui: IssueLayout, column: u16, k: int)
    requires
        s.wf(),
        panes_fit(ui),
        s.filtered.len() > 0,
        ui.results.x <= column < ui.results.x + ui.results.width,
        0 <= k < screen_of(s, ui).rows.len(),
        ui.results.height > 0,
    ensures
        ({
            let d = drawn(s, ui);
            let row = (ui.results.y + k) as u16;
            let after = after_mouse(d, ui, Mouse { kind: MouseKind::LeftDown, column, row });
            &&& lies_in(ui.results, column, row)
            &&& after.selected == d.list_offset + k
            &&& after == (ExplorerView { selected: after.selected, ..d })
            &&& 0 <= after.selected < s.filtered.len()
            &&& after.selection() == Some(s.issues[s.filtered[d.list_offset + k]])
            &&& screen_of(s, ui).rows[k] == row_of(
                s.issues[s.filtered[d.list_offset + k]],
                ui.results.width as int,
                palette_of().text,
                palette_of().muted,
            )
        }),
{
    let height = ui.results.height as int;
    let total = s.filtered.len() as int;
    law_window_is_full(s.selected, s.list_offset, height, total);
    let offset = window_offset(s.selected, s.list_offset, height, total);
    law_list_shows_entries(
        s.issues,
        s.filtered,
        offset,
        height,
        ui.results.width as int,
        palette_of().text,
        palette_of().muted,
        k,
    );
}

/// A left click below the last entry selects that entry; a click beside the list changes nothing.
pub proof fn law_click_elsewhere(s: ExplorerView, ui: IssueLayout, column: u16, row: u16)
    requires
        s.wf(),
        panes_fit(ui),
    ensures
        ({
            let after = after_mouse(s, ui, Mouse { kind: MouseKind::LeftDown, column, row });
            let entry = s.list_offset + (row - ui.results.y);
            &&& !lies_in(ui.results, column, row) ==> after == s
            &&& lies_in(ui.results, column, row) ==> after == (ExplorerView {
                selected: after.selected,
                ..s
            })
            &&& lies_in(ui.results, column, row) && entry < s.filtered.len() ==> after.selected
                == entry
            &&& lies_in(ui.results, column, row) && entry >= s.filtered.len() && s.filtered.len()
                > 0 ==> after.selected == s.filtered.len() - 1
            &&& lies_in(ui.results, column, row) && s.filtered.len() == 0 ==> after.selected == 0
        }),
{
}

/// The wheel scrolls the description by a line where the mouse is on it, and selects the next entry
/// where the mouse is on the list; elsewhere, and for other mouse events, nothing changes.
pub proof fn law_wheel(s: ExplorerView, ui: IssueLayout, mouse: Mouse)
    requires
        s.wf(),
        panes_fit(ui),
    ensures
        ({
            let after = after_mouse(s, ui, mouse);
            let on_detail = lies_in(ui.detail, mouse.column, mouse.row);
            let on_results = !on_detail && lies_in(ui.results, mouse.column, mouse.row);
            let up = mouse.kind is ScrollUp;
            let down = mouse.kind is ScrollDown;
            &&& (up || down) && on_detail ==> after == (ExplorerView {
                detail_scroll: after.detail_scroll,
                ..s
            })
            &&& up && on_detail ==> after.detail_scroll == if s.detail_scroll > 0 {
                s.detail_scroll - 1
            } else {
                0
            }
            &&& down && on_detail ==> after.detail_scroll == if s.detail_scroll
                < s.detail_max_scroll {
                s.detail_scroll + 1
            } else {
                s.detail_max_scroll
            }
            &&& (up || down) && on_results ==> after == (ExplorerView {
                selected: after.selected,
                ..s
            })
            &&& up && on_results ==> after.selected == if s.selected > 0 {
                s.selected - 1
            } else {
                0
            }
            &&& down && on_results ==> after.selected == if s.selected + 1 < s.filtered.len() {
                s.selected + 1
            } else {
                s.selected
            }
            &&& (up || down) && !on_detail && !on_results ==> after == s
            &&& mouse.kind is Other ==> after == s
        }),
{
}

/// Drawing moves the list and the description no further than it has to: the selected entry is in
/// view, no other offset that has it so is nearer, and the last line of the description can be
/// reached but not passed. Nothing else changes.
pub proof fn law_drawing_adjusts(s: ExplorerView, ui: IssueLayout, offset: int)
    requires
        s.wf(),
    ensures
        ({
            let d = drawn(s, ui);
            let height = ui.results.height as int;
            let total = s.filtered.len() as int;
            let room = if ui.detail.height >= 2 {
                ui.detail.height - 2
            } else {
                0
            };
            let length = description(s).len() as int;
            &&& d == (ExplorerView {
                list_offset: d.list_offset,
                detail_page_step: d.detail_page_step,
                detail_max_scroll: d.detail_max_scroll,
                detail_scroll: d.detail_scroll,
                ..s
            })
            &&& total > 0 && height > 0 ==> {
                &&& 0 <= d.list_offset <= s.selected < d.list_offset + height
                &&& height <= total ==> d.list_offset + height <= total
                &&& total <= height ==> d.list_offset == 0
                &&& 0 <= offset <= s.selected < offset + height && (offset + height <= total
                    || offset == 0) ==> distance(d.list_offset, s.list_offset) <= distance(
                    offset,
                    s.list_offset,
                )
            }
            &&& total == 0 || height == 0 ==> d.list_offset == 0
            &&& d.detail_page_step == if room > 1 {
                room
            } else {
                1
            }
            &&& length <= room ==> d.detail_max_scroll == 0
            &&& length > room ==> d.detail_max_scroll + room == length
            &&& s.detail_scroll <= d.detail_max_scroll ==> d.detail_scroll == s.detail_scroll
            &&& s.detail_scroll > d.detail_max_scroll ==> d.detail_scroll == d.detail_max_scroll
        }),
{
    let height = ui.results.height as int;
    let total = s.filtered.len() as int;
    if total > 0 && height > 0 {
        law_selected_entry_is_shown(s.selected, s.list_offset, height, total);
        law_window_is_full(s.selected, s.list_offset, height, total);
        if 0 <= offset <= s.selected < offset + height && (offset + height <= total || offset
            == 0) {
            law_window_moves_least(s.selected, s.list_offset, height, total, offset);
        }
    }
}

/// The description on the screen is that of the selected issue, unless there is an error: it starts
/// with the number and the title of that issue and with its address, and the title above it is the
/// same number.
pub proof fn law_selected_issue_is_described(s: ExplorerView, ui: IssueLayout)
    requires
        s.wf(),
        s.filtered.len() > 0,
        s.error is None,
    ensures
        ({
            let issue = s.issues[s.filtered[s.selected]];
            let screen = screen_of(s, ui);
            let accent = Color::Rgb(72, 166, 255);
            let number = "#"@ + decimal(issue.number as nat);
            &&& screen.detail_title == number
            &&& screen.detail.len() >= 6
            &&& is_line(
                screen.detail[0],
                number + " "@ + issue.title,
                Style { fg: Some(accent), bold: true },
            )
            &&& is_line(
                screen.detail[1],
                issue.url,
                Style { fg: Some(Color::Black), bold: false },
            )
            &&& screen.detail == detail_lines(
                s.repo,
                Some(issue),
                None,
                false,
                accent,
                Color::Black,
                Color::Black,
            )
        }),
{
    let issue = s.issues[s.filtered[s.selected]];
    assert(0 <= s.filtered[s.selected] < s.issues.len());
    law_description_head(
        s.repo,
        issue,
        Color::Rgb(72, 166, 255),
        Color::Black,
        Color::Black,
    );
    law_description_body(
        issue,
        Style { fg: Some(Color::Black), bold: false },
        Style { fg: Some(Color::Black), bold: false },
        0,
    );
    if issue.body is Some {
        lemma_lines_of_ink(issue.body->0);
    }
}

/// Where issues are being loaded into an empty list, where there is an error, and where no issue is
/// selected, the description says so.
pub proof fn law_nothing_to_describe(s: ExplorerView, ui: IssueLayout)
    requires
        s.wf(),
    ensures
        ({
            let screen = screen_of(s, ui);
            let heading = Style { fg: Some(Color::Rgb(72, 166, 255)), bold: true };
            let subtle = Style { fg: Some(Color::Black), bold: false };
            let loading = s.loading && s.issues.len() == 0;
            &&& loading ==> screen.detail.len() == 1 && is_line(
                screen.detail[0],
                "Loading GitHub issues..."@,
                heading,
            )
            &&& !loading && s.error is Some ==> {
                &&& screen.detail.len() == 3
                &&& is_line(screen.detail[0], "Unable to load issues"@, heading)
                &&& screen.detail[1].len() == 0
                &&& is_line(screen.detail[2], s.error->0, subtle)
            }
            &&& !loading && s.error is None && s.filtered.len() == 0 ==> {
                &&& screen.detail.len() == 3
                &&& is_line(screen.detail[0], s.repo, heading)
                &&& screen.detail[1].len() == 0
                &&& is_line(screen.detail[2], "No issue selected"@, subtle)
            }
            &&& s.filtered.len() == 0 ==> screen.detail_title == "Details"@
        }),
{
}

/// The screen shows the search text with its cursor, the counts of listed and loaded issues, the
/// entries from the list's offset on, and the description from its scroll on.
pub proof fn law_screen_shows_the_state(s: ExplorerView, ui: IssueLayout, k: int)
    requires
        s.wf(),
        s.filtered.len() <= usize::MAX,
        ui.search.x + ui.search.width <= u16::MAX,
        0 <= display_width(s.search.text.take(s.search.cursor)),
    ensures
        ({
            let screen = screen_of(s, ui);
            let d = drawn(s, ui);
            let column = display_width(s.search.text.take(s.search.cursor));
            let start = "* Issues "@ + s.state_filter.name();
            let counted = start + " "@ + decimal(s.filtered.len()) + "/"@ + decimal(s.issues.len());
            &&& screen.search == s.search.text
            &&& screen.cursor.1 == ui.search.y
            &&& column <= ui.search.width ==> screen.cursor.0 == ui.search.x + column
            &&& column > ui.search.width ==> screen.cursor.0 == ui.search.x + ui.search.width
            &&& s.loading ==> screen.list_title == start + " loading"@
            &&& !s.loading && s.loading_more ==> screen.list_title == counted + " loading more"@
            &&& !s.loading && !s.loading_more ==> screen.list_title == counted
            &&& screen.detail_scroll == d.detail_scroll
            &&& s.filtered.len() > 0 && ui.results.height > 0 ==> {
                &&& screen.selected_row == Some((s.selected - d.list_offset) as usize)
                &&& screen.rows.len() == ui.results.height || screen.rows.len()
                    == s.filtered.len() - d.list_offset
                &&& screen.rows.len() <= ui.results.height
                &&& screen.rows.len() <= s.filtered.len() - d.list_offset
                &&& 0 <= k < screen.rows.len() ==> screen.rows[k] == row_of(
                    s.issues[s.filtered[d.list_offset + k]],
                    ui.results.width as int,
                    Color::Black,
                    Color::Black,
                )
            }
            &&& s.filtered.len() == 0 || ui.results.height == 0 ==> screen.rows.len() == 1
                && is_line(
                screen.rows[0],
                "No issues"@,
                Style { fg: Some(Color::Black), bold: false },
            )
            &&& screen.help == help_of(
                s.state_filter,
                Color::Rgb(150, 150, 150),
                Color::Black,
                Color::Rgb(72, 166, 255),
            )
        }),
{
    let height = ui.results.height as int;
    let total = s.filtered.len() as int;
    law_description_is_short(s);
    if total > 0 && height > 0 {
        law_window_is_full(s.selected, s.list_offset, height, total);
        law_list_shows_entries(
            s.issues,
            s.filtered,
            window_offset(s.selected, s.list_offset, height, total),
            height,
            ui.results.width as int,
            Color::Black,
            Color::Black,
            k,
        );
    }
}

/// A text that is not empty has a line.
proof fn lemma_lines_of_ink(s: Seq<char>)
    ensures
        has_ink(s) ==> lines(s).len() > 0,
{
    lemma_find(s, '\n');
}

} // verus!
