//! The selected issue, and the details that come to issues later than the issues themselves.

use crate::filter::places;
use crate::load::{DetailView, IssueDetailResult};
use crate::model::{text_of, views, IssueEntry, IssueView};
use std::collections::HashSet;
use vstd::prelude::*;

verus! {

/// The first place of an issue with the given number; the list's length where there is none.
pub open spec fn find_number(issues: Seq<IssueView>, number: u64) -> int
    decreases issues.len(),
{
    if issues.len() == 0 || issues[0].number == number {
        0
    } else {
        1 + find_number(issues.skip(1), number)
    }
}

/// `find_number` gives the first place.
pub proof fn lemma_find_number(issues: Seq<IssueView>, number: u64)
    ensures
        0 <= find_number(issues, number) <= issues.len(),
        find_number(issues, number) < issues.len() ==> issues[find_number(issues, number)].number
            == number,
        forall|j: int|
            0 <= j < find_number(issues, number) ==> (#[trigger] issues[j]).number != number,
    decreases issues.len(),
{
    if issues.len() > 0 && issues[0].number != number {
        let rest = issues.skip(1);
        lemma_find_number(rest, number);
        assert forall|j: int| 0 <= j < find_number(issues, number) implies (
        #[trigger] issues[j]).number != number by {
            if j > 0 {
                assert(rest[j - 1] == issues[j]);
            }
        }
    }
}

/// Finds the first issue with the given number.
fn index_of_number(issues: &[IssueEntry], number: u64) -> (r: usize)
    ensures
        r == find_number(views(issues@), number),
        r <= issues@.len(),
{
    let mut i: usize = 0;
    while i < issues.len() && issues[i].number != number
        invariant
            i <= issues@.len(),
            forall|j: int| 0 <= j < i ==> (#[trigger] views(issues@)[j]).number != number,
        decreases issues@.len() - i,
    {
        assert(views(issues@)[i as int].number == issues@[i as int].number);
        i += 1;
    }
    proof {
        lemma_find_number(views(issues@), number);
        if i < issues@.len() {
            assert(views(issues@)[i as int].number == number);
        }
    }
    i
}

/// An issue with the details of an older copy of it, where that copy has them. A milestone that
/// the older copy lacks is kept.
pub open spec fn with_details(issue: IssueView, older: IssueView) -> IssueView {
    if older.detail_loaded {
        IssueView {
            body: older.body,
            milestone: if older.milestone is Some {
                older.milestone
            } else {
                issue.milestone
            },
            comments: older.comments,
            detail_loaded: true,
            detail_error: older.detail_error,
            ..issue
        }
    } else {
        issue
    }
}

/// An issue with the details that a list has for its number.
pub open spec fn merged_issue(existing: Seq<IssueView>, issue: IssueView) -> IssueView {
    let at = find_number(existing, issue.number);
    if at < existing.len() {
        with_details(issue, existing[at])
    } else {
        issue
    }
}

/// A list of issues with the details that an older list has for them.
pub open spec fn merged(existing: Seq<IssueView>, next: Seq<IssueView>) -> Seq<IssueView> {
    Seq::new(next.len(), |i: int| merged_issue(existing, next[i]))
}

/// Copies a text that may be missing.
fn copy_text(s: &Option<String>) -> (r: Option<String>)
    ensures
        text_of(r) == text_of(*s),
{
    match s {
        Some(s) => Some(s.clone()),
        None => None,
    }
}

/// Gives an issue the details of an older copy of it.
fn take_details(issue: &mut IssueEntry, older: &IssueEntry)
    ensures
        final(issue)@ == with_details(old(issue)@, older@),
        final(issue).number == old(issue).number,
        final(issue).title == old(issue).title,
        final(issue).state == old(issue).state,
        final(issue).author == old(issue).author,
        final(issue).labels == old(issue).labels,
        final(issue).assignees == old(issue).assignees,
        final(issue).created_at == old(issue).created_at,
        final(issue).updated_at == old(issue).updated_at,
        final(issue).url == old(issue).url,
        !older.detail_loaded ==> *final(issue) == *old(issue),
{
    if older.detail_loaded {
        issue.body = copy_text(&older.body);
        if older.milestone.is_some() {
            issue.milestone = copy_text(&older.milestone);
        }
        issue.comments = older.comments;
        issue.detail_loaded = true;
        issue.detail_error = copy_text(&older.detail_error);
    }
}

/// Carries the details of issues over to a newer list of them.
pub fn merge_issue_details(existing: &[IssueEntry], next: &mut [IssueEntry])
    ensures
        views(final(next)@) == merged(views(existing@), views(old(next)@)),
{
    let ghost start = next@;
    let n = next.len();
    let mut i: usize = 0;
    while i < n
        invariant
            i <= n == next@.len() == start.len(),
            forall|j: int|
                0 <= j < i ==> (#[trigger] next@[j])@ == merged_issue(views(existing@), start[j]@),
            forall|j: int| i <= j < n ==> #[trigger] next@[j] == start[j],
        decreases n - i,
    {
        let at = index_of_number(existing, next[i].number);
        if at < existing.len() {
            assert(views(existing@)[at as int] == existing@[at as int]@);
            take_details(&mut next[i], &existing[at]);
        }
        i += 1;
    }
}

/// The issue that a result's details belong to, with those details.
pub open spec fn with_result(issue: IssueView, result: DetailView) -> IssueView {
    if result.error is Some {
        IssueView { detail_loaded: true, detail_error: result.error, ..issue }
    } else {
        IssueView {
            detail_loaded: true,
            detail_error: None,
            body: result.body,
            milestone: result.milestone,
            comments: match result.comments {
                Some(comments) => comments,
                None => issue.comments,
            },
            ..issue
        }
    }
}

/// A list of issues after details have come for one of them.
pub open spec fn with_detail(issues: Seq<IssueView>, result: DetailView) -> Seq<IssueView> {
    let at = find_number(issues, result.number);
    if at < issues.len() {
        issues.update(at, with_result(issues[at], result))
    } else {
        issues
    }
}

/// Gives details to the issue that they belong to. Details that could not be had leave the issue
/// as it is, but for the error.
pub fn apply_detail(issues: &mut Vec<IssueEntry>, result: IssueDetailResult)
    ensures
        views(final(issues)@) == with_detail(views(old(issues)@), result@),
{
    let at = index_of_number(issues.as_slice(), result.number);
    let ghost start = issues@;
    if at < issues.len() {
        give_result(&mut issues[at], result);
        assert(views(issues@) =~= with_detail(views(start), result@));
    }
}

/// Gives details to an issue.
fn give_result(issue: &mut IssueEntry, result: IssueDetailResult)
    ensures
        final(issue)@ == with_result(old(issue)@, result@),
        final(issue).number == old(issue).number,
        final(issue).title == old(issue).title,
        final(issue).state == old(issue).state,
        final(issue).author == old(issue).author,
        final(issue).labels == old(issue).labels,
        final(issue).assignees == old(issue).assignees,
        final(issue).created_at == old(issue).created_at,
        final(issue).updated_at == old(issue).updated_at,
        final(issue).url == old(issue).url,
        final(issue).detail_loaded,
        final(issue).detail_error == result.error,
        result.error is None ==> final(issue).body == result.body && final(issue).milestone
            == result.milestone && final(issue).comments == match result.comments {
            Some(comments) => comments,
            None => old(issue).comments,
        },
        result.error is Some ==> final(issue).body == old(issue).body && final(issue).milestone
            == old(issue).milestone && final(issue).comments == old(issue).comments,
{
    issue.detail_loaded = true;
    let failed = result.error.is_some();
    issue.detail_error = result.error;
    if !failed {
        issue.body = result.body;
        issue.milestone = result.milestone;
        if let Some(comments) = result.comments {
            issue.comments = comments;
        }
    }
}

/// The issue that the entry `selected` of a filtered list names, if there is such an entry.
pub open spec fn selected_of(
    issues: Seq<IssueView>,
    filtered: Seq<int>,
    selected: int,
) -> Option<IssueView> {
    if 0 <= selected < filtered.len() && 0 <= filtered[selected] < issues.len() {
        Some(issues[filtered[selected]])
    } else {
        None
    }
}

/// Gives the selected issue.
pub fn selected_issue<'a>(
    issues: &'a [IssueEntry],
    filtered: &[usize],
    selected: usize,
) -> (r: Option<&'a IssueEntry>)
    ensures
        r is Some == selected_of(views(issues@), places(filtered@), selected as int) is Some,
        r matches Some(issue) ==> selected_of(views(issues@), places(filtered@), selected as int)
            == Some(issue@) && *issue == issues@[filtered@[selected as int] as int],
{
    if selected < filtered.len() {
        let index = filtered[selected];
        if index < issues.len() {
            assert(views(issues@)[index as int] == issues@[index as int]@);
            return Some(&issues[index]);
        }
    }
    None
}

/// Whether the entry `entry` of a filtered list names an issue with the given number.
pub open spec fn names_number(
    issues: Seq<IssueView>,
    filtered: Seq<int>,
    entry: int,
    number: u64,
) -> bool {
    selected_of(issues, filtered, entry) matches Some(issue) && issue.number == number
}

/// Finds the first entry of a filtered list that names an issue with the given number.
pub fn selected_index_for_issue_number(
    issues: &[IssueEntry],
    filtered: &[usize],
    number: u64,
) -> (r: Option<usize>)
    ensures
        match r {
            Some(entry) => first_entry(views(issues@), places(filtered@), number, entry as int),
            None => forall|j: int|
                !#[trigger] names_number(views(issues@), places(filtered@), j, number),
        },
{
    let mut i: usize = 0;
    while i < filtered.len()
        invariant
            i <= filtered@.len(),
            forall|j: int|
                0 <= j < i ==> !#[trigger] names_number(
                    views(issues@),
                    places(filtered@),
                    j,
                    number,
                ),
        decreases filtered@.len() - i,
    {
        if let Some(issue) = selected_issue(issues, filtered, i) {
            if issue.number == number {
                return Some(i);
            }
        }
        i += 1;
    }
    None
}

/// Whether `entry` is the first entry that names an issue with the given number.
pub open spec fn first_entry(
    issues: Seq<IssueView>,
    filtered: Seq<int>,
    number: u64,
    entry: int,
) -> bool {
    &&& names_number(issues, filtered, entry, number)
    &&& forall|j: int| 0 <= j < entry ==> !#[trigger] names_number(issues, filtered, j, number)
}

/// The number of the issue whose details are to be asked for: the selected one, unless it has an
/// answer already or one is under way.
pub open spec fn wanted_detail(selected: Option<IssueView>, in_flight: Set<u64>) -> Option<u64> {
    match selected {
        Some(issue) => if issue.detail_loaded || in_flight.contains(issue.number) {
            None
        } else {
            Some(issue.number)
        },
        None => None,
    }
}

/// Gives the number of the issue whose details are to be asked for, and notes that they are under
/// way.
pub fn ensure_selected_issue_detail(
    issues: &[IssueEntry],
    filtered: &[usize],
    selected: usize,
    in_flight: &mut HashSet<u64>,
) -> (r: Option<u64>)
    ensures
        r == wanted_detail(
            selected_of(views(issues@), places(filtered@), selected as int),
            old(in_flight)@,
        ),
        final(in_flight)@ == match r {
            Some(number) => old(in_flight)@.insert(number),
            None => old(in_flight)@,
        },
{
    broadcast use vstd::std_specs::hash::group_hash_axioms;

    let number = match selected_issue(issues, filtered, selected) {
        Some(issue) => {
            if issue.detail_loaded || in_flight.contains(&issue.number) {
                return None;
            }
            issue.number
        },
        None => return None,
    };
    in_flight.insert(number);
    Some(number)
}

/// A reload keeps the issues that it brought, in their order: only the details can come from the
/// older list.
pub proof fn law_reload_keeps_new_issues(
    existing: Seq<IssueView>,
    next: Seq<IssueView>,
    place: int,
)
    requires
        0 <= place < next.len(),
    ensures
        merged(existing, next).len() == next.len(),
        merged(existing, next)[place] == (IssueView {
            body: merged(existing, next)[place].body,
            milestone: merged(existing, next)[place].milestone,
            comments: merged(existing, next)[place].comments,
            detail_loaded: merged(existing, next)[place].detail_loaded,
            detail_error: merged(existing, next)[place].detail_error,
            ..next[place]
        }),
{
}

/// Details that were loaded survive a reload: an issue that comes again has its text, its number of
/// comments, its error and its milestone.
pub proof fn law_details_survive_reload(
    existing: Seq<IssueView>,
    next: Seq<IssueView>,
    older: int,
    place: int,
)
    requires
        0 <= older < existing.len(),
        0 <= place < next.len(),
        existing[older].number == next[place].number,
        existing[older].detail_loaded,
        forall|j: int| 0 <= j < older ==> (#[trigger] existing[j]).number != existing[older].number,
    ensures
        merged(existing, next)[place].detail_loaded,
        merged(existing, next)[place].body == existing[older].body,
        merged(existing, next)[place].comments == existing[older].comments,
        merged(existing, next)[place].detail_error == existing[older].detail_error,
        existing[older].milestone is Some ==> merged(existing, next)[place].milestone
            == existing[older].milestone,
        existing[older].milestone is None ==> merged(existing, next)[place].milestone
            == next[place].milestone,
{
    lemma_find_number(existing, next[place].number);
}

/// A reload leaves an issue as it came where the older list has no issue of its number, or has no
/// details for the first one that it has.
pub proof fn law_reload_without_details(
    existing: Seq<IssueView>,
    next: Seq<IssueView>,
    place: int,
)
    requires
        0 <= place < next.len(),
        forall|j: int|
            0 <= j < existing.len() && (#[trigger] existing[j]).number == next[place].number && (
            forall|i: int| 0 <= i < j ==> (#[trigger] existing[i]).number != next[place].number)
                ==> !existing[j].detail_loaded,
    ensures
        merged(existing, next)[place] == next[place],
{
    lemma_find_number(existing, next[place].number);
}

/// Details are carried over once: a second time changes nothing.
pub proof fn law_merging_twice_is_merging_once(existing: Seq<IssueView>, next: Seq<IssueView>)
    ensures
        merged(existing, merged(existing, next)) == merged(existing, next),
{
    assert(merged(existing, merged(existing, next)) =~= merged(existing, next));
}

/// Details are asked for once: not again while they are under way, and not again when an answer
/// has come, whether they could be had or not.
pub proof fn law_details_are_asked_for_once(
    issues: Seq<IssueView>,
    filtered: Seq<int>,
    selected: int,
    in_flight: Set<u64>,
    result: DetailView,
)
    requires
        selected_of(issues, filtered, selected) is Some,
        result.number == selected_of(issues, filtered, selected)->0.number,
        filtered[selected] == find_number(issues, result.number),
    ensures
        wanted_detail(
            selected_of(issues, filtered, selected),
            in_flight.insert(result.number),
        ) is None,
        wanted_detail(
            selected_of(with_detail(issues, result), filtered, selected),
            in_flight.remove(result.number),
        ) is None,
{
}

/// Details are wanted of the selected issue as long as no answer has come and none is under way, and
/// of no other issue.
pub proof fn law_details_of_the_selected(
    issues: Seq<IssueView>,
    filtered: Seq<int>,
    selected: int,
    in_flight: Set<u64>,
)
    requires
        0 <= selected < filtered.len(),
        0 <= filtered[selected] < issues.len(),
    ensures
        ({
            let issue = issues[filtered[selected]];
            let wanted = wanted_detail(selected_of(issues, filtered, selected), in_flight);
            &&& wanted matches Some(number) ==> number == issue.number
            &&& wanted is Some <==> !issue.detail_loaded && !in_flight.contains(issue.number)
        }),
{
}

/// An entry of a filtered list names the issue at its place; where the list has no such entry, or
/// there is no issue at that place, nothing is named.
pub proof fn law_entry_names_issue(issues: Seq<IssueView>, filtered: Seq<int>, entry: int)
    ensures
        0 <= entry < filtered.len() && 0 <= filtered[entry] < issues.len() ==> selected_of(
            issues,
            filtered,
            entry,
        ) == Some(issues[filtered[entry]]),
        !(0 <= entry < filtered.len()) ==> selected_of(issues, filtered, entry) is None,
        0 <= entry < filtered.len() && !(0 <= filtered[entry] < issues.len()) ==> selected_of(
            issues,
            filtered,
            entry,
        ) is None,
{
}

/// Details that could be had are what the issue has afterwards: its text, its milestone and, where
/// they were counted, its comments. Everything else of it stays.
pub proof fn law_details_are_added(issues: Seq<IssueView>, result: DetailView, place: int)
    requires
        0 <= place < issues.len(),
        issues[place].number == result.number,
        forall|j: int| 0 <= j < place ==> (#[trigger] issues[j]).number != result.number,
        result.error is None,
    ensures
        ({
            let before = issues[place];
            let after = with_detail(issues, result)[place];
            &&& after.detail_loaded
            &&& after.detail_error is None
            &&& after.body == result.body
            &&& after.milestone == result.milestone
            &&& result.comments is Some ==> after.comments == result.comments->0
            &&& result.comments is None ==> after.comments == before.comments
        }),
{
    lemma_find_number(issues, result.number);
}

/// Details that could not be had leave the issue what it has, and tell why.
pub proof fn law_lost_details_tell_why(issues: Seq<IssueView>, result: DetailView, place: int)
    requires
        0 <= place < issues.len(),
        issues[place].number == result.number,
        forall|j: int| 0 <= j < place ==> (#[trigger] issues[j]).number != result.number,
        result.error is Some,
    ensures
        ({
            let before = issues[place];
            let after = with_detail(issues, result)[place];
            &&& after.detail_loaded
            &&& after.detail_error == result.error
            &&& after.body == before.body
            &&& after.milestone == before.milestone
            &&& after.comments == before.comments
        }),
{
    lemma_find_number(issues, result.number);
}

/// Details change of no issue anything but its text, its milestone, its comments, and what is known
/// of the details themselves.
pub proof fn law_details_keep_the_rest(issues: Seq<IssueView>, result: DetailView, place: int)
    requires
        0 <= place < issues.len(),
    ensures
        with_detail(issues, result).len() == issues.len(),
        with_detail(issues, result)[place].number == issues[place].number,
        with_detail(issues, result)[place].title == issues[place].title,
        with_detail(issues, result)[place].state == issues[place].state,
        with_detail(issues, result)[place].author == issues[place].author,
        with_detail(issues, result)[place].labels == issues[place].labels,
        with_detail(issues, result)[place].assignees == issues[place].assignees,
        with_detail(issues, result)[place].created_at == issues[place].created_at,
        with_detail(issues, result)[place].updated_at == issues[place].updated_at,
        with_detail(issues, result)[place].url == issues[place].url,
{
    lemma_find_number(issues, result.number);
}

/// Details belong to the first issue with their number: every other issue stays as it is.
pub proof fn law_details_are_for_one(
    issues: Seq<IssueView>,
    result: DetailView,
    earlier: int,
    place: int,
)
    requires
        0 <= earlier < place < issues.len(),
        issues[earlier].number == result.number,
    ensures
        with_detail(issues, result)[place] == issues[place],
{
    lemma_find_number(issues, result.number);
}

/// Details change no issue but the one that they belong to, and of that one neither the number, the
/// title nor the address.
pub proof fn law_details_change_one_issue(issues: Seq<IssueView>, result: DetailView, place: int)
    requires
        0 <= place < issues.len(),
    ensures
        with_detail(issues, result).len() == issues.len(),
        with_detail(issues, result)[place].number == issues[place].number,
        with_detail(issues, result)[place].title == issues[place].title,
        with_detail(issues, result)[place].url == issues[place].url,
        issues[place].number != result.number ==> with_detail(issues, result)[place]
            == issues[place],
{
    lemma_find_number(issues, result.number);
}

/// The first entry for a number names an issue of that number, and no earlier entry does.
pub proof fn law_first_entry(
    issues: Seq<IssueView>,
    filtered: Seq<int>,
    number: u64,
    entry: int,
    earlier: int,
)
    requires
        first_entry(issues, filtered, number, entry),
    ensures
        0 <= entry < filtered.len(),
        0 <= filtered[entry] < issues.len(),
        issues[filtered[entry]].number == number,
        0 <= earlier < entry && 0 <= filtered[earlier] < issues.len() ==> issues[
            filtered[earlier]
        ].number != number,
{
    assert(0 <= earlier < entry ==> !names_number(issues, filtered, earlier, number));
}

/// An entry names a number where the issue at its place has that number.
pub proof fn law_entry_names_number(
    issues: Seq<IssueView>,
    filtered: Seq<int>,
    entry: int,
    number: u64,
)
    ensures
        names_number(issues, filtered, entry, number) <==> 0 <= entry < filtered.len() && 0
            <= filtered[entry] < issues.len() && issues[filtered[entry]].number == number,
{
}

} // verus!
