//! Which issues a query keeps.

use crate::chars::{
    contains_text, decimal, decimal_chars, digit, find_text, lemma_occurs_as_part,
    lemma_part_occurs, lemma_words, occurs_at, split_words, to_chars, to_text, white_space, words,
};
use crate::model::{texts, views, IssueEntry, IssueView};
use vstd::prelude::*;

verus! {

/// A rule that says which texts a word matches: the word comes first, the text second.
pub type Matcher = spec_fn(Seq<char>, Seq<char>) -> bool;

/// Whether a function can be asked about any word and text.
pub open spec fn answers<F: Fn(&str, &str) -> bool>(f: F) -> bool {
    forall|word: &str, text: &str| call_requires(f, (word, text))
}

/// Whether a function answers as the rule says.
pub open spec fn decides<F: Fn(&str, &str) -> bool>(f: F, rule: Matcher) -> bool {
    forall|word: &str, text: &str, r: bool|
        call_ensures(f, (word, text), r) ==> r == rule(word@, text@)
}

/// What a function may match: it can say yes to the word and the text.
pub open spec fn may_match<F: Fn(&str, &str) -> bool>(f: F) -> Matcher {
    |word: Seq<char>, text: Seq<char>|
        exists|w: &str, t: &str|
            w@ == word && t@ == text && #[trigger] call_ensures(f, (w, t), true)
}

/// What a function is sure to match: it cannot say no to the word and the text.
pub open spec fn must_match<F: Fn(&str, &str) -> bool>(f: F) -> Matcher {
    |word: Seq<char>, text: Seq<char>|
        forall|w: &str, t: &str|
            w@ == word && t@ == text ==> !#[trigger] call_ensures(f, (w, t), false)
}

/// Whether a word matches one of the texts.
pub open spec fn any_matches(word: Seq<char>, list: Seq<Seq<char>>, rule: Matcher) -> bool {
    exists|i: int| 0 <= i < list.len() && rule(word, #[trigger] list[i])
}

/// Whether a word matches a text that may be missing.
pub open spec fn some_matches(word: Seq<char>, text: Option<Seq<char>>, rule: Matcher) -> bool {
    match text {
        Some(text) => rule(word, text),
        None => false,
    }
}

/// Whether an issue matches a word of a query. A word that starts with `#` asks for a number or a
/// label, one that starts with `@` for an author or an assignee, and any other one for a title, a
/// number, a label or a body.
pub open spec fn matches_word(issue: IssueView, word: Seq<char>, rule: Matcher) -> bool {
    let number = decimal(issue.number as nat);
    if word.len() > 0 && word[0] == '#' {
        let rest = word.skip(1);
        contains_text(number, rest) || any_matches(rest, issue.labels, rule)
    } else if word.len() > 0 && word[0] == '@' {
        let rest = word.skip(1);
        some_matches(rest, issue.author, rule) || any_matches(rest, issue.assignees, rule)
    } else {
        rule(word, issue.title) || contains_text(number, word) || any_matches(
            word,
            issue.labels,
            rule,
        ) || some_matches(word, issue.body, rule)
    }
}

/// Whether an issue matches every word of a query.
pub open spec fn matches_query(issue: IssueView, query: Seq<char>, rule: Matcher) -> bool {
    forall|i: int|
        0 <= i < words(query).len() ==> matches_word(issue, #[trigger] words(query)[i], rule)
}

/// The places of the issues that match a query, in order.
pub open spec fn kept(issues: Seq<IssueView>, query: Seq<char>, rule: Matcher) -> Seq<int>
    decreases issues.len(),
{
    if issues.len() == 0 {
        Seq::empty()
    } else {
        let before = kept(issues.drop_last(), query, rule);
        if matches_query(issues.last(), query, rule) {
            before.push(issues.len() - 1)
        } else {
            before
        }
    }
}

/// The places that a list of indices names.
pub open spec fn places(list: Seq<usize>) -> Seq<int> {
    Seq::new(list.len(), |i: int| list[i] as int)
}

/// Whether a list names places below `n`, each before the next.
pub open spec fn is_selection(list: Seq<int>, n: int) -> bool {
    &&& forall|i: int| 0 <= i < list.len() ==> 0 <= #[trigger] list[i] < n
    &&& forall|i: int, j: int| 0 <= i < j < list.len() ==> list[i] < list[j]
}

/// Whether a function can be the reason why a query lists these places: each issue that it is sure
/// to match is listed, and only issues that it may match are.
pub open spec fn is_answer<F: Fn(&str, &str) -> bool>(
    f: F,
    issues: Seq<IssueView>,
    query: Seq<char>,
    list: Seq<int>,
) -> bool {
    &&& is_selection(list, issues.len() as int)
    &&& forall|place: int|
        0 <= place < issues.len() && matches_query(#[trigger] issues[place], query, must_match(f))
            ==> list.contains(place)
    &&& forall|place: int| #[trigger]
        list.contains(place) ==> matches_query(issues[place], query, may_match(f))
}

/// Asks whether a word matches one of the texts.
fn any_match<F: Fn(&str, &str) -> bool>(word: &str, list: &Vec<String>, fuzzy_match: &F) -> (yes:
    bool)
    requires
        answers(*fuzzy_match),
    ensures
        forall|rule: Matcher| #[trigger]
            decides(*fuzzy_match, rule) ==> yes == any_matches(word@, texts(list@), rule),
        any_matches(word@, texts(list@), must_match(*fuzzy_match)) ==> yes,
        yes ==> any_matches(word@, texts(list@), may_match(*fuzzy_match)),
{
    let mut i: usize = 0;
    while i < list.len()
        invariant
            i <= list@.len(),
            answers(*fuzzy_match),
            forall|rule: Matcher, j: int| #[trigger]
                decides(*fuzzy_match, rule) && 0 <= j < i ==> !rule(
                    word@,
                    #[trigger] texts(list@)[j],
                ),
            forall|j: int|
                0 <= j < i ==> !must_match(*fuzzy_match)(word@, #[trigger] texts(list@)[j]),
        decreases list@.len() - i,
    {
        let yes = fuzzy_match(word, list[i].as_str());
        assert(texts(list@)[i as int] == list@[i as int]@);
        if yes {
            return true;
        }
        i += 1;
    }
    false
}

/// Asks whether a word matches a text that may be missing.
fn some_match<F: Fn(&str, &str) -> bool>(
    word: &str,
    text: &Option<String>,
    fuzzy_match: &F,
) -> (yes: bool)
    requires
        answers(*fuzzy_match),
    ensures
        forall|rule: Matcher| #[trigger]
            decides(*fuzzy_match, rule) ==> yes == some_matches(
                word@,
                crate::model::text_of(*text),
                rule,
            ),
        some_matches(word@, crate::model::text_of(*text), must_match(*fuzzy_match)) ==> yes,
        yes ==> some_matches(word@, crate::model::text_of(*text), may_match(*fuzzy_match)),
{
    match text {
        Some(text) => fuzzy_match(word, text.as_str()),
        None => false,
    }
}

/// Tells whether an issue matches a word of a query.
pub fn issue_matches<F: Fn(&str, &str) -> bool>(
    issue: &IssueEntry,
    token: &str,
    fuzzy_match: &F,
) -> (yes: bool)
    requires
        answers(*fuzzy_match),
    ensures
        forall|rule: Matcher| #[trigger]
            decides(*fuzzy_match, rule) ==> yes == matches_word(issue@, token@, rule),
        matches_word(issue@, token@, must_match(*fuzzy_match)) ==> yes,
        yes ==> matches_word(issue@, token@, may_match(*fuzzy_match)),
        token@.len() > 0 && token@[0] == '#' && contains_text(
            decimal(issue@.number as nat),
            token@.skip(1),
        ) ==> yes,
        !(token@.len() > 0 && (token@[0] == '#' || token@[0] == '@')) && contains_text(
            decimal(issue@.number as nat),
            token@,
        ) ==> yes,
        token@.len() > 0 && token@[0] == '#' && !contains_text(
            decimal(issue@.number as nat),
            token@.skip(1),
        ) && issue@.labels.len() == 0 ==> !yes,
        token@.len() > 0 && token@[0] == '@' && issue@.author is None && issue@.assignees.len() == 0
            ==> !yes,
{
    let word = to_chars(token);
    let number = decimal_chars(issue.number);
    if word.len() > 0 && word[0] == '#' {
        let rest = vstd::slice::slice_subrange(word.as_slice(), 1, word.len());
        assert(rest@ =~= token@.skip(1));
        let text = to_text(rest);
        return find_text(number.as_slice(), rest).is_some() || any_match(
            text.as_str(),
            &issue.labels,
            fuzzy_match,
        );
    }
    if word.len() > 0 && word[0] == '@' {
        let rest = vstd::slice::slice_subrange(word.as_slice(), 1, word.len());
        assert(rest@ =~= token@.skip(1));
        let text = to_text(rest);
        return some_match(text.as_str(), &issue.author, fuzzy_match) || any_match(
            text.as_str(),
            &issue.assignees,
            fuzzy_match,
        );
    }
    fuzzy_match(token, issue.title.as_str()) || find_text(
        number.as_slice(),
        word.as_slice(),
    ).is_some() || any_match(token, &issue.labels, fuzzy_match) || some_match(
        token,
        &issue.body,
        fuzzy_match,
    )
}

/// Tells whether an issue matches every one of the words.
fn matches_all<F: Fn(&str, &str) -> bool>(
    issue: &IssueEntry,
    tokens: &Vec<String>,
    fuzzy_match: &F,
) -> (yes: bool)
    requires
        answers(*fuzzy_match),
    ensures
        forall|rule: Matcher| #[trigger]
            decides(*fuzzy_match, rule) ==> yes == forall|i: int|
                0 <= i < tokens@.len() ==> matches_word(issue@, (#[trigger] tokens@[i])@, rule),
        (forall|i: int|
            0 <= i < tokens@.len() ==> matches_word(
                issue@,
                (#[trigger] tokens@[i])@,
                must_match(*fuzzy_match),
            )) ==> yes,
        yes ==> forall|i: int|
            0 <= i < tokens@.len() ==> matches_word(
                issue@,
                (#[trigger] tokens@[i])@,
                may_match(*fuzzy_match),
            ),
{
    let mut i: usize = 0;
    while i < tokens.len()
        invariant
            i <= tokens@.len(),
            answers(*fuzzy_match),
            forall|rule: Matcher, j: int| #[trigger]
                decides(*fuzzy_match, rule) && 0 <= j < i ==> matches_word(
                    issue@,
                    (#[trigger] tokens@[j])@,
                    rule,
                ),
            forall|j: int|
                0 <= j < i ==> matches_word(
                    issue@,
                    (#[trigger] tokens@[j])@,
                    may_match(*fuzzy_match),
                ),
        decreases tokens@.len() - i,
    {
        if !issue_matches(issue, tokens[i].as_str(), fuzzy_match) {
            return false;
        }
        i += 1;
    }
    true
}

/// One more issue is listed where the function matches it.
proof fn lemma_answer_grows<F: Fn(&str, &str) -> bool>(
    f: F,
    issues: Seq<IssueView>,
    query: Seq<char>,
    before: Seq<int>,
    yes: bool,
)
    requires
        issues.len() > 0,
        is_answer(f, issues.drop_last(), query, before),
        matches_query(issues.last(), query, must_match(f)) ==> yes,
        yes ==> matches_query(issues.last(), query, may_match(f)),
    ensures
        is_answer(
            f,
            issues,
            query,
            if yes {
                before.push(issues.len() - 1)
            } else {
                before
            },
        ),
{
    let init = issues.drop_last();
    let last = issues.len() - 1;
    let list = if yes {
        before.push(last)
    } else {
        before
    };
    assert forall|place: int|
        0 <= place < issues.len() && matches_query(
            #[trigger] issues[place],
            query,
            must_match(f),
        ) implies list.contains(place) by {
        if place < last {
            assert(init[place] == issues[place]);
            let k = choose|k: int| 0 <= k < before.len() && before[k] == place;
            assert(list[k] == place);
        } else {
            assert(list.last() == place);
        }
    }
    assert forall|place: int| #[trigger] list.contains(place) implies matches_query(
        issues[place],
        query,
        may_match(f),
    ) by {
        let k = choose|k: int| 0 <= k < list.len() && list[k] == place;
        if k < before.len() {
            assert(before[k] == place);
            assert(before.contains(place));
            assert(init[place] == issues[place]);
        }
    }
}

/// Gives the places of the issues that match a query, in order. The function tells which texts a
/// word of the query matches.
pub fn filter_issues<F: Fn(&str, &str) -> bool>(
    issues: &[IssueEntry],
    query: &str,
    fuzzy_match: &F,
) -> (r: Vec<usize>)
    requires
        answers(*fuzzy_match),
    ensures
        is_selection(places(r@), issues@.len() as int),
        forall|rule: Matcher| #[trigger]
            decides(*fuzzy_match, rule) ==> places(r@) == kept(views(issues@), query@, rule),
        is_answer(*fuzzy_match, views(issues@), query@, places(r@)),
        words(query@).len() == 0 ==> places(r@) == Seq::new(issues@.len(), |i: int| i),
{
    let found = split_words(to_chars(query).as_slice());
    let mut tokens: Vec<String> = Vec::new();
    for k in 0..found.len()
        invariant
            tokens@.len() == k,
            found@.len() == words(query@).len(),
            forall|i: int| 0 <= i < found@.len() ==> (#[trigger] found@[i])@ == words(query@)[i],
            forall|i: int| 0 <= i < k ==> (#[trigger] tokens@[i])@ == words(query@)[i],
    {
        tokens.push(to_text(found[k].as_slice()));
    }
    let mut r: Vec<usize> = Vec::new();
    assert(views(issues@).take(0) =~= Seq::empty());
    for k in 0..issues.len()
        invariant
            answers(*fuzzy_match),
            tokens@.len() == words(query@).len(),
            forall|i: int| 0 <= i < tokens@.len() ==> (#[trigger] tokens@[i])@ == words(query@)[i],
            is_selection(places(r@), k as int),
            forall|rule: Matcher| #[trigger]
                decides(*fuzzy_match, rule) ==> places(r@) == kept(
                    views(issues@).take(k as int),
                    query@,
                    rule,
                ),
            is_answer(*fuzzy_match, views(issues@).take(k as int), query@, places(r@)),
            words(query@).len() == 0 ==> places(r@) == Seq::new(k as nat, |i: int| i),
    {
        let yes = matches_all(&issues[k], &tokens, fuzzy_match);
        let ghost before = r@;
        let ghost now = views(issues@).take(k + 1);
        proof {
            assert(now.drop_last() =~= views(issues@).take(k as int));
            assert(now.last() == issues@[k as int]@);
            assert forall|rule: Matcher| #[trigger] decides(*fuzzy_match, rule) implies yes
                == matches_query(issues@[k as int]@, query@, rule) by {
                if yes {
                    assert forall|i: int| 0 <= i < words(query@).len() implies matches_word(
                        issues@[k as int]@,
                        #[trigger] words(query@)[i],
                        rule,
                    ) by {
                        assert(tokens@[i]@ == words(query@)[i]);
                    }
                }
            }
            if yes {
                assert forall|i: int| 0 <= i < words(query@).len() implies matches_word(
                    issues@[k as int]@,
                    #[trigger] words(query@)[i],
                    may_match(*fuzzy_match),
                ) by {
                    assert(tokens@[i]@ == words(query@)[i]);
                }
            }
            lemma_answer_grows(*fuzzy_match, now, query@, places(before), yes);
        }
        if yes {
            r.push(k);
            assert(places(r@) =~= places(before).push(k as int));
        }
    }
    assert(views(issues@).take(issues@.len() as int) =~= views(issues@));
    r
}

/// The words of two texts with white space between them are the words of the one and then those of
/// the other.
pub proof fn lemma_words_apart(a: Seq<char>, c: char, b: Seq<char>)
    requires
        white_space(c),
    ensures
        words(a + seq![c] + b) == words(a) + words(b),
    decreases b.len(),
{
    let s = a + seq![c] + b;
    if b.len() == 0 {
        assert(s.drop_last() =~= a);
        assert(words(a) + words(b) =~= words(a));
    } else {
        let init = b.drop_last();
        lemma_words_apart(a, c, init);
        lemma_words(init);
        assert(s.drop_last() =~= a + seq![c] + init);
        assert(s.last() == b.last());
        let left = words(a);
        let right = words(init);
        if white_space(b.last()) {
        } else if init.len() > 0 && !white_space(init.last()) {
            assert(s.drop_last().last() == init.last());
            assert((left + right).last() == right.last());
            assert((left + right).drop_last() =~= left + right.drop_last());
            assert(words(s) =~= left + words(b));
        } else {
            assert(white_space(s.drop_last().last()));
            assert(words(s) =~= left + words(b));
        }
    }
}

/// A text that is not empty and holds no white space is one word.
pub proof fn lemma_one_word(s: Seq<char>)
    requires
        s.len() > 0,
        forall|k: int| 0 <= k < s.len() ==> !white_space(#[trigger] s[k]),
    ensures
        words(s) == seq![s],
    decreases s.len(),
{
    let init = s.drop_last();
    if init.len() == 0 {
        assert(words(init) =~= Seq::empty());
        assert(s =~= seq![s.last()]);
        assert(words(s) =~= seq![s]);
    } else {
        assert forall|k: int| 0 <= k < init.len() implies !white_space(#[trigger] init[k]) by {
            assert(init[k] == s[k]);
        }
        lemma_one_word(init);
        assert(init.last() == s[s.len() - 2]);
        assert(init.push(s.last()) =~= s);
        assert(words(s) =~= seq![s]);
    }
}

/// A query keeps exactly the issues that match all of its words, each once and in their order.
pub proof fn law_kept_are_the_matching(
    issues: Seq<IssueView>,
    query: Seq<char>,
    rule: Matcher,
    place: int,
)
    ensures
        is_selection(kept(issues, query, rule), issues.len() as int),
        kept(issues, query, rule).contains(place) <==> 0 <= place < issues.len() && matches_query(
            issues[place],
            query,
            rule,
        ),
    decreases issues.len(),
{
    if issues.len() > 0 {
        let init = issues.drop_last();
        let before = kept(init, query, rule);
        let all = kept(issues, query, rule);
        law_kept_are_the_matching(init, query, rule, place);
        if 0 <= place < init.len() {
            assert(init[place] == issues[place]);
        }
        if matches_query(issues.last(), query, rule) {
            assert(all.last() == issues.len() - 1);
            if before.contains(place) {
                let k = choose|k: int| 0 <= k < before.len() && before[k] == place;
                assert(all[k] == place);
            }
            if all.contains(place) && place != issues.len() - 1 {
                let k = choose|k: int| 0 <= k < all.len() && all[k] == place;
                assert(before[k] == place);
            }
        }
    }
}

/// A query without a word keeps every issue.
pub proof fn law_empty_query_keeps_all(issues: Seq<IssueView>, query: Seq<char>, rule: Matcher)
    requires
        words(query).len() == 0,
    ensures
        kept(issues, query, rule) == Seq::new(issues.len(), |i: int| i),
    decreases issues.len(),
{
    if issues.len() > 0 {
        law_empty_query_keeps_all(issues.drop_last(), query, rule);
        assert(kept(issues, query, rule) =~= Seq::new(issues.len(), |i: int| i));
    }
}

/// A query of two parts keeps what each of the parts keeps: more words keep fewer issues.
pub proof fn law_words_narrow(
    issues: Seq<IssueView>,
    first: Seq<char>,
    gap: char,
    second: Seq<char>,
    rule: Matcher,
    place: int,
)
    requires
        white_space(gap),
    ensures
        kept(issues, first + seq![gap] + second, rule).contains(place) <==> kept(
            issues,
            first,
            rule,
        ).contains(place) && kept(issues, second, rule).contains(place),
{
    let both = first + seq![gap] + second;
    lemma_words_apart(first, gap, second);
    law_kept_are_the_matching(issues, both, rule, place);
    law_kept_are_the_matching(issues, first, rule, place);
    law_kept_are_the_matching(issues, second, rule, place);
    if 0 <= place < issues.len() {
        let issue = issues[place];
        let n = words(first).len() as int;
        if matches_query(issue, both, rule) {
            assert forall|i: int| 0 <= i < words(first).len() implies matches_word(
                issue,
                #[trigger] words(first)[i],
                rule,
            ) by {
                assert(words(both)[i] == words(first)[i]);
            }
            assert forall|i: int| 0 <= i < words(second).len() implies matches_word(
                issue,
                #[trigger] words(second)[i],
                rule,
            ) by {
                assert(words(both)[n + i] == words(second)[i]);
            }
        }
        if matches_query(issue, first, rule) && matches_query(issue, second, rule) {
            assert forall|i: int| 0 <= i < words(both).len() implies matches_word(
                issue,
                #[trigger] words(both)[i],
                rule,
            ) by {
                if i < n {
                    assert(words(both)[i] == words(first)[i]);
                } else {
                    assert(words(both)[i] == words(second)[i - n]);
                }
            }
        }
    }
}

/// A number in decimal is digits.
pub proof fn lemma_decimal(n: nat)
    ensures
        decimal(n).len() > 0,
        forall|k: int| 0 <= k < decimal(n).len() ==> '0' <= #[trigger] decimal(n)[k] <= '9',
    decreases n,
{
    if n >= 10 {
        lemma_decimal(n / 10);
        let d = digit(n % 10);
        assert('0' <= d <= '9');
        assert forall|k: int| 0 <= k < decimal(n).len() implies '0' <= #[trigger] decimal(n)[k]
            <= '9' by {
            if k < decimal(n).len() - 1 {
                assert(decimal(n)[k] == decimal(n / 10)[k]);
            }
        }
    }
}

/// The number of an issue, with or without `#` before it, finds the issue, whatever the rule.
pub proof fn law_number_finds_issue(issue: IssueView, rule: Matcher)
    ensures
        matches_query(issue, decimal(issue.number as nat), rule),
        matches_query(issue, seq!['#'] + decimal(issue.number as nat), rule),
{
    let number = decimal(issue.number as nat);
    let marked = seq!['#'] + number;
    lemma_decimal(issue.number as nat);
    lemma_one_word(number);
    assert forall|k: int| 0 <= k < marked.len() implies !white_space(#[trigger] marked[k]) by {
        if k > 0 {
            assert(marked[k] == number[k - 1]);
        }
    }
    lemma_one_word(marked);
    assert(number.subrange(0, number.len() as int) =~= number);
    assert(occurs_at(number, number, 0));
    assert(marked.skip(1) =~= number);
}

/// Whether a text is one word of a query.
pub open spec fn is_word(s: Seq<char>) -> bool {
    &&& s.len() > 0
    &&& forall|k: int| 0 <= k < s.len() ==> !white_space(#[trigger] s[k])
}

/// A query of one word keeps the issues that match it.
proof fn lemma_one_word_keeps(issues: Seq<IssueView>, word: Seq<char>, rule: Matcher, place: int)
    requires
        is_word(word),
        0 <= place < issues.len(),
    ensures
        kept(issues, word, rule).contains(place) <==> matches_word(issues[place], word, rule),
{
    lemma_one_word(word);
    law_kept_are_the_matching(issues, word, rule, place);
    if matches_query(issues[place], word, rule) {
        assert(words(word)[0] == word);
    }
}

/// The kept places are places of issues, and each stands before the next.
pub proof fn law_kept_in_order(
    issues: Seq<IssueView>,
    query: Seq<char>,
    rule: Matcher,
    first: int,
    second: int,
)
    requires
        0 <= first < second < kept(issues, query, rule).len(),
    ensures
        0 <= kept(issues, query, rule)[first] < kept(issues, query, rule)[second] < issues.len(),
{
    law_kept_are_the_matching(issues, query, rule, 0);
}

/// A word with neither mark finds an issue by its title.
pub proof fn law_plain_word_finds_title(
    issues: Seq<IssueView>,
    word: Seq<char>,
    rule: Matcher,
    place: int,
)
    requires
        is_word(word),
        word[0] != '#' && word[0] != '@',
        0 <= place < issues.len(),
        rule(word, issues[place].title),
    ensures
        kept(issues, word, rule).contains(place),
{
    lemma_one_word_keeps(issues, word, rule, place);
}

/// A word with neither mark finds an issue by any of its labels.
pub proof fn law_plain_word_finds_label(
    issues: Seq<IssueView>,
    word: Seq<char>,
    rule: Matcher,
    place: int,
    label: int,
)
    requires
        is_word(word),
        word[0] != '#' && word[0] != '@',
        0 <= place < issues.len(),
        0 <= label < issues[place].labels.len(),
        rule(word, issues[place].labels[label]),
    ensures
        kept(issues, word, rule).contains(place),
{
    lemma_one_word_keeps(issues, word, rule, place);
}

/// A word with neither mark finds an issue by its text, where it has one.
pub proof fn law_plain_word_finds_body(
    issues: Seq<IssueView>,
    word: Seq<char>,
    rule: Matcher,
    place: int,
    body: Seq<char>,
)
    requires
        is_word(word),
        word[0] != '#' && word[0] != '@',
        0 <= place < issues.len(),
        issues[place].body == Some(body),
        rule(word, body),
    ensures
        kept(issues, word, rule).contains(place),
{
    lemma_one_word_keeps(issues, word, rule, place);
}

/// A word with neither mark finds an issue by a part of its number, whatever the rule.
pub proof fn law_plain_word_finds_number(
    issues: Seq<IssueView>,
    lead: Seq<char>,
    word: Seq<char>,
    tail: Seq<char>,
    rule: Matcher,
    place: int,
)
    requires
        is_word(word),
        word[0] != '#' && word[0] != '@',
        0 <= place < issues.len(),
        decimal(issues[place].number as nat) == lead + word + tail,
    ensures
        kept(issues, word, rule).contains(place),
{
    lemma_one_word_keeps(issues, word, rule, place);
    lemma_part_occurs(lead, word, tail);
}

/// A word with neither mark finds an issue by nothing but its title, its number, its labels and its
/// text.
pub proof fn law_plain_word_finds_no_more(
    issues: Seq<IssueView>,
    word: Seq<char>,
    rule: Matcher,
    place: int,
)
    requires
        is_word(word),
        word[0] != '#' && word[0] != '@',
        0 <= place < issues.len(),
        kept(issues, word, rule).contains(place),
    ensures
        ({
            let issue = issues[place];
            let number = decimal(issue.number as nat);
            ||| rule(word, issue.title)
            ||| exists|lead: Seq<char>, tail: Seq<char>|
                number == #[trigger] (lead + word + tail)
            ||| exists|i: int| 0 <= i < issue.labels.len() && rule(word, #[trigger] issue.labels[i])
            ||| issue.body is Some && rule(word, issue.body->0)
        }),
{
    lemma_one_word_keeps(issues, word, rule, place);
    let number = decimal(issues[place].number as nat);
    if contains_text(number, word) {
        lemma_occurs_as_part(number, word);
    }
}

/// A word with `#` before it finds an issue by any of its labels.
pub proof fn law_hash_finds_label(
    issues: Seq<IssueView>,
    rest: Seq<char>,
    rule: Matcher,
    place: int,
    label: int,
)
    requires
        is_word(seq!['#'] + rest),
        0 <= place < issues.len(),
        0 <= label < issues[place].labels.len(),
        rule(rest, issues[place].labels[label]),
    ensures
        kept(issues, seq!['#'] + rest, rule).contains(place),
{
    lemma_one_word_keeps(issues, seq!['#'] + rest, rule, place);
    assert((seq!['#'] + rest).skip(1) =~= rest);
}

/// A word with `#` before it finds an issue by a part of its number, whatever the rule.
pub proof fn law_hash_finds_number(
    issues: Seq<IssueView>,
    lead: Seq<char>,
    rest: Seq<char>,
    tail: Seq<char>,
    rule: Matcher,
    place: int,
)
    requires
        is_word(seq!['#'] + rest),
        0 <= place < issues.len(),
        decimal(issues[place].number as nat) == lead + rest + tail,
    ensures
        kept(issues, seq!['#'] + rest, rule).contains(place),
{
    lemma_one_word_keeps(issues, seq!['#'] + rest, rule, place);
    assert((seq!['#'] + rest).skip(1) =~= rest);
    lemma_part_occurs(lead, rest, tail);
}

/// A word with `#` before it finds an issue by nothing but its number and its labels.
pub proof fn law_hash_finds_no_more(
    issues: Seq<IssueView>,
    rest: Seq<char>,
    rule: Matcher,
    place: int,
)
    requires
        is_word(seq!['#'] + rest),
        0 <= place < issues.len(),
        kept(issues, seq!['#'] + rest, rule).contains(place),
    ensures
        ({
            let issue = issues[place];
            let number = decimal(issue.number as nat);
            ||| exists|lead: Seq<char>, tail: Seq<char>|
                number == #[trigger] (lead + rest + tail)
            ||| exists|i: int| 0 <= i < issue.labels.len() && rule(rest, #[trigger] issue.labels[i])
        }),
{
    lemma_one_word_keeps(issues, seq!['#'] + rest, rule, place);
    assert((seq!['#'] + rest).skip(1) =~= rest);
    let number = decimal(issues[place].number as nat);
    if contains_text(number, rest) {
        lemma_occurs_as_part(number, rest);
    }
}

/// A word with `@` before it finds an issue by its author.
pub proof fn law_at_finds_author(
    issues: Seq<IssueView>,
    rest: Seq<char>,
    rule: Matcher,
    place: int,
    author: Seq<char>,
)
    requires
        is_word(seq!['@'] + rest),
        0 <= place < issues.len(),
        issues[place].author == Some(author),
        rule(rest, author),
    ensures
        kept(issues, seq!['@'] + rest, rule).contains(place),
{
    lemma_one_word_keeps(issues, seq!['@'] + rest, rule, place);
    assert((seq!['@'] + rest).skip(1) =~= rest);
}

/// A word with `@` before it finds an issue by any of its assignees.
pub proof fn law_at_finds_assignee(
    issues: Seq<IssueView>,
    rest: Seq<char>,
    rule: Matcher,
    place: int,
    assignee: int,
)
    requires
        is_word(seq!['@'] + rest),
        0 <= place < issues.len(),
        0 <= assignee < issues[place].assignees.len(),
        rule(rest, issues[place].assignees[assignee]),
    ensures
        kept(issues, seq!['@'] + rest, rule).contains(place),
{
    lemma_one_word_keeps(issues, seq!['@'] + rest, rule, place);
    assert((seq!['@'] + rest).skip(1) =~= rest);
}

/// A word with `@` before it finds an issue by nothing but its author and its assignees.
pub proof fn law_at_finds_no_more(
    issues: Seq<IssueView>,
    rest: Seq<char>,
    rule: Matcher,
    place: int,
)
    requires
        is_word(seq!['@'] + rest),
        0 <= place < issues.len(),
        kept(issues, seq!['@'] + rest, rule).contains(place),
    ensures
        ({
            let issue = issues[place];
            ||| issue.author is Some && rule(rest, issue.author->0)
            ||| exists|i: int|
                0 <= i < issue.assignees.len() && rule(rest, #[trigger] issue.assignees[i])
        }),
{
    lemma_one_word_keeps(issues, seq!['@'] + rest, rule, place);
    assert((seq!['@'] + rest).skip(1) =~= rest);
}

/// A query of several words keeps an issue exactly where each of its words, asked alone, keeps it.
pub proof fn law_query_asks_every_word(
    issues: Seq<IssueView>,
    query: Seq<char>,
    rule: Matcher,
    place: int,
)
    requires
        0 <= place < issues.len(),
    ensures
        kept(issues, query, rule).contains(place) <==> forall|i: int|
            0 <= i < words(query).len() ==> kept(
                issues,
                #[trigger] words(query)[i],
                rule,
            ).contains(place),
{
    law_kept_are_the_matching(issues, query, rule, place);
    lemma_words(query);
    assert forall|i: int| 0 <= i < words(query).len() implies kept(
        issues,
        #[trigger] words(query)[i],
        rule,
    ).contains(place) == matches_word(issues[place], words(query)[i], rule) by {
        let word = words(query)[i];
        assert(is_word(word)) by {
            assert forall|k: int| 0 <= k < word.len() implies !white_space(#[trigger] word[k]) by {
                assert(!white_space(words(query)[i][k]));
            }
        }
        lemma_one_word_keeps(issues, word, rule, place);
    }
}

/// A function whose every answer is what the rule says follows the rule, and answers by no other
/// rule where it answers at all.
pub proof fn law_rule_of_function<F: Fn(&str, &str) -> bool>(f: F, rule: Matcher)
    ensures
        (forall|word: &str, text: &str, r: bool| #[trigger]
            call_ensures(f, (word, text), r) ==> r == rule(word@, text@)) ==> decides(f, rule),
        decides(f, rule) ==> forall|word: &str, text: &str, r: bool| #[trigger]
            call_ensures(f, (word, text), r) ==> r == rule(word@, text@),
        (forall|word: &str, text: &str| #[trigger] call_requires(f, (word, text))) ==> answers(f),
{
}

/// Where a function follows a rule, it may match what the rule matches and no more, and is sure to
/// match what the rule matches.
pub proof fn law_matching_by_rule<F: Fn(&str, &str) -> bool>(
    f: F,
    rule: Matcher,
    word: &str,
    text: &str,
)
    requires
        decides(f, rule),
    ensures
        rule(word@, text@) ==> must_match(f)(word@, text@),
        may_match(f)(word@, text@) ==> rule(word@, text@),
{
}

/// A token with neither mark matches an issue whose title, number, labels or text it finds, and no
/// other one.
pub proof fn law_plain_token(issue: IssueView, token: Seq<char>, rule: Matcher)
    requires
        token.len() > 0 ==> token[0] != '#' && token[0] != '@',
    ensures
        ({
            let number = decimal(issue.number as nat);
            matches_word(issue, token, rule) <==> {
                ||| rule(token, issue.title)
                ||| exists|lead: Seq<char>, tail: Seq<char>|
                    number == #[trigger] (lead + token + tail)
                ||| exists|i: int|
                    0 <= i < issue.labels.len() && rule(token, #[trigger] issue.labels[i])
                ||| issue.body is Some && rule(token, issue.body->0)
            }
        }),
{
    lemma_contains_iff_part(decimal(issue.number as nat), token);
}

/// A token with `#` before it matches an issue whose number or labels it finds, and no other one.
pub proof fn law_hash_token(issue: IssueView, rest: Seq<char>, rule: Matcher)
    ensures
        ({
            let number = decimal(issue.number as nat);
            matches_word(issue, seq!['#'] + rest, rule) <==> {
                ||| exists|lead: Seq<char>, tail: Seq<char>|
                    number == #[trigger] (lead + rest + tail)
                ||| exists|i: int|
                    0 <= i < issue.labels.len() && rule(rest, #[trigger] issue.labels[i])
            }
        }),
{
    assert((seq!['#'] + rest).skip(1) =~= rest);
    lemma_contains_iff_part(decimal(issue.number as nat), rest);
}

/// A token with `@` before it matches an issue whose author or assignees it finds, and no other one.
pub proof fn law_at_token(issue: IssueView, rest: Seq<char>, rule: Matcher)
    ensures
        matches_word(issue, seq!['@'] + rest, rule) <==> {
            ||| issue.author is Some && rule(rest, issue.author->0)
            ||| exists|i: int|
                0 <= i < issue.assignees.len() && rule(rest, #[trigger] issue.assignees[i])
        },
{
    assert((seq!['@'] + rest).skip(1) =~= rest);
}

/// A text stands in another exactly where it is a part of it.
proof fn lemma_contains_iff_part(s: Seq<char>, p: Seq<char>)
    ensures
        contains_text(s, p) <==> exists|lead: Seq<char>, tail: Seq<char>|
            s == #[trigger] (lead + p + tail),
{
    if contains_text(s, p) {
        lemma_occurs_as_part(s, p);
    }
    if exists|lead: Seq<char>, tail: Seq<char>| s == #[trigger] (lead + p + tail) {
        let (lead, tail) = choose|lead: Seq<char>, tail: Seq<char>|
            s == #[trigger] (lead + p + tail);
        lemma_part_occurs(lead, p, tail);
    }
}

} // verus!
