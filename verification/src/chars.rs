//! Text as sequences of characters: what the pieces of a string are, and functions that cut them
//! out.

use vstd::prelude::*;
use vstd::slice::{slice_subrange, slice_to_vec};

verus! {

/// Appends one character to a string.
///
/// Specifies `String::push`: the character goes to the end, nothing else changes.
pub assume_specification[ String::push ](s: &mut String, c: char)
    ensures
        final(s)@ == old(s)@.push(c),
;

/// The characters that Unicode gives the property `White_Space`.
pub open spec fn white_space(c: char) -> bool {
    let n = c as u32;
    ||| 0x09 <= n <= 0x0d
    ||| n == 0x20
    ||| n == 0x85
    ||| n == 0xa0
    ||| n == 0x1680
    ||| 0x2000 <= n <= 0x200a
    ||| n == 0x2028
    ||| n == 0x2029
    ||| n == 0x202f
    ||| n == 0x205f
    ||| n == 0x3000
}

/// Tells whether a character has the property `White_Space`.
pub fn is_white_space(c: char) -> (yes: bool)
    ensures
        yes == white_space(c),
{
    let n: u32 = c as u32;
    (0x09 <= n && n <= 0x0d) || n == 0x20 || n == 0x85 || n == 0xa0 || n == 0x1680 || (0x2000 <= n
        && n <= 0x200a) || n == 0x2028 || n == 0x2029 || n == 0x202f || n == 0x205f || n == 0x3000
}

/// The characters of a string, in order.
pub fn to_chars(s: &str) -> (r: Vec<char>)
    ensures
        r@ == s@,
{
    let mut r: Vec<char> = Vec::new();
    for c in it: s.chars()
        invariant
            it.seq() == s@,
            r@ == s@.take(it.index() as int),
    {
        r.push(c);
    }
    r
}

/// The string made of the given characters.
pub fn to_text(chars: &[char]) -> (r: String)
    ensures
        r@ == chars@,
{
    let mut r = String::new();
    for i in 0..chars.len()
        invariant
            r@ == chars@.take(i as int),
    {
        r.push(chars[i]);
        assert(chars@.take(i + 1) =~= chars@.take(i as int).push(chars@[i as int]));
    }
    assert(chars@.take(chars@.len() as int) =~= chars@);
    r
}

/// A class of characters that can be trimmed off the ends of a text.
#[derive(Clone, Copy)]
pub enum CharClass {
    /// Every white-space character.
    WhiteSpace,
    /// One character only.
    Just(char),
}

impl CharClass {
    /// Whether the class holds the character.
    pub open spec fn has(self, c: char) -> bool {
        match self {
            CharClass::WhiteSpace => white_space(c),
            CharClass::Just(only) => c == only,
        }
    }

    /// Tells whether the class holds the character.
    pub fn contains(self, c: char) -> (yes: bool)
        ensures
            yes == self.has(c),
    {
        match self {
            CharClass::WhiteSpace => is_white_space(c),
            CharClass::Just(only) => c == only,
        }
    }
}

/// The text without the characters of the class at its start.
pub open spec fn trim_start(s: Seq<char>, class: CharClass) -> Seq<char>
    decreases s.len(),
{
    if s.len() > 0 && class.has(s[0]) {
        trim_start(s.skip(1), class)
    } else {
        s
    }
}

/// The text without the characters of the class at its end.
pub open spec fn trim_end(s: Seq<char>, class: CharClass) -> Seq<char>
    decreases s.len(),
{
    if s.len() > 0 && class.has(s.last()) {
        trim_end(s.drop_last(), class)
    } else {
        s
    }
}

/// The text without the characters of the class at either end.
pub open spec fn trim(s: Seq<char>, class: CharClass) -> Seq<char> {
    trim_end(trim_start(s, class), class)
}

/// The part of a text that is left when the class is trimmed off its start.
pub fn trimmed_start(s: &[char], class: CharClass) -> (r: &[char])
    ensures
        r@ == trim_start(s@, class),
{
    let mut lo: usize = 0;
    assert(s@.skip(0) =~= s@);
    while lo < s.len() && class.contains(s[lo])
        invariant
            lo <= s@.len(),
            trim_start(s@, class) == trim_start(s@.skip(lo as int), class),
        decreases s@.len() - lo,
    {
        assert(s@.skip(lo as int).skip(1) =~= s@.skip(lo + 1));
        lo += 1;
    }
    assert(s@.skip(lo as int) =~= s@.subrange(lo as int, s@.len() as int));
    slice_subrange(s, lo, s.len())
}

/// The part of a text that is left when the class is trimmed off its end.
pub fn trimmed_end(s: &[char], class: CharClass) -> (r: &[char])
    ensures
        r@ == trim_end(s@, class),
{
    let mut hi: usize = s.len();
    assert(s@.take(hi as int) =~= s@);
    while hi > 0 && class.contains(s[hi - 1])
        invariant
            hi <= s@.len(),
            trim_end(s@, class) == trim_end(s@.take(hi as int), class),
        decreases hi,
    {
        assert(s@.take(hi as int).drop_last() =~= s@.take(hi - 1));
        hi -= 1;
    }
    assert(s@.take(hi as int) =~= s@.subrange(0, hi as int));
    slice_subrange(s, 0, hi)
}

/// The part of a text that is left when the class is trimmed off both ends.
pub fn trimmed(s: &[char], class: CharClass) -> (r: &[char])
    ensures
        r@ == trim(s@, class),
{
    trimmed_end(trimmed_start(s, class), class)
}

/// Where the character first stands in the text; the text's length where it does not.
pub open spec fn find(s: Seq<char>, c: char) -> int
    decreases s.len(),
{
    if s.len() == 0 || s[0] == c {
        0
    } else {
        1 + find(s.skip(1), c)
    }
}

/// `find` gives the first place: the character stands there unless the text ends, and nowhere
/// before.
pub proof fn lemma_find(s: Seq<char>, c: char)
    ensures
        0 <= find(s, c) <= s.len(),
        find(s, c) < s.len() ==> s[find(s, c)] == c,
        forall|j: int| 0 <= j < find(s, c) ==> s[j] != c,
    decreases s.len(),
{
    if s.len() > 0 && s[0] != c {
        let rest = s.skip(1);
        lemma_find(rest, c);
        assert forall|j: int| 0 <= j < find(s, c) implies s[j] != c by {
            if j > 0 {
                assert(rest[j - 1] == s[j]);
            }
        }
    }
}

/// Only the first place is the one that `find` gives.
pub proof fn lemma_find_is(s: Seq<char>, c: char, at: int)
    requires
        0 <= at <= s.len(),
        at < s.len() ==> s[at] == c,
        forall|j: int| 0 <= j < at ==> s[j] != c,
    ensures
        find(s, c) == at,
{
    lemma_find(s, c);
}

/// Finds where a character first stands in a text; gives the text's length where it does not.
pub fn find_char(s: &[char], c: char) -> (at: usize)
    ensures
        at == find(s@, c),
        at <= s@.len(),
{
    let mut i: usize = 0;
    while i < s.len() && s[i] != c
        invariant
            i <= s@.len(),
            forall|j: int| 0 <= j < i ==> s@[j] != c,
        decreases s@.len() - i,
    {
        i += 1;
    }
    proof {
        lemma_find_is(s@, c, i as int);
    }
    i
}

/// The text up to the first such character; all of it where there is none.
pub open spec fn before(s: Seq<char>, c: char) -> Seq<char> {
    s.take(find(s, c))
}

/// The text behind the first such character, if there is one.
pub open spec fn after(s: Seq<char>, c: char) -> Option<Seq<char>> {
    if find(s, c) < s.len() {
        Some(s.skip(find(s, c) + 1))
    } else {
        None
    }
}

/// Cuts a text off before the first such character.
pub fn cut_before(s: &[char], c: char) -> (r: &[char])
    ensures
        r@ == before(s@, c),
{
    let at = find_char(s, c);
    assert(s@.take(at as int) =~= s@.subrange(0, at as int));
    slice_subrange(s, 0, at)
}

/// Gives what stands behind the first such character.
pub fn cut_after(s: &[char], c: char) -> (r: Option<&[char]>)
    ensures
        r is Some == after(s@, c) is Some,
        r matches Some(rest) ==> after(s@, c) == Some(rest@),
{
    let at = find_char(s, c);
    if at < s.len() {
        assert(s@.skip(at + 1) =~= s@.subrange(at + 1, s@.len() as int));
        Some(slice_subrange(s, at + 1, s.len()))
    } else {
        None
    }
}

/// Whether `p` stands in `s` at place `at`.
pub open spec fn occurs_at(s: Seq<char>, p: Seq<char>, at: int) -> bool {
    &&& 0 <= at
    &&& at + p.len() <= s.len()
    &&& s.subrange(at, at + p.len()) == p
}

/// Whether `p` stands in `s` somewhere.
pub open spec fn contains_text(s: Seq<char>, p: Seq<char>) -> bool {
    exists|at: int| occurs_at(s, p, at)
}

/// Whether `p` stands in `s` at `at` and nowhere before.
pub open spec fn first_occurs_at(s: Seq<char>, p: Seq<char>, at: int) -> bool {
    &&& occurs_at(s, p, at)
    &&& forall|j: int| 0 <= j < at ==> !occurs_at(s, p, j)
}

/// Tells whether `p` stands in `s` at place `at`.
fn stands_at(s: &[char], p: &[char], at: usize) -> (yes: bool)
    requires
        at <= s@.len(),
    ensures
        yes == occurs_at(s@, p@, at as int),
{
    if p.len() > s.len() - at {
        return false;
    }
    let n = s.len();
    let mut k: usize = 0;
    while k < p.len()
        invariant
            k <= p@.len(),
            at + p@.len() <= n == s@.len(),
            forall|j: int| 0 <= j < k ==> s@[at + j] == p@[j],
        decreases p@.len() - k,
    {
        if s[at + k] != p[k] {
            assert(s@.subrange(at as int, at + p@.len())[k as int] == s@[at + k]);
            return false;
        }
        k += 1;
    }
    assert(s@.subrange(at as int, at + p@.len()) =~= p@);
    true
}

/// Finds the first place where `p` stands in `s`.
pub fn find_text(s: &[char], p: &[char]) -> (r: Option<usize>)
    ensures
        r is Some == contains_text(s@, p@),
        r matches Some(at) ==> first_occurs_at(s@, p@, at as int),
{
    let mut i: usize = 0;
    while i < s.len()
        invariant
            i <= s@.len(),
            forall|j: int| 0 <= j < i ==> !occurs_at(s@, p@, j),
        decreases s@.len() - i,
    {
        if stands_at(s, p, i) {
            return Some(i);
        }
        i += 1;
    }
    if stands_at(s, p, i) {
        Some(i)
    } else {
        None
    }
}

/// Gives what stands behind the prefix `p`, if the text starts with it.
pub fn cut_prefix<'a>(s: &'a [char], p: &[char]) -> (r: Option<&'a [char]>)
    ensures
        r is Some == p@.is_prefix_of(s@),
        r matches Some(rest) ==> rest@ == s@.skip(p@.len() as int),
{
    if stands_at(s, p, 0) {
        assert(s@.skip(p@.len() as int) =~= s@.subrange(p@.len() as int, s@.len() as int));
        Some(slice_subrange(s, p.len(), s.len()))
    } else {
        None
    }
}

/// Gives what stands before the suffix `p`, if the text ends with it.
pub fn cut_suffix<'a>(s: &'a [char], p: &[char]) -> (r: Option<&'a [char]>)
    ensures
        r is Some == p@.is_suffix_of(s@),
        r matches Some(rest) ==> rest@ == s@.take(s@.len() - p@.len()),
{
    if p.len() <= s.len() && stands_at(s, p, s.len() - p.len()) {
        assert(s@.take(s@.len() - p@.len()) =~= s@.subrange(0, s@.len() - p@.len()));
        Some(slice_subrange(s, 0, s.len() - p.len()))
    } else {
        None
    }
}

/// The words of a text: its longest runs of characters that are not white space, in order.
///
/// Read from the left, a character that is not white space opens a word where white space or the
/// start of the text comes before it, and is added to the last word where it does not.
pub open spec fn words(s: Seq<char>) -> Seq<Seq<char>>
    decreases s.len(),
{
    if s.len() == 0 {
        Seq::empty()
    } else {
        let init = s.drop_last();
        let found = words(init);
        if white_space(s.last()) {
            found
        } else if init.len() > 0 && !white_space(init.last()) {
            found.drop_last().push(found.last().push(s.last()))
        } else {
            found.push(seq![s.last()])
        }
    }
}

/// A word is not empty and holds no white space, and a text that ends in a word's character has
/// that character at the end of its last word.
pub proof fn lemma_words(s: Seq<char>)
    ensures
        forall|i: int| 0 <= i < words(s).len() ==> #[trigger] words(s)[i].len() > 0,
        forall|i: int, k: int|
            0 <= i < words(s).len() && 0 <= k < words(s)[i].len() ==> !white_space(
                #[trigger] words(s)[i][k],
            ),
        s.len() > 0 && !white_space(s.last()) ==> words(s).len() > 0,
    decreases s.len(),
{
    if s.len() > 0 {
        let init = s.drop_last();
        lemma_words(init);
        let found = words(init);
        assert forall|i: int| 0 <= i < words(s).len() implies #[trigger] words(s)[i].len() > 0 by {
            if i < found.len() {
                assert(found[i].len() > 0);
            }
        }
        assert forall|i: int, k: int|
            0 <= i < words(s).len() && 0 <= k < words(s)[i].len() implies !white_space(
            #[trigger] words(s)[i][k],
        ) by {
            if i < found.len() && k < found[i].len() {
                assert(!white_space(found[i][k]));
            }
        }
    }
}

/// Cuts a text into its words.
pub fn split_words(s: &[char]) -> (r: Vec<Vec<char>>)
    ensures
        r@.len() == words(s@).len(),
        forall|i: int| 0 <= i < r@.len() ==> (#[trigger] r@[i])@ == words(s@)[i],
{
    let mut done: Vec<Vec<char>> = Vec::new();
    let mut open: Vec<char> = Vec::new();
    let mut i: usize = 0;
    assert(s@.take(0) =~= Seq::empty());
    while i < s.len()
        invariant
            i <= s@.len(),
            open@.len() > 0 <==> i > 0 && !white_space(s@[i - 1]),
            words(s@.take(i as int)).len() == done@.len() + if open@.len() > 0 {
                1int
            } else {
                0
            },
            forall|k: int|
                0 <= k < done@.len() ==> (#[trigger] done@[k])@ == words(s@.take(i as int))[k],
            open@.len() > 0 ==> words(s@.take(i as int)).last() == open@,
        decreases s@.len() - i,
    {
        let c = s[i];
        assert(s@.take(i + 1).drop_last() =~= s@.take(i as int));
        if is_white_space(c) {
            if open.len() > 0 {
                done.push(open);
                open = Vec::new();
            }
        } else {
            open.push(c);
            assert(open@.len() == 1 ==> open@ =~= seq![c]);
        }
        i += 1;
    }
    assert(s@.take(i as int) =~= s@);
    if open.len() > 0 {
        done.push(open);
    }
    done
}

/// A line's text without the carriage return that may stand before its line feed.
pub open spec fn strip_return(s: Seq<char>) -> Seq<char> {
    if s.len() > 0 && s.last() == '\r' {
        s.drop_last()
    } else {
        s
    }
}

/// The lines of a text. A line ends with a line feed, or with a carriage return and a line feed;
/// the last one may also end with the text.
pub open spec fn lines(s: Seq<char>) -> Seq<Seq<char>>
    decreases s.len(),
{
    if s.len() == 0 {
        Seq::empty()
    } else if 0 <= find(s, '\n') < s.len() {
        seq![strip_return(before(s, '\n'))] + lines(s.skip(find(s, '\n') + 1))
    } else {
        seq![s]
    }
}

/// Cuts a text into its lines, the first `most` of them.
pub fn split_lines(s: &[char], most: usize) -> (r: Vec<Vec<char>>)
    ensures
        r@.len() == if lines(s@).len() <= most {
            lines(s@).len()
        } else {
            most as nat
        },
        forall|i: int| 0 <= i < r@.len() ==> (#[trigger] r@[i])@ == lines(s@)[i],
{
    let mut found: Vec<Vec<char>> = Vec::new();
    let mut rest: &[char] = s;
    while rest.len() > 0 && found.len() < most
        invariant
            found@.len() <= most,
            lines(s@).len() == found@.len() + lines(rest@).len(),
            forall|i: int| 0 <= i < found@.len() ==> (#[trigger] found@[i])@ == lines(s@)[i],
            forall|i: int|
                0 <= i < lines(rest@).len() ==> #[trigger] lines(rest@)[i] == lines(s@)[found@.len()
                    + i],
        decreases rest@.len(),
    {
        let ghost whole = rest@;
        let line = cut_before(rest, '\n');
        proof {
            lemma_find(whole, '\n');
            assert(lines(whole)[0] == lines(s@)[found@.len() as int]);
        }
        match cut_after(rest, '\n') {
            Some(next) => {
                let text = if line.len() > 0 && line[line.len() - 1] == '\r' {
                    slice_subrange(line, 0, line.len() - 1)
                } else {
                    line
                };
                assert(text@ =~= strip_return(before(whole, '\n')));
                found.push(slice_to_vec(text));
                assert forall|i: int| 0 <= i < lines(next@).len() implies #[trigger] lines(
                    next@,
                )[i] == lines(s@)[found@.len() + i] by {
                    assert(lines(whole)[i + 1] == lines(next@)[i]);
                }
                rest = next;
            },
            None => {
                assert(line@ =~= whole);
                found.push(slice_to_vec(line));
                rest = slice_subrange(rest, 0, 0);
            },
        }
    }
    found
}

/// The decimal digit of a number below ten.
pub open spec fn digit(n: nat) -> char {
    seq!['0', '1', '2', '3', '4', '5', '6', '7', '8', '9'][n as int]
}

/// A number written in decimal, without leading zeros.
pub open spec fn decimal(n: nat) -> Seq<char>
    decreases n,
{
    if n < 10 {
        seq![digit(n)]
    } else {
        decimal(n / 10).push(digit(n % 10))
    }
}

/// Gives the decimal digit of a number below ten.
fn digit_char(n: u64) -> (c: char)
    requires
        n < 10,
    ensures
        c == digit(n as nat),
{
    match n {
        0 => '0',
        1 => '1',
        2 => '2',
        3 => '3',
        4 => '4',
        5 => '5',
        6 => '6',
        7 => '7',
        8 => '8',
        _ => '9',
    }
}

/// Writes a number in decimal.
pub fn decimal_chars(n: u64) -> (r: Vec<char>)
    ensures
        r@ == decimal(n as nat),
    decreases n,
{
    if n < 10 {
        vec![digit_char(n)]
    } else {
        let mut r = decimal_chars(n / 10);
        r.push(digit_char(n % 10));
        r
    }
}

/// So many spaces.
pub open spec fn spaces(n: int) -> Seq<char> {
    Seq::new(
        if n > 0 {
            n as nat
        } else {
            0
        },
        |i: int| ' ',
    )
}

/// Makes so many spaces.
pub fn make_spaces(n: usize) -> (r: String)
    ensures
        r@ == spaces(n as int),
{
    let mut r = String::new();
    for i in 0..n
        invariant
            r@ == spaces(i as int),
    {
        r.push(' ');
        assert(spaces(i + 1) =~= spaces(i as int).push(' '));
    }
    r
}

/// The text with spaces behind it up to the given width; itself where it is as wide already.
pub open spec fn pad_right(s: Seq<char>, width: int) -> Seq<char> {
    s + spaces(width - s.len())
}

/// Fills a text up with spaces.
pub fn padded_right(s: &[char], width: usize) -> (r: String)
    ensures
        r@ == pad_right(s@, width as int),
{
    let mut r = to_text(s);
    if s.len() < width {
        r.append(make_spaces(width - s.len()).as_str());
    }
    assert(r@ =~= pad_right(s@, width as int));
    r
}

/// The texts in a row, with the separator between each and the next.
pub open spec fn join(parts: Seq<Seq<char>>, separator: Seq<char>) -> Seq<char>
    decreases parts.len(),
{
    if parts.len() == 0 {
        Seq::empty()
    } else {
        let before = parts.drop_last();
        if before.len() == 0 {
            parts.last()
        } else {
            join(before, separator) + separator + parts.last()
        }
    }
}

/// Joins texts with a separator.
pub fn join_texts(parts: &Vec<String>, separator: &str) -> (r: String)
    ensures
        r@ == join(Seq::new(parts@.len(), |i: int| parts@[i]@), separator@),
{
    let ghost all = Seq::new(parts@.len(), |i: int| parts@[i]@);
    let mut r = String::new();
    for k in 0..parts.len()
        invariant
            all == Seq::new(parts@.len(), |i: int| parts@[i]@),
            r@ == join(all.take(k as int), separator@),
    {
        if k > 0 {
            r.append(separator);
        }
        r.append(parts[k].as_str());
        assert(all.take(k + 1).drop_last() =~= all.take(k as int));
        assert(r@ =~= join(all.take(k + 1), separator@));
    }
    assert(all.take(parts@.len() as int) =~= all);
    r
}

/// The code of a character, that of the small letter for a capital letter of ASCII.
pub open spec fn lower_code(c: char) -> int {
    if 'A' <= c <= 'Z' {
        c as int + 32
    } else {
        c as int
    }
}

/// Whether two texts are the same but for the case of ASCII letters.
pub open spec fn same_but_case(a: Seq<char>, b: Seq<char>) -> bool {
    &&& a.len() == b.len()
    &&& forall|k: int| 0 <= k < a.len() ==> lower_code(#[trigger] a[k]) == lower_code(b[k])
}

/// Gives the code of a character, that of the small letter for a capital letter of ASCII.
fn to_lower_code(c: char) -> (r: u32)
    ensures
        r == lower_code(c),
{
    let n: u32 = c as u32;
    if 65 <= n && n <= 90 {
        n + 32
    } else {
        n
    }
}

/// Tells whether two texts are the same but for the case of ASCII letters.
pub fn equal_but_case(a: &[char], b: &[char]) -> (yes: bool)
    ensures
        yes == same_but_case(a@, b@),
{
    if a.len() != b.len() {
        return false;
    }
    let mut k: usize = 0;
    while k < a.len()
        invariant
            k <= a@.len() == b@.len(),
            forall|j: int| 0 <= j < k ==> lower_code(#[trigger] a@[j]) == lower_code(b@[j]),
        decreases a@.len() - k,
    {
        if to_lower_code(a[k]) != to_lower_code(b[k]) {
            return false;
        }
        k += 1;
    }
    true
}

/// Trimming the start of a text takes characters of the class off, up to one that is not.
proof fn lemma_trim_start(s: Seq<char>, class: CharClass)
    ensures
        trim_start(s, class).len() <= s.len(),
        trim_start(s, class) == s.skip(s.len() - trim_start(s, class).len()),
        trim_start(s, class).len() > 0 ==> !class.has(trim_start(s, class)[0]),
        forall|k: int| 0 <= k < s.len() - trim_start(s, class).len() ==> class.has(#[trigger] s[k]),
    decreases s.len(),
{
    if s.len() > 0 && class.has(s[0]) {
        let rest = s.skip(1);
        lemma_trim_start(rest, class);
        let n = trim_start(rest, class).len() as int;
        assert(rest.skip(rest.len() - n) =~= s.skip(s.len() - n));
        assert forall|k: int| 0 <= k < s.len() - n implies class.has(#[trigger] s[k]) by {
            if k > 0 {
                assert(rest[k - 1] == s[k]);
            }
        }
    } else {
        assert(s.skip(0) =~= s);
    }
}

/// Trimming the end of a text gives a part of it, with no character of the class at its end.
pub proof fn lemma_trim_end(s: Seq<char>, class: CharClass)
    ensures
        trim_end(s, class).len() <= s.len(),
        trim_end(s, class) == s.take(trim_end(s, class).len() as int),
        trim_end(s, class).len() > 0 ==> !class.has(trim_end(s, class).last()),
    decreases s.len(),
{
    if s.len() > 0 && class.has(s.last()) {
        let rest = s.drop_last();
        lemma_trim_end(rest, class);
        let n = trim_end(rest, class).len() as int;
        assert(rest.take(n) =~= s.take(n));
    } else {
        assert(s.take(s.len() as int) =~= s);
    }
}

/// A trimmed text holds only characters of the text, and none of the class at its ends.
pub proof fn lemma_trim(s: Seq<char>, class: CharClass)
    ensures
        forall|c: char| trim(s, class).contains(c) ==> s.contains(c),
        trim(s, class).len() > 0 ==> !class.has(trim(s, class)[0]) && !class.has(
            trim(s, class).last(),
        ),
{
    let t = trim_start(s, class);
    let r = trim(s, class);
    lemma_trim_start(s, class);
    lemma_trim_end(t, class);
    assert forall|c: char| r.contains(c) implies s.contains(c) by {
        let k = choose|k: int| 0 <= k < r.len() && r[k] == c;
        assert(t[k] == c);
        assert(s[s.len() - t.len() + k] == c);
    }
}

/// A text with no character of the class at its ends is trimmed already.
pub proof fn lemma_trimmed_already(s: Seq<char>, class: CharClass)
    requires
        s.len() > 0 ==> !class.has(s[0]) && !class.has(s.last()),
    ensures
        trim(s, class) == s,
{
}

/// Characters of the class before a text are trimmed off.
proof fn lemma_trim_start_lead(lead: Seq<char>, s: Seq<char>, class: CharClass)
    requires
        forall|k: int| 0 <= k < lead.len() ==> class.has(#[trigger] lead[k]),
    ensures
        trim_start(lead + s, class) == trim_start(s, class),
    decreases lead.len(),
{
    if lead.len() == 0 {
        assert(lead + s =~= s);
    } else {
        assert((lead + s).skip(1) =~= lead.skip(1) + s);
        lemma_trim_start_lead(lead.skip(1), s, class);
    }
}

/// Characters of the class behind a text are trimmed off.
proof fn lemma_trim_end_tail(s: Seq<char>, tail: Seq<char>, class: CharClass)
    requires
        forall|k: int| 0 <= k < tail.len() ==> class.has(#[trigger] tail[k]),
    ensures
        trim_end(s + tail, class) == trim_end(s, class),
    decreases tail.len(),
{
    if tail.len() == 0 {
        assert(s + tail =~= s);
    } else {
        assert((s + tail).drop_last() =~= s + tail.drop_last());
        assert((s + tail).last() == tail.last());
        lemma_trim_end_tail(s, tail.drop_last(), class);
    }
}

/// A text that does not end in a character of the class is kept when the end of a longer one is
/// trimmed.
pub proof fn lemma_trim_end_lead(lead: Seq<char>, s: Seq<char>, class: CharClass)
    requires
        lead.len() > 0,
        !class.has(lead.last()),
    ensures
        trim_end(lead + s, class) == lead + trim_end(s, class),
    decreases s.len(),
{
    if s.len() == 0 {
        assert(lead + s =~= lead);
        assert(lead + trim_end(s, class) =~= lead);
    } else {
        assert((lead + s).last() == s.last());
        assert((lead + s).drop_last() =~= lead + s.drop_last());
        lemma_trim_end_lead(lead, s.drop_last(), class);
    }
}

/// Characters of the class around a text are trimmed off.
pub proof fn lemma_trim_around(lead: Seq<char>, s: Seq<char>, tail: Seq<char>, class: CharClass)
    requires
        forall|k: int| 0 <= k < lead.len() ==> class.has(#[trigger] lead[k]),
        forall|k: int| 0 <= k < tail.len() ==> class.has(#[trigger] tail[k]),
    ensures
        trim(lead + s + tail, class) == trim(s, class),
{
    let t = trim_start(s, class);
    lemma_trim_start(s, class);
    assert(lead + s + tail =~= lead + (s + tail));
    lemma_trim_start_lead(lead, s + tail, class);
    let n = s.len() - t.len();
    let off = s.take(n);
    assert(s + tail =~= off + (t + tail));
    lemma_trim_start_lead(off, t + tail, class);
    if t.len() > 0 {
        assert((t + tail)[0] == t[0]);
        lemma_trim_end_tail(t, tail, class);
    } else {
        assert(t + tail =~= tail + Seq::<char>::empty());
        lemma_trim_start_lead(tail, Seq::<char>::empty(), class);
    }
}

/// A text keeps its part before a character when something is added behind that character.
pub proof fn lemma_before_ends(s: Seq<char>, c: char, rest: Seq<char>)
    ensures
        before(s + seq![c] + rest, c) == before(s, c),
{
    lemma_find(s, c);
    let long = s + seq![c] + rest;
    assert forall|j: int| 0 <= j < find(s, c) implies long[j] != c by {
        assert(long[j] == s[j]);
    }
    lemma_find_is(long, c, find(s, c));
    assert(before(long, c) =~= before(s, c));
}

/// Where a character does not stand in a text, the whole text stands before it.
pub proof fn lemma_before_whole(s: Seq<char>, c: char)
    requires
        !s.contains(c),
    ensures
        before(s, c) == s,
        after(s, c) is None,
{
    lemma_find(s, c);
    assert(s.take(s.len() as int) =~= s);
}

/// A text that does not hold a character stands before it, whatever comes behind the text.
pub proof fn lemma_before_lead(lead: Seq<char>, s: Seq<char>, c: char)
    requires
        !lead.contains(c),
    ensures
        before(lead + s, c) == lead + before(s, c),
{
    lemma_find(s, c);
    let long = lead + s;
    let at = lead.len() + find(s, c);
    assert forall|j: int| 0 <= j < at implies long[j] != c by {
        if j < lead.len() {
            assert(lead.contains(lead[j]));
        }
    }
    lemma_find_is(long, c, at);
    assert(before(long, c) =~= lead + before(s, c));
}

/// What stands before a character holds it nowhere.
pub proof fn lemma_before(s: Seq<char>, c: char)
    ensures
        !before(s, c).contains(c),
        forall|d: char| before(s, c).contains(d) ==> s.contains(d),
{
    lemma_find(s, c);
    assert forall|d: char| before(s, c).contains(d) implies s.contains(d) by {
        let k = choose|k: int| 0 <= k < before(s, c).len() && before(s, c)[k] == d;
        assert(s[k] == d);
    }
}

/// A part of a text stands in it.
pub proof fn lemma_part_occurs(lead: Seq<char>, p: Seq<char>, tail: Seq<char>)
    ensures
        contains_text(lead + p + tail, p),
{
    let s = lead + p + tail;
    assert(s.subrange(lead.len() as int, (lead.len() + p.len()) as int) =~= p);
    assert(occurs_at(s, p, lead.len() as int));
}

/// What stands in a text is a part of it.
pub proof fn lemma_occurs_as_part(s: Seq<char>, p: Seq<char>)
    requires
        contains_text(s, p),
    ensures
        exists|lead: Seq<char>, tail: Seq<char>| s == #[trigger] (lead + p + tail),
{
    let at = choose|at: int| occurs_at(s, p, at);
    let lead = s.take(at);
    let tail = s.skip(at + p.len());
    assert forall|k: int| 0 <= k < p.len() implies s[at + k] == p[k] by {
        assert(s.subrange(at, at + p.len())[k] == p[k]);
    }
    assert(s =~= lead + p + tail);
}

/// The number that digits stand for.
pub open spec fn digits_value(s: Seq<char>) -> int
    decreases s.len(),
{
    if s.len() == 0 {
        0
    } else {
        10 * digits_value(s.drop_last()) + (s.last() as int - '0' as int)
    }
}

/// A number in decimal is digits that stand for the number, and starts with a zero only where it is
/// zero.
pub proof fn law_decimal_stands_for_number(n: nat)
    ensures
        digits_value(decimal(n)) == n,
        decimal(n).len() > 0,
        forall|k: int| 0 <= k < decimal(n).len() ==> '0' <= #[trigger] decimal(n)[k] <= '9',
        decimal(n)[0] == '0' ==> n == 0,
    decreases n,
{
    let all = decimal(n);
    reveal_with_fuel(digits_value, 2);
    if n < 10 {
        assert(all.drop_last() =~= Seq::<char>::empty());
        assert(all.last() == digit(n));
    } else {
        law_decimal_stands_for_number(n / 10);
        assert(all.drop_last() =~= decimal(n / 10));
        assert(all.last() == digit(n % 10));
        assert(all[0] == decimal(n / 10)[0]);
        assert forall|k: int| 0 <= k < all.len() implies '0' <= #[trigger] all[k] <= '9' by {
            if k < all.len() - 1 {
                assert(all[k] == decimal(n / 10)[k]);
            }
        }
    }
}

/// Joined texts stand in their order, with the separator between each and the next, and nothing
/// before the first or behind the last.
pub proof fn law_joining(parts: Seq<Seq<char>>, next: Seq<char>, separator: Seq<char>)
    ensures
        join(Seq::<Seq<char>>::empty(), separator) == Seq::<char>::empty(),
        join(seq![next], separator) == next,
        parts.len() > 0 ==> join(parts.push(next), separator) == join(parts, separator) + separator
            + next,
{
    assert(seq![next].drop_last() =~= Seq::<Seq<char>>::empty());
    assert(parts.push(next).drop_last() =~= parts);
}

/// A line feed ends a line, alone or with a carriage return before it; what is behind the last one
/// is a line too, unless it is empty.
pub proof fn law_lines_end_at_line_feeds(line: Seq<char>, rest: Seq<char>)
    requires
        !line.contains('\n'),
    ensures
        lines(Seq::<char>::empty()) == Seq::<Seq<char>>::empty(),
        line.len() > 0 ==> lines(line) == seq![line],
        lines(line + seq!['\r', '\n'] + rest) == seq![line] + lines(rest),
        line.len() == 0 || line.last() != '\r' ==> lines(line + seq!['\n'] + rest) == seq![line]
            + lines(rest),
{
    lemma_find(line, '\n');
    if find(line, '\n') < line.len() {
        assert(line.contains(line[find(line, '\n')]));
    }
    let with_return = line.push('\r');
    let long = line + seq!['\r', '\n'] + rest;
    assert(long =~= with_return + seq!['\n'] + rest);
    assert forall|j: int| 0 <= j < with_return.len() implies long[j] != '\n' by {
        if j < line.len() {
            assert(line.contains(line[j]));
        }
    }
    lemma_find_is(long, '\n', with_return.len() as int);
    assert(before(long, '\n') =~= with_return);
    assert(with_return.drop_last() =~= line);
    assert(long.skip(with_return.len() as int + 1) =~= rest);
    let short = line + seq!['\n'] + rest;
    assert forall|j: int| 0 <= j < line.len() implies short[j] != '\n' by {
        assert(line.contains(line[j]));
    }
    lemma_find_is(short, '\n', line.len() as int);
    assert(before(short, '\n') =~= line);
    assert(short.skip(line.len() as int + 1) =~= rest);
}

/// Texts that are the same but for the case have, at each place, the same character or the two
/// forms of one letter of ASCII.
pub proof fn law_same_but_case(a: Seq<char>, b: Seq<char>)
    ensures
        same_but_case(a, b) <==> a.len() == b.len() && forall|k: int|
            0 <= k < a.len() ==> {
                let c = #[trigger] a[k];
                ||| c == b[k]
                ||| 'A' <= c <= 'Z' && b[k] as int == c as int + 32
                ||| 'a' <= c <= 'z' && b[k] as int == c as int - 32
            },
{
    if same_but_case(a, b) {
        assert forall|k: int| 0 <= k < a.len() implies {
            let c = #[trigger] a[k];
            ||| c == b[k]
            ||| 'A' <= c <= 'Z' && b[k] as int == c as int + 32
            ||| 'a' <= c <= 'z' && b[k] as int == c as int - 32
        } by {
            assert(lower_code(a[k]) == lower_code(b[k]));
        }
    }
}

/// A filled-up text starts with the text, has nothing but spaces behind it, and is as wide as asked
/// for, or as the text.
pub proof fn law_padding(s: Seq<char>, width: int, k: int)
    ensures
        pad_right(s, width).len() >= s.len(),
        pad_right(s, width).len() >= width,
        pad_right(s, width).len() == s.len() || pad_right(s, width).len() == width,
        0 <= k < s.len() ==> pad_right(s, width)[k] == s[k],
        s.len() <= k < pad_right(s, width).len() ==> pad_right(s, width)[k] == ' ',
{
}

/// Characters of the class at the end of a text are trimmed off, and no others.
pub proof fn law_trimming_the_end(s: Seq<char>, tail: Seq<char>, class: CharClass)
    requires
        s.len() > 0 ==> !class.has(s.last()),
        forall|k: int| 0 <= k < tail.len() ==> class.has(#[trigger] tail[k]),
    ensures
        trim_end(s + tail, class) == s,
{
    lemma_trim_end_tail(s, tail, class);
}

/// Characters of the class around a text are trimmed off, and no others.
pub proof fn law_trimming(lead: Seq<char>, s: Seq<char>, tail: Seq<char>, class: CharClass)
    requires
        forall|k: int| 0 <= k < lead.len() ==> class.has(#[trigger] lead[k]),
        s.len() > 0 ==> !class.has(s[0]) && !class.has(s.last()),
        forall|k: int| 0 <= k < tail.len() ==> class.has(#[trigger] tail[k]),
    ensures
        trim(lead + s + tail, class) == s,
{
    lemma_trim_around(lead, s, tail, class);
    lemma_trimmed_already(s, class);
}

/// A character cuts a text in two where it first stands.
pub proof fn law_cutting(lead: Seq<char>, c: char, rest: Seq<char>)
    requires
        !lead.contains(c),
    ensures
        before(lead + seq![c] + rest, c) == lead,
        after(lead + seq![c] + rest, c) == Some(rest),
        before(lead, c) == lead,
        after(lead, c) is None,
{
    let s = lead + seq![c] + rest;
    assert forall|j: int| 0 <= j < lead.len() implies s[j] != c by {
        assert(lead.contains(lead[j]));
    }
    lemma_find_is(s, c, lead.len() as int);
    assert(before(s, c) =~= lead);
    assert(s.skip(lead.len() as int + 1) =~= rest);
    lemma_before_whole(lead, c);
}

/// A trimmed text is a part of the text, with nothing but characters of the class before it.
pub proof fn lemma_trim_is_part(s: Seq<char>, class: CharClass)
    ensures
        exists|lead: Seq<char>, tail: Seq<char>|
            s == #[trigger] (lead + trim(s, class) + tail) && forall|k: int|
                0 <= k < lead.len() ==> class.has(#[trigger] lead[k]),
{
    let t = trim_start(s, class);
    let r = trim(s, class);
    lemma_trim_start(s, class);
    lemma_trim_end(t, class);
    let lead = s.take(s.len() - t.len());
    let tail = t.skip(r.len() as int);
    assert(t =~= r + tail);
    assert(s =~= lead + r + tail);
}

/// Only a text that is all of the class is trimmed down to nothing.
pub proof fn lemma_trimmed_away(s: Seq<char>, class: CharClass)
    requires
        trim(s, class).len() == 0,
    ensures
        forall|k: int| 0 <= k < s.len() ==> class.has(#[trigger] s[k]),
{
    let t = trim_start(s, class);
    lemma_trim_start(s, class);
    if t.len() > 0 {
        let first = t.take(1);
        assert(t =~= first + t.skip(1));
        lemma_trim_end_lead(first, t.skip(1), class);
    }
}

} // verus!
