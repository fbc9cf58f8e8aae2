//! The search line and the keys that edit it.

use crossterm::event::{Event, KeyCode, KeyEvent, KeyEventKind, KeyModifiers};
use tui_input::backend::crossterm::EventHandler;
use tui_input::{Input, InputRequest};
use vstd::prelude::*;

verus! {

/// The modifier bit of the shift key.
pub const SHIFT: u8 = 1;

/// The modifier bit of the control key.
pub const CONTROL: u8 = 2;

/// What happened to a key.
#[derive(Clone, Copy, Debug, PartialEq, Eq, Structural)]
pub enum KeyKind {
    Press,
    Repeat,
    Release,
}

/// A key that may edit the search line.
#[derive(Clone, Copy, Debug, PartialEq, Eq, Structural)]
pub enum TextKey {
    Backspace,
    Delete,
    Left,
    Right,
    Home,
    End,
    Char(char),
    /// A key without a meaning in a line of text.
    Other,
}

/// A key of the keyboard.
#[derive(Clone, Copy, Debug, PartialEq, Eq, Structural)]
pub enum KeyName {
    Esc,
    Enter,
    Tab,
    Up,
    Down,
    PageUp,
    PageDown,
    Text(TextKey),
}

/// A key event: the key, the modifier keys held with it as bits, and what happened to it.
#[derive(Clone, Copy, Debug, PartialEq, Eq, Structural)]
pub struct KeyPress {
    pub code: KeyName,
    pub modifiers: u8,
    pub kind: KeyKind,
}

impl KeyPress {
    /// Whether the control key is held.
    pub open spec fn with_control(self) -> bool {
        self.modifiers & CONTROL != 0
    }

    /// Tells whether the control key is held.
    pub fn control(&self) -> (yes: bool)
        ensures
            yes == self.with_control(),
            yes == (self.modifiers & 2 != 0),
    {
        self.modifiers & CONTROL != 0
    }
}

/// A line of text with a cursor, which stands before the character of its index or at the end.
pub struct LineView {
    pub text: Seq<char>,
    pub cursor: int,
}

/// The line after `s` was put in at the cursor, which then stands behind it.
pub open spec fn insert_at(line: LineView, s: Seq<char>) -> LineView {
    LineView {
        text: line.text.take(line.cursor) + s + line.text.skip(line.cursor),
        cursor: line.cursor + s.len(),
    }
}

/// A request to change a line.
#[derive(Clone, Copy)]
pub enum EditRequest {
    InsertChar(char),
    DeleteLine,
}

/// The line after a request.
pub open spec fn edit_of(line: LineView, request: EditRequest) -> LineView {
    match request {
        EditRequest::InsertChar(c) => insert_at(line, seq![c]),
        EditRequest::DeleteLine => LineView { text: Seq::empty(), cursor: 0 },
    }
}

/// Applies a request to a line of text with a cursor.
///
/// Calls `tui_input::Input::handle`. The contract claims that `InsertChar` puts the character in at
/// the cursor and moves the cursor behind it, and that `DeleteLine` leaves an empty line.
#[verifier::external_body]
fn edit(text: &str, cursor: usize, request: EditRequest) -> (r: (String, usize))
    requires
        cursor <= text@.len(),
    ensures
        (LineView { text: r.0@, cursor: r.1 as int }) == edit_of(
            LineView { text: text@, cursor: cursor as int },
            request,
        ),
{
    let request = match request {
        EditRequest::InsertChar(c) => InputRequest::InsertChar(c),
        EditRequest::DeleteLine => InputRequest::DeleteLine,
    };
    let mut input = Input::new(text.to_string()).with_cursor(cursor);
    let _ = input.handle(request);
    (input.value().to_string(), input.cursor())
}

/// The line that a key makes of a line, as `tui_input` binds keys to requests.
pub uninterp spec fn key_edit(
    text: Seq<char>,
    cursor: int,
    key: TextKey,
    modifiers: u8,
    kind: KeyKind,
) -> (Seq<char>, int);

/// What can be said of the line that a key makes of a line, whatever its graphemes and words are.
///
/// A key that is let go, or that has no meaning in a line, changes nothing. A character typed alone
/// or with the shift key is put in at the cursor. The keys that move the cursor keep the text, and
/// alone the outer ones lead to its ends. What is deleted stands next to the cursor: before it with
/// one key, behind it with the other.
pub open spec fn key_does(
    before: LineView,
    key: TextKey,
    modifiers: u8,
    kind: KeyKind,
    after: LineView,
) -> bool {
    &&& after.wf()
    &&& kind is Release ==> after == before
    &&& match key {
        TextKey::Other => after == before,
        TextKey::Char(c) => kind !is Release && (modifiers == 0 || modifiers == SHIFT) ==> after
            == insert_at(before, seq![c]),
        TextKey::Left | TextKey::Right => after.text == before.text,
        TextKey::Home => {
            &&& after.text == before.text
            &&& kind !is Release && modifiers == 0 ==> after.cursor == 0
        },
        TextKey::End => {
            &&& after.text == before.text
            &&& kind !is Release && modifiers == 0 ==> after.cursor == before.text.len()
        },
        TextKey::Backspace => {
            &&& after.cursor <= before.cursor
            &&& after.text == before.text.take(after.cursor) + before.text.skip(before.cursor)
        },
        TextKey::Delete => {
            let gone = before.text.len() - after.text.len();
            &&& after.cursor == before.cursor
            &&& 0 <= gone <= before.text.len() - before.cursor
            &&& after.text == before.text.take(before.cursor) + before.text.skip(
                before.cursor + gone,
            )
        },
    }
}

/// Applies a key to a line of text with a cursor.
///
/// Calls `handle_event` of `tui_input::backend::crossterm::EventHandler`. The contract claims that
/// the line it leaves is a function of the line and the key event, and that `key_does` holds of it.
/// How far the keys that move and delete by graphemes and words reach is left to the name, and so
/// is what characters do with the control key. What was cut is not kept from one key to the next:
/// the key that would put it back has another meaning in the explorer.
#[verifier::external_body]
fn edit_with_key(text: &str, cursor: usize, key: TextKey, modifiers: u8, kind: KeyKind) -> (r: (
    String,
    usize,
))
    requires
        cursor <= text@.len(),
    ensures
        (r.0@, r.1 as int) == key_edit(text@, cursor as int, key, modifiers, kind),
        key_does(
            LineView { text: text@, cursor: cursor as int },
            key,
            modifiers,
            kind,
            LineView { text: r.0@, cursor: r.1 as int },
        ),
{
    let code = match key {
        TextKey::Backspace => KeyCode::Backspace,
        TextKey::Delete => KeyCode::Delete,
        TextKey::Left => KeyCode::Left,
        TextKey::Right => KeyCode::Right,
        TextKey::Home => KeyCode::Home,
        TextKey::End => KeyCode::End,
        TextKey::Char(c) => KeyCode::Char(c),
        TextKey::Other => KeyCode::Null,
    };
    let kind = match kind { KeyKind::Press => KeyEventKind::Press, KeyKind::Repeat => KeyEventKind::Repeat, KeyKind::Release => KeyEventKind::Release };
    let mut input = Input::new(text.to_string()).with_cursor(cursor);
    let modifiers = KeyModifiers::from_bits_truncate(modifiers);
    let _ = input.handle_event(&Event::Key(KeyEvent::new_with_kind(code, modifiers, kind)));
    (input.value().to_string(), input.cursor())
}

/// How many columns of the terminal a text takes.
pub uninterp spec fn display_width(text: Seq<char>) -> int;

/// Gives the column of the cursor in a line of text.
///
/// Calls `tui_input::Input::visual_cursor`. The contract claims that the column is a function of
/// the text before the cursor, namely its width, and that it is the first one where no text is
/// there.
#[verifier::external_body]
fn cursor_column(text: &str, cursor: usize) -> (r: usize)
    requires
        cursor <= text@.len(),
    ensures
        r == display_width(text@.take(cursor as int)),
        cursor == 0 ==> r == 0,
{
    Input::new(text.to_string()).with_cursor(cursor).visual_cursor()
}

/// The search line.
#[derive(Clone, Debug)]
pub struct SearchLine {
    pub text: String,
    pub cursor: usize,
}

impl View for SearchLine {
    type V = LineView;

    open spec fn view(&self) -> LineView {
        LineView { text: self.text@, cursor: self.cursor as int }
    }
}

impl LineView {
    /// The cursor stands on the line.
    pub open spec fn wf(self) -> bool {
        0 <= self.cursor <= self.text.len()
    }
}

impl SearchLine {
    /// Makes an empty line.
    pub fn new() -> (r: SearchLine)
        ensures
            r@ == (LineView { text: Seq::empty(), cursor: 0 }),
            r@.wf(),
    {
        SearchLine { text: String::new(), cursor: 0 }
    }

    /// Empties the line.
    pub fn delete_line(&mut self)
        requires
            old(self)@.wf(),
        ensures
            final(self)@ == (LineView { text: Seq::empty(), cursor: 0 }),
            final(self)@.wf(),
    {
        let (text, cursor) = edit(self.text.as_str(), self.cursor, EditRequest::DeleteLine);
        self.text = text;
        self.cursor = cursor;
    }

    /// Applies a key.
    pub fn press(&mut self, key: TextKey, modifiers: u8, kind: KeyKind)
        requires
            old(self)@.wf(),
        ensures
            final(self)@ == pressed(old(self)@, key, modifiers, kind),
            final(self)@.wf(),
            key_does(old(self)@, key, modifiers, kind, final(self)@),
    {
        let (text, cursor) = edit_with_key(self.text.as_str(), self.cursor, key, modifiers, kind);
        self.text = text;
        self.cursor = cursor;
    }

    /// Gives the column of the cursor.
    pub fn column(&self) -> (r: usize)
        requires
            self@.wf(),
        ensures
            r == display_width(self@.text.take(self@.cursor)),
            self@.cursor == 0 ==> r == 0,
    {
        cursor_column(self.text.as_str(), self.cursor)
    }
}

/// The line that a key makes of a line.
pub open spec fn pressed(line: LineView, key: TextKey, modifiers: u8, kind: KeyKind) -> LineView {
    let (text, cursor) = key_edit(line.text, line.cursor, key, modifiers, kind);
    LineView { text, cursor }
}

/// What is put in of a pasted text: all but its carriage returns.
pub open spec fn pasted(s: Seq<char>) -> Seq<char> {
    s.filter(is_pasted())
}

/// Every character but the carriage return.
pub open spec fn is_pasted() -> spec_fn(char) -> bool {
    |c: char| c != '\r'
}

/// Puts a pasted text in at the cursor, without its carriage returns.
pub fn insert_paste(input: &mut SearchLine, value: &str)
    requires
        old(input)@.wf(),
    ensures
        final(input)@ == insert_at(old(input)@, pasted(value@)),
        final(input)@.wf(),
{
    let ghost start = input@;
    proof {
        reveal(Seq::filter);
        assert(insert_at(start, pasted(value@.take(0))).text =~= start.text);
    }
    for c in it: value.chars()
        invariant
            it.seq() == value@,
            start.wf(),
            input@.wf(),
            input@ == insert_at(start, pasted(value@.take(it.index() as int))),
    {
        let ghost i = it.index() as int;
        let ghost so_far = pasted(value@.take(i));
        proof {
            reveal(Seq::filter);
            assert(value@.take(i + 1).drop_last() =~= value@.take(i));
        }
        if c != '\r' {
            let (text, cursor) = edit(input.text.as_str(), input.cursor, EditRequest::InsertChar(c));
            assert(insert_at(insert_at(start, so_far), seq![c]).text =~= insert_at(
                start,
                so_far.push(c),
            ).text);
            input.text = text;
            input.cursor = cursor;
        }
    }
    assert(value@.take(value@.len() as int) =~= value@);
}

/// No carriage return is put in, and pasting a text in parts is pasting it at once.
pub proof fn law_pasting(line: LineView, first: Seq<char>, second: Seq<char>)
    requires
        line.wf(),
    ensures
        !pasted(first).contains('\r'),
        insert_at(insert_at(line, pasted(first)), pasted(second)) == insert_at(
            line,
            pasted(first + second),
        ),
{
    Seq::filter_distributes_over_add(first, second, is_pasted());
    if pasted(first).contains('\r') {
        let k = choose|k: int| 0 <= k < pasted(first).len() && pasted(first)[k] == '\r';
        first.lemma_filter_pred(is_pasted(), k);
    }
    let twice = insert_at(insert_at(line, pasted(first)), pasted(second));
    assert(twice.text =~= insert_at(line, pasted(first + second)).text);
}

/// What is put in stands between what stood before the cursor and what stood behind it, and the
/// cursor stands behind it.
pub proof fn law_inserting(lead: Seq<char>, s: Seq<char>, tail: Seq<char>)
    ensures
        insert_at(LineView { text: lead + tail, cursor: lead.len() as int }, s).text == lead + s
            + tail,
        insert_at(LineView { text: lead + tail, cursor: lead.len() as int }, s).cursor == lead.len()
            + s.len(),
{
    assert((lead + tail).take(lead.len() as int) =~= lead);
    assert((lead + tail).skip(lead.len() as int) =~= tail);
}

/// All of a text is pasted but its carriage returns.
pub proof fn law_pasting_keeps_the_rest(first: Seq<char>, second: Seq<char>)
    requires
        !first.contains('\r'),
    ensures
        pasted(first) == first,
        pasted(first + seq!['\r'] + second) == first + pasted(second),
{
    lemma_pasted_whole(first);
    Seq::filter_distributes_over_add(first + seq!['\r'], second, is_pasted());
    Seq::filter_distributes_over_add(first, seq!['\r'], is_pasted());
    reveal_with_fuel(Seq::filter, 2);
    assert(seq!['\r'].drop_last() =~= Seq::<char>::empty());
    assert(pasted(seq!['\r']) =~= Seq::<char>::empty());
    assert(first + Seq::<char>::empty() =~= first);
}

/// A text without carriage returns is pasted whole.
proof fn lemma_pasted_whole(s: Seq<char>)
    requires
        !s.contains('\r'),
    ensures
        pasted(s) == s,
    decreases s.len(),
{
    reveal(Seq::filter);
    if s.len() > 0 {
        let init = s.drop_last();
        assert(!init.contains('\r')) by {
            if init.contains('\r') {
                let k = choose|k: int| 0 <= k < init.len() && init[k] == '\r';
                assert(s[k] == '\r');
            }
        }
        lemma_pasted_whole(init);
        assert(s.contains(s.last()));
        assert(init.push(s.last()) =~= s);
    } else {
        assert(pasted(s) =~= s);
    }
}

/// What is seen of the search line is its text and its cursor.
pub proof fn law_view_shows_search_line(line: SearchLine)
    ensures
        line@.text == line.text@,
        line@.cursor == line.cursor,
{
}

} // verus!
