//! A cursor over the characters of the source, which keeps track of the
//! line and column it stands at.

use vstd::prelude::*;

use crate::ast::Pos;
use crate::text::{chars_of, slice_chars, string_of};

verus! {

/// Where a reader stands: the index of the next character, and its place.
#[derive(Clone, Copy, Debug, PartialEq, Eq)]
pub struct ReaderState {
    pub cursor: usize,
    pub pos: Pos,
}

/// A cursor over a text.
#[derive(Clone, Debug, PartialEq, Eq)]
pub struct Reader {
    pub buffer: Vec<char>,
    pub state: ReaderState,
    /// The place of the first character of the text.
    pub origin: Pos,
}

/// A character that is drawn over the one before it and takes no column.
pub open spec fn is_combining(c: char) -> bool {
    c > '\u{0300}' && c < '\u{036F}'
}

/// One more than `n`, or `n` itself when it is the largest number.
pub open spec fn next(n: usize) -> usize {
    if n < usize::MAX {
        (n + 1) as usize
    } else {
        n
    }
}

/// The place after a character that stands at `pos`.
pub open spec fn step(pos: Pos, c: char) -> Pos {
    if c == '\n' {
        Pos { line: next(pos.line), column: 1 }
    } else if is_combining(c) {
        pos
    } else {
        Pos { line: pos.line, column: next(pos.column) }
    }
}

/// The place of the character at index `cursor` of a text whose first
/// character stands at `origin`.
pub open spec fn pos_at(origin: Pos, buffer: Seq<char>, cursor: int) -> Pos
    decreases cursor,
{
    if cursor <= 0 || cursor > buffer.len() {
        origin
    } else {
        step(pos_at(origin, buffer, cursor - 1), buffer[cursor - 1])
    }
}

/// One more than `n`, or `n` itself when it is the largest number.
pub fn successor(n: usize) -> (r: usize)
    ensures
        r == next(n),
{
    if n < usize::MAX {
        n + 1
    } else {
        n
    }
}

/// The classes of characters that the grammar reads runs of.
#[derive(Clone, Copy, Debug, PartialEq, Eq)]
pub enum CharClass {
    /// Letters and digits of any script.
    Alphanumeric,
    /// Letters and digits of any script, `_` and `-`.
    Name,
    /// The ASCII digits.
    Digit,
    /// The ASCII letters.
    AsciiLetter,
    /// Letters of any script and `-`.
    Attribute,
    /// Anything but `[`.
    NotBracket,
    /// Anything but `"` and a line feed.
    NotQuote,
}

/// Whether `c` is a letter or a digit of some script.
pub uninterp spec fn is_alphanumeric(c: char) -> bool;

/// Whether `c` is a letter of some script.
pub uninterp spec fn is_alphabetic(c: char) -> bool;

/// Whether `c` is a letter or a digit.
///
/// Trusted: `char::is_alphanumeric`. The result is named, not described.
#[verifier::external_body]
pub(crate) fn alphanumeric(c: char) -> (r: bool)
    ensures
        r == is_alphanumeric(c),
{
    c.is_alphanumeric()
}

/// Whether `c` is a letter.
///
/// Trusted: `char::is_alphabetic`. The result is named, not described.
#[verifier::external_body]
pub(crate) fn alphabetic(c: char) -> (r: bool)
    ensures
        r == is_alphabetic(c),
{
    c.is_alphabetic()
}

impl CharClass {
    /// Whether the class holds the character.
    pub open spec fn holds(self, c: char) -> bool {
        match self {
            CharClass::Alphanumeric => is_alphanumeric(c),
            CharClass::Name => is_alphanumeric(c) || c == '_' || c == '-',
            CharClass::Digit => '0' <= c && c <= '9',
            CharClass::AsciiLetter => ('a' <= c && c <= 'z') || ('A' <= c && c <= 'Z'),
            CharClass::Attribute => is_alphabetic(c) || c == '-',
            CharClass::NotBracket => c != '[',
            CharClass::NotQuote => c != '"' && c != '\n',
        }
    }

    /// Whether the class holds the character.
    pub fn has(self, c: char) -> (r: bool)
        ensures
            r == self.holds(c),
    {
        match self {
            CharClass::Alphanumeric => alphanumeric(c),
            CharClass::Name => alphanumeric(c) || c == '_' || c == '-',
            CharClass::Digit => '0' <= c && c <= '9',
            CharClass::AsciiLetter => ('a' <= c && c <= 'z') || ('A' <= c && c <= 'Z'),
            CharClass::Attribute => alphabetic(c) || c == '-',
            CharClass::NotBracket => c != '[',
            CharClass::NotQuote => c != '"' && c != '\n',
        }
    }
}

/// The first index at or after `i` whose character is not of the class.
pub open spec fn run_end(buffer: Seq<char>, class: CharClass, i: int) -> int
    decreases buffer.len() - i,
{
    if 0 <= i < buffer.len() && class.holds(buffer[i]) {
        run_end(buffer, class, i + 1)
    } else {
        i
    }
}

/// A text and the place of its first character.
pub struct Source {
    pub origin: Pos,
    pub text: Seq<char>,
}

impl Source {
    /// The place of the character at index `cursor`.
    pub open spec fn pos(self, cursor: int) -> Pos {
        pos_at(self.origin, self.text, cursor)
    }

    /// The number of characters of the text.
    pub open spec fn len(self) -> int {
        self.text.len() as int
    }
}

impl Reader {
    /// The text that the reader reads.
    pub open spec fn source(&self) -> Source {
        Source { origin: self.origin, text: self.buffer@ }
    }

    /// What every operation keeps: the cursor is within the text, and the
    /// place is the one of the cursor.
    pub open spec fn wf(&self) -> bool {
        &&& self.state.cursor <= self.buffer@.len()
        &&& self.state.pos == pos_at(self.origin, self.buffer@, self.state.cursor as int)
    }

    /// Whether `self` is a later state of the reader `before`: the same
    /// text, read at least as far.
    pub open spec fn follows(&self, before: &Reader) -> bool {
        &&& self.wf()
        &&& self.buffer@ == before.buffer@
        &&& self.origin == before.origin
        &&& self.state.cursor >= before.state.cursor
    }

    /// The place of the character at index `cursor`.
    pub open spec fn pos_of(&self, cursor: int) -> Pos {
        pos_at(self.origin, self.buffer@, cursor)
    }

    /// The text between two cursors.
    pub open spec fn text(&self, from: int, to: int) -> Seq<char> {
        self.buffer@.subrange(from, to)
    }

    /// A reader at the start of a text.
    pub fn new(s: &str) -> (r: Reader)
        ensures
            r.wf(),
            r.buffer@ == s@,
            r.state.cursor == 0,
            r.state.pos == (Pos { line: 1, column: 1 }),
            r.origin == (Pos { line: 1, column: 1 }),
    {
        Reader {
            buffer: chars_of(s),
            state: ReaderState { cursor: 0, pos: Pos { line: 1, column: 1 } },
            origin: Pos { line: 1, column: 1 },
        }
    }

    /// A reader at the start of a text whose first character stands at
    /// `origin` in a larger text.
    pub fn new_at(chars: Vec<char>, origin: Pos) -> (r: Reader)
        ensures
            r.wf(),
            r.buffer@ == chars@,
            r.state.cursor == 0,
            r.origin == origin,
    {
        Reader { buffer: chars, state: ReaderState { cursor: 0, pos: origin }, origin }
    }

    /// Whether the whole text has been read.
    pub fn is_eof(&self) -> (r: bool)
        requires
            self.wf(),
        ensures
            r == (self.state.cursor == self.buffer@.len()),
    {
        self.state.cursor == self.buffer.len()
    }

    /// Reads one character, if there is one left.
    pub fn read(&mut self) -> (r: Option<char>)
        requires
            old(self).wf(),
        ensures
            final(self).follows(old(self)),
            match r {
                Some(c) => {
                    &&& old(self).state.cursor < old(self).buffer@.len()
                    &&& c == old(self).buffer@[old(self).state.cursor as int]
                    &&& final(self).state.cursor == old(self).state.cursor + 1
                },
                None => old(self).state.cursor == old(self).buffer@.len() && final(self).state
                    == old(self).state,
            },
    {
        if self.state.cursor >= self.buffer.len() {
            return None;
        }
        let c = self.buffer[self.state.cursor];
        self.state.cursor += 1;
        if c == '\n' {
            self.state.pos.column = 1;
            self.state.pos.line = successor(self.state.pos.line);
        } else if !(c > '\u{0300}' && c < '\u{036F}') {
            self.state.pos.column = successor(self.state.pos.column);
        }
        Some(c)
    }

    /// The next character, if there is one left.
    pub fn peek(&self) -> (r: Option<char>)
        requires
            self.wf(),
        ensures
            match r {
                Some(c) => {
                    &&& self.state.cursor < self.buffer@.len()
                    &&& c == self.buffer@[self.state.cursor as int]
                },
                None => self.state.cursor == self.buffer@.len(),
            },
    {
        if self.state.cursor >= self.buffer.len() {
            None
        } else {
            Some(self.buffer[self.state.cursor])
        }
    }

    /// Reads the longest run of characters of a class.
    pub fn read_while(&mut self, class: CharClass) -> (r: String)
        requires
            old(self).wf(),
        ensures
            final(self).follows(old(self)),
            final(self).state.cursor == run_end(
                old(self).buffer@,
                class,
                old(self).state.cursor as int,
            ),
            r@ == old(self).text(old(self).state.cursor as int, final(self).state.cursor as int),
    {
        let start = self.state.cursor;
        loop
            invariant
                self.follows(old(self)),
                start == old(self).state.cursor,
                run_end(self.buffer@, class, start as int) == run_end(
                    self.buffer@,
                    class,
                    self.state.cursor as int,
                ),
            ensures
                run_end(self.buffer@, class, self.state.cursor as int) == self.state.cursor,
            decreases self.buffer@.len() - self.state.cursor,
        {
            match self.peek() {
                None => {
                    break ;
                },
                Some(c) => {
                    if !class.has(c) {
                        break ;
                    }
                    self.read();
                },
            }
        }
        string_of(&slice_chars(&self.buffer, start, self.state.cursor))
    }

    /// The text read since the cursor stood at `start`.
    pub fn peek_back(&self, start: usize) -> (r: String)
        requires
            self.wf(),
            start <= self.state.cursor,
        ensures
            r@ == self.text(start as int, self.state.cursor as int),
    {
        string_of(&slice_chars(&self.buffer, start, self.state.cursor))
    }

    /// Goes back to an earlier state of this reader.
    pub fn restore(&mut self, state: ReaderState)
        requires
            old(self).wf(),
            state.cursor <= old(self).state.cursor,
            state.pos == old(self).pos_of(state.cursor as int),
        ensures
            final(self).wf(),
            final(self).buffer@ == old(self).buffer@,
            final(self).origin == old(self).origin,
            final(self).state == state,
    {
        self.state = state;
    }
}

} // verus!
