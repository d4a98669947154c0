//! The editing model of the user-input line.
//!
//! [`InputLine`] is a text buffer with a caret: characters are typed in at the
//! caret and erased behind it. The caret is reported as a byte offset into the
//! text, as the renderer slices by bytes.

use vstd::prelude::*;

use crate::chars::{char_utf8_len, len_utf8, string_from_chars, utf8_len};

verus! {

/// An editable line of text with a caret.
#[derive(Debug, Clone)]
pub struct InputLine {
    buffer: String,
    chars: Vec<char>,
    at: usize,
    cursor: usize,
}

impl InputLine {
    /// The text, as characters.
    pub closed spec fn spec_text(self) -> Seq<char> {
        self.chars@
    }

    /// The caret, as a character index.
    pub closed spec fn spec_at(self) -> int {
        self.at as int
    }

    /// The caret as a byte offset: the UTF-8 length of the text before it.
    pub closed spec fn spec_cursor(self) -> int {
        self.cursor as int
    }

    /// The buffer spells the characters, the caret sits within them, and the
    /// byte offset measures the text before it.
    pub closed spec fn wf(self) -> bool {
        &&& self.buffer@ == self.chars@
        &&& self.at <= self.chars@.len()
        &&& self.cursor == utf8_len(self.chars@.take(self.at as int))
    }

    /// An empty line, caret at the start.
    pub fn new() -> (l: Self)
        ensures
            l.wf(),
            l.spec_text() == Seq::<char>::empty(),
            l.spec_at() == 0,
            l.spec_cursor() == 0,
    {
        let l = InputLine { buffer: String::new(), chars: Vec::new(), at: 0, cursor: 0 };
        proof {
            assert(l.chars@.take(0) =~= Seq::<char>::empty());
        }
        l
    }

    /// The text typed so far.
    pub fn text(&self) -> (t: &str)
        requires
            self.wf(),
        ensures
            t@ == self.spec_text(),
    {
        self.buffer.as_str()
    }

    /// The caret's byte offset into the text.
    pub fn cursor(&self) -> (c: usize)
        ensures
            c == self.spec_cursor(),
    {
        self.cursor
    }

    /// Type `ch` at the caret and move the caret past it.
    pub fn insert(&mut self, ch: char)
        requires
            old(self).wf(),
            old(self).spec_cursor() + 4 <= usize::MAX,
        ensures
            final(self).wf(),
            final(self).spec_text() == old(self).spec_text().insert(old(self).spec_at(), ch),
            final(self).spec_at() == old(self).spec_at() + 1,
            final(self).spec_cursor() == old(self).spec_cursor() + char_utf8_len(ch),
    {
        let ghost before = self.chars@;
        let ghost at0 = self.at as int;
        self.chars.insert(self.at, ch);
        let len = self.chars.len();
        self.at = self.at + 1;
        self.cursor = self.cursor + len_utf8(ch);
        self.buffer = string_from_chars(&self.chars);
        proof {
            let after = self.chars@;
            assert(after.take(at0 + 1).drop_last() =~= before.take(at0));
            assert(after.take(at0 + 1).last() == ch);
        }
    }

    /// Erase the character before the caret. `false` (and no change) when the
    /// caret is at the start.
    pub fn backspace(&mut self) -> (erased: bool)
        requires
            old(self).wf(),
        ensures
            final(self).wf(),
            erased == (old(self).spec_at() > 0),
            erased ==> final(self).spec_text() == old(self).spec_text().remove(old(self).spec_at() - 1)
                && final(self).spec_at() == old(self).spec_at() - 1 && final(self).spec_cursor()
                == old(self).spec_cursor() - char_utf8_len(old(self).spec_text()[old(self).spec_at() - 1]),
            !erased ==> final(self).spec_text() == old(self).spec_text() && final(self).spec_cursor()
                == old(self).spec_cursor(),
    {
        if self.at == 0 {
            return false;
        }
        let ghost before = self.chars@;
        let ghost at0 = self.at as int;
        let prev = self.chars.remove(self.at - 1);
        proof {
            assert(before.take(at0).drop_last() =~= before.take(at0 - 1));
            assert(before.take(at0).last() == prev);
            assert(self.chars@.take(at0 - 1) =~= before.take(at0 - 1));
            assert(utf8_len(before.take(at0)) == utf8_len(before.take(at0 - 1)) + char_utf8_len(prev));
            lemma_utf8_len_nonneg(before.take(at0 - 1));
        }
        self.at = self.at - 1;
        self.cursor = self.cursor - len_utf8(prev);
        self.buffer = string_from_chars(&self.chars);
        true
    }

    /// Empty the line and return the caret to the start.
    pub fn clear(&mut self)
        ensures
            final(self).wf(),
            final(self).spec_text() == Seq::<char>::empty(),
            final(self).spec_at() == 0,
            final(self).spec_cursor() == 0,
    {
        self.buffer = String::new();
        self.chars = Vec::new();
        self.at = 0;
        self.cursor = 0;
        proof {
            assert(self.chars@.take(0) =~= Seq::<char>::empty());
        }
    }
}

impl Default for InputLine {
    fn default() -> (l: Self)
        ensures
            l.wf(),
            l.spec_text() == Seq::<char>::empty(),
            l.spec_cursor() == 0,
    {
        InputLine::new()
    }
}

/// A text's UTF-8 length is never negative.
pub proof fn lemma_utf8_len_nonneg(s: Seq<char>)
    ensures
        utf8_len(s) >= 0,
    decreases s.len(),
{
    if s.len() > 0 {
        lemma_utf8_len_nonneg(s.drop_last());
    }
}

/// Typing a character and erasing it gives the line back: a well-formed
/// line's caret lies within its text, [`InputLine::insert`] puts the
/// character at the caret and moves the caret past it, and
/// [`InputLine::backspace`] then erases exactly that character, bringing the
/// caret and its byte offset back.
pub proof fn law_backspace_undoes_insert(line: InputLine, ch: char)
    requires
        line.wf(),
    ensures
        0 <= line.spec_at() <= line.spec_text().len(),
        line.spec_cursor() == utf8_len(line.spec_text().take(line.spec_at())),
        line.spec_text().insert(line.spec_at(), ch)[line.spec_at()] == ch,
        line.spec_text().insert(line.spec_at(), ch).remove(line.spec_at()) == line.spec_text(),
{
    assert(line.spec_text().insert(line.spec_at(), ch).remove(line.spec_at()) =~= line.spec_text());
}

} // verus!
