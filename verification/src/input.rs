//! The input cursor: the text being parsed and the position reached in it.

use vstd::prelude::*;
use vstd::string::*;
use crate::state::{lemma_row_col_bounds, state_at, state_tracks, MpcState};
use crate::text::{
    byte_offset, char_width, lemma_byte_offset_step, lemma_same_bytes_same_chars,
    lemma_split_at_prefix, utf8_width,
};

verus! {

/// A cursor over a borrowed text. `state` is the logical position, counted in
/// characters; `pos` is the offset of the next character in bytes.
pub struct MpcInput<'a> {
    pub filename: String,
    pub state: MpcState,
    pub string: &'a str,
    pub pos: usize,
}

/// The character at offset `k` of `text`, if there is one.
pub open spec fn char_at(text: Seq<char>, k: int) -> Option<char> {
    if 0 <= k < text.len() {
        Some(text[k])
    } else {
        None
    }
}

impl<'a> MpcInput<'a> {
    /// The whole text, as characters.
    pub open spec fn text(&self) -> Seq<char> {
        self.string@
    }

    /// Number of characters consumed so far.
    pub open spec fn offset(&self) -> int {
        self.state.pos as int
    }

    /// The cursor is consistent: the logical position is the one reached from
    /// the start of the text by consuming `state.pos` characters, and `pos` is
    /// the byte offset of the next character. The text has at most `i64::MAX`
    /// characters, so that positions fit their fields. `state.term` may hold
    /// anything.
    pub open spec fn wf(&self) -> bool {
        &&& self.text().len() <= i64::MAX
        &&& state_tracks(self.text(), self.state)
        &&& self.pos as int == byte_offset(self.text(), self.offset())
    }

    /// A cursor at the start of `string`.
    pub fn new(filename: &str, string: &'a str) -> (input: Self)
        requires
            string@.len() <= i64::MAX,
        ensures
            input.wf(),
            input.string == string,
            input.filename@ == filename@,
            input.state == MpcState::origin(),
            input.pos == 0,
    {
        proof {
            assert(string@.subrange(0, 0) =~= Seq::<char>::empty());
        }
        MpcInput {
            filename: String::from_str(filename),
            state: MpcState::default(),
            string,
            pos: 0,
        }
    }

    /// The text that has not been consumed yet.
    pub fn remaining(&self) -> (r: &str)
        requires
            self.wf(),
        ensures
            r@ == self.text().subrange(self.offset(), self.text().len() as int),
    {
        proof {
            lemma_split_at_prefix(self.text(), self.offset());
        }
        let (_, rest) = self.string.split_at(self.pos);
        proof {
            lemma_same_bytes_same_chars(
                rest@,
                self.text().subrange(self.offset(), self.text().len() as int),
            );
        }
        rest
    }

    /// The next character, without consuming it; `None` at the end of the text.
    pub fn peek(&self) -> (r: Option<char>)
        requires
            self.wf(),
        ensures
            r == char_at(self.text(), self.offset()),
    {
        broadcast use vstd::string::group_string_axioms;

        let rest = self.remaining();
        let mut chars = rest.chars();
        chars.next()
    }

    /// Consumes the next character and returns it; at the end of the text the
    /// cursor stays as it is and the result is `None`. The offset grows by one
    /// character, `pos` by the character's width in bytes; a line break starts
    /// a new row at column 0, any other character moves one column on.
    /// `state.term` is kept.
    pub fn advance(&mut self) -> (r: Option<char>)
        requires
            old(self).wf(),
        ensures
            final(self).wf(),
            final(self).string == old(self).string,
            final(self).filename == old(self).filename,
            r == char_at(old(self).text(), old(self).offset()),
            r is None ==> *final(self) == *old(self),
            r is Some ==> {
                &&& final(self).state == state_at(
                    old(self).text(),
                    old(self).offset() + 1,
                    old(self).state.term,
                )
                &&& final(self).state.pos == old(self).state.pos + 1
                &&& final(self).pos == old(self).pos + char_width(r->0)
            },
    {
        match self.peek() {
            Some(c) => {
                proof {
                    lemma_byte_offset_step(self.text(), self.offset());
                    lemma_row_col_bounds(self.text(), self.offset());
                    lemma_row_col_bounds(self.text(), self.offset() + 1);
                    lemma_split_at_prefix(self.text(), self.offset() + 1);
                }
                let width = utf8_width(c);
                // The length of the text in bytes bounds every byte offset into it.
                let total = self.string.as_bytes().len();
                assert(self.pos + width <= total);
                self.pos = self.pos + width;
                self.state.pos = self.state.pos + 1;
                if c == '\n' {
                    self.state.col = 0;
                    self.state.row = self.state.row + 1;
                } else {
                    self.state.col = self.state.col + 1;
                }
                Some(c)
            },
            None => None,
        }
    }
}

} // verus!
