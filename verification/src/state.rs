//! Cursor positions and how they follow the text that has been consumed.

use vstd::prelude::*;

verus! {

/// A position in the input: `pos` counts the characters consumed so far, `row`
/// the line breaks among them and `col` the characters since the last line
/// break. `term` is free for the caller: parsing never reads it and hands it
/// on unchanged.
#[derive(Debug, Clone, Copy, PartialEq, Eq, Structural)]
pub struct MpcState {
    pub pos: i64,
    pub row: i64,
    pub col: i64,
    pub term: i32,
}

/// Number of line breaks among the first `k` characters of `text`.
pub open spec fn row_at(text: Seq<char>, k: int) -> int
    decreases k,
{
    if k <= 0 || k > text.len() {
        0
    } else if text[k - 1] == '\n' {
        row_at(text, k - 1) + 1
    } else {
        row_at(text, k - 1)
    }
}

/// Number of characters that follow the last line break among the first `k`
/// characters of `text`.
pub open spec fn col_at(text: Seq<char>, k: int) -> int
    decreases k,
{
    if k <= 0 || k > text.len() {
        0
    } else if text[k - 1] == '\n' {
        0
    } else {
        col_at(text, k - 1) + 1
    }
}

/// Whether `s` is the position reached from the start of `text` by consuming
/// its first `s.pos` characters. Nothing is asked of `s.term`.
pub open spec fn state_tracks(text: Seq<char>, s: MpcState) -> bool {
    &&& 0 <= s.pos <= text.len()
    &&& s.row == row_at(text, s.pos as int)
    &&& s.col == col_at(text, s.pos as int)
}

/// The position reached from the start of `text` after `k` characters, with
/// the given `term`.
pub open spec fn state_at(text: Seq<char>, k: int, term: i32) -> MpcState {
    MpcState { pos: k as i64, row: row_at(text, k) as i64, col: col_at(text, k) as i64, term }
}

/// Number of line breaks in `s`.
pub open spec fn count_newlines(s: Seq<char>) -> int {
    row_at(s, s.len() as int)
}

/// Rows and columns never exceed the number of characters consumed.
pub proof fn lemma_row_col_bounds(text: Seq<char>, k: int)
    ensures
        0 <= row_at(text, k) <= if k < 0 { 0 } else { k },
        0 <= col_at(text, k) <= if k < 0 { 0 } else { k },
    decreases k,
{
    if 0 < k <= text.len() {
        lemma_row_col_bounds(text, k - 1);
    }
}

/// A position that tracks a text of at most `i64::MAX` characters is the
/// position at its own offset.
pub proof fn lemma_tracked_state(text: Seq<char>, s: MpcState)
    requires
        state_tracks(text, s),
        text.len() <= i64::MAX,
    ensures
        s == state_at(text, s.pos as int, s.term),
{
    lemma_row_col_bounds(text, s.pos as int);
}

impl MpcState {
    /// The position before any character is consumed.
    pub open spec fn origin() -> MpcState {
        MpcState { pos: 0, row: 0, col: 0, term: 0 }
    }
}

impl Default for MpcState {
    fn default() -> (s: MpcState)
        ensures
            s == MpcState::origin(),
    {
        MpcState { pos: 0, row: 0, col: 0, term: 0 }
    }
}

} // verus!
