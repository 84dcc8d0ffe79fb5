//! Parse errors, parse results, and the merging of errors that alternation
//! needs.

use vstd::prelude::*;
use vstd::string::*;
use crate::state::MpcState;
use crate::text::push_int;
use crate::value::{MpcVal, ValView};

verus! {

/// Why and where a parse failed. `expected` names what would have been
/// accepted at `state`; it is empty for a failure that only carries a message.
/// `received` is the character found there, or `'\0'` if there was none.
#[derive(Debug, Clone)]
pub struct MpcErr {
    pub state: MpcState,
    pub expected_num: i32,
    pub filename: String,
    pub failure: String,
    pub expected: Vec<String>,
    pub received: char,
}

/// The value of an [`MpcErr`], with texts as character sequences.
pub struct ErrView {
    pub state: MpcState,
    pub expected_num: i32,
    pub filename: Seq<char>,
    pub failure: Seq<char>,
    pub expected: Seq<Seq<char>>,
    pub received: char,
}

/// The outcome of a parse.
pub type MpcResult = Result<MpcVal, MpcErr>;

/// The value of an [`MpcResult`].
pub open spec fn result_view(r: MpcResult) -> Result<ValView, ErrView> {
    match r {
        Ok(v) => Ok(v@),
        Err(e) => Err(e@),
    }
}

/// The texts of a list of strings, in order.
pub open spec fn texts_of(xs: Seq<String>) -> Seq<Seq<char>> {
    xs.map_values(|s: String| s@)
}

/// A length as the 32-bit count that errors and folds carry: the length
/// itself where it fits, its low 32 bits otherwise.
pub open spec fn count_of(n: nat) -> i32 {
    n as i32
}

/// The 32-bit count for a length.
pub fn count_i32(n: usize) -> (c: i32)
    ensures
        c == count_of(n as nat),
{
    #[verifier::truncate]
    (n as i32)
}

impl View for MpcErr {
    type V = ErrView;

    open spec fn view(&self) -> ErrView {
        ErrView {
            state: self.state,
            expected_num: self.expected_num,
            filename: self.filename@,
            failure: self.failure@,
            expected: texts_of(self.expected@),
            received: self.received,
        }
    }
}

/// The error that [`MpcErr::new`] builds: no file name, and the count of the
/// expected texts.
pub open spec fn err_view(
    state: MpcState,
    expected: Seq<Seq<char>>,
    failure: Seq<char>,
    received: char,
) -> ErrView {
    ErrView {
        state,
        expected_num: count_of(expected.len()),
        filename: Seq::empty(),
        failure,
        expected,
        received,
    }
}

/// `a` followed by the texts of `b` that are not in it yet, in their order.
pub open spec fn union_texts(a: Seq<Seq<char>>, b: Seq<Seq<char>>) -> Seq<Seq<char>>
    decreases b.len(),
{
    if b.len() == 0 {
        a
    } else if a.contains(b[0]) {
        union_texts(a, b.drop_first())
    } else {
        union_texts(a.push(b[0]), b.drop_first())
    }
}

/// The error to report for two failed alternatives, `a` tried before `b`: the
/// one that failed further into the text; where both failed at the same
/// offset, `a` with the expected texts of both.
pub open spec fn merge_errors(a: ErrView, b: ErrView) -> ErrView {
    if b.state.pos > a.state.pos {
        b
    } else if a.state.pos > b.state.pos {
        a
    } else {
        let expected = union_texts(a.expected, b.expected);
        ErrView { expected_num: count_of(expected.len()), expected, ..a }
    }
}

/// The line that reports an error: its message and the row and column at
/// which it arose.
pub open spec fn error_line(e: ErrView) -> Seq<char> {
    "Error: "@ + e.failure + " at "@ + crate::text::int_text(e.state.row as int) + ":"@
        + crate::text::int_text(e.state.col as int)
}

/// Whether `x` is the text of one of `xs`.
pub fn has_text(xs: &Vec<String>, x: &String) -> (found: bool)
    ensures
        found == texts_of(xs@).contains(x@),
{
    let mut i: usize = 0;
    while i < xs.len()
        invariant
            0 <= i <= xs.len(),
            forall|j: int| 0 <= j < i ==> texts_of(xs@)[j] != x@,
        decreases xs.len() - i,
    {
        if xs[i] == *x {
            assert(texts_of(xs@)[i as int] == x@);
            return true;
        }
        i = i + 1;
    }
    false
}

impl MpcErr {
    /// An error at `state` with no file name.
    pub fn new(state: MpcState, expected: Vec<String>, failure: String, received: char) -> (e:
        MpcErr)
        ensures
            e@ == err_view(state, texts_of(expected@), failure@, received),
    {
        MpcErr {
            state,
            expected_num: count_i32(expected.len()),
            filename: String::new(),
            failure,
            expected,
            received,
        }
    }

    /// Merges the errors of two failed alternatives, `self` the earlier one.
    pub fn merge(self, other: MpcErr) -> (e: MpcErr)
        ensures
            e@ == merge_errors(self@, other@),
    {
        if other.state.pos > self.state.pos {
            other
        } else if self.state.pos > other.state.pos {
            self
        } else {
            let MpcErr { state, expected_num: _, filename, failure, expected, received } = self;
            let mut expected = expected;
            let ghost start = texts_of(expected@);
            let mut i: usize = 0;
            assert(texts_of(other.expected@).skip(0) =~= texts_of(other.expected@));
            while i < other.expected.len()
                invariant
                    0 <= i <= other.expected.len(),
                    union_texts(texts_of(expected@), texts_of(other.expected@).skip(i as int))
                        == union_texts(start, texts_of(other.expected@)),
                decreases other.expected.len() - i,
            {
                let ghost rest = texts_of(other.expected@).skip(i as int);
                assert(rest.drop_first() =~= texts_of(other.expected@).skip(i + 1));
                assert(rest[0] == other.expected@[i as int]@);
                if !has_text(&expected, &other.expected[i]) {
                    let ghost before = texts_of(expected@);
                    expected.push(other.expected[i].clone());
                    assert(texts_of(expected@) =~= before.push(rest[0]));
                }
                i = i + 1;
            }
            assert(texts_of(other.expected@).skip(i as int) =~= Seq::empty());
            MpcErr {
                state,
                expected_num: count_i32(expected.len()),
                filename,
                failure,
                expected,
                received,
            }
        }
    }

    /// The line that reports this error.
    pub fn render(&self) -> (line: String)
        ensures
            line@ == error_line(self@),
    {
        let mut line = String::from_str("Error: ");
        line.append(self.failure.as_str());
        line.append(" at ");
        push_int(&mut line, self.state.row);
        line.append(":");
        push_int(&mut line, self.state.col);
        line
    }
}

} // verus!
