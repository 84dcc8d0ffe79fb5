//! What a parser does on a text, as a mathematical function.
//!
//! [`spec_parse`] maps a parser, a text and an offset into it to an outcome:
//! the value or the error of the parse, and the offset at which the cursor is
//! left. Offsets count characters. The position that an error or a syntax tree
//! carries is the one reached at its offset from the start of the text; its
//! `term` is that of the cursor, which parsing hands on as it is.

use vstd::prelude::*;
use crate::error::{count_of, err_view, merge_errors, ErrView};
use crate::input::char_at;
use crate::parser::{MpcParser, MpcParserType};
use crate::state::state_at;
use crate::text::int_text;
use crate::value::{ast_text, AstView, ValView};

verus! {

/// The result of a parse and the offset at which it leaves the cursor.
pub type Outcome = (Result<ValView, ErrView>, int);

/// The values gathered by a run of parsers, the error that ended the run if
/// one did, and the offset at which the cursor is left.
pub type Gathered = (Seq<ValView>, Option<ErrView>, int);

/// Number of characters of `text` from `pos` on.
pub open spec fn left(text: Seq<char>, pos: int) -> nat {
    if 0 <= pos <= text.len() {
        (text.len() - pos) as nat
    } else {
        0
    }
}

/// The failure at `pos` of a matcher that names what it expected.
pub open spec fn mismatch(
    text: Seq<char>,
    pos: int,
    term: i32,
    expected: Seq<char>,
    failure: Seq<char>,
) -> ErrView {
    let received = match char_at(text, pos) {
        Some(c) => c,
        None => '\0',
    };
    err_view(state_at(text, pos, term), seq![expected], failure, received)
}

/// A matcher of one character: where the next character is `accepted`, it is
/// consumed and returned as a text of one character; where it is not, or
/// there is none, the parse fails at `pos` and consumes nothing.
pub open spec fn match_one(
    text: Seq<char>,
    pos: int,
    term: i32,
    accepted: spec_fn(char) -> bool,
    expected: Seq<char>,
    failure: Seq<char>,
    failure_at_end: Seq<char>,
) -> Outcome {
    match char_at(text, pos) {
        Some(c) => if accepted(c) {
            (Ok(ValView::Str(seq![c])), pos + 1)
        } else {
            (Err(mismatch(text, pos, term, expected, failure)), pos)
        },
        None => (Err(mismatch(text, pos, term, expected, failure_at_end)), pos),
    }
}

/// `s` between single quotes, after `lead`.
pub open spec fn quoted(lead: Seq<char>, s: Seq<char>) -> Seq<char> {
    lead + "'"@ + s + "'"@
}

/// The two bounds of a range with a hyphen between them.
pub open spec fn range_text(s: char, e: char) -> Seq<char> {
    seq![s, '-', e]
}

/// Number of leading characters of `s`, from its index `i` on, that `text`
/// holds from `pos + i` on.
pub open spec fn matched_len(s: Seq<char>, text: Seq<char>, pos: int, i: int) -> int
    decreases s.len() - i,
{
    if 0 <= i < s.len() && char_at(text, pos + i) == Some(s[i]) {
        matched_len(s, text, pos, i + 1)
    } else {
        i
    }
}

/// The string matcher: consumes the characters of `s` as long as the text
/// agrees; fails at the first character that differs, naming the whole
/// string.
pub open spec fn match_string(s: Seq<char>, text: Seq<char>, pos: int, term: i32) -> Outcome {
    let k = matched_len(s, text, pos, 0);
    if k >= s.len() {
        (Ok(ValView::Str(s)), pos + k)
    } else {
        (Err(mismatch(text, pos + k, term, s, quoted("expected "@, s))), pos + k)
    }
}

/// A value as text: a text or a character as it is, a number in decimal, a
/// position as row and column, a syntax tree as its indented text, and
/// nothing for the unit value and for a value of the author's own kind.
pub open spec fn value_text(v: ValView) -> Seq<char> {
    match v {
        ValView::Unit => Seq::empty(),
        ValView::Char(c) => seq![c],
        ValView::Str(s) => s,
        ValView::Int(n) => int_text(n as int),
        ValView::State(s) => int_text(s.row as int) + ":"@ + int_text(s.col as int),
        ValView::Ast(a) => ast_text(a, Seq::empty()),
        ValView::User(_, _) => Seq::empty(),
    }
}

/// The node that tagging puts in place of the value `v` of a parser that
/// began at offset `pos`: a leaf with the tag, the value as text, and the
/// position at which the parser began.
pub open spec fn tagged(
    tag: Seq<char>,
    v: ValView,
    text: Seq<char>,
    pos: int,
    term: i32,
) -> AstView {
    AstView {
        tag,
        contents: value_text(v),
        state: state_at(text, pos, term),
        children_num: 0,
        children: Seq::empty(),
    }
}

/// A syntax tree renamed to `root`; any other value as it is.
pub open spec fn rooted(v: ValView) -> ValView {
    match v {
        ValView::Ast(a) => ValView::Ast(AstView { tag: "root"@, ..a }),
        _ => v,
    }
}

/// The error of an alternation without alternatives.
pub open spec fn no_alternative(text: Seq<char>, pos: int, term: i32) -> ErrView {
    err_view(state_at(text, pos, term), seq!["or"@], "no alternatives matched"@, '\0')
}

/// The outcome of a combinator that folds what it gathered.
pub open spec fn fold_gathered(p: &MpcParser, g: Gathered) -> Outcome {
    match g.1 {
        Some(e) => (Err(e), g.2),
        None => (Ok(fold_of(p, g.0)), g.2),
    }
}

/// The fold of the combinator `p` applied to the values `vs`.
pub open spec fn fold_of(p: &MpcParser, vs: Seq<ValView>) -> ValView {
    match &p.parser_type {
        MpcParserType::And(_, f) => f.call.folded(count_of(vs.len()), vs),
        MpcParserType::Many(_, f) => f.call.folded(count_of(vs.len()), vs),
        MpcParserType::Many1(_, f) => f.call.folded(count_of(vs.len()), vs),
        MpcParserType::Count(_, _, f) => f.call.folded(count_of(vs.len()), vs),
        MpcParserType::SepBy(_, _, f) => f.call.folded(count_of(vs.len()), vs),
        MpcParserType::SepBy1(_, _, f) => f.call.folded(count_of(vs.len()), vs),
        _ => ValView::Unit,
    }
}

/// The outcome of running `p` on `text` from offset `pos`.
pub open spec fn spec_parse(p: &MpcParser, text: Seq<char>, pos: int, term: i32) -> Outcome
    decreases p, 1int, 0int,
{
    match &p.parser_type {
        MpcParserType::Any => match_one(
            text,
            pos,
            term,
            |c: char| true,
            "any"@,
            "unexpected end of input"@,
            "unexpected end of input"@,
        ),
        MpcParserType::Char(x) => match_one(
            text,
            pos,
            term,
            |c: char| c == *x,
            seq![*x],
            quoted("expected "@, seq![*x]),
            quoted("expected "@, seq![*x]),
        ),
        MpcParserType::Range(s, e) => match_one(
            text,
            pos,
            term,
            |c: char| *s <= c && c <= *e,
            range_text(*s, *e),
            "expected char in range "@ + range_text(*s, *e),
            "expected char in range "@ + range_text(*s, *e),
        ),
        MpcParserType::OneOf(set) => match_one(
            text,
            pos,
            term,
            |c: char| set@.contains(c),
            set@,
            quoted("expected one of "@, set@),
            quoted("expected one of "@, set@),
        ),
        MpcParserType::NoneOf(set) => if char_at(text, pos) is None {
            (Ok(ValView::Str(Seq::empty())), pos)
        } else {
            match_one(
                text,
                pos,
                term,
                |c: char| !set@.contains(c),
                "not "@ + set@,
                quoted("unexpected one of "@, set@),
                quoted("unexpected one of "@, set@),
            )
        },
        MpcParserType::Satisfy(f) => match_one(
            text,
            pos,
            term,
            |c: char| f.call.accepts(c),
            "satisfy"@,
            "char does not satisfy condition"@,
            "end of input"@,
        ),
        MpcParserType::String(s) => match_string(s@, text, pos, term),
        MpcParserType::Pass => (Ok(ValView::Unit), pos),
        MpcParserType::Fail(m) => (
            Err(err_view(state_at(text, pos, term), Seq::empty(), m@, '\0')),
            pos,
        ),
        MpcParserType::Lift(f) => (Ok(f.call.value()), pos),
        MpcParserType::LiftVal(f) => (Ok(f.call.value()), pos),
        MpcParserType::Anchor(_) => (Ok(ValView::Unit), pos),
        MpcParserType::State => (Ok(ValView::State(state_at(text, pos, term))), pos),
        MpcParserType::And(_, _) => fold_gathered(p, spec_sequence(p, text, pos, term, 0)),
        MpcParserType::Or(_) => spec_alternatives(p, text, pos, term, 0, None),
        MpcParserType::Many(_, _) => fold_gathered(p, spec_repeat(p, text, pos, term)),
        MpcParserType::Many1(q, _) => match spec_parse(&**q, text, pos, term) {
            (Err(e), end) => (Err(e), end),
            (Ok(_), _) => fold_gathered(p, spec_repeat(p, text, pos, term)),
        },
        MpcParserType::Count(n, _, _) => fold_gathered(
            p,
            spec_times(p, text, pos, term, *n as int),
        ),
        MpcParserType::SepBy(q, _, _) => match spec_parse(&**q, text, pos, term) {
            (Err(_), _) => (Ok(fold_of(p, Seq::empty())), pos),
            (Ok(v), end) => {
                let rest = spec_separated(p, text, end, term);
                (Ok(fold_of(p, seq![v] + rest.0)), rest.2)
            },
        },
        MpcParserType::SepBy1(q, _, _) => match spec_parse(&**q, text, pos, term) {
            (Err(e), end) => (Err(e), end),
            (Ok(v), end) => {
                let rest = spec_separated(p, text, end, term);
                (Ok(fold_of(p, seq![v] + rest.0)), rest.2)
            },
        },
        MpcParserType::Tag(q, tag) => match spec_parse(&**q, text, pos, term) {
            (Err(e), end) => (Err(e), end),
            (Ok(v), end) => (Ok(ValView::Ast(tagged(tag@, v, text, pos, term))), end),
        },
        MpcParserType::Root(q) => match spec_parse(&**q, text, pos, term) {
            (Err(e), end) => (Err(e), end),
            (Ok(v), end) => (Ok(rooted(v)), end),
        },
    }
}

/// A sequence: the parsers of `p` from index `i` on, one after the other.
/// The first failure ends the run with its error, and the cursor stays where
/// that parser left it.
pub open spec fn spec_sequence(
    p: &MpcParser,
    text: Seq<char>,
    pos: int,
    term: i32,
    i: int,
) -> Gathered
    decreases p, 0int, sequence_len(p) - i,
{
    match &p.parser_type {
        MpcParserType::And(ps, _) => if 0 <= i < ps@.len() {
            match spec_parse(&*ps@[i], text, pos, term) {
                (Err(e), end) => (Seq::empty(), Some(e), end),
                (Ok(v), end) => {
                    let rest = spec_sequence(p, text, end, term, i + 1);
                    (seq![v] + rest.0, rest.1, rest.2)
                },
            }
        } else {
            (Seq::empty(), None, pos)
        },
        _ => (Seq::empty(), None, pos),
    }
}

/// Number of parsers that a sequence or an alternation holds.
pub open spec fn sequence_len(p: &MpcParser) -> int {
    match &p.parser_type {
        MpcParserType::And(ps, _) => ps@.len() as int,
        MpcParserType::Or(ps) => ps@.len() as int,
        _ => 0,
    }
}

/// An alternation: the parsers of `p` from index `i` on, each tried from
/// `pos`. The first success is the outcome. Where none succeeds, the cursor
/// stays at `pos` and the error is the merge of all their errors, in order,
/// `seen` being the merge of those before `i`.
pub open spec fn spec_alternatives(
    p: &MpcParser,
    text: Seq<char>,
    pos: int,
    term: i32,
    i: int,
    seen: Option<ErrView>,
) -> Outcome
    decreases p, 0int, sequence_len(p) - i,
{
    match &p.parser_type {
        MpcParserType::Or(ps) => if 0 <= i < ps@.len() {
            match spec_parse(&*ps@[i], text, pos, term) {
                (Ok(v), end) => (Ok(v), end),
                (Err(e), _) => {
                    let merged = match seen {
                        Some(s) => merge_errors(s, e),
                        None => e,
                    };
                    spec_alternatives(p, text, pos, term, i + 1, Some(merged))
                },
            }
        } else {
            match seen {
                Some(s) => (Err(s), pos),
                None => (Err(no_alternative(text, pos, term)), pos),
            }
        },
        _ => (Err(no_alternative(text, pos, term)), pos),
    }
}

/// A repetition: the parser under `p` as often as it succeeds. A failure
/// ends the run without error and leaves the cursor where that attempt
/// began. A success that consumed nothing is gathered and ends the run.
pub open spec fn spec_repeat(p: &MpcParser, text: Seq<char>, pos: int, term: i32) -> Gathered
    decreases p, 0int, left(text, pos),
{
    match &p.parser_type {
        MpcParserType::Many(q, _) | MpcParserType::Many1(q, _) => match spec_parse(
            &**q,
            text,
            pos,
            term,
        ) {
            (Err(_), _) => (Seq::empty(), None, pos),
            (Ok(v), end) => if 0 <= pos < end <= text.len() {
                let rest = spec_repeat(p, text, end, term);
                (seq![v] + rest.0, None, rest.2)
            } else {
                (seq![v], None, end)
            },
        },
        _ => (Seq::empty(), None, pos),
    }
}

/// A counted repetition: the parser under `p`, `k` times. The first failure
/// ends the run with its error.
pub open spec fn spec_times(p: &MpcParser, text: Seq<char>, pos: int, term: i32, k: int) -> Gathered
    decreases p, 0int, k,
{
    match &p.parser_type {
        MpcParserType::Count(_, q, _) => if k <= 0 {
            (Seq::empty(), None, pos)
        } else {
            match spec_parse(&**q, text, pos, term) {
                (Err(e), end) => (Seq::empty(), Some(e), end),
                (Ok(v), end) => {
                    let rest = spec_times(p, text, end, term, k - 1);
                    (seq![v] + rest.0, rest.1, rest.2)
                },
            }
        },
        _ => (Seq::empty(), None, pos),
    }
}

/// The rest of a separated list after an element that ended at `pos`: a
/// separator and an element, as often as both succeed. Where either fails,
/// the run ends without error and the cursor returns to where that separator
/// began. A separator and element that together consumed nothing are gathered
/// and end the run.
pub open spec fn spec_separated(p: &MpcParser, text: Seq<char>, pos: int, term: i32) -> Gathered
    decreases p, 0int, left(text, pos),
{
    match &p.parser_type {
        MpcParserType::SepBy(q, sep, _) | MpcParserType::SepBy1(q, sep, _) => match spec_parse(
            &**sep,
            text,
            pos,
            term,
        ) {
            (Err(_), _) => (Seq::empty(), None, pos),
            (Ok(_), mid) => match spec_parse(&**q, text, mid, term) {
                (Err(_), _) => (Seq::empty(), None, pos),
                (Ok(v), end) => if 0 <= pos < end <= text.len() {
                    let rest = spec_separated(p, text, end, term);
                    (seq![v] + rest.0, None, rest.2)
                } else {
                    (seq![v], None, end)
                },
            },
        },
        _ => (Seq::empty(), None, pos),
    }
}

} // verus!
