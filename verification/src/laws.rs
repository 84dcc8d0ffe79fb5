//! Laws of the parsing semantics, proved from its definition.

use vstd::prelude::*;
use crate::error::{count_of, err_view, merge_errors, union_texts, ErrView};
use crate::input::MpcInput;
use crate::parser::{MpcParser, MpcParserType};
use crate::semantics::{
    matched_len, sequence_len, spec_alternatives, spec_parse, spec_repeat, spec_separated,
    spec_sequence, spec_times, value_text, Gathered, Outcome,
};
use crate::state::{col_at, count_newlines, row_at, state_at};
use crate::value::{AstView, ValView};

verus! {

/// Whether `p` is one of the matchers: a parser that looks at characters of
/// the text and has no parser under it.
pub open spec fn is_matcher(p: &MpcParser) -> bool {
    ||| p.parser_type is Any
    ||| p.parser_type is Char
    ||| p.parser_type is Range
    ||| p.parser_type is OneOf
    ||| p.parser_type is NoneOf
    ||| p.parser_type is Satisfy
    ||| p.parser_type is String
}

/// Whether `p` is one of the parsers that never consume input: pass, the two
/// lifts, the anchor and the position probe.
pub open spec fn is_inert(p: &MpcParser) -> bool {
    ||| p.parser_type is Pass
    ||| p.parser_type is Lift
    ||| p.parser_type is LiftVal
    ||| p.parser_type is Anchor
    ||| p.parser_type is State
}

/// The rows and columns at two offsets of a text differ by what lies between
/// them: the row grows by the line breaks in that slice; the column grows by
/// the length of the slice where it holds no line break, and else is the
/// number of characters after its last line break.
pub proof fn law_position_follows_text(text: Seq<char>, a: int, b: int)
    requires
        0 <= a <= b <= text.len(),
    ensures
        row_at(text, b) == row_at(text, a) + count_newlines(text.subrange(a, b)),
        col_at(text, b) == if count_newlines(text.subrange(a, b)) == 0 {
            col_at(text, a) + (b - a)
        } else {
            col_at(text.subrange(a, b), b - a)
        },
    decreases b - a,
{
    let slice = text.subrange(a, b);
    if a < b {
        law_position_follows_text(text, a, b - 1);
        let shorter = text.subrange(a, b - 1);
        assert(slice[b - a - 1] == text[b - 1]);
        lemma_rows_cols_of_prefix(slice, shorter, b - a - 1);
        crate::state::lemma_row_col_bounds(shorter, b - a - 1);
    }
}

/// Rows and columns at an offset depend only on the characters before it.
proof fn lemma_rows_cols_of_prefix(s: Seq<char>, t: Seq<char>, k: int)
    requires
        0 <= k <= s.len(),
        k <= t.len(),
        forall|i: int| 0 <= i < k ==> s[i] == t[i],
    ensures
        row_at(s, k) == row_at(t, k),
        col_at(s, k) == col_at(t, k),
    decreases k,
{
    if k > 0 {
        lemma_rows_cols_of_prefix(s, t, k - 1);
    }
}

/// A matcher that succeeds yields the text that it consumed: the cursor ends
/// as many characters further as that text is long.
pub proof fn law_matcher_consumes_its_value(p: &MpcParser, text: Seq<char>, pos: int, term: i32)
    requires
        is_matcher(p),
        0 <= pos <= text.len(),
        spec_parse(p, text, pos, term).0 is Ok,
    ensures
        spec_parse(p, text, pos, term).0 matches Ok(ValView::Str(s)) && {
            &&& spec_parse(p, text, pos, term).1 == pos + s.len()
            &&& pos + s.len() <= text.len()
            &&& s == text.subrange(pos, pos + s.len())
        },
{
    match &p.parser_type {
        MpcParserType::String(s) => {
            lemma_matched_prefix(s@, text, pos, 0);
            let k = matched_len(s@, text, pos, 0);
            assert(s@ =~= text.subrange(pos, pos + k));
        },
        MpcParserType::NoneOf(_) => {
            if pos < text.len() {
                assert(seq![text[pos]] =~= text.subrange(pos, pos + 1));
            } else {
                assert(Seq::<char>::empty() =~= text.subrange(pos, pos));
            }
        },
        _ => {
            assert(seq![text[pos]] =~= text.subrange(pos, pos + 1));
        },
    }
}

/// The characters of `s` from `i` up to the matched length are those of the
/// text, and the matched length stays within `s`.
proof fn lemma_matched_prefix(s: Seq<char>, text: Seq<char>, pos: int, i: int)
    requires
        0 <= i <= s.len(),
        0 <= pos,
    ensures
        i <= matched_len(s, text, pos, i) <= s.len(),
        pos + matched_len(s, text, pos, i) <= text.len() || matched_len(s, text, pos, i) == i,
        forall|j: int|
            i <= j < matched_len(s, text, pos, i) ==> pos + j < text.len() && text[pos + j]
                == s[j],
    decreases s.len() - i,
{
    if i < s.len() && crate::input::char_at(text, pos + i) == Some(s[i]) {
        lemma_matched_prefix(s, text, pos, i + 1);
    }
}

/// Zero or more repetitions of a parser that fails at once succeed with the
/// fold of no values and consume nothing.
pub proof fn law_many_of_failing(p: &MpcParser, text: Seq<char>, pos: int, term: i32)
    requires
        p.parser_type matches MpcParserType::Many(q, _) && spec_parse(
            &*q,
            text,
            pos,
            term,
        ).0 is Err,
    ensures
        p.parser_type matches MpcParserType::Many(_, f) && spec_parse(p, text, pos, term) == (
            Ok::<ValView, ErrView>(f.call.folded(0, Seq::empty())),
            pos,
        ),
{
    assert(spec_repeat(p, text, pos, term).0 =~= Seq::empty());
}

/// One or more repetitions of a parser that fails at once fail with the error
/// of that parser, and leave the cursor where that parser left it.
pub proof fn law_many1_of_failing(p: &MpcParser, text: Seq<char>, pos: int, term: i32)
    requires
        p.parser_type matches MpcParserType::Many1(q, _) && spec_parse(
            &*q,
            text,
            pos,
            term,
        ).0 is Err,
    ensures
        p.parser_type matches MpcParserType::Many1(q, _) && spec_parse(
            p,
            text,
            pos,
            term,
        ) == spec_parse(
            &*q,
            text,
            pos,
            term,
        ),
{
}

/// An alternation of two parsers that both fail reports the merge of their
/// errors, whichever comes first in the list: the error of the one that
/// failed further into the text, with its position and expected texts.
pub proof fn law_or_reports_farthest(p: &MpcParser, text: Seq<char>, pos: int, term: i32)
    requires
        p.parser_type matches MpcParserType::Or(ps) && ps@.len() == 2 && spec_parse(
            &*ps@[0],
            text,
            pos,
            term,
        ).0 is Err && spec_parse(&*ps@[1], text, pos, term).0 is Err,
    ensures
        p.parser_type matches MpcParserType::Or(ps) && ({
            let first = spec_parse(&*ps@[0], text, pos, term).0->Err_0;
            let second = spec_parse(&*ps@[1], text, pos, term).0->Err_0;
            &&& spec_parse(p, text, pos, term) == (
                Err::<ValView, ErrView>(merge_errors(first, second)),
                pos,
            )
            &&& first.state.pos > second.state.pos ==> merge_errors(first, second) == first
            &&& second.state.pos > first.state.pos ==> merge_errors(first, second) == second
        }),
{
    match &p.parser_type {
        MpcParserType::Or(ps) => {
            let first = spec_parse(&*ps@[0], text, pos, term).0->Err_0;
            let second = spec_parse(&*ps@[1], text, pos, term).0->Err_0;
            assert(spec_alternatives(p, text, pos, term, 0, None) == spec_alternatives(
                p,
                text,
                pos,
                term,
                1,
                Some(first),
            ));
            assert(spec_alternatives(p, text, pos, term, 1, Some(first)) == spec_alternatives(
                p,
                text,
                pos,
                term,
                2,
                Some(merge_errors(first, second)),
            ));
        },
        _ => {},
    }
}

/// The string matcher run on a text that holds its string at the cursor
/// succeeds, consumes as many characters as the string has, and yields the
/// string. In particular it parses exactly its own string.
pub proof fn law_string_round_trip(p: &MpcParser, text: Seq<char>, pos: int, term: i32)
    requires
        p.parser_type matches MpcParserType::String(s) && 0 <= pos && pos + s@.len() <= text.len()
            && text.subrange(pos, pos + s@.len()) == s@,
    ensures
        p.parser_type matches MpcParserType::String(s) && spec_parse(p, text, pos, term) == (
            Ok::<ValView, ErrView>(ValView::Str(s@)),
            pos + s@.len(),
        ),
{
    match &p.parser_type {
        MpcParserType::String(s) => {
            lemma_matches_whole(s@, text, pos, 0);
        },
        _ => {},
    }
}

/// Where the text holds `s` at `pos`, all of `s` is matched.
proof fn lemma_matches_whole(s: Seq<char>, text: Seq<char>, pos: int, i: int)
    requires
        0 <= i <= s.len(),
        0 <= pos,
        pos + s.len() <= text.len(),
        text.subrange(pos, pos + s.len()) == s,
    ensures
        matched_len(s, text, pos, i) == s.len(),
    decreases s.len() - i,
{
    if i < s.len() {
        assert(text.subrange(pos, pos + s.len())[i] == text[pos + i]);
        lemma_matches_whole(s, text, pos, i + 1);
    }
}

/// The parsers that never consume input succeed and leave the cursor at the
/// offset at which they found it.
pub proof fn law_inert_parsers_stay(p: &MpcParser, text: Seq<char>, pos: int, term: i32)
    requires
        is_inert(p),
    ensures
        spec_parse(p, text, pos, term).0 is Ok,
        spec_parse(p, text, pos, term).1 == pos,
{
}

/// Tagging turns the value of its parser into a leaf of a syntax tree: the
/// node has the tag, the value as text for its contents, the position at
/// which the parser began, and no children. An error of the parser is passed
/// on as it is.
pub proof fn law_tag_builds_a_leaf(p: &MpcParser, text: Seq<char>, pos: int, term: i32)
    requires
        p.parser_type is Tag,
    ensures
        p.parser_type matches MpcParserType::Tag(q, tag) && spec_parse(p, text, pos, term)
            == match spec_parse(&*q, text, pos, term) {
            (Ok(v), end) => (
                Ok::<ValView, ErrView>(
                    ValView::Ast(
                        AstView {
                            tag: tag@,
                            contents: value_text(v),
                            state: state_at(text, pos, term),
                            children_num: 0,
                            children: Seq::empty(),
                        },
                    ),
                ),
                end,
            ),
            (Err(e), end) => (Err::<ValView, ErrView>(e), end),
        },
{
}

/// Two consistent cursors over the same text at the same offset and with
/// the same `term` agree in their position and in their byte offset.
pub proof fn law_offset_determines_cursor(a: &MpcInput, b: &MpcInput)
    requires
        a.wf(),
        b.wf(),
        a.string == b.string,
        a.offset() == b.offset(),
        a.state.term == b.state.term,
    ensures
        a.state == b.state,
        a.pos == b.pos,
{
    crate::state::lemma_tracked_state(a.text(), a.state);
    crate::state::lemma_tracked_state(b.text(), b.state);
}

/// Whether `e` is a well-formed error of a parse of `text` that began at
/// offset `pos`: it counts its expected texts, names no file, and carries the
/// position of an offset of the text that is not before `pos`.
pub open spec fn is_positioned(e: ErrView, text: Seq<char>, pos: int, term: i32) -> bool {
    &&& e.expected_num == count_of(e.expected.len())
    &&& e.filename == Seq::<char>::empty()
    &&& pos <= e.state.pos <= text.len()
    &&& e.state == state_at(text, e.state.pos as int, term)
}

/// Whether the outcome `o` of a parse of `text` from `pos` leaves the cursor
/// within the text and not before `pos`, and, where the text is short enough
/// for its positions to be counted, carries a well-formed error if any.
pub open spec fn is_sound(o: Outcome, text: Seq<char>, pos: int, term: i32) -> bool {
    &&& pos <= o.1 <= text.len()
    &&& text.len() <= i64::MAX ==> (o.0 matches Err(e) ==> is_positioned(e, text, pos, term))
}

/// The same for what a run of parsers gathered.
pub open spec fn is_sound_run(g: Gathered, text: Seq<char>, pos: int, term: i32) -> bool {
    &&& pos <= g.2 <= text.len()
    &&& text.len() <= i64::MAX ==> (g.1 matches Some(e) ==> is_positioned(e, text, pos, term))
}

/// A parser never moves the cursor back and never moves it past the end of
/// the text, whether it succeeds or fails.
pub proof fn law_cursor_stays_in_text(p: &MpcParser, text: Seq<char>, pos: int, term: i32)
    requires
        0 <= pos <= text.len(),
    ensures
        pos <= spec_parse(p, text, pos, term).1 <= text.len(),
{
    lemma_parse_sound(p, text, pos, term);
}

/// The error of a failed parse is well-formed: it counts its expected texts,
/// and its position is that of an offset of the text, between the offset at
/// which the parse began and the end of the text.
pub proof fn law_errors_are_positioned(p: &MpcParser, text: Seq<char>, pos: int, term: i32)
    requires
        0 <= pos <= text.len() <= i64::MAX,
        spec_parse(p, text, pos, term).0 is Err,
    ensures
        is_positioned(spec_parse(p, text, pos, term).0->Err_0, text, pos, term),
{
    lemma_parse_sound(p, text, pos, term);
}

/// The error that a matcher builds at an offset of the text is well-formed.
proof fn lemma_mismatch_positioned(
    text: Seq<char>,
    pos: int,
    term: i32,
    at: int,
    expected: Seq<Seq<char>>,
    failure: Seq<char>,
    received: char,
)
    requires
        0 <= pos <= at <= text.len() <= i64::MAX,
    ensures
        is_positioned(
            err_view(state_at(text, at, term), expected, failure, received),
            text,
            pos,
            term,
        ),
{
    crate::state::lemma_row_col_bounds(text, at);
}

proof fn lemma_parse_sound(p: &MpcParser, text: Seq<char>, pos: int, term: i32)
    requires
        0 <= pos <= text.len(),
    ensures
        is_sound(spec_parse(p, text, pos, term), text, pos, term),
    decreases p, 1int, 0int,
{
    if text.len() <= i64::MAX {
        assert forall|at: int, expected: Seq<Seq<char>>, failure: Seq<char>, received: char|
            pos <= at <= text.len() implies is_positioned(
            #[trigger] err_view(state_at(text, at, term), expected, failure, received),
            text,
            pos,
            term,
        ) by {
            lemma_mismatch_positioned(text, pos, term, at, expected, failure, received);
        }
    }
    match &p.parser_type {
        MpcParserType::String(s) => {
            lemma_matched_prefix(s@, text, pos, 0);
        },
        MpcParserType::And(_, _) => {
            lemma_sequence_sound(p, text, pos, term, 0);
        },
        MpcParserType::Or(_) => {
            lemma_alternatives_sound(p, text, pos, term, 0, None);
        },
        MpcParserType::Many(_, _) => {
            lemma_repeat_sound(p, text, pos, term);
        },
        MpcParserType::Many1(q, _) => {
            lemma_parse_sound(&**q, text, pos, term);
            lemma_repeat_sound(p, text, pos, term);
        },
        MpcParserType::Count(n, _, _) => {
            lemma_times_sound(p, text, pos, term, *n as int);
        },
        MpcParserType::SepBy(q, _, _) => {
            lemma_parse_sound(&**q, text, pos, term);
            let first = spec_parse(&**q, text, pos, term);
            if first.0 is Ok {
                lemma_separated_sound(p, text, first.1, term);
            }
        },
        MpcParserType::SepBy1(q, _, _) => {
            lemma_parse_sound(&**q, text, pos, term);
            let first = spec_parse(&**q, text, pos, term);
            if first.0 is Ok {
                lemma_separated_sound(p, text, first.1, term);
            }
        },
        MpcParserType::Tag(q, _) => {
            lemma_parse_sound(&**q, text, pos, term);
        },
        MpcParserType::Root(q) => {
            lemma_parse_sound(&**q, text, pos, term);
        },
        _ => {},
    }
}

proof fn lemma_sequence_sound(p: &MpcParser, text: Seq<char>, pos: int, term: i32, i: int)
    requires
        0 <= pos <= text.len(),
    ensures
        is_sound_run(spec_sequence(p, text, pos, term, i), text, pos, term),
    decreases p, 0int, sequence_len(p) - i,
{
    match &p.parser_type {
        MpcParserType::And(ps, _) => {
            if 0 <= i < ps@.len() {
                lemma_parse_sound(&*ps@[i], text, pos, term);
                let step = spec_parse(&*ps@[i], text, pos, term);
                if step.0 is Ok {
                    lemma_sequence_sound(p, text, step.1, term, i + 1);
                }
            }
        },
        _ => {},
    }
}

proof fn lemma_alternatives_sound(
    p: &MpcParser,
    text: Seq<char>,
    pos: int,
    term: i32,
    i: int,
    seen: Option<ErrView>,
)
    requires
        0 <= pos <= text.len(),
        text.len() <= i64::MAX ==> (seen matches Some(s) ==> is_positioned(s, text, pos, term)),
    ensures
        is_sound(spec_alternatives(p, text, pos, term, i, seen), text, pos, term),
    decreases p, 0int, sequence_len(p) - i,
{
    if text.len() <= i64::MAX {
        lemma_mismatch_positioned(
            text,
            pos,
            term,
            pos,
            seq!["or"@],
            "no alternatives matched"@,
            '\0',
        );
    }
    match &p.parser_type {
        MpcParserType::Or(ps) => {
            if 0 <= i < ps@.len() {
                lemma_parse_sound(&*ps@[i], text, pos, term);
                match spec_parse(&*ps@[i], text, pos, term) {
                    (Ok(_), _) => {},
                    (Err(e), _) => {
                        let merged = match seen {
                            Some(s) => merge_errors(s, e),
                            None => e,
                        };
                        lemma_alternatives_sound(p, text, pos, term, i + 1, Some(merged));
                    },
                }
            }
        },
        _ => {},
    }
}

proof fn lemma_repeat_sound(p: &MpcParser, text: Seq<char>, pos: int, term: i32)
    requires
        0 <= pos <= text.len(),
    ensures
        is_sound_run(spec_repeat(p, text, pos, term), text, pos, term),
    decreases p, 0int, crate::semantics::left(text, pos),
{
    match &p.parser_type {
        MpcParserType::Many(q, _) | MpcParserType::Many1(q, _) => {
            lemma_parse_sound(&**q, text, pos, term);
            let step = spec_parse(&**q, text, pos, term);
            if step.0 is Ok && pos < step.1 {
                lemma_repeat_sound(p, text, step.1, term);
            }
        },
        _ => {},
    }
}

proof fn lemma_times_sound(p: &MpcParser, text: Seq<char>, pos: int, term: i32, k: int)
    requires
        0 <= pos <= text.len(),
    ensures
        is_sound_run(spec_times(p, text, pos, term, k), text, pos, term),
    decreases p, 0int, k,
{
    match &p.parser_type {
        MpcParserType::Count(_, q, _) => {
            if k > 0 {
                lemma_parse_sound(&**q, text, pos, term);
                let step = spec_parse(&**q, text, pos, term);
                if step.0 is Ok {
                    lemma_times_sound(p, text, step.1, term, k - 1);
                }
            }
        },
        _ => {},
    }
}

proof fn lemma_separated_sound(p: &MpcParser, text: Seq<char>, pos: int, term: i32)
    requires
        0 <= pos <= text.len(),
    ensures
        is_sound_run(spec_separated(p, text, pos, term), text, pos, term),
    decreases p, 0int, crate::semantics::left(text, pos),
{
    match &p.parser_type {
        MpcParserType::SepBy(q, sep, _) | MpcParserType::SepBy1(q, sep, _) => {
            lemma_parse_sound(&**sep, text, pos, term);
            let gap = spec_parse(&**sep, text, pos, term);
            if gap.0 is Ok {
                lemma_parse_sound(&**q, text, gap.1, term);
                let step = spec_parse(&**q, text, gap.1, term);
                if step.0 is Ok && pos < step.1 {
                    lemma_separated_sound(p, text, step.1, term);
                }
            }
        },
        _ => {},
    }
}

/// Whether the error `e` accounts for the error `x`: `x` arose no further
/// into the text than `e`, and where it arose at the same offset, `e` names
/// all that `x` expected.
pub open spec fn accounts_for(e: ErrView, x: ErrView) -> bool {
    &&& x.state.pos <= e.state.pos
    &&& x.state.pos == e.state.pos ==> forall|t: Seq<char>|
        x.expected.contains(t) ==> e.expected.contains(t)
}

/// The union of two lists of texts holds the texts of both and no others.
pub proof fn lemma_union_texts(a: Seq<Seq<char>>, b: Seq<Seq<char>>)
    ensures
        forall|t: Seq<char>|
            #[trigger] union_texts(a, b).contains(t) <==> a.contains(t) || b.contains(t),
    decreases b.len(),
{
    if b.len() > 0 {
        let head = b[0];
        let rest = b.drop_first();
        let next = if a.contains(head) {
            a
        } else {
            a.push(head)
        };
        lemma_union_texts(next, rest);
        assert forall|t: Seq<char>| #[trigger]
            union_texts(a, b).contains(t) <==> a.contains(t) || b.contains(t) by {
            assert(union_texts(a, b) == union_texts(next, rest));
            assert(union_texts(next, rest).contains(t) <==> next.contains(t) || rest.contains(t));
            if rest.contains(t) {
                let j = choose|j: int| 0 <= j < rest.len() && rest[j] == t;
                assert(b[j + 1] == t);
            }
            if b.contains(t) {
                let j = choose|j: int| 0 <= j < b.len() && b[j] == t;
                if j > 0 {
                    assert(rest[j - 1] == t);
                } else {
                    assert(t == head);
                }
            }
            if t == head {
                assert(b[0] == t);
            }
            if !a.contains(head) {
                assert(next[a.len() as int] == head);
                if a.contains(t) {
                    let j = choose|j: int| 0 <= j < a.len() && a[j] == t;
                    assert(next[j] == t);
                }
                if next.contains(t) {
                    let j = choose|j: int| 0 <= j < next.len() && next[j] == t;
                    if j < a.len() {
                        assert(a[j] == t);
                    } else {
                        assert(t == head);
                    }
                }
            }
        }
    }
}

/// The merge of two errors accounts for both, and arose where one of them
/// did.
pub proof fn lemma_merge_accounts(a: ErrView, b: ErrView)
    ensures
        accounts_for(merge_errors(a, b), a),
        accounts_for(merge_errors(a, b), b),
        merge_errors(a, b).state.pos == a.state.pos || merge_errors(a, b).state.pos
            == b.state.pos,
{
    lemma_union_texts(a.expected, b.expected);
}

/// The outcome of the alternative of index `i` of the alternation `p`, tried
/// on its own from `pos`.
pub open spec fn alternative(
    p: &MpcParser,
    text: Seq<char>,
    pos: int,
    term: i32,
    i: int,
) -> Outcome {
    match &p.parser_type {
        MpcParserType::Or(ps) => spec_parse(&*ps@[i], text, pos, term),
        _ => spec_parse(p, text, pos, term),
    }
}

/// An alternation that fails leaves the cursor where it was, and its error is
/// that of the farthest failure: every alternative failed, none of them
/// further into the text than the error reported, at least one of them at
/// that very offset, and the error names all that was expected by those which
/// failed there.
pub proof fn law_or_error_is_farthest(p: &MpcParser, text: Seq<char>, pos: int, term: i32)
    requires
        p.parser_type is Or,
        sequence_len(p) > 0,
        spec_parse(p, text, pos, term).0 is Err,
    ensures
        spec_parse(p, text, pos, term).1 == pos,
        forall|i: int|
            0 <= i < sequence_len(p) ==> (#[trigger] alternative(p, text, pos, term, i)).0 is Err
                && accounts_for(
                spec_parse(p, text, pos, term).0->Err_0,
                alternative(p, text, pos, term, i).0->Err_0,
            ),
        exists|i: int|
            0 <= i < sequence_len(p) && (#[trigger] alternative(p, text, pos, term, i)).0 is Err
                && alternative(p, text, pos, term, i).0->Err_0.state.pos == spec_parse(
                p,
                text,
                pos,
                term,
            ).0->Err_0.state.pos,
{
    lemma_alternatives_farthest(p, text, pos, term, 0, None);
}

proof fn lemma_alternatives_farthest(
    p: &MpcParser,
    text: Seq<char>,
    pos: int,
    term: i32,
    i: int,
    seen: Option<ErrView>,
)
    requires
        p.parser_type is Or,
        0 <= i <= sequence_len(p),
        spec_alternatives(p, text, pos, term, i, seen).0 is Err,
        seen is Some || i < sequence_len(p),
    ensures
        spec_alternatives(p, text, pos, term, i, seen).1 == pos,
        forall|j: int|
            i <= j < sequence_len(p) ==> (#[trigger] alternative(p, text, pos, term, j)).0 is Err
                && accounts_for(
                spec_alternatives(p, text, pos, term, i, seen).0->Err_0,
                alternative(p, text, pos, term, j).0->Err_0,
            ),
        seen is Some ==> accounts_for(
            spec_alternatives(p, text, pos, term, i, seen).0->Err_0,
            seen->0,
        ),
        (seen is Some && seen->0.state.pos == spec_alternatives(
            p,
            text,
            pos,
            term,
            i,
            seen,
        ).0->Err_0.state.pos) || (exists|j: int|
            i <= j < sequence_len(p) && (#[trigger] alternative(p, text, pos, term, j)).0 is Err
                && alternative(p, text, pos, term, j).0->Err_0.state.pos == spec_alternatives(
                p,
                text,
                pos,
                term,
                i,
                seen,
            ).0->Err_0.state.pos),
    decreases sequence_len(p) - i,
{
    if i < sequence_len(p) {
        let here = alternative(p, text, pos, term, i);
        if here.0 is Err {
            let x = here.0->Err_0;
            let merged = match seen {
                Some(s) => merge_errors(s, x),
                None => x,
            };
            if seen is Some {
                lemma_merge_accounts(seen->0, x);
            }
            lemma_alternatives_farthest(p, text, pos, term, i + 1, Some(merged));
            let e = spec_alternatives(p, text, pos, term, i, seen).0->Err_0;
            assert(e == spec_alternatives(p, text, pos, term, i + 1, Some(merged)).0->Err_0);
            assert(accounts_for(e, merged));
            assert(accounts_for(e, x));
            if merged.state.pos == e.state.pos {
                if seen is Some && seen->0.state.pos == e.state.pos {
                } else {
                    assert(alternative(p, text, pos, term, i).0->Err_0.state.pos == e.state.pos);
                }
            } else {
                let j = choose|j: int|
                    i + 1 <= j < sequence_len(p) && (#[trigger] alternative(
                        p,
                        text,
                        pos,
                        term,
                        j,
                    )).0
                        is Err && alternative(p, text, pos, term, j).0->Err_0.state.pos
                        == e.state.pos;
                assert(i <= j < sequence_len(p));
            }
        }
    }
}

} // verus!
