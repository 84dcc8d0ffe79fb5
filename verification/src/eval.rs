//! The evaluator: runs a parser tree over an input cursor.

use vstd::prelude::*;
use vstd::string::*;
use crate::error::{count_i32, result_view, texts_of, ErrView, MpcErr, MpcResult};
use crate::input::{char_at, MpcInput};
use crate::parser::{MpcParser, MpcParserType};
use crate::semantics::{
    match_string, matched_len, mismatch, quoted, range_text, rooted, spec_alternatives,
    spec_parse, spec_repeat, spec_separated, spec_sequence, spec_times, tagged, value_text,
};
use crate::state::{lemma_tracked_state, MpcState};
use crate::text::{char_to_string, push_char, push_int, str_contains};
use crate::value::{views_of, MpcAst, MpcVal, ValView};

verus! {

/// Whether `after` is `before` moved forward over the same text, with the
/// same `term`.
pub open spec fn moved_on(before: &MpcInput, after: &MpcInput) -> bool {
    &&& after.wf()
    &&& after.string == before.string
    &&& after.filename == before.filename
    &&& after.state.term == before.state.term
    &&& before.offset() <= after.offset()
}

/// The error of a matcher that fails at the cursor.
fn mismatch_at(input: &MpcInput, expected: String, failure: String) -> (e: MpcErr)
    requires
        input.wf(),
    ensures
        e@ == mismatch(input.text(), input.offset(), input.state.term, expected@, failure@),
{
    proof {
        lemma_tracked_state(input.text(), input.state);
    }
    let received = match input.peek() {
        Some(c) => c,
        None => '\0',
    };
    let mut names: Vec<String> = Vec::new();
    names.push(expected);
    assert(texts_of(names@) =~= seq![expected@]);
    MpcErr::new(input.state, names, failure, received)
}

/// Consumes the next character, which is `c`, and yields it as a text.
fn take_one(input: &mut MpcInput, c: char) -> (r: MpcResult)
    requires
        old(input).wf(),
        char_at(old(input).text(), old(input).offset()) == Some(c),
    ensures
        moved_on(old(input), final(input)),
        final(input).offset() == old(input).offset() + 1,
        result_view(r) == Ok::<ValView, ErrView>(ValView::Str(seq![c])),
{
    input.advance();
    Ok(MpcVal::Str(char_to_string(c)))
}

/// `lead`, then `s` between single quotes.
fn quote(lead: &str, s: &str) -> (q: String)
    ensures
        q@ == quoted(lead@, s@),
{
    let mut q = String::from_str(lead);
    q.append("'");
    q.append(s);
    q.append("'");
    q
}

/// The error of the matcher of the character `expected` that fails at the
/// cursor.
fn char_mismatch(input: &MpcInput, expected: char) -> (e: MpcErr)
    requires
        input.wf(),
    ensures
        e@ == mismatch(
            input.text(),
            input.offset(),
            input.state.term,
            seq![expected],
            quoted("expected "@, seq![expected]),
        ),
{
    let name = char_to_string(expected);
    let failure = quote("expected ", name.as_str());
    mismatch_at(input, name, failure)
}

/// The error of the matcher of the range from `s` to `e` that fails at the
/// cursor.
fn range_mismatch(input: &MpcInput, s: char, e: char) -> (err: MpcErr)
    requires
        input.wf(),
    ensures
        err@ == mismatch(
            input.text(),
            input.offset(),
            input.state.term,
            range_text(s, e),
            "expected char in range "@ + range_text(s, e),
        ),
{
    let mut name = String::new();
    push_char(&mut name, s);
    push_char(&mut name, '-');
    push_char(&mut name, e);
    assert(name@ =~= range_text(s, e));
    let mut failure = String::from_str("expected char in range ");
    failure.append(name.as_str());
    mismatch_at(input, name, failure)
}

impl MpcVal {
    /// This value as text: a text or a character as it is, a number in
    /// decimal, a position as row and column, a syntax tree as its indented
    /// text, and nothing for the unit value and for a value of the author's
    /// own kind.
    pub fn text(&self) -> (s: String)
        ensures
            s@ == value_text(self@),
    {
        match self {
            MpcVal::Unit => String::new(),
            MpcVal::Char(c) => char_to_string(*c),
            MpcVal::Str(t) => t.clone(),
            MpcVal::Int(n) => {
                let mut s = String::new();
                push_int(&mut s, *n);
                assert(s@ =~= value_text(self@));
                s
            },
            MpcVal::State(st) => {
                let mut s = String::new();
                push_int(&mut s, st.row);
                s.append(":");
                push_int(&mut s, st.col);
                assert(s@ =~= value_text(self@));
                s
            },
            MpcVal::Ast(a) => a.render(),
            MpcVal::User(_, _) => String::new(),
        }
    }
}

/// The leaf that stands for `v` under `tag`, for a parser that began at
/// `start`.
fn tag_value(tag: &String, v: MpcVal, start: MpcState, Ghost(text): Ghost<Seq<char>>) -> (ast:
    MpcAst)
    requires
        crate::state::state_tracks(text, start),
        text.len() <= i64::MAX,
    ensures
        ast@ == tagged(tag@, v@, text, start.pos as int, start.term),
{
    proof {
        lemma_tracked_state(text, start);
    }
    let ast = MpcAst {
        tag: tag.clone(),
        contents: v.text(),
        state: start,
        children_num: 0,
        children: Vec::new(),
    };
    assert(ast@.children =~= Seq::empty());
    ast
}

/// A syntax tree renamed to `root`; any other value as it is.
fn root_value(v: MpcVal) -> (r: MpcVal)
    ensures
        r@ == rooted(v@),
{
    match v {
        MpcVal::Ast(a) => {
            let MpcAst { tag: _, contents, state, children_num, children } = a;
            let renamed = MpcAst {
                tag: String::from_str("root"),
                contents,
                state,
                children_num,
                children,
            };
            assert(renamed@.children =~= a@.children);
            MpcVal::Ast(renamed)
        },
        other => other,
    }
}

/// The string matcher.
fn run_string(s: &String, input: &mut MpcInput) -> (r: MpcResult)
    requires
        old(input).wf(),
    ensures
        moved_on(old(input), final(input)),
        (result_view(r), final(input).offset()) == match_string(
            s@,
            old(input).text(),
            old(input).offset(),
            old(input).state.term,
        ),
{
    broadcast use vstd::string::group_string_axioms;

    let ghost text = input.text();
    let ghost start = input.offset();
    for x in it: s.as_str().chars()
        invariant
            it.seq() == s@,
            0 <= it.index() <= s@.len(),
            moved_on(old(input), input),
            input.text() == text,
            old(input).offset() == start,
            input.offset() == start + it.index(),
            matched_len(s@, text, start, 0) == matched_len(s@, text, start, it.index() as int),
    {
        assert(x == s@[it.index() as int]);
        match input.peek() {
            Some(c) => {
                if c == x {
                    input.advance();
                } else {
                    assert(matched_len(s@, text, start, it.index() as int) == it.index());
                    return Err(mismatch_at(input, s.clone(), quote("expected ", s.as_str())));
                }
            },
            None => {
                assert(matched_len(s@, text, start, it.index() as int) == it.index());
                return Err(mismatch_at(input, s.clone(), quote("expected ", s.as_str())));
            },
        }
    }
    Ok(MpcVal::Str(s.clone()))
}

impl MpcParser {
    /// Runs this parser at the cursor. The result and the offset of the
    /// cursor afterwards are those that [`spec_parse`] gives for the text and
    /// the offset of the cursor before. The cursor stays consistent and never
    /// moves back: its position follows the characters that it has passed, its
    /// `state.term` is kept, and where its offset is the same as before, all
    /// of it is.
    pub fn parse<'a>(&self, input: &mut MpcInput<'a>) -> (r: MpcResult)
        requires
            old(input).wf(),
        ensures
            moved_on(old(input), final(input)),
            (result_view(r), final(input).offset()) == spec_parse(
                self,
                old(input).text(),
                old(input).offset(),
                old(input).state.term,
            ),
            final(input).offset() == old(input).offset() ==> *final(input) == *old(input),
        decreases self, 1int,
    {
        let ghost term = input.state.term;
        proof {
            lemma_tracked_state(input.text(), input.state);
        }
        let r = match &self.parser_type {
            MpcParserType::Any => {
                match input.peek() {
                    Some(c) => take_one(input, c),
                    None => Err(
                        mismatch_at(
                            input,
                            String::from_str("any"),
                            String::from_str("unexpected end of input"),
                        ),
                    ),
                }
            },
            MpcParserType::Char(expected) => {
                match input.peek() {
                    Some(c) => {
                        if c == *expected {
                            take_one(input, c)
                        } else {
                            Err(char_mismatch(input, *expected))
                        }
                    },
                    None => Err(char_mismatch(input, *expected)),
                }
            },
            MpcParserType::Range(start, end) => {
                match input.peek() {
                    Some(c) => {
                        if *start <= c && c <= *end {
                            take_one(input, c)
                        } else {
                            Err(range_mismatch(input, *start, *end))
                        }
                    },
                    None => Err(range_mismatch(input, *start, *end)),
                }
            },
            MpcParserType::OneOf(chars) => {
                match input.peek() {
                    Some(c) => {
                        if str_contains(chars.as_str(), c) {
                            take_one(input, c)
                        } else {
                            Err(mismatch_at(
                                input,
                                chars.clone(),
                                quote("expected one of ", chars.as_str()),
                            ))
                        }
                    },
                    None => Err(mismatch_at(
                        input,
                        chars.clone(),
                        quote("expected one of ", chars.as_str()),
                    )),
                }
            },
            MpcParserType::NoneOf(chars) => {
                match input.peek() {
                    Some(c) => {
                        if !str_contains(chars.as_str(), c) {
                            take_one(input, c)
                        } else {
                            let mut name = String::from_str("not ");
                            name.append(chars.as_str());
                            let failure = quote("unexpected one of ", chars.as_str());
                            Err(mismatch_at(input, name, failure))
                        }
                    },
                    None => Ok(MpcVal::Str(String::new())),
                }
            },
            MpcParserType::Satisfy(f) => {
                match input.peek() {
                    Some(c) => {
                        if f.call.test(c) {
                            take_one(input, c)
                        } else {
                            Err(
                                mismatch_at(
                                    input,
                                    String::from_str("satisfy"),
                                    String::from_str("char does not satisfy condition"),
                                ),
                            )
                        }
                    },
                    None => Err(
                        mismatch_at(
                            input,
                            String::from_str("satisfy"),
                            String::from_str("end of input"),
                        ),
                    ),
                }
            },
            MpcParserType::String(s) => run_string(s, input),
            MpcParserType::Pass => Ok(MpcVal::Unit),
            MpcParserType::Fail(msg) => {
                let names: Vec<String> = Vec::new();
                assert(texts_of(names@) =~= Seq::empty());
                Err(MpcErr::new(input.state, names, msg.clone(), '\0'))
            },
            MpcParserType::Lift(f) => Ok(f.call.lift()),
            MpcParserType::LiftVal(f) => Ok(f.call.lift()),
            MpcParserType::Anchor(_) => Ok(MpcVal::Unit),
            MpcParserType::State => Ok(MpcVal::State(input.state)),
            MpcParserType::Tag(q, tag) => {
                let start = input.state;
                match q.parse(input) {
                    Ok(v) => Ok(MpcVal::Ast(tag_value(tag, v, start, Ghost(input.text())))),
                    Err(e) => Err(e),
                }
            },
            MpcParserType::Root(q) => {
                match q.parse(input) {
                    Ok(v) => Ok(root_value(v)),
                    Err(e) => Err(e),
                }
            },
            MpcParserType::And(_, f) => {
                let (results, failed) = run_sequence(self, input);
                match failed {
                    Some(e) => Err(e),
                    None => Ok(f.call.fold(count_i32(results.len()), results)),
                }
            },
            MpcParserType::Or(_) => run_alternatives(self, input),
            MpcParserType::Many(_, f) => {
                let results = run_repeat(self, input, Vec::new());
                Ok(f.call.fold(count_i32(results.len()), results))
            },
            MpcParserType::Many1(q, f) => {
                let ghost text = input.text();
                let ghost start = input.offset();
                let began = input.state.pos;
                match q.parse(input) {
                    Err(e) => Err(e),
                    Ok(v) => {
                        let mut results: Vec<MpcVal> = Vec::new();
                        results.push(v);
                        assert(views_of(results@) =~= seq![v@]);
                        let results = if input.state.pos > began {
                            run_repeat(self, input, results)
                        } else {
                            results
                        };
                        assert(views_of(results@) =~= spec_repeat(self, text, start, term).0);
                        Ok(f.call.fold(count_i32(results.len()), results))
                    },
                }
            },
            MpcParserType::Count(n, _, f) => {
                let (results, failed) = run_times(self, input, *n);
                match failed {
                    Some(e) => Err(e),
                    None => Ok(f.call.fold(count_i32(results.len()), results)),
                }
            },
            MpcParserType::SepBy(q, _, f) => {
                let saved_state = input.state;
                let saved_pos = input.pos;
                match q.parse(input) {
                    Err(_) => {
                        input.state = saved_state;
                        input.pos = saved_pos;
                        let results: Vec<MpcVal> = Vec::new();
                        assert(views_of(results@) =~= Seq::empty());
                        Ok(f.call.fold(count_i32(results.len()), results))
                    },
                    Ok(v) => {
                        let mut results: Vec<MpcVal> = Vec::new();
                        results.push(v);
                        assert(views_of(results@) =~= seq![v@]);
                        let results = run_separated(self, input, results);
                        Ok(f.call.fold(count_i32(results.len()), results))
                    },
                }
            },
            MpcParserType::SepBy1(q, _, f) => {
                match q.parse(input) {
                    Err(e) => Err(e),
                    Ok(v) => {
                        let mut results: Vec<MpcVal> = Vec::new();
                        results.push(v);
                        assert(views_of(results@) =~= seq![v@]);
                        let results = run_separated(self, input, results);
                        Ok(f.call.fold(count_i32(results.len()), results))
                    },
                }
            },
        };
        proof {
            lemma_tracked_state(input.text(), input.state);
            lemma_tracked_state(old(input).text(), old(input).state);
        }
        r
    }
}

/// The parsers of the sequence `p`, one after the other.
fn run_sequence(p: &MpcParser, input: &mut MpcInput) -> (g: (Vec<MpcVal>, Option<MpcErr>))
    requires
        old(input).wf(),
        p.parser_type is And,
    ensures
        moved_on(old(input), final(input)),
        (views_of(g.0@), err_view_of(g.1), final(input).offset()) == spec_sequence(
            p,
            old(input).text(),
            old(input).offset(),
            old(input).state.term,
            0,
        ),
    decreases p, 0int,
{
    let ghost term = input.state.term;
    let ghost text = input.text();
    let ghost start = input.offset();
    let mut results: Vec<MpcVal> = Vec::new();
    match &p.parser_type {
        MpcParserType::And(ps, _) => {
            let mut i: usize = 0;
            assert(views_of(results@) =~= Seq::empty());
            while i < ps.len()
                invariant
                    old(input).state.term == term,
                    0 <= i <= ps.len(),
                    p.parser_type is And,
                    p.parser_type->And_0 == *ps,
                    moved_on(old(input), input),
                    input.text() == text,
                    old(input).offset() == start,
                    spec_sequence(p, text, start, term, 0) == (
                        views_of(results@) + spec_sequence(
                            p,
                            text,
                            input.offset(),
                            term,
                            i as int,
                        ).0,
                        spec_sequence(p, text, input.offset(), term, i as int).1,
                        spec_sequence(p, text, input.offset(), term, i as int).2,
                    ),
                decreases ps.len() - i,
            {
                let ghost before = views_of(results@);
                match ps[i].parse(input) {
                    Err(e) => {
                        assert(before + Seq::<ValView>::empty() =~= before);
                        return (results, Some(e));
                    },
                    Ok(v) => {
                        results.push(v);
                        let ghost rest = spec_sequence(p, text, input.offset(), term, i + 1);
                        assert(views_of(results@) =~= before.push(v@));
                        assert(before + (seq![v@] + rest.0) =~= before.push(v@) + rest.0);
                    },
                }
                i = i + 1;
            }
            assert(views_of(results@) + Seq::<ValView>::empty() =~= views_of(results@));
            (results, None)
        },
        _ => (results, None),
    }
}

/// The view of an error that may be absent.
pub open spec fn err_view_of(e: Option<MpcErr>) -> Option<ErrView> {
    match e {
        Some(e) => Some(e@),
        None => None,
    }
}

/// The alternatives of `p`, each tried from the position of the cursor.
fn run_alternatives(p: &MpcParser, input: &mut MpcInput) -> (r: MpcResult)
    requires
        old(input).wf(),
        p.parser_type is Or,
    ensures
        moved_on(old(input), final(input)),
        (result_view(r), final(input).offset()) == spec_alternatives(
            p,
            old(input).text(),
            old(input).offset(),
            old(input).state.term,
            0,
            None,
        ),
    decreases p, 0int,
{
    let ghost term = input.state.term;
    let ghost text = input.text();
    let ghost start = input.offset();
    let saved_state = input.state;
    let saved_pos = input.pos;
    let mut seen: Option<MpcErr> = None;
    match &p.parser_type {
        MpcParserType::Or(ps) => {
            let mut i: usize = 0;
            while i < ps.len()
                invariant
                    old(input).state.term == term,
                    0 <= i <= ps.len(),
                    p.parser_type is Or,
                    p.parser_type->Or_0 == *ps,
                    *input == *old(input),
                    input.wf(),
                    input.text() == text,
                    input.offset() == start,
                    saved_state == input.state,
                    saved_pos == input.pos,
                    spec_alternatives(p, text, start, term, 0, None) == spec_alternatives(
                        p,
                        text,
                        start,
                        term,
                        i as int,
                        err_view_of(seen),
                    ),
                decreases ps.len() - i,
            {
                match ps[i].parse(input) {
                    Ok(v) => {
                        return Ok(v);
                    },
                    Err(e) => {
                        input.state = saved_state;
                        input.pos = saved_pos;
                        seen = match seen {
                            Some(s) => Some(s.merge(e)),
                            None => Some(e),
                        };
                    },
                }
                i = i + 1;
            }
            match seen {
                Some(s) => Err(s),
                None => {
                    proof {
                        lemma_tracked_state(text, input.state);
                    }
                    let mut names: Vec<String> = Vec::new();
                    names.push(String::from_str("or"));
                    assert(texts_of(names@) =~= seq!["or"@]);
                    Err(
                        MpcErr::new(
                            input.state,
                            names,
                            String::from_str("no alternatives matched"),
                            '\0',
                        ),
                    )
                },
            }
        },
        _ => Ok(MpcVal::Unit),
    }
}

/// The parser under the repetition `p`, as often as it succeeds; what it
/// yields is appended to `results`.
fn run_repeat(p: &MpcParser, input: &mut MpcInput, results: Vec<MpcVal>) -> (all: Vec<MpcVal>)
    requires
        old(input).wf(),
        p.parser_type is Many || p.parser_type is Many1,
    ensures
        moved_on(old(input), final(input)),
        views_of(all@) == views_of(results@) + spec_repeat(
            p,
            old(input).text(),
            old(input).offset(),
            old(input).state.term,
        ).0,
        final(input).offset() == spec_repeat(
            p,
            old(input).text(),
            old(input).offset(),
            old(input).state.term,
        ).2,
    decreases p, 0int,
{
    let ghost term = input.state.term;
    let ghost text = input.text();
    let ghost start = input.offset();
    let ghost given = views_of(results@);
    let mut results = results;
    let q: &MpcParser = match &p.parser_type {
        MpcParserType::Many(q, _) => &**q,
        MpcParserType::Many1(q, _) => &**q,
        _ => p,
    };
    let mut done = false;
    assert(given + Seq::<ValView>::empty() =~= given);
    while !done
        invariant
            old(input).state.term == term,
            p.parser_type is Many || p.parser_type is Many1,
            p.parser_type matches MpcParserType::Many(b, _) ==> *b == *q,
            p.parser_type matches MpcParserType::Many1(b, _) ==> *b == *q,
            moved_on(old(input), input),
            input.text() == text,
            old(input).offset() == start,
            !done ==> given + spec_repeat(
                p,
                text,
                start,
                term,
            ).0 == views_of(results@) + spec_repeat(
                p,
                text,
                input.offset(),
                term,
            ).0,
            !done ==> spec_repeat(p, text, start, term).2 == spec_repeat(
                p,
                text,
                input.offset(),
                term,
            ).2,
            done ==> given + spec_repeat(p, text, start, term).0 == views_of(results@),
            done ==> spec_repeat(p, text, start, term).2 == input.offset(),
        decreases
                if done {
                    0
                } else {
                    1 + text.len() - input.offset()
                },
    {
        let ghost before = views_of(results@);
        let saved_state = input.state;
        let saved_pos = input.pos;
        match q.parse(input) {
            Err(_) => {
                input.state = saved_state;
                input.pos = saved_pos;
                assert(before + Seq::<ValView>::empty() =~= before);
                done = true;
            },
            Ok(v) => {
                results.push(v);
                assert(views_of(results@) =~= before.push(v@));
                if input.state.pos > saved_state.pos {
                    let ghost rest = spec_repeat(p, text, input.offset(), term);
                    assert(before + (seq![v@] + rest.0) =~= before.push(v@) + rest.0);
                } else {
                    assert(before + seq![v@] =~= before.push(v@));
                    done = true;
                }
            },
        }
    }
    results
}

/// The parser under the counted repetition `p`, `n` times.
fn run_times(p: &MpcParser, input: &mut MpcInput, n: i32) -> (g: (Vec<MpcVal>, Option<MpcErr>))
    requires
        old(input).wf(),
        p.parser_type is Count,
    ensures
        moved_on(old(input), final(input)),
        (views_of(g.0@), err_view_of(g.1), final(input).offset()) == spec_times(
            p,
            old(input).text(),
            old(input).offset(),
            old(input).state.term,
            n as int,
        ),
    decreases p, 0int,
{
    let ghost term = input.state.term;
    let ghost text = input.text();
    let ghost start = input.offset();
    let mut results: Vec<MpcVal> = Vec::new();
    match &p.parser_type {
        MpcParserType::Count(_, q, _) => {
            let mut k: i32 = n;
            assert(views_of(results@) =~= Seq::empty());
            while k > 0
                invariant
                    old(input).state.term == term,
                    p.parser_type is Count,
                    p.parser_type->Count_1 == *q,
                    moved_on(old(input), input),
                    input.text() == text,
                    old(input).offset() == start,
                    spec_times(p, text, start, term, n as int) == (
                        views_of(results@) + spec_times(p, text, input.offset(), term, k as int).0,
                        spec_times(p, text, input.offset(), term, k as int).1,
                        spec_times(p, text, input.offset(), term, k as int).2,
                    ),
                decreases k,
            {
                let ghost before = views_of(results@);
                match q.parse(input) {
                    Err(e) => {
                        assert(before + Seq::<ValView>::empty() =~= before);
                        return (results, Some(e));
                    },
                    Ok(v) => {
                        results.push(v);
                        let ghost rest = spec_times(p, text, input.offset(), term, k - 1);
                        assert(views_of(results@) =~= before.push(v@));
                        assert(before + (seq![v@] + rest.0) =~= before.push(v@) + rest.0);
                    },
                }
                k = k - 1;
            }
            assert(views_of(results@) + Seq::<ValView>::empty() =~= views_of(results@));
            (results, None)
        },
        _ => (results, None),
    }
}

/// The rest of the separated list `p` after an element; what the further
/// elements yield is appended to `results`.
fn run_separated(p: &MpcParser, input: &mut MpcInput, results: Vec<MpcVal>) -> (all: Vec<MpcVal>)
    requires
        old(input).wf(),
        p.parser_type is SepBy || p.parser_type is SepBy1,
    ensures
        moved_on(old(input), final(input)),
        views_of(all@) == views_of(results@) + spec_separated(
            p,
            old(input).text(),
            old(input).offset(),
            old(input).state.term,
        ).0,
        final(input).offset() == spec_separated(
            p,
            old(input).text(),
            old(input).offset(),
            old(input).state.term,
        ).2,
    decreases p, 0int,
{
    let ghost term = input.state.term;
    let ghost text = input.text();
    let ghost start = input.offset();
    let ghost given = views_of(results@);
    let mut results = results;
    let (q, sep): (&MpcParser, &MpcParser) = match &p.parser_type {
        MpcParserType::SepBy(q, sep, _) => (&**q, &**sep),
        MpcParserType::SepBy1(q, sep, _) => (&**q, &**sep),
        _ => (p, p),
    };
    let mut done = false;
    assert(given + Seq::<ValView>::empty() =~= given);
    while !done
        invariant
            old(input).state.term == term,
            p.parser_type is SepBy || p.parser_type is SepBy1,
            p.parser_type matches MpcParserType::SepBy(b, s, _) ==> *b == *q && *s == *sep,
            p.parser_type matches MpcParserType::SepBy1(b, s, _) ==> *b == *q && *s == *sep,
            moved_on(old(input), input),
            input.text() == text,
            old(input).offset() == start,
            !done ==> given + spec_separated(p, text, start, term).0 == views_of(results@)
                + spec_separated(p, text, input.offset(), term).0,
            !done ==> spec_separated(p, text, start, term).2 == spec_separated(
                p,
                text,
                input.offset(),
                term,
            ).2,
            done ==> given + spec_separated(p, text, start, term).0 == views_of(results@),
            done ==> spec_separated(p, text, start, term).2 == input.offset(),
        decreases
                if done {
                    0
                } else {
                    1 + text.len() - input.offset()
                },
    {
        let ghost before = views_of(results@);
        let saved_state = input.state;
        let saved_pos = input.pos;
        assert(before + Seq::<ValView>::empty() =~= before);
        match sep.parse(input) {
            Err(_) => {
                input.state = saved_state;
                input.pos = saved_pos;
                done = true;
            },
            Ok(_) => {
                match q.parse(input) {
                    Err(_) => {
                        input.state = saved_state;
                        input.pos = saved_pos;
                        done = true;
                    },
                    Ok(v) => {
                        results.push(v);
                        assert(views_of(results@) =~= before.push(v@));
                        if input.state.pos > saved_state.pos {
                            let ghost rest = spec_separated(p, text, input.offset(), term);
                            assert(before + (seq![v@] + rest.0) =~= before.push(v@) + rest.0);
                        } else {
                            assert(before + seq![v@] =~= before.push(v@));
                            done = true;
                        }
                    },
                }
            },
        }
    }
    results
}

/// Parses `string` with `parser`, from its start. `filename` labels the input.
/// The text may hold at most `i64::MAX` characters, so that every position in
/// it can be counted.
pub fn mpc_parse(filename: &str, string: &str, parser: &MpcParser) -> (r: MpcResult)
    requires
        string@.len() <= i64::MAX,
    ensures
        result_view(r) == spec_parse(parser, string@, 0, 0).0,
{
    let mut input = MpcInput::new(filename, string);
    parser.parse(&mut input)
}

} // verus!
