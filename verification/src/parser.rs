//! Grammars as data: the parser tree and the functions that build it.

use vstd::prelude::*;
use vstd::string::*;
use crate::text::{int_text, push_char, push_int};
use crate::value::{views_of, MpcVal, ValView};

verus! {

/// A test on one character, for [`MpcParserType::Satisfy`].
pub trait MpcSatisfy {
    /// Whether the character is accepted. An implementation states it; where
    /// it does not, nothing is known of it.
    open spec fn accepts(&self, c: char) -> bool {
        arbitrary()
    }

    fn test(&self, c: char) -> (ok: bool)
        ensures
            ok == self.accepts(c),
    ;
}

/// A test on the characters before and after the cursor, for
/// [`MpcParserType::Anchor`]. `'\0'` stands for the absent character at either
/// end of the text. The evaluator keeps the test with the parser and never
/// consults it: an anchor succeeds wherever it is run.
pub trait MpcAnchor {
    /// Whether the cursor may stand between `prev` and `next`. An
    /// implementation states it; where it does not, nothing is known of it.
    open spec fn holds(&self, prev: char, next: char) -> bool {
        arbitrary()
    }

    fn test(&self, prev: char, next: char) -> (ok: bool)
        ensures
            ok == self.holds(prev, next),
    ;
}

/// A source of a value that needs no input, for [`MpcParserType::Lift`].
pub trait MpcLift {
    /// The value produced. An implementation states it; where it does not,
    /// nothing is known of it.
    open spec fn value(&self) -> ValView {
        arbitrary()
    }

    fn lift(&self) -> (v: MpcVal)
        ensures
            v@ == self.value(),
    ;
}

/// A value is a source of copies of itself.
impl MpcLift for MpcVal {
    open spec fn value(&self) -> ValView {
        self@
    }

    fn lift(&self) -> (v: MpcVal) {
        self.duplicate()
    }
}

/// A reduction of the values of sub-parsers to one value. `n` is the number
/// of values as a 32-bit count.
pub trait MpcFold {
    /// The value that the values `xs` reduce to. An implementation states
    /// it; where it does not, nothing is known of it.
    open spec fn folded(&self, n: i32, xs: Seq<ValView>) -> ValView {
        arbitrary()
    }

    fn fold(&self, n: i32, xs: Vec<MpcVal>) -> (v: MpcVal)
        ensures
            v@ == self.folded(n, views_of(xs@)),
    ;
}

/// An owned callback of a grammar: a test, a source of a value or a fold,
/// behind a trait object. The builders put the box that they are given into
/// `call` as it is.
pub struct MpcCallback<T: ?Sized> {
    pub call: Box<T>,
}

/// What a parser does.
pub enum MpcParserType {
    /// Matches any character.
    Any,
    /// Matches the given character.
    Char(char),
    /// Matches a character between the two bounds, both included.
    Range(char, char),
    /// Matches any character of the string.
    OneOf(String),
    /// Matches any character that is not in the string.
    NoneOf(String),
    /// Matches a character that passes the test.
    Satisfy(MpcCallback<dyn MpcSatisfy>),
    /// Matches the string, character by character.
    String(String),
    /// Succeeds without consuming input.
    Pass,
    /// Fails with the message.
    Fail(String),
    /// Consumes no input and yields the value of the source.
    Lift(MpcCallback<dyn MpcLift>),
    /// Consumes no input and yields the value of the source.
    LiftVal(MpcCallback<dyn MpcLift>),
    /// Consumes no input and always succeeds; its test is kept and not
    /// consulted.
    Anchor(MpcCallback<dyn MpcAnchor>),
    /// Consumes no input and yields the current position.
    State,
    /// Runs the parsers one after the other and folds their values.
    And(Vec<Box<MpcParser>>, MpcCallback<dyn MpcFold>),
    /// Tries the parsers in turn, each from the same position.
    Or(Vec<Box<MpcParser>>),
    /// Zero or more repetitions.
    Many(Box<MpcParser>, MpcCallback<dyn MpcFold>),
    /// One or more repetitions.
    Many1(Box<MpcParser>, MpcCallback<dyn MpcFold>),
    /// Exactly the given number of repetitions.
    Count(i32, Box<MpcParser>, MpcCallback<dyn MpcFold>),
    /// Zero or more elements with a separator between them.
    SepBy(Box<MpcParser>, Box<MpcParser>, MpcCallback<dyn MpcFold>),
    /// One or more elements with a separator between them.
    SepBy1(Box<MpcParser>, Box<MpcParser>, MpcCallback<dyn MpcFold>),
    /// Turns the value of the parser into a leaf of a syntax tree with the
    /// tag.
    Tag(Box<MpcParser>, String),
    /// Marks the syntax tree that the parser yields as the root.
    Root(Box<MpcParser>),
}

/// A parser: a grammar, and a name for it.
pub struct MpcParser {
    pub name: String,
    pub parser_type: MpcParserType,
}

impl MpcParser {
    /// A parser with the given name that matches any character.
    pub fn new(name: &str) -> (p: MpcParser)
        ensures
            p.name@ == name@,
            p.parser_type == MpcParserType::Any,
    {
        MpcParser { name: String::from_str(name), parser_type: MpcParserType::Any }
    }
}

/// Matches any character.
pub fn mpc_any() -> (p: MpcParser)
    ensures
        p.name@ == "any"@,
        p.parser_type == MpcParserType::Any,
{
    MpcParser { name: String::from_str("any"), parser_type: MpcParserType::Any }
}

/// Matches the character `c`.
pub fn mpc_char(c: char) -> (p: MpcParser)
    ensures
        p.name@ == "char:"@.push(c),
        p.parser_type == MpcParserType::Char(c),
{
    let mut name = String::from_str("char:");
    push_char(&mut name, c);
    MpcParser { name, parser_type: MpcParserType::Char(c) }
}

/// Matches a character from `s` to `e`, both included.
pub fn mpc_range(s: char, e: char) -> (p: MpcParser)
    ensures
        p.name@ == "range:"@.push(s).push('-').push(e),
        p.parser_type == MpcParserType::Range(s, e),
{
    let mut name = String::from_str("range:");
    push_char(&mut name, s);
    push_char(&mut name, '-');
    push_char(&mut name, e);
    MpcParser { name, parser_type: MpcParserType::Range(s, e) }
}

/// Matches any character of `s`.
pub fn mpc_oneof(s: &str) -> (p: MpcParser)
    ensures
        p.name@ == "oneof:"@ + s@,
        p.parser_type matches MpcParserType::OneOf(t) && t@ == s@,
{
    let mut name = String::from_str("oneof:");
    name.append(s);
    MpcParser { name, parser_type: MpcParserType::OneOf(String::from_str(s)) }
}

/// Matches any character that is not in `s`.
pub fn mpc_noneof(s: &str) -> (p: MpcParser)
    ensures
        p.name@ == "noneof:"@ + s@,
        p.parser_type matches MpcParserType::NoneOf(t) && t@ == s@,
{
    let mut name = String::from_str("noneof:");
    name.append(s);
    MpcParser { name, parser_type: MpcParserType::NoneOf(String::from_str(s)) }
}

/// Matches a character that passes the test `f`.
pub fn mpc_satisfy(f: Box<dyn MpcSatisfy>) -> (p: MpcParser)
    ensures
        p.name@ == "satisfy"@,
        p.parser_type matches MpcParserType::Satisfy(c) && c.call == f,
{
    let c = MpcCallback { call: f };
    MpcParser { name: String::from_str("satisfy"), parser_type: MpcParserType::Satisfy(c) }
}

/// Matches the string `s`.
pub fn mpc_string(s: &str) -> (p: MpcParser)
    ensures
        p.name@ == "string:"@ + s@,
        p.parser_type matches MpcParserType::String(t) && t@ == s@,
{
    let mut name = String::from_str("string:");
    name.append(s);
    MpcParser { name, parser_type: MpcParserType::String(String::from_str(s)) }
}

/// Succeeds without consuming input.
pub fn mpc_pass() -> (p: MpcParser)
    ensures
        p.name@ == "pass"@,
        p.parser_type == MpcParserType::Pass,
{
    MpcParser { name: String::from_str("pass"), parser_type: MpcParserType::Pass }
}

/// Fails with the message `m`.
pub fn mpc_fail(m: &str) -> (p: MpcParser)
    ensures
        p.name@ == "fail:"@ + m@,
        p.parser_type matches MpcParserType::Fail(t) && t@ == m@,
{
    let mut name = String::from_str("fail:");
    name.append(m);
    MpcParser { name, parser_type: MpcParserType::Fail(String::from_str(m)) }
}

/// Consumes no input and yields the value of `f`.
pub fn mpc_lift(f: Box<dyn MpcLift>) -> (p: MpcParser)
    ensures
        p.name@ == "lift"@,
        p.parser_type matches MpcParserType::Lift(c) && c.call == f,
{
    let c = MpcCallback { call: f };
    MpcParser { name: String::from_str("lift"), parser_type: MpcParserType::Lift(c) }
}

/// Consumes no input and yields the value of `f`.
pub fn mpc_lift_val(f: Box<dyn MpcLift>) -> (p: MpcParser)
    ensures
        p.name@ == "lift_val"@,
        p.parser_type matches MpcParserType::LiftVal(c) && c.call == f,
{
    let c = MpcCallback { call: f };
    MpcParser { name: String::from_str("lift_val"), parser_type: MpcParserType::LiftVal(c) }
}

/// Consumes no input and always succeeds with the unit value. `f` says
/// between which characters the cursor may stand; it is kept with the parser,
/// and the evaluator never consults it.
pub fn mpc_anchor(f: Box<dyn MpcAnchor>) -> (p: MpcParser)
    ensures
        p.name@ == "anchor"@,
        p.parser_type matches MpcParserType::Anchor(c) && c.call == f,
{
    let c = MpcCallback { call: f };
    MpcParser { name: String::from_str("anchor"), parser_type: MpcParserType::Anchor(c) }
}

/// Consumes no input and yields the current position.
pub fn mpc_state() -> (p: MpcParser)
    ensures
        p.name@ == "state"@,
        p.parser_type == MpcParserType::State,
{
    MpcParser { name: String::from_str("state"), parser_type: MpcParserType::State }
}

/// Whether `boxed` holds the parsers of `parsers`, in order.
pub open spec fn boxes_of(boxed: Seq<Box<MpcParser>>, parsers: Seq<MpcParser>) -> bool {
    &&& boxed.len() == parsers.len()
    &&& forall|i: int| 0 <= i < parsers.len() ==> *(#[trigger] boxed[i]) == parsers[i]
}

/// Moves the parsers into boxes, keeping their order.
fn box_all(parsers: Vec<MpcParser>) -> (boxed: Vec<Box<MpcParser>>)
    ensures
        boxes_of(boxed@, parsers@),
{
    let ghost all = parsers@;
    let mut parsers = parsers;
    let mut rev: Vec<Box<MpcParser>> = Vec::new();
    while parsers.len() > 0
        invariant
            parsers@.len() + rev@.len() == all.len(),
            forall|i: int| 0 <= i < parsers@.len() ==> parsers@[i] == all[i],
            forall|j: int|
                0 <= j < rev@.len() ==> *(#[trigger] rev@[j]) == all[all.len() - 1 - j],
        decreases parsers.len(),
    {
        match parsers.pop() {
            Some(p) => rev.push(Box::new(p)),
            None => {},
        }
    }
    let mut boxed: Vec<Box<MpcParser>> = Vec::new();
    while rev.len() > 0
        invariant
            boxed@.len() + rev@.len() == all.len(),
            forall|i: int| 0 <= i < boxed@.len() ==> *(#[trigger] boxed@[i]) == all[i],
            forall|j: int|
                0 <= j < rev@.len() ==> *(#[trigger] rev@[j]) == all[all.len() - 1 - j],
        decreases rev.len(),
    {
        match rev.pop() {
            Some(p) => boxed.push(p),
            None => {},
        }
    }
    boxed
}

/// Runs `parsers` one after the other and folds their values with `fold`.
pub fn mpc_and(parsers: Vec<MpcParser>, fold: Box<dyn MpcFold>) -> (p: MpcParser)
    ensures
        p.name@ == "and"@,
        p.parser_type matches MpcParserType::And(ps, c) && boxes_of(ps@, parsers@) && c.call
            == fold,
{
    let boxed = box_all(parsers);
    let c = MpcCallback { call: fold };
    MpcParser { name: String::from_str("and"), parser_type: MpcParserType::And(boxed, c) }
}

/// Tries `parsers` in turn, each from the same position.
pub fn mpc_or(parsers: Vec<MpcParser>) -> (p: MpcParser)
    ensures
        p.name@ == "or"@,
        p.parser_type matches MpcParserType::Or(ps) && boxes_of(ps@, parsers@),
{
    MpcParser { name: String::from_str("or"), parser_type: MpcParserType::Or(box_all(parsers)) }
}

/// Zero or more repetitions of `parser`, folded with `fold`.
pub fn mpc_many(parser: MpcParser, fold: Box<dyn MpcFold>) -> (p: MpcParser)
    ensures
        p.name@ == "many"@,
        p.parser_type matches MpcParserType::Many(q, c) && *q == parser && c.call == fold,
{
    let c = MpcCallback { call: fold };
    MpcParser { name: String::from_str("many"), parser_type: MpcParserType::Many(
        Box::new(parser),
        c,
    ) }
}

/// One or more repetitions of `parser`, folded with `fold`.
pub fn mpc_many1(parser: MpcParser, fold: Box<dyn MpcFold>) -> (p: MpcParser)
    ensures
        p.name@ == "many1"@,
        p.parser_type matches MpcParserType::Many1(q, c) && *q == parser && c.call == fold,
{
    let c = MpcCallback { call: fold };
    MpcParser {
        name: String::from_str("many1"),
        parser_type: MpcParserType::Many1(Box::new(parser), c),
    }
}

/// Exactly `n` repetitions of `parser`, folded with `fold`; none where `n` is
/// not positive.
pub fn mpc_count(n: i32, parser: MpcParser, fold: Box<dyn MpcFold>) -> (p: MpcParser)
    ensures
        p.name@ == "count:"@ + int_text(n as int),
        p.parser_type matches MpcParserType::Count(k, q, c) && k == n && *q == parser && c.call
            == fold,
{
    let mut name = String::from_str("count:");
    push_int(&mut name, n as i64);
    let c = MpcCallback { call: fold };
    MpcParser { name, parser_type: MpcParserType::Count(n, Box::new(parser), c) }
}

/// Zero or more `parser`, with `sep` between them, folded with `fold`.
pub fn mpc_sepby(parser: MpcParser, sep: MpcParser, fold: Box<dyn MpcFold>) -> (p: MpcParser)
    ensures
        p.name@ == "sepby"@,
        p.parser_type matches MpcParserType::SepBy(q, s, c) && *q == parser && *s == sep && c.call
            == fold,
{
    let c = MpcCallback { call: fold };
    MpcParser {
        name: String::from_str("sepby"),
        parser_type: MpcParserType::SepBy(Box::new(parser), Box::new(sep), c),
    }
}

/// One or more `parser`, with `sep` between them, folded with `fold`.
pub fn mpc_sepby1(parser: MpcParser, sep: MpcParser, fold: Box<dyn MpcFold>) -> (p: MpcParser)
    ensures
        p.name@ == "sepby1"@,
        p.parser_type matches MpcParserType::SepBy1(q, s, c) && *q == parser && *s == sep
            && c.call == fold,
{
    let c = MpcCallback { call: fold };
    MpcParser {
        name: String::from_str("sepby1"),
        parser_type: MpcParserType::SepBy1(Box::new(parser), Box::new(sep), c),
    }
}

/// Turns the value of `parser` into a leaf of a syntax tree: the node has
/// the tag `tag`, the value as text for its contents, the position at which
/// `parser` began, and no children.
pub fn mpca_tag(parser: MpcParser, tag: &str) -> (p: MpcParser)
    ensures
        p.name@ == "tag:"@ + tag@,
        p.parser_type matches MpcParserType::Tag(q, t) && *q == parser && t@ == tag@,
{
    let mut name = String::from_str("tag:");
    name.append(tag);
    MpcParser { name, parser_type: MpcParserType::Tag(Box::new(parser), String::from_str(tag)) }
}

/// Marks the syntax tree that `parser` yields as the root.
pub fn mpca_root(parser: MpcParser) -> (p: MpcParser)
    ensures
        p.name@ == "root"@,
        p.parser_type == MpcParserType::Root(Box::new(parser)),
{
    MpcParser { name: String::from_str("root"), parser_type: MpcParserType::Root(Box::new(parser)) }
}

} // verus!
