//! Ready-made parsers for common character classes and anchors.

use vstd::prelude::*;
use vstd::string::*;
use crate::fold::{concat_texts, StrFold};
use crate::parser::{
    mpc_char, mpc_many, mpc_many1, mpc_oneof, mpc_or, mpc_range, MpcAnchor, MpcCallback,
    MpcParser, MpcParserType, MpcSatisfy,
};
use crate::semantics::fold_of;
use crate::text::{char_is_alphanumeric, is_alphanumeric};
use crate::value::ValView;

verus! {

/// Holds where no character follows the cursor.
pub struct EoiAnchor;

/// Holds where no character precedes the cursor.
pub struct SoiAnchor;

/// Holds where neither neighbour of the cursor is a word character.
pub struct BoundaryAnchor;

/// Accepts the characters of words: the alphanumeric ones and the
/// underscore.
pub struct WordChar;

/// Whether `c` is a character of a word: alphanumeric, or an underscore.
pub open spec fn is_word_char(c: char) -> bool {
    is_alphanumeric(c) || c == '_'
}

impl MpcSatisfy for WordChar {
    open spec fn accepts(&self, c: char) -> bool {
        is_word_char(c)
    }

    fn test(&self, c: char) -> (ok: bool) {
        char_is_alphanumeric(c) || c == '_'
    }
}

/// Whether the cursor stands at a boundary: on either side there is no
/// character, or one that is not of a word.
pub open spec fn at_boundary(prev: char, next: char) -> bool {
    (prev == '\0' || !is_word_char(prev)) && (next == '\0' || !is_word_char(next))
}

impl MpcAnchor for EoiAnchor {
    open spec fn holds(&self, prev: char, next: char) -> bool {
        next == '\0'
    }

    fn test(&self, prev: char, next: char) -> (ok: bool) {
        next == '\0'
    }
}

impl MpcAnchor for SoiAnchor {
    open spec fn holds(&self, prev: char, next: char) -> bool {
        prev == '\0'
    }

    fn test(&self, prev: char, next: char) -> (ok: bool) {
        prev == '\0'
    }
}

impl MpcAnchor for BoundaryAnchor {
    open spec fn holds(&self, prev: char, next: char) -> bool {
        at_boundary(prev, next)
    }

    fn test(&self, prev: char, next: char) -> (ok: bool) {
        (prev == '\0' || !WordChar.test(prev)) && (next == '\0' || !WordChar.test(next))
    }
}

/// Whether `p` is an anchor whose test is `holds`.
pub open spec fn is_anchor(p: &MpcParser, holds: spec_fn(char, char) -> bool) -> bool {
    p.parser_type matches MpcParserType::Anchor(a) && forall|prev: char, next: char|
        #[trigger] a.call.holds(prev, next) == holds(prev, next)
}

/// Whether `p` is the parser that [`mpc_char`] builds for `c`.
pub open spec fn is_char(p: &MpcParser, c: char) -> bool {
    p.name@ == "char:"@.push(c) && p.parser_type == MpcParserType::Char(c)
}

/// Whether `p` is the parser that [`mpc_range`] builds for `s` and `e`.
pub open spec fn is_range(p: &MpcParser, s: char, e: char) -> bool {
    p.name@ == "range:"@.push(s).push('-').push(e) && p.parser_type == MpcParserType::Range(s, e)
}

/// Whether `p` is the parser that [`mpc_oneof`] builds for the string `set`.
pub open spec fn is_oneof(p: &MpcParser, set: Seq<char>) -> bool {
    &&& p.name@ == "oneof:"@ + set
    &&& p.parser_type matches MpcParserType::OneOf(t) && t@ == set
}

/// Whether `p` matches a letter: a lower-case one, or else an upper-case one.
pub open spec fn is_alpha(p: &MpcParser) -> bool {
    &&& p.name@ == "or"@
    &&& p.parser_type matches MpcParserType::Or(ps) && ps@.len() == 2 && is_range(
        &*ps@[0],
        'a',
        'z',
    ) && is_range(&*ps@[1], 'A', 'Z')
}

/// Whether `p` matches a hexadecimal digit: a decimal digit, or else a letter
/// from `a` to `f`, or else one from `A` to `F`.
pub open spec fn is_hexdigit(p: &MpcParser) -> bool {
    &&& p.name@ == "or"@
    &&& p.parser_type matches MpcParserType::Or(ps) && ps@.len() == 3 && is_range(
        &*ps@[0],
        '0',
        '9',
    ) && is_range(&*ps@[1], 'a', 'f') && is_range(&*ps@[2], 'A', 'F')
}

/// Whether the fold of the combinator `p` concatenates texts.
pub open spec fn folds_texts(p: &MpcParser) -> bool {
    forall|xs: Seq<ValView>| #[trigger] fold_of(p, xs) == ValView::Str(concat_texts(xs))
}

/// The anchor for the end of the input. Like every anchor it consumes
/// nothing and succeeds wherever it is run: its test, which holds where no
/// character follows, is kept with it and never consulted by the evaluator.
pub fn mpc_eoi() -> (p: MpcParser)
    ensures
        p.name@ == "eoi"@,
        is_anchor(&p, |prev: char, next: char| next == '\0'),
{
    MpcParser {
        name: String::from_str("eoi"),
        parser_type: MpcParserType::Anchor(MpcCallback { call: Box::new(EoiAnchor) }),
    }
}

/// The anchor for the start of the input. Like every anchor it consumes
/// nothing and succeeds wherever it is run: its test, which holds where no
/// character precedes, is kept with it and never consulted by the evaluator.
pub fn mpc_soi() -> (p: MpcParser)
    ensures
        p.name@ == "soi"@,
        is_anchor(&p, |prev: char, next: char| prev == '\0'),
{
    MpcParser {
        name: String::from_str("soi"),
        parser_type: MpcParserType::Anchor(MpcCallback { call: Box::new(SoiAnchor) }),
    }
}

/// The anchor for a word boundary, the same as [`mpc_boundary_newline`].
/// Like every anchor it consumes nothing and succeeds wherever it is run: its
/// test is kept with it and never consulted by the evaluator.
pub fn mpc_boundary() -> (p: MpcParser)
    ensures
        p.name@ == "boundary_newline"@,
        is_anchor(&p, |prev: char, next: char| at_boundary(prev, next)),
{
    mpc_boundary_newline()
}

/// The anchor for a word boundary. Like every anchor it consumes nothing and
/// succeeds wherever it is run: its test, which holds where neither
/// neighbour of the cursor is a character of a word, is kept with it and
/// never consulted by the evaluator.
pub fn mpc_boundary_newline() -> (p: MpcParser)
    ensures
        p.name@ == "boundary_newline"@,
        is_anchor(&p, |prev: char, next: char| at_boundary(prev, next)),
{
    MpcParser {
        name: String::from_str("boundary_newline"),
        parser_type: MpcParserType::Anchor(MpcCallback { call: Box::new(BoundaryAnchor) }),
    }
}

/// Matches a space, a tab, a line feed or a carriage return.
pub fn mpc_whitespace() -> (p: MpcParser)
    ensures
        is_oneof(&p, " \t\n\r"@),
{
    mpc_oneof(" \t\n\r")
}

/// Matches any run of whitespace, also an empty one, and yields it.
pub fn mpc_whitespaces() -> (p: MpcParser)
    ensures
        p.name@ == "many"@,
        p.parser_type matches MpcParserType::Many(q, _) && is_oneof(&*q, " \t\n\r"@),
        folds_texts(&p),
{
    mpc_many(mpc_whitespace(), Box::new(StrFold))
}

/// Matches a space or a tab.
pub fn mpc_blank() -> (p: MpcParser)
    ensures
        is_oneof(&p, " \t"@),
{
    mpc_oneof(" \t")
}

/// Matches a line feed.
pub fn mpc_newline() -> (p: MpcParser)
    ensures
        is_char(&p, '\n'),
{
    mpc_char('\n')
}

/// Matches a tab.
pub fn mpc_tab() -> (p: MpcParser)
    ensures
        is_char(&p, '\t'),
{
    mpc_char('\t')
}

/// Matches a backslash.
pub fn mpc_escape() -> (p: MpcParser)
    ensures
        is_char(&p, '\\'),
{
    mpc_char('\\')
}

/// Matches a decimal digit.
pub fn mpc_digit() -> (p: MpcParser)
    ensures
        is_range(&p, '0', '9'),
{
    mpc_range('0', '9')
}

/// Matches a hexadecimal digit.
pub fn mpc_hexdigit() -> (p: MpcParser)
    ensures
        is_hexdigit(&p),
{
    let mut parsers: Vec<MpcParser> = Vec::new();
    parsers.push(mpc_range('0', '9'));
    parsers.push(mpc_range('a', 'f'));
    parsers.push(mpc_range('A', 'F'));
    mpc_or(parsers)
}

/// Matches an octal digit.
pub fn mpc_octdigit() -> (p: MpcParser)
    ensures
        is_range(&p, '0', '7'),
{
    mpc_range('0', '7')
}

/// Matches one or more decimal digits and yields them.
pub fn mpc_digits() -> (p: MpcParser)
    ensures
        p.name@ == "many1"@,
        p.parser_type matches MpcParserType::Many1(q, _) && is_range(&*q, '0', '9'),
        folds_texts(&p),
{
    mpc_many1(mpc_digit(), Box::new(StrFold))
}

/// Matches one or more hexadecimal digits and yields them.
pub fn mpc_hexdigits() -> (p: MpcParser)
    ensures
        p.name@ == "many1"@,
        p.parser_type matches MpcParserType::Many1(q, _) && is_hexdigit(&*q),
        folds_texts(&p),
{
    mpc_many1(mpc_hexdigit(), Box::new(StrFold))
}

/// Matches one or more octal digits and yields them.
pub fn mpc_octdigits() -> (p: MpcParser)
    ensures
        p.name@ == "many1"@,
        p.parser_type matches MpcParserType::Many1(q, _) && is_range(&*q, '0', '7'),
        folds_texts(&p),
{
    mpc_many1(mpc_octdigit(), Box::new(StrFold))
}

/// Matches a lower-case letter from `a` to `z`.
pub fn mpc_lower() -> (p: MpcParser)
    ensures
        is_range(&p, 'a', 'z'),
{
    mpc_range('a', 'z')
}

/// Matches an upper-case letter from `A` to `Z`.
pub fn mpc_upper() -> (p: MpcParser)
    ensures
        is_range(&p, 'A', 'Z'),
{
    mpc_range('A', 'Z')
}

/// Matches a letter.
pub fn mpc_alpha() -> (p: MpcParser)
    ensures
        is_alpha(&p),
{
    let mut parsers: Vec<MpcParser> = Vec::new();
    parsers.push(mpc_lower());
    parsers.push(mpc_upper());
    mpc_or(parsers)
}

/// Matches an underscore.
pub fn mpc_underscore() -> (p: MpcParser)
    ensures
        is_char(&p, '_'),
{
    mpc_char('_')
}

/// Matches a letter or a decimal digit.
pub fn mpc_alphanum() -> (p: MpcParser)
    ensures
        p.name@ == "or"@,
        p.parser_type matches MpcParserType::Or(ps) && ps@.len() == 2 && is_alpha(&*ps@[0])
            && is_range(&*ps@[1], '0', '9'),
{
    let mut parsers: Vec<MpcParser> = Vec::new();
    parsers.push(mpc_alpha());
    parsers.push(mpc_digit());
    mpc_or(parsers)
}

} // verus!
