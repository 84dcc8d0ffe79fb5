use mpc::{
    mpc_alpha, mpc_alphanum, mpc_and, mpc_any, mpc_anchor, mpc_blank, mpc_boundary,
    mpc_boundary_newline, mpc_char, mpc_count, mpc_digit, mpc_digits, mpc_eoi, mpc_escape,
    mpc_fail, mpc_hexdigit, mpc_hexdigits, mpc_lift, mpc_lift_val, mpc_lower, mpc_many, mpc_many1,
    mpc_newline, mpc_noneof, mpc_octdigit, mpc_octdigits, mpc_oneof, mpc_or, mpc_parse, mpc_pass,
    mpc_range, mpc_satisfy, mpc_sepby, mpc_sepby1, mpc_soi, mpc_state, mpc_string, mpc_tab,
    mpc_underscore, mpc_upper, mpc_whitespace, mpc_whitespaces, mpca_root, mpca_tag, mpcf_fst,
    mpcf_null, mpcf_strfold, BoundaryAnchor, EoiAnchor, MpcAnchor, MpcErr, MpcInput, MpcLift,
    MpcParser, MpcParserType, MpcSatisfy, MpcState, MpcVal, NullFold, SoiAnchor,
};

struct Always;

impl MpcSatisfy for Always {
    fn test(&self, _c: char) -> bool {
        true
    }
}

struct Nothing;

impl MpcLift for Nothing {
    fn lift(&self) -> MpcVal {
        MpcVal::Unit
    }
}

fn text_of(v: MpcVal) -> String {
    match v {
        MpcVal::Str(s) => s,
        other => panic!("not a text: {:?}", other),
    }
}

fn accepts(p: &MpcParser, s: &str) -> bool {
    let mut input = MpcInput::new("t", s);
    p.parse(&mut input).is_ok() && input.state.pos == 1
}

#[test]
fn parser_new_is_a_named_any() {
    let p = MpcParser::new("custom");
    assert_eq!(p.name, "custom");
    assert!(matches!(p.parser_type, MpcParserType::Any));
}

#[test]
fn primitive_builders_name_their_parsers() {
    assert_eq!(mpc_any().name, "any");
    assert_eq!(mpc_char('x').name, "char:x");
    assert_eq!(mpc_range('a', 'f').name, "range:a-f");
    assert_eq!(mpc_oneof("abc").name, "oneof:abc");
    assert_eq!(mpc_noneof("abc").name, "noneof:abc");
    assert_eq!(mpc_satisfy(Box::new(Always)).name, "satisfy");
    assert_eq!(mpc_string("let").name, "string:let");
    assert_eq!(mpc_pass().name, "pass");
    assert_eq!(mpc_fail("bad").name, "fail:bad");
    assert_eq!(mpc_lift(Box::new(Nothing)).name, "lift");
    assert_eq!(mpc_lift_val(Box::new(Nothing)).name, "lift_val");
    assert_eq!(mpc_anchor(Box::new(SoiAnchor)).name, "anchor");
    assert_eq!(mpc_state().name, "state");
}

#[test]
fn combinator_builders_name_their_parsers() {
    assert_eq!(mpc_and(vec![], Box::new(NullFold)).name, "and");
    assert_eq!(mpc_or(vec![]).name, "or");
    assert_eq!(mpc_many(mpc_any(), Box::new(NullFold)).name, "many");
    assert_eq!(mpc_many1(mpc_any(), Box::new(NullFold)).name, "many1");
    assert_eq!(mpc_count(3, mpc_any(), Box::new(NullFold)).name, "count:3");
    assert_eq!(mpc_count(-12, mpc_any(), Box::new(NullFold)).name, "count:-12");
    assert_eq!(mpc_count(0, mpc_any(), Box::new(NullFold)).name, "count:0");
    assert_eq!(mpc_count(i32::MIN, mpc_any(), Box::new(NullFold)).name, "count:-2147483648");
    assert_eq!(mpc_count(i32::MAX, mpc_any(), Box::new(NullFold)).name, "count:2147483647");
    assert_eq!(mpc_sepby(mpc_any(), mpc_any(), Box::new(NullFold)).name, "sepby");
    assert_eq!(mpc_sepby1(mpc_any(), mpc_any(), Box::new(NullFold)).name, "sepby1");
    assert_eq!(mpca_tag(mpc_any(), "t").name, "tag:t");
    assert_eq!(mpca_root(mpc_any()).name, "root");
}

#[test]
fn builders_keep_their_operands() {
    match mpc_and(vec![mpc_char('a'), mpc_char('b')], Box::new(NullFold)).parser_type {
        MpcParserType::And(ps, _) => {
            assert_eq!(ps.len(), 2);
            assert!(matches!(ps[0].parser_type, MpcParserType::Char('a')));
            assert!(matches!(ps[1].parser_type, MpcParserType::Char('b')));
        }
        _ => panic!("not a sequence"),
    }
    match mpc_or(vec![mpc_char('a'), mpc_char('b'), mpc_char('c')]).parser_type {
        MpcParserType::Or(ps) => {
            assert_eq!(ps.len(), 3);
            assert!(matches!(ps[0].parser_type, MpcParserType::Char('a')));
            assert!(matches!(ps[2].parser_type, MpcParserType::Char('c')));
        }
        _ => panic!("not an alternation"),
    }
    match mpc_count(4, mpc_char('a'), Box::new(NullFold)).parser_type {
        MpcParserType::Count(n, q, _) => {
            assert_eq!(n, 4);
            assert!(matches!(q.parser_type, MpcParserType::Char('a')));
        }
        _ => panic!("not a counted repetition"),
    }
    match mpc_sepby(mpc_char('a'), mpc_char(','), Box::new(NullFold)).parser_type {
        MpcParserType::SepBy(q, sep, _) => {
            assert!(matches!(q.parser_type, MpcParserType::Char('a')));
            assert!(matches!(sep.parser_type, MpcParserType::Char(',')));
        }
        _ => panic!("not a separated list"),
    }
    match mpca_tag(mpc_char('a'), "letter").parser_type {
        MpcParserType::Tag(q, tag) => {
            assert!(matches!(q.parser_type, MpcParserType::Char('a')));
            assert_eq!(tag, "letter");
        }
        _ => panic!("not a tag"),
    }
    assert!(matches!(mpc_string("ab").parser_type, MpcParserType::String(ref s) if s == "ab"));
    assert!(matches!(mpc_oneof("ab").parser_type, MpcParserType::OneOf(ref s) if s == "ab"));
    assert!(matches!(mpc_noneof("ab").parser_type, MpcParserType::NoneOf(ref s) if s == "ab"));
    assert!(matches!(mpc_fail("ab").parser_type, MpcParserType::Fail(ref s) if s == "ab"));
    assert!(matches!(mpc_range('a', 'b').parser_type, MpcParserType::Range('a', 'b')));
}

#[test]
fn character_classes() {
    for (c, expected) in [(" ", true), ("\t", true), ("\n", true), ("\r", true), ("x", false)] {
        assert_eq!(accepts(&mpc_whitespace(), c), expected);
    }
    for (c, expected) in [(" ", true), ("\t", true), ("\n", false), ("\r", false)] {
        assert_eq!(accepts(&mpc_blank(), c), expected);
    }
    assert!(accepts(&mpc_newline(), "\n") && !accepts(&mpc_newline(), "\r"));
    assert!(accepts(&mpc_tab(), "\t") && !accepts(&mpc_tab(), " "));
    assert!(accepts(&mpc_escape(), "\\") && !accepts(&mpc_escape(), "/"));
    assert!(accepts(&mpc_underscore(), "_") && !accepts(&mpc_underscore(), "-"));
    for (c, expected) in [("0", true), ("9", true), ("/", false), (":", false), ("a", false)] {
        assert_eq!(accepts(&mpc_digit(), c), expected);
    }
    for (c, expected) in [("0", true), ("7", true), ("8", false)] {
        assert_eq!(accepts(&mpc_octdigit(), c), expected);
    }
    for (c, expected) in
        [("0", true), ("9", true), ("a", true), ("f", true), ("A", true), ("F", true), ("g", false), ("G", false)]
    {
        assert_eq!(accepts(&mpc_hexdigit(), c), expected);
    }
    for (c, expected) in [("a", true), ("z", true), ("A", false), ("`", false), ("{", false)] {
        assert_eq!(accepts(&mpc_lower(), c), expected);
    }
    for (c, expected) in [("A", true), ("Z", true), ("a", false), ("@", false), ("[", false)] {
        assert_eq!(accepts(&mpc_upper(), c), expected);
    }
    for (c, expected) in [("a", true), ("Z", true), ("0", false), ("_", false)] {
        assert_eq!(accepts(&mpc_alpha(), c), expected);
    }
    for (c, expected) in [("a", true), ("Z", true), ("0", true), ("_", false)] {
        assert_eq!(accepts(&mpc_alphanum(), c), expected);
    }
}

#[test]
fn alphanum_reports_all_classes_on_failure() {
    let e = mpc_parse("t", "_", &mpc_alphanum()).unwrap_err();
    assert_eq!(e.expected, vec!["a-z".to_string(), "A-Z".to_string(), "0-9".to_string()]);
    assert_eq!(e.expected_num, 3);
    assert_eq!(e.failure, "expected char in range a-z");
    assert_eq!(e.received, '_');
}

#[test]
fn runs_of_characters() {
    let mut input = MpcInput::new("t", " \t\r\nx");
    assert_eq!(text_of(mpc_whitespaces().parse(&mut input).unwrap()), " \t\r\n");
    assert_eq!(input.state.pos, 4);
    assert_eq!(text_of(mpc_parse("t", "x", &mpc_whitespaces()).unwrap()), "");
    assert_eq!(text_of(mpc_parse("t", "2024-", &mpc_digits()).unwrap()), "2024");
    assert!(mpc_parse("t", "-", &mpc_digits()).is_err());
    assert_eq!(text_of(mpc_parse("t", "1aFg", &mpc_hexdigits()).unwrap()), "1aF");
    assert!(mpc_parse("t", "g", &mpc_hexdigits()).is_err());
    assert_eq!(text_of(mpc_parse("t", "1789", &mpc_octdigits()).unwrap()), "17");
    assert!(mpc_parse("t", "8", &mpc_octdigits()).is_err());
}

#[test]
fn anchors_are_named_and_consume_nothing() {
    for (parser, name) in [
        (mpc_eoi(), "eoi"),
        (mpc_soi(), "soi"),
        (mpc_boundary(), "boundary_newline"),
        (mpc_boundary_newline(), "boundary_newline"),
    ] {
        assert_eq!(parser.name, name);
        assert!(matches!(parser.parser_type, MpcParserType::Anchor(_)));
        let mut input = MpcInput::new("t", "ab");
        input.advance();
        assert!(matches!(parser.parse(&mut input), Ok(MpcVal::Unit)));
        assert_eq!(input.state.pos, 1);
    }
}

#[test]
fn anchor_tests() {
    assert!(EoiAnchor.test('a', '\0'));
    assert!(!EoiAnchor.test('\0', 'a'));
    assert!(SoiAnchor.test('\0', 'a'));
    assert!(!SoiAnchor.test('a', '\0'));
    assert!(BoundaryAnchor.test('\0', '\0'));
    assert!(BoundaryAnchor.test(' ', '.'));
    assert!(BoundaryAnchor.test('\0', '-'));
    assert!(!BoundaryAnchor.test('a', ' '));
    assert!(!BoundaryAnchor.test(' ', 'a'));
    assert!(!BoundaryAnchor.test('_', ' '));
    assert!(!BoundaryAnchor.test(' ', '_'));
    assert!(!BoundaryAnchor.test('7', ' '));
    assert!(!BoundaryAnchor.test(' ', '\u{e9}'));
    assert!(BoundaryAnchor.test('+', '\u{20ac}'));
}

#[test]
fn strfold_concatenates_texts_and_skips_the_rest() {
    let xs = vec![
        MpcVal::Str("ab".to_string()),
        MpcVal::Unit,
        MpcVal::Int(3),
        MpcVal::Str("".to_string()),
        MpcVal::Char('x'),
        MpcVal::Str("c".to_string()),
    ];
    assert_eq!(text_of(mpcf_strfold(6, xs)), "abc");
    assert_eq!(text_of(mpcf_strfold(0, vec![])), "");
}

#[test]
fn fst_yields_the_first_value() {
    let xs = vec![MpcVal::Int(1), MpcVal::Int(2), MpcVal::Int(3)];
    assert!(matches!(mpcf_fst(3, xs), MpcVal::Int(1)));
    assert!(matches!(mpcf_fst(1, vec![MpcVal::Char('q')]), MpcVal::Char('q')));
    assert!(matches!(mpcf_fst(0, vec![]), MpcVal::Unit));
}

#[test]
fn null_yields_unit() {
    assert!(matches!(mpcf_null(2, vec![MpcVal::Int(1), MpcVal::Int(2)]), MpcVal::Unit));
    assert!(matches!(mpcf_null(0, vec![]), MpcVal::Unit));
}

#[test]
fn error_new_counts_the_expected_texts() {
    let state = MpcState { pos: 4, row: 1, col: 2, term: 0 };
    let e = MpcErr::new(state, vec!["a".to_string(), "b".to_string()], "boom".to_string(), 'z');
    assert_eq!(e.state, state);
    assert_eq!(e.expected_num, 2);
    assert_eq!(e.expected, vec!["a".to_string(), "b".to_string()]);
    assert_eq!(e.failure, "boom");
    assert_eq!(e.received, 'z');
    assert_eq!(e.filename, "");
}

fn err_at(pos: i64, expected: &[&str], failure: &str, received: char) -> MpcErr {
    MpcErr::new(
        MpcState { pos, row: 0, col: pos, term: 0 },
        expected.iter().map(|s| s.to_string()).collect(),
        failure.to_string(),
        received,
    )
}

#[test]
fn merge_keeps_the_farther_error() {
    let near = err_at(1, &["a"], "near", 'x');
    let far = err_at(5, &["b"], "far", 'y');
    let m = near.clone().merge(far.clone());
    assert_eq!((m.state.pos, m.failure.as_str(), m.received), (5, "far", 'y'));
    assert_eq!(m.expected, vec!["b".to_string()]);
    let m = far.merge(near);
    assert_eq!((m.state.pos, m.failure.as_str(), m.received), (5, "far", 'y'));
    assert_eq!(m.expected, vec!["b".to_string()]);
}

#[test]
fn merge_at_the_same_position_unites_expected_texts() {
    let first = err_at(2, &["a", "b"], "first", 'x');
    let second = err_at(2, &["b", "c", "a", "d", "c"], "second", 'y');
    let m = first.merge(second);
    assert_eq!(m.state.pos, 2);
    assert_eq!(m.failure, "first");
    assert_eq!(m.received, 'x');
    assert_eq!(
        m.expected,
        vec!["a".to_string(), "b".to_string(), "c".to_string(), "d".to_string()]
    );
    assert_eq!(m.expected_num, 4);
}

#[test]
fn error_line_holds_message_and_position() {
    let e = MpcErr::new(
        MpcState { pos: 17, row: 3, col: 12, term: 0 },
        vec![],
        "expected ')'".to_string(),
        '\0',
    );
    assert_eq!(e.render(), "Error: expected ')' at 3:12");
    let e = mpc_parse("t", "b", &mpc_char('a')).unwrap_err();
    assert_eq!(e.render(), "Error: expected 'a' at 0:0");
}
