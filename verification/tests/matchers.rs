use mpc::{
    mpc_any, mpc_anchor, mpc_char, mpc_fail, mpc_lift, mpc_lift_val, mpc_noneof, mpc_oneof,
    mpc_parse, mpc_pass, mpc_range, mpc_satisfy, mpc_state, mpc_string, EoiAnchor, MpcAst,
    MpcInput, MpcLift, MpcSatisfy, MpcState, MpcVal, WordChar,
};

struct IsVowel;

impl MpcSatisfy for IsVowel {
    fn test(&self, c: char) -> bool {
        "aeiou".contains(c)
    }
}

struct FortyTwo;

impl MpcLift for FortyTwo {
    fn lift(&self) -> MpcVal {
        MpcVal::Int(42)
    }
}

fn text_of(v: MpcVal) -> String {
    match v {
        MpcVal::Str(s) => s,
        other => panic!("not a text: {:?}", other),
    }
}

#[test]
fn any_takes_one_character() {
    let mut input = MpcInput::new("t", "xy");
    let v = mpc_any().parse(&mut input).unwrap();
    assert_eq!(text_of(v), "x");
    assert_eq!(input.state, MpcState { pos: 1, row: 0, col: 1, term: 0 });
}

#[test]
fn any_fails_at_end_of_input() {
    let e = mpc_parse("t", "", &mpc_any()).unwrap_err();
    assert_eq!(e.expected, vec!["any".to_string()]);
    assert_eq!(e.expected_num, 1);
    assert_eq!(e.failure, "unexpected end of input");
    assert_eq!(e.received, '\0');
    assert_eq!(e.filename, "");
    assert_eq!(e.state, MpcState { pos: 0, row: 0, col: 0, term: 0 });
}

#[test]
fn char_matches_itself() {
    let v = mpc_parse("t", "a", &mpc_char('a')).unwrap();
    assert_eq!(text_of(v), "a");
}

#[test]
fn char_mismatch_names_the_character() {
    let mut input = MpcInput::new("t", "b");
    let e = mpc_char('a').parse(&mut input).unwrap_err();
    assert_eq!(e.expected, vec!["a".to_string()]);
    assert_eq!(e.failure, "expected 'a'");
    assert_eq!(e.received, 'b');
    assert_eq!(e.state.pos, 0);
    assert_eq!(input.state.pos, 0);
    assert_eq!(input.pos, 0);
}

#[test]
fn char_at_end_of_input_receives_nul() {
    let e = mpc_parse("t", "", &mpc_char('a')).unwrap_err();
    assert_eq!(e.failure, "expected 'a'");
    assert_eq!(e.received, '\0');
}

#[test]
fn range_includes_both_bounds() {
    assert_eq!(text_of(mpc_parse("t", "a", &mpc_range('a', 'c')).unwrap()), "a");
    assert_eq!(text_of(mpc_parse("t", "c", &mpc_range('a', 'c')).unwrap()), "c");
    let e = mpc_parse("t", "d", &mpc_range('a', 'c')).unwrap_err();
    assert_eq!(e.expected, vec!["a-c".to_string()]);
    assert_eq!(e.failure, "expected char in range a-c");
    assert_eq!(e.received, 'd');
}

#[test]
fn oneof_accepts_members_only() {
    assert_eq!(text_of(mpc_parse("t", "+", &mpc_oneof("+-")).unwrap()), "+");
    let e = mpc_parse("t", "*", &mpc_oneof("+-")).unwrap_err();
    assert_eq!(e.expected, vec!["+-".to_string()]);
    assert_eq!(e.failure, "expected one of '+-'");
    assert_eq!(e.received, '*');
    let at_end = mpc_parse("t", "", &mpc_oneof("+-")).unwrap_err();
    assert_eq!(at_end.received, '\0');
}

#[test]
fn noneof_rejects_members() {
    assert_eq!(text_of(mpc_parse("t", "a", &mpc_noneof("xyz")).unwrap()), "a");
    let e = mpc_parse("t", "y", &mpc_noneof("xyz")).unwrap_err();
    assert_eq!(e.expected, vec!["not xyz".to_string()]);
    assert_eq!(e.failure, "unexpected one of 'xyz'");
    assert_eq!(e.received, 'y');
}

#[test]
fn noneof_succeeds_at_end_of_input_with_empty_text() {
    let mut input = MpcInput::new("t", "");
    let v = mpc_noneof("xyz").parse(&mut input).unwrap();
    assert_eq!(text_of(v), "");
    assert_eq!(input.state.pos, 0);
}

#[test]
fn satisfy_consumes_on_success() {
    let mut input = MpcInput::new("t", "ex");
    let v = mpc_satisfy(Box::new(IsVowel)).parse(&mut input).unwrap();
    assert_eq!(text_of(v), "e");
    assert_eq!(input.state.pos, 1);
}

#[test]
fn satisfy_does_not_consume_on_failure() {
    let mut input = MpcInput::new("t", "xe");
    let e = mpc_satisfy(Box::new(IsVowel)).parse(&mut input).unwrap_err();
    assert_eq!(e.expected, vec!["satisfy".to_string()]);
    assert_eq!(e.failure, "char does not satisfy condition");
    assert_eq!(e.received, 'x');
    assert_eq!(e.state.pos, 0);
    assert_eq!(input.state.pos, 0);
    assert_eq!(input.pos, 0);
}

#[test]
fn satisfy_fails_at_end_of_input() {
    let e = mpc_parse("t", "", &mpc_satisfy(Box::new(IsVowel))).unwrap_err();
    assert_eq!(e.failure, "end of input");
    assert_eq!(e.received, '\0');
}

#[test]
fn string_matches_whole_string() {
    let mut input = MpcInput::new("t", "hello world");
    let v = mpc_string("hello").parse(&mut input).unwrap();
    assert_eq!(text_of(v), "hello");
    assert_eq!(input.state.pos, 5);
}

#[test]
fn string_fails_at_first_difference_and_names_whole_string() {
    let mut input = MpcInput::new("t", "help");
    let e = mpc_string("hello").parse(&mut input).unwrap_err();
    assert_eq!(e.expected, vec!["hello".to_string()]);
    assert_eq!(e.failure, "expected 'hello'");
    assert_eq!(e.received, 'p');
    assert_eq!(e.state, MpcState { pos: 3, row: 0, col: 3, term: 0 });
    assert_eq!(input.state.pos, 3);
}

#[test]
fn string_fails_when_input_ends_early() {
    let e = mpc_parse("t", "he", &mpc_string("hello")).unwrap_err();
    assert_eq!(e.received, '\0');
    assert_eq!(e.state.pos, 2);
}

#[test]
fn empty_string_matches_anywhere() {
    let v = mpc_parse("t", "zzz", &mpc_string("")).unwrap();
    assert_eq!(text_of(v), "");
}

#[test]
fn pass_succeeds_with_unit() {
    let mut input = MpcInput::new("t", "abc");
    assert!(matches!(mpc_pass().parse(&mut input), Ok(MpcVal::Unit)));
    assert_eq!(input.state, MpcState::default());
    assert_eq!(input.pos, 0);
}

#[test]
fn fail_carries_its_message_and_expects_nothing() {
    let e = mpc_parse("t", "abc", &mpc_fail("no luck")).unwrap_err();
    assert_eq!(e.failure, "no luck");
    assert!(e.expected.is_empty());
    assert_eq!(e.expected_num, 0);
    assert_eq!(e.received, '\0');
    assert_eq!(e.state.pos, 0);
}

#[test]
fn lift_yields_its_value_without_consuming() {
    let mut input = MpcInput::new("t", "abc");
    assert!(matches!(mpc_lift(Box::new(FortyTwo)).parse(&mut input), Ok(MpcVal::Int(42))));
    assert!(matches!(mpc_lift_val(Box::new(FortyTwo)).parse(&mut input), Ok(MpcVal::Int(42))));
    assert_eq!(input.state, MpcState::default());
    assert_eq!(input.pos, 0);
}

#[test]
fn anchor_consumes_nothing() {
    let mut input = MpcInput::new("t", "abc");
    input.advance();
    let before = input.state;
    assert!(matches!(mpc_anchor(Box::new(EoiAnchor)).parse(&mut input), Ok(MpcVal::Unit)));
    assert_eq!(input.state, before);
    assert_eq!(input.pos, 1);
}

#[test]
fn state_yields_the_current_position() {
    let mut input = MpcInput::new("t", "a\nbc");
    input.advance();
    input.advance();
    input.advance();
    match mpc_state().parse(&mut input) {
        Ok(MpcVal::State(s)) => assert_eq!(s, MpcState { pos: 3, row: 1, col: 1, term: 0 }),
        other => panic!("unexpected result: {:?}", other),
    }
    assert_eq!(input.state.pos, 3);
    assert_eq!(input.pos, 3);
}

#[test]
fn word_characters_are_alphanumeric_or_underscore() {
    for (c, expected) in [
        ('a', true),
        ('Z', true),
        ('7', true),
        ('_', true),
        ('\u{e9}', true),
        ('\u{3b1}', true),
        (' ', false),
        ('-', false),
        ('\0', false),
        ('\u{20ac}', false),
    ] {
        assert_eq!(WordChar.test(c), expected, "{:?}", c);
    }
    let mut input = MpcInput::new("t", "_x");
    assert_eq!(text_of(mpc_satisfy(Box::new(WordChar)).parse(&mut input).unwrap()), "_");
    assert!(mpc_parse("t", "+", &mpc_satisfy(Box::new(WordChar))).is_err());
}

#[test]
fn a_value_lifts_to_copies_of_itself() {
    let grammar = mpc_lift_val(Box::new(MpcVal::Str("const".to_string())));
    assert_eq!(text_of(mpc_parse("t", "abc", &grammar).unwrap()), "const");
    assert_eq!(text_of(mpc_parse("t", "", &grammar).unwrap()), "const");
    assert!(matches!(mpc_parse("t", "", &mpc_lift(Box::new(MpcVal::Unit))), Ok(MpcVal::Unit)));
    assert!(matches!(mpc_parse("t", "", &mpc_lift(Box::new(MpcVal::Char('c')))), Ok(MpcVal::Char('c'))));
}

#[test]
fn duplicate_copies_a_whole_tree() {
    let mut inner = MpcAst::new("inner", "x");
    inner.state = MpcState { pos: 3, row: 1, col: 1, term: 0 };
    inner.children.push(Box::new(MpcAst::new("leaf", "y")));
    inner.children_num = 1;
    let mut root = MpcAst::new("outer", "");
    root.children.push(Box::new(inner));
    root.children.push(Box::new(MpcAst::new("last", "z")));
    root.children_num = 2;
    let copy = root.duplicate();
    assert_eq!(format!("{:?}", copy), format!("{:?}", root));
    assert_eq!(copy.children[0].children[0].contents, "y");
    assert_eq!(copy.children[0].state, MpcState { pos: 3, row: 1, col: 1, term: 0 });
    match MpcVal::Ast(root).duplicate() {
        MpcVal::Ast(a) => assert_eq!(a.render(), copy.render()),
        other => panic!("unexpected value: {:?}", other),
    }
    assert!(matches!(MpcVal::Int(-5).duplicate(), MpcVal::Int(-5)));
    assert!(matches!(
        MpcVal::State(MpcState { pos: 1, row: 0, col: 1, term: 0 }).duplicate(),
        MpcVal::State(MpcState { pos: 1, row: 0, col: 1, term: 0 })
    ));
}
