use mpc::{
    mpc_and, mpc_any, mpc_char, mpc_count, mpc_digit, mpc_fail, mpc_many, mpc_many1, mpc_or,
    mpc_parse, mpc_pass, mpc_sepby, mpc_sepby1, mpc_string, FstFold, MpcFold, MpcInput, MpcVal,
    NullFold, StrFold,
};

struct CountFold;

impl MpcFold for CountFold {
    fn fold(&self, n: i32, _xs: Vec<MpcVal>) -> MpcVal {
        MpcVal::Int(n as i64)
    }
}

fn text_of(v: MpcVal) -> String {
    match v {
        MpcVal::Str(s) => s,
        other => panic!("not a text: {:?}", other),
    }
}

fn int_of(v: MpcVal) -> i64 {
    match v {
        MpcVal::Int(n) => n,
        other => panic!("not a number: {:?}", other),
    }
}

#[test]
fn and_folds_all_results_in_order() {
    let grammar = mpc_and(vec![mpc_char('a'), mpc_char('b'), mpc_char('c')], Box::new(StrFold));
    assert_eq!(text_of(mpc_parse("t", "abc", &grammar).unwrap()), "abc");
}

#[test]
fn and_passes_the_number_of_results_to_the_fold() {
    let grammar = mpc_and(vec![mpc_char('a'), mpc_pass(), mpc_char('c')], Box::new(CountFold));
    assert_eq!(int_of(mpc_parse("t", "ac", &grammar).unwrap()), 3);
}

#[test]
fn and_fails_with_the_first_failure_and_keeps_what_was_consumed() {
    let grammar = mpc_and(vec![mpc_char('a'), mpc_char('b'), mpc_char('c')], Box::new(StrFold));
    let mut input = MpcInput::new("t", "abx");
    let e = grammar.parse(&mut input).unwrap_err();
    assert_eq!(e.expected, vec!["c".to_string()]);
    assert_eq!(e.received, 'x');
    assert_eq!(e.state.pos, 2);
    assert_eq!(input.state.pos, 2);
}

#[test]
fn empty_and_folds_nothing() {
    let grammar = mpc_and(vec![], Box::new(CountFold));
    let mut input = MpcInput::new("t", "abc");
    assert_eq!(int_of(grammar.parse(&mut input).unwrap()), 0);
    assert_eq!(input.state.pos, 0);
}

#[test]
fn or_takes_the_first_alternative_that_succeeds() {
    let grammar = mpc_or(vec![mpc_string("ab"), mpc_string("a"), mpc_string("abc")]);
    let mut input = MpcInput::new("t", "abc");
    assert_eq!(text_of(grammar.parse(&mut input).unwrap()), "ab");
    assert_eq!(input.state.pos, 2);
}

#[test]
fn or_backtracks_before_the_next_alternative() {
    let grammar = mpc_or(vec![mpc_string("abx"), mpc_string("abc")]);
    let mut input = MpcInput::new("t", "abc");
    assert_eq!(text_of(grammar.parse(&mut input).unwrap()), "abc");
    assert_eq!(input.state.pos, 3);
    assert_eq!(input.pos, 3);
}

#[test]
fn or_reports_the_farthest_failure_whatever_the_order() {
    let deep = || mpc_and(vec![mpc_char('a'), mpc_char('b'), mpc_char('c')], Box::new(StrFold));
    let shallow = || mpc_char('z');
    for grammar in [mpc_or(vec![deep(), shallow()]), mpc_or(vec![shallow(), deep()])] {
        let mut input = MpcInput::new("t", "abx");
        let e = grammar.parse(&mut input).unwrap_err();
        assert_eq!(e.state.pos, 2);
        assert_eq!(e.expected, vec!["c".to_string()]);
        assert_eq!(e.failure, "expected 'c'");
        assert_eq!(e.received, 'x');
        assert_eq!(input.state.pos, 0);
        assert_eq!(input.pos, 0);
    }
}

#[test]
fn or_unites_expected_texts_at_the_farthest_position_without_repeats() {
    let grammar = mpc_or(vec![
        mpc_string("ab"),
        mpc_char('q'),
        mpc_string("ac"),
        mpc_string("ab"),
    ]);
    let e = mpc_parse("t", "ax", &grammar).unwrap_err();
    assert_eq!(e.state.pos, 1);
    assert_eq!(e.expected, vec!["ab".to_string(), "ac".to_string()]);
    assert_eq!(e.expected_num, 2);
}

#[test]
fn or_without_alternatives_fails() {
    let e = mpc_parse("t", "abc", &mpc_or(vec![])).unwrap_err();
    assert_eq!(e.expected, vec!["or".to_string()]);
    assert_eq!(e.failure, "no alternatives matched");
    assert_eq!(e.received, '\0');
    assert_eq!(e.state.pos, 0);
}

#[test]
fn many_of_a_failing_parser_succeeds_and_consumes_nothing() {
    let grammar = mpc_many(mpc_fail("never"), Box::new(CountFold));
    let mut input = MpcInput::new("t", "abc");
    assert_eq!(int_of(grammar.parse(&mut input).unwrap()), 0);
    assert_eq!(input.state.pos, 0);
    assert_eq!(input.pos, 0);
}

#[test]
fn many_restores_the_cursor_after_the_failed_attempt() {
    let grammar = mpc_many(mpc_string("ab"), Box::new(CountFold));
    let mut input = MpcInput::new("t", "ababax");
    assert_eq!(int_of(grammar.parse(&mut input).unwrap()), 2);
    assert_eq!(input.state.pos, 4);
    assert_eq!(input.pos, 4);
}

#[test]
fn many_stops_after_one_success_without_consumption() {
    let grammar = mpc_many(mpc_pass(), Box::new(CountFold));
    let mut input = MpcInput::new("t", "abc");
    assert_eq!(int_of(grammar.parse(&mut input).unwrap()), 1);
    assert_eq!(input.state.pos, 0);
}

#[test]
fn many1_of_a_failing_parser_fails_with_its_error() {
    let grammar = mpc_many1(mpc_char('a'), Box::new(StrFold));
    let e = mpc_parse("t", "b", &grammar).unwrap_err();
    assert_eq!(e.expected, vec!["a".to_string()]);
    assert_eq!(e.failure, "expected 'a'");
    assert_eq!(e.received, 'b');
    assert_eq!(e.state.pos, 0);
}

#[test]
fn many1_gathers_all_repetitions() {
    let grammar = mpc_many1(mpc_char('a'), Box::new(StrFold));
    let mut input = MpcInput::new("t", "aaab");
    assert_eq!(text_of(grammar.parse(&mut input).unwrap()), "aaa");
    assert_eq!(input.state.pos, 3);
}

#[test]
fn many1_stops_after_one_success_without_consumption() {
    let grammar = mpc_many1(mpc_pass(), Box::new(CountFold));
    assert_eq!(int_of(mpc_parse("t", "abc", &grammar).unwrap()), 1);
}

#[test]
fn count_applies_the_parser_exactly_n_times() {
    let grammar = mpc_count(3, mpc_any(), Box::new(StrFold));
    let mut input = MpcInput::new("t", "abcde");
    assert_eq!(text_of(grammar.parse(&mut input).unwrap()), "abc");
    assert_eq!(input.state.pos, 3);
}

#[test]
fn count_fails_when_a_repetition_fails() {
    let grammar = mpc_count(3, mpc_char('a'), Box::new(StrFold));
    let mut input = MpcInput::new("t", "aab");
    let e = grammar.parse(&mut input).unwrap_err();
    assert_eq!(e.state.pos, 2);
    assert_eq!(e.received, 'b');
    assert_eq!(input.state.pos, 2);
}

#[test]
fn count_zero_or_less_folds_nothing() {
    for n in [0, -1, i32::MIN] {
        let grammar = mpc_count(n, mpc_char('a'), Box::new(CountFold));
        let mut input = MpcInput::new("t", "aaa");
        assert_eq!(int_of(grammar.parse(&mut input).unwrap()), 0);
        assert_eq!(input.state.pos, 0);
    }
}

#[test]
fn sepby_without_an_element_succeeds_with_empty_fold() {
    let grammar = mpc_sepby(mpc_digit(), mpc_char(','), Box::new(CountFold));
    let mut input = MpcInput::new("t", "x");
    assert_eq!(int_of(grammar.parse(&mut input).unwrap()), 0);
    assert_eq!(input.state.pos, 0);
}

#[test]
fn sepby_restores_the_cursor_when_the_first_element_fails_midway() {
    let grammar = mpc_sepby(mpc_string("ab"), mpc_char(','), Box::new(CountFold));
    let mut input = MpcInput::new("t", "ax");
    assert_eq!(int_of(grammar.parse(&mut input).unwrap()), 0);
    assert_eq!(input.state.pos, 0);
    assert_eq!(input.pos, 0);
}

#[test]
fn sepby_gathers_the_elements_and_drops_the_separators() {
    let grammar = mpc_sepby(mpc_digit(), mpc_char(','), Box::new(StrFold));
    let mut input = MpcInput::new("t", "1,2,3");
    assert_eq!(text_of(grammar.parse(&mut input).unwrap()), "123");
    assert_eq!(input.state.pos, 5);
}

#[test]
fn sepby_leaves_a_trailing_separator_unconsumed() {
    let grammar = mpc_sepby(mpc_digit(), mpc_char(','), Box::new(StrFold));
    let mut input = MpcInput::new("t", "1,2,x");
    assert_eq!(text_of(grammar.parse(&mut input).unwrap()), "12");
    assert_eq!(input.state.pos, 3);
    assert_eq!(input.pos, 3);
}

#[test]
fn sepby1_requires_the_first_element() {
    let grammar = mpc_sepby1(mpc_digit(), mpc_char(','), Box::new(StrFold));
    let e = mpc_parse("t", "x", &grammar).unwrap_err();
    assert_eq!(e.expected, vec!["0-9".to_string()]);
    assert_eq!(e.failure, "expected char in range 0-9");
    assert_eq!(e.state.pos, 0);
}

#[test]
fn sepby1_with_one_element() {
    let grammar = mpc_sepby1(mpc_digit(), mpc_char(','), Box::new(CountFold));
    let mut input = MpcInput::new("t", "7;");
    assert_eq!(int_of(grammar.parse(&mut input).unwrap()), 1);
    assert_eq!(input.state.pos, 1);
}

#[test]
fn sepby_stops_after_a_round_without_consumption() {
    let grammar = mpc_sepby(mpc_pass(), mpc_pass(), Box::new(CountFold));
    let mut input = MpcInput::new("t", "abc");
    assert_eq!(int_of(grammar.parse(&mut input).unwrap()), 2);
    assert_eq!(input.state.pos, 0);
}

#[test]
fn first_fold_on_nothing_is_unit() {
    let grammar = mpc_many(mpc_char('a'), Box::new(FstFold));
    assert!(matches!(mpc_parse("t", "b", &grammar), Ok(MpcVal::Unit)));
}

#[test]
fn null_fold_discards_everything() {
    let grammar = mpc_many(mpc_char('a'), Box::new(NullFold));
    assert!(matches!(mpc_parse("t", "aaa", &grammar), Ok(MpcVal::Unit)));
}

#[test]
fn a_parser_can_be_run_many_times() {
    let grammar = mpc_many1(mpc_digit(), Box::new(StrFold));
    assert_eq!(text_of(mpc_parse("t", "12", &grammar).unwrap()), "12");
    assert_eq!(text_of(mpc_parse("t", "345x", &grammar).unwrap()), "345");
    assert!(mpc_parse("t", "x", &grammar).is_err());
}
