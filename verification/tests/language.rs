use ordsprak::ast::Expression;
use ordsprak::ast::Operator;
use ordsprak::ast::Statement;
use ordsprak::ast::Term;
use ordsprak::interpreter::Interpreter;
use ordsprak::parser::Expected;
use ordsprak::parser::parse;
use ordsprak::run;
use ordsprak::value::EvaluationFault;
use ordsprak::value::VariableValue;
use ordsprak::RunError;

fn output_of(source: &str) -> Vec<String> {
    let (output, error) = run(source);
    assert!(error.is_none(), "unexpected error for {:?}", source);
    output
}

fn fault_of(source: &str) -> (Vec<String>, EvaluationFault) {
    let (output, error) = run(source);
    match error {
        Some(RunError::Evaluation(f)) => (output, f),
        other => panic!("expected an evaluation fault for {:?}, got {:?}", source, other),
    }
}

fn parse_error_of(source: &str) -> ordsprak::parser::ParseError {
    let (output, error) = run(source);
    assert!(output.is_empty());
    match error {
        Some(RunError::Parse(e)) => e,
        other => panic!("expected a parse error for {:?}, got {:?}", source, other),
    }
}

#[test]
fn number_words_round_trip() {
    let words = [
        "noll", "ett", "två", "tre", "fyra", "fem", "sex", "sju", "åtta", "nio", "tio",
    ];
    for (n, word) in words.iter().enumerate() {
        let source = format!("skriv {}.", word);
        let output = output_of(&source);
        assert_eq!(output, vec![n.to_string()]);
    }
}

#[test]
fn number_word_prefix_is_never_a_variable() {
    // "nollx" begins with a number word, so it is read as the number and the
    // trailing letter makes the statement fail to parse.
    let e = parse_error_of("skriv nollx.");
    assert_eq!(e.offset, 10);
    assert_eq!(e.expected, Expected::Period);
}

#[test]
fn bare_word_is_a_variable_not_a_number() {
    let (output, fault) = fault_of("skriv abc.");
    assert!(output.is_empty());
    match fault {
        EvaluationFault::UnboundVariable { variable } => assert_eq!(variable, "abc"),
        other => panic!("expected an unbound-variable fault, got {:?}", other),
    }
}

#[test]
fn chained_subtraction_groups_to_the_right() {
    // 1 - (1 - 1) with right grouping is 1, not (1 - 1) - 1 = -1.
    let statements = parse("spara ett minus ett minus ett i 'x'.").expect("must parse");
    let mut interpreter = Interpreter::new();
    interpreter.interpret(statements).expect("must run");
    match interpreter.get_variable("x") {
        Some(VariableValue::Integer(v)) => assert_eq!(*v, 1),
        other => panic!("expected x bound to an integer, got {:?}", other),
    }
}

#[test]
fn chained_subtraction_prints_right_grouped_value() {
    // 10 - (5 - 3) = 8 under right grouping; left grouping would give 2.
    assert_eq!(output_of("skriv tio minus fem minus tre."), vec!["8"]);
}

#[test]
fn division_by_zero_prints_nothing() {
    let (output, fault) = fault_of("skriv ett delat med noll.");
    assert!(output.is_empty());
    assert!(matches!(fault, EvaluationFault::DivisionByZero));
}

#[test]
fn mixed_addition_integer_then_string() {
    assert_eq!(output_of("skriv ett plus \"a\"."), vec!["1a"]);
}

#[test]
fn mixed_addition_string_then_integer() {
    assert_eq!(output_of("skriv \"a\" plus ett."), vec!["a1"]);
}

#[test]
fn string_addition_concatenates() {
    assert_eq!(output_of("skriv \"a\" plus \"b\"."), vec!["ab"]);
}

#[test]
fn falsy_condition_runs_else_branch() {
    assert_eq!(output_of("om noll, skriv \"a\"., annars skriv \"b\"."), vec!["b"]);
}

#[test]
fn truthy_condition_without_else_prints() {
    assert_eq!(output_of("om ett, skriv \"a\"."), vec!["a"]);
}

#[test]
fn falsy_condition_without_else_does_nothing() {
    assert_eq!(output_of("om noll, skriv \"a\"."), Vec::<String>::new());
}

#[test]
fn nonempty_string_is_truthy() {
    assert_eq!(output_of("om \"x\", skriv \"a\"."), vec!["a"]);
}

#[test]
fn unbound_variable_raises_fault() {
    let (output, fault) = fault_of("skriv x.");
    assert!(output.is_empty());
    match fault {
        EvaluationFault::UnboundVariable { variable } => assert_eq!(variable, "x"),
        other => panic!("expected an unbound-variable fault, got {:?}", other),
    }
}

#[test]
fn running_twice_gives_identical_results() {
    let source = "spara två i x. skriv x plus ett. om x, skriv \"ja\".";
    let (out1, err1) = run(source);
    let (out2, err2) = run(source);
    assert_eq!(out1, out2);
    assert_eq!(err1.is_none(), err2.is_none());

    let statements1 = parse(source).expect("must parse");
    let statements2 = parse(source).expect("must parse");
    let mut i1 = Interpreter::new();
    let mut i2 = Interpreter::new();
    i1.interpret(statements1).expect("must run");
    i2.interpret(statements2).expect("must run");
    match (i1.get_variable("x"), i2.get_variable("x")) {
        (Some(VariableValue::Integer(a)), Some(VariableValue::Integer(b))) => assert_eq!(a, b),
        other => panic!("expected x bound in both runs, got {:?}", other),
    }
}

#[test]
fn assignment_then_lookup() {
    assert_eq!(output_of("spara fem i x. skriv x."), vec!["5"]);
}

#[test]
fn last_assignment_wins() {
    assert_eq!(output_of("spara ett i x. spara två i x. skriv x."), vec!["2"]);
}

#[test]
fn multiplication_binds_tighter_than_addition() {
    assert_eq!(output_of("skriv ett plus två gånger tre."), vec!["7"]);
}

#[test]
fn division_truncates_toward_zero() {
    assert_eq!(output_of("skriv sju delat med två."), vec!["3"]);
}

#[test]
fn multiplication_of_two_numbers() {
    assert_eq!(output_of("skriv tio gånger tio."), vec!["100"]);
}

#[test]
fn negative_result_prints_with_minus_sign() {
    assert_eq!(output_of("skriv noll minus ett."), vec!["-1"]);
}

#[test]
fn equals_comparison_yields_one_or_zero() {
    assert_eq!(output_of("skriv ett är lika med ett."), vec!["1"]);
    assert_eq!(output_of("skriv ett är lika med två."), vec!["0"]);
}

#[test]
fn ordering_comparisons_on_integers() {
    assert_eq!(output_of("skriv två är större än ett."), vec!["1"]);
    assert_eq!(output_of("skriv ett är mindre än två."), vec!["1"]);
    assert_eq!(output_of("skriv ett är större än två."), vec!["0"]);
}

#[test]
fn string_equality_comparison() {
    assert_eq!(output_of("skriv \"a\" är lika med \"a\"."), vec!["1"]);
    assert_eq!(output_of("skriv \"a\" är lika med \"b\"."), vec!["0"]);
}

#[test]
fn string_ordering_comparison_is_a_type_mismatch() {
    let (_, fault) = fault_of("skriv \"a\" är större än \"b\".");
    assert!(matches!(fault, EvaluationFault::TypeMismatch { operator: Operator::GreaterThan }));
}

#[test]
fn mixed_subtraction_is_a_type_mismatch() {
    let (_, fault) = fault_of("skriv \"a\" minus ett.");
    assert!(matches!(fault, EvaluationFault::TypeMismatch { operator: Operator::Subtract }));
}

#[test]
fn mixed_multiplication_is_a_type_mismatch() {
    let (_, fault) = fault_of("skriv \"a\" gånger \"b\".");
    assert!(matches!(fault, EvaluationFault::TypeMismatch { operator: Operator::Multiply }));
}

#[test]
fn mixed_division_is_a_type_mismatch() {
    let (_, fault) = fault_of("skriv \"a\" delat med ett.");
    assert!(matches!(fault, EvaluationFault::TypeMismatch { operator: Operator::Divide }));
}

#[test]
fn assignment_to_non_variable_target_is_a_fault() {
    let statements = vec![Statement::Assignment {
        variable: Term::Number(1),
        expression: Expression::Term(Term::Number(2)),
    }];
    let mut interpreter = Interpreter::new();
    let result = interpreter.interpret(statements);
    assert!(matches!(result, Err(EvaluationFault::AssignmentTargetNotVariable)));
}

#[test]
fn statement_keywords_match_any_ascii_case() {
    assert_eq!(output_of("SKRIV ett."), vec!["1"]);
    assert_eq!(output_of("Spara ett i x. skriv x."), vec!["1"]);
    assert_eq!(output_of("OM ett, skriv \"a\"."), vec!["a"]);
}

#[test]
fn quoted_variable_name_binds_the_bare_name() {
    assert_eq!(output_of("spara tre i 'x'. skriv x."), vec!["3"]);
}

#[test]
fn non_ascii_letters_make_variable_names() {
    assert_eq!(output_of("spara ett i å. skriv å."), vec!["1"]);
}

#[test]
fn empty_string_literal_is_rejected() {
    let e = parse_error_of("skriv \"\".");
    assert_eq!(e.expected, Expected::Term);
    assert_eq!(e.offset, 6);
}

#[test]
fn unterminated_string_literal_is_rejected() {
    let e = parse_error_of("skriv \"abc.");
    assert_eq!(e.expected, Expected::Term);
    assert_eq!(e.offset, 6);
}

#[test]
fn missing_statement_keyword_is_reported_at_the_start() {
    let e = parse_error_of("hej.");
    assert_eq!(e.offset, 0);
    assert_eq!(e.expected, Expected::Statement);
}

#[test]
fn keyword_commits_and_missing_space_is_reported() {
    let e = parse_error_of("skrivx.");
    assert_eq!(e.offset, 5);
    assert_eq!(e.expected, Expected::Space);
}

#[test]
fn missing_period_is_reported() {
    let e = parse_error_of("skriv ett");
    assert_eq!(e.offset, 9);
    assert_eq!(e.expected, Expected::Period);
}

#[test]
fn missing_comma_after_condition_is_reported() {
    let e = parse_error_of("om ett skriv \"a\".");
    assert_eq!(e.offset, 6);
    assert_eq!(e.expected, Expected::Comma);
}

#[test]
fn missing_keyword_between_expression_and_variable_is_reported() {
    let e = parse_error_of("spara ett x.");
    assert_eq!(e.offset, 10);
    assert_eq!(e.expected, Expected::KeywordI);
}

#[test]
fn missing_variable_name_is_reported() {
    let e = parse_error_of("spara ett i 1.");
    assert_eq!(e.offset, 12);
    assert_eq!(e.expected, Expected::Variable);
}

#[test]
fn trailing_input_fails_the_whole_parse() {
    let e = parse_error_of("skriv ett. extra");
    assert_eq!(e.offset, 11);
    assert_eq!(e.expected, Expected::Statement);
}

#[test]
fn multi_statement_program_runs_in_order() {
    assert_eq!(
        output_of("spara två i x. skriv x plus ett. skriv \"klar\"."),
        vec!["3", "klar"]
    );
}

#[test]
fn statements_may_be_separated_by_newlines() {
    assert_eq!(output_of("skriv ett.\nskriv två."), vec!["1", "2"]);
}

#[test]
fn nested_conditionals_run_depth_first() {
    assert_eq!(output_of("om ett, om ett, skriv \"inre\"."), vec!["inre"]);
}

#[test]
fn conditional_branch_may_hold_several_statements() {
    assert_eq!(output_of("om ett, skriv \"a\"., skriv \"b\"."), vec!["a", "b"]);
}

#[test]
fn else_branch_may_hold_several_statements() {
    assert_eq!(
        output_of("om noll, skriv \"a\"., annars spara tio i x., skriv x."),
        vec!["10"]
    );
}

#[test]
fn fault_keeps_output_printed_before_it() {
    let (output, fault) = fault_of("skriv ett. skriv x.");
    assert_eq!(output, vec!["1"]);
    assert!(matches!(fault, EvaluationFault::UnboundVariable { .. }));
}

#[test]
fn multiplication_wraps_on_overflow() {
    // Squaring ten to the sixteenth overflows a 64-bit integer and wraps.
    let source = "spara tio i x. spara x gånger x i x. spara x gånger x i x. \
                  spara x gånger x i x. spara x gånger x i x. \
                  spara x gånger x i x. skriv x.";
    let expected = 10_000_000_000_000_000i64.wrapping_mul(10_000_000_000_000_000i64);
    assert_eq!(output_of(source), vec![expected.to_string()]);
}

#[test]
fn tabs_and_repeated_blanks_count_as_spacing() {
    assert_eq!(output_of("skriv\tett."), vec!["1"]);
    assert_eq!(output_of("skriv   ett  plus  två."), vec!["3"]);
}

#[test]
fn chained_division_groups_to_the_right() {
    // 10 / (5 / 1) = 2 under right grouping; left grouping would give 2 as
    // well only by accident here, so check 8 / (4 / 2) = 4 instead.
    assert_eq!(output_of("skriv åtta delat med fyra delat med två."), vec!["4"]);
}

#[test]
fn chained_comparison_groups_to_the_right() {
    // 1 == (1 == 1) is 1 == 1, which holds.
    assert_eq!(output_of("skriv ett är lika med ett är lika med ett."), vec!["1"]);
}

#[test]
fn multi_digit_negative_value_prints_all_digits() {
    assert_eq!(output_of("skriv noll minus tio gånger tio."), vec!["-100"]);
}

#[test]
fn dividing_smallest_integer_by_minus_one_wraps() {
    let statements = vec![Statement::Print {
        expression: Expression::Operation {
            left: Box::new(Expression::Term(Term::Number(i64::MIN))),
            operator: Operator::Divide,
            right: Box::new(Expression::Term(Term::Number(-1))),
        },
    }];
    let mut interpreter = Interpreter::new();
    interpreter.interpret(statements).expect("must run");
    assert_eq!(interpreter.output(), &vec![i64::MIN.to_string()]);
}
