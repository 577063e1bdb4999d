use dash_lang::run;
use dash_lang::{RunOutcome, RuntimeError};

const FUEL: u64 = 100_000;

fn finished(source: &str) -> Vec<String> {
    match run(source, FUEL) {
        RunOutcome::Finished(lines) => lines,
        other => panic!("expected a finished run, got {:?}", other),
    }
}

fn fatal(source: &str) -> (RuntimeError, Vec<String>) {
    match run(source, FUEL) {
        RunOutcome::Fatal(err, lines) => (err, lines),
        other => panic!("expected a fatal run, got {:?}", other),
    }
}

fn assert_lines(got: Vec<String>, expected: &[&str]) {
    let want: Vec<String> = expected.iter().map(|s| s.to_string()).collect();
    assert_eq!(got, want);
}

#[test]
fn test_run_simple_program() {
    let source = r#"
        let x = 2 + 3
        print(x)
    "#;

    let lines = finished(source);
    assert_lines(lines, &["5"]);
}

#[test]
fn test_while_counts_to_five() {
    let source = "let x = 0 while x < 5 { print(x) let x = x + 1 }";
    assert_lines(finished(source), &["0", "1", "2", "3", "4"]);
}

#[test]
fn test_if_zero_is_falsy() {
    assert_lines(finished("if 0 { print(1) } else { print(2) }"), &["2"]);
}

#[test]
fn test_if_empty_string_is_falsy() {
    assert_lines(finished("if \"\" { print(1) } else { print(2) }"), &["2"]);
}

#[test]
fn test_if_false_string_is_falsy() {
    assert_lines(finished("if \"false\" { print(1) } else { print(2) }"), &["2"]);
}

#[test]
fn test_if_other_strings_are_truthy() {
    assert_lines(finished("if \"0abc\" { print(1) } else { print(2) }"), &["1"]);
    assert_lines(finished("if \"00\" { print(1) } else { print(2) }"), &["1"]);
}

#[test]
fn test_while_truthiness_diverges_from_if() {
    // "false" stops an `if` but keeps a `while` running: the loop body is
    // entered even though the same condition picks the else branch.
    assert_lines(finished("while \"false\" { print(9) break }"), &["9"]);
    assert_lines(finished("if \"false\" { print(1) } else { print(2) }"), &["2"]);
    assert_lines(finished("while \"\" { print(8) break }"), &["8"]);
}

#[test]
fn test_function_call_returns_sum() {
    let source = "fn add(a, b) { return a + b } print(add(2,3))";
    assert_lines(finished(source), &["5"]);
}

#[test]
fn test_function_cannot_call_other_function() {
    // The call's fresh context has an empty function table, so a body
    // calling any user-defined function fails as undefined.
    let source = "fn g() { return 1 } fn f() { return g() } print(f())";
    let (err, _) = fatal(source);
    assert_eq!(err, RuntimeError::UndefinedFunction);
}

#[test]
fn test_function_cannot_call_itself() {
    let source = "fn f() { return f() } print(f())";
    let (err, _) = fatal(source);
    assert_eq!(err, RuntimeError::UndefinedFunction);
}

#[test]
fn test_wrong_arity_is_fatal() {
    let source = "fn add(a, b) { return a + b } print(add(2))";
    let (err, _) = fatal(source);
    assert_eq!(err, RuntimeError::ArityMismatch);
}

#[test]
fn test_wrong_arity_in_call_statement_is_fatal() {
    let source = "fn add(a, b) { return a + b } add(1, 2, 3)";
    let (err, _) = fatal(source);
    assert_eq!(err, RuntimeError::ArityMismatch);
}

#[test]
fn test_break_outside_loop_has_no_effect_beyond_its_block() {
    // At top level the driver ignores the signal and goes on.
    assert_lines(finished("break print(7)"), &["7"]);
    assert_lines(finished("continue print(6)"), &["6"]);
    // Inside a block, the signal stops the rest of that block only.
    assert_lines(finished("if 1 { break print(1) } print(2)"), &["2"]);
    assert_lines(finished("if 1 { continue print(1) } print(2)"), &["2"]);
}

#[test]
fn test_division_truncates_toward_zero() {
    assert_lines(finished("print(7 / 2)"), &["3"]);
    let source = "let a = 0 - 7 let q = a / 2 print(q)";
    assert_lines(finished(source), &["-3"]);
    let source = "let b = 0 - 2 let q = 7 / b print(q)";
    assert_lines(finished(source), &["-3"]);
}

#[test]
fn test_division_by_zero_is_fatal() {
    let (err, _) = fatal("print(1 / 0)");
    assert_eq!(err, RuntimeError::DivisionByZero);
}

#[test]
fn test_arithmetic_and_precedence() {
    assert_lines(finished("print(2 + 3 * 4)"), &["14"]);
    assert_lines(finished("print(10 - 3 - 2)"), &["5"]);
    assert_lines(finished("print(2 * 3 / 2)"), &["3"]);
}

#[test]
fn test_comparisons_render_as_one_and_zero() {
    assert_lines(finished("print(1 < 2)"), &["1"]);
    assert_lines(finished("print(1 > 2)"), &["0"]);
    assert_lines(finished("print(2 >= 2)"), &["1"]);
    assert_lines(finished("print(2 <= 1)"), &["0"]);
    assert_lines(finished("print(3 == 3)"), &["1"]);
    assert_lines(finished("print(3 != 3)"), &["0"]);
}

#[test]
fn test_string_literal_prints_verbatim() {
    assert_lines(finished("print(\"hi there\")"), &["hi there"]);
}

#[test]
fn test_non_integer_operand_is_fatal() {
    let (err, _) = fatal("print(\"abc\" + 1)");
    assert_eq!(err, RuntimeError::NonIntegerOperand);
}

#[test]
fn test_overflow_is_fatal() {
    let (err, _) = fatal("print(9223372036854775807 + 1)");
    assert_eq!(err, RuntimeError::ArithmeticOverflow);
    let source = "let m = 0 - 9223372036854775807 - 1 let n = 0 - 1 print(m / n)";
    let (err, _) = fatal(source);
    assert_eq!(err, RuntimeError::ArithmeticOverflow);
}

#[test]
fn test_undefined_variable_is_fatal() {
    let (err, lines) = fatal("print(1) print(nope)");
    assert_eq!(err, RuntimeError::UndefinedVariable);
    assert_lines(lines, &["1"]);
}

#[test]
fn test_undefined_function_in_statement_position_is_fatal() {
    let (err, _) = fatal("nope(1)");
    assert_eq!(err, RuntimeError::UndefinedFunction);
}

#[test]
fn test_syntax_error_is_reported_not_fatal() {
    assert!(matches!(run("let = 5", FUEL), RunOutcome::Syntax(_)));
    assert!(matches!(run("print(", FUEL), RunOutcome::Syntax(_)));
    assert!(matches!(run("if { print(1) }", FUEL), RunOutcome::Syntax(_)));
}

#[test]
fn test_chained_comparison_is_rejected() {
    // Comparison is non-chainable: at most one comparison operator may
    // appear in an expression, so a second one is a syntax error.
    assert!(matches!(run("print(1 < 2 < 3)", FUEL), RunOutcome::Syntax(_)));
    assert!(matches!(run("let x = 1 == 2 == 3", FUEL), RunOutcome::Syntax(_)));
}

#[test]
fn test_huge_integer_literal_is_out_of_range() {
    assert!(matches!(
        run("print(99999999999999999999)", FUEL),
        RunOutcome::IntOutOfRange
    ));
}

#[test]
fn test_call_statement_discards_return() {
    // A `return` in a function invoked as a bare statement does not stop
    // the remaining body statements, unlike the expression call path.
    let source = "fn f() { return 1 print(3) } f()";
    assert_lines(finished(source), &["3"]);
    let source = "fn f() { return 1 print(3) } print(f())";
    assert_lines(finished(source), &["1"]);
}

#[test]
fn test_redefinition_shadows() {
    let source = "fn f() { return 1 } fn f() { return 2 } print(f())";
    assert_lines(finished(source), &["2"]);
    assert_lines(finished("let x = 1 let x = 2 print(x)"), &["2"]);
}

#[test]
fn test_continue_skips_rest_of_iteration() {
    let source = "let x = 0 while x < 3 { let x = x + 1 if x == 2 { continue } print(x) }";
    assert_lines(finished(source), &["1", "3"]);
}

#[test]
fn test_return_propagates_out_of_loop() {
    let source = "fn f() { while 1 { return 42 } } print(f())";
    assert_lines(finished(source), &["42"]);
}

#[test]
fn test_body_without_return_yields_empty_string() {
    let source = "fn f() { let a = 1 } let r = f() if r { print(1) } else { print(2) }";
    assert_lines(finished(source), &["2"]);
}

#[test]
fn test_infinite_loop_runs_out_of_fuel() {
    assert!(matches!(run("while 1 { }", 10_000), RunOutcome::OutOfFuel));
}

#[test]
fn test_break_and_continue_at_function_top_level_are_fatal() {
    let (err, _) = fatal("fn f() { break } print(f())");
    assert_eq!(err, RuntimeError::UnexpectedControlFlow);
    let (err, _) = fatal("fn f() { continue } print(f())");
    assert_eq!(err, RuntimeError::UnexpectedControlFlow);
}
