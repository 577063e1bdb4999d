use dash_lang::{
    eval_expr, exec_program, exec_stmt, i64_to_string, parse_i64, Context, DashParser,
    EvalOutcome, Expr, LoopControl, Op, ParseOutcome, RunOutcome, Stmt, StmtOutcome,
};

#[test]
fn test_eval_expr_literals() {
    let ctx = Context::new();
    let mut out: Vec<String> = Vec::new();
    assert_eq!(
        eval_expr(10, &Expr::Int(5), &ctx, &mut out),
        EvalOutcome::Value("5".to_string())
    );
    assert_eq!(
        eval_expr(10, &Expr::Int(-42), &ctx, &mut out),
        EvalOutcome::Value("-42".to_string())
    );
    assert_eq!(
        eval_expr(10, &Expr::Str("boo".to_string()), &ctx, &mut out),
        EvalOutcome::Value("boo".to_string())
    );
    assert!(out.is_empty());
}

#[test]
fn test_eval_expr_variable_lookup() {
    let mut ctx = Context::new();
    let mut out: Vec<String> = Vec::new();
    ctx.set_var(&"x".to_string(), "7".to_string());
    assert_eq!(
        eval_expr(10, &Expr::Var("x".to_string()), &ctx, &mut out),
        EvalOutcome::Value("7".to_string())
    );
    assert!(matches!(
        eval_expr(10, &Expr::Var("y".to_string()), &ctx, &mut out),
        EvalOutcome::Fatal(_)
    ));
}

#[test]
fn test_eval_expr_binary_on_variables() {
    let mut ctx = Context::new();
    let mut out: Vec<String> = Vec::new();
    ctx.set_var(&"a".to_string(), "-9".to_string());
    let e = Expr::Binary(
        Box::new(Expr::Var("a".to_string())),
        Op::Div,
        Box::new(Expr::Int(2)),
    );
    assert_eq!(eval_expr(10, &e, &ctx, &mut out), EvalOutcome::Value("-4".to_string()));
}

#[test]
fn test_exec_stmt_signals() {
    let mut ctx = Context::new();
    let mut out: Vec<String> = Vec::new();
    assert_eq!(
        exec_stmt(10, &Stmt::Break, &mut ctx, &mut out),
        StmtOutcome::Ctl(LoopControl::Break)
    );
    assert_eq!(
        exec_stmt(10, &Stmt::Continue, &mut ctx, &mut out),
        StmtOutcome::Ctl(LoopControl::Continue)
    );
    assert_eq!(
        exec_stmt(10, &Stmt::Return(Expr::Int(3)), &mut ctx, &mut out),
        StmtOutcome::Ctl(LoopControl::Return("3".to_string()))
    );
}

#[test]
fn test_exec_stmt_let_updates_context() {
    let mut ctx = Context::new();
    let mut out: Vec<String> = Vec::new();
    let s = Stmt::Let(
        "x".to_string(),
        Expr::Binary(Box::new(Expr::Int(2)), Op::Add, Box::new(Expr::Int(3))),
    );
    assert_eq!(
        exec_stmt(10, &s, &mut ctx, &mut out),
        StmtOutcome::Ctl(LoopControl::Normal)
    );
    assert_eq!(ctx.get_var(&"x".to_string()), Some(&"5".to_string()));
}

#[test]
fn test_exec_program_on_built_ast() {
    let program = vec![
        Stmt::Let(
            "x".to_string(),
            Expr::Binary(Box::new(Expr::Int(2)), Op::Add, Box::new(Expr::Int(3))),
        ),
        Stmt::Print(Expr::Var("x".to_string())),
    ];
    match exec_program(100, &program) {
        RunOutcome::Finished(lines) => assert_eq!(lines, vec!["5".to_string()]),
        other => panic!("unexpected outcome {:?}", other),
    }
}

#[test]
fn test_parse_i64_accepts_exactly_signed_decimals() {
    assert_eq!(parse_i64("42"), Some(42));
    assert_eq!(parse_i64("-7"), Some(-7));
    assert_eq!(parse_i64("+7"), Some(7));
    assert_eq!(parse_i64("007"), Some(7));
    assert_eq!(parse_i64("9223372036854775807"), Some(i64::MAX));
    assert_eq!(parse_i64("-9223372036854775808"), Some(i64::MIN));
    assert_eq!(parse_i64("9223372036854775808"), None);
    assert_eq!(parse_i64(""), None);
    assert_eq!(parse_i64("-"), None);
    assert_eq!(parse_i64("1.5"), None);
    assert_eq!(parse_i64(" 1"), None);
    assert_eq!(parse_i64("0abc"), None);
}

#[test]
fn test_i64_to_string_renders_decimal() {
    assert_eq!(i64_to_string(0), "0");
    assert_eq!(i64_to_string(123), "123");
    assert_eq!(i64_to_string(-5), "-5");
    assert_eq!(i64_to_string(i64::MIN), "-9223372036854775808");
}

#[test]
fn test_parser_builds_programs_and_reports_errors() {
    assert!(matches!(
        DashParser::parse("let x = 1 print(x)"),
        ParseOutcome::Program(_)
    ));
    assert!(matches!(DashParser::parse("let 5 = x"), ParseOutcome::Syntax(_)));
    assert!(matches!(
        DashParser::parse("print(99999999999999999999)"),
        ParseOutcome::IntOutOfRange
    ));
    match DashParser::parse("fn add(a, b) { return a + b }") {
        ParseOutcome::Program(prog) => {
            assert_eq!(prog.len(), 1);
            assert!(matches!(&prog[0], Stmt::Fn { .. }));
        }
        other => panic!("unexpected outcome {:?}", other),
    }
}
