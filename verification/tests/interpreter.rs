use treewalk::{
    Arithmetic, Environment, Expr, ExprValue, Interpreter, InterpreterStatus, Number, Parser,
    RuntimeError, Scanner, Stmt, Token, TokenLiteral, TokenType,
};

fn calc(op: Arithmetic, a: Number, b: Number) -> Number {
    let (x, y) = (f64::from_bits(a.bits), f64::from_bits(b.bits));
    let r = match op {
        Arithmetic::Add => x + y,
        Arithmetic::Subtract => x - y,
        Arithmetic::Multiply => x * y,
        Arithmetic::Divide => x / y,
    };
    Number::from_bits(r.to_bits())
}

fn show(n: Number) -> String {
    format!("{}", f64::from_bits(n.bits))
}

fn sym(kind: TokenType, lexeme: &str) -> Token {
    Token::new(kind, lexeme.to_string(), None, 1)
}

fn word(text: &str) -> Token {
    let kind = match text {
        "var" => TokenType::VAR,
        "print" => TokenType::PRINT,
        "true" => TokenType::TRUE,
        "false" => TokenType::FALSE,
        "nil" => TokenType::NIL,
        _ => TokenType::IDENTIFIER,
    };
    sym(kind, text)
}

fn number(text: &str) -> Token {
    let x: f64 = text.parse().unwrap();
    Token::new(
        TokenType::NUMBER,
        text.to_string(),
        Some(TokenLiteral::Number(Number::from_bits(x.to_bits()))),
        1,
    )
}

/// Tokens of a source text: words and numbers are read here, everything
/// else by the scanner.
fn tokens(source: &str) -> Vec<Token> {
    let mut out = Vec::new();
    let mut line = 1;
    let chars: Vec<char> = source.chars().collect();
    let mut i = 0;
    while i < chars.len() {
        let c = chars[i];
        if c.is_ascii_alphabetic() || c == '_' {
            let start = i;
            while i < chars.len() && (chars[i].is_ascii_alphanumeric() || chars[i] == '_') {
                i += 1;
            }
            let mut t = word(&chars[start..i].iter().collect::<String>());
            t.line = line;
            out.push(t);
        } else if c.is_ascii_digit() {
            let start = i;
            while i < chars.len() && (chars[i].is_ascii_digit() || chars[i] == '.') {
                i += 1;
            }
            let mut t = number(&chars[start..i].iter().collect::<String>());
            t.line = line;
            out.push(t);
        } else {
            let start = i;
            if c == '"' {
                i += 1;
                while i < chars.len() && chars[i] != '"' {
                    i += 1;
                }
                i += 1;
            } else {
                while i < chars.len()
                    && !(chars[i].is_ascii_alphanumeric() || chars[i] == '_' || chars[i] == '"')
                {
                    i += 1;
                }
            }
            let piece: String = chars[start..i.min(chars.len())].iter().collect();
            let mut scanner = Scanner::new(piece);
            scanner.line = line;
            scanner.scan_tokens();
            assert!(scanner.errors.is_empty(), "{:?}", scanner.errors);
            line = scanner.line;
            scanner.tokens.pop();
            out.extend(scanner.tokens);
        }
    }
    out.push(Token::new(TokenType::EOF, String::new(), None, line));
    out
}

fn program(source: &str) -> Vec<Stmt> {
    Parser::new(tokens(source)).parse().unwrap()
}

/// Runs a program in `run` mode and returns what it printed and how it ended.
fn run(source: &str) -> (Vec<String>, Result<(), RuntimeError>) {
    let mut interpreter = Interpreter::new();
    interpreter.set_status("run").unwrap();
    let result = interpreter.interpret(program(source), &calc);
    let printed = interpreter.take_output().iter().map(|v| v.to_text(&show)).collect();
    (printed, result)
}

fn printed(source: &str) -> Vec<String> {
    let (lines, result) = run(source);
    assert_eq!(result, Ok(()));
    lines
}

/// Evaluates one expression.
fn eval(source: &str) -> Result<ExprValue, RuntimeError> {
    let mut statements = program(&format!("{source};"));
    assert_eq!(statements.len(), 1);
    match statements.pop().unwrap() {
        Stmt::Expression(e) => Interpreter::new().evaluate(&e, &calc),
        other => panic!("not an expression: {other:?}"),
    }
}

fn num(x: f64) -> ExprValue {
    ExprValue::Number(Number::from_bits(x.to_bits()))
}

fn text(s: &str) -> ExprValue {
    ExprValue::String(s.to_string())
}

fn failure(token: &str, message: &str, line: usize) -> RuntimeError {
    RuntimeError { token: token.to_string(), message: message.to_string(), line }
}

#[test]
fn arithmetic_follows_double_precision() {
    assert_eq!(eval("6 / 3"), Ok(num(2.0)));
    assert_eq!(eval("1 + 2"), Ok(num(3.0)));
    assert_eq!(eval("0.1 + 0.2"), Ok(num(0.1 + 0.2)));
    assert_eq!(eval("7 - 10"), Ok(num(-3.0)));
    assert_eq!(eval("2.5 * 4"), Ok(num(10.0)));
    assert_eq!(eval("1 / 3"), Ok(num(1.0 / 3.0)));
    assert_eq!(eval("1 / 0"), Ok(num(f64::INFINITY)));
    assert_eq!(eval("1 + 2 * 3 - 4 / 8"), Ok(num(1.0 + 2.0 * 3.0 - 4.0 / 8.0)));
    assert_eq!(eval("(1 + 2) * -3"), Ok(num(-9.0)));
    assert_eq!(eval("--2"), Ok(num(2.0)));
    assert_eq!(eval("-0"), Ok(num(-0.0)));
}

#[test]
fn division_of_zero_by_zero_is_a_nan() {
    match eval("0 / 0") {
        Ok(ExprValue::Number(n)) => assert!(n.is_nan()),
        other => panic!("{other:?}"),
    }
}

#[test]
fn comparisons_yield_booleans() {
    assert_eq!(eval("1 < 2"), Ok(ExprValue::Bool(true)));
    assert_eq!(eval("2 < 1"), Ok(ExprValue::Bool(false)));
    assert_eq!(eval("2 <= 2"), Ok(ExprValue::Bool(true)));
    assert_eq!(eval("3 > 2"), Ok(ExprValue::Bool(true)));
    assert_eq!(eval("2 > 2"), Ok(ExprValue::Bool(false)));
    assert_eq!(eval("2 >= 2"), Ok(ExprValue::Bool(true)));
    assert_eq!(eval("-1 < 0"), Ok(ExprValue::Bool(true)));
    assert_eq!(eval("-1 > -2"), Ok(ExprValue::Bool(true)));
    assert_eq!(eval("0 / 0 < 1"), Ok(ExprValue::Bool(false)));
    assert_eq!(eval("0 / 0 >= 0 / 0"), Ok(ExprValue::Bool(false)));
}

#[test]
fn strings_concatenate() {
    assert_eq!(eval("\"a\" + \"b\""), Ok(text("ab")));
    assert_eq!(eval("\"a\" + \"b\" + \"c\""), Ok(text("abc")));
    assert_eq!(eval("\"a\" + (\"b\" + \"c\")"), Ok(text("abc")));
    assert_eq!(eval("\"\" + \"\""), Ok(text("")));
}

#[test]
fn plus_refuses_mixed_operands() {
    let message = "Operands must be two numbers or two strings.";
    assert_eq!(eval("1 + \"a\""), Err(failure("+", message, 1)));
    assert_eq!(eval("\"a\" + 1"), Err(failure("+", message, 1)));
    assert_eq!(eval("nil + nil"), Err(failure("+", message, 1)));
    assert_eq!(eval("true + 1"), Err(failure("+", message, 1)));
}

#[test]
fn arithmetic_and_comparison_need_numbers() {
    for op in ["-", "/", "*", ">", ">=", "<", "<="] {
        let message = "Operands must be numbers";
        assert_eq!(eval(&format!("1 {op} \"a\"")), Err(failure(op, message, 1)));
        assert_eq!(eval(&format!("\"a\" {op} \"b\"")), Err(failure(op, message, 1)));
        assert_eq!(eval(&format!("nil {op} 1")), Err(failure(op, message, 1)));
    }
}

#[test]
fn negation_needs_a_number() {
    assert_eq!(eval("-\"a\""), Err(failure("-", "Operand must be a number.", 1)));
    assert_eq!(eval("-nil"), Err(failure("-", "Operand must be a number.", 1)));
    assert_eq!(eval("-true"), Err(failure("-", "Operand must be a number.", 1)));
}

#[test]
fn equality_holds_within_a_kind_only() {
    assert_eq!(eval("nil == nil"), Ok(ExprValue::Bool(true)));
    assert_eq!(eval("nil == false"), Ok(ExprValue::Bool(false)));
    assert_eq!(eval("false == nil"), Ok(ExprValue::Bool(false)));
    assert_eq!(eval("true == true"), Ok(ExprValue::Bool(true)));
    assert_eq!(eval("true == false"), Ok(ExprValue::Bool(false)));
    assert_eq!(eval("1 == 1"), Ok(ExprValue::Bool(true)));
    assert_eq!(eval("1 == 2"), Ok(ExprValue::Bool(false)));
    assert_eq!(eval("2 == 1"), Ok(ExprValue::Bool(false)));
    assert_eq!(eval("\"a\" == \"a\""), Ok(ExprValue::Bool(true)));
    assert_eq!(eval("\"a\" == \"b\""), Ok(ExprValue::Bool(false)));
    assert_eq!(eval("\"1\" == 1"), Ok(ExprValue::Bool(false)));
    assert_eq!(eval("0 == false"), Ok(ExprValue::Bool(false)));
    assert_eq!(eval("\"\" == nil"), Ok(ExprValue::Bool(false)));
    assert_eq!(eval("nil != false"), Ok(ExprValue::Bool(true)));
    assert_eq!(eval("1 != 1"), Ok(ExprValue::Bool(false)));
    assert_eq!(eval("\"a\" != \"b\""), Ok(ExprValue::Bool(true)));
}

#[test]
fn numbers_closer_than_epsilon_are_equal() {
    assert_eq!(eval("0.1 + 0.2 == 0.3"), Ok(ExprValue::Bool(true)));
    assert_eq!(eval("0.3 == 0.1 + 0.2"), Ok(ExprValue::Bool(true)));
    assert_eq!(eval("1 == 1.0000000000000004"), Ok(ExprValue::Bool(false)));
    assert_eq!(eval("0 == -0"), Ok(ExprValue::Bool(true)));
    assert_eq!(eval("0 / 0 == 0 / 0"), Ok(ExprValue::Bool(false)));
    assert_eq!(eval("1 / 0 == 1 / 0"), Ok(ExprValue::Bool(false)));
}

#[test]
fn only_nil_and_false_are_falsy() {
    assert_eq!(eval("!nil"), Ok(ExprValue::Bool(true)));
    assert_eq!(eval("!0"), Ok(ExprValue::Bool(false)));
    assert_eq!(eval("!\"\""), Ok(ExprValue::Bool(false)));
    assert_eq!(eval("!false"), Ok(ExprValue::Bool(true)));
    assert_eq!(eval("!true"), Ok(ExprValue::Bool(false)));
    assert_eq!(eval("!!nil"), Ok(ExprValue::Bool(false)));
    assert_eq!(eval("!\"a\""), Ok(ExprValue::Bool(false)));
    let interpreter = Interpreter::new();
    assert!(!interpreter.is_truthy(&ExprValue::Nil));
    assert!(!interpreter.is_truthy(&ExprValue::Bool(false)));
    assert!(interpreter.is_truthy(&ExprValue::Bool(true)));
    assert!(interpreter.is_truthy(&num(0.0)));
    assert!(interpreter.is_truthy(&text("")));
}

#[test]
fn is_equal_compares_values() {
    let interpreter = Interpreter::new();
    assert!(interpreter.is_equal(&ExprValue::Nil, &ExprValue::Nil, &calc));
    assert!(!interpreter.is_equal(&ExprValue::Nil, &ExprValue::Bool(false), &calc));
    assert!(interpreter.is_equal(&num(2.0), &num(2.0), &calc));
    assert!(!interpreter.is_equal(&num(2.0), &num(2.5), &calc));
    assert!(interpreter.is_equal(&text("a"), &text("a"), &calc));
    assert!(!interpreter.is_equal(&text("2"), &num(2.0), &calc));
}

#[test]
fn a_block_declaration_shadows_and_ends_with_the_block() {
    let source = "var a = \"foo\"; { var a = \"bar\"; print a; } print a;";
    assert_eq!(printed(source), vec!["bar", "foo"]);
}

#[test]
fn assignment_in_a_block_changes_the_outer_binding() {
    assert_eq!(printed("var x = 1; { x = 2; } print x;"), vec!["2"]);
    assert_eq!(printed("var x = 1; { { x = x + 1; } print x; } print x;"), vec!["2", "2"]);
}

#[test]
fn a_block_variable_is_gone_after_the_block() {
    let (lines, result) = run("{ var inner = 1; print inner; } print inner;");
    assert_eq!(lines, vec!["1"]);
    assert_eq!(result, Err(failure("inner", "Undefined variable 'inner'.", 1)));
}

#[test]
fn reading_an_undefined_variable_fails() {
    assert_eq!(eval("missing"), Err(failure("missing", "Undefined variable 'missing'.", 1)));
    let (lines, result) = run("print 1;\nprint missing;\nprint 2;");
    assert_eq!(lines, vec!["1"]);
    assert_eq!(result, Err(failure("missing", "Undefined variable 'missing'.", 2)));
}

#[test]
fn assigning_an_undefined_variable_fails_and_declares_nothing() {
    assert_eq!(eval("x = 1"), Err(failure("x", "Undefined variable 'x'.", 1)));
    let mut interpreter = Interpreter::new();
    let first = interpreter.interpret(program("x = 1;"), &calc);
    assert_eq!(first, Err(failure("x", "Undefined variable 'x'.", 1)));
    let second = interpreter.interpret(program("print x;"), &calc);
    assert_eq!(second, Err(failure("x", "Undefined variable 'x'.", 1)));
    assert!(interpreter.take_output().is_empty());
}

#[test]
fn assignment_is_an_expression() {
    assert_eq!(printed("var a = 1; var b = 2; print a = b = 3; print a; print b;"), vec!["3", "3", "3"]);
    assert_eq!(printed("var a = \"x\"; print (a = \"y\") + a;"), vec!["yy"]);
}

#[test]
fn operands_are_evaluated_from_left_to_right() {
    assert_eq!(printed("var a = 1; print a + (a = 5); print a;"), vec!["6", "5"]);
    assert_eq!(printed("var a = 1; print (a = 5) + a;"), vec!["10"]);
    let (lines, result) = run("var a = 1; print (a = 2) + nil; print a;");
    assert!(lines.is_empty());
    assert_eq!(result, Err(failure("+", "Operands must be two numbers or two strings.", 1)));
    let mut interpreter = Interpreter::new();
    let failed = interpreter.interpret(program("var a = 1; (a = 2) + nil;"), &calc);
    assert!(failed.is_err());
    assert_eq!(interpreter.interpret(program("print a;"), &calc), Ok(()));
    assert_eq!(interpreter.take_output(), vec![num(2.0)]);
}

#[test]
fn the_first_failure_ends_the_run() {
    let (lines, result) = run("print \"a\"; print -\"b\"; print \"c\";");
    assert_eq!(lines, vec!["a"]);
    assert_eq!(result, Err(failure("-", "Operand must be a number.", 1)));
}

#[test]
fn a_failing_block_still_gives_its_scope_back() {
    let mut interpreter = Interpreter::new();
    interpreter.set_status("run").unwrap();
    let failed = interpreter.interpret(program("var a = 1; { var a = 2; { var a = 3; -nil; } }"), &calc);
    assert_eq!(failed, Err(failure("-", "Operand must be a number.", 1)));
    assert_eq!(interpreter.interpret(program("print a; var a = 4; print a;"), &calc), Ok(()));
    let lines: Vec<String> = interpreter.take_output().iter().map(|v| v.to_text(&show)).collect();
    assert_eq!(lines, vec!["1", "4"]);
}

#[test]
fn expression_statements_print_in_evaluate_mode_only() {
    let mut interpreter = Interpreter::new();
    assert_eq!(interpreter.interpret(program("1 + 1; print 5; \"s\";"), &calc), Ok(()));
    assert_eq!(interpreter.take_output(), vec![num(2.0), num(5.0), text("s")]);
    assert_eq!(interpreter.set_status("run"), Ok(()));
    assert_eq!(interpreter.interpret(program("1 + 1; print 5; \"s\";"), &calc), Ok(()));
    assert_eq!(interpreter.take_output(), vec![num(5.0)]);
    assert_eq!(interpreter.set_status("evaluate"), Ok(()));
    assert_eq!(interpreter.interpret(program("nil;"), &calc), Ok(()));
    assert_eq!(interpreter.take_output(), vec![ExprValue::Nil]);
}

#[test]
fn only_two_modes_have_a_name() {
    let mut interpreter = Interpreter::new();
    let refused = Err("should only accept `evaluate` and `run` string values".to_string());
    assert_eq!(interpreter.set_status("Run"), refused);
    assert_eq!(interpreter.set_status(""), refused);
    assert_eq!(interpreter.set_status("evaluate "), refused);
    assert_eq!(interpreter.interpret(program("1;"), &calc), Ok(()));
    assert_eq!(interpreter.take_output(), vec![num(1.0)]);
    assert_eq!(InterpreterStatus::try_from("run"), Ok(InterpreterStatus::Run));
    assert_eq!(InterpreterStatus::try_from("evaluate"), Ok(InterpreterStatus::Evaluate));
    assert!(InterpreterStatus::try_from("tokenize").is_err());
    assert_eq!(InterpreterStatus::default(), InterpreterStatus::Evaluate);
}

#[test]
fn a_default_interpreter_is_a_new_one() {
    let mut interpreter = Interpreter::default();
    assert_eq!(interpreter.interpret(program("var a = 1; a;"), &calc), Ok(()));
    assert_eq!(interpreter.take_output(), vec![num(1.0)]);
}

#[test]
fn take_output_hands_each_value_out_once() {
    let mut interpreter = Interpreter::new();
    assert!(interpreter.take_output().is_empty());
    assert_eq!(interpreter.interpret(program("print 1; print 2;"), &calc), Ok(()));
    assert_eq!(interpreter.take_output(), vec![num(1.0), num(2.0)]);
    assert!(interpreter.take_output().is_empty());
}

#[test]
fn the_global_scope_lasts_between_runs() {
    let mut interpreter = Interpreter::new();
    interpreter.set_status("run").unwrap();
    assert_eq!(interpreter.interpret(program("var a = 1;"), &calc), Ok(()));
    assert_eq!(interpreter.interpret(program("a = a + 1; print a;"), &calc), Ok(()));
    assert_eq!(interpreter.take_output(), vec![num(2.0)]);
}

#[test]
fn set_env_replaces_the_scopes() {
    let mut env = Environment::new();
    env.define("given".to_string(), text("value"));
    let mut interpreter = Interpreter::new();
    assert_eq!(interpreter.interpret(program("var mine = 1;"), &calc), Ok(()));
    interpreter.set_env(env);
    assert_eq!(interpreter.interpret(program("print given;"), &calc), Ok(()));
    assert_eq!(interpreter.take_output(), vec![text("value")]);
    assert!(interpreter.interpret(program("print mine;"), &calc).is_err());
}

#[test]
fn errors_carry_the_line_of_the_operator() {
    let (_, result) = run("print 1;\n\nprint 2 *\n nil;");
    assert_eq!(result, Err(failure("*", "Operands must be numbers", 3)));
    assert_eq!(result.unwrap_err().to_text(), "[line 3] Error with '*': Operands must be numbers");
}

#[test]
fn operators_of_the_wrong_arity_are_refused() {
    let mut interpreter = Interpreter::new();
    let odd = Expr::Unary { operator: sym(TokenType::STAR, "*"), right: Box::new(Expr::Nil) };
    assert_eq!(
        interpreter.evaluate(&odd, &calc),
        Err(failure("*", "Invalid operator found in unary expression", 1))
    );
    let odd = Expr::Binary {
        left: Box::new(Expr::Nil),
        operator: sym(TokenType::BANG, "!"),
        right: Box::new(Expr::Nil),
    };
    assert_eq!(
        interpreter.evaluate(&odd, &calc),
        Err(failure("!", "Unrecognized binary operator.", 1))
    );
}

#[test]
fn values_print_as_text() {
    assert_eq!(ExprValue::Bool(true).to_text(&show), "true");
    assert_eq!(ExprValue::Bool(false).to_text(&show), "false");
    assert_eq!(ExprValue::Nil.to_text(&show), "nil");
    assert_eq!(text("a b").to_text(&show), "a b");
    assert_eq!(num(2.0).to_text(&show), "2");
    assert_eq!(num(-0.25).to_text(&show), "-0.25");
    assert_eq!(printed("print 6 / 3; print \"x\" + \"y\"; print nil; print 1 < 2;"), vec!["2", "xy", "nil", "true"]);
}

#[test]
fn values_clone_to_equal_values() {
    for v in [ExprValue::Nil, ExprValue::Bool(true), num(1.5), text("s")] {
        assert_eq!(v.clone(), v);
    }
}

#[test]
fn source_text_runs_end_to_end() {
    let mut scanner = Scanner::new("\"a\" + \"b\";\n!\"\";\n{ \"x\" == \"x\"; }".to_string());
    scanner.scan_tokens();
    assert!(scanner.errors.is_empty());
    let statements = Parser::new(scanner.tokens).parse().unwrap();
    let mut interpreter = Interpreter::new();
    assert_eq!(interpreter.interpret(statements, &calc), Ok(()));
    let lines: Vec<String> = interpreter.take_output().iter().map(|v| v.to_text(&show)).collect();
    assert_eq!(lines, vec!["ab", "false", "true"]);
}
