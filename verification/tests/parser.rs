use treewalk::{
    Expr, Number, ParseError, Parser, Scanner, Stmt, Token, TokenLiteral, TokenType,
};

fn sym(kind: TokenType, lexeme: &str) -> Token {
    Token::new(kind, lexeme.to_string(), None, 1)
}

fn at_line(mut token: Token, line: usize) -> Token {
    token.line = line;
    token
}

fn ident(name: &str) -> Token {
    sym(TokenType::IDENTIFIER, name)
}

fn number(x: f64) -> Token {
    Token::new(
        TokenType::NUMBER,
        format!("{x}"),
        Some(TokenLiteral::Number(Number::from_bits(x.to_bits()))),
        1,
    )
}

fn string(s: &str) -> Token {
    Token::new(
        TokenType::STRING,
        format!("\"{s}\""),
        Some(TokenLiteral::String(s.to_string())),
        1,
    )
}

fn eof() -> Token {
    sym(TokenType::EOF, "")
}

fn plus() -> Token {
    sym(TokenType::PLUS, "+")
}

fn minus() -> Token {
    sym(TokenType::MINUS, "-")
}

fn star() -> Token {
    sym(TokenType::STAR, "*")
}

fn slash() -> Token {
    sym(TokenType::SLASH, "/")
}

fn semi() -> Token {
    sym(TokenType::SEMICOLON, ";")
}

fn assign() -> Token {
    sym(TokenType::ASSIGN, "=")
}

fn lparen() -> Token {
    sym(TokenType::LEFTPAREN, "(")
}

fn rparen() -> Token {
    sym(TokenType::RIGHTPAREN, ")")
}

fn lbrace() -> Token {
    sym(TokenType::LEFTBRACE, "{")
}

fn rbrace() -> Token {
    sym(TokenType::RIGHTBRACE, "}")
}

fn var() -> Token {
    sym(TokenType::VAR, "var")
}

fn print() -> Token {
    sym(TokenType::PRINT, "print")
}

fn parse(mut tokens: Vec<Token>) -> Result<Vec<Stmt>, ParseError> {
    tokens.push(eof());
    Parser::new(tokens).parse()
}

fn parse_expr(mut tokens: Vec<Token>) -> Expr {
    tokens.push(semi());
    let mut statements = parse(tokens).unwrap();
    assert_eq!(statements.len(), 1);
    match statements.pop().unwrap() {
        Stmt::Expression(e) => e,
        other => panic!("not an expression statement: {other:?}"),
    }
}

fn num(x: f64) -> Expr {
    Expr::Number(Number::from_bits(x.to_bits()))
}

fn binary(left: Expr, operator: Token, right: Expr) -> Expr {
    Expr::Binary { left: Box::new(left), operator, right: Box::new(right) }
}

fn unary(operator: Token, right: Expr) -> Expr {
    Expr::Unary { operator, right: Box::new(right) }
}

fn show(n: Number) -> String {
    format!("{:?}", f64::from_bits(n.bits))
}

fn text_of(tokens: Vec<Token>) -> String {
    parse_expr(tokens).to_text(&show)
}

#[test]
fn literals_parse_to_their_nodes() {
    assert_eq!(parse_expr(vec![sym(TokenType::TRUE, "true")]), Expr::Bool(true));
    assert_eq!(parse_expr(vec![sym(TokenType::FALSE, "false")]), Expr::Bool(false));
    assert_eq!(parse_expr(vec![sym(TokenType::NIL, "nil")]), Expr::Nil);
    assert_eq!(parse_expr(vec![number(12.5)]), num(12.5));
    assert_eq!(parse_expr(vec![string("hi")]), Expr::String("hi".to_string()));
    assert_eq!(parse_expr(vec![ident("a")]), Expr::Variable(ident("a")));
}

#[test]
fn grouping_wraps_its_expression() {
    assert_eq!(
        parse_expr(vec![lparen(), number(1.0), rparen()]),
        Expr::Grouping(Box::new(num(1.0)))
    );
    assert_eq!(text_of(vec![lparen(), lparen(), string("x"), rparen(), rparen()]), "(group (group x))");
}

#[test]
fn unary_operators_nest_to_the_right() {
    let bang = sym(TokenType::BANG, "!");
    assert_eq!(
        parse_expr(vec![bang.clone(), minus(), number(1.0)]),
        unary(bang.clone(), unary(minus(), num(1.0)))
    );
    assert_eq!(text_of(vec![bang.clone(), bang, sym(TokenType::TRUE, "true")]), "(! (! true))");
}

#[test]
fn factors_bind_tighter_than_terms() {
    assert_eq!(
        parse_expr(vec![number(1.0), plus(), number(2.0), star(), number(3.0)]),
        binary(num(1.0), plus(), binary(num(2.0), star(), num(3.0)))
    );
    assert_eq!(
        text_of(vec![number(1.0), star(), number(2.0), plus(), number(3.0)]),
        "(+ (* 1.0 2.0) 3.0)"
    );
}

#[test]
fn binary_operators_associate_to_the_left() {
    assert_eq!(
        parse_expr(vec![number(1.0), minus(), number(2.0), minus(), number(3.0)]),
        binary(binary(num(1.0), minus(), num(2.0)), minus(), num(3.0))
    );
    assert_eq!(
        text_of(vec![number(8.0), slash(), number(4.0), slash(), number(2.0), star(), number(5.0)]),
        "(* (/ (/ 8.0 4.0) 2.0) 5.0)"
    );
}

#[test]
fn comparison_binds_tighter_than_equality() {
    let tokens = vec![
        number(1.0),
        sym(TokenType::LESS, "<"),
        number(2.0),
        sym(TokenType::EQUAL, "=="),
        number(3.0),
        sym(TokenType::GREATEREQUAL, ">="),
        number(4.0),
        sym(TokenType::NOTEQUAL, "!="),
        sym(TokenType::NIL, "nil"),
    ];
    assert_eq!(text_of(tokens), "(!= (== (< 1.0 2.0) (>= 3.0 4.0)) nil)");
}

#[test]
fn terms_bind_tighter_than_comparisons() {
    let tokens = vec![
        number(1.0),
        plus(),
        number(2.0),
        sym(TokenType::GREATER, ">"),
        number(3.0),
        minus(),
        minus(),
        number(4.0),
        sym(TokenType::LESSEQUAL, "<="),
        number(5.0),
    ];
    assert_eq!(text_of(tokens), "(<= (> (+ 1.0 2.0) (- 3.0 (- 4.0))) 5.0)");
}

#[test]
fn grouping_overrides_precedence() {
    let tokens = vec![lparen(), number(1.0), plus(), number(2.0), rparen(), star(), number(3.0)];
    assert_eq!(text_of(tokens), "(* (group (+ 1.0 2.0)) 3.0)");
}

#[test]
fn assignment_associates_to_the_right() {
    let tokens = vec![ident("a"), assign(), ident("b"), assign(), number(1.0), plus(), number(2.0)];
    assert_eq!(
        parse_expr(tokens),
        Expr::Assign(
            ident("a"),
            Box::new(Expr::Assign(ident("b"), Box::new(binary(num(1.0), plus(), num(2.0)))))
        )
    );
}

#[test]
fn an_identifier_without_equals_is_a_variable() {
    let tokens = vec![ident("a"), sym(TokenType::EQUAL, "=="), ident("b")];
    assert_eq!(text_of(tokens), "(== a b)");
}

#[test]
fn only_a_name_can_be_assigned() {
    let tokens = vec![lparen(), ident("a"), rparen(), assign(), number(1.0), semi()];
    let e = parse(tokens).unwrap_err();
    assert_eq!(e.message, "Expect ';' after expression.");
    assert_eq!(e.token, "=");
}

#[test]
fn statements_of_every_form() {
    let tokens = vec![
        var(),
        ident("a"),
        assign(),
        string("foo"),
        semi(),
        lbrace(),
        var(),
        ident("a"),
        assign(),
        string("bar"),
        semi(),
        print(),
        ident("a"),
        semi(),
        rbrace(),
        print(),
        ident("a"),
        semi(),
        ident("a"),
        semi(),
    ];
    let statements = parse(tokens).unwrap();
    assert_eq!(
        statements,
        vec![
            Stmt::Var(ident("a"), Expr::String("foo".to_string())),
            Stmt::Block(vec![
                Stmt::Var(ident("a"), Expr::String("bar".to_string())),
                Stmt::Print(Expr::Variable(ident("a"))),
            ]),
            Stmt::Print(Expr::Variable(ident("a"))),
            Stmt::Expression(Expr::Variable(ident("a"))),
        ]
    );
    let texts: Vec<String> = statements.iter().map(|s| s.to_text(&show)).collect();
    assert_eq!(
        texts,
        vec!["(var a foo)", "(block (var a bar) (print a))", "(print a)", "a;"]
    );
}

#[test]
fn blocks_nest() {
    let tokens = vec![lbrace(), lbrace(), rbrace(), lbrace(), number(1.0), semi(), rbrace(), rbrace()];
    let statements = parse(tokens).unwrap();
    assert_eq!(
        statements,
        vec![Stmt::Block(vec![
            Stmt::Block(vec![]),
            Stmt::Block(vec![Stmt::Expression(num(1.0))]),
        ])]
    );
    assert_eq!(statements[0].to_text(&show), "(block (block) (block 1.0;))");
}

#[test]
fn no_tokens_are_no_statements() {
    assert_eq!(parse(vec![]), Ok(vec![]));
    assert_eq!(Parser::new(vec![]).parse(), Ok(vec![]));
}

#[test]
fn a_sequence_without_end_of_input_gets_one() {
    let parser = Parser::new(vec![at_line(number(1.0), 3), at_line(semi(), 5)]);
    assert_eq!(parser.tokens.len(), 3);
    assert_eq!(parser.tokens[2], at_line(eof(), 5));
    assert_eq!(Parser::new(vec![]).tokens, vec![eof()]);
    let kept = Parser::new(vec![number(1.0), eof()]);
    assert_eq!(kept.tokens.len(), 2);
    assert_eq!(kept.current, 0);
}

#[test]
fn tokens_behind_the_end_of_input_are_not_read() {
    let mut parser = Parser::new(vec![number(1.0), semi(), eof(), rparen(), eof()]);
    assert_eq!(parser.parse(), Ok(vec![Stmt::Expression(num(1.0))]));
}

#[test]
fn missing_closing_parenthesis_is_an_error_at_the_token_there() {
    let tokens = vec![lparen(), number(1.0), plus(), number(2.0), at_line(semi(), 2)];
    let e = parse(tokens).unwrap_err();
    assert_eq!(e.message, "Expect ')' after expression.");
    assert_eq!(e.token, ";");
    assert_eq!(e.line, 2);
    assert_eq!(e.to_text(), "[line 2] Error at ';': Expect ')' after expression.");
}

#[test]
fn a_token_that_begins_no_expression_is_an_error() {
    let e = parse(vec![number(1.0), plus(), at_line(star(), 7), number(2.0), semi()]).unwrap_err();
    assert_eq!(e, ParseError { message: "Expect expression.".to_string(), token: "*".to_string(), line: 7 });
    let e = parse(vec![rbrace()]).unwrap_err();
    assert_eq!(e.message, "Expect expression.");
    assert_eq!(e.token, "}");
}

#[test]
fn an_expression_cut_off_by_the_end_of_input_is_an_error_there() {
    let mut parser = Parser::new(vec![number(1.0), plus(), at_line(eof(), 9)]);
    let e = parser.parse().unwrap_err();
    assert_eq!(e.message, "Expect expression.");
    assert_eq!(e.token, "");
    assert_eq!(e.line, 9);
    assert_eq!(e.to_text(), "[line 9] Error at '': Expect expression.");
}

#[test]
fn a_block_without_its_closing_brace_is_an_error() {
    let e = parse(vec![lbrace(), number(1.0), semi()]).unwrap_err();
    assert_eq!(e.message, "Expect '}' after block.");
    assert_eq!(e.token, "");
}

#[test]
fn missing_semicolons_are_errors() {
    let e = parse(vec![number(1.0), number(2.0)]).unwrap_err();
    assert_eq!(e.message, "Expect ';' after expression.");
    assert_eq!(e.token, "2");
    let e = parse(vec![print(), number(1.0)]).unwrap_err();
    assert_eq!(e.message, "Expect ';' after value.");
    let e = parse(vec![var(), ident("a"), assign(), number(1.0), rbrace()]).unwrap_err();
    assert_eq!(e.message, "Expect ';' after variable declaration.");
    assert_eq!(e.token, "}");
}

#[test]
fn a_declaration_needs_a_name_and_an_initializer() {
    let e = parse(vec![var(), number(1.0), semi()]).unwrap_err();
    assert_eq!(e.message, "Expect variable name.");
    assert_eq!(e.token, "1");
    let e = parse(vec![var(), ident("a"), semi()]).unwrap_err();
    assert_eq!(e.message, "Expect '=' after variable name.");
    assert_eq!(e.token, ";");
    let e = parse(vec![var(), ident("a"), assign(), semi()]).unwrap_err();
    assert_eq!(e.message, "Expect expression.");
}

#[test]
fn parsing_stops_at_the_first_error() {
    let tokens = vec![number(1.0), semi(), at_line(plus(), 2), semi(), at_line(star(), 3), semi()];
    let e = parse(tokens).unwrap_err();
    assert_eq!(e.token, "+");
    assert_eq!(e.line, 2);
}

#[test]
fn a_literal_token_without_its_payload_begins_no_expression() {
    let bare_number = at_line(sym(TokenType::NUMBER, "1"), 4);
    let e = parse(vec![bare_number.clone(), semi()]).unwrap_err();
    assert_eq!(e.message, "Expect expression.");
    assert_eq!(e.token, "1");
    assert_eq!(e.line, 4);
    let bare_string = sym(TokenType::STRING, "\"s\"");
    let e = parse(vec![number(2.0), plus(), bare_string, semi()]).unwrap_err();
    assert_eq!(e.message, "Expect expression.");
    assert_eq!(e.token, "\"s\"");
    let crossed = Token::new(
        TokenType::NUMBER,
        "x".to_string(),
        Some(TokenLiteral::String("x".to_string())),
        1,
    );
    let e = parse(vec![crossed, semi()]).unwrap_err();
    assert_eq!(e.message, "Expect expression.");
    assert_eq!(e.token, "x");
}

#[test]
fn parsing_the_same_tokens_twice_gives_the_same_tree() {
    let tokens = || {
        vec![
            var(),
            ident("a"),
            assign(),
            number(1.0),
            plus(),
            number(2.0),
            star(),
            lparen(),
            minus(),
            number(3.0),
            rparen(),
            semi(),
            lbrace(),
            print(),
            ident("a"),
            sym(TokenType::EQUAL, "=="),
            string("x"),
            semi(),
            rbrace(),
            eof(),
        ]
    };
    let first = Parser::new(tokens()).parse();
    let second = Parser::new(tokens()).parse();
    assert!(first.is_ok());
    assert_eq!(first, second);
    let mut parser = Parser::new(tokens());
    let third = parser.parse();
    parser.current = 0;
    assert_eq!(parser.parse(), third);
}

#[test]
fn scanned_tokens_parse() {
    let mut scanner = Scanner::new("(\"a\" + \"b\") == \"ab\";\n{ !\"\"; }".to_string());
    scanner.scan_tokens();
    assert!(scanner.errors.is_empty());
    let statements = Parser::new(scanner.tokens).parse().unwrap();
    let texts: Vec<String> = statements.iter().map(|s| s.to_text(&show)).collect();
    assert_eq!(texts, vec!["(== (group (+ a b)) ab);", "(block (! );)"]);
}

#[test]
fn expression_text_of_every_node() {
    let e = Expr::Assign(
        ident("x"),
        Box::new(binary(
            unary(minus(), Expr::Grouping(Box::new(Expr::Bool(false)))),
            plus(),
            Expr::Nil,
        )),
    );
    assert_eq!(e.to_text(&show), "(= x (+ (- (group false)) nil))");
    assert_eq!(Expr::Bool(true).to_text(&show), "true");
    assert_eq!(num(0.5).to_text(&show), "0.5");
}
