use crate::expr::{Expr, ExprView};
use crate::grammar::{
    assignment, binary, climb, expression, joins, kind_at, operand, primary, program, statement,
    statements, syntax_error, terminated, token_at, unary, Level, ParseErrorView,
};
use crate::stmt::{stmt_views, Stmt, StmtView};
use crate::text::{decimal, decimal_text};
use crate::token::{token_views, Token, TokenLiteral, TokenType, TokenView};
use vstd::prelude::*;
use vstd::string::StringExecFns;

verus! {

/// A syntax error: what was expected, and the text and the line of the
/// token that stands there instead.
#[derive(Debug, PartialEq)]
pub struct ParseError {
    pub message: String,
    pub token: String,
    pub line: usize,
}

impl View for ParseError {
    type V = ParseErrorView;

    open spec fn view(&self) -> ParseErrorView {
        ParseErrorView { message: self.message@, token: self.token@, line: self.line }
    }
}

/// What a parse of an expression returned, with the number of tokens it took.
pub open spec fn expr_outcome(r: Result<Expr, ParseError>, taken: int) -> Result<
    (ExprView, nat),
    ParseErrorView,
> {
    match r {
        Ok(e) => Ok((e@, taken as nat)),
        Err(e) => Err(e@),
    }
}

/// What a parse of a statement returned, with the number of tokens it took
/// after its first one.
pub open spec fn stmt_outcome(r: Result<Stmt, ParseError>, taken: int) -> Result<
    (StmtView, nat),
    ParseErrorView,
> {
    match r {
        Ok(s) => Ok((s@, (taken - 1) as nat)),
        Err(e) => Err(e@),
    }
}

/// What a parse of a list of statements returned, with the number of tokens
/// it took.
pub open spec fn list_outcome(r: Result<Vec<Stmt>, ParseError>, taken: int) -> Result<
    (Seq<StmtView>, nat),
    ParseErrorView,
> {
    match r {
        Ok(list) => Ok((stmt_views(list@), taken as nat)),
        Err(e) => Err(e@),
    }
}

/// What a parse of a list of statements comes to when `done` statements,
/// of `taken` tokens, were read before it.
spec fn behind(
    done: Seq<StmtView>,
    taken: nat,
    rest: Result<(Seq<StmtView>, nat), ParseErrorView>,
) -> Result<(Seq<StmtView>, nat), ParseErrorView> {
    match rest {
        Ok((list, n)) => Ok((done + list, taken + n)),
        Err(e) => Err(e),
    }
}

proof fn lemma_nothing_read(ts: Seq<TokenView>, pos: nat, inside: bool)
    ensures
        statements(ts, pos, inside) == behind(Seq::empty(), 0, statements(ts, pos, inside)),
{
    match statements(ts, pos, inside) {
        Ok((list, n)) => {
            assert(Seq::<StmtView>::empty() + list =~= list);
        },
        Err(e) => {},
    }
}

proof fn lemma_all_read(ts: Seq<TokenView>, done: Seq<StmtView>, taken: nat, pos: nat, inside: bool)
    requires
        kind_at(ts, pos) == TokenType::EOF && !inside || kind_at(ts, pos) == TokenType::RIGHTBRACE
            && inside,
    ensures
        behind(done, taken, statements(ts, pos, inside)) == Ok::<
            (Seq<StmtView>, nat),
            ParseErrorView,
        >((done, if inside { taken + 1 } else { taken })),
{
    assert(done + Seq::<StmtView>::empty() =~= done);
}

proof fn lemma_one_read(
    ts: Seq<TokenView>,
    done: Seq<StmtView>,
    taken: nat,
    pos: nat,
    inside: bool,
    first: StmtView,
    more: nat,
)
    requires
        kind_at(ts, pos) != TokenType::EOF,
        !(inside && kind_at(ts, pos) == TokenType::RIGHTBRACE),
        statement(ts, pos) == Ok::<(StmtView, nat), ParseErrorView>((first, more)),
    ensures
        behind(done, taken, statements(ts, pos, inside)) == behind(
            done.push(first),
            taken + 1 + more,
            statements(ts, pos + 1 + more, inside),
        ),
{
    match statements(ts, pos + 1 + more, inside) {
        Ok((rest, n)) => {
            assert(done + (seq![first] + rest) =~= done.push(first) + rest);
        },
        Err(e) => {},
    }
}

/// A recursive-descent parser over a token sequence that ends in an
/// end-of-input token. `current` is the position of the next token.
pub struct Parser {
    pub tokens: Vec<Token>,
    pub current: usize,
}

impl Parser {
    /// The next token exists, and the sequence ends in an end-of-input token.
    pub open spec fn wf(&self) -> bool {
        &&& self.current < self.tokens.len()
        &&& self.tokens[self.tokens.len() - 1].token_type == TokenType::EOF
    }

    /// The token sequence that is parsed.
    pub open spec fn input(&self) -> Seq<TokenView> {
        token_views(self.tokens@)
    }

    /// A parser at the start of `tokens`. Where the sequence does not end in
    /// an end-of-input token, one is put behind it.
    pub fn new(tokens: Vec<Token>) -> (r: Self)
        ensures
            r.wf(),
            r.current == 0,
            r.input() == terminated(token_views(tokens@)),
    {
        let ghost given = token_views(tokens@);
        let mut tokens = tokens;
        let n = tokens.len();
        if n == 0 {
            let end = Token::new(TokenType::EOF, "".to_owned(), None, 1);
            proof {
                reveal_strlit("");
                assert(end.lexeme@ =~= Seq::<char>::empty());
            }
            tokens.push(end);
        } else if tokens[n - 1].token_type != TokenType::EOF {
            let end = Token::new(TokenType::EOF, "".to_owned(), None, tokens[n - 1].line);
            proof {
                reveal_strlit("");
                assert(end.lexeme@ =~= Seq::<char>::empty());
            }
            tokens.push(end);
        }
        let r = Parser { tokens, current: 0 };
        assert(r.input() =~= terminated(given));
        r
    }

    /// Parses the statements from the current position to the end of the
    /// input. Parsing stops at the first syntax error.
    pub fn parse(&mut self) -> (r: Result<Vec<Stmt>, ParseError>)
        requires
            old(self).wf(),
        ensures
            final(self).wf(),
            final(self).tokens == old(self).tokens,
            match r {
                Ok(list) => program(old(self).input(), old(self).current as nat) == Ok::<
                    Seq<StmtView>,
                    ParseErrorView,
                >(stmt_views(list@)) && kind_at(final(self).input(), final(self).current as nat)
                    == TokenType::EOF,
                Err(e) => program(old(self).input(), old(self).current as nat) == Err::<
                    Seq<StmtView>,
                    ParseErrorView,
                >(e@),
            },
            final(self).current >= old(self).current,
    {
        self.statements(false)
    }

    /// `statement*`, to the end of the input or to the end of a block.
    fn statements(&mut self, inside: bool) -> (r: Result<Vec<Stmt>, ParseError>)
        requires
            old(self).wf(),
        ensures
            final(self).wf(),
            final(self).tokens == old(self).tokens,
            final(self).current >= old(self).current,
            list_outcome(r, final(self).current - old(self).current) == statements(
                old(self).input(),
                old(self).current as nat,
                inside,
            ),
            r is Ok && !inside ==> kind_at(final(self).input(), final(self).current as nat)
                == TokenType::EOF,
        decreases old(self).tokens.len() - old(self).current, 1nat,
    {
        let ghost ts = self.input();
        let ghost start = self.current as nat;
        let mut list: Vec<Stmt> = Vec::new();
        proof {
            lemma_nothing_read(ts, start, inside);
        }
        loop
            invariant
                self.wf(),
                self.tokens == old(self).tokens,
                ts == self.input(),
                start == old(self).current,
                self.current >= start,
                statements(ts, start, inside) == behind(
                    stmt_views(list@),
                    (self.current - start) as nat,
                    statements(ts, self.current as nat, inside),
                ),
            decreases self.tokens.len() - self.current,
        {
            let ghost before = self.current as nat;
            let ghost done = stmt_views(list@);
            if self.is_at_end() {
                if inside {
                    return Err(self.error("Expect '}' after block."));
                }
                proof {
                    lemma_all_read(ts, done, (before - start) as nat, before, inside);
                }
                return Ok(list);
            }
            if inside && self.check(&TokenType::RIGHTBRACE) {
                self.advance();
                proof {
                    lemma_all_read(ts, done, (before - start) as nat, before, inside);
                }
                return Ok(list);
            }
            match self.statement() {
                Ok(s) => {
                    proof {
                        lemma_one_read(
                            ts,
                            done,
                            (before - start) as nat,
                            before,
                            inside,
                            s@,
                            (self.current - before - 1) as nat,
                        );
                        assert(stmt_views(list@.push(s)) =~= done.push(s@));
                    }
                    list.push(s);
                },
                Err(e) => {
                    return Err(e);
                },
            }
        }
    }

    /// `statement → block | varDecl | printStmt | exprStmt`.
    fn statement(&mut self) -> (r: Result<Stmt, ParseError>)
        requires
            old(self).wf(),
        ensures
            final(self).wf(),
            final(self).tokens == old(self).tokens,
            final(self).current >= old(self).current,
            r is Ok ==> final(self).current > old(self).current,
            stmt_outcome(r, final(self).current - old(self).current) == statement(
                old(self).input(),
                old(self).current as nat,
            ),
        decreases old(self).tokens.len() - old(self).current, 0nat,
    {
        if self.match_types(&[TokenType::LEFTBRACE]) {
            match self.statements(true) {
                Ok(list) => {
                    let block = Stmt::Block(list);
                    assert(block@ == StmtView::Block(stmt_views(list@))) by {
                        assert(block.model()->Block_0 =~= stmt_views(list@));
                    }
                    Ok(block)
                },
                Err(e) => Err(e),
            }
        } else if self.match_types(&[TokenType::VAR]) {
            self.var_declaration()
        } else if self.match_types(&[TokenType::PRINT]) {
            self.print_statement()
        } else {
            self.expression_statement()
        }
    }

    /// `varDecl → 'var' IDENTIFIER '=' expression ';'`, behind the `var`.
    fn var_declaration(&mut self) -> (r: Result<Stmt, ParseError>)
        requires
            old(self).wf(),
            old(self).current > 0,
            kind_at(old(self).input(), (old(self).current - 1) as nat) == TokenType::VAR,
        ensures
            final(self).wf(),
            final(self).tokens == old(self).tokens,
            final(self).current >= old(self).current,
            stmt_outcome(r, final(self).current - old(self).current + 1) == statement(
                old(self).input(),
                (old(self).current - 1) as nat,
            ),
    {
        match self.consume(&TokenType::IDENTIFIER, "Expect variable name.") {
            Ok(_) => {},
            Err(e) => {
                return Err(e);
            },
        }
        let name = self.previous().clone();
        match self.consume(&TokenType::ASSIGN, "Expect '=' after variable name.") {
            Ok(_) => {},
            Err(e) => {
                return Err(e);
            },
        }
        let initializer = match self.expression() {
            Ok(e) => e,
            Err(e) => {
                return Err(e);
            },
        };
        match self.consume(&TokenType::SEMICOLON, "Expect ';' after variable declaration.") {
            Ok(_) => {},
            Err(e) => {
                return Err(e);
            },
        }
        Ok(Stmt::Var(name, initializer))
    }

    /// `printStmt → 'print' expression ';'`, behind the `print`.
    fn print_statement(&mut self) -> (r: Result<Stmt, ParseError>)
        requires
            old(self).wf(),
            old(self).current > 0,
            kind_at(old(self).input(), (old(self).current - 1) as nat) == TokenType::PRINT,
        ensures
            final(self).wf(),
            final(self).tokens == old(self).tokens,
            final(self).current >= old(self).current,
            stmt_outcome(r, final(self).current - old(self).current + 1) == statement(
                old(self).input(),
                (old(self).current - 1) as nat,
            ),
    {
        let value = match self.expression() {
            Ok(e) => e,
            Err(e) => {
                return Err(e);
            },
        };
        match self.consume(&TokenType::SEMICOLON, "Expect ';' after value.") {
            Ok(_) => {},
            Err(e) => {
                return Err(e);
            },
        }
        Ok(Stmt::Print(value))
    }

    /// `exprStmt → expression ';'`.
    fn expression_statement(&mut self) -> (r: Result<Stmt, ParseError>)
        requires
            old(self).wf(),
            kind_at(old(self).input(), old(self).current as nat) != TokenType::LEFTBRACE,
            kind_at(old(self).input(), old(self).current as nat) != TokenType::VAR,
            kind_at(old(self).input(), old(self).current as nat) != TokenType::PRINT,
        ensures
            final(self).wf(),
            final(self).tokens == old(self).tokens,
            final(self).current >= old(self).current,
            r is Ok ==> final(self).current > old(self).current,
            stmt_outcome(r, final(self).current - old(self).current) == statement(
                old(self).input(),
                old(self).current as nat,
            ),
    {
        let value = match self.expression() {
            Ok(e) => e,
            Err(e) => {
                return Err(e);
            },
        };
        match self.consume(&TokenType::SEMICOLON, "Expect ';' after expression.") {
            Ok(_) => {},
            Err(e) => {
                return Err(e);
            },
        }
        Ok(Stmt::Expression(value))
    }

    /// `expression → assignment`.
    fn expression(&mut self) -> (r: Result<Expr, ParseError>)
        requires
            old(self).wf(),
        ensures
            final(self).wf(),
            final(self).tokens == old(self).tokens,
            final(self).current >= old(self).current,
            expr_outcome(r, final(self).current - old(self).current) == expression(
                old(self).input(),
                old(self).current as nat,
            ),
        decreases old(self).tokens.len() - old(self).current, 11nat,
    {
        self.assignment()
    }

    /// `assignment → IDENTIFIER '=' assignment | equality`.
    fn assignment(&mut self) -> (r: Result<Expr, ParseError>)
        requires
            old(self).wf(),
        ensures
            final(self).wf(),
            final(self).tokens == old(self).tokens,
            final(self).current >= old(self).current,
            expr_outcome(r, final(self).current - old(self).current) == assignment(
                old(self).input(),
                old(self).current as nat,
            ),
        decreases old(self).tokens.len() - old(self).current, 10nat,
    {
        if self.check(&TokenType::IDENTIFIER) && self.tokens[self.current + 1].token_type
            == TokenType::ASSIGN {
            let name = self.peek().clone();
            self.advance();
            self.advance();
            match self.assignment() {
                Ok(value) => Ok(Expr::Assign(name, Box::new(value))),
                Err(e) => Err(e),
            }
        } else {
            self.equality()
        }
    }

    /// `equality → comparison (('!=' | '==') comparison)*`.
    fn equality(&mut self) -> (r: Result<Expr, ParseError>)
        requires
            old(self).wf(),
        ensures
            final(self).wf(),
            final(self).tokens == old(self).tokens,
            final(self).current >= old(self).current,
            expr_outcome(r, final(self).current - old(self).current) == binary(
                old(self).input(),
                old(self).current as nat,
                Level::Equality,
            ),
        decreases old(self).tokens.len() - old(self).current, 9nat,
    {
        let ghost ts = self.input();
        let ghost start = self.current as nat;
        let mut expr = match self.comparison() {
            Ok(e) => e,
            Err(e) => {
                return Err(e);
            },
        };

        while self.match_types(&[TokenType::NOTEQUAL, TokenType::EQUAL])
            invariant
                self.wf(),
                self.tokens == old(self).tokens,
                ts == self.input(),
                start == old(self).current,
                self.current >= start,
                binary(ts, start, Level::Equality) == match climb(
                    ts,
                    self.current as nat,
                    expr@,
                    Level::Equality,
                ) {
                    Ok((whole, m)) => Ok::<(ExprView, nat), ParseErrorView>(
                        (whole, (self.current - start + m) as nat),
                    ),
                    Err(e) => Err(e),
                },
            decreases self.tokens.len() - self.current,
        {
            let ghost at = (self.current - 1) as nat;
            let ghost left = expr@;
            assert(joins(Level::Equality, kind_at(ts, at)));
            assert(binary(ts, start, Level::Equality) == match climb(ts, at, left, Level::Equality) {
                Ok((whole, m)) => Ok::<(ExprView, nat), ParseErrorView>(
                    (whole, (at - start + m) as nat),
                ),
                Err(e) => Err(e),
            });
            let operator = self.previous().clone();
            let right = match self.comparison() {
                Ok(e) => e,
                Err(e) => {
                    assert(operand(ts, at + 1, Level::Equality) == Err::<
                        (ExprView, nat),
                        ParseErrorView,
                    >(e@));
                    return Err(e);
                },
            };

            expr = Expr::Binary { left: Box::new(expr), operator, right: Box::new(right) };
        }

        Ok(expr)
    }

    /// `comparison → term (('>' | '>=' | '<' | '<=') term)*`.
    fn comparison(&mut self) -> (r: Result<Expr, ParseError>)
        requires
            old(self).wf(),
        ensures
            final(self).wf(),
            final(self).tokens == old(self).tokens,
            final(self).current >= old(self).current,
            expr_outcome(r, final(self).current - old(self).current) == binary(
                old(self).input(),
                old(self).current as nat,
                Level::Comparison,
            ),
        decreases old(self).tokens.len() - old(self).current, 7nat,
    {
        let ghost ts = self.input();
        let ghost start = self.current as nat;
        let mut expr = match self.term() {
            Ok(e) => e,
            Err(e) => {
                return Err(e);
            },
        };

        while self.match_types(
            &[
                TokenType::GREATER,
                TokenType::GREATEREQUAL,
                TokenType::LESS,
                TokenType::LESSEQUAL,
            ],
        )
            invariant
                self.wf(),
                self.tokens == old(self).tokens,
                ts == self.input(),
                start == old(self).current,
                self.current >= start,
                binary(ts, start, Level::Comparison) == match climb(
                    ts,
                    self.current as nat,
                    expr@,
                    Level::Comparison,
                ) {
                    Ok((whole, m)) => Ok::<(ExprView, nat), ParseErrorView>(
                        (whole, (self.current - start + m) as nat),
                    ),
                    Err(e) => Err(e),
                },
            decreases self.tokens.len() - self.current,
        {
            let ghost at = (self.current - 1) as nat;
            let ghost left = expr@;
            assert(joins(Level::Comparison, kind_at(ts, at)));
            assert(binary(ts, start, Level::Comparison) == match climb(ts, at, left, Level::Comparison) {
                Ok((whole, m)) => Ok::<(ExprView, nat), ParseErrorView>(
                    (whole, (at - start + m) as nat),
                ),
                Err(e) => Err(e),
            });
            let operator = self.previous().clone();
            let right = match self.term() {
                Ok(e) => e,
                Err(e) => {
                    assert(operand(ts, at + 1, Level::Comparison) == Err::<
                        (ExprView, nat),
                        ParseErrorView,
                    >(e@));
                    return Err(e);
                },
            };

            expr = Expr::Binary { left: Box::new(expr), operator, right: Box::new(right) };
        }

        Ok(expr)
    }

    /// `term → factor (('-' | '+') factor)*`.
    fn term(&mut self) -> (r: Result<Expr, ParseError>)
        requires
            old(self).wf(),
        ensures
            final(self).wf(),
            final(self).tokens == old(self).tokens,
            final(self).current >= old(self).current,
            expr_outcome(r, final(self).current - old(self).current) == binary(
                old(self).input(),
                old(self).current as nat,
                Level::Term,
            ),
        decreases old(self).tokens.len() - old(self).current, 5nat,
    {
        let ghost ts = self.input();
        let ghost start = self.current as nat;
        let mut expr = match self.factor() {
            Ok(e) => e,
            Err(e) => {
                return Err(e);
            },
        };

        while self.match_types(&[TokenType::MINUS, TokenType::PLUS])
            invariant
                self.wf(),
                self.tokens == old(self).tokens,
                ts == self.input(),
                start == old(self).current,
                self.current >= start,
                binary(ts, start, Level::Term) == match climb(
                    ts,
                    self.current as nat,
                    expr@,
                    Level::Term,
                ) {
                    Ok((whole, m)) => Ok::<(ExprView, nat), ParseErrorView>(
                        (whole, (self.current - start + m) as nat),
                    ),
                    Err(e) => Err(e),
                },
            decreases self.tokens.len() - self.current,
        {
            let ghost at = (self.current - 1) as nat;
            let ghost left = expr@;
            assert(joins(Level::Term, kind_at(ts, at)));
            assert(binary(ts, start, Level::Term) == match climb(ts, at, left, Level::Term) {
                Ok((whole, m)) => Ok::<(ExprView, nat), ParseErrorView>(
                    (whole, (at - start + m) as nat),
                ),
                Err(e) => Err(e),
            });
            let operator = self.previous().clone();
            let right = match self.factor() {
                Ok(e) => e,
                Err(e) => {
                    assert(operand(ts, at + 1, Level::Term) == Err::<
                        (ExprView, nat),
                        ParseErrorView,
                    >(e@));
                    return Err(e);
                },
            };

            expr = Expr::Binary { left: Box::new(expr), operator, right: Box::new(right) };
        }

        Ok(expr)
    }

    /// `factor → unary (('/' | '*') unary)*`.
    fn factor(&mut self) -> (r: Result<Expr, ParseError>)
        requires
            old(self).wf(),
        ensures
            final(self).wf(),
            final(self).tokens == old(self).tokens,
            final(self).current >= old(self).current,
            expr_outcome(r, final(self).current - old(self).current) == binary(
                old(self).input(),
                old(self).current as nat,
                Level::Factor,
            ),
        decreases old(self).tokens.len() - old(self).current, 3nat,
    {
        let ghost ts = self.input();
        let ghost start = self.current as nat;
        let mut expr = match self.unary() {
            Ok(e) => e,
            Err(e) => {
                return Err(e);
            },
        };

        while self.match_types(&[TokenType::SLASH, TokenType::STAR])
            invariant
                self.wf(),
                self.tokens == old(self).tokens,
                ts == self.input(),
                start == old(self).current,
                self.current >= start,
                binary(ts, start, Level::Factor) == match climb(
                    ts,
                    self.current as nat,
                    expr@,
                    Level::Factor,
                ) {
                    Ok((whole, m)) => Ok::<(ExprView, nat), ParseErrorView>(
                        (whole, (self.current - start + m) as nat),
                    ),
                    Err(e) => Err(e),
                },
            decreases self.tokens.len() - self.current,
        {
            let ghost at = (self.current - 1) as nat;
            let ghost left = expr@;
            assert(joins(Level::Factor, kind_at(ts, at)));
            assert(binary(ts, start, Level::Factor) == match climb(ts, at, left, Level::Factor) {
                Ok((whole, m)) => Ok::<(ExprView, nat), ParseErrorView>(
                    (whole, (at - start + m) as nat),
                ),
                Err(e) => Err(e),
            });
            let operator = self.previous().clone();
            let right = match self.unary() {
                Ok(e) => e,
                Err(e) => {
                    assert(operand(ts, at + 1, Level::Factor) == Err::<
                        (ExprView, nat),
                        ParseErrorView,
                    >(e@));
                    return Err(e);
                },
            };

            expr = Expr::Binary { left: Box::new(expr), operator, right: Box::new(right) };
        }

        Ok(expr)
    }

    /// `unary → ('!' | '-') unary | primary`.
    fn unary(&mut self) -> (r: Result<Expr, ParseError>)
        requires
            old(self).wf(),
        ensures
            final(self).wf(),
            final(self).tokens == old(self).tokens,
            final(self).current >= old(self).current,
            expr_outcome(r, final(self).current - old(self).current) == unary(
                old(self).input(),
                old(self).current as nat,
            ),
        decreases old(self).tokens.len() - old(self).current, 1nat,
    {
        if self.match_types(&[TokenType::BANG, TokenType::MINUS]) {
            let operator = self.previous().clone();
            let right = match self.unary() {
                Ok(e) => e,
                Err(e) => {
                    return Err(e);
                },
            };

            return Ok(Expr::Unary { operator, right: Box::new(right) });
        }
        self.primary()
    }

    /// `primary → NUMBER | STRING | 'true' | 'false' | 'nil' | IDENTIFIER | '(' expression ')'`.
    fn primary(&mut self) -> (r: Result<Expr, ParseError>)
        requires
            old(self).wf(),
        ensures
            final(self).wf(),
            final(self).tokens == old(self).tokens,
            final(self).current >= old(self).current,
            expr_outcome(r, final(self).current - old(self).current) == primary(
                old(self).input(),
                old(self).current as nat,
            ),
        decreases old(self).tokens.len() - old(self).current, 0nat,
    {
        if self.match_types(&[TokenType::TRUE]) {
            return Ok(Expr::Bool(true));
        } else if self.match_types(&[TokenType::FALSE]) {
            return Ok(Expr::Bool(false));
        } else if self.match_types(&[TokenType::NIL]) {
            return Ok(Expr::Nil);
        }
        if self.check(&TokenType::NUMBER) {
            match &self.peek().literal {
                Some(TokenLiteral::Number(num)) => {
                    let number = *num;
                    self.advance();
                    return Ok(Expr::Number(number));
                },
                _ => {},
            }
        }
        if self.check(&TokenType::STRING) {
            match &self.peek().literal {
                Some(TokenLiteral::String(s)) => {
                    let text = s.clone();
                    self.advance();
                    return Ok(Expr::String(text));
                },
                _ => {},
            }
        }
        if self.match_types(&[TokenType::IDENTIFIER]) {
            return Ok(Expr::Variable(self.previous().clone()));
        }
        if self.match_types(&[TokenType::LEFTPAREN]) {
            let expr = match self.expression() {
                Ok(e) => e,
                Err(e) => {
                    return Err(e);
                },
            };
            match self.consume(&TokenType::RIGHTPAREN, "Expect ')' after expression.") {
                Ok(_) => {},
                Err(e) => {
                    return Err(e);
                },
            }
            return Ok(Expr::Grouping(Box::new(expr)));
        }
        Err(self.error("Expect expression."))
    }

    /// Takes the next token when its kind is one of `token_types`.
    fn match_types(&mut self, token_types: &[TokenType]) -> (r: bool)
        requires
            old(self).wf(),
        ensures
            final(self).wf(),
            final(self).tokens == old(self).tokens,
            r == (kind_at(old(self).input(), old(self).current as nat) != TokenType::EOF
                && exists|i: int|
                0 <= i < token_types@.len() && token_types@[i] == kind_at(
                    old(self).input(),
                    old(self).current as nat,
                )),
            final(self).current == if r {
                old(self).current + 1
            } else {
                old(self).current as int
            },
    {
        let mut i: usize = 0;
        while i < token_types.len()
            invariant
                self.wf(),
                *self == *old(self),
                i <= token_types@.len(),
                forall|j: int|
                    0 <= j < i ==> token_types@[j] != kind_at(self.input(), self.current as nat)
                        || kind_at(self.input(), self.current as nat) == TokenType::EOF,
            decreases token_types.len() - i,
        {
            if self.check(&token_types[i]) {
                self.advance();
                return true;
            }
            i += 1;
        }
        false
    }

    /// Takes the next token when it is of the given kind; fails otherwise.
    fn consume(&mut self, token_type: &TokenType, message: &str) -> (r: Result<(), ParseError>)
        requires
            old(self).wf(),
            *token_type != TokenType::EOF,
        ensures
            final(self).wf(),
            final(self).tokens == old(self).tokens,
            match r {
                Ok(_) => kind_at(old(self).input(), old(self).current as nat) == *token_type
                    && final(self).current == old(self).current + 1,
                Err(e) => kind_at(old(self).input(), old(self).current as nat) != *token_type
                    && final(self).current == old(self).current && e@ == syntax_error(
                    old(self).input(),
                    old(self).current as nat,
                    message@,
                ),
            },
    {
        if self.check(token_type) {
            self.advance();
            Ok(())
        } else {
            Err(self.error(message))
        }
    }

    /// The syntax error that names the next token as the offending one.
    fn error(&self, message: &str) -> (e: ParseError)
        requires
            self.wf(),
        ensures
            e@ == syntax_error(self.input(), self.current as nat, message@),
    {
        let token = self.peek();
        ParseError { message: message.to_owned(), token: token.lexeme.clone(), line: token.line }
    }

    /// Whether the next token is of the given kind. The end of the input
    /// is of no kind.
    fn check(&self, token_type: &TokenType) -> (r: bool)
        requires
            self.wf(),
        ensures
            r == (kind_at(self.input(), self.current as nat) == *token_type && *token_type
                != TokenType::EOF),
    {
        if self.is_at_end() {
            return false;
        }
        self.peek().token_type == *token_type
    }

    /// Moves past the next token. The end of the input is never passed.
    fn advance(&mut self) -> (r: &Token)
        requires
            old(self).wf(),
            old(self).current > 0 || kind_at(old(self).input(), old(self).current as nat) != TokenType::EOF,
        ensures
            final(self).wf(),
            final(self).tokens == old(self).tokens,
            final(self).current == if kind_at(old(self).input(), old(self).current as nat)
                == TokenType::EOF {
                old(self).current as int
            } else {
                old(self).current + 1
            },
            *r == final(self).tokens[final(self).current - 1],
    {
        if !self.is_at_end() {
            self.current += 1;
        }
        self.previous()
    }

    /// Whether the next token ends the input.
    fn is_at_end(&self) -> (r: bool)
        requires
            self.wf(),
        ensures
            r == (kind_at(self.input(), self.current as nat) == TokenType::EOF),
    {
        self.peek().token_type == TokenType::EOF
    }

    /// The next token.
    fn peek(&self) -> (r: &Token)
        requires
            self.wf(),
        ensures
            *r == self.tokens[self.current as int],
            r@ == token_at(self.input(), self.current as nat),
    {
        &self.tokens[self.current]
    }

    /// The token before the next one.
    fn previous(&self) -> (r: &Token)
        requires
            0 < self.current <= self.tokens.len(),
        ensures
            *r == self.tokens[self.current - 1],
            r@ == token_at(self.input(), (self.current - 1) as nat),
    {
        &self.tokens[self.current - 1]
    }
}

} // verus!

verus! {

/// The diagnostic line of a syntax error.
pub open spec fn parse_error_text(e: ParseErrorView) -> Seq<char> {
    "[line "@ + decimal(e.line as nat) + "] Error at '"@ + e.token + "': "@ + e.message
}

impl ParseError {
    /// The diagnostic line of the error.
    pub fn to_text(&self) -> (r: String)
        ensures
            r@ == parse_error_text(self@),
    {
        let mut r = "[line ".to_owned();
        r.append(decimal_text(self.line).as_str());
        r.append("] Error at '");
        r.append(self.token.as_str());
        r.append("': ");
        r.append(self.message.as_str());
        r
    }
}

} // verus!
