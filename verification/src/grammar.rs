use crate::expr::ExprView;
use crate::scanner::end_of_input;
use crate::stmt::StmtView;
use crate::token::{token_views, LiteralView, Token, TokenType, TokenView};
use vstd::prelude::*;

verus! {

/// What a syntax error holds: what was expected, and the text and the line
/// of the token that stands there instead.
pub struct ParseErrorView {
    pub message: Seq<char>,
    pub token: Seq<char>,
    pub line: usize,
}

/// The kind of the token at `pos`. Past the last token the input has ended.
pub open spec fn kind_at(ts: Seq<TokenView>, pos: nat) -> TokenType {
    if pos < ts.len() {
        ts[pos as int].kind
    } else {
        TokenType::EOF
    }
}

/// The token at `pos`.
pub open spec fn token_at(ts: Seq<TokenView>, pos: nat) -> TokenView {
    if pos < ts.len() {
        ts[pos as int]
    } else {
        end_of_input(0)
    }
}

/// How many tokens stand at `pos` and after it.
pub open spec fn remaining(ts: Seq<TokenView>, pos: nat) -> nat {
    if pos < ts.len() {
        (ts.len() - pos) as nat
    } else {
        0
    }
}

/// The syntax error that names the token at `pos` as the offending one.
pub open spec fn syntax_error(ts: Seq<TokenView>, pos: nat, message: Seq<char>) -> ParseErrorView {
    ParseErrorView { message, token: token_at(ts, pos).lexeme, line: token_at(ts, pos).line }
}

/// The token sequence with an end-of-input token behind it, where it does
/// not end in one: on the line of its last token, or on line 1.
pub open spec fn terminated(ts: Seq<TokenView>) -> Seq<TokenView> {
    if ts.len() > 0 && ts.last().kind == TokenType::EOF {
        ts
    } else {
        ts.push(end_of_input(if ts.len() > 0 { ts.last().line } else { 1 }))
    }
}

/// The levels of binary operators, from the one that binds tightest.
#[derive(Clone, Copy, Debug, PartialEq, Eq, Structural)]
pub enum Level {
    Factor,
    Term,
    Comparison,
    Equality,
}

/// Whether a token of this kind is an operator of the level.
pub open spec fn joins(level: Level, kind: TokenType) -> bool {
    match level {
        Level::Factor => kind == TokenType::SLASH || kind == TokenType::STAR,
        Level::Term => kind == TokenType::MINUS || kind == TokenType::PLUS,
        Level::Comparison => kind == TokenType::GREATER || kind == TokenType::GREATEREQUAL || kind
            == TokenType::LESS || kind == TokenType::LESSEQUAL,
        Level::Equality => kind == TokenType::NOTEQUAL || kind == TokenType::EQUAL,
    }
}

/// The place of a level among the levels, counted from 1.
pub open spec fn rank(level: Level) -> nat {
    match level {
        Level::Factor => 1,
        Level::Term => 2,
        Level::Comparison => 3,
        Level::Equality => 4,
    }
}

/// `primary → NUMBER | STRING | 'true' | 'false' | 'nil' | IDENTIFIER | '(' expression ')'`.
///
/// The result is the expression and the number of tokens it takes. A NUMBER
/// or STRING token stands for its payload; one that carries no payload of
/// its kind begins no expression.
pub open spec fn primary(ts: Seq<TokenView>, pos: nat) -> Result<(ExprView, nat), ParseErrorView>
    decreases remaining(ts, pos), 0nat,
{
    let first = token_at(ts, pos);
    if first.kind == TokenType::TRUE {
        Ok((ExprView::Bool(true), 1))
    } else if first.kind == TokenType::FALSE {
        Ok((ExprView::Bool(false), 1))
    } else if first.kind == TokenType::NIL {
        Ok((ExprView::Nil, 1))
    } else if first.kind == TokenType::NUMBER && first.literal matches Some(LiteralView::Number(n)) {
        Ok((ExprView::Number(first.literal->0->Number_0), 1))
    } else if first.kind == TokenType::STRING && first.literal matches Some(LiteralView::Text(s)) {
        Ok((ExprView::Text(first.literal->0->Text_0), 1))
    } else if first.kind == TokenType::IDENTIFIER {
        Ok((ExprView::Variable(first), 1))
    } else if first.kind == TokenType::LEFTPAREN {
        match expression(ts, pos + 1) {
            Ok((inner, n)) => if kind_at(ts, pos + 1 + n) == TokenType::RIGHTPAREN {
                Ok((ExprView::Grouping(Box::new(inner)), n + 2))
            } else {
                Err(syntax_error(ts, pos + 1 + n, "Expect ')' after expression."@))
            },
            Err(e) => Err(e),
        }
    } else {
        Err(syntax_error(ts, pos, "Expect expression."@))
    }
}

/// `unary → ('!' | '-') unary | primary`.
pub open spec fn unary(ts: Seq<TokenView>, pos: nat) -> Result<(ExprView, nat), ParseErrorView>
    decreases remaining(ts, pos), 1nat,
{
    if kind_at(ts, pos) == TokenType::BANG || kind_at(ts, pos) == TokenType::MINUS {
        match unary(ts, pos + 1) {
            Ok((right, n)) => Ok(
                (ExprView::Unary { operator: token_at(ts, pos), right: Box::new(right) }, n + 1),
            ),
            Err(e) => Err(e),
        }
    } else {
        primary(ts, pos)
    }
}

/// An operand of a level: an expression of the level below it.
pub open spec fn operand(ts: Seq<TokenView>, pos: nat, level: Level) -> Result<
    (ExprView, nat),
    ParseErrorView,
>
    decreases remaining(ts, pos), 2 * rank(level),
{
    match level {
        Level::Factor => unary(ts, pos),
        Level::Term => binary(ts, pos, Level::Factor),
        Level::Comparison => binary(ts, pos, Level::Term),
        Level::Equality => binary(ts, pos, Level::Comparison),
    }
}

/// The left fold of a level: with `left` read and `pos` behind it, every
/// operator of the level that follows takes what was read so far as its left
/// operand. The result is the whole expression and the number of tokens
/// taken from `pos` on.
pub open spec fn climb(ts: Seq<TokenView>, pos: nat, left: ExprView, level: Level) -> Result<
    (ExprView, nat),
    ParseErrorView,
>
    decreases remaining(ts, pos), 2 * rank(level),
{
    if joins(level, kind_at(ts, pos)) {
        match operand(ts, pos + 1, level) {
            Ok((right, n)) => match climb(
                ts,
                pos + 1 + n,
                ExprView::Binary {
                    left: Box::new(left),
                    operator: token_at(ts, pos),
                    right: Box::new(right),
                },
                level,
            ) {
                Ok((whole, m)) => Ok((whole, 1 + n + m)),
                Err(e) => Err(e),
            },
            Err(e) => Err(e),
        }
    } else {
        Ok((left, 0))
    }
}

/// An expression of a level of binary operators: an operand, then the left
/// fold of the level.
pub open spec fn binary(ts: Seq<TokenView>, pos: nat, level: Level) -> Result<
    (ExprView, nat),
    ParseErrorView,
>
    decreases remaining(ts, pos), 2 * rank(level) + 1,
{
    match operand(ts, pos, level) {
        Ok((left, n)) => match climb(ts, pos + n, left, level) {
            Ok((whole, m)) => Ok((whole, n + m)),
            Err(e) => Err(e),
        },
        Err(e) => Err(e),
    }
}

/// `assignment → IDENTIFIER '=' assignment | equality`.
pub open spec fn assignment(ts: Seq<TokenView>, pos: nat) -> Result<(ExprView, nat), ParseErrorView>
    decreases remaining(ts, pos), 10nat,
{
    if kind_at(ts, pos) == TokenType::IDENTIFIER && kind_at(ts, pos + 1) == TokenType::ASSIGN {
        match assignment(ts, pos + 2) {
            Ok((value, n)) => Ok((ExprView::Assign(token_at(ts, pos), Box::new(value)), n + 2)),
            Err(e) => Err(e),
        }
    } else {
        binary(ts, pos, Level::Equality)
    }
}

/// `expression → assignment`.
pub open spec fn expression(ts: Seq<TokenView>, pos: nat) -> Result<(ExprView, nat), ParseErrorView>
    decreases remaining(ts, pos), 11nat,
{
    assignment(ts, pos)
}

/// An expression and the token of kind `closing` that must follow it. The
/// result is the expression and the number of tokens of the expression.
pub open spec fn closed_expression(
    ts: Seq<TokenView>,
    pos: nat,
    closing: TokenType,
    message: Seq<char>,
) -> Result<(ExprView, nat), ParseErrorView> {
    match expression(ts, pos) {
        Ok((e, n)) => if kind_at(ts, pos + n) == closing {
            Ok((e, n))
        } else {
            Err(syntax_error(ts, pos + n, message))
        },
        Err(e) => Err(e),
    }
}

/// `statement → block | varDecl | printStmt | exprStmt`.
///
/// The result is the statement and the number of tokens it takes after its
/// first one.
pub open spec fn statement(ts: Seq<TokenView>, pos: nat) -> Result<(StmtView, nat), ParseErrorView>
    decreases remaining(ts, pos), 0nat,
{
    let kind = kind_at(ts, pos);
    if kind == TokenType::LEFTBRACE {
        match statements(ts, pos + 1, true) {
            Ok((list, n)) => Ok((StmtView::Block(list), n)),
            Err(e) => Err(e),
        }
    } else if kind == TokenType::VAR {
        if kind_at(ts, pos + 1) != TokenType::IDENTIFIER {
            Err(syntax_error(ts, pos + 1, "Expect variable name."@))
        } else if kind_at(ts, pos + 2) != TokenType::ASSIGN {
            Err(syntax_error(ts, pos + 2, "Expect '=' after variable name."@))
        } else {
            match closed_expression(
                ts,
                pos + 3,
                TokenType::SEMICOLON,
                "Expect ';' after variable declaration."@,
            ) {
                Ok((initializer, n)) => Ok((StmtView::Var(token_at(ts, pos + 1), initializer), n + 3)),
                Err(e) => Err(e),
            }
        }
    } else if kind == TokenType::PRINT {
        match closed_expression(ts, pos + 1, TokenType::SEMICOLON, "Expect ';' after value."@) {
            Ok((value, n)) => Ok((StmtView::Print(value), n + 1)),
            Err(e) => Err(e),
        }
    } else {
        match closed_expression(ts, pos, TokenType::SEMICOLON, "Expect ';' after expression."@) {
            Ok((value, n)) => Ok((StmtView::Expression(value), n)),
            Err(e) => Err(e),
        }
    }
}

/// `statement*` up to the end of the input, or, inside a block, up to and
/// with the `'}'` that closes it. The result is the statements and the
/// number of tokens taken.
pub open spec fn statements(ts: Seq<TokenView>, pos: nat, inside: bool) -> Result<
    (Seq<StmtView>, nat),
    ParseErrorView,
>
    decreases remaining(ts, pos), 1nat,
{
    let kind = kind_at(ts, pos);
    if kind == TokenType::EOF {
        if inside {
            Err(syntax_error(ts, pos, "Expect '}' after block."@))
        } else {
            Ok((Seq::empty(), 0))
        }
    } else if inside && kind == TokenType::RIGHTBRACE {
        Ok((Seq::empty(), 1))
    } else {
        match statement(ts, pos) {
            Ok((first, more)) => match statements(ts, pos + 1 + more, inside) {
                Ok((rest, n)) => Ok((seq![first] + rest, 1 + more + n)),
                Err(e) => Err(e),
            },
            Err(e) => Err(e),
        }
    }
}

/// `program → statement* EOF`: the statements of the token sequence from
/// `pos` on, or the first syntax error.
pub open spec fn program(ts: Seq<TokenView>, pos: nat) -> Result<Seq<StmtView>, ParseErrorView> {
    match statements(ts, pos, false) {
        Ok((list, n)) => Ok(list),
        Err(e) => Err(e),
    }
}

} // verus!

verus! {

/// Parsing is a function of what the tokens hold: two token sequences that
/// hold the same give the same statements, or the same syntax error.
pub proof fn parse_is_deterministic(first: Seq<Token>, second: Seq<Token>)
    requires
        token_views(first) == token_views(second),
    ensures
        program(terminated(token_views(first)), 0) == program(terminated(token_views(second)), 0),
{
}

} // verus!
