use crate::expr::ExprView;
use crate::grammar::{
    assignment, binary, climb, expression, joins, kind_at, operand, primary, program, rank,
    remaining, statement, statements, unary, Level, ParseErrorView,
};
use crate::stmt::StmtView;
use crate::token::{LiteralView, TokenType, TokenView};
use vstd::prelude::*;

verus! {

/// The number of tokens that an expression is written with.
pub open spec fn expr_width(expr: ExprView) -> nat
    decreases expr,
{
    match expr {
        ExprView::Grouping(inner) => expr_width(*inner) + 2,
        ExprView::Unary { operator, right } => expr_width(*right) + 1,
        ExprView::Binary { left, operator, right } => expr_width(*left) + 1 + expr_width(*right),
        ExprView::Assign(name, value) => expr_width(*value) + 2,
        _ => 1,
    }
}

/// Whether the token at `pos` is `token`.
pub open spec fn holds(ts: Seq<TokenView>, pos: nat, token: TokenView) -> bool {
    pos < ts.len() && ts[pos as int] == token
}

/// Whether the tokens from `pos` on write the expression: every token that
/// the tree holds stands at its place, every literal is the payload of the
/// token at its place, and parentheses stand round every grouping.
pub open spec fn writes_expr(ts: Seq<TokenView>, pos: nat, expr: ExprView) -> bool
    decreases expr,
{
    match expr {
        ExprView::Bool(b) => kind_at(ts, pos) == if b {
            TokenType::TRUE
        } else {
            TokenType::FALSE
        },
        ExprView::Number(n) => pos < ts.len() && ts[pos as int].kind == TokenType::NUMBER
            && ts[pos as int].literal == Some(LiteralView::Number(n)),
        ExprView::Text(s) => pos < ts.len() && ts[pos as int].kind == TokenType::STRING
            && ts[pos as int].literal == Some(LiteralView::Text(s)),
        ExprView::Nil => kind_at(ts, pos) == TokenType::NIL,
        ExprView::Grouping(inner) => {
            &&& kind_at(ts, pos) == TokenType::LEFTPAREN
            &&& writes_expr(ts, pos + 1, *inner)
            &&& kind_at(ts, pos + 1 + expr_width(*inner)) == TokenType::RIGHTPAREN
        },
        ExprView::Unary { operator, right } => {
            &&& holds(ts, pos, operator)
            &&& operator.kind == TokenType::BANG || operator.kind == TokenType::MINUS
            &&& writes_expr(ts, pos + 1, *right)
        },
        ExprView::Binary { left, operator, right } => {
            &&& writes_expr(ts, pos, *left)
            &&& holds(ts, pos + expr_width(*left), operator)
            &&& writes_expr(ts, pos + expr_width(*left) + 1, *right)
        },
        ExprView::Variable(name) => holds(ts, pos, name) && name.kind == TokenType::IDENTIFIER,
        ExprView::Assign(name, value) => {
            &&& holds(ts, pos, name)
            &&& name.kind == TokenType::IDENTIFIER
            &&& kind_at(ts, pos + 1) == TokenType::ASSIGN
            &&& writes_expr(ts, pos + 2, *value)
        },
    }
}

/// The number of tokens that a statement is written with.
pub open spec fn stmt_width(stmt: StmtView) -> nat
    decreases stmt, 0nat,
{
    match stmt {
        StmtView::Expression(e) => expr_width(e) + 1,
        StmtView::Print(e) => expr_width(e) + 2,
        StmtView::Var(name, initializer) => expr_width(initializer) + 4,
        StmtView::Block(list) => list_width(list, 0) + 2,
    }
}

/// The number of tokens that the statements from position `from` on are
/// written with.
pub open spec fn list_width(list: Seq<StmtView>, from: int) -> nat
    decreases list, list.len() - from,
{
    if 0 <= from < list.len() {
        stmt_width(list[from]) + list_width(list, from + 1)
    } else {
        0
    }
}

/// Whether the tokens from `pos` on write the statement, with its keyword,
/// its braces and its semicolon.
pub open spec fn writes_stmt(ts: Seq<TokenView>, pos: nat, stmt: StmtView) -> bool
    decreases stmt, 0nat,
{
    match stmt {
        StmtView::Expression(e) => {
            &&& writes_expr(ts, pos, e)
            &&& kind_at(ts, pos + expr_width(e)) == TokenType::SEMICOLON
        },
        StmtView::Print(e) => {
            &&& kind_at(ts, pos) == TokenType::PRINT
            &&& writes_expr(ts, pos + 1, e)
            &&& kind_at(ts, pos + 1 + expr_width(e)) == TokenType::SEMICOLON
        },
        StmtView::Var(name, initializer) => {
            &&& kind_at(ts, pos) == TokenType::VAR
            &&& holds(ts, pos + 1, name)
            &&& name.kind == TokenType::IDENTIFIER
            &&& kind_at(ts, pos + 2) == TokenType::ASSIGN
            &&& writes_expr(ts, pos + 3, initializer)
            &&& kind_at(ts, pos + 3 + expr_width(initializer)) == TokenType::SEMICOLON
        },
        StmtView::Block(list) => {
            &&& kind_at(ts, pos) == TokenType::LEFTBRACE
            &&& writes_list(ts, pos + 1, list, 0)
            &&& kind_at(ts, pos + 1 + list_width(list, 0)) == TokenType::RIGHTBRACE
        },
    }
}

/// Whether the tokens from `pos` on write the statements from position
/// `from` on, one behind the other.
pub open spec fn writes_list(ts: Seq<TokenView>, pos: nat, list: Seq<StmtView>, from: int) -> bool
    decreases list, list.len() - from,
{
    if 0 <= from < list.len() {
        writes_stmt(ts, pos, list[from]) && writes_list(
            ts,
            pos + stmt_width(list[from]),
            list,
            from + 1,
        )
    } else {
        true
    }
}

/// Whether a parse that began at `pos` read what its expression is written
/// with, and nothing past the last token.
pub open spec fn reads_expr(
    ts: Seq<TokenView>,
    pos: nat,
    parsed: Result<(ExprView, nat), ParseErrorView>,
) -> bool {
    match parsed {
        Ok((expr, taken)) => taken == expr_width(expr) && writes_expr(ts, pos, expr) && pos + taken
            <= ts.len(),
        Err(_) => true,
    }
}

proof fn primary_reads_what_is_written(ts: Seq<TokenView>, pos: nat)
    ensures
        reads_expr(ts, pos, primary(ts, pos)),
    decreases remaining(ts, pos), 0nat,
{
    if kind_at(ts, pos) == TokenType::LEFTPAREN {
        expression_reads_what_is_written(ts, pos + 1);
    }
}

proof fn unary_reads_what_is_written(ts: Seq<TokenView>, pos: nat)
    ensures
        reads_expr(ts, pos, unary(ts, pos)),
    decreases remaining(ts, pos), 1nat,
{
    if kind_at(ts, pos) == TokenType::BANG || kind_at(ts, pos) == TokenType::MINUS {
        unary_reads_what_is_written(ts, pos + 1);
    } else {
        primary_reads_what_is_written(ts, pos);
    }
}

proof fn operand_reads_what_is_written(ts: Seq<TokenView>, pos: nat, level: Level)
    ensures
        reads_expr(ts, pos, operand(ts, pos, level)),
    decreases remaining(ts, pos), 2 * rank(level),
{
    match level {
        Level::Factor => unary_reads_what_is_written(ts, pos),
        Level::Term => binary_reads_what_is_written(ts, pos, Level::Factor),
        Level::Comparison => binary_reads_what_is_written(ts, pos, Level::Term),
        Level::Equality => binary_reads_what_is_written(ts, pos, Level::Comparison),
    }
}

proof fn climb_reads_what_is_written(
    ts: Seq<TokenView>,
    start: nat,
    pos: nat,
    left: ExprView,
    level: Level,
)
    requires
        writes_expr(ts, start, left),
        start + expr_width(left) == pos,
        pos <= ts.len(),
    ensures
        match climb(ts, pos, left, level) {
            Ok((whole, taken)) => writes_expr(ts, start, whole) && expr_width(whole) == pos - start
                + taken && pos + taken <= ts.len(),
            Err(_) => true,
        },
    decreases remaining(ts, pos), 2 * rank(level),
{
    if joins(level, kind_at(ts, pos)) {
        operand_reads_what_is_written(ts, pos + 1, level);
        match operand(ts, pos + 1, level) {
            Ok((right, n)) => {
                let joined = ExprView::Binary {
                    left: Box::new(left),
                    operator: ts[pos as int],
                    right: Box::new(right),
                };
                assert(writes_expr(ts, start, joined));
                climb_reads_what_is_written(ts, start, pos + 1 + n, joined, level);
            },
            Err(_) => {},
        }
    }
}

proof fn binary_reads_what_is_written(ts: Seq<TokenView>, pos: nat, level: Level)
    ensures
        reads_expr(ts, pos, binary(ts, pos, level)),
    decreases remaining(ts, pos), 2 * rank(level) + 1,
{
    operand_reads_what_is_written(ts, pos, level);
    match operand(ts, pos, level) {
        Ok((left, n)) => {
            climb_reads_what_is_written(ts, pos, pos + n, left, level);
        },
        Err(_) => {},
    }
}

proof fn assignment_reads_what_is_written(ts: Seq<TokenView>, pos: nat)
    ensures
        reads_expr(ts, pos, assignment(ts, pos)),
    decreases remaining(ts, pos), 10nat,
{
    if kind_at(ts, pos) == TokenType::IDENTIFIER && kind_at(ts, pos + 1) == TokenType::ASSIGN {
        assignment_reads_what_is_written(ts, pos + 2);
    } else {
        binary_reads_what_is_written(ts, pos, Level::Equality);
    }
}

/// The expression that a parse yields is written by the tokens that the
/// parse took, in their order: the parser invents no token, drops none and
/// moves none.
pub proof fn expression_reads_what_is_written(ts: Seq<TokenView>, pos: nat)
    ensures
        reads_expr(ts, pos, expression(ts, pos)),
    decreases remaining(ts, pos), 11nat,
{
    assignment_reads_what_is_written(ts, pos);
}

proof fn lemma_behind_first(
    ts: Seq<TokenView>,
    pos: nat,
    first: StmtView,
    rest: Seq<StmtView>,
    from: int,
)
    requires
        0 <= from,
    ensures
        list_width(seq![first] + rest, from + 1) == list_width(rest, from),
        writes_list(ts, pos, seq![first] + rest, from + 1) == writes_list(ts, pos, rest, from),
    decreases rest.len() - from,
{
    let list = seq![first] + rest;
    if from < rest.len() {
        assert(list[from + 1] == rest[from]);
        lemma_behind_first(ts, pos + stmt_width(rest[from]), first, rest, from + 1);
        lemma_behind_first(ts, pos, first, rest, from + 1);
    }
}

proof fn lemma_first_and_rest(ts: Seq<TokenView>, pos: nat, first: StmtView, rest: Seq<StmtView>)
    requires
        writes_stmt(ts, pos, first),
        writes_list(ts, pos + stmt_width(first), rest, 0),
    ensures
        writes_list(ts, pos, seq![first] + rest, 0),
        list_width(seq![first] + rest, 0) == stmt_width(first) + list_width(rest, 0),
{
    let list = seq![first] + rest;
    assert(list.len() > 0 && list[0] == first);
    lemma_behind_first(ts, pos + stmt_width(first), first, rest, 0);
}

/// The statement that a parse yields is written by the tokens that the
/// parse took.
pub proof fn statement_reads_what_is_written(ts: Seq<TokenView>, pos: nat)
    ensures
        match statement(ts, pos) {
            Ok((stmt, more)) => stmt_width(stmt) == 1 + more && writes_stmt(ts, pos, stmt) && pos
                + 1 + more <= ts.len(),
            Err(_) => true,
        },
    decreases remaining(ts, pos), 0nat,
{
    let kind = kind_at(ts, pos);
    if kind == TokenType::LEFTBRACE {
        statements_read_what_is_written(ts, pos + 1, true);
    } else if kind == TokenType::VAR {
        expression_reads_what_is_written(ts, pos + 3);
    } else if kind == TokenType::PRINT {
        expression_reads_what_is_written(ts, pos + 1);
    } else {
        expression_reads_what_is_written(ts, pos);
    }
}

/// The statements that a parse yields are written by the tokens that the
/// parse took, one behind the other; inside a block the closing brace
/// follows them, and outside of one the end of the input.
pub proof fn statements_read_what_is_written(ts: Seq<TokenView>, pos: nat, inside: bool)
    requires
        pos <= ts.len(),
    ensures
        match statements(ts, pos, inside) {
            Ok((list, taken)) => {
                &&& writes_list(ts, pos, list, 0)
                &&& pos + taken <= ts.len()
                &&& kind_at(ts, pos + list_width(list, 0)) == if inside {
                    TokenType::RIGHTBRACE
                } else {
                    TokenType::EOF
                }
                &&& taken == if inside {
                    list_width(list, 0) + 1
                } else {
                    list_width(list, 0)
                }
            },
            Err(_) => true,
        },
    decreases remaining(ts, pos), 1nat,
{
    let kind = kind_at(ts, pos);
    if kind == TokenType::EOF {
    } else if inside && kind == TokenType::RIGHTBRACE {
    } else {
        statement_reads_what_is_written(ts, pos);
        match statement(ts, pos) {
            Ok((first, more)) => {
                statements_read_what_is_written(ts, pos + 1 + more, inside);
                match statements(ts, pos + 1 + more, inside) {
                    Ok((rest, n)) => {
                        lemma_first_and_rest(ts, pos, first, rest);
                    },
                    Err(_) => {},
                }
            },
            Err(_) => {},
        }
    }
}

/// A program that parses is written by its tokens up to the end of the
/// input: nothing is left unread before it.
pub proof fn program_reads_what_is_written(ts: Seq<TokenView>, pos: nat)
    requires
        pos <= ts.len(),
    ensures
        match program(ts, pos) {
            Ok(list) => writes_list(ts, pos, list, 0) && kind_at(ts, pos + list_width(list, 0))
                == TokenType::EOF,
            Err(_) => true,
        },
{
    statements_read_what_is_written(ts, pos, false);
}

} // verus!

verus! {

/// How loosely the operator at the root of an expression binds: 0 for a
/// literal, a name or a grouping, 1 for a unary operator, 2 to 5 for the
/// levels of binary operators, 6 for an assignment.
pub open spec fn looseness(expr: ExprView) -> nat {
    match expr {
        ExprView::Unary { operator, right } => 1,
        ExprView::Binary { left, operator, right } => if joins(Level::Factor, operator.kind) {
            2
        } else if joins(Level::Term, operator.kind) {
            3
        } else if joins(Level::Comparison, operator.kind) {
            4
        } else {
            5
        },
        ExprView::Assign(name, value) => 6,
        _ => 0,
    }
}

/// Whether operators nest as precedence and associativity ask, everywhere
/// in the tree. A binary operator is one of the four levels; its left
/// operand binds at least as tightly as it does, so the operators of one
/// level associate to the left, and its right operand binds tighter. The
/// operand of a unary operator is unary or primary. Inside a grouping, and
/// on the right of an assignment, any expression may stand.
pub open spec fn nests_by_precedence(expr: ExprView) -> bool
    decreases expr,
{
    match expr {
        ExprView::Grouping(inner) => nests_by_precedence(*inner),
        ExprView::Unary { operator, right } => looseness(*right) <= 1 && nests_by_precedence(*right),
        ExprView::Binary { left, operator, right } => {
            &&& joins(Level::Factor, operator.kind) || joins(Level::Term, operator.kind) || joins(
                Level::Comparison,
                operator.kind,
            ) || joins(Level::Equality, operator.kind)
            &&& looseness(*left) <= looseness(expr)
            &&& looseness(*right) < looseness(expr)
            &&& nests_by_precedence(*left)
            &&& nests_by_precedence(*right)
        },
        ExprView::Assign(name, value) => nests_by_precedence(*value),
        _ => true,
    }
}

/// Whether a parse gave an expression that nests by precedence and binds no
/// looser than `bound`.
pub open spec fn nests(parsed: Result<(ExprView, nat), ParseErrorView>, bound: nat) -> bool {
    match parsed {
        Ok((expr, taken)) => nests_by_precedence(expr) && looseness(expr) <= bound,
        Err(_) => true,
    }
}

proof fn primary_nests(ts: Seq<TokenView>, pos: nat)
    ensures
        nests(primary(ts, pos), 0),
    decreases remaining(ts, pos), 0nat,
{
    if kind_at(ts, pos) == TokenType::LEFTPAREN {
        expression_nests_by_precedence(ts, pos + 1);
    }
}

proof fn unary_nests(ts: Seq<TokenView>, pos: nat)
    ensures
        nests(unary(ts, pos), 1),
    decreases remaining(ts, pos), 1nat,
{
    if kind_at(ts, pos) == TokenType::BANG || kind_at(ts, pos) == TokenType::MINUS {
        unary_nests(ts, pos + 1);
    } else {
        primary_nests(ts, pos);
    }
}

proof fn operand_nests(ts: Seq<TokenView>, pos: nat, level: Level)
    ensures
        nests(operand(ts, pos, level), rank(level)),
    decreases remaining(ts, pos), 2 * rank(level),
{
    match level {
        Level::Factor => unary_nests(ts, pos),
        Level::Term => binary_nests(ts, pos, Level::Factor),
        Level::Comparison => binary_nests(ts, pos, Level::Term),
        Level::Equality => binary_nests(ts, pos, Level::Comparison),
    }
}

proof fn climb_nests(ts: Seq<TokenView>, pos: nat, left: ExprView, level: Level)
    requires
        nests_by_precedence(left),
        looseness(left) <= rank(level) + 1,
    ensures
        nests(climb(ts, pos, left, level), rank(level) + 1),
    decreases remaining(ts, pos), 2 * rank(level),
{
    if joins(level, kind_at(ts, pos)) {
        operand_nests(ts, pos + 1, level);
        match operand(ts, pos + 1, level) {
            Ok((right, n)) => {
                let joined = ExprView::Binary {
                    left: Box::new(left),
                    operator: ts[pos as int],
                    right: Box::new(right),
                };
                assert(looseness(joined) == rank(level) + 1);
                climb_nests(ts, pos + 1 + n, joined, level);
            },
            Err(_) => {},
        }
    }
}

proof fn binary_nests(ts: Seq<TokenView>, pos: nat, level: Level)
    ensures
        nests(binary(ts, pos, level), rank(level) + 1),
    decreases remaining(ts, pos), 2 * rank(level) + 1,
{
    operand_nests(ts, pos, level);
    match operand(ts, pos, level) {
        Ok((left, n)) => {
            climb_nests(ts, pos + n, left, level);
        },
        Err(_) => {},
    }
}

proof fn assignment_nests(ts: Seq<TokenView>, pos: nat)
    ensures
        nests(assignment(ts, pos), 6),
    decreases remaining(ts, pos), 10nat,
{
    if kind_at(ts, pos) == TokenType::IDENTIFIER && kind_at(ts, pos + 1) == TokenType::ASSIGN {
        assignment_nests(ts, pos + 2);
    } else {
        binary_nests(ts, pos, Level::Equality);
    }
}

/// Every expression that a parse yields nests by precedence: binary
/// operators associate to the left, unary operators and assignments to the
/// right, and an operator that binds looser stands under one that binds
/// tighter only inside parentheses.
pub proof fn expression_nests_by_precedence(ts: Seq<TokenView>, pos: nat)
    ensures
        match expression(ts, pos) {
            Ok((expr, taken)) => nests_by_precedence(expr),
            Err(_) => true,
        },
    decreases remaining(ts, pos), 11nat,
{
    assignment_nests(ts, pos);
}

} // verus!
