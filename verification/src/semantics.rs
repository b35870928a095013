use crate::environment::{
    assigned, assignment_declares_nothing, assignment_reaches_enclosing_scope, defined, lookup,
    resolve, resolve_reads_names, same_names, undefined_variable,
};
use crate::expr::ExprView;
use crate::interpreter::{InterpreterStatus, RuntimeErrorView, ValueView};
use crate::number::{Arithmetic, Number};
use crate::stmt::StmtView;
use crate::token::{TokenType, TokenView};
use vstd::prelude::*;

verus! {

/// Only nil and false count as false.
pub open spec fn truthy(value: ValueView) -> bool {
    match value {
        ValueView::Nil => false,
        ValueView::Bool(b) => b,
        _ => true,
    }
}

/// Equality of the language. Values of different kinds are never equal; two
/// numbers are equal when the magnitude of their difference, as the
/// arithmetic `ar` gives it, lies below the machine epsilon.
pub open spec fn values_equal(
    ar: spec_fn(Arithmetic, Number, Number) -> Number,
    left: ValueView,
    right: ValueView,
) -> bool {
    match (left, right) {
        (ValueView::Nil, ValueView::Nil) => true,
        (ValueView::Bool(a), ValueView::Bool(b)) => a == b,
        (ValueView::Number(a), ValueView::Number(b)) => ar(Arithmetic::Subtract, a, b).negligible(),
        (ValueView::Text(a), ValueView::Text(b)) => a == b,
        _ => false,
    }
}

/// The runtime error that names `operator` as the offending token.
pub open spec fn failure(operator: TokenView, message: Seq<char>) -> RuntimeErrorView {
    RuntimeErrorView { token: operator.lexeme, message, line: operator.line }
}

/// What a unary operator makes of the value of its operand.
pub open spec fn unary_result(operator: TokenView, value: ValueView) -> Result<
    ValueView,
    RuntimeErrorView,
> {
    match operator.kind {
        TokenType::BANG => Ok(ValueView::Bool(!truthy(value))),
        TokenType::MINUS => match value {
            ValueView::Number(n) => Ok(ValueView::Number(n.opposite())),
            _ => Err(failure(operator, "Operand must be a number."@)),
        },
        _ => Err(failure(operator, "Invalid operator found in unary expression"@)),
    }
}

/// What an operator that takes two numbers makes of two values.
pub open spec fn numeric_result(
    ar: spec_fn(Arithmetic, Number, Number) -> Number,
    operator: TokenView,
    a: Number,
    b: Number,
) -> ValueView {
    match operator.kind {
        TokenType::GREATER => ValueView::Bool(b.precedes(a)),
        TokenType::GREATEREQUAL => ValueView::Bool(b.precedes_or_meets(a)),
        TokenType::LESS => ValueView::Bool(a.precedes(b)),
        TokenType::LESSEQUAL => ValueView::Bool(a.precedes_or_meets(b)),
        TokenType::MINUS => ValueView::Number(ar(Arithmetic::Subtract, a, b)),
        TokenType::SLASH => ValueView::Number(ar(Arithmetic::Divide, a, b)),
        _ => ValueView::Number(ar(Arithmetic::Multiply, a, b)),
    }
}

/// What a binary operator makes of the values of its operands.
pub open spec fn binary_result(
    ar: spec_fn(Arithmetic, Number, Number) -> Number,
    operator: TokenView,
    left: ValueView,
    right: ValueView,
) -> Result<ValueView, RuntimeErrorView> {
    match operator.kind {
        TokenType::GREATER
        | TokenType::GREATEREQUAL
        | TokenType::LESS
        | TokenType::LESSEQUAL
        | TokenType::MINUS
        | TokenType::SLASH
        | TokenType::STAR => match (left, right) {
            (ValueView::Number(a), ValueView::Number(b)) => Ok(numeric_result(ar, operator, a, b)),
            _ => Err(failure(operator, "Operands must be numbers"@)),
        },
        TokenType::PLUS => match (left, right) {
            (ValueView::Number(a), ValueView::Number(b)) => Ok(
                ValueView::Number(ar(Arithmetic::Add, a, b)),
            ),
            (ValueView::Text(a), ValueView::Text(b)) => Ok(ValueView::Text(a + b)),
            _ => Err(failure(operator, "Operands must be two numbers or two strings."@)),
        },
        TokenType::NOTEQUAL => Ok(ValueView::Bool(!values_equal(ar, left, right))),
        TokenType::EQUAL => Ok(ValueView::Bool(values_equal(ar, left, right))),
        _ => Err(failure(operator, "Unrecognized binary operator."@)),
    }
}

/// The outcome of evaluating an expression: its value or the first failure,
/// and the scopes as evaluation left them.
pub struct Evaluation {
    pub result: Result<ValueView, RuntimeErrorView>,
    pub scopes: Seq<Map<Seq<char>, ValueView>>,
}

/// The meaning of an expression in a chain of scopes. Operands are
/// evaluated from left to right, and the first failure ends the evaluation;
/// assignments made before it stay.
pub open spec fn evaluation(
    ar: spec_fn(Arithmetic, Number, Number) -> Number,
    scopes: Seq<Map<Seq<char>, ValueView>>,
    expr: ExprView,
) -> Evaluation
    decreases expr,
{
    match expr {
        ExprView::Bool(b) => Evaluation { result: Ok(ValueView::Bool(b)), scopes },
        ExprView::Number(n) => Evaluation { result: Ok(ValueView::Number(n)), scopes },
        ExprView::Text(s) => Evaluation { result: Ok(ValueView::Text(s)), scopes },
        ExprView::Nil => Evaluation { result: Ok(ValueView::Nil), scopes },
        ExprView::Grouping(inner) => evaluation(ar, scopes, *inner),
        ExprView::Unary { operator, right } => {
            let operand = evaluation(ar, scopes, *right);
            match operand.result {
                Ok(value) => Evaluation {
                    result: unary_result(operator, value),
                    scopes: operand.scopes,
                },
                Err(_) => operand,
            }
        },
        ExprView::Binary { left, operator, right } => {
            let first = evaluation(ar, scopes, *left);
            match first.result {
                Ok(a) => {
                    let second = evaluation(ar, first.scopes, *right);
                    match second.result {
                        Ok(b) => Evaluation {
                            result: binary_result(ar, operator, a, b),
                            scopes: second.scopes,
                        },
                        Err(_) => second,
                    }
                },
                Err(_) => first,
            }
        },
        ExprView::Variable(name) => Evaluation {
            result: match lookup(scopes, name.lexeme) {
                Some(value) => Ok(value),
                None => Err(undefined_variable(name)),
            },
            scopes,
        },
        ExprView::Assign(name, value) => {
            let source = evaluation(ar, scopes, *value);
            match source.result {
                Ok(v) => match assigned(source.scopes, name.lexeme, v) {
                    Some(after) => Evaluation { result: Ok(v), scopes: after },
                    None => Evaluation {
                        result: Err(undefined_variable(name)),
                        scopes: source.scopes,
                    },
                },
                Err(_) => source,
            }
        },
    }
}

/// The outcome of running statements: success or the first failure, the
/// scopes as the run left them, and every value printed so far.
pub struct Execution {
    pub result: Result<(), RuntimeErrorView>,
    pub scopes: Seq<Map<Seq<char>, ValueView>>,
    pub output: Seq<ValueView>,
}

/// The meaning of one statement. A block runs in a fresh innermost scope,
/// which is discarded when the block ends, however it ends.
pub open spec fn execution(
    ar: spec_fn(Arithmetic, Number, Number) -> Number,
    status: InterpreterStatus,
    scopes: Seq<Map<Seq<char>, ValueView>>,
    output: Seq<ValueView>,
    stmt: StmtView,
) -> Execution
    decreases stmt, 0nat,
{
    match stmt {
        StmtView::Expression(expr) => {
            let ev = evaluation(ar, scopes, expr);
            match ev.result {
                Ok(value) => Execution {
                    result: Ok(()),
                    scopes: ev.scopes,
                    output: if status == InterpreterStatus::Evaluate {
                        output.push(value)
                    } else {
                        output
                    },
                },
                Err(e) => Execution { result: Err(e), scopes: ev.scopes, output },
            }
        },
        StmtView::Print(expr) => {
            let ev = evaluation(ar, scopes, expr);
            match ev.result {
                Ok(value) => Execution {
                    result: Ok(()),
                    scopes: ev.scopes,
                    output: output.push(value),
                },
                Err(e) => Execution { result: Err(e), scopes: ev.scopes, output },
            }
        },
        StmtView::Var(name, initializer) => {
            let ev = evaluation(ar, scopes, initializer);
            match ev.result {
                Ok(value) => Execution {
                    result: Ok(()),
                    scopes: defined(ev.scopes, name.lexeme, value),
                    output,
                },
                Err(e) => Execution { result: Err(e), scopes: ev.scopes, output },
            }
        },
        StmtView::Block(statements) => {
            let inner = execution_from(ar, status, scopes.push(Map::empty()), output, statements, 0);
            Execution { result: inner.result, scopes: inner.scopes.drop_last(), output: inner.output }
        },
    }
}

/// The meaning of the statements from position `from` on, in order: the
/// first failure ends the run.
pub open spec fn execution_from(
    ar: spec_fn(Arithmetic, Number, Number) -> Number,
    status: InterpreterStatus,
    scopes: Seq<Map<Seq<char>, ValueView>>,
    output: Seq<ValueView>,
    statements: Seq<StmtView>,
    from: int,
) -> Execution
    decreases statements, statements.len() - from,
{
    if 0 <= from < statements.len() {
        let first = execution(ar, status, scopes, output, statements[from]);
        match first.result {
            Ok(_) => execution_from(ar, status, first.scopes, first.output, statements, from + 1),
            Err(_) => first,
        }
    } else {
        Execution { result: Ok(()), scopes, output }
    }
}

} // verus!

verus! {

/// Truthiness: nil and false are the only values that count as false, so
/// the number zero and the empty string count as true.
pub proof fn only_nil_and_false_are_falsy(value: ValueView)
    ensures
        !truthy(value) <==> (value is Nil || value == ValueView::Bool(false)),
{
}

/// Values of different kinds are never equal.
pub proof fn equality_is_false_across_kinds(
    ar: spec_fn(Arithmetic, Number, Number) -> Number,
    left: ValueView,
    right: ValueView,
)
    requires
        !(left is Nil && right is Nil),
        !(left is Bool && right is Bool),
        !(left is Number && right is Number),
        !(left is Text && right is Text),
    ensures
        !values_equal(ar, left, right),
{
}

/// Equality is reflexive: every value that is no number equals itself, and
/// a number does where the arithmetic gives a zero for its difference with
/// itself.
pub proof fn equality_is_reflexive(
    ar: spec_fn(Arithmetic, Number, Number) -> Number,
    value: ValueView,
)
    requires
        value matches ValueView::Number(n) ==> ar(Arithmetic::Subtract, n, n).magnitude() == 0,
    ensures
        values_equal(ar, value, value),
{
}

/// Equality is symmetric: for values that are no numbers always, and for
/// two numbers where the arithmetic gives opposite differences for the two
/// orders.
pub proof fn equality_is_symmetric(
    ar: spec_fn(Arithmetic, Number, Number) -> Number,
    left: ValueView,
    right: ValueView,
)
    requires
        (left matches ValueView::Number(a) && right matches ValueView::Number(b)) ==> ar(
            Arithmetic::Subtract,
            left->Number_0,
            right->Number_0,
        ).magnitude() == ar(Arithmetic::Subtract, right->Number_0, left->Number_0).magnitude(),
    ensures
        values_equal(ar, left, right) == values_equal(ar, right, left),
{
}

/// `+` joins two strings, and joining is associative: the order in which
/// three strings are joined does not matter.
pub proof fn concatenation_is_associative(
    ar: spec_fn(Arithmetic, Number, Number) -> Number,
    operator: TokenView,
    a: Seq<char>,
    b: Seq<char>,
    c: Seq<char>,
)
    requires
        operator.kind == TokenType::PLUS,
    ensures
        binary_result(ar, operator, ValueView::Text(a), ValueView::Text(b)) == Ok::<
            ValueView,
            RuntimeErrorView,
        >(ValueView::Text(a + b)),
        binary_result(ar, operator, ValueView::Text(a + b), ValueView::Text(c)) == binary_result(
            ar,
            operator,
            ValueView::Text(a),
            ValueView::Text(b + c),
        ),
{
    assert((a + b) + c =~= a + (b + c));
}

/// `+` takes two numbers or two strings and fails on every other pair of
/// operands, a number with a string among them.
pub proof fn addition_is_type_checked(
    ar: spec_fn(Arithmetic, Number, Number) -> Number,
    operator: TokenView,
    left: ValueView,
    right: ValueView,
)
    requires
        operator.kind == TokenType::PLUS,
    ensures
        binary_result(ar, operator, left, right) is Ok <==> (left is Number && right is Number) || (
        left is Text && right is Text),
        binary_result(ar, operator, left, right) is Err ==> binary_result(
            ar,
            operator,
            left,
            right,
        ) == Err::<ValueView, RuntimeErrorView>(
            failure(operator, "Operands must be two numbers or two strings."@),
        ),
{
}

/// On two numbers the four arithmetic operators yield the number that the
/// arithmetic gives for them, whatever the numbers are.
pub proof fn arithmetic_is_deferred(
    ar: spec_fn(Arithmetic, Number, Number) -> Number,
    operator: TokenView,
    a: Number,
    b: Number,
)
    ensures
        operator.kind == TokenType::PLUS ==> binary_result(
            ar,
            operator,
            ValueView::Number(a),
            ValueView::Number(b),
        ) == Ok::<ValueView, RuntimeErrorView>(ValueView::Number(ar(Arithmetic::Add, a, b))),
        operator.kind == TokenType::MINUS ==> binary_result(
            ar,
            operator,
            ValueView::Number(a),
            ValueView::Number(b),
        ) == Ok::<ValueView, RuntimeErrorView>(ValueView::Number(ar(Arithmetic::Subtract, a, b))),
        operator.kind == TokenType::STAR ==> binary_result(
            ar,
            operator,
            ValueView::Number(a),
            ValueView::Number(b),
        ) == Ok::<ValueView, RuntimeErrorView>(ValueView::Number(ar(Arithmetic::Multiply, a, b))),
        operator.kind == TokenType::SLASH ==> binary_result(
            ar,
            operator,
            ValueView::Number(a),
            ValueView::Number(b),
        ) == Ok::<ValueView, RuntimeErrorView>(ValueView::Number(ar(Arithmetic::Divide, a, b))),
{
}

/// Evaluation binds no name and drops none: every scope keeps its names.
pub proof fn evaluation_keeps_names(
    ar: spec_fn(Arithmetic, Number, Number) -> Number,
    scopes: Seq<Map<Seq<char>, ValueView>>,
    expr: ExprView,
)
    ensures
        same_names(scopes, evaluation(ar, scopes, expr).scopes),
    decreases expr,
{
    match expr {
        ExprView::Grouping(inner) => {
            evaluation_keeps_names(ar, scopes, *inner);
        },
        ExprView::Unary { operator, right } => {
            evaluation_keeps_names(ar, scopes, *right);
        },
        ExprView::Binary { left, operator, right } => {
            evaluation_keeps_names(ar, scopes, *left);
            let first = evaluation(ar, scopes, *left);
            evaluation_keeps_names(ar, first.scopes, *right);
            let second = evaluation(ar, first.scopes, *right);
            assert forall|i: int| 0 <= i < scopes.len() implies #[trigger] scopes[i].dom()
                == second.scopes[i].dom() by {
                assert(scopes[i].dom() == first.scopes[i].dom());
                assert(first.scopes[i].dom() == second.scopes[i].dom());
            }
        },
        ExprView::Assign(name, value) => {
            evaluation_keeps_names(ar, scopes, *value);
            let source = evaluation(ar, scopes, *value);
            match source.result {
                Ok(v) => {
                    assignment_declares_nothing(source.scopes, name.lexeme, v);
                    match assigned(source.scopes, name.lexeme, v) {
                        Some(after) => {
                            assert forall|i: int| 0 <= i < scopes.len() implies #[trigger] scopes[i].dom()
                                == after[i].dom() by {
                                assert(scopes[i].dom() == source.scopes[i].dom());
                                assert(source.scopes[i].dom() == after[i].dom());
                            }
                        },
                        None => {},
                    }
                },
                Err(_) => {},
            }
        },
        _ => {},
    }
}

/// Whether `after` has the scopes of `before`, each enclosing scope with
/// the names it had: the innermost scope alone may have names of its own.
pub open spec fn same_enclosing_names(
    before: Seq<Map<Seq<char>, ValueView>>,
    after: Seq<Map<Seq<char>, ValueView>>,
) -> bool {
    &&& before.len() == after.len()
    &&& forall|i: int| 0 <= i < before.len() - 1 ==> #[trigger] before[i].dom() == after[i].dom()
}

/// A statement binds names in the innermost scope only.
pub proof fn execution_keeps_enclosing_names(
    ar: spec_fn(Arithmetic, Number, Number) -> Number,
    status: InterpreterStatus,
    scopes: Seq<Map<Seq<char>, ValueView>>,
    output: Seq<ValueView>,
    stmt: StmtView,
)
    requires
        scopes.len() > 0,
    ensures
        same_enclosing_names(scopes, execution(ar, status, scopes, output, stmt).scopes),
    decreases stmt, 0nat,
{
    match stmt {
        StmtView::Expression(expr) => {
            evaluation_keeps_names(ar, scopes, expr);
        },
        StmtView::Print(expr) => {
            evaluation_keeps_names(ar, scopes, expr);
        },
        StmtView::Var(name, initializer) => {
            evaluation_keeps_names(ar, scopes, initializer);
            let ev = evaluation(ar, scopes, initializer);
            let after = execution(ar, status, scopes, output, stmt).scopes;
            assert forall|i: int| 0 <= i < scopes.len() - 1 implies #[trigger] scopes[i].dom()
                == after[i].dom() by {
                assert(scopes[i].dom() == ev.scopes[i].dom());
            }
        },
        StmtView::Block(statements) => {
            block_keeps_names(ar, status, scopes, output, statements);
        },
    }
}

/// A run of statements binds names in the innermost scope only.
pub proof fn execution_from_keeps_enclosing_names(
    ar: spec_fn(Arithmetic, Number, Number) -> Number,
    status: InterpreterStatus,
    scopes: Seq<Map<Seq<char>, ValueView>>,
    output: Seq<ValueView>,
    statements: Seq<StmtView>,
    from: int,
)
    requires
        scopes.len() > 0,
    ensures
        same_enclosing_names(
            scopes,
            execution_from(ar, status, scopes, output, statements, from).scopes,
        ),
    decreases statements, statements.len() - from,
{
    if 0 <= from < statements.len() {
        let first = execution(ar, status, scopes, output, statements[from]);
        execution_keeps_enclosing_names(ar, status, scopes, output, statements[from]);
        match first.result {
            Ok(_) => {
                execution_from_keeps_enclosing_names(
                    ar,
                    status,
                    first.scopes,
                    first.output,
                    statements,
                    from + 1,
                );
                let last = execution_from(
                    ar,
                    status,
                    first.scopes,
                    first.output,
                    statements,
                    from + 1,
                ).scopes;
                assert forall|i: int| 0 <= i < scopes.len() - 1 implies #[trigger] scopes[i].dom()
                    == last[i].dom() by {
                    assert(scopes[i].dom() == first.scopes[i].dom());
                    assert(first.scopes[i].dom() == last[i].dom());
                }
            },
            Err(_) => {},
        }
    }
}

/// What a block declares is gone when the block ends, however it ends:
/// every scope has the names it had before the block, so a name resolves
/// after the block to the scope it resolved to before, or to none.
pub proof fn block_keeps_names(
    ar: spec_fn(Arithmetic, Number, Number) -> Number,
    status: InterpreterStatus,
    scopes: Seq<Map<Seq<char>, ValueView>>,
    output: Seq<ValueView>,
    statements: Seq<StmtView>,
)
    ensures
        same_names(
            scopes,
            execution(ar, status, scopes, output, StmtView::Block(statements)).scopes,
        ),
        forall|name: Seq<char>|
            resolve(
                #[trigger] execution(ar, status, scopes, output, StmtView::Block(statements)).scopes,
                name,
            ) == resolve(scopes, name),
    decreases statements, statements.len() + 1,
{
    let entered = scopes.push(Map::empty());
    let inner = execution_from(ar, status, entered, output, statements, 0);
    let after = execution(ar, status, scopes, output, StmtView::Block(statements)).scopes;
    execution_from_keeps_enclosing_names(ar, status, entered, output, statements, 0);
    assert(after == inner.scopes.drop_last());
    assert forall|i: int| 0 <= i < scopes.len() implies #[trigger] scopes[i].dom()
        == after[i].dom() by {
        assert(entered[i] == scopes[i]);
        assert(entered[i].dom() == inner.scopes[i].dom());
    }
    assert forall|name: Seq<char>| resolve(after, name) == resolve(scopes, name) by {
        resolve_reads_names(after, scopes, name);
    }
}

/// Reading a name that no scope defines fails with the error that names it.
pub proof fn undefined_read_fails(
    ar: spec_fn(Arithmetic, Number, Number) -> Number,
    scopes: Seq<Map<Seq<char>, ValueView>>,
    name: TokenView,
)
    requires
        lookup(scopes, name.lexeme) is None,
    ensures
        evaluation(ar, scopes, ExprView::Variable(name)) == (Evaluation {
            result: Err(undefined_variable(name)),
            scopes,
        }),
        undefined_variable(name).token == name.lexeme,
{
}

/// Assigning to a name that no scope defines fails: with the error of the
/// right-hand side where that fails, else with the error that names the
/// variable. Either way the name stays undefined.
pub proof fn undefined_assignment_fails(
    ar: spec_fn(Arithmetic, Number, Number) -> Number,
    scopes: Seq<Map<Seq<char>, ValueView>>,
    name: TokenView,
    value: ExprView,
)
    requires
        lookup(scopes, name.lexeme) is None,
    ensures
        ({
            let source = evaluation(ar, scopes, value);
            let whole = evaluation(ar, scopes, ExprView::Assign(name, Box::new(value)));
            &&& whole.scopes == source.scopes
            &&& whole.result == match source.result {
                Ok(_) => Err::<ValueView, RuntimeErrorView>(undefined_variable(name)),
                Err(e) => Err(e),
            }
            &&& lookup(whole.scopes, name.lexeme) is None
        }),
{
    let source = evaluation(ar, scopes, value);
    evaluation_keeps_names(ar, scopes, value);
    resolve_reads_names(scopes, source.scopes, name.lexeme);
}

} // verus!

verus! {

/// What is printed stays printed: a statement adds to the output and takes
/// nothing back, also where it fails.
pub proof fn execution_extends_output(
    ar: spec_fn(Arithmetic, Number, Number) -> Number,
    status: InterpreterStatus,
    scopes: Seq<Map<Seq<char>, ValueView>>,
    output: Seq<ValueView>,
    stmt: StmtView,
)
    ensures
        output.is_prefix_of(execution(ar, status, scopes, output, stmt).output),
    decreases stmt, 0nat,
{
    match stmt {
        StmtView::Block(statements) => {
            execution_from_extends_output(
                ar,
                status,
                scopes.push(Map::empty()),
                output,
                statements,
                0,
            );
        },
        _ => {},
    }
}

/// What is printed stays printed through a run of statements, and the
/// first failure ends the run: nothing is printed after it.
pub proof fn execution_from_extends_output(
    ar: spec_fn(Arithmetic, Number, Number) -> Number,
    status: InterpreterStatus,
    scopes: Seq<Map<Seq<char>, ValueView>>,
    output: Seq<ValueView>,
    statements: Seq<StmtView>,
    from: int,
)
    ensures
        output.is_prefix_of(execution_from(ar, status, scopes, output, statements, from).output),
        0 <= from < statements.len() && execution(
            ar,
            status,
            scopes,
            output,
            statements[from],
        ).result is Err ==> execution_from(ar, status, scopes, output, statements, from)
            == execution(ar, status, scopes, output, statements[from]),
    decreases statements, statements.len() - from,
{
    if 0 <= from < statements.len() {
        let first = execution(ar, status, scopes, output, statements[from]);
        execution_extends_output(ar, status, scopes, output, statements[from]);
        match first.result {
            Ok(_) => {
                execution_from_extends_output(
                    ar,
                    status,
                    first.scopes,
                    first.output,
                    statements,
                    from + 1,
                );
            },
            Err(_) => {},
        }
    }
}

/// The mode decides what is printed and nothing else: in both modes a
/// statement ends the same way and leaves the same scopes.
pub proof fn status_decides_output_only(
    ar: spec_fn(Arithmetic, Number, Number) -> Number,
    scopes: Seq<Map<Seq<char>, ValueView>>,
    first: Seq<ValueView>,
    second: Seq<ValueView>,
    stmt: StmtView,
)
    ensures
        execution(ar, InterpreterStatus::Evaluate, scopes, first, stmt).result == execution(
            ar,
            InterpreterStatus::Run,
            scopes,
            second,
            stmt,
        ).result,
        execution(ar, InterpreterStatus::Evaluate, scopes, first, stmt).scopes == execution(
            ar,
            InterpreterStatus::Run,
            scopes,
            second,
            stmt,
        ).scopes,
    decreases stmt, 0nat,
{
    match stmt {
        StmtView::Block(statements) => {
            status_decides_output_only_from(
                ar,
                scopes.push(Map::empty()),
                first,
                second,
                statements,
                0,
            );
        },
        _ => {},
    }
}

/// The mode decides what a run of statements prints and nothing else.
pub proof fn status_decides_output_only_from(
    ar: spec_fn(Arithmetic, Number, Number) -> Number,
    scopes: Seq<Map<Seq<char>, ValueView>>,
    first: Seq<ValueView>,
    second: Seq<ValueView>,
    statements: Seq<StmtView>,
    from: int,
)
    ensures
        execution_from(ar, InterpreterStatus::Evaluate, scopes, first, statements, from).result
            == execution_from(ar, InterpreterStatus::Run, scopes, second, statements, from).result,
        execution_from(ar, InterpreterStatus::Evaluate, scopes, first, statements, from).scopes
            == execution_from(ar, InterpreterStatus::Run, scopes, second, statements, from).scopes,
    decreases statements, statements.len() - from,
{
    if 0 <= from < statements.len() {
        status_decides_output_only(ar, scopes, first, second, statements[from]);
        let a = execution(ar, InterpreterStatus::Evaluate, scopes, first, statements[from]);
        let b = execution(ar, InterpreterStatus::Run, scopes, second, statements[from]);
        match a.result {
            Ok(_) => {
                status_decides_output_only_from(
                    ar,
                    a.scopes,
                    a.output,
                    b.output,
                    statements,
                    from + 1,
                );
            },
            Err(_) => {},
        }
    }
}

} // verus!

verus! {

/// An assignment made in a block to a name that an enclosing scope defines
/// changes that binding and declares nothing in the block: once the block
/// has ended, the name has the assigned value.
pub proof fn block_assignment_changes_outer_binding(
    ar: spec_fn(Arithmetic, Number, Number) -> Number,
    status: InterpreterStatus,
    scopes: Seq<Map<Seq<char>, ValueView>>,
    output: Seq<ValueView>,
    name: TokenView,
    value: ExprView,
)
    requires
        lookup(scopes, name.lexeme) is Some,
    ensures
        ({
            let source = evaluation(ar, scopes.push(Map::empty()), value);
            let after = execution(
                ar,
                status,
                scopes,
                output,
                StmtView::Block(
                    seq![StmtView::Expression(ExprView::Assign(name, Box::new(value)))],
                ),
            );
            source.result is Ok ==> {
                &&& after.result is Ok
                &&& lookup(after.scopes, name.lexeme) == Some(source.result->Ok_0)
                &&& same_names(scopes, after.scopes)
            }
        }),
{
    let entered = scopes.push(Map::empty());
    let source = evaluation(ar, entered, value);
    let assign = ExprView::Assign(name, Box::new(value));
    let list = seq![StmtView::Expression(assign)];
    let after = execution(ar, status, scopes, output, StmtView::Block(list));
    block_keeps_names(ar, status, scopes, output, list);
    if source.result is Ok {
        let v = source.result->Ok_0;
        evaluation_keeps_names(ar, entered, value);
        assert(entered.last().dom() == source.scopes.last().dom());
        assert(!source.scopes.last().contains_key(name.lexeme));
        assert forall|i: int| 0 <= i < scopes.len() implies #[trigger] scopes[i].dom()
            == source.scopes.drop_last()[i].dom() by {
            assert(entered[i] == scopes[i]);
            assert(entered[i].dom() == source.scopes[i].dom());
        }
        resolve_reads_names(scopes, source.scopes.drop_last(), name.lexeme);
        assignment_reaches_enclosing_scope(source.scopes, name.lexeme, v);
        let stored = assigned(source.scopes, name.lexeme, v)->0;
        let inner = execution_from(ar, status, entered, output, list, 0);
        let first = execution(ar, status, entered, output, list[0]);
        assert(evaluation(ar, entered, assign).scopes == stored);
        assert(first.scopes == stored && first.result is Ok);
        assert(inner == execution_from(ar, status, first.scopes, first.output, list, 1));
        assert(inner.scopes == stored);
        assert(after.scopes == stored.drop_last());
    }
}

} // verus!
