use crate::environment::{defined, Environment};
use crate::expr::Expr;
use crate::number::{
    calculate, calculation, is_calculator, is_notation, notation, write_number, Arithmetic, Number,
};
use crate::semantics::{
    binary_result, evaluation, execution, execution_from, failure, truthy, unary_result,
    values_equal,
};
use crate::stmt::{stmt_views, Stmt, StmtView};
use crate::text::{decimal, decimal_text};
use crate::token::{Token, TokenType};
use vstd::prelude::*;
use vstd::string::StringExecFns;

verus! {

/// A failure raised while a program runs: the text of the offending token,
/// what went wrong, and the source line.
#[derive(Debug, PartialEq)]
pub struct RuntimeError {
    pub token: String,
    pub message: String,
    pub line: usize,
}

/// What a runtime error holds.
pub struct RuntimeErrorView {
    pub token: Seq<char>,
    pub message: Seq<char>,
    pub line: usize,
}

impl View for RuntimeError {
    type V = RuntimeErrorView;

    open spec fn view(&self) -> RuntimeErrorView {
        RuntimeErrorView { token: self.token@, message: self.message@, line: self.line }
    }
}

/// Whether the value of an expression statement is printed (`Evaluate`) or
/// dropped (`Run`).
#[derive(Clone, Copy, Debug, PartialEq, Eq, Structural)]
pub enum InterpreterStatus {
    Evaluate,
    Run,
}

/// The mode that a name stands for: `evaluate` or `run`.
pub open spec fn status_named(name: Seq<char>) -> Option<InterpreterStatus> {
    if name == "evaluate"@ {
        Some(InterpreterStatus::Evaluate)
    } else if name == "run"@ {
        Some(InterpreterStatus::Run)
    } else {
        None
    }
}

impl InterpreterStatus {
    /// The mode of the given name. Every other text is refused.
    pub fn try_from(value: &str) -> (r: Result<Self, String>)
        ensures
            match r {
                Ok(status) => status_named(value@) == Some(status),
                Err(e) => status_named(value@) is None && e@
                    == "should only accept `evaluate` and `run` string values"@,
            },
    {
        let given = value.to_owned();
        if given == "evaluate".to_owned() {
            Ok(InterpreterStatus::Evaluate)
        } else if given == "run".to_owned() {
            Ok(InterpreterStatus::Run)
        } else {
            Err("should only accept `evaluate` and `run` string values".to_owned())
        }
    }
}

impl Default for InterpreterStatus {
    fn default() -> (r: Self)
        ensures
            r == InterpreterStatus::Evaluate,
    {
        InterpreterStatus::Evaluate
    }
}

/// A value that evaluation produces.
#[derive(Debug, PartialEq)]
pub enum ExprValue {
    Bool(bool),
    Number(Number),
    String(String),
    Nil,
}

/// What a value holds.
pub enum ValueView {
    Bool(bool),
    Number(Number),
    Text(Seq<char>),
    Nil,
}

impl View for ExprValue {
    type V = ValueView;

    open spec fn view(&self) -> ValueView {
        match self {
            ExprValue::Bool(b) => ValueView::Bool(*b),
            ExprValue::Number(n) => ValueView::Number(*n),
            ExprValue::String(s) => ValueView::Text(s@),
            ExprValue::Nil => ValueView::Nil,
        }
    }
}

impl Clone for ExprValue {
    fn clone(&self) -> (r: Self)
        ensures
            r == *self,
    {
        match self {
            ExprValue::Bool(b) => ExprValue::Bool(*b),
            ExprValue::Number(n) => ExprValue::Number(*n),
            ExprValue::String(s) => ExprValue::String(s.clone()),
            ExprValue::Nil => ExprValue::Nil,
        }
    }
}

} // verus!

verus! {

/// The views of a list of values, in order.
pub open spec fn value_views(values: Seq<ExprValue>) -> Seq<ValueView> {
    values.map_values(|v: ExprValue| v@)
}

/// The view of what an evaluation returned.
pub open spec fn result_view(r: Result<ExprValue, RuntimeError>) -> Result<
    ValueView,
    RuntimeErrorView,
> {
    match r {
        Ok(v) => Ok(v@),
        Err(e) => Err(e@),
    }
}

/// The view of what a run returned.
pub open spec fn run_view(r: Result<(), RuntimeError>) -> Result<(), RuntimeErrorView> {
    match r {
        Ok(_) => Ok(()),
        Err(e) => Err(e@),
    }
}

/// Builds the runtime error that names `operator` as the offending token.
fn fail(operator: &Token, message: &str) -> (e: RuntimeError)
    ensures
        e@ == failure(operator@, message@),
{
    RuntimeError { token: operator.lexeme.clone(), message: message.to_owned(), line: operator.line }
}

/// A tree-walking interpreter: a chain of scopes, the mode for expression
/// statements, and the values printed and not yet taken.
pub struct Interpreter {
    environment: Environment,
    status: InterpreterStatus,
    output: Vec<ExprValue>,
}

impl Default for Interpreter {
    fn default() -> (r: Self)
        ensures
            r.scopes() == seq![Map::<Seq<char>, ValueView>::empty()],
            r.status() == InterpreterStatus::Evaluate,
            r.printed() == Seq::<ValueView>::empty(),
    {
        Interpreter::new()
    }
}

impl Interpreter {
    /// The chain of scopes, the global scope first.
    pub closed spec fn scopes(&self) -> Seq<Map<Seq<char>, ValueView>> {
        self.environment@
    }

    /// The mode for expression statements.
    pub closed spec fn status(&self) -> InterpreterStatus {
        self.status
    }

    /// The values printed and not yet taken, oldest first.
    pub closed spec fn printed(&self) -> Seq<ValueView> {
        value_views(self.output@)
    }

    /// An interpreter with an empty global scope, in `Evaluate` mode.
    pub fn new() -> (r: Self)
        ensures
            r.scopes() == seq![Map::<Seq<char>, ValueView>::empty()],
            r.status() == InterpreterStatus::Evaluate,
            r.printed() == Seq::<ValueView>::empty(),
    {
        let r = Interpreter {
            environment: Environment::new(),
            status: InterpreterStatus::Evaluate,
            output: Vec::new(),
        };
        assert(r.printed() =~= Seq::<ValueView>::empty());
        r
    }

    /// Replaces the chain of scopes.
    pub fn set_env(&mut self, environment: Environment)
        ensures
            final(self).scopes() == environment@,
            final(self).status() == old(self).status(),
            final(self).printed() == old(self).printed(),
    {
        self.environment = environment;
    }

    /// Hands out the values printed since the last call, oldest first.
    pub fn take_output(&mut self) -> (r: Vec<ExprValue>)
        ensures
            value_views(r@) == old(self).printed(),
            final(self).printed() == Seq::<ValueView>::empty(),
            final(self).scopes() == old(self).scopes(),
            final(self).status() == old(self).status(),
    {
        let mut taken: Vec<ExprValue> = Vec::new();
        std::mem::swap(&mut taken, &mut self.output);
        assert(self.printed() =~= Seq::<ValueView>::empty());
        taken
    }

    /// Records a printed value.
    fn emit(&mut self, value: ExprValue)
        ensures
            final(self).printed() == old(self).printed().push(value@),
            final(self).scopes() == old(self).scopes(),
            final(self).status() == old(self).status(),
    {
        self.output.push(value);
        assert(self.printed() =~= old(self).printed().push(value@));
    }

    /// Whether a value counts as true.
    pub fn is_truthy(&self, expr_val: &ExprValue) -> (r: bool)
        ensures
            r == truthy(expr_val@),
    {
        match expr_val {
            ExprValue::Nil => false,
            ExprValue::Bool(b) => *b,
            _ => true,
        }
    }

    /// Whether two values are equal. `calc` takes the difference of two
    /// numbers.
    pub fn is_equal<F: Fn(Arithmetic, Number, Number) -> Number>(
        &self,
        left: &ExprValue,
        right: &ExprValue,
        calc: &F,
    ) -> (r: bool)
        requires
            is_calculator(calc),
        ensures
            r == values_equal(calculation(calc), left@, right@),
    {
        match (left, right) {
            (ExprValue::Nil, ExprValue::Nil) => true,
            (ExprValue::Bool(a), ExprValue::Bool(b)) => *a == *b,
            (ExprValue::Number(a), ExprValue::Number(b)) => calculate(
                calc,
                Arithmetic::Subtract,
                *a,
                *b,
            ).is_negligible(),
            (ExprValue::String(a), ExprValue::String(b)) => *a == *b,
            _ => false,
        }
    }

    fn check_num_operand(&self, operator: &Token, expr_val: &ExprValue) -> (r: Result<
        Number,
        RuntimeError,
    >)
        ensures
            match r {
                Ok(n) => expr_val@ == ValueView::Number(n),
                Err(e) => !(expr_val@ is Number) && e@ == failure(
                    operator@,
                    "Operand must be a number."@,
                ),
            },
    {
        match expr_val {
            ExprValue::Number(n) => Ok(*n),
            _ => Err(fail(operator, "Operand must be a number.")),
        }
    }

    fn check_num_operands(&self, operator: &Token, left: &ExprValue, right: &ExprValue) -> (r:
        Result<(Number, Number), RuntimeError>)
        ensures
            match r {
                Ok((a, b)) => left@ == ValueView::Number(a) && right@ == ValueView::Number(b),
                Err(e) => !(left@ is Number && right@ is Number) && e@ == failure(
                    operator@,
                    "Operands must be numbers"@,
                ),
            },
    {
        match (left, right) {
            (ExprValue::Number(a), ExprValue::Number(b)) => Ok((*a, *b)),
            _ => Err(fail(operator, "Operands must be numbers")),
        }
    }

    /// Evaluates an expression in the current scopes.
    pub fn evaluate<F: Fn(Arithmetic, Number, Number) -> Number>(
        &mut self,
        expr: &Expr,
        calc: &F,
    ) -> (r: Result<ExprValue, RuntimeError>)
        requires
            is_calculator(calc),
        ensures
            result_view(r) == evaluation(calculation(calc), old(self).scopes(), expr@).result,
            final(self).scopes() == evaluation(calculation(calc), old(self).scopes(), expr@).scopes,
            final(self).scopes().len() == old(self).scopes().len(),
            final(self).status() == old(self).status(),
            final(self).printed() == old(self).printed(),
        decreases expr.size(), 1nat,
    {
        match expr {
            Expr::Bool(b) => Ok(ExprValue::Bool(*b)),
            Expr::Number(n) => Ok(ExprValue::Number(*n)),
            Expr::String(s) => Ok(ExprValue::String(s.clone())),
            Expr::Nil => Ok(ExprValue::Nil),
            Expr::Grouping(inner) => self.evaluate(inner, calc),
            Expr::Unary { operator, right } => self.evaluate_unary(operator, right, calc),
            Expr::Binary { left, operator, right } => self.evaluate_binary(
                operator,
                left,
                right,
                calc,
            ),
            Expr::Variable(name) => self.environment.get(name),
            Expr::Assign(name, value) => {
                match self.evaluate(value, calc) {
                    Ok(val) => match self.environment.assign(name, val.clone()) {
                        Ok(_) => Ok(val),
                        Err(e) => Err(e),
                    },
                    Err(e) => Err(e),
                }
            },
        }
    }

    fn evaluate_unary<F: Fn(Arithmetic, Number, Number) -> Number>(
        &mut self,
        operator: &Token,
        right: &Expr,
        calc: &F,
    ) -> (r: Result<ExprValue, RuntimeError>)
        requires
            is_calculator(calc),
        ensures
            ({
                let operand = evaluation(calculation(calc), old(self).scopes(), right@);
                &&& final(self).scopes() == operand.scopes
                &&& result_view(r) == match operand.result {
                    Ok(value) => unary_result(operator@, value),
                    Err(e) => Err(e),
                }
            }),
            final(self).scopes().len() == old(self).scopes().len(),
            final(self).status() == old(self).status(),
            final(self).printed() == old(self).printed(),
        decreases right.size() + 1, 0nat,
    {
        let right = match self.evaluate(right, calc) {
            Ok(v) => v,
            Err(e) => {
                return Err(e);
            },
        };
        match operator.token_type {
            TokenType::BANG => Ok(ExprValue::Bool(!self.is_truthy(&right))),
            TokenType::MINUS => {
                match self.check_num_operand(operator, &right) {
                    Ok(n) => Ok(ExprValue::Number(n.negate())),
                    Err(e) => Err(e),
                }
            },
            _ => Err(fail(operator, "Invalid operator found in unary expression")),
        }
    }

    fn evaluate_binary<F: Fn(Arithmetic, Number, Number) -> Number>(
        &mut self,
        operator: &Token,
        left: &Expr,
        right: &Expr,
        calc: &F,
    ) -> (r: Result<ExprValue, RuntimeError>)
        requires
            is_calculator(calc),
        ensures
            ({
                let first = evaluation(calculation(calc), old(self).scopes(), left@);
                let second = evaluation(calculation(calc), first.scopes, right@);
                match first.result {
                    Ok(a) => {
                        &&& final(self).scopes() == second.scopes
                        &&& result_view(r) == match second.result {
                            Ok(b) => binary_result(calculation(calc), operator@, a, b),
                            Err(e) => Err(e),
                        }
                    },
                    Err(e) => final(self).scopes() == first.scopes && result_view(r) == Err::<
                        ValueView,
                        RuntimeErrorView,
                    >(e),
                }
            }),
            final(self).scopes().len() == old(self).scopes().len(),
            final(self).status() == old(self).status(),
            final(self).printed() == old(self).printed(),
        decreases left.size() + right.size() + 1, 0nat,
    {
        let left = match self.evaluate(left, calc) {
            Ok(v) => v,
            Err(e) => {
                return Err(e);
            },
        };
        let right = match self.evaluate(right, calc) {
            Ok(v) => v,
            Err(e) => {
                return Err(e);
            },
        };
        match operator.token_type {
            TokenType::GREATER => {
                match self.check_num_operands(operator, &left, &right) {
                    Ok((a, b)) => Ok(ExprValue::Bool(b.less_than(a))),
                    Err(e) => Err(e),
                }
            },
            TokenType::GREATEREQUAL => {
                match self.check_num_operands(operator, &left, &right) {
                    Ok((a, b)) => Ok(ExprValue::Bool(b.at_most(a))),
                    Err(e) => Err(e),
                }
            },
            TokenType::LESS => {
                match self.check_num_operands(operator, &left, &right) {
                    Ok((a, b)) => Ok(ExprValue::Bool(a.less_than(b))),
                    Err(e) => Err(e),
                }
            },
            TokenType::LESSEQUAL => {
                match self.check_num_operands(operator, &left, &right) {
                    Ok((a, b)) => Ok(ExprValue::Bool(a.at_most(b))),
                    Err(e) => Err(e),
                }
            },
            TokenType::MINUS => {
                match self.check_num_operands(operator, &left, &right) {
                    Ok((a, b)) => Ok(ExprValue::Number(calculate(calc, Arithmetic::Subtract, a, b))),
                    Err(e) => Err(e),
                }
            },
            TokenType::PLUS => match (left, right) {
                (ExprValue::Number(a), ExprValue::Number(b)) => Ok(
                    ExprValue::Number(calculate(calc, Arithmetic::Add, a, b)),
                ),
                (ExprValue::String(a), ExprValue::String(b)) => Ok(
                    ExprValue::String(a.concat(b.as_str())),
                ),
                _ => Err(fail(operator, "Operands must be two numbers or two strings.")),
            },
            TokenType::SLASH => {
                match self.check_num_operands(operator, &left, &right) {
                    Ok((a, b)) => Ok(ExprValue::Number(calculate(calc, Arithmetic::Divide, a, b))),
                    Err(e) => Err(e),
                }
            },
            TokenType::STAR => {
                match self.check_num_operands(operator, &left, &right) {
                    Ok((a, b)) => Ok(ExprValue::Number(calculate(calc, Arithmetic::Multiply, a, b))),
                    Err(e) => Err(e),
                }
            },
            TokenType::NOTEQUAL => Ok(ExprValue::Bool(!self.is_equal(&left, &right, calc))),
            TokenType::EQUAL => Ok(ExprValue::Bool(self.is_equal(&left, &right, calc))),
            _ => Err(fail(operator, "Unrecognized binary operator.")),
        }
    }

    /// Sets the mode for expression statements, by its name: `evaluate` or
    /// `run`. Every other name is refused, and the mode stays.
    pub fn set_status(&mut self, status: &str) -> (r: Result<(), String>)
        ensures
            final(self).scopes() == old(self).scopes(),
            final(self).printed() == old(self).printed(),
            match r {
                Ok(_) => status_named(status@) == Some(final(self).status()),
                Err(e) => status_named(status@) is None && final(self).status() == old(
                    self,
                ).status() && e@ == "should only accept `evaluate` and `run` string values"@,
            },
    {
        match InterpreterStatus::try_from(status) {
            Ok(status) => {
                self.status = status;
                Ok(())
            },
            Err(e) => Err(e),
        }
    }

    /// Runs the statements in order, in the current scopes. The first
    /// failure ends the run; what was printed before it stays printed.
    pub fn interpret<F: Fn(Arithmetic, Number, Number) -> Number>(
        &mut self,
        statements: Vec<Stmt>,
        calc: &F,
    ) -> (r: Result<(), RuntimeError>)
        requires
            is_calculator(calc),
            old(self).scopes().len() > 0,
        ensures
            ({
                let run = execution_from(
                    calculation(calc),
                    old(self).status(),
                    old(self).scopes(),
                    old(self).printed(),
                    stmt_views(statements@),
                    0,
                );
                &&& run_view(r) == run.result
                &&& final(self).scopes() == run.scopes
                &&& final(self).printed() == run.output
            }),
            final(self).scopes().len() == old(self).scopes().len(),
            final(self).status() == old(self).status(),
    {
        let ghost views = stmt_views(statements@);
        let ghost whole = execution_from(
            calculation(calc),
            self.status(),
            self.scopes(),
            self.printed(),
            views,
            0,
        );
        let mut i: usize = 0;
        while i < statements.len()
            invariant
                is_calculator(calc),
                i <= statements.len(),
                views == stmt_views(statements@),
                self.scopes().len() == old(self).scopes().len(),
                self.scopes().len() > 0,
                self.status() == old(self).status(),
                whole == execution_from(
                    calculation(calc),
                    old(self).status(),
                    old(self).scopes(),
                    old(self).printed(),
                    views,
                    0,
                ),
                whole == execution_from(
                    calculation(calc),
                    self.status(),
                    self.scopes(),
                    self.printed(),
                    views,
                    i as int,
                ),
            decreases statements.len() - i,
        {
            assert(views[i as int] == statements[i as int]@);
            match self.execute(&statements[i], calc) {
                Ok(_) => {},
                Err(e) => {
                    return Err(e);
                },
            }
            i += 1;
        }
        Ok(())
    }

    fn execute<F: Fn(Arithmetic, Number, Number) -> Number>(&mut self, stmt: &Stmt, calc: &F) -> (r:
        Result<(), RuntimeError>)
        requires
            is_calculator(calc),
            old(self).scopes().len() > 0,
        ensures
            ({
                let run = execution(
                    calculation(calc),
                    old(self).status(),
                    old(self).scopes(),
                    old(self).printed(),
                    stmt@,
                );
                &&& run_view(r) == run.result
                &&& final(self).scopes() == run.scopes
                &&& final(self).printed() == run.output
            }),
            final(self).scopes().len() == old(self).scopes().len(),
            final(self).status() == old(self).status(),
        decreases stmt,
    {
        match stmt {
            Stmt::Expression(_) => self.eval_expr_stmt(stmt, calc),
            Stmt::Print(_) => self.eval_print_stmt(stmt, calc),
            Stmt::Var(name, initializer) => self.eval_var_stmt(name, initializer, calc),
            Stmt::Block(statements) => {
                assert(stmt@ == StmtView::Block(stmt_views(statements@))) by {
                    assert(stmt.model()->Block_0 =~= stmt_views(statements@));
                }
                self.eval_block_stmt(statements, calc)
            },
        }
    }

    fn eval_block_stmt<F: Fn(Arithmetic, Number, Number) -> Number>(
        &mut self,
        statements: &Vec<Stmt>,
        calc: &F,
    ) -> (r: Result<(), RuntimeError>)
        requires
            is_calculator(calc),
            old(self).scopes().len() > 0,
        ensures
            ({
                let inner = execution_from(
                    calculation(calc),
                    old(self).status(),
                    old(self).scopes().push(Map::empty()),
                    old(self).printed(),
                    stmt_views(statements@),
                    0,
                );
                &&& run_view(r) == inner.result
                &&& final(self).scopes() == inner.scopes.drop_last()
                &&& final(self).printed() == inner.output
            }),
            final(self).scopes().len() == old(self).scopes().len(),
            final(self).status() == old(self).status(),
        decreases statements,
    {
        self.environment.enter_scope();
        let ghost views = stmt_views(statements@);
        let ghost whole = execution_from(
            calculation(calc),
            self.status(),
            self.scopes(),
            self.printed(),
            views,
            0,
        );
        let mut block_eval: Result<(), RuntimeError> = Ok(());
        let mut i: usize = 0;
        while i < statements.len()
            invariant_except_break
                block_eval is Ok,
                whole == execution_from(
                    calculation(calc),
                    self.status(),
                    self.scopes(),
                    self.printed(),
                    views,
                    i as int,
                ),
            invariant
                is_calculator(calc),
                i <= statements.len(),
                views == stmt_views(statements@),
                self.scopes().len() == old(self).scopes().len() + 1,
                self.status() == old(self).status(),
            ensures
                run_view(block_eval) == whole.result,
                self.scopes() == whole.scopes,
                self.printed() == whole.output,
            decreases statements.len() - i,
        {
            assert(views[i as int] == statements[i as int]@);
            match self.execute(&statements[i], calc) {
                Ok(_) => {},
                Err(e) => {
                    block_eval = Err(e);
                    break;
                },
            }
            i += 1;
        }
        self.environment.leave_scope();
        block_eval
    }

    fn eval_expr_stmt<F: Fn(Arithmetic, Number, Number) -> Number>(
        &mut self,
        stmt: &Stmt,
        calc: &F,
    ) -> (r: Result<(), RuntimeError>)
        requires
            is_calculator(calc),
            stmt is Expression,
        ensures
            ({
                let run = execution(
                    calculation(calc),
                    old(self).status(),
                    old(self).scopes(),
                    old(self).printed(),
                    stmt@,
                );
                &&& run_view(r) == run.result
                &&& final(self).scopes() == run.scopes
                &&& final(self).printed() == run.output
            }),
            final(self).scopes().len() == old(self).scopes().len(),
            final(self).status() == old(self).status(),
    {
        match stmt {
            Stmt::Expression(expr) => {
                match self.evaluate(expr, calc) {
                    Ok(value) => {
                        if self.status == InterpreterStatus::Evaluate {
                            self.emit(value);
                        }
                        Ok(())
                    },
                    Err(e) => Err(e),
                }
            },
            _ => unreached(),
        }
    }

    fn eval_print_stmt<F: Fn(Arithmetic, Number, Number) -> Number>(
        &mut self,
        stmt: &Stmt,
        calc: &F,
    ) -> (r: Result<(), RuntimeError>)
        requires
            is_calculator(calc),
            stmt is Print,
        ensures
            ({
                let run = execution(
                    calculation(calc),
                    old(self).status(),
                    old(self).scopes(),
                    old(self).printed(),
                    stmt@,
                );
                &&& run_view(r) == run.result
                &&& final(self).scopes() == run.scopes
                &&& final(self).printed() == run.output
            }),
            final(self).scopes().len() == old(self).scopes().len(),
            final(self).status() == old(self).status(),
    {
        match stmt {
            Stmt::Print(expr) => {
                match self.evaluate(expr, calc) {
                    Ok(value) => {
                        self.emit(value);
                        Ok(())
                    },
                    Err(e) => Err(e),
                }
            },
            _ => unreached(),
        }
    }

    fn eval_var_stmt<F: Fn(Arithmetic, Number, Number) -> Number>(
        &mut self,
        name: &Token,
        initializer: &Expr,
        calc: &F,
    ) -> (r: Result<(), RuntimeError>)
        requires
            is_calculator(calc),
            old(self).scopes().len() > 0,
        ensures
            ({
                let ev = evaluation(calculation(calc), old(self).scopes(), initializer@);
                match ev.result {
                    Ok(value) => r is Ok && final(self).scopes() == defined(
                        ev.scopes,
                        name@.lexeme,
                        value,
                    ),
                    Err(e) => run_view(r) == Err::<(), RuntimeErrorView>(e) && final(self).scopes()
                        == ev.scopes,
                }
            }),
            final(self).scopes().len() == old(self).scopes().len(),
            final(self).status() == old(self).status(),
            final(self).printed() == old(self).printed(),
    {
        match self.evaluate(initializer, calc) {
            Ok(value) => {
                self.environment.define(name.lexeme.clone(), value);
                Ok(())
            },
            Err(e) => Err(e),
        }
    }
}

} // verus!

verus! {

/// The text of a value as `print` writes it. `nt` gives the notation of
/// numbers.
pub open spec fn value_text(nt: spec_fn(Number) -> Seq<char>, value: ValueView) -> Seq<char> {
    match value {
        ValueView::Bool(b) => if b {
            "true"@
        } else {
            "false"@
        },
        ValueView::Number(n) => nt(n),
        ValueView::Text(s) => s,
        ValueView::Nil => "nil"@,
    }
}

/// The diagnostic line of a runtime error.
pub open spec fn runtime_error_text(e: RuntimeErrorView) -> Seq<char> {
    "[line "@ + decimal(e.line as nat) + "] Error with '"@ + e.token + "': "@ + e.message
}

impl ExprValue {
    /// The text of the value as `print` writes it. `show` writes a number.
    pub fn to_text<S: Fn(Number) -> String>(&self, show: &S) -> (r: String)
        requires
            is_notation(show),
        ensures
            r@ == value_text(notation(show), self@),
    {
        match self {
            ExprValue::Bool(b) => if *b {
                "true".to_owned()
            } else {
                "false".to_owned()
            },
            ExprValue::Number(n) => write_number(show, *n),
            ExprValue::String(s) => s.clone(),
            ExprValue::Nil => "nil".to_owned(),
        }
    }
}

impl RuntimeError {
    /// The diagnostic line of the error.
    pub fn to_text(&self) -> (r: String)
        ensures
            r@ == runtime_error_text(self@),
    {
        let mut r = "[line ".to_owned();
        r.append(decimal_text(self.line).as_str());
        r.append("] Error with '");
        r.append(self.token.as_str());
        r.append("': ");
        r.append(self.message.as_str());
        r
    }
}

} // verus!
