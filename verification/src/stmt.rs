use crate::expr::{expr_text, Expr, ExprView};
use crate::number::{is_notation, notation, Number};
use crate::token::{Token, TokenView};
use vstd::prelude::*;
use vstd::string::StringExecFns;

verus! {

/// A statement of the syntax tree. A block owns its statements, in the order
/// in which they run.
#[derive(Debug, PartialEq)]
pub enum Stmt {
    Expression(Expr),
    Print(Expr),
    Var(Token, Expr),
    Block(Vec<Stmt>),
}

/// What a statement holds.
pub enum StmtView {
    Expression(ExprView),
    Print(ExprView),
    Var(TokenView, ExprView),
    Block(Seq<StmtView>),
}

impl Stmt {
    /// The tree of views under this node.
    pub open spec fn model(&self) -> StmtView
        decreases self,
    {
        match self {
            Stmt::Expression(e) => StmtView::Expression(e@),
            Stmt::Print(e) => StmtView::Print(e@),
            Stmt::Var(name, initializer) => StmtView::Var(name@, initializer@),
            Stmt::Block(statements) => StmtView::Block(
                Seq::new(
                    statements.len() as nat,
                    |i: int|
                        if 0 <= i < statements.len() {
                            statements[i].model()
                        } else {
                            arbitrary()
                        },
                ),
            ),
        }
    }
}

impl View for Stmt {
    type V = StmtView;

    open spec fn view(&self) -> StmtView {
        self.model()
    }
}

/// The views of a sequence of statements, in order.
pub open spec fn stmt_views(statements: Seq<Stmt>) -> Seq<StmtView> {
    Seq::new(statements.len(), |i: int| statements[i]@)
}

} // verus!

verus! {

/// The text of a statement, in parentheses with its keyword first; an
/// expression statement is the text of its expression and a semicolon.
pub open spec fn stmt_text(nt: spec_fn(Number) -> Seq<char>, stmt: StmtView) -> Seq<char>
    decreases stmt, 0nat,
{
    match stmt {
        StmtView::Expression(e) => expr_text(nt, e) + ";"@,
        StmtView::Print(e) => "(print "@ + expr_text(nt, e) + ")"@,
        StmtView::Var(name, initializer) => "(var "@ + name.lexeme + " "@ + expr_text(
            nt,
            initializer,
        ) + ")"@,
        StmtView::Block(statements) => "(block"@ + block_text(nt, statements, statements.len())
            + ")"@,
    }
}

/// The texts of the first `count` statements, each behind one space.
pub open spec fn block_text(
    nt: spec_fn(Number) -> Seq<char>,
    statements: Seq<StmtView>,
    count: nat,
) -> Seq<char>
    decreases statements, count,
{
    if 0 < count <= statements.len() {
        block_text(nt, statements, (count - 1) as nat) + " "@ + stmt_text(
            nt,
            statements[count - 1],
        )
    } else {
        Seq::empty()
    }
}

impl Stmt {
    /// The text of the statement. `show` writes a number.
    pub fn to_text<S: Fn(Number) -> String>(&self, show: &S) -> (r: String)
        requires
            is_notation(show),
        ensures
            r@ == stmt_text(notation(show), self@),
        decreases self,
    {
        match self {
            Stmt::Expression(e) => {
                let mut r = e.to_text(show);
                r.append(";");
                r
            },
            Stmt::Print(e) => {
                let mut r = "(print ".to_owned();
                r.append(e.to_text(show).as_str());
                r.append(")");
                r
            },
            Stmt::Var(name, initializer) => {
                let mut r = "(var ".to_owned();
                r.append(name.lexeme.as_str());
                r.append(" ");
                r.append(initializer.to_text(show).as_str());
                r.append(")");
                r
            },
            Stmt::Block(statements) => {
                let ghost views = stmt_views(statements@);
                assert(self@ == StmtView::Block(views)) by {
                    assert(self.model()->Block_0 =~= views);
                }
                let mut r = "(block".to_owned();
                let mut i: usize = 0;
                while i < statements.len()
                    invariant
                        is_notation(show),
                        i <= statements.len(),
                        views == stmt_views(statements@),
                        *self == Stmt::Block(*statements),
                        r@ == "(block"@ + block_text(notation(show), views, i as nat),
                    decreases statements.len() - i,
                {
                    proof {
                        assert(self->Block_0 == *statements);
                        assert(decreases_to!(*self => self->Block_0));
                        assert(decreases_to!(*statements => statements[i as int]));
                        assert(views[i as int] == statements[i as int]@);
                    }
                    r.append(" ");
                    r.append(statements[i].to_text(show).as_str());
                    i += 1;
                    assert(r@ =~= "(block"@ + block_text(notation(show), views, i as nat));
                }
                r.append(")");
                r
            },
        }
    }
}

} // verus!
