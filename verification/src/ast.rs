use crate::token::{SpecToken, Token};
use vstd::prelude::*;

verus! {

/// An expression as a mathematical value.
#[allow(inconsistent_fields)]
pub enum SpecExpr {
    Binary { left: Box<SpecExpr>, operator: SpecToken, right: Box<SpecExpr> },
    Grouping { expression: Box<SpecExpr> },
    Literal { value: SpecToken },
    Unary { operator: SpecToken, right: Box<SpecExpr> },
    Variable { name: SpecToken },
    Assignment { var_name: SpecToken, value: Box<SpecExpr> },
    Logical { left: Box<SpecExpr>, operator: SpecToken, right: Box<SpecExpr> },
}

/// A statement as a mathematical value.
pub enum SpecStmt {
    Expr { expr: SpecExpr },
    Print { expr: SpecExpr },
    VarDecl { var_name: SpecToken, initializer: Option<SpecExpr> },
    Block { stmt_list: Seq<SpecStmt> },
    If { condition: SpecExpr, then_stmt: Box<SpecStmt>, else_stmt: Option<Box<SpecStmt>> },
}

/// An expression. Each node owns its operands.
#[derive(Debug, PartialEq, Eq)]
#[allow(inconsistent_fields)]
pub enum Expr {
    /// An arithmetic, comparison or equality operator between two operands.
    Binary { left: Box<Expr>, operator: Token, right: Box<Expr> },
    /// An expression in parentheses.
    Grouping { expression: Box<Expr> },
    /// A number, a string, `true`, `false` or `nil`.
    Literal { value: Token },
    /// `!` or `-` before an operand.
    Unary { operator: Token, right: Box<Expr> },
    /// The use of a variable.
    Variable { name: Token },
    /// The assignment of a new value to a variable that exists.
    Assignment { var_name: Token, value: Box<Expr> },
    /// `and` or `or` between two operands.
    Logical { left: Box<Expr>, operator: Token, right: Box<Expr> },
}

/// A statement.
#[derive(Debug, PartialEq, Eq)]
pub enum Stmt {
    /// An expression evaluated for its effect.
    Expr { expr: Expr },
    /// `print` with the expression whose value is written.
    Print { expr: Expr },
    /// `var` with the name declared and the expression for its first value.
    VarDecl { var_name: Token, initializer: Option<Expr> },
    /// The statements between two braces, which have a scope of their own.
    Block { stmt_list: Vec<Stmt> },
    /// `if` with its condition and its one or two branches.
    If { condition: Expr, then_stmt: Box<Stmt>, else_stmt: Option<Box<Stmt>> },
}

impl Expr {
    /// The expression as a mathematical value.
    pub open spec fn model(self) -> SpecExpr
        decreases self,
    {
        match self {
            Expr::Binary { left, operator, right } => SpecExpr::Binary {
                left: Box::new(left.model()),
                operator: operator@,
                right: Box::new(right.model()),
            },
            Expr::Grouping { expression } => SpecExpr::Grouping { expression: Box::new(expression.model()) },
            Expr::Literal { value } => SpecExpr::Literal { value: value@ },
            Expr::Unary { operator, right } => SpecExpr::Unary {
                operator: operator@,
                right: Box::new(right.model()),
            },
            Expr::Variable { name } => SpecExpr::Variable { name: name@ },
            Expr::Assignment { var_name, value } => SpecExpr::Assignment {
                var_name: var_name@,
                value: Box::new(value.model()),
            },
            Expr::Logical { left, operator, right } => SpecExpr::Logical {
                left: Box::new(left.model()),
                operator: operator@,
                right: Box::new(right.model()),
            },
        }
    }
}

impl View for Expr {
    type V = SpecExpr;

    open spec fn view(&self) -> SpecExpr {
        self.model()
    }
}

impl Stmt {
    /// The statement as a mathematical value.
    pub open spec fn model(self) -> SpecStmt
        decreases self,
    {
        match self {
            Stmt::Expr { expr } => SpecStmt::Expr { expr: expr@ },
            Stmt::Print { expr } => SpecStmt::Print { expr: expr@ },
            Stmt::VarDecl { var_name, initializer } => SpecStmt::VarDecl {
                var_name: var_name@,
                initializer: match initializer {
                    Some(e) => Some(e@),
                    None => None,
                },
            },
            Stmt::Block { stmt_list } => SpecStmt::Block { stmt_list: stmt_models(stmt_list@) },
            Stmt::If { condition, then_stmt, else_stmt } => SpecStmt::If {
                condition: condition@,
                then_stmt: Box::new(then_stmt.model()),
                else_stmt: match else_stmt {
                    Some(s) => Some(Box::new(s.model())),
                    None => None,
                },
            },
        }
    }
}

/// The models of a sequence of statements, in order.
pub open spec fn stmt_models(stmts: Seq<Stmt>) -> Seq<SpecStmt>
    decreases stmts,
{
    if stmts.len() == 0 {
        Seq::empty()
    } else {
        stmt_models(stmts.drop_last()).push(stmts.last().model())
    }
}

impl View for Stmt {
    type V = SpecStmt;

    open spec fn view(&self) -> SpecStmt {
        self.model()
    }
}

/// The models of a sequence are as many as its statements, each the model of
/// the statement in its place.
pub proof fn lemma_stmt_models(stmts: Seq<Stmt>)
    ensures
        stmt_models(stmts).len() == stmts.len(),
        forall|i: int| 0 <= i < stmts.len() ==> #[trigger] stmt_models(stmts)[i] == stmts[i]@,
    decreases stmts.len(),
{
    if stmts.len() > 0 {
        lemma_stmt_models(stmts.drop_last());
    }
}

/// The models of a sequence with one more statement at its end.
pub proof fn lemma_stmt_models_push(stmts: Seq<Stmt>, stmt: Stmt)
    ensures
        stmt_models(stmts.push(stmt)) == stmt_models(stmts).push(stmt@),
{
    assert(stmts.push(stmt).drop_last() =~= stmts);
}

} // verus!
