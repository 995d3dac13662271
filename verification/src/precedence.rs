use crate::ast::{SpecExpr, SpecStmt};
use crate::grammar::{
    assignment, at_end, binary, binary_tail, block_stmt, check, declaration, declarations, expr_stmt,
    expression, if_stmt, lemma_binary_advances, lemma_declaration_advances, lemma_expression_advances,
    lemma_operand_advances, lemma_statement_advances, operand, primary, print_stmt, program, remaining,
    resume, statement, unary, var_decl, Level,
};
use crate::token::{SpecToken, SpecTokenType};
use vstd::prelude::*;

verus! {

/// How loosely an assignment binds: more loosely than every operator.
pub open spec fn loosest() -> nat {
    7
}

/// How loosely a binary operator of this kind binds, from 1 for `*` and `/`
/// to 6 for `or`; 0 for what is no binary operator.
pub open spec fn looseness(kind: SpecTokenType) -> nat {
    if Level::Or.has_operator(kind) {
        6
    } else if Level::And.has_operator(kind) {
        5
    } else if Level::Equality.has_operator(kind) {
        4
    } else if Level::Comparison.has_operator(kind) {
        3
    } else if Level::Term.has_operator(kind) {
        2
    } else if Level::Factor.has_operator(kind) {
        1
    } else {
        0
    }
}

/// The expression needs no parentheses where operators that bind as
/// loosely as `bound` may stand, and is grouped as its operators bind:
/// a binary operator has to its left what binds no more loosely than itself
/// and to its right what binds more tightly, so that operators of one level
/// group to the left; `and` and `or` alone make logical nodes; a unary
/// operator has an operand without binary operators; an assignment has a
/// name to its left and groups to the right. Inside parentheses anything
/// may stand.
pub open spec fn fits(e: SpecExpr, bound: nat) -> bool
    decreases e,
{
    match e {
        SpecExpr::Binary { left, operator, right } => {
            let k = looseness(operator.kind);
            &&& 1 <= k <= 4
            &&& k <= bound
            &&& fits(*left, k)
            &&& fits(*right, (k - 1) as nat)
        },
        SpecExpr::Grouping { expression } => fits(*expression, loosest()),
        SpecExpr::Literal { value } => true,
        SpecExpr::Unary { operator, right } => {
            &&& operator.kind is Bang || operator.kind is Minus
            &&& fits(*right, 0)
        },
        SpecExpr::Variable { name } => name.kind is Identifier,
        SpecExpr::Assignment { var_name, value } => {
            &&& bound >= loosest()
            &&& var_name.kind is Identifier
            &&& fits(*value, loosest())
        },
        SpecExpr::Logical { left, operator, right } => {
            let k = looseness(operator.kind);
            &&& 5 <= k <= 6
            &&& k <= bound
            &&& fits(*left, k)
            &&& fits(*right, (k - 1) as nat)
        },
    }
}

/// Every expression of the statement is grouped as its operators bind.
pub open spec fn stmt_fits(s: SpecStmt) -> bool
    decreases s,
{
    match s {
        SpecStmt::Expr { expr } => fits(expr, loosest()),
        SpecStmt::Print { expr } => fits(expr, loosest()),
        SpecStmt::VarDecl { var_name, initializer } => {
            &&& var_name.kind is Identifier
            &&& initializer matches Some(expr) ==> fits(expr, loosest())
        },
        SpecStmt::Block { stmt_list } => stmts_fit(stmt_list),
        SpecStmt::If { condition, then_stmt, else_stmt } => {
            &&& fits(condition, loosest())
            &&& stmt_fits(*then_stmt)
            &&& else_stmt matches Some(s) ==> stmt_fits(*s)
        },
    }
}

/// Every expression of the statements is grouped as its operators bind.
pub open spec fn stmts_fit(stmts: Seq<SpecStmt>) -> bool
    decreases stmts,
{
    stmts.len() > 0 ==> stmt_fits(stmts[0]) && stmts_fit(stmts.drop_first())
}

/// What fits where operators bind tightly fits where they may bind more loosely.
pub proof fn lemma_fits_looser(e: SpecExpr, bound: nat, looser: nat)
    requires
        fits(e, bound),
        bound <= looser,
    ensures
        fits(e, looser),
{
}

/// What `primary` reads has no operator outside parentheses.
pub proof fn lemma_primary_fits(tokens: Seq<SpecToken>, pos: int)
    ensures
        primary(tokens, pos).result matches Ok(e) ==> fits(e, 0),
    decreases remaining(tokens, pos), 0nat,
{
    if !at_end(tokens, pos) && tokens[pos].kind is LeftParen {
        lemma_expression_fits(tokens, pos + 1);
    }
}

/// What `unary` reads has no binary operator outside parentheses.
pub proof fn lemma_unary_fits(tokens: Seq<SpecToken>, pos: int)
    ensures
        unary(tokens, pos).result matches Ok(e) ==> fits(e, 0),
    decreases remaining(tokens, pos), 1nat,
{
    if check(tokens, pos, SpecTokenType::Bang) || check(tokens, pos, SpecTokenType::Minus) {
        lemma_unary_fits(tokens, pos + 1);
    } else {
        lemma_primary_fits(tokens, pos);
    }
}

/// An operand of a level binds more tightly than the operators of the level.
pub proof fn lemma_operand_fits(tokens: Seq<SpecToken>, pos: int, level: Level)
    ensures
        operand(tokens, pos, level).result matches Ok(e) ==> fits(e, (level.rank() - 1) as nat),
    decreases remaining(tokens, pos), 3 * level.rank(),
{
    match level {
        Level::Or => lemma_binary_fits(tokens, pos, Level::And),
        Level::And => lemma_binary_fits(tokens, pos, Level::Equality),
        Level::Equality => lemma_binary_fits(tokens, pos, Level::Comparison),
        Level::Comparison => lemma_binary_fits(tokens, pos, Level::Term),
        Level::Term => lemma_binary_fits(tokens, pos, Level::Factor),
        Level::Factor => lemma_unary_fits(tokens, pos),
    }
}

/// What `binary` reads binds no more loosely than the operators of its level.
pub proof fn lemma_binary_fits(tokens: Seq<SpecToken>, pos: int, level: Level)
    ensures
        binary(tokens, pos, level).result matches Ok(e) ==> fits(e, level.rank()),
    decreases remaining(tokens, pos), 3 * level.rank() + 2,
{
    lemma_operand_advances(tokens, pos, level);
    lemma_operand_fits(tokens, pos, level);
    let first = operand(tokens, pos, level);
    if let Ok(left) = first.result {
        lemma_fits_looser(left, (level.rank() - 1) as nat, level.rank());
        lemma_binary_tail_fits(tokens, first.next, level, left);
    }
}

/// What `binary_tail` reads after operands that fit its level fits the level.
pub proof fn lemma_binary_tail_fits(tokens: Seq<SpecToken>, pos: int, level: Level, left: SpecExpr)
    requires
        fits(left, level.rank()),
    ensures
        binary_tail(tokens, pos, level, left).result matches Ok(e) ==> fits(e, level.rank()),
    decreases remaining(tokens, pos), 3 * level.rank() + 1,
{
    if !at_end(tokens, pos) && level.has_operator(tokens[pos].kind) {
        lemma_operand_advances(tokens, pos + 1, level);
        lemma_operand_fits(tokens, pos + 1, level);
        let second = operand(tokens, pos + 1, level);
        if let Ok(right) = second.result {
            assert(looseness(tokens[pos].kind) == level.rank());
            lemma_binary_tail_fits(tokens, second.next, level, level.join(left, tokens[pos], right));
        }
    }
}

/// What `assignment` reads is grouped as its operators bind.
pub proof fn lemma_assignment_fits(tokens: Seq<SpecToken>, pos: int)
    ensures
        assignment(tokens, pos).result matches Ok(e) ==> fits(e, loosest()),
    decreases remaining(tokens, pos), 21nat,
{
    lemma_binary_advances(tokens, pos, Level::Or);
    lemma_binary_fits(tokens, pos, Level::Or);
    let target = binary(tokens, pos, Level::Or);
    if let Ok(left) = target.result {
        lemma_fits_looser(left, 6, loosest());
        if check(tokens, target.next, SpecTokenType::Equal) && left is Variable {
            lemma_assignment_fits(tokens, target.next + 1);
        }
    }
}

/// What `expression` reads is grouped as its operators bind.
pub proof fn lemma_expression_fits(tokens: Seq<SpecToken>, pos: int)
    ensures
        expression(tokens, pos).result matches Ok(e) ==> fits(e, loosest()),
    decreases remaining(tokens, pos), 22nat,
{
    lemma_assignment_fits(tokens, pos);
}

/// The expressions of what `expr_stmt` reads are grouped as their operators bind.
pub proof fn lemma_expr_stmt_fits(tokens: Seq<SpecToken>, pos: int)
    ensures
        expr_stmt(tokens, pos).result matches Ok(s) ==> stmt_fits(s),
    decreases remaining(tokens, pos), 23nat,
{
    lemma_expression_fits(tokens, pos);
}

/// The expressions of what `print_stmt` reads are grouped as their operators bind.
pub proof fn lemma_print_stmt_fits(tokens: Seq<SpecToken>, pos: int)
    ensures
        print_stmt(tokens, pos).result matches Ok(s) ==> stmt_fits(s),
    decreases remaining(tokens, pos), 23nat,
{
    lemma_expression_fits(tokens, pos);
}

/// The expressions of what `var_decl` reads are grouped as their operators bind.
pub proof fn lemma_var_decl_fits(tokens: Seq<SpecToken>, pos: int)
    ensures
        var_decl(tokens, pos).result matches Ok(s) ==> stmt_fits(s),
    decreases remaining(tokens, pos), 23nat,
{
    if check(tokens, pos, SpecTokenType::Identifier) && check(tokens, pos + 1, SpecTokenType::Equal) {
        lemma_expression_fits(tokens, pos + 2);
    }
}

/// The expressions of what `block_stmt` reads are grouped as their operators bind.
pub proof fn lemma_block_stmt_fits(tokens: Seq<SpecToken>, pos: int)
    ensures
        block_stmt(tokens, pos).result matches Ok(s) ==> stmt_fits(s),
    decreases remaining(tokens, pos), 28nat,
{
    lemma_declarations_fit(tokens, pos, true);
}

/// The expressions of what `if_stmt` reads are grouped as their operators bind.
pub proof fn lemma_if_stmt_fits(tokens: Seq<SpecToken>, pos: int)
    ensures
        if_stmt(tokens, pos).result matches Ok(s) ==> stmt_fits(s),
    decreases remaining(tokens, pos), 25nat,
{
    lemma_expression_advances(tokens, pos);
    lemma_expression_fits(tokens, pos);
    let c = expression(tokens, pos);
    if c.result is Ok {
        lemma_statement_advances(tokens, c.next);
        lemma_statement_fits(tokens, c.next);
        let t = statement(tokens, c.next);
        if t.result is Ok && check(tokens, t.next, SpecTokenType::Else) {
            lemma_statement_fits(tokens, t.next + 1);
        }
    }
}

/// The expressions of what `statement` reads are grouped as their operators bind.
pub proof fn lemma_statement_fits(tokens: Seq<SpecToken>, pos: int)
    ensures
        statement(tokens, pos).result matches Ok(s) ==> stmt_fits(s),
    decreases remaining(tokens, pos), 24nat,
{
    if check(tokens, pos, SpecTokenType::Print) {
        lemma_print_stmt_fits(tokens, pos + 1);
    } else if check(tokens, pos, SpecTokenType::LeftBrace) {
        lemma_block_stmt_fits(tokens, pos + 1);
    } else if check(tokens, pos, SpecTokenType::If) {
        lemma_if_stmt_fits(tokens, pos + 1);
    } else {
        lemma_expr_stmt_fits(tokens, pos);
    }
}

/// The expressions of what `declaration` reads are grouped as their operators bind.
pub proof fn lemma_declaration_fits(tokens: Seq<SpecToken>, pos: int)
    ensures
        declaration(tokens, pos).result matches Ok(s) ==> stmt_fits(s),
    decreases remaining(tokens, pos), 26nat,
{
    if check(tokens, pos, SpecTokenType::Var) {
        lemma_var_decl_fits(tokens, pos + 1);
    } else {
        lemma_statement_fits(tokens, pos);
    }
}

/// The expressions of what `declarations` reads are grouped as their operators bind.
pub proof fn lemma_declarations_fit(tokens: Seq<SpecToken>, pos: int, in_block: bool)
    ensures
        stmts_fit(declarations(tokens, pos, in_block).statements),
    decreases remaining(tokens, pos), 27nat,
{
    if !(at_end(tokens, pos) || (in_block && tokens[pos].kind is RightBrace)) {
        lemma_declaration_advances(tokens, pos);
        lemma_declaration_fits(tokens, pos);
        let d = declaration(tokens, pos);
        let next = resume(tokens, d);
        if next > pos {
            let rest = declarations(tokens, next, in_block);
            lemma_declarations_fit(tokens, next, in_block);
            match d.result {
                Ok(stmt) => {
                    assert((seq![stmt] + rest.statements).drop_first() =~= rest.statements);
                },
                Err(_) => {
                    assert(Seq::<SpecStmt>::empty() + rest.statements =~= rest.statements);
                },
            }
        }
    }
}

/// Every expression of a program that was read is grouped as its operators
/// bind: `*` and `/` before `+` and `-`, these before the comparisons, then
/// `==` and `!=`, `and`, `or` and `=`; operators of one level from the left,
/// `=` from the right.
pub proof fn law_program_follows_precedence(tokens: Seq<SpecToken>)
    ensures
        stmts_fit(program(tokens).statements),
{
    lemma_declarations_fit(tokens, 0, false);
}

} // verus!
