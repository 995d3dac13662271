use crate::ast::{SpecExpr, SpecStmt};
use crate::grammar::{
    assignment, at_end, binary, binary_tail, block_stmt, check, declaration, declarations, expr_stmt,
    expression, if_stmt, lemma_binary_advances, lemma_declaration_advances, lemma_declarations_advance,
    lemma_expression_advances, lemma_operand_advances, lemma_statement_advances, operand, primary,
    print_stmt, program, statement, unary, var_decl, Level, ParsedExpr, ParsedStmt,
};
use crate::grammar::remaining;
use crate::token::{SpecToken, SpecTokenType};
use vstd::prelude::*;

verus! {

/// The kinds of a sequence of tokens, in order.
pub open spec fn kinds(tokens: Seq<SpecToken>) -> Seq<SpecTokenType> {
    tokens.map_values(|t: SpecToken| t.kind)
}

/// The kinds of the tokens that spell an expression.
pub open spec fn spelling(e: SpecExpr) -> Seq<SpecTokenType>
    decreases e,
{
    match e {
        SpecExpr::Binary { left, operator, right } => spelling(*left) + seq![operator.kind] + spelling(
            *right,
        ),
        SpecExpr::Grouping { expression } => seq![SpecTokenType::LeftParen] + spelling(*expression)
            + seq![SpecTokenType::RightParen],
        SpecExpr::Literal { value } => seq![value.kind],
        SpecExpr::Unary { operator, right } => seq![operator.kind] + spelling(*right),
        SpecExpr::Variable { name } => seq![name.kind],
        SpecExpr::Assignment { var_name, value } => seq![var_name.kind] + seq![SpecTokenType::Equal]
            + spelling(*value),
        SpecExpr::Logical { left, operator, right } => spelling(*left) + seq![operator.kind] + spelling(
            *right,
        ),
    }
}

/// The kinds of the tokens that spell a statement.
pub open spec fn stmt_spelling(s: SpecStmt) -> Seq<SpecTokenType>
    decreases s,
{
    match s {
        SpecStmt::Expr { expr } => spelling(expr) + seq![SpecTokenType::Semicolon],
        SpecStmt::Print { expr } => seq![SpecTokenType::Print] + (spelling(expr) + seq![
            SpecTokenType::Semicolon,
        ]),
        SpecStmt::VarDecl { var_name, initializer } => seq![SpecTokenType::Var] + (match initializer {
            Some(expr) => seq![var_name.kind] + seq![SpecTokenType::Equal] + spelling(expr) + seq![
                SpecTokenType::Semicolon,
            ],
            None => seq![var_name.kind] + seq![SpecTokenType::Semicolon],
        }),
        SpecStmt::Block { stmt_list } => seq![SpecTokenType::LeftBrace] + (stmts_spelling(stmt_list)
            + seq![SpecTokenType::RightBrace]),
        SpecStmt::If { condition, then_stmt, else_stmt } => seq![SpecTokenType::If] + (spelling(condition)
            + stmt_spelling(*then_stmt) + match else_stmt {
            Some(s) => seq![SpecTokenType::Else] + stmt_spelling(*s),
            None => Seq::empty(),
        }),
    }
}

/// The kinds of the tokens that spell statements one after another.
pub open spec fn stmts_spelling(stmts: Seq<SpecStmt>) -> Seq<SpecTokenType>
    decreases stmts,
{
    if stmts.len() == 0 {
        Seq::empty()
    } else {
        stmt_spelling(stmts[0]) + stmts_spelling(stmts.drop_first())
    }
}

/// The kinds of `tokens[from..to]`.
pub open spec fn span(tokens: Seq<SpecToken>, from: int, to: int) -> Seq<SpecTokenType> {
    kinds(tokens.subrange(from, to))
}

/// The expression that was read from `pos` on is spelt by the tokens it was
/// read from.
pub open spec fn expr_spells(tokens: Seq<SpecToken>, pos: int, p: ParsedExpr) -> bool {
    p.result matches Ok(e) ==> pos <= p.next <= tokens.len() && spelling(e) == span(tokens, pos, p.next)
}

/// The statement that was read from `pos` on, after the tokens of the kinds
/// `head`, and in which nothing was recovered from, is spelt by `head` and
/// the tokens it was read from.
pub open spec fn stmt_spells(
    tokens: Seq<SpecToken>,
    pos: int,
    head: Seq<SpecTokenType>,
    p: ParsedStmt,
) -> bool {
    (p.result matches Ok(s) && p.errors.len() == 0) ==> pos <= p.next <= tokens.len() && stmt_spelling(
        p.result->Ok_0,
    ) == head + span(tokens, pos, p.next)
}

/// The kinds of two stretches of tokens that follow each other.
pub proof fn lemma_span_split(tokens: Seq<SpecToken>, a: int, b: int, c: int)
    requires
        0 <= a <= b <= c <= tokens.len(),
    ensures
        span(tokens, a, c) == span(tokens, a, b) + span(tokens, b, c),
{
    assert(span(tokens, a, c) =~= span(tokens, a, b) + span(tokens, b, c));
}

/// The kinds of a stretch of one token, and of none.
pub proof fn lemma_span_one(tokens: Seq<SpecToken>, a: int)
    requires
        0 <= a < tokens.len(),
    ensures
        span(tokens, a, a + 1) == seq![tokens[a].kind],
        span(tokens, a, a) == Seq::<SpecTokenType>::empty(),
{
    assert(span(tokens, a, a + 1) =~= seq![tokens[a].kind]);
    assert(span(tokens, a, a) =~= Seq::<SpecTokenType>::empty());
}

/// What `primary` read without a diagnostic is spelt by the tokens it was read from.
pub proof fn lemma_primary_spells(tokens: Seq<SpecToken>, pos: int)
    requires
        0 <= pos <= tokens.len(),
    ensures
        expr_spells(tokens, pos, primary(tokens, pos)),
    decreases remaining(tokens, pos), 0nat,
{
    if !at_end(tokens, pos) {
        lemma_span_one(tokens, pos);
        if tokens[pos].kind is LeftParen {
            lemma_expression_spells(tokens, pos + 1);
            let inner = expression(tokens, pos + 1);
            if inner.result is Ok && check(tokens, inner.next, SpecTokenType::RightParen) {
                lemma_span_one(tokens, inner.next);
                lemma_span_split(tokens, pos, pos + 1, inner.next);
                lemma_span_split(tokens, pos, inner.next, inner.next + 1);
            }
        }
    }
}

/// What `unary` read without a diagnostic is spelt by the tokens it was read from.
pub proof fn lemma_unary_spells(tokens: Seq<SpecToken>, pos: int)
    requires
        0 <= pos <= tokens.len(),
    ensures
        expr_spells(tokens, pos, unary(tokens, pos)),
    decreases remaining(tokens, pos), 1nat,
{
    if check(tokens, pos, SpecTokenType::Bang) || check(tokens, pos, SpecTokenType::Minus) {
        lemma_unary_spells(tokens, pos + 1);
        let right = unary(tokens, pos + 1);
        if right.result is Ok {
            lemma_span_one(tokens, pos);
            lemma_span_split(tokens, pos, pos + 1, right.next);
        }
    } else {
        lemma_primary_spells(tokens, pos);
    }
}

/// What `operand` read without a diagnostic is spelt by the tokens it was read from.
pub proof fn lemma_operand_spells(tokens: Seq<SpecToken>, pos: int, level: Level)
    requires
        0 <= pos <= tokens.len(),
    ensures
        expr_spells(tokens, pos, operand(tokens, pos, level)),
    decreases remaining(tokens, pos), 3 * level.rank(),
{
    match level {
        Level::Or => lemma_binary_spells(tokens, pos, Level::And),
        Level::And => lemma_binary_spells(tokens, pos, Level::Equality),
        Level::Equality => lemma_binary_spells(tokens, pos, Level::Comparison),
        Level::Comparison => lemma_binary_spells(tokens, pos, Level::Term),
        Level::Term => lemma_binary_spells(tokens, pos, Level::Factor),
        Level::Factor => lemma_unary_spells(tokens, pos),
    }
}

/// What `binary` read without a diagnostic is spelt by the tokens it was read from.
pub proof fn lemma_binary_spells(tokens: Seq<SpecToken>, pos: int, level: Level)
    requires
        0 <= pos <= tokens.len(),
    ensures
        expr_spells(tokens, pos, binary(tokens, pos, level)),
    decreases remaining(tokens, pos), 3 * level.rank() + 2,
{
    lemma_operand_advances(tokens, pos, level);
    lemma_operand_spells(tokens, pos, level);
    let first = operand(tokens, pos, level);
    if let Ok(left) = first.result {
        lemma_binary_tail_spells(tokens, pos, first.next, level, left);
    }
}

/// What `binary_tail` read without a diagnostic is spelt by the tokens it was read from.
pub proof fn lemma_binary_tail_spells(
    tokens: Seq<SpecToken>,
    from: int,
    pos: int,
    level: Level,
    left: SpecExpr,
)
    requires
        0 <= from <= pos <= tokens.len(),
        spelling(left) == span(tokens, from, pos),
    ensures
        binary_tail(tokens, pos, level, left).result matches Ok(e) ==> from <= binary_tail(
            tokens,
            pos,
            level,
            left,
        ).next <= tokens.len() && spelling(e) == span(
            tokens,
            from,
            binary_tail(tokens, pos, level, left).next,
        ),
    decreases remaining(tokens, pos), 3 * level.rank() + 1,
{
    if !at_end(tokens, pos) && level.has_operator(tokens[pos].kind) {
        lemma_operand_advances(tokens, pos + 1, level);
        lemma_operand_spells(tokens, pos + 1, level);
        let second = operand(tokens, pos + 1, level);
        if let Ok(right) = second.result {
            let joined = level.join(left, tokens[pos], right);
            lemma_span_one(tokens, pos);
            lemma_span_split(tokens, from, pos, pos + 1);
            lemma_span_split(tokens, from, pos + 1, second.next);
            assert(spelling(joined) == spelling(left) + seq![tokens[pos].kind] + spelling(right));
            lemma_binary_tail_spells(tokens, from, second.next, level, joined);
        }
    }
}

/// What `assignment` read without a diagnostic is spelt by the tokens it was read from.
pub proof fn lemma_assignment_spells(tokens: Seq<SpecToken>, pos: int)
    requires
        0 <= pos <= tokens.len(),
    ensures
        expr_spells(tokens, pos, assignment(tokens, pos)),
    decreases remaining(tokens, pos), 21nat,
{
    lemma_binary_advances(tokens, pos, Level::Or);
    lemma_binary_spells(tokens, pos, Level::Or);
    let target = binary(tokens, pos, Level::Or);
    if let Ok(left) = target.result {
        if check(tokens, target.next, SpecTokenType::Equal) {
            if let SpecExpr::Variable { name } = left {
                lemma_assignment_spells(tokens, target.next + 1);
                let source = assignment(tokens, target.next + 1);
                if source.result is Ok {
                    lemma_span_one(tokens, target.next);
                    lemma_span_split(tokens, pos, target.next, target.next + 1);
                    lemma_span_split(tokens, pos, target.next + 1, source.next);
                }
            }
        }
    }
}

/// What `expression` read without a diagnostic is spelt by the tokens it was read from.
pub proof fn lemma_expression_spells(tokens: Seq<SpecToken>, pos: int)
    requires
        0 <= pos <= tokens.len(),
    ensures
        expr_spells(tokens, pos, expression(tokens, pos)),
    decreases remaining(tokens, pos), 22nat,
{
    lemma_assignment_spells(tokens, pos);
}

/// The expression read up to `pos`, with the `;` after it.
proof fn lemma_semicolon_spells(tokens: Seq<SpecToken>, from: int, pos: int)
    requires
        0 <= from <= pos <= tokens.len(),
        check(tokens, pos, SpecTokenType::Semicolon),
    ensures
        span(tokens, from, pos) + seq![SpecTokenType::Semicolon] == span(tokens, from, pos + 1),
{
    lemma_span_one(tokens, pos);
    lemma_span_split(tokens, from, pos, pos + 1);
}

/// What `expr_stmt` read without a diagnostic is spelt by the tokens it was read from.
pub proof fn lemma_expr_stmt_spells(tokens: Seq<SpecToken>, pos: int)
    requires
        0 <= pos <= tokens.len(),
    ensures
        stmt_spells(tokens, pos, Seq::empty(), expr_stmt(tokens, pos)),
    decreases remaining(tokens, pos), 23nat,
{
    lemma_expression_spells(tokens, pos);
    let e = expression(tokens, pos);
    if e.result is Ok && check(tokens, e.next, SpecTokenType::Semicolon) {
        lemma_semicolon_spells(tokens, pos, e.next);
        assert(Seq::<SpecTokenType>::empty() + span(tokens, pos, e.next + 1) =~= span(
            tokens,
            pos,
            e.next + 1,
        ));
    }
}

/// What `print_stmt` read without a diagnostic is spelt by the tokens it was read from.
pub proof fn lemma_print_stmt_spells(tokens: Seq<SpecToken>, pos: int)
    requires
        0 <= pos <= tokens.len(),
    ensures
        stmt_spells(tokens, pos, seq![SpecTokenType::Print], print_stmt(tokens, pos)),
    decreases remaining(tokens, pos), 23nat,
{
    lemma_expression_spells(tokens, pos);
    let e = expression(tokens, pos);
    if e.result is Ok && check(tokens, e.next, SpecTokenType::Semicolon) {
        lemma_semicolon_spells(tokens, pos, e.next);
    }
}

/// What `var_decl` read without a diagnostic is spelt by the tokens it was read from.
pub proof fn lemma_var_decl_spells(tokens: Seq<SpecToken>, pos: int)
    requires
        0 <= pos <= tokens.len(),
    ensures
        stmt_spells(tokens, pos, seq![SpecTokenType::Var], var_decl(tokens, pos)),
    decreases remaining(tokens, pos), 23nat,
{
    if check(tokens, pos, SpecTokenType::Identifier) {
        lemma_span_one(tokens, pos);
        if check(tokens, pos + 1, SpecTokenType::Equal) {
            lemma_span_one(tokens, pos + 1);
            lemma_expression_spells(tokens, pos + 2);
            let e = expression(tokens, pos + 2);
            if e.result is Ok && check(tokens, e.next, SpecTokenType::Semicolon) {
                lemma_semicolon_spells(tokens, pos + 2, e.next);
                lemma_span_split(tokens, pos, pos + 1, pos + 2);
                lemma_span_split(tokens, pos, pos + 2, e.next + 1);
                assert(seq![tokens[pos].kind] + seq![SpecTokenType::Equal] + span(tokens, pos + 2, e.next)
                    + seq![SpecTokenType::Semicolon] =~= span(tokens, pos, e.next + 1));
            }
        } else if check(tokens, pos + 1, SpecTokenType::Semicolon) {
            lemma_semicolon_spells(tokens, pos, pos + 1);
        }
    }
}

/// What `block_stmt` read without a diagnostic is spelt by the tokens it was read from.
pub proof fn lemma_block_stmt_spells(tokens: Seq<SpecToken>, pos: int)
    requires
        0 <= pos <= tokens.len(),
    ensures
        stmt_spells(tokens, pos, seq![SpecTokenType::LeftBrace], block_stmt(tokens, pos)),
    decreases remaining(tokens, pos), 28nat,
{
    lemma_declarations_spell(tokens, pos, true);
    let items = declarations(tokens, pos, true);
    if items.errors.len() == 0 && check(tokens, items.next, SpecTokenType::RightBrace) {
        lemma_span_one(tokens, items.next);
        lemma_span_split(tokens, pos, items.next, items.next + 1);
    }
}

/// What `if_stmt` read without a diagnostic is spelt by the tokens it was read from.
pub proof fn lemma_if_stmt_spells(tokens: Seq<SpecToken>, pos: int)
    requires
        0 <= pos <= tokens.len(),
    ensures
        stmt_spells(tokens, pos, seq![SpecTokenType::If], if_stmt(tokens, pos)),
    decreases remaining(tokens, pos), 25nat,
{
    lemma_expression_advances(tokens, pos);
    lemma_expression_spells(tokens, pos);
    let c = expression(tokens, pos);
    if c.result is Ok {
        lemma_statement_advances(tokens, c.next);
        lemma_statement_spells(tokens, c.next);
        let t = statement(tokens, c.next);
        if t.result is Ok && t.errors.len() == 0 {
            lemma_span_split(tokens, pos, c.next, t.next);
            assert(Seq::<SpecTokenType>::empty() + span(tokens, c.next, t.next) =~= span(
                tokens,
                c.next,
                t.next,
            ));
            if check(tokens, t.next, SpecTokenType::Else) {
                lemma_statement_spells(tokens, t.next + 1);
                let e = statement(tokens, t.next + 1);
                if e.result is Ok && e.errors.len() == 0 {
                    lemma_span_one(tokens, t.next);
                    lemma_span_split(tokens, pos, t.next, t.next + 1);
                    lemma_span_split(tokens, pos, t.next + 1, e.next);
                    assert(Seq::<SpecTokenType>::empty() + span(tokens, t.next + 1, e.next) =~= span(
                        tokens,
                        t.next + 1,
                        e.next,
                    ));
                    assert(t.errors + e.errors =~= Seq::empty());
                    assert(span(tokens, pos, t.next) + (seq![SpecTokenType::Else] + span(
                        tokens,
                        t.next + 1,
                        e.next,
                    )) =~= span(tokens, pos, e.next));
                }
            } else {
                assert(span(tokens, pos, t.next) + Seq::<SpecTokenType>::empty() =~= span(
                    tokens,
                    pos,
                    t.next,
                ));
            }
        }
    }
}

/// What `statement` read without a diagnostic is spelt by the tokens it was read from.
pub proof fn lemma_statement_spells(tokens: Seq<SpecToken>, pos: int)
    requires
        0 <= pos <= tokens.len(),
    ensures
        stmt_spells(tokens, pos, Seq::empty(), statement(tokens, pos)),
    decreases remaining(tokens, pos), 24nat,
{
    if check(tokens, pos, SpecTokenType::Print) {
        lemma_print_stmt_spells(tokens, pos + 1);
        lemma_keyword_spells(tokens, pos, SpecTokenType::Print, print_stmt(tokens, pos + 1));
    } else if check(tokens, pos, SpecTokenType::LeftBrace) {
        lemma_block_stmt_spells(tokens, pos + 1);
        lemma_keyword_spells(tokens, pos, SpecTokenType::LeftBrace, block_stmt(tokens, pos + 1));
    } else if check(tokens, pos, SpecTokenType::If) {
        lemma_if_stmt_spells(tokens, pos + 1);
        lemma_keyword_spells(tokens, pos, SpecTokenType::If, if_stmt(tokens, pos + 1));
    } else {
        lemma_expr_stmt_spells(tokens, pos);
    }
}

/// A statement that is spelt by a keyword and what follows it.
proof fn lemma_keyword_spells(tokens: Seq<SpecToken>, pos: int, keyword: SpecTokenType, p: ParsedStmt)
    requires
        0 <= pos < tokens.len(),
        tokens[pos].kind == keyword,
        stmt_spells(tokens, pos + 1, seq![keyword], p),
    ensures
        stmt_spells(tokens, pos, Seq::empty(), p),
{
    if p.result is Ok && p.errors.len() == 0 {
        lemma_span_one(tokens, pos);
        lemma_span_split(tokens, pos, pos + 1, p.next);
        assert(Seq::<SpecTokenType>::empty() + span(tokens, pos, p.next) =~= span(tokens, pos, p.next));
    }
}

/// What `declaration` read without a diagnostic is spelt by the tokens it was read from.
pub proof fn lemma_declaration_spells(tokens: Seq<SpecToken>, pos: int)
    requires
        0 <= pos <= tokens.len(),
    ensures
        stmt_spells(tokens, pos, Seq::empty(), declaration(tokens, pos)),
    decreases remaining(tokens, pos), 26nat,
{
    if check(tokens, pos, SpecTokenType::Var) {
        lemma_var_decl_spells(tokens, pos + 1);
        lemma_keyword_spells(tokens, pos, SpecTokenType::Var, var_decl(tokens, pos + 1));
    } else {
        lemma_statement_spells(tokens, pos);
    }
}

/// The declarations that were read from `pos` on, where none failed, are
/// spelt by the tokens they were read from.
pub proof fn lemma_declarations_spell(tokens: Seq<SpecToken>, pos: int, in_block: bool)
    requires
        0 <= pos <= tokens.len(),
    ensures
        declarations(tokens, pos, in_block).errors.len() == 0 ==> pos <= declarations(
            tokens,
            pos,
            in_block,
        ).next <= tokens.len() && stmts_spelling(declarations(tokens, pos, in_block).statements) == span(
            tokens,
            pos,
            declarations(tokens, pos, in_block).next,
        ),
    decreases remaining(tokens, pos), 27nat,
{
    let items = declarations(tokens, pos, in_block);
    if at_end(tokens, pos) || (in_block && tokens[pos].kind is RightBrace) {
        assert(span(tokens, pos, pos) =~= Seq::<SpecTokenType>::empty());
    } else if items.errors.len() == 0 {
        lemma_declaration_advances(tokens, pos);
        lemma_declarations_advance(tokens, pos, in_block);
        lemma_declaration_spells(tokens, pos);
        let d = declaration(tokens, pos);
        if let Ok(stmt) = d.result {
            let rest = declarations(tokens, d.next, in_block);
            assert(d.errors.len() == 0 && rest.errors.len() == 0) by {
                assert((d.errors + rest.errors).len() == d.errors.len() + rest.errors.len());
            }
            lemma_declarations_spell(tokens, d.next, in_block);
            lemma_span_split(tokens, pos, d.next, rest.next);
            assert((seq![stmt] + rest.statements).drop_first() =~= rest.statements);
            assert(Seq::<SpecTokenType>::empty() + span(tokens, pos, d.next) =~= span(tokens, pos, d.next));
        } else {
            assert(items.errors.len() > 0);
        }
    }
}

/// A program that gave no syntax diagnostic is spelt by its tokens: its
/// statements, one after another, are the tokens before the sentinel, none
/// left out and none added.
pub proof fn law_program_spells_its_tokens(tokens: Seq<SpecToken>)
    requires
        program(tokens).errors.len() == 0,
    ensures
        0 <= program(tokens).next <= tokens.len(),
        at_end(tokens, program(tokens).next),
        stmts_spelling(program(tokens).statements) == kinds(tokens.subrange(0, program(tokens).next)),
{
    lemma_declarations_spell(tokens, 0, false);
    lemma_declarations_advance(tokens, 0, false);
}

} // verus!
