use crate::ast::{SpecExpr, SpecStmt};
use crate::lexical::end_of_input;
use crate::token::{SpecToken, SpecTokenType};
use vstd::prelude::*;

verus! {

/// A syntax diagnostic as a mathematical value, with the offending token.
pub enum SpecParserError {
    ExpectExpression(SpecToken),
    ExpectRightParen(SpecToken),
    ExpectRightBrace(SpecToken),
    ExpectSemicolon(SpecToken),
    ExpectIdentifier(SpecToken),
    InvalidAssignmentTarget(SpecToken),
}

impl SpecParserError {
    /// Whether the parser skips ahead to a point where a statement can start
    /// before it goes on.
    pub open spec fn should_panic(self) -> bool {
        self is ExpectExpression || self is ExpectRightParen || self is ExpectSemicolon
            || self is ExpectIdentifier
    }

    /// The offending token.
    pub open spec fn token(self) -> SpecToken {
        match self {
            SpecParserError::ExpectExpression(t) => t,
            SpecParserError::ExpectRightParen(t) => t,
            SpecParserError::ExpectRightBrace(t) => t,
            SpecParserError::ExpectSemicolon(t) => t,
            SpecParserError::ExpectIdentifier(t) => t,
            SpecParserError::InvalidAssignmentTarget(t) => t,
        }
    }

    /// What went wrong, in words.
    pub open spec fn message(self) -> Seq<char> {
        match self {
            SpecParserError::ExpectExpression(_) => "Expect expression"@,
            SpecParserError::ExpectRightParen(_) => "Expect ')' after expression"@,
            SpecParserError::ExpectRightBrace(_) => "Expect '}' after block"@,
            SpecParserError::ExpectSemicolon(_) => "Expect ';' at the end of statement"@,
            SpecParserError::ExpectIdentifier(_) => "Expect identifier after `var`"@,
            SpecParserError::InvalidAssignmentTarget(_) => "Invalid assignment target"@,
        }
    }
}

/// The outcome of reading an expression: the expression or the diagnostic,
/// and the position of the first token that was not read.
pub struct ParsedExpr {
    pub result: Result<SpecExpr, SpecParserError>,
    pub next: int,
}

/// The outcome of reading a statement: the statement or the diagnostic, the
/// position of the first token that was not read, and the diagnostics of the
/// statements inside it, which were recovered from.
pub struct ParsedStmt {
    pub result: Result<SpecStmt, SpecParserError>,
    pub next: int,
    pub errors: Seq<SpecParserError>,
}

/// The outcome of reading a run of declarations.
pub struct ParsedItems {
    pub statements: Seq<SpecStmt>,
    pub errors: Seq<SpecParserError>,
    pub next: int,
}

/// No token is left to read at `pos`: the stream is over or holds the sentinel there.
pub open spec fn at_end(tokens: Seq<SpecToken>, pos: int) -> bool {
    pos < 0 || pos >= tokens.len() || tokens[pos].kind is EndOfInput
}

/// The token at `pos`. Past the last token it is a sentinel on the last line.
pub open spec fn current(tokens: Seq<SpecToken>, pos: int) -> SpecToken {
    if 0 <= pos < tokens.len() {
        tokens[pos]
    } else {
        end_of_input(
            if tokens.len() > 0 {
                tokens.last().line
            } else {
                1
            },
        )
    }
}

/// A token of the kind of `kind` is at `pos`.
pub open spec fn check(tokens: Seq<SpecToken>, pos: int, kind: SpecTokenType) -> bool {
    !at_end(tokens, pos) && tokens[pos].kind.same_kind(kind)
}

/// The number of tokens from `pos` on.
pub open spec fn remaining(tokens: Seq<SpecToken>, pos: int) -> nat {
    if pos <= tokens.len() {
        (tokens.len() - pos) as nat
    } else {
        0
    }
}

/// An outcome that ends at `from` or later. Every outcome of this grammar
/// does (see the lemmas at the end of this file), so this changes none; it
/// is what makes the definitions below well founded.
pub open spec fn forward(from: int, p: ParsedExpr) -> ParsedExpr {
    if p.next >= from {
        p
    } else {
        ParsedExpr { result: p.result, next: from }
    }
}

/// As `forward`, for statements.
pub open spec fn forward_stmt(from: int, p: ParsedStmt) -> ParsedStmt {
    if p.next >= from {
        p
    } else {
        ParsedStmt { result: p.result, next: from, errors: p.errors }
    }
}

/// The levels of binary operators, from the one that binds least.
#[derive(Debug, Clone, Copy, PartialEq, Eq, Structural)]
pub enum Level {
    Or,
    And,
    Equality,
    Comparison,
    Term,
    Factor,
}

impl Level {
    /// The place of the level: the less its operators bind, the higher.
    pub open spec fn rank(self) -> nat {
        match self {
            Level::Or => 6,
            Level::And => 5,
            Level::Equality => 4,
            Level::Comparison => 3,
            Level::Term => 2,
            Level::Factor => 1,
        }
    }

    /// The operators of the level.
    pub open spec fn has_operator(self, kind: SpecTokenType) -> bool {
        match self {
            Level::Or => kind is Or,
            Level::And => kind is And,
            Level::Equality => kind is EqualEqual || kind is BangEqual,
            Level::Comparison => kind is Greater || kind is GreaterEqual || kind is Less
                || kind is LessEqual,
            Level::Term => kind is Plus || kind is Minus,
            Level::Factor => kind is Star || kind is Slash,
        }
    }

    /// The node for two operands of the level and the operator between them.
    pub open spec fn join(self, left: SpecExpr, operator: SpecToken, right: SpecExpr) -> SpecExpr {
        match self {
            Level::Or | Level::And => SpecExpr::Logical {
                left: Box::new(left),
                operator,
                right: Box::new(right),
            },
            _ => SpecExpr::Binary { left: Box::new(left), operator, right: Box::new(right) },
        }
    }
}

/// `primary := NUMBER | STRING | "true" | "false" | "nil" | IDENTIFIER | "(" expression ")"`
pub open spec fn primary(tokens: Seq<SpecToken>, pos: int) -> ParsedExpr
    decreases remaining(tokens, pos), 0nat,
{
    if at_end(tokens, pos) {
        ParsedExpr { result: Err(SpecParserError::ExpectExpression(current(tokens, pos))), next: pos }
    } else {
        match tokens[pos].kind {
            SpecTokenType::String(_)
            | SpecTokenType::Number(_)
            | SpecTokenType::True
            | SpecTokenType::False
            | SpecTokenType::Nil => ParsedExpr {
                result: Ok(SpecExpr::Literal { value: tokens[pos] }),
                next: pos + 1,
            },
            SpecTokenType::Identifier => ParsedExpr {
                result: Ok(SpecExpr::Variable { name: tokens[pos] }),
                next: pos + 1,
            },
            SpecTokenType::LeftParen => {
                let inner = expression(tokens, pos + 1);
                match inner.result {
                    Ok(e) => if check(tokens, inner.next, SpecTokenType::RightParen) {
                        ParsedExpr {
                            result: Ok(SpecExpr::Grouping { expression: Box::new(e) }),
                            next: inner.next + 1,
                        }
                    } else {
                        ParsedExpr {
                            result: Err(SpecParserError::ExpectRightParen(current(tokens, inner.next))),
                            next: inner.next,
                        }
                    },
                    Err(_) => inner,
                }
            },
            _ => ParsedExpr { result: Err(SpecParserError::ExpectExpression(tokens[pos])), next: pos },
        }
    }
}

/// `unary := ("!" | "-") unary | primary`
pub open spec fn unary(tokens: Seq<SpecToken>, pos: int) -> ParsedExpr
    decreases remaining(tokens, pos), 1nat,
{
    if check(tokens, pos, SpecTokenType::Bang) || check(tokens, pos, SpecTokenType::Minus) {
        let operand = unary(tokens, pos + 1);
        match operand.result {
            Ok(right) => ParsedExpr {
                result: Ok(SpecExpr::Unary { operator: tokens[pos], right: Box::new(right) }),
                next: operand.next,
            },
            Err(_) => operand,
        }
    } else {
        primary(tokens, pos)
    }
}

/// An operand of `level`: an expression of the next level, which binds more.
pub open spec fn operand(tokens: Seq<SpecToken>, pos: int, level: Level) -> ParsedExpr
    decreases remaining(tokens, pos), 3 * level.rank(),
{
    match level {
        Level::Or => binary(tokens, pos, Level::And),
        Level::And => binary(tokens, pos, Level::Equality),
        Level::Equality => binary(tokens, pos, Level::Comparison),
        Level::Comparison => binary(tokens, pos, Level::Term),
        Level::Term => binary(tokens, pos, Level::Factor),
        Level::Factor => unary(tokens, pos),
    }
}

/// `level := operand ( operator operand )*`, which groups to the left.
pub open spec fn binary(tokens: Seq<SpecToken>, pos: int, level: Level) -> ParsedExpr
    decreases remaining(tokens, pos), 3 * level.rank() + 2,
{
    let first = forward(pos, operand(tokens, pos, level));
    match first.result {
        Ok(left) => binary_tail(tokens, first.next, level, left),
        Err(_) => first,
    }
}

/// The rest of an expression of `level` after its operands so far, which make up `left`.
pub open spec fn binary_tail(tokens: Seq<SpecToken>, pos: int, level: Level, left: SpecExpr) -> ParsedExpr
    decreases remaining(tokens, pos), 3 * level.rank() + 1,
{
    if !at_end(tokens, pos) && level.has_operator(tokens[pos].kind) {
        let second = forward(pos + 1, operand(tokens, pos + 1, level));
        match second.result {
            Ok(right) => binary_tail(tokens, second.next, level, level.join(left, tokens[pos], right)),
            Err(_) => second,
        }
    } else {
        ParsedExpr { result: Ok(left), next: pos }
    }
}

/// `assignment := logic_or ( "=" assignment )?`, which groups to the right.
/// Only a variable can stand to the left of `=`. After anything else the
/// diagnostic is given at the `=`, and what follows it is left to be read.
pub open spec fn assignment(tokens: Seq<SpecToken>, pos: int) -> ParsedExpr
    decreases remaining(tokens, pos), 21nat,
{
    let target = forward(pos, binary(tokens, pos, Level::Or));
    match target.result {
        Ok(left) => if check(tokens, target.next, SpecTokenType::Equal) {
            match left {
                SpecExpr::Variable { name } => {
                    let source = assignment(tokens, target.next + 1);
                    match source.result {
                        Ok(value) => ParsedExpr {
                            result: Ok(SpecExpr::Assignment { var_name: name, value: Box::new(value) }),
                            next: source.next,
                        },
                        Err(_) => source,
                    }
                },
                _ => ParsedExpr {
                    result: Err(SpecParserError::InvalidAssignmentTarget(tokens[target.next])),
                    next: target.next + 1,
                },
            }
        } else {
            target
        },
        Err(_) => target,
    }
}

/// `expression := assignment`
pub open spec fn expression(tokens: Seq<SpecToken>, pos: int) -> ParsedExpr
    decreases remaining(tokens, pos), 22nat,
{
    assignment(tokens, pos)
}

/// The `;` that closes the statement `stmt`, whose expression was read up to `pos`.
pub open spec fn semicolon(tokens: Seq<SpecToken>, pos: int, stmt: SpecStmt) -> ParsedStmt {
    if check(tokens, pos, SpecTokenType::Semicolon) {
        ParsedStmt { result: Ok(stmt), next: pos + 1, errors: Seq::empty() }
    } else {
        ParsedStmt {
            result: Err(SpecParserError::ExpectSemicolon(current(tokens, pos))),
            next: pos,
            errors: Seq::empty(),
        }
    }
}

/// The outcome of a statement whose expression failed.
pub open spec fn failed(error: SpecParserError, next: int) -> ParsedStmt {
    ParsedStmt { result: Err(error), next, errors: Seq::empty() }
}

/// `expression ";"`
pub open spec fn expr_stmt(tokens: Seq<SpecToken>, pos: int) -> ParsedStmt
    decreases remaining(tokens, pos), 23nat,
{
    let e = expression(tokens, pos);
    match e.result {
        Ok(expr) => semicolon(tokens, e.next, SpecStmt::Expr { expr }),
        Err(error) => failed(error, e.next),
    }
}

/// `"print" expression ";"`, from the token after `print`.
pub open spec fn print_stmt(tokens: Seq<SpecToken>, pos: int) -> ParsedStmt
    decreases remaining(tokens, pos), 23nat,
{
    let e = expression(tokens, pos);
    match e.result {
        Ok(expr) => semicolon(tokens, e.next, SpecStmt::Print { expr }),
        Err(error) => failed(error, e.next),
    }
}

/// `"var" identifier ("=" expression)? ";"`, from the token after `var`.
pub open spec fn var_decl(tokens: Seq<SpecToken>, pos: int) -> ParsedStmt
    decreases remaining(tokens, pos), 23nat,
{
    if check(tokens, pos, SpecTokenType::Identifier) {
        if check(tokens, pos + 1, SpecTokenType::Equal) {
            let e = expression(tokens, pos + 2);
            match e.result {
                Ok(expr) => semicolon(
                    tokens,
                    e.next,
                    SpecStmt::VarDecl { var_name: tokens[pos], initializer: Some(expr) },
                ),
                Err(error) => failed(error, e.next),
            }
        } else {
            semicolon(tokens, pos + 1, SpecStmt::VarDecl { var_name: tokens[pos], initializer: None })
        }
    } else {
        failed(SpecParserError::ExpectIdentifier(current(tokens, pos)), pos)
    }
}

/// `"{" declaration* "}"`, from the token after `{`.
pub open spec fn block_stmt(tokens: Seq<SpecToken>, pos: int) -> ParsedStmt
    decreases remaining(tokens, pos), 28nat,
{
    let items = declarations(tokens, pos, true);
    if check(tokens, items.next, SpecTokenType::RightBrace) {
        ParsedStmt {
            result: Ok(SpecStmt::Block { stmt_list: items.statements }),
            next: items.next + 1,
            errors: items.errors,
        }
    } else {
        ParsedStmt {
            result: Err(SpecParserError::ExpectRightBrace(current(tokens, items.next))),
            next: items.next,
            errors: items.errors,
        }
    }
}

/// `"if" expression statement ("else" statement)?`, from the token after
/// `if`. An `else` belongs to the nearest `if` that has none yet.
pub open spec fn if_stmt(tokens: Seq<SpecToken>, pos: int) -> ParsedStmt
    decreases remaining(tokens, pos), 25nat,
{
    let c = forward(pos, expression(tokens, pos));
    match c.result {
        Ok(condition) => {
            let t = forward_stmt(c.next, statement(tokens, c.next));
            match t.result {
                Ok(then_stmt) => if check(tokens, t.next, SpecTokenType::Else) {
                    let e = statement(tokens, t.next + 1);
                    match e.result {
                        Ok(else_stmt) => ParsedStmt {
                            result: Ok(
                                SpecStmt::If {
                                    condition,
                                    then_stmt: Box::new(then_stmt),
                                    else_stmt: Some(Box::new(else_stmt)),
                                },
                            ),
                            next: e.next,
                            errors: t.errors + e.errors,
                        },
                        Err(error) => ParsedStmt {
                            result: Err(error),
                            next: e.next,
                            errors: t.errors + e.errors,
                        },
                    }
                } else {
                    ParsedStmt {
                        result: Ok(
                            SpecStmt::If { condition, then_stmt: Box::new(then_stmt), else_stmt: None },
                        ),
                        next: t.next,
                        errors: t.errors,
                    }
                },
                Err(_) => t,
            }
        },
        Err(error) => failed(error, c.next),
    }
}

/// `statement := "print" expression ";" | "{" declaration* "}" | "if" ... | expression ";"`
pub open spec fn statement(tokens: Seq<SpecToken>, pos: int) -> ParsedStmt
    decreases remaining(tokens, pos), 24nat,
{
    if check(tokens, pos, SpecTokenType::Print) {
        print_stmt(tokens, pos + 1)
    } else if check(tokens, pos, SpecTokenType::LeftBrace) {
        block_stmt(tokens, pos + 1)
    } else if check(tokens, pos, SpecTokenType::If) {
        if_stmt(tokens, pos + 1)
    } else {
        expr_stmt(tokens, pos)
    }
}

/// `declaration := "var" identifier ("=" expression)? ";" | statement`
pub open spec fn declaration(tokens: Seq<SpecToken>, pos: int) -> ParsedStmt
    decreases remaining(tokens, pos), 26nat,
{
    if check(tokens, pos, SpecTokenType::Var) {
        var_decl(tokens, pos + 1)
    } else {
        statement(tokens, pos)
    }
}

/// The kinds of token that start a statement.
pub open spec fn starts_statement(kind: SpecTokenType) -> bool {
    kind is Class || kind is Fun || kind is Var || kind is For || kind is If || kind is While
        || kind is Print || kind is Return
}

/// A statement may start at `pos`: the input is over there, the token
/// before is a `;`, or the token there starts a statement.
pub open spec fn is_resume_point(tokens: Seq<SpecToken>, pos: int) -> bool {
    at_end(tokens, pos) || (pos >= 1 && tokens[pos - 1].kind is Semicolon) || starts_statement(
        tokens[pos].kind,
    )
}

/// The first position from `pos` on at which a statement may start.
pub open spec fn next_resume_point(tokens: Seq<SpecToken>, pos: int) -> int
    decreases remaining(tokens, pos),
{
    if is_resume_point(tokens, pos) {
        pos
    } else {
        next_resume_point(tokens, pos + 1)
    }
}

/// Where reading goes on after a diagnostic at `pos`: at the first position
/// after `pos` at which a statement may start, or at `pos` if the input is
/// over there.
pub open spec fn synchronize(tokens: Seq<SpecToken>, pos: int) -> int {
    if at_end(tokens, pos) {
        pos
    } else {
        next_resume_point(tokens, pos + 1)
    }
}

/// Where reading goes on after the declaration with outcome `d`.
pub open spec fn resume(tokens: Seq<SpecToken>, d: ParsedStmt) -> int {
    match d.result {
        Ok(_) => d.next,
        Err(error) => if error.should_panic() {
            synchronize(tokens, d.next)
        } else {
            d.next
        },
    }
}

/// `declaration*`, up to the end of the input and, inside a block, up to
/// the `}` that closes it. A declaration that fails gives its diagnostic
/// and no statement, and reading goes on after it.
pub open spec fn declarations(tokens: Seq<SpecToken>, pos: int, in_block: bool) -> ParsedItems
    decreases remaining(tokens, pos), 27nat,
{
    if at_end(tokens, pos) || (in_block && tokens[pos].kind is RightBrace) {
        ParsedItems { statements: Seq::empty(), errors: Seq::empty(), next: pos }
    } else {
        let d = declaration(tokens, pos);
        let statements = match d.result {
            Ok(stmt) => seq![stmt],
            Err(_) => Seq::empty(),
        };
        let errors = match d.result {
            Ok(_) => d.errors,
            Err(error) => d.errors.push(error),
        };
        let next = resume(tokens, d);
        if next > pos {
            let rest = declarations(tokens, next, in_block);
            ParsedItems {
                statements: statements + rest.statements,
                errors: errors + rest.errors,
                next: rest.next,
            }
        } else {
            ParsedItems { statements, errors, next: pos }
        }
    }
}

/// `program := declaration* EndOfInput`
pub open spec fn program(tokens: Seq<SpecToken>) -> ParsedItems {
    declarations(tokens, 0, false)
}

/// An outcome that began at `pos` ends there or later, and later unless it
/// is a diagnostic after which the parser skips ahead.
pub open spec fn advances(pos: int, failure: Option<SpecParserError>, next: int) -> bool {
    &&& next >= pos
    &&& failure is None ==> next > pos
    &&& (failure matches Some(e) && !e.should_panic()) ==> next > pos
}

/// As `advances`, for the outcome of reading an expression.
pub open spec fn expr_advances(pos: int, p: ParsedExpr) -> bool {
    advances(
        pos,
        match p.result {
            Ok(_) => None,
            Err(e) => Some(e),
        },
        p.next,
    )
}

/// As `advances`, for the outcome of reading a statement.
pub open spec fn stmt_advances(pos: int, p: ParsedStmt) -> bool {
    advances(
        pos,
        match p.result {
            Ok(_) => None,
            Err(e) => Some(e),
        },
        p.next,
    )
}

/// The outcome of what follows a keyword or a brace at `pos - 1`.
pub open spec fn continues(pos: int, p: ParsedStmt) -> bool {
    p.next >= pos && stmt_advances(pos - 1, p)
}

/// The run of declarations stops at `pos`.
pub open spec fn stops(tokens: Seq<SpecToken>, pos: int, in_block: bool) -> bool {
    at_end(tokens, pos) || (in_block && tokens[pos].kind is RightBrace)
}

/// What `primary` reads ends where it began or later, and later where it
/// gives no diagnostic after which the parser skips ahead.
pub proof fn lemma_primary_advances(tokens: Seq<SpecToken>, pos: int)
    ensures
        expr_advances(pos, primary(tokens, pos)),
    decreases remaining(tokens, pos), 0nat,
{
    if !at_end(tokens, pos) && tokens[pos].kind is LeftParen {
        lemma_expression_advances(tokens, pos + 1);
    }
}

/// What `unary` reads ends where it began or later, and later where it
/// gives no diagnostic after which the parser skips ahead.
pub proof fn lemma_unary_advances(tokens: Seq<SpecToken>, pos: int)
    ensures
        expr_advances(pos, unary(tokens, pos)),
    decreases remaining(tokens, pos), 1nat,
{
    if check(tokens, pos, SpecTokenType::Bang) || check(tokens, pos, SpecTokenType::Minus) {
        lemma_unary_advances(tokens, pos + 1);
    } else {
        lemma_primary_advances(tokens, pos);
    }
}

/// What `operand` reads ends where it began or later, and later where it
/// gives no diagnostic after which the parser skips ahead.
pub proof fn lemma_operand_advances(tokens: Seq<SpecToken>, pos: int, level: Level)
    ensures
        expr_advances(pos, operand(tokens, pos, level)),
    decreases remaining(tokens, pos), 3 * level.rank(),
{
    match level {
        Level::Or => lemma_binary_advances(tokens, pos, Level::And),
        Level::And => lemma_binary_advances(tokens, pos, Level::Equality),
        Level::Equality => lemma_binary_advances(tokens, pos, Level::Comparison),
        Level::Comparison => lemma_binary_advances(tokens, pos, Level::Term),
        Level::Term => lemma_binary_advances(tokens, pos, Level::Factor),
        Level::Factor => lemma_unary_advances(tokens, pos),
    }
}

/// What `binary` reads ends where it began or later, and later where it
/// gives no diagnostic after which the parser skips ahead.
pub proof fn lemma_binary_advances(tokens: Seq<SpecToken>, pos: int, level: Level)
    ensures
        expr_advances(pos, binary(tokens, pos, level)),
    decreases remaining(tokens, pos), 3 * level.rank() + 2,
{
    lemma_operand_advances(tokens, pos, level);
    let first = operand(tokens, pos, level);
    if let Ok(left) = first.result {
        lemma_binary_tail_advances(tokens, first.next, level, left);
    }
}

/// What `binary_tail` reads ends where it began or later.
pub proof fn lemma_binary_tail_advances(tokens: Seq<SpecToken>, pos: int, level: Level, left: SpecExpr)
    ensures
        binary_tail(tokens, pos, level, left).next >= pos,
        binary_tail(tokens, pos, level, left).result matches Err(e) ==> !e.should_panic()
            ==> binary_tail(tokens, pos, level, left).next > pos,
    decreases remaining(tokens, pos), 3 * level.rank() + 1,
{
    if !at_end(tokens, pos) && level.has_operator(tokens[pos].kind) {
        lemma_operand_advances(tokens, pos + 1, level);
        let second = operand(tokens, pos + 1, level);
        if let Ok(right) = second.result {
            lemma_binary_tail_advances(tokens, second.next, level, level.join(left, tokens[pos], right));
        }
    }
}

/// What `assignment` reads ends where it began or later, and later where it
/// gives no diagnostic after which the parser skips ahead.
pub proof fn lemma_assignment_advances(tokens: Seq<SpecToken>, pos: int)
    ensures
        expr_advances(pos, assignment(tokens, pos)),
    decreases remaining(tokens, pos), 21nat,
{
    lemma_binary_advances(tokens, pos, Level::Or);
    let target = binary(tokens, pos, Level::Or);
    if let Ok(left) = target.result {
        if check(tokens, target.next, SpecTokenType::Equal) && left is Variable {
            lemma_assignment_advances(tokens, target.next + 1);
        }
    }
}

/// What `expression` reads ends where it began or later, and later where it
/// gives no diagnostic after which the parser skips ahead.
pub proof fn lemma_expression_advances(tokens: Seq<SpecToken>, pos: int)
    ensures
        expr_advances(pos, expression(tokens, pos)),
    decreases remaining(tokens, pos), 22nat,
{
    lemma_assignment_advances(tokens, pos);
}

/// What `expr_stmt` reads ends where it began or later, and later where it
/// gives no diagnostic after which the parser skips ahead.
pub proof fn lemma_expr_stmt_advances(tokens: Seq<SpecToken>, pos: int)
    ensures
        stmt_advances(pos, expr_stmt(tokens, pos)),
    decreases remaining(tokens, pos), 23nat,
{
    lemma_expression_advances(tokens, pos);
}

/// What `print_stmt` reads ends where it began or later, and later where it
/// gives no diagnostic after which the parser skips ahead.
pub proof fn lemma_print_stmt_advances(tokens: Seq<SpecToken>, pos: int)
    ensures
        continues(pos, print_stmt(tokens, pos)),
    decreases remaining(tokens, pos), 23nat,
{
    lemma_expression_advances(tokens, pos);
}

/// What `var_decl` reads ends where it began or later, and later where it
/// gives no diagnostic after which the parser skips ahead.
pub proof fn lemma_var_decl_advances(tokens: Seq<SpecToken>, pos: int)
    ensures
        continues(pos, var_decl(tokens, pos)),
    decreases remaining(tokens, pos), 23nat,
{
    if check(tokens, pos, SpecTokenType::Identifier) && check(tokens, pos + 1, SpecTokenType::Equal) {
        lemma_expression_advances(tokens, pos + 2);
    }
}

/// What `block_stmt` reads ends where it began or later, and later where it
/// gives no diagnostic after which the parser skips ahead.
pub proof fn lemma_block_stmt_advances(tokens: Seq<SpecToken>, pos: int)
    ensures
        continues(pos, block_stmt(tokens, pos)),
    decreases remaining(tokens, pos), 28nat,
{
    lemma_declarations_advance(tokens, pos, true);
}

/// What `if_stmt` reads ends where it began or later, and later where it
/// gives no diagnostic after which the parser skips ahead.
pub proof fn lemma_if_stmt_advances(tokens: Seq<SpecToken>, pos: int)
    ensures
        continues(pos, if_stmt(tokens, pos)),
    decreases remaining(tokens, pos), 25nat,
{
    lemma_expression_advances(tokens, pos);
    let c = expression(tokens, pos);
    if c.result is Ok {
        lemma_statement_advances(tokens, c.next);
        let t = statement(tokens, c.next);
        if t.result is Ok && check(tokens, t.next, SpecTokenType::Else) {
            lemma_statement_advances(tokens, t.next + 1);
        }
    }
}

/// What `statement` reads ends where it began or later, and later where it
/// gives no diagnostic after which the parser skips ahead.
pub proof fn lemma_statement_advances(tokens: Seq<SpecToken>, pos: int)
    ensures
        stmt_advances(pos, statement(tokens, pos)),
    decreases remaining(tokens, pos), 24nat,
{
    if check(tokens, pos, SpecTokenType::Print) {
        lemma_print_stmt_advances(tokens, pos + 1);
    } else if check(tokens, pos, SpecTokenType::LeftBrace) {
        lemma_block_stmt_advances(tokens, pos + 1);
    } else if check(tokens, pos, SpecTokenType::If) {
        lemma_if_stmt_advances(tokens, pos + 1);
    } else {
        lemma_expr_stmt_advances(tokens, pos);
    }
}

/// What `declaration` reads ends where it began or later, and later where it
/// gives no diagnostic after which the parser skips ahead.
pub proof fn lemma_declaration_advances(tokens: Seq<SpecToken>, pos: int)
    ensures
        stmt_advances(pos, declaration(tokens, pos)),
    decreases remaining(tokens, pos), 26nat,
{
    if check(tokens, pos, SpecTokenType::Var) {
        lemma_var_decl_advances(tokens, pos + 1);
    } else {
        lemma_statement_advances(tokens, pos);
    }
}

/// The first point at which a statement may start, from `pos` on, is at
/// `pos` or later, and no point between the two is one.
pub proof fn lemma_next_resume_point(tokens: Seq<SpecToken>, pos: int)
    ensures
        next_resume_point(tokens, pos) >= pos,
        is_resume_point(tokens, next_resume_point(tokens, pos)),
        forall|q: int| pos <= q < next_resume_point(tokens, pos) ==> !is_resume_point(tokens, q),
    decreases remaining(tokens, pos),
{
    if !is_resume_point(tokens, pos) {
        lemma_next_resume_point(tokens, pos + 1);
    }
}

/// After a diagnostic the parser goes on at least one token further, unless
/// the input is over.
pub proof fn lemma_synchronize_advances(tokens: Seq<SpecToken>, pos: int)
    ensures
        synchronize(tokens, pos) >= pos,
        !at_end(tokens, pos) ==> synchronize(tokens, pos) > pos,
{
    lemma_next_resume_point(tokens, pos + 1);
}

/// A run of declarations that has not stopped reads at least one token for
/// each declaration, and it ends where it stops.
pub proof fn lemma_declarations_advance(tokens: Seq<SpecToken>, pos: int, in_block: bool)
    ensures
        declarations(tokens, pos, in_block).next >= pos,
        stops(tokens, declarations(tokens, pos, in_block).next, in_block),
        !stops(tokens, pos, in_block) ==> resume(tokens, declaration(tokens, pos)) > pos,
    decreases remaining(tokens, pos), 27nat,
{
    if !stops(tokens, pos, in_block) {
        lemma_declaration_advances(tokens, pos);
        let d = declaration(tokens, pos);
        lemma_synchronize_advances(tokens, d.next);
        lemma_declarations_advance(tokens, resume(tokens, d), in_block);
    }
}

/// No outcome of this grammar ends before it began: `forward` and
/// `forward_stmt` change none.
pub proof fn lemma_forward_changes_nothing(tokens: Seq<SpecToken>, pos: int, level: Level)
    ensures
        forward(pos, operand(tokens, pos, level)) == operand(tokens, pos, level),
        forward(pos, binary(tokens, pos, level)) == binary(tokens, pos, level),
        forward(pos, expression(tokens, pos)) == expression(tokens, pos),
        forward_stmt(pos, statement(tokens, pos)) == statement(tokens, pos),
{
    lemma_operand_advances(tokens, pos, level);
    lemma_binary_advances(tokens, pos, level);
    lemma_expression_advances(tokens, pos);
    lemma_statement_advances(tokens, pos);
}

/// A program is read to the end of its input.
pub proof fn lemma_program_is_read_whole(tokens: Seq<SpecToken>)
    ensures
        at_end(tokens, program(tokens).next),
{
    lemma_declarations_advance(tokens, 0, false);
}

} // verus!
