use crate::ast::{lemma_stmt_models_push, stmt_models, Expr, SpecExpr, SpecStmt, Stmt};
use crate::grammar;
use crate::grammar::{expr_advances, stmt_advances, Level, ParsedExpr, ParsedStmt, SpecParserError};
use crate::token::{token_views, SpecToken, SpecTokenType, Token, TokenType};
use vstd::prelude::*;

verus! {

/// A syntax diagnostic, with the offending token.
#[derive(Debug, PartialEq, Eq)]
pub enum ParserError {
    /// No expression can start with this token.
    ExpectExpression(Token),
    /// A `)` should stand in place of this token.
    ExpectRightParen(Token),
    /// A `}` should stand in place of this token.
    ExpectRightBrace(Token),
    /// A `;` should stand in place of this token.
    ExpectSemicolon(Token),
    /// The name of a variable should stand in place of this token.
    ExpectIdentifier(Token),
    /// What stands to the left of this `=` cannot be assigned to.
    InvalidAssignmentTarget(Token),
}

impl View for ParserError {
    type V = SpecParserError;

    open spec fn view(&self) -> SpecParserError {
        match self {
            ParserError::ExpectExpression(t) => SpecParserError::ExpectExpression(t@),
            ParserError::ExpectRightParen(t) => SpecParserError::ExpectRightParen(t@),
            ParserError::ExpectRightBrace(t) => SpecParserError::ExpectRightBrace(t@),
            ParserError::ExpectSemicolon(t) => SpecParserError::ExpectSemicolon(t@),
            ParserError::ExpectIdentifier(t) => SpecParserError::ExpectIdentifier(t@),
            ParserError::InvalidAssignmentTarget(t) => SpecParserError::InvalidAssignmentTarget(t@),
        }
    }
}

impl Clone for ParserError {
    fn clone(&self) -> (r: Self)
        ensures
            r@ == self@,
    {
        match self {
            ParserError::ExpectExpression(t) => ParserError::ExpectExpression(t.clone()),
            ParserError::ExpectRightParen(t) => ParserError::ExpectRightParen(t.clone()),
            ParserError::ExpectRightBrace(t) => ParserError::ExpectRightBrace(t.clone()),
            ParserError::ExpectSemicolon(t) => ParserError::ExpectSemicolon(t.clone()),
            ParserError::ExpectIdentifier(t) => ParserError::ExpectIdentifier(t.clone()),
            ParserError::InvalidAssignmentTarget(t) => ParserError::InvalidAssignmentTarget(t.clone()),
        }
    }
}

impl ParserError {
    /// Whether the parser skips ahead to a point where a statement can start
    /// before it goes on.
    pub fn should_panic(&self) -> (r: bool)
        ensures
            r == self@.should_panic(),
    {
        match self {
            ParserError::ExpectExpression(_) => true,
            ParserError::ExpectRightParen(_) => true,
            ParserError::ExpectSemicolon(_) => true,
            ParserError::ExpectIdentifier(_) => true,
            ParserError::ExpectRightBrace(_) => false,
            ParserError::InvalidAssignmentTarget(_) => false,
        }
    }

    /// The offending token.
    pub fn token(&self) -> (r: &Token)
        ensures
            r@ == self@.token(),
    {
        match self {
            ParserError::ExpectExpression(t) => t,
            ParserError::ExpectRightParen(t) => t,
            ParserError::ExpectRightBrace(t) => t,
            ParserError::ExpectSemicolon(t) => t,
            ParserError::ExpectIdentifier(t) => t,
            ParserError::InvalidAssignmentTarget(t) => t,
        }
    }

    /// What went wrong, in words.
    pub fn message(&self) -> (r: &'static str)
        ensures
            r@ == self@.message(),
    {
        match self {
            ParserError::ExpectExpression(_) => "Expect expression",
            ParserError::ExpectRightParen(_) => "Expect ')' after expression",
            ParserError::ExpectRightBrace(_) => "Expect '}' after block",
            ParserError::ExpectSemicolon(_) => "Expect ';' at the end of statement",
            ParserError::ExpectIdentifier(_) => "Expect identifier after `var`",
            ParserError::InvalidAssignmentTarget(_) => "Invalid assignment target",
        }
    }
}

/// The views of a sequence of diagnostics, in order.
pub open spec fn error_views(errors: Seq<ParserError>) -> Seq<SpecParserError> {
    errors.map_values(|e: ParserError| e@)
}

/// The outcome of reading an expression as a mathematical value.
pub open spec fn expr_result_view(r: Result<Expr, ParserError>) -> Result<SpecExpr, SpecParserError> {
    match r {
        Ok(e) => Ok(e@),
        Err(e) => Err(e@),
    }
}

/// The outcome of reading a statement as a mathematical value.
pub open spec fn stmt_result_view(r: Result<Stmt, ParserError>) -> Result<SpecStmt, SpecParserError> {
    match r {
        Ok(s) => Ok(s@),
        Err(e) => Err(e@),
    }
}

/// The node for two operands of `level` and the operator between them.
fn join(level: Level, left: Expr, operator: Token, right: Expr) -> (r: Expr)
    ensures
        r@ == level.join(left@, operator@, right@),
{
    match level {
        Level::Or => Expr::Logical { left: Box::new(left), operator, right: Box::new(right) },
        Level::And => Expr::Logical { left: Box::new(left), operator, right: Box::new(right) },
        _ => Expr::Binary { left: Box::new(left), operator, right: Box::new(right) },
    }
}

/// A recursive-descent parser over one token stream.
pub struct Parser {
    tokens: Vec<Token>,
    current: usize,
    errors: Vec<ParserError>,
}

impl Parser {
    /// The tokens that the parser reads.
    pub closed spec fn stream(&self) -> Seq<SpecToken> {
        token_views(self.tokens@)
    }

    /// The parser has read nothing yet.
    pub closed spec fn is_fresh(&self) -> bool {
        self.current == 0 && self.errors@.len() == 0
    }

    spec fn wf(&self) -> bool {
        self.current <= self.tokens@.len() <= usize::MAX
    }

    /// The number of tokens that are left to read.
    spec fn left(&self) -> nat {
        grammar::remaining(self.stream(), self.current as int)
    }

    /// Only the position has changed since `before`.
    spec fn moved_from(&self, before: &Parser) -> bool {
        &&& self.wf()
        &&& self.tokens == before.tokens
        &&& self.errors == before.errors
        &&& self.current >= before.current
    }

    /// The parser has read an expression from `before` on, with the outcome `expected`.
    spec fn expr_post(&self, before: &Parser, r: Result<Expr, ParserError>, expected: ParsedExpr) -> bool {
        &&& self.moved_from(before)
        &&& self.current == expected.next
        &&& expr_result_view(r) == expected.result
        &&& expr_advances(before.current as int, expected)
    }

    /// The parser has read a statement from `before` on, with the outcome
    /// `expected`. The statement began at `from`.
    spec fn stmt_post(
        &self,
        before: &Parser,
        from: int,
        r: Result<Stmt, ParserError>,
        expected: ParsedStmt,
    ) -> bool {
        &&& self.wf()
        &&& self.tokens == before.tokens
        &&& self.current == expected.next
        &&& stmt_result_view(r) == expected.result
        &&& error_views(self.errors@) == error_views(before.errors@) + expected.errors
        &&& stmt_advances(from, expected)
    }

    /// A parser at the start of `tokens`.
    pub fn new(tokens: Vec<Token>) -> (p: Parser)
        ensures
            p.stream() == token_views(tokens@),
            p.is_fresh(),
    {
        Parser { tokens, current: 0, errors: Vec::new() }
    }

    /// Reads a whole program: its statements, in order, and the diagnostics
    /// of the declarations that failed, in order. A declaration that fails
    /// gives no statement, and reading goes on after it.
    pub fn parse(self) -> (r: (Vec<Stmt>, Vec<ParserError>))
        requires
            self.is_fresh(),
        ensures
            stmt_models(r.0@) == grammar::program(self.stream()).statements,
            error_views(r.1@) == grammar::program(self.stream()).errors,
    {
        let mut parser = self;
        assert(parser.tokens@.len() == parser.tokens.len());
        assert(error_views(parser.errors@) =~= Seq::<SpecParserError>::empty());
        let stmts = parser.declarations(false);
        assert(Seq::<SpecParserError>::empty() + grammar::program(self.stream()).errors
            =~= grammar::program(self.stream()).errors);
        (stmts, parser.errors)
    }

    /// Reads declarations up to the end of the input and, inside a block, up
    /// to the `}` that closes it.
    #[verifier::rlimit(40)]
    fn declarations(&mut self, in_block: bool) -> (stmt_list: Vec<Stmt>)
        requires
            old(self).wf(),
        ensures
            final(self).wf(),
            final(self).tokens == old(self).tokens,
            final(self).current >= old(self).current,
            final(self).current == grammar::declarations(
                old(self).stream(),
                old(self).current as int,
                in_block,
            ).next,
            stmt_models(stmt_list@) == grammar::declarations(
                old(self).stream(),
                old(self).current as int,
                in_block,
            ).statements,
            error_views(final(self).errors@) == error_views(old(self).errors@) + grammar::declarations(
                old(self).stream(),
                old(self).current as int,
                in_block,
            ).errors,
        decreases old(self).left(), 34nat,
    {
        let mut stmt_list: Vec<Stmt> = Vec::new();
        let ghost tokens = self.stream();
        let ghost goal = grammar::declarations(tokens, self.current as int, in_block);
        proof {
            assert(stmt_models(stmt_list@) + goal.statements =~= goal.statements);
        }
        loop
            invariant
                self.wf(),
                self.tokens == old(self).tokens,
                tokens == self.stream(),
                self.current >= old(self).current,
                goal == grammar::declarations(tokens, old(self).current as int, in_block),
                goal.next == grammar::declarations(tokens, self.current as int, in_block).next,
                goal.statements == stmt_models(stmt_list@) + grammar::declarations(
                    tokens,
                    self.current as int,
                    in_block,
                ).statements,
                error_views(old(self).errors@) + goal.errors == error_views(self.errors@)
                    + grammar::declarations(tokens, self.current as int, in_block).errors,
            ensures
                self.wf(),
                self.tokens == old(self).tokens,
                self.current >= old(self).current,
                goal.next == self.current,
                goal.statements == stmt_models(stmt_list@),
                error_views(old(self).errors@) + goal.errors == error_views(self.errors@),
            decreases self.left(),
        {
            let stop = match self.peek() {
                Some(t) => in_block && matches!(t.token_type, TokenType::RightBrace),
                None => true,
            };
            if stop {
                proof {
                    assert(stmt_models(stmt_list@) + Seq::<SpecStmt>::empty() =~= stmt_models(stmt_list@));
                    assert(error_views(self.errors@) + Seq::<SpecParserError>::empty() =~= error_views(
                        self.errors@,
                    ));
                }
                break ;
            }
            let ghost before = *self;
            let ghost d = grammar::declaration(tokens, self.current as int);
            let ghost rest = grammar::declarations(tokens, grammar::resume(tokens, d), in_block);
            let ghost listed = stmt_models(stmt_list@);
            match self.declaration() {
                Ok(stmt) => {
                    proof {
                        lemma_stmt_models_push(stmt_list@, stmt);
                        assert(listed.push(stmt@) + rest.statements =~= listed + (seq![stmt@]
                            + rest.statements));
                        assert((error_views(before.errors@) + d.errors) + rest.errors =~= error_views(
                            before.errors@,
                        ) + (d.errors + rest.errors));
                    }
                    stmt_list.push(stmt);
                },
                Err(err) => {
                    if err.should_panic() {
                        self.synchronize();
                    }
                    self.error(err);
                    proof {
                        assert(listed + (Seq::<SpecStmt>::empty() + rest.statements) =~= listed
                            + rest.statements);
                        assert(((error_views(before.errors@) + d.errors).push(err@)) + rest.errors
                            =~= error_views(before.errors@) + (d.errors.push(err@) + rest.errors));
                    }
                },
            }
        }
        stmt_list
    }

    /// Passes over tokens up to a point where a statement may start.
    fn synchronize(&mut self)
        requires
            old(self).wf(),
        ensures
            final(self).moved_from(old(self)),
            final(self).current == grammar::synchronize(old(self).stream(), old(self).current as int),
            !grammar::at_end(old(self).stream(), old(self).current as int) ==> final(self).current > old(
                self,
            ).current,
    {
        if self.peek().is_none() {
            return ;
        }
        self.current += 1;
        loop
            invariant
                self.moved_from(old(self)),
                self.current > old(self).current,
                grammar::next_resume_point(self.stream(), self.current as int)
                    == grammar::next_resume_point(old(self).stream(), old(self).current + 1),
            ensures
                self.moved_from(old(self)),
                self.current > old(self).current,
                self.current == grammar::next_resume_point(old(self).stream(), old(self).current + 1),
            decreases self.left(),
        {
            let starts = match self.peek() {
                Some(t) => matches!(
                    t.token_type,
                    TokenType::Class | TokenType::Fun | TokenType::Var | TokenType::For | TokenType::If
                        | TokenType::While | TokenType::Print | TokenType::Return
                ),
                None => {
                    break ;
                },
            };
            if matches!(self.previous().token_type, TokenType::Semicolon) {
                break ;
            }
            if starts {
                break ;
            }
            self.current += 1;
        }
    }

    /// `declaration := "var" identifier ("=" expression)? ";" | statement`
    fn declaration(&mut self) -> (r: Result<Stmt, ParserError>)
        requires
            old(self).wf(),
        ensures
            final(self).stmt_post(
                old(self),
                old(self).current as int,
                r,
                grammar::declaration(old(self).stream(), old(self).current as int),
            ),
        decreases old(self).left(), 33nat,
    {
        if self.match_next(TokenType::Var) {
            self.var_decl()
        } else {
            self.statement()
        }
    }

    /// Reads the `;` that closes a statement.
    fn semicolon(&mut self, stmt: Stmt) -> (r: Result<Stmt, ParserError>)
        requires
            old(self).wf(),
        ensures
            final(self).wf(),
            final(self).tokens == old(self).tokens,
            final(self).errors == old(self).errors,
            final(self).current == grammar::semicolon(
                old(self).stream(),
                old(self).current as int,
                stmt@,
            ).next,
            final(self).current >= old(self).current,
            r is Ok ==> final(self).current > old(self).current,
            r matches Err(e) ==> e@.should_panic(),
            stmt_result_view(r) == grammar::semicolon(
                old(self).stream(),
                old(self).current as int,
                stmt@,
            ).result,
    {
        match self.expect_next(TokenType::Semicolon) {
            Ok(()) => Ok(stmt),
            Err(e) => Err(e),
        }
    }

    /// `"var" identifier ("=" expression)? ";"`, after the `var`.
    fn var_decl(&mut self) -> (r: Result<Stmt, ParserError>)
        requires
            old(self).wf(),
            old(self).current >= 1,
        ensures
            final(self).stmt_post(
                old(self),
                old(self).current - 1,
                r,
                grammar::var_decl(old(self).stream(), old(self).current as int),
            ),
        decreases old(self).left(), 30nat,
    {
        proof {
            assert(error_views(self.errors@) + Seq::<SpecParserError>::empty() =~= error_views(
                self.errors@,
            ));
        }
        match self.expect_next(TokenType::Identifier) {
            Ok(()) => {},
            Err(e) => {
                return Err(e);
            },
        }
        let var_name = self.previous().clone();
        let initializer = if self.match_next(TokenType::Equal) {
            match self.expression() {
                Ok(e) => Some(e),
                Err(e) => {
                    return Err(e);
                },
            }
        } else {
            None
        };
        self.semicolon(Stmt::VarDecl { var_name, initializer })
    }

    /// `statement := "print" expression ";" | "{" declaration* "}" | "if" ... | expression ";"`
    fn statement(&mut self) -> (r: Result<Stmt, ParserError>)
        requires
            old(self).wf(),
        ensures
            final(self).stmt_post(
                old(self),
                old(self).current as int,
                r,
                grammar::statement(old(self).stream(), old(self).current as int),
            ),
        decreases old(self).left(), 31nat,
    {
        if self.match_next(TokenType::Print) {
            self.print_stmt()
        } else if self.match_next(TokenType::LeftBrace) {
            self.block_stmt()
        } else if self.match_next(TokenType::If) {
            self.if_stmt()
        } else {
            self.expr_stmt()
        }
    }

    /// `"print" expression ";"`, after the `print`.
    fn print_stmt(&mut self) -> (r: Result<Stmt, ParserError>)
        requires
            old(self).wf(),
        ensures
            final(self).stmt_post(
                old(self),
                old(self).current - 1,
                r,
                grammar::print_stmt(old(self).stream(), old(self).current as int),
            ),
        decreases old(self).left(), 30nat,
    {
        proof {
            assert(error_views(self.errors@) + Seq::<SpecParserError>::empty() =~= error_views(
                self.errors@,
            ));
        }
        let expr = match self.expression() {
            Ok(e) => e,
            Err(e) => {
                return Err(e);
            },
        };
        self.semicolon(Stmt::Print { expr })
    }

    /// `"{" declaration* "}"`, after the `{`.
    fn block_stmt(&mut self) -> (r: Result<Stmt, ParserError>)
        requires
            old(self).wf(),
            old(self).current >= 1,
        ensures
            final(self).stmt_post(
                old(self),
                old(self).current - 1,
                r,
                grammar::block_stmt(old(self).stream(), old(self).current as int),
            ),
        decreases old(self).left(), 35nat,
    {
        let stmt_list = self.declarations(true);
        match self.expect_next(TokenType::RightBrace) {
            Ok(()) => Ok(Stmt::Block { stmt_list }),
            Err(e) => Err(e),
        }
    }

    /// `expression ";"`
    fn expr_stmt(&mut self) -> (r: Result<Stmt, ParserError>)
        requires
            old(self).wf(),
        ensures
            final(self).stmt_post(
                old(self),
                old(self).current as int,
                r,
                grammar::expr_stmt(old(self).stream(), old(self).current as int),
            ),
        decreases old(self).left(), 30nat,
    {
        proof {
            assert(error_views(self.errors@) + Seq::<SpecParserError>::empty() =~= error_views(
                self.errors@,
            ));
        }
        let expr = match self.expression() {
            Ok(e) => e,
            Err(e) => {
                return Err(e);
            },
        };
        self.semicolon(Stmt::Expr { expr })
    }

    /// `"if" expression statement ("else" statement)?`, after the `if`.
    fn if_stmt(&mut self) -> (r: Result<Stmt, ParserError>)
        requires
            old(self).wf(),
            old(self).current >= 1,
        ensures
            final(self).stmt_post(
                old(self),
                old(self).current - 1,
                r,
                grammar::if_stmt(old(self).stream(), old(self).current as int),
            ),
        decreases old(self).left(), 32nat,
    {
        let ghost reported = error_views(self.errors@);
        proof {
            assert(reported + Seq::<SpecParserError>::empty() =~= reported);
        }
        let condition = match self.expression() {
            Ok(e) => e,
            Err(e) => {
                return Err(e);
            },
        };
        let ghost t = grammar::statement(self.stream(), self.current as int);
        let then_stmt = match self.statement() {
            Ok(s) => s,
            Err(e) => {
                return Err(e);
            },
        };
        if self.match_next(TokenType::Else) {
            let ghost e = grammar::statement(self.stream(), self.current as int);
            proof {
                assert((reported + t.errors) + e.errors =~= reported + (t.errors + e.errors));
            }
            match self.statement() {
                Ok(else_stmt) => Ok(
                    Stmt::If {
                        condition,
                        then_stmt: Box::new(then_stmt),
                        else_stmt: Some(Box::new(else_stmt)),
                    },
                ),
                Err(e) => Err(e),
            }
        } else {
            Ok(Stmt::If { condition, then_stmt: Box::new(then_stmt), else_stmt: None })
        }
    }

    /// `expression := assignment`
    fn expression(&mut self) -> (r: Result<Expr, ParserError>)
        requires
            old(self).wf(),
        ensures
            final(self).expr_post(
                old(self),
                r,
                grammar::expression(old(self).stream(), old(self).current as int),
            ),
        decreases old(self).left(), 29nat,
    {
        self.assignment()
    }

    /// `assignment := logic_or ( "=" assignment )?`
    fn assignment(&mut self) -> (r: Result<Expr, ParserError>)
        requires
            old(self).wf(),
        ensures
            final(self).expr_post(
                old(self),
                r,
                grammar::assignment(old(self).stream(), old(self).current as int),
            ),
        decreases old(self).left(), 28nat,
    {
        let expr = match self.or() {
            Ok(e) => e,
            Err(e) => {
                return Err(e);
            },
        };
        if self.match_next(TokenType::Equal) {
            match expr {
                Expr::Variable { name } => {
                    match self.assignment() {
                        Ok(value) => Ok(Expr::Assignment { var_name: name, value: Box::new(value) }),
                        Err(e) => Err(e),
                    }
                },
                _ => {
                    let equals = self.previous().clone();
                    Err(ParserError::InvalidAssignmentTarget(equals))
                },
            }
        } else {
            Ok(expr)
        }
    }

    /// `logic_or := logic_and ( "or" logic_and )*`
    fn or(&mut self) -> (r: Result<Expr, ParserError>)
        requires
            old(self).wf(),
        ensures
            final(self).expr_post(
                old(self),
                r,
                grammar::binary(old(self).stream(), old(self).current as int, Level::Or),
            ),
        decreases old(self).left(), 27nat,
    {
        self.binary(Level::Or)
    }

    /// `logic_and := equality ( "and" equality )*`
    fn and(&mut self) -> (r: Result<Expr, ParserError>)
        requires
            old(self).wf(),
        ensures
            final(self).expr_post(
                old(self),
                r,
                grammar::binary(old(self).stream(), old(self).current as int, Level::And),
            ),
        decreases old(self).left(), 23nat,
    {
        self.binary(Level::And)
    }

    /// `equality := comparison ( ("==" | "!=") comparison )*`
    fn equality(&mut self) -> (r: Result<Expr, ParserError>)
        requires
            old(self).wf(),
        ensures
            final(self).expr_post(
                old(self),
                r,
                grammar::binary(old(self).stream(), old(self).current as int, Level::Equality),
            ),
        decreases old(self).left(), 19nat,
    {
        self.binary(Level::Equality)
    }

    /// `comparison := term ( (">" | ">=" | "<" | "<=") term )*`
    fn comparison(&mut self) -> (r: Result<Expr, ParserError>)
        requires
            old(self).wf(),
        ensures
            final(self).expr_post(
                old(self),
                r,
                grammar::binary(old(self).stream(), old(self).current as int, Level::Comparison),
            ),
        decreases old(self).left(), 15nat,
    {
        self.binary(Level::Comparison)
    }

    /// `term := factor ( ("+" | "-") factor )*`
    fn term(&mut self) -> (r: Result<Expr, ParserError>)
        requires
            old(self).wf(),
        ensures
            final(self).expr_post(
                old(self),
                r,
                grammar::binary(old(self).stream(), old(self).current as int, Level::Term),
            ),
        decreases old(self).left(), 11nat,
    {
        self.binary(Level::Term)
    }

    /// `factor := unary ( ("*" | "/") unary )*`
    fn factor(&mut self) -> (r: Result<Expr, ParserError>)
        requires
            old(self).wf(),
        ensures
            final(self).expr_post(
                old(self),
                r,
                grammar::binary(old(self).stream(), old(self).current as int, Level::Factor),
            ),
        decreases old(self).left(), 7nat,
    {
        self.binary(Level::Factor)
    }

    /// An operand of `level`: an expression of the next level.
    fn operand(&mut self, level: Level) -> (r: Result<Expr, ParserError>)
        requires
            old(self).wf(),
        ensures
            final(self).expr_post(
                old(self),
                r,
                grammar::operand(old(self).stream(), old(self).current as int, level),
            ),
        decreases old(self).left(), 4 * level.rank(),
    {
        match level {
            Level::Or => self.and(),
            Level::And => self.equality(),
            Level::Equality => self.comparison(),
            Level::Comparison => self.term(),
            Level::Term => self.factor(),
            Level::Factor => self.unary(),
        }
    }

    /// Reads an operator of `level`, if one is next.
    fn match_operator(&mut self, level: Level) -> (r: bool)
        requires
            old(self).wf(),
        ensures
            final(self).moved_from(old(self)),
            r == (!grammar::at_end(old(self).stream(), old(self).current as int) && level.has_operator(
                old(self).stream()[old(self).current as int].kind,
            )),
            r ==> final(self).current == old(self).current + 1,
            !r ==> final(self).current == old(self).current,
    {
        match level {
            Level::Or => self.match_next(TokenType::Or),
            Level::And => self.match_next(TokenType::And),
            Level::Equality => {
                if self.match_next(TokenType::EqualEqual) {
                    true
                } else {
                    self.match_next(TokenType::BangEqual)
                }
            },
            Level::Comparison => {
                if self.match_next(TokenType::Greater) {
                    true
                } else if self.match_next(TokenType::GreaterEqual) {
                    true
                } else if self.match_next(TokenType::Less) {
                    true
                } else {
                    self.match_next(TokenType::LessEqual)
                }
            },
            Level::Term => {
                if self.match_next(TokenType::Plus) {
                    true
                } else {
                    self.match_next(TokenType::Minus)
                }
            },
            Level::Factor => {
                if self.match_next(TokenType::Star) {
                    true
                } else {
                    self.match_next(TokenType::Slash)
                }
            },
        }
    }

    /// `level := operand ( operator operand )*`, which groups to the left.
    fn binary(&mut self, level: Level) -> (r: Result<Expr, ParserError>)
        requires
            old(self).wf(),
        ensures
            final(self).expr_post(
                old(self),
                r,
                grammar::binary(old(self).stream(), old(self).current as int, level),
            ),
        decreases old(self).left(), 4 * level.rank() + 2,
    {
        let ghost tokens = self.stream();
        let ghost goal = grammar::binary(tokens, self.current as int, level);
        let mut expr = match self.operand(level) {
            Ok(e) => e,
            Err(e) => {
                return Err(e);
            },
        };
        loop
            invariant
                self.moved_from(old(self)),
                self.current > old(self).current,
                tokens == self.stream(),
                goal == grammar::binary(tokens, old(self).current as int, level),
                goal == grammar::binary_tail(tokens, self.current as int, level, expr@),
            ensures
                self.moved_from(old(self)),
                self.current > old(self).current,
                goal == (ParsedExpr { result: Ok(expr@), next: self.current as int }),
            decreases self.left(),
        {
            if !self.match_operator(level) {
                break ;
            }
            let operator = self.previous().clone();
            match self.operand(level) {
                Ok(right) => {
                    expr = join(level, expr, operator, right);
                },
                Err(e) => {
                    return Err(e);
                },
            }
        }
        Ok(expr)
    }

    /// Reads a `!` or a `-`, if one is next.
    fn match_prefix(&mut self) -> (r: bool)
        requires
            old(self).wf(),
        ensures
            final(self).moved_from(old(self)),
            r == (grammar::check(old(self).stream(), old(self).current as int, SpecTokenType::Bang)
                || grammar::check(
                old(self).stream(),
                old(self).current as int,
                SpecTokenType::Minus,
            )),
            r ==> final(self).current == old(self).current + 1,
            !r ==> final(self).current == old(self).current,
    {
        if self.match_next(TokenType::Bang) {
            true
        } else {
            self.match_next(TokenType::Minus)
        }
    }

    /// `unary := ("!" | "-") unary | primary`
    fn unary(&mut self) -> (r: Result<Expr, ParserError>)
        requires
            old(self).wf(),
        ensures
            final(self).expr_post(old(self), r, grammar::unary(old(self).stream(), old(self).current as int)),
        decreases old(self).left(), 1nat,
    {
        if self.match_prefix() {
            let operator = self.previous().clone();
            match self.unary() {
                Ok(right) => Ok(Expr::Unary { operator, right: Box::new(right) }),
                Err(e) => Err(e),
            }
        } else {
            self.primary()
        }
    }

    /// Reads a literal, if one is next.
    fn match_literal(&mut self) -> (r: bool)
        requires
            old(self).wf(),
        ensures
            final(self).moved_from(old(self)),
            r == (!grammar::at_end(old(self).stream(), old(self).current as int) && ({
                let kind = old(self).stream()[old(self).current as int].kind;
                kind is String || kind is Number || kind is True || kind is False || kind is Nil
            })),
            r ==> final(self).current == old(self).current + 1,
            !r ==> final(self).current == old(self).current,
    {
        if self.match_next(TokenType::String(String::new())) {
            true
        } else if self.match_next(TokenType::Number(String::new())) {
            true
        } else if self.match_next(TokenType::True) {
            true
        } else if self.match_next(TokenType::False) {
            true
        } else {
            self.match_next(TokenType::Nil)
        }
    }

    /// `primary := NUMBER | STRING | "true" | "false" | "nil" | IDENTIFIER | "(" expression ")"`
    fn primary(&mut self) -> (r: Result<Expr, ParserError>)
        requires
            old(self).wf(),
        ensures
            final(self).expr_post(
                old(self),
                r,
                grammar::primary(old(self).stream(), old(self).current as int),
            ),
        decreases old(self).left(), 0nat,
    {
        if self.match_literal() {
            Ok(Expr::Literal { value: self.previous().clone() })
        } else if self.match_next(TokenType::Identifier) {
            Ok(Expr::Variable { name: self.previous().clone() })
        } else if self.match_next(TokenType::LeftParen) {
            let expr = match self.expression() {
                Ok(e) => e,
                Err(e) => {
                    return Err(e);
                },
            };
            match self.expect_next(TokenType::RightParen) {
                Ok(()) => Ok(Expr::Grouping { expression: Box::new(expr) }),
                Err(e) => Err(e),
            }
        } else {
            Err(ParserError::ExpectExpression(self.current()))
        }
    }

    /// Reads the next token if it is of the kind of `expected_type`.
    fn match_next(&mut self, expected_type: TokenType) -> (r: bool)
        requires
            old(self).wf(),
        ensures
            final(self).moved_from(old(self)),
            r == grammar::check(old(self).stream(), old(self).current as int, expected_type@),
            r ==> final(self).current == old(self).current + 1,
            !r ==> final(self).current == old(self).current,
    {
        let matching = match self.peek() {
            Some(t) => t.token_type.same_kind(&expected_type),
            None => false,
        };
        if matching {
            self.current += 1;
        }
        matching
    }

    /// Reads the next token if it is of the kind of `expected_type`, and
    /// gives the diagnostic for that kind if it is not.
    fn expect_next(&mut self, expected_type: TokenType) -> (r: Result<(), ParserError>)
        requires
            old(self).wf(),
            expected_type@ is RightParen || expected_type@ is RightBrace || expected_type@ is Semicolon
                || expected_type@ is Identifier,
        ensures
            final(self).moved_from(old(self)),
            r is Ok == grammar::check(old(self).stream(), old(self).current as int, expected_type@),
            r is Ok ==> final(self).current == old(self).current + 1,
            r is Err ==> final(self).current == old(self).current,
            r matches Err(e) ==> e@.token() == grammar::current(
                old(self).stream(),
                old(self).current as int,
            ),
            r matches Err(e) ==> (match expected_type@ {
                SpecTokenType::RightParen => e@ is ExpectRightParen,
                SpecTokenType::RightBrace => e@ is ExpectRightBrace,
                SpecTokenType::Semicolon => e@ is ExpectSemicolon,
                _ => e@ is ExpectIdentifier,
            }),
    {
        let err = match expected_type {
            TokenType::RightParen => ParserError::ExpectRightParen(self.current()),
            TokenType::RightBrace => ParserError::ExpectRightBrace(self.current()),
            TokenType::Semicolon => ParserError::ExpectSemicolon(self.current()),
            _ => ParserError::ExpectIdentifier(self.current()),
        };
        if self.match_next(expected_type) {
            Ok(())
        } else {
            Err(err)
        }
    }

    /// The token that was read last.
    fn previous(&self) -> (r: &Token)
        requires
            self.wf(),
            self.current >= 1,
        ensures
            r@ == self.stream()[self.current - 1],
    {
        &self.tokens[self.current - 1]
    }

    /// The next token. Past the last token it is a sentinel on the last line.
    fn current(&self) -> (r: Token)
        requires
            self.wf(),
        ensures
            r@ == grammar::current(self.stream(), self.current as int),
    {
        if self.current < self.tokens.len() {
            self.tokens[self.current].clone()
        } else {
            let line = if self.tokens.len() > 0 {
                self.tokens[self.tokens.len() - 1].line
            } else {
                1
            };
            Token::new(TokenType::EndOfInput, String::new(), line)
        }
    }

    /// The next token, unless the input is over.
    fn peek(&self) -> (r: Option<&Token>)
        requires
            self.wf(),
        ensures
            r is None == grammar::at_end(self.stream(), self.current as int),
            r matches Some(t) ==> t@ == self.stream()[self.current as int],
    {
        if self.current < self.tokens.len() {
            let token = &self.tokens[self.current];
            if matches!(token.token_type, TokenType::EndOfInput) {
                None
            } else {
                Some(token)
            }
        } else {
            None
        }
    }

    /// Records a diagnostic.
    fn error(&mut self, err: ParserError)
        requires
            old(self).wf(),
        ensures
            final(self).wf(),
            final(self).tokens == old(self).tokens,
            final(self).current == old(self).current,
            error_views(final(self).errors@) == error_views(old(self).errors@).push(err@),
    {
        self.errors.push(err);
        assert(error_views(self.errors@) =~= error_views(old(self).errors@).push(err@));
    }
}

} // verus!
