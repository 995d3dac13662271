use crate::ast::{lemma_stmt_models, stmt_models, Expr, SpecExpr, Stmt};
use crate::environment::{Bindings, EnvironmentList};
use crate::number;
use crate::lexical::is_numeral;
use crate::scanner::is_numeral_text;
use crate::semantics;
use crate::semantics::{
    is_prefix, lemma_eval_frame, lemma_run_frame, replies_of, requests_of, Evaluated, Exchange, Executed,
    Reply, Request, SpecRuntimeError, State, Store,
};
use crate::text::decimal;
use crate::token::{SpecTokenType, Token, TokenType};
use crate::value::{LoxValue, SpecValue};
use vstd::prelude::*;

verus! {

/// The arithmetic unit of the embedding program: double-precision arithmetic
/// on binary64 patterns, and the conversion of numbers from and to text.
///
/// The interpreter states nothing of what the unit answers. It keeps a
/// record of what it asked and what it was answered, and what it computes is
/// stated over that record.
pub trait Numerics {
    /// The number that a decimal numeral stands for.
    fn parse(&self, numeral: &str) -> (bits: u64)
        requires
            is_numeral(numeral@),
    ;

    /// `a + b`
    fn sum(&self, a: u64, b: u64) -> (bits: u64);

    /// `a - b`
    fn difference(&self, a: u64, b: u64) -> (bits: u64);

    /// `a * b`
    fn product(&self, a: u64, b: u64) -> (bits: u64);

    /// `a / b`
    fn quotient(&self, a: u64, b: u64) -> (bits: u64);

    /// The number in decimal notation.
    fn render(&self, bits: u64) -> (text: String);
}

/// A runtime diagnostic, with the offending token.
#[derive(Debug, PartialEq, Eq)]
pub enum RuntimeError {
    /// A binary operator at this token has no value on its operands.
    TypeMismatchBinary(Token),
    /// A unary operator at this token has no value on its operand.
    TypeMismatchUnary(Token),
    /// This token stands where a literal should and is none.
    UnexpectedLiteralTokenType(Token),
    /// No scope binds the variable that this token names.
    UndefinedVariable(Token),
}

impl View for RuntimeError {
    type V = SpecRuntimeError;

    open spec fn view(&self) -> SpecRuntimeError {
        match self {
            RuntimeError::TypeMismatchBinary(t) => SpecRuntimeError::TypeMismatchBinary(t@),
            RuntimeError::TypeMismatchUnary(t) => SpecRuntimeError::TypeMismatchUnary(t@),
            RuntimeError::UnexpectedLiteralTokenType(t) => SpecRuntimeError::UnexpectedLiteralTokenType(t@),
            RuntimeError::UndefinedVariable(t) => SpecRuntimeError::UndefinedVariable(t@),
        }
    }
}

impl Clone for RuntimeError {
    fn clone(&self) -> (r: Self)
        ensures
            r@ == self@,
    {
        match self {
            RuntimeError::TypeMismatchBinary(t) => RuntimeError::TypeMismatchBinary(t.clone()),
            RuntimeError::TypeMismatchUnary(t) => RuntimeError::TypeMismatchUnary(t.clone()),
            RuntimeError::UnexpectedLiteralTokenType(t) => RuntimeError::UnexpectedLiteralTokenType(
                t.clone(),
            ),
            RuntimeError::UndefinedVariable(t) => RuntimeError::UndefinedVariable(t.clone()),
        }
    }
}

impl RuntimeError {
    /// The offending token.
    pub fn token(&self) -> (r: &Token)
        ensures
            r@ == self@.token(),
    {
        match self {
            RuntimeError::TypeMismatchBinary(t) => t,
            RuntimeError::TypeMismatchUnary(t) => t,
            RuntimeError::UnexpectedLiteralTokenType(t) => t,
            RuntimeError::UndefinedVariable(t) => t,
        }
    }

    /// What went wrong, in words.
    pub fn message(&self) -> (r: &'static str)
        ensures
            r@ == self@.message(),
    {
        match self {
            RuntimeError::TypeMismatchBinary(_) => "Invalid binary operand",
            RuntimeError::TypeMismatchUnary(_) => "Invalid unary operand",
            RuntimeError::UnexpectedLiteralTokenType(_) => "Unexpected literal token type",
            RuntimeError::UndefinedVariable(_) => "Undefined variable",
        }
    }

    /// The text of the diagnostic: the message, and the line of the
    /// offending token on a line of its own.
    pub fn to_err_msg(&self) -> (r: String)
        ensures
            r@ == self@.err_msg(),
    {
        let mut r = self.message().to_owned();
        r.append("\n[line ");
        r.append(decimal(self.token().line).as_str());
        r.append("]");
        r
    }
}

/// The views of a sequence of diagnostics, in order.
pub open spec fn runtime_error_views(errors: Seq<RuntimeError>) -> Seq<SpecRuntimeError> {
    errors.map_values(|e: RuntimeError| e@)
}

/// The outcome of an evaluation as a mathematical value.
pub open spec fn value_result_view(r: Result<LoxValue, RuntimeError>) -> Result<SpecValue, SpecRuntimeError> {
    match r {
        Ok(v) => Ok(v@),
        Err(e) => Err(e@),
    }
}

/// The outcome of an execution as a mathematical value.
pub open spec fn unit_result_view(r: Result<(), RuntimeError>) -> Result<(), SpecRuntimeError> {
    match r {
        Ok(_) => Ok(()),
        Err(e) => Err(e@),
    }
}

/// The value of an operator, if it has one, as a mathematical value.
pub open spec fn operation_view(r: Result<LoxValue, ()>) -> Option<SpecValue> {
    match r {
        Ok(v) => Some(v@),
        Err(_) => None,
    }
}

/// The diagnostics that a run ended with.
pub open spec fn reported(r: Result<(), Vec<RuntimeError>>) -> Seq<SpecRuntimeError> {
    match r {
        Ok(_) => Seq::empty(),
        Err(errors) => runtime_error_views(errors@),
    }
}

/// The texts of a sequence of lines, in order.
pub open spec fn line_views(lines: Seq<String>) -> Seq<Seq<char>> {
    lines.map_values(|s: String| s@)
}

/// `left != right` on values.
pub fn not_equal(left: LoxValue, right: LoxValue) -> (r: LoxValue)
    ensures
        Some(r@) == semantics::operation(SpecTokenType::BangEqual, left@, right@, 0),
{
    LoxValue::Bool(!left.equals(&right))
}

/// `left == right` on values.
pub fn equal(left: LoxValue, right: LoxValue) -> (r: LoxValue)
    ensures
        Some(r@) == semantics::operation(SpecTokenType::EqualEqual, left@, right@, 0),
{
    LoxValue::Bool(left.equals(&right))
}

/// `left > right`, which two numbers have.
pub fn greater(left: LoxValue, right: LoxValue) -> (r: Result<LoxValue, ()>)
    ensures
        operation_view(r) == semantics::operation(SpecTokenType::Greater, left@, right@, 0),
{
    match (left, right) {
        (LoxValue::Number(l), LoxValue::Number(r)) => Ok(LoxValue::Bool(number::greater(l, r))),
        _ => Err(()),
    }
}

/// `left >= right`, which two numbers have.
pub fn greater_equal(left: LoxValue, right: LoxValue) -> (r: Result<LoxValue, ()>)
    ensures
        operation_view(r) == semantics::operation(SpecTokenType::GreaterEqual, left@, right@, 0),
{
    match (left, right) {
        (LoxValue::Number(l), LoxValue::Number(r)) => Ok(LoxValue::Bool(number::greater_equal(l, r))),
        _ => Err(()),
    }
}

/// `left < right`, which two numbers have.
pub fn less(left: LoxValue, right: LoxValue) -> (r: Result<LoxValue, ()>)
    ensures
        operation_view(r) == semantics::operation(SpecTokenType::Less, left@, right@, 0),
{
    match (left, right) {
        (LoxValue::Number(l), LoxValue::Number(r)) => Ok(LoxValue::Bool(number::less(l, r))),
        _ => Err(()),
    }
}

/// `left <= right`, which two numbers have.
pub fn less_equal(left: LoxValue, right: LoxValue) -> (r: Result<LoxValue, ()>)
    ensures
        operation_view(r) == semantics::operation(SpecTokenType::LessEqual, left@, right@, 0),
{
    match (left, right) {
        (LoxValue::Number(l), LoxValue::Number(r)) => Ok(LoxValue::Bool(number::less_equal(l, r))),
        _ => Err(()),
    }
}

/// A tree-walking interpreter with its scopes, the lines it has written and
/// its arithmetic unit.
pub struct Interpreter<H: Numerics> {
    env_list: EnvironmentList,
    output: Vec<String>,
    host: H,
    log: Ghost<Seq<Exchange>>,
}

impl<H: Numerics> Interpreter<H> {
    /// The scopes, the innermost last.
    pub closed spec fn scopes(&self) -> Seq<Bindings> {
        self.env_list@
    }

    /// The lines written so far.
    pub closed spec fn printed(&self) -> Seq<Seq<char>> {
        line_views(self.output@)
    }

    /// What the arithmetic unit has been asked so far, in order.
    pub closed spec fn requests(&self) -> Seq<Request> {
        requests_of(self.log@)
    }

    /// What the arithmetic unit has answered so far, in order.
    pub closed spec fn replies(&self) -> Seq<Reply> {
        replies_of(self.log@)
    }

    /// Every request has its reply.
    pub proof fn lemma_replies(&self)
        ensures
            self.requests().len() == self.replies().len(),
    {
    }

    /// The global scope is there.
    pub open spec fn wf(&self) -> bool {
        self.scopes().len() >= 1
    }

    /// What evaluation reads and changes: the scopes and the requests made.
    pub open spec fn store(&self) -> Store {
        Store { scopes: self.scopes(), asked: self.requests() }
    }

    /// What execution reads and changes, with the diagnostics collected so far.
    pub open spec fn state(&self, errors: Seq<SpecRuntimeError>) -> State {
        State { store: self.store(), output: self.printed(), errors }
    }

    /// The interpreter has evaluated `e` since `before`, with the outcome `r`.
    spec fn evaluated(&self, before: &Self, r: Result<LoxValue, RuntimeError>, e: SpecExpr) -> bool {
        &&& self.wf()
        &&& is_prefix(before.replies(), self.replies())
        &&& self.printed() == before.printed()
        &&& self.scopes().len() == before.scopes().len()
        &&& semantics::eval(e, before.store(), self.replies()) == (Evaluated {
            result: value_result_view(r),
            store: self.store(),
        })
    }

    /// The interpreter has worked out an operator of `kind` since `before`,
    /// with the outcome `r`.
    spec fn operated(
        &self,
        before: &Self,
        kind: SpecTokenType,
        left: SpecValue,
        right: SpecValue,
        r: Result<LoxValue, ()>,
    ) -> bool {
        &&& self.scopes() == before.scopes()
        &&& self.printed() == before.printed()
        &&& self.replies() == if semantics::asks(kind, left, right) {
            before.replies().push(Reply::Number(semantics::number_at(self.replies(), before.replies().len())))
        } else {
            before.replies()
        }
        &&& self.requests() == if semantics::asks(kind, left, right) {
            before.requests().push(semantics::asked_for(kind, left, right))
        } else {
            before.requests()
        }
        &&& operation_view(r) == semantics::operation(
            kind,
            left,
            right,
            semantics::number_at(self.replies(), before.replies().len()),
        )
    }

    /// An interpreter with the global scope alone, which binds nothing, and
    /// nothing written.
    pub fn new(host: H) -> (r: Self)
        ensures
            r.wf(),
            r.scopes() == seq![Map::<Seq<char>, SpecValue>::empty()],
            r.printed().len() == 0,
            r.requests().len() == 0,
            r.replies().len() == 0,
    {
        Interpreter { env_list: EnvironmentList::new(), output: Vec::new(), host, log: Ghost(Seq::empty()) }
    }

    /// The lines written so far.
    pub fn output(&self) -> (r: &Vec<String>)
        ensures
            line_views(r@) == self.printed(),
    {
        &self.output
    }

    /// Hands over the lines written so far, and goes on with none.
    pub fn take_output(&mut self) -> (r: Vec<String>)
        ensures
            line_views(r@) == old(self).printed(),
            final(self).printed().len() == 0,
            final(self).scopes() == old(self).scopes(),
            final(self).requests() == old(self).requests(),
            final(self).replies() == old(self).replies(),
    {
        let mut r: Vec<String> = Vec::new();
        r.append(&mut self.output);
        assert(r@ =~= old(self).output@);
        r
    }

    /// The number of scopes.
    pub fn depth(&self) -> (r: usize)
        ensures
            r == self.scopes().len(),
    {
        self.env_list.depth()
    }

    /// The value of the innermost binding of `name`.
    pub fn get_var(&self, name: &str) -> (r: Option<LoxValue>)
        ensures
            match r {
                Some(v) => Some(v@),
                None => None,
            } == crate::environment::lookup(self.scopes(), name@),
    {
        match self.env_list.get_var(name) {
            Ok(v) => Some(v),
            Err(_) => None,
        }
    }

    /// Runs a program: every statement in turn, whether or not the one
    /// before failed. The result holds the diagnostics of the statements
    /// that failed, in order, and is `Ok` where none did.
    pub fn interpret(&mut self, program: Vec<Stmt>) -> (r: Result<(), Vec<RuntimeError>>)
        requires
            old(self).wf(),
        ensures
            final(self).wf(),
            is_prefix(old(self).replies(), final(self).replies()),
            final(self).scopes().len() == old(self).scopes().len(),
            final(self).state(reported(r)) == semantics::run(
                stmt_models(program@),
                old(self).state(Seq::empty()),
                final(self).replies(),
            ),
            r is Ok <==> reported(r).len() == 0,
    {
        let mut errors: Vec<RuntimeError> = Vec::new();
        assert(runtime_error_views(errors@) =~= Seq::empty());
        self.run_all(&program, &mut errors);
        if errors.len() == 0 {
            assert(runtime_error_views(errors@) =~= Seq::empty());
            Ok(())
        } else {
            Err(errors)
        }
    }

    /// Runs statements one after another and collects the diagnostics of
    /// those that failed.
    fn run_all(&mut self, stmts: &Vec<Stmt>, errors: &mut Vec<RuntimeError>)
        requires
            old(self).wf(),
        ensures
            final(self).wf(),
            is_prefix(old(self).replies(), final(self).replies()),
            final(self).scopes().len() == old(self).scopes().len(),
            final(self).state(runtime_error_views(final(errors)@)) == semantics::run(
                stmt_models(stmts@),
                old(self).state(runtime_error_views(old(errors)@)),
                final(self).replies(),
            ),
        decreases *stmts,
    {
        let ghost models = stmt_models(stmts@);
        let ghost start = self.state(runtime_error_views(errors@));
        proof {
            lemma_stmt_models(stmts@);
            assert(models.take(0) =~= Seq::empty());
        }
        let mut i: usize = 0;
        while i < stmts.len()
            invariant
                i <= stmts.len(),
                models == stmt_models(stmts@),
                models.len() == stmts.len(),
                forall|j: int| 0 <= j < stmts.len() ==> #[trigger] models[j] == stmts[j]@,
                start == old(self).state(runtime_error_views(old(errors)@)),
                self.wf(),
                is_prefix(old(self).replies(), self.replies()),
                self.scopes().len() == old(self).scopes().len(),
                self.state(runtime_error_views(errors@)) == semantics::run(
                    models.take(i as int),
                    start,
                    self.replies(),
                ),
            decreases stmts.len() - i,
        {
            let ghost asked = self.replies();
            proof {
                vstd::std_specs::vec::axiom_vec_index_decreases(*stmts, i as int);
            }
            let outcome = self.execute(&stmts[i], errors);
            proof {
                lemma_run_frame(models.take(i as int), start, asked, self.replies());
                assert(models.take(i + 1).drop_last() =~= models.take(i as int));
                assert(models.take(i + 1).last() == models[i as int]);
            }
            match outcome {
                Ok(()) => {},
                Err(err) => {
                    let ghost listed = runtime_error_views(errors@);
                    errors.push(err);
                    assert(runtime_error_views(errors@) =~= listed.push(err@));
                },
            }
            i += 1;
        }
        assert(models.take(stmts.len() as int) =~= models);
    }

    /// Executes one statement. It fails with the first diagnostic of its
    /// expressions; the diagnostics of the statements inside a block go to
    /// `errors`, and the block does not fail.
    fn execute(&mut self, stmt: &Stmt, errors: &mut Vec<RuntimeError>) -> (r: Result<(), RuntimeError>)
        requires
            old(self).wf(),
        ensures
            final(self).wf(),
            is_prefix(old(self).replies(), final(self).replies()),
            final(self).scopes().len() == old(self).scopes().len(),
            semantics::execute(
                stmt@,
                old(self).state(runtime_error_views(old(errors)@)),
                final(self).replies(),
            ) == (Executed {
                result: unit_result_view(r),
                state: final(self).state(runtime_error_views(final(errors)@)),
            }),
        decreases *stmt,
    {
        let ghost start = self.store();
        match stmt {
            Stmt::Expr { expr } => {
                match self.evaluate(expr) {
                    Ok(_) => Ok(()),
                    Err(e) => Err(e),
                }
            },
            Stmt::Print { expr } => {
                match self.evaluate(expr) {
                    Ok(val) => {
                        let ghost asked = self.replies();
                        self.print(&val);
                        proof {
                            lemma_eval_frame(expr@, start, asked, self.replies());
                        }
                        Ok(())
                    },
                    Err(e) => Err(e),
                }
            },
            Stmt::VarDecl { var_name, initializer } => {
                let init_val = match initializer {
                    Some(i) => match self.evaluate(i) {
                        Ok(v) => v,
                        Err(e) => {
                            return Err(e);
                        },
                    },
                    None => LoxValue::Nil,
                };
                self.env_list.declare_var(var_name.lexeme.as_str(), init_val);
                Ok(())
            },
            Stmt::Block { stmt_list } => {
                self.env_list.push_new_env();
                self.run_all(stmt_list, errors);
                self.env_list.pop_env();
                Ok(())
            },
            Stmt::If { condition, then_stmt, else_stmt } => {
                let decided = match self.evaluate(condition) {
                    Ok(v) => v.truthiness(),
                    Err(e) => {
                        return Err(e);
                    },
                };
                let ghost asked = self.replies();
                if decided {
                    let r = self.execute(then_stmt, errors);
                    proof {
                        lemma_eval_frame(condition@, start, asked, self.replies());
                    }
                    r
                } else {
                    match else_stmt {
                        Some(s) => {
                            let r = self.execute(s, errors);
                            proof {
                                lemma_eval_frame(condition@, start, asked, self.replies());
                            }
                            r
                        },
                        None => Ok(()),
                    }
                }
            },
        }
    }

    /// Adds an exchange to the record.
    fn record(&mut self, Ghost(request): Ghost<Request>, Ghost(reply): Ghost<Reply>)
        ensures
            final(self).scopes() == old(self).scopes(),
            final(self).printed() == old(self).printed(),
            final(self).requests() == old(self).requests().push(request),
            final(self).replies() == old(self).replies().push(reply),
            final(self).requests().len() == final(self).replies().len(),
    {
        proof {
            self.log@ = self.log@.push(Exchange { request, reply });
            assert(requests_of(self.log@) =~= requests_of(old(self).log@).push(request));
            assert(replies_of(self.log@) =~= replies_of(old(self).log@).push(reply));
        }
    }

    /// Writes the text of a value as a line.
    fn print(&mut self, value: &LoxValue)
        requires
            old(self).wf(),
        ensures
            final(self).wf(),
            is_prefix(old(self).replies(), final(self).replies()),
            final(self).scopes() == old(self).scopes(),
            forall|errors: Seq<SpecRuntimeError>| #[trigger]
                final(self).state(errors) == semantics::print(
                    value@,
                    old(self).state(errors),
                    final(self).replies(),
                ),
    {
        let ghost lines = self.printed();
        let line = match value {
            LoxValue::Nil => "nil".to_owned(),
            LoxValue::Bool(b) => if *b {
                "true".to_owned()
            } else {
                "false".to_owned()
            },
            LoxValue::Number(n) => {
                let text = self.host.render(*n);
                self.record(Ghost(Request::Render(*n)), Ghost(Reply::Text(text@)));
                text
            },
            LoxValue::String(s) => s.clone(),
        };
        self.output.push(line);
        assert(self.printed() =~= lines.push(line@));
    }

    /// Evaluates an expression.
    fn evaluate(&mut self, expr: &Expr) -> (r: Result<LoxValue, RuntimeError>)
        requires
            old(self).wf(),
        ensures
            final(self).evaluated(old(self), r, expr@),
        decreases *expr, 1nat,
    {
        match expr {
            Expr::Binary { left, operator, right } => self.evaluate_binary(left, operator, right),
            Expr::Grouping { expression } => self.evaluate(expression),
            Expr::Literal { value } => self.evaluate_literal(value),
            Expr::Unary { operator, right } => self.evaluate_unary(operator, right),
            Expr::Variable { name } => self.evaluate_var(name),
            Expr::Assignment { var_name, value } => {
                let value = match self.evaluate(value) {
                    Ok(v) => v,
                    Err(e) => {
                        return Err(e);
                    },
                };
                self.evaluate_assignment(var_name, value)
            },
            Expr::Logical { left, operator, right } => self.evaluate_logical(left, operator, right),
        }
    }

    /// Evaluates `left`, then `right`, then the operator between their values.
    fn evaluate_binary(&mut self, left: &Expr, operator: &Token, right: &Expr) -> (r: Result<
        LoxValue,
        RuntimeError,
    >)
        requires
            old(self).wf(),
        ensures
            final(self).evaluated(
                old(self),
                r,
                (SpecExpr::Binary { left: Box::new(left@), operator: operator@, right: Box::new(right@) }),
            ),
        decreases (Expr::Binary { left: Box::new(*left), operator: *operator, right: Box::new(*right) }),
            0nat,
    {
        let ghost start = self.store();
        proof {
            let whole = Expr::Binary { left: Box::new(*left), operator: *operator, right: Box::new(*right) };
            assert(whole matches Expr::Binary { left: l, operator: o, right: r } && *l == *left && *r
                == *right);
            assert(decreases_to!(whole => *left));
            assert(decreases_to!(whole => *right));
        }
        let left_value = match self.evaluate(left) {
            Ok(v) => v,
            Err(e) => {
                return Err(e);
            },
        };
        let ghost after_left = self.replies();
        let ghost middle = self.store();
        let right_value = match self.evaluate(right) {
            Ok(v) => v,
            Err(e) => {
                proof {
                    lemma_eval_frame(left@, start, after_left, self.replies());
                }
                return Err(e);
            },
        };
        let ghost after_right = self.replies();
        let result = match operator.token_type {
            TokenType::Plus => self.plus(left_value, right_value),
            TokenType::Minus => self.minus(left_value, right_value),
            TokenType::Star => self.multiply(left_value, right_value),
            TokenType::Slash => self.divide(left_value, right_value),
            TokenType::BangEqual => Ok(not_equal(left_value, right_value)),
            TokenType::EqualEqual => Ok(equal(left_value, right_value)),
            TokenType::Greater => greater(left_value, right_value),
            TokenType::GreaterEqual => greater_equal(left_value, right_value),
            TokenType::Less => less(left_value, right_value),
            TokenType::LessEqual => less_equal(left_value, right_value),
            _ => Err(()),
        };
        proof {
            lemma_eval_frame(left@, start, after_left, self.replies());
            lemma_eval_frame(right@, middle, after_right, self.replies());
        }
        match result {
            Ok(v) => Ok(v),
            Err(_) => Err(RuntimeError::TypeMismatchBinary(operator.clone())),
        }
    }

    /// The value of a literal.
    fn evaluate_literal(&mut self, token: &Token) -> (r: Result<LoxValue, RuntimeError>)
        requires
            old(self).wf(),
        ensures
            final(self).evaluated(old(self), r, (SpecExpr::Literal { value: token@ })),
    {
        match &token.token_type {
            TokenType::Nil => Ok(LoxValue::Nil),
            TokenType::True => Ok(LoxValue::Bool(true)),
            TokenType::False => Ok(LoxValue::Bool(false)),
            TokenType::Number(numeral) => {
                if is_numeral_text(numeral.as_str()) {
                    let bits = self.host.parse(numeral.as_str());
                    self.record(Ghost(Request::Parse(numeral@)), Ghost(Reply::Number(bits)));
                    Ok(LoxValue::Number(bits))
                } else {
                    Err(RuntimeError::UnexpectedLiteralTokenType(token.clone()))
                }
            },
            TokenType::String(s) => Ok(LoxValue::String(s.clone())),
            _ => Err(RuntimeError::UnexpectedLiteralTokenType(token.clone())),
        }
    }

    /// Evaluates `right`, then the operator before its value.
    fn evaluate_unary(&mut self, operator: &Token, right: &Expr) -> (r: Result<LoxValue, RuntimeError>)
        requires
            old(self).wf(),
        ensures
            final(self).evaluated(
                old(self),
                r,
                (SpecExpr::Unary { operator: operator@, right: Box::new(right@) }),
            ),
        decreases (Expr::Unary { operator: *operator, right: Box::new(*right) }), 0nat,
    {
        proof {
            let whole = Expr::Unary { operator: *operator, right: Box::new(*right) };
            assert(whole matches Expr::Unary { operator: o, right: r } && *r == *right);
            assert(decreases_to!(whole => *right));
        }
        let right = match self.evaluate(right) {
            Ok(v) => v,
            Err(e) => {
                return Err(e);
            },
        };
        match operator.token_type {
            TokenType::Bang => Ok(LoxValue::Bool(!right.truthiness())),
            TokenType::Minus => {
                if let LoxValue::Number(n) = right {
                    Ok(LoxValue::Number(number::negate(n)))
                } else {
                    Err(RuntimeError::TypeMismatchUnary(operator.clone()))
                }
            },
            _ => Err(RuntimeError::TypeMismatchBinary(operator.clone())),
        }
    }

    /// The value of a variable.
    fn evaluate_var(&self, var: &Token) -> (r: Result<LoxValue, RuntimeError>)
        requires
            self.wf(),
        ensures
            self.evaluated(self, r, (SpecExpr::Variable { name: var@ })),
    {
        match self.env_list.get_var(var.lexeme.as_str()) {
            Ok(v) => Ok(v),
            Err(_) => Err(RuntimeError::UndefinedVariable(var.clone())),
        }
    }

    /// Assigns `value` to the innermost binding of the variable.
    fn evaluate_assignment(&mut self, var: &Token, value: LoxValue) -> (r: Result<LoxValue, RuntimeError>)
        requires
            old(self).wf(),
        ensures
            final(self).wf(),
            final(self).requests() == old(self).requests(),
            final(self).replies() == old(self).replies(),
            final(self).printed() == old(self).printed(),
            final(self).scopes().len() == old(self).scopes().len(),
            semantics::assignment(var@, value@, old(self).store()) == (Evaluated {
                result: value_result_view(r),
                store: final(self).store(),
            }),
    {
        match self.env_list.set_var(var.lexeme.as_str(), value) {
            Ok(v) => Ok(v),
            Err(_) => Err(RuntimeError::UndefinedVariable(var.clone())),
        }
    }

    /// Evaluates `left`, and `right` only if the value of `left` does not
    /// decide the result.
    fn evaluate_logical(&mut self, left: &Expr, operator: &Token, right: &Expr) -> (r: Result<
        LoxValue,
        RuntimeError,
    >)
        requires
            old(self).wf(),
        ensures
            final(self).evaluated(
                old(self),
                r,
                (SpecExpr::Logical { left: Box::new(left@), operator: operator@, right: Box::new(right@) }),
            ),
        decreases (Expr::Logical { left: Box::new(*left), operator: *operator, right: Box::new(*right) }),
            0nat,
    {
        let ghost start = self.store();
        proof {
            let whole = Expr::Logical { left: Box::new(*left), operator: *operator, right: Box::new(*right) };
            assert(whole matches Expr::Logical { left: l, operator: o, right: r } && *l == *left && *r
                == *right);
            assert(decreases_to!(whole => *left));
            assert(decreases_to!(whole => *right));
        }
        let left_value = match self.evaluate(left) {
            Ok(v) => v,
            Err(e) => {
                return Err(e);
            },
        };
        let ghost after_left = self.replies();
        let decided = match operator.token_type {
            TokenType::Or => left_value.truthiness(),
            TokenType::And => !left_value.truthiness(),
            _ => {
                return Err(RuntimeError::TypeMismatchBinary(operator.clone()));
            },
        };
        if decided {
            Ok(left_value)
        } else {
            let r = self.evaluate(right);
            proof {
                lemma_eval_frame(left@, start, after_left, self.replies());
            }
            r
        }
    }

    /// `left + right`: the sum of two numbers, or two strings joined.
    fn plus(&mut self, left: LoxValue, right: LoxValue) -> (r: Result<LoxValue, ()>)
        ensures
            final(self).operated(old(self), SpecTokenType::Plus, left@, right@, r),
    {
        match (left, right) {
            (LoxValue::Number(l), LoxValue::Number(r)) => {
                let bits = self.host.sum(l, r);
                self.record(Ghost(Request::Sum(l, r)), Ghost(Reply::Number(bits)));
                Ok(LoxValue::Number(bits))
            },
            (LoxValue::String(l), LoxValue::String(r)) => Ok(LoxValue::String(l.concat(r.as_str()))),
            _ => Err(()),
        }
    }

    /// `left - right`, which two numbers have.
    fn minus(&mut self, left: LoxValue, right: LoxValue) -> (r: Result<LoxValue, ()>)
        ensures
            final(self).operated(old(self), SpecTokenType::Minus, left@, right@, r),
    {
        match (left, right) {
            (LoxValue::Number(l), LoxValue::Number(r)) => {
                let bits = self.host.difference(l, r);
                self.record(Ghost(Request::Difference(l, r)), Ghost(Reply::Number(bits)));
                Ok(LoxValue::Number(bits))
            },
            _ => Err(()),
        }
    }

    /// `left * right`, which two numbers have.
    fn multiply(&mut self, left: LoxValue, right: LoxValue) -> (r: Result<LoxValue, ()>)
        ensures
            final(self).operated(old(self), SpecTokenType::Star, left@, right@, r),
    {
        match (left, right) {
            (LoxValue::Number(l), LoxValue::Number(r)) => {
                let bits = self.host.product(l, r);
                self.record(Ghost(Request::Product(l, r)), Ghost(Reply::Number(bits)));
                Ok(LoxValue::Number(bits))
            },
            _ => Err(()),
        }
    }

    /// `left / right`, which two numbers have.
    fn divide(&mut self, left: LoxValue, right: LoxValue) -> (r: Result<LoxValue, ()>)
        ensures
            final(self).operated(old(self), SpecTokenType::Slash, left@, right@, r),
    {
        match (left, right) {
            (LoxValue::Number(l), LoxValue::Number(r)) => {
                let bits = self.host.quotient(l, r);
                self.record(Ghost(Request::Quotient(l, r)), Ghost(Reply::Number(bits)));
                Ok(LoxValue::Number(bits))
            },
            _ => Err(()),
        }
    }
}

} // verus!
