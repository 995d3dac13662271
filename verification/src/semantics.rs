use crate::ast::{SpecExpr, SpecStmt};
use crate::environment::{assign, declare, lookup, Bindings};
use crate::number::{negated, number_le, number_lt};
use crate::lexical::is_numeral;
use crate::text::decimal_text;
use crate::token::{SpecToken, SpecTokenType};
use crate::value::SpecValue;
use vstd::prelude::*;

verus! {

/// A runtime diagnostic as a mathematical value, with the offending token.
pub enum SpecRuntimeError {
    TypeMismatchBinary(SpecToken),
    TypeMismatchUnary(SpecToken),
    UnexpectedLiteralTokenType(SpecToken),
    UndefinedVariable(SpecToken),
}

impl SpecRuntimeError {
    /// The offending token.
    pub open spec fn token(self) -> SpecToken {
        match self {
            SpecRuntimeError::TypeMismatchBinary(t) => t,
            SpecRuntimeError::TypeMismatchUnary(t) => t,
            SpecRuntimeError::UnexpectedLiteralTokenType(t) => t,
            SpecRuntimeError::UndefinedVariable(t) => t,
        }
    }

    /// What went wrong, in words.
    pub open spec fn message(self) -> Seq<char> {
        match self {
            SpecRuntimeError::TypeMismatchBinary(_) => "Invalid binary operand"@,
            SpecRuntimeError::TypeMismatchUnary(_) => "Invalid unary operand"@,
            SpecRuntimeError::UnexpectedLiteralTokenType(_) => "Unexpected literal token type"@,
            SpecRuntimeError::UndefinedVariable(_) => "Undefined variable"@,
        }
    }

    /// The message, and the line of the offending token on a line of its own.
    pub open spec fn err_msg(self) -> Seq<char> {
        self.message() + "\n[line "@ + decimal_text(self.token().line as nat) + "]"@
    }
}

/// What the interpreter asks of the arithmetic unit of the embedding
/// program. Numbers are binary64 patterns.
pub enum Request {
    /// The number that a decimal numeral stands for.
    Parse(Seq<char>),
    /// `a + b`
    Sum(u64, u64),
    /// `a - b`
    Difference(u64, u64),
    /// `a * b`
    Product(u64, u64),
    /// `a / b`
    Quotient(u64, u64),
    /// The number in decimal notation.
    Render(u64),
}

/// What the arithmetic unit answered to one request: a number, or the text
/// of a number.
pub enum Reply {
    Number(u64),
    Text(Seq<char>),
}

/// A request and the reply to it.
pub struct Exchange {
    pub request: Request,
    pub reply: Reply,
}

/// The requests of a sequence of exchanges, in order.
pub open spec fn requests_of(log: Seq<Exchange>) -> Seq<Request> {
    log.map_values(|x: Exchange| x.request)
}

/// The replies of a sequence of exchanges, in order.
pub open spec fn replies_of(log: Seq<Exchange>) -> Seq<Reply> {
    log.map_values(|x: Exchange| x.reply)
}

/// The number that reply `i` holds.
pub open spec fn number_at(replies: Seq<Reply>, i: nat) -> u64 {
    match replies[i as int] {
        Reply::Number(n) => n,
        Reply::Text(_) => 0,
    }
}

/// The text that reply `i` holds.
pub open spec fn text_at(replies: Seq<Reply>, i: nat) -> Seq<char> {
    match replies[i as int] {
        Reply::Number(_) => Seq::empty(),
        Reply::Text(t) => t,
    }
}

/// `a` is the beginning of `b`.
pub open spec fn is_prefix(a: Seq<Reply>, b: Seq<Reply>) -> bool {
    a.len() <= b.len() && forall|i: int| 0 <= i < a.len() ==> a[i] == b[i]
}

/// What the evaluation of an expression reads and changes: the scopes, the
/// innermost last, and the requests made so far. Request `i` is answered by
/// reply `i`.
pub struct Store {
    pub scopes: Seq<Bindings>,
    pub asked: Seq<Request>,
}

/// The outcome of evaluating an expression.
pub struct Evaluated {
    pub result: Result<SpecValue, SpecRuntimeError>,
    pub store: Store,
}

/// The value of a literal. The number that a numeral stands for is asked for.
pub open spec fn literal(token: SpecToken, store: Store, replies: Seq<Reply>) -> Evaluated {
    match token.kind {
        SpecTokenType::Nil => Evaluated { result: Ok(SpecValue::Nil), store },
        SpecTokenType::True => Evaluated { result: Ok(SpecValue::Bool(true)), store },
        SpecTokenType::False => Evaluated { result: Ok(SpecValue::Bool(false)), store },
        SpecTokenType::String(s) => Evaluated { result: Ok(SpecValue::String(s)), store },
        SpecTokenType::Number(n) => if is_numeral(n) {
            Evaluated {
                result: Ok(SpecValue::Number(number_at(replies, store.asked.len()))),
                store: Store { scopes: store.scopes, asked: store.asked.push(Request::Parse(n)) },
            }
        } else {
            Evaluated { result: Err(SpecRuntimeError::UnexpectedLiteralTokenType(token)), store }
        },
        _ => Evaluated { result: Err(SpecRuntimeError::UnexpectedLiteralTokenType(token)), store },
    }
}

/// `!` gives the opposite of the operand's truthiness; `-` takes a number.
/// An operator that is neither gives the diagnostic of a binary operator.
pub open spec fn unary_value(operator: SpecToken, operand: SpecValue) -> Result<
    SpecValue,
    SpecRuntimeError,
> {
    match operator.kind {
        SpecTokenType::Bang => Ok(SpecValue::Bool(!operand.truthiness())),
        SpecTokenType::Minus => match operand {
            SpecValue::Number(n) => Ok(SpecValue::Number(negated(n))),
            _ => Err(SpecRuntimeError::TypeMismatchUnary(operator)),
        },
        _ => Err(SpecRuntimeError::TypeMismatchBinary(operator)),
    }
}

/// One of `+ - * /`.
pub open spec fn is_arithmetic(kind: SpecTokenType) -> bool {
    kind is Plus || kind is Minus || kind is Star || kind is Slash
}

/// Whether an operator of this kind, on these operands, needs the
/// arithmetic unit: `+ - * /` between two numbers do.
pub open spec fn asks(kind: SpecTokenType, left: SpecValue, right: SpecValue) -> bool {
    is_arithmetic(kind) && left is Number && right is Number
}

/// The value of a binary operator of this kind on two values, if it has
/// one, where `answer` is what the arithmetic unit gave for `+ - * /`
/// between two numbers.
///
/// `+` also joins two strings. `- * /` and the comparisons take two numbers.
/// `==` and `!=` take any two values. Nothing else has a value.
pub open spec fn operation(kind: SpecTokenType, left: SpecValue, right: SpecValue, answer: u64) -> Option<
    SpecValue,
> {
    match kind {
        SpecTokenType::EqualEqual => Some(SpecValue::Bool(left.equals(right))),
        SpecTokenType::BangEqual => Some(SpecValue::Bool(!left.equals(right))),
        _ => match (left, right) {
            (SpecValue::Number(a), SpecValue::Number(b)) => match kind {
                SpecTokenType::Plus | SpecTokenType::Minus | SpecTokenType::Star | SpecTokenType::Slash => Some(
                    SpecValue::Number(answer),
                ),
                SpecTokenType::Greater => Some(SpecValue::Bool(number_lt(b, a))),
                SpecTokenType::GreaterEqual => Some(SpecValue::Bool(number_le(b, a))),
                SpecTokenType::Less => Some(SpecValue::Bool(number_lt(a, b))),
                SpecTokenType::LessEqual => Some(SpecValue::Bool(number_le(a, b))),
                _ => None,
            },
            (SpecValue::String(a), SpecValue::String(b)) => match kind {
                SpecTokenType::Plus => Some(SpecValue::String(a + b)),
                _ => None,
            },
            _ => None,
        },
    }
}

/// What is asked for an operator of this kind between the numbers `a` and `b`.
pub open spec fn arithmetic(kind: SpecTokenType, a: u64, b: u64) -> Request {
    match kind {
        SpecTokenType::Plus => Request::Sum(a, b),
        SpecTokenType::Minus => Request::Difference(a, b),
        SpecTokenType::Star => Request::Product(a, b),
        _ => Request::Quotient(a, b),
    }
}

/// What is asked for an operator of this kind between two values that need
/// the arithmetic unit.
pub open spec fn asked_for(kind: SpecTokenType, left: SpecValue, right: SpecValue) -> Request {
    match (left, right) {
        (SpecValue::Number(a), SpecValue::Number(b)) => arithmetic(kind, a, b),
        _ => arithmetic(kind, 0, 0),
    }
}

/// The value of a binary operator on two values, or the diagnostic at the
/// operator where it has none.
pub open spec fn binary_value(operator: SpecToken, left: SpecValue, right: SpecValue, answer: u64) -> Result<
    SpecValue,
    SpecRuntimeError,
> {
    match operation(operator.kind, left, right, answer) {
        Some(v) => Ok(v),
        None => Err(SpecRuntimeError::TypeMismatchBinary(operator)),
    }
}

/// A binary operator applied to the values of its operands.
pub open spec fn apply_binary(
    operator: SpecToken,
    left: SpecValue,
    right: SpecValue,
    store: Store,
    replies: Seq<Reply>,
) -> Evaluated {
    if asks(operator.kind, left, right) {
        Evaluated {
            result: binary_value(operator, left, right, number_at(replies, store.asked.len())),
            store: Store {
                scopes: store.scopes,
                asked: store.asked.push(asked_for(operator.kind, left, right)),
            },
        }
    } else {
        Evaluated { result: binary_value(operator, left, right, 0), store }
    }
}

/// The value of a variable: that of the innermost binding of its name.
pub open spec fn variable(name: SpecToken, store: Store) -> Evaluated {
    Evaluated {
        result: match lookup(store.scopes, name.lexeme) {
            Some(v) => Ok(v),
            None => Err(SpecRuntimeError::UndefinedVariable(name)),
        },
        store,
    }
}

/// The assignment of `value` to the innermost binding of the name. It gives
/// the value. Where no scope binds the name it fails and binds nothing.
pub open spec fn assignment(var_name: SpecToken, value: SpecValue, store: Store) -> Evaluated {
    match assign(store.scopes, var_name.lexeme, value) {
        Some(scopes) => Evaluated { result: Ok(value), store: Store { scopes, asked: store.asked } },
        None => Evaluated { result: Err(SpecRuntimeError::UndefinedVariable(var_name)), store },
    }
}

/// Whether the left operand of `and` or `or` decides the result alone.
pub open spec fn decides(operator: SpecToken, left: SpecValue) -> bool {
    (operator.kind is Or && left.truthiness()) || (operator.kind is And && !left.truthiness())
}

/// The evaluation of `e` in `store`, where the arithmetic unit answers
/// request `i` with `replies[i]`. The operands are evaluated from left to
/// right, and the first that fails ends the evaluation.
pub open spec fn eval(e: SpecExpr, store: Store, replies: Seq<Reply>) -> Evaluated
    decreases e,
{
    match e {
        SpecExpr::Binary { left, operator, right } => {
            let l = eval(*left, store, replies);
            match l.result {
                Ok(lv) => {
                    let r = eval(*right, l.store, replies);
                    match r.result {
                        Ok(rv) => apply_binary(operator, lv, rv, r.store, replies),
                        Err(_) => r,
                    }
                },
                Err(_) => l,
            }
        },
        SpecExpr::Grouping { expression } => eval(*expression, store, replies),
        SpecExpr::Literal { value } => literal(value, store, replies),
        SpecExpr::Unary { operator, right } => {
            let r = eval(*right, store, replies);
            match r.result {
                Ok(v) => Evaluated { result: unary_value(operator, v), store: r.store },
                Err(_) => r,
            }
        },
        SpecExpr::Variable { name } => variable(name, store),
        SpecExpr::Assignment { var_name, value } => {
            let v = eval(*value, store, replies);
            match v.result {
                Ok(val) => assignment(var_name, val, v.store),
                Err(_) => v,
            }
        },
        SpecExpr::Logical { left, operator, right } => {
            let l = eval(*left, store, replies);
            match l.result {
                Ok(lv) => if decides(operator, lv) {
                    l
                } else if operator.kind is Or || operator.kind is And {
                    eval(*right, l.store, replies)
                } else {
                    Evaluated { result: Err(SpecRuntimeError::TypeMismatchBinary(operator)), store: l.store }
                },
                Err(_) => l,
            }
        },
    }
}

/// What the execution of a statement reads and changes: the store, the lines
/// written so far and the diagnostics collected so far.
pub struct State {
    pub store: Store,
    pub output: Seq<Seq<char>>,
    pub errors: Seq<SpecRuntimeError>,
}

/// The outcome of executing a statement.
pub struct Executed {
    pub result: Result<(), SpecRuntimeError>,
    pub state: State,
}

/// The text of a value that is not a number.
pub open spec fn plain_text(value: SpecValue) -> Seq<char> {
    match value {
        SpecValue::Nil => "nil"@,
        SpecValue::Bool(b) => if b {
            "true"@
        } else {
            "false"@
        },
        SpecValue::Number(_) => Seq::empty(),
        SpecValue::String(s) => s,
    }
}

/// The state with another store.
pub open spec fn with_store(st: State, store: Store) -> State {
    State { store, output: st.output, errors: st.errors }
}

/// The state with other scopes.
pub open spec fn with_scopes(st: State, scopes: Seq<Bindings>) -> State {
    State { store: Store { scopes, asked: st.store.asked }, output: st.output, errors: st.errors }
}

/// The state after `value` is written. The text of a number is asked for.
pub open spec fn print(value: SpecValue, st: State, replies: Seq<Reply>) -> State {
    match value {
        SpecValue::Number(n) => State {
            store: Store { scopes: st.store.scopes, asked: st.store.asked.push(Request::Render(n)) },
            output: st.output.push(text_at(replies, st.store.asked.len())),
            errors: st.errors,
        },
        _ => State { store: st.store, output: st.output.push(plain_text(value)), errors: st.errors },
    }
}

/// The state after a statement, with the diagnostic if the statement failed.
pub open spec fn record(x: Executed) -> State {
    match x.result {
        Ok(_) => x.state,
        Err(e) => State { store: x.state.store, output: x.state.output, errors: x.state.errors.push(e) },
    }
}

/// The execution of `s` in `st`. A statement fails with the first
/// diagnostic of its expressions. A block never fails: it runs each of its
/// statements in a scope of its own, collects their diagnostics, and closes
/// the scope whatever happened.
pub open spec fn execute(s: SpecStmt, st: State, replies: Seq<Reply>) -> Executed
    decreases s,
{
    match s {
        SpecStmt::Expr { expr } => {
            let v = eval(expr, st.store, replies);
            Executed {
                result: match v.result {
                    Ok(_) => Ok(()),
                    Err(e) => Err(e),
                },
                state: with_store(st, v.store),
            }
        },
        SpecStmt::Print { expr } => {
            let v = eval(expr, st.store, replies);
            match v.result {
                Ok(value) => Executed { result: Ok(()), state: print(value, with_store(st, v.store), replies) },
                Err(e) => Executed { result: Err(e), state: with_store(st, v.store) },
            }
        },
        SpecStmt::VarDecl { var_name, initializer } => match initializer {
            Some(expr) => {
                let v = eval(expr, st.store, replies);
                match v.result {
                    Ok(value) => Executed {
                        result: Ok(()),
                        state: with_scopes(
                            with_store(st, v.store),
                            declare(v.store.scopes, var_name.lexeme, value),
                        ),
                    },
                    Err(e) => Executed { result: Err(e), state: with_store(st, v.store) },
                }
            },
            None => Executed {
                result: Ok(()),
                state: with_scopes(st, declare(st.store.scopes, var_name.lexeme, SpecValue::Nil)),
            },
        },
        SpecStmt::Block { stmt_list } => {
            let inner = run(stmt_list, with_scopes(st, st.store.scopes.push(Map::empty())), replies);
            Executed { result: Ok(()), state: with_scopes(inner, inner.store.scopes.drop_last()) }
        },
        SpecStmt::If { condition, then_stmt, else_stmt } => {
            let c = eval(condition, st.store, replies);
            match c.result {
                Ok(value) => if value.truthiness() {
                    execute(*then_stmt, with_store(st, c.store), replies)
                } else {
                    match else_stmt {
                        Some(s) => execute(*s, with_store(st, c.store), replies),
                        None => Executed { result: Ok(()), state: with_store(st, c.store) },
                    }
                },
                Err(e) => Executed { result: Err(e), state: with_store(st, c.store) },
            }
        },
    }
}

/// The execution of statements one after another. A statement that fails
/// leaves its diagnostic, and the next one runs all the same.
pub open spec fn run(stmts: Seq<SpecStmt>, st: State, replies: Seq<Reply>) -> State
    decreases stmts,
{
    if stmts.len() == 0 {
        st
    } else {
        record(execute(stmts.last(), run(stmts.drop_last(), st, replies), replies))
    }
}

/// Evaluation adds to the requests and takes none back.
pub proof fn lemma_eval_asked(e: SpecExpr, store: Store, replies: Seq<Reply>)
    ensures
        eval(e, store, replies).store.asked.len() >= store.asked.len(),
    decreases e,
{
    match e {
        SpecExpr::Binary { left, operator, right } => {
            lemma_eval_asked(*left, store, replies);
            lemma_eval_asked(*right, eval(*left, store, replies).store, replies);
        },
        SpecExpr::Grouping { expression } => {
            lemma_eval_asked(*expression, store, replies);
        },
        SpecExpr::Literal { value } => {},
        SpecExpr::Unary { operator, right } => {
            lemma_eval_asked(*right, store, replies);
        },
        SpecExpr::Variable { name } => {},
        SpecExpr::Assignment { var_name, value } => {
            lemma_eval_asked(*value, store, replies);
        },
        SpecExpr::Logical { left, operator, right } => {
            lemma_eval_asked(*left, store, replies);
            lemma_eval_asked(*right, eval(*left, store, replies).store, replies);
        },
    }
}

/// Evaluation depends on the replies to its requests and on no others.
pub proof fn lemma_eval_frame(e: SpecExpr, store: Store, r1: Seq<Reply>, r2: Seq<Reply>)
    requires
        is_prefix(r1, r2),
        eval(e, store, r1).store.asked.len() <= r1.len(),
    ensures
        eval(e, store, r2) == eval(e, store, r1),
    decreases e,
{
    match e {
        SpecExpr::Binary { left, operator, right } => {
            let l = eval(*left, store, r1);
            lemma_eval_asked(*right, l.store, r1);
            lemma_eval_frame(*left, store, r1, r2);
            if l.result is Ok {
                lemma_eval_frame(*right, l.store, r1, r2);
            }
        },
        SpecExpr::Grouping { expression } => {
            lemma_eval_frame(*expression, store, r1, r2);
        },
        SpecExpr::Literal { value } => {},
        SpecExpr::Unary { operator, right } => {
            lemma_eval_frame(*right, store, r1, r2);
        },
        SpecExpr::Variable { name } => {},
        SpecExpr::Assignment { var_name, value } => {
            lemma_eval_frame(*value, store, r1, r2);
        },
        SpecExpr::Logical { left, operator, right } => {
            let l = eval(*left, store, r1);
            lemma_eval_asked(*right, l.store, r1);
            lemma_eval_frame(*left, store, r1, r2);
            if let Ok(lv) = l.result {
                if !decides(operator, lv) && (operator.kind is Or || operator.kind is And) {
                    lemma_eval_frame(*right, l.store, r1, r2);
                }
            }
        },
    }
}

/// Execution adds to the requests and takes none back.
pub proof fn lemma_execute_asked(s: SpecStmt, st: State, replies: Seq<Reply>)
    ensures
        execute(s, st, replies).state.store.asked.len() >= st.store.asked.len(),
    decreases s, 0nat,
{
    match s {
        SpecStmt::Expr { expr } => {
            lemma_eval_asked(expr, st.store, replies);
        },
        SpecStmt::Print { expr } => {
            lemma_eval_asked(expr, st.store, replies);
        },
        SpecStmt::VarDecl { var_name, initializer } => {
            if let Some(expr) = initializer {
                lemma_eval_asked(expr, st.store, replies);
            }
        },
        SpecStmt::Block { stmt_list } => {
            lemma_run_asked(stmt_list, with_scopes(st, st.store.scopes.push(Map::empty())), replies);
        },
        SpecStmt::If { condition, then_stmt, else_stmt } => {
            lemma_eval_asked(condition, st.store, replies);
            let c = eval(condition, st.store, replies);
            lemma_execute_asked(*then_stmt, with_store(st, c.store), replies);
            if let Some(s) = else_stmt {
                lemma_execute_asked(*s, with_store(st, c.store), replies);
            }
        },
    }
}

/// A run adds to the requests and takes none back.
pub proof fn lemma_run_asked(stmts: Seq<SpecStmt>, st: State, replies: Seq<Reply>)
    ensures
        run(stmts, st, replies).store.asked.len() >= st.store.asked.len(),
    decreases stmts, 1nat,
{
    if stmts.len() > 0 {
        lemma_run_asked(stmts.drop_last(), st, replies);
        lemma_execute_asked(stmts.last(), run(stmts.drop_last(), st, replies), replies);
    }
}

/// Execution depends on the replies to its requests and on no others.
pub proof fn lemma_execute_frame(s: SpecStmt, st: State, r1: Seq<Reply>, r2: Seq<Reply>)
    requires
        is_prefix(r1, r2),
        execute(s, st, r1).state.store.asked.len() <= r1.len(),
    ensures
        execute(s, st, r2) == execute(s, st, r1),
    decreases s, 0nat,
{
    match s {
        SpecStmt::Expr { expr } => {
            lemma_eval_frame(expr, st.store, r1, r2);
        },
        SpecStmt::Print { expr } => {
            lemma_eval_frame(expr, st.store, r1, r2);
        },
        SpecStmt::VarDecl { var_name, initializer } => {
            if let Some(expr) = initializer {
                lemma_eval_frame(expr, st.store, r1, r2);
            }
        },
        SpecStmt::Block { stmt_list } => {
            lemma_run_frame(stmt_list, with_scopes(st, st.store.scopes.push(Map::empty())), r1, r2);
        },
        SpecStmt::If { condition, then_stmt, else_stmt } => {
            let c = eval(condition, st.store, r1);
            lemma_execute_asked(*then_stmt, with_store(st, c.store), r1);
            if let Some(s) = else_stmt {
                lemma_execute_asked(*s, with_store(st, c.store), r1);
            }
            lemma_eval_frame(condition, st.store, r1, r2);
            if c.result is Ok {
                if c.result->Ok_0.truthiness() {
                    lemma_execute_frame(*then_stmt, with_store(st, c.store), r1, r2);
                } else if let Some(s) = else_stmt {
                    lemma_execute_frame(*s, with_store(st, c.store), r1, r2);
                }
            }
        },
    }
}

/// A run depends on the replies to its requests and on no others.
pub proof fn lemma_run_frame(stmts: Seq<SpecStmt>, st: State, r1: Seq<Reply>, r2: Seq<Reply>)
    requires
        is_prefix(r1, r2),
        run(stmts, st, r1).store.asked.len() <= r1.len(),
    ensures
        run(stmts, st, r2) == run(stmts, st, r1),
    decreases stmts, 1nat,
{
    if stmts.len() > 0 {
        let before = run(stmts.drop_last(), st, r1);
        lemma_execute_asked(stmts.last(), before, r1);
        lemma_run_frame(stmts.drop_last(), st, r1, r2);
        lemma_execute_frame(stmts.last(), before, r1, r2);
    }
}

} // verus!
