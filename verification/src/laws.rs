use crate::ast::{SpecExpr, SpecStmt};
use crate::environment::{assign, binding_scope, declare, lemma_binding_scope, lookup, Bindings};
use crate::grammar;
use crate::semantics::{
    asks, binary_value, decides, eval, execute, record, run, with_scopes, with_store, Reply,
    SpecRuntimeError, State, Store,
};
use crate::token::{SpecToken, SpecTokenType};
use crate::value::SpecValue;
use vstd::prelude::*;

verus! {

/// The expression without its parentheses.
pub open spec fn strip(e: SpecExpr) -> SpecExpr
    decreases e,
{
    match e {
        SpecExpr::Binary { left, operator, right } => SpecExpr::Binary {
            left: Box::new(strip(*left)),
            operator,
            right: Box::new(strip(*right)),
        },
        SpecExpr::Grouping { expression } => strip(*expression),
        SpecExpr::Literal { value } => e,
        SpecExpr::Unary { operator, right } => SpecExpr::Unary { operator, right: Box::new(strip(*right)) },
        SpecExpr::Variable { name } => e,
        SpecExpr::Assignment { var_name, value } => SpecExpr::Assignment {
            var_name,
            value: Box::new(strip(*value)),
        },
        SpecExpr::Logical { left, operator, right } => SpecExpr::Logical {
            left: Box::new(strip(*left)),
            operator,
            right: Box::new(strip(*right)),
        },
    }
}

/// Parentheses change nothing of what an expression evaluates to: with or
/// without them it gives the same value or diagnostic and leaves the same store.
pub proof fn law_grouping_is_transparent(e: SpecExpr, store: Store, replies: Seq<Reply>)
    ensures
        eval(strip(e), store, replies) == eval(e, store, replies),
    decreases e,
{
    match e {
        SpecExpr::Binary { left, operator, right } => {
            law_grouping_is_transparent(*left, store, replies);
            law_grouping_is_transparent(*right, eval(*left, store, replies).store, replies);
        },
        SpecExpr::Grouping { expression } => {
            law_grouping_is_transparent(*expression, store, replies);
        },
        SpecExpr::Literal { value } => {},
        SpecExpr::Unary { operator, right } => {
            law_grouping_is_transparent(*right, store, replies);
        },
        SpecExpr::Variable { name } => {},
        SpecExpr::Assignment { var_name, value } => {
            law_grouping_is_transparent(*value, store, replies);
        },
        SpecExpr::Logical { left, operator, right } => {
            law_grouping_is_transparent(*left, store, replies);
            law_grouping_is_transparent(*right, eval(*left, store, replies).store, replies);
        },
    }
}

/// An expression between `(` and `)` is read as that expression in a
/// grouping, and the tokens after the `)` are left to be read.
pub proof fn law_parentheses_group(tokens: Seq<SpecToken>, pos: int, e: SpecExpr)
    requires
        grammar::check(tokens, pos, SpecTokenType::LeftParen),
        grammar::expression(tokens, pos + 1).result == Ok::<SpecExpr, grammar::SpecParserError>(e),
        grammar::check(tokens, grammar::expression(tokens, pos + 1).next, SpecTokenType::RightParen),
    ensures
        grammar::primary(tokens, pos) == (grammar::ParsedExpr {
            result: Ok(SpecExpr::Grouping { expression: Box::new(e) }),
            next: grammar::expression(tokens, pos + 1).next + 1,
        }),
{
}

/// Where the left operand of `and` or `or` decides the result, the right
/// operand is not evaluated: the whole gives what the left operand gives,
/// whatever the right operand is.
pub proof fn law_short_circuit(
    left: SpecExpr,
    operator: SpecToken,
    right: SpecExpr,
    store: Store,
    replies: Seq<Reply>,
)
    requires
        eval(left, store, replies).result matches Ok(v) && decides(operator, v),
    ensures
        eval(SpecExpr::Logical { left: Box::new(left), operator, right: Box::new(right) }, store, replies)
            == eval(left, store, replies),
{
}

/// Where the left operand of `and` or `or` does not decide the result, the
/// whole gives what the right operand gives after the left.
pub proof fn law_logical_takes_right(
    left: SpecExpr,
    operator: SpecToken,
    right: SpecExpr,
    store: Store,
    replies: Seq<Reply>,
)
    requires
        operator.kind is Or || operator.kind is And,
        eval(left, store, replies).result matches Ok(v) && !decides(operator, v),
    ensures
        eval(SpecExpr::Logical { left: Box::new(left), operator, right: Box::new(right) }, store, replies)
            == eval(right, eval(left, store, replies).store, replies),
{
}

/// `==` and `!=` have a value on any two values and do not need the
/// arithmetic unit. Two values of different variants are unequal.
pub proof fn law_equality_never_fails(operator: SpecToken, left: SpecValue, right: SpecValue, answer: u64)
    requires
        operator.kind is EqualEqual || operator.kind is BangEqual,
    ensures
        !asks(operator.kind, left, right),
        binary_value(operator, left, right, answer) == Ok::<SpecValue, SpecRuntimeError>(
            SpecValue::Bool(
                if operator.kind is EqualEqual {
                    left.equals(right)
                } else {
                    !left.equals(right)
                },
            ),
        ),
        !((left is Nil && right is Nil) || (left is Bool && right is Bool) || (left is Number
            && right is Number) || (left is String && right is String)) ==> !left.equals(right),
{
}

/// The two chains have as many scopes, and each scope binds the same names
/// in both.
pub open spec fn same_names(a: Seq<Bindings>, b: Seq<Bindings>) -> bool {
    &&& a.len() == b.len()
    &&& forall|i: int| 0 <= i < a.len() ==> (#[trigger] a[i]).dom() == b[i].dom()
}

/// The two chains have as many scopes. Each scope but the innermost binds
/// the same names in both, and the innermost of `b` binds those of `a`.
pub open spec fn same_outer_names(a: Seq<Bindings>, b: Seq<Bindings>) -> bool {
    &&& a.len() == b.len()
    &&& forall|i: int| 0 <= i < a.len() - 1 ==> (#[trigger] a[i]).dom() == b[i].dom()
    &&& a.len() > 0 ==> a.last().dom().subset_of(b.last().dom())
}

/// An assignment binds no name that was not bound.
pub proof fn lemma_assign_keeps_names(scopes: Seq<Bindings>, name: Seq<char>, value: SpecValue)
    ensures
        assign(scopes, name, value) matches Some(after) ==> same_names(scopes, after),
{
    lemma_binding_scope(scopes, name);
    if let Some(i) = binding_scope(scopes, name) {
        let after = scopes.update(i, scopes[i].insert(name, value));
        assert(after[i].dom() =~= scopes[i].dom());
        assert forall|j: int| 0 <= j < scopes.len() implies (#[trigger] scopes[j]).dom() == after[j].dom() by {
            if j != i {
                assert(after[j] == scopes[j]);
            }
        }
    }
}

/// Whether a name is bound depends only on the names that the scopes bind.
pub proof fn lemma_binding_scope_of_names(a: Seq<Bindings>, b: Seq<Bindings>, name: Seq<char>)
    requires
        same_names(a, b),
    ensures
        binding_scope(a, name) == binding_scope(b, name),
    decreases a.len(),
{
    if a.len() > 0 {
        assert(a.last().dom() == b.last().dom());
        assert(a.last().contains_key(name) == b.last().contains_key(name));
        if !a.last().contains_key(name) {
            assert forall|i: int| 0 <= i < a.len() - 1 implies (#[trigger] a.drop_last()[i]).dom()
                == b.drop_last()[i].dom() by {
                assert(a.drop_last()[i] == a[i]);
                assert(b.drop_last()[i] == b[i]);
            }
            lemma_binding_scope_of_names(a.drop_last(), b.drop_last(), name);
        }
    }
}

/// The evaluation of an expression opens and closes no scope and binds no
/// name: each scope binds the same names after it as before.
pub proof fn law_evaluation_binds_nothing(e: SpecExpr, store: Store, replies: Seq<Reply>)
    ensures
        same_names(store.scopes, eval(e, store, replies).store.scopes),
    decreases e,
{
    match e {
        SpecExpr::Binary { left, operator, right } => {
            law_evaluation_binds_nothing(*left, store, replies);
            law_evaluation_binds_nothing(*right, eval(*left, store, replies).store, replies);
        },
        SpecExpr::Grouping { expression } => {
            law_evaluation_binds_nothing(*expression, store, replies);
        },
        SpecExpr::Literal { value } => {},
        SpecExpr::Unary { operator, right } => {
            law_evaluation_binds_nothing(*right, store, replies);
        },
        SpecExpr::Variable { name } => {},
        SpecExpr::Assignment { var_name, value } => {
            law_evaluation_binds_nothing(*value, store, replies);
            let v = eval(*value, store, replies);
            if let Ok(val) = v.result {
                lemma_assign_keeps_names(v.store.scopes, var_name.lexeme, val);
            }
        },
        SpecExpr::Logical { left, operator, right } => {
            law_evaluation_binds_nothing(*left, store, replies);
            law_evaluation_binds_nothing(*right, eval(*left, store, replies).store, replies);
        },
    }
}

/// The assignment to a name that no scope binds fails with
/// `UndefinedVariable` at the name, once the value to assign is worked out,
/// and binds nothing: the store is as the evaluation of the value left it.
pub proof fn law_assignment_needs_a_binding(
    var_name: SpecToken,
    value: SpecExpr,
    store: Store,
    replies: Seq<Reply>,
)
    requires
        lookup(store.scopes, var_name.lexeme) is None,
        eval(value, store, replies).result is Ok,
    ensures
        eval(SpecExpr::Assignment { var_name, value: Box::new(value) }, store, replies).result == Err::<
            SpecValue,
            SpecRuntimeError,
        >(SpecRuntimeError::UndefinedVariable(var_name)),
        eval(SpecExpr::Assignment { var_name, value: Box::new(value) }, store, replies).store == eval(
            value,
            store,
            replies,
        ).store,
        lookup(eval(value, store, replies).store.scopes, var_name.lexeme) is None,
{
    law_evaluation_binds_nothing(value, store, replies);
    lemma_binding_scope_of_names(store.scopes, eval(value, store, replies).store.scopes, var_name.lexeme);
}

/// The statement that assigns to a name that no scope binds leaves exactly
/// one diagnostic, `UndefinedVariable` at the name, and binds nothing.
pub proof fn law_assignment_statement_reports_once(
    var_name: SpecToken,
    value: SpecExpr,
    st: State,
    replies: Seq<Reply>,
)
    requires
        lookup(st.store.scopes, var_name.lexeme) is None,
        eval(value, st.store, replies).result is Ok,
    ensures
        ({
            let stmt = SpecStmt::Expr { expr: SpecExpr::Assignment { var_name, value: Box::new(value) } };
            let after = record(execute(stmt, st, replies));
            &&& after.errors == st.errors.push(SpecRuntimeError::UndefinedVariable(var_name))
            &&& after.output == st.output
            &&& same_names(st.store.scopes, after.store.scopes)
            &&& lookup(after.store.scopes, var_name.lexeme) is None
        }),
{
    law_assignment_needs_a_binding(var_name, value, st.store, replies);
    law_evaluation_binds_nothing(value, st.store, replies);
}

/// A declaration binds its name in the innermost scope and nowhere else.
pub proof fn lemma_declare_keeps_outer_names(scopes: Seq<Bindings>, name: Seq<char>, value: SpecValue)
    requires
        scopes.len() >= 1,
    ensures
        same_outer_names(scopes, declare(scopes, name, value)),
{
    let after = declare(scopes, name, value);
    assert forall|i: int| 0 <= i < scopes.len() - 1 implies (#[trigger] scopes[i]).dom() == after[i].dom() by {
        assert(after[i] == scopes[i]);
    }
    assert(after.last() == scopes.last().insert(name, value));
}

/// The execution of a statement, in a chain that holds the global scope,
/// opens and closes scopes in pairs, so that as many are open after it as
/// before. It binds new names in the innermost scope alone, and it unbinds
/// none. A block binds no name outside itself.
pub proof fn law_statement_keeps_scopes(s: SpecStmt, st: State, replies: Seq<Reply>)
    requires
        st.store.scopes.len() >= 1,
    ensures
        same_outer_names(st.store.scopes, execute(s, st, replies).state.store.scopes),
        s is Block ==> same_names(st.store.scopes, execute(s, st, replies).state.store.scopes),
    decreases s, 0nat,
{
    match s {
        SpecStmt::Expr { expr } => {
            law_evaluation_binds_nothing(expr, st.store, replies);
        },
        SpecStmt::Print { expr } => {
            law_evaluation_binds_nothing(expr, st.store, replies);
        },
        SpecStmt::VarDecl { var_name, initializer } => {
            match initializer {
                Some(expr) => {
                    law_evaluation_binds_nothing(expr, st.store, replies);
                    let v = eval(expr, st.store, replies);
                    if let Ok(value) = v.result {
                        lemma_declare_keeps_outer_names(v.store.scopes, var_name.lexeme, value);
                    }
                },
                None => {
                    lemma_declare_keeps_outer_names(st.store.scopes, var_name.lexeme, SpecValue::Nil);
                },
            }
        },
        SpecStmt::Block { stmt_list } => {
            let opened = with_scopes(st, st.store.scopes.push(Map::empty()));
            law_run_keeps_scopes(stmt_list, opened, replies);
            let inner = run(stmt_list, opened, replies);
            let closed = inner.store.scopes.drop_last();
            assert forall|i: int| 0 <= i < st.store.scopes.len() implies (#[trigger] st.store.scopes[i]).dom()
                == closed[i].dom() by {
                assert(opened.store.scopes[i] == st.store.scopes[i]);
                assert(closed[i] == inner.store.scopes[i]);
            }
        },
        SpecStmt::If { condition, then_stmt, else_stmt } => {
            law_evaluation_binds_nothing(condition, st.store, replies);
            let c = eval(condition, st.store, replies);
            law_statement_keeps_scopes(*then_stmt, with_store(st, c.store), replies);
            if let Some(e) = else_stmt {
                law_statement_keeps_scopes(*e, with_store(st, c.store), replies);
            }
        },
    }
}

/// What a block declares is gone when the block ends, and the declaration
/// touches no scope outside the block: after `{ var name = value; }` the
/// scopes are as the evaluation of `value` left those outside the block.
/// Where `value` is a literal they are as they were before the block.
pub proof fn law_declaration_in_block_is_local(
    var_name: SpecToken,
    value: SpecExpr,
    st: State,
    replies: Seq<Reply>,
)
    requires
        st.store.scopes.len() >= 1,
    ensures
        ({
            let block = SpecStmt::Block {
                stmt_list: seq![SpecStmt::VarDecl { var_name, initializer: Some(value) }],
            };
            let inside = Store { scopes: st.store.scopes.push(Map::empty()), asked: st.store.asked };
            let after = execute(block, st, replies).state.store.scopes;
            &&& after == eval(value, inside, replies).store.scopes.drop_last()
            &&& value is Literal ==> after == st.store.scopes
        }),
{
    let declaration = SpecStmt::VarDecl { var_name, initializer: Some(value) };
    let stmts = seq![declaration];
    let opened = with_scopes(st, st.store.scopes.push(Map::empty()));
    let v = eval(value, opened.store, replies);
    law_evaluation_binds_nothing(value, opened.store, replies);
    assert(stmts.drop_last() =~= Seq::<SpecStmt>::empty());
    assert(stmts.last() == declaration);
    assert(run(stmts.drop_last(), opened, replies) == opened);
    assert(run(stmts, opened, replies) == record(execute(declaration, opened, replies)));
    if let Ok(val) = v.result {
        assert(declare(v.store.scopes, var_name.lexeme, val).drop_last() =~= v.store.scopes.drop_last());
    }
    assert(st.store.scopes.push(Map::empty()).drop_last() =~= st.store.scopes);
}

/// Statements run one after another: to run two sequences in a row is to
/// run the second in the state that the first left, with its diagnostics.
pub proof fn law_run_is_sequential(first: Seq<SpecStmt>, second: Seq<SpecStmt>, st: State, replies: Seq<Reply>)
    ensures
        run(first + second, st, replies) == run(second, run(first, st, replies), replies),
    decreases second.len(),
{
    if second.len() == 0 {
        assert(first + second =~= first);
    } else {
        law_run_is_sequential(first, second.drop_last(), st, replies);
        assert((first + second).drop_last() =~= first + second.drop_last());
        assert((first + second).last() == second.last());
    }
}

/// As `law_statement_keeps_scopes`, for statements run one after another.
pub proof fn law_run_keeps_scopes(stmts: Seq<SpecStmt>, st: State, replies: Seq<Reply>)
    requires
        st.store.scopes.len() >= 1,
    ensures
        same_outer_names(st.store.scopes, run(stmts, st, replies).store.scopes),
    decreases stmts, 1nat,
{
    if stmts.len() > 0 {
        law_run_keeps_scopes(stmts.drop_last(), st, replies);
        law_statement_keeps_scopes(stmts.last(), run(stmts.drop_last(), st, replies), replies);
    }
}

} // verus!
