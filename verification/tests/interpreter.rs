use rlox::ast::{Expr, Stmt};
use rlox::interpreter::{Interpreter, Numerics, RuntimeError};
use rlox::parser::{Parser, ParserError};
use rlox::scanner::Scanner;
use rlox::token::{Token, TokenType};
use rlox::value::LoxValue;

struct Doubles;

impl Numerics for Doubles {
    fn parse(&self, numeral: &str) -> u64 {
        numeral.parse::<f64>().unwrap().to_bits()
    }

    fn sum(&self, a: u64, b: u64) -> u64 {
        (f64::from_bits(a) + f64::from_bits(b)).to_bits()
    }

    fn difference(&self, a: u64, b: u64) -> u64 {
        (f64::from_bits(a) - f64::from_bits(b)).to_bits()
    }

    fn product(&self, a: u64, b: u64) -> u64 {
        (f64::from_bits(a) * f64::from_bits(b)).to_bits()
    }

    fn quotient(&self, a: u64, b: u64) -> u64 {
        (f64::from_bits(a) / f64::from_bits(b)).to_bits()
    }

    fn render(&self, bits: u64) -> String {
        format!("{}", f64::from_bits(bits))
    }
}

struct Outcome {
    output: Vec<String>,
    syntax: Vec<ParserError>,
    runtime: Vec<RuntimeError>,
    interpreter: Interpreter<Doubles>,
}

fn run(source: &str) -> Outcome {
    let (tokens, lexical) = Scanner::new(source.to_string()).scan_tokens();
    assert!(lexical.is_empty());
    let (program, syntax) = Parser::new(tokens).parse();
    let mut interpreter = Interpreter::new(Doubles);
    let runtime = match interpreter.interpret(program) {
        Ok(()) => Vec::new(),
        Err(errors) => errors,
    };
    Outcome { output: interpreter.output().clone(), syntax, runtime, interpreter }
}

fn lines(source: &str) -> Vec<String> {
    let outcome = run(source);
    assert!(outcome.syntax.is_empty());
    assert!(outcome.runtime.is_empty());
    outcome.output
}

fn number(x: f64) -> LoxValue {
    LoxValue::Number(x.to_bits())
}

#[test]
fn prints_each_kind_of_value() {
    assert_eq!(
        lines("print nil; print true; print false; print 1.5; print \"text\"; print 3;"),
        vec!["nil", "true", "false", "1.5", "text", "3"]
    );
}

#[test]
fn arithmetic_follows_precedence() {
    assert_eq!(lines("print 1 + 2 * 3;"), vec!["7"]);
    assert_eq!(lines("print (1 + 2) * 3;"), vec!["9"]);
    assert_eq!(lines("print 10 - 4 - 3;"), vec!["3"]);
    assert_eq!(lines("print 8 / 2 / 2;"), vec!["2"]);
    assert_eq!(lines("print -2 * 3;"), vec!["-6"]);
    assert_eq!(lines("print 1 / 4;"), vec!["0.25"]);
}

#[test]
fn plus_adds_numbers() {
    assert_eq!(lines("print 2 + 3;"), vec!["5"]);
}

#[test]
fn division_by_zero_is_no_error() {
    assert_eq!(lines("print 1 / 0;"), vec!["inf"]);
    assert_eq!(lines("print 0 / 0 == 0 / 0;"), vec!["false"]);
}

#[test]
fn redundant_parentheses_change_nothing() {
    assert_eq!(lines("print 1 + 2 * 3 - 4 / 5;"), lines("print ((1) + ((2) * (3))) - ((4 / 5));"));
    assert_eq!(lines("print (((7)));"), vec!["7"]);
}

#[test]
fn comparisons_of_numbers() {
    assert_eq!(
        lines("print 1 < 2; print 2 < 1; print 2 <= 2; print 3 > 2; print 2 >= 3; print -1 < 0;"),
        vec!["true", "false", "true", "true", "false", "true"]
    );
}

#[test]
fn comparison_of_other_values_is_a_mismatch() {
    let outcome = run("print 1 < \"2\";");
    assert!(outcome.output.is_empty());
    assert_eq!(outcome.runtime.len(), 1);
    assert!(matches!(&outcome.runtime[0], RuntimeError::TypeMismatchBinary(t) if t.token_type == TokenType::Less));
}

#[test]
fn and_does_not_evaluate_a_right_operand_it_does_not_need() {
    let outcome = run("print false and undeclared;");
    assert!(outcome.runtime.is_empty());
    assert_eq!(outcome.output, vec!["false"]);
}

#[test]
fn or_does_not_evaluate_a_right_operand_it_does_not_need() {
    let outcome = run("print 1 or undeclared;");
    assert!(outcome.runtime.is_empty());
    assert_eq!(outcome.output, vec!["1"]);
}

#[test]
fn logical_operators_give_the_operand_that_decided() {
    assert_eq!(lines("print nil or \"yes\";"), vec!["yes"]);
    assert_eq!(lines("print 1 and 2;"), vec!["2"]);
    assert_eq!(lines("print nil and 2;"), vec!["nil"]);
    assert_eq!(lines("print false or false;"), vec!["false"]);
}

#[test]
fn logical_operators_evaluate_the_right_operand_when_needed() {
    let outcome = run("print true and undeclared;");
    assert!(outcome.output.is_empty());
    assert_eq!(outcome.runtime.len(), 1);
    assert!(matches!(&outcome.runtime[0], RuntimeError::UndefinedVariable(t) if t.lexeme == "undeclared"));
}

#[test]
fn zero_and_the_empty_string_are_truthy() {
    assert_eq!(lines("if (0) print \"zero\"; if (\"\") print \"empty\"; if (nil) print \"nil\";"), vec![
        "zero", "empty"
    ]);
    assert_eq!(lines("print !0; print !nil; print !false; print !\"\";"), vec![
        "false", "true", "true", "false"
    ]);
}

#[test]
fn a_block_has_a_scope_of_its_own() {
    let outcome = run("var x = 1; { var x = 2; } print x;");
    assert!(outcome.runtime.is_empty());
    assert_eq!(outcome.output, vec!["1"]);
    assert_eq!(outcome.interpreter.get_var("x"), Some(number(1.0)));
    assert_eq!(outcome.interpreter.depth(), 1);
}

#[test]
fn a_block_sees_and_assigns_outer_variables() {
    assert_eq!(lines("var x = 1; { print x; x = 2; var y = x; print y; } print x;"), vec!["1", "2", "2"]);
}

#[test]
fn a_block_closes_its_scope_after_a_failure() {
    let outcome = run("var x = 1; { var x = 2; print missing; print x; } print x;");
    assert_eq!(outcome.output, vec!["2", "1"]);
    assert_eq!(outcome.runtime.len(), 1);
    assert_eq!(outcome.interpreter.depth(), 1);
}

#[test]
fn assignment_to_an_undeclared_name_fails_once_and_binds_nothing() {
    let outcome = run("undeclared = 1; print 2;");
    assert_eq!(outcome.runtime.len(), 1);
    assert!(matches!(&outcome.runtime[0], RuntimeError::UndefinedVariable(t) if t.lexeme == "undeclared"));
    assert_eq!(outcome.interpreter.get_var("undeclared"), None);
    assert_eq!(outcome.output, vec!["2"]);
}

#[test]
fn assignment_in_a_block_to_an_undeclared_name_binds_nothing() {
    let outcome = run("{ { undeclared = 1; } }");
    assert_eq!(outcome.runtime.len(), 1);
    assert_eq!(outcome.interpreter.get_var("undeclared"), None);
}

#[test]
fn assignment_gives_its_value() {
    assert_eq!(lines("var a; var b; a = b = 3; print a; print b; print a = 4;"), vec!["3", "3", "4"]);
}

#[test]
fn a_malformed_statement_does_not_stop_the_next() {
    let outcome = run("1 +; print \"ok\";");
    assert_eq!(outcome.syntax.len(), 1);
    assert!(matches!(&outcome.syntax[0], ParserError::ExpectExpression(t) if t.token_type == TokenType::Semicolon));
    assert!(outcome.runtime.is_empty());
    assert_eq!(outcome.output, vec!["ok"]);
}

#[test]
fn plus_joins_strings() {
    assert_eq!(lines("print \"foo\" + \"bar\";"), vec!["foobar"]);
}

#[test]
fn plus_of_a_string_and_a_number_is_a_mismatch() {
    let outcome = run("print \"foo\" + 1;");
    assert!(outcome.output.is_empty());
    assert_eq!(outcome.runtime.len(), 1);
    assert!(matches!(&outcome.runtime[0], RuntimeError::TypeMismatchBinary(t) if t.token_type == TokenType::Plus));
}

#[test]
fn equality_of_values_of_two_variants_is_false() {
    let outcome = run("print 1 == \"1\"; print 1 != \"1\"; print nil == false; print \"a\" == \"a\"; print 2 == 2; print nil == nil;");
    assert!(outcome.runtime.is_empty());
    assert_eq!(outcome.output, vec!["false", "true", "false", "true", "true", "true"]);
}

#[test]
fn negation_of_a_string_is_a_mismatch() {
    let outcome = run("print -\"a\";");
    assert_eq!(outcome.runtime.len(), 1);
    assert!(matches!(&outcome.runtime[0], RuntimeError::TypeMismatchUnary(t) if t.token_type == TokenType::Minus));
}

#[test]
fn a_statement_that_fails_does_not_stop_the_next() {
    let outcome = run("print missing; print 1; print -nil; print 2;");
    assert_eq!(outcome.output, vec!["1", "2"]);
    assert_eq!(outcome.runtime.len(), 2);
    assert!(matches!(&outcome.runtime[0], RuntimeError::UndefinedVariable(_)));
    assert!(matches!(&outcome.runtime[1], RuntimeError::TypeMismatchUnary(_)));
}

#[test]
fn the_first_failure_ends_a_statement() {
    let outcome = run("var x = 1; print (x = 2) + missing + (x = 3); print x;");
    assert_eq!(outcome.runtime.len(), 1);
    assert_eq!(outcome.output, vec!["2"]);
}

#[test]
fn a_declaration_without_a_value_binds_nil() {
    assert_eq!(lines("var x; print x;"), vec!["nil"]);
}

#[test]
fn a_declaration_replaces_a_binding_of_its_scope() {
    assert_eq!(lines("var x = 1; var x = 2; print x;"), vec!["2"]);
}

#[test]
fn an_expression_statement_writes_nothing() {
    assert_eq!(lines("1 + 2; \"text\";"), Vec::<String>::new());
}

#[test]
fn if_takes_one_branch() {
    assert_eq!(lines("if (1 < 2) print \"then\"; else print \"else\";"), vec!["then"]);
    assert_eq!(lines("if (1 > 2) print \"then\"; else print \"else\";"), vec!["else"]);
    assert_eq!(lines("if (1 > 2) print \"then\";"), Vec::<String>::new());
}

#[test]
fn else_belongs_to_the_nearest_if() {
    assert_eq!(lines("if (true) if (false) print \"a\"; else print \"b\";"), vec!["b"]);
    assert_eq!(lines("if (false) if (true) print \"a\"; else print \"b\";"), Vec::<String>::new());
}

#[test]
fn a_literal_node_with_another_token_fails() {
    let token = Token::new(TokenType::Plus, "+".to_string(), 3);
    let program = vec![Stmt::Print { expr: Expr::Literal { value: token.clone() } }];
    let mut interpreter = Interpreter::new(Doubles);
    assert_eq!(interpreter.interpret(program), Err(vec![RuntimeError::UnexpectedLiteralTokenType(token)]));
}

#[test]
fn a_number_literal_that_is_no_numeral_fails() {
    let token = Token::new(TokenType::Number("1.".to_string()), "1.".to_string(), 1);
    let program = vec![Stmt::Print { expr: Expr::Literal { value: token.clone() } }];
    let mut interpreter = Interpreter::new(Doubles);
    assert_eq!(interpreter.interpret(program), Err(vec![RuntimeError::UnexpectedLiteralTokenType(token)]));
}

#[test]
fn an_interpreter_keeps_its_globals_between_runs() {
    let mut interpreter = Interpreter::new(Doubles);
    let (first, _) = Parser::new(Scanner::new("var x = 2;".to_string()).scan_tokens().0).parse();
    let (second, _) = Parser::new(Scanner::new("print x * x;".to_string()).scan_tokens().0).parse();
    assert_eq!(interpreter.interpret(first), Ok(()));
    assert_eq!(interpreter.interpret(second), Ok(()));
    assert_eq!(interpreter.output(), &vec!["4".to_string()]);
}

fn token(token_type: TokenType, lexeme: &str) -> Token {
    Token::new(token_type, lexeme.to_string(), 1)
}

fn literal(token_type: TokenType, lexeme: &str) -> Expr {
    Expr::Literal { value: token(token_type, lexeme) }
}

fn interpret(program: Vec<Stmt>) -> (Result<(), Vec<RuntimeError>>, Vec<String>) {
    let mut interpreter = Interpreter::new(Doubles);
    let result = interpreter.interpret(program);
    (result, interpreter.take_output())
}

#[test]
fn a_unary_node_with_another_operator_fails() {
    let plus = token(TokenType::Plus, "+");
    let expr = Expr::Unary { operator: plus.clone(), right: Box::new(literal(TokenType::Nil, "nil")) };
    let (result, output) = interpret(vec![Stmt::Print { expr }]);
    assert_eq!(result, Err(vec![RuntimeError::TypeMismatchBinary(plus)]));
    assert!(output.is_empty());
}

#[test]
fn a_binary_node_with_another_operator_fails() {
    let and = token(TokenType::And, "and");
    let expr = Expr::Binary {
        left: Box::new(literal(TokenType::True, "true")),
        operator: and.clone(),
        right: Box::new(literal(TokenType::True, "true")),
    };
    let (result, output) = interpret(vec![Stmt::Print { expr }]);
    assert_eq!(result, Err(vec![RuntimeError::TypeMismatchBinary(and)]));
    assert!(output.is_empty());
}

#[test]
fn a_logical_node_with_another_operator_fails_after_its_left_operand() {
    let plus = token(TokenType::Plus, "+");
    let missing = token(TokenType::Identifier, "missing");
    let expr = Expr::Logical {
        left: Box::new(literal(TokenType::True, "true")),
        operator: plus.clone(),
        right: Box::new(Expr::Variable { name: missing.clone() }),
    };
    assert_eq!(interpret(vec![Stmt::Expr { expr }]).0, Err(vec![RuntimeError::TypeMismatchBinary(plus.clone())]));
    let expr = Expr::Logical {
        left: Box::new(Expr::Variable { name: missing.clone() }),
        operator: plus,
        right: Box::new(literal(TokenType::True, "true")),
    };
    assert_eq!(interpret(vec![Stmt::Expr { expr }]).0, Err(vec![RuntimeError::UndefinedVariable(missing)]));
}

#[test]
fn the_operands_of_a_binary_operator_are_evaluated_before_it() {
    let outcome = run("var x = 1; print (x = 2) + (x = x * 10); print x;");
    assert!(outcome.runtime.is_empty());
    assert_eq!(outcome.output, vec!["22", "20"]);
    let outcome = run("print missing + -nil;");
    assert_eq!(outcome.runtime.len(), 1);
    assert!(matches!(&outcome.runtime[0], RuntimeError::UndefinedVariable(_)));
}

#[test]
fn a_string_is_printed_as_it_is() {
    assert_eq!(lines("print \"two\nlines\"; print \"\"; print \"nil\";"), vec!["two\nlines", "", "nil"]);
}

#[test]
fn numbers_are_printed_in_decimal_notation() {
    assert_eq!(lines("print 0; print 10; print 1.50; print 0.1 + 0.2; print 100 / 3;"), vec![
        "0",
        "10",
        "1.5",
        "0.30000000000000004",
        "33.333333333333336",
    ]);
}

#[test]
fn the_output_is_kept_where_later_statements_fail() {
    let outcome = run("print 1; print missing; print 2; { print 3; print -\"x\"; print 4; }");
    assert_eq!(outcome.output, vec!["1", "2", "3", "4"]);
    assert_eq!(outcome.runtime.len(), 2);
}

#[test]
fn blocks_nest() {
    assert_eq!(
        lines("var a = 1; { var b = 2; { var c = 3; a = a + b + c; { var a = 0; print a; } } print a; }"),
        vec!["0", "6"]
    );
}

#[test]
fn a_failure_in_a_branch_fails_the_if() {
    let outcome = run("if (true) print missing; else print 1; print 2;");
    assert_eq!(outcome.output, vec!["2"]);
    assert_eq!(outcome.runtime.len(), 1);
    let outcome = run("if (missing) print 1; else print 2; print 3;");
    assert_eq!(outcome.output, vec!["3"]);
    assert_eq!(outcome.runtime.len(), 1);
}

#[test]
fn a_long_program() {
    let mut source = String::from("var total = 0;\n");
    for _ in 0..20000 {
        source.push_str("total = total + 1; { var unit = 1; }\n");
    }
    source.push_str("print total;");
    assert_eq!(lines(&source), vec!["20000"]);
}

#[test]
fn a_deeply_nested_expression() {
    let mut source = String::from("print ");
    for _ in 0..200 {
        source.push('(');
    }
    source.push('1');
    for _ in 0..200 {
        source.push_str(" + 1)");
    }
    source.push(';');
    assert_eq!(lines(&source), vec!["201"]);
}
