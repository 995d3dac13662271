use rlox::ast::{Expr, Stmt};
use rlox::parser::{Parser, ParserError};
use rlox::scanner::Scanner;
use rlox::token::{Token, TokenType};

fn parse(source: &str) -> (Vec<Stmt>, Vec<ParserError>) {
    let (tokens, errors) = Scanner::new(source.to_string()).scan_tokens();
    assert!(errors.is_empty());
    Parser::new(tokens).parse()
}

fn statements(source: &str) -> Vec<Stmt> {
    let (stmts, errors) = parse(source);
    assert_eq!(errors, vec![]);
    stmts
}

fn expression(source: &str) -> Expr {
    let mut stmts = statements(&format!("{source};"));
    assert_eq!(stmts.len(), 1);
    match stmts.pop().unwrap() {
        Stmt::Expr { expr } => expr,
        other => panic!("{}", format!("{other:?} is no expression statement")),
    }
}

fn token(token_type: TokenType, lexeme: &str) -> Token {
    Token::new(token_type, lexeme.to_string(), 1)
}

fn on_line(token: Token, line: usize) -> Token {
    Token::new(token.token_type, token.lexeme, line)
}

fn end(line: usize) -> Token {
    Token::new(TokenType::EndOfInput, String::new(), line)
}

fn num(numeral: &str) -> Expr {
    Expr::Literal { value: token(TokenType::Number(numeral.to_string()), numeral) }
}

fn text(contents: &str) -> Expr {
    Expr::Literal { value: token(TokenType::String(contents.to_string()), &format!("\"{contents}\"")) }
}

fn var(name: &str) -> Expr {
    Expr::Variable { name: token(TokenType::Identifier, name) }
}

fn name(name: &str) -> Token {
    token(TokenType::Identifier, name)
}

fn binary(left: Expr, kind: TokenType, lexeme: &str, right: Expr) -> Expr {
    Expr::Binary { left: Box::new(left), operator: token(kind, lexeme), right: Box::new(right) }
}

fn logical(left: Expr, kind: TokenType, lexeme: &str, right: Expr) -> Expr {
    Expr::Logical { left: Box::new(left), operator: token(kind, lexeme), right: Box::new(right) }
}

fn unary(kind: TokenType, lexeme: &str, right: Expr) -> Expr {
    Expr::Unary { operator: token(kind, lexeme), right: Box::new(right) }
}

fn group(e: Expr) -> Expr {
    Expr::Grouping { expression: Box::new(e) }
}

fn assign(target: &str, value: Expr) -> Expr {
    Expr::Assignment { var_name: name(target), value: Box::new(value) }
}

#[test]
fn an_empty_program() {
    assert_eq!(parse(""), (vec![], vec![]));
    assert_eq!(parse("  // nothing\n"), (vec![], vec![]));
}

#[test]
fn no_tokens_at_all() {
    assert_eq!(Parser::new(vec![]).parse(), (vec![], vec![]));
}

#[test]
fn literals() {
    assert_eq!(expression("1.5"), num("1.5"));
    assert_eq!(expression("\"a b\""), text("a b"));
    assert_eq!(expression("true"), Expr::Literal { value: token(TokenType::True, "true") });
    assert_eq!(expression("false"), Expr::Literal { value: token(TokenType::False, "false") });
    assert_eq!(expression("nil"), Expr::Literal { value: token(TokenType::Nil, "nil") });
    assert_eq!(expression("x"), var("x"));
}

#[test]
fn factors_bind_more_than_terms() {
    assert_eq!(
        expression("1 + 2 * 3"),
        binary(num("1"), TokenType::Plus, "+", binary(num("2"), TokenType::Star, "*", num("3")))
    );
    assert_eq!(
        expression("1 * 2 - 3 / 4"),
        binary(
            binary(num("1"), TokenType::Star, "*", num("2")),
            TokenType::Minus,
            "-",
            binary(num("3"), TokenType::Slash, "/", num("4"))
        )
    );
}

#[test]
fn binary_operators_group_to_the_left() {
    assert_eq!(
        expression("1 - 2 - 3"),
        binary(binary(num("1"), TokenType::Minus, "-", num("2")), TokenType::Minus, "-", num("3"))
    );
    assert_eq!(
        expression("8 / 4 * 2"),
        binary(binary(num("8"), TokenType::Slash, "/", num("4")), TokenType::Star, "*", num("2"))
    );
    assert_eq!(
        expression("1 < 2 <= 3"),
        binary(binary(num("1"), TokenType::Less, "<", num("2")), TokenType::LessEqual, "<=", num("3"))
    );
    assert_eq!(
        expression("a or b or c"),
        logical(logical(var("a"), TokenType::Or, "or", var("b")), TokenType::Or, "or", var("c"))
    );
}

#[test]
fn the_levels_from_the_loosest() {
    assert_eq!(
        expression("a or b and c == d > e + f * -g"),
        logical(
            var("a"),
            TokenType::Or,
            "or",
            logical(
                var("b"),
                TokenType::And,
                "and",
                binary(
                    var("c"),
                    TokenType::EqualEqual,
                    "==",
                    binary(
                        var("d"),
                        TokenType::Greater,
                        ">",
                        binary(
                            var("e"),
                            TokenType::Plus,
                            "+",
                            binary(var("f"), TokenType::Star, "*", unary(TokenType::Minus, "-", var("g")))
                        )
                    )
                )
            )
        )
    );
}

#[test]
fn comparison_and_equality_operators() {
    assert_eq!(expression("1 >= 2"), binary(num("1"), TokenType::GreaterEqual, ">=", num("2")));
    assert_eq!(expression("1 != 2"), binary(num("1"), TokenType::BangEqual, "!=", num("2")));
    assert_eq!(
        expression("1 == 2 != 3"),
        binary(binary(num("1"), TokenType::EqualEqual, "==", num("2")), TokenType::BangEqual, "!=", num("3"))
    );
}

#[test]
fn unary_operators_nest() {
    assert_eq!(expression("!-!x"), unary(TokenType::Bang, "!", unary(TokenType::Minus, "-", unary(TokenType::Bang, "!", var("x")))));
    assert_eq!(expression("1 - -2"), binary(num("1"), TokenType::Minus, "-", unary(TokenType::Minus, "-", num("2"))));
}

#[test]
fn parentheses_group() {
    assert_eq!(
        expression("(1 + 2) * 3"),
        binary(group(binary(num("1"), TokenType::Plus, "+", num("2"))), TokenType::Star, "*", num("3"))
    );
    assert_eq!(expression("((x))"), group(group(var("x"))));
}

#[test]
fn assignment_groups_to_the_right() {
    assert_eq!(expression("a = b = 1"), assign("a", assign("b", num("1"))));
    assert_eq!(expression("a = 1 or 2"), assign("a", logical(num("1"), TokenType::Or, "or", num("2"))));
}

#[test]
fn only_a_variable_can_be_assigned_to() {
    let (stmts, errors) = parse("1 = 2;");
    assert_eq!(errors, vec![ParserError::InvalidAssignmentTarget(token(TokenType::Equal, "="))]);
    assert_eq!(stmts, vec![Stmt::Expr { expr: num("2") }]);
    let (stmts, errors) = parse("(a) = 2; a + b = c;");
    assert_eq!(
        errors,
        vec![
            ParserError::InvalidAssignmentTarget(token(TokenType::Equal, "=")),
            ParserError::InvalidAssignmentTarget(token(TokenType::Equal, "=")),
        ]
    );
    assert_eq!(stmts, vec![Stmt::Expr { expr: num("2") }, Stmt::Expr { expr: var("c") }]);
}

#[test]
fn declarations() {
    assert_eq!(
        statements("var x; var y = 1 + 2;"),
        vec![
            Stmt::VarDecl { var_name: name("x"), initializer: None },
            Stmt::VarDecl {
                var_name: name("y"),
                initializer: Some(binary(num("1"), TokenType::Plus, "+", num("2"))),
            },
        ]
    );
}

#[test]
fn print_and_expression_statements() {
    assert_eq!(
        statements("print 1; 2; print \"a\";"),
        vec![Stmt::Print { expr: num("1") }, Stmt::Expr { expr: num("2") }, Stmt::Print { expr: text("a") }]
    );
}

#[test]
fn blocks() {
    assert_eq!(statements("{}"), vec![Stmt::Block { stmt_list: vec![] }]);
    assert_eq!(
        statements("{ var x = 1; { print x; } } print 2;"),
        vec![
            Stmt::Block {
                stmt_list: vec![
                    Stmt::VarDecl { var_name: name("x"), initializer: Some(num("1")) },
                    Stmt::Block { stmt_list: vec![Stmt::Print { expr: var("x") }] },
                ],
            },
            Stmt::Print { expr: num("2") },
        ]
    );
}

#[test]
fn if_with_and_without_else() {
    assert_eq!(
        statements("if (a) print 1;"),
        vec![Stmt::If {
            condition: group(var("a")),
            then_stmt: Box::new(Stmt::Print { expr: num("1") }),
            else_stmt: None,
        }]
    );
    assert_eq!(
        statements("if a { b; } else c;"),
        vec![Stmt::If {
            condition: var("a"),
            then_stmt: Box::new(Stmt::Block { stmt_list: vec![Stmt::Expr { expr: var("b") }] }),
            else_stmt: Some(Box::new(Stmt::Expr { expr: var("c") })),
        }]
    );
}

#[test]
fn an_else_is_read_with_the_nearest_if() {
    assert_eq!(
        statements("if (a) if (b) 1; else 2;"),
        vec![Stmt::If {
            condition: group(var("a")),
            then_stmt: Box::new(Stmt::If {
                condition: group(var("b")),
                then_stmt: Box::new(Stmt::Expr { expr: num("1") }),
                else_stmt: Some(Box::new(Stmt::Expr { expr: num("2") })),
            }),
            else_stmt: None,
        }]
    );
}

#[test]
fn a_declaration_is_no_branch_of_an_if() {
    let (stmts, errors) = parse("if (a) var x = 1;");
    assert_eq!(errors, vec![ParserError::ExpectExpression(token(TokenType::Var, "var"))]);
    assert_eq!(stmts, vec![]);
}

#[test]
fn a_missing_expression() {
    let (stmts, errors) = parse("1 +; print \"ok\";");
    assert_eq!(errors, vec![ParserError::ExpectExpression(token(TokenType::Semicolon, ";"))]);
    assert_eq!(stmts, vec![Stmt::Print { expr: text("ok") }]);
    assert_eq!(parse(")"), (vec![], vec![ParserError::ExpectExpression(token(TokenType::RightParen, ")"))]));
    assert_eq!(parse("print"), (vec![], vec![ParserError::ExpectExpression(end(1))]));
}

#[test]
fn a_missing_right_parenthesis() {
    let (stmts, errors) = parse("(1 + 2;\nprint 3;");
    assert_eq!(errors, vec![ParserError::ExpectRightParen(token(TokenType::Semicolon, ";"))]);
    assert_eq!(stmts, vec![Stmt::Print { expr: on_line_expr("3", 2) }]);
}

fn on_line_expr(numeral: &str, line: usize) -> Expr {
    Expr::Literal { value: on_line(token(TokenType::Number(numeral.to_string()), numeral), line) }
}

#[test]
fn a_missing_semicolon() {
    assert_eq!(parse("1"), (vec![], vec![ParserError::ExpectSemicolon(end(1))]));
    let (stmts, errors) = parse("print 1\nprint 2;\nprint 3;");
    assert_eq!(errors, vec![ParserError::ExpectSemicolon(on_line(token(TokenType::Print, "print"), 2))]);
    assert_eq!(stmts, vec![Stmt::Print { expr: on_line_expr("3", 3) }]);
}

#[test]
fn a_missing_identifier() {
    let (stmts, errors) = parse("var 1 = 2; print 3;");
    assert_eq!(errors, vec![ParserError::ExpectIdentifier(token(TokenType::Number("1".to_string()), "1"))]);
    assert_eq!(stmts, vec![Stmt::Print { expr: num("3") }]);
    assert_eq!(parse("var"), (vec![], vec![ParserError::ExpectIdentifier(end(1))]));
    assert_eq!(
        parse("var print;"),
        (vec![], vec![ParserError::ExpectIdentifier(token(TokenType::Print, "print"))])
    );
}

#[test]
fn a_missing_right_brace() {
    assert_eq!(parse("{ 1;"), (vec![], vec![ParserError::ExpectRightBrace(end(1))]));
    assert_eq!(parse("{"), (vec![], vec![ParserError::ExpectRightBrace(end(1))]));
    assert_eq!(
        parse("{ { 1; }\n"),
        (vec![], vec![ParserError::ExpectRightBrace(end(2))])
    );
}

#[test]
fn recovery_resumes_after_a_semicolon() {
    let (stmts, errors) = parse("1 + * 2 3; print 4;");
    assert_eq!(errors, vec![ParserError::ExpectExpression(token(TokenType::Star, "*"))]);
    assert_eq!(stmts, vec![Stmt::Print { expr: num("4") }]);
}

#[test]
fn recovery_resumes_before_a_keyword_that_starts_a_statement() {
    let (stmts, errors) = parse("1 + ) 2 var x; ( if y 3;");
    assert_eq!(
        errors,
        vec![
            ParserError::ExpectExpression(token(TokenType::RightParen, ")")),
            ParserError::ExpectExpression(token(TokenType::If, "if")),
        ]
    );
    assert_eq!(stmts, vec![Stmt::VarDecl { var_name: name("x"), initializer: None }]);
}

#[test]
fn recovery_passes_over_the_offending_token_first() {
    let (stmts, errors) = parse("1 + print 2; print 3;");
    assert_eq!(errors, vec![ParserError::ExpectExpression(token(TokenType::Print, "print"))]);
    assert_eq!(stmts, vec![Stmt::Print { expr: num("3") }]);
}

#[test]
fn each_failed_declaration_gives_one_diagnostic() {
    let (stmts, errors) = parse("var; 1 +; (2; print 3; var 4; 5 = 6; print 7");
    assert_eq!(
        errors,
        vec![
            ParserError::ExpectIdentifier(token(TokenType::Semicolon, ";")),
            ParserError::ExpectExpression(token(TokenType::Semicolon, ";")),
            ParserError::ExpectRightParen(token(TokenType::Semicolon, ";")),
            ParserError::ExpectIdentifier(token(TokenType::Number("4".to_string()), "4")),
            ParserError::InvalidAssignmentTarget(token(TokenType::Equal, "=")),
            ParserError::ExpectSemicolon(end(1)),
        ]
    );
    assert_eq!(stmts, vec![Stmt::Print { expr: num("3") }, Stmt::Expr { expr: num("6") }]);
}

#[test]
fn recovery_inside_a_block_stays_inside_it() {
    let (stmts, errors) = parse("{ 1 +; print 2; } print 3;");
    assert_eq!(errors, vec![ParserError::ExpectExpression(token(TokenType::Semicolon, ";"))]);
    assert_eq!(
        stmts,
        vec![Stmt::Block { stmt_list: vec![Stmt::Print { expr: num("2") }] }, Stmt::Print { expr: num("3") }]
    );
}

#[test]
fn the_diagnostics_of_a_block_come_before_its_own() {
    let (stmts, errors) = parse("{ var; 1");
    assert_eq!(
        errors,
        vec![
            ParserError::ExpectIdentifier(token(TokenType::Semicolon, ";")),
            ParserError::ExpectSemicolon(end(1)),
            ParserError::ExpectRightBrace(end(1)),
        ]
    );
    assert_eq!(stmts, vec![]);
}

#[test]
fn a_stream_without_a_sentinel() {
    let tokens = vec![Token::new(TokenType::Number("1".to_string()), "1".to_string(), 4)];
    assert_eq!(Parser::new(tokens).parse(), (vec![], vec![ParserError::ExpectSemicolon(end(4))]));
    let tokens = vec![
        Token::new(TokenType::Print, "print".to_string(), 1),
        Token::new(TokenType::Nil, "nil".to_string(), 1),
        Token::new(TokenType::Semicolon, ";".to_string(), 2),
    ];
    assert_eq!(
        Parser::new(tokens).parse(),
        (vec![Stmt::Print { expr: Expr::Literal { value: Token::new(TokenType::Nil, "nil".to_string(), 1) } }], vec![])
    );
}

#[test]
fn nothing_is_read_after_the_sentinel() {
    let tokens = vec![
        Token::new(TokenType::EndOfInput, String::new(), 1),
        Token::new(TokenType::Print, "print".to_string(), 1),
    ];
    assert_eq!(Parser::new(tokens).parse(), (vec![], vec![]));
}

#[test]
fn which_diagnostics_make_the_parser_skip_ahead() {
    let t = end(1);
    assert!(ParserError::ExpectExpression(t.clone()).should_panic());
    assert!(ParserError::ExpectRightParen(t.clone()).should_panic());
    assert!(ParserError::ExpectSemicolon(t.clone()).should_panic());
    assert!(ParserError::ExpectIdentifier(t.clone()).should_panic());
    assert!(!ParserError::ExpectRightBrace(t.clone()).should_panic());
    assert!(!ParserError::InvalidAssignmentTarget(t.clone()).should_panic());
    assert_eq!(ParserError::ExpectRightBrace(t.clone()).token(), &t);
    assert_eq!(ParserError::ExpectRightBrace(t.clone()).clone(), ParserError::ExpectRightBrace(t));
}

fn spelling(e: &Expr, out: &mut Vec<TokenType>) {
    match e {
        Expr::Binary { left, operator, right } | Expr::Logical { left, operator, right } => {
            spelling(left, out);
            out.push(operator.token_type.clone());
            spelling(right, out);
        }
        Expr::Grouping { expression } => {
            out.push(TokenType::LeftParen);
            spelling(expression, out);
            out.push(TokenType::RightParen);
        }
        Expr::Literal { value } => out.push(value.token_type.clone()),
        Expr::Unary { operator, right } => {
            out.push(operator.token_type.clone());
            spelling(right, out);
        }
        Expr::Variable { name } => out.push(name.token_type.clone()),
        Expr::Assignment { var_name, value } => {
            out.push(var_name.token_type.clone());
            out.push(TokenType::Equal);
            spelling(value, out);
        }
    }
}

fn stmt_spelling(s: &Stmt, out: &mut Vec<TokenType>) {
    match s {
        Stmt::Expr { expr } => {
            spelling(expr, out);
            out.push(TokenType::Semicolon);
        }
        Stmt::Print { expr } => {
            out.push(TokenType::Print);
            spelling(expr, out);
            out.push(TokenType::Semicolon);
        }
        Stmt::VarDecl { var_name, initializer } => {
            out.push(TokenType::Var);
            out.push(var_name.token_type.clone());
            if let Some(expr) = initializer {
                out.push(TokenType::Equal);
                spelling(expr, out);
            }
            out.push(TokenType::Semicolon);
        }
        Stmt::Block { stmt_list } => {
            out.push(TokenType::LeftBrace);
            for s in stmt_list {
                stmt_spelling(s, out);
            }
            out.push(TokenType::RightBrace);
        }
        Stmt::If { condition, then_stmt, else_stmt } => {
            out.push(TokenType::If);
            spelling(condition, out);
            stmt_spelling(then_stmt, out);
            if let Some(s) = else_stmt {
                out.push(TokenType::Else);
                stmt_spelling(s, out);
            }
        }
    }
}

#[test]
fn a_program_without_diagnostics_is_spelt_by_its_tokens() {
    for source in [
        "",
        "1;",
        "print (1 + 2) * -3 / 4 - !true;",
        "var a; var b = a = \"text\" + \"more\"; { a; { b = nil; } }",
        "if (a or b and c) { print 1 <= 2 == 3 > 4; } else if x print y != z; else {}",
        "if a if b c; else d;",
    ] {
        let (tokens, _) = Scanner::new(source.to_string()).scan_tokens();
        let mut kinds: Vec<TokenType> = tokens.iter().map(|t| t.token_type.clone()).collect();
        assert_eq!(kinds.pop(), Some(TokenType::EndOfInput));
        let (stmts, errors) = Parser::new(tokens).parse();
        assert_eq!(errors, vec![]);
        let mut spelt = Vec::new();
        for s in &stmts {
            stmt_spelling(s, &mut spelt);
        }
        assert_eq!(spelt, kinds);
    }
}
