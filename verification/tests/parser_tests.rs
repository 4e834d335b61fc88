use nova_compiler::ast::{Expression, Statement};
use nova_compiler::lexer::Lexer;
use nova_compiler::parser::Parser;
use nova_compiler::token::TokenType;

fn parser_for(input: &str) -> Parser {
    Parser::new(Lexer::new(input.to_string()))
}

#[test]
fn test_let_statements() {
    let input = "let x = 5;";
    let lexer = Lexer::new(input.to_string());
    let mut parser = Parser::new(lexer);
    if let Some(statement) = parser.parse_statement() {
        assert!(matches!(statement, Statement::Let(name, _) if name == "x"));
    } else {
        assert!(false, "Failed to parse 'let' statement");
    }
    assert!(parser.errors.is_empty(), "Parser errors: {:?}", parser.errors);
}

#[test]
fn test_return_statements() {
    let input = "return 123;";
    let lexer = Lexer::new(input.to_string());
    let mut parser = Parser::new(lexer);
    let statement = parser.parse_return_statement().unwrap();

    match statement {
        Statement::Return(Expression::IntegerLiteral(value)) => assert_eq!(value, 123),
        _ => panic!(
            "Expected a Return statement with an IntegerLiteral, found {:?}",
            statement
        ),
    }

    assert!(
        parser.errors.is_empty(),
        "There were errors while parsing: {:?}",
        parser.errors()
    );
}

#[test]
fn test_expression_statements() {
    let input = "example;";
    let lexer = Lexer::new(input.to_string());
    let mut parser = Parser::new(lexer);
    assert_eq!(
        parser.current_token.token_type,
        TokenType::Ident("example".to_string())
    );
    if let Some(statement) = parser.parse_expression_statement() {
        match statement {
            Statement::Expression(Expression::Identifier(name)) => assert_eq!(name, "example"),
            _ => panic!("Expected Expression statement, found {:?}", statement),
        }
    } else {
        panic!(
            "Failed to parse expression statement, errors: {:?}",
            parser.errors
        );
    }
}

#[test]
fn test_function_declarations() {
    let input = r#"
    fn add(x, y) {
        return x + y;
    }
    "#;
    let lexer = Lexer::new(input.to_string());
    let parser = Parser::new(lexer);
    assert_eq!(
        parser.current_token.token_type,
        TokenType::Fn,
        "First token is not the function keyword"
    );
}

#[test]
fn test_function_keyword() {
    let input = "fn";
    let mut lexer = Lexer::new(input.to_string());
    let token = lexer.next_token();
    assert_eq!(
        token.token_type,
        TokenType::Fn,
        "Failed to recognize the function keyword"
    );
}

#[test]
fn test_improper_syntax() {
    let inputs = vec![
        "function { return; }",
        "function test(x, y { return x + y; }",
        "function test(x, y) return x + y;",
    ];

    for input in inputs {
        let lexer = Lexer::new(input.to_string());
        let mut parser = Parser::new(lexer);
        parser.parse_statement();
        assert!(
            !parser.errors.is_empty(),
            "Expected errors for input: {}",
            input
        );
    }
}

#[test]
fn test_unexpected_token() {
    let input = r#"
    let x = function(y, z) return y + z; // Using 'function' in an expression improperly
    "#;
    let lexer = Lexer::new(input.to_string());
    let mut parser = Parser::new(lexer);
    parser.parse_statement();
    assert!(
        !parser.errors.is_empty(),
        "Expected errors for misuse of the function keyword"
    );
}

#[test]
fn parse_let_binds_integer_literal() {
    let mut parser = parser_for("let x = 5;");
    let statement = parser.parse_statement().expect("let should parse");
    match statement {
        Statement::Let(name, Expression::IntegerLiteral(value)) => {
            assert_eq!(name, "x");
            assert_eq!(value, 5);
        }
        other => panic!("Expected Let(x, IntegerLiteral(5)), found {:?}", other),
    }
    assert!(parser.errors.is_empty());
}

#[test]
fn parse_let_missing_equal_gives_error_and_no_node() {
    let mut parser = parser_for("let x 5;");
    let statement = parser.parse_statement();
    assert!(statement.is_none());
    assert!(!parser.errors.is_empty());
}

#[test]
fn parse_program_recovers_after_error() {
    let mut parser = parser_for("let x = ; let y = 2;");
    let program = parser.parse_program();
    assert!(!parser.errors.is_empty());
    assert_eq!(program.len(), 1);
    assert!(matches!(&program[0], Statement::Let(name, Expression::IntegerLiteral(2)) if name == "y"));
}

#[test]
fn parse_program_of_empty_input() {
    let mut parser = parser_for("");
    let program = parser.parse_program();
    assert!(program.is_empty());
    assert!(parser.errors.is_empty());
}

#[test]
fn parse_program_of_only_comments() {
    let mut parser = parser_for("// nothing here\n/* nor here */");
    let program = parser.parse_program();
    assert!(program.is_empty());
    assert!(parser.errors.is_empty());
}

#[test]
fn parse_subtraction_is_left_associative() {
    let mut parser = parser_for("a - b - c;");
    let program = parser.parse_program();
    assert!(parser.errors.is_empty(), "errors: {:?}", parser.errors);
    assert_eq!(program.len(), 1);
    let expected = Statement::Expression(Expression::Infix(
        "-".to_string(),
        Box::new(Expression::Infix(
            "-".to_string(),
            Box::new(Expression::Identifier("a".to_string())),
            Box::new(Expression::Identifier("b".to_string())),
        )),
        Box::new(Expression::Identifier("c".to_string())),
    ));
    assert_eq!(program[0], expected);
}

#[test]
fn parse_multiplication_binds_tighter_than_addition() {
    let mut parser = parser_for("1 + 2 * 3;");
    let program = parser.parse_program();
    assert!(parser.errors.is_empty(), "errors: {:?}", parser.errors);
    let expected = Statement::Expression(Expression::Infix(
        "+".to_string(),
        Box::new(Expression::IntegerLiteral(1)),
        Box::new(Expression::Infix(
            "*".to_string(),
            Box::new(Expression::IntegerLiteral(2)),
            Box::new(Expression::IntegerLiteral(3)),
        )),
    ));
    assert_eq!(program[0], expected);
}

#[test]
fn parse_grouping_overrides_precedence() {
    let mut parser = parser_for("(1 + 2) * 3;");
    let program = parser.parse_program();
    assert!(parser.errors.is_empty(), "errors: {:?}", parser.errors);
    let expected = Statement::Expression(Expression::Infix(
        "*".to_string(),
        Box::new(Expression::Infix(
            "+".to_string(),
            Box::new(Expression::IntegerLiteral(1)),
            Box::new(Expression::IntegerLiteral(2)),
        )),
        Box::new(Expression::IntegerLiteral(3)),
    ));
    assert_eq!(program[0], expected);
}

#[test]
fn parse_prefix_operators() {
    let mut parser = parser_for("-x * y; !valid;");
    let program = parser.parse_program();
    assert!(parser.errors.is_empty(), "errors: {:?}", parser.errors);
    assert_eq!(program.len(), 2);
    let expected_first = Statement::Expression(Expression::Infix(
        "*".to_string(),
        Box::new(Expression::Prefix(
            "-".to_string(),
            Box::new(Expression::Identifier("x".to_string())),
        )),
        Box::new(Expression::Identifier("y".to_string())),
    ));
    assert_eq!(program[0], expected_first);
    let expected_second = Statement::Expression(Expression::Prefix(
        "!".to_string(),
        Box::new(Expression::Identifier("valid".to_string())),
    ));
    assert_eq!(program[1], expected_second);
}

#[test]
fn parse_boolean_and_relational() {
    let mut parser = parser_for("true;\nlet ok = 1 < 2;");
    let program = parser.parse_program();
    assert!(parser.errors.is_empty(), "errors: {:?}", parser.errors);
    assert_eq!(
        program[0],
        Statement::Expression(Expression::Boolean(true))
    );
    let expected = Statement::Let(
        "ok".to_string(),
        Expression::Infix(
            "<".to_string(),
            Box::new(Expression::IntegerLiteral(1)),
            Box::new(Expression::IntegerLiteral(2)),
        ),
    );
    assert_eq!(program[1], expected);
}

#[test]
fn parse_function_declaration_with_body() {
    let mut parser = parser_for("fn add(x, y) { return x + y; }");
    let program = parser.parse_program();
    assert!(parser.errors.is_empty(), "errors: {:?}", parser.errors);
    assert_eq!(program.len(), 1);
    match &program[0] {
        Statement::Function(name, parameters, body) => {
            assert_eq!(name, "add");
            assert_eq!(parameters, &vec!["x".to_string(), "y".to_string()]);
            assert_eq!(body.len(), 1);
            assert!(matches!(&body[0], Statement::Return(_)));
        }
        other => panic!("Expected a function declaration, found {:?}", other),
    }
}

#[test]
fn parse_function_literal_in_let() {
    let mut parser = parser_for("let f = fn(a) { a; };");
    let program = parser.parse_program();
    assert!(parser.errors.is_empty(), "errors: {:?}", parser.errors);
    match &program[0] {
        Statement::Let(name, Expression::Function(parameters, body)) => {
            assert_eq!(name, "f");
            assert_eq!(parameters, &vec!["a".to_string()]);
            assert_eq!(body.len(), 1);
        }
        other => panic!("Expected a let of a function literal, found {:?}", other),
    }
}

#[test]
fn parse_call_expression() {
    let mut parser = parser_for("add(1, 2 * 3);");
    let program = parser.parse_program();
    assert!(parser.errors.is_empty(), "errors: {:?}", parser.errors);
    match &program[0] {
        Statement::Expression(Expression::Call(callee, arguments)) => {
            assert_eq!(**callee, Expression::Identifier("add".to_string()));
            assert_eq!(arguments.len(), 2);
            assert_eq!(arguments[0], Expression::IntegerLiteral(1));
        }
        other => panic!("Expected a call expression, found {:?}", other),
    }
}

#[test]
fn parse_if_statement_with_else() {
    let mut parser = parser_for("if (x < y) { x; } else { y; }");
    let program = parser.parse_program();
    assert!(parser.errors.is_empty(), "errors: {:?}", parser.errors);
    match &program[0] {
        Statement::If(condition, consequence, alternative) => {
            assert!(matches!(condition, Expression::Infix(op, _, _) if op == "<"));
            assert_eq!(consequence.len(), 1);
            assert_eq!(alternative.as_ref().unwrap().len(), 1);
        }
        other => panic!("Expected an if statement, found {:?}", other),
    }
}

#[test]
fn parse_if_expression_in_let() {
    let mut parser = parser_for("let m = if (a) { a; } else { b; };");
    let program = parser.parse_program();
    assert!(parser.errors.is_empty(), "errors: {:?}", parser.errors);
    match &program[0] {
        Statement::Let(name, Expression::If(_, consequence, alternative)) => {
            assert_eq!(name, "m");
            assert_eq!(consequence.len(), 1);
            assert!(alternative.is_some());
        }
        other => panic!("Expected a let of an if expression, found {:?}", other),
    }
}

#[test]
fn parse_unterminated_block_is_an_error() {
    let mut parser = parser_for("fn f() { let x = 1;");
    let statement = parser.parse_statement();
    assert!(statement.is_none());
    assert!(!parser.errors.is_empty());
}

#[test]
fn parse_missing_semicolon_is_an_error() {
    let mut parser = parser_for("return 1");
    let statement = parser.parse_statement();
    assert!(statement.is_none());
    assert!(!parser.errors.is_empty());
}

#[test]
fn parse_errors_accessor_matches_field() {
    let mut parser = parser_for("let 5;");
    parser.parse_statement();
    assert_eq!(parser.errors().len(), parser.errors.len());
    assert!(!parser.errors().is_empty());
}

#[test]
fn parse_program_reaches_end_despite_garbage() {
    let mut parser = parser_for("@ @ let x = 1; @");
    let program = parser.parse_program();
    assert!(!parser.errors.is_empty());
    assert!(program
        .iter()
        .any(|s| matches!(s, Statement::Let(name, _) if name == "x")));
}

#[test]
fn parse_bare_equal_is_the_equality_infix() {
    let mut parser = parser_for("x = y;");
    let program = parser.parse_program();
    assert!(parser.errors.is_empty(), "errors: {:?}", parser.errors);
    let expected = Statement::Expression(Expression::Infix(
        "=".to_string(),
        Box::new(Expression::Identifier("x".to_string())),
        Box::new(Expression::Identifier("y".to_string())),
    ));
    assert_eq!(program[0], expected);
}

#[test]
fn parse_non_identifier_parameter_is_an_error() {
    let mut parser = parser_for("fn f(5) { 1; }");
    let statement = parser.parse_statement();
    assert!(!parser.errors.is_empty());
    assert!(matches!(statement, Some(Statement::Function(name, parameters, _))
        if name == "f" && parameters.is_empty()));
}
