use nova_compiler::lexer::Lexer;
use nova_compiler::token::{Token, TokenType};

fn assert_token_type(token: &Token, expected_type: &TokenType) {
    match (expected_type, &token.token_type) {
        (TokenType::Int(_), TokenType::Int(_)) => (),
        (TokenType::Str(_), TokenType::Str(_)) => (),
        (expected, actual) => assert_eq!(expected, actual),
    }
}

#[test]
fn test_operators() {
    let input = "+ - * / = ! < >";
    let mut lexer = Lexer::new(input.to_string());
    let expected_tokens = vec![
        TokenType::Plus,
        TokenType::Minus,
        TokenType::Asterisk,
        TokenType::Slash,
        TokenType::Equal,
        TokenType::NotEqual,
        TokenType::LessThan,
        TokenType::GreaterThan,
    ];

    for expected in expected_tokens {
        let token = lexer.next_token();
        assert_token_type(&token, &expected);
    }
}

#[test]
fn test_numbers() {
    let input = "123 456 789";
    let mut lexer = Lexer::new(input.to_string());
    let expected_values = [123, 456, 789];

    for &expected in expected_values.iter() {
        let token = lexer.next_token();
        if let TokenType::Int(value) = token.token_type {
            assert_eq!(value, expected);
        } else {
            panic!("Expected integer token, found {:?}", token.token_type);
        }
    }
}

#[test]
fn test_strings() {
    let input = "\"hello\" \"world\"";
    let mut lexer = Lexer::new(input.to_string());

    for expected in ["hello", "world"].iter() {
        let token = lexer.next_token();
        match token.token_type {
            TokenType::Str(ref s) if s == expected => (),
            _ => panic!("Expected Str({}), found {:?}", expected, token.token_type),
        }
    }
}

#[test]
fn test_whitespace_and_comments() {
    let input = r#"
        // This is a single-line comment
        /* This is a
           multi-line comment */
        42
        // Another comment
    "#;
    let mut lexer = Lexer::new(input.to_string());
    let token = lexer.next_token();
    match token.token_type {
        TokenType::Int(value) => assert_eq!(value, 42),
        _ => panic!("Expected Int, found {:?}", token.token_type),
    }
    assert_eq!(lexer.next_token().token_type, TokenType::EOF);
}

#[test]
fn test_keywords_and_identifiers() {
    let input = "let variable = if else fn return";
    let mut lexer = Lexer::new(input.to_string());
    let expected_tokens = [
        TokenType::Let,
        TokenType::Ident("variable".to_string()),
        TokenType::Equal,
        TokenType::If,
        TokenType::Else,
        TokenType::Fn,
        TokenType::Return,
    ];
    for expected in expected_tokens.iter() {
        let token = lexer.next_token();
        assert_token_type(&token, expected);
    }
}

#[test]
fn test_combined_syntax() {
    let input = "fn add(x, y) { x + y; }";
    let mut lexer = Lexer::new(input.to_string());
    let expected_tokens = [
        TokenType::Fn,
        TokenType::Ident("add".to_string()),
        TokenType::LParen,
        TokenType::Ident("x".to_string()),
        TokenType::Comma,
        TokenType::Ident("y".to_string()),
        TokenType::RParen,
        TokenType::LBrace,
        TokenType::Ident("x".to_string()),
        TokenType::Plus,
        TokenType::Ident("y".to_string()),
        TokenType::Semicolon,
        TokenType::RBrace,
    ];
    for expected in expected_tokens.iter() {
        let token = lexer.next_token();
        assert_token_type(&token, expected);
    }
}

#[test]
fn test_illegal_characters() {
    let input = "@ # $ % ^ &";
    let mut lexer = Lexer::new(input.to_string());
    for _ in 0..6 {
        let token = lexer.next_token();
        assert_eq!(token.token_type, TokenType::Illegal);
    }
}

#[test]
fn test_eof() {
    let input = "variable";
    let mut lexer = Lexer::new(input.to_string());
    assert_token_type(
        &lexer.next_token(),
        &TokenType::Ident("variable".to_string()),
    );
    assert_eq!(lexer.next_token().token_type, TokenType::EOF);
    assert_eq!(lexer.next_token().token_type, TokenType::EOF);
}

#[test]
fn scan_operators_end_with_eof() {
    let input = "+ - * / = ! < >";
    let mut lexer = Lexer::new(input.to_string());
    let expected = [
        TokenType::Plus,
        TokenType::Minus,
        TokenType::Asterisk,
        TokenType::Slash,
        TokenType::Equal,
        TokenType::NotEqual,
        TokenType::LessThan,
        TokenType::GreaterThan,
        TokenType::EOF,
    ];
    for e in expected.iter() {
        assert_eq!(&lexer.next_token().token_type, e);
    }
}

#[test]
fn scan_block_comment_then_number() {
    let mut lexer = Lexer::new("/* comment */42".to_string());
    let token = lexer.next_token();
    assert_eq!(token.token_type, TokenType::Int(42));
    assert_eq!(token.literal, "42");
    assert_eq!(lexer.next_token().token_type, TokenType::EOF);
}

#[test]
fn scan_literals_are_source_substrings() {
    let source = "let x = 5; \"hi\" @";
    let mut lexer = Lexer::new(source.to_string());
    let expected_literals = ["let", "x", "=", "5", ";", "hi", "@"];
    for expected in expected_literals.iter() {
        let token = lexer.next_token();
        assert_eq!(&token.literal, expected);
        assert!(source.contains(&token.literal));
    }
    assert_eq!(lexer.next_token().literal, "");
}

#[test]
fn scan_eof_forever_after_exhaustion() {
    let mut lexer = Lexer::new("x".to_string());
    lexer.next_token();
    for _ in 0..1000 {
        assert_eq!(lexer.next_token().token_type, TokenType::EOF);
    }
}

#[test]
fn scan_only_illegal_characters_terminates() {
    let input = "@#$%^&";
    let mut lexer = Lexer::new(input.to_string());
    let mut count = 0;
    loop {
        let token = lexer.next_token();
        if token.token_type == TokenType::EOF {
            break;
        }
        assert_eq!(token.token_type, TokenType::Illegal);
        count += 1;
    }
    assert_eq!(count, 6);
}

#[test]
fn scan_largest_integer_fits() {
    let mut lexer = Lexer::new("9223372036854775807".to_string());
    let token = lexer.next_token();
    assert_eq!(token.token_type, TokenType::Int(i64::MAX));
    assert_eq!(token.literal, "9223372036854775807");
}

#[test]
fn scan_integer_overflow_is_illegal_token() {
    let mut lexer = Lexer::new("9223372036854775808 7".to_string());
    let token = lexer.next_token();
    assert_eq!(token.token_type, TokenType::Illegal);
    assert_eq!(token.literal, "9223372036854775808");
    assert_eq!(lexer.next_token().token_type, TokenType::Int(7));
}

#[test]
fn scan_unterminated_string_is_accepted() {
    let mut lexer = Lexer::new("\"abc".to_string());
    let token = lexer.next_token();
    assert_eq!(token.token_type, TokenType::Str("abc".to_string()));
    assert_eq!(lexer.next_token().token_type, TokenType::EOF);
}

#[test]
fn scan_unterminated_block_comment_consumes_rest() {
    let mut lexer = Lexer::new("1 /* never closed 2 3".to_string());
    assert_eq!(lexer.next_token().token_type, TokenType::Int(1));
    assert_eq!(lexer.next_token().token_type, TokenType::EOF);
}

#[test]
fn scan_line_comment_runs_to_newline() {
    let mut lexer = Lexer::new("// note\n5".to_string());
    assert_eq!(lexer.next_token().token_type, TokenType::Int(5));
    assert_eq!(lexer.next_token().token_type, TokenType::EOF);
}

#[test]
fn scan_identifiers_exclude_digits() {
    let mut lexer = Lexer::new("x1 _foo".to_string());
    assert_eq!(
        lexer.next_token().token_type,
        TokenType::Ident("x".to_string())
    );
    assert_eq!(lexer.next_token().token_type, TokenType::Int(1));
    assert_eq!(
        lexer.next_token().token_type,
        TokenType::Ident("_foo".to_string())
    );
}

#[test]
fn scan_all_keywords() {
    let mut lexer = Lexer::new("let fn if else return true false".to_string());
    let expected = [
        TokenType::Let,
        TokenType::Fn,
        TokenType::If,
        TokenType::Else,
        TokenType::Return,
        TokenType::True,
        TokenType::False,
        TokenType::EOF,
    ];
    for e in expected.iter() {
        assert_eq!(&lexer.next_token().token_type, e);
    }
}

#[test]
fn scan_punctuation() {
    let mut lexer = Lexer::new("(){},;".to_string());
    let expected = [
        TokenType::LParen,
        TokenType::RParen,
        TokenType::LBrace,
        TokenType::RBrace,
        TokenType::Comma,
        TokenType::Semicolon,
        TokenType::EOF,
    ];
    for e in expected.iter() {
        assert_eq!(&lexer.next_token().token_type, e);
    }
}

#[test]
fn scan_double_equal_is_two_tokens() {
    let mut lexer = Lexer::new("==".to_string());
    assert_eq!(lexer.next_token().token_type, TokenType::Equal);
    assert_eq!(lexer.next_token().token_type, TokenType::Equal);
    assert_eq!(lexer.next_token().token_type, TokenType::EOF);
}
