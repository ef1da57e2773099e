use lox_scanner::{LoxResult, LoxToken, TokenType, scan_with_whitespace};

/// A number token whose digits must read as `value`.
fn number(value: f64, digits: &str) -> TokenType {
    assert_eq!(digits.parse::<f64>().unwrap(), value);
    TokenType::Number(digits.to_string())
}

#[test]
fn digits() {
    let results = scan_with_whitespace("123 123.0 0.123", false);
    let tokens: LoxResult<Vec<LoxToken>> = results.into_iter().collect();
    assert!(tokens.is_ok());
    assert_eq!(
        tokens.unwrap(),
        vec![
            LoxToken {
                token_type: number(123.0f64, "123"),
                lexeme: "123".to_string(),
                line: 1,
                column: 1,
            },
            LoxToken {
                token_type: TokenType::Space,
                lexeme: " ".to_string(),
                line: 1,
                column: 4,
            },
            LoxToken {
                token_type: number(123.0f64, "123.0"),
                lexeme: "123.0".to_string(),
                line: 1,
                column: 5,
            },
            LoxToken {
                token_type: TokenType::Space,
                lexeme: " ".to_string(),
                line: 1,
                column: 10,
            },
            LoxToken {
                token_type: number(0.123f64, "0.123"),
                lexeme: "0.123".to_string(),
                line: 1,
                column: 11,
            },
            LoxToken {
                token_type: TokenType::Eof,
                lexeme: "".to_string(),
                line: 1,
                column: 16,
            },
        ]
    );
}
