use lox_scanner::{LoxError, LoxToken, TokenType, scan_with_whitespace};
use lox_scanner::ScannerError::{UnexpectedCharacter, UnterminatedString};

/// A number token whose digits must read as `value`.
fn number(value: f64, digits: &str) -> TokenType {
    assert_eq!(digits.parse::<f64>().unwrap(), value);
    TokenType::Number(digits.to_string())
}

#[test]
fn unexpected_char() {
    let results = scan_with_whitespace("123 ~ 123.0 0.123", false);
    assert_eq!(
        results,
        vec![
            Ok(LoxToken {
                token_type: number(123.0f64, "123"),
                lexeme: "123".to_string(),
                line: 1,
                column: 1,
            }),
            Ok(LoxToken {
                token_type: TokenType::Space,
                lexeme: " ".to_string(),
                line: 1,
                column: 4,
            }),
            Err(LoxError::ScannerError(UnexpectedCharacter(1, 5, '~'))),
            Ok(LoxToken {
                token_type: TokenType::Space,
                lexeme: " ".to_string(),
                line: 1,
                column: 6,
            }),
            Ok(LoxToken {
                token_type: number(123.0f64, "123.0"),
                lexeme: "123.0".to_string(),
                line: 1,
                column: 7,
            }),
            Ok(LoxToken {
                token_type: TokenType::Space,
                lexeme: " ".to_string(),
                line: 1,
                column: 12,
            }),
            Ok(LoxToken {
                token_type: number(0.123f64, "0.123"),
                lexeme: "0.123".to_string(),
                line: 1,
                column: 13,
            }),
            Ok(LoxToken {
                token_type: TokenType::Eof,
                lexeme: "".to_string(),
                line: 1,
                column: 18,
            }),
        ]
    );
}

#[test]
fn unterminated_string() {
    let results = scan_with_whitespace("\"locutus", false);
    assert_eq!(
        results,
        vec![
            Err(LoxError::ScannerError(UnterminatedString(1, 1))),
            Ok(LoxToken {
                token_type: TokenType::Eof,
                lexeme: "".to_string(),
                line: 1,
                column: 9,
            }),
        ]
    );
}
