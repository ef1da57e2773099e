pub mod error;
pub mod escapable_string;
pub mod grammar;
pub mod laws;
pub mod linter;
pub mod scanner;
pub mod tokens;
pub mod utils;

pub use error::{LinterError, LoxError, LoxResult, ScannerError};
pub use escapable_string::UnEscapableString;
pub use linter::lint_tokens;
pub use scanner::{scan, scan_with_whitespace};
pub use tokens::{LoxToken, TokenType};
pub use utils::{is_alpha, is_alpha_numeric, is_digit, unescape_string};
