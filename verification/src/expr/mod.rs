//! The particle expression language: tokens, syntax tree, parser, types.

pub mod call_laws;
pub mod display_laws;
pub mod field_laws;
pub mod parse_laws;
pub mod spacing_laws;
pub mod token_laws;
pub mod tokenizer;
pub mod types;
pub mod xexpr;
pub mod xop;
pub mod xparser;
pub mod xval;

pub use tokenizer::{CompletionItem, SyntaxHighlight, Token, TokenKind, Tokenizer, get_completions};
pub use types::TypeTable;
pub use xexpr::XExpr;
pub use xop::{XBinaryOp, XBuiltInOp, XUnaryOp};
pub use xparser::XParseError;
pub use xval::{XExprReturnType, XFloat, XValue};
