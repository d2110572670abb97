//! Boolean filter expressions over labels: a lexer and a recursive-descent
//! parser that turn text such as `tag:a && (tag:b || !tag:c)` into a
//! syntax tree.
//!
//! [`tokenize`] cuts the text into tokens and never fails; [`parse`] builds
//! the tree from the tokens or says why they are no expression.

pub mod cursor;
pub mod expression;
pub mod groups;
pub mod lexer;
pub mod lexer_lemmas;
pub mod parser;
pub mod parser_lemmas;
pub mod render;
pub mod token;

pub use cursor::TokenIterator;
pub use expression::{Expression, ExpressionView};
pub use lexer::tokenize;
pub use parser::{parse, parse_expression, parse_single, ParseError};
pub use token::{Operator, Token, TokenView};
