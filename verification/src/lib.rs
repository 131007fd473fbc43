//! A small arithmetic expression language: text is cut into tokens, tokens are
//! parsed into a tree, and the tree is evaluated to a number.
//!
//! Every function here is verified. Integer arithmetic is exact and is carried
//! out by the library. The library never performs floating-point arithmetic: a
//! floating-point result is handed back as the term that yields it, and the
//! host folds that term with hardware floats.

pub mod ast;
pub mod error;
pub mod grammar;
pub mod lexer;
pub mod number;
pub mod parser;
pub mod scan;
pub mod text;
pub mod token;

pub use ast::{BinaryAction, BinaryNode, Node, NodeBox, PlainNode, UnaryAction, UnaryNode};
pub use error::{LexError, ParseError, TilError};
pub use lexer::Lexer;
pub use number::{EvalError, Float, Number, Primitive};
pub use parser::Parser;
pub use token::{Function, Operator, Span, Token, TokenKind};
