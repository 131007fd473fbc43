//! The errors of the lexer and of the parser.

use crate::text::{decimal_text, push_decimal, push_text};
use crate::token::Token;
use vstd::prelude::*;

verus! {

/// Errors returned by the lexer.
#[derive(Debug)]
pub enum LexError {
    /// The character at the given index begins no token, or is a second
    /// decimal point in a number.
    UnrecognisedCharacter(char, usize),
    /// The letters that begin at the given index name no function.
    UnrecognisedFunction(String, usize),
    /// A fault of the lexer itself, met at the given index.
    InternalError(&'static str, usize),
}

/// What a [`LexError`] says, with the offending name as a sequence of
/// characters.
pub enum LexFault {
    /// See [`LexError::UnrecognisedCharacter`].
    UnrecognisedCharacter(char, usize),
    /// See [`LexError::UnrecognisedFunction`].
    UnrecognisedFunction(Seq<char>, usize),
    /// See [`LexError::InternalError`].
    InternalError(&'static str, usize),
}

impl Clone for LexError {
    fn clone(&self) -> (copy: LexError)
        ensures
            copy == *self,
    {
        match self {
            LexError::UnrecognisedCharacter(c, index) => LexError::UnrecognisedCharacter(
                *c,
                *index,
            ),
            LexError::UnrecognisedFunction(name, index) => LexError::UnrecognisedFunction(
                name.clone(),
                *index,
            ),
            LexError::InternalError(message, index) => LexError::InternalError(message, *index),
        }
    }
}

impl View for LexError {
    type V = LexFault;

    open spec fn view(&self) -> LexFault {
        match *self {
            LexError::UnrecognisedCharacter(c, index) => LexFault::UnrecognisedCharacter(c, index),
            LexError::UnrecognisedFunction(name, index) => LexFault::UnrecognisedFunction(
                name@,
                index,
            ),
            LexError::InternalError(message, index) => LexFault::InternalError(message, index),
        }
    }
}

/// Errors returned by the parser.
#[derive(Debug, Clone, Copy, PartialEq, Eq)]
pub enum ParseError {
    /// The input ended where an operand was expected.
    UnexpectedEOF,
    /// A number was expected where the token stands.
    NumberExpected(Token),
    /// An operator was expected where the token stands.
    OperatorExpected(Token),
    /// A right parenthesis was expected where the token stands.
    RightParenExpected(Token),
    /// The operator stands where an operand was expected, and is no sign.
    InvalidUnaryOperator(Token),
    /// The right parenthesis at the given index closes nothing.
    MismatchRightParen(usize),
    /// A fault of the parser itself.
    InternalError(&'static str),
}

/// Errors returned by this library.
#[derive(Debug)]
pub enum TilError {
    /// An error of the lexer.
    Lex(LexError),
    /// An error of the parser.
    Parse(ParseError),
    /// A failure from elsewhere, by its message.
    Unknown(String),
}

/// What a [`TilError`] says, with its texts as sequences of characters.
pub enum TilFault {
    /// See [`TilError::Lex`].
    Lex(LexFault),
    /// See [`TilError::Parse`].
    Parse(ParseError),
    /// See [`TilError::Unknown`].
    Unknown(Seq<char>),
}

impl Clone for TilError {
    fn clone(&self) -> (copy: TilError)
        ensures
            copy == *self,
    {
        match self {
            TilError::Lex(error) => TilError::Lex(error.clone()),
            TilError::Parse(error) => TilError::Parse(*error),
            TilError::Unknown(message) => TilError::Unknown(message.clone()),
        }
    }
}

impl View for TilError {
    type V = TilFault;

    open spec fn view(&self) -> TilFault {
        match *self {
            TilError::Lex(error) => TilFault::Lex(error@),
            TilError::Parse(error) => TilFault::Parse(error),
            TilError::Unknown(message) => TilFault::Unknown(message@),
        }
    }
}

impl From<LexError> for TilError {
    fn from(value: LexError) -> (error: TilError) {
        TilError::Lex(value)
    }
}

impl vstd::std_specs::convert::FromSpecImpl<LexError> for TilError {
    open spec fn obeys_from_spec() -> bool {
        true
    }

    open spec fn from_spec(value: LexError) -> TilError {
        TilError::Lex(value)
    }
}

impl From<ParseError> for TilError {
    fn from(value: ParseError) -> (error: TilError) {
        TilError::Parse(value)
    }
}

impl vstd::std_specs::convert::FromSpecImpl<ParseError> for TilError {
    open spec fn obeys_from_spec() -> bool {
        true
    }

    open spec fn from_spec(value: ParseError) -> TilError {
        TilError::Parse(value)
    }
}

impl LexFault {
    /// The message of the error.
    pub open spec fn message(self) -> Seq<char> {
        match self {
            LexFault::UnrecognisedCharacter(c, index) => "Unrecognised character '"@.push(c)
                + "' at index "@ + decimal_text(index as nat),
            LexFault::UnrecognisedFunction(name, index) => "Unrecognised function '"@ + name
                + "' at index "@ + decimal_text(index as nat),
            LexFault::InternalError(message, index) => message@ + " at index "@ + decimal_text(
                index as nat,
            ),
        }
    }
}

impl LexError {
    /// The message of the error.
    pub fn to_string(&self) -> (text: String)
        ensures
            text@ == self@.message(),
    {
        let mut text = String::new();
        match self {
            LexError::UnrecognisedCharacter(c, index) => {
                push_text(&mut text, "Unrecognised character '");
                text.push(*c);
                push_text(&mut text, "' at index ");
                push_decimal(&mut text, *index as u128);
            },
            LexError::UnrecognisedFunction(name, index) => {
                push_text(&mut text, "Unrecognised function '");
                push_text(&mut text, name.as_str());
                push_text(&mut text, "' at index ");
                push_decimal(&mut text, *index as u128);
            },
            LexError::InternalError(message, index) => {
                push_text(&mut text, message);
                push_text(&mut text, " at index ");
                push_decimal(&mut text, *index as u128);
            },
        }
        assert(text@ =~= self@.message());
        text
    }
}

impl ParseError {
    /// The message of the error.
    pub open spec fn message(self) -> Seq<char> {
        match self {
            ParseError::UnexpectedEOF => "Unexpected end-of-file"@,
            ParseError::NumberExpected(token) => "Expected a number, found "@ + token.shown(),
            ParseError::OperatorExpected(token) => "Expected an operator, found "@
                + token.shown(),
            ParseError::RightParenExpected(token) => "Expected a right parenthesis, found "@
                + token.shown(),
            ParseError::InvalidUnaryOperator(token) => "Found an invalid unary operator "@
                + token.shown(),
            ParseError::MismatchRightParen(index) =>
                "Found a right parenthesis without a matching left one at index "@
                + decimal_text(index as nat),
            ParseError::InternalError(message) => message@,
        }
    }

    /// The message of the error.
    pub fn to_string(&self) -> (text: String)
        ensures
            text@ == self.message(),
    {
        let mut text = String::new();
        match self {
            ParseError::UnexpectedEOF => {
                push_text(&mut text, "Unexpected end-of-file");
            },
            ParseError::NumberExpected(token) => {
                push_text(&mut text, "Expected a number, found ");
                token.show(&mut text);
            },
            ParseError::OperatorExpected(token) => {
                push_text(&mut text, "Expected an operator, found ");
                token.show(&mut text);
            },
            ParseError::RightParenExpected(token) => {
                push_text(&mut text, "Expected a right parenthesis, found ");
                token.show(&mut text);
            },
            ParseError::InvalidUnaryOperator(token) => {
                push_text(&mut text, "Found an invalid unary operator ");
                token.show(&mut text);
            },
            ParseError::MismatchRightParen(index) => {
                push_text(
                    &mut text,
                    "Found a right parenthesis without a matching left one at index ",
                );
                push_decimal(&mut text, *index as u128);
            },
            ParseError::InternalError(message) => {
                push_text(&mut text, message);
            },
        }
        assert(text@ =~= self.message());
        text
    }
}

impl TilFault {
    /// The message of the error.
    pub open spec fn message(self) -> Seq<char> {
        match self {
            TilFault::Lex(fault) => fault.message(),
            TilFault::Parse(error) => error.message(),
            TilFault::Unknown(message) => message,
        }
    }
}

impl TilError {
    /// The message of the error.
    pub fn to_string(&self) -> (text: String)
        ensures
            text@ == self@.message(),
    {
        match self {
            TilError::Lex(error) => error.to_string(),
            TilError::Parse(error) => error.to_string(),
            TilError::Unknown(message) => message.clone(),
        }
    }
}

} // verus!
