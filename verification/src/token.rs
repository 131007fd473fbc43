//! The lexical vocabulary: operators, function names, spans and tokens.

use crate::text::{chars_of, decimal_text, push_decimal, push_text};
use vstd::prelude::*;

verus! {

/// Basic mathematical operators.
#[derive(Debug, Clone, Copy, PartialEq, Eq, Structural)]
pub enum Operator {
    /// Operator `+`.
    Plus,
    /// Operator `-`.
    Minus,
    /// Operator `*`.
    Star,
    /// Operator `/`.
    Slash,
    /// Operator `^`.
    Caret,
}

/// The built-in functions.
#[derive(Debug, Clone, Copy, PartialEq, Eq, Structural)]
pub enum Function {
    /// Sine.
    Sin,
    /// Cosine.
    Cos,
    /// Tangent.
    Tan,
    /// Cosecant.
    Csc,
    /// Secant.
    Sec,
    /// Cotangent.
    Cot,
    /// Inverse sine.
    Asin,
    /// Inverse cosine.
    Acos,
    /// Inverse tangent.
    Atan,
    /// Inverse cosecant.
    Acsc,
    /// Inverse secant.
    Asec,
    /// Inverse cotangent.
    Acot,
}

/// Where a [`Token`] lies in the source, in characters.
///
/// The range is half-open: `start_index` is the index of the first character
/// and `end_index` is one past the last, so the token's text has
/// `end_index - start_index` characters. The span of an end-of-input token is
/// empty and lies at the end of the source.
#[derive(Debug, Clone, Copy, PartialEq, Eq, Structural)]
pub struct Span {
    /// Index of the first character.
    pub start_index: usize,
    /// Index one past the last character.
    pub end_index: usize,
}

/// What a [`Token`] is, with the value it carries.
#[derive(Debug, Clone, Copy, PartialEq, Eq, Structural)]
pub enum TokenKind {
    /// End of input.
    Eof,
    /// Integer literal, with its value.
    Int(u64),
    /// Decimal literal with a point. Its digits are the token's text; the
    /// library keeps them where they are and never converts them.
    Flt,
    /// Operator.
    Op(Operator),
    /// Function name.
    Func(Function),
    /// Left parenthesis.
    LeftParen,
    /// Right parenthesis.
    RightParen,
}

/// A piece of the source, classified.
#[derive(Debug, Clone, Copy, PartialEq, Eq, Structural)]
pub struct Token {
    /// What the token is.
    pub kind: TokenKind,
    /// Where the token lies.
    pub span: Span,
}

/// The operator that the character `c` writes, if it writes one.
pub open spec fn operator_of(c: char) -> Option<Operator> {
    if c == '+' {
        Some(Operator::Plus)
    } else if c == '-' {
        Some(Operator::Minus)
    } else if c == '*' {
        Some(Operator::Star)
    } else if c == '/' {
        Some(Operator::Slash)
    } else if c == '^' {
        Some(Operator::Caret)
    } else {
        None
    }
}

/// The function that `name` names, if it names one. Names are lower case.
pub open spec fn function_named(name: Seq<char>) -> Option<Function> {
    if name == "sin"@ {
        Some(Function::Sin)
    } else if name == "cos"@ {
        Some(Function::Cos)
    } else if name == "tan"@ {
        Some(Function::Tan)
    } else if name == "csc"@ {
        Some(Function::Csc)
    } else if name == "sec"@ {
        Some(Function::Sec)
    } else if name == "cot"@ {
        Some(Function::Cot)
    } else if name == "asin"@ {
        Some(Function::Asin)
    } else if name == "acos"@ {
        Some(Function::Acos)
    } else if name == "atan"@ {
        Some(Function::Atan)
    } else if name == "acsc"@ {
        Some(Function::Acsc)
    } else if name == "asec"@ {
        Some(Function::Asec)
    } else if name == "acot"@ {
        Some(Function::Acot)
    } else {
        None
    }
}

impl Token {
    /// The end-of-input token at `index`. Its span is empty.
    pub fn eof(index: usize) -> (token: Token)
        ensures
            token == (Token {
                kind: TokenKind::Eof,
                span: Span { start_index: index, end_index: index },
            }),
    {
        Token { kind: TokenKind::Eof, span: Span { start_index: index, end_index: index } }
    }

    /// The token of kind `kind` that covers `length` characters from `start`
    /// on.
    pub fn new(kind: TokenKind, start: usize, length: usize) -> (token: Token)
        requires
            start + length <= usize::MAX,
        ensures
            token == (Token {
                kind,
                span: Span { start_index: start, end_index: (start + length) as usize },
            }),
    {
        Token { kind, span: Span { start_index: start, end_index: start + length } }
    }
}

impl Operator {
    /// The operator written by `value`, one of `+ - * / ^`.
    pub fn from(value: char) -> (op: Operator)
        requires
            operator_of(value) is Some,
        ensures
            Some(op) == operator_of(value),
    {
        if value == '+' {
            Operator::Plus
        } else if value == '-' {
            Operator::Minus
        } else if value == '*' {
            Operator::Star
        } else if value == '/' {
            Operator::Slash
        } else {
            Operator::Caret
        }
    }
}

/// Spells out the twelve names, so that a name can be told from each of them
/// by its length or by one of its characters.
proof fn lemma_names()
    ensures
        "sin"@.len() == 3 && "sin"@[0] == 's' && "sin"@[1] == 'i' && "sin"@[2] == 'n',
        "cos"@.len() == 3 && "cos"@[0] == 'c' && "cos"@[1] == 'o' && "cos"@[2] == 's',
        "tan"@.len() == 3 && "tan"@[0] == 't' && "tan"@[1] == 'a' && "tan"@[2] == 'n',
        "csc"@.len() == 3 && "csc"@[0] == 'c' && "csc"@[1] == 's' && "csc"@[2] == 'c',
        "sec"@.len() == 3 && "sec"@[0] == 's' && "sec"@[1] == 'e' && "sec"@[2] == 'c',
        "cot"@.len() == 3 && "cot"@[0] == 'c' && "cot"@[1] == 'o' && "cot"@[2] == 't',
        "asin"@.len() == 4 && "asin"@[0] == 'a' && "asin"@[1] == 's' && "asin"@[2] == 'i' && "asin"@[3] == 'n',
        "acos"@.len() == 4 && "acos"@[0] == 'a' && "acos"@[1] == 'c' && "acos"@[2] == 'o' && "acos"@[3] == 's',
        "atan"@.len() == 4 && "atan"@[0] == 'a' && "atan"@[1] == 't' && "atan"@[2] == 'a' && "atan"@[3] == 'n',
        "acsc"@.len() == 4 && "acsc"@[0] == 'a' && "acsc"@[1] == 'c' && "acsc"@[2] == 's' && "acsc"@[3] == 'c',
        "asec"@.len() == 4 && "asec"@[0] == 'a' && "asec"@[1] == 's' && "asec"@[2] == 'e' && "asec"@[3] == 'c',
        "acot"@.len() == 4 && "acot"@[0] == 'a' && "acot"@[1] == 'c' && "acot"@[2] == 'o' && "acot"@[3] == 't',
{
    reveal_strlit("sin");
    reveal_strlit("cos");
    reveal_strlit("tan");
    reveal_strlit("csc");
    reveal_strlit("sec");
    reveal_strlit("cot");
    reveal_strlit("asin");
    reveal_strlit("acos");
    reveal_strlit("atan");
    reveal_strlit("acsc");
    reveal_strlit("asec");
    reveal_strlit("acot");
}

impl Function {
    /// The function that `value` names, if it names one.
    pub fn try_from(value: &str) -> (found: Result<Function, ()>)
        ensures
            found == match function_named(value@) {
                Some(function) => Ok::<Function, ()>(function),
                None => Err::<Function, ()>(()),
            },
    {
        let chars = chars_of(value);
        assert(chars@.subrange(0, chars@.len() as int) =~= chars@);
        match Function::lookup(&chars, 0, chars.len()) {
            Some(function) => Ok(function),
            None => Err(()),
        }
    }

    /// The function whose name is the characters of `text` from `start` up to
    /// `end`, if there is one.
    pub fn lookup(text: &Vec<char>, start: usize, end: usize) -> (found: Option<Function>)
        requires
            start <= end <= text.len(),
        ensures
            found == function_named(text@.subrange(start as int, end as int)),
    {
        let ghost name = text@.subrange(start as int, end as int);
        proof {
            lemma_names();
        }
        if end - start == 3 {
            let a = text[start];
            let b = text[start + 1];
            let c = text[start + 2];
            if a == 's' && b == 'i' && c == 'n' {
                assert(name =~= "sin"@);
                Some(Function::Sin)
            } else if a == 'c' && b == 'o' && c == 's' {
                assert(name =~= "cos"@);
                Some(Function::Cos)
            } else if a == 't' && b == 'a' && c == 'n' {
                assert(name =~= "tan"@);
                Some(Function::Tan)
            } else if a == 'c' && b == 's' && c == 'c' {
                assert(name =~= "csc"@);
                Some(Function::Csc)
            } else if a == 's' && b == 'e' && c == 'c' {
                assert(name =~= "sec"@);
                Some(Function::Sec)
            } else if a == 'c' && b == 'o' && c == 't' {
                assert(name =~= "cot"@);
                Some(Function::Cot)
            } else {
                assert(name[0] == a && name[1] == b && name[2] == c);
                None
            }
        } else if end - start == 4 {
            let a = text[start];
            let b = text[start + 1];
            let c = text[start + 2];
            let d = text[start + 3];
            if a != 'a' {
                assert(name[0] == a);
                None
            } else if b == 's' && c == 'i' && d == 'n' {
                assert(name =~= "asin"@);
                Some(Function::Asin)
            } else if b == 'c' && c == 'o' && d == 's' {
                assert(name =~= "acos"@);
                Some(Function::Acos)
            } else if b == 't' && c == 'a' && d == 'n' {
                assert(name =~= "atan"@);
                Some(Function::Atan)
            } else if b == 'c' && c == 's' && d == 'c' {
                assert(name =~= "acsc"@);
                Some(Function::Acsc)
            } else if b == 's' && c == 'e' && d == 'c' {
                assert(name =~= "asec"@);
                Some(Function::Asec)
            } else if b == 'c' && c == 'o' && d == 't' {
                assert(name =~= "acot"@);
                Some(Function::Acot)
            } else {
                assert(name[1] == b && name[2] == c && name[3] == d);
                None
            }
        } else {
            None
        }
    }
}

impl Operator {
    /// The name of the operator, as it is shown.
    pub open spec fn label(self) -> &'static str {
        match self {
            Operator::Plus => "Plus",
            Operator::Minus => "Minus",
            Operator::Star => "Star",
            Operator::Slash => "Slash",
            Operator::Caret => "Caret",
        }
    }

    /// The name of the operator, as it is shown.
    pub fn name(&self) -> (name: &'static str)
        ensures
            name == self.label(),
    {
        match self {
            Operator::Plus => "Plus",
            Operator::Minus => "Minus",
            Operator::Star => "Star",
            Operator::Slash => "Slash",
            Operator::Caret => "Caret",
        }
    }
}

impl Function {
    /// The name of the function, as it is shown: with a capital.
    pub open spec fn label(self) -> &'static str {
        match self {
            Function::Sin => "Sin",
            Function::Cos => "Cos",
            Function::Tan => "Tan",
            Function::Csc => "Csc",
            Function::Sec => "Sec",
            Function::Cot => "Cot",
            Function::Asin => "Asin",
            Function::Acos => "Acos",
            Function::Atan => "Atan",
            Function::Acsc => "Acsc",
            Function::Asec => "Asec",
            Function::Acot => "Acot",
        }
    }

    /// The name of the function, as it is shown.
    pub fn name(&self) -> (name: &'static str)
        ensures
            name == self.label(),
    {
        match self {
            Function::Sin => "Sin",
            Function::Cos => "Cos",
            Function::Tan => "Tan",
            Function::Csc => "Csc",
            Function::Sec => "Sec",
            Function::Cot => "Cot",
            Function::Asin => "Asin",
            Function::Acos => "Acos",
            Function::Atan => "Atan",
            Function::Acsc => "Acsc",
            Function::Asec => "Asec",
            Function::Acot => "Acot",
        }
    }
}

impl TokenKind {
    /// The kind as it is shown: its name, and in parentheses what it carries.
    pub open spec fn shown(self) -> Seq<char> {
        match self {
            TokenKind::Eof => "Eof"@,
            TokenKind::Int(value) => "Int("@ + decimal_text(value as nat) + ")"@,
            TokenKind::Flt => "Flt"@,
            TokenKind::Op(operator) => "Op("@ + operator.label()@ + ")"@,
            TokenKind::Func(function) => "Func("@ + function.label()@ + ")"@,
            TokenKind::LeftParen => "LeftParen"@,
            TokenKind::RightParen => "RightParen"@,
        }
    }

    /// Appends the kind, as it is shown, to `text`.
    pub fn show(&self, text: &mut String)
        ensures
            final(text)@ == old(text)@ + self.shown(),
    {
        match self {
            TokenKind::Eof => push_text(text, "Eof"),
            TokenKind::Int(value) => {
                push_text(text, "Int(");
                push_decimal(text, *value as u128);
                push_text(text, ")");
                assert(final(text)@ =~= old(text)@ + self.shown());
            },
            TokenKind::Flt => push_text(text, "Flt"),
            TokenKind::Op(operator) => {
                push_text(text, "Op(");
                push_text(text, operator.name());
                push_text(text, ")");
                assert(final(text)@ =~= old(text)@ + self.shown());
            },
            TokenKind::Func(function) => {
                push_text(text, "Func(");
                push_text(text, function.name());
                push_text(text, ")");
                assert(final(text)@ =~= old(text)@ + self.shown());
            },
            TokenKind::LeftParen => push_text(text, "LeftParen"),
            TokenKind::RightParen => push_text(text, "RightParen"),
        }
    }
}

impl Token {
    /// The token as it is shown in a message: its kind and where it begins.
    pub open spec fn shown(self) -> Seq<char> {
        self.kind.shown() + " at index "@ + decimal_text(self.span.start_index as nat)
    }

    /// Appends the token, as it is shown, to `text`.
    pub fn show(&self, text: &mut String)
        ensures
            final(text)@ == old(text)@ + self.shown(),
    {
        self.kind.show(text);
        push_text(text, " at index ");
        push_decimal(text, self.span.start_index as u128);
        assert(final(text)@ =~= old(text)@ + self.shown());
    }

    /// The token as it is shown in a message.
    pub fn to_string(&self) -> (text: String)
        ensures
            text@ == self.shown(),
    {
        let mut text = String::new();
        self.show(&mut text);
        assert(text@ =~= self.shown());
        text
    }
}

} // verus!
