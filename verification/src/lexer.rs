//! The lexer: it cuts the source into tokens, one at each call.

use crate::error::{LexError, LexFault};
use crate::scan::{
    decimal_value, digit_value, is_digit, lemma_decimal_value_push, lemma_run_end, lex_at,
    run_end, scan_function, scan_number, scan_operator, CharClass,
};
use crate::text::{chars_of, string_of};
use crate::token::{Function, Operator, Span, Token, TokenKind};
use vstd::prelude::*;

verus! {

/// A lexer over one source text. Each call of [`Lexer::lex`] yields the next
/// token and moves the cursor past it.
#[derive(Debug)]
pub struct Lexer {
    /// The source, one character at each index.
    source_code: Vec<char>,
    /// The index of the character that is read next.
    current_index: usize,
}

/// Whether `outcome` is `expected`, an error by what it says.
pub open spec fn agrees(outcome: Result<Token, LexError>, expected: Result<Token, LexFault>) -> bool {
    match outcome {
        Ok(token) => expected == Ok::<Token, LexFault>(token),
        Err(error) => expected == Err::<Token, LexFault>(error@),
    }
}

impl Clone for Lexer {
    /// A lexer over the same source, with its cursor at the same place.
    fn clone(&self) -> (copy: Lexer)
        ensures
            copy.source() == self.source(),
            copy.cursor() == self.cursor(),
    {
        proof {
            use_type_invariant(self);
        }
        Lexer { source_code: self.source_code.clone(), current_index: self.current_index }
    }
}

impl CharClass {
    /// Tells whether `c` belongs to the class.
    pub fn contains(&self, c: char) -> (answer: bool)
        ensures
            answer == self.holds(c),
    {
        match self {
            CharClass::Whitespace => c.is_whitespace(),
            CharClass::Digit => '0' <= c && c <= '9',
            CharClass::Letter => ('a' <= c && c <= 'z') || ('A' <= c && c <= 'Z'),
        }
    }
}

impl Lexer {
    /// The cursor never lies past the end of the source.
    #[verifier::type_invariant]
    spec fn cursor_in_source(self) -> bool {
        self.current_index <= self.source_code.len()
    }

    /// The source, as a sequence of characters.
    pub closed spec fn source(&self) -> Seq<char> {
        self.source_code@
    }

    /// The index of the character that is read next.
    pub closed spec fn cursor(&self) -> int {
        self.current_index as int
    }

    /// The cursor lies within the source or at its end. This holds of every
    /// lexer at all times.
    pub open spec fn valid(&self) -> bool {
        0 <= self.cursor() <= self.source().len() <= usize::MAX
    }

    /// A lexer at the start of `source_code`.
    pub fn from_source_code(source_code: &str) -> (lexer: Lexer)
        ensures
            lexer.source() == source_code@,
            lexer.cursor() == 0,
            lexer.valid(),
    {
        Lexer { source_code: chars_of(source_code), current_index: 0 }
    }

    /// Moves the cursor back to the start of the source.
    pub fn reset(&mut self)
        ensures
            final(self).source() == old(self).source(),
            final(self).cursor() == 0,
            final(self).valid(),
    {
        proof {
            use_type_invariant(&*self);
        }
        self.current_index = 0;
    }

    /// The end of the run of characters of `class` that begins at `pos`.
    fn end_of_run(&self, pos: usize, class: CharClass) -> (end: usize)
        requires
            pos <= self.source().len(),
        ensures
            end == run_end(self.source(), pos as int, class),
            pos <= end <= self.source().len(),
    {
        let mut end = pos;
        while end < self.source_code.len() && class.contains(self.source_code[end])
            invariant
                pos <= end <= self.source_code.len(),
                run_end(self.source_code@, pos as int, class) == run_end(
                    self.source_code@,
                    end as int,
                    class,
                ),
            decreases self.source_code.len() - end,
        {
            end += 1;
        }
        end
    }

    /// The value of the digits from `start` up to `end`, if it fits in 64
    /// bits.
    fn decimal(&self, start: usize, end: usize) -> (value: Option<u64>)
        requires
            start <= end <= self.source().len(),
            forall|i: int| start <= i < end ==> is_digit(#[trigger] self.source()[i]),
        ensures
            value == if decimal_value(self.source().subrange(start as int, end as int))
                <= u64::MAX {
                Some(decimal_value(self.source().subrange(start as int, end as int)) as u64)
            } else {
                None
            },
    {
        let ghost src = self.source_code@;
        let mut value: u64 = 0;
        let mut i = start;
        while i < end
            invariant
                start <= i <= end <= self.source_code.len(),
                src == self.source_code@,
                forall|i: int| start <= i < end ==> is_digit(#[trigger] src[i]),
                value == decimal_value(src.subrange(start as int, i as int)),
            decreases end - i,
        {
            let c = self.source_code[i];
            let digit = (c as u32 - '0' as u32) as u64;
            proof {
                assert(is_digit(src[i as int]));
                assert(digit == digit_value(c));
                lemma_decimal_value_push(src.subrange(start as int, i as int), c);
                assert(src.subrange(start as int, i + 1) =~= src.subrange(
                    start as int,
                    i as int,
                ).push(c));
            }
            let next = match value.checked_mul(10) {
                Some(tens) => tens.checked_add(digit),
                None => None,
            };
            match next {
                Some(v) => {
                    value = v;
                },
                None => {
                    proof {
                        lemma_decimal_value_grows(src, start as int, i + 1, end as int);
                    }
                    return None;
                },
            }
            i += 1;
        }
        Some(value)
    }

    /// Yields the next token and moves the cursor past it.
    ///
    /// What is yielded, and where the cursor rests afterwards, is what
    /// [`lex_at`] says of the source and of the cursor before the call. At
    /// the end of the source every call yields an end-of-input token.
    pub fn lex(&mut self) -> (outcome: Result<Token, LexError>)
        ensures
            final(self).source() == old(self).source(),
            final(self).cursor() == lex_at(old(self).source(), old(self).cursor()).cursor,
            agrees(outcome, lex_at(old(self).source(), old(self).cursor()).result),
            old(self).valid(),
            final(self).valid(),
    {
        proof {
            use_type_invariant(&*self);
        }
        let start = self.end_of_run(self.current_index, CharClass::Whitespace);
        self.current_index = start;
        if start >= self.source_code.len() {
            return Ok(Token::eof(start));
        }
        let c = self.source_code[start];
        if c == '.' || ('0' <= c && c <= '9') {
            self.handle_number()
        } else if c == '+' || c == '-' || c == '*' || c == '/' || c == '^' {
            self.handle_operator()
        } else if c == '(' {
            self.current_index = start + 1;
            Ok(Token::new(TokenKind::LeftParen, start, 1))
        } else if c == ')' {
            self.current_index = start + 1;
            Ok(Token::new(TokenKind::RightParen, start, 1))
        } else if ('a' <= c && c <= 'z') || ('A' <= c && c <= 'Z') {
            self.handle_function()
        } else {
            Err(LexError::UnrecognisedCharacter(c, start))
        }
    }

    /// The next token, for walking through the tokens of the source: `None`
    /// at the end of the source and where the lexer fails.
    pub fn next(&mut self) -> (item: Option<Token>)
        ensures
            final(self).source() == old(self).source(),
            final(self).cursor() == lex_at(old(self).source(), old(self).cursor()).cursor,
            item == match lex_at(old(self).source(), old(self).cursor()).result {
                Ok(token) => if token.kind == TokenKind::Eof {
                    None
                } else {
                    Some(token)
                },
                Err(_) => None,
            },
            final(self).valid(),
    {
        match self.lex() {
            Ok(token) => match token.kind {
                TokenKind::Eof => None,
                _ => Some(token),
            },
            Err(_) => None,
        }
    }

    /// The text that `span` covers.
    pub fn index(&self, span: Span) -> (text: String)
        requires
            span.start_index <= span.end_index <= self.source().len(),
        ensures
            text@ == self.source().subrange(span.start_index as int, span.end_index as int),
    {
        string_of(&self.source_code, span.start_index, span.end_index)
    }

    /// Scans a number that begins at the cursor: digits with at most one
    /// decimal point. See [`scan_number`].
    pub fn handle_number(&mut self) -> (outcome: Result<Token, LexError>)
        ensures
            final(self).source() == old(self).source(),
            final(self).cursor() == scan_number(old(self).source(), old(self).cursor()).cursor,
            agrees(outcome, scan_number(old(self).source(), old(self).cursor()).result),
            old(self).valid(),
            final(self).valid(),
    {
        proof {
            use_type_invariant(&*self);
        }
        let start = self.current_index;
        let whole_end = self.end_of_run(start, CharClass::Digit);
        proof {
            lemma_run_end(self.source(), start as int, CharClass::Digit);
        }
        if whole_end < self.source_code.len() && self.source_code[whole_end] == '.' {
            let end = self.end_of_run(whole_end + 1, CharClass::Digit);
            self.current_index = end;
            if end < self.source_code.len() && self.source_code[end] == '.' {
                Err(LexError::UnrecognisedCharacter('.', end))
            } else if end == start + 1 {
                Err(LexError::InternalError("Parse float failed", end))
            } else {
                Ok(Token::new(TokenKind::Flt, start, end - start))
            }
        } else {
            self.current_index = whole_end;
            if whole_end == start {
                return Err(LexError::InternalError("Parse integer failed", whole_end));
            }
            match self.decimal(start, whole_end) {
                Some(value) => Ok(Token::new(TokenKind::Int(value), start, whole_end - start)),
                None => Err(LexError::InternalError("Parse integer failed", whole_end)),
            }
        }
    }

    /// Scans the operator at the cursor, a single character. See
    /// [`scan_operator`].
    pub fn handle_operator(&mut self) -> (outcome: Result<Token, LexError>)
        ensures
            final(self).source() == old(self).source(),
            final(self).cursor() == scan_operator(old(self).source(), old(self).cursor()).cursor,
            agrees(outcome, scan_operator(old(self).source(), old(self).cursor()).result),
            old(self).valid(),
            final(self).valid(),
    {
        proof {
            use_type_invariant(&*self);
        }
        let index = self.current_index;
        if index >= self.source_code.len() {
            return Err(LexError::InternalError("Unable to unwrap operator", index));
        }
        let c = self.source_code[index];
        if c == '+' || c == '-' || c == '*' || c == '/' || c == '^' {
            self.current_index = index + 1;
            Ok(Token::new(TokenKind::Op(Operator::from(c)), index, 1))
        } else {
            Err(LexError::InternalError("Invalid operator inside operator handler", index))
        }
    }

    /// Scans the function name that begins at the cursor: the longest run of
    /// letters. See [`scan_function`].
    pub fn handle_function(&mut self) -> (outcome: Result<Token, LexError>)
        ensures
            final(self).source() == old(self).source(),
            final(self).cursor() == scan_function(old(self).source(), old(self).cursor()).cursor,
            agrees(outcome, scan_function(old(self).source(), old(self).cursor()).result),
            old(self).valid(),
            final(self).valid(),
    {
        proof {
            use_type_invariant(&*self);
        }
        let start = self.current_index;
        let end = self.end_of_run(start, CharClass::Letter);
        match Function::lookup(&self.source_code, start, end) {
            Some(function) => {
                self.current_index = end;
                Ok(Token::new(TokenKind::Func(function), start, end - start))
            },
            None => Err(
                LexError::UnrecognisedFunction(string_of(&self.source_code, start, end), start),
            ),
        }
    }
}

/// The value of a sequence of digits is at least that of each of its
/// beginnings.
proof fn lemma_decimal_value_grows(src: Seq<char>, start: int, mid: int, end: int)
    requires
        0 <= start <= mid <= end <= src.len(),
    ensures
        decimal_value(src.subrange(start, mid)) <= decimal_value(src.subrange(start, end)),
    decreases end - mid,
{
    if mid < end {
        lemma_decimal_value_grows(src, start, mid, end - 1);
        assert(src.subrange(start, end).drop_last() =~= src.subrange(start, end - 1));
    }
}

} // verus!
