//! What lexing means, stated over the source as a sequence of characters.
//!
//! [`lex_at`] says what one call of the lexer yields at a given cursor. The
//! lexer in [`crate::lexer`] is proved to compute exactly that.

use crate::error::LexFault;
use crate::token::{function_named, operator_of, Span, Token, TokenKind};
use vstd::prelude::*;

verus! {

/// Whether `c` counts as white space. This is the answer of
/// `char::is_whitespace`, which goes by the Unicode property `White_Space`.
pub uninterp spec fn is_whitespace(c: char) -> bool;

/// `char::is_whitespace` of the standard library. Its answer depends on the
/// character alone; that is all that is claimed of it here.
pub assume_specification[ char::is_whitespace ](c: char) -> (answer: bool)
    ensures
        answer == is_whitespace(c),
;

/// Whether `c` is one of the ten ASCII digits.
pub open spec fn is_digit(c: char) -> bool {
    '0' <= c && c <= '9'
}

/// Whether `c` is an ASCII letter, of either case.
pub open spec fn is_letter(c: char) -> bool {
    ('a' <= c && c <= 'z') || ('A' <= c && c <= 'Z')
}

/// The number that the digit `c` stands for.
pub open spec fn digit_value(c: char) -> nat {
    (c as nat - '0' as nat) as nat
}

/// The classes of characters that the lexer consumes in runs.
pub enum CharClass {
    /// White space between tokens.
    Whitespace,
    /// The digits of a number.
    Digit,
    /// The letters of a name.
    Letter,
}

impl CharClass {
    /// Whether `c` belongs to the class.
    pub open spec fn holds(self, c: char) -> bool {
        match self {
            CharClass::Whitespace => is_whitespace(c),
            CharClass::Digit => is_digit(c),
            CharClass::Letter => is_letter(c),
        }
    }
}

/// The end of the longest run of characters of `class` that begins at `pos`:
/// the index of the first character from `pos` on that is not of the class,
/// or the length of `src` if there is none.
pub open spec fn run_end(src: Seq<char>, pos: int, class: CharClass) -> int
    decreases src.len() - pos,
{
    if 0 <= pos < src.len() && class.holds(src[pos]) {
        run_end(src, pos + 1, class)
    } else {
        pos
    }
}

/// The number that a sequence of digits writes in base ten.
pub open spec fn decimal_value(digits: Seq<char>) -> nat
    decreases digits.len(),
{
    if digits.len() == 0 {
        0
    } else {
        10 * decimal_value(digits.drop_last()) + digit_value(digits.last())
    }
}

/// What one call of the lexer yields: the token or the fault, and where the
/// cursor rests afterwards.
pub struct Lexed {
    /// The token, or what went wrong.
    pub result: Result<Token, LexFault>,
    /// The cursor after the call.
    pub cursor: int,
}

/// The token of kind `kind` that covers the characters from `start` up to
/// `end`.
pub open spec fn token_at(kind: TokenKind, start: int, end: int) -> Token {
    Token { kind, span: Span { start_index: start as usize, end_index: end as usize } }
}

/// A number that begins at `start`: digits with at most one decimal point.
///
/// Without a point it is an integer, which must have a digit and fit in 64
/// bits. With a point it is a decimal literal, which must have a digit before
/// or after the point. A second point that follows directly is refused.
pub open spec fn scan_number(src: Seq<char>, start: int) -> Lexed {
    let whole_end = run_end(src, start, CharClass::Digit);
    if whole_end < src.len() && src[whole_end] == '.' {
        let end = run_end(src, whole_end + 1, CharClass::Digit);
        if end < src.len() && src[end] == '.' {
            Lexed {
                result: Err(LexFault::UnrecognisedCharacter('.', end as usize)),
                cursor: end,
            }
        } else if end == start + 1 {
            Lexed {
                result: Err(LexFault::InternalError("Parse float failed", end as usize)),
                cursor: end,
            }
        } else {
            Lexed { result: Ok(token_at(TokenKind::Flt, start, end)), cursor: end }
        }
    } else {
        let value = decimal_value(src.subrange(start, whole_end));
        if whole_end == start || value > u64::MAX {
            Lexed {
                result: Err(LexFault::InternalError("Parse integer failed", whole_end as usize)),
                cursor: whole_end,
            }
        } else {
            Lexed {
                result: Ok(token_at(TokenKind::Int(value as u64), start, whole_end)),
                cursor: whole_end,
            }
        }
    }
}

/// The operator at `pos`, a single character.
pub open spec fn scan_operator(src: Seq<char>, pos: int) -> Lexed {
    if !(0 <= pos < src.len()) {
        Lexed {
            result: Err(LexFault::InternalError("Unable to unwrap operator", pos as usize)),
            cursor: pos,
        }
    } else {
        match operator_of(src[pos]) {
            Some(op) => Lexed {
                result: Ok(token_at(TokenKind::Op(op), pos, pos + 1)),
                cursor: pos + 1,
            },
            None => Lexed {
                result: Err(
                    LexFault::InternalError(
                        "Invalid operator inside operator handler",
                        pos as usize,
                    ),
                ),
                cursor: pos,
            },
        }
    }
}

/// The function name that begins at `start`: the longest run of letters,
/// which must be one of the names that [`function_named`] knows. Where it is
/// not, the cursor stays at `start`.
pub open spec fn scan_function(src: Seq<char>, start: int) -> Lexed {
    let end = run_end(src, start, CharClass::Letter);
    let name = src.subrange(start, end);
    match function_named(name) {
        Some(function) => Lexed {
            result: Ok(token_at(TokenKind::Func(function), start, end)),
            cursor: end,
        },
        None => Lexed {
            result: Err(LexFault::UnrecognisedFunction(name, start as usize)),
            cursor: start,
        },
    }
}

/// What the lexer yields when it is called with its cursor at `pos`.
///
/// White space is passed over. At the end of the source the token is
/// [`TokenKind::Eof`], with an empty span there. Otherwise the first
/// character decides what is scanned.
pub open spec fn lex_at(src: Seq<char>, pos: int) -> Lexed {
    let start = run_end(src, pos, CharClass::Whitespace);
    if !(0 <= start < src.len()) {
        Lexed { result: Ok(token_at(TokenKind::Eof, start, start)), cursor: start }
    } else {
        let c = src[start];
        if c == '.' || is_digit(c) {
            scan_number(src, start)
        } else if operator_of(c) is Some {
            scan_operator(src, start)
        } else if c == '(' {
            Lexed { result: Ok(token_at(TokenKind::LeftParen, start, start + 1)), cursor: start + 1 }
        } else if c == ')' {
            Lexed {
                result: Ok(token_at(TokenKind::RightParen, start, start + 1)),
                cursor: start + 1,
            }
        } else if is_letter(c) {
            scan_function(src, start)
        } else {
            Lexed {
                result: Err(LexFault::UnrecognisedCharacter(c, start as usize)),
                cursor: start,
            }
        }
    }
}

/// A run ends within the source, holds only characters of its class, and is
/// followed by none.
pub proof fn lemma_run_end(src: Seq<char>, pos: int, class: CharClass)
    requires
        0 <= pos <= src.len(),
    ensures
        pos <= run_end(src, pos, class) <= src.len(),
        forall|i: int| pos <= i < run_end(src, pos, class) ==> class.holds(#[trigger] src[i]),
        run_end(src, pos, class) < src.len() ==> !class.holds(src[run_end(src, pos, class)]),
    decreases src.len() - pos,
{
    if pos < src.len() && class.holds(src[pos]) {
        lemma_run_end(src, pos + 1, class);
    }
}

/// A run that holds only characters of the class up to `end`, and stops
/// there, ends at `end`.
pub proof fn lemma_run_end_is(src: Seq<char>, pos: int, end: int, class: CharClass)
    requires
        0 <= pos <= end <= src.len(),
        forall|i: int| pos <= i < end ==> class.holds(#[trigger] src[i]),
        end < src.len() ==> !class.holds(src[end]),
    ensures
        run_end(src, pos, class) == end,
    decreases end - pos,
{
    if pos < end {
        lemma_run_end_is(src, pos + 1, end, class);
    }
}

/// Appending a digit multiplies the value by ten and adds the digit.
pub proof fn lemma_decimal_value_push(digits: Seq<char>, c: char)
    ensures
        decimal_value(digits.push(c)) == 10 * decimal_value(digits) + digit_value(c),
{
    assert(digits.push(c).drop_last() =~= digits);
}

/// The lexer never moves its cursor back, nor past the end of the source.
/// Whatever token it yields but the end-of-input token, it moves the cursor
/// forward.
pub proof fn lemma_lex_moves_forward(src: Seq<char>, pos: int)
    ensures
        pos <= lex_at(src, pos).cursor,
        pos <= src.len() ==> lex_at(src, pos).cursor <= src.len(),
        lex_at(src, pos).result matches Ok(token) && token.kind != TokenKind::Eof ==> pos
            < lex_at(src, pos).cursor,
{
    if 0 <= pos <= src.len() {
        let start = run_end(src, pos, CharClass::Whitespace);
        lemma_run_end(src, pos, CharClass::Whitespace);
        if start < src.len() {
            lemma_run_end(src, start, CharClass::Digit);
            lemma_run_end(src, start, CharClass::Letter);
            let whole_end = run_end(src, start, CharClass::Digit);
            if whole_end < src.len() {
                lemma_run_end(src, whole_end + 1, CharClass::Digit);
            }
            if is_letter(src[start]) {
                assert(run_end(src, start, CharClass::Letter) > start);
            }
        }
    }
}

/// A token's span begins after the white space that follows the old cursor,
/// and ends at the new cursor. Only the span of an end-of-input token is
/// empty, and it lies at the end of the source.
pub proof fn lemma_lex_at(src: Seq<char>, pos: int)
    requires
        0 <= pos <= src.len() <= usize::MAX,
    ensures
        match lex_at(src, pos).result {
            Ok(token) => {
                &&& pos <= token.span.start_index <= token.span.end_index <= src.len()
                &&& token.span.end_index == lex_at(src, pos).cursor
                &&& token.span.start_index == run_end(src, pos, CharClass::Whitespace)
                &&& token.kind == TokenKind::Eof <==> token.span.start_index
                    == token.span.end_index
                &&& token.kind == TokenKind::Eof ==> token.span.start_index == src.len()
            },
            Err(_) => true,
        },
{
    lemma_lex_moves_forward(src, pos);
    let start = run_end(src, pos, CharClass::Whitespace);
    lemma_run_end(src, pos, CharClass::Whitespace);
    if start < src.len() {
        lemma_run_end(src, start, CharClass::Digit);
        lemma_run_end(src, start, CharClass::Letter);
        let whole_end = run_end(src, start, CharClass::Digit);
        if whole_end < src.len() {
            lemma_run_end(src, whole_end + 1, CharClass::Digit);
        }
        if is_letter(src[start]) {
            assert(run_end(src, start, CharClass::Letter) > start);
        }
    }
}

/// The text of a token, lexed again by itself, yields a token of the same
/// kind that covers all of the text, and leaves the cursor at its end.
pub proof fn lemma_relex(src: Seq<char>, pos: int)
    requires
        0 <= pos <= src.len() <= usize::MAX,
    ensures
        lex_at(src, pos).result matches Ok(token) ==> ({
            let text = src.subrange(token.span.start_index as int, token.span.end_index as int);
            lex_at(text, 0) == Lexed {
                result: Ok(token_at(token.kind, 0, text.len() as int)),
                cursor: text.len() as int,
            }
        }),
{
    if let Ok(token) = lex_at(src, pos).result {
        lemma_lex_at(src, pos);
        let start = token.span.start_index as int;
        let end = token.span.end_index as int;
        let text = src.subrange(start, end);
        lemma_run_end(src, pos, CharClass::Whitespace);
        if token.kind != TokenKind::Eof {
            let c = src[start];
            assert(text[0] == c);
            lemma_run_end_is(text, 0, 0, CharClass::Whitespace);
            if c == '.' || is_digit(c) {
                let whole_end = run_end(src, start, CharClass::Digit);
                lemma_run_end(src, start, CharClass::Digit);
                if whole_end < src.len() && src[whole_end] == '.' {
                    lemma_run_end(src, whole_end + 1, CharClass::Digit);
                    assert forall|i: int| 0 <= i < whole_end - start implies CharClass::Digit.holds(
                    #[trigger] text[i]) by {
                        assert(text[i] == src[start + i]);
                    }
                    assert(text[whole_end - start] == src[whole_end]);
                    lemma_run_end_is(text, 0, whole_end - start, CharClass::Digit);
                    assert forall|i: int|
                        whole_end - start + 1 <= i < end - start implies CharClass::Digit.holds(
                    #[trigger] text[i]) by {
                        assert(text[i] == src[start + i]);
                    }
                    lemma_run_end_is(text, whole_end - start + 1, end - start, CharClass::Digit);
                } else {
                    assert forall|i: int| 0 <= i < end - start implies CharClass::Digit.holds(
                    #[trigger] text[i]) by {
                        assert(text[i] == src[start + i]);
                    }
                    lemma_run_end_is(text, 0, end - start, CharClass::Digit);
                    assert(text.subrange(0, end - start) =~= text);
                }
            } else if is_letter(c) {
                lemma_run_end(src, start, CharClass::Letter);
                assert forall|i: int| 0 <= i < end - start implies CharClass::Letter.holds(
                #[trigger] text[i]) by {
                    assert(text[i] == src[start + i]);
                }
                lemma_run_end_is(text, 0, end - start, CharClass::Letter);
                assert(text.subrange(0, end - start) =~= text);
            }
        }
    }
}

/// Once the lexer has yielded the end-of-input token, it yields the same
/// token at every further call, and its cursor stays where it is.
pub proof fn lemma_end_of_input_stays(src: Seq<char>, pos: int)
    requires
        0 <= pos <= src.len() <= usize::MAX,
    ensures
        lex_at(src, pos).result matches Ok(token) ==> (token.kind == TokenKind::Eof ==> lex_at(
            src,
            lex_at(src, pos).cursor,
        ) == lex_at(src, pos)),
{
    lemma_lex_at(src, pos);
}

} // verus!
