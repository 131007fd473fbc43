use tilted::{
    Function, LexError, Lexer, Operator, ParseError, Parser, Span, TilError, Token, TokenKind,
};

fn token(kind: TokenKind, start: usize, end: usize) -> Token {
    Token { kind, span: Span { start_index: start, end_index: end } }
}

fn failure(source: &str) -> TilError {
    let mut parser = Parser::from_lexer(Lexer::from_source_code(source));
    parser.parse().unwrap_err()
}

#[test]
fn tokens_are_shown_with_their_kind_and_index() {
    assert_eq!(token(TokenKind::Eof, 7, 7).to_string(), "Eof at index 7");
    assert_eq!(token(TokenKind::Int(0), 0, 1).to_string(), "Int(0) at index 0");
    assert_eq!(
        token(TokenKind::Int(u64::MAX), 12, 32).to_string(),
        "Int(18446744073709551615) at index 12"
    );
    assert_eq!(token(TokenKind::Flt, 3, 6).to_string(), "Flt at index 3");
    assert_eq!(
        token(TokenKind::Op(Operator::Caret), 105, 106).to_string(),
        "Op(Caret) at index 105"
    );
    assert_eq!(
        token(TokenKind::Func(Function::Acot), 10, 14).to_string(),
        "Func(Acot) at index 10"
    );
    assert_eq!(token(TokenKind::LeftParen, 1, 2).to_string(), "LeftParen at index 1");
    assert_eq!(token(TokenKind::RightParen, 2, 3).to_string(), "RightParen at index 2");
}

#[test]
fn names_are_shown_with_a_capital() {
    assert_eq!(Function::Sin.name(), "Sin");
    assert_eq!(Function::Cos.name(), "Cos");
    assert_eq!(Function::Tan.name(), "Tan");
    assert_eq!(Function::Csc.name(), "Csc");
    assert_eq!(Function::Sec.name(), "Sec");
    assert_eq!(Function::Cot.name(), "Cot");
    assert_eq!(Function::Asin.name(), "Asin");
    assert_eq!(Function::Acos.name(), "Acos");
    assert_eq!(Function::Atan.name(), "Atan");
    assert_eq!(Function::Acsc.name(), "Acsc");
    assert_eq!(Function::Asec.name(), "Asec");
    assert_eq!(Function::Acot.name(), "Acot");
    assert_eq!(Operator::Plus.name(), "Plus");
    assert_eq!(Operator::Minus.name(), "Minus");
    assert_eq!(Operator::Star.name(), "Star");
    assert_eq!(Operator::Slash.name(), "Slash");
    assert_eq!(Operator::Caret.name(), "Caret");
}

#[test]
fn lexer_errors_have_messages() {
    assert_eq!(
        LexError::UnrecognisedCharacter('#', 4).to_string(),
        "Unrecognised character '#' at index 4"
    );
    assert_eq!(
        LexError::UnrecognisedFunction(String::from("foo"), 20).to_string(),
        "Unrecognised function 'foo' at index 20"
    );
    assert_eq!(
        LexError::InternalError("Parse integer failed", 1234567890).to_string(),
        "Parse integer failed at index 1234567890"
    );
}

#[test]
fn parser_errors_have_messages() {
    assert_eq!(ParseError::UnexpectedEOF.to_string(), "Unexpected end-of-file");
    assert_eq!(
        ParseError::NumberExpected(token(TokenKind::Eof, 3, 3)).to_string(),
        "Expected a number, found Eof at index 3"
    );
    assert_eq!(
        ParseError::OperatorExpected(token(TokenKind::Int(6), 2, 3)).to_string(),
        "Expected an operator, found Int(6) at index 2"
    );
    assert_eq!(
        ParseError::RightParenExpected(token(TokenKind::Eof, 2, 2)).to_string(),
        "Expected a right parenthesis, found Eof at index 2"
    );
    assert_eq!(
        ParseError::InvalidUnaryOperator(token(TokenKind::Op(Operator::Star), 0, 1)).to_string(),
        "Found an invalid unary operator Op(Star) at index 0"
    );
    assert_eq!(
        ParseError::MismatchRightParen(9).to_string(),
        "Found a right parenthesis without a matching left one at index 9"
    );
    assert_eq!(ParseError::InternalError("broken").to_string(), "broken");
}

#[test]
fn the_message_of_a_failed_parse_is_that_of_its_cause() {
    assert_eq!(failure("(5").to_string(), "Expected a right parenthesis, found Eof at index 2");
    assert_eq!(failure("9.0.0").to_string(), "Unrecognised character '.' at index 3");
    assert_eq!(failure("2 * tangent(1)").to_string(), "Unrecognised function 'tangent' at index 4");
    assert_eq!(failure("").to_string(), "Unexpected end-of-file");
    assert_eq!(
        TilError::Unknown(String::from("disk on fire")).to_string(),
        "disk on fire"
    );
}

#[test]
fn errors_convert_into_the_library_error() {
    match TilError::from(LexError::UnrecognisedCharacter('?', 1)) {
        TilError::Lex(LexError::UnrecognisedCharacter('?', 1)) => {}
        other => panic!("unexpected: {:?}", other),
    }
    match TilError::from(ParseError::MismatchRightParen(3)) {
        TilError::Parse(ParseError::MismatchRightParen(3)) => {}
        other => panic!("unexpected: {:?}", other),
    }
}
