use tilted::{
    BinaryAction, BinaryNode, EvalError, Float, Function, LexError, Lexer, Node, Number, Operator,
    ParseError, Parser, PlainNode, Primitive, Span, TilError, Token, TokenKind, UnaryAction,
    UnaryNode,
};

/// The double that `term` stands for, with its literals read in `source`.
fn fold(term: &Float, source: &str) -> f64 {
    match term {
        Float::Literal(span) => {
            let text: String = source
                .chars()
                .skip(span.start_index)
                .take(span.end_index - span.start_index)
                .collect();
            text.parse::<f64>().unwrap()
        }
        Float::FromInt(value) => *value as f64,
        Float::Neg(operand) => -fold(operand, source),
        Float::Apply(primitive, operand) => {
            let x = fold(operand, source);
            match primitive {
                Primitive::Sin => x.sin(),
                Primitive::Cos => x.cos(),
                Primitive::Tan => x.tan(),
                Primitive::Asin => x.asin(),
                Primitive::Acos => x.acos(),
                Primitive::Atan => x.atan(),
            }
        }
        Float::Binary(left, actor, right) => {
            let l = fold(left, source);
            let r = fold(right, source);
            match actor {
                BinaryAction::Add => l + r,
                BinaryAction::Sub => l - r,
                BinaryAction::Mul => l * r,
                BinaryAction::Div => l / r,
                BinaryAction::Pow => l.powf(r),
            }
        }
    }
}

fn parse(source: &str) -> Result<Box<Node>, TilError> {
    let lexer = Lexer::from_source_code(source);
    let mut parser = Parser::from_lexer(lexer);
    parser.parse()
}

/// Parses and evaluates `source`, which must hold an integer expression.
fn integer(source: &str) -> i128 {
    let node = parse(source);
    assert!(node.is_ok());
    match node.unwrap().evaluate() {
        Ok(Number::Int(value)) => value,
        other => panic!("not an integer: {:?}", other),
    }
}

/// Parses and evaluates `source`, which must hold a floating-point
/// expression.
fn floating(source: &str) -> f64 {
    let node = parse(source);
    assert!(node.is_ok());
    match node.unwrap().evaluate() {
        Ok(Number::Flt(term)) => fold(&term, source),
        other => panic!("not floating-point: {:?}", other),
    }
}

fn parse_error(source: &str) -> ParseError {
    match parse(source) {
        Err(TilError::Parse(error)) => error,
        other => panic!("no parse error: {:?}", other),
    }
}

fn leaf(value: i128) -> Box<Node> {
    Box::new(Node::Plain(PlainNode::new(Number::Int(value))))
}

fn join(left: Box<Node>, actor: BinaryAction, right: Box<Node>) -> Box<Node> {
    Box::new(Node::Binary(BinaryNode::new(left, actor, right)))
}

fn token(kind: TokenKind, start: usize, end: usize) -> Token {
    Token { kind, span: Span { start_index: start, end_index: end } }
}

#[test]
fn test_parser_one_int() {
    assert_eq!(integer("5"), 5);
}

#[test]
fn test_parser_one_flt() {
    assert_eq!(floating("5.0"), 5.0);
}

#[test]
fn test_parser_int_expr() {
    assert_eq!(integer("5 + 5"), 10);
}

#[test]
fn test_parser_flt_expr() {
    assert_eq!(floating("5.0 + 5.0"), 10.0);
}

#[test]
fn test_parser_int_flt_expr() {
    assert_eq!(floating("5 + 5.0"), 10.0);
}

#[test]
fn test_parser_order_of_expr() {
    assert_eq!(integer("7 + 6 * 2 - 4 * (8 + 3)"), -25);
}

#[test]
fn test_parser_unary_op() {
    assert_eq!(integer("-5"), -5);
}

#[test]
fn test_parser_multi_unary_op() {
    assert_eq!(integer("+--+5*+-+-5"), 25);
}

#[test]
fn test_parser_unary_op_expr() {
    assert_eq!(integer("-5 + 5"), 0);
}

#[test]
fn test_parser_impl_mul() {
    assert_eq!(integer("5(5)"), 25);
}

#[test]
fn test_parser_impl_mul_expr() {
    assert_eq!(integer("5(5 + 5)"), 50);
}

#[test]
fn test_parser_complex_expr() {
    assert_eq!(integer("2*-(3*(1+-(2)))^2"), -18);
}

#[test]
fn test_parser_impl_mul_func() {
    assert_eq!(floating("5sin(0)"), 0.0);
}

#[test]
fn one_float_literal_makes_the_whole_result_floating_point() {
    assert_eq!(floating("7 + 6.0 * 2 - 4 * (8 + 3)"), -25.0);
}

#[test]
fn integer_subtrees_stay_exact_beside_a_float() {
    // 7 / 2 is the integer 3 before the float is added.
    assert_eq!(floating("7 / 2 + 0.5"), 3.5);
    let root = parse("7 / 2 + 0.5").unwrap();
    assert_eq!(
        root.evaluate(),
        Ok(Number::Flt(Float::Binary(
            Box::new(Float::FromInt(3)),
            BinaryAction::Add,
            Box::new(Float::Literal(Span { start_index: 8, end_index: 11 })),
        )))
    );
}

#[test]
fn signs_collapse_by_parity() {
    assert_eq!(integer("--+5"), 5);
    assert_eq!(*parse("--+5").unwrap(), *leaf(5));
    assert_eq!(
        *parse("-+-+-5").unwrap(),
        Node::Unary(UnaryNode::new(UnaryAction::Neg, leaf(5)))
    );
}

#[test]
fn implicit_multiplication_binds_like_explicit() {
    assert_eq!(integer("5(7 + 2)"), 45);
    assert_eq!(*parse("5(7 + 2)").unwrap(), *parse("5*(7 + 2)").unwrap());
    assert_eq!(integer("2 + 3(4)"), 14);
    assert_eq!(integer("12 / 2(3)"), 18);
    assert_eq!(integer("(2)(3)(4)"), 24);
    assert_eq!(integer("2(3)^2"), 18);
}

#[test]
fn powers_group_to_the_right() {
    assert_eq!(integer("2^3^2"), 512);
    assert_eq!(
        *parse("2^3^2").unwrap(),
        *join(leaf(2), BinaryAction::Pow, join(leaf(3), BinaryAction::Pow, leaf(2)))
    );
}

#[test]
fn sums_and_products_group_to_the_left() {
    assert_eq!(
        *parse("1 - 2 - 3").unwrap(),
        *join(join(leaf(1), BinaryAction::Sub, leaf(2)), BinaryAction::Sub, leaf(3))
    );
    assert_eq!(integer("1 - 2 - 3"), -4);
    assert_eq!(integer("24 / 4 / 2"), 3);
    assert_eq!(integer("2 + 3 * 4"), 14);
}

#[test]
fn a_sign_binds_looser_than_a_power() {
    assert_eq!(integer("-2^2"), -4);
    assert_eq!(integer("(-2)^2"), 4);
}

#[test]
fn parentheses_must_match() {
    assert_eq!(
        parse_error("(5"),
        ParseError::RightParenExpected(token(TokenKind::Eof, 2, 2))
    );
    assert_eq!(parse_error(")"), ParseError::MismatchRightParen(0));
    assert_eq!(integer("((2))"), 2);
    assert_eq!(parse_error("5 + )"), ParseError::MismatchRightParen(4));
    assert_eq!(
        parse_error("(5 6)"),
        ParseError::RightParenExpected(token(TokenKind::Int(6), 3, 4))
    );
}

#[test]
fn nothing_may_follow_the_expression() {
    assert_eq!(parse_error("5)"), ParseError::MismatchRightParen(1));
    assert_eq!(
        parse_error("5 6"),
        ParseError::OperatorExpected(token(TokenKind::Int(6), 2, 3))
    );
    assert_eq!(
        parse_error("5 6.5"),
        ParseError::OperatorExpected(token(TokenKind::Flt, 2, 5))
    );
}

#[test]
fn input_may_not_end_where_an_operand_is_due() {
    assert_eq!(parse_error(""), ParseError::UnexpectedEOF);
    assert_eq!(parse_error("   "), ParseError::UnexpectedEOF);
    assert_eq!(parse_error("5 +"), ParseError::UnexpectedEOF);
    assert_eq!(parse_error("5 * -"), ParseError::UnexpectedEOF);
    assert_eq!(parse_error("2^"), ParseError::UnexpectedEOF);
    assert_eq!(parse_error("("), ParseError::UnexpectedEOF);
}

#[test]
fn an_operator_is_no_operand() {
    assert_eq!(
        parse_error("*5"),
        ParseError::InvalidUnaryOperator(token(TokenKind::Op(Operator::Star), 0, 1))
    );
    assert_eq!(
        parse_error("5 + /2"),
        ParseError::InvalidUnaryOperator(token(TokenKind::Op(Operator::Slash), 4, 5))
    );
    assert_eq!(
        parse_error("2^-1"),
        ParseError::InvalidUnaryOperator(token(TokenKind::Op(Operator::Minus), 2, 3))
    );
}

#[test]
fn a_function_takes_its_operand_in_parentheses() {
    assert_eq!(
        *parse("cos(1)").unwrap(),
        Node::Unary(UnaryNode::new(UnaryAction::Func(Function::Cos), leaf(1)))
    );
    assert_eq!(
        parse_error("sin 5"),
        ParseError::InternalError("Expected a left parenthesis")
    );
    assert_eq!(
        parse_error("sin"),
        ParseError::InternalError("Expected a left parenthesis")
    );
}

#[test]
fn the_first_lexical_error_ends_the_parse() {
    match parse("1 + 2.3.4") {
        Err(TilError::Lex(LexError::UnrecognisedCharacter('.', 7))) => {}
        other => panic!("unexpected outcome: {:?}", other),
    }
    match parse("1 + foo(2)") {
        Err(TilError::Lex(LexError::UnrecognisedFunction(name, 4))) => assert_eq!(name, "foo"),
        other => panic!("unexpected outcome: {:?}", other),
    }
    match parse("#") {
        Err(TilError::Lex(LexError::UnrecognisedCharacter('#', 0))) => {}
        other => panic!("unexpected outcome: {:?}", other),
    }
}

#[test]
fn an_error_of_the_parser_comes_before_a_later_one_of_the_lexer() {
    // The parser fails at `)` with one token in hand and `#` not yet read.
    assert_eq!(parse_error("5 + ) #"), ParseError::MismatchRightParen(4));
}

#[test]
fn a_parser_starts_at_the_cursor_of_its_lexer() {
    let mut lexer = Lexer::from_source_code("1 2 + 3");
    assert_eq!(lexer.lex().unwrap().kind, TokenKind::Int(1));
    let mut parser = Parser::from_lexer(lexer);
    assert_eq!(parser.parse().unwrap().evaluate(), Ok(Number::Int(5)));
}

#[test]
fn integer_division_truncates_and_fails_on_zero() {
    assert_eq!(integer("7 / 2"), 3);
    assert_eq!(integer("-7 / 2"), -3);
    assert_eq!(integer("7 / -2"), -3);
    assert_eq!(integer("-7 / -2"), 3);
    assert_eq!(parse("1 / 0").unwrap().evaluate(), Err(EvalError::DivisionByZero));
    assert_eq!(parse("1 / (2 - 2)").unwrap().evaluate(), Err(EvalError::DivisionByZero));
    assert_eq!(parse("1.5 + 1 / 0").unwrap().evaluate(), Err(EvalError::DivisionByZero));
}

#[test]
fn float_division_by_zero_does_not_fail() {
    assert_eq!(floating("1 / 0.0"), f64::INFINITY);
    assert_eq!(floating("-1.0 / 0"), f64::NEG_INFINITY);
    assert!(floating("0.0 / 0").is_nan());
    assert!(floating("0 / 0.0").is_nan());
}

#[test]
fn integer_powers_are_exact_or_fail() {
    assert_eq!(integer("2^10"), 1024);
    assert_eq!(integer("0^0"), 1);
    assert_eq!(integer("(-3)^3"), -27);
    assert_eq!(integer("2^126"), 1i128 << 126);
    assert_eq!(integer("(-2)^127"), i128::MIN);
    assert_eq!(parse("2^127").unwrap().evaluate(), Err(EvalError::Overflow));
    assert_eq!(parse("2^200").unwrap().evaluate(), Err(EvalError::Overflow));
    assert_eq!(integer("1^18446744073709551615"), 1);
    assert_eq!(integer("(-1)^18446744073709551615"), -1);
    assert_eq!(integer("0^18446744073709551615"), 0);
}

#[test]
fn a_negative_integer_exponent_gives_a_float() {
    assert_eq!(floating("2^(0-1)"), 0.5);
    assert_eq!(floating("2^(-2)"), 0.25);
}

#[test]
fn float_powers_follow_the_real_power_function() {
    assert_eq!(floating("2.0^3"), 8.0);
    assert_eq!(floating("4^0.5"), 2.0);
    assert!(floating("(-8)^0.5").is_nan());
}

#[test]
fn integer_arithmetic_fails_where_128_bits_do_not_hold_the_result() {
    assert_eq!(integer("18446744073709551615 - 1"), u64::MAX as i128 - 1);
    let big = "4294967296 * 4294967296";
    assert_eq!(integer(big), 1i128 << 64);
    assert_eq!(
        parse(&format!("{} * {}", big, big)).unwrap().evaluate(),
        Err(EvalError::Overflow)
    );
    let most = "(2^126 - 1 + 2^126)";
    assert_eq!(integer(most), i128::MAX);
    assert_eq!(parse(&format!("{} + 1", most)).unwrap().evaluate(), Err(EvalError::Overflow));
    assert_eq!(integer(&format!("-{} - 1", most)), i128::MIN);
    assert_eq!(
        parse(&format!("-(-{} - 1)", most)).unwrap().evaluate(),
        Err(EvalError::Overflow)
    );
    // A literal holds 64 bits at most.
    assert!(parse("170141183460469231731687303715884105727").is_err());
}

#[test]
fn functions_give_floats_also_for_integers() {
    assert_eq!(floating("sin(0)"), 0.0);
    assert_eq!(floating("cos(0)"), 1.0);
    assert_eq!(floating("tan(0)"), 0.0);
    assert_eq!(floating("asin(0)"), 0.0);
    assert_eq!(floating("acos(1)"), 0.0);
    assert_eq!(floating("atan(0)"), 0.0);
}

#[test]
fn reciprocal_functions_divide_one_by_a_primitive() {
    assert_eq!(floating("csc(1)"), 1.0 / 1.0f64.sin());
    assert_eq!(floating("sec(1)"), 1.0 / 1.0f64.cos());
    assert_eq!(floating("cot(1)"), 1.0 / 1.0f64.tan());
    assert_eq!(floating("acsc(2)"), (1.0f64 / 2.0).asin());
    assert_eq!(floating("asec(2)"), (1.0f64 / 2.0).acos());
    assert_eq!(floating("acot(2)"), (1.0f64 / 2.0).atan());
    assert_eq!(floating("csc(0)"), f64::INFINITY);
    assert!(floating("asin(2)").is_nan());
    assert_eq!(
        parse("acsc(2)").unwrap().evaluate(),
        Ok(Number::Flt(Float::Apply(
            Primitive::Asin,
            Box::new(Float::Binary(
                Box::new(Float::FromInt(1)),
                BinaryAction::Div,
                Box::new(Float::FromInt(2)),
            )),
        )))
    );
}

#[test]
fn the_left_operand_is_evaluated_first() {
    // Both operands fail; the failure of the left one is reported.
    assert_eq!(parse("1 / 0 + 2^200").unwrap().evaluate(), Err(EvalError::DivisionByZero));
    assert_eq!(parse("2^200 + 1 / 0").unwrap().evaluate(), Err(EvalError::Overflow));
}

#[test]
fn evaluation_can_be_repeated() {
    let root = parse("3 * (4 + 5) - 2^3").unwrap();
    assert_eq!(root.evaluate(), Ok(Number::Int(19)));
    assert_eq!(root.evaluate(), Ok(Number::Int(19)));
}

#[test]
fn numbers_promote_the_integer_side() {
    let half = || Number::Flt(Float::Literal(Span { start_index: 0, end_index: 2 }));
    assert_eq!(Number::Int(2).add(Number::Int(3)), Ok(Number::Int(5)));
    assert_eq!(Number::Int(2).sub(Number::Int(3)), Ok(Number::Int(-1)));
    assert_eq!(Number::Int(2).mul(Number::Int(3)), Ok(Number::Int(6)));
    assert_eq!(Number::Int(7).div(Number::Int(2)), Ok(Number::Int(3)));
    assert_eq!(Number::Int(2).neg(), Ok(Number::Int(-2)));
    assert_eq!(Number::Int(i128::MAX).add(Number::Int(1)), Err(EvalError::Overflow));
    assert_eq!(Number::Int(i128::MIN).sub(Number::Int(1)), Err(EvalError::Overflow));
    assert_eq!(Number::Int(i128::MAX).mul(Number::Int(2)), Err(EvalError::Overflow));
    assert_eq!(Number::Int(i128::MIN).div(Number::Int(-1)), Err(EvalError::Overflow));
    assert_eq!(Number::Int(i128::MIN).neg(), Err(EvalError::Overflow));
    assert_eq!(
        Number::Int(2).add(half()),
        Ok(Number::Flt(Float::Binary(
            Box::new(Float::FromInt(2)),
            BinaryAction::Add,
            Box::new(Float::Literal(Span { start_index: 0, end_index: 2 })),
        )))
    );
    assert_eq!(
        half().div(Number::Int(0)),
        Ok(Number::Flt(Float::Binary(
            Box::new(Float::Literal(Span { start_index: 0, end_index: 2 })),
            BinaryAction::Div,
            Box::new(Float::FromInt(0)),
        )))
    );
    assert_eq!(
        half().neg(),
        Ok(Number::Flt(Float::Neg(Box::new(Float::Literal(Span {
            start_index: 0,
            end_index: 2
        })))))
    );
    assert_eq!(fold(&Number::Int(3).promote(), ""), 3.0);
    assert_eq!(UnaryAction::Iden.evaluate(Number::Int(4)), Ok(Number::Int(4)));
    assert_eq!(BinaryAction::Pow.evaluate(Number::Int(3), Number::Int(4)), Ok(Number::Int(81)));
}
