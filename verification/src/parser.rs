//! The parser: it builds a syntax tree from the tokens of a lexer.

use crate::ast::{BinaryAction, BinaryNode, Node, NodeBox, PlainNode, UnaryAction, UnaryNode};
use crate::error::{ParseError, TilError, TilFault};
use crate::grammar::{
    advance, atomic, expression, factor, lemma_advance, lemma_taken_at_end, more_factors,
    more_terms, parenthesised, parsed, power, signs, taken, term, weight, Parsed, State,
};
use crate::lexer::Lexer;
use crate::number::{Float, Number};
use crate::token::{Operator, Token, TokenKind};
use vstd::prelude::*;

verus! {

/// A parser over the tokens of one lexer. It holds one token in hand, which
/// it looks at to decide how to go on.
#[derive(Debug)]
pub struct Parser {
    /// Where the tokens come from.
    lexer: Lexer,
    /// The token in hand.
    current_token: Token,
}

/// Whether `outcome` is the tree of `expected`, or the error that says what
/// the fault of `expected` says.
pub open spec fn produces(outcome: Result<NodeBox, TilError>, expected: Result<Node, TilFault>) -> bool {
    match outcome {
        Ok(root) => expected == Ok::<Node, TilFault>(*root),
        Err(error) => expected == Err::<Node, TilFault>(error@),
    }
}

/// Whether `outcome`, with the parser left in `state`, is what `expected`
/// says: the same tree and the same state after it, or the same fault.
pub open spec fn yields(outcome: Result<NodeBox, TilError>, state: State, expected: Parsed) -> bool {
    match outcome {
        Ok(node) => expected == Ok::<(Node, State), TilFault>((*node, state)),
        Err(error) => expected == Err::<(Node, State), TilFault>(error@),
    }
}

impl Parser {
    /// The source that the parser reads.
    pub closed spec fn source(&self) -> Seq<char> {
        self.lexer.source()
    }

    /// The cursor of the parser's lexer.
    pub closed spec fn cursor(&self) -> int {
        self.lexer.cursor()
    }

    /// The token in hand.
    pub closed spec fn token(&self) -> Token {
        self.current_token
    }

    /// The state of the parse.
    pub open spec fn state(&self) -> State {
        State { token: self.token(), cursor: self.cursor() }
    }

    /// What is still to be read.
    pub open spec fn weight(&self) -> nat {
        weight(self.source(), self.state())
    }

    /// Whether the parser is under way: the token in hand has come out of
    /// the lexer, so that the end-of-input token is in hand only with the
    /// cursor at the end of the source.
    pub closed spec fn valid(&self) -> bool {
        &&& self.lexer.valid()
        &&& self.current_token.kind == TokenKind::Eof ==> self.lexer.cursor()
            == self.lexer.source().len()
    }

    /// A parser that takes its tokens from `lexer`, from the lexer's cursor
    /// on.
    pub fn from_lexer(lexer: Lexer) -> (parser: Parser)
        ensures
            parser.source() == lexer.source(),
            parser.cursor() == lexer.cursor(),
    {
        Parser { lexer, current_token: Token::eof(0) }
    }

    /// Parses the source from the lexer's cursor to its end.
    ///
    /// The outcome is what [`parsed`] says of the source and of the cursor
    /// before the call: the tree of the one expression that the source holds,
    /// or the first error.
    pub fn parse(&mut self) -> (outcome: Result<NodeBox, TilError>)
        ensures
            final(self).source() == old(self).source(),
            produces(outcome, parsed(old(self).source(), old(self).cursor())),
            outcome is Ok ==> final(self).token().kind == TokenKind::Eof && final(self).cursor()
                == final(self).source().len(),
    {
        match self.lex_and_store() {
            Ok(_) => {},
            Err(error) => {
                return Err(error);
            },
        }
        let root = match self.parse_expr() {
            Ok(root) => root,
            Err(error) => {
                return Err(error);
            },
        };
        match self.current_token.kind {
            TokenKind::Eof => Ok(root),
            TokenKind::RightParen => Err(
                TilError::from(
                    ParseError::MismatchRightParen(self.current_token.span.start_index),
                ),
            ),
            _ => Err(TilError::from(ParseError::OperatorExpected(self.current_token))),
        }
    }

    /// Production: `expression = term (('+' | '-') term)*`.
    fn parse_expr(&mut self) -> (outcome: Result<NodeBox, TilError>)
        requires
            old(self).valid(),
        ensures
            outcome is Ok ==> final(self).valid(),
            final(self).source() == old(self).source(),
            yields(outcome, final(self).state(), expression(old(self).source(), old(self).state())),
            outcome is Ok ==> final(self).weight() < old(self).weight(),
        decreases old(self).weight(), 6nat,
    {
        let ghost src = self.source();
        let ghost entry = self.state();
        let mut term = match self.parse_term() {
            Ok(term) => term,
            Err(error) => {
                return Err(error);
            },
        };
        loop
            invariant
                self.valid(),
                self.source() == src,
                src == old(self).source(),
                entry == old(self).state(),
                expression(src, entry) == more_terms(src, *term, self.state()),
                self.weight() < weight(src, entry),
            decreases self.weight(),
        {
            let actor = match self.current_token.kind {
                TokenKind::Op(Operator::Plus) => BinaryAction::Add,
                TokenKind::Op(Operator::Minus) => BinaryAction::Sub,
                _ => {
                    return Ok(term);
                },
            };
            proof {
                lemma_advance(src, self.state());
            }
            match self.lex_and_store() {
                Ok(_) => {},
                Err(error) => {
                    return Err(error);
                },
            }
            let next_term = match self.parse_term() {
                Ok(next_term) => next_term,
                Err(error) => {
                    return Err(error);
                },
            };
            term = Box::new(Node::Binary(BinaryNode::new(term, actor, next_term)));
        }
    }

    /// Production: `term = factor ((('*' | '/') factor) | factor)*`, where a
    /// factor with no operator before it begins with `(` or with a function.
    fn parse_term(&mut self) -> (outcome: Result<NodeBox, TilError>)
        requires
            old(self).valid(),
        ensures
            outcome is Ok ==> final(self).valid(),
            final(self).source() == old(self).source(),
            yields(outcome, final(self).state(), term(old(self).source(), old(self).state())),
            outcome is Ok ==> final(self).weight() < old(self).weight(),
        decreases old(self).weight(), 4nat,
    {
        let ghost src = self.source();
        let ghost entry = self.state();
        let mut factor = match self.parse_factor() {
            Ok(factor) => factor,
            Err(error) => {
                return Err(error);
            },
        };
        loop
            invariant
                self.valid(),
                self.source() == src,
                src == old(self).source(),
                entry == old(self).state(),
                term(src, entry) == more_factors(src, *factor, self.state()),
                self.weight() < weight(src, entry),
            decreases self.weight(),
        {
            let actor = match self.current_token.kind {
                TokenKind::Op(op) => {
                    let actor = match op {
                        Operator::Star => BinaryAction::Mul,
                        Operator::Slash => BinaryAction::Div,
                        _ => {
                            return Ok(factor);
                        },
                    };
                    proof {
                        lemma_advance(src, self.state());
                    }
                    match self.lex_and_store() {
                        Ok(_) => {},
                        Err(error) => {
                            return Err(error);
                        },
                    }
                    actor
                },
                TokenKind::LeftParen => BinaryAction::Mul,
                TokenKind::Func(_) => BinaryAction::Mul,
                _ => {
                    return Ok(factor);
                },
            };
            let next_factor = match self.parse_factor() {
                Ok(next_factor) => next_factor,
                Err(error) => {
                    return Err(error);
                },
            };
            factor = Box::new(Node::Binary(BinaryNode::new(factor, actor, next_factor)));
        }
    }

    /// Production: `factor = ('+' | '-')* power`.
    fn parse_factor(&mut self) -> (outcome: Result<NodeBox, TilError>)
        requires
            old(self).valid(),
        ensures
            outcome is Ok ==> final(self).valid(),
            final(self).source() == old(self).source(),
            yields(outcome, final(self).state(), factor(old(self).source(), old(self).state())),
            outcome is Ok ==> final(self).weight() < old(self).weight(),
        decreases old(self).weight(), 3nat,
    {
        let ghost src = self.source();
        let ghost entry = self.state();
        let mut actor = UnaryAction::Iden;
        loop
            invariant
                self.valid(),
                self.source() == src,
                src == old(self).source(),
                entry == old(self).state(),
                actor == UnaryAction::Iden || actor == UnaryAction::Neg,
                signs(src, entry, false) == signs(src, self.state(), actor == UnaryAction::Neg),
                self.weight() <= weight(src, entry),
            ensures
                signs(src, entry, false) == Ok::<(bool, State), TilFault>(
                    (actor == UnaryAction::Neg, self.state()),
                ),
            decreases self.weight(),
        {
            match self.current_token.kind {
                TokenKind::Op(op) => match op {
                    Operator::Plus => {},
                    Operator::Minus => {
                        if actor == UnaryAction::Iden {
                            actor = UnaryAction::Neg;
                        } else {
                            actor = UnaryAction::Iden;
                        }
                    },
                    _ => {
                        return Err(
                            TilError::from(ParseError::InvalidUnaryOperator(self.current_token)),
                        );
                    },
                },
                TokenKind::Eof => {
                    return Err(TilError::from(ParseError::UnexpectedEOF));
                },
                _ => {
                    break ;
                },
            }
            proof {
                lemma_advance(src, self.state());
            }
            match self.lex_and_store() {
                Ok(_) => {},
                Err(error) => {
                    return Err(error);
                },
            }
        }
        let operand = match self.parse_pow() {
            Ok(operand) => operand,
            Err(error) => {
                return Err(error);
            },
        };
        if actor == UnaryAction::Iden {
            Ok(operand)
        } else {
            Ok(Box::new(Node::Unary(UnaryNode::new(actor, operand))))
        }
    }

    /// Production: `power = atomic ('^' power)?`.
    fn parse_pow(&mut self) -> (outcome: Result<NodeBox, TilError>)
        requires
            old(self).valid(),
        ensures
            outcome is Ok ==> final(self).valid(),
            final(self).source() == old(self).source(),
            yields(outcome, final(self).state(), power(old(self).source(), old(self).state())),
            outcome is Ok ==> final(self).weight() < old(self).weight(),
        decreases old(self).weight(), 2nat,
    {
        let base = match self.parse_atomic() {
            Ok(base) => base,
            Err(error) => {
                return Err(error);
            },
        };
        match self.current_token.kind {
            TokenKind::Op(Operator::Caret) => {},
            _ => {
                return Ok(base);
            },
        }
        proof {
            lemma_advance(self.source(), self.state());
        }
        match self.lex_and_store() {
            Ok(_) => {},
            Err(error) => {
                return Err(error);
            },
        }
        let exponent = match self.parse_pow() {
            Ok(exponent) => exponent,
            Err(error) => {
                return Err(error);
            },
        };
        Ok(Box::new(Node::Binary(BinaryNode::new(base, BinaryAction::Pow, exponent))))
    }

    /// Production: `atomic = Int | Flt | '(' expression ')' | Function '('
    /// expression ')'`.
    fn parse_atomic(&mut self) -> (outcome: Result<NodeBox, TilError>)
        requires
            old(self).valid(),
        ensures
            outcome is Ok ==> final(self).valid(),
            final(self).source() == old(self).source(),
            yields(outcome, final(self).state(), atomic(old(self).source(), old(self).state())),
            outcome is Ok ==> final(self).weight() < old(self).weight(),
        decreases old(self).weight(), 1nat,
    {
        proof {
            lemma_advance(self.source(), self.state());
        }
        let node: NodeBox = match self.current_token.kind {
            TokenKind::Flt => Box::new(
                Node::Plain(PlainNode::new(Number::Flt(Float::Literal(self.current_token.span)))),
            ),
            TokenKind::Int(value) => Box::new(
                Node::Plain(PlainNode::new(Number::Int(value as i128))),
            ),
            TokenKind::LeftParen => {
                return self.parse_paren_expr();
            },
            TokenKind::Func(function) => {
                match self.lex_and_store() {
                    Ok(_) => {},
                    Err(error) => {
                        return Err(error);
                    },
                }
                let operand = match self.parse_paren_expr() {
                    Ok(operand) => operand,
                    Err(error) => {
                        return Err(error);
                    },
                };
                return Ok(
                    Box::new(Node::Unary(UnaryNode::new(UnaryAction::Func(function), operand))),
                );
            },
            TokenKind::Op(_) => {
                return Err(TilError::from(ParseError::InvalidUnaryOperator(self.current_token)));
            },
            TokenKind::Eof => {
                return Err(TilError::from(ParseError::UnexpectedEOF));
            },
            TokenKind::RightParen => {
                return Err(
                    TilError::from(
                        ParseError::MismatchRightParen(self.current_token.span.start_index),
                    ),
                );
            },
        };
        match self.lex_and_store() {
            Ok(_) => Ok(node),
            Err(error) => Err(error),
        }
    }

    /// Production: `'(' expression ')'`, with the left parenthesis in hand.
    fn parse_paren_expr(&mut self) -> (outcome: Result<NodeBox, TilError>)
        requires
            old(self).valid(),
        ensures
            outcome is Ok ==> final(self).valid(),
            final(self).source() == old(self).source(),
            yields(
                outcome,
                final(self).state(),
                parenthesised(old(self).source(), old(self).state()),
            ),
            outcome is Ok ==> final(self).weight() < old(self).weight(),
        decreases old(self).weight(), 0nat,
    {
        match self.current_token.kind {
            TokenKind::LeftParen => {},
            _ => {
                return Err(
                    TilError::from(ParseError::InternalError("Expected a left parenthesis")),
                );
            },
        }
        proof {
            lemma_advance(self.source(), self.state());
        }
        match self.lex_and_store() {
            Ok(_) => {},
            Err(error) => {
                return Err(error);
            },
        }
        let inner = match self.parse_expr() {
            Ok(inner) => inner,
            Err(error) => {
                return Err(error);
            },
        };
        match self.current_token.kind {
            TokenKind::RightParen => {},
            _ => {
                return Err(TilError::from(ParseError::RightParenExpected(self.current_token)));
            },
        }
        proof {
            lemma_advance(self.source(), self.state());
        }
        match self.lex_and_store() {
            Ok(_) => Ok(inner),
            Err(error) => Err(error),
        }
    }

    /// Takes the next token of the lexer in hand.
    fn lex_and_store(&mut self) -> (outcome: Result<Token, TilError>)
        ensures
            outcome is Ok ==> final(self).valid(),
            final(self).source() == old(self).source(),
            match outcome {
                Ok(token) => token == final(self).token() && advance(
                    old(self).source(),
                    old(self).state(),
                ) == Ok::<State, TilFault>(final(self).state()),
                Err(error) => advance(old(self).source(), old(self).state()) == Err::<
                    State,
                    TilFault,
                >(error@),
            },
    {
        proof {
            reveal(taken);
        }
        match self.lexer.lex() {
            Ok(token) => {
                proof {
                    lemma_taken_at_end(old(self).source(), old(self).cursor());
                }
                self.current_token = token;
                Ok(token)
            },
            Err(error) => Err(TilError::from(error)),
        }
    }
}

} // verus!
