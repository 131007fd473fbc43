//! What parsing means, stated over the source as a sequence of characters.
//!
//! The grammar, from the loosest binding to the tightest:
//!
//! ```text
//! expression = term (('+' | '-') term)*
//! term       = factor ((('*' | '/') factor) | factor-that-begins-with-'('-or-a-function)*
//! factor     = ('+' | '-')* power
//! power      = atomic ('^' power)?
//! atomic     = Int | Flt | '(' expression ')' | Function '(' expression ')'
//! ```
//!
//! Sums and products group to the left, powers to the right. A factor that
//! follows another with no operator between them is multiplied with it. A
//! run of signs before a power is one negation if it holds an odd number of
//! `-`, and nothing otherwise.
//!
//! Each function here takes the state of a parse, which is the token in hand
//! and the lexer's cursor behind it, and says what the parser in
//! [`crate::parser`] yields from there: the tree and the state after it, or
//! the first fault.

use crate::ast::{BinaryAction, BinaryNode, Node, PlainNode, UnaryAction, UnaryNode};
use crate::error::{ParseError, TilFault};
use crate::number::{Float, Number};
use crate::scan::{lemma_lex_at, lemma_lex_moves_forward, lex_at};
use crate::token::{Operator, Token, TokenKind};
use vstd::prelude::*;

verus! {

/// The state of a parse.
pub struct State {
    /// The token in hand: the next one that the grammar looks at.
    pub token: Token,
    /// The lexer's cursor, which lies behind the token in hand.
    pub cursor: int,
}

/// A tree with the state after it, or the first fault.
pub type Parsed = Result<(Node, State), TilFault>;

/// The leaf that holds `number`.
pub open spec fn plain(number: Number) -> Node {
    Node::Plain(PlainNode(number))
}

/// The node that applies `actor` to `operand`.
pub open spec fn unary(actor: UnaryAction, operand: Node) -> Node {
    Node::Unary(UnaryNode { actor, operand: Box::new(operand) })
}

/// The node that applies `actor` to `left` and `right`.
pub open spec fn binary(left: Node, actor: BinaryAction, right: Node) -> Node {
    Node::Binary(BinaryNode { left: Box::new(left), actor, right: Box::new(right) })
}

/// What is still to be read from `state` on: the characters behind the
/// cursor, and the token in hand unless it is the end of input. Taking a
/// token in hand makes this smaller, which is why every parse ends.
pub open spec fn weight(src: Seq<char>, state: State) -> nat {
    let behind: nat = if state.cursor <= src.len() {
        (src.len() - state.cursor) as nat
    } else {
        0
    };
    if state.token.kind == TokenKind::Eof {
        behind
    } else {
        behind + 1
    }
}

/// The state once the lexer, with its cursor at `cursor`, has yielded a
/// token: that token in hand, and the cursor behind it.
#[verifier::opaque]
pub open spec fn taken(src: Seq<char>, cursor: int) -> Result<State, TilFault> {
    match lex_at(src, cursor).result {
        Ok(token) => Ok(State { token, cursor: lex_at(src, cursor).cursor }),
        Err(fault) => Err(TilFault::Lex(fault)),
    }
}

/// The state after the token in hand is taken: the lexer yields the next
/// one.
pub open spec fn advance(src: Seq<char>, state: State) -> Result<State, TilFault> {
    taken(src, state.cursor)
}

/// The fault of a parse that does not move forward. No parse yields it: see
/// [`lemma_parse_moves_forward`].
pub open spec fn stuck() -> Parsed {
    Err(TilFault::Parse(ParseError::InternalError("Parser made no progress")))
}

/// Taking a token in hand, other than the end of input, leaves less to read.
/// Where it fails, the fault is the lexer's.
pub proof fn lemma_advance(src: Seq<char>, state: State)
    ensures
        advance(src, state) matches Ok(after) ==> {
            &&& weight(src, after) <= weight(src, state)
            &&& state.token.kind != TokenKind::Eof ==> weight(src, after) < weight(src, state)
            &&& state.cursor <= after.cursor
            &&& state.cursor <= src.len() ==> after.cursor <= src.len()
        },
        advance(src, state) matches Err(fault) ==> fault is Lex,
{
    reveal(taken);
    lemma_lex_moves_forward(src, state.cursor);
}

/// The end-of-input token comes in hand only with the cursor at the end of
/// the source.
pub proof fn lemma_taken_at_end(src: Seq<char>, cursor: int)
    requires
        0 <= cursor <= src.len() <= usize::MAX,
    ensures
        taken(src, cursor) matches Ok(state) ==> (state.token.kind == TokenKind::Eof
            ==> state.cursor == src.len()),
{
    reveal(taken);
    lemma_lex_at(src, cursor);
}

/// The run of signs at `state`: whether it negates, given that what came
/// before it does so if `negative`, and the state after the run. An operator
/// other than a sign is refused, and so is the end of input.
pub open spec fn signs(src: Seq<char>, state: State, negative: bool) -> Result<
    (bool, State),
    TilFault,
>
    decreases weight(src, state),
{
    match state.token.kind {
        TokenKind::Op(Operator::Plus) => match advance(src, state) {
            Ok(after) => {
                proof {
                    lemma_advance(src, state);
                }
                signs(src, after, negative)
            },
            Err(fault) => Err(fault),
        },
        TokenKind::Op(Operator::Minus) => match advance(src, state) {
            Ok(after) => {
                proof {
                    lemma_advance(src, state);
                }
                signs(src, after, !negative)
            },
            Err(fault) => Err(fault),
        },
        TokenKind::Op(_) => Err(TilFault::Parse(ParseError::InvalidUnaryOperator(state.token))),
        TokenKind::Eof => Err(TilFault::Parse(ParseError::UnexpectedEOF)),
        _ => Ok((negative, state)),
    }
}

/// A run of signs leaves no more to read than there was. Where it fails,
/// the fault is not one of the parser itself.
pub proof fn lemma_signs(src: Seq<char>, state: State, negative: bool)
    ensures
        signs(src, state, negative) matches Ok((_, after)) ==> {
            &&& weight(src, after) <= weight(src, state)
            &&& state.cursor <= after.cursor
            &&& state.cursor <= src.len() ==> after.cursor <= src.len()
        },
        signs(src, state, negative) matches Err(fault) ==> !(fault matches TilFault::Parse(
            ParseError::InternalError(_),
        )),
    decreases weight(src, state),
{
    lemma_advance(src, state);
    match state.token.kind {
        TokenKind::Op(Operator::Plus) => {
            if let Ok(after) = advance(src, state) {
                lemma_signs(src, after, negative);
            }
        },
        TokenKind::Op(Operator::Minus) => {
            if let Ok(after) = advance(src, state) {
                lemma_signs(src, after, !negative);
            }
        },
        _ => {},
    }
}

/// The action of an operator between terms.
pub open spec fn additive(kind: TokenKind) -> Option<BinaryAction> {
    match kind {
        TokenKind::Op(Operator::Plus) => Some(BinaryAction::Add),
        TokenKind::Op(Operator::Minus) => Some(BinaryAction::Sub),
        _ => None,
    }
}

/// The action of an operator between factors.
pub open spec fn multiplicative(kind: TokenKind) -> Option<BinaryAction> {
    match kind {
        TokenKind::Op(Operator::Star) => Some(BinaryAction::Mul),
        TokenKind::Op(Operator::Slash) => Some(BinaryAction::Div),
        _ => None,
    }
}

/// Whether a token of this kind begins a factor that is multiplied with the
/// factor before it, with no operator between them.
pub open spec fn juxtaposed(kind: TokenKind) -> bool {
    kind == TokenKind::LeftParen || kind is Func
}

/// An expression: terms, added and subtracted from left to right.
pub open spec fn expression(src: Seq<char>, state: State) -> Parsed
    decreases weight(src, state), 6nat,
{
    match term(src, state) {
        Ok((left, next)) => if weight(src, next) < weight(src, state) {
            more_terms(src, left, next)
        } else {
            stuck()
        },
        Err(fault) => Err(fault),
    }
}

/// What follows a term: as long as the token in hand is `+` or `-`, one more
/// term, joined to `left`.
pub open spec fn more_terms(src: Seq<char>, left: Node, state: State) -> Parsed
    decreases weight(src, state), 7nat,
{
    match additive(state.token.kind) {
        Some(actor) => match advance(src, state) {
            Ok(after) => {
                proof {
                    lemma_advance(src, state);
                }
                match term(src, after) {
                    Ok((right, next)) => if weight(src, next) < weight(src, after) {
                        more_terms(src, binary(left, actor, right), next)
                    } else {
                        stuck()
                    },
                    Err(fault) => Err(fault),
                }
            },
            Err(fault) => Err(fault),
        },
        None => Ok((left, state)),
    }
}

/// A term: factors, multiplied and divided from left to right.
pub open spec fn term(src: Seq<char>, state: State) -> Parsed
    decreases weight(src, state), 4nat,
{
    match factor(src, state) {
        Ok((left, next)) => if weight(src, next) < weight(src, state) {
            more_factors(src, left, next)
        } else {
            stuck()
        },
        Err(fault) => Err(fault),
    }
}

/// What follows a factor: as long as the token in hand is `*` or `/`, or
/// begins a factor by itself, one more factor, joined to `left`.
pub open spec fn more_factors(src: Seq<char>, left: Node, state: State) -> Parsed
    decreases weight(src, state), 5nat,
{
    match multiplicative(state.token.kind) {
        Some(actor) => match advance(src, state) {
            Ok(after) => {
                proof {
                    lemma_advance(src, state);
                }
                match factor(src, after) {
                    Ok((right, next)) => if weight(src, next) < weight(src, after) {
                        more_factors(src, binary(left, actor, right), next)
                    } else {
                        stuck()
                    },
                    Err(fault) => Err(fault),
                }
            },
            Err(fault) => Err(fault),
        },
        None => if juxtaposed(state.token.kind) {
            match factor(src, state) {
                Ok((right, next)) => if weight(src, next) < weight(src, state) {
                    more_factors(src, binary(left, BinaryAction::Mul, right), next)
                } else {
                    stuck()
                },
                Err(fault) => Err(fault),
            }
        } else {
            Ok((left, state))
        },
    }
}

/// A factor: a power, negated if the run of signs before it negates.
pub open spec fn factor(src: Seq<char>, state: State) -> Parsed
    decreases weight(src, state), 3nat,
{
    match signs(src, state, false) {
        Ok((negative, after)) => {
            proof {
                lemma_signs(src, state, false);
            }
            match power(src, after) {
                Ok((operand, next)) => Ok(
                    (
                        if negative {
                            unary(UnaryAction::Neg, operand)
                        } else {
                            operand
                        },
                        next,
                    ),
                ),
                Err(fault) => Err(fault),
            }
        },
        Err(fault) => Err(fault),
    }
}

/// A power: an atomic, raised to the power that follows a `^` if there is
/// one.
pub open spec fn power(src: Seq<char>, state: State) -> Parsed
    decreases weight(src, state), 2nat,
{
    match atomic(src, state) {
        Ok((base, next)) => if next.token.kind == TokenKind::Op(Operator::Caret) {
            match advance(src, next) {
                Ok(after) => if weight(src, after) < weight(src, state) {
                    match power(src, after) {
                        Ok((exponent, last)) => Ok(
                            (binary(base, BinaryAction::Pow, exponent), last),
                        ),
                        Err(fault) => Err(fault),
                    }
                } else {
                    stuck()
                },
                Err(fault) => Err(fault),
            }
        } else {
            Ok((base, next))
        },
        Err(fault) => Err(fault),
    }
}

/// An atomic: a number, an expression in parentheses, or a function applied
/// to one.
pub open spec fn atomic(src: Seq<char>, state: State) -> Parsed
    decreases weight(src, state), 1nat,
{
    match state.token.kind {
        TokenKind::Flt => match advance(src, state) {
            Ok(after) => Ok((plain(Number::Flt(Float::Literal(state.token.span))), after)),
            Err(fault) => Err(fault),
        },
        TokenKind::Int(value) => match advance(src, state) {
            Ok(after) => Ok((plain(Number::Int(value as i128)), after)),
            Err(fault) => Err(fault),
        },
        TokenKind::LeftParen => parenthesised(src, state),
        TokenKind::Func(function) => match advance(src, state) {
            Ok(after) => {
                proof {
                    lemma_advance(src, state);
                }
                match parenthesised(src, after) {
                    Ok((operand, next)) => Ok((unary(UnaryAction::Func(function), operand), next)),
                    Err(fault) => Err(fault),
                }
            },
            Err(fault) => Err(fault),
        },
        TokenKind::Op(_) => Err(TilFault::Parse(ParseError::InvalidUnaryOperator(state.token))),
        TokenKind::Eof => Err(TilFault::Parse(ParseError::UnexpectedEOF)),
        TokenKind::RightParen => Err(
            TilFault::Parse(ParseError::MismatchRightParen(state.token.span.start_index)),
        ),
    }
}

/// An expression between a left parenthesis, which is the token in hand, and
/// the right parenthesis that must follow the expression.
pub open spec fn parenthesised(src: Seq<char>, state: State) -> Parsed
    decreases weight(src, state), 0nat,
{
    if state.token.kind != TokenKind::LeftParen {
        Err(TilFault::Parse(ParseError::InternalError("Expected a left parenthesis")))
    } else {
        match advance(src, state) {
            Ok(after) => {
                proof {
                    lemma_advance(src, state);
                }
                match expression(src, after) {
                    Ok((inner, next)) => if next.token.kind == TokenKind::RightParen {
                        match advance(src, next) {
                            Ok(last) => Ok((inner, last)),
                            Err(fault) => Err(fault),
                        }
                    } else {
                        Err(TilFault::Parse(ParseError::RightParenExpected(next.token)))
                    },
                    Err(fault) => Err(fault),
                }
            },
            Err(fault) => Err(fault),
        }
    }
}

/// What stands after a whole expression. Only the end of input may.
pub open spec fn ended(root: Node, state: State) -> Result<Node, TilFault> {
    match state.token.kind {
        TokenKind::Eof => Ok(root),
        TokenKind::RightParen => Err(
            TilFault::Parse(ParseError::MismatchRightParen(state.token.span.start_index)),
        ),
        _ => Err(TilFault::Parse(ParseError::OperatorExpected(state.token))),
    }
}

/// The tree of the source from `cursor` on: one expression, which must reach
/// the end of the source.
pub open spec fn parsed(src: Seq<char>, cursor: int) -> Result<Node, TilFault> {
    match taken(src, cursor) {
        Ok(state) => match expression(src, state) {
            Ok((root, last)) => ended(root, last),
            Err(fault) => Err(fault),
        },
        Err(fault) => Err(fault),
    }
}

/// Whether `outcome`, of a parse that began in `state`, has moved forward:
/// it is not [`stuck`], and where it is a tree, less is left to read than
/// there was, or as much if `idle` allows it.
pub open spec fn forward(src: Seq<char>, state: State, outcome: Parsed, idle: bool) -> bool {
    &&& outcome != stuck()
    &&& outcome matches Ok((_, next)) ==> {
        &&& weight(src, next) <= weight(src, state)
        &&& !idle ==> weight(src, next) < weight(src, state)
    }
}

/// The two messages of the parser's own faults differ.
proof fn lemma_messages_differ()
    ensures
        "Expected a left parenthesis" != "Parser made no progress",
{
    reveal_strlit("Expected a left parenthesis");
    reveal_strlit("Parser made no progress");
    assert("Expected a left parenthesis"@.len() != "Parser made no progress"@.len());
}

/// [`parenthesised`] moves forward.
proof fn lemma_forward_parenthesised(src: Seq<char>, state: State)
    ensures
        forward(src, state, parenthesised(src, state), false),
    decreases weight(src, state), 0nat,
{
    lemma_messages_differ();
    lemma_advance(src, state);
    if state.token.kind == TokenKind::LeftParen {
        if let Ok(after) = advance(src, state) {
            lemma_forward_expression(src, after);
            if let Ok((_, next)) = expression(src, after) {
                lemma_advance(src, next);
            }
        }
    }
}

/// [`atomic`] moves forward.
proof fn lemma_forward_atomic(src: Seq<char>, state: State)
    ensures
        forward(src, state, atomic(src, state), false),
    decreases weight(src, state), 1nat,
{
    lemma_advance(src, state);
    match state.token.kind {
        TokenKind::LeftParen => {
            lemma_forward_parenthesised(src, state);
        },
        TokenKind::Func(_) => {
            if let Ok(after) = advance(src, state) {
                lemma_forward_parenthesised(src, after);
            }
        },
        _ => {},
    }
}

/// [`power`] moves forward.
proof fn lemma_forward_power(src: Seq<char>, state: State)
    ensures
        forward(src, state, power(src, state), false),
    decreases weight(src, state), 2nat,
{
    lemma_forward_atomic(src, state);
    if let Ok((_, next)) = atomic(src, state) {
        lemma_advance(src, next);
        if next.token.kind == TokenKind::Op(Operator::Caret) {
            if let Ok(after) = advance(src, next) {
                lemma_forward_power(src, after);
            }
        }
    }
}

/// [`factor`] moves forward.
proof fn lemma_forward_factor(src: Seq<char>, state: State)
    ensures
        forward(src, state, factor(src, state), false),
    decreases weight(src, state), 3nat,
{
    lemma_signs(src, state, false);
    if let Ok((_, after)) = signs(src, state, false) {
        lemma_forward_power(src, after);
    }
}

/// [`term`] moves forward.
proof fn lemma_forward_term(src: Seq<char>, state: State)
    ensures
        forward(src, state, term(src, state), false),
    decreases weight(src, state), 5nat,
{
    lemma_forward_factor(src, state);
    if let Ok((left, next)) = factor(src, state) {
        lemma_forward_more_factors(src, left, next);
    }
}

/// [`more_factors`] moves forward, or takes nothing.
proof fn lemma_forward_more_factors(src: Seq<char>, left: Node, state: State)
    ensures
        forward(src, state, more_factors(src, left, state), true),
    decreases weight(src, state), 4nat,
{
    lemma_advance(src, state);
    match multiplicative(state.token.kind) {
        Some(actor) => {
            if let Ok(after) = advance(src, state) {
                lemma_forward_factor(src, after);
                if let Ok((right, next)) = factor(src, after) {
                    lemma_forward_more_factors(src, binary(left, actor, right), next);
                }
            }
        },
        None => {
            if juxtaposed(state.token.kind) {
                lemma_forward_factor(src, state);
                if let Ok((right, next)) = factor(src, state) {
                    lemma_forward_more_factors(
                        src,
                        binary(left, BinaryAction::Mul, right),
                        next,
                    );
                }
            }
        },
    }
}

/// [`expression`] moves forward.
proof fn lemma_forward_expression(src: Seq<char>, state: State)
    ensures
        forward(src, state, expression(src, state), false),
    decreases weight(src, state), 7nat,
{
    lemma_forward_term(src, state);
    if let Ok((left, next)) = term(src, state) {
        lemma_forward_more_terms(src, left, next);
    }
}

/// [`more_terms`] moves forward, or takes nothing.
proof fn lemma_forward_more_terms(src: Seq<char>, left: Node, state: State)
    ensures
        forward(src, state, more_terms(src, left, state), true),
    decreases weight(src, state), 6nat,
{
    lemma_advance(src, state);
    match additive(state.token.kind) {
        Some(actor) => {
            if let Ok(after) = advance(src, state) {
                lemma_forward_term(src, after);
                if let Ok((right, next)) = term(src, after) {
                    lemma_forward_more_terms(src, binary(left, actor, right), next);
                }
            }
        },
        None => {},
    }
}

/// Every production that yields a tree has taken a token, so that no parse
/// is ever [`stuck`]. What follows a term or a factor may be nothing, and
/// then takes nothing.
pub proof fn lemma_parse_moves_forward(src: Seq<char>, state: State)
    ensures
        forward(src, state, expression(src, state), false),
        forward(src, state, term(src, state), false),
        forward(src, state, factor(src, state), false),
        forward(src, state, power(src, state), false),
        forward(src, state, atomic(src, state), false),
        forward(src, state, parenthesised(src, state), false),
        forall|left: Node| forward(src, state, #[trigger] more_terms(src, left, state), true),
        forall|left: Node| forward(src, state, #[trigger] more_factors(src, left, state), true),
{
    lemma_forward_expression(src, state);
    lemma_forward_term(src, state);
    lemma_forward_factor(src, state);
    lemma_forward_power(src, state);
    lemma_forward_atomic(src, state);
    lemma_forward_parenthesised(src, state);
    assert forall|left: Node| forward(src, state, #[trigger] more_terms(src, left, state), true) by {
        lemma_forward_more_terms(src, left, state);
    }
    assert forall|left: Node| forward(src, state, #[trigger] more_factors(src, left, state), true) by {
        lemma_forward_more_factors(src, left, state);
    }
}

/// The number of `-` in the run of signs at `state`.
pub open spec fn minuses(src: Seq<char>, state: State) -> nat
    decreases weight(src, state),
{
    match state.token.kind {
        TokenKind::Op(Operator::Plus) => match advance(src, state) {
            Ok(after) => {
                proof {
                    lemma_advance(src, state);
                }
                minuses(src, after)
            },
            Err(_) => 0,
        },
        TokenKind::Op(Operator::Minus) => match advance(src, state) {
            Ok(after) => {
                proof {
                    lemma_advance(src, state);
                }
                1 + minuses(src, after)
            },
            Err(_) => 0,
        },
        _ => 0,
    }
}

/// A run of signs goes by the parity of its `-`: it turns negation round if
/// their number is odd, and leaves it if their number is even, however many
/// `+` stand among them.
pub proof fn lemma_signs_parity(src: Seq<char>, state: State, negative: bool)
    ensures
        signs(src, state, negative) matches Ok((result, _)) ==> result == (negative != (minuses(
            src,
            state,
        ) % 2 == 1)),
    decreases weight(src, state),
{
    lemma_advance(src, state);
    match state.token.kind {
        TokenKind::Op(Operator::Plus) => {
            if let Ok(after) = advance(src, state) {
                lemma_signs_parity(src, after, negative);
            }
        },
        TokenKind::Op(Operator::Minus) => {
            if let Ok(after) = advance(src, state) {
                lemma_signs_parity(src, after, !negative);
            }
        },
        _ => {},
    }
}

/// A factor is negated exactly where the number of `-` before its power is
/// odd.
pub proof fn lemma_factor_sign(src: Seq<char>, state: State)
    ensures
        factor(src, state) matches Ok((node, last)) ==> signs(src, state, false) matches Ok(
            (_, after),
        ) && power(src, after) matches Ok((operand, end)) && end == last && node == if minuses(
            src,
            state,
        ) % 2 == 1 {
            unary(UnaryAction::Neg, operand)
        } else {
            operand
        },
{
    lemma_signs_parity(src, state, false);
}

/// A factor that follows another with nothing between them is joined to it
/// as one that follows a `*`: from `star`, with `*` in hand, and from
/// `state`, which comes after that `*` and begins a factor by itself, the
/// factors that follow `left` are the same.
pub proof fn lemma_juxtaposition_multiplies(
    src: Seq<char>,
    left: Node,
    star: State,
    state: State,
)
    requires
        star.token.kind == TokenKind::Op(Operator::Star),
        advance(src, star) == Ok::<State, TilFault>(state),
        juxtaposed(state.token.kind),
    ensures
        more_factors(src, left, state) == more_factors(src, left, star),
{
    lemma_advance(src, star);
}

/// Powers group to the right: what follows a `^` is a whole power, which is
/// the exponent of the atomic before the `^`.
pub proof fn lemma_powers_group_right(src: Seq<char>, state: State)
    ensures
        atomic(src, state) matches Ok((base, next)) ==> (next.token.kind == TokenKind::Op(
            Operator::Caret,
        ) ==> (advance(src, next) matches Ok(after) ==> (power(src, after) matches Ok(
            (exponent, last),
        ) ==> power(src, state) == Ok::<(Node, State), TilFault>(
            (binary(base, BinaryAction::Pow, exponent), last),
        )))),
{
    lemma_parse_moves_forward(src, state);
    if let Ok((_, next)) = atomic(src, state) {
        lemma_advance(src, next);
    }
}

} // verus!
