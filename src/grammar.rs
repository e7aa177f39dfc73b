//! The expression grammar as mathematical functions over token sequences.
//!
//! ```text
//! expression -> equality
//! equality   -> comparison ( ( "!=" | "==" ) comparison )*
//! comparison -> term ( ( ">" | ">=" | "<" | "<=" ) term )*
//! term       -> factor ( ( "-" | "+" ) factor )*
//! factor     -> unary ( ( "*" | "/" ) unary )*
//! unary      -> ( "!" | "-" ) unary | primary
//! primary    -> NUMBER | STRING | "true" | "false" | "nil" | "(" expression ")"
//! ```
//!
//! Each function takes the tokens and the index at which to start, and gives
//! the tree and the index after it, or the error that stops the parse.

use vstd::prelude::*;
use crate::expr::ExprView;
use crate::token::{LiteralView, TokenType, TokenView};

verus! {

/// Why an expression could not be parsed.
#[derive(Debug, Clone, Copy, PartialEq, Eq, Structural)]
pub enum ParseErrorKind {
    /// A token that cannot start an operand stands where one is needed.
    ExpectedOperand,
    /// A `(` whose expression is not followed by `)`.
    UnmatchedGrouping,
    /// The input ended where an operand is needed.
    UnexpectedEndOfInput,
}

/// A parse error and the line of the token it was found at.
#[derive(Debug, Clone, Copy, PartialEq, Eq, Structural)]
pub struct ParseError {
    pub kind: ParseErrorKind,
    pub line: u32,
}

pub open spec fn parse_error_message(kind: ParseErrorKind) -> Seq<char> {
    match kind {
        ParseErrorKind::ExpectedOperand => "Expect expression."@,
        ParseErrorKind::UnmatchedGrouping => "Expect ')' after expression."@,
        ParseErrorKind::UnexpectedEndOfInput => "Expect expression at end of input."@,
    }
}

/// A token sequence that a parser accepts: it ends with the end-of-input
/// token.
pub open spec fn well_terminated(ts: Seq<TokenView>) -> bool {
    ts.len() > 0 && ts.last().kind == TokenType::EOF
}

/// The operators of binary precedence level `lvl`: 1 factor, 2 term,
/// 3 comparison, 4 equality.
pub open spec fn level_operators(lvl: nat) -> Seq<TokenType> {
    if lvl <= 1 {
        seq![TokenType::Slash, TokenType::Star]
    } else if lvl == 2 {
        seq![TokenType::Minus, TokenType::Plus]
    } else if lvl == 3 {
        seq![TokenType::Greater, TokenType::GreaterEqual, TokenType::Less, TokenType::LessEqual]
    } else {
        seq![TokenType::BangEqual, TokenType::EqualEqual]
    }
}

pub proof fn lemma_level_operators_not_eof(lvl: nat)
    ensures
        !level_operators(lvl).contains(TokenType::EOF),
{
    let ops = level_operators(lvl);
    assert forall|i: int| 0 <= i < ops.len() implies ops[i] != TokenType::EOF by {
        if lvl <= 1 {
            assert(ops == seq![TokenType::Slash, TokenType::Star]);
        }
    }
}

pub type Parsed = Result<(ExprView, int), ParseError>;

/// Result for a start index outside the tokens; parses of a well-terminated
/// sequence never reach it.
pub open spec fn out_of_range(ts: Seq<TokenView>) -> Parsed {
    Err(ParseError { kind: ParseErrorKind::UnexpectedEndOfInput, line: 0 })
}

pub open spec fn parse_expression(ts: Seq<TokenView>, p: int) -> Parsed
    decreases ts.len() - p, 13int,
{
    parse_binary(ts, 4, p)
}

/// Binary level `lvl`: one operand, then operator and operand pairs folded
/// to the left.
pub open spec fn parse_binary(ts: Seq<TokenView>, lvl: nat, p: int) -> Parsed
    decreases ts.len() - p, 2 * lvl + 4,
{
    match parse_operand(ts, lvl, p) {
        Ok((e, q)) => if p < q <= ts.len() {
            parse_binary_rest(ts, lvl, e, q)
        } else {
            out_of_range(ts)
        },
        Err(err) => Err(err),
    }
}

/// The operand of binary level `lvl`: the next level up.
pub open spec fn parse_operand(ts: Seq<TokenView>, lvl: nat, p: int) -> Parsed
    decreases ts.len() - p, 2 * lvl + 3,
{
    if lvl <= 1 {
        parse_unary(ts, p)
    } else {
        parse_binary(ts, (lvl - 1) as nat, p)
    }
}

/// The operator and operand pairs of level `lvl` from index `q`, with `left`
/// parsed so far.
pub open spec fn parse_binary_rest(ts: Seq<TokenView>, lvl: nat, left: ExprView, q: int) -> Parsed
    decreases ts.len() - q, 0int,
{
    if 0 <= q < ts.len() && level_operators(lvl).contains(ts[q].kind) {
        match parse_operand(ts, lvl, q + 1) {
            Ok((right, q2)) => if q + 1 < q2 <= ts.len() {
                parse_binary_rest(ts, lvl, ExprView::Binary(Box::new(left), ts[q], Box::new(right)), q2)
            } else {
                out_of_range(ts)
            },
            Err(err) => Err(err),
        }
    } else {
        Ok((left, q))
    }
}

pub open spec fn parse_unary(ts: Seq<TokenView>, p: int) -> Parsed
    decreases ts.len() - p, 1int,
{
    if !(0 <= p < ts.len()) {
        out_of_range(ts)
    } else if ts[p].kind == TokenType::Bang || ts[p].kind == TokenType::Minus {
        match parse_unary(ts, p + 1) {
            Ok((right, q)) => Ok((ExprView::Unary(ts[p], Box::new(right)), q)),
            Err(err) => Err(err),
        }
    } else {
        parse_primary(ts, p)
    }
}

pub open spec fn parse_primary(ts: Seq<TokenView>, p: int) -> Parsed
    decreases ts.len() - p, 0int,
{
    if !(0 <= p < ts.len()) {
        out_of_range(ts)
    } else {
        let t = ts[p];
        if t.kind == TokenType::False || t.kind == TokenType::True {
            Ok((ExprView::Literal(LiteralView::Identifier(t.lexeme)), p + 1))
        } else if t.kind == TokenType::Nil {
            Ok((ExprView::Literal(LiteralView::Nil), p + 1))
        } else if t.kind == TokenType::Number || t.kind == TokenType::String {
            Ok((ExprView::Literal(t.literal), p + 1))
        } else if t.kind == TokenType::LeftParen {
            match parse_expression(ts, p + 1) {
                Ok((inner, q)) => if 0 <= q < ts.len() && ts[q].kind == TokenType::RightParen {
                    Ok((ExprView::Grouping(Box::new(inner)), q + 1))
                } else if 0 <= q < ts.len() {
                    Err(ParseError { kind: ParseErrorKind::UnmatchedGrouping, line: ts[q].line as u32 })
                } else {
                    out_of_range(ts)
                },
                Err(err) => Err(err),
            }
        } else if t.kind == TokenType::EOF {
            Err(ParseError { kind: ParseErrorKind::UnexpectedEndOfInput, line: t.line as u32 })
        } else {
            Err(ParseError { kind: ParseErrorKind::ExpectedOperand, line: t.line as u32 })
        }
    }
}

/// The parse of one expression at the start of `ts`.
pub open spec fn parse_tokens(ts: Seq<TokenView>) -> Parsed {
    parse_expression(ts, 0)
}

} // verus!
