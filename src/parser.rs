//! The recursive-descent expression parser.

use vstd::prelude::*;
use crate::environment::Environment;
use crate::expr::{Binary, Expression, Grouping, LiteralExpr, Unary};
use crate::grammar::{
    Parsed, ParseError, ParseErrorKind, level_operators, parse_binary, parse_binary_rest,
    parse_error_message, parse_expression, lemma_level_operators_not_eof, parse_operand, parse_primary, parse_unary,
    well_terminated,
};
use crate::token::{Literal, Token, TokenType, TokenView, tokens_view};

verus! {

/// The model of a parse outcome that stopped at `pos`.
pub open spec fn outcome(r: &Result<Expression, ParseError>, pos: int) -> Parsed {
    match r {
        Ok(e) => Ok((e@, pos)),
        Err(err) => Err(*err),
    }
}

/// The message reported for a parse error of `kind`.
pub fn error_message(kind: ParseErrorKind) -> (r: &'static str)
    ensures
        r@ == parse_error_message(kind),
{
    match kind {
        ParseErrorKind::ExpectedOperand => "Expect expression.",
        ParseErrorKind::UnmatchedGrouping => "Expect ')' after expression.",
        ParseErrorKind::UnexpectedEndOfInput => "Expect expression at end of input.",
    }
}

/// The operators of binary level `lvl`.
fn operators_of(lvl: u8) -> (r: Vec<TokenType>)
    ensures
        r@ == level_operators(lvl as nat),
{
    let r = if lvl <= 1 {
        vec![TokenType::Slash, TokenType::Star]
    } else if lvl == 2 {
        vec![TokenType::Minus, TokenType::Plus]
    } else if lvl == 3 {
        vec![TokenType::Greater, TokenType::GreaterEqual, TokenType::Less, TokenType::LessEqual]
    } else {
        vec![TokenType::BangEqual, TokenType::EqualEqual]
    };
    assert(r@ =~= level_operators(lvl as nat));
    r
}

/// Parses expressions from a token sequence that ends with the
/// end-of-input token. It reads forward only and never backtracks.
pub struct Parser {
    tokens: Vec<Token>,
    current: usize,
}

impl Parser {
    /// The tokens being parsed.
    pub closed spec fn input(&self) -> Seq<TokenView> {
        tokens_view(self.tokens@)
    }

    /// Index of the next token to read.
    pub closed spec fn position(&self) -> int {
        self.current as int
    }

    pub closed spec fn wf(&self) -> bool {
        &&& well_terminated(self.input())
        &&& self.current < self.tokens@.len()
    }

    pub fn new(tokens: Vec<Token>) -> (r: Self)
        requires
            well_terminated(tokens_view(tokens@)),
        ensures
            r.wf(),
            r.input() == tokens_view(tokens@),
            r.position() == 0,
    {
        Parser { tokens, current: 0 }
    }

    /// Parses one expression from the current position. On failure the
    /// error is also reported to `environment`.
    pub fn parse(&mut self, environment: &mut Environment) -> (r: Result<Expression, ParseError>)
        requires
            old(self).wf(),
        ensures
            final(self).wf(),
            final(self).input() == old(self).input(),
            outcome(&r, final(self).position()) == parse_expression(old(self).input(), old(self).position()),
            r is Ok ==> final(environment)@ == old(environment)@,
            r matches Err(err) ==> final(environment)@.had_error && final(environment)@.diagnostics
                == old(environment)@.diagnostics.push((err.line as nat, parse_error_message(err.kind))),
    {
        let r = self.expression();
        if let Err(err) = r {
            environment.error(err.line, error_message(err.kind));
        }
        r
    }

    fn expression(&mut self) -> (r: Result<Expression, ParseError>)
        requires
            old(self).wf(),
        ensures
            final(self).wf(),
            final(self).tokens == old(self).tokens,
            outcome(&r, final(self).current as int) == parse_expression(old(self).input(), old(self).current as int),
            r is Ok ==> old(self).current < final(self).current,
        decreases old(self).tokens@.len() - old(self).current, 13int,
    {
        self.binary_level(4)
    }

    /// Binary level `lvl`: an operand, then operator and operand pairs,
    /// each folded into a node whose left side is the tree built so far.
    fn binary_level(&mut self, lvl: u8) -> (r: Result<Expression, ParseError>)
        requires
            old(self).wf(),
            1 <= lvl <= 4,
        ensures
            final(self).wf(),
            final(self).tokens == old(self).tokens,
            outcome(&r, final(self).current as int) == parse_binary(old(self).input(), lvl as nat, old(self).current as int),
            r is Ok ==> old(self).current < final(self).current,
        decreases old(self).tokens@.len() - old(self).current, 2 * lvl + 4,
    {
        let ghost ts = self.input();
        let ghost p = self.current as int;
        let mut expr = match self.operand(lvl) {
            Ok(e) => e,
            Err(err) => return Err(err),
        };
        proof {
            lemma_level_operators_not_eof(lvl as nat);
            assert(ts.len() == self.tokens@.len());
        }
        while self.match_token(operators_of(lvl))
            invariant
                self.wf(),
                self.tokens == old(self).tokens,
                ts == self.input(),
                ts == old(self).input(),
                p == old(self).current,
                p < self.current,
                1 <= lvl <= 4,
                parse_binary(ts, lvl as nat, p) == parse_binary_rest(ts, lvl as nat, expr@, self.current as int),
            decreases self.tokens@.len() - self.current,
        {
            let operator = self.previous();
            proof {
                assert(ts[self.current - 1] == self.tokens@[self.current - 1]@);
            }
            let right = match self.operand(lvl) {
                Ok(e) => e,
                Err(err) => return Err(err),
            };
            expr = Expression::Binary(Binary { left: Box::new(expr), right: Box::new(right), operator });
        }
        Ok(expr)
    }

    /// The operand of binary level `lvl`.
    fn operand(&mut self, lvl: u8) -> (r: Result<Expression, ParseError>)
        requires
            old(self).wf(),
            1 <= lvl <= 4,
        ensures
            final(self).wf(),
            final(self).tokens == old(self).tokens,
            outcome(&r, final(self).current as int) == parse_operand(old(self).input(), lvl as nat, old(self).current as int),
            r is Ok ==> old(self).current < final(self).current,
        decreases old(self).tokens@.len() - old(self).current, 2 * lvl + 3,
    {
        if lvl <= 1 {
            self.unary()
        } else {
            self.binary_level(lvl - 1)
        }
    }

    fn unary(&mut self) -> (r: Result<Expression, ParseError>)
        requires
            old(self).wf(),
        ensures
            final(self).wf(),
            final(self).tokens == old(self).tokens,
            outcome(&r, final(self).current as int) == parse_unary(old(self).input(), old(self).current as int),
            r is Ok ==> old(self).current < final(self).current,
        decreases old(self).tokens@.len() - old(self).current, 1int,
    {
        if self.match_token(vec![TokenType::Bang, TokenType::Minus]) {
            let operator = self.previous();
            let right = match self.unary() {
                Ok(e) => e,
                Err(err) => return Err(err),
            };
            Ok(Expression::Unary(Unary { operator, right: Box::new(right) }))
        } else {
            self.primary()
        }
    }

    fn primary(&mut self) -> (r: Result<Expression, ParseError>)
        requires
            old(self).wf(),
        ensures
            final(self).wf(),
            final(self).tokens == old(self).tokens,
            outcome(&r, final(self).current as int) == parse_primary(old(self).input(), old(self).current as int),
            r is Ok ==> old(self).current < final(self).current,
        decreases old(self).tokens@.len() - old(self).current, 0int,
    {
        if self.match_token(vec![TokenType::False, TokenType::True]) {
            let token = self.previous();
            return Ok(Expression::Literal(LiteralExpr { value: Literal::Identifier(token.lexeme) }));
        }
        if self.match_token(vec![TokenType::Nil]) {
            return Ok(Expression::Literal(LiteralExpr { value: Literal::Nil }));
        }
        if self.match_token(vec![TokenType::Number, TokenType::String]) {
            let token = self.previous();
            return Ok(Expression::Literal(LiteralExpr { value: token.literal }));
        }
        if self.match_token(vec![TokenType::LeftParen]) {
            let inner = match self.expression() {
                Ok(e) => e,
                Err(err) => return Err(err),
            };
            if self.check(TokenType::RightParen) {
                self.advance();
                return Ok(Expression::Grouping(Grouping { expression: Box::new(inner) }));
            }
            return Err(ParseError { kind: ParseErrorKind::UnmatchedGrouping, line: self.peek().line });
        }
        let token = self.peek();
        if token.token_type == TokenType::EOF {
            Err(ParseError { kind: ParseErrorKind::UnexpectedEndOfInput, line: token.line })
        } else {
            Err(ParseError { kind: ParseErrorKind::ExpectedOperand, line: token.line })
        }
    }

    /// Consumes the current token if its kind is one of `types`.
    fn match_token(&mut self, types: Vec<TokenType>) -> (r: bool)
        requires
            old(self).wf(),
        ensures
            final(self).wf(),
            final(self).tokens == old(self).tokens,
            r == (old(self).tokens@[old(self).current as int].token_type != TokenType::EOF
                && types@.contains(old(self).tokens@[old(self).current as int].token_type)),
            final(self).current == old(self).current + if r { 1int } else { 0int },
    {
        let mut i: usize = 0;
        while i < types.len()
            invariant
                self.wf(),
                self.tokens == old(self).tokens,
                self.current == old(self).current,
                i <= types@.len(),
                forall|j: int| 0 <= j < i ==> !(self.tokens@[self.current as int].token_type != TokenType::EOF
                    && #[trigger] types@[j] == self.tokens@[self.current as int].token_type),
            decreases types@.len() - i,
        {
            if self.check(types[i]) {
                self.advance();
                return true;
            }
            i = i + 1;
        }
        false
    }

    /// Whether the current token, not the end of input, has kind `token_type`.
    fn check(&self, token_type: TokenType) -> (r: bool)
        requires
            self.wf(),
        ensures
            r == (self.tokens@[self.current as int].token_type != TokenType::EOF
                && self.tokens@[self.current as int].token_type == token_type),
    {
        if self.is_at_end() {
            false
        } else {
            self.peek().token_type == token_type
        }
    }

    /// Moves past the current token unless it is the end of input.
    fn advance(&mut self)
        requires
            old(self).wf(),
        ensures
            final(self).wf(),
            final(self).tokens == old(self).tokens,
            final(self).current == old(self).current
                + if old(self).tokens@[old(self).current as int].token_type != TokenType::EOF { 1int } else { 0int },
    {
        proof {
            assert(self.input().len() == self.tokens@.len());
            assert(self.input()[self.current as int] == self.tokens@[self.current as int]@);
            assert(self.input().last() == self.tokens@[self.tokens@.len() - 1]@);
        }
        if !self.is_at_end() {
            let n = self.tokens.len();
            assert(self.current + 1 < n);
            self.current = self.current + 1;
        }
    }

    fn is_at_end(&self) -> (r: bool)
        requires
            self.wf(),
        ensures
            r == (self.tokens@[self.current as int].token_type == TokenType::EOF),
    {
        self.peek().token_type == TokenType::EOF
    }

    fn peek(&self) -> (r: &Token)
        requires
            self.wf(),
        ensures
            *r == self.tokens@[self.current as int],
    {
        &self.tokens[self.current]
    }

    fn previous(&self) -> (r: Token)
        requires
            self.wf(),
            self.current >= 1,
        ensures
            r == self.tokens@[self.current - 1],
    {
        self.tokens[self.current - 1].clone()
    }
}

} // verus!
