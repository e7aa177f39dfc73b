//! Expression trees, their printed form, and dispatch over their shapes.

use vstd::prelude::*;
use crate::lexical::find_char;
use crate::text::{collect_chars, push_char, text_of};
use crate::token::{Literal, LiteralView, Token, TokenView};

verus! {

broadcast use vstd::string::group_string_axioms;

/// Mathematical model of an expression tree.
pub enum ExprView {
    Binary(Box<ExprView>, TokenView, Box<ExprView>),
    Unary(TokenView, Box<ExprView>),
    Grouping(Box<ExprView>),
    Literal(LiteralView),
}

/// A binary operation: `left operator right`.
pub struct Binary {
    pub left: Box<Expression>,
    pub right: Box<Expression>,
    pub operator: Token,
}

/// A prefix operation: `operator right`.
pub struct Unary {
    pub operator: Token,
    pub right: Box<Expression>,
}

/// A parenthesised expression.
pub struct Grouping {
    pub expression: Box<Expression>,
}

/// A terminal value.
pub struct LiteralExpr {
    pub value: Literal,
}

/// An expression tree. Each node owns its children.
pub enum Expression {
    Binary(Binary),
    Unary(Unary),
    Grouping(Grouping),
    Literal(LiteralExpr),
}

pub open spec fn expr_view(e: &Expression) -> ExprView
    decreases e,
{
    match e {
        Expression::Binary(b) => ExprView::Binary(
            Box::new(expr_view(&*b.left)),
            b.operator@,
            Box::new(expr_view(&*b.right)),
        ),
        Expression::Unary(u) => ExprView::Unary(u.operator@, Box::new(expr_view(&*u.right))),
        Expression::Grouping(g) => ExprView::Grouping(Box::new(expr_view(&*g.expression))),
        Expression::Literal(l) => ExprView::Literal(l.value@),
    }
}

impl View for Expression {
    type V = ExprView;

    open spec fn view(&self) -> ExprView {
        expr_view(self)
    }
}

/// `s` without leading zeros, keeping at least one character.
pub open spec fn strip_leading_zeros(s: Seq<char>) -> Seq<char>
    decreases s.len(),
{
    if s.len() > 1 && s[0] == '0' {
        strip_leading_zeros(s.drop_first())
    } else {
        s
    }
}

/// `s` without trailing zeros.
pub open spec fn strip_trailing_zeros(s: Seq<char>) -> Seq<char>
    decreases s.len(),
{
    if s.len() > 0 && s.last() == '0' {
        strip_trailing_zeros(s.drop_last())
    } else {
        s
    }
}

/// The shortest decimal rendering of numeral `n`: no leading zeros before
/// the units digit, no trailing zeros after the dot, and no dot when no
/// fraction digit is left (`"007.50"` gives `"7.5"`, `"1234.0"` gives
/// `"1234"`).
pub open spec fn numeral_text(n: Seq<char>) -> Seq<char> {
    let dot = find_char(n, 0, '.');
    let whole = strip_leading_zeros(n.subrange(0, dot));
    let fraction = if dot < n.len() {
        strip_trailing_zeros(n.subrange(dot + 1, n.len() as int))
    } else {
        Seq::empty()
    };
    if fraction.len() == 0 {
        whole
    } else {
        whole + seq!['.'] + fraction
    }
}

/// The printed form of a literal value.
pub open spec fn literal_text(v: LiteralView) -> Seq<char> {
    match v {
        LiteralView::Nil => "nil"@,
        LiteralView::Identifier(s) => s,
        LiteralView::String(s) => s,
        LiteralView::Number(n) => numeral_text(n),
    }
}

/// The fully parenthesised prefix form of a tree:
/// `(op left right)`, `(op right)`, `(group inner)`, or the literal's text.
pub open spec fn printed(e: ExprView) -> Seq<char>
    decreases e,
{
    match e {
        ExprView::Binary(l, op, r) => "("@ + op.lexeme + " "@ + printed(*l) + " "@ + printed(*r) + ")"@,
        ExprView::Unary(op, r) => "("@ + op.lexeme + " "@ + printed(*r) + ")"@,
        ExprView::Grouping(inner) => "(group "@ + printed(*inner) + ")"@,
        ExprView::Literal(v) => literal_text(v),
    }
}

/// Renders numeral `n` in its shortest decimal form.
pub fn render_numeral(n: &String) -> (r: String)
    ensures
        r@ == numeral_text(n@),
{
    let chars = collect_chars(n.as_str());
    let len = chars.len();
    let mut dot: usize = 0;
    while dot < len && chars[dot] != '.'
        invariant
            chars@ == n@,
            len == chars@.len(),
            dot <= len,
            find_char(n@, 0, '.') == find_char(n@, dot as int, '.'),
        decreases len - dot,
    {
        dot = dot + 1;
    }
    let mut first: usize = 0;
    while first < dot && first + 1 < dot && chars[first] == '0'
        invariant
            chars@ == n@,
            dot <= len == chars@.len(),
            first <= dot,
            strip_leading_zeros(n@.subrange(0, dot as int))
                == strip_leading_zeros(n@.subrange(first as int, dot as int)),
        decreases dot - first,
    {
        assert(n@.subrange(first as int, dot as int).drop_first() =~= n@.subrange(first + 1, dot as int));
        first = first + 1;
    }
    assert(strip_leading_zeros(n@.subrange(first as int, dot as int)) == n@.subrange(first as int, dot as int));
    let mut r = text_of(&chars, first, dot);
    if dot < len {
        let mut last: usize = len;
        while last > dot + 1 && chars[last - 1] == '0'
            invariant
                chars@ == n@,
                dot < len == chars@.len(),
                dot + 1 <= last <= len,
                strip_trailing_zeros(n@.subrange(dot + 1, len as int))
                    == strip_trailing_zeros(n@.subrange(dot + 1, last as int)),
            decreases last,
        {
            assert(n@.subrange(dot + 1, last as int).drop_last() =~= n@.subrange(dot + 1, last - 1));
            last = last - 1;
        }
        assert(strip_trailing_zeros(n@.subrange(dot + 1, last as int)) == n@.subrange(dot + 1, last as int));
        if last > dot + 1 {
            let fraction = text_of(&chars, dot + 1, last);
            push_char(&mut r, '.');
            r.append(fraction.as_str());
        }
    }
    r
}

/// Renders a literal value.
pub fn render_literal(value: &Literal) -> (r: String)
    ensures
        r@ == literal_text(value@),
{
    match value {
        Literal::Nil => String::from_str("nil"),
        Literal::Identifier(s) => s.clone(),
        Literal::String(s) => s.clone(),
        Literal::Number(n) => render_numeral(n),
    }
}

/// Renders a tree in its fully parenthesised prefix form.
pub fn render(e: &Expression) -> (r: String)
    ensures
        r@ == printed(e@),
    decreases e, 1int,
{
    match e {
        Expression::Binary(b) => render_binary(b),
        Expression::Unary(u) => render_unary(u),
        Expression::Grouping(g) => render_grouping(g),
        Expression::Literal(l) => render_literal(&l.value),
    }
}

fn render_binary(b: &Binary) -> (r: String)
    ensures
        r@ == printed(expr_view(&Expression::Binary(*b))),
    decreases b, 0int,
{
    let mut r = String::from_str("(");
    r.append(b.operator.lexeme.as_str());
    r.append(" ");
    let left = render(&b.left);
    r.append(left.as_str());
    r.append(" ");
    let right = render(&b.right);
    r.append(right.as_str());
    r.append(")");
    r
}

fn render_unary(u: &Unary) -> (r: String)
    ensures
        r@ == printed(expr_view(&Expression::Unary(*u))),
    decreases u, 0int,
{
    let mut r = String::from_str("(");
    r.append(u.operator.lexeme.as_str());
    r.append(" ");
    let right = render(&u.right);
    r.append(right.as_str());
    r.append(")");
    r
}

fn render_grouping(g: &Grouping) -> (r: String)
    ensures
        r@ == printed(expr_view(&Expression::Grouping(*g))),
    decreases g, 0int,
{
    let mut r = String::from_str("(group ");
    let inner = render(&g.expression);
    r.append(inner.as_str());
    r.append(")");
    r
}

/// An operation over the four shapes of a tree, producing a `T` for each.
/// `produces(e, r)` states what the operation gives for a node of model `e`.
pub trait Visitor<T> {
    spec fn produces(&self, e: ExprView, r: T) -> bool;

    fn visit_binary(&self, expression: &Binary) -> (r: T)
        ensures
            self.produces(expr_view(&Expression::Binary(*expression)), r),
    ;

    fn visit_unary(&self, expression: &Unary) -> (r: T)
        ensures
            self.produces(expr_view(&Expression::Unary(*expression)), r),
    ;

    fn visit_grouping(&self, expression: &Grouping) -> (r: T)
        ensures
            self.produces(expr_view(&Expression::Grouping(*expression)), r),
    ;

    fn visit_literal(&self, expression: &LiteralExpr) -> (r: T)
        ensures
            self.produces(expr_view(&Expression::Literal(*expression)), r),
    ;
}

/// A node that hands itself to the matching method of a visitor.
pub trait Expr {
    /// The model of the tree this node roots.
    spec fn shape(&self) -> ExprView;

    fn accept<R, V: Visitor<R>>(&self, visitor: &V) -> (r: R)
        ensures
            visitor.produces(self.shape(), r),
    ;
}

impl Expr for Binary {
    open spec fn shape(&self) -> ExprView {
        expr_view(&Expression::Binary(*self))
    }

    fn accept<R, V: Visitor<R>>(&self, visitor: &V) -> (r: R) {
        visitor.visit_binary(self)
    }
}

impl Expr for Unary {
    open spec fn shape(&self) -> ExprView {
        expr_view(&Expression::Unary(*self))
    }

    fn accept<R, V: Visitor<R>>(&self, visitor: &V) -> (r: R) {
        visitor.visit_unary(self)
    }
}

impl Expr for Grouping {
    open spec fn shape(&self) -> ExprView {
        expr_view(&Expression::Grouping(*self))
    }

    fn accept<R, V: Visitor<R>>(&self, visitor: &V) -> (r: R) {
        visitor.visit_grouping(self)
    }
}

impl Expr for LiteralExpr {
    open spec fn shape(&self) -> ExprView {
        expr_view(&Expression::Literal(*self))
    }

    fn accept<R, V: Visitor<R>>(&self, visitor: &V) -> (r: R) {
        visitor.visit_literal(self)
    }
}

impl Expression {
    /// Calls the visitor method that matches this node's shape.
    pub fn visit<R, V: Visitor<R>>(&self, visitor: &V) -> (r: R)
        ensures
            visitor.produces(self@, r),
    {
        match self {
            Expression::Binary(binary) => visitor.visit_binary(binary),
            Expression::Grouping(grouping) => visitor.visit_grouping(grouping),
            Expression::Literal(literal) => visitor.visit_literal(literal),
            Expression::Unary(unary) => visitor.visit_unary(unary),
        }
    }

    /// Lets the node of this shape accept the visitor.
    pub fn accept<R, V: Visitor<R>>(&self, visitor: &V) -> (r: R)
        ensures
            visitor.produces(self@, r),
    {
        match self {
            Expression::Binary(binary) => binary.accept(visitor),
            Expression::Grouping(grouping) => grouping.accept(visitor),
            Expression::Literal(literal) => literal.accept(visitor),
            Expression::Unary(unary) => unary.accept(visitor),
        }
    }
}

/// Renders trees in their fully parenthesised prefix form.
pub struct Printer {}

impl Printer {
    pub fn print(&self, expression: &Expression) -> (r: String)
        ensures
            r@ == printed(expression@),
    {
        expression.visit(self)
    }
}

impl Visitor<String> for Printer {
    open spec fn produces(&self, e: ExprView, r: String) -> bool {
        r@ == printed(e)
    }

    fn visit_binary(&self, expression: &Binary) -> (r: String) {
        render_binary(expression)
    }

    fn visit_grouping(&self, expression: &Grouping) -> (r: String) {
        render_grouping(expression)
    }

    fn visit_literal(&self, expression: &LiteralExpr) -> (r: String) {
        render_literal(&expression.value)
    }

    fn visit_unary(&self, expression: &Unary) -> (r: String) {
        render_unary(expression)
    }
}

} // verus!
