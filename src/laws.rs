//! Properties of the lexer, the parser and the printer taken together.

use vstd::prelude::*;
use crate::lexical::{
    eof_token, ident_end, is_alpha, is_alphanumeric, keyword_of,
    lemma_scan_step_advances, lex, lex_from, option_seq, scan_step,
};
use crate::expr::{ExprView, literal_text, numeral_text, printed, strip_leading_zeros, strip_trailing_zeros};
use crate::grammar::{
    lemma_level_operators_not_eof, parse_binary, parse_binary_rest, parse_operand, parse_primary,
    parse_tokens, parse_unary,
};
use crate::lexical::{digits_end, find_char, is_digit, number_end};
use crate::token::{LiteralView, TokenType, TokenView};

verus! {

proof fn lemma_lex_from_shape(s: Seq<char>, pos: int, line: nat)
    ensures
        ({
            let ts = lex_from(s, pos, line).tokens;
            &&& ts.len() >= 1
            &&& ts.last().kind == TokenType::EOF
            &&& ts.last().lexeme.len() == 0
            &&& forall|i: int| 0 <= i < ts.len() - 1 ==> (#[trigger] ts[i]).kind != TokenType::EOF
            &&& forall|i: int| 0 <= i < ts.len() ==> line <= (#[trigger] ts[i]).line
            &&& forall|i: int, j: int| 0 <= i <= j < ts.len() ==> (#[trigger] ts[i]).line <= (#[trigger] ts[j]).line
        }),
    decreases s.len() - pos,
{
    if 0 <= pos < s.len() {
        let st = scan_step(s, pos, line);
        lemma_scan_step_advances(s, pos, line);
        lemma_lex_from_shape(s, st.end, st.line);
        let rest = lex_from(s, st.end, st.line).tokens;
        let ts = lex_from(s, pos, line).tokens;
        assert(ts == option_seq(st.token) + rest);
        if st.token is Some {
            assert forall|i: int| 1 <= i < ts.len() implies #[trigger] ts[i] == rest[i - 1] by {}
            assert(ts[0] == st.token->0);
        } else {
            assert(ts =~= rest);
        }
    }
}

/// The tokens of any source text end with exactly one end-of-input token,
/// which has an empty lexeme, and their line numbers never decrease.
pub proof fn lemma_lex_ends_with_single_eof(s: Seq<char>)
    ensures
        ({
            let ts = lex(s).tokens;
            &&& ts.len() >= 1
            &&& ts.last().kind == TokenType::EOF
            &&& ts.last().lexeme.len() == 0
            &&& forall|i: int| 0 <= i < ts.len() - 1 ==> (#[trigger] ts[i]).kind != TokenType::EOF
            &&& forall|i: int, j: int| 0 <= i <= j < ts.len() ==> (#[trigger] ts[i]).line <= (#[trigger] ts[j]).line
        }),
{
    lemma_lex_from_shape(s, 0, 1);
}

proof fn lemma_ident_end_whole(s: Seq<char>, i: int)
    requires
        0 <= i <= s.len(),
        forall|k: int| i <= k < s.len() ==> is_alphanumeric(#[trigger] s[k]),
    ensures
        ident_end(s, i) == s.len(),
    decreases s.len() - i,
{
    if i < s.len() {
        lemma_ident_end_whole(s, i + 1);
    }
}

proof fn lemma_keyword_spelling(s: Seq<char>)
    requires
        keyword_of(s) is Some,
    ensures
        s.len() > 0,
        forall|k: int| 0 <= k < s.len() ==> 'a' <= #[trigger] s[k] && s[k] <= 'z',
{
    reveal_strlit("and");
    reveal_strlit("class");
    reveal_strlit("else");
    reveal_strlit("false");
    reveal_strlit("for");
    reveal_strlit("fun");
    reveal_strlit("if");
    reveal_strlit("nil");
    reveal_strlit("or");
    reveal_strlit("print");
    reveal_strlit("return");
    reveal_strlit("super");
    reveal_strlit("this");
    reveal_strlit("true");
    reveal_strlit("var");
    reveal_strlit("while");
    assert forall|k: int| 0 <= k < s.len() implies 'a' <= #[trigger] s[k] && s[k] <= 'z' by {
        if k == 0 {
        } else if k == 1 {
        } else if k == 2 {
        } else if k == 3 {
        } else if k == 4 {
        } else {
        }
    }
}

/// Each reserved word, scanned on its own, gives one token of its keyword
/// kind with no payload, then the end-of-input token, and no diagnostic.
pub proof fn lemma_keyword_lexes_alone(s: Seq<char>)
    requires
        keyword_of(s) is Some,
    ensures
        lex(s).tokens == seq![
            TokenView { kind: keyword_of(s)->0, lexeme: s, literal: LiteralView::Nil, line: 1 },
            eof_token(1),
        ],
        lex(s).diagnostics.len() == 0,
{
    lemma_keyword_spelling(s);
    lemma_ident_end_whole(s, 0);
    assert(s.subrange(0, s.len() as int) =~= s);
    let st = scan_step(s, 0, 1);
    assert(is_alpha(s[0]));
    assert(st.end == s.len());
    assert(lex_from(s, s.len() as int, 1).tokens == seq![eof_token(1)]);
    assert(lex(s).tokens =~= seq![
        TokenView { kind: keyword_of(s)->0, lexeme: s, literal: LiteralView::Nil, line: 1 },
        eof_token(1),
    ]);
    assert(lex(s).diagnostics =~= Seq::<(nat, Seq<char>)>::empty());
}

/// A decimal numeral as the lexer reads one: digits, then optionally a dot
/// followed by at least one digit.
pub open spec fn is_numeral(n: Seq<char>) -> bool {
    let dot = find_char(n, 0, '.');
    &&& dot > 0
    &&& forall|k: int| 0 <= k < dot ==> is_digit(#[trigger] n[k])
    &&& dot < n.len() ==> dot + 1 < n.len() && forall|k: int| dot < k < n.len() ==> is_digit(#[trigger] n[k])
}

proof fn lemma_find_char_at(s: Seq<char>, i: int, j: int, c: char)
    requires
        0 <= i <= j <= s.len(),
        forall|k: int| i <= k < j ==> #[trigger] s[k] != c,
        j == s.len() || s[j] == c,
    ensures
        find_char(s, i, c) == j,
    decreases j - i,
{
    if i < j {
        lemma_find_char_at(s, i + 1, j, c);
    }
}

proof fn lemma_digits_end_at(s: Seq<char>, i: int, j: int)
    requires
        0 <= i <= j <= s.len(),
        forall|k: int| i <= k < j ==> is_digit(#[trigger] s[k]),
        j == s.len() || !is_digit(s[j]),
    ensures
        digits_end(s, i) == j,
    decreases j - i,
{
    if i < j {
        lemma_digits_end_at(s, i + 1, j);
    }
}

proof fn lemma_strip_leading(s: Seq<char>)
    requires
        s.len() > 0,
        forall|k: int| 0 <= k < s.len() ==> is_digit(#[trigger] s[k]),
    ensures
        strip_leading_zeros(s).len() > 0,
        forall|k: int| 0 <= k < strip_leading_zeros(s).len() ==> is_digit(#[trigger] strip_leading_zeros(s)[k]),
        strip_leading_zeros(strip_leading_zeros(s)) == strip_leading_zeros(s),
    decreases s.len(),
{
    if s.len() > 1 && s[0] == '0' {
        lemma_strip_leading(s.drop_first());
    }
}

proof fn lemma_strip_trailing(s: Seq<char>)
    requires
        forall|k: int| 0 <= k < s.len() ==> is_digit(#[trigger] s[k]),
    ensures
        forall|k: int| 0 <= k < strip_trailing_zeros(s).len() ==> is_digit(#[trigger] strip_trailing_zeros(s)[k]),
        strip_trailing_zeros(s).len() > 0 ==> strip_trailing_zeros(s).last() != '0',
        strip_trailing_zeros(strip_trailing_zeros(s)) == strip_trailing_zeros(s),
    decreases s.len(),
{
    if s.len() > 0 && s.last() == '0' {
        lemma_strip_trailing(s.drop_last());
    }
}

/// The shortest rendering of a numeral is a numeral, is its own shortest
/// rendering, and scans as a single number token.
proof fn lemma_numeral_text(n: Seq<char>)
    requires
        is_numeral(n),
    ensures
        numeral_text(numeral_text(n)) == numeral_text(n),
        numeral_text(n).len() > 0,
        number_end(numeral_text(n), 0) == numeral_text(n).len(),
        is_digit(numeral_text(n)[0]),
{
    let dot = find_char(n, 0, '.');
    crate::lexical::lemma_find_char_bounds(n, 0, '.');
    let whole_digits = n.subrange(0, dot);
    assert forall|k: int| 0 <= k < whole_digits.len() implies is_digit(#[trigger] whole_digits[k]) by {
        assert(whole_digits[k] == n[k]);
    }
    let whole = strip_leading_zeros(whole_digits);
    lemma_strip_leading(whole_digits);
    let fraction_digits = if dot < n.len() { n.subrange(dot + 1, n.len() as int) } else { Seq::<char>::empty() };
    let fraction = if dot < n.len() { strip_trailing_zeros(fraction_digits) } else { Seq::<char>::empty() };
    assert forall|k: int| 0 <= k < fraction_digits.len() implies is_digit(#[trigger] fraction_digits[k]) by {
        assert(fraction_digits[k] == n[k + dot + 1]);
    }
    lemma_strip_trailing(fraction_digits);
    let c = numeral_text(n);
    let w = whole.len() as int;
    if fraction.len() == 0 {
        assert(c == whole);
        lemma_find_char_at(c, 0, w, '.');
        lemma_digits_end_at(c, 0, w);
        assert(c.subrange(0, w) =~= whole);
    } else {
        assert(c == whole + seq!['.'] + fraction);
        assert(c[w] == '.');
        assert forall|k: int| 0 <= k < w implies #[trigger] c[k] != '.' by {
            assert(c[k] == whole[k]);
        }
        lemma_find_char_at(c, 0, w, '.');
        assert forall|k: int| 0 <= k < w implies is_digit(#[trigger] c[k]) by {
            assert(c[k] == whole[k]);
        }
        lemma_digits_end_at(c, 0, w);
        assert forall|k: int| w < k < c.len() implies is_digit(#[trigger] c[k]) by {
            assert(c[k] == fraction[k - w - 1]);
        }
        assert(c[w + 1] == fraction[0]);
        lemma_digits_end_at(c, w + 1, c.len() as int);
        assert(c.subrange(0, w) =~= whole);
        assert(c.subrange(w + 1, c.len() as int) =~= fraction);
    }
}

/// The tokens of one operand that needs no further parsing, then the end
/// of input.
proof fn lemma_parse_single_literal(ts: Seq<TokenView>)
    requires
        ts.len() == 2,
        ts[1].kind == TokenType::EOF,
        ts[0].kind == TokenType::Number || ts[0].kind == TokenType::String || ts[0].kind == TokenType::True
            || ts[0].kind == TokenType::False || ts[0].kind == TokenType::Nil,
    ensures
        parse_tokens(ts) == Ok::<(ExprView, int), crate::grammar::ParseError>((parse_primary(ts, 0)->Ok_0.0, 1)),
        parse_primary(ts, 0) is Ok,
{
    let lit = parse_primary(ts, 0)->Ok_0.0;
    assert(parse_primary(ts, 0) == Ok::<(ExprView, int), crate::grammar::ParseError>((lit, 1)));
    assert(parse_unary(ts, 0) == parse_primary(ts, 0));
    assert(parse_operand(ts, 1, 0) == parse_unary(ts, 0));
    lemma_level_operators_not_eof(1);
    lemma_level_operators_not_eof(2);
    lemma_level_operators_not_eof(3);
    lemma_level_operators_not_eof(4);
    assert(parse_binary_rest(ts, 1, lit, 1) == parse_primary(ts, 0));
    assert(parse_binary(ts, 1, 0) == parse_primary(ts, 0));
    assert(parse_operand(ts, 2, 0) == parse_primary(ts, 0));
    assert(parse_binary_rest(ts, 2, lit, 1) == parse_primary(ts, 0));
    assert(parse_binary(ts, 2, 0) == parse_primary(ts, 0));
    assert(parse_operand(ts, 3, 0) == parse_primary(ts, 0));
    assert(parse_binary_rest(ts, 3, lit, 1) == parse_primary(ts, 0));
    assert(parse_binary(ts, 3, 0) == parse_primary(ts, 0));
    assert(parse_operand(ts, 4, 0) == parse_primary(ts, 0));
    assert(parse_binary_rest(ts, 4, lit, 1) == parse_primary(ts, 0));
    assert(parse_binary(ts, 4, 0) == parse_primary(ts, 0));
}

/// A literal whose printed text scans back to a literal: a numeral, `nil`,
/// `true` or `false`.
pub open spec fn reprintable_literal(v: LiteralView) -> bool {
    match v {
        LiteralView::Nil => true,
        LiteralView::Identifier(t) => t == "true"@ || t == "false"@,
        LiteralView::Number(n) => is_numeral(n),
        LiteralView::String(_) => false,
    }
}

/// Printing a literal tree of a numeral, `nil`, `true` or `false`, then
/// scanning and parsing the printed text, gives without diagnostics a
/// literal tree that consumes every token but the end-of-input one and
/// prints the same text again.
pub proof fn lemma_literal_print_round_trip(v: LiteralView)
    requires
        reprintable_literal(v),
    ensures
        ({
            let text = printed(ExprView::Literal(v));
            let lexed = lex(text);
            &&& lexed.diagnostics.len() == 0
            &&& parse_tokens(lexed.tokens) is Ok
            &&& parse_tokens(lexed.tokens)->Ok_0.1 == lexed.tokens.len() - 1
            &&& printed(parse_tokens(lexed.tokens)->Ok_0.0) == text
        }),
{
    let text = printed(ExprView::Literal(v));
    assert(text == literal_text(v));
    match v {
        LiteralView::Number(n) => {
            lemma_numeral_text(n);
            let c = numeral_text(n);
            let st = scan_step(c, 0, 1);
            assert(st.end == c.len());
            assert(c.subrange(0, c.len() as int) =~= c);
            assert(lex_from(c, c.len() as int, 1).tokens == seq![eof_token(1)]);
            let tok = TokenView { kind: TokenType::Number, lexeme: c, literal: LiteralView::Number(c), line: 1 };
            assert(lex(c).tokens =~= seq![tok, eof_token(1)]);
            assert(lex(c).diagnostics =~= Seq::<(nat, Seq<char>)>::empty());
            lemma_parse_single_literal(lex(c).tokens);
        },
        LiteralView::Nil => {
            reveal_strlit("nil");
            reveal_strlit("and");
            reveal_strlit("for");
            reveal_strlit("fun");
            reveal_strlit("class");
            reveal_strlit("else");
            reveal_strlit("false");
            reveal_strlit("if");
            assert("nil"@[0] != "and"@[0]);
            assert("nil"@[0] != "for"@[0]);
            assert("nil"@[0] != "fun"@[0]);
            assert(keyword_of(text) == Some(TokenType::Nil));
            lemma_keyword_lexes_alone(text);
            lemma_parse_single_literal(lex(text).tokens);
        },
        LiteralView::Identifier(t) => {
            reveal_strlit("true");
            reveal_strlit("false");
            reveal_strlit("and");
            reveal_strlit("class");
            reveal_strlit("else");
            reveal_strlit("for");
            reveal_strlit("fun");
            reveal_strlit("if");
            reveal_strlit("nil");
            reveal_strlit("or");
            reveal_strlit("print");
            reveal_strlit("return");
            reveal_strlit("super");
            reveal_strlit("this");
            reveal_strlit("var");
            reveal_strlit("while");
            assert("true"@[0] != "else"@[0]);
            assert("true"@[1] != "this"@[1]);
            assert("false"@[0] != "class"@[0]);
            if t == "true"@ {
                assert(keyword_of(t) == Some(TokenType::True));
            } else {
                assert(keyword_of(t) == Some(TokenType::False));
            }
            lemma_keyword_lexes_alone(t);
            lemma_parse_single_literal(lex(t).tokens);
        },
        LiteralView::String(_) => {},
    }
}

} // verus!
