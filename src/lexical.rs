//! The lexical rules as mathematical functions over the source characters.

use vstd::prelude::*;
use crate::token::{TokenType, TokenView, LiteralView};

verus! {

pub open spec fn is_digit(c: char) -> bool {
    '0' <= c && c <= '9'
}

pub open spec fn is_alpha(c: char) -> bool {
    ('a' <= c && c <= 'z') || ('A' <= c && c <= 'Z') || c == '_'
}

pub open spec fn is_alphanumeric(c: char) -> bool {
    is_alpha(c) || is_digit(c)
}

/// First index at or after `i` that does not hold a digit (or the length).
pub open spec fn digits_end(s: Seq<char>, i: int) -> int
    decreases s.len() - i,
{
    if 0 <= i < s.len() && is_digit(s[i]) {
        digits_end(s, i + 1)
    } else {
        i
    }
}

/// First index at or after `i` that does not hold a letter, digit or underscore.
pub open spec fn ident_end(s: Seq<char>, i: int) -> int
    decreases s.len() - i,
{
    if 0 <= i < s.len() && is_alphanumeric(s[i]) {
        ident_end(s, i + 1)
    } else {
        i
    }
}

/// First index at or after `i` that holds `c` (or the length).
pub open spec fn find_char(s: Seq<char>, i: int, c: char) -> int
    decreases s.len() - i,
{
    if 0 <= i < s.len() && s[i] != c {
        find_char(s, i + 1, c)
    } else {
        i
    }
}

/// Number of line breaks in `s`.
pub open spec fn count_newlines(s: Seq<char>) -> nat
    decreases s.len(),
{
    if s.len() == 0 {
        0
    } else {
        count_newlines(s.drop_last()) + if s.last() == '\n' { 1nat } else { 0nat }
    }
}

/// The reserved word spelled by `s`, if any.
pub open spec fn keyword_of(s: Seq<char>) -> Option<TokenType> {
    if s == "and"@ {
        Some(TokenType::And)
    } else if s == "class"@ {
        Some(TokenType::Class)
    } else if s == "else"@ {
        Some(TokenType::Else)
    } else if s == "false"@ {
        Some(TokenType::False)
    } else if s == "for"@ {
        Some(TokenType::For)
    } else if s == "fun"@ {
        Some(TokenType::Fun)
    } else if s == "if"@ {
        Some(TokenType::If)
    } else if s == "nil"@ {
        Some(TokenType::Nil)
    } else if s == "or"@ {
        Some(TokenType::Or)
    } else if s == "print"@ {
        Some(TokenType::Print)
    } else if s == "return"@ {
        Some(TokenType::Return)
    } else if s == "super"@ {
        Some(TokenType::Super)
    } else if s == "this"@ {
        Some(TokenType::This)
    } else if s == "true"@ {
        Some(TokenType::True)
    } else if s == "var"@ {
        Some(TokenType::Var)
    } else if s == "while"@ {
        Some(TokenType::While)
    } else {
        None
    }
}

/// The kind of a one-character punctuation token.
pub open spec fn single_char_kind(c: char) -> Option<TokenType> {
    if c == '(' {
        Some(TokenType::LeftParen)
    } else if c == ')' {
        Some(TokenType::RightParen)
    } else if c == '{' {
        Some(TokenType::LeftBrace)
    } else if c == '}' {
        Some(TokenType::RightBrace)
    } else if c == ',' {
        Some(TokenType::Comma)
    } else if c == '.' {
        Some(TokenType::Dot)
    } else if c == '-' {
        Some(TokenType::Minus)
    } else if c == '+' {
        Some(TokenType::Plus)
    } else if c == ';' {
        Some(TokenType::Semicolon)
    } else if c == '*' {
        Some(TokenType::Star)
    } else {
        None
    }
}

/// The kinds of an operator that may be followed by `=`: alone, and with `=`.
pub open spec fn operator_kinds(c: char) -> Option<(TokenType, TokenType)> {
    if c == '!' {
        Some((TokenType::Bang, TokenType::BangEqual))
    } else if c == '=' {
        Some((TokenType::Equal, TokenType::EqualEqual))
    } else if c == '<' {
        Some((TokenType::Less, TokenType::LessEqual))
    } else if c == '>' {
        Some((TokenType::Greater, TokenType::GreaterEqual))
    } else {
        None
    }
}

pub open spec fn unexpected_character_message() -> Seq<char> {
    "Unexpected character."@
}

pub open spec fn unterminated_string_message() -> Seq<char> {
    "Unterminated string."@
}

/// What one scanning step starting at `pos` on line `line` does: where the
/// next lexeme starts, the line there, and the token or diagnostic produced.
pub struct Step {
    pub end: int,
    pub line: nat,
    pub token: Option<TokenView>,
    pub diag: Option<(nat, Seq<char>)>,
}

pub open spec fn emit(s: Seq<char>, pos: int, end: int, line: nat, kind: TokenType, literal: LiteralView) -> Step {
    Step {
        end,
        line,
        token: Some(TokenView { kind, lexeme: s.subrange(pos, end), literal, line }),
        diag: None,
    }
}

pub open spec fn skip(end: int, line: nat) -> Step {
    Step { end, line, token: None, diag: None }
}

/// End of a numeral starting at `pos`: its digits, then a dot and more
/// digits only where a digit follows the dot.
pub open spec fn number_end(s: Seq<char>, pos: int) -> int {
    let e = digits_end(s, pos);
    if e + 1 < s.len() && s[e] == '.' && is_digit(s[e + 1]) {
        digits_end(s, e + 1)
    } else {
        e
    }
}

pub open spec fn scan_step(s: Seq<char>, pos: int, line: nat) -> Step {
    let c = s[pos];
    if single_char_kind(c) is Some {
        emit(s, pos, pos + 1, line, single_char_kind(c)->0, LiteralView::Nil)
    } else if operator_kinds(c) is Some {
        let (one, two) = operator_kinds(c)->0;
        if pos + 1 < s.len() && s[pos + 1] == '=' {
            emit(s, pos, pos + 2, line, two, LiteralView::Nil)
        } else {
            emit(s, pos, pos + 1, line, one, LiteralView::Nil)
        }
    } else if c == '/' {
        if pos + 1 < s.len() && s[pos + 1] == '/' {
            skip(find_char(s, pos + 2, '\n'), line)
        } else {
            emit(s, pos, pos + 1, line, TokenType::Slash, LiteralView::Nil)
        }
    } else if c == ' ' || c == '\r' || c == '\t' {
        skip(pos + 1, line)
    } else if c == '\n' {
        skip(pos + 1, line + 1)
    } else if c == '"' {
        let close = find_char(s, pos + 1, '"');
        let l = line + count_newlines(s.subrange(pos + 1, close));
        if close >= s.len() {
            Step { end: s.len() as int, line: l, token: None, diag: Some((l, unterminated_string_message())) }
        } else {
            emit(s, pos, close + 1, l, TokenType::String, LiteralView::String(s.subrange(pos + 1, close)))
        }
    } else if is_digit(c) {
        let end = number_end(s, pos);
        emit(s, pos, end, line, TokenType::Number, LiteralView::Number(s.subrange(pos, end)))
    } else if is_alpha(c) {
        let end = ident_end(s, pos);
        let text = s.subrange(pos, end);
        match keyword_of(text) {
            Some(k) => emit(s, pos, end, line, k, LiteralView::Nil),
            None => emit(s, pos, end, line, TokenType::Identifier, LiteralView::Identifier(text)),
        }
    } else {
        Step { end: pos + 1, line, token: None, diag: Some((line, unexpected_character_message())) }
    }
}

/// The end-of-input token on `line`.
pub open spec fn eof_token(line: nat) -> TokenView {
    TokenView { kind: TokenType::EOF, lexeme: Seq::empty(), literal: LiteralView::Nil, line }
}

/// Tokens and diagnostics of a scan.
pub struct Lexed {
    pub tokens: Seq<TokenView>,
    pub diagnostics: Seq<(nat, Seq<char>)>,
}

pub open spec fn option_seq<A>(o: Option<A>) -> Seq<A> {
    match o {
        Some(a) => seq![a],
        None => Seq::empty(),
    }
}

pub proof fn lemma_find_char_bounds(s: Seq<char>, i: int, c: char)
    requires
        0 <= i <= s.len(),
    ensures
        i <= find_char(s, i, c) <= s.len(),
        find_char(s, i, c) < s.len() ==> s[find_char(s, i, c)] == c,
    decreases s.len() - i,
{
    if i < s.len() && s[i] != c {
        lemma_find_char_bounds(s, i + 1, c);
    }
}

pub proof fn lemma_digits_end_bounds(s: Seq<char>, i: int)
    requires
        0 <= i <= s.len(),
    ensures
        i <= digits_end(s, i) <= s.len(),
        forall|k: int| i <= k < digits_end(s, i) ==> is_digit(#[trigger] s[k]),
        digits_end(s, i) < s.len() ==> !is_digit(s[digits_end(s, i)]),
    decreases s.len() - i,
{
    if i < s.len() && is_digit(s[i]) {
        lemma_digits_end_bounds(s, i + 1);
    }
}

pub proof fn lemma_ident_end_bounds(s: Seq<char>, i: int)
    requires
        0 <= i <= s.len(),
    ensures
        i <= ident_end(s, i) <= s.len(),
        forall|k: int| i <= k < ident_end(s, i) ==> is_alphanumeric(#[trigger] s[k]),
        ident_end(s, i) < s.len() ==> !is_alphanumeric(s[ident_end(s, i)]),
    decreases s.len() - i,
{
    if i < s.len() && is_alphanumeric(s[i]) {
        lemma_ident_end_bounds(s, i + 1);
    }
}

/// Every step consumes at least one character, stays within the text, and
/// never moves the line counter back.
pub proof fn lemma_scan_step_advances(s: Seq<char>, pos: int, line: nat)
    requires
        0 <= pos < s.len(),
    ensures
        pos < scan_step(s, pos, line).end <= s.len(),
        line <= scan_step(s, pos, line).line,
        scan_step(s, pos, line).token matches Some(t) ==> t.line == scan_step(s, pos, line).line
            && t.kind != TokenType::EOF,
        scan_step(s, pos, line).diag matches Some(d) ==> d.0 == scan_step(s, pos, line).line,
{
    let c = s[pos];
    if c == '/' && pos + 1 < s.len() && s[pos + 1] == '/' {
        lemma_find_char_bounds(s, pos + 2, '\n');
    }
    if c == '"' {
        lemma_find_char_bounds(s, pos + 1, '"');
    }
    if is_digit(c) {
        lemma_digits_end_bounds(s, pos);
        let e = digits_end(s, pos);
        if e + 1 < s.len() && s[e] == '.' && is_digit(s[e + 1]) {
            lemma_digits_end_bounds(s, e + 1);
        }
    }
    if is_alpha(c) {
        lemma_ident_end_bounds(s, pos);
    }
}

/// Scanning the rest of `s` from `pos`, on line `line`, through to the
/// end-of-input token.
pub open spec fn lex_from(s: Seq<char>, pos: int, line: nat) -> Lexed
    decreases s.len() - pos,
{
    if pos < 0 || pos >= s.len() {
        Lexed { tokens: seq![eof_token(line)], diagnostics: Seq::empty() }
    } else {
        let st = scan_step(s, pos, line);
        if st.end <= pos || st.end > s.len() {
            // every step advances within the text; this branch only keeps the definition total
            Lexed { tokens: seq![eof_token(line)], diagnostics: Seq::empty() }
        } else {
            let rest = lex_from(s, st.end, st.line);
            Lexed {
                tokens: option_seq(st.token) + rest.tokens,
                diagnostics: option_seq(st.diag) + rest.diagnostics,
            }
        }
    }
}

/// The tokens and diagnostics of a whole source text.
pub open spec fn lex(s: Seq<char>) -> Lexed {
    lex_from(s, 0, 1)
}

} // verus!
