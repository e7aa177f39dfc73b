//! The lexer: scans source text into tokens, reporting malformed lexemes.

use vstd::prelude::*;
use crate::environment::Environment;
use crate::lexical::{
    count_newlines, digits_end, eof_token, find_char, ident_end, is_alpha, is_alphanumeric, is_digit,
    keyword_of, lemma_scan_step_advances, lex_from, number_end, operator_kinds, option_seq,
    scan_step, single_char_kind, unterminated_string_message,
};
use crate::text::{collect_chars, text_of};
use crate::token::{Literal, Token, TokenType, TokenView, tokens_view};

verus! {

broadcast use vstd::string::group_string_axioms;

/// Whether `text` spells `word`.
fn spells(text: &String, word: &str) -> (r: bool)
    ensures
        r == (text@ == word@),
{
    let w = String::from_str(word);
    *text == w
}

/// The reserved word spelled by `text`, if any.
fn keyword_kind(text: &String) -> (r: Option<TokenType>)
    ensures
        r == keyword_of(text@),
{
    if spells(text, "and") {
        Some(TokenType::And)
    } else if spells(text, "class") {
        Some(TokenType::Class)
    } else if spells(text, "else") {
        Some(TokenType::Else)
    } else if spells(text, "false") {
        Some(TokenType::False)
    } else if spells(text, "for") {
        Some(TokenType::For)
    } else if spells(text, "fun") {
        Some(TokenType::Fun)
    } else if spells(text, "if") {
        Some(TokenType::If)
    } else if spells(text, "nil") {
        Some(TokenType::Nil)
    } else if spells(text, "or") {
        Some(TokenType::Or)
    } else if spells(text, "print") {
        Some(TokenType::Print)
    } else if spells(text, "return") {
        Some(TokenType::Return)
    } else if spells(text, "super") {
        Some(TokenType::Super)
    } else if spells(text, "this") {
        Some(TokenType::This)
    } else if spells(text, "true") {
        Some(TokenType::True)
    } else if spells(text, "var") {
        Some(TokenType::Var)
    } else if spells(text, "while") {
        Some(TokenType::While)
    } else {
        None
    }
}

/// The kind of a one-character punctuation token.
fn single_kind(c: char) -> (r: Option<TokenType>)
    ensures
        r == single_char_kind(c),
{
    if c == '(' {
        Some(TokenType::LeftParen)
    } else if c == ')' {
        Some(TokenType::RightParen)
    } else if c == '{' {
        Some(TokenType::LeftBrace)
    } else if c == '}' {
        Some(TokenType::RightBrace)
    } else if c == ',' {
        Some(TokenType::Comma)
    } else if c == '.' {
        Some(TokenType::Dot)
    } else if c == '-' {
        Some(TokenType::Minus)
    } else if c == '+' {
        Some(TokenType::Plus)
    } else if c == ';' {
        Some(TokenType::Semicolon)
    } else if c == '*' {
        Some(TokenType::Star)
    } else {
        None
    }
}

/// The kinds of an operator that may be followed by `=`.
fn operator_kinds_of(c: char) -> (r: Option<(TokenType, TokenType)>)
    ensures
        r == operator_kinds(c),
{
    if c == '!' {
        Some((TokenType::Bang, TokenType::BangEqual))
    } else if c == '=' {
        Some((TokenType::Equal, TokenType::EqualEqual))
    } else if c == '<' {
        Some((TokenType::Less, TokenType::LessEqual))
    } else if c == '>' {
        Some((TokenType::Greater, TokenType::GreaterEqual))
    } else {
        None
    }
}

proof fn lemma_count_newlines_step(s: Seq<char>, from: int, to: int)
    requires
        0 <= from <= to < s.len(),
    ensures
        count_newlines(s.subrange(from, to + 1)) == count_newlines(s.subrange(from, to))
            + if s[to] == '\n' { 1nat } else { 0nat },
{
    assert(s.subrange(from, to + 1).drop_last() =~= s.subrange(from, to));
}

/// Scans one source text into tokens. A scanner keeps the characters of its
/// text, the tokens found so far, and its position and line.
pub struct Scanner {
    chars: Vec<char>,
    tokens: Vec<Token>,
    start: usize,
    current: usize,
    line: u32,
}

impl Scanner {
    /// The characters being scanned.
    pub closed spec fn text(&self) -> Seq<char> {
        self.chars@
    }

    /// The tokens produced so far.
    pub closed spec fn scanned(&self) -> Seq<TokenView> {
        tokens_view(self.tokens@)
    }

    /// Index of the next character to scan.
    pub closed spec fn position(&self) -> int {
        self.current as int
    }

    /// The current 1-based line.
    pub closed spec fn line_number(&self) -> nat {
        self.line as nat
    }

    /// The position lies within the text, and the line counter cannot
    /// overflow on what remains.
    pub closed spec fn wf(&self) -> bool {
        &&& self.start <= self.current <= self.chars@.len()
        &&& self.chars@.len() < u32::MAX
        &&& self.line as int + (self.chars@.len() - self.current) <= u32::MAX
    }

    pub fn new(source: String) -> (r: Self)
        requires
            source@.len() < u32::MAX,
        ensures
            r.wf(),
            r.text() == source@,
            r.scanned() == Seq::<TokenView>::empty(),
            r.position() == 0,
            r.line_number() == 1,
    {
        let chars = collect_chars(source.as_str());
        let r = Scanner { chars, tokens: Vec::new(), start: 0, current: 0, line: 1 };
        assert(r.scanned() =~= Seq::<TokenView>::empty());
        r
    }

    /// Scans the rest of the text, appending its tokens and the closing
    /// end-of-input token, and reporting each malformed lexeme to `environment`.
    pub fn scan_tokens(&mut self, environment: &mut Environment)
        requires
            old(self).wf(),
        ensures
            final(self).wf(),
            final(self).text() == old(self).text(),
            final(self).position() == old(self).text().len(),
            final(self).scanned() == old(self).scanned()
                + lex_from(old(self).text(), old(self).position(), old(self).line_number()).tokens,
            final(environment)@.diagnostics == old(environment)@.diagnostics
                + lex_from(old(self).text(), old(self).position(), old(self).line_number()).diagnostics,
            final(environment)@.had_error == (old(environment)@.had_error
                || lex_from(old(self).text(), old(self).position(), old(self).line_number()).diagnostics.len() > 0),
    {
        let ghost s = self.chars@;
        let ghost total = lex_from(s, self.current as int, self.line as nat);
        let ghost toks0 = self.scanned();
        let ghost diags0 = environment@.diagnostics;
        let ghost err0 = environment@.had_error;
        while self.current < self.chars.len()
            invariant
                self.wf(),
                self.chars@ == s,
                self.scanned() + lex_from(s, self.current as int, self.line as nat).tokens == toks0 + total.tokens,
                environment@.diagnostics + lex_from(s, self.current as int, self.line as nat).diagnostics
                    == diags0 + total.diagnostics,
                environment@.had_error == (err0 || environment@.diagnostics.len() > diags0.len()),
                environment@.diagnostics.len() >= diags0.len(),
            decreases self.chars@.len() - self.current,
        {
            self.start = self.current;
            let ghost before = *self;
            let ghost env_before = environment@;
            self.scan_token(environment);
            proof {
                let st = scan_step(s, before.current as int, before.line as nat);
                let rest = lex_from(s, self.current as int, self.line as nat);
                assert(lex_from(s, before.current as int, before.line as nat).tokens
                    == option_seq(st.token) + rest.tokens);
                assert(before.scanned() + (option_seq(st.token) + rest.tokens)
                    =~= (before.scanned() + option_seq(st.token)) + rest.tokens);
                assert(env_before.diagnostics + (option_seq(st.diag) + rest.diagnostics)
                    =~= (env_before.diagnostics + option_seq(st.diag)) + rest.diagnostics);
            }
        }
        let ghost before = *self;
        let eof = Token::new(TokenType::EOF, String::new(), Literal::Nil, self.line);
        self.tokens.push(eof);
        proof {
            assert(self.scanned() =~= before.scanned().push(eof@));
            assert(eof@ == eof_token(self.line as nat));
            assert(environment@.diagnostics =~= diags0 + total.diagnostics);
        }
    }

    /// The tokens produced so far.
    pub fn tokens(&self) -> (r: &Vec<Token>)
        ensures
            tokens_view(r@) == self.scanned(),
    {
        &self.tokens
    }

    /// Gives up the scanner for the tokens it produced.
    pub fn into_tokens(self) -> (r: Vec<Token>)
        ensures
            tokens_view(r@) == self.scanned(),
    {
        self.tokens
    }

    /// Scans the lexeme that starts at the current position.
    fn scan_token(&mut self, environment: &mut Environment)
        requires
            old(self).wf(),
            old(self).current < old(self).chars@.len(),
            old(self).start == old(self).current,
        ensures
            ({
                let st = scan_step(old(self).chars@, old(self).current as int, old(self).line as nat);
                &&& final(self).wf()
                &&& final(self).chars@ == old(self).chars@
                &&& old(self).current < final(self).current
                &&& final(self).current == st.end
                &&& final(self).line == st.line
                &&& final(self).scanned() == old(self).scanned() + option_seq(st.token)
                &&& final(environment)@.diagnostics == old(environment)@.diagnostics + option_seq(st.diag)
                &&& final(environment)@.had_error == (old(environment)@.had_error || st.diag is Some)
            }),
    {
        let ghost s = self.chars@;
        let ghost pos = self.current as int;
        let ghost line0 = self.line as nat;
        proof {
            lemma_scan_step_advances(s, pos, line0);
        }
        let c = self.advance();
        let single = single_kind(c);
        let op = operator_kinds_of(c);
        if let Some(kind) = single {
            self.add_token(kind, Literal::Nil);
        } else if let Some((one, two)) = op {
            let kind = if self.match_char('=') { two } else { one };
            self.add_token(kind, Literal::Nil);
        } else if c == '/' {
            if self.match_char('/') {
                while self.peek() != '\n' && !self.is_at_end()
                    invariant
                        self.wf(),
                        self.chars@ == s,
                        self.start as int == pos,
                        pos + 2 <= self.current,
                        self.line as nat == line0,
                        self.tokens == old(self).tokens,
                        find_char(s, pos + 2, '\n') == find_char(s, self.current as int, '\n'),
                    decreases s.len() - self.current,
                {
                    self.advance();
                }
            } else {
                self.add_token(TokenType::Slash, Literal::Nil);
            }
        } else if c == ' ' || c == '\r' || c == '\t' {
        } else if c == '\n' {
            self.line = self.line + 1;
        } else if c == '"' {
            self.extract_string(environment);
        } else if Scanner::is_digit(&c) {
            self.extract_number();
        } else if Scanner::is_alpha(&c) {
            self.extract_identifier();
        } else {
            environment.error(self.line, "Unexpected character.");
        }
        proof {
            let st = scan_step(s, pos, line0);
            if option_seq(st.token).len() == 0 {
                assert(self.scanned() =~= old(self).scanned() + option_seq(st.token));
            }
            if option_seq(st.diag).len() == 0 {
                assert(environment@.diagnostics =~= old(environment)@.diagnostics + option_seq(st.diag));
            } else {
                assert(environment@.diagnostics =~= old(environment)@.diagnostics + option_seq(st.diag));
            }
        }
    }

    /// Appends a token for the lexeme `chars[start..current]`.
    fn add_token(&mut self, token_type: TokenType, literal: Literal)
        requires
            old(self).start <= old(self).current <= old(self).chars@.len(),
        ensures
            final(self).chars == old(self).chars,
            final(self).start == old(self).start,
            final(self).current == old(self).current,
            final(self).line == old(self).line,
            final(self).scanned() == old(self).scanned().push(TokenView {
                kind: token_type,
                lexeme: old(self).chars@.subrange(old(self).start as int, old(self).current as int),
                literal: literal@,
                line: old(self).line as nat,
            }),
    {
        let text = text_of(&self.chars, self.start, self.current);
        let t = Token::new(token_type, text, literal, self.line);
        let ghost before = self.tokens@;
        self.tokens.push(t);
        assert(tokens_view(self.tokens@) =~= tokens_view(before).push(t@));
    }

    fn advance(&mut self) -> (c: char)
        requires
            old(self).wf(),
            old(self).current < old(self).chars@.len(),
        ensures
            final(self).wf(),
            c == old(self).chars@[old(self).current as int],
            final(self).current == old(self).current + 1,
            final(self).chars == old(self).chars,
            final(self).tokens == old(self).tokens,
            final(self).start == old(self).start,
            final(self).line == old(self).line,
    {
        let result = self.chars[self.current];
        self.current = self.current + 1;
        result
    }

    /// The next character, or `'\0'` at the end.
    fn peek(&self) -> (c: char)
        requires
            self.current <= self.chars@.len(),
        ensures
            self.current < self.chars@.len() ==> c == self.chars@[self.current as int],
            self.current == self.chars@.len() ==> c == '\0',
    {
        if self.is_at_end() {
            '\0'
        } else {
            self.chars[self.current]
        }
    }

    /// The character after the next one, or `'\0'` past the end.
    fn peek_next(&self) -> (c: char)
        requires
            self.wf(),
        ensures
            self.current + 1 < self.chars@.len() ==> c == self.chars@[self.current + 1],
            self.current + 1 >= self.chars@.len() ==> c == '\0',
    {
        if self.current + 1 >= self.chars.len() {
            '\0'
        } else {
            self.chars[self.current + 1]
        }
    }

    /// Consumes the next character if it is `expected`.
    fn match_char(&mut self, expected: char) -> (r: bool)
        requires
            old(self).wf(),
        ensures
            final(self).wf(),
            r == (old(self).current < old(self).chars@.len()
                && old(self).chars@[old(self).current as int] == expected),
            final(self).current == old(self).current + if r { 1int } else { 0int },
            final(self).chars == old(self).chars,
            final(self).tokens == old(self).tokens,
            final(self).start == old(self).start,
            final(self).line == old(self).line,
    {
        if self.is_at_end() {
            false
        } else if self.chars[self.current] != expected {
            false
        } else {
            self.current = self.current + 1;
            true
        }
    }

    /// Scans a string literal whose opening quote was just consumed.
    fn extract_string(&mut self, environment: &mut Environment)
        requires
            old(self).wf(),
            old(self).start + 1 == old(self).current,
            old(self).chars@[old(self).start as int] == '"',
        ensures
            ({
                let st = scan_step(old(self).chars@, old(self).start as int, old(self).line as nat);
                &&& final(self).wf()
                &&& final(self).chars@ == old(self).chars@
                &&& final(self).current == st.end
                &&& final(self).line == st.line
                &&& final(self).scanned() == old(self).scanned() + option_seq(st.token)
                &&& final(environment)@.diagnostics == old(environment)@.diagnostics + option_seq(st.diag)
                &&& final(environment)@.had_error == (old(environment)@.had_error || st.diag is Some)
            }),
    {
        let ghost s = self.chars@;
        let ghost pos = self.start as int;
        let ghost line0 = self.line as nat;
        assert(s.subrange(pos + 1, pos + 1) =~= Seq::<char>::empty());
        while self.peek() != '"' && !self.is_at_end()
            invariant
                self.wf(),
                self.chars@ == s,
                self.start as int == pos,
                pos + 1 <= self.current,
                self.tokens == old(self).tokens,
                find_char(s, pos + 1, '"') == find_char(s, self.current as int, '"'),
                self.line as nat == line0 + count_newlines(s.subrange(pos + 1, self.current as int)),
            decreases s.len() - self.current,
        {
            proof {
                lemma_count_newlines_step(s, pos + 1, self.current as int);
            }
            let c = self.advance();
            if c == '\n' {
                self.line = self.line + 1;
            }
        }
        if self.is_at_end() {
            environment.error(self.line, "Unterminated string.");
            proof {
                assert(environment@.diagnostics =~= old(environment)@.diagnostics
                    + seq![(self.line as nat, unterminated_string_message())]);
                assert(self.scanned() =~= old(self).scanned() + Seq::<TokenView>::empty());
            }
            return;
        }
        self.advance();
        let literal = text_of(&self.chars, self.start + 1, self.current - 1);
        self.add_token(TokenType::String, Literal::String(literal));
        proof {
            assert(environment@.diagnostics =~= old(environment)@.diagnostics + Seq::<(nat, Seq<char>)>::empty());
        }
    }

    /// Scans a numeral whose first digit was just consumed.
    fn extract_number(&mut self)
        requires
            old(self).wf(),
            old(self).start + 1 == old(self).current,
            is_digit(old(self).chars@[old(self).start as int]),
        ensures
            ({
                let st = scan_step(old(self).chars@, old(self).start as int, old(self).line as nat);
                &&& final(self).wf()
                &&& final(self).chars@ == old(self).chars@
                &&& final(self).current == st.end
                &&& final(self).line == st.line
                &&& final(self).scanned() == old(self).scanned() + option_seq(st.token)
                &&& st.diag is None
            }),
    {
        let ghost s = self.chars@;
        let ghost pos = self.start as int;
        while Scanner::is_digit(&self.peek())
            invariant
                self.wf(),
                self.chars@ == s,
                self.start as int == pos,
                pos < self.current,
                self.line == old(self).line,
                self.tokens == old(self).tokens,
                digits_end(s, pos) == digits_end(s, self.current as int),
            decreases s.len() - self.current,
        {
            self.advance();
        }
        let ghost e = self.current as int;
        if self.peek() == '.' && Scanner::is_digit(&self.peek_next()) {
            self.advance();
            while Scanner::is_digit(&self.peek())
                invariant
                    self.wf(),
                    self.chars@ == s,
                    self.start as int == pos,
                    e < self.current,
                    self.line == old(self).line,
                    self.tokens == old(self).tokens,
                    digits_end(s, e + 1) == digits_end(s, self.current as int),
                decreases s.len() - self.current,
            {
                self.advance();
            }
        }
        assert(self.current as int == number_end(s, pos));
        let literal = text_of(&self.chars, self.start, self.current);
        self.add_token(TokenType::Number, Literal::Number(literal));
        assert(self.scanned() =~= old(self).scanned() + option_seq(scan_step(s, pos, self.line as nat).token));
    }

    /// Scans an identifier or reserved word whose first character was just
    /// consumed.
    fn extract_identifier(&mut self)
        requires
            old(self).wf(),
            old(self).start + 1 == old(self).current,
            is_alpha(old(self).chars@[old(self).start as int]),
            !is_digit(old(self).chars@[old(self).start as int]),
            single_char_kind(old(self).chars@[old(self).start as int]) is None,
            operator_kinds(old(self).chars@[old(self).start as int]) is None,
        ensures
            ({
                let st = scan_step(old(self).chars@, old(self).start as int, old(self).line as nat);
                &&& final(self).wf()
                &&& final(self).chars@ == old(self).chars@
                &&& final(self).current == st.end
                &&& final(self).line == st.line
                &&& final(self).scanned() == old(self).scanned() + option_seq(st.token)
                &&& st.diag is None
            }),
    {
        let ghost s = self.chars@;
        let ghost pos = self.start as int;
        while Scanner::is_alphanumeric(&self.peek())
            invariant
                self.wf(),
                self.chars@ == s,
                self.start as int == pos,
                pos < self.current,
                self.line == old(self).line,
                self.tokens == old(self).tokens,
                ident_end(s, pos) == ident_end(s, self.current as int),
            decreases s.len() - self.current,
        {
            self.advance();
        }
        let text = text_of(&self.chars, self.start, self.current);
        match keyword_kind(&text) {
            Some(kind) => self.add_token(kind, Literal::Nil),
            None => self.add_token(TokenType::Identifier, Literal::Identifier(text)),
        }
        assert(self.scanned() =~= old(self).scanned() + option_seq(scan_step(s, pos, self.line as nat).token));
    }

    fn is_at_end(&self) -> (r: bool)
        ensures
            r == (self.current >= self.chars@.len()),
    {
        self.current >= self.chars.len()
    }

    fn is_digit(c: &char) -> (r: bool)
        ensures
            r == is_digit(*c),
    {
        *c >= '0' && *c <= '9'
    }

    fn is_alpha(c: &char) -> (r: bool)
        ensures
            r == is_alpha(*c),
    {
        *c >= 'a' && *c <= 'z' || *c >= 'A' && *c <= 'Z' || *c == '_'
    }

    fn is_alphanumeric(c: &char) -> (r: bool)
        ensures
            r == is_alphanumeric(*c),
    {
        Scanner::is_alpha(c) || Scanner::is_digit(c)
    }
}

} // verus!
