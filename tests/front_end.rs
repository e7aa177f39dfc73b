use rlox::environment::Environment;
use rlox::expr::{Binary, Expression, Grouping, LiteralExpr, Printer, Unary};
use rlox::grammar::{ParseError, ParseErrorKind};
use rlox::parser::Parser;
use rlox::run;
use rlox::scanner::Scanner;
use rlox::token::{Literal, Token, TokenType};

fn lex(source: &str) -> (Vec<Token>, Environment) {
    let mut env = Environment::new();
    let tokens = run(source.to_string(), &mut env);
    (tokens, env)
}

fn parse(source: &str) -> (Result<Expression, ParseError>, Environment) {
    let (tokens, mut env) = lex(source);
    let mut parser = Parser::new(tokens);
    let r = parser.parse(&mut env);
    (r, env)
}

fn printed(source: &str) -> String {
    let (r, env) = parse(source);
    assert!(!env.had_error());
    Printer {}.print(&r.expect("parses"))
}

fn kinds(tokens: &[Token]) -> Vec<TokenType> {
    tokens.iter().map(|t| t.token_type).collect()
}

#[test]
fn comment_then_number_on_line_two() {
    let (tokens, env) = lex("// comment\n123");
    assert_eq!(tokens.len(), 2);
    assert_eq!(tokens[0].token_type, TokenType::Number);
    assert_eq!(tokens[0].line, 2);
    assert_eq!(tokens[0].lexeme, "123");
    match &tokens[0].literal {
        Literal::Number(n) => assert_eq!(n.parse::<f64>().unwrap(), 123.0),
        other => panic!("unexpected literal {:?}", other),
    }
    assert_eq!(tokens[1].token_type, TokenType::EOF);
    assert!(!env.had_error());
    assert_eq!(env.get_exit_code(), 0);
}

#[test]
fn unterminated_string_is_reported() {
    let (tokens, env) = lex("\"abc");
    assert_eq!(kinds(&tokens), vec![TokenType::EOF]);
    assert!(env.had_error());
    assert_eq!(env.diagnostics().len(), 1);
    assert_eq!(env.diagnostics()[0].line, 1);
    assert_eq!(env.diagnostics()[0].message, "Unterminated string.");
    assert_eq!(env.get_exit_code(), 65);
}

#[test]
fn unary_times_number_prints_without_grouping() {
    assert_eq!(printed("-1234 * 45.67"), "(* (- 1234) 45.67)");
}

#[test]
fn unmatched_grouping_is_a_parse_error() {
    let (r, env) = parse("(1 + 2");
    match r {
        Err(e) => assert_eq!(e.kind, ParseErrorKind::UnmatchedGrouping),
        Ok(_) => panic!("expected a parse error"),
    }
    assert!(env.had_error());
    assert_eq!(env.diagnostics()[0].message, "Expect ')' after expression.");
}

#[test]
fn subtraction_associates_left() {
    assert_eq!(printed("8 - 4 - 2"), "(- (- 8 4) 2)");
}

#[test]
fn keywords_lex_to_their_kinds() {
    let table = [
        ("and", TokenType::And),
        ("class", TokenType::Class),
        ("else", TokenType::Else),
        ("false", TokenType::False),
        ("fun", TokenType::Fun),
        ("for", TokenType::For),
        ("if", TokenType::If),
        ("nil", TokenType::Nil),
        ("or", TokenType::Or),
        ("print", TokenType::Print),
        ("return", TokenType::Return),
        ("super", TokenType::Super),
        ("this", TokenType::This),
        ("true", TokenType::True),
        ("var", TokenType::Var),
        ("while", TokenType::While),
    ];
    for (word, kind) in table {
        let (tokens, env) = lex(word);
        assert_eq!(kinds(&tokens), vec![kind, TokenType::EOF], "{}", word);
        assert!(matches!(tokens[0].literal, Literal::Nil));
        assert_eq!(tokens[0].lexeme, word);
        assert!(!env.had_error());
    }
}

#[test]
fn near_keywords_are_identifiers() {
    let (tokens, _) = lex("andy While _x1");
    assert_eq!(kinds(&tokens), vec![TokenType::Identifier, TokenType::Identifier, TokenType::Identifier, TokenType::EOF]);
    match &tokens[2].literal {
        Literal::Identifier(s) => assert_eq!(s, "_x1"),
        other => panic!("unexpected literal {:?}", other),
    }
}

#[test]
fn token_sequence_ends_with_one_eof_and_lines_grow() {
    let (tokens, _) = lex("var a = 1;\n\"two\nlines\" @ // note\n\n( 3.5 )");
    let eofs = tokens.iter().filter(|t| t.token_type == TokenType::EOF).count();
    assert_eq!(eofs, 1);
    assert_eq!(tokens.last().unwrap().token_type, TokenType::EOF);
    assert_eq!(tokens.last().unwrap().lexeme, "");
    assert_eq!(tokens.last().unwrap().line, 5);
    for w in tokens.windows(2) {
        assert!(w[0].line <= w[1].line);
    }
}

#[test]
fn empty_source_gives_only_eof() {
    let (tokens, env) = lex("");
    assert_eq!(kinds(&tokens), vec![TokenType::EOF]);
    assert_eq!(tokens[0].line, 1);
    assert!(!env.had_error());
}

#[test]
fn one_and_two_character_operators() {
    let (tokens, _) = lex("! != = == < <= > >= / * ( ) { } , . - + ;");
    assert_eq!(
        kinds(&tokens),
        vec![
            TokenType::Bang, TokenType::BangEqual, TokenType::Equal, TokenType::EqualEqual,
            TokenType::Less, TokenType::LessEqual, TokenType::Greater, TokenType::GreaterEqual,
            TokenType::Slash, TokenType::Star, TokenType::LeftParen, TokenType::RightParen,
            TokenType::LeftBrace, TokenType::RightBrace, TokenType::Comma, TokenType::Dot,
            TokenType::Minus, TokenType::Plus, TokenType::Semicolon, TokenType::EOF,
        ]
    );
    assert_eq!(tokens[1].lexeme, "!=");
}

#[test]
fn unexpected_character_is_reported_and_skipped() {
    let (tokens, env) = lex("1 @ 2");
    assert_eq!(kinds(&tokens), vec![TokenType::Number, TokenType::Number, TokenType::EOF]);
    assert!(env.had_error());
    assert_eq!(env.diagnostics()[0].message, "Unexpected character.");
    assert_eq!(env.diagnostics()[0].line, 1);
}

#[test]
fn string_literal_drops_quotes_and_counts_lines() {
    let (tokens, env) = lex("\"a\nb\" x");
    assert_eq!(tokens[0].token_type, TokenType::String);
    assert_eq!(tokens[0].lexeme, "\"a\nb\"");
    match &tokens[0].literal {
        Literal::String(s) => assert_eq!(s, "a\nb"),
        other => panic!("unexpected literal {:?}", other),
    }
    assert_eq!(tokens[0].line, 2);
    assert_eq!(tokens[1].line, 2);
    assert!(!env.had_error());
}

#[test]
fn number_without_fraction_digits_leaves_the_dot() {
    let (tokens, _) = lex("12.");
    assert_eq!(kinds(&tokens), vec![TokenType::Number, TokenType::Dot, TokenType::EOF]);
    assert_eq!(tokens[0].lexeme, "12");
    let (tokens, _) = lex(".5");
    assert_eq!(kinds(&tokens), vec![TokenType::Dot, TokenType::Number, TokenType::EOF]);
}

#[test]
fn scanner_can_be_driven_directly() {
    let mut env = Environment::new();
    let mut scanner = Scanner::new("a+b".to_string());
    scanner.scan_tokens(&mut env);
    assert_eq!(kinds(scanner.tokens()), vec![TokenType::Identifier, TokenType::Plus, TokenType::Identifier, TokenType::EOF]);
    assert_eq!(scanner.tokens()[0].lexeme, "a");
    assert_eq!(scanner.into_tokens().len(), 4);
}

#[test]
fn precedence_ladder() {
    assert_eq!(printed("1 + 2 * 3"), "(+ 1 (* 2 3))");
    assert_eq!(printed("1 * 2 + 3"), "(+ (* 1 2) 3)");
    assert_eq!(printed("1 < 2 == 3 >= 4"), "(== (< 1 2) (>= 3 4))");
    assert_eq!(printed("!!true != nil"), "(!= (! (! true)) nil)");
    assert_eq!(printed("8 / 4 / 2"), "(/ (/ 8 4) 2)");
    assert_eq!(printed("(1 + 2) * \"s\""), "(* (group (+ 1 2)) s)");
}

#[test]
fn numerals_print_in_shortest_form() {
    assert_eq!(printed("1234.0"), "1234");
    assert_eq!(printed("007.50"), "7.5");
    assert_eq!(printed("0.0"), "0");
    assert_eq!(printed("45.67"), "45.67");
}

#[test]
fn printing_literals_round_trips() {
    for source in ["45.670", "nil", "true", "false", "0012"] {
        let once = printed(source);
        let twice = printed(&once);
        assert_eq!(once, twice, "{}", source);
    }
}

#[test]
fn dangling_operator_is_end_of_input() {
    let (r, env) = parse("1 +");
    match r {
        Err(e) => {
            assert_eq!(e.kind, ParseErrorKind::UnexpectedEndOfInput);
            assert_eq!(e.line, 1);
        },
        Ok(_) => panic!("expected a parse error"),
    }
    assert_eq!(env.diagnostics()[0].message, "Expect expression at end of input.");
}

#[test]
fn operator_where_operand_is_expected() {
    let (r, env) = parse("\n* 2");
    match r {
        Err(e) => {
            assert_eq!(e.kind, ParseErrorKind::ExpectedOperand);
            assert_eq!(e.line, 2);
        },
        Ok(_) => panic!("expected a parse error"),
    }
    assert_eq!(env.get_exit_code(), 65);
    assert_eq!(env.diagnostics()[0].message, "Expect expression.");
}

#[test]
fn identifiers_are_not_operands() {
    let (r, _) = parse("x + 1");
    assert!(matches!(r, Err(ParseError { kind: ParseErrorKind::ExpectedOperand, line: 1 })));
}

#[test]
fn printer_dispatch_on_hand_built_tree() {
    let minus = Token::new(TokenType::Minus, "-".to_string(), Literal::Nil, 1);
    let star = Token::new(TokenType::Star, "*".to_string(), Literal::Nil, 1);
    let expr = Expression::Binary(Binary {
        left: Box::new(Expression::Unary(Unary {
            operator: minus,
            right: Box::new(Expression::Literal(LiteralExpr { value: Literal::Number("1234".to_string()) })),
        })),
        right: Box::new(Expression::Grouping(Grouping {
            expression: Box::new(Expression::Literal(LiteralExpr { value: Literal::Number("45.67".to_string()) })),
        })),
        operator: star,
    });
    let printer = Printer {};
    assert_eq!(printer.print(&expr), "(* (- 1234) (group 45.67))");
    assert_eq!(expr.visit(&printer), "(* (- 1234) (group 45.67))");
    assert_eq!(expr.accept(&printer), "(* (- 1234) (group 45.67))");
}

#[test]
fn environment_records_errors() {
    let mut env = Environment::new();
    assert!(!env.had_error());
    assert_eq!(env.get_exit_code(), 0);
    env.error(7, "boom");
    assert!(env.had_error());
    assert_eq!(env.get_exit_code(), 65);
    assert_eq!(env.diagnostics()[0].line, 7);
    assert_eq!(env.diagnostics()[0].message, "boom");
}

#[test]
fn parse_stops_after_one_expression() {
    let (tokens, mut env) = lex("1 2");
    let mut parser = Parser::new(tokens);
    let first = parser.parse(&mut env).expect("parses");
    assert_eq!(Printer {}.print(&first), "1");
    let second = parser.parse(&mut env).expect("parses");
    assert_eq!(Printer {}.print(&second), "2");
    assert!(!env.had_error());
}
