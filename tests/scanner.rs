use brine::format::{join_lines, kind_name, token_line};
use brine::scanner::{ScanError, Scanner};
use brine::token::{Keyword, Punct, Token, TokenKind};
use brine::tree_walk::TreeWalk;

fn tok(kind: TokenKind, lexeme: &str) -> Token {
    Token { kind, lexeme: lexeme.to_string() }
}

fn eof() -> Token {
    tok(TokenKind::Eof, "")
}

fn punct(p: Punct, lexeme: &str) -> Token {
    tok(TokenKind::Punct(p), lexeme)
}

fn number(text: &str) -> Token {
    tok(TokenKind::Number(text.to_string()), text)
}

fn scan_ok(source: &str) -> (Vec<Token>, Vec<char>) {
    let mut unexpected = Vec::new();
    let tokens = Scanner::tokenize(source, &mut unexpected).expect("scan should complete");
    (tokens, unexpected)
}

fn number_value(t: &Token) -> f64 {
    match &t.kind {
        TokenKind::Number(text) => text.parse::<f64>().unwrap(),
        other => panic!("not a number: {:?}", other),
    }
}

#[test]
fn empty_input_is_a_lone_eof() {
    let (tokens, unexpected) = scan_ok("");
    assert_eq!(tokens, vec![eof()]);
    assert!(unexpected.is_empty());
}

#[test]
fn eof_is_last_and_only_once() {
    for source in ["", "+", "var x = 1;", "(){}", "a // b", "\"s\" 1.5 @"] {
        let (tokens, _) = scan_ok(source);
        assert_eq!(tokens.last(), Some(&eof()));
        let n = tokens.iter().filter(|t| t.kind == TokenKind::Eof).count();
        assert_eq!(n, 1, "source {:?}", source);
    }
}

#[test]
fn blank_and_comment_only_input() {
    for source in ["   ", "\t\r\n", "// only a comment", "  // one\n\n// two\n  ", "////"] {
        let (tokens, unexpected) = scan_ok(source);
        assert_eq!(tokens, vec![eof()], "source {:?}", source);
        assert!(unexpected.is_empty());
    }
}

#[test]
fn operator_round_trip() {
    let cases = [
        ("(", Punct::LeftParen),
        (")", Punct::RightParen),
        ("{", Punct::LeftBrace),
        ("}", Punct::RightBrace),
        (",", Punct::Comma),
        (".", Punct::Dot),
        ("-", Punct::Minus),
        ("+", Punct::Plus),
        ("*", Punct::Star),
        ("/", Punct::Slash),
        (";", Punct::Semicolon),
        ("=", Punct::Equal),
        ("!", Punct::Bang),
        (">", Punct::GreaterThan),
        ("<", Punct::LessThan),
        ("==", Punct::DoubleEqual),
        ("!=", Punct::BangEqual),
        (">=", Punct::GreaterThanEqual),
        ("<=", Punct::LessThanEqual),
    ];
    for (text, p) in cases {
        let (tokens, _) = scan_ok(text);
        assert_eq!(tokens, vec![punct(p, text), eof()]);
    }
}

#[test]
fn two_char_operators_take_priority() {
    let (tokens, _) = scan_ok("!==<>=");
    assert_eq!(
        tokens,
        vec![
            punct(Punct::BangEqual, "!="),
            punct(Punct::Equal, "="),
            punct(Punct::LessThan, "<"),
            punct(Punct::GreaterThanEqual, ">="),
            eof(),
        ]
    );
}

#[test]
fn integer_number() {
    let (tokens, _) = scan_ok("123");
    assert_eq!(tokens, vec![number("123"), eof()]);
    assert_eq!(number_value(&tokens[0]), 123.0);
}

#[test]
fn decimal_number() {
    let (tokens, _) = scan_ok("123.45");
    assert_eq!(tokens, vec![number("123.45"), eof()]);
    assert_eq!(number_value(&tokens[0]), 123.45);
}

#[test]
fn trailing_dot_is_not_part_of_number() {
    let (tokens, _) = scan_ok("123.");
    assert_eq!(tokens, vec![number("123"), punct(Punct::Dot, "."), eof()]);
    assert_eq!(number_value(&tokens[0]), 123.0);
}

#[test]
fn leading_dot_is_a_dot_token() {
    let (tokens, _) = scan_ok(".5");
    assert_eq!(tokens, vec![punct(Punct::Dot, "."), number("5"), eof()]);
}

#[test]
fn minus_is_separate_from_number() {
    let (tokens, _) = scan_ok("-7");
    assert_eq!(tokens, vec![punct(Punct::Minus, "-"), number("7"), eof()]);
}

#[test]
fn string_literal_drops_quotes() {
    let (tokens, _) = scan_ok("\"hello\"");
    assert_eq!(tokens, vec![tok(TokenKind::String("hello".to_string()), "hello"), eof()]);
}

#[test]
fn multiline_string_is_kept_verbatim() {
    let (tokens, _) = scan_ok("\"a\nb\" +");
    assert_eq!(
        tokens,
        vec![tok(TokenKind::String("a\nb".to_string()), "a\nb"), punct(Punct::Plus, "+"), eof()]
    );
}

#[test]
fn empty_string_literal() {
    let (tokens, _) = scan_ok("\"\"");
    assert_eq!(tokens, vec![tok(TokenKind::String(String::new()), ""), eof()]);
}

#[test]
fn identifier_keyword_and_number() {
    let (tokens, _) = scan_ok("foo_bar1 and 99");
    assert_eq!(
        tokens,
        vec![
            tok(TokenKind::Identifier, "foo_bar1"),
            tok(TokenKind::Keyword(Keyword::And), "and"),
            number("99"),
            eof(),
        ]
    );
    assert_eq!(number_value(&tokens[2]), 99.0);
}

#[test]
fn keywords_match_whole_words_case_sensitively() {
    let (tokens, _) = scan_ok("AND Print forX for _x");
    assert_eq!(
        tokens,
        vec![
            tok(TokenKind::Identifier, "AND"),
            tok(TokenKind::Identifier, "Print"),
            tok(TokenKind::Identifier, "forX"),
            tok(TokenKind::Keyword(Keyword::For), "for"),
            tok(TokenKind::Identifier, "_x"),
            eof(),
        ]
    );
}

#[test]
fn every_keyword_is_recognised() {
    let words = [
        ("and", Keyword::And),
        ("or", Keyword::Or),
        ("if", Keyword::If),
        ("else", Keyword::Else),
        ("true", Keyword::True),
        ("false", Keyword::False),
        ("nil", Keyword::Nil),
        ("for", Keyword::For),
        ("while", Keyword::While),
        ("class", Keyword::Class),
        ("fun", Keyword::Fun),
        ("var", Keyword::Var),
        ("this", Keyword::This),
        ("super", Keyword::Super),
        ("print", Keyword::Print),
        ("return", Keyword::Return),
    ];
    for (w, k) in words {
        let (tokens, _) = scan_ok(w);
        assert_eq!(tokens, vec![tok(TokenKind::Keyword(k), w), eof()]);
    }
}

#[test]
fn comment_is_skipped() {
    let (tokens, _) = scan_ok("// comment\n+");
    assert_eq!(tokens, vec![punct(Punct::Plus, "+"), eof()]);
}

#[test]
fn slash_alone_is_division() {
    let (tokens, _) = scan_ok("a / b");
    assert_eq!(
        tokens,
        vec![
            tok(TokenKind::Identifier, "a"),
            punct(Punct::Slash, "/"),
            tok(TokenKind::Identifier, "b"),
            eof(),
        ]
    );
}

#[test]
fn unterminated_string_is_fatal() {
    let mut unexpected = Vec::new();
    let r = Scanner::tokenize("\"abc", &mut unexpected);
    assert_eq!(r, Err(ScanError::UnterminatedString));
}

#[test]
fn unterminated_string_after_tokens_is_fatal() {
    let mut unexpected = Vec::new();
    let r = Scanner::tokenize("@ 1 + \"abc\n", &mut unexpected);
    assert_eq!(r, Err(ScanError::UnterminatedString));
    assert_eq!(unexpected, vec!['@']);
}

#[test]
fn stray_character_is_reported_and_skipped() {
    let (tokens, unexpected) = scan_ok("@ +");
    assert_eq!(tokens, vec![punct(Punct::Plus, "+"), eof()]);
    assert_eq!(unexpected, vec!['@']);
}

#[test]
fn each_stray_character_is_reported() {
    let (tokens, unexpected) = scan_ok("#1$é");
    assert_eq!(tokens, vec![number("1"), eof()]);
    assert_eq!(unexpected, vec!['#', '$', 'é']);
}

#[test]
fn diagnostics_are_appended_to_the_sink() {
    let mut unexpected = vec!['x'];
    let r = Scanner::tokenize("?", &mut unexpected);
    assert_eq!(r, Ok(vec![eof()]));
    assert_eq!(unexpected, vec!['x', '?']);
}

#[test]
fn small_program() {
    let (tokens, unexpected) = scan_ok("var x = (1 + 2.5) * y;\nprint x >= 3;");
    let kinds: Vec<TokenKind> = tokens.into_iter().map(|t| t.kind).collect();
    assert_eq!(
        kinds,
        vec![
            TokenKind::Keyword(Keyword::Var),
            TokenKind::Identifier,
            TokenKind::Punct(Punct::Equal),
            TokenKind::Punct(Punct::LeftParen),
            TokenKind::Number("1".to_string()),
            TokenKind::Punct(Punct::Plus),
            TokenKind::Number("2.5".to_string()),
            TokenKind::Punct(Punct::RightParen),
            TokenKind::Punct(Punct::Star),
            TokenKind::Identifier,
            TokenKind::Punct(Punct::Semicolon),
            TokenKind::Keyword(Keyword::Print),
            TokenKind::Identifier,
            TokenKind::Punct(Punct::GreaterThanEqual),
            TokenKind::Number("3".to_string()),
            TokenKind::Punct(Punct::Semicolon),
            TokenKind::Eof,
        ]
    );
    assert!(unexpected.is_empty());
}

#[test]
fn tree_walk_runs_the_scanner() {
    let mut walk = TreeWalk::new();
    let mut unexpected = Vec::new();
    let r = walk.run("1 @", &mut unexpected);
    assert_eq!(r, Ok(vec![number("1"), eof()]));
    assert_eq!(unexpected, vec!['@']);
}

#[test]
fn kind_names() {
    assert_eq!(kind_name(&TokenKind::Punct(Punct::LeftParen)), "LEFT_PAREN");
    assert_eq!(kind_name(&TokenKind::Punct(Punct::GreaterThan)), "GREATER");
    assert_eq!(kind_name(&TokenKind::Punct(Punct::LessThanEqual)), "LESS_EQUAL");
    assert_eq!(kind_name(&TokenKind::Keyword(Keyword::Return)), "RETURN");
    assert_eq!(kind_name(&TokenKind::Identifier), "IDENTIFIER");
    assert_eq!(kind_name(&TokenKind::String("x".to_string())), "STRING");
    assert_eq!(kind_name(&TokenKind::Number("1".to_string())), "NUMBER");
    assert_eq!(kind_name(&TokenKind::Eof), "EOF");
}

#[test]
fn token_lines() {
    assert_eq!(token_line(&punct(Punct::BangEqual, "!="), "ignored"), "BANG_EQUAL != null");
    assert_eq!(token_line(&tok(TokenKind::Identifier, "foo"), ""), "IDENTIFIER foo null");
    assert_eq!(
        token_line(&tok(TokenKind::String("hi there".to_string()), "hi there"), ""),
        "STRING \"hi there\" hi there"
    );
    assert_eq!(token_line(&number("123"), "123.0"), "NUMBER 123 123.0");
    assert_eq!(token_line(&eof(), ""), "EOF  null");
}

#[test]
fn lines_are_joined_by_newlines() {
    assert_eq!(join_lines(&vec![]), "");
    assert_eq!(join_lines(&vec!["a".to_string()]), "a");
    assert_eq!(join_lines(&vec!["a".to_string(), "b c".to_string(), "d".to_string()]), "a\nb c\nd");
}

#[test]
fn words_are_classified_whole() {
    let w: Vec<char> = "xwhiley".chars().collect();
    assert_eq!(TokenKind::for_word(&w, 1, 6), TokenKind::Keyword(Keyword::While));
    assert_eq!(TokenKind::for_word(&w, 0, 6), TokenKind::Identifier);
    assert_eq!(TokenKind::for_word(&w, 1, 7), TokenKind::Identifier);
    assert_eq!(TokenKind::for_word(&w, 1, 1), TokenKind::Identifier);
}
