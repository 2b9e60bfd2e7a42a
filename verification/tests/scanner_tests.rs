use cbl::decimal::Decimal;
use cbl::scanner::Scanner;
use cbl::token::Object;
use cbl::token::Token;
use cbl::token::TokenType;

#[test]
fn test_scanner() {
    let mut scanner = Scanner::new("-123");
    let tokens = scanner.scan_tokens();

    let expected = vec![
        Token::new(TokenType::Minus, String::from("-"), Object::Nil, 1),
        Token::new(
            TokenType::Number,
            String::from("123"),
            Object::Number(Decimal::new(123, 0)),
            1,
        ),
        Token::new(TokenType::Eof, String::from(""), Object::Nil, 1),
    ];

    assert_eq!(tokens, expected);
}

#[test]
fn empty_input_scans_to_only_the_eof_token() {
    let mut scanner = Scanner::new("");
    let tokens = scanner.scan_tokens();
    assert_eq!(tokens.len(), 1);
    assert_eq!(tokens[0].type_, TokenType::Eof);
}

#[test]
fn every_scan_ends_with_exactly_one_eof() {
    let sources = [
        "",
        "1 + 2",
        "print \"x\";",
        "var a = 3; @ #",
        "\"unterminated",
        "((((",
        "// only a comment",
    ];
    for src in sources {
        let mut scanner = Scanner::new(src);
        let tokens = scanner.scan_tokens();
        assert!(tokens.len() >= 1);
        assert_eq!(tokens[tokens.len() - 1].type_, TokenType::Eof);
        for t in &tokens[..tokens.len() - 1] {
            assert_ne!(t.type_, TokenType::Eof);
        }
    }
}

#[test]
fn comment_contributes_no_tokens() {
    let mut scanner = Scanner::new("1 // comment\n+ 2");
    let tokens = scanner.scan_tokens();
    let kinds: Vec<TokenType> = tokens.iter().map(|t| t.type_).collect();
    assert_eq!(
        kinds,
        vec![
            TokenType::Number,
            TokenType::Plus,
            TokenType::Number,
            TokenType::Eof
        ]
    );
}

#[test]
fn two_character_operators_take_maximal_munch() {
    let mut scanner = Scanner::new("== = != ! <= < >= >");
    let tokens = scanner.scan_tokens();
    let kinds: Vec<TokenType> = tokens.iter().map(|t| t.type_).collect();
    assert_eq!(
        kinds,
        vec![
            TokenType::EqualEqual,
            TokenType::Equal,
            TokenType::BangEqual,
            TokenType::Bang,
            TokenType::LessEqual,
            TokenType::Less,
            TokenType::GreaterEqual,
            TokenType::Greater,
            TokenType::Eof
        ]
    );
}

#[test]
fn string_literal_carries_its_contents() {
    let mut scanner = Scanner::new("\"chess\"");
    let tokens = scanner.scan_tokens();
    assert_eq!(tokens.len(), 2);
    assert_eq!(tokens[0].type_, TokenType::Str);
    assert_eq!(tokens[0].lexeme, "\"chess\"");
    assert_eq!(tokens[0].literal, Object::Str(String::from("chess")));
}

#[test]
fn fractional_number_scans_to_exact_decimal() {
    let mut scanner = Scanner::new("45.67");
    let tokens = scanner.scan_tokens();
    assert_eq!(tokens[0].type_, TokenType::Number);
    match &tokens[0].literal {
        Object::Number(d) => {
            assert_eq!(d.mantissa(), 4567);
            assert_eq!(d.scale(), 2);
        }
        other => panic!("expected a number literal, got {:?}", other),
    }
}

#[test]
fn trailing_dot_is_not_part_of_the_number() {
    let mut scanner = Scanner::new("123.");
    let tokens = scanner.scan_tokens();
    let kinds: Vec<TokenType> = tokens.iter().map(|t| t.type_).collect();
    assert_eq!(kinds, vec![TokenType::Number, TokenType::Dot, TokenType::Eof]);
}

#[test]
fn keywords_are_recognized() {
    let mut scanner = Scanner::new("and or nil print var while true false whilee");
    let tokens = scanner.scan_tokens();
    let kinds: Vec<TokenType> = tokens.iter().map(|t| t.type_).collect();
    assert_eq!(
        kinds,
        vec![
            TokenType::And,
            TokenType::Or,
            TokenType::Nil,
            TokenType::Print,
            TokenType::Var,
            TokenType::While,
            TokenType::True,
            TokenType::False,
            TokenType::Identifier,
            TokenType::Eof
        ]
    );
}

#[test]
fn newline_advances_the_line_counter() {
    let mut scanner = Scanner::new("1\n2");
    let tokens = scanner.scan_tokens();
    assert_eq!(tokens[0].line, 1);
    assert_eq!(tokens[1].line, 2);
}

#[test]
fn unexpected_character_is_reported_and_skipped() {
    let mut scanner = Scanner::new("1 @ 2");
    let tokens = scanner.scan_tokens();
    let kinds: Vec<TokenType> = tokens.iter().map(|t| t.type_).collect();
    assert_eq!(kinds, vec![TokenType::Number, TokenType::Number, TokenType::Eof]);
    assert_eq!(scanner.diagnostics().len(), 1);
    assert_eq!(scanner.diagnostics()[0], "[line 1] Error: Unexpected character: @.");
}

#[test]
fn unterminated_string_is_reported_and_yields_no_token() {
    let mut scanner = Scanner::new("\"open");
    let tokens = scanner.scan_tokens();
    assert_eq!(tokens.len(), 1);
    assert_eq!(tokens[0].type_, TokenType::Eof);
    assert_eq!(scanner.diagnostics().len(), 1);
    assert_eq!(scanner.diagnostics()[0], "[line 1] Error: Unterminated string.");
}

#[test]
fn oversized_number_literal_is_reported_and_skipped() {
    let mut scanner = Scanner::new("99999999999999999999999999999999999999999");
    let tokens = scanner.scan_tokens();
    assert_eq!(tokens.len(), 1);
    assert_eq!(tokens[0].type_, TokenType::Eof);
    assert_eq!(scanner.diagnostics().len(), 1);
    assert_eq!(scanner.diagnostics()[0], "[line 1] Error: Number literal is out of range.");
}

#[test]
fn string_with_embedded_newline_counts_lines() {
    let mut scanner = Scanner::new("\"a\nb\" 1");
    let tokens = scanner.scan_tokens();
    assert_eq!(tokens[0].type_, TokenType::Str);
    assert_eq!(tokens[0].literal, Object::Str(String::from("a\nb")));
    assert_eq!(tokens[1].line, 2);
}

#[test]
fn comment_at_end_of_input_scans_cleanly() {
    let mut scanner = Scanner::new("1 // trailing");
    let tokens = scanner.scan_tokens();
    let kinds: Vec<TokenType> = tokens.iter().map(|t| t.type_).collect();
    assert_eq!(kinds, vec![TokenType::Number, TokenType::Eof]);
    assert_eq!(scanner.diagnostics().len(), 0);
}
