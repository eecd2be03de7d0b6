use ordsprak::scanner::Scanner;
use ordsprak::token::Token;
use ordsprak::token::TokenType;

#[test]
fn keywords_spell_their_tokens() {
    let spara = Token::from_string("spara").expect("token");
    assert!(matches!(spara.token_type, TokenType::Spara));
    assert_eq!(spara.content, "spara");
    assert_eq!(spara.length, 5);

    let skriv = Token::from_string("Skriv").expect("token");
    assert!(matches!(skriv.token_type, TokenType::Skriv));
    assert_eq!(skriv.content, "Skriv");

    assert!(matches!(
        Token::from_string("i").expect("token").token_type,
        TokenType::I
    ));
    assert!(matches!(
        Token::from_string("I").expect("token").token_type,
        TokenType::I
    ));
    assert!(matches!(
        Token::from_string(".").expect("token").token_type,
        TokenType::Dot
    ));
}

#[test]
fn double_quoted_text_spells_a_string_literal_token() {
    let t = Token::from_string("\"hej\"").expect("token");
    assert!(matches!(t.token_type, TokenType::StringLiteral));
    assert_eq!(t.content, "\"hej\"");
    assert_eq!(t.length, 5);
}

#[test]
fn single_quoted_text_spells_an_identifier_token() {
    let t = Token::from_string("'x'").expect("token");
    assert!(matches!(t.token_type, TokenType::Identifier));
    assert_eq!(t.content, "'x'");
    assert_eq!(t.length, 3);
}

#[test]
fn unquoted_or_unterminated_text_spells_no_token() {
    assert!(Token::from_string("hej").is_none());
    assert!(Token::from_string("\"hej").is_none());
    assert!(Token::from_string("hej\"").is_none());
    assert!(Token::from_string("'x").is_none());
    assert!(Token::from_string("").is_none());
}

#[test]
fn newline_inside_quotes_spells_no_token() {
    // The literal shape admits any character between the quotes but a
    // newline.
    assert!(Token::from_string("\"a\nb\"").is_none());
    assert!(Token::from_string("\"a b\"").is_some());
}

#[test]
fn a_lone_quote_pair_is_a_string_literal() {
    let t = Token::from_string("\"\"").expect("token");
    assert!(matches!(t.token_type, TokenType::StringLiteral));
    assert_eq!(t.length, 2);
}

#[test]
fn scan_collects_tokens_in_order() {
    let mut scanner = Scanner::new("spara . skriv");
    scanner.scan().expect("scan succeeds");
    let kinds: Vec<&TokenType> = scanner.tokens().iter().map(|t| &t.token_type).collect();
    assert_eq!(kinds.len(), 3);
    assert!(matches!(kinds[0], TokenType::Spara));
    assert!(matches!(kinds[1], TokenType::Dot));
    assert!(matches!(kinds[2], TokenType::Skriv));
}

#[test]
fn scan_takes_the_first_token_it_can() {
    // The letter of the shortest keyword is taken as soon as it is seen, so
    // a longer word beginning with it never forms.
    let mut scanner = Scanner::new("if");
    scanner.scan().expect("scan succeeds");
    let tokens = scanner.tokens();
    assert_eq!(tokens.len(), 1);
    assert!(matches!(tokens[0].token_type, TokenType::I));
}

#[test]
fn scan_trims_whitespace_around_pieces() {
    let mut scanner = Scanner::new("  spara  ");
    scanner.scan().expect("scan succeeds");
    let tokens = scanner.tokens();
    assert_eq!(tokens.len(), 1);
    assert!(matches!(tokens[0].token_type, TokenType::Spara));
    assert_eq!(tokens[0].content, "spara");
}

#[test]
fn scan_of_empty_source_finds_nothing() {
    let mut scanner = Scanner::new("");
    scanner.scan().expect("scan succeeds");
    assert!(scanner.tokens().is_empty());
}
