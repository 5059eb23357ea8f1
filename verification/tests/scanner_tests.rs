use lox_interp::scanner::{ScanError, ScanErrorKind, Scanner};
use lox_interp::token::{Object, Token};
use lox_interp::token_type::TokenType;

fn scan(source: &str) -> Result<Vec<Token>, Vec<ScanError>> {
    Scanner::new().scan_tokens(source.to_string())
}

fn kinds(source: &str) -> Vec<TokenType> {
    scan(source).unwrap().iter().map(|t| t.token_type).collect()
}

fn lexemes(source: &str) -> Vec<String> {
    scan(source).unwrap().iter().map(|t| t.lexeme.clone()).collect()
}

#[test]
fn empty_source_is_only_the_sentinel() {
    let tokens = scan("").unwrap();
    assert_eq!(tokens.len(), 1);
    assert_eq!(tokens[0].token_type, TokenType::Eof);
    assert_eq!(tokens[0].lexeme, "");
    assert_eq!(tokens[0].line, 1);
    assert_eq!(tokens[0].column, 1);
}

#[test]
fn punctuation_and_operators() {
    assert_eq!(
        kinds("(){},.-+;*/"),
        vec![
            TokenType::LeftParen,
            TokenType::RightParen,
            TokenType::LeftBrace,
            TokenType::RightBrace,
            TokenType::Comma,
            TokenType::Dot,
            TokenType::Minus,
            TokenType::Plus,
            TokenType::Semicolon,
            TokenType::Star,
            TokenType::Slash,
            TokenType::Eof
        ]
    );
}

#[test]
fn one_and_two_character_operators() {
    assert_eq!(
        kinds("! != = == < <= > >="),
        vec![
            TokenType::Bang,
            TokenType::BangEqual,
            TokenType::Equal,
            TokenType::EqualEqual,
            TokenType::Less,
            TokenType::LessEqual,
            TokenType::Greater,
            TokenType::GreaterEqual,
            TokenType::Eof
        ]
    );
}

#[test]
fn operator_at_the_very_end_is_a_token() {
    assert_eq!(kinds("!"), vec![TokenType::Bang, TokenType::Eof]);
    assert_eq!(kinds("a="), vec![TokenType::Identifier, TokenType::Equal, TokenType::Eof]);
}

#[test]
fn comment_runs_to_the_end_of_the_line() {
    assert_eq!(
        kinds("1 // two three\n4"),
        vec![TokenType::Number, TokenType::Number, TokenType::Eof]
    );
    assert_eq!(kinds("// only a comment"), vec![TokenType::Eof]);
    let tokens = scan("// c\nx").unwrap();
    assert_eq!(tokens[0].line, 2);
    assert_eq!(tokens[0].column, 1);
}

#[test]
fn keywords_and_identifiers() {
    assert_eq!(
        kinds("and class else false fun for if nil or print return super this true var while"),
        vec![
            TokenType::And,
            TokenType::Class,
            TokenType::Else,
            TokenType::False,
            TokenType::Fun,
            TokenType::For,
            TokenType::If,
            TokenType::Nil,
            TokenType::Or,
            TokenType::Print,
            TokenType::Return,
            TokenType::Super,
            TokenType::This,
            TokenType::True,
            TokenType::Var,
            TokenType::While,
            TokenType::Eof
        ]
    );
    assert_eq!(
        kinds("andy _x x1 While"),
        vec![
            TokenType::Identifier,
            TokenType::Identifier,
            TokenType::Identifier,
            TokenType::Identifier,
            TokenType::Eof
        ]
    );
}

#[test]
fn number_lexemes() {
    assert_eq!(lexemes("12 3.25 7. .5"), vec!["12", "3.25", "7", ".", ".", "5", ""]);
    assert_eq!(
        kinds("7."),
        vec![TokenType::Number, TokenType::Dot, TokenType::Eof]
    );
    assert_eq!(lexemes("1.2.3"), vec!["1.2", ".", "3", ""]);
}

#[test]
fn number_token_carries_no_literal() {
    let tokens = scan("42").unwrap();
    assert!(matches!(tokens[0].literal, Object::NULL));
}

#[test]
fn string_literal_keeps_its_content() {
    let tokens = scan("\"hi there\"").unwrap();
    assert_eq!(tokens[0].token_type, TokenType::String);
    assert_eq!(tokens[0].lexeme, "\"hi there\"");
    match &tokens[0].literal {
        Object::String(s) => assert_eq!(s, "hi there"),
        other => panic!("unexpected literal {:?}", other),
    }
    let empty = scan("\"\"").unwrap();
    match &empty[0].literal {
        Object::String(s) => assert_eq!(s, ""),
        other => panic!("unexpected literal {:?}", other),
    }
}

#[test]
fn string_may_span_lines() {
    let tokens = scan("\"a\nb\" x").unwrap();
    assert_eq!(tokens[0].token_type, TokenType::String);
    assert_eq!(tokens[0].line, 2);
    assert_eq!(tokens[0].column, 1);
    assert_eq!(tokens[1].line, 2);
    assert_eq!(tokens[1].column, 4);
    assert_eq!(tokens[2].token_type, TokenType::Eof);
}

#[test]
fn lines_and_columns() {
    let tokens = scan("var a = 1;\n  print a;").unwrap();
    let places: Vec<(usize, usize)> = tokens.iter().map(|t| (t.line, t.column)).collect();
    assert_eq!(
        places,
        vec![(1, 1), (1, 5), (1, 7), (1, 9), (1, 10), (2, 3), (2, 9), (2, 10), (2, 11)]
    );
}

#[test]
fn carriage_return_and_tab_are_blank() {
    assert_eq!(kinds("a\r\n\tb"), vec![TokenType::Identifier, TokenType::Identifier, TokenType::Eof]);
}

#[test]
fn unterminated_string_is_an_error() {
    let errors = scan("x = \"abc\ndef").unwrap_err();
    assert_eq!(
        errors,
        vec![ScanError { kind: ScanErrorKind::UnterminatedString, line: 1, column: 5 }]
    );
}

#[test]
fn every_unexpected_character_is_reported() {
    let errors = scan("a @ b\n # c").unwrap_err();
    assert_eq!(
        errors,
        vec![
            ScanError { kind: ScanErrorKind::UnexpectedCharacter, line: 1, column: 3 },
            ScanError { kind: ScanErrorKind::UnexpectedCharacter, line: 2, column: 2 }
        ]
    );
}

#[test]
fn non_ascii_character_is_unexpected() {
    let errors = scan("é").unwrap_err();
    assert_eq!(errors.len(), 1);
    assert_eq!(errors[0].kind, ScanErrorKind::UnexpectedCharacter);
    let tokens = scan("\"é\" x").unwrap();
    assert_eq!(tokens[1].column, 5);
}

#[test]
fn is_alpha_and_is_alpha_numeric() {
    assert!(Scanner::is_alpha('a'));
    assert!(Scanner::is_alpha('Z'));
    assert!(Scanner::is_alpha('_'));
    assert!(!Scanner::is_alpha('1'));
    assert!(!Scanner::is_alpha('-'));
    assert!(Scanner::is_alpha_numeric('a'));
    assert!(Scanner::is_alpha_numeric('0'));
    assert!(Scanner::is_alpha_numeric('9'));
    assert!(!Scanner::is_alpha_numeric(' '));
}
