use lox_front::{Scanner, Token, TokenType};

fn scan_all(src: &str) -> Scanner {
    let program = src.to_string();
    let mut scanner = Scanner::new(&program).unwrap();
    scanner.scan_tokens();
    scanner
}

fn kinds(tokens: &[Token]) -> Vec<TokenType> {
    tokens.iter().map(|t| t.ttype.clone()).collect()
}

#[test]
fn punctuation_and_operators() {
    let scanner = scan_all("(){},.-+;*! != = == < <= > >= /");
    assert_eq!(
        kinds(scanner.get_tokens()),
        vec![
            TokenType::LeftParen,
            TokenType::RightParen,
            TokenType::LeftBrace,
            TokenType::RightBrace,
            TokenType::Comma,
            TokenType::Dot,
            TokenType::Minus,
            TokenType::Plus,
            TokenType::Semicolon,
            TokenType::Star,
            TokenType::Bang,
            TokenType::BangEqual,
            TokenType::Equal,
            TokenType::EqualEqual,
            TokenType::Less,
            TokenType::LessEqual,
            TokenType::Greater,
            TokenType::GreaterEqual,
            TokenType::Slash,
            TokenType::Eof,
        ]
    );
    let lexemes: Vec<String> = scanner.get_tokens().iter().map(|t| t.lexeme.clone()).collect();
    assert_eq!(lexemes[11], "!=");
    assert_eq!(lexemes[19], "");
    assert_eq!(scanner.get_errors().len(), 0);
}

#[test]
fn numbers_strings_comments_and_lines() {
    let scanner = scan_all("12.5 // note\n\"hi\nthere\" 7.");
    let tokens = scanner.get_tokens();
    assert_eq!(tokens[0].ttype, TokenType::Number("12.5".to_string()));
    assert_eq!(tokens[0].line, 1);
    assert_eq!(tokens[1].ttype, TokenType::String("hi\nthere".to_string()));
    assert_eq!(tokens[1].lexeme, "\"hi\nthere\"");
    assert_eq!(tokens[1].line, 3);
    assert_eq!(tokens[2].ttype, TokenType::Number("7".to_string()));
    assert_eq!(tokens[3].ttype, TokenType::Dot);
    assert_eq!(tokens[4].ttype, TokenType::Eof);
    assert_eq!(tokens[4].line, 3);
}

#[test]
fn scanner_diagnostics() {
    let scanner = scan_all("1 # 2\n\"open");
    assert_eq!(
        scanner.get_errors().report(),
        vec!["1: Unexpected character.".to_string(), "Unterminated string.".to_string()]
    );
    assert_eq!(scanner.get_tokens().last().unwrap().ttype, TokenType::Eof);
    let program = "ünïcode".to_string();
    let err = Scanner::new(&program).err().unwrap();
    assert_eq!(err.report_msg(), "Program should be in ascii");
}

#[test]
fn empty_program_is_just_the_end_marker() {
    let scanner = scan_all("");
    assert_eq!(kinds(scanner.get_tokens()), vec![TokenType::Eof]);
    assert!(scanner.is_at_end());
}

#[test]
fn token_kind_symbols_and_keywords() {
    assert_eq!(TokenType::LessEqual.to_stringslice(), "<=");
    assert_eq!(TokenType::While.to_stringslice(), "while");
    assert_eq!(TokenType::to_keyword("class"), Some(TokenType::Class));
    assert_eq!(TokenType::to_keyword("print"), Some(TokenType::Print));
    assert_eq!(TokenType::to_keyword("eof"), None);
    assert_eq!(TokenType::to_keyword("banana"), None);
    assert!(TokenType::Number("1".to_string()).same_kind_as(&TokenType::Number("2".to_string())));
    assert!(!TokenType::Plus.same_kind_as(&TokenType::Minus));
}
