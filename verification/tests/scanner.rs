//! The scanner: kinds, texts and lines of tokens.

use lox::scanner::{ScanError, Scanner};
use lox::token::{LiteralValue, Token, TokenType};

fn scan(source: &str) -> Result<Vec<Token>, Vec<ScanError>> {
    Scanner::new(source.chars().collect()).scan_tokens()
}

/// Each token as `KIND lexeme line`, the end of the input as `Eof  line`.
fn listed(source: &str) -> Vec<String> {
    scan(source)
        .expect("a source without errors")
        .iter()
        .map(|t| format!("{:?} {} {}", t.token_type, t.lexeme, t.line))
        .collect()
}

fn kinds(source: &str) -> Vec<TokenType> {
    scan(source).expect("a source without errors").iter().map(|t| t.token_type).collect()
}

fn errors(source: &str) -> Vec<String> {
    match scan(source) {
        Ok(tokens) => panic!("{:?} gives {:?}", source, tokens),
        Err(errors) => errors.iter().map(|e| format!("{}: {}", e.line, e.message)).collect(),
    }
}

#[test]
fn an_empty_source_ends_at_once() {
    assert_eq!(listed(""), vec!["Eof  1"]);
    assert_eq!(listed("  \t\r "), vec!["Eof  1"]);
    assert_eq!(listed("\n\n"), vec!["Eof  3"]);
}

#[test]
fn punctuation_and_operators() {
    assert_eq!(
        kinds("(){},.-+;/*"),
        vec![
            TokenType::LeftParen,
            TokenType::RightParen,
            TokenType::LeftBrace,
            TokenType::RightBrace,
            TokenType::Comma,
            TokenType::Dot,
            TokenType::Minus,
            TokenType::Plus,
            TokenType::Semicolon,
            TokenType::Slash,
            TokenType::Star,
            TokenType::Eof
        ]
    );
    assert_eq!(
        listed("! != = == > >= < <="),
        vec![
            "Bang ! 1",
            "BangEqual != 1",
            "Equal = 1",
            "EqualEqual == 1",
            "Greater > 1",
            "GreaterEqual >= 1",
            "Less < 1",
            "LessEqual <= 1",
            "Eof  1"
        ]
    );
    assert_eq!(listed("==="), vec!["EqualEqual == 1", "Equal = 1", "Eof  1"]);
    assert_eq!(listed("!!="), vec!["Bang ! 1", "BangEqual != 1", "Eof  1"]);
    assert_eq!(listed("<=>"), vec!["LessEqual <= 1", "Greater > 1", "Eof  1"]);
    assert_eq!(listed("="), vec!["Equal = 1", "Eof  1"]);
    assert_eq!(listed("/"), vec!["Slash / 1", "Eof  1"]);
}

#[test]
fn keywords_and_names() {
    let words = [
        ("and", TokenType::And),
        ("class", TokenType::Class),
        ("else", TokenType::Else),
        ("false", TokenType::False),
        ("for", TokenType::For),
        ("fun", TokenType::Fun),
        ("if", TokenType::If),
        ("nil", TokenType::Nil),
        ("or", TokenType::Or),
        ("print", TokenType::Print),
        ("return", TokenType::Return),
        ("super", TokenType::Super),
        ("this", TokenType::This),
        ("true", TokenType::True),
        ("var", TokenType::Var),
        ("while", TokenType::While),
    ];
    for (word, kind) in words {
        assert_eq!(kinds(word), vec![kind, TokenType::Eof]);
        assert_eq!(kinds(&format!("{}s", word)), vec![TokenType::Identifier, TokenType::Eof]);
        assert_eq!(kinds(&format!("_{}", word)), vec![TokenType::Identifier, TokenType::Eof]);
        assert_eq!(kinds(&word.to_uppercase()), vec![TokenType::Identifier, TokenType::Eof]);
    }
    assert_eq!(
        listed("orchid _x a1_b2 Zed nil9"),
        vec!["Identifier orchid 1", "Identifier _x 1", "Identifier a1_b2 1", "Identifier Zed 1", "Identifier nil9 1", "Eof  1"]
    );
    assert_eq!(listed("a.b"), vec!["Identifier a 1", "Dot . 1", "Identifier b 1", "Eof  1"]);
}

#[test]
fn numerals() {
    assert_eq!(listed("0 42 3.25 007"), vec!["Number 0 1", "Number 42 1", "Number 3.25 1", "Number 007 1", "Eof  1"]);
    assert_eq!(listed("1."), vec!["Number 1 1", "Dot . 1", "Eof  1"]);
    assert_eq!(listed(".5"), vec!["Dot . 1", "Number 5 1", "Eof  1"]);
    assert_eq!(listed("1.2.3"), vec!["Number 1.2 1", "Dot . 1", "Number 3 1", "Eof  1"]);
    assert_eq!(listed("1.x"), vec!["Number 1 1", "Dot . 1", "Identifier x 1", "Eof  1"]);
    assert_eq!(listed("12abc"), vec!["Number 12 1", "Identifier abc 1", "Eof  1"]);
    assert_eq!(listed("-7"), vec!["Minus - 1", "Number 7 1", "Eof  1"]);
    let tokens = scan("1.5").unwrap();
    assert!(tokens[0].literal.is_none());
}

#[test]
fn strings_keep_their_text() {
    let tokens = scan("\"hello world\" \"\" \"a\nb\"").unwrap();
    assert_eq!(tokens.len(), 4);
    assert_eq!(tokens[0].token_type, TokenType::String);
    assert_eq!(tokens[0].lexeme, "\"hello world\"");
    assert!(matches!(&tokens[0].literal, Some(LiteralValue::String(s)) if s == "hello world"));
    assert_eq!(tokens[0].line, 1);
    assert_eq!(tokens[1].lexeme, "\"\"");
    assert!(matches!(&tokens[1].literal, Some(LiteralValue::String(s)) if s.is_empty()));
    assert_eq!(tokens[2].lexeme, "\"a\nb\"");
    assert!(matches!(&tokens[2].literal, Some(LiteralValue::String(s)) if s == "a\nb"));
    assert_eq!(tokens[2].line, 2);
    assert_eq!(tokens[3].token_type, TokenType::Eof);
    assert_eq!(tokens[3].line, 2);
    let tokens = scan("\"é//ü\"x").unwrap();
    assert!(matches!(&tokens[0].literal, Some(LiteralValue::String(s)) if s == "é//ü"));
    assert_eq!(tokens[1].lexeme, "x");
}

#[test]
fn comments_run_to_the_end_of_the_line() {
    assert_eq!(listed("// nothing"), vec!["Eof  1"]);
    assert_eq!(listed("//"), vec!["Eof  1"]);
    assert_eq!(listed("a // b c\nd"), vec!["Identifier a 1", "Identifier d 2", "Eof  2"]);
    assert_eq!(listed("a / b // c"), vec!["Identifier a 1", "Slash / 1", "Identifier b 1", "Eof  1"]);
    assert_eq!(listed("// \"open\nx"), vec!["Identifier x 2", "Eof  2"]);
    assert_eq!(listed("1 /// 2\n3"), vec!["Number 1 1", "Number 3 2", "Eof  2"]);
}

#[test]
fn lines_are_counted() {
    assert_eq!(
        listed("var a\n=\n\n1;\n"),
        vec!["Var var 1", "Identifier a 1", "Equal = 2", "Number 1 4", "Semicolon ; 4", "Eof  5"]
    );
    assert_eq!(listed("\r\n\r\nx"), vec!["Identifier x 3", "Eof  3"]);
    assert_eq!(listed("\"a\n\n\" b"), vec!["String \"a\n\n\" 3", "Identifier b 3", "Eof  3"]);
}

#[test]
fn an_open_string_is_an_error() {
    assert_eq!(errors("\"open"), vec!["1: Unterminated string."]);
    assert_eq!(errors("a \"open\n\nstill open"), vec!["3: Unterminated string."]);
    assert_eq!(errors("\""), vec!["1: Unterminated string."]);
    assert_eq!(errors("\"closed\" \"open"), vec!["1: Unterminated string."]);
}

#[test]
fn an_unknown_character_is_an_error() {
    assert_eq!(errors("@"), vec!["1: Unexpected character."]);
    assert_eq!(errors("a # b\n$ c"), vec!["1: Unexpected character.", "2: Unexpected character."]);
    assert_eq!(errors("var é = 1;"), vec!["1: Unexpected character."]);
    assert_eq!(errors("a & b \"open"), vec!["1: Unexpected character.", "1: Unterminated string."]);
    assert_eq!(errors("[1]"), vec!["1: Unexpected character.", "1: Unexpected character."]);
}

#[test]
fn a_program_is_cut_into_its_tokens() {
    assert_eq!(
        listed("fun add(a, b) {\n  return a + b; // sum\n}\nprint add(1, 2.5) >= 3 and !false;"),
        vec![
            "Fun fun 1",
            "Identifier add 1",
            "LeftParen ( 1",
            "Identifier a 1",
            "Comma , 1",
            "Identifier b 1",
            "RightParen ) 1",
            "LeftBrace { 1",
            "Return return 2",
            "Identifier a 2",
            "Plus + 2",
            "Identifier b 2",
            "Semicolon ; 2",
            "RightBrace } 3",
            "Print print 4",
            "Identifier add 4",
            "LeftParen ( 4",
            "Number 1 4",
            "Comma , 4",
            "Number 2.5 4",
            "RightParen ) 4",
            "GreaterEqual >= 4",
            "Number 3 4",
            "And and 4",
            "Bang ! 4",
            "False false 4",
            "Semicolon ; 4",
            "Eof  4"
        ]
    );
}

#[test]
fn only_the_last_token_ends_the_input() {
    for source in ["", "a", "1 + 2;\n// c", "\"s\"\n\n", "var x = nil;"] {
        let tokens = scan(source).unwrap();
        let (last, before) = tokens.split_last().unwrap();
        assert_eq!(last.token_type, TokenType::Eof);
        assert_eq!(last.lexeme, "");
        assert!(last.literal.is_none());
        assert!(before.iter().all(|t| t.token_type != TokenType::Eof));
    }
}
