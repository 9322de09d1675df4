//! The parser: trees, errors and recovery.

use lox::ast_printer::{AstPrinter, Fragment};
use lox::error::ErrorReporter;
use lox::expr::Expr;
use lox::parser::{desugar_for, ParseError, Parser};
use lox::scanner::Scanner;
use lox::stmt::Stmt;
use lox::token::{LiteralValue, Token, TokenType};

fn scan(source: &str) -> Vec<Token> {
    let mut tokens = Scanner::new(source.chars().collect()).scan_tokens().expect("a source without errors");
    for token in tokens.iter_mut() {
        if token.token_type == TokenType::Number {
            let number: f64 = token.lexeme.parse().unwrap();
            token.literal = Some(LiteralValue::Number(number.to_bits()));
        }
    }
    tokens
}

fn show(expr: &Expr) -> String {
    let mut text = String::new();
    for fragment in AstPrinter::new().print(expr) {
        match fragment {
            Fragment::Text(t) => text.push_str(&t),
            Fragment::Number(bits) => text.push_str(&f64::from_bits(bits).to_string()),
        }
    }
    text
}

fn show_all(statements: &[Stmt]) -> String {
    let parts: Vec<String> = statements.iter().map(show_stmt).collect();
    parts.join(" ")
}

fn show_stmt(statement: &Stmt) -> String {
    match statement {
        Stmt::Expression { expression } => format!("{};", show(expression)),
        Stmt::Print { expression } => format!("print {};", show(expression)),
        Stmt::Var { name, initializer: Some(e) } => format!("var {} = {};", name.lexeme, show(e)),
        Stmt::Var { name, initializer: None } => format!("var {};", name.lexeme),
        Stmt::Block { statements } => format!("{{ {} }}", show_all(statements)),
        Stmt::If { condition, then_branch, else_branch: Some(e) } => {
            format!("if {} {} else {}", show(condition), show_stmt(then_branch), show_stmt(e))
        }
        Stmt::If { condition, then_branch, else_branch: None } => {
            format!("if {} {}", show(condition), show_stmt(then_branch))
        }
        Stmt::While { condition, body } => format!("while {} {}", show(condition), show_stmt(body)),
        Stmt::Function { name, params, body } => {
            let names: Vec<&str> = params.iter().map(|p| p.lexeme.as_str()).collect();
            format!("fun {}({}) {{ {} }}", name.lexeme, names.join(", "), show_all(body))
        }
        Stmt::Return { value: Some(e), .. } => format!("return {};", show(e)),
        Stmt::Return { value: None, .. } => String::from("return;"),
    }
}

/// The statements of `source` in print, and every error reported, each as `line: message`.
fn parse(source: &str) -> (Option<String>, Vec<String>, bool) {
    let mut parser = Parser::new(scan(source));
    let mut reporter = ErrorReporter::new();
    let statements = parser.parse(&mut reporter);
    let had_error = reporter.had_error();
    let errors = reporter
        .take_diagnostics()
        .iter()
        .map(|d| {
            assert_eq!(d.location, "");
            format!("{}: {}", d.line, d.message)
        })
        .collect();
    (statements.map(|s| show_all(&s)), errors, had_error)
}

fn parsed(source: &str) -> String {
    let (statements, errors, had_error) = parse(source);
    assert!(errors.is_empty(), "{:?} gives {:?}", source, errors);
    assert!(!had_error);
    statements.expect("statements")
}

fn expression(source: &str) -> String {
    let text = parsed(&format!("{};", source));
    text.strip_suffix(';').unwrap().to_string()
}

#[test]
fn binary_operators_bind_by_precedence() {
    assert_eq!(expression("1 + 2 * 3"), "(+ 1 (* 2 3))");
    assert_eq!(expression("1 * 2 + 3"), "(+ (* 1 2) 3)");
    assert_eq!(expression("1 + 2 == 4 - 3"), "(== (+ 1 2) (- 4 3))");
    assert_eq!(expression("1 < 2 == 3 >= 4"), "(== (< 1 2) (>= 3 4))");
    assert_eq!(expression("a or b and c"), "(or a (and b c))");
    assert_eq!(expression("a and b or c"), "(or (and a b) c)");
    assert_eq!(expression("a == b and c != d"), "(and (== a b) (!= c d))");
    assert_eq!(expression("!a == -b"), "(== (! a) (- b))");
    assert_eq!(expression("-1.5 * (45.67)"), "(* (- 1.5) (group 45.67))");
    assert_eq!(expression("1 <= 2 > 3"), "(> (<= 1 2) 3)");
}

#[test]
fn binary_operators_associate_to_the_left() {
    assert_eq!(expression("1 - 2 - 3"), "(- (- 1 2) 3)");
    assert_eq!(expression("8 / 4 / 2 * 3"), "(* (/ (/ 8 4) 2) 3)");
    assert_eq!(expression("a or b or c"), "(or (or a b) c)");
    assert_eq!(expression("a and b and c"), "(and (and a b) c)");
    assert_eq!(expression("1 == 2 != 3"), "(!= (== 1 2) 3)");
    assert_eq!(expression("1 + 2 - 3 + 4"), "(+ (- (+ 1 2) 3) 4)");
}

#[test]
fn assignment_associates_to_the_right() {
    assert_eq!(expression("a = b = 1"), "(= a (= b 1))");
    assert_eq!(expression("a = b or c"), "(= a (or b c))");
    assert_eq!(expression("a = 1 + 2"), "(= a (+ 1 2))");
}

#[test]
fn unary_operators_nest() {
    assert_eq!(expression("!!a"), "(! (! a))");
    assert_eq!(expression("-!-a"), "(- (! (- a)))");
    assert_eq!(expression("-a(1)"), "(- (call a 1))");
}

#[test]
fn primaries() {
    assert_eq!(expression("true"), "true");
    assert_eq!(expression("false"), "false");
    assert_eq!(expression("nil"), "nil");
    assert_eq!(expression("12"), "12");
    assert_eq!(expression("\"text\""), "text");
    assert_eq!(expression("name"), "name");
    assert_eq!(expression("((1))"), "(group (group 1))");
}

#[test]
fn calls_take_argument_groups() {
    assert_eq!(expression("f()"), "(call f)");
    assert_eq!(expression("f(1)"), "(call f 1)");
    assert_eq!(expression("f(1, a + 2, g(3))"), "(call f 1 (+ a 2) (call g 3))");
    assert_eq!(expression("f(a)(b)"), "(call (call f a) b)");
    assert_eq!(expression("f()()()"), "(call (call (call f)))");
    assert_eq!(expression("(f)(x = 1)"), "(call (group f) (= x 1))");
}

#[test]
fn a_call_keeps_its_closing_parenthesis() {
    let mut parser = Parser::new(scan("f(1,\n2\n);"));
    let mut reporter = ErrorReporter::new();
    let statements = parser.parse(&mut reporter).unwrap();
    match &statements[0] {
        Stmt::Expression { expression } => match &**expression {
            Expr::Call { paren, arguments, .. } => {
                assert_eq!(paren.token_type, TokenType::RightParen);
                assert_eq!(paren.line, 3);
                assert_eq!(arguments.len(), 2);
            }
            other => panic!("parsed {:?}", other),
        },
        other => panic!("parsed {:?}", other),
    }
}

#[test]
fn statements() {
    assert_eq!(parsed("print 1 + 2;"), "print (+ 1 2);");
    assert_eq!(parsed("var a = 5;"), "var a = 5;");
    assert_eq!(parsed("var a;"), "var a;");
    assert_eq!(parsed("1 + 2;2+3;"), "(+ 1 2); (+ 2 3);");
    assert_eq!(parsed("{ var a = 1; print a; }"), "{ var a = 1; print a; }");
    assert_eq!(parsed("{}"), "{  }");
    assert_eq!(parsed("{ { } }"), "{ {  } }");
    assert_eq!(parsed("if (true) print \"hello\";"), "if true print hello;");
    assert_eq!(parsed("if (a) b; else c;"), "if a b; else c;");
    assert_eq!(parsed("if (a) if (b) c; else d;"), "if a if b c; else d;");
    assert_eq!(parsed("while (false) print \"never\";"), "while false print never;");
    assert_eq!(parsed("while (a < 3) { a = a + 1; }"), "while (< a 3) { (= a (+ a 1)); }");
    assert_eq!(parsed("return;"), "return;");
    assert_eq!(parsed("return a + 1;"), "return (+ a 1);");
}

#[test]
fn function_declarations() {
    assert_eq!(parsed("fun f() {}"), "fun f() {  }");
    assert_eq!(parsed("fun f(a) { return a; }"), "fun f(a) { return a; }");
    assert_eq!(parsed("fun add(a, b, c) { print a + b + c; }"), "fun add(a, b, c) { print (+ (+ a b) c); }");
    assert_eq!(
        parsed("fun outer() { fun inner() { return 1; } return inner; }"),
        "fun outer() { fun inner() { return 1; } return inner; }"
    );
}

#[test]
fn for_is_read_as_a_while_loop() {
    assert_eq!(
        parsed("for (var i = 0; i < 3; i = i + 1) print i;"),
        "{ var i = 0; while (< i 3) { print i; (= i (+ i 1)); } }"
    );
    assert_eq!(
        parsed("for (var i = 0; i < 3; i = i + 1) print i;"),
        parsed("{ var i = 0; while (i < 3) { print i; i = i + 1; } }")
    );
    assert_eq!(parsed("for (i = 0; i < 3;) print i;"), "{ (= i 0); while (< i 3) print i; }");
    assert_eq!(parsed("for (; i < 3; i = i + 1) print i;"), "while (< i 3) { print i; (= i (+ i 1)); }");
    assert_eq!(parsed("for (;;) print i;"), "while true print i;");
    assert_eq!(parsed("for (;; i = 1) {}"), "while true { {  } (= i 1); }");
    assert_eq!(parsed("for (var i;;) {}"), "{ var i; while true {  } }");
}

#[test]
fn desugaring_builds_the_loop() {
    let body = || Stmt::print(Expr::variable(Token::new(TokenType::Identifier, "i".to_string(), None, 1)));
    let name = || Expr::variable(Token::new(TokenType::Identifier, "c".to_string(), None, 1));
    let init = || Stmt::var(Token::new(TokenType::Identifier, "i".to_string(), None, 1), None);
    assert_eq!(show_stmt(&desugar_for(None, None, None, body())), "while true print i;");
    assert_eq!(show_stmt(&desugar_for(None, Some(name()), None, body())), "while c print i;");
    assert_eq!(show_stmt(&desugar_for(None, None, Some(name()), body())), "while true { print i; c; }");
    assert_eq!(show_stmt(&desugar_for(Some(init()), None, None, body())), "{ var i; while true print i; }");
    assert_eq!(
        show_stmt(&desugar_for(Some(init()), Some(name()), Some(name()), body())),
        "{ var i; while c { print i; c; } }"
    );
}

#[test]
fn an_empty_input_has_no_statements() {
    assert_eq!(parse(""), (None, vec![], false));
    assert_eq!(parse("// nothing\n"), (None, vec![], false));
}

fn first_error(source: &str) -> String {
    let (_, errors, had_error) = parse(source);
    assert!(had_error);
    errors[0].clone()
}

#[test]
fn errors_name_the_token_and_the_line() {
    assert_eq!(parse("var;"), (None, vec!["1: Expect variable name. at ';'".to_string()], true));
    assert_eq!(parse("print"), (None, vec!["1: Expect expression. at end".to_string()], true));
    assert_eq!(parse("\n\nprint 1"), (None, vec!["3: Expect ';' after expression. at end".to_string()], true));
    assert_eq!(parse("1 +;"), (None, vec!["1: Expect expression. at ';'".to_string()], true));
    assert_eq!(parse("1 2;"), (None, vec!["1: Expect ';' after value. at '2'".to_string()], true));
    assert_eq!(parse("(1;"), (None, vec!["1: Expect ')' after expression. at ';'".to_string()], true));
    assert_eq!(parse("var a = 1"), (None, vec!["1: Expect ';' after variable declaration. at end".to_string()], true));
    assert_eq!(parse("{ print 1;"), (None, vec!["1: Expect '}' after block. at end".to_string()], true));
    assert_eq!(parse("return 1"), (None, vec!["1: Expect ';' after return value. at end".to_string()], true));
    assert_eq!(parse("f(1;"), (None, vec!["1: Expect ')' after arguments. at ';'".to_string()], true));
    assert_eq!(first_error("if true) 1;"), "1: Expect '(' after 'if'. at 'true'");
    assert_eq!(first_error("if (true 1;"), "1: Expect ')' after if condition. at '1'");
    assert_eq!(first_error("while true) 1;"), "1: Expect '(' after 'while'. at 'true'");
    assert_eq!(first_error("while (true 1;"), "1: Expect ')' after while condition. at '1'");
    assert_eq!(first_error("for var i;;) 1;"), "1: Expect '(' after 'for'. at 'var'");
    assert_eq!(first_error("for (;1 2;) 1;"), "1: Expect ';' after loop condition. at '2'");
    assert_eq!(first_error("for (;;1 2) 1;"), "1: Expect ')' after for clauses. at '2'");
    assert_eq!(first_error("fun (a) {}"), "1: Expect function name. at '('");
    assert_eq!(first_error("fun f a) {}"), "1: Expect '(' after function name. at 'a'");
    assert_eq!(first_error("fun f(1) {}"), "1: Expect parameter name. at '1'");
    assert_eq!(first_error("fun f(a,) {}"), "1: Expect parameter name. at ')'");
    assert_eq!(first_error("fun f(a b) {}"), "1: Expect ')' after parameters. at 'b'");
    assert_eq!(first_error("fun f(a) 1;"), "1: Expect '{' before function body. at '1'");
    assert_eq!(first_error("f(1,);"), "1: Expect expression. at ')'");
    assert_eq!(first_error("print 1;\nprint (2;\nprint 3;"), "2: Expect ')' after expression. at ';'");
}

#[test]
fn parsing_resumes_behind_an_error() {
    assert_eq!(
        parse("print 1; var; print 2;"),
        (Some("print 1; print 2;".to_string()), vec!["1: Expect variable name. at ';'".to_string()], true)
    );
    assert_eq!(
        parse("var = 1 + 2 print 3;\nvar b = 2;"),
        (Some("print 3; var b = 2;".to_string()), vec!["1: Expect variable name. at '='".to_string()], true)
    );
    assert_eq!(
        parse("var = 1 + 2;\nvar b = 2;"),
        (Some("var b = 2;".to_string()), vec!["1: Expect variable name. at '='".to_string()], true)
    );
    assert_eq!(
        parse("for var i;;) 1;"),
        (
            None,
            vec![
                "1: Expect '(' after 'for'. at 'var'".to_string(),
                "1: Expect expression. at ';'".to_string(),
                "1: Expect expression. at ')'".to_string()
            ],
            true
        )
    );
    assert_eq!(
        parse("1 + ; 2 + ;\n3;"),
        (
            Some("3;".to_string()),
            vec!["1: Expect expression. at ';'".to_string(), "1: Expect expression. at ';'".to_string()],
            true
        )
    );
    assert_eq!(
        parse("(1 2 3 4 if (a) b;"),
        (Some("if a b;".to_string()), vec!["1: Expect ')' after expression. at '2'".to_string()], true)
    );
    assert_eq!(
        parse("{ var; } print 1;"),
        (
            Some("print 1;".to_string()),
            vec!["1: Expect variable name. at ';'".to_string(), "1: Expect expression. at '}'".to_string()],
            true
        )
    );
    for word in ["class", "fun", "var", "for", "if", "while", "print", "return"] {
        let (_, errors, _) = parse(&format!("+ 1 2 {} 3 4;", word));
        assert_eq!(errors[0], "1: Expect expression. at '+'");
    }
    assert_eq!(
        parse("+ 1 2 print 3;"),
        (Some("print 3;".to_string()), vec!["1: Expect expression. at '+'".to_string()], true)
    );
    assert_eq!(
        parse("+ 1 2 var a;"),
        (Some("var a;".to_string()), vec!["1: Expect expression. at '+'".to_string()], true)
    );
}

#[test]
fn a_wrong_assignment_target_is_reported_and_parsing_goes_on() {
    assert_eq!(
        parse("1 = 2;"),
        (Some("1;".to_string()), vec!["1: Invalid assignment target. at '='".to_string()], true)
    );
    assert_eq!(
        parse("a + b = c; print 1;"),
        (Some("(+ a b); print 1;".to_string()), vec!["1: Invalid assignment target. at '='".to_string()], true)
    );
    assert_eq!(
        parse("(a) = 1;\nf() = 2;\nx = 3;"),
        (
            Some("(group a); (call f); (= x 3);".to_string()),
            vec![
                "1: Invalid assignment target. at '='".to_string(),
                "2: Invalid assignment target. at '='".to_string()
            ],
            true
        )
    );
    assert_eq!(
        parse("1 = 2 = 3;"),
        (
            Some("1;".to_string()),
            vec![
                "1: Invalid assignment target. at '='".to_string(),
                "1: Invalid assignment target. at '='".to_string()
            ],
            true
        )
    );
    assert_eq!(
        parse("1 = 2 print 3; 4;"),
        (
            Some("4;".to_string()),
            vec![
                "1: Invalid assignment target. at '='".to_string(),
                "1: Expect ';' after value. at 'print'".to_string()
            ],
            true
        )
    );
}

#[test]
fn an_end_of_input_inside_the_list_ends_the_parse() {
    let mut tokens = scan("print 1;");
    tokens.extend(scan("print 2;"));
    let mut parser = Parser::new(tokens);
    let mut reporter = ErrorReporter::new();
    let statements = parser.parse(&mut reporter).unwrap();
    assert_eq!(show_all(&statements), "print 1;");
    assert!(!reporter.had_error());
}

#[test]
fn a_parser_can_be_asked_again() {
    let mut parser = Parser::new(scan("print 1;"));
    let mut reporter = ErrorReporter::new();
    assert_eq!(parser.parse(&mut reporter).map(|s| s.len()), Some(1));
    assert_eq!(parser.parse(&mut reporter).map(|s| s.len()), None);
    assert!(!reporter.had_error());
}

#[test]
fn a_parse_error_is_shown_with_its_line() {
    let error = ParseError { message: "Expect expression. at end".to_string(), line: 12 };
    assert_eq!(error.render(), "[line 12] Parse error: Expect expression. at end");
    let error = ParseError { message: String::new(), line: 0 };
    assert_eq!(error.render(), "[line 0] Parse error: ");
}

#[test]
fn printer_writes_prefix_notation() {
    let minus = |line| Token::new(TokenType::Minus, "-".to_string(), None, line);
    let number = |n: f64| Expr::literal(Some(LiteralValue::Number(n.to_bits())));
    let expression = Expr::binary(
        Expr::unary(minus(1), number(123.0)),
        Token::new(TokenType::Star, "*".to_string(), None, 1),
        Expr::grouping(number(45.67)),
    );
    assert_eq!(show(&expression), "(* (- 123) (group 45.67))");
    let expression = Expr::binary(
        Expr::binary(number(1.0), Token::new(TokenType::Plus, "+".to_string(), None, 1), number(2.0)),
        Token::new(TokenType::EqualEqual, "==".to_string(), None, 1),
        Expr::binary(number(4.0), minus(1), number(3.0)),
    );
    assert_eq!(show(&expression), "(== (+ 1 2) (- 4 3))");
    let name = |text: &str| Token::new(TokenType::Identifier, text.to_string(), None, 1);
    assert_eq!(show(&Expr::literal(None)), "nil");
    assert_eq!(show(&Expr::literal(Some(LiteralValue::Nil))), "nil");
    assert_eq!(show(&Expr::literal(Some(LiteralValue::Boolean(true)))), "true");
    assert_eq!(show(&Expr::literal(Some(LiteralValue::Boolean(false)))), "false");
    assert_eq!(show(&Expr::literal(Some(LiteralValue::String("a b".to_string())))), "a b");
    assert_eq!(show(&Expr::variable(name("x"))), "x");
    assert_eq!(show(&Expr::assign(name("x"), number(1.0))), "(= x 1)");
    assert_eq!(
        show(&Expr::logical(
            Expr::variable(name("a")),
            Token::new(TokenType::Or, "or".to_string(), None, 1),
            Expr::variable(name("b"))
        )),
        "(or a b)"
    );
    assert_eq!(
        show(&Expr::call(
            Expr::variable(name("f")),
            Token::new(TokenType::RightParen, ")".to_string(), None, 1),
            vec![number(1.0), Expr::variable(name("b"))]
        )),
        "(call f 1 b)"
    );
    assert_eq!(
        show(&Expr::call(Expr::variable(name("f")), Token::new(TokenType::RightParen, ")".to_string(), None, 1), vec![])),
        "(call f)"
    );
}

#[test]
fn printer_hands_numbers_back_as_they_are() {
    let pieces = AstPrinter::new().print(&Expr::literal(Some(LiteralValue::Number(0.5f64.to_bits()))));
    assert_eq!(pieces.len(), 1);
    assert!(matches!(pieces[0], Fragment::Number(bits) if bits == 0.5f64.to_bits()));
}

#[test]
fn copies_are_equal_trees() {
    let mut parser = Parser::new(scan(
        "fun f(a, b) { for (var i = 0; i < a; i = i + 1) { if (i == b) return f(i, \"s\"); else print !i or nil; } }",
    ));
    let mut reporter = ErrorReporter::new();
    let statements = parser.parse(&mut reporter).unwrap();
    let copy: Vec<Stmt> = statements.iter().map(|s| s.clone()).collect();
    assert_eq!(show_all(&copy), show_all(&statements));
    assert_eq!(
        show_all(&copy),
        "fun f(a, b) { { var i = 0; while (< i a) { { if (== i b) return (call f i s); else print (or (! i) nil); } (= i (+ i 1)); } } }"
    );
}
