//! Dispatch over the kinds of expressions and statements.

use lox::ast_printer::{AstPrinter, Fragment};
use lox::expr::{Expr, ExprVisitor};
use lox::interpreter::{Action, Interpreter, Reply};
use lox::native::NativeFunction;
use lox::semantics::Awaiting;
use lox::stmt::{Stmt, StmtVisitor};
use lox::token::{LiteralValue, Token, TokenType};
use lox::value::Value;

/// Names the kind of what it visits and counts its direct parts.
struct Kinds {
    seen: Vec<String>,
}

impl ExprVisitor<usize> for Kinds {
    fn visit_binary_expr(&mut self, _: &Expr, _: &Expr, operator: &Token, _: &Expr) -> usize {
        self.seen.push(format!("binary {}", operator.lexeme));
        2
    }

    fn visit_unary_expr(&mut self, _: &Expr, operator: &Token, _: &Expr) -> usize {
        self.seen.push(format!("unary {}", operator.lexeme));
        1
    }

    fn visit_literal_expr(&mut self, _: &Expr, value: &Option<LiteralValue>) -> usize {
        self.seen.push(format!("literal {}", value.is_some()));
        0
    }

    fn visit_grouping_expr(&mut self, _: &Expr, _: &Expr) -> usize {
        self.seen.push("grouping".to_string());
        1
    }

    fn visit_variable_expr(&mut self, _: &Expr, name: &Token) -> usize {
        self.seen.push(format!("variable {}", name.lexeme));
        0
    }

    fn visit_assign_expr(&mut self, _: &Expr, name: &Token, _: &Expr) -> usize {
        self.seen.push(format!("assign {}", name.lexeme));
        1
    }

    fn visit_logical_expr(&mut self, _: &Expr, _: &Expr, operator: &Token, _: &Expr) -> usize {
        self.seen.push(format!("logical {}", operator.lexeme));
        2
    }

    fn visit_call_expr(&mut self, _: &Expr, _: &Expr, paren: &Token, arguments: &Vec<Expr>) -> usize {
        self.seen.push(format!("call {}", paren.lexeme));
        1 + arguments.len()
    }
}

impl StmtVisitor<usize> for Kinds {
    fn visit_expression_stmt(&mut self, _: &Stmt, _: &Expr) -> usize {
        self.seen.push("expression".to_string());
        1
    }

    fn visit_print_stmt(&mut self, _: &Stmt, _: &Expr) -> usize {
        self.seen.push("print".to_string());
        1
    }

    fn visit_var_stmt(&mut self, _: &Stmt, name: &Token, initializer: &Option<Box<Expr>>) -> usize {
        self.seen.push(format!("var {}", name.lexeme));
        initializer.iter().count()
    }

    fn visit_block_stmt(&mut self, _: &Stmt, statements: &Vec<Stmt>) -> usize {
        self.seen.push("block".to_string());
        statements.len()
    }

    fn visit_if_stmt(&mut self, _: &Stmt, _: &Expr, _: &Stmt, else_branch: &Option<Box<Stmt>>) -> usize {
        self.seen.push("if".to_string());
        2 + else_branch.iter().count()
    }

    fn visit_while_stmt(&mut self, _: &Stmt, _: &Expr, _: &Stmt) -> usize {
        self.seen.push("while".to_string());
        2
    }

    fn visit_function_stmt(&mut self, _: &Stmt, name: &Token, params: &Vec<Token>, body: &Vec<Stmt>) -> usize {
        self.seen.push(format!("function {}", name.lexeme));
        params.len() + body.len()
    }

    fn visit_return_stmt(&mut self, _: &Stmt, keyword: &Token, value: &Option<Box<Expr>>) -> usize {
        self.seen.push(format!("return {}", keyword.lexeme));
        value.iter().count()
    }
}

fn token(token_type: TokenType, lexeme: &str) -> Token {
    Token::new(token_type, lexeme.to_string(), None, 1)
}

fn name(lexeme: &str) -> Expr {
    Expr::variable(token(TokenType::Identifier, lexeme))
}

fn number(n: f64) -> Expr {
    Expr::literal(Some(LiteralValue::Number(n.to_bits())))
}

#[test]
fn each_expression_goes_to_the_method_for_its_kind() {
    let mut kinds = Kinds { seen: Vec::new() };
    let cases = vec![
        (Expr::binary(name("a"), token(TokenType::Plus, "+"), name("b")), 2),
        (Expr::unary(token(TokenType::Minus, "-"), name("a")), 1),
        (Expr::literal(None), 0),
        (number(1.0), 0),
        (Expr::grouping(name("a")), 1),
        (name("a"), 0),
        (Expr::assign(token(TokenType::Identifier, "x"), name("a")), 1),
        (Expr::logical(name("a"), token(TokenType::And, "and"), name("b")), 2),
        (Expr::call(name("f"), token(TokenType::RightParen, ")"), vec![name("a"), name("b")]), 3),
    ];
    for (expression, parts) in &cases {
        assert_eq!(expression.accept(&mut kinds), *parts);
    }
    assert_eq!(
        kinds.seen,
        vec![
            "binary +",
            "unary -",
            "literal false",
            "literal true",
            "grouping",
            "variable a",
            "assign x",
            "logical and",
            "call )"
        ]
    );
}

#[test]
fn each_statement_goes_to_the_method_for_its_kind() {
    let mut kinds = Kinds { seen: Vec::new() };
    let cases = vec![
        (Stmt::expression(name("a")), 1),
        (Stmt::print(name("a")), 1),
        (Stmt::var(token(TokenType::Identifier, "v"), None), 0),
        (Stmt::var(token(TokenType::Identifier, "w"), Some(name("a"))), 1),
        (Stmt::block(vec![Stmt::print(name("a")), Stmt::print(name("b"))]), 2),
        (Stmt::if_stmt(name("c"), Stmt::print(name("a")), None), 2),
        (Stmt::if_stmt(name("c"), Stmt::print(name("a")), Some(Stmt::print(name("b")))), 3),
        (Stmt::while_stmt(name("c"), Stmt::print(name("a"))), 2),
        (
            Stmt::function(
                token(TokenType::Identifier, "f"),
                vec![token(TokenType::Identifier, "p")],
                vec![Stmt::print(name("p"))],
            ),
            2,
        ),
        (Stmt::return_stmt(token(TokenType::Return, "return"), None), 0),
        (Stmt::return_stmt(token(TokenType::Return, "return"), Some(name("a"))), 1),
    ];
    for (statement, parts) in &cases {
        assert_eq!(statement.accept(&mut kinds), *parts);
    }
    assert_eq!(
        kinds.seen,
        vec![
            "expression",
            "print",
            "var v",
            "var w",
            "block",
            "if",
            "if",
            "while",
            "function f",
            "return return",
            "return return"
        ]
    );
}

#[test]
fn the_printer_is_a_visitor() {
    let mut printer = AstPrinter::new();
    let pieces = Expr::grouping(name("a")).accept(&mut printer);
    let texts: Vec<String> = pieces
        .iter()
        .map(|p| match p {
            Fragment::Text(t) => t.clone(),
            Fragment::Number(_) => panic!("no number here"),
        })
        .collect();
    assert_eq!(texts, vec!["(group", " ", "a", ")"]);
    let pieces = number(2.0).accept(&mut printer);
    assert!(matches!(pieces[..], [Fragment::Number(bits)] if bits == 2f64.to_bits()));
}

#[test]
fn visiting_begins_evaluation() {
    let mut interpreter = Interpreter::new();
    assert!(matches!(Expr::literal(Some(LiteralValue::Boolean(true))).accept(&mut interpreter), Action::Continue));
    assert!(interpreter.is_idle());
    assert!(matches!(Expr::grouping(name("clock")).accept(&mut interpreter), Action::Continue));
    assert!(!interpreter.is_idle());
    assert!(matches!(interpreter.step(Reply::Nothing), Action::Continue));
    assert!(interpreter.is_idle());
    match name("missing").accept(&mut interpreter) {
        Action::Finished(Err(lox::interpreter::Signal::Error(e))) => {
            assert_eq!(e.message, "Undefined variable 'missing'.")
        }
        other => panic!("visited into {:?}", other),
    }
}

#[test]
fn visiting_begins_execution() {
    let mut interpreter = Interpreter::new();
    let declare = Stmt::var(token(TokenType::Identifier, "a"), None);
    assert!(matches!(declare.accept(&mut interpreter), Action::Continue));
    assert!(interpreter.is_idle());
    assert!(interpreter.read("a").unwrap().is_equal(&Value::Nil));
    let show = Stmt::print(name("a"));
    assert!(matches!(show.accept(&mut interpreter), Action::Continue));
    assert!(matches!(interpreter.step(Reply::Nothing), Action::Continue));
    assert!(matches!(interpreter.step(Reply::Nothing), Action::Print(line) if line == "nil"));
    assert!(matches!(interpreter.step(Reply::Nothing), Action::Finished(Ok(()))));
}

#[test]
fn a_native_call_asks_the_host() {
    let mut interpreter = Interpreter::new();
    assert!(matches!(NativeFunction::Clock.call(&mut interpreter, Vec::new()), Action::Clock));
    assert_eq!(interpreter.awaiting(), Awaiting::Number);
    assert!(matches!(interpreter.step(Reply::Number(5f64.to_bits())), Action::Finished(Ok(()))));
    assert_eq!(interpreter.awaiting(), Awaiting::Nothing);
}
