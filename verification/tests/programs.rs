//! Whole programs: from source text to the lines they print.

use lox::error::ErrorReporter;
use lox::interpreter::{Action, Interpreter, Reply, Signal};
use lox::semantics::Awaiting;
use lox::value::Value;
use lox::parser::Parser;
use lox::scanner::Scanner;
use lox::semantics::Arithmetic;
use lox::stmt::Stmt;
use lox::token::{LiteralValue, Token, TokenType};

fn scan(source: &str) -> Vec<Token> {
    let mut tokens = Scanner::new(source.chars().collect()).scan_tokens().expect("a source without errors");
    for token in tokens.iter_mut() {
        if token.token_type == TokenType::Number {
            let number: f64 = token.lexeme.parse().unwrap();
            token.literal = Some(LiteralValue::Number(number.to_bits()));
        }
    }
    tokens
}

fn numeral(bits: u64) -> String {
    let n = f64::from_bits(bits);
    if n.fract() == 0.0 {
        format!("{:.0}", n)
    } else {
        format!("{}", n)
    }
}

fn compute(operation: Arithmetic, left: u64, right: u64) -> u64 {
    let (a, b) = (f64::from_bits(left), f64::from_bits(right));
    let r = match operation {
        Arithmetic::Add => a + b,
        Arithmetic::Subtract => a - b,
        Arithmetic::Multiply => a * b,
        Arithmetic::Divide => a / b,
    };
    r.to_bits()
}

fn drive(interpreter: &mut Interpreter, output: &mut Vec<String>) -> Result<(), Signal> {
    let mut reply = Reply::Nothing;
    let mut steps = 0u64;
    loop {
        steps += 1;
        assert!(steps < 10_000_000, "the program does not end");
        reply = match interpreter.step(reply) {
            Action::Continue => Reply::Nothing,
            Action::Print(line) => {
                output.push(line);
                Reply::Nothing
            }
            Action::Compute { operation, left, right } => Reply::Number(compute(operation, left, right)),
            Action::Format(bits) => Reply::Text(numeral(bits)),
            Action::Clock => Reply::Number(1234.5f64.to_bits()),
            Action::Finished(result) => return result,
        };
    }
}

fn parse(source: &str) -> Vec<Stmt> {
    let mut parser = Parser::new(scan(source));
    let mut reporter = ErrorReporter::new();
    let statements = parser.parse(&mut reporter);
    assert!(!reporter.had_error(), "syntax error in {:?}", source);
    statements.unwrap_or_default()
}

fn run(source: &str) -> (Vec<String>, Result<(), Signal>) {
    let statements = parse(source);
    let mut interpreter = Interpreter::new();
    let mut output = Vec::new();
    interpreter.interpret(&statements);
    let result = drive(&mut interpreter, &mut output);
    (output, result)
}

fn prints(source: &str) -> Vec<String> {
    let (output, result) = run(source);
    assert!(result.is_ok(), "{:?} ended with {:?}", source, result);
    output
}

fn fails(source: &str) -> (Vec<String>, String, usize) {
    let (output, result) = run(source);
    match result {
        Err(Signal::Error(e)) => (output, e.message, e.token.line),
        other => panic!("{:?} ended with {:?}", source, other),
    }
}

#[test]
fn arithmetic_follows_precedence() {
    assert_eq!(prints("print 1 + 2 * 3;"), vec!["7"]);
}

#[test]
fn strings_are_joined() {
    assert_eq!(prints("print \"Hi, \" + \"world\";"), vec!["Hi, world"]);
}

#[test]
fn block_shadows_and_sees_outer_names() {
    assert_eq!(
        prints("var a = 1; var b = 2; { var a = 10; print a + b; } print a;"),
        vec!["12", "1"]
    );
}

#[test]
fn while_loop_counts() {
    assert_eq!(prints("var i = 0; while (i < 3) { print i; i = i + 1; }"), vec!["0", "1", "2"]);
}

#[test]
fn recursion_computes_fibonacci() {
    assert_eq!(
        prints("fun fib(n) { if (n < 2) return n; return fib(n-1) + fib(n-2); } print fib(10);"),
        vec!["55"]
    );
}

#[test]
fn counters_are_independent() {
    assert_eq!(
        prints(
            "fun makeCounter() { var n = 0; fun c() { n = n + 1; return n; } return c; } \
             var a = makeCounter(); var b = makeCounter(); print a(); print a(); print b();"
        ),
        vec!["1", "2", "1"]
    );
}

#[test]
fn inner_declaration_does_not_leak() {
    assert_eq!(prints("var a = 1; { var a = 2; } print a;"), vec!["1"]);
}

#[test]
fn closure_keeps_its_variable() {
    assert_eq!(
        prints(
            "fun mk() { var x = 0; fun inc() { x = x + 1; return x; } return inc; } \
             var c = mk(); print c(); print c();"
        ),
        vec!["1", "2"]
    );
    assert_eq!(
        prints(
            "fun mk() { var x = 0; fun inc() { x = x + 1; return x; } return inc; } \
             var c = mk(); var d = mk(); print c(); print d(); print c(); print d();"
        ),
        vec!["1", "1", "2", "2"]
    );
}

#[test]
fn last_assignment_wins() {
    assert_eq!(
        prints("var a = 1; var b; a = 2; b = a; a = 3; var c = a; a = b; print a; print b; print c;"),
        vec!["2", "2", "3"]
    );
    assert_eq!(prints("var a; var b; a = b = 5; print a; print b; print a = 6;"), vec!["5", "5", "6"]);
    assert_eq!(prints("var a = 1; var a = 2; print a;"), vec!["2"]);
    assert_eq!(prints("{ var a = 1; var a = 2; print a; }"), vec!["2"]);
}

#[test]
fn or_and_skip_the_right_operand() {
    let probe = "fun probe(v) { print \"probed\"; return v; } ";
    assert_eq!(prints(&format!("{}print true or probe(1);", probe)), vec!["true"]);
    assert_eq!(prints(&format!("{}print false and probe(1);", probe)), vec!["false"]);
    assert_eq!(prints(&format!("{}print nil and probe(1);", probe)), vec!["nil"]);
    assert_eq!(prints(&format!("{}print 0 or probe(1);", probe)), vec!["0"]);
    assert_eq!(prints(&format!("{}print false or probe(1);", probe)), vec!["probed", "1"]);
    assert_eq!(prints(&format!("{}print true and probe(2);", probe)), vec!["probed", "2"]);
}

#[test]
fn or_and_hand_back_an_operand() {
    assert_eq!(prints("print \"x\" or \"y\";"), vec!["x"]);
    assert_eq!(prints("print nil or \"y\";"), vec!["y"]);
    assert_eq!(prints("print false or nil;"), vec!["nil"]);
    assert_eq!(prints("print \"x\" and \"y\";"), vec!["y"]);
    assert_eq!(prints("print nil and \"y\";"), vec!["nil"]);
    assert_eq!(prints("print 1 and 0;"), vec!["0"]);
    assert_eq!(prints("print \"\" or 2;"), vec![""]);
    assert_eq!(prints("print true and false;"), vec!["false"]);
    assert_eq!(prints("print true or false;"), vec!["true"]);
}

#[test]
fn for_loop_runs_like_its_while_form() {
    for n in 0..5 {
        let as_for = format!("for (var i = 0; i < {}; i = i + 1) print i * 2;", n);
        let as_while = format!("{{ var i = 0; while (i < {}) {{ print i * 2; i = i + 1; }} }}", n);
        let expected: Vec<String> = (0..n).map(|i| format!("{}", i * 2)).collect();
        assert_eq!(prints(&as_for), expected);
        assert_eq!(prints(&as_while), expected);
    }
    assert_eq!(prints("for (var i = 1; i < 10; i = i * 2) print i;"), vec!["1", "2", "4", "8"]);
    assert_eq!(prints("var j = 0; for (; j < 2; j = j + 1) print j; print j;"), vec!["0", "1", "2"]);
    assert_eq!(prints("var k = 0; for (k = 5; k < 7;) { print k; k = k + 1; }"), vec!["5", "6"]);
    assert_eq!(
        prints("for (var i = 1; i <= 2; i = i + 1) { for (var j = 1; j <= 2; j = j + 1) { print i * j; } }"),
        vec!["1", "2", "2", "4"]
    );
    assert_eq!(
        prints("fun f() { for (;;) { return \"left\"; } } print f();"),
        vec!["left"]
    );
}

#[test]
fn loop_variable_ends_with_the_loop() {
    let (_, message, _) = fails("for (var i = 0; i < 1; i = i + 1) {} print i;");
    assert_eq!(message, "Undefined variable 'i'.");
}

#[test]
fn wrong_argument_count_is_reported() {
    let (output, message, line) = fails("fun f(a, b) { print \"body\"; }\nf(1);");
    assert!(output.is_empty());
    assert_eq!(message, "Expected 2 arguments but got 1.");
    assert_eq!(line, 2);
    let (output, message, _) = fails("fun g() { print \"body\"; } g(1, 2, 3);");
    assert!(output.is_empty());
    assert_eq!(message, "Expected 0 arguments but got 3.");
    let (_, message, _) = fails("clock(1);");
    assert_eq!(message, "Expected 0 arguments but got 1.");
    let (_, message, _) = fails(
        "fun h(a, b, c, d, e, f, g, h, i, j, k, l) {} h(1, 2, 3, 4, 5, 6, 7, 8, 9, 10);",
    );
    assert_eq!(message, "Expected 12 arguments but got 10.");
}

#[test]
fn arguments_are_evaluated_before_the_count_is_checked() {
    let (output, message, _) = fails("fun p(v) { print v; return v; } fun f() {} f(p(1), p(2));");
    assert_eq!(output, vec!["1", "2"]);
    assert_eq!(message, "Expected 0 arguments but got 2.");
}

#[test]
fn undefined_variable_is_reported() {
    let (output, message, line) = fails("print 1;\nprint missing;");
    assert_eq!(output, vec!["1"]);
    assert_eq!(message, "Undefined variable 'missing'.");
    assert_eq!(line, 2);
}

#[test]
fn assignment_never_declares() {
    let (_, message, line) = fails("\n\nmissing = 1;");
    assert_eq!(message, "Undefined variable 'missing'.");
    assert_eq!(line, 3);
    let (_, message, _) = fails("{ { inner = 1; } }");
    assert_eq!(message, "Undefined variable 'inner'.");
    let (_, message, _) = fails("fun f() { deep = 1; } f();");
    assert_eq!(message, "Undefined variable 'deep'.");
    let (_, message, _) = fails("fun f() { return deep; } f();");
    assert_eq!(message, "Undefined variable 'deep'.");
    let (_, message, _) = fails("{ var a = 1; } a = 2;");
    assert_eq!(message, "Undefined variable 'a'.");
}

#[test]
fn numbers_print_without_needless_fraction() {
    assert_eq!(prints("print 3;"), vec!["3"]);
    assert_eq!(prints("print 3.0;"), vec!["3"]);
    assert_eq!(prints("print 3.5;"), vec!["3.5"]);
    assert_eq!(prints("print 7 / 2;"), vec!["3.5"]);
    assert_eq!(prints("print 6 / 2;"), vec!["3"]);
    assert_eq!(prints("print -0.25;"), vec!["-0.25"]);
    assert_eq!(prints("print 100 * 100;"), vec!["10000"]);
    assert_eq!(prints("print 0.1 + 0.2;"), vec!["0.30000000000000004"]);
}

#[test]
fn large_whole_numbers_print_with_their_own_digits() {
    assert_eq!(prints("print 100000000000000000000;"), vec!["100000000000000000000"]);
    assert_eq!(prints("print -100000000000000000000;"), vec!["-100000000000000000000"]);
    assert_eq!(prints("print 9223372036854775808;"), vec!["9223372036854775808"]);
    assert_eq!(prints("print -9223372036854775808;"), vec!["-9223372036854775808"]);
    assert_eq!(prints("print 9223372036854774784;"), vec!["9223372036854774784"]);
    assert_eq!(prints("print 10000000000 * 10000000000;"), vec!["100000000000000000000"]);
    assert_eq!(prints("print \"n=\" + 100000000000000000000;"), vec!["n=100000000000000000000"]);
    assert_eq!(prints("print 100000000000000000000 + \"!\";"), vec!["100000000000000000000!"]);
    assert_eq!(prints("print 9007199254740993;"), vec!["9007199254740992"]);
    assert_eq!(prints("print 18446744073709551616;"), vec!["18446744073709551616"]);
    assert_eq!(prints("print 0 - 0;"), vec!["0"]);
    assert_eq!(prints("print -0;"), vec!["0"]);
}

#[test]
fn values_print_in_their_display_form() {
    assert_eq!(prints("print \"text\";"), vec!["text"]);
    assert_eq!(prints("print true; print false; print nil;"), vec!["true", "false", "nil"]);
    assert_eq!(prints("fun named() {} print named;"), vec!["<fn named>"]);
    assert_eq!(prints("print clock;"), vec!["<native fn clock>"]);
    assert_eq!(prints("var x; print x;"), vec!["nil"]);
    assert_eq!(prints("fun f() {} print f();"), vec!["nil"]);
    assert_eq!(prints("fun f() { return; } print f();"), vec!["nil"]);
}

#[test]
fn plus_joins_a_string_with_anything() {
    assert_eq!(prints("print \"n=\" + 42;"), vec!["n=42"]);
    assert_eq!(prints("print 42 + \"=n\";"), vec!["42=n"]);
    assert_eq!(prints("print \"n=\" + 1.5;"), vec!["n=1.5"]);
    assert_eq!(prints("print \"is \" + true;"), vec!["is true"]);
    assert_eq!(prints("print nil + \"!\";"), vec!["nil!"]);
    assert_eq!(prints("fun f() {} print \"<\" + f + \">\";"), vec!["<<fn f>>"]);
    assert_eq!(prints("print \"a\" + 1 + 2;"), vec!["a12"]);
    assert_eq!(prints("print 1 + 2 + \"a\";"), vec!["3a"]);
    assert_eq!(prints("var name = \"Alice\"; print \"Hello, \" + name + \"!\";"), vec!["Hello, Alice!"]);
}

#[test]
fn plus_rejects_other_operands() {
    let (_, message, _) = fails("print true + 1;");
    assert_eq!(message, "Operands must be two numbers or two strings.");
    let (_, message, _) = fails("print nil + nil;");
    assert_eq!(message, "Operands must be two numbers or two strings.");
}

#[test]
fn arithmetic_wants_numbers() {
    for operator in ["-", "*", "/", "<", "<=", ">", ">="] {
        let (_, message, _) = fails(&format!("print 1 {} \"a\";", operator));
        assert_eq!(message, "Operands must be numbers.");
        let (_, message, _) = fails(&format!("print nil {} 1;", operator));
        assert_eq!(message, "Operands must be numbers.");
    }
    let (_, message, line) = fails("print\n-\"a\";");
    assert_eq!(message, "Operand must be a number.");
    assert_eq!(line, 2);
}

#[test]
fn division_by_zero_is_an_error() {
    let (_, message, _) = fails("print 1 / 0;");
    assert_eq!(message, "Division by zero.");
    let (_, message, _) = fails("print 0 / (1 - 1);");
    assert_eq!(message, "Division by zero.");
    let (_, message, _) = fails("print 1 / -0;");
    assert_eq!(message, "Division by zero.");
    assert_eq!(prints("print 0 / 4;"), vec!["0"]);
}

#[test]
fn only_functions_can_be_called() {
    let (_, message, line) = fails("var f = \"a\";\nf(1, 2);");
    assert_eq!(message, "Can only call functions and classes.");
    assert_eq!(line, 2);
    let (_, message, _) = fails("nil();");
    assert_eq!(message, "Can only call functions and classes.");
    let (_, message, _) = fails("fun f() {} f()();");
    assert_eq!(message, "Can only call functions and classes.");
}

#[test]
fn comparison_and_equality() {
    assert_eq!(
        prints("print 1 < 2; print 2 < 1; print 2 <= 2; print 3 > 2; print 2 >= 3; print -1 < 0;"),
        vec!["true", "false", "true", "true", "false", "true"]
    );
    assert_eq!(
        prints("print 1 == 1; print 1 == 2; print 1 != 2; print \"a\" == \"a\"; print \"a\" == \"b\";"),
        vec!["true", "false", "true", "true", "false"]
    );
    assert_eq!(
        prints("print nil == nil; print nil == false; print 0 == false; print \"1\" == 1; print true == true;"),
        vec!["true", "false", "false", "false", "true"]
    );
    assert_eq!(prints("print 0 == -0; print 0.5 == 1 / 2;"), vec!["true", "true"]);
    assert_eq!(
        prints("fun a() {} fun b() {} var c = a; print a == c; print a == b; print clock == clock; print a == clock;"),
        vec!["true", "false", "true", "false"]
    );
    assert_eq!(prints("{ fun a() { return 1; } var first = a; { fun a() { return 2; } print first == a; } }"), vec!["true"]);
}

#[test]
fn truthiness() {
    assert_eq!(
        prints(
            "if (0) print \"zero\"; if (\"\") print \"empty\"; if (nil) print \"nil\"; else print \"not nil\"; \
             if (false) print \"false\"; else print \"not false\"; print !0; print !nil; print !!\"a\";"
        ),
        vec!["zero", "empty", "not nil", "not false", "false", "true", "true"]
    );
}

#[test]
fn unary_and_grouping() {
    assert_eq!(prints("print -(1 + 2) * 3; print --4; print !(1 > 2);"), vec!["-9", "4", "true"]);
    assert_eq!(prints("print (1 + 2) * (3 + 4); print 1 - 2 - 3; print 8 / 4 / 2;"), vec!["21", "-4", "1"]);
}

#[test]
fn if_and_else() {
    assert_eq!(
        prints(
            "if (true) print \"hello\"; if (false) print \"not printed\"; else print \"else executed\"; \
             if (1 > 2) print \"impossible\"; else print \"math works\";"
        ),
        vec!["hello", "else executed", "math works"]
    );
    assert_eq!(
        prints("var x = 5; if (x > 3) { var y = x * 2; while (y > 7) { print y; y = y - 1; } }"),
        vec!["10", "9", "8"]
    );
    assert_eq!(
        prints("if (true) if (false) print 1; else print 2;"),
        vec!["2"]
    );
}

#[test]
fn functions_see_the_scope_of_their_declaration() {
    assert_eq!(
        prints(
            "var a = \"global\"; { fun show() { print a; } show(); var a = \"block\"; show(); }"
        ),
        vec!["global", "block"]
    );
    assert_eq!(
        prints("var x = \"outer\"; fun f() { print x; } fun g() { var x = \"inner\"; f(); } g();"),
        vec!["outer"]
    );
    assert_eq!(
        prints("fun add(a, b) { return a + b; } fun twice(f, v) { return f(f(v, v), v); } print twice(add, 3);"),
        vec!["9"]
    );
    assert_eq!(
        prints("fun outer() { fun inner() { return \"in\"; } return inner; } print outer()();"),
        vec!["in"]
    );
    assert_eq!(
        prints("fun count(n) { if (n > 0) { print n; count(n - 1); } } count(3);"),
        vec!["3", "2", "1"]
    );
}

#[test]
fn return_leaves_blocks_and_loops() {
    assert_eq!(
        prints(
            "fun find() { var i = 0; while (true) { { if (i == 3) { return i; } } i = i + 1; } } \
             var before = 1; print find(); print before;"
        ),
        vec!["3", "1"]
    );
    assert_eq!(
        prints("fun f() { { var hidden = 1; return hidden; } } { var hidden = 2; print f(); print hidden; }"),
        vec!["1", "2"]
    );
    assert_eq!(
        prints("fun f() { return 1; print \"never\"; } print f() + f();"),
        vec!["2"]
    );
}

#[test]
fn return_outside_a_function_ends_the_run() {
    let (output, result) = run("print 1; return 2; print 3;");
    assert_eq!(output, vec!["1"]);
    match result {
        Err(Signal::Return(r)) => assert!(r.value.is_equal(&Value::Number(2f64.to_bits()))),
        other => panic!("ended with {:?}", other),
    }
}

#[test]
fn parameters_shadow_outer_names() {
    assert_eq!(prints("var a = 1; fun f(a) { a = a + 1; return a; } print f(10); print a;"), vec!["11", "1"]);
    assert_eq!(prints("fun f(f) { return f; } print f(3);"), vec!["3"]);
}

#[test]
fn evaluation_goes_left_to_right() {
    assert_eq!(
        prints("fun p(v) { print v; return v; } print p(1) + p(2) * p(3);"),
        vec!["1", "2", "3", "7"]
    );
    assert_eq!(
        prints("fun p(v) { print v; return v; } fun f(a, b) { return a - b; } print p(f)(p(5), p(3));"),
        vec!["<fn f>", "5", "3", "2"]
    );
    let (output, message, _) = fails("fun p(v) { print v; return v; } print p(1) - p(\"a\") - p(3);");
    assert_eq!(output, vec!["1", "a"]);
    assert_eq!(message, "Operands must be numbers.");
}

#[test]
fn clock_hands_back_the_time_of_the_host() {
    assert_eq!(prints("print clock();"), vec!["1234.5"]);
    assert_eq!(prints("var t = clock(); print t - t; print clock() > 0;"), vec!["0", "true"]);
}

#[test]
fn bindings_outlive_a_run() {
    let mut interpreter = Interpreter::new();
    let mut output = Vec::new();
    interpreter.interpret(&parse("var a = 1; fun next() { a = a + 1; return a; }"));
    assert!(drive(&mut interpreter, &mut output).is_ok());
    interpreter.interpret(&parse("print next(); print a;"));
    assert!(drive(&mut interpreter, &mut output).is_ok());
    assert_eq!(output, vec!["2", "2"]);
}

#[test]
fn an_error_leaves_the_machine_in_the_scope_of_the_run() {
    let mut interpreter = Interpreter::new();
    let mut output = Vec::new();
    interpreter.interpret(&parse("var a = 1; fun f() { { var a = 2; { print a; print missing; } } } f();"));
    match drive(&mut interpreter, &mut output) {
        Err(Signal::Error(e)) => {
            assert_eq!(e.message, "Undefined variable 'missing'.");
            assert_eq!(e.render(), "[line 1] Runtime Error: Undefined variable 'missing'.");
        }
        other => panic!("ended with {:?}", other),
    }
    assert!(interpreter.is_idle());
    assert_eq!(interpreter.awaiting(), Awaiting::Nothing);
    assert!(interpreter.read("a").unwrap().is_equal(&Value::Number(1f64.to_bits())));
    interpreter.interpret(&parse("print a;"));
    assert!(drive(&mut interpreter, &mut output).is_ok());
    assert_eq!(output, vec!["2", "1"]);
}

#[test]
fn an_empty_program_ends_at_once() {
    let mut interpreter = Interpreter::new();
    interpreter.interpret(&Vec::new());
    assert!(interpreter.is_idle());
    assert!(matches!(interpreter.step(Reply::Nothing), Action::Finished(Ok(()))));
    assert!(matches!(interpreter.step(Reply::Nothing), Action::Finished(Ok(()))));
}

#[test]
fn the_machine_asks_the_host_for_sums_and_numerals() {
    let mut interpreter = Interpreter::new();
    interpreter.interpret(&parse("print 1 + 2;"));
    let mut asked = Vec::new();
    let mut reply = Reply::Nothing;
    loop {
        let action = interpreter.step(reply);
        reply = match action {
            Action::Continue => Reply::Nothing,
            Action::Compute { operation, left, right } => {
                assert_eq!(interpreter.awaiting(), Awaiting::Number);
                asked.push(format!("{:?} {} {}", operation, f64::from_bits(left), f64::from_bits(right)));
                Reply::Number(40.5f64.to_bits())
            }
            Action::Format(bits) => {
                assert_eq!(interpreter.awaiting(), Awaiting::Text);
                asked.push(format!("format {}", f64::from_bits(bits)));
                Reply::Text(String::from("forty"))
            }
            Action::Print(line) => {
                assert_eq!(interpreter.awaiting(), Awaiting::Nothing);
                asked.push(format!("print {}", line));
                Reply::Nothing
            }
            Action::Clock => panic!("no clock in this program"),
            Action::Finished(result) => {
                assert!(result.is_ok());
                break;
            }
        };
    }
    assert_eq!(asked, vec!["Add 1 2", "format 40.5", "print forty"]);
}

#[test]
fn whole_numbers_are_shown_without_the_host() {
    let mut interpreter = Interpreter::new();
    interpreter.interpret(&parse("print 12; print \"n=\" + 3; print -4 + \"!\"; print 0.5;"));
    let mut asked = Vec::new();
    let mut reply = Reply::Nothing;
    loop {
        reply = match interpreter.step(reply) {
            Action::Continue => Reply::Nothing,
            Action::Print(line) => {
                asked.push(format!("print {}", line));
                Reply::Nothing
            }
            Action::Format(bits) => {
                asked.push(format!("format {}", f64::from_bits(bits)));
                Reply::Text(String::from("half"))
            }
            Action::Compute { .. } | Action::Clock => panic!("nothing to compute in this program"),
            Action::Finished(result) => {
                assert!(result.is_ok());
                break;
            }
        };
    }
    assert_eq!(asked, vec!["print 12", "print n=3", "print -4!", "format 0.5", "print half"]);
}

#[test]
fn a_block_is_entered_and_left() {
    let mut interpreter = Interpreter::new();
    let mut output = Vec::new();
    interpreter.interpret(&parse("var a = 1;"));
    assert!(drive(&mut interpreter, &mut output).is_ok());
    interpreter.execute_block(parse("var a = 2; print a;"));
    assert!(interpreter.read("a").unwrap().is_equal(&Value::Number(1f64.to_bits())));
    assert!(!interpreter.is_idle());
    assert!(drive(&mut interpreter, &mut output).is_ok());
    assert_eq!(output, vec!["2"]);
    assert!(interpreter.read("a").unwrap().is_equal(&Value::Number(1f64.to_bits())));
}

#[test]
fn a_function_is_entered_with_its_arguments() {
    let mut interpreter = Interpreter::new();
    let mut output = Vec::new();
    interpreter.interpret(&parse("var seen = 0; fun keep(a, b) { seen = a - b; }"));
    assert!(drive(&mut interpreter, &mut output).is_ok());
    let function = match interpreter.read("keep").unwrap() {
        Value::Function(f) => f,
        other => panic!("keep is {:?}", other),
    };
    assert_eq!(function.arity(), 2);
    assert_eq!(function.name(), "keep");
    assert_eq!(function.closure(), 0);
    assert_eq!(function.declaration().params.len(), 2);
    interpreter.call_lox_function(&function, vec![Value::Number(5f64.to_bits()), Value::Number(3f64.to_bits())]);
    assert!(interpreter.read("a").unwrap().is_equal(&Value::Number(5f64.to_bits())));
    assert!(interpreter.read("b").unwrap().is_equal(&Value::Number(3f64.to_bits())));
    assert!(drive(&mut interpreter, &mut output).is_ok());
    assert!(interpreter.read("seen").unwrap().is_equal(&Value::Number(2f64.to_bits())));
    assert!(interpreter.read("a").is_err());
}

#[test]
fn long_runs_come_to_their_end() {
    assert_eq!(prints("var i = 0; while (i < 20000) i = i + 1; print i;"), vec!["20000"]);
    assert_eq!(
        prints("fun fib(n) { if (n < 2) return n; return fib(n - 1) + fib(n - 2); } print fib(16);"),
        vec!["987"]
    );
    assert_eq!(
        prints("fun down(n) { if (n == 0) return \"bottom\"; return down(n - 1); } print down(3000);"),
        vec!["bottom"]
    );
    assert_eq!(
        prints("var s = \"\"; for (var i = 0; i < 5; i = i + 1) { s = s + i; } print s;"),
        vec!["01234"]
    );
}

#[test]
fn syntax_errors_keep_a_program_from_running() {
    let mut parser = Parser::new(scan("print 1; print (2; print 3;"));
    let mut reporter = ErrorReporter::new();
    let statements = parser.parse(&mut reporter);
    assert!(reporter.had_error());
    assert_eq!(statements.map(|s| s.len()), Some(2));
    let shown: Vec<String> = reporter.take_diagnostics().iter().map(|d| d.render()).collect();
    assert_eq!(shown, vec!["[line 1] Error: Expect ')' after expression. at ';'"]);
}
