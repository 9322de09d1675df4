//! Values, numbers, scopes and the record of errors.

use lox::environment::{undefined_variable_message, Environment, EnvironmentArena};
use lox::error::{Diagnostic, ErrorReporter};
use lox::function::{FunctionDeclaration, LoxFunction};
use lox::interpreter::{
    apply_unary, arity_message, check_call, combine_operands, combine_two_numbers, left_decides,
    value_of_literal, Callable, Combined, RuntimeError,
};
use lox::native::NativeFunction;
use lox::number::{
    negate, number_is_nan, number_is_zero, number_less, numbers_equal, numeral_of_whole, whole_number,
};
use lox::semantics::Arithmetic;
use lox::text::{decimal, decimal_wide, signed_decimal};
use lox::token::{clone_literal, clone_tokens, LiteralValue, Token, TokenType};
use lox::value::Value;

fn number(n: f64) -> Value {
    Value::Number(n.to_bits())
}

fn text(s: &str) -> Value {
    Value::String(s.to_string())
}

fn function(name: &str, params: usize, closure: usize) -> LoxFunction {
    let token = |lexeme: &str| Token::new(TokenType::Identifier, lexeme.to_string(), None, 1);
    LoxFunction::new(
        FunctionDeclaration {
            name: token(name),
            params: (0..params).map(|i| token(&format!("p{}", i))).collect(),
            body: Vec::new(),
        },
        closure,
    )
}

fn samples() -> Vec<f64> {
    vec![
        0.0,
        -0.0,
        1.0,
        -1.0,
        0.5,
        -0.5,
        3.0,
        1e300,
        -1e300,
        5e-324,
        -5e-324,
        2.2250738585072014e-308,
        f64::MAX,
        f64::MIN,
        f64::INFINITY,
        f64::NEG_INFINITY,
        f64::NAN,
        -f64::NAN,
        f64::from_bits(0x7ff0_0000_0000_0001),
        f64::from_bits(0xfff8_0000_0000_0001),
        1.0000000000000002,
        0.9999999999999999,
    ]
}

#[test]
fn numbers_are_ordered_as_doubles() {
    for a in samples() {
        for b in samples() {
            assert_eq!(number_less(a.to_bits(), b.to_bits()), a < b, "{} < {}", a, b);
            assert_eq!(numbers_equal(a.to_bits(), b.to_bits()), a == b, "{} == {}", a, b);
        }
    }
}

#[test]
fn numbers_are_classified_as_doubles() {
    for a in samples() {
        assert_eq!(number_is_nan(a.to_bits()), a.is_nan(), "{}", a);
        assert_eq!(number_is_zero(a.to_bits()), a == 0.0, "{}", a);
        assert_eq!(negate(a.to_bits()), (-a).to_bits(), "{}", a);
    }
    assert_eq!(negate(0), 0x8000_0000_0000_0000);
    assert_eq!(negate(1f64.to_bits()), (-1f64).to_bits());
}

#[test]
fn decimal_numerals() {
    assert_eq!(decimal(0), "0");
    assert_eq!(decimal(7), "7");
    assert_eq!(decimal(10), "10");
    assert_eq!(decimal(409), "409");
    assert_eq!(decimal(1234567890), "1234567890");
    assert_eq!(decimal(usize::MAX), usize::MAX.to_string());
}

#[test]
fn only_nil_and_false_are_falsy() {
    assert!(!Value::Nil.is_truthy());
    assert!(!Value::Boolean(false).is_truthy());
    assert!(Value::Boolean(true).is_truthy());
    assert!(number(0.0).is_truthy());
    assert!(number(f64::NAN).is_truthy());
    assert!(text("").is_truthy());
    assert!(text("false").is_truthy());
    assert!(Value::Function(function("f", 0, 0)).is_truthy());
    assert!(Value::NativeFunction(NativeFunction::Clock).is_truthy());
}

#[test]
fn equality_of_values() {
    assert!(Value::Nil.is_equal(&Value::Nil));
    assert!(number(1.5).is_equal(&number(1.5)));
    assert!(!number(1.5).is_equal(&number(2.5)));
    assert!(number(0.0).is_equal(&number(-0.0)));
    assert!(!number(f64::NAN).is_equal(&number(f64::NAN)));
    assert!(text("ab").is_equal(&text("ab")));
    assert!(!text("ab").is_equal(&text("aB")));
    assert!(text("é").is_equal(&text("é")));
    assert!(Value::Boolean(true).is_equal(&Value::Boolean(true)));
    assert!(!Value::Boolean(true).is_equal(&Value::Boolean(false)));
    assert!(Value::Function(function("f", 0, 0)).is_equal(&Value::Function(function("f", 2, 5))));
    assert!(!Value::Function(function("f", 0, 0)).is_equal(&Value::Function(function("g", 0, 0))));
    assert!(Value::NativeFunction(NativeFunction::Clock).is_equal(&Value::NativeFunction(NativeFunction::Clock)));
    let kinds = [
        Value::Nil,
        number(0.0),
        text(""),
        Value::Boolean(false),
        Value::Function(function("clock", 0, 0)),
        Value::NativeFunction(NativeFunction::Clock),
    ];
    for (i, a) in kinds.iter().enumerate() {
        for (j, b) in kinds.iter().enumerate() {
            assert_eq!(a.is_equal(b), i == j, "{:?} == {:?}", a, b);
        }
    }
}

#[test]
fn display_forms() {
    assert_eq!(Value::Nil.display(), Some("nil".to_string()));
    assert_eq!(Value::Boolean(true).display(), Some("true".to_string()));
    assert_eq!(Value::Boolean(false).display(), Some("false".to_string()));
    assert_eq!(text("raw \"text\"").display(), Some("raw \"text\"".to_string()));
    assert_eq!(Value::Function(function("add", 2, 0)).display(), Some("<fn add>".to_string()));
    assert_eq!(Value::NativeFunction(NativeFunction::Clock).display(), Some("<native fn clock>".to_string()));
    assert_eq!(number(1.0).display(), Some("1".to_string()));
    assert_eq!(number(-17.0).display(), Some("-17".to_string()));
    assert_eq!(number(-0.0).display(), Some("0".to_string()));
    assert_eq!(number(9223372036854774784.0).display(), Some("9223372036854774784".to_string()));
    assert_eq!(number(-9223372036854774784.0).display(), Some("-9223372036854774784".to_string()));
    assert_eq!(number(9223372036854775808.0).display(), None);
    assert_eq!(number(-9223372036854775808.0).display(), None);
    assert_eq!(number(1e20).display(), None);
    assert_eq!(number(1e21).display(), None);
    assert_eq!(number(1.5).display(), None);
    assert_eq!(number(f64::INFINITY).display(), None);
    assert_eq!(number(f64::NAN).display(), None);
}

/// The digits of a whole number of a magnitude below 2^63, all of them and
/// none behind a point; nothing for any other number.
fn own_digits(n: f64) -> Option<String> {
    if n.fract() != 0.0 || n.abs() >= 9223372036854775808.0 {
        None
    } else if n == 0.0 {
        Some("0".to_string())
    } else {
        Some(format!("{:.0}", n))
    }
}

#[test]
fn whole_numbers_are_written_as_integers() {
    let mut numbers = samples();
    numbers.extend([
        2.0,
        -2.0,
        255.0,
        1024.0,
        4503599627370496.0,
        4503599627370497.0,
        4503599627370495.5,
        9007199254740992.0,
        9007199254740993.0,
        -9007199254740992.0,
        9223372036854775807.0,
        9223372036854774784.0,
        -9223372036854775808.0,
        -9223372036854777856.0,
        18446744073709551616.0,
        1e15,
        1e16,
        1e17,
        1e18,
        1e19,
        1e100,
        123456789.0,
        123456789.5,
        0.99999,
        1.00001,
        -3.0000000000000004,
        1e-7,
    ]);
    for n in numbers {
        assert_eq!(numeral_of_whole(n.to_bits()), own_digits(n), "{:e}", n);
        match whole_number(n.to_bits()) {
            Some((negative, magnitude)) => {
                assert_eq!(n.fract(), 0.0);
                assert!(n.abs() < 9223372036854775808.0);
                assert_eq!(negative, n.is_sign_negative());
                assert_eq!(magnitude as f64, n.abs());
            }
            None => assert!(n.fract() != 0.0 || n.abs() >= 9223372036854775808.0),
        }
    }
    for i in 0..2000u64 {
        let n = i as f64 / 8.0 - 100.0;
        assert_eq!(numeral_of_whole(n.to_bits()), own_digits(n), "{}", n);
    }
    let mut bits = 0x9e37_79b9_7f4a_7c15u64;
    for _ in 0..20000 {
        bits = bits.wrapping_mul(0x5851_f42d_4c95_7f2d).wrapping_add(0x1405_7b7e_f767_814f);
        let n = f64::from_bits(bits);
        assert_eq!(numeral_of_whole(bits), own_digits(n), "{:e}", n);
        let rounded = n.round();
        assert_eq!(numeral_of_whole(rounded.to_bits()), own_digits(rounded), "{:e}", rounded);
    }
    assert_eq!(numeral_of_whole(1e20f64.to_bits()), None);
    assert_eq!(numeral_of_whole(9223372036854775808f64.to_bits()), None);
    assert_eq!(numeral_of_whole((-9223372036854775808f64).to_bits()), None);
    assert_eq!(numeral_of_whole(9223372036854774784f64.to_bits()), Some("9223372036854774784".to_string()));
    assert_eq!(numeral_of_whole(4503599627370497f64.to_bits()), Some("4503599627370497".to_string()));
    assert_eq!(numeral_of_whole((-1e18f64).to_bits()), Some("-1000000000000000000".to_string()));
}

#[test]
fn signed_numerals() {
    assert_eq!(signed_decimal(false, 0), "0");
    assert_eq!(signed_decimal(true, 0), "0");
    assert_eq!(signed_decimal(false, 12), "12");
    assert_eq!(signed_decimal(true, 12), "-12");
    assert_eq!(signed_decimal(true, 1 << 63), "-9223372036854775808");
    assert_eq!(signed_decimal(true, (1 << 63) - 1024), "-9223372036854774784");
    assert_eq!(signed_decimal(false, (1 << 63) - 1), "9223372036854775807");
    assert_eq!(decimal_wide(u64::MAX), "18446744073709551615");
    assert_eq!(decimal_wide(1000), "1000");
}

#[test]
fn copies_of_values_are_equal() {
    for value in [Value::Nil, number(2.5), text("s"), Value::Boolean(true), Value::Function(function("f", 1, 3))] {
        assert!(value.clone().is_equal(&value));
    }
    let copy = function("f", 2, 7).clone();
    assert_eq!((copy.name(), copy.arity(), copy.closure()), ("f", 2, 7));
    assert_eq!(copy.declaration().name.lexeme, "f");
    assert!(function("f", 2, 7).same_name(&copy));
    assert!(!function("g", 2, 7).same_name(&copy));
    let tokens = vec![
        Token::new(TokenType::Number, "1.5".to_string(), Some(LiteralValue::Number(1.5f64.to_bits())), 4),
        Token::new(TokenType::String, "\"s\"".to_string(), Some(LiteralValue::String("s".to_string())), 5),
    ];
    let copies = clone_tokens(&tokens);
    assert_eq!(copies.len(), 2);
    assert_eq!(copies[0].token_type, TokenType::Number);
    assert_eq!(copies[0].lexeme, "1.5");
    assert_eq!(copies[0].line, 4);
    assert!(matches!(copies[0].literal, Some(LiteralValue::Number(bits)) if bits == 1.5f64.to_bits()));
    assert!(matches!(&copies[1].literal, Some(LiteralValue::String(s)) if s == "s"));
    assert!(matches!(clone_literal(&Some(LiteralValue::Boolean(true))), Some(LiteralValue::Boolean(true))));
    assert!(matches!(clone_literal(&Some(LiteralValue::Nil)), Some(LiteralValue::Nil)));
    assert!(clone_literal(&None).is_none());
}

#[test]
fn natives() {
    assert_eq!(NativeFunction::Clock.arity(), 0);
    assert_eq!(NativeFunction::Clock.name(), "clock");
}

#[test]
fn literals_become_values() {
    assert!(value_of_literal(None).is_equal(&Value::Nil));
    assert!(value_of_literal(Some(LiteralValue::Nil)).is_equal(&Value::Nil));
    assert!(value_of_literal(Some(LiteralValue::Boolean(true))).is_equal(&Value::Boolean(true)));
    assert!(value_of_literal(Some(LiteralValue::Number(2f64.to_bits()))).is_equal(&number(2.0)));
    assert!(value_of_literal(Some(LiteralValue::String("s".to_string()))).is_equal(&text("s")));
}

#[test]
fn unary_operators() {
    assert!(apply_unary(TokenType::Bang, Value::Nil).unwrap().is_equal(&Value::Boolean(true)));
    assert!(apply_unary(TokenType::Bang, number(0.0)).unwrap().is_equal(&Value::Boolean(false)));
    assert!(apply_unary(TokenType::Minus, number(2.0)).unwrap().is_equal(&number(-2.0)));
    assert!(matches!(apply_unary(TokenType::Minus, number(0.0)), Ok(Value::Number(bits)) if bits == (-0.0f64).to_bits()));
    assert_eq!(apply_unary(TokenType::Minus, text("a")).unwrap_err(), "Operand must be a number.");
    assert_eq!(apply_unary(TokenType::Minus, Value::Nil).unwrap_err(), "Operand must be a number.");
    assert_eq!(apply_unary(TokenType::Star, number(1.0)).unwrap_err(), "Unknown unary operator.");
}

#[test]
fn binary_operators_decide_by_their_operands() {
    let two = 2f64.to_bits();
    let three = 3f64.to_bits();
    for (operator, operation) in [
        (TokenType::Plus, Arithmetic::Add),
        (TokenType::Minus, Arithmetic::Subtract),
        (TokenType::Star, Arithmetic::Multiply),
        (TokenType::Slash, Arithmetic::Divide),
    ] {
        match combine_operands(operator, number(2.0), number(3.0)) {
            Combined::Compute(o, a, b) => assert_eq!((o, a, b), (operation, two, three)),
            _ => panic!("{:?} does not compute", operator),
        }
        assert!(matches!(combine_two_numbers(operator, two, three), Combined::Compute(o, a, b) if (o, a, b) == (operation, two, three)));
    }
    assert!(matches!(combine_operands(TokenType::Slash, number(2.0), number(0.0)), Combined::Fail(m) if m == "Division by zero."));
    assert!(matches!(combine_operands(TokenType::Slash, number(2.0), number(-0.0)), Combined::Fail(m) if m == "Division by zero."));
    assert!(matches!(combine_operands(TokenType::Slash, number(0.0), number(2.0)), Combined::Compute(Arithmetic::Divide, _, _)));
    for (operator, expected) in [
        (TokenType::Less, [true, false, false]),
        (TokenType::LessEqual, [true, true, false]),
        (TokenType::Greater, [false, false, true]),
        (TokenType::GreaterEqual, [false, true, true]),
    ] {
        for (pair, wanted) in [(2.0, 3.0), (2.0, 2.0), (3.0, 2.0)].iter().zip(expected) {
            assert!(matches!(combine_operands(operator, number(pair.0), number(pair.1)), Combined::Value(Value::Boolean(b)) if b == wanted));
        }
        assert!(matches!(combine_operands(operator, number(f64::NAN), number(1.0)), Combined::Value(Value::Boolean(false))));
        assert!(matches!(combine_operands(operator, number(1.0), number(f64::NAN)), Combined::Value(Value::Boolean(false))));
        assert!(matches!(combine_operands(operator, text("a"), number(1.0)), Combined::Fail(m) if m == "Operands must be numbers."));
    }
    assert!(matches!(combine_operands(TokenType::EqualEqual, text("a"), text("a")), Combined::Value(Value::Boolean(true))));
    assert!(matches!(combine_operands(TokenType::BangEqual, text("a"), text("a")), Combined::Value(Value::Boolean(false))));
    assert!(matches!(combine_operands(TokenType::EqualEqual, Value::Nil, number(0.0)), Combined::Value(Value::Boolean(false))));
    assert!(matches!(combine_operands(TokenType::Plus, text("a"), text("b")), Combined::Append(l, Value::String(r)) if l == "a" && r == "b"));
    assert!(matches!(combine_operands(TokenType::Plus, text("a"), number(1.0)), Combined::Append(l, Value::Number(_)) if l == "a"));
    assert!(matches!(combine_operands(TokenType::Plus, Value::Nil, text("b")), Combined::Prepend(Value::Nil, r) if r == "b"));
    assert!(matches!(combine_operands(TokenType::Plus, Value::Nil, number(1.0)), Combined::Fail(m) if m == "Operands must be two numbers or two strings."));
    assert!(matches!(combine_operands(TokenType::Minus, Value::Nil, number(1.0)), Combined::Fail(m) if m == "Operands must be numbers."));
    assert!(matches!(combine_operands(TokenType::Bang, number(1.0), number(1.0)), Combined::Fail(m) if m == "Unknown binary operator."));
    assert!(matches!(combine_two_numbers(TokenType::EqualEqual, two, two), Combined::Fail(m) if m == "Unknown binary operator."));
}

#[test]
fn logical_operators_decide_by_the_left_operand() {
    assert_eq!(left_decides(TokenType::Or, &Value::Boolean(true)), Some(true));
    assert_eq!(left_decides(TokenType::Or, &Value::Nil), Some(false));
    assert_eq!(left_decides(TokenType::And, &Value::Nil), Some(true));
    assert_eq!(left_decides(TokenType::And, &number(0.0)), Some(false));
    assert_eq!(left_decides(TokenType::Plus, &number(0.0)), None);
}

#[test]
fn callees_are_checked() {
    assert!(matches!(
        check_call(Value::Function(function("f", 2, 0)), 2),
        Ok(Callable::Function(f)) if f.name() == "f"
    ));
    assert_eq!(
        check_call(Value::Function(function("f", 2, 0)), 3).unwrap_err(),
        "Expected 2 arguments but got 3."
    );
    assert!(matches!(
        check_call(Value::NativeFunction(NativeFunction::Clock), 0),
        Ok(Callable::Native(NativeFunction::Clock))
    ));
    assert_eq!(
        check_call(Value::NativeFunction(NativeFunction::Clock), 11).unwrap_err(),
        "Expected 0 arguments but got 11."
    );
    assert_eq!(check_call(text("f"), 0).unwrap_err(), "Can only call functions and classes.");
    assert_eq!(check_call(Value::Nil, 1).unwrap_err(), "Can only call functions and classes.");
    assert_eq!(arity_message(1, 0), "Expected 1 arguments but got 0.");
    assert_eq!(arity_message(255, 1000), "Expected 255 arguments but got 1000.");
}

#[test]
fn a_runtime_error_is_shown_with_its_line() {
    let error = RuntimeError {
        token: Token::new(TokenType::Slash, "/".to_string(), None, 31),
        message: "Division by zero.".to_string(),
    };
    assert_eq!(error.render(), "[line 31] Runtime Error: Division by zero.");
}

#[test]
fn frames_are_made_empty() {
    let mut arena = EnvironmentArena::new();
    assert_eq!(arena.len(), 0);
    assert_eq!(arena.create_env(), 0);
    assert_eq!(arena.create_env_with_enclosing(0), 1);
    assert_eq!(arena.create_env(), 2);
    assert_eq!(arena.len(), 3);
    assert_eq!(arena.get(0, "a").unwrap_err(), "Undefined variable 'a'.");
    assert_eq!(arena.get(1, "a").unwrap_err(), "Undefined variable 'a'.");
    let _ = Environment::new();
    let _ = Environment::new_with_enclosing(0);
}

#[test]
fn a_name_reads_as_it_was_last_defined() {
    let mut arena = EnvironmentArena::new();
    let globals = arena.create_env();
    arena.define(globals, "a".to_string(), number(1.0));
    assert!(arena.get(globals, "a").unwrap().is_equal(&number(1.0)));
    arena.define(globals, "b".to_string(), text("x"));
    arena.define(globals, "a".to_string(), number(2.0));
    assert!(arena.get(globals, "a").unwrap().is_equal(&number(2.0)));
    assert!(arena.get(globals, "b").unwrap().is_equal(&text("x")));
    arena.define(globals, "".to_string(), Value::Nil);
    assert!(arena.get(globals, "").unwrap().is_equal(&Value::Nil));
    assert_eq!(arena.get(globals, "A").unwrap_err(), "Undefined variable 'A'.");
}

#[test]
fn lookup_walks_outward() {
    let mut arena = EnvironmentArena::new();
    let globals = arena.create_env();
    let block = arena.create_env_with_enclosing(globals);
    let inner = arena.create_env_with_enclosing(block);
    let other = arena.create_env_with_enclosing(globals);
    arena.define(globals, "g".to_string(), number(1.0));
    arena.define(block, "b".to_string(), number(2.0));
    arena.define(inner, "g".to_string(), number(3.0));
    assert!(arena.get(inner, "g").unwrap().is_equal(&number(3.0)));
    assert!(arena.get(block, "g").unwrap().is_equal(&number(1.0)));
    assert!(arena.get(inner, "b").unwrap().is_equal(&number(2.0)));
    assert!(arena.get(other, "g").unwrap().is_equal(&number(1.0)));
    assert_eq!(arena.get(other, "b").unwrap_err(), "Undefined variable 'b'.");
    assert_eq!(arena.get(globals, "b").unwrap_err(), "Undefined variable 'b'.");
}

#[test]
fn assignment_writes_to_the_nearest_binding() {
    let mut arena = EnvironmentArena::new();
    let globals = arena.create_env();
    let block = arena.create_env_with_enclosing(globals);
    let inner = arena.create_env_with_enclosing(block);
    arena.define(globals, "g".to_string(), number(1.0));
    arena.define(block, "b".to_string(), number(2.0));
    assert!(arena.assign(inner, "g", number(10.0)).is_ok());
    assert!(arena.get(globals, "g").unwrap().is_equal(&number(10.0)));
    assert!(arena.assign(inner, "b", number(20.0)).is_ok());
    assert!(arena.get(block, "b").unwrap().is_equal(&number(20.0)));
    assert_eq!(arena.get(globals, "b").unwrap_err(), "Undefined variable 'b'.");
    arena.define(inner, "g".to_string(), number(3.0));
    assert!(arena.assign(inner, "g", number(30.0)).is_ok());
    assert!(arena.get(inner, "g").unwrap().is_equal(&number(30.0)));
    assert!(arena.get(globals, "g").unwrap().is_equal(&number(10.0)));
    assert_eq!(arena.assign(inner, "missing", number(0.0)).unwrap_err(), "Undefined variable 'missing'.");
    assert_eq!(arena.get(inner, "missing").unwrap_err(), "Undefined variable 'missing'.");
    assert_eq!(arena.assign(globals, "b", number(0.0)).unwrap_err(), "Undefined variable 'b'.");
    assert!(arena.get(block, "b").unwrap().is_equal(&number(20.0)));
}

#[test]
fn a_handle_without_a_frame_binds_nothing() {
    let mut arena = EnvironmentArena::new();
    let globals = arena.create_env();
    arena.define(globals, "a".to_string(), number(1.0));
    arena.define(7, "a".to_string(), number(2.0));
    assert_eq!(arena.len(), 1);
    assert_eq!(arena.get(7, "a").unwrap_err(), "Undefined variable 'a'.");
    assert_eq!(arena.assign(7, "a", number(3.0)).unwrap_err(), "Undefined variable 'a'.");
    assert!(arena.get(globals, "a").unwrap().is_equal(&number(1.0)));
    let lost = arena.create_env_with_enclosing(9);
    assert_eq!(arena.get(lost, "a").unwrap_err(), "Undefined variable 'a'.");
}

#[test]
fn undefined_variable_messages() {
    assert_eq!(undefined_variable_message("x"), "Undefined variable 'x'.");
    assert_eq!(undefined_variable_message(""), "Undefined variable ''.");
}

#[test]
fn the_reporter_remembers_errors() {
    let mut reporter = ErrorReporter::new();
    assert!(!reporter.had_error());
    assert!(reporter.take_diagnostics().is_empty());
    reporter.error(3, "Unexpected character.");
    assert!(reporter.had_error());
    reporter.report(4, " at 'x'", "Expect expression.");
    reporter.reset();
    assert!(!reporter.had_error());
    let diagnostics = reporter.take_diagnostics();
    assert_eq!(diagnostics.len(), 2);
    assert_eq!((diagnostics[0].line, diagnostics[0].location.as_str(), diagnostics[0].message.as_str()), (3, "", "Unexpected character."));
    assert_eq!(diagnostics[0].render(), "[line 3] Error: Unexpected character.");
    assert_eq!(diagnostics[1].render(), "[line 4] Error at 'x': Expect expression.");
    assert!(reporter.take_diagnostics().is_empty());
    reporter.report(0, "", "Scanning failed");
    assert!(reporter.had_error());
    assert_eq!(reporter.take_diagnostics()[0].render(), "[line 0] Error: Scanning failed");
    assert!(reporter.had_error());
    let shown = Diagnostic { line: 120, location: " at end".to_string(), message: "m".to_string() };
    assert_eq!(shown.render(), "[line 120] Error at end: m");
}
