use minilang::interpreter::Interpreter;
use minilang::parser::parse;
use minilang::value::{Fatal, Value};

/// Feed one line through the whole pipeline, as the surrounding loop does:
/// parse, bind, and evaluate only when both passes were clean.
fn eval_line(
    interpreter: &mut Interpreter,
    session: &mut String,
    line: &str,
) -> Result<Value, Fatal> {
    let start = session.chars().count();
    session.push_str(line);
    let (syntax, syntax_errors) = parse(session, start);
    assert!(syntax_errors.is_empty(), "unexpected syntax errors: {:?}", syntax_errors);
    interpreter.set_source(session);
    interpreter.bind(syntax.clone(), 0);
    let type_errors = interpreter.flush_errors();
    assert!(type_errors.is_empty(), "unexpected type errors: {:?}", type_errors);
    interpreter.eval(syntax, 0)
}

#[test]
fn assigned_name_evaluates_to_its_value() {
    let mut interpreter = Interpreter::new();
    let mut session = String::new();
    assert!(matches!(
        eval_line(&mut interpreter, &mut session, "name = 5"),
        Ok(Value::Nothing)
    ));
    assert!(matches!(
        eval_line(&mut interpreter, &mut session, "name"),
        Ok(Value::Number(5))
    ));
}

#[test]
fn closure_applies_to_its_argument() {
    let mut interpreter = Interpreter::new();
    let mut session = String::new();
    eval_line(&mut interpreter, &mut session, "f = x : Number \u{2192} x").unwrap();
    assert!(matches!(
        eval_line(&mut interpreter, &mut session, "f 3"),
        Ok(Value::Number(3))
    ));
}

#[test]
fn parameter_shadows_the_global_binding() {
    let mut interpreter = Interpreter::new();
    let mut session = String::new();
    eval_line(&mut interpreter, &mut session, "x = 1").unwrap();
    eval_line(&mut interpreter, &mut session, "f = x : Number \u{2192} x").unwrap();
    assert!(matches!(
        eval_line(&mut interpreter, &mut session, "f 42"),
        Ok(Value::Number(42))
    ));
    // the global binding is untouched
    assert!(matches!(
        eval_line(&mut interpreter, &mut session, "x"),
        Ok(Value::Number(1))
    ));
}

#[test]
fn invocations_are_frame_isolated() {
    let mut interpreter = Interpreter::new();
    let mut session = String::new();
    eval_line(&mut interpreter, &mut session, "f = x : Number \u{2192} x").unwrap();
    assert!(matches!(
        eval_line(&mut interpreter, &mut session, "f 1"),
        Ok(Value::Number(1))
    ));
    // the second call never observes the first call's parameter binding
    assert!(matches!(
        eval_line(&mut interpreter, &mut session, "f 2"),
        Ok(Value::Number(2))
    ));
    assert!(matches!(
        eval_line(&mut interpreter, &mut session, "f 1 ",),
        Ok(Value::Number(1))
    ));
}

#[test]
fn literals_decode_by_kind() {
    let mut interpreter = Interpreter::new();
    let mut session = String::new();
    assert!(matches!(
        eval_line(&mut interpreter, &mut session, "\"hello\""),
        Ok(Value::String(s)) if s == "hello"
    ));
    assert!(matches!(
        eval_line(&mut interpreter, &mut session, "true"),
        Ok(Value::Boolean(true))
    ));
    assert!(matches!(
        eval_line(&mut interpreter, &mut session, "false"),
        Ok(Value::Boolean(false))
    ));
    assert!(matches!(
        eval_line(&mut interpreter, &mut session, "none"),
        Ok(Value::Nothing)
    ));
    assert!(matches!(
        eval_line(&mut interpreter, &mut session, "007"),
        Ok(Value::Number(7))
    ));
}

#[test]
fn unterminated_string_still_decodes_its_body() {
    let mut interpreter = Interpreter::new();
    let mut session = String::new();
    assert!(matches!(
        eval_line(&mut interpreter, &mut session, "\"ab"),
        Ok(Value::String(s)) if s == "ab"
    ));
}

#[test]
fn arithmetic_primitives_compute() {
    let mut interpreter = Interpreter::new();
    let mut session = String::new();
    assert!(matches!(eval_line(&mut interpreter, &mut session, "inc 4"), Ok(Value::Number(5))));
    assert!(matches!(eval_line(&mut interpreter, &mut session, "dec 4"), Ok(Value::Number(3))));
    assert!(matches!(eval_line(&mut interpreter, &mut session, "add 2 3"), Ok(Value::Number(5))));
    assert!(matches!(eval_line(&mut interpreter, &mut session, "sub 9 3"), Ok(Value::Number(6))));
    assert!(matches!(eval_line(&mut interpreter, &mut session, "mul 4 5"), Ok(Value::Number(20))));
    assert!(matches!(eval_line(&mut interpreter, &mut session, "div 17 5"), Ok(Value::Number(3))));
}

#[test]
fn cat_concatenates_strings() {
    let mut interpreter = Interpreter::new();
    let mut session = String::new();
    assert!(matches!(
        eval_line(&mut interpreter, &mut session, "cat \"ab\" \"cd\""),
        Ok(Value::String(s)) if s == "abcd"
    ));
}

#[test]
fn partial_application_is_a_value() {
    let mut interpreter = Interpreter::new();
    let mut session = String::new();
    eval_line(&mut interpreter, &mut session, "plustwo = add 2").unwrap();
    assert!(matches!(
        eval_line(&mut interpreter, &mut session, "plustwo 5"),
        Ok(Value::Number(7))
    ));
}

#[test]
fn division_by_zero_is_fatal_not_a_diagnostic() {
    let mut interpreter = Interpreter::new();
    let mut session = String::new();
    assert_eq!(
        eval_line(&mut interpreter, &mut session, "div 1 0").unwrap_err(),
        Fatal::DivisionByZero
    );
}

#[test]
fn arithmetic_overflow_is_fatal() {
    let mut interpreter = Interpreter::new();
    let mut session = String::new();
    assert_eq!(
        eval_line(&mut interpreter, &mut session, "add 18446744073709551615 1").unwrap_err(),
        Fatal::Arithmetic
    );
    assert_eq!(
        eval_line(&mut interpreter, &mut session, "dec 0").unwrap_err(),
        Fatal::Arithmetic
    );
}

#[test]
fn oversized_numeral_fails_to_decode() {
    let mut interpreter = Interpreter::new();
    let mut session = String::new();
    assert_eq!(
        eval_line(&mut interpreter, &mut session, "99999999999999999999999999")
            .unwrap_err(),
        Fatal::BadLiteral
    );
}

#[test]
fn runtime_assignment_overwrites_in_place() {
    // the single-declaration rule is a binding-time check; at runtime the
    // evaluator overwrites unconditionally, so a fresh session may rebind
    let mut interpreter = Interpreter::new();
    let mut session = String::new();
    let start = session.chars().count();
    session.push_str("x = 1");
    let (syntax, _) = parse(&session, start);
    interpreter.set_source(&session);
    interpreter.bind(syntax.clone(), 0);
    interpreter.flush_errors();
    interpreter.eval(syntax, 0).unwrap();
    // evaluate a second assignment to the same name without binding it
    let start = session.chars().count();
    session.push_str("x = 2");
    let (syntax, _) = parse(&session, start);
    interpreter.set_source(&session);
    interpreter.eval(syntax, 0).unwrap();
    assert!(matches!(
        eval_line(&mut interpreter, &mut session, "x "),
        Ok(Value::Number(2))
    ));
}

#[test]
fn unwraps_hand_back_the_payload() {
    assert_eq!(Value::Number(5).unwrap_number(), 5);
    assert_eq!(Value::String(String::from("s")).unwrap_string(), "s");
    assert!(Value::Boolean(true).unwrap_bool());
    let closure = Value::Closure(minilang::value::ClosureValue {
        scope: 0,
        param: String::from("x"),
        body: Box::new(minilang::syntax::Syntax::Name(minilang::name::NameSyntax((
            minilang::token::Token::Identifier,
            minilang::lexer::Description { position: 0, length: 1 },
        )))),
    });
    assert_eq!(closure.unwrap_closure().param, "x");
}

#[test]
fn library_modules_register_under_their_names() {
    let library = minilang::library::build();
    let names: Vec<&str> = library.iter().map(|m| m.name.as_str()).collect();
    assert_eq!(names, vec!["inc", "dec", "add", "sub", "mul", "div", "cat"]);
    let primitives = minilang::library::primitives();
    let names: Vec<&str> = primitives.iter().map(|p| p.0.as_str()).collect();
    assert_eq!(names, vec!["String", "Number", "Boolean"]);
    assert_eq!(primitives[1].1, minilang::types::Type::Number);
}

#[test]
fn inner_string_strips_the_quotes() {
    assert_eq!(minilang::value::inner_string(String::from("\"ab\"")), "ab");
    assert_eq!(minilang::value::inner_string(String::from("\"ab")), "ab");
    assert_eq!(minilang::value::inner_string(String::from("\"")), "");
    assert_eq!(minilang::value::inner_string(String::from("\"\"")), "");
}

#[test]
fn evaluating_an_unbound_name_is_fatal() {
    // the binder would have rejected this; evaluated directly, the miss is
    // the fatal unresolved-name condition, not a diagnostic
    let mut interpreter = Interpreter::new();
    let (syntax, _) = minilang::parser::parse("phantom", 0);
    interpreter.set_source("phantom");
    assert_eq!(interpreter.eval(syntax, 0).unwrap_err(), Fatal::UnresolvedName);
}

#[test]
fn calling_a_number_is_fatal_at_runtime() {
    let mut interpreter = Interpreter::new();
    let (syntax, _) = minilang::parser::parse("5 6", 0);
    interpreter.set_source("5 6");
    assert_eq!(interpreter.eval(syntax, 0).unwrap_err(), Fatal::NotCallable);
}

#[test]
fn primitive_applied_to_the_wrong_kind_is_fatal() {
    let mut interpreter = Interpreter::new();
    let (syntax, _) = minilang::parser::parse("inc \"s\"", 0);
    interpreter.set_source("inc \"s\"");
    assert_eq!(interpreter.eval(syntax, 0).unwrap_err(), Fatal::BadOperand);
}

#[test]
fn a_type_annotation_is_not_evaluable() {
    let mut interpreter = Interpreter::new();
    let annotation = minilang::syntax::Syntax::TypeExpression(
        minilang::type_expression::TypeExpressionSyntax {
            colon: (minilang::token::Token::Colon, minilang::lexer::Description {
                position: 0,
                length: 0,
            }),
            name: (minilang::token::Token::Identifier, minilang::lexer::Description {
                position: 0,
                length: 0,
            }),
        },
    );
    assert_eq!(interpreter.eval(annotation, 0).unwrap_err(), Fatal::Unevaluable);
}

#[test]
fn apply_dispatches_on_the_value_tag() {
    let mut interpreter = Interpreter::new();
    let mut session = String::new();
    let closure = eval_line(&mut interpreter, &mut session, "x : Number \u{2192} x").unwrap();
    assert!(matches!(
        interpreter.apply(closure, Value::Number(9), 16),
        Ok(Value::Number(9))
    ));
    assert_eq!(
        interpreter
            .apply(Value::Number(1), Value::Number(2), 16)
            .unwrap_err(),
        Fatal::NotCallable
    );
}

#[test]
fn invocation_depth_is_bounded_not_divergent() {
    let mut interpreter = Interpreter::new();
    let mut session = String::new();
    let closure = eval_line(&mut interpreter, &mut session, "x : Number \u{2192} x").unwrap();
    assert_eq!(
        interpreter.apply(closure, Value::Number(9), 0).unwrap_err(),
        Fatal::Exhausted
    );
}

#[test]
fn nested_closures_capture_their_defining_frame() {
    let mut interpreter = Interpreter::new();
    let mut session = String::new();
    eval_line(
        &mut interpreter,
        &mut session,
        "first = x : Number \u{2192} y : Number \u{2192} x",
    )
    .unwrap();
    // the inner closure resolves x through the frame of the call that made it
    assert!(matches!(
        eval_line(&mut interpreter, &mut session, "first 1 2"),
        Ok(Value::Number(1))
    ));
}

#[test]
fn closure_body_reaches_the_library_through_its_chain() {
    let mut interpreter = Interpreter::new();
    let mut session = String::new();
    eval_line(&mut interpreter, &mut session, "bump = x : Number \u{2192} inc x").unwrap();
    assert!(matches!(
        eval_line(&mut interpreter, &mut session, "bump 10"),
        Ok(Value::Number(11))
    ));
}
