use minilang::error::{Category, Error};
use minilang::interpreter::Interpreter;
use minilang::parser::parse;
use minilang::types::Type;

/// Feed one line into the session, as the surrounding pipeline does: parse
/// it at the current offset, then bind it; the type diagnostics come back.
fn bind_line(interpreter: &mut Interpreter, session: &mut String, line: &str) -> (Type, Vec<Error>) {
    let start = session.chars().count();
    session.push_str(line);
    let (syntax, syntax_errors) = parse(session, start);
    assert!(syntax_errors.is_empty(), "unexpected syntax errors: {:?}", syntax_errors);
    interpreter.set_source(session);
    let bound = interpreter.bind(syntax, 0);
    (bound, interpreter.flush_errors())
}

#[test]
fn redeclaring_a_name_is_exactly_one_reassignment() {
    let mut interpreter = Interpreter::new();
    let mut session = String::new();
    let (_, errors) = bind_line(&mut interpreter, &mut session, "x = 1");
    assert!(errors.is_empty());
    let (_, errors) = bind_line(&mut interpreter, &mut session, "x = 2");
    assert_eq!(errors.len(), 1);
    assert!(matches!(&errors[0], Error::Reassignment(_, name) if name == "x"));
    // the original binding's type is untouched: x still resolves as a Number
    let (bound, errors) = bind_line(&mut interpreter, &mut session, "x");
    assert!(errors.is_empty());
    assert_eq!(bound, Type::Number);
}

#[test]
fn well_typed_call_binds_to_the_return_type_cleanly() {
    let mut interpreter = Interpreter::new();
    let mut session = String::new();
    let (bound, errors) = bind_line(&mut interpreter, &mut session, "inc 3");
    assert!(errors.is_empty());
    assert_eq!(bound, Type::Number);
}

#[test]
fn mismatched_argument_still_binds_to_the_return_type() {
    let mut interpreter = Interpreter::new();
    let mut session = String::new();
    let (bound, errors) = bind_line(&mut interpreter, &mut session, "inc \"three\"");
    assert_eq!(bound, Type::Number);
    assert_eq!(errors.len(), 1);
    assert!(matches!(
        &errors[0],
        Error::UnexpectedType(_, expected, received)
            if *expected == Type::Number && *received == Type::String
    ));
}

#[test]
fn calling_a_non_closure_is_one_bad_call() {
    let mut interpreter = Interpreter::new();
    let mut session = String::new();
    let (bound, errors) = bind_line(&mut interpreter, &mut session, "5 6");
    assert_eq!(bound, Type::Nothing);
    assert_eq!(errors.len(), 1);
    assert!(matches!(&errors[0], Error::BadCall(_)));
}

#[test]
fn applying_a_number_parameter_is_rejected_at_bind_time() {
    let mut interpreter = Interpreter::new();
    let mut session = String::new();
    // the body applies x, a Number, to y: a Number is not callable
    let (_, errors) = bind_line(
        &mut interpreter,
        &mut session,
        "apply = x : Number \u{2192} y : Number \u{2192} x y",
    );
    assert!(errors.iter().any(|e| matches!(e, Error::BadCall(_))));
}

#[test]
fn unknown_name_is_exactly_one_diagnostic_and_types_as_none() {
    let mut interpreter = Interpreter::new();
    let mut session = String::new();
    let (bound, errors) = bind_line(&mut interpreter, &mut session, "ghost");
    assert_eq!(bound, Type::Nothing);
    assert_eq!(errors.len(), 1);
    assert!(matches!(&errors[0], Error::UnknownName(range, name) if name == "ghost" && range.start == 0));
}

#[test]
fn closures_bind_to_arrow_types() {
    let mut interpreter = Interpreter::new();
    let mut session = String::new();
    let (bound, errors) = bind_line(&mut interpreter, &mut session, "f = x : Number \u{2192} x");
    assert!(errors.is_empty());
    assert_eq!(bound, Type::Nothing);
    let (bound, errors) = bind_line(&mut interpreter, &mut session, "f");
    assert!(errors.is_empty());
    assert_eq!(bound, Type::Closure(Box::new(Type::Number), Box::new(Type::Number)));
}

#[test]
fn literal_types_depend_on_the_token_alone() {
    let mut interpreter = Interpreter::new();
    let mut session = String::new();
    assert_eq!(bind_line(&mut interpreter, &mut session, "1").0, Type::Number);
    assert_eq!(bind_line(&mut interpreter, &mut session, "\"s\"").0, Type::String);
    assert_eq!(bind_line(&mut interpreter, &mut session, "false").0, Type::Boolean);
    assert_eq!(bind_line(&mut interpreter, &mut session, "none").0, Type::Nothing);
}

#[test]
fn library_registrations_bind_with_their_declared_types() {
    let mut interpreter = Interpreter::new();
    let mut session = String::new();
    let number = Box::new(Type::Number);
    let (bound, _) = bind_line(&mut interpreter, &mut session, "add");
    assert_eq!(
        bound,
        Type::Closure(number.clone(), Box::new(Type::Closure(number.clone(), number.clone())))
    );
    let string = Box::new(Type::String);
    let (bound, _) = bind_line(&mut interpreter, &mut session, "cat");
    assert_eq!(
        bound,
        Type::Closure(string.clone(), Box::new(Type::Closure(string.clone(), string)))
    );
}

#[test]
fn diagnostics_carry_category_span_and_message() {
    let error = Error::UnknownName(3..8, String::from("ghost"));
    assert_eq!(error.category(), Category::Type);
    assert_eq!(error.span(), (3, 8));
    assert_eq!(error.message(), "Unknown name \"ghost\"");
    let error = Error::UnexpectedType(0..0, Type::Number, Type::String);
    assert_eq!(error.message(), "Unexpected type String, expected a Number");
    let error = Error::BadCall(0..0);
    assert_eq!(error.message(), "Cannot call a non-closure value");
    let syntax = Error::UnexpectedToken(0..1, minilang::token::Token::Lambda, minilang::token::Token::Number);
    assert_eq!(syntax.category(), Category::Syntax);
    assert_eq!(syntax.message(), "Unexpected token Number, expected Lambda");
    let mismatch = Error::MismatchedTypeAssignment(
        0..1,
        String::from("x"),
        Type::String,
        Type::Number,
    );
    assert_eq!(
        mismatch.message(),
        "Tried to assign expression of type String to name \"x\", which is of type Number"
    );
}

#[test]
fn closure_types_render_with_their_parts() {
    let arrow = Type::Closure(Box::new(Type::Number), Box::new(Type::Nothing));
    assert_eq!(arrow.text(), "Closure(Number, None)");
}
