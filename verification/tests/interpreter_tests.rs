use lox_interp::interpreter::{Action, ErrorKind, Interpreter, RuntimeError};
use lox_interp::lox_callable::{LoxCallable, LoxFunction};
use lox_interp::machine::{Arithmetic, Request};
use lox_interp::parser::Parser;
use lox_interp::scanner::Scanner;
use lox_interp::token::{Object, Token};
use lox_interp::token_type::TokenType;

struct Run {
    output: Vec<String>,
    code: i32,
    error: Option<RuntimeError>,
    steps: usize,
}

fn compute(request: Request) -> u64 {
    let a = f64::from_bits(request.left);
    let b = f64::from_bits(request.right);
    let r = match request.operator {
        Arithmetic::Add => a + b,
        Arithmetic::Subtract => a - b,
        Arithmetic::Multiply => a * b,
        Arithmetic::Divide => a / b,
    };
    r.to_bits()
}

fn render(value: &Object) -> String {
    match Interpreter::stringify(value) {
        Some(text) => text,
        None => match value {
            Object::Number(bits) => format!("{}", f64::from_bits(*bits)),
            _ => unreachable!(),
        },
    }
}

fn run_limited(source: &str, limit: usize) -> Run {
    let mut run = Run { output: Vec::new(), code: 0, error: None, steps: 0 };
    let mut tokens = match Scanner::new().scan_tokens(source.to_string()) {
        Ok(tokens) => tokens,
        Err(_) => {
            run.code = 65;
            return run;
        }
    };
    for token in tokens.iter_mut() {
        if token.token_type == TokenType::Number {
            let value: f64 = token.lexeme.parse().unwrap();
            token.literal = Object::Number(value.to_bits());
        }
    }
    let statements = match Parser::new(tokens).parse() {
        Ok(statements) => statements,
        Err(_) => {
            run.code = 65;
            return run;
        }
    };
    let mut interpreter = Interpreter::new();
    interpreter.interpret(statements);
    let mut answer = None;
    while run.steps < limit {
        run.steps += 1;
        match interpreter.step(answer.take()) {
            Action::Continue => {}
            Action::Print(value) => run.output.push(render(&value)),
            Action::Compute(request) => answer = Some(compute(request)),
            Action::Finished => return run,
            Action::Failed(error) => {
                run.code = 70;
                run.error = Some(error);
                return run;
            }
        }
    }
    run.code = -1;
    run
}

fn run(source: &str) -> Run {
    run_limited(source, 1_000_000)
}

fn output(source: &str) -> Vec<String> {
    let r = run(source);
    assert_eq!(r.code, 0, "error: {:?}", r.error);
    r.output
}

fn failure(source: &str) -> RuntimeError {
    let r = run(source);
    assert_eq!(r.code, 70);
    r.error.unwrap()
}

#[test]
fn arithmetic_with_precedence() {
    let r = run("print 1 + 2 * 3;");
    assert_eq!(r.output, vec!["7"]);
    assert_eq!(r.code, 0);
}

#[test]
fn string_concatenation() {
    let r = run("var a = \"hi\"; print a + \" there\";");
    assert_eq!(r.output, vec!["hi there"]);
    assert_eq!(r.code, 0);
}

#[test]
fn while_loop_counts() {
    let r = run("var i = 0; while (i < 3) { print i; i = i + 1; }");
    assert_eq!(r.output, vec!["0", "1", "2"]);
    assert_eq!(r.code, 0);
}

#[test]
fn closures_keep_their_scope() {
    let source = "fun makeCounter() {\n  var n = 0;\n  fun count() { n = n + 1; return n; }\n  return count;\n}\nvar c = makeCounter();\nprint c(); print c(); print c();";
    let r = run(source);
    assert_eq!(r.output, vec!["1", "2", "3"]);
    assert_eq!(r.code, 0);
}

#[test]
fn two_counters_do_not_share() {
    let source = "fun makeCounter() { var n = 0; fun count() { n = n + 1; return n; } return count; }\nvar a = makeCounter(); var b = makeCounter();\nprint a(); print a(); print b(); print a();";
    assert_eq!(output(source), vec!["1", "2", "1", "3"]);
}

#[test]
fn early_return_through_nested_blocks() {
    let source = "fun f(x) { if (x > 0) { return \"pos\"; } return \"np\"; }\nprint f(5); print f(-1);";
    let r = run(source);
    assert_eq!(r.output, vec!["pos", "np"]);
    assert_eq!(r.code, 0);
}

#[test]
fn return_restores_the_scope_of_the_caller() {
    let source = "var x = \"outer\";\nfun f() { var x = \"inner\"; { { while (true) { return x; } } } }\n{ var x = \"block\"; print f(); print x; }\nprint x;";
    assert_eq!(output(source), vec!["inner", "block", "outer"]);
}

#[test]
fn undefined_variable_is_a_runtime_error() {
    let r = run("print x;");
    assert_eq!(r.code, 70);
    let e = r.error.unwrap();
    assert!(e.message.contains("Undefined variable 'x'"));
    assert_eq!(e.kind, ErrorKind::UndefinedName);
    assert_eq!(e.line, 1);
    assert!(r.output.is_empty());
}

#[test]
fn parse_error_stops_before_evaluation() {
    let r = run("var ;\nprint 1;");
    assert_eq!(r.code, 65);
    assert!(r.output.is_empty());
}

#[test]
fn lex_error_stops_before_parsing() {
    let r = run("print 1; @");
    assert_eq!(r.code, 65);
    assert!(r.output.is_empty());
}

#[test]
fn runtime_error_ends_the_program() {
    let r = run("print 1; print -\"a\"; print 2;");
    assert_eq!(r.output, vec!["1"]);
    assert_eq!(r.code, 70);
}

#[test]
fn zero_and_empty_string_are_truthy() {
    assert_eq!(
        output("if (0) print \"y\"; else print \"n\"; if (\"\") print \"y\"; else print \"n\";"),
        vec!["y", "y"]
    );
    assert_eq!(
        output("if (nil) print \"y\"; else print \"n\"; if (false) print \"y\"; else print \"n\";"),
        vec!["n", "n"]
    );
    assert_eq!(output("print !0; print !nil; print !\"\"; print !!false;"),
        vec!["false", "true", "false", "false"]);
}

#[test]
fn equality_of_values() {
    assert_eq!(
        output("print nil == nil; print nil == 0; print nil == false; print nil != 0;"),
        vec!["true", "false", "false", "true"]
    );
    assert_eq!(
        output("print 1 == 1; print 1 == 2; print \"a\" == \"a\"; print \"a\" == \"b\"; print 1 == \"1\"; print true == true; print true != false;"),
        vec!["true", "false", "true", "false", "false", "true", "true"]
    );
    assert_eq!(output("print 0 == -0; print (0/0) == (0/0);"), vec!["true", "false"]);
    assert_eq!(
        output("fun f() {} fun g() {} var h = f; print f == f; print f == h; print f == g;"),
        vec!["true", "true", "false"]
    );
}

#[test]
fn logical_operators_return_the_deciding_operand() {
    assert_eq!(output("print nil or 1; print 0 and 2; print false or false; print 1 and nil;"),
        vec!["1", "2", "false", "nil"]);
    assert_eq!(output("print 1 or 2; print nil and 2;"), vec!["1", "nil"]);
}

#[test]
fn short_circuit_skips_the_right_operand() {
    let source = "var n = 0; fun hit() { n = n + 1; return true; }\nprint true or hit(); print false and hit(); print n;\nprint false or hit(); print true and hit(); print n;";
    assert_eq!(output(source), vec!["true", "false", "0", "true", "true", "2"]);
}

#[test]
fn comparison_of_numbers() {
    assert_eq!(
        output("print 1 < 2; print 2 < 1; print 1 <= 1; print 1 > 2; print 2 >= 2; print -1 < 0; print -2 < -1; print 0.5 > 0.25;"),
        vec!["true", "false", "true", "false", "true", "true", "true", "true"]
    );
    assert_eq!(output("var nan = 0/0; print nan < 1; print nan >= 1; print nan <= nan;"),
        vec!["false", "false", "false"]);
    assert_eq!(output("print -0 < 0; print -0 <= 0; print 1/0 > 1000;"), vec!["false", "true", "true"]);
}

#[test]
fn division_never_fails() {
    assert_eq!(output("print 1 / 0; print -1 / 0; print 0 / 0; print 7 / 2;"),
        vec!["inf", "-inf", "NaN", "3.5"]);
}

#[test]
fn numbers_print_without_a_trailing_fraction() {
    assert_eq!(output("print 3; print 3.0; print 2.5; print -0.1; print 10 / 4; print 100;"),
        vec!["3", "3", "2.5", "-0.1", "2.5", "100"]);
}

#[test]
fn unary_minus() {
    assert_eq!(output("print -3; print --3; print -(1 - 4); print 1 - -1;"), vec!["-3", "3", "3", "2"]);
}

#[test]
fn values_print_as_specified() {
    assert_eq!(
        output("fun f() {} var a; print a; print nil; print true; print false; print \"s\"; print f;"),
        vec!["nil", "nil", "true", "false", "s", "<fn f>"]
    );
}

#[test]
fn assignment_is_an_expression() {
    assert_eq!(output("var a; var b; print a = b = 3; print a; print b;"), vec!["3", "3", "3"]);
    assert_eq!(output("var v = 2; v = v; print v;"), vec!["2"]);
}

#[test]
fn assignment_to_an_undefined_name_fails() {
    let e = failure("x = 1;");
    assert_eq!(e.kind, ErrorKind::UndefinedName);
    assert_eq!(e.message, "Undefined variable 'x'");
}

#[test]
fn blocks_scope_their_variables() {
    assert_eq!(
        output("var a = 1; { var a = 2; print a; { a = 3; var b = 9; } print a; } print a;"),
        vec!["2", "3", "1"]
    );
    let e = failure("{ var b = 1; } print b;");
    assert_eq!(e.kind, ErrorKind::UndefinedName);
}

#[test]
fn inner_assignment_reaches_the_outer_variable() {
    assert_eq!(output("var a = 1; { { a = 2; } } print a;"), vec!["2"]);
}

#[test]
fn while_body_does_not_make_a_scope_of_its_own() {
    assert_eq!(
        output("var i = 0; while (i < 2) { var j = i * 10; print j; i = i + 1; } print i;"),
        vec!["0", "10", "2"]
    );
    assert_eq!(output("var i = 0; while (i < 2) i = i + 1; print i;"), vec!["2"]);
}

#[test]
fn for_loop() {
    assert_eq!(output("for (var i = 0; i < 3; i = i + 1) print i;"), vec!["0", "1", "2"]);
    let e = failure("for (var i = 0; i < 1; i = i + 1) {} print i;");
    assert_eq!(e.kind, ErrorKind::UndefinedName);
    assert_eq!(
        output("var i = 5; for (; i < 7;) { print i; i = i + 1; }"),
        vec!["5", "6"]
    );
}

#[test]
fn recursion() {
    let source = "fun fib(n) { if (n < 2) return n; return fib(n - 1) + fib(n - 2); }\nprint fib(10);";
    assert_eq!(output(source), vec!["55"]);
}

#[test]
fn function_without_return_gives_nil() {
    assert_eq!(output("fun f() { 1 + 1; } print f(); fun g() { return; } print g();"),
        vec!["nil", "nil"]);
}

#[test]
fn parameters_are_bound_in_order() {
    assert_eq!(output("fun f(a, b, c) { print a; print b; print c; } f(1, \"two\", nil);"),
        vec!["1", "two", "nil"]);
    assert_eq!(output("fun f(a) { a = a + 1; return a; } var x = 1; print f(x); print x;"),
        vec!["2", "1"]);
}

#[test]
fn arguments_are_evaluated_left_to_right_in_the_scope_of_the_caller() {
    let source = "var t = \"\"; fun note(s) { t = t + s; return s; }\nfun f(a, b) { return a + b; }\n{ var a = \"x\"; print f(note(a), note(\"y\")); }\nprint t;";
    assert_eq!(output(source), vec!["xy", "xy"]);
}

#[test]
fn operands_are_evaluated_left_to_right() {
    let source = "var t = \"\"; fun note(s, v) { t = t + s; return v; }\nprint note(\"a\", 1) - note(\"b\", 2) * note(\"c\", 3); print t;";
    assert_eq!(output(source), vec!["-5", "abc"]);
}

#[test]
fn functions_see_globals_defined_later() {
    assert_eq!(output("fun f() { return g(); } fun g() { return 7; } print f();"), vec!["7"]);
}

#[test]
fn calling_something_else_than_a_function_fails() {
    let e = failure("var a = 1;\na(2);");
    assert_eq!(e.kind, ErrorKind::NotCallable);
    assert_eq!(e.message, "Can only call functions and classes.");
    assert_eq!(e.line, 2);
    assert_eq!(failure("\"s\"();").kind, ErrorKind::NotCallable);
}

#[test]
fn callee_is_checked_before_the_arguments_are_evaluated() {
    let r = run("fun p() { print 1; return 1; } nil(p());");
    assert_eq!(r.code, 70);
    assert!(r.output.is_empty());
}

#[test]
fn wrong_number_of_arguments_fails_after_they_are_evaluated() {
    let r = run("fun f(a) {} fun p() { print \"p\"; return 1; }\nf(p(), p());");
    assert_eq!(r.output, vec!["p", "p"]);
    let e = r.error.unwrap();
    assert_eq!(e.kind, ErrorKind::ArityMismatch);
    assert_eq!(e.message, "Expected 1 arguments but got 2.");
    assert_eq!(e.line, 2);
    let e = failure("fun f(a, b) {} f();");
    assert_eq!(e.message, "Expected 2 arguments but got 0.");
}

#[test]
fn operators_reject_operands_of_the_wrong_kind() {
    let e = failure("print 1 + \"a\";");
    assert_eq!(e.kind, ErrorKind::TypeMismatch);
    assert_eq!(e.message, "Operands must be two numbers or two strings.");
    assert_eq!(failure("print \"a\" + nil;").kind, ErrorKind::TypeMismatch);
    let e = failure("print \"a\" - \"b\";");
    assert_eq!(e.message, "Operands must be numbers.");
    assert_eq!(failure("print 1 * nil;").kind, ErrorKind::TypeMismatch);
    assert_eq!(failure("print true / 2;").kind, ErrorKind::TypeMismatch);
    assert_eq!(failure("print 1 < \"2\";").kind, ErrorKind::TypeMismatch);
    assert_eq!(failure("print \"a\" >= \"b\";").kind, ErrorKind::TypeMismatch);
    let e = failure("\n\nprint -nil;");
    assert_eq!(e.message, "Operand must be a number.");
    assert_eq!(e.line, 3);
}

#[test]
fn return_outside_of_a_function_is_a_runtime_error() {
    let r = run("print 1;\nreturn 2;\nprint 3;");
    assert_eq!(r.output, vec!["1"]);
    assert_eq!(r.code, 70);
    let e = r.error.unwrap();
    assert_eq!(e.kind, ErrorKind::StrayReturn);
    assert_eq!(e.line, 2);
    assert_eq!(failure("{ return; }").kind, ErrorKind::StrayReturn);
}

#[test]
fn endless_program_keeps_stepping() {
    let r = run_limited("var i = 0; while (true) { i = i + 1; }", 5000);
    assert_eq!(r.code, -1);
    assert_eq!(r.steps, 5000);
}

#[test]
fn empty_program_finishes_at_once() {
    let r = run("");
    assert_eq!(r.code, 0);
    assert_eq!(r.steps, 2);
}

#[test]
fn unanswered_request_is_made_again() {
    let mut tokens = Scanner::new().scan_tokens("print 1 + 2;".to_string()).unwrap();
    for token in tokens.iter_mut() {
        if token.token_type == TokenType::Number {
            let value: f64 = token.lexeme.parse().unwrap();
            token.literal = Object::Number(value.to_bits());
        }
    }
    let statements = Parser::new(tokens).parse().unwrap();
    let mut interpreter = Interpreter::new();
    interpreter.interpret(statements);
    let mut request = None;
    for _ in 0..100 {
        if let Action::Compute(r) = interpreter.step(None) {
            request = Some(r);
            break;
        }
    }
    let request = request.unwrap();
    assert_eq!(request.operator, Arithmetic::Add);
    assert_eq!(f64::from_bits(request.left), 1.0);
    assert_eq!(f64::from_bits(request.right), 2.0);
    assert!(matches!(interpreter.step(None), Action::Compute(r) if r == request));
    assert!(matches!(interpreter.step(Some(3.0f64.to_bits())), Action::Continue));
    assert!(matches!(interpreter.value(), Object::Number(bits) if f64::from_bits(*bits) == 3.0));
    assert!(matches!(interpreter.step(None), Action::Print(Object::Number(_))));
    assert!(!interpreter.is_finished());
    assert!(matches!(interpreter.step(None), Action::Continue));
    assert!(interpreter.is_finished());
    assert!(matches!(interpreter.step(None), Action::Finished));
}

#[test]
fn failure_leaves_every_open_scope() {
    let mut tokens = Scanner::new().scan_tokens("fun f() { { { print x; } } } { f(); }".to_string()).unwrap();
    tokens.retain(|_| true);
    let statements = Parser::new(tokens).parse().unwrap();
    let mut interpreter = Interpreter::new();
    let global = interpreter.environment().get_current();
    interpreter.interpret(statements);
    let mut failed = false;
    for _ in 0..1000 {
        match interpreter.step(None) {
            Action::Failed(_) => {
                failed = true;
                break;
            }
            _ => {}
        }
    }
    assert!(failed);
    assert_eq!(interpreter.environment().get_current(), global);
    assert!(interpreter.is_finished());
}

#[test]
fn truthiness_and_equality_helpers() {
    assert!(Interpreter::is_truthy(&Object::Number(0)));
    assert!(Interpreter::is_truthy(&Object::String(String::new())));
    assert!(!Interpreter::is_truthy(&Object::NULL));
    assert!(!Interpreter::is_truthy(&Object::Boolean(false)));
    assert!(Interpreter::is_truthy(&Object::Boolean(true)));
    assert!(Interpreter::is_equal(&Object::NULL, &Object::NULL));
    assert!(!Interpreter::is_equal(&Object::NULL, &Object::Number(0)));
    assert!(!Interpreter::is_equal(&Object::NULL, &Object::Boolean(false)));
    assert!(Interpreter::is_equal(&Object::String("a".to_string()), &Object::String("a".to_string())));
    assert!(!Interpreter::is_equal(&Object::Number(1.0f64.to_bits()), &Object::String("1".to_string())));
}

#[test]
fn stringify_renders_all_but_numbers() {
    assert_eq!(Interpreter::stringify(&Object::NULL), Some("nil".to_string()));
    assert_eq!(Interpreter::stringify(&Object::Boolean(true)), Some("true".to_string()));
    assert_eq!(Interpreter::stringify(&Object::Boolean(false)), Some("false".to_string()));
    assert_eq!(Interpreter::stringify(&Object::String("x y".to_string())), Some("x y".to_string()));
    assert_eq!(Interpreter::stringify(&Object::Number(1.0f64.to_bits())), None);
}

fn prepared(source: &str) -> Interpreter {
    let mut tokens = Scanner::new().scan_tokens(source.to_string()).unwrap();
    for token in tokens.iter_mut() {
        if token.token_type == TokenType::Number {
            let value: f64 = token.lexeme.parse().unwrap();
            token.literal = Object::Number(value.to_bits());
        }
    }
    let statements = Parser::new(tokens).parse().unwrap();
    let mut interpreter = Interpreter::new();
    interpreter.interpret(statements);
    interpreter
}

fn finish(interpreter: &mut Interpreter) -> Vec<String> {
    let mut output = Vec::new();
    let mut answer = None;
    for _ in 0..100_000 {
        match interpreter.step(answer.take()) {
            Action::Continue => {}
            Action::Print(value) => output.push(render(&value)),
            Action::Compute(request) => answer = Some(compute(request)),
            Action::Finished => return output,
            Action::Failed(error) => panic!("{:?}", error),
        }
    }
    panic!("the program did not end");
}

fn function_named(interpreter: &Interpreter, name: &str) -> std::rc::Rc<LoxFunction> {
    let token = Token::new(TokenType::Identifier, name.to_string(), Object::NULL, 1, 1);
    match interpreter.environment().get(token).unwrap() {
        Object::LoxFunction(f) => f,
        other => panic!("not a function: {:?}", other),
    }
}

#[test]
fn a_function_can_be_called_with_values() {
    let mut interpreter = prepared("var seen = 0; fun f(a, b) { seen = a; print b; return a; }");
    assert!(finish(&mut interpreter).is_empty());
    let f = function_named(&interpreter, "f");
    assert_eq!(f.arity(), 2);
    let before = interpreter.environment().get_current();
    let action = f.call(
        &mut interpreter,
        vec![Object::String("x".to_string()), Object::Boolean(true), Object::NULL],
    );
    assert!(matches!(action, Action::Continue));
    assert_ne!(interpreter.environment().get_current(), before);
    assert_eq!(finish(&mut interpreter), vec!["true"]);
    assert_eq!(interpreter.environment().get_current(), before);
    assert!(matches!(interpreter.value(), Object::String(s) if s == "x"));
    let seen = Token::new(TokenType::Identifier, "seen".to_string(), Object::NULL, 1, 1);
    assert!(matches!(interpreter.environment().get(seen).unwrap(), Object::String(s) if s == "x"));
}

#[test]
fn a_call_with_too_few_values_fails() {
    let mut interpreter = prepared("fun f(a,\n  b) {}");
    finish(&mut interpreter);
    let f = function_named(&interpreter, "f");
    match f.call(&mut interpreter, vec![Object::NULL]) {
        Action::Failed(e) => {
            assert_eq!(e.kind, ErrorKind::ArityMismatch);
            assert_eq!(e.message, "Missing argument for 'b'");
            assert_eq!((e.line, e.column), (2, 3));
        }
        other => panic!("unexpected {:?}", other),
    }
}

#[test]
fn a_function_of_another_interpreter_cannot_be_called() {
    let mut first = prepared("var g; fun outer() { { { fun inner() {} g = inner; } } } outer();");
    finish(&mut first);
    let inner = function_named(&first, "g");
    let mut second = Interpreter::new();
    match inner.call(&mut second, vec![]) {
        Action::Failed(e) => {
            assert_eq!(e.kind, ErrorKind::NotCallable);
            assert_eq!(e.message, "Can only call functions of this interpreter.");
        }
        other => panic!("unexpected {:?}", other),
    }
}

#[test]
fn runtime_errors_carry_the_place_of_their_token() {
    let e = failure("var a = 1;\n  a = a + nil;");
    assert_eq!((e.line, e.column), (2, 9));
    let e = failure("print 1;\nprint  missing;");
    assert_eq!((e.line, e.column), (2, 8));
    let e = failure("var f = 1;\nf(1, 2);");
    assert_eq!((e.line, e.column), (2, 7));
    let e = failure("fun f() {}\nf(1\n);");
    assert_eq!(e.kind, ErrorKind::ArityMismatch);
    assert_eq!((e.line, e.column), (3, 1));
}

#[test]
fn assigning_a_variable_its_own_value_prints_the_same() {
    assert_eq!(
        output("var v = 1.5; print v; print v = v; print v; var s = \"t\"; s = s; print s;"),
        vec!["1.5", "1.5", "1.5", "t"]
    );
}
