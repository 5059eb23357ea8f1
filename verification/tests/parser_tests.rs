use lox_interp::expr::{Expr, Stmt};
use lox_interp::parser::{ParseError, Parser};
use lox_interp::scanner::Scanner;
use lox_interp::token::{Object, Token};
use lox_interp::token_type::TokenType;

fn tokens_of(source: &str) -> Vec<Token> {
    let mut tokens = Scanner::new().scan_tokens(source.to_string()).unwrap();
    for token in tokens.iter_mut() {
        if token.token_type == TokenType::Number {
            let value: f64 = token.lexeme.parse().unwrap();
            token.literal = Object::Number(value.to_bits());
        }
    }
    tokens
}

fn parse_source(source: &str) -> Result<Vec<Stmt>, Vec<ParseError>> {
    Parser::new(tokens_of(source)).parse()
}

fn show_value(value: &Object) -> String {
    match value {
        Object::String(s) => format!("{:?}", s),
        Object::NULL => "nil".to_string(),
        Object::Number(bits) => format!("{}", f64::from_bits(*bits)),
        Object::Boolean(b) => format!("{}", b),
        Object::LoxFunction(_) => "<fn>".to_string(),
    }
}

fn show(e: &Expr) -> String {
    match e {
        Expr::Binary { left, operator, right } => {
            format!("({} {} {})", operator.lexeme, show(left), show(right))
        }
        Expr::Logical { left, operator, right } => {
            format!("[{} {} {}]", operator.lexeme, show(left), show(right))
        }
        Expr::Unary { operator, right } => format!("({} {})", operator.lexeme, show(right)),
        Expr::Grouping(inner) => format!("(group {})", show(inner)),
        Expr::Literal(value) => show_value(value),
        Expr::Variable(name) => name.lexeme.clone(),
        Expr::Assign { name, value } => format!("(= {} {})", name.lexeme, show(value)),
        Expr::Call { callee, arguments, .. } => {
            let args: Vec<String> = arguments.iter().map(show).collect();
            format!("(call {} [{}])", show(callee), args.join(" "))
        }
    }
}

fn show_stmt(s: &Stmt) -> String {
    match s {
        Stmt::Expression(e) => format!("(expr {})", show(e)),
        Stmt::Print(e) => format!("(print {})", show(e)),
        Stmt::Var { name, initializer } => match initializer {
            Some(e) => format!("(var {} {})", name.lexeme, show(e)),
            None => format!("(var {})", name.lexeme),
        },
        Stmt::Block(stmts) => {
            let items: Vec<String> = stmts.iter().map(show_stmt).collect();
            format!("{{{}}}", items.join(" "))
        }
        Stmt::If { condition, then_branch, else_branch } => match else_branch {
            Some(e) => format!("(if {} {} {})", show(condition), show_stmt(then_branch), show_stmt(e)),
            None => format!("(if {} {})", show(condition), show_stmt(then_branch)),
        },
        Stmt::While { condition, body } => {
            format!("(while {} {})", show(condition), show_stmt(body))
        }
        Stmt::Function { name, params, body } => {
            let names: Vec<String> = params.iter().map(|p| p.lexeme.clone()).collect();
            let items: Vec<String> = body.iter().map(show_stmt).collect();
            format!("(fun {} [{}] {{{}}})", name.lexeme, names.join(" "), items.join(" "))
        }
        Stmt::Return { value, .. } => match value {
            Some(e) => format!("(return {})", show(e)),
            None => "(return)".to_string(),
        },
    }
}

fn shown(source: &str) -> String {
    let stmts = parse_source(source).unwrap();
    let items: Vec<String> = stmts.iter().map(show_stmt).collect();
    items.join(" ")
}

fn messages(source: &str) -> Vec<String> {
    parse_source(source).unwrap_err().into_iter().map(|e| e.message).collect()
}

#[test]
fn precedence_of_term_and_factor() {
    assert_eq!(shown("print 1 + 2 * 3;"), "(print (+ 1 (* 2 3)))");
    assert_eq!(shown("1 * 2 + 3;"), "(expr (+ (* 1 2) 3))");
}

#[test]
fn binary_operators_group_to_the_left() {
    assert_eq!(shown("1 - 2 - 3;"), "(expr (- (- 1 2) 3))");
    assert_eq!(shown("8 / 4 / 2;"), "(expr (/ (/ 8 4) 2))");
    assert_eq!(shown("1 < 2 == 3 > 4;"), "(expr (== (< 1 2) (> 3 4)))");
}

#[test]
fn logical_operators() {
    assert_eq!(shown("a or b and c;"), "(expr [or a [and b c]])");
    assert_eq!(shown("a and b or c;"), "(expr [or [and a b] c])");
    assert_eq!(shown("a == b and c != d;"), "(expr [and (== a b) (!= c d)])");
}

#[test]
fn unary_and_grouping() {
    assert_eq!(shown("-!x;"), "(expr (- (! x)))");
    assert_eq!(shown("-(1 + 2) * 3;"), "(expr (* (- (group (+ 1 2))) 3))");
}

#[test]
fn literals() {
    assert_eq!(shown("true; false; nil; 1.5; \"s\";"),
        "(expr true) (expr false) (expr nil) (expr 1.5) (expr \"s\")");
}

#[test]
fn assignment_is_right_associative() {
    assert_eq!(shown("a = b = c;"), "(expr (= a (= b c)))");
    assert_eq!(shown("a = 1 + 2;"), "(expr (= a (+ 1 2)))");
}

#[test]
fn invalid_assignment_target_is_reported_and_parsing_goes_on() {
    let errors = parse_source("1 + 2 = 3; print 4").unwrap_err();
    assert_eq!(errors.len(), 2);
    assert_eq!(errors[0].message, "Invalid assignment target.");
    assert_eq!((errors[0].line, errors[0].column), (1, 7));
    assert_eq!(errors[1].message, "Expect ';' after value. (found '' instead)");
    assert_eq!(messages("(a) = 1;"), vec!["Invalid assignment target."]);
}

#[test]
fn calls() {
    assert_eq!(shown("f();"), "(expr (call f []))");
    assert_eq!(shown("f(1, 2)(3);"), "(expr (call (call f [1 2]) [3]))");
    assert_eq!(shown("-f(a = 1);"), "(expr (- (call f [(= a 1)])))");
}

#[test]
fn call_with_255_arguments_is_accepted() {
    let args: Vec<String> = (0..255).map(|i| i.to_string()).collect();
    let source = format!("f({});", args.join(", "));
    assert!(parse_source(&source).is_ok());
}

#[test]
fn call_with_256_arguments_is_reported_once() {
    let args: Vec<String> = (0..256).map(|i| i.to_string()).collect();
    let source = format!("f({}); print 1;", args.join(", "));
    assert_eq!(messages(&source), vec!["Can't have more than 255 arguments."]);
}

#[test]
fn declarations_and_statements() {
    assert_eq!(shown("var a; var b = 1;"), "(var a) (var b 1)");
    assert_eq!(shown("{ var a = 1; print a; } {}"), "{(var a 1) (print a)} {}");
    assert_eq!(shown("if (a) print 1; else print 2;"), "(if a (print 1) (print 2))");
    assert_eq!(shown("if (a) if (b) print 1; else print 2;"), "(if a (if b (print 1) (print 2)))");
    assert_eq!(shown("while (a < 3) a = a + 1;"), "(while (< a 3) (expr (= a (+ a 1))))");
    assert_eq!(shown("fun f(a, b) { return a + b; } fun g() { return; }"),
        "(fun f [a b] {(return (+ a b))}) (fun g [] {(return)})");
}

#[test]
fn for_loops_are_desugared() {
    assert_eq!(
        shown("for (var i = 0; i < 3; i = i + 1) print i;"),
        "{(var i 0) (while (< i 3) {(print i) (expr (= i (+ i 1)))})}"
    );
    assert_eq!(shown("for (;;) print 1;"), "(while true (print 1))");
    assert_eq!(shown("for (i = 0; ; ) {}"), "{(expr (= i 0)) (while true {})}");
    assert_eq!(shown("for (; i < 2; ) {}"), "(while (< i 2) {})");
    assert_eq!(shown("for (; ; i = 1) f();"), "(while true {(expr (call f [])) (expr (= i 1))})");
}

#[test]
fn missing_tokens_are_reported_behind_the_previous_token() {
    let errors = parse_source("print 12").unwrap_err();
    assert_eq!(errors.len(), 1);
    assert_eq!(errors[0].message, "Expect ';' after value. (found '' instead)");
    assert_eq!((errors[0].line, errors[0].column), (1, 9));
    assert_eq!(messages("(1 + 2;"), vec!["Expect ')' after expression. (found ';' instead)"]);
    assert_eq!(messages("{ print 1;"), vec!["Expect '}' after block. (found '' instead)"]);
    assert_eq!(messages("if x) y;"), vec!["Expect '(' after 'if'. (found 'x' instead)"]);
    assert_eq!(messages("while (x y;"), vec!["Expect ')' after condition. (found 'y' instead)"]);
    assert_eq!(messages("fun (a) {}"), vec!["Expect function name. (found '(' instead)"]);
    assert_eq!(messages("fun f(1) {}"), vec!["Expect parameter name. (found '1' instead)"]);
    assert_eq!(messages("f(1;"), vec!["Expect ')' after arguments. (found ';' instead)"]);
}

#[test]
fn expected_expression() {
    let errors = parse_source("print ;").unwrap_err();
    assert_eq!(errors.len(), 1);
    assert_eq!(errors[0].message, "Expect expression.");
    assert_eq!((errors[0].line, errors[0].column), (1, 7));
}

#[test]
fn recovery_resumes_behind_a_semicolon() {
    let errors = parse_source("var ;\nprint 1;\nvar = 2; print +;").unwrap_err();
    let places: Vec<(usize, usize)> = errors.iter().map(|e| (e.line, e.column)).collect();
    assert_eq!(errors.len(), 3);
    assert_eq!(errors[0].message, "Expect variable name. (found ';' instead)");
    assert_eq!(places, vec![(1, 4), (3, 4), (3, 16)]);
}

#[test]
fn recovery_resumes_in_front_of_a_statement_keyword() {
    let errors = parse_source("1 + * 2 print 3; (").unwrap_err();
    assert_eq!(errors.len(), 2);
    assert_eq!(errors[0].message, "Expect expression.");
    assert_eq!(errors[1].message, "Expect expression.");
    assert_eq!((errors[1].line, errors[1].column), (1, 19));
}

#[test]
fn bad_declaration_then_good_statement_gives_one_error() {
    let errors = parse_source("var ;\nprint 1;").unwrap_err();
    assert_eq!(errors.len(), 1);
}

#[test]
fn number_token_without_a_value_is_an_error() {
    let tokens = Scanner::new().scan_tokens("1;".to_string()).unwrap();
    let errors = Parser::new(tokens).parse().unwrap_err();
    assert_eq!(errors[0].message, "Expected number or string literal.");
}

#[test]
fn empty_program() {
    assert!(parse_source("").unwrap().is_empty());
    assert!(parse_source("// nothing\n").unwrap().is_empty());
}
