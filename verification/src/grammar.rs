//! The grammar, as functions from a token sequence and a position to what
//! stands there.
//!
//! ```text
//! program     := declaration* EOF
//! declaration := varDecl | funDecl | statement
//! varDecl     := "var" IDENT ( "=" expression )? ";"
//! funDecl     := "fun" IDENT "(" params? ")" block
//! statement   := exprStmt | printStmt | block | ifStmt | whileStmt
//!              | forStmt | returnStmt
//! block       := "{" declaration* "}"
//! expression  := assignment
//! assignment  := IDENT "=" assignment | logic_or
//! logic_or    := logic_and ( "or" logic_and )*
//! logic_and   := equality ( "and" equality )*
//! equality    := comparison ( ("!="|"==") comparison )*
//! comparison  := term ( (">"|">="|"<"|"<=") term )*
//! term        := factor ( ("-"|"+") factor )*
//! factor      := unary ( ("/"|"*") unary )*
//! unary       := ("!"|"-") unary | call
//! call        := primary ( "(" args? ")" )*
//! primary     := "true"|"false"|"nil"|NUMBER|STRING|IDENT|"(" expression ")"
//! ```
//!
//! The functions call one another as the rules do. That this ends is shown
//! by two measures: the number of tokens that are left, and, among functions
//! that call one another without going over a token, a rank that the caller
//! has above the callee.

use crate::expr::{ExprModel, StmtModel};
use crate::token::{Object, Token};
use crate::token_type::TokenType;
use vstd::prelude::*;

verus! {

/// A syntax error: the model of a `ParseError`.
pub struct SyntaxError {
    pub message: Seq<char>,
    pub line: nat,
    pub column: nat,
}

/// What parsing one construct gives: the construct or the error that ended
/// it, the number of tokens it went over, and the errors that were reported
/// on the way without ending it.
pub struct Parsed<T> {
    pub result: Result<T, SyntaxError>,
    pub used: nat,
    pub reports: Seq<SyntaxError>,
}

impl<T> Parsed<T> {
    pub open spec fn accept(value: T, used: nat) -> Self {
        Parsed { result: Ok(value), used, reports: Seq::empty() }
    }

    pub open spec fn reject(error: SyntaxError, used: nat) -> Self {
        Parsed { result: Err(error), used, reports: Seq::empty() }
    }

    /// The same result, reached after `used` more tokens and `reports` more
    /// reports, which came first.
    pub open spec fn after(self, used: nat, reports: Seq<SyntaxError>) -> Self {
        Parsed { result: self.result, used: used + self.used, reports: reports + self.reports }
    }

    /// The failure of a part, as the failure of the whole.
    pub open spec fn failure<U>(self) -> Parsed<U> {
        Parsed { result: Err(self.result->Err_0), used: self.used, reports: self.reports }
    }
}

/// The levels of binary operators, from the loosest to the tightest.
#[derive(Clone, Copy, Debug, PartialEq, Eq, Structural)]
pub enum Level {
    Or,
    And,
    Equality,
    Comparison,
    Term,
    Factor,
}

impl Level {
    /// Whether a token of kind `t` is an operator of this level.
    pub open spec fn accepts(self, t: TokenType) -> bool {
        match self {
            Level::Or => t == TokenType::Or,
            Level::And => t == TokenType::And,
            Level::Equality => t == TokenType::BangEqual || t == TokenType::EqualEqual,
            Level::Comparison => t == TokenType::Greater || t == TokenType::GreaterEqual || t
                == TokenType::Less || t == TokenType::LessEqual,
            Level::Term => t == TokenType::Minus || t == TokenType::Plus,
            Level::Factor => t == TokenType::Slash || t == TokenType::Star,
        }
    }

    /// The number of levels that bind tighter.
    pub open spec fn height(self) -> nat {
        match self {
            Level::Or => 5,
            Level::And => 4,
            Level::Equality => 3,
            Level::Comparison => 2,
            Level::Term => 1,
            Level::Factor => 0,
        }
    }

    /// The next tighter level; for the tightest, itself.
    pub open spec fn tighter(self) -> Level {
        match self {
            Level::Or => Level::And,
            Level::And => Level::Equality,
            Level::Equality => Level::Comparison,
            Level::Comparison => Level::Term,
            Level::Term => Level::Factor,
            Level::Factor => Level::Factor,
        }
    }

    /// The node for `left operator right` at this level.
    pub open spec fn join(self, left: ExprModel, operator: Token, right: ExprModel) -> ExprModel {
        match self {
            Level::Or | Level::And => ExprModel::Logical {
                left: Box::new(left),
                operator,
                right: Box::new(right),
            },
            _ => ExprModel::Binary { left: Box::new(left), operator, right: Box::new(right) },
        }
    }
}

/// The kind of the token at `pos`; behind the last token, the sentinel's.
pub open spec fn kind_at(tokens: Seq<Token>, pos: int) -> TokenType {
    if 0 <= pos < tokens.len() {
        tokens[pos].token_type
    } else {
        TokenType::Eof
    }
}

/// The number of tokens from `pos` on.
pub open spec fn remaining(tokens: Seq<Token>, pos: int) -> nat {
    if pos < 0 {
        tokens.len()
    } else if pos < tokens.len() {
        (tokens.len() - pos) as nat
    } else {
        0
    }
}

/// The sum of two numbers, or the largest `usize` if that is less.
pub open spec fn capped_sum(a: nat, b: nat) -> nat {
    if a + b > usize::MAX {
        usize::MAX as nat
    } else {
        a + b
    }
}

/// The error with `message` at the place of the token at `pos`.
pub open spec fn error_at(tokens: Seq<Token>, pos: int, message: Seq<char>) -> SyntaxError {
    SyntaxError { message, line: tokens[pos].line as nat, column: tokens[pos].column as nat }
}

/// The error for a token that is missing at `pos`: it points just behind the
/// token before `pos` and names what was found instead.
pub open spec fn missing(tokens: Seq<Token>, pos: int, message: Seq<char>) -> SyntaxError {
    let text = message + " (found '"@ + tokens[pos].lexeme@ + "' instead)"@;
    if pos > 0 {
        SyntaxError {
            message: text,
            line: tokens[pos - 1].line as nat,
            column: capped_sum(tokens[pos - 1].column as nat, tokens[pos - 1].lexeme@.len()),
        }
    } else {
        SyntaxError { message: text, line: tokens[pos].line as nat, column: tokens[pos].column as nat }
    }
}

/// Requires a token of kind `kind` at `pos`.
pub open spec fn expect(tokens: Seq<Token>, pos: int, kind: TokenType, message: Seq<char>) -> Parsed<
    Token,
> {
    if kind_at(tokens, pos) == kind {
        Parsed::accept(tokens[pos], 1)
    } else {
        Parsed::reject(missing(tokens, pos, message), 0)
    }
}

/// `primary := "true"|"false"|"nil"|NUMBER|STRING|IDENT|"(" expression ")"`
pub open spec fn primary(tokens: Seq<Token>, pos: int) -> Parsed<ExprModel>
    decreases remaining(tokens, pos), 0nat,
{
    match kind_at(tokens, pos) {
        TokenType::False => Parsed::accept(ExprModel::Literal(Object::Boolean(false)), 1),
        TokenType::True => Parsed::accept(ExprModel::Literal(Object::Boolean(true)), 1),
        TokenType::Nil => Parsed::accept(ExprModel::Literal(Object::NULL), 1),
        TokenType::Number | TokenType::String => match tokens[pos].literal {
            Object::Number(n) => Parsed::accept(ExprModel::Literal(Object::Number(n)), 1),
            Object::String(s) => Parsed::accept(ExprModel::Literal(Object::String(s)), 1),
            _ => Parsed::reject(
                error_at(tokens, pos, "Expected number or string literal."@),
                1,
            ),
        },
        TokenType::Identifier => Parsed::accept(ExprModel::Variable(tokens[pos]), 1),
        TokenType::LeftParen => {
            let inner = expression(tokens, pos + 1);
            if inner.result is Err {
                inner.failure().after(1, Seq::empty())
            } else {
                let close = expect(
                    tokens,
                    pos + 1 + inner.used,
                    TokenType::RightParen,
                    "Expect ')' after expression."@,
                );
                if close.result is Err {
                    close.failure().after(1 + inner.used, inner.reports)
                } else {
                    Parsed {
                        result: Ok(ExprModel::Grouping(Box::new(inner.result->Ok_0))),
                        used: 2 + inner.used,
                        reports: inner.reports,
                    }
                }
            }
        },
        _ => Parsed::reject(error_at(tokens, pos, "Expect expression."@), 0),
    }
}

/// The report for an argument beyond the 255th, which begins at `pos`.
pub open spec fn argument_reports(tokens: Seq<Token>, pos: int, before: nat) -> Seq<SyntaxError> {
    if before >= 255 {
        seq![error_at(tokens, pos, "Can't have more than 255 arguments."@)]
    } else {
        Seq::empty()
    }
}

/// `args := expression ( "," expression )*`, behind the arguments `acc`.
pub open spec fn argument_list(tokens: Seq<Token>, pos: int, acc: Seq<ExprModel>) -> Parsed<
    Seq<ExprModel>,
>
    decreases remaining(tokens, pos), 40nat,
{
    let reports = argument_reports(tokens, pos, acc.len());
    let first = expression(tokens, pos);
    if first.result is Err {
        first.failure().after(0, reports)
    } else if kind_at(tokens, pos + first.used) == TokenType::Comma {
        argument_list(tokens, pos + first.used + 1, acc.push(first.result->Ok_0)).after(
            first.used + 1,
            reports + first.reports,
        )
    } else {
        Parsed::accept(acc.push(first.result->Ok_0), 0).after(first.used, reports + first.reports)
    }
}

/// `args?`, in front of the closing parenthesis of a call.
pub open spec fn arguments(tokens: Seq<Token>, pos: int) -> Parsed<Seq<ExprModel>>
    decreases remaining(tokens, pos), 41nat,
{
    if kind_at(tokens, pos) == TokenType::RightParen {
        Parsed::accept(Seq::empty(), 0)
    } else {
        argument_list(tokens, pos, Seq::empty())
    }
}

/// `args? ")"`, behind the opening parenthesis of a call of `callee`.
pub open spec fn finish_call(tokens: Seq<Token>, pos: int, callee: ExprModel) -> Parsed<ExprModel>
    decreases remaining(tokens, pos), 42nat,
{
    let args = arguments(tokens, pos);
    if args.result is Err {
        args.failure()
    } else {
        let close = expect(
            tokens,
            pos + args.used,
            TokenType::RightParen,
            "Expect ')' after arguments."@,
        );
        if close.result is Err {
            close.failure().after(args.used, args.reports)
        } else {
            Parsed {
                result: Ok(
                    ExprModel::Call {
                        callee: Box::new(callee),
                        paren: close.result->Ok_0,
                        arguments: args.result->Ok_0,
                    },
                ),
                used: args.used + 1,
                reports: args.reports,
            }
        }
    }
}

/// `( "(" args? ")" )*`, behind the callee.
pub open spec fn call_rest(tokens: Seq<Token>, pos: int, callee: ExprModel) -> Parsed<ExprModel>
    decreases remaining(tokens, pos), 1nat,
{
    if kind_at(tokens, pos) == TokenType::LeftParen {
        let made = finish_call(tokens, pos + 1, callee);
        if made.result is Err {
            made.after(1, Seq::empty())
        } else {
            call_rest(tokens, pos + 1 + made.used, made.result->Ok_0).after(
                1 + made.used,
                made.reports,
            )
        }
    } else {
        Parsed::accept(callee, 0)
    }
}

/// `call := primary ( "(" args? ")" )*`
pub open spec fn call(tokens: Seq<Token>, pos: int) -> Parsed<ExprModel>
    decreases remaining(tokens, pos), 2nat,
{
    let callee = primary(tokens, pos);
    if callee.result is Err {
        callee
    } else {
        call_rest(tokens, pos + callee.used, callee.result->Ok_0).after(callee.used, callee.reports)
    }
}

/// `unary := ("!"|"-") unary | call`
pub open spec fn unary(tokens: Seq<Token>, pos: int) -> Parsed<ExprModel>
    decreases remaining(tokens, pos), 3nat,
{
    if kind_at(tokens, pos) == TokenType::Bang || kind_at(tokens, pos) == TokenType::Minus {
        let right = unary(tokens, pos + 1);
        if right.result is Err {
            right.after(1, Seq::empty())
        } else {
            Parsed {
                result: Ok(
                    ExprModel::Unary { operator: tokens[pos], right: Box::new(right.result->Ok_0) },
                ),
                used: 1 + right.used,
                reports: right.reports,
            }
        }
    } else {
        call(tokens, pos)
    }
}

/// An operand of an operator of `level`: an expression of the next tighter
/// level, and `unary` for the tightest.
pub open spec fn operand(tokens: Seq<Token>, pos: int, level: Level) -> Parsed<ExprModel>
    decreases remaining(tokens, pos), 10 + 3 * level.height() + 1,
{
    if level == Level::Factor {
        unary(tokens, pos)
    } else {
        binary(tokens, pos, level.tighter())
    }
}

/// `( operator operand )*` at `level`, behind the left operand `left`.
pub open spec fn binary_rest(tokens: Seq<Token>, pos: int, level: Level, left: ExprModel) -> Parsed<
    ExprModel,
>
    decreases remaining(tokens, pos), 10 + 3 * level.height(),
{
    if level.accepts(kind_at(tokens, pos)) {
        let right = operand(tokens, pos + 1, level);
        if right.result is Err {
            right.after(1, Seq::empty())
        } else {
            binary_rest(
                tokens,
                pos + 1 + right.used,
                level,
                level.join(left, tokens[pos], right.result->Ok_0),
            ).after(1 + right.used, right.reports)
        }
    } else {
        Parsed::accept(left, 0)
    }
}

/// `operand ( operator operand )*` at `level`, grouped to the left.
pub open spec fn binary(tokens: Seq<Token>, pos: int, level: Level) -> Parsed<ExprModel>
    decreases remaining(tokens, pos), 10 + 3 * level.height() + 2,
{
    let left = operand(tokens, pos, level);
    if left.result is Err {
        left
    } else {
        binary_rest(tokens, pos + left.used, level, left.result->Ok_0).after(
            left.used,
            left.reports,
        )
    }
}

/// `assignment := IDENT "=" assignment | logic_or`. The left side is read as
/// an expression; if `=` follows and it is no variable, that is reported at
/// the `=` and the left side stands for the whole.
pub open spec fn assignment(tokens: Seq<Token>, pos: int) -> Parsed<ExprModel>
    decreases remaining(tokens, pos), 30nat,
{
    let left = binary(tokens, pos, Level::Or);
    if left.result is Err {
        left
    } else if kind_at(tokens, pos + left.used) == TokenType::Equal {
        let value = assignment(tokens, pos + left.used + 1);
        if value.result is Err {
            value.after(left.used + 1, left.reports)
        } else {
            match left.result->Ok_0 {
                ExprModel::Variable(name) => Parsed {
                    result: Ok(ExprModel::Assign { name, value: Box::new(value.result->Ok_0) }),
                    used: left.used + 1 + value.used,
                    reports: left.reports + value.reports,
                },
                _ => Parsed {
                    result: left.result,
                    used: left.used + 1 + value.used,
                    reports: left.reports + value.reports + seq![
                        error_at(tokens, pos + left.used, "Invalid assignment target."@),
                    ],
                },
            }
        }
    } else {
        left
    }
}

/// `expression := assignment`
pub open spec fn expression(tokens: Seq<Token>, pos: int) -> Parsed<ExprModel>
    decreases remaining(tokens, pos), 31nat,
{
    assignment(tokens, pos)
}

/// `value`, if a token of kind `kind` closes it at `pos`; the error for the
/// missing token otherwise.
pub open spec fn closed_by<T>(
    tokens: Seq<Token>,
    pos: int,
    kind: TokenType,
    message: Seq<char>,
    value: T,
) -> Parsed<T> {
    if kind_at(tokens, pos) == kind {
        Parsed::accept(value, 1)
    } else {
        Parsed::reject(missing(tokens, pos, message), 0)
    }
}

/// An expression and the token of kind `closer` behind it, or that token
/// alone.
#[verifier::opaque]
pub open spec fn optional_clause(
    tokens: Seq<Token>,
    pos: int,
    closer: TokenType,
    message: Seq<char>,
) -> Parsed<Option<ExprModel>>
    decreases remaining(tokens, pos), 55nat,
{
    if kind_at(tokens, pos) == closer {
        Parsed::accept(None, 1)
    } else {
        let e = expression(tokens, pos);
        if e.result is Err {
            e.failure()
        } else {
            closed_by(tokens, pos + e.used, closer, message, Some(e.result->Ok_0)).after(
                e.used,
                e.reports,
            )
        }
    }
}

/// `exprStmt := expression ";"`
#[verifier::opaque]
pub open spec fn expression_statement(tokens: Seq<Token>, pos: int) -> Parsed<StmtModel>
    decreases remaining(tokens, pos), 50nat,
{
    let e = expression(tokens, pos);
    if e.result is Err {
        e.failure()
    } else {
        closed_by(
            tokens,
            pos + e.used,
            TokenType::Semicolon,
            "Expect ';' after expression."@,
            StmtModel::Expression(e.result->Ok_0),
        ).after(e.used, e.reports)
    }
}

/// `printStmt := "print" expression ";"`, behind the keyword.
#[verifier::opaque]
pub open spec fn print_statement(tokens: Seq<Token>, pos: int) -> Parsed<StmtModel>
    decreases remaining(tokens, pos), 50nat,
{
    let e = expression(tokens, pos);
    if e.result is Err {
        e.failure()
    } else {
        closed_by(
            tokens,
            pos + e.used,
            TokenType::Semicolon,
            "Expect ';' after value."@,
            StmtModel::Print(e.result->Ok_0),
        ).after(e.used, e.reports)
    }
}

/// `returnStmt := "return" expression? ";"`, behind the keyword `keyword`.
#[verifier::opaque]
pub open spec fn return_statement(tokens: Seq<Token>, pos: int, keyword: Token) -> Parsed<StmtModel>
    decreases remaining(tokens, pos), 56nat,
{
    let value = optional_clause(
        tokens,
        pos,
        TokenType::Semicolon,
        "Expect ';' after return value."@,
    );
    if value.result is Err {
        value.failure()
    } else {
        Parsed {
            result: Ok(StmtModel::Return { keyword, value: value.result->Ok_0 }),
            used: value.used,
            reports: value.reports,
        }
    }
}

/// `varDecl := "var" IDENT ( "=" expression )? ";"`, behind the keyword.
#[verifier::opaque]
pub open spec fn var_declaration(tokens: Seq<Token>, pos: int) -> Parsed<StmtModel>
    decreases remaining(tokens, pos), 50nat,
{
    let name = expect(tokens, pos, TokenType::Identifier, "Expect variable name."@);
    if name.result is Err {
        name.failure()
    } else if kind_at(tokens, pos + 1) == TokenType::Equal {
        let init = expression(tokens, pos + 2);
        if init.result is Err {
            init.failure().after(2, Seq::empty())
        } else {
            closed_by(
                tokens,
                pos + 2 + init.used,
                TokenType::Semicolon,
                "Expect ';' after variable declaration."@,
                StmtModel::Var { name: name.result->Ok_0, initializer: Some(init.result->Ok_0) },
            ).after(2 + init.used, init.reports)
        }
    } else {
        closed_by(
            tokens,
            pos + 1,
            TokenType::Semicolon,
            "Expect ';' after variable declaration."@,
            StmtModel::Var { name: name.result->Ok_0, initializer: None },
        ).after(1, Seq::empty())
    }
}

/// `IDENT ( "," IDENT )*`, behind the parameters `acc`.
pub open spec fn parameter_list(tokens: Seq<Token>, pos: int, acc: Seq<Token>) -> Parsed<Seq<Token>>
    decreases remaining(tokens, pos), 40nat,
{
    let name = expect(tokens, pos, TokenType::Identifier, "Expect parameter name."@);
    if name.result is Err {
        name.failure()
    } else if kind_at(tokens, pos + 1) == TokenType::Comma {
        parameter_list(tokens, pos + 2, acc.push(name.result->Ok_0)).after(2, Seq::empty())
    } else {
        Parsed::accept(acc.push(name.result->Ok_0), 1)
    }
}

/// `params?`, in front of the closing parenthesis of a declaration.
#[verifier::opaque]
pub open spec fn parameters(tokens: Seq<Token>, pos: int) -> Parsed<Seq<Token>> {
    if kind_at(tokens, pos) == TokenType::RightParen {
        Parsed::accept(Seq::empty(), 0)
    } else {
        parameter_list(tokens, pos, Seq::empty())
    }
}

/// `declaration*`, behind the statements `acc` and in front of the brace that
/// closes the block. (The recursion stops at a declaration that goes over no
/// token; by `lemma_declaration_advances` there is none.)
pub open spec fn block_items(tokens: Seq<Token>, pos: int, acc: Seq<StmtModel>) -> Parsed<
    Seq<StmtModel>,
>
    decreases remaining(tokens, pos), 70nat,
{
    if kind_at(tokens, pos) == TokenType::RightBrace || kind_at(tokens, pos) == TokenType::Eof {
        Parsed::accept(acc, 0)
    } else {
        let item = declaration(tokens, pos);
        if item.result is Err {
            item.failure()
        } else if item.used == 0 {
            Parsed::accept(acc.push(item.result->Ok_0), 0).after(0, item.reports)
        } else {
            block_items(tokens, pos + item.used, acc.push(item.result->Ok_0)).after(
                item.used,
                item.reports,
            )
        }
    }
}

/// `declaration* "}"`, behind the opening brace.
pub open spec fn block_body(tokens: Seq<Token>, pos: int) -> Parsed<Seq<StmtModel>>
    decreases remaining(tokens, pos), 71nat,
{
    let items = block_items(tokens, pos, Seq::empty());
    if items.result is Err {
        items
    } else {
        closed_by(
            tokens,
            pos + items.used,
            TokenType::RightBrace,
            "Expect '}' after block."@,
            items.result->Ok_0,
        ).after(items.used, items.reports)
    }
}

/// `block := "{" declaration* "}"`, behind the opening brace.
pub open spec fn block_statement(tokens: Seq<Token>, pos: int) -> Parsed<StmtModel>
    decreases remaining(tokens, pos), 72nat,
{
    let body = block_body(tokens, pos);
    if body.result is Err {
        body.failure()
    } else {
        Parsed { result: Ok(StmtModel::Block(body.result->Ok_0)), used: body.used, reports: body.reports }
    }
}

/// `"(" params? ")"`, behind the name of a function.
#[verifier::opaque]
pub open spec fn parameter_clause(tokens: Seq<Token>, pos: int) -> Parsed<Seq<Token>> {
    let open = expect(tokens, pos, TokenType::LeftParen, "Expect '(' after function name."@);
    if open.result is Err {
        open.failure()
    } else {
        let params = parameters(tokens, pos + 1);
        if params.result is Err {
            params.after(1, Seq::empty())
        } else {
            closed_by(
                tokens,
                pos + 1 + params.used,
                TokenType::RightParen,
                "Expect ')' after parameters."@,
                params.result->Ok_0,
            ).after(1 + params.used, params.reports)
        }
    }
}

/// `funDecl := "fun" IDENT "(" params? ")" block`, behind the keyword.
pub open spec fn function(tokens: Seq<Token>, pos: int) -> Parsed<StmtModel>
    decreases remaining(tokens, pos), 50nat,
{
    let name = expect(tokens, pos, TokenType::Identifier, "Expect function name."@);
    if name.result is Err {
        name.failure()
    } else {
        let params = parameter_clause(tokens, pos + 1);
        if params.result is Err {
            params.failure().after(1, Seq::empty())
        } else {
            let brace = expect(
                tokens,
                pos + 1 + params.used,
                TokenType::LeftBrace,
                "Expect '{' before function body."@,
            );
            if brace.result is Err {
                brace.failure().after(1 + params.used, params.reports)
            } else {
                let body = block_body(tokens, pos + 2 + params.used);
                if body.result is Err {
                    body.failure().after(2 + params.used, params.reports)
                } else {
                    Parsed {
                        result: Ok(
                            StmtModel::Function {
                                name: name.result->Ok_0,
                                params: params.result->Ok_0,
                                body: body.result->Ok_0,
                            },
                        ),
                        used: 2 + params.used + body.used,
                        reports: params.reports + body.reports,
                    }
                }
            }
        }
    }
}

/// An expression and the token of kind `closer` behind it.
#[verifier::opaque]
pub open spec fn enclosed(tokens: Seq<Token>, pos: int, closer: TokenType, message: Seq<char>) -> Parsed<
    ExprModel,
> {
    let e = expression(tokens, pos);
    if e.result is Err {
        e
    } else {
        closed_by(tokens, pos + e.used, closer, message, e.result->Ok_0).after(e.used, e.reports)
    }
}

/// `( "else" statement )?`
pub open spec fn else_branch(tokens: Seq<Token>, pos: int) -> Parsed<Option<StmtModel>>
    decreases remaining(tokens, pos), 50nat,
{
    if kind_at(tokens, pos) == TokenType::Else {
        let branch = statement(tokens, pos + 1);
        if branch.result is Err {
            branch.failure().after(1, Seq::empty())
        } else {
            Parsed {
                result: Ok(Some(branch.result->Ok_0)),
                used: 1 + branch.used,
                reports: branch.reports,
            }
        }
    } else {
        Parsed::accept(None, 0)
    }
}

/// `ifStmt := "if" "(" expression ")" statement ( "else" statement )?`,
/// behind the keyword.
pub open spec fn if_statement(tokens: Seq<Token>, pos: int) -> Parsed<StmtModel>
    decreases remaining(tokens, pos), 51nat,
{
    let open = expect(tokens, pos, TokenType::LeftParen, "Expect '(' after 'if'."@);
    if open.result is Err {
        open.failure()
    } else {
        let condition = enclosed(
            tokens,
            pos + 1,
            TokenType::RightParen,
            "Expect ')' after if condition."@,
        );
        if condition.result is Err {
            condition.failure().after(1, Seq::empty())
        } else {
            let then_branch = statement(tokens, pos + 1 + condition.used);
            if then_branch.result is Err {
                then_branch.after(1 + condition.used, condition.reports)
            } else {
                let otherwise = else_branch(tokens, pos + 1 + condition.used + then_branch.used);
                if otherwise.result is Err {
                    otherwise.failure().after(
                        1 + condition.used + then_branch.used,
                        condition.reports + then_branch.reports,
                    )
                } else {
                    Parsed {
                        result: Ok(
                            StmtModel::If {
                                condition: condition.result->Ok_0,
                                then_branch: Box::new(then_branch.result->Ok_0),
                                else_branch: match otherwise.result->Ok_0 {
                                    Some(branch) => Some(Box::new(branch)),
                                    None => None,
                                },
                            },
                        ),
                        used: 1 + condition.used + then_branch.used + otherwise.used,
                        reports: condition.reports + then_branch.reports + otherwise.reports,
                    }
                }
            }
        }
    }
}

/// `whileStmt := "while" "(" expression ")" statement`, behind the keyword.
pub open spec fn while_statement(tokens: Seq<Token>, pos: int) -> Parsed<StmtModel>
    decreases remaining(tokens, pos), 50nat,
{
    let open = expect(tokens, pos, TokenType::LeftParen, "Expect '(' after 'while'."@);
    if open.result is Err {
        open.failure()
    } else {
        let condition = enclosed(
            tokens,
            pos + 1,
            TokenType::RightParen,
            "Expect ')' after condition."@,
        );
        if condition.result is Err {
            condition.failure().after(1, Seq::empty())
        } else {
            let body = statement(tokens, pos + 1 + condition.used);
            if body.result is Err {
                body.after(1 + condition.used, condition.reports)
            } else {
                Parsed {
                    result: Ok(
                        StmtModel::While {
                            condition: condition.result->Ok_0,
                            body: Box::new(body.result->Ok_0),
                        },
                    ),
                    used: 1 + condition.used + body.used,
                    reports: condition.reports + body.reports,
                }
            }
        }
    }
}

/// The first clause of a `for`: a variable declaration, an expression
/// statement, or the semicolon alone.
#[verifier::opaque]
pub open spec fn for_initializer(tokens: Seq<Token>, pos: int) -> Parsed<Option<StmtModel>>
    decreases remaining(tokens, pos), 55nat,
{
    if kind_at(tokens, pos) == TokenType::Semicolon {
        Parsed::accept(None, 1)
    } else {
        let first = if kind_at(tokens, pos) == TokenType::Var {
            var_declaration(tokens, pos + 1).after(1, Seq::empty())
        } else {
            expression_statement(tokens, pos)
        };
        if first.result is Err {
            first.failure()
        } else {
            Parsed { result: Ok(Some(first.result->Ok_0)), used: first.used, reports: first.reports }
        }
    }
}

/// What a `for` loop stands for: `{ initializer; while (condition) { body;
/// increment; } }`, with `true` for a missing condition and without the
/// parts and the blocks that a missing clause would leave empty.
pub open spec fn desugared_for(
    initializer: Option<StmtModel>,
    condition: Option<ExprModel>,
    increment: Option<ExprModel>,
    body: StmtModel,
) -> StmtModel {
    let stepped = match increment {
        Some(step) => StmtModel::Block(seq![body, StmtModel::Expression(step)]),
        None => body,
    };
    let test = match condition {
        Some(test) => test,
        None => ExprModel::Literal(Object::Boolean(true)),
    };
    let repeated = StmtModel::While { condition: test, body: Box::new(stepped) };
    match initializer {
        Some(first) => StmtModel::Block(seq![first, repeated]),
        None => repeated,
    }
}

/// The clauses of a `for`, once read: initializer, condition, increment.
pub struct ForClauses {
    pub initializer: Option<StmtModel>,
    pub condition: Option<ExprModel>,
    pub increment: Option<ExprModel>,
}

/// `( varDecl | exprStmt | ";" ) expression? ";" expression? ")"`, behind
/// the opening parenthesis of a `for`.
#[verifier::opaque]
pub open spec fn for_clauses(tokens: Seq<Token>, pos: int) -> Parsed<ForClauses> {
    let initializer = for_initializer(tokens, pos);
    if initializer.result is Err {
        initializer.failure()
    } else {
        let condition = optional_clause(
            tokens,
            pos + initializer.used,
            TokenType::Semicolon,
            "Expect ';' after loop condition."@,
        );
        if condition.result is Err {
            condition.failure().after(initializer.used, initializer.reports)
        } else {
            let increment = optional_clause(
                tokens,
                pos + initializer.used + condition.used,
                TokenType::RightParen,
                "Expect ')' after for clauses."@,
            );
            if increment.result is Err {
                increment.failure().after(
                    initializer.used + condition.used,
                    initializer.reports + condition.reports,
                )
            } else {
                Parsed {
                    result: Ok(
                        ForClauses {
                            initializer: initializer.result->Ok_0,
                            condition: condition.result->Ok_0,
                            increment: increment.result->Ok_0,
                        },
                    ),
                    used: initializer.used + condition.used + increment.used,
                    reports: initializer.reports + condition.reports + increment.reports,
                }
            }
        }
    }
}

/// `forStmt := "for" "(" ( varDecl | exprStmt | ";" ) expression? ";"
/// expression? ")" statement`, behind the keyword.
pub open spec fn for_statement(tokens: Seq<Token>, pos: int) -> Parsed<StmtModel>
    decreases remaining(tokens, pos), 50nat,
{
    let open = expect(tokens, pos, TokenType::LeftParen, "Expect '(' after 'for'."@);
    if open.result is Err {
        open.failure()
    } else {
        let clauses = for_clauses(tokens, pos + 1);
        if clauses.result is Err {
            clauses.failure().after(1, Seq::empty())
        } else {
            let body = statement(tokens, pos + 1 + clauses.used);
            if body.result is Err {
                body.after(1 + clauses.used, clauses.reports)
            } else {
                Parsed {
                    result: Ok(
                        desugared_for(
                            clauses.result->Ok_0.initializer,
                            clauses.result->Ok_0.condition,
                            clauses.result->Ok_0.increment,
                            body.result->Ok_0,
                        ),
                    ),
                    used: 1 + clauses.used + body.used,
                    reports: clauses.reports + body.reports,
                }
            }
        }
    }
}

/// `statement := exprStmt | printStmt | block | ifStmt | whileStmt | forStmt
/// | returnStmt`
pub open spec fn statement(tokens: Seq<Token>, pos: int) -> Parsed<StmtModel>
    decreases remaining(tokens, pos), 60nat,
{
    match kind_at(tokens, pos) {
        TokenType::Print => print_statement(tokens, pos + 1).after(1, Seq::empty()),
        TokenType::LeftBrace => block_statement(tokens, pos + 1).after(1, Seq::empty()),
        TokenType::If => if_statement(tokens, pos + 1).after(1, Seq::empty()),
        TokenType::While => while_statement(tokens, pos + 1).after(1, Seq::empty()),
        TokenType::For => for_statement(tokens, pos + 1).after(1, Seq::empty()),
        TokenType::Return => return_statement(tokens, pos + 1, tokens[pos]).after(1, Seq::empty()),
        _ => expression_statement(tokens, pos),
    }
}

/// `declaration := varDecl | funDecl | statement`
pub open spec fn declaration(tokens: Seq<Token>, pos: int) -> Parsed<StmtModel>
    decreases remaining(tokens, pos), 61nat,
{
    match kind_at(tokens, pos) {
        TokenType::Var => var_declaration(tokens, pos + 1).after(1, Seq::empty()),
        TokenType::Fun => function(tokens, pos + 1).after(1, Seq::empty()),
        _ => statement(tokens, pos),
    }
}

/// The number of tokens from `pos` on that recovery from an error skips: up
/// to the end, to just behind a semicolon, or to a token that begins a
/// statement.
pub open spec fn skipped(tokens: Seq<Token>, pos: int) -> nat
    decreases remaining(tokens, pos),
{
    if kind_at(tokens, pos) == TokenType::Eof {
        0
    } else if pos > 0 && tokens[pos - 1].token_type == TokenType::Semicolon {
        0
    } else if kind_at(tokens, pos).starts_statement() {
        0
    } else {
        1 + skipped(tokens, pos + 1)
    }
}

/// The number of tokens that recovery from an error at `pos` goes over: the
/// token at `pos`, and then those that `skipped` counts.
pub open spec fn synchronized(tokens: Seq<Token>, pos: int) -> nat {
    if kind_at(tokens, pos) == TokenType::Eof {
        0
    } else {
        1 + skipped(tokens, pos + 1)
    }
}

/// What a whole token sequence holds.
pub struct Program {
    pub statements: Seq<StmtModel>,
    /// Every error, in the order in which it was met.
    pub errors: Seq<SyntaxError>,
}

/// `program := declaration* EOF`, from `pos` on. After a declaration that
/// fails, reading resumes where recovery stops. (The recursion stops where
/// reading would not move on; by `lemma_declaration_advances` and
/// `lemma_recovery_advances` that does not happen.)
pub open spec fn program(tokens: Seq<Token>, pos: int) -> Program
    decreases remaining(tokens, pos), 80nat,
{
    if kind_at(tokens, pos) == TokenType::Eof {
        Program { statements: Seq::empty(), errors: Seq::empty() }
    } else {
        let item = declaration(tokens, pos);
        match item.result {
            Ok(statement) => {
                if item.used == 0 {
                    Program { statements: seq![statement], errors: item.reports }
                } else {
                    let rest = program(tokens, pos + item.used);
                    Program {
                        statements: seq![statement] + rest.statements,
                        errors: item.reports + rest.errors,
                    }
                }
            },
            Err(error) => {
                let resume = item.used + synchronized(tokens, pos + item.used);
                if resume == 0 {
                    Program { statements: Seq::empty(), errors: item.reports + seq![error] }
                } else {
                    let rest = program(tokens, pos + resume);
                    Program {
                        statements: rest.statements,
                        errors: item.reports + seq![error] + rest.errors,
                    }
                }
            },
        }
    }
}

/// A declaration goes over at least one token.
pub proof fn lemma_declaration_advances(tokens: Seq<Token>, pos: int)
    ensures
        declaration(tokens, pos).result is Ok ==> declaration(tokens, pos).used >= 1,
{
    reveal(expression_statement);
}

/// After a declaration that fails, reading resumes further on, unless it
/// failed at the end of the tokens.
pub proof fn lemma_recovery_advances(tokens: Seq<Token>, pos: int)
    requires
        kind_at(tokens, pos) != TokenType::Eof,
    ensures
        declaration(tokens, pos).used + synchronized(tokens, pos + declaration(tokens, pos).used)
            >= 1,
{
}

} // verus!
