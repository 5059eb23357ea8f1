//! The parser: tokens to statements, by recursive descent.

use crate::expr::{
    expr_model, expr_models, optional_expr_model, stmt_model, stmt_models, Expr, ExprModel, Stmt,
    StmtModel,
};
use crate::grammar;
use crate::grammar::{Level, Parsed, Program, SyntaxError};
use crate::token::{Object, Token};
use crate::token_type::TokenType;
use std::rc::Rc;
use vstd::prelude::*;
use vstd::string::{StrSliceExecFns, StringExecFns};

verus! {

/// A syntax error, with the place it is reported at.
#[derive(Debug)]
pub struct ParseError {
    pub message: String,
    pub line: usize,
    pub column: usize,
}

impl View for ParseError {
    type V = SyntaxError;

    open spec fn view(&self) -> SyntaxError {
        SyntaxError { message: self.message@, line: self.line as nat, column: self.column as nat }
    }
}

/// The models of a sequence of errors, one for one.
pub open spec fn error_models(errors: Seq<ParseError>) -> Seq<SyntaxError> {
    Seq::new(errors.len(), |i: int| errors[i]@)
}

/// What `r` holds is what `parsed` says, an expression by its model and an
/// error by its own.
pub open spec fn is_expr(r: Result<Expr, ParseError>, parsed: Parsed<ExprModel>) -> bool {
    match r {
        Ok(e) => parsed.result == Ok::<ExprModel, SyntaxError>(expr_model(e)),
        Err(e) => parsed.result == Err::<ExprModel, SyntaxError>(e@),
    }
}

pub open spec fn is_exprs(r: Result<Vec<Expr>, ParseError>, parsed: Parsed<Seq<ExprModel>>) -> bool {
    match r {
        Ok(es) => parsed.result == Ok::<Seq<ExprModel>, SyntaxError>(expr_models(es@)),
        Err(e) => parsed.result == Err::<Seq<ExprModel>, SyntaxError>(e@),
    }
}

pub open spec fn is_stmt(r: Result<Stmt, ParseError>, parsed: Parsed<StmtModel>) -> bool {
    match r {
        Ok(s) => parsed.result == Ok::<StmtModel, SyntaxError>(stmt_model(s)),
        Err(e) => parsed.result == Err::<StmtModel, SyntaxError>(e@),
    }
}

pub open spec fn is_stmts(r: Result<Vec<Stmt>, ParseError>, parsed: Parsed<Seq<StmtModel>>) -> bool {
    match r {
        Ok(ss) => parsed.result == Ok::<Seq<StmtModel>, SyntaxError>(stmt_models(ss@)),
        Err(e) => parsed.result == Err::<Seq<StmtModel>, SyntaxError>(e@),
    }
}

pub open spec fn is_tokens(r: Result<Vec<Token>, ParseError>, parsed: Parsed<Seq<Token>>) -> bool {
    match r {
        Ok(ts) => parsed.result == Ok::<Seq<Token>, SyntaxError>(ts@),
        Err(e) => parsed.result == Err::<Seq<Token>, SyntaxError>(e@),
    }
}

pub open spec fn optional_model(e: Option<Expr>) -> Option<ExprModel> {
    match e {
        Some(e) => Some(expr_model(e)),
        None => None,
    }
}

pub open spec fn is_optional_expr(
    r: Result<Option<Expr>, ParseError>,
    parsed: Parsed<Option<ExprModel>>,
) -> bool {
    match r {
        Ok(e) => parsed.result == Ok::<Option<ExprModel>, SyntaxError>(optional_model(e)),
        Err(e) => parsed.result == Err::<Option<ExprModel>, SyntaxError>(e@),
    }
}

pub open spec fn optional_stmt_model(s: Option<Stmt>) -> Option<StmtModel> {
    match s {
        Some(s) => Some(stmt_model(s)),
        None => None,
    }
}

pub open spec fn is_optional_stmt(
    r: Result<Option<Stmt>, ParseError>,
    parsed: Parsed<Option<StmtModel>>,
) -> bool {
    match r {
        Ok(s) => parsed.result == Ok::<Option<StmtModel>, SyntaxError>(optional_stmt_model(s)),
        Err(e) => parsed.result == Err::<Option<StmtModel>, SyntaxError>(e@),
    }
}

pub open spec fn is_token(r: Result<Token, ParseError>, parsed: Parsed<Token>) -> bool {
    match r {
        Ok(t) => parsed.result == Ok::<Token, SyntaxError>(t),
        Err(e) => parsed.result == Err::<Token, SyntaxError>(e@),
    }
}

/// A parser over one token sequence, with a cursor and the errors reported
/// so far.
pub struct Parser {
    current: usize,
    tokens: Vec<Token>,
    errors: Vec<ParseError>,
}

fn level_accepts(level: Level, t: TokenType) -> (r: bool)
    ensures
        r == level.accepts(t),
{
    match level {
        Level::Or => t == TokenType::Or,
        Level::And => t == TokenType::And,
        Level::Equality => t == TokenType::BangEqual || t == TokenType::EqualEqual,
        Level::Comparison => t == TokenType::Greater || t == TokenType::GreaterEqual || t
            == TokenType::Less || t == TokenType::LessEqual,
        Level::Term => t == TokenType::Minus || t == TokenType::Plus,
        Level::Factor => t == TokenType::Slash || t == TokenType::Star,
    }
}

fn tighter(level: Level) -> (r: Level)
    ensures
        r == level.tighter(),
{
    match level {
        Level::Or => Level::And,
        Level::And => Level::Equality,
        Level::Equality => Level::Comparison,
        Level::Comparison => Level::Term,
        Level::Term => Level::Factor,
        Level::Factor => Level::Factor,
    }
}

fn join(level: Level, left: Expr, operator: Token, right: Expr) -> (r: Expr)
    ensures
        expr_model(r) == level.join(expr_model(left), operator, expr_model(right)),
{
    match level {
        Level::Or | Level::And => Expr::Logical {
            left: Rc::new(left),
            operator,
            right: Rc::new(right),
        },
        _ => Expr::Binary { left: Rc::new(left), operator, right: Rc::new(right) },
    }
}

fn capped_add(a: usize, b: usize) -> (r: usize)
    ensures
        r == grammar::capped_sum(a as nat, b as nat),
{
    if a > usize::MAX - b {
        usize::MAX
    } else {
        a + b
    }
}

impl Parser {
    /// The tokens that the parser reads.
    pub closed spec fn tokens(&self) -> Seq<Token> {
        self.tokens@
    }

    /// The position of the next token.
    pub closed spec fn position(&self) -> int {
        self.current as int
    }

    /// The errors reported so far.
    pub closed spec fn reported(&self) -> Seq<SyntaxError> {
        error_models(self.errors@)
    }

    /// The tokens end with the sentinel and the cursor is on one of them.
    pub open spec fn wf(&self) -> bool {
        &&& self.tokens().len() > 0
        &&& self.tokens().last().token_type == TokenType::Eof
        &&& 0 <= self.position() < self.tokens().len()
    }

    /// The parser has, since it was `before`, gone over `used` tokens and
    /// reported `reports`.
    pub open spec fn advanced(&self, before: Parser, used: nat, reports: Seq<SyntaxError>) -> bool {
        &&& self.wf()
        &&& self.tokens() == before.tokens()
        &&& self.position() == before.position() + used
        &&& self.reported() =~= before.reported() + reports
    }

    /// The parser has, since it was `before`, gone over the tokens of an
    /// expression as `parsed` says, and `r` is what `parsed` holds.
    pub open spec fn parsed_expr(
        &self,
        before: Parser,
        r: Result<Expr, ParseError>,
        parsed: Parsed<ExprModel>,
    ) -> bool {
        &&& is_expr(r, parsed)
        &&& self.advanced(before, parsed.used, parsed.reports)
        &&& r is Ok ==> parsed.used >= 1
    }

    /// The same for a statement.
    pub open spec fn parsed_stmt(
        &self,
        before: Parser,
        r: Result<Stmt, ParseError>,
        parsed: Parsed<StmtModel>,
    ) -> bool {
        &&& is_stmt(r, parsed)
        &&& self.advanced(before, parsed.used, parsed.reports)
        &&& r is Ok ==> parsed.used >= 1
    }

    /// The number of tokens not yet read.
    pub open spec fn left(&self) -> nat {
        grammar::remaining(self.tokens(), self.position())
    }

    /// A parser at the beginning of `t`, which must end with the sentinel.
    pub fn new(t: Vec<Token>) -> (r: Self)
        requires
            t@.len() > 0,
            t@.last().token_type == TokenType::Eof,
        ensures
            r.wf(),
            r.tokens() == t@,
            r.position() == 0,
            r.reported() == Seq::<SyntaxError>::empty(),
    {
        let r = Parser { current: 0, tokens: t, errors: Vec::new() };
        assert(r.reported() =~= Seq::<SyntaxError>::empty());
        r
    }

    fn peek(&self) -> (t: &Token)
        requires
            self.wf(),
        ensures
            *t == self.tokens()[self.position()],
            t.token_type == grammar::kind_at(self.tokens(), self.position()),
    {
        &self.tokens[self.current]
    }

    fn previous(&self) -> (t: &Token)
        requires
            self.wf(),
            self.position() > 0,
        ensures
            *t == self.tokens()[self.position() - 1],
    {
        &self.tokens[self.current - 1]
    }

    fn is_at_end(&self) -> (r: bool)
        requires
            self.wf(),
        ensures
            r == (grammar::kind_at(self.tokens(), self.position()) == TokenType::Eof),
    {
        let p = self.peek();
        p.token_type == TokenType::Eof
    }

    fn check(&self, t: TokenType) -> (r: bool)
        requires
            self.wf(),
        ensures
            r == (t != TokenType::Eof && grammar::kind_at(self.tokens(), self.position()) == t),
    {
        if self.is_at_end() {
            return false;
        }
        self.peek().token_type == t
    }

    /// Steps over the next token, unless it is the sentinel.
    fn advance(&mut self)
        requires
            old(self).wf(),
        ensures
            final(self).advanced(
                *old(self),
                if grammar::kind_at(old(self).tokens(), old(self).position()) == TokenType::Eof {
                    0nat
                } else {
                    1nat
                },
                Seq::empty(),
            ),
    {
        if !self.is_at_end() {
            assert(self.current < self.tokens.len());
            self.current += 1;
        }
    }

    /// Steps over the next token if it is of the kind `t`.
    fn match_token(&mut self, t: TokenType) -> (r: bool)
        requires
            old(self).wf(),
        ensures
            r == (t != TokenType::Eof && grammar::kind_at(old(self).tokens(), old(self).position())
                == t),
            final(self).advanced(*old(self), if r { 1nat } else { 0nat }, Seq::empty()),
    {
        if self.check(t) {
            self.advance();
            return true;
        }
        false
    }

    /// Reports an error without ending what is being parsed.
    fn report(&mut self, error: ParseError)
        requires
            old(self).wf(),
        ensures
            final(self).advanced(*old(self), 0, seq![error@]),
    {
        self.errors.push(error);
        assert(final(self).reported() =~= old(self).reported() + seq![error@]);
    }

    /// The error with `message` at the place of the next token.
    fn error_here(&self, message: &str) -> (e: ParseError)
        requires
            self.wf(),
        ensures
            e@ == grammar::error_at(self.tokens(), self.position(), message@),
    {
        let token = self.peek();
        ParseError { message: String::from_str(message), line: token.line, column: token.column }
    }

    /// Steps over the next token if it is of the kind `expected_type`, and
    /// fails with `message` otherwise.
    fn consume(&mut self, expected_type: TokenType, message: &str) -> (r: Result<Token, ParseError>)
        requires
            old(self).wf(),
            expected_type != TokenType::Eof,
        ensures
            is_token(
                r,
                grammar::expect(old(self).tokens(), old(self).position(), expected_type, message@),
            ),
            final(self).advanced(
                *old(self),
                grammar::expect(
                    old(self).tokens(),
                    old(self).position(),
                    expected_type,
                    message@,
                ).used,
                Seq::empty(),
            ),
    {
        if self.check(expected_type) {
            let token = self.peek().clone();
            self.advance();
            Ok(token)
        } else {
            let current_token = self.peek();
            let mut error_message = String::from_str(message);
            error_message.append(" (found '");
            error_message.append(current_token.lexeme.as_str());
            error_message.append("' instead)");
            if self.current > 0 {
                let prev_token = self.previous();
                Err(
                    ParseError {
                        message: error_message,
                        line: prev_token.line,
                        column: capped_add(
                            prev_token.column,
                            prev_token.lexeme.as_str().unicode_len(),
                        ),
                    },
                )
            } else {
                Err(
                    ParseError {
                        message: error_message,
                        line: current_token.line,
                        column: current_token.column,
                    },
                )
            }
        }
    }

    fn primary(&mut self) -> (r: Result<Expr, ParseError>)
        requires
            old(self).wf(),
        ensures
            final(self).parsed_expr(
                *old(self),
                r,
                grammar::primary(old(self).tokens(), old(self).position()),
            ),
        decreases old(self).left(), 0nat,
    {
        if self.match_token(TokenType::False) {
            return Ok(Expr::Literal(Object::Boolean(false)));
        }
        if self.match_token(TokenType::True) {
            return Ok(Expr::Literal(Object::Boolean(true)));
        }
        if self.match_token(TokenType::Nil) {
            return Ok(Expr::Literal(Object::NULL));
        }
        if self.match_token(TokenType::Number) || self.match_token(TokenType::String) {
            let prev = self.previous();
            return match &prev.literal {
                Object::Number(n) => Ok(Expr::Literal(Object::Number(*n))),
                Object::String(s) => Ok(Expr::Literal(Object::String(s.clone()))),
                _ => Err(
                    ParseError {
                        message: String::from_str("Expected number or string literal."),
                        line: prev.line,
                        column: prev.column,
                    },
                ),
            };
        }
        if self.match_token(TokenType::Identifier) {
            let name = self.previous().clone();
            return Ok(Expr::Variable(name));
        }
        if self.match_token(TokenType::LeftParen) {
            let expr = match self.expression() {
                Ok(expr) => expr,
                Err(e) => {
                    return Err(e);
                },
            };
            return match self.consume(TokenType::RightParen, "Expect ')' after expression.") {
                Ok(_) => Ok(Expr::Grouping(Rc::new(expr))),
                Err(e) => Err(e),
            };
        }
        Err(self.error_here("Expect expression."))
    }

    fn expression(&mut self) -> (r: Result<Expr, ParseError>)
        requires
            old(self).wf(),
        ensures
            final(self).parsed_expr(
                *old(self),
                r,
                grammar::expression(old(self).tokens(), old(self).position()),
            ),
        decreases old(self).left(), 31nat,
    {
        self.assignment()
    }

    fn assignment(&mut self) -> (r: Result<Expr, ParseError>)
        requires
            old(self).wf(),
        ensures
            final(self).parsed_expr(
                *old(self),
                r,
                grammar::assignment(old(self).tokens(), old(self).position()),
            ),
        decreases old(self).left(), 30nat,
    {
        let expr = match self.logic_or() {
            Ok(expr) => expr,
            Err(e) => {
                return Err(e);
            },
        };
        if self.match_token(TokenType::Equal) {
            let equals = self.previous().clone();
            let value = match self.assignment() {
                Ok(value) => value,
                Err(e) => {
                    return Err(e);
                },
            };
            match expr {
                Expr::Variable(name) => {
                    return Ok(Expr::Assign { name, value: Rc::new(value) });
                },
                _ => {
                    self.report(
                        ParseError {
                            message: String::from_str("Invalid assignment target."),
                            line: equals.line,
                            column: equals.column,
                        },
                    );
                    return Ok(expr);
                },
            }
        }
        Ok(expr)
    }

    fn logic_or(&mut self) -> (r: Result<Expr, ParseError>)
        requires
            old(self).wf(),
        ensures
            final(self).parsed_expr(
                *old(self),
                r,
                grammar::binary(old(self).tokens(), old(self).position(), Level::Or),
            ),
        decreases old(self).left(), 28nat,
    {
        self.binary(Level::Or)
    }

    fn logic_and(&mut self) -> (r: Result<Expr, ParseError>)
        requires
            old(self).wf(),
        ensures
            final(self).parsed_expr(
                *old(self),
                r,
                grammar::binary(old(self).tokens(), old(self).position(), Level::And),
            ),
        decreases old(self).left(), 25nat,
    {
        self.binary(Level::And)
    }

    fn equality(&mut self) -> (r: Result<Expr, ParseError>)
        requires
            old(self).wf(),
        ensures
            final(self).parsed_expr(
                *old(self),
                r,
                grammar::binary(old(self).tokens(), old(self).position(), Level::Equality),
            ),
        decreases old(self).left(), 22nat,
    {
        self.binary(Level::Equality)
    }

    fn comparison(&mut self) -> (r: Result<Expr, ParseError>)
        requires
            old(self).wf(),
        ensures
            final(self).parsed_expr(
                *old(self),
                r,
                grammar::binary(old(self).tokens(), old(self).position(), Level::Comparison),
            ),
        decreases old(self).left(), 19nat,
    {
        self.binary(Level::Comparison)
    }

    fn term(&mut self) -> (r: Result<Expr, ParseError>)
        requires
            old(self).wf(),
        ensures
            final(self).parsed_expr(
                *old(self),
                r,
                grammar::binary(old(self).tokens(), old(self).position(), Level::Term),
            ),
        decreases old(self).left(), 16nat,
    {
        self.binary(Level::Term)
    }

    fn factor(&mut self) -> (r: Result<Expr, ParseError>)
        requires
            old(self).wf(),
        ensures
            final(self).parsed_expr(
                *old(self),
                r,
                grammar::binary(old(self).tokens(), old(self).position(), Level::Factor),
            ),
        decreases old(self).left(), 13nat,
    {
        self.binary(Level::Factor)
    }

    /// An operand of an operator of `level`.
    fn operand(&mut self, level: Level) -> (r: Result<Expr, ParseError>)
        requires
            old(self).wf(),
        ensures
            final(self).parsed_expr(
                *old(self),
                r,
                grammar::operand(old(self).tokens(), old(self).position(), level),
            ),
        decreases old(self).left(), 10 + 3 * level.height() + 1,
    {
        match level {
            Level::Or => self.logic_and(),
            Level::And => self.equality(),
            Level::Equality => self.comparison(),
            Level::Comparison => self.term(),
            Level::Term => self.factor(),
            Level::Factor => self.unary(),
        }
    }

    /// A run of operands joined by operators of `level`, grouped to the
    /// left.
    fn binary(&mut self, level: Level) -> (r: Result<Expr, ParseError>)
        requires
            old(self).wf(),
        ensures
            final(self).parsed_expr(
                *old(self),
                r,
                grammar::binary(old(self).tokens(), old(self).position(), level),
            ),
        decreases old(self).left(), 10 + 3 * level.height() + 2,
    {
        let ghost goal = grammar::binary(old(self).tokens(), old(self).position(), level);
        let mut expr = match self.operand(level) {
            Ok(expr) => expr,
            Err(e) => {
                return Err(e);
            },
        };
        loop
            invariant
                self.wf(),
                self.tokens() == old(self).tokens(),
                self.position() > old(self).position(),
                self.left() <= old(self).left(),
                goal == grammar::binary(old(self).tokens(), old(self).position(), level),
                ({
                    let rest = grammar::binary_rest(
                        self.tokens(),
                        self.position(),
                        level,
                        expr_model(expr),
                    );
                    &&& goal.result == rest.result
                    &&& old(self).position() + goal.used == self.position() + rest.used
                    &&& old(self).reported() + goal.reports =~= self.reported() + rest.reports
                }),
            decreases self.left(),
        {
            if !level_accepts(level, self.peek().token_type) {
                return Ok(expr);
            }
            let operator = self.peek().clone();
            self.advance();
            let right = match self.operand(level) {
                Ok(right) => right,
                Err(e) => {
                    return Err(e);
                },
            };
            expr = join(level, expr, operator, right);
        }
    }

    fn unary(&mut self) -> (r: Result<Expr, ParseError>)
        requires
            old(self).wf(),
        ensures
            final(self).parsed_expr(
                *old(self),
                r,
                grammar::unary(old(self).tokens(), old(self).position()),
            ),
        decreases old(self).left(), 3nat,
    {
        if self.match_token(TokenType::Bang) || self.match_token(TokenType::Minus) {
            let operator = self.previous().clone();
            let right = match self.unary() {
                Ok(right) => right,
                Err(e) => {
                    return Err(e);
                },
            };
            return Ok(Expr::Unary { operator, right: Rc::new(right) });
        }
        self.call()
    }

    fn call(&mut self) -> (r: Result<Expr, ParseError>)
        requires
            old(self).wf(),
        ensures
            final(self).parsed_expr(
                *old(self),
                r,
                grammar::call(old(self).tokens(), old(self).position()),
            ),
        decreases old(self).left(), 2nat,
    {
        let ghost goal = grammar::call(old(self).tokens(), old(self).position());
        let mut expr = match self.primary() {
            Ok(expr) => expr,
            Err(e) => {
                return Err(e);
            },
        };
        loop
            invariant
                self.wf(),
                self.tokens() == old(self).tokens(),
                self.position() > old(self).position(),
                self.left() <= old(self).left(),
                goal == grammar::call(old(self).tokens(), old(self).position()),
                ({
                    let rest = grammar::call_rest(self.tokens(), self.position(), expr_model(expr));
                    &&& goal.result == rest.result
                    &&& old(self).position() + goal.used == self.position() + rest.used
                    &&& old(self).reported() + goal.reports =~= self.reported() + rest.reports
                }),
            decreases self.left(),
        {
            if !self.match_token(TokenType::LeftParen) {
                return Ok(expr);
            }
            expr = match self.finish_call(expr) {
                Ok(expr) => expr,
                Err(e) => {
                    return Err(e);
                },
            };
        }
    }

    /// The arguments of a call and its closing parenthesis, behind the
    /// opening one.
    fn finish_call(&mut self, callee: Expr) -> (r: Result<Expr, ParseError>)
        requires
            old(self).wf(),
        ensures
            final(self).parsed_expr(
                *old(self),
                r,
                grammar::finish_call(old(self).tokens(), old(self).position(), expr_model(callee)),
            ),
        decreases old(self).left(), 42nat,
    {
        let arguments = match self.arguments() {
            Ok(arguments) => arguments,
            Err(e) => {
                return Err(e);
            },
        };
        match self.consume(TokenType::RightParen, "Expect ')' after arguments.") {
            Ok(paren) => Ok(
                Expr::Call { callee: Rc::new(callee), paren, arguments: Rc::new(arguments) },
            ),
            Err(e) => Err(e),
        }
    }

    /// The arguments of a call, in front of its closing parenthesis.
    fn arguments(&mut self) -> (r: Result<Vec<Expr>, ParseError>)
        requires
            old(self).wf(),
        ensures
            is_exprs(r, grammar::arguments(old(self).tokens(), old(self).position())),
            final(self).advanced(
                *old(self),
                grammar::arguments(old(self).tokens(), old(self).position()).used,
                grammar::arguments(old(self).tokens(), old(self).position()).reports,
            ),
        decreases old(self).left(), 41nat,
    {
        let arguments: Vec<Expr> = Vec::new();
        assert(expr_models(arguments@) =~= Seq::<ExprModel>::empty());
        if self.check(TokenType::RightParen) {
            return Ok(arguments);
        }
        self.argument_list(arguments)
    }

    /// Reports an argument that comes behind `count` others, if those are
    /// 255 or more.
    fn check_argument_count(&mut self, count: usize)
        requires
            old(self).wf(),
        ensures
            final(self).advanced(
                *old(self),
                0,
                grammar::argument_reports(old(self).tokens(), old(self).position(), count as nat),
            ),
    {
        if count >= 255 {
            let error = self.error_here("Can't have more than 255 arguments.");
            self.report(error);
        }
    }

    /// One or more arguments, separated by commas, behind the arguments
    /// `arguments`.
    #[verifier::rlimit(30)]
    fn argument_list(&mut self, arguments: Vec<Expr>) -> (r: Result<Vec<Expr>, ParseError>)
        requires
            old(self).wf(),
        ensures
            is_exprs(
                r,
                grammar::argument_list(
                    old(self).tokens(),
                    old(self).position(),
                    expr_models(arguments@),
                ),
            ),
            final(self).advanced(
                *old(self),
                grammar::argument_list(
                    old(self).tokens(),
                    old(self).position(),
                    expr_models(arguments@),
                ).used,
                grammar::argument_list(
                    old(self).tokens(),
                    old(self).position(),
                    expr_models(arguments@),
                ).reports,
            ),
        decreases old(self).left(), 40nat,
    {
        let mut arguments = arguments;
        self.check_argument_count(arguments.len());
        let argument = match self.expression() {
            Ok(argument) => argument,
            Err(e) => {
                return Err(e);
            },
        };
        push_expr(&mut arguments, argument);
        if self.match_token(TokenType::Comma) {
            self.argument_list(arguments)
        } else {
            Ok(arguments)
        }
    }

    /// An expression and the token of kind `closer` behind it, or that token
    /// alone.
    fn optional_clause(&mut self, closer: TokenType, message: &str) -> (r: Result<
        Option<Expr>,
        ParseError,
    >)
        requires
            old(self).wf(),
            closer != TokenType::Eof,
        ensures
            is_optional_expr(
                r,
                grammar::optional_clause(old(self).tokens(), old(self).position(), closer, message@),
            ),
            final(self).advanced(
                *old(self),
                grammar::optional_clause(
                    old(self).tokens(),
                    old(self).position(),
                    closer,
                    message@,
                ).used,
                grammar::optional_clause(
                    old(self).tokens(),
                    old(self).position(),
                    closer,
                    message@,
                ).reports,
            ),
            r is Ok ==> grammar::optional_clause(
                old(self).tokens(),
                old(self).position(),
                closer,
                message@,
            ).used >= 1,
        decreases old(self).left(), 55nat,
    {
        reveal(grammar::optional_clause);
        if self.match_token(closer) {
            return Ok(None);
        }
        let value = match self.expression() {
            Ok(value) => value,
            Err(e) => {
                return Err(e);
            },
        };
        match self.consume(closer, message) {
            Ok(_) => Ok(Some(value)),
            Err(e) => Err(e),
        }
    }

    fn expression_statement(&mut self) -> (r: Result<Stmt, ParseError>)
        requires
            old(self).wf(),
        ensures
            final(self).parsed_stmt(
                *old(self),
                r,
                grammar::expression_statement(old(self).tokens(), old(self).position()),
            ),
        decreases old(self).left(), 50nat,
    {
        reveal(grammar::expression_statement);
        let expr = match self.expression() {
            Ok(expr) => expr,
            Err(e) => {
                return Err(e);
            },
        };
        match self.consume(TokenType::Semicolon, "Expect ';' after expression.") {
            Ok(_) => Ok(Stmt::Expression(Rc::new(expr))),
            Err(e) => Err(e),
        }
    }

    fn print_statement(&mut self) -> (r: Result<Stmt, ParseError>)
        requires
            old(self).wf(),
        ensures
            final(self).parsed_stmt(
                *old(self),
                r,
                grammar::print_statement(old(self).tokens(), old(self).position()),
            ),
        decreases old(self).left(), 50nat,
    {
        reveal(grammar::print_statement);
        let value = match self.expression() {
            Ok(value) => value,
            Err(e) => {
                return Err(e);
            },
        };
        match self.consume(TokenType::Semicolon, "Expect ';' after value.") {
            Ok(_) => Ok(Stmt::Print(Rc::new(value))),
            Err(e) => Err(e),
        }
    }

    fn return_statement(&mut self, keyword: Token) -> (r: Result<Stmt, ParseError>)
        requires
            old(self).wf(),
        ensures
            final(self).parsed_stmt(
                *old(self),
                r,
                grammar::return_statement(old(self).tokens(), old(self).position(), keyword),
            ),
        decreases old(self).left(), 56nat,
    {
        reveal(grammar::return_statement);
        match self.optional_clause(TokenType::Semicolon, "Expect ';' after return value.") {
            Ok(Some(value)) => Ok(Stmt::Return { keyword, value: Some(Rc::new(value)) }),
            Ok(None) => Ok(Stmt::Return { keyword, value: None }),
            Err(e) => Err(e),
        }
    }

    fn var_declaration(&mut self) -> (r: Result<Stmt, ParseError>)
        requires
            old(self).wf(),
        ensures
            final(self).parsed_stmt(
                *old(self),
                r,
                grammar::var_declaration(old(self).tokens(), old(self).position()),
            ),
        decreases old(self).left(), 50nat,
    {
        reveal(grammar::var_declaration);
        let name = match self.consume(TokenType::Identifier, "Expect variable name.") {
            Ok(name) => name,
            Err(e) => {
                return Err(e);
            },
        };
        let initializer = if self.match_token(TokenType::Equal) {
            match self.expression() {
                Ok(value) => Some(Rc::new(value)),
                Err(e) => {
                    return Err(e);
                },
            }
        } else {
            None
        };
        match self.consume(TokenType::Semicolon, "Expect ';' after variable declaration.") {
            Ok(_) => Ok(Stmt::Var { name, initializer }),
            Err(e) => Err(e),
        }
    }

    /// The names of the parameters of a function, in front of the closing
    /// parenthesis.
    fn parameters(&mut self) -> (r: Result<Vec<Token>, ParseError>)
        requires
            old(self).wf(),
        ensures
            is_tokens(r, grammar::parameters(old(self).tokens(), old(self).position())),
            final(self).advanced(
                *old(self),
                grammar::parameters(old(self).tokens(), old(self).position()).used,
                grammar::parameters(old(self).tokens(), old(self).position()).reports,
            ),
    {
        reveal(grammar::parameters);
        let params: Vec<Token> = Vec::new();
        if self.check(TokenType::RightParen) {
            return Ok(params);
        }
        self.parameter_list(params)
    }

    /// One or more names, separated by commas, behind the names `params`.
    fn parameter_list(&mut self, params: Vec<Token>) -> (r: Result<Vec<Token>, ParseError>)
        requires
            old(self).wf(),
        ensures
            is_tokens(
                r,
                grammar::parameter_list(old(self).tokens(), old(self).position(), params@),
            ),
            final(self).advanced(
                *old(self),
                grammar::parameter_list(old(self).tokens(), old(self).position(), params@).used,
                grammar::parameter_list(old(self).tokens(), old(self).position(), params@).reports,
            ),
        decreases old(self).left(),
    {
        let mut params = params;
        let name = match self.consume(TokenType::Identifier, "Expect parameter name.") {
            Ok(name) => name,
            Err(e) => {
                return Err(e);
            },
        };
        params.push(name);
        if self.match_token(TokenType::Comma) {
            self.parameter_list(params)
        } else {
            Ok(params)
        }
    }

    /// The statements of a block and its closing brace, behind the opening
    /// one.
    fn block(&mut self) -> (r: Result<Vec<Stmt>, ParseError>)
        requires
            old(self).wf(),
        ensures
            is_stmts(r, grammar::block_body(old(self).tokens(), old(self).position())),
            final(self).advanced(
                *old(self),
                grammar::block_body(old(self).tokens(), old(self).position()).used,
                grammar::block_body(old(self).tokens(), old(self).position()).reports,
            ),
            r is Ok ==> grammar::block_body(old(self).tokens(), old(self).position()).used >= 1,
        decreases old(self).left(), 71nat,
    {
        let statements: Vec<Stmt> = Vec::new();
        assert(stmt_models(statements@) =~= Seq::<StmtModel>::empty());
        let statements = match self.block_items(statements) {
            Ok(statements) => statements,
            Err(e) => {
                return Err(e);
            },
        };
        match self.consume(TokenType::RightBrace, "Expect '}' after block.") {
            Ok(_) => Ok(statements),
            Err(e) => Err(e),
        }
    }

    /// The statements of a block, behind the statements `statements`.
    fn block_items(&mut self, statements: Vec<Stmt>) -> (r: Result<Vec<Stmt>, ParseError>)
        requires
            old(self).wf(),
        ensures
            is_stmts(
                r,
                grammar::block_items(
                    old(self).tokens(),
                    old(self).position(),
                    stmt_models(statements@),
                ),
            ),
            final(self).advanced(
                *old(self),
                grammar::block_items(
                    old(self).tokens(),
                    old(self).position(),
                    stmt_models(statements@),
                ).used,
                grammar::block_items(
                    old(self).tokens(),
                    old(self).position(),
                    stmt_models(statements@),
                ).reports,
            ),
        decreases old(self).left(), 70nat,
    {
        let mut statements = statements;
        if self.check(TokenType::RightBrace) || self.is_at_end() {
            return Ok(statements);
        }
        let item = match self.declaration() {
            Ok(item) => item,
            Err(e) => {
                return Err(e);
            },
        };
        push_stmt(&mut statements, item);
        self.block_items(statements)
    }

    fn block_statement(&mut self) -> (r: Result<Stmt, ParseError>)
        requires
            old(self).wf(),
        ensures
            final(self).parsed_stmt(
                *old(self),
                r,
                grammar::block_statement(old(self).tokens(), old(self).position()),
            ),
        decreases old(self).left(), 72nat,
    {
        match self.block() {
            Ok(statements) => Ok(Stmt::Block(Rc::new(statements))),
            Err(e) => Err(e),
        }
    }

    /// The parameters of a function in their parentheses.
    fn parameter_clause(&mut self) -> (r: Result<Vec<Token>, ParseError>)
        requires
            old(self).wf(),
        ensures
            is_tokens(r, grammar::parameter_clause(old(self).tokens(), old(self).position())),
            final(self).advanced(
                *old(self),
                grammar::parameter_clause(old(self).tokens(), old(self).position()).used,
                grammar::parameter_clause(old(self).tokens(), old(self).position()).reports,
            ),
    {
        reveal(grammar::parameter_clause);
        match self.consume(TokenType::LeftParen, "Expect '(' after function name.") {
            Ok(_) => {},
            Err(e) => {
                return Err(e);
            },
        }
        let params = match self.parameters() {
            Ok(params) => params,
            Err(e) => {
                return Err(e);
            },
        };
        match self.consume(TokenType::RightParen, "Expect ')' after parameters.") {
            Ok(_) => Ok(params),
            Err(e) => Err(e),
        }
    }

    fn function(&mut self) -> (r: Result<Stmt, ParseError>)
        requires
            old(self).wf(),
        ensures
            final(self).parsed_stmt(
                *old(self),
                r,
                grammar::function(old(self).tokens(), old(self).position()),
            ),
        decreases old(self).left(), 50nat,
    {
        let name = match self.consume(TokenType::Identifier, "Expect function name.") {
            Ok(name) => name,
            Err(e) => {
                return Err(e);
            },
        };
        let params = match self.parameter_clause() {
            Ok(params) => params,
            Err(e) => {
                return Err(e);
            },
        };
        match self.consume(TokenType::LeftBrace, "Expect '{' before function body.") {
            Ok(_) => {},
            Err(e) => {
                return Err(e);
            },
        }
        match self.block() {
            Ok(body) => Ok(Stmt::Function { name, params: Rc::new(params), body: Rc::new(body) }),
            Err(e) => Err(e),
        }
    }

    /// An expression and the token of kind `closer` behind it.
    fn enclosed(&mut self, closer: TokenType, message: &str) -> (r: Result<Expr, ParseError>)
        requires
            old(self).wf(),
            closer != TokenType::Eof,
        ensures
            final(self).parsed_expr(
                *old(self),
                r,
                grammar::enclosed(old(self).tokens(), old(self).position(), closer, message@),
            ),
    {
        reveal(grammar::enclosed);
        let value = match self.expression() {
            Ok(value) => value,
            Err(e) => {
                return Err(e);
            },
        };
        match self.consume(closer, message) {
            Ok(_) => Ok(value),
            Err(e) => Err(e),
        }
    }

    /// The `else` of an `if`, where there is one.
    fn else_branch(&mut self) -> (r: Result<Option<Stmt>, ParseError>)
        requires
            old(self).wf(),
        ensures
            is_optional_stmt(r, grammar::else_branch(old(self).tokens(), old(self).position())),
            final(self).advanced(
                *old(self),
                grammar::else_branch(old(self).tokens(), old(self).position()).used,
                grammar::else_branch(old(self).tokens(), old(self).position()).reports,
            ),
        decreases old(self).left(), 50nat,
    {
        if self.match_token(TokenType::Else) {
            match self.statement() {
                Ok(branch) => Ok(Some(branch)),
                Err(e) => Err(e),
            }
        } else {
            Ok(None)
        }
    }

    fn if_statement(&mut self) -> (r: Result<Stmt, ParseError>)
        requires
            old(self).wf(),
        ensures
            final(self).parsed_stmt(
                *old(self),
                r,
                grammar::if_statement(old(self).tokens(), old(self).position()),
            ),
        decreases old(self).left(), 51nat,
    {
        match self.consume(TokenType::LeftParen, "Expect '(' after 'if'.") {
            Ok(_) => {},
            Err(e) => {
                return Err(e);
            },
        }
        let condition = match self.enclosed(
            TokenType::RightParen,
            "Expect ')' after if condition.",
        ) {
            Ok(condition) => condition,
            Err(e) => {
                return Err(e);
            },
        };
        let then_branch = match self.statement() {
            Ok(then_branch) => then_branch,
            Err(e) => {
                return Err(e);
            },
        };
        match self.else_branch() {
            Ok(Some(branch)) => Ok(
                Stmt::If {
                    condition: Rc::new(condition),
                    then_branch: Rc::new(then_branch),
                    else_branch: Some(Rc::new(branch)),
                },
            ),
            Ok(None) => Ok(
                Stmt::If {
                    condition: Rc::new(condition),
                    then_branch: Rc::new(then_branch),
                    else_branch: None,
                },
            ),
            Err(e) => Err(e),
        }
    }

    fn while_statement(&mut self) -> (r: Result<Stmt, ParseError>)
        requires
            old(self).wf(),
        ensures
            final(self).parsed_stmt(
                *old(self),
                r,
                grammar::while_statement(old(self).tokens(), old(self).position()),
            ),
        decreases old(self).left(), 50nat,
    {
        match self.consume(TokenType::LeftParen, "Expect '(' after 'while'.") {
            Ok(_) => {},
            Err(e) => {
                return Err(e);
            },
        }
        let condition = match self.enclosed(TokenType::RightParen, "Expect ')' after condition.") {
            Ok(condition) => condition,
            Err(e) => {
                return Err(e);
            },
        };
        match self.statement() {
            Ok(body) => Ok(Stmt::While { condition: Rc::new(condition), body: Rc::new(body) }),
            Err(e) => Err(e),
        }
    }

    /// The first clause of a `for`.
    fn for_initializer(&mut self) -> (r: Result<Option<Stmt>, ParseError>)
        requires
            old(self).wf(),
        ensures
            is_optional_stmt(r, grammar::for_initializer(old(self).tokens(), old(self).position())),
            final(self).advanced(
                *old(self),
                grammar::for_initializer(old(self).tokens(), old(self).position()).used,
                grammar::for_initializer(old(self).tokens(), old(self).position()).reports,
            ),
        decreases old(self).left(), 55nat,
    {
        reveal(grammar::for_initializer);
        if self.match_token(TokenType::Semicolon) {
            return Ok(None);
        }
        let first = if self.match_token(TokenType::Var) {
            self.var_declaration()
        } else {
            self.expression_statement()
        };
        match first {
            Ok(first) => Ok(Some(first)),
            Err(e) => Err(e),
        }
    }

    /// The three clauses of a `for`, behind its opening parenthesis.
    fn for_clauses(&mut self) -> (r: Result<(Option<Stmt>, Option<Expr>, Option<Expr>), ParseError>)
        requires
            old(self).wf(),
        ensures
            final(self).advanced(
                *old(self),
                grammar::for_clauses(old(self).tokens(), old(self).position()).used,
                grammar::for_clauses(old(self).tokens(), old(self).position()).reports,
            ),
            match r {
                Ok(clauses) => grammar::for_clauses(
                    old(self).tokens(),
                    old(self).position(),
                ).result == Ok::<grammar::ForClauses, SyntaxError>(
                    grammar::ForClauses {
                        initializer: optional_stmt_model(clauses.0),
                        condition: optional_model(clauses.1),
                        increment: optional_model(clauses.2),
                    },
                ),
                Err(e) => grammar::for_clauses(old(self).tokens(), old(self).position()).result
                    == Err::<grammar::ForClauses, SyntaxError>(e@),
            },
    {
        reveal(grammar::for_clauses);
        let initializer = match self.for_initializer() {
            Ok(initializer) => initializer,
            Err(e) => {
                return Err(e);
            },
        };
        let condition = match self.optional_clause(
            TokenType::Semicolon,
            "Expect ';' after loop condition.",
        ) {
            Ok(condition) => condition,
            Err(e) => {
                return Err(e);
            },
        };
        match self.optional_clause(TokenType::RightParen, "Expect ')' after for clauses.") {
            Ok(increment) => Ok((initializer, condition, increment)),
            Err(e) => Err(e),
        }
    }

    fn for_statement(&mut self) -> (r: Result<Stmt, ParseError>)
        requires
            old(self).wf(),
        ensures
            final(self).parsed_stmt(
                *old(self),
                r,
                grammar::for_statement(old(self).tokens(), old(self).position()),
            ),
        decreases old(self).left(), 50nat,
    {
        match self.consume(TokenType::LeftParen, "Expect '(' after 'for'.") {
            Ok(_) => {},
            Err(e) => {
                return Err(e);
            },
        }
        let (initializer, condition, increment) = match self.for_clauses() {
            Ok(clauses) => clauses,
            Err(e) => {
                return Err(e);
            },
        };
        match self.statement() {
            Ok(body) => Ok(desugar_for(initializer, condition, increment, body)),
            Err(e) => Err(e),
        }
    }

    fn statement(&mut self) -> (r: Result<Stmt, ParseError>)
        requires
            old(self).wf(),
        ensures
            final(self).parsed_stmt(
                *old(self),
                r,
                grammar::statement(old(self).tokens(), old(self).position()),
            ),
        decreases old(self).left(), 60nat,
    {
        if self.match_token(TokenType::Print) {
            return self.print_statement();
        }
        if self.match_token(TokenType::LeftBrace) {
            return self.block_statement();
        }
        if self.match_token(TokenType::If) {
            return self.if_statement();
        }
        if self.match_token(TokenType::While) {
            return self.while_statement();
        }
        if self.match_token(TokenType::For) {
            return self.for_statement();
        }
        if self.match_token(TokenType::Return) {
            let keyword = self.previous().clone();
            return self.return_statement(keyword);
        }
        self.expression_statement()
    }

    fn declaration(&mut self) -> (r: Result<Stmt, ParseError>)
        requires
            old(self).wf(),
        ensures
            final(self).parsed_stmt(
                *old(self),
                r,
                grammar::declaration(old(self).tokens(), old(self).position()),
            ),
        decreases old(self).left(), 61nat,
    {
        if self.match_token(TokenType::Var) {
            return self.var_declaration();
        }
        if self.match_token(TokenType::Fun) {
            return self.function();
        }
        self.statement()
    }

    /// Recovers from an error: steps over the next token and then over
    /// those behind it, up to the end, to just behind a semicolon or to a
    /// token that begins a statement.
    fn synchronize(&mut self)
        requires
            old(self).wf(),
        ensures
            final(self).advanced(
                *old(self),
                grammar::synchronized(old(self).tokens(), old(self).position()),
                Seq::empty(),
            ),
    {
        if self.is_at_end() {
            return;
        }
        self.advance();
        while !self.is_at_end()
            invariant
                self.wf(),
                self.tokens() == old(self).tokens(),
                self.reported() == old(self).reported(),
                self.position() > 0,
                old(self).position() + grammar::synchronized(
                    old(self).tokens(),
                    old(self).position(),
                ) == self.position() + grammar::skipped(self.tokens(), self.position()),
            decreases self.left(),
        {
            if self.previous().token_type == TokenType::Semicolon {
                return;
            }
            if self.peek().token_type.is_statement_start() {
                return;
            }
            self.advance();
        }
    }

    /// Reads one declaration and adds it to `statements`; if it fails,
    /// reports the error and recovers.
    fn item(&mut self, statements: &mut Vec<Stmt>)
        requires
            old(self).wf(),
        ensures
            ({
                let item = grammar::declaration(old(self).tokens(), old(self).position());
                match item.result {
                    Ok(statement) => {
                        &&& stmt_models(final(statements)@) == stmt_models(old(statements)@).push(
                            statement,
                        )
                        &&& item.used >= 1
                        &&& final(self).advanced(*old(self), item.used, item.reports)
                    },
                    Err(error) => {
                        &&& final(statements)@ == old(statements)@
                        &&& final(self).advanced(
                            *old(self),
                            item.used + grammar::synchronized(
                                old(self).tokens(),
                                old(self).position() + item.used,
                            ),
                            item.reports + seq![error],
                        )
                    },
                }
            }),
    {
        match self.declaration() {
            Ok(stmt) => {
                push_stmt(statements, stmt);
            },
            Err(err) => {
                self.report(err);
                self.synchronize();
            },
        }
    }

    /// Reads the tokens from the cursor to the end. Without an error the
    /// statements come back; otherwise all the errors do, in the order in
    /// which they were met. After an error reading resumes behind the next
    /// semicolon or in front of the next token that begins a statement.
    pub fn parse(&mut self) -> (r: Result<Vec<Stmt>, Vec<ParseError>>)
        requires
            old(self).wf(),
        ensures
            final(self).wf(),
            final(self).tokens() == old(self).tokens(),
            final(self).reported() == Seq::<SyntaxError>::empty(),
            ({
                let program = grammar::program(old(self).tokens(), old(self).position());
                let errors = old(self).reported() + program.errors;
                match r {
                    Ok(statements) => errors.len() == 0 && stmt_models(statements@)
                        == program.statements,
                    Err(found) => errors.len() > 0 && error_models(found@) == errors,
                }
            }),
    {
        let mut statements: Vec<Stmt> = Vec::new();
        let ghost goal = grammar::program(old(self).tokens(), old(self).position());
        assert(stmt_models(statements@) =~= Seq::<StmtModel>::empty());
        assert(goal.statements =~= stmt_models(statements@) + goal.statements);
        while !self.is_at_end()
            invariant
                self.wf(),
                self.tokens() == old(self).tokens(),
                goal == grammar::program(old(self).tokens(), old(self).position()),
                goal.statements == stmt_models(statements@) + grammar::program(
                    self.tokens(),
                    self.position(),
                ).statements,
                old(self).reported() + goal.errors =~= self.reported() + grammar::program(
                    self.tokens(),
                    self.position(),
                ).errors,
            decreases self.left(),
        {
            let ghost before = *self;
            let ghost done = stmt_models(statements@);
            let ghost item = grammar::declaration(self.tokens(), self.position());
            let ghost here = grammar::program(self.tokens(), self.position());
            self.item(&mut statements);
            proof {
                let rest = grammar::program(self.tokens(), self.position());
                match item.result {
                    Ok(statement) => {
                        assert(here.statements == seq![statement] + rest.statements);
                        assert(done + (seq![statement] + rest.statements) =~= done.push(statement)
                            + rest.statements);
                        assert(here.errors == item.reports + rest.errors);
                    },
                    Err(error) => {
                        assert(here.statements == rest.statements);
                        assert(here.errors == item.reports + seq![error] + rest.errors);
                    },
                }
            }
        }
        let mut errors: Vec<ParseError> = Vec::new();
        std::mem::swap(&mut self.errors, &mut errors);
        proof {
            assert(grammar::program(self.tokens(), self.position()).statements =~= Seq::<
                StmtModel,
            >::empty());
            assert(goal.statements =~= stmt_models(statements@));
            assert(old(self).reported() + goal.errors =~= error_models(errors@));
            assert(final(self).reported() =~= Seq::<SyntaxError>::empty());
        }
        if errors.len() > 0 {
            Err(errors)
        } else {
            Ok(statements)
        }
    }
}

/// Appends a statement to a vector of statements.
fn push_stmt(v: &mut Vec<Stmt>, s: Stmt)
    ensures
        final(v)@ == old(v)@.push(s),
        stmt_models(final(v)@) == stmt_models(old(v)@).push(stmt_model(s)),
{
    v.push(s);
    assert(stmt_models(final(v)@) =~= stmt_models(old(v)@).push(stmt_model(s)));
}

/// The block of two statements.
fn pair_block(first: Stmt, second: Stmt) -> (r: Stmt)
    ensures
        stmt_model(r) == StmtModel::Block(seq![stmt_model(first), stmt_model(second)]),
{
    let mut statements: Vec<Stmt> = Vec::new();
    statements.push(first);
    statements.push(second);
    assert(stmt_models(statements@) =~= seq![stmt_model(first), stmt_model(second)]);
    Stmt::Block(Rc::new(statements))
}

/// The statement that a `for` loop with these parts stands for.
fn desugar_for(
    initializer: Option<Stmt>,
    condition: Option<Expr>,
    increment: Option<Expr>,
    body: Stmt,
) -> (r: Stmt)
    ensures
        stmt_model(r) == grammar::desugared_for(
            optional_stmt_model(initializer),
            optional_model(condition),
            optional_model(increment),
            stmt_model(body),
        ),
{
    let stepped = match increment {
        Some(step) => pair_block(body, Stmt::Expression(Rc::new(step))),
        None => body,
    };
    let test = match condition {
        Some(test) => test,
        None => Expr::Literal(Object::Boolean(true)),
    };
    let repeated = Stmt::While { condition: Rc::new(test), body: Rc::new(stepped) };
    match initializer {
        Some(first) => pair_block(first, repeated),
        None => repeated,
    }
}

/// Appends an expression to a vector of expressions.
fn push_expr(v: &mut Vec<Expr>, e: Expr)
    ensures
        final(v)@ == old(v)@.push(e),
        expr_models(final(v)@) == expr_models(old(v)@).push(expr_model(e)),
{
    v.push(e);
    assert(expr_models(final(v)@) =~= expr_models(old(v)@).push(expr_model(e)));
}

} // verus!

