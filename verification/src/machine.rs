//! The evaluator as an abstract machine: its states, and the step from one
//! state to the next.
//!
//! The machine keeps a stack of tasks and one register, the value. An
//! expression is evaluated by a task that leaves its result in the value; the
//! task below it on the stack then takes it from there. What the machine
//! cannot do itself, it asks of its caller: to write a line, and to add,
//! subtract, multiply or divide two floating-point numbers.

use crate::environment::ScopeTree;
use crate::expr::{Expr, Stmt};
use crate::interpreter::{truthy, values_equal, ErrorKind};
use crate::lox_callable::LoxFunction;
use crate::number;
use crate::text::decimal;
use crate::token::{Object, Token};
use crate::token_type::TokenType;
use indextree::NodeId;
use std::rc::Rc;
use vstd::prelude::*;

verus! {

/// The operations on two numbers that round.
#[derive(Clone, Copy, Debug, PartialEq, Eq, Structural)]
pub enum Arithmetic {
    Add,
    Subtract,
    Multiply,
    Divide,
}

/// A request to the caller: apply `operator` to the numbers with the bit
/// patterns `left` and `right`.
#[derive(Clone, Copy, Debug, PartialEq, Eq, Structural)]
pub struct Request {
    pub operator: Arithmetic,
    pub left: u64,
    pub right: u64,
}

/// The values of the arguments of a call that are evaluated so far, the
/// last first.
#[derive(Debug)]
pub enum Values {
    Empty,
    More { value: Object, before: Rc<Values> },
}

/// The values of a list, the first first.
pub open spec fn listed(values: Values) -> Seq<Object>
    decreases values,
{
    match values {
        Values::Empty => Seq::empty(),
        Values::More { value, before } => listed(*before).push(value),
    }
}

/// What is left to do, one entry of the stack.
#[derive(Debug)]
#[allow(inconsistent_fields)]
pub enum Task {
    /// Execute the statements of `list` from `next` on.
    Statements { list: Rc<Vec<Stmt>>, next: usize },
    /// Execute a statement.
    Statement(Rc<Stmt>),
    /// Evaluate the condition of a loop once more.
    Repeat { condition: Rc<Expr>, body: Rc<Stmt> },
    /// Leave the current scope.
    ExitScope,
    /// End a call whose body ran to its end: go back to the scope `saved`,
    /// with `nil` as the result.
    EndCall { saved: NodeId },
    /// Evaluate an expression.
    Evaluate(Rc<Expr>),
    /// Evaluate the argument `index` of `arguments`.
    EvaluateArgument { arguments: Rc<Vec<Expr>>, index: usize },
    /// Drop the value.
    Discard,
    /// Print the value.
    Print,
    /// Define a variable with the value.
    Define(Token),
    /// Execute one of two branches, by the value.
    Branch { then_branch: Rc<Stmt>, else_branch: Option<Rc<Stmt>> },
    /// Execute the body of a loop and come back, or leave the loop, by the
    /// value.
    Loop { condition: Rc<Expr>, body: Rc<Stmt> },
    /// Return the value from the innermost call.
    Return(Token),
    /// Apply a unary operator to the value.
    Unary(Token),
    /// Keep the value as the left operand and evaluate the right one.
    BinaryRight { operator: Token, right: Rc<Expr> },
    /// Apply a binary operator to `left` and the value.
    BinaryApply { operator: Token, left: Object },
    /// Assign the value to a variable.
    Assign(Token),
    /// Keep the value as the result of `and` or `or`, or evaluate the right
    /// operand for it.
    Logical { operator: Token, right: Rc<Expr> },
    /// Take the value as the callee of a call.
    Callee { paren: Token, arguments: Rc<Vec<Expr>> },
    /// Take the value as the argument `done` of a call of `function`, behind
    /// the values `values`.
    Argument {
        function: Rc<LoxFunction>,
        paren: Token,
        arguments: Rc<Vec<Expr>>,
        values: Rc<Values>,
        done: usize,
    },
}

/// A state of the machine.
pub struct Machine {
    pub scopes: ScopeTree,
    /// The stack of tasks; the last is the next to run.
    pub tasks: Seq<Task>,
    pub value: Object,
    /// The request that the caller has not answered yet.
    pub pending: Option<Request>,
}

/// What a step hands to the caller.
pub enum Outcome {
    /// Nothing: step again.
    Continue,
    /// Write this value and a line feed.
    Print(Object),
    /// Answer this request with the next step.
    Compute(Request),
    /// The program has run to its end.
    Finished,
    /// The program has failed.
    Failed { kind: ErrorKind, message: Seq<char>, line: usize, column: usize },
}

/// The value behind a step: a given one, or some string with a given text.
pub enum Produced {
    Exactly(Object),
    Text(Seq<char>),
}

/// What a step leads to.
pub struct Next {
    pub scopes: ScopeTree,
    pub tasks: Seq<Task>,
    pub value: Produced,
    pub pending: Option<Request>,
    pub outcome: Outcome,
}

/// Whether a task names only scopes of `scopes`.
pub open spec fn anchored(task: Task, scopes: ScopeTree) -> bool {
    match task {
        Task::EndCall { saved } => scopes.scopes.contains_key(saved),
        _ => true,
    }
}

impl Machine {
    /// The scope tree is sound and the tasks name only scopes of it.
    pub open spec fn wf(self) -> bool {
        &&& self.scopes.wf()
        &&& forall|i: int| 0 <= i < self.tasks.len() ==> anchored(#[trigger] self.tasks[i], self.scopes)
    }

    /// The next state is this one.
    pub open spec fn stay(self) -> Next {
        Next {
            scopes: self.scopes,
            tasks: self.tasks,
            value: Produced::Exactly(self.value),
            pending: self.pending,
            outcome: Outcome::Continue,
        }
    }

    /// The next state has `value` as its value.
    pub open spec fn deliver(self, value: Object) -> Next {
        Next { value: Produced::Exactly(value), ..self.stay() }
    }

    /// The next state has `task` on top of the stack.
    pub open spec fn push(self, task: Task) -> Next {
        Next { tasks: self.tasks.push(task), ..self.stay() }
    }

    /// The next state has `below` and on top of it `top` on the stack.
    pub open spec fn push_two(self, below: Task, top: Task) -> Next {
        Next { tasks: self.tasks.push(below).push(top), ..self.stay() }
    }

    /// The next state has `scopes` as its scopes.
    pub open spec fn within(self, scopes: ScopeTree) -> Next {
        Next { scopes, ..self.stay() }
    }

    /// The program fails: every scope and call that the stack holds open is
    /// left, and nothing remains to do.
    pub open spec fn fail(
        self,
        kind: ErrorKind,
        message: Seq<char>,
        line: usize,
        column: usize,
    ) -> Next {
        Next {
            scopes: abandoned(self.scopes, self.tasks),
            tasks: Seq::empty(),
            value: Produced::Exactly(self.value),
            pending: None,
            outcome: Outcome::Failed { kind, message, line, column },
        }
    }
}

/// The scopes after leaving every scope and call that `tasks` holds open,
/// the innermost first.
pub open spec fn abandoned(scopes: ScopeTree, tasks: Seq<Task>) -> ScopeTree
    decreases tasks.len(),
{
    if tasks.len() == 0 {
        scopes
    } else {
        match tasks.last() {
            Task::ExitScope => abandoned(scopes.exit(), tasks.drop_last()),
            Task::EndCall { saved } => abandoned(scopes.at(saved), tasks.drop_last()),
            _ => abandoned(scopes, tasks.drop_last()),
        }
    }
}

/// The position of the innermost call that `tasks` holds open.
pub open spec fn innermost_call(tasks: Seq<Task>) -> Option<int>
    decreases tasks.len(),
{
    if tasks.len() == 0 {
        None
    } else if tasks.last() is EndCall {
        Some(tasks.len() - 1)
    } else {
        innermost_call(tasks.drop_last())
    }
}

pub open spec fn undefined_message(name: Seq<char>) -> Seq<char> {
    "Undefined variable '"@ + name + "'"@
}

pub open spec fn arity_message(expected: nat, got: nat) -> Seq<char> {
    "Expected "@ + decimal(expected) + " arguments but got "@ + decimal(got) + "."@
}

/// A `return` with the value of `m`: the innermost call ends with that
/// value, in the scope it was made from. Outside of every call the program
/// fails.
pub open spec fn unwind(m: Machine, keyword: Token) -> Next {
    match innermost_call(m.tasks) {
        Some(i) => Next {
            scopes: m.scopes.at(m.tasks[i]->saved),
            tasks: m.tasks.subrange(0, i),
            ..m.stay()
        },
        None => m.fail(ErrorKind::StrayReturn, "Can't return from top-level code."@, keyword.line, keyword.column),
    }
}

/// The beginning of a statement.
pub open spec fn execute(stmt: Stmt, m: Machine, fresh: NodeId) -> Next {
    match stmt {
        Stmt::Expression(e) => m.push_two(Task::Discard, Task::Evaluate(e)),
        Stmt::Print(e) => m.push_two(Task::Print, Task::Evaluate(e)),
        Stmt::Var { name, initializer } => match initializer {
            Some(e) => m.push_two(Task::Define(name), Task::Evaluate(e)),
            None => m.within(m.scopes.define(name.lexeme@, Object::NULL)),
        },
        Stmt::Block(stmts) => enter_block(stmts, m, fresh),
        Stmt::If { condition, then_branch, else_branch } => m.push_two(
            Task::Branch { then_branch, else_branch },
            Task::Evaluate(condition),
        ),
        Stmt::While { condition, body } => m.push_two(
            Task::Loop { condition, body },
            Task::Evaluate(condition),
        ),
        Stmt::Function { name, params, body } => m.within(
            m.scopes.define(
                name.lexeme@,
                Object::LoxFunction(
                    Rc::new(LoxFunction { name, params, body, closure_env: m.scopes.current }),
                ),
            ),
        ),
        Stmt::Return { keyword, value } => match value {
            Some(e) => m.push_two(Task::Return(keyword), Task::Evaluate(e)),
            None => unwind(Machine { value: Object::NULL, ..m }, keyword),
        },
    }
}

/// The beginning of a block: a new scope, which is left when the
/// statements are done.
pub open spec fn enter_block(stmts: Rc<Vec<Stmt>>, m: Machine, fresh: NodeId) -> Next {
    Next {
        scopes: m.scopes.enter_child(fresh),
        ..m.push_two(Task::ExitScope, Task::Statements { list: stmts, next: 0 })
    }
}

/// The beginning of the evaluation of an expression.
pub open spec fn evaluate(expr: Expr, m: Machine) -> Next {
    match expr {
        Expr::Literal(value) => m.deliver(value),
        Expr::Grouping(inner) => m.push(Task::Evaluate(inner)),
        Expr::Unary { operator, right } => m.push_two(Task::Unary(operator), Task::Evaluate(right)),
        Expr::Binary { left, operator, right } => m.push_two(
            Task::BinaryRight { operator, right },
            Task::Evaluate(left),
        ),
        Expr::Variable(name) => match m.scopes.get(name.lexeme@) {
            Some(value) => m.deliver(value),
            None => m.fail(ErrorKind::UndefinedName, undefined_message(name.lexeme@), name.line, name.column),
        },
        Expr::Assign { name, value } => m.push_two(Task::Assign(name), Task::Evaluate(value)),
        Expr::Logical { left, operator, right } => m.push_two(
            Task::Logical { operator, right },
            Task::Evaluate(left),
        ),
        Expr::Call { callee, paren, arguments } => m.push_two(
            Task::Callee { paren, arguments },
            Task::Evaluate(callee),
        ),
    }
}

/// The operation that an operator token asks of the caller, if it is one
/// that rounds.
pub open spec fn arithmetic_of(t: TokenType) -> Option<Arithmetic> {
    match t {
        TokenType::Plus => Some(Arithmetic::Add),
        TokenType::Minus => Some(Arithmetic::Subtract),
        TokenType::Star => Some(Arithmetic::Multiply),
        TokenType::Slash => Some(Arithmetic::Divide),
        _ => None,
    }
}

/// What a comparison operator gives on two numbers.
pub open spec fn compared(t: TokenType, a: u64, b: u64) -> Option<bool> {
    match t {
        TokenType::Greater => Some(number::less(b, a)),
        TokenType::GreaterEqual => Some(number::less(b, a) || number::equal(b, a)),
        TokenType::Less => Some(number::less(a, b)),
        TokenType::LessEqual => Some(number::less(a, b) || number::equal(a, b)),
        _ => None,
    }
}

/// A binary operator, applied to `left` and the value of `m`.
pub open spec fn apply(operator: Token, left: Object, m: Machine) -> Next {
    let t = operator.token_type;
    if t == TokenType::EqualEqual {
        m.deliver(Object::Boolean(values_equal(left, m.value)))
    } else if t == TokenType::BangEqual {
        m.deliver(Object::Boolean(!values_equal(left, m.value)))
    } else {
        match (left, m.value) {
            (Object::Number(a), Object::Number(b)) => {
                if arithmetic_of(t) is Some {
                    let request = Request { operator: arithmetic_of(t)->Some_0, left: a, right: b };
                    Next {
                        pending: Some(request),
                        outcome: Outcome::Compute(request),
                        ..m.stay()
                    }
                } else if compared(t, a, b) is Some {
                    m.deliver(Object::Boolean(compared(t, a, b)->Some_0))
                } else {
                    m.fail(ErrorKind::TypeMismatch, "Operands must be numbers."@, operator.line, operator.column)
                }
            },
            (Object::String(a), Object::String(b)) => {
                if t == TokenType::Plus {
                    Next { value: Produced::Text(a@ + b@), ..m.stay() }
                } else {
                    m.fail(ErrorKind::TypeMismatch, "Operands must be numbers."@, operator.line, operator.column)
                }
            },
            _ => {
                if t == TokenType::Plus {
                    m.fail(
                        ErrorKind::TypeMismatch,
                        "Operands must be two numbers or two strings."@,
                        operator.line,
                        operator.column,
                    )
                } else {
                    m.fail(ErrorKind::TypeMismatch, "Operands must be numbers."@, operator.line, operator.column)
                }
            },
        }
    }
}

/// A unary operator, applied to the value of `m`.
pub open spec fn apply_unary(operator: Token, m: Machine) -> Next {
    if operator.token_type == TokenType::Bang {
        m.deliver(Object::Boolean(!truthy(m.value)))
    } else if operator.token_type == TokenType::Minus && m.value is Number {
        m.deliver(Object::Number(number::negated(m.value->Number_0)))
    } else {
        m.fail(ErrorKind::TypeMismatch, "Operand must be a number."@, operator.line, operator.column)
    }
}

/// Whether the left operand of `and` or `or`, the value of `m`, decides the
/// result.
pub open spec fn decides(operator: Token, value: Object) -> bool {
    if operator.token_type == TokenType::Or {
        truthy(value)
    } else {
        !truthy(value)
    }
}

/// The scopes with the first `n` of `params` bound to the first `n` of
/// `values` in the current scope, in their order.
pub open spec fn bound(scopes: ScopeTree, params: Seq<Token>, values: Seq<Object>, n: nat) -> ScopeTree
    decreases n,
{
    if n == 0 {
        scopes
    } else {
        bound(scopes, params, values, (n - 1) as nat).define(
            params[n - 1].lexeme@,
            values[n - 1],
        )
    }
}

pub open spec fn missing_argument_message(name: Seq<char>) -> Seq<char> {
    "Missing argument for '"@ + name + "'"@
}

/// The activation of `function` with the values `arguments`: a new scope
/// `fresh` below the one in which the function was declared, with the
/// parameters bound in it, becomes current, and the body runs in it; behind
/// the body the call ends in the scope it was made from. Arguments beyond the
/// parameters are left out. The program fails if there are fewer arguments
/// than parameters, or if the function was declared in no scope of this
/// tree.
pub open spec fn activation(
    function: LoxFunction,
    arguments: Seq<Object>,
    m: Machine,
    fresh: NodeId,
) -> Next {
    if !m.scopes.scopes.contains_key(function.closure_env) {
        m.fail(
            ErrorKind::NotCallable,
            "Can only call functions of this interpreter."@,
            function.name.line,
            function.name.column,
        )
    } else if arguments.len() < function.params@.len() {
        m.fail(
            ErrorKind::ArityMismatch,
            missing_argument_message(function.params@[arguments.len() as int].lexeme@),
            function.params@[arguments.len() as int].line,
            function.params@[arguments.len() as int].column,
        )
    } else {
        Next {
            scopes: bound(
                m.scopes.at(function.closure_env).enter_child(fresh),
                function.params@,
                arguments,
                function.params@.len(),
            ),
            ..m.push_two(
                Task::EndCall { saved: m.scopes.current },
                Task::Statements { list: function.body, next: 0 },
            )
        }
    }
}

/// The call of `function`, once `done` of its arguments are evaluated to
/// `values`: the next argument is evaluated; behind the last, the function
/// is activated, unless the number of arguments is wrong.
pub open spec fn argue(
    function: Rc<LoxFunction>,
    paren: Token,
    arguments: Rc<Vec<Expr>>,
    values: Rc<Values>,
    done: usize,
    m: Machine,
    fresh: NodeId,
) -> Next {
    if done < arguments@.len() {
        m.push_two(
            Task::Argument { function, paren, arguments, values, done },
            Task::EvaluateArgument { arguments, index: done },
        )
    } else if arguments@.len() != function.params@.len() {
        m.fail(
            ErrorKind::ArityMismatch,
            arity_message(function.params@.len(), arguments@.len()),
            paren.line,
            paren.column,
        )
    } else {
        activation(*function, listed(*values), m, fresh)
    }
}

/// The beginning of a call, with the callee as the value of `m`.
pub open spec fn call(paren: Token, arguments: Rc<Vec<Expr>>, m: Machine, fresh: NodeId) -> Next {
    match m.value {
        Object::LoxFunction(function) => argue(
            function,
            paren,
            arguments,
            Rc::new(Values::Empty),
            0,
            m,
            fresh,
        ),
        _ => m.fail(
            ErrorKind::NotCallable,
            "Can only call functions and classes."@,
            paren.line,
            paren.column,
        ),
    }
}

/// An argument, the value of `m`, arrives behind the values `values`.
pub open spec fn take_argument(
    function: Rc<LoxFunction>,
    paren: Token,
    arguments: Rc<Vec<Expr>>,
    values: Rc<Values>,
    done: usize,
    m: Machine,
    fresh: NodeId,
) -> Next {
    argue(
        function,
        paren,
        arguments,
        Rc::new(Values::More { value: m.value, before: values }),
        if done < arguments@.len() {
            (done + 1) as usize
        } else {
            done
        },
        m,
        fresh,
    )
}

/// What `task` does, taken from the top of the stack of which `m` holds the
/// rest.
pub open spec fn run(task: Task, m: Machine, fresh: NodeId) -> Next {
    match task {
        Task::Statements { list, next } => {
            if next < list@.len() {
                execute(
                    list@[next as int],
                    Machine {
                        tasks: m.tasks.push(Task::Statements { list, next: (next + 1) as usize }),
                        ..m
                    },
                    fresh,
                )
            } else {
                m.stay()
            }
        },
        Task::Statement(stmt) => execute(*stmt, m, fresh),
        Task::Repeat { condition, body } => m.push_two(
            Task::Loop { condition, body },
            Task::Evaluate(condition),
        ),
        Task::ExitScope => m.within(m.scopes.exit()),
        Task::EndCall { saved } => Next {
            scopes: m.scopes.at(saved),
            value: Produced::Exactly(Object::NULL),
            ..m.stay()
        },
        Task::Evaluate(expr) => evaluate(*expr, m),
        Task::EvaluateArgument { arguments, index } => {
            if index < arguments@.len() {
                evaluate(arguments@[index as int], m)
            } else {
                m.stay()
            }
        },
        Task::Discard => m.stay(),
        Task::Print => Next { outcome: Outcome::Print(m.value), ..m.stay() },
        Task::Define(name) => m.within(m.scopes.define(name.lexeme@, m.value)),
        Task::Branch { then_branch, else_branch } => {
            if truthy(m.value) {
                m.push(Task::Statement(then_branch))
            } else {
                match else_branch {
                    Some(branch) => m.push(Task::Statement(branch)),
                    None => m.stay(),
                }
            }
        },
        Task::Loop { condition, body } => {
            if truthy(m.value) {
                m.push_two(Task::Repeat { condition, body }, Task::Statement(body))
            } else {
                m.stay()
            }
        },
        Task::Return(keyword) => unwind(m, keyword),
        Task::Unary(operator) => apply_unary(operator, m),
        Task::BinaryRight { operator, right } => m.push_two(
            Task::BinaryApply { operator, left: m.value },
            Task::Evaluate(right),
        ),
        Task::BinaryApply { operator, left } => apply(operator, left, m),
        Task::Assign(name) => match m.scopes.get(name.lexeme@) {
            Some(_) => m.within(m.scopes.assign(name.lexeme@, m.value)),
            None => m.fail(ErrorKind::UndefinedName, undefined_message(name.lexeme@), name.line, name.column),
        },
        Task::Logical { operator, right } => {
            if decides(operator, m.value) {
                m.stay()
            } else {
                m.push(Task::Evaluate(right))
            }
        },
        Task::Callee { paren, arguments } => call(paren, arguments, m, fresh),
        Task::Argument { function, paren, arguments, values, done } => take_argument(
            function,
            paren,
            arguments,
            values,
            done,
            m,
            fresh,
        ),
    }
}

/// One step of the machine. `answer` is the caller's answer to the request
/// of the step before, if that step made one; `fresh` is the scope that the
/// step creates, if it creates one.
pub open spec fn next(m: Machine, answer: Option<u64>, fresh: NodeId) -> Next {
    match m.pending {
        Some(request) => match answer {
            Some(bits) => Next {
                value: Produced::Exactly(Object::Number(bits)),
                pending: None,
                ..m.stay()
            },
            None => Next { outcome: Outcome::Compute(request), ..m.stay() },
        },
        None => {
            if m.tasks.len() == 0 {
                Next { outcome: Outcome::Finished, ..m.stay() }
            } else {
                run(m.tasks.last(), Machine { tasks: m.tasks.drop_last(), ..m }, fresh)
            }
        },
    }
}

/// The scope that is in `after` and not in `before`, where there is one.
pub open spec fn created(before: ScopeTree, after: ScopeTree) -> NodeId {
    choose|id: NodeId| after.scopes.contains_key(id) && !before.scopes.contains_key(id)
}

/// An assignment creates no scope and removes none.
pub proof fn lemma_assign_keeps_scopes(scopes: ScopeTree, name: Seq<char>, value: Object)
    requires
        scopes.wf(),
    ensures
        scopes.assign(name, value).scopes.dom() =~= scopes.scopes.dom(),
{
    if scopes.resolve(scopes.current, name) is Some {
        crate::environment::lemma_resolve_binds(scopes, scopes.current, name);
    }
}

/// `or` and `and` do not evaluate their right operand where the left one
/// decides: a true left operand of `or`, or a false one of `and`, is the
/// result as it stands, and the step that takes it puts nothing on the
/// stack.
pub proof fn law_short_circuit(
    m: Machine,
    operator: Token,
    right: Rc<Expr>,
    answer: Option<u64>,
    fresh: NodeId,
)
    requires
        m.pending is None,
        if operator.token_type == TokenType::Or {
            truthy(m.value)
        } else {
            !truthy(m.value)
        },
    ensures
        next(
            Machine { tasks: m.tasks.push(Task::Logical { operator, right }), ..m },
            answer,
            fresh,
        ) == m.stay(),
{
    let loaded = m.tasks.push(Task::Logical { operator, right });
    assert(loaded.drop_last() =~= m.tasks);
}

/// Where the left operand of `or` or `and` does not decide, the right
/// operand is evaluated next, and its value is the result.
pub proof fn law_right_operand(
    m: Machine,
    operator: Token,
    right: Rc<Expr>,
    answer: Option<u64>,
    fresh: NodeId,
)
    requires
        m.pending is None,
        if operator.token_type == TokenType::Or {
            !truthy(m.value)
        } else {
            truthy(m.value)
        },
    ensures
        next(
            Machine { tasks: m.tasks.push(Task::Logical { operator, right }), ..m },
            answer,
            fresh,
        ) == m.push(Task::Evaluate(right)),
{
    let loaded = m.tasks.push(Task::Logical { operator, right });
    assert(loaded.drop_last() =~= m.tasks);
}

/// To assign a variable the value that it has changes nothing: the scopes
/// stay as they are and the value, which is the result of the assignment,
/// is the one that the variable had, so that it prints as before.
pub proof fn law_self_assignment(m: Machine, name: Token, answer: Option<u64>, fresh: NodeId)
    requires
        m.scopes.wf(),
        m.pending is None,
        m.scopes.get(name.lexeme@) == Some(m.value),
    ensures
        next(Machine { tasks: m.tasks.push(Task::Assign(name)), ..m }, answer, fresh) == m.stay(),
{
    let loaded = m.tasks.push(Task::Assign(name));
    assert(loaded.drop_last() =~= m.tasks);
    crate::environment::law_assign_own_value(m.scopes, name.lexeme@);
}

/// A machine with nothing to do stays as it is, whatever it is told.
pub proof fn law_finished_is_final(m: Machine, answer: Option<u64>, fresh: NodeId)
    requires
        m.pending is None,
        m.tasks.len() == 0,
    ensures
        next(m, answer, fresh).outcome is Finished,
        next(m, answer, fresh) == (Next { outcome: Outcome::Finished, ..m.stay() }),
{
}

/// A block is left on every way out of it. A block that holds no statement
/// leaves the scopes as they were, but for the scope it made; a failure
/// inside a block leaves the current scope as if the block had been left.
pub proof fn law_block_is_left(m: Machine, stmts: Rc<Vec<Stmt>>, fresh: NodeId)
    requires
        m.wf(),
        !m.scopes.scopes.contains_key(fresh),
    ensures
        ({
            let inside = enter_block(stmts, m, fresh);
            &&& inside.tasks == m.tasks.push(Task::ExitScope).push(
                Task::Statements { list: stmts, next: 0 },
            )
            &&& inside.scopes.current == fresh
            &&& inside.scopes.exit().current == m.scopes.current
            &&& abandoned(inside.scopes, inside.tasks.drop_last()).current == abandoned(
                m.scopes,
                m.tasks,
            ).current
        }),
{
    let inside = enter_block(stmts, m, fresh);
    let open = inside.tasks.drop_last();
    assert(open =~= m.tasks.push(Task::ExitScope));
    assert(open.drop_last() =~= m.tasks);
    assert(abandoned(inside.scopes, open) == abandoned(inside.scopes.exit(), m.tasks));
    lemma_abandoned_current(inside.scopes.exit(), m.scopes, m.tasks);
}

/// Where leaving ends up depends on the current scope and the stack alone.
pub proof fn lemma_abandoned_current(a: ScopeTree, b: ScopeTree, tasks: Seq<Task>)
    requires
        a.current == b.current,
        forall|id: NodeId| #[trigger]
            b.scopes.contains_key(id) ==> a.scopes.contains_key(id) && a.scopes[id].parent
                == b.scopes[id].parent,
        b.wf(),
        forall|i: int| 0 <= i < tasks.len() ==> anchored(#[trigger] tasks[i], b),
    ensures
        abandoned(a, tasks).current == abandoned(b, tasks).current,
    decreases tasks.len(),
{
    if tasks.len() > 0 {
        let rest = tasks.drop_last();
        assert forall|i: int| 0 <= i < rest.len() implies anchored(#[trigger] rest[i], b) by {
            assert(rest[i] == tasks[i]);
        }
        assert(anchored(tasks[tasks.len() - 1], b));
        match tasks.last() {
            Task::ExitScope => {
                assert(b.scopes.contains_key(b.current));
                lemma_abandoned_current(a.exit(), b.exit(), rest);
            },
            Task::EndCall { saved } => {
                lemma_abandoned_current(a.at(saved), b.at(saved), rest);
            },
            _ => {
                lemma_abandoned_current(a, b, rest);
            },
        }
    }
}

/// Where `after` has the scopes of `before` and `child` besides, `child`
/// is the scope that was created.
pub proof fn lemma_created(before: ScopeTree, after: ScopeTree, child: NodeId)
    requires
        !before.scopes.contains_key(child),
        after.scopes.contains_key(child),
        forall|id: NodeId| after.scopes.contains_key(id) ==> before.scopes.contains_key(id) || id == child,
    ensures
        created(before, after) == child,
{
}

/// The innermost call is the last `EndCall` of the stack.
pub proof fn lemma_innermost_call(tasks: Seq<Task>, i: int)
    requires
        0 <= i < tasks.len(),
        tasks[i] is EndCall,
        forall|j: int| i < j < tasks.len() ==> !(#[trigger] tasks[j] is EndCall),
    ensures
        innermost_call(tasks) == Some(i),
    decreases tasks.len(),
{
    if i < tasks.len() - 1 {
        lemma_innermost_call(tasks.drop_last(), i);
    }
}

/// A stack without an `EndCall` holds no call open.
pub proof fn lemma_no_call(tasks: Seq<Task>)
    requires
        forall|j: int| 0 <= j < tasks.len() ==> !(#[trigger] tasks[j] is EndCall),
    ensures
        innermost_call(tasks) is None,
    decreases tasks.len(),
{
    if tasks.len() > 0 {
        lemma_no_call(tasks.drop_last());
    }
}

/// A call ends in the scope it was made from, however it ends. Where a
/// function was activated from the state `m`, the stack holds an `EndCall`
/// for the scope that was current in `m`. If the body runs to its end, that
/// task makes that scope current again. If a `return` is executed, with
/// whatever tasks of the body above the `EndCall`, whatever scopes entered
/// and whatever value, the stack of `m` is left, that scope is current
/// again and the value is the result.
pub proof fn law_call_returns_to_caller(
    function: LoxFunction,
    arguments: Seq<Object>,
    m: Machine,
    fresh: NodeId,
    above: Seq<Task>,
    inside: ScopeTree,
    value: Object,
    keyword: Token,
)
    requires
        activation(function, arguments, m, fresh).outcome is Continue,
        forall|i: int| 0 <= i < above.len() ==> !(#[trigger] above[i] is EndCall),
    ensures
        ({
            let begun = activation(function, arguments, m, fresh);
            let end = Task::EndCall { saved: m.scopes.current };
            let returning = Machine {
                scopes: inside,
                tasks: m.tasks.push(end) + above,
                value,
                pending: None,
            };
            &&& begun.tasks == m.tasks.push(end).push(
                Task::Statements { list: function.body, next: 0 },
            )
            &&& begun.scopes.current == fresh
            &&& run(end, Machine { scopes: inside, tasks: m.tasks, value, pending: None }, fresh).scopes.current
                == m.scopes.current
            &&& unwind(returning, keyword).tasks == m.tasks
            &&& unwind(returning, keyword).scopes.current == m.scopes.current
            &&& unwind(returning, keyword).value == Produced::Exactly(value)
            &&& unwind(returning, keyword).outcome is Continue
        }),
{
    let end = Task::EndCall { saved: m.scopes.current };
    let stack = m.tasks.push(end) + above;
    lemma_bound_current(
        m.scopes.at(function.closure_env).enter_child(fresh),
        function.params@,
        arguments,
        function.params@.len(),
    );
    assert(stack[m.tasks.len() as int] == end);
    assert forall|j: int| m.tasks.len() < j < stack.len() implies !(#[trigger] stack[j]
        is EndCall) by {
        assert(stack[j] == above[j - m.tasks.len() - 1]);
    }
    lemma_innermost_call(stack, m.tasks.len() as int);
    assert(stack.subrange(0, m.tasks.len() as int) =~= m.tasks);
}

/// Binding parameters changes neither the current scope nor the scopes
/// that there are.
pub proof fn lemma_bound_current(scopes: ScopeTree, params: Seq<Token>, values: Seq<Object>, n: nat)
    requires
        scopes.scopes.contains_key(scopes.current),
    ensures
        bound(scopes, params, values, n).current == scopes.current,
        bound(scopes, params, values, n).scopes.dom() =~= scopes.scopes.dom(),
    decreases n,
{
    if n > 0 {
        lemma_bound_current(scopes, params, values, (n - 1) as nat);
    }
}

} // verus!
