//! The evaluator: the machine of `machine`, in executable form.
//!
//! A program is put on the stack with `interpret` and run with `step`, which
//! makes one step and says what the caller is to do: step again, write a
//! value, answer a request for arithmetic with the next step, or stop.

use crate::environment::{same_node, EnvironmentTree, ScopeTree};
use crate::expr::{Expr, Stmt};
use crate::lox_callable::{LoxCallable, LoxFunction};
use crate::machine::{
    abandoned, anchored, lemma_created, lemma_innermost_call, lemma_no_call, Arithmetic, Machine,
    Next, Outcome, Produced, Request, Task, Values,
};
use crate::machine;
use crate::number;
use crate::text::{decimal, to_decimal};
use crate::token::{share, Object, Token};
use crate::token_type::TokenType;
use indextree::NodeId;
use std::rc::Rc;
use vstd::prelude::*;
use vstd::string::StringExecFns;

verus! {

/// The kinds of failure that evaluation can end in.
#[derive(Clone, Copy, Debug, PartialEq, Eq, Structural)]
pub enum ErrorKind {
    /// A name was read or assigned that no enclosing scope binds.
    UndefinedName,
    /// An operator was applied to operands of the wrong kind.
    TypeMismatch,
    /// Something other than a function was called.
    NotCallable,
    /// A function was called with the wrong number of arguments.
    ArityMismatch,
    /// A `return` was executed outside of any function.
    StrayReturn,
}

/// A failure of evaluation, with the place of the token it is reported at.
#[derive(Debug)]
pub struct RuntimeError {
    pub kind: ErrorKind,
    pub message: String,
    pub line: usize,
    pub column: usize,
}

/// Whether a value counts as true in a condition: everything but `nil` and
/// `false` does.
pub open spec fn truthy(value: Object) -> bool {
    match value {
        Object::NULL => false,
        Object::Boolean(b) => b,
        _ => true,
    }
}

/// Whether two function values come from the same declaration, made in the
/// same scope.
pub open spec fn same_function(a: LoxFunction, b: LoxFunction) -> bool {
    &&& a.name.lexeme@ == b.name.lexeme@
    &&& a.name.line == b.name.line
    &&& a.name.column == b.name.column
    &&& a.closure_env == b.closure_env
}

/// Whether two values are equal: values of different kinds never are, and
/// two of one kind are if they hold the same.
pub open spec fn values_equal(a: Object, b: Object) -> bool {
    match (a, b) {
        (Object::Number(x), Object::Number(y)) => number::equal(x, y),
        (Object::String(x), Object::String(y)) => x@ == y@,
        (Object::Boolean(x), Object::Boolean(y)) => x == y,
        (Object::NULL, Object::NULL) => true,
        (Object::LoxFunction(x), Object::LoxFunction(y)) => same_function(*x, *y),
        _ => false,
    }
}

/// The text that `print` shows for a value other than a number.
pub open spec fn rendering(value: Object) -> Option<Seq<char>> {
    match value {
        Object::Number(_) => None,
        Object::String(s) => Some(s@),
        Object::Boolean(b) => Some(
            if b {
                "true"@
            } else {
                "false"@
            },
        ),
        Object::NULL => Some("nil"@),
        Object::LoxFunction(f) => Some("<fn "@ + f.name.lexeme@ + ">"@),
    }
}

/// `nil` and `false` are false in a condition; every number, zero too, and
/// every string, the empty one too, is true.
pub proof fn law_truthiness(value: Object)
    ensures
        truthy(value) <==> !(value == Object::NULL || value == Object::Boolean(false)),
        value is Number ==> truthy(value),
        value is String ==> truthy(value),
        value is LoxFunction ==> truthy(value),
{
}

/// `nil` equals `nil` and nothing else; values of different kinds are never
/// equal; equality is symmetric.
pub proof fn law_equality(a: Object, b: Object)
    ensures
        values_equal(Object::NULL, Object::NULL),
        values_equal(Object::NULL, b) ==> b == Object::NULL,
        !values_equal(Object::NULL, Object::Number(0)),
        !values_equal(Object::NULL, Object::Boolean(false)),
        values_equal(a, b) ==> (a is Number <==> b is Number) && (a is String <==> b is String)
            && (a is Boolean <==> b is Boolean) && (a is NULL <==> b is NULL) && (a is LoxFunction
            <==> b is LoxFunction),
        values_equal(a, b) == values_equal(b, a),
{
}

/// A value that is no number equals itself, and so does every number but a
/// NaN.
pub proof fn law_equality_reflexive(a: Object)
    ensures
        values_equal(a, a) <==> !(a matches Object::Number(bits) && number::is_nan(bits)),
{
}

/// Appends the values of a list, the first first.
fn collect(values: &Values, out: &mut Vec<Object>)
    ensures
        final(out)@ == old(out)@ + machine::listed(*values),
    decreases values,
{
    match values {
        Values::Empty => {
            assert(final(out)@ =~= old(out)@ + machine::listed(*values));
        },
        Values::More { value, before } => {
            collect(&**before, out);
            out.push(value.clone());
            assert(final(out)@ =~= old(out)@ + machine::listed(*values));
        },
    }
}

fn arithmetic(t: TokenType) -> (r: Option<Arithmetic>)
    ensures
        r == machine::arithmetic_of(t),
{
    match t {
        TokenType::Plus => Some(Arithmetic::Add),
        TokenType::Minus => Some(Arithmetic::Subtract),
        TokenType::Star => Some(Arithmetic::Multiply),
        TokenType::Slash => Some(Arithmetic::Divide),
        _ => None,
    }
}

fn compare(t: TokenType, a: u64, b: u64) -> (r: Option<bool>)
    ensures
        r == machine::compared(t, a, b),
{
    match t {
        TokenType::Greater => Some(number::lt(b, a)),
        TokenType::GreaterEqual => Some(number::le(b, a)),
        TokenType::Less => Some(number::lt(a, b)),
        TokenType::LessEqual => Some(number::le(a, b)),
        _ => None,
    }
}

fn same_text(a: &String, b: &String) -> (r: bool)
    ensures
        r == (a@ == b@),
{
    *a == *b
}

/// Whether `action` and the state `post` are what `next` describes.
pub open spec fn follows(post: Machine, action: Action, next: Next) -> bool {
    &&& post.scopes == next.scopes
    &&& post.tasks == next.tasks
    &&& post.pending == next.pending
    &&& match next.value {
        Produced::Exactly(value) => post.value == value,
        Produced::Text(text) => post.value matches Object::String(s) && s@ == text,
    }
    &&& match next.outcome {
        Outcome::Continue => action is Continue,
        Outcome::Print(value) => action == Action::Print(value),
        Outcome::Compute(request) => action == Action::Compute(request),
        Outcome::Finished => action is Finished,
        Outcome::Failed { kind, message, line, column } => action matches Action::Failed(e)
            && e.kind == kind && e.message@ == message && e.line == line && e.column == column,
    }
}

/// What a step hands to the caller.
#[derive(Debug)]
pub enum Action {
    /// Nothing: step again.
    Continue,
    /// Write this value and a line feed.
    Print(Object),
    /// Answer this request with the next step.
    Compute(Request),
    /// The program has run to its end.
    Finished,
    /// The program has failed.
    Failed(RuntimeError),
}

/// The evaluator: a scope tree, a stack of tasks and a value.
pub struct Interpreter {
    environment: EnvironmentTree,
    tasks: Vec<Task>,
    value: Object,
    pending: Option<Request>,
}

impl View for Interpreter {
    type V = Machine;

    closed spec fn view(&self) -> Machine {
        Machine {
            scopes: self.environment@,
            tasks: self.tasks@,
            value: self.value,
            pending: self.pending,
        }
    }
}

impl Interpreter {
    /// The machine is sound, and so is the storage of its scopes.
    pub closed spec fn wf(&self) -> bool {
        self.environment.wf() && self@.wf()
    }

    /// The machine of a sound interpreter is sound.
    pub proof fn lemma_wf(&self)
        requires
            self.wf(),
        ensures
            self@.wf(),
    {
    }

    /// An interpreter with the global scope alone and nothing to do.
    pub fn new() -> (r: Self)
        ensures
            r.wf(),
            r@.tasks == Seq::<Task>::empty(),
            r@.value == Object::NULL,
            r@.pending is None,
            r@.scopes.scopes.dom() == set![r@.scopes.current],
            r@.scopes.scopes[r@.scopes.current].bindings == Map::<Seq<char>, Object>::empty(),
    {
        Interpreter {
            environment: EnvironmentTree::new(),
            tasks: Vec::new(),
            value: Object::NULL,
            pending: None,
        }
    }

    /// The scopes.
    pub fn environment(&self) -> (r: &EnvironmentTree)
        requires
            self.wf(),
        ensures
            r@ == self@.scopes,
            r.wf(),
    {
        &self.environment
    }

    /// The value that the last expression left.
    pub fn value(&self) -> (r: &Object)
        ensures
            *r == self@.value,
    {
        &self.value
    }

    /// Tells whether nothing is left to do.
    pub fn is_finished(&self) -> (r: bool)
        ensures
            r == (self@.tasks.len() == 0 && self@.pending is None),
    {
        self.tasks.len() == 0 && self.pending.is_none()
    }

    /// Puts a program on the stack: its statements run, in order, before
    /// what was there.
    pub fn interpret(&mut self, statements: Vec<Stmt>)
        requires
            old(self).wf(),
        ensures
            final(self).wf(),
            final(self)@.tasks.len() == old(self)@.tasks.len() + 1,
            final(self)@.tasks.last() matches Task::Statements { list, next } && list@
                == statements@ && next == 0,
            final(self)@ == (Machine {
                tasks: old(self)@.tasks.push(final(self)@.tasks.last()),
                ..old(self)@
            }),
    {
        let list = Rc::new(statements);
        self.push(Task::Statements { list, next: 0 });
    }

    pub(crate) fn push(&mut self, task: Task)
        requires
            old(self).wf(),
            anchored(task, old(self)@.scopes),
        ensures
            final(self).wf(),
            final(self)@ == (Machine { tasks: old(self)@.tasks.push(task), ..old(self)@ }),
    {
        self.tasks.push(task);
    }

    fn pop(&mut self) -> (task: Task)
        requires
            old(self).wf(),
            old(self)@.tasks.len() > 0,
        ensures
            final(self).wf(),
            task == old(self)@.tasks.last(),
            anchored(task, old(self)@.scopes),
            final(self)@ == (Machine { tasks: old(self)@.tasks.drop_last(), ..old(self)@ }),
    {
        let task = self.tasks.pop().unwrap();
        assert(old(self)@.tasks[old(self)@.tasks.len() - 1] == task);
        task
    }

    pub(crate) fn define(&mut self, name: String, value: Object)
        requires
            old(self).wf(),
        ensures
            final(self).wf(),
            final(self)@ == (Machine {
                scopes: old(self)@.scopes.define(name@, value),
                ..old(self)@
            }),
    {
        self.environment.define(name, value);
        assert forall|i: int| 0 <= i < self@.tasks.len() implies anchored(
            #[trigger] self@.tasks[i],
            self@.scopes,
        ) by {
            assert(anchored(old(self)@.tasks[i], old(self)@.scopes));
        }
    }

    pub(crate) fn enter_scope(&mut self)
        requires
            old(self).wf(),
        ensures
            final(self).wf(),
            !old(self)@.scopes.scopes.contains_key(final(self)@.scopes.current),
            final(self)@ == (Machine {
                scopes: old(self)@.scopes.enter_child(final(self)@.scopes.current),
                ..old(self)@
            }),
    {
        self.environment.enter_child_scope();
        assert forall|i: int| 0 <= i < self@.tasks.len() implies anchored(
            #[trigger] self@.tasks[i],
            self@.scopes,
        ) by {
            assert(anchored(old(self)@.tasks[i], old(self)@.scopes));
        }
    }

    fn exit_scope(&mut self)
        requires
            old(self).wf(),
        ensures
            final(self).wf(),
            final(self)@ == (Machine { scopes: old(self)@.scopes.exit(), ..old(self)@ }),
    {
        self.environment.exit_scope();
        assert forall|i: int| 0 <= i < self@.tasks.len() implies anchored(
            #[trigger] self@.tasks[i],
            self@.scopes,
        ) by {
            assert(anchored(old(self)@.tasks[i], old(self)@.scopes));
        }
    }

    pub(crate) fn go_to(&mut self, scope: NodeId)
        requires
            old(self).wf(),
            old(self)@.scopes.scopes.contains_key(scope),
        ensures
            final(self).wf(),
            final(self)@ == (Machine { scopes: old(self)@.scopes.at(scope), ..old(self)@ }),
    {
        self.environment.set_current(scope);
        assert forall|i: int| 0 <= i < self@.tasks.len() implies anchored(
            #[trigger] self@.tasks[i],
            self@.scopes,
        ) by {
            assert(anchored(old(self)@.tasks[i], old(self)@.scopes));
        }
    }

    /// Ends the program with `error`: leaves every scope and call that the
    /// stack holds open, and empties the stack.
    pub(crate) fn fail(&mut self, error: RuntimeError) -> (action: Action)
        requires
            old(self).wf(),
        ensures
            final(self).wf(),
            final(self)@.scopes.scopes == old(self)@.scopes.scopes,
            follows(
                final(self)@,
                action,
                old(self)@.fail(error.kind, error.message@, error.line, error.column),
            ),
    {
        while self.tasks.len() > 0
            invariant
                self.wf(),
                self@.value == old(self)@.value,
                self@.scopes.scopes == old(self)@.scopes.scopes,
                abandoned(self@.scopes, self@.tasks) == abandoned(
                    old(self)@.scopes,
                    old(self)@.tasks,
                ),
            decreases self@.tasks.len(),
        {
            let task = self.pop();
            match task {
                Task::ExitScope => {
                    self.exit_scope();
                },
                Task::EndCall { saved } => {
                    self.go_to(saved);
                },
                _ => {},
            }
        }
        self.pending = None;
        assert(self@.tasks =~= Seq::<Task>::empty());
        Action::Failed(error)
    }

    /// Returns the value from the innermost call; outside of every call the
    /// program fails.
    fn unwind(&mut self, keyword: &Token) -> (action: Action)
        requires
            old(self).wf(),
        ensures
            final(self).wf(),
            final(self)@.scopes.scopes == old(self)@.scopes.scopes,
            follows(final(self)@, action, machine::unwind(old(self)@, *keyword)),
    {
        let mut i = self.tasks.len();
        while i > 0
            invariant
                *self == *old(self),
                self.wf(),
                0 <= i <= self@.tasks.len(),
                forall|j: int| i <= j < self@.tasks.len() ==> !(#[trigger] self@.tasks[j] is EndCall),
            decreases i,
        {
            let found = match &self.tasks[i - 1] {
                Task::EndCall { saved } => Some(*saved),
                _ => None,
            };
            match found {
                Some(saved) => {
                    proof {
                        lemma_innermost_call(self@.tasks, i - 1);
                        assert(anchored(self@.tasks[i - 1], self@.scopes));
                    }
                    self.tasks.truncate(i - 1);
                    assert(self.wf()) by {
                        assert forall|k: int| 0 <= k < self@.tasks.len() implies anchored(
                            #[trigger] self@.tasks[k],
                            self@.scopes,
                        ) by {
                            assert(anchored(old(self)@.tasks[k], old(self)@.scopes));
                        }
                    }
                    self.go_to(saved);
                    return Action::Continue;
                },
                None => {},
            }
            i -= 1;
        }
        proof {
            lemma_no_call(self@.tasks);
        }
        self.fail(
            RuntimeError {
                kind: ErrorKind::StrayReturn,
                message: String::from_str("Can't return from top-level code."),
                line: keyword.line,
                column: keyword.column,
            },
        )
    }

    /// Begins a block: enters a new scope, which is left when the
    /// statements are done.
    pub fn execute_block(&mut self, stmts: Rc<Vec<Stmt>>) -> (action: Action)
        requires
            old(self).wf(),
        ensures
            final(self).wf(),
            follows(
                final(self)@,
                action,
                machine::enter_block(
                    stmts,
                    old(self)@,
                    machine::created(old(self)@.scopes, final(self)@.scopes),
                ),
            ),
    {
        self.enter_scope();
        proof {
            lemma_created(old(self)@.scopes, self@.scopes, self@.scopes.current);
        }
        self.push(Task::ExitScope);
        self.push(Task::Statements { list: stmts, next: 0 });
        Action::Continue
    }

    /// Begins a statement.
    pub fn interpret_stmt(&mut self, stmt: &Stmt) -> (action: Action)
        requires
            old(self).wf(),
        ensures
            final(self).wf(),
            follows(
                final(self)@,
                action,
                machine::execute(
                    *stmt,
                    old(self)@,
                    machine::created(old(self)@.scopes, final(self)@.scopes),
                ),
            ),
    {
        match stmt {
            Stmt::Expression(expr) => {
                self.push(Task::Discard);
                self.push(Task::Evaluate(share(expr)));
                Action::Continue
            },
            Stmt::Print(expr) => {
                self.push(Task::Print);
                self.push(Task::Evaluate(share(expr)));
                Action::Continue
            },
            Stmt::Var { name, initializer } => {
                match initializer {
                    Some(expr) => {
                        self.push(Task::Define(name.clone()));
                        self.push(Task::Evaluate(share(expr)));
                    },
                    None => {
                        self.define(name.lexeme.clone(), Object::NULL);
                    },
                }
                Action::Continue
            },
            Stmt::Block(stmts) => self.execute_block(share(stmts)),
            Stmt::If { condition, then_branch, else_branch } => {
                let otherwise = match else_branch {
                    Some(branch) => Some(share(branch)),
                    None => None,
                };
                self.push(Task::Branch { then_branch: share(then_branch), else_branch: otherwise });
                self.push(Task::Evaluate(share(condition)));
                Action::Continue
            },
            Stmt::While { condition, body } => {
                self.push(Task::Loop { condition: share(condition), body: share(body) });
                self.push(Task::Evaluate(share(condition)));
                Action::Continue
            },
            Stmt::Function { name, params, body } => {
                let f = LoxFunction::new(
                    name.clone(),
                    share(params),
                    share(body),
                    self.environment.get_current(),
                );
                self.define(name.lexeme.clone(), Object::LoxFunction(Rc::new(f)));
                Action::Continue
            },
            Stmt::Return { keyword, value } => {
                match value {
                    Some(expr) => {
                        self.push(Task::Return(keyword.clone()));
                        self.push(Task::Evaluate(share(expr)));
                        Action::Continue
                    },
                    None => {
                        self.value = Object::NULL;
                        self.unwind(keyword)
                    },
                }
            },
        }
    }

    /// Begins the evaluation of an expression.
    pub fn interpret_expr(&mut self, expr: &Expr) -> (action: Action)
        requires
            old(self).wf(),
        ensures
            final(self).wf(),
            final(self)@.scopes.scopes == old(self)@.scopes.scopes,
            follows(final(self)@, action, machine::evaluate(*expr, old(self)@)),
    {
        match expr {
            Expr::Literal(value) => {
                self.value = value.clone();
                Action::Continue
            },
            Expr::Grouping(expr) => {
                self.push(Task::Evaluate(share(expr)));
                Action::Continue
            },
            Expr::Unary { operator, right } => {
                self.push(Task::Unary(operator.clone()));
                self.push(Task::Evaluate(share(right)));
                Action::Continue
            },
            Expr::Binary { left, operator, right } => {
                self.push(Task::BinaryRight { operator: operator.clone(), right: share(right) });
                self.push(Task::Evaluate(share(left)));
                Action::Continue
            },
            Expr::Variable(name) => match self.environment.get(name.clone()) {
                Ok(value) => {
                    self.value = value;
                    Action::Continue
                },
                Err(e) => self.fail(e),
            },
            Expr::Assign { name, value } => {
                self.push(Task::Assign(name.clone()));
                self.push(Task::Evaluate(share(value)));
                Action::Continue
            },
            Expr::Logical { left, operator, right } => {
                self.push(Task::Logical { operator: operator.clone(), right: share(right) });
                self.push(Task::Evaluate(share(left)));
                Action::Continue
            },
            Expr::Call { callee, paren, arguments } => {
                self.push(Task::Callee { paren: paren.clone(), arguments: share(arguments) });
                self.push(Task::Evaluate(share(callee)));
                Action::Continue
            },
        }
    }

    fn type_mismatch(&mut self, message: &str, line: usize, column: usize) -> (action: Action)
        requires
            old(self).wf(),
        ensures
            final(self).wf(),
            final(self)@.scopes.scopes == old(self)@.scopes.scopes,
            follows(
                final(self)@,
                action,
                old(self)@.fail(ErrorKind::TypeMismatch, message@, line, column),
            ),
    {
        self.fail(
            RuntimeError {
                kind: ErrorKind::TypeMismatch,
                message: String::from_str(message),
                line,
                column,
            },
        )
    }

    /// Applies a unary operator to the value.
    fn apply_unary(&mut self, operator: &Token) -> (action: Action)
        requires
            old(self).wf(),
        ensures
            final(self).wf(),
            final(self)@.scopes.scopes == old(self)@.scopes.scopes,
            follows(final(self)@, action, machine::apply_unary(*operator, old(self)@)),
    {
        match operator.token_type {
            TokenType::Bang => {
                self.value = Object::Boolean(!Self::is_truthy(&self.value));
                Action::Continue
            },
            TokenType::Minus => {
                let negated = match &self.value {
                    Object::Number(bits) => Some(number::negate(*bits)),
                    _ => None,
                };
                match negated {
                    Some(bits) => {
                        self.value = Object::Number(bits);
                        Action::Continue
                    },
                    None => self.type_mismatch("Operand must be a number.", operator.line, operator.column),
                }
            },
            _ => self.type_mismatch("Operand must be a number.", operator.line, operator.column),
        }
    }

    /// Applies a binary operator to `left` and the value.
    fn apply(&mut self, operator: &Token, left: Object) -> (action: Action)
        requires
            old(self).wf(),
        ensures
            final(self).wf(),
            final(self)@.scopes.scopes == old(self)@.scopes.scopes,
            follows(final(self)@, action, machine::apply(*operator, left, old(self)@)),
    {
        let t = operator.token_type;
        match t {
            TokenType::EqualEqual => {
                self.value = Object::Boolean(Self::is_equal(&left, &self.value));
                return Action::Continue;
            },
            TokenType::BangEqual => {
                self.value = Object::Boolean(!Self::is_equal(&left, &self.value));
                return Action::Continue;
            },
            _ => {},
        }
        let numbers = match (&left, &self.value) {
            (Object::Number(a), Object::Number(b)) => Some((*a, *b)),
            _ => None,
        };
        match numbers {
            Some((a, b)) => {
                return match arithmetic(t) {
                    Some(operation) => {
                        let request = Request { operator: operation, left: a, right: b };
                        self.pending = Some(request);
                        Action::Compute(request)
                    },
                    None => match compare(t, a, b) {
                        Some(result) => {
                            self.value = Object::Boolean(result);
                            Action::Continue
                        },
                        None => self.type_mismatch("Operands must be numbers.", operator.line, operator.column),
                    },
                };
            },
            None => {},
        }
        let joined = match (&left, &self.value) {
            (Object::String(a), Object::String(b)) => {
                if t == TokenType::Plus {
                    let mut text = a.clone();
                    text.append(b.as_str());
                    Some(Some(text))
                } else {
                    Some(None)
                }
            },
            _ => None,
        };
        match joined {
            Some(Some(text)) => {
                self.value = Object::String(text);
                Action::Continue
            },
            Some(None) => self.type_mismatch("Operands must be numbers.", operator.line, operator.column),
            None => {
                if t == TokenType::Plus {
                    self.type_mismatch(
                        "Operands must be two numbers or two strings.",
                        operator.line,
                        operator.column,
                    )
                } else {
                    self.type_mismatch("Operands must be numbers.", operator.line, operator.column)
                }
            },
        }
    }

    /// Goes on with a call of `function`, `done` of whose arguments are
    /// evaluated to `values`.
    fn argue(
        &mut self,
        function: Rc<LoxFunction>,
        paren: Token,
        arguments: Rc<Vec<Expr>>,
        values: Rc<Values>,
        done: usize,
    ) -> (action: Action)
        requires
            old(self).wf(),
        ensures
            final(self).wf(),
            follows(
                final(self)@,
                action,
                machine::argue(
                    function,
                    paren,
                    arguments,
                    values,
                    done,
                    old(self)@,
                    machine::created(old(self)@.scopes, final(self)@.scopes),
                ),
            ),
    {
        if done < arguments.len() {
            self.push(
                Task::Argument { function, paren, arguments: share(&arguments), values, done },
            );
            self.push(Task::EvaluateArgument { arguments, index: done });
            Action::Continue
        } else if arguments.len() != function.arity() {
            let mut message = String::from_str("Expected ");
            message.append(to_decimal(function.arity()).as_str());
            message.append(" arguments but got ");
            message.append(to_decimal(arguments.len()).as_str());
            message.append(".");
            self.fail(
                RuntimeError {
                    kind: ErrorKind::ArityMismatch,
                    message,
                    line: paren.line,
                    column: paren.column,
                },
            )
        } else {
            let mut list: Vec<Object> = Vec::new();
            collect(&*values, &mut list);
            assert(list@ =~= machine::listed(*values));
            function.call(self, list)
        }
    }

    /// Begins a call, with the callee as the value.
    fn call(&mut self, paren: Token, arguments: Rc<Vec<Expr>>) -> (action: Action)
        requires
            old(self).wf(),
        ensures
            final(self).wf(),
            follows(
                final(self)@,
                action,
                machine::call(
                    paren,
                    arguments,
                    old(self)@,
                    machine::created(old(self)@.scopes, final(self)@.scopes),
                ),
            ),
    {
        let callee = match &self.value {
            Object::LoxFunction(function) => Some(share(function)),
            _ => None,
        };
        match callee {
            Some(function) => self.argue(function, paren, arguments, Rc::new(Values::Empty), 0),
            None => self.fail(
                RuntimeError {
                    kind: ErrorKind::NotCallable,
                    message: String::from_str("Can only call functions and classes."),
                    line: paren.line,
                    column: paren.column,
                },
            ),
        }
    }

    /// Takes the value as the next argument of a call, and goes on with the
    /// call.
    fn take_argument(
        &mut self,
        function: Rc<LoxFunction>,
        paren: Token,
        arguments: Rc<Vec<Expr>>,
        values: Rc<Values>,
        done: usize,
    ) -> (action: Action)
        requires
            old(self).wf(),
        ensures
            final(self).wf(),
            follows(
                final(self)@,
                action,
                machine::take_argument(
                    function,
                    paren,
                    arguments,
                    values,
                    done,
                    old(self)@,
                    machine::created(old(self)@.scopes, final(self)@.scopes),
                ),
            ),
    {
        let longer = Rc::new(Values::More { value: self.value.clone(), before: values });
        let next = if done < arguments.len() {
            done + 1
        } else {
            done
        };
        self.argue(function, paren, arguments, longer, next)
    }

    /// Does what `task` asks for.
    fn run(&mut self, task: Task) -> (action: Action)
        requires
            old(self).wf(),
            anchored(task, old(self)@.scopes),
        ensures
            final(self).wf(),
            follows(
                final(self)@,
                action,
                machine::run(
                    task,
                    old(self)@,
                    machine::created(old(self)@.scopes, final(self)@.scopes),
                ),
            ),
    {
        match task {
            Task::Statements { list, next } => {
                if next < list.len() {
                    self.push(Task::Statements { list: share(&list), next: next + 1 });
                    self.interpret_stmt(&list[next])
                } else {
                    Action::Continue
                }
            },
            Task::Statement(stmt) => self.interpret_stmt(&*stmt),
            Task::Repeat { condition, body } => {
                self.push(Task::Loop { condition: share(&condition), body });
                self.push(Task::Evaluate(condition));
                Action::Continue
            },
            Task::ExitScope => {
                self.exit_scope();
                Action::Continue
            },
            Task::EndCall { saved } => {
                self.go_to(saved);
                self.value = Object::NULL;
                Action::Continue
            },
            Task::Evaluate(expr) => self.interpret_expr(&*expr),
            Task::EvaluateArgument { arguments, index } => {
                if index < arguments.len() {
                    self.interpret_expr(&arguments[index])
                } else {
                    Action::Continue
                }
            },
            Task::Discard => Action::Continue,
            Task::Print => Action::Print(self.value.clone()),
            Task::Define(name) => {
                self.define(name.lexeme, self.value.clone());
                Action::Continue
            },
            Task::Branch { then_branch, else_branch } => {
                if Self::is_truthy(&self.value) {
                    self.push(Task::Statement(then_branch));
                } else {
                    match else_branch {
                        Some(branch) => {
                            self.push(Task::Statement(branch));
                        },
                        None => {},
                    }
                }
                Action::Continue
            },
            Task::Loop { condition, body } => {
                if Self::is_truthy(&self.value) {
                    self.push(Task::Repeat { condition, body: share(&body) });
                    self.push(Task::Statement(body));
                }
                Action::Continue
            },
            Task::Return(keyword) => self.unwind(&keyword),
            Task::Unary(operator) => self.apply_unary(&operator),
            Task::BinaryRight { operator, right } => {
                self.push(Task::BinaryApply { operator, left: self.value.clone() });
                self.push(Task::Evaluate(right));
                Action::Continue
            },
            Task::BinaryApply { operator, left } => self.apply(&operator, left),
            Task::Assign(name) => {
                let value = self.value.clone();
                match self.environment.assign(name, &value) {
                    Ok(_) => {
                        assert forall|i: int| 0 <= i < self@.tasks.len() implies anchored(
                            #[trigger] self@.tasks[i],
                            self@.scopes,
                        ) by {
                            assert(anchored(old(self)@.tasks[i], old(self)@.scopes));
                            machine::lemma_assign_keeps_scopes(
                                old(self)@.scopes,
                                name.lexeme@,
                                value,
                            );
                        }
                        Action::Continue
                    },
                    Err(e) => self.fail(e),
                }
            },
            Task::Logical { operator, right } => {
                let decided = match operator.token_type {
                    TokenType::Or => Self::is_truthy(&self.value),
                    _ => !Self::is_truthy(&self.value),
                };
                if !decided {
                    self.push(Task::Evaluate(right));
                }
                Action::Continue
            },
            Task::Callee { paren, arguments } => self.call(paren, arguments),
            Task::Argument { function, paren, arguments, values, done } => self.take_argument(
                function,
                paren,
                arguments,
                values,
                done,
            ),
        }
    }

    /// Makes one step. `answer` is the answer to the request of the step
    /// before, if that step made one; a request that is not answered is made
    /// again.
    pub fn step(&mut self, answer: Option<u64>) -> (action: Action)
        requires
            old(self).wf(),
        ensures
            final(self).wf(),
            follows(
                final(self)@,
                action,
                machine::next(
                    old(self)@,
                    answer,
                    machine::created(old(self)@.scopes, final(self)@.scopes),
                ),
            ),
    {
        match self.pending {
            Some(request) => {
                return match answer {
                    Some(bits) => {
                        self.value = Object::Number(bits);
                        self.pending = None;
                        Action::Continue
                    },
                    None => Action::Compute(request),
                };
            },
            None => {},
        }
        if self.tasks.len() == 0 {
            return Action::Finished;
        }
        let task = self.pop();
        self.run(task)
    }

    /// Tells whether a value counts as true in a condition.
    pub fn is_truthy(obj: &Object) -> (r: bool)
        ensures
            r == truthy(*obj),
    {
        match obj {
            Object::NULL => false,
            Object::Boolean(b) => *b,
            _ => true,
        }
    }

    /// Tells whether two values are equal.
    pub fn is_equal(a: &Object, b: &Object) -> (r: bool)
        ensures
            r == values_equal(*a, *b),
    {
        match a {
            Object::Number(x) => match b {
                Object::Number(y) => number::eq(*x, *y),
                _ => false,
            },
            Object::String(x) => match b {
                Object::String(y) => same_text(x, y),
                _ => false,
            },
            Object::Boolean(x) => match b {
                Object::Boolean(y) => *x == *y,
                _ => false,
            },
            Object::NULL => match b {
                Object::NULL => true,
                _ => false,
            },
            Object::LoxFunction(x) => match b {
                Object::LoxFunction(y) => same_text(&x.name.lexeme, &y.name.lexeme) && x.name.line
                    == y.name.line && x.name.column == y.name.column && same_node(
                    x.closure_env,
                    y.closure_env,
                ),
                _ => false,
            },
        }
    }

    /// The text that `print` shows for a value. A number has none here: to
    /// write a floating-point value in decimal is left to the caller.
    pub fn stringify(obj: &Object) -> (r: Option<String>)
        ensures
            match r {
                Some(text) => rendering(*obj) == Some(text@),
                None => rendering(*obj) is None,
            },
    {
        match obj {
            Object::Number(_) => None,
            Object::String(value) => Some(value.clone()),
            Object::Boolean(value) => Some(
                if *value {
                    String::from_str("true")
                } else {
                    String::from_str("false")
                },
            ),
            Object::NULL => Some(String::from_str("nil")),
            Object::LoxFunction(f) => {
                let mut text = String::from_str("<fn ");
                text.append(f.name.lexeme.as_str());
                text.append(">");
                Some(text)
            },
        }
    }
}

} // verus!
