//! The machine does not run on by itself.
//!
//! Every task has a weight, which counts the steps it can take before a loop
//! goes round or a function is called. A step takes the weight of its task
//! off the stack and puts less back, but where it begins an iteration of a
//! loop or the body of a function. So a run that does not end goes round a
//! loop or calls a function again and again: it is the program that does not
//! end.

use crate::expr::{Expr, Stmt};
use crate::interpreter::truthy;
use crate::machine::{
    abandoned, apply, apply_unary, argue, call, enter_block, evaluate, execute, innermost_call,
    next, run, take_argument, unwind, Machine, Next, Task,
};
use crate::token::Object;
use indextree::NodeId;
use vstd::prelude::*;

verus! {

/// The number of steps that evaluating an expression can take before a
/// function is called.
pub open spec fn expr_size(e: Expr) -> nat
    decreases e, 0nat,
{
    match e {
        Expr::Literal(_) => 1,
        Expr::Variable(_) => 1,
        Expr::Grouping(inner) => 1 + expr_size(*inner),
        Expr::Unary { right, .. } => 2 + expr_size(*right),
        Expr::Binary { left, right, .. } => 4 + expr_size(*left) + expr_size(*right),
        Expr::Assign { value, .. } => 2 + expr_size(*value),
        Expr::Logical { left, right, .. } => 2 + expr_size(*left) + expr_size(*right),
        Expr::Call { callee, arguments, .. } => 3 + expr_size(*callee) + arguments_size(
            arguments@,
            0,
        ),
    }
}

/// The same for the arguments of a call from `from` on.
pub open spec fn arguments_size(arguments: Seq<Expr>, from: nat) -> nat
    decreases arguments, arguments.len() - from,
{
    if from >= arguments.len() {
        0
    } else {
        2 + expr_size(arguments[from as int]) + arguments_size(arguments, from + 1)
    }
}

/// The number of steps that executing a statement can take before a loop
/// goes round or a function is called.
pub open spec fn stmt_size(s: Stmt) -> nat
    decreases s, 0nat,
{
    match s {
        Stmt::Expression(e) => 2 + expr_size(*e),
        Stmt::Print(e) => 2 + expr_size(*e),
        Stmt::Var { initializer, .. } => match initializer {
            Some(e) => 2 + expr_size(*e),
            None => 1,
        },
        Stmt::Block(stmts) => 3 + statements_size(stmts@, 0),
        Stmt::If { condition, then_branch, else_branch } => 2 + expr_size(*condition) + stmt_size(
            *then_branch,
        ) + match else_branch {
            Some(branch) => stmt_size(*branch),
            None => 0,
        },
        Stmt::While { condition, .. } => 2 + expr_size(*condition),
        Stmt::Function { .. } => 1,
        Stmt::Return { value, .. } => match value {
            Some(e) => 2 + expr_size(*e),
            None => 1,
        },
    }
}

/// The same for the statements of a list from `from` on.
pub open spec fn statements_size(stmts: Seq<Stmt>, from: nat) -> nat
    decreases stmts, stmts.len() - from,
{
    if from >= stmts.len() {
        0
    } else {
        1 + stmt_size(stmts[from as int]) + statements_size(stmts, from + 1)
    }
}

/// The statement behind a shared handle.
pub open spec fn held_statement(stmt: std::rc::Rc<Stmt>) -> Stmt {
    *stmt
}

/// The expression behind a shared handle.
pub open spec fn held_expression(expr: std::rc::Rc<Expr>) -> Expr {
    *expr
}

/// The weight of a task.
pub open spec fn weight(task: Task) -> nat {
    match task {
        Task::Statements { list, next } => 1 + statements_size(list@, next as nat),
        Task::Statement(stmt) => stmt_size(*stmt),
        Task::Repeat { condition, .. } => 2 + expr_size(*condition),
        Task::Evaluate(expr) => expr_size(*expr),
        Task::EvaluateArgument { arguments, index } => if index < arguments@.len() {
            expr_size(arguments@[index as int])
        } else {
            1
        },
        Task::Branch { then_branch, else_branch } => 1 + stmt_size(*then_branch) + match else_branch {
            Some(branch) => stmt_size(*branch),
            None => 0,
        },
        Task::BinaryRight { right, .. } => 3 + expr_size(*right),
        Task::BinaryApply { .. } => 2,
        Task::Logical { right, .. } => 1 + expr_size(*right),
        Task::Callee { arguments, .. } => 2 + arguments_size(arguments@, 0),
        Task::Argument { arguments, done, .. } => 1 + arguments_size(arguments@, (done + 1) as nat),
        _ => 1,
    }
}

/// The weight of a stack.
pub open spec fn stack_weight(tasks: Seq<Task>) -> nat
    decreases tasks.len(),
{
    if tasks.len() == 0 {
        0
    } else {
        stack_weight(tasks.drop_last()) + weight(tasks.last())
    }
}

/// The weight of a state: that of its stack, and one more while a request
/// is not answered.
pub open spec fn measure(tasks: Seq<Task>, pending: bool) -> nat {
    stack_weight(tasks) + if pending {
        1nat
    } else {
        0nat
    }
}

/// The next step begins an iteration of a loop.
pub open spec fn iterates(m: Machine) -> bool {
    m.tasks.len() > 0 && m.tasks.last() is Loop && truthy(m.value)
}

/// The next step takes the last argument of a call, or the callee of a call
/// without arguments: it begins the body of a function, unless the call
/// fails.
pub open spec fn activates(m: Machine) -> bool {
    m.tasks.len() > 0 && match m.tasks.last() {
        Task::Callee { arguments, .. } => arguments@.len() == 0,
        Task::Argument { arguments, done, .. } => done + 1 >= arguments@.len(),
        _ => false,
    }
}

/// A stack with one task more weighs that task more.
pub proof fn lemma_push(tasks: Seq<Task>, task: Task)
    ensures
        stack_weight(tasks.push(task)) == stack_weight(tasks) + weight(task),
{
    assert(tasks.push(task).drop_last() =~= tasks);
}

/// The lower part of a stack weighs no more than the stack.
pub proof fn lemma_prefix(tasks: Seq<Task>, i: int)
    requires
        0 <= i <= tasks.len(),
    ensures
        stack_weight(tasks.subrange(0, i)) <= stack_weight(tasks),
    decreases tasks.len(),
{
    if i == tasks.len() {
        assert(tasks.subrange(0, i) =~= tasks);
    } else {
        assert(tasks.drop_last().subrange(0, i) =~= tasks.subrange(0, i));
        lemma_prefix(tasks.drop_last(), i);
    }
}

/// The innermost call lies within the stack.
pub proof fn lemma_innermost_within(tasks: Seq<Task>)
    ensures
        innermost_call(tasks) matches Some(i) ==> 0 <= i < tasks.len(),
    decreases tasks.len(),
{
    if tasks.len() > 0 && !(tasks.last() is EndCall) {
        lemma_innermost_within(tasks.drop_last());
    }
}

/// A `return` leaves a stack that weighs no more.
pub proof fn lemma_unwind(m: Machine, keyword: crate::token::Token)
    ensures
        stack_weight(unwind(m, keyword).tasks) <= stack_weight(m.tasks),
        unwind(m, keyword).pending is None || unwind(m, keyword).pending == m.pending,
{
    lemma_innermost_within(m.tasks);
    match innermost_call(m.tasks) {
        Some(i) => {
            lemma_prefix(m.tasks, i);
        },
        None => {},
    }
}

/// The beginning of a statement puts less on the stack than the statement
/// weighs.
pub proof fn lemma_execute(stmt: Stmt, m: Machine, fresh: NodeId)
    requires
        m.pending is None,
    ensures
        stack_weight(execute(stmt, m, fresh).tasks) < stack_weight(m.tasks) + stmt_size(stmt),
        execute(stmt, m, fresh).pending is None,
{
    match stmt {
        Stmt::Expression(e) => {
            lemma_push(m.tasks, Task::Discard);
            lemma_push(m.tasks.push(Task::Discard), Task::Evaluate(e));
        },
        Stmt::Print(e) => {
            lemma_push(m.tasks, Task::Print);
            lemma_push(m.tasks.push(Task::Print), Task::Evaluate(e));
        },
        Stmt::Var { name, initializer } => match initializer {
            Some(e) => {
                lemma_push(m.tasks, Task::Define(name));
                lemma_push(m.tasks.push(Task::Define(name)), Task::Evaluate(e));
            },
            None => {},
        },
        Stmt::Block(stmts) => {
            lemma_push(m.tasks, Task::ExitScope);
            lemma_push(m.tasks.push(Task::ExitScope), Task::Statements { list: stmts, next: 0 });
        },
        Stmt::If { condition, then_branch, else_branch } => {
            lemma_push(m.tasks, Task::Branch { then_branch, else_branch });
            lemma_push(
                m.tasks.push(Task::Branch { then_branch, else_branch }),
                Task::Evaluate(condition),
            );
        },
        Stmt::While { condition, body } => {
            lemma_push(m.tasks, Task::Loop { condition, body });
            lemma_push(m.tasks.push(Task::Loop { condition, body }), Task::Evaluate(condition));
        },
        Stmt::Function { .. } => {},
        Stmt::Return { keyword, value } => match value {
            Some(e) => {
                lemma_push(m.tasks, Task::Return(keyword));
                lemma_push(m.tasks.push(Task::Return(keyword)), Task::Evaluate(e));
            },
            None => {
                lemma_unwind(Machine { value: Object::NULL, ..m }, keyword);
            },
        },
    }
}

/// The beginning of an expression puts less on the stack than the
/// expression weighs.
pub proof fn lemma_evaluate(expr: Expr, m: Machine)
    requires
        m.pending is None,
    ensures
        stack_weight(evaluate(expr, m).tasks) < stack_weight(m.tasks) + expr_size(expr),
        evaluate(expr, m).pending is None,
{
    match expr {
        Expr::Literal(_) => {},
        Expr::Variable(_) => {},
        Expr::Grouping(inner) => {
            lemma_push(m.tasks, Task::Evaluate(inner));
        },
        Expr::Unary { operator, right } => {
            lemma_push(m.tasks, Task::Unary(operator));
            lemma_push(m.tasks.push(Task::Unary(operator)), Task::Evaluate(right));
        },
        Expr::Binary { left, operator, right } => {
            lemma_push(m.tasks, Task::BinaryRight { operator, right });
            lemma_push(m.tasks.push(Task::BinaryRight { operator, right }), Task::Evaluate(left));
        },
        Expr::Assign { name, value } => {
            lemma_push(m.tasks, Task::Assign(name));
            lemma_push(m.tasks.push(Task::Assign(name)), Task::Evaluate(value));
        },
        Expr::Logical { left, operator, right } => {
            lemma_push(m.tasks, Task::Logical { operator, right });
            lemma_push(m.tasks.push(Task::Logical { operator, right }), Task::Evaluate(left));
        },
        Expr::Call { callee, paren, arguments } => {
            lemma_push(m.tasks, Task::Callee { paren, arguments });
            lemma_push(m.tasks.push(Task::Callee { paren, arguments }), Task::Evaluate(callee));
        },
    }
}

/// Every step brings the machine nearer to its end, but a step that begins
/// an iteration of a loop or the body of a function, one that waits for an
/// answer, and one that finds nothing to do.
pub proof fn law_progress(m: Machine, answer: Option<u64>, fresh: NodeId)
    requires
        m.pending is Some ==> answer is Some,
        m.pending is None ==> m.tasks.len() > 0,
        m.pending is None ==> !iterates(m) && !activates(m),
    ensures
        measure(next(m, answer, fresh).tasks, next(m, answer, fresh).pending is Some) < measure(
            m.tasks,
            m.pending is Some,
        ),
{
    if m.pending is None {
        let task = m.tasks.last();
        let rest = Machine { tasks: m.tasks.drop_last(), ..m };
        let after = run(task, rest, fresh);
        assert(next(m, answer, fresh) == after);
        assert(stack_weight(m.tasks) == stack_weight(rest.tasks) + weight(task));
        match task {
            Task::Statements { list, next } => {
                if next < list@.len() {
                    let again = Task::Statements { list, next: (next + 1) as usize };
                    assert(list@.len() <= usize::MAX) by {
                        vstd::std_specs::vec::axiom_spec_len(&*list);
                    }
                    assert(statements_size(list@, next as nat) == 1 + stmt_size(list@[next as int])
                        + statements_size(list@, (next + 1) as nat));
                    lemma_push(rest.tasks, again);
                    lemma_execute(
                        list@[next as int],
                        Machine { tasks: rest.tasks.push(again), ..rest },
                        fresh,
                    );
                }
            },
            Task::Statement(stmt) => {
                lemma_execute(held_statement(stmt), rest, fresh);
            },
            Task::Repeat { condition, body } => {
                lemma_push(rest.tasks, Task::Loop { condition, body });
                lemma_push(rest.tasks.push(Task::Loop { condition, body }), Task::Evaluate(condition));
            },
            Task::Evaluate(expr) => {
                lemma_evaluate(held_expression(expr), rest);
            },
            Task::EvaluateArgument { arguments, index } => {
                if index < arguments@.len() {
                    lemma_evaluate(arguments@[index as int], rest);
                }
            },
            Task::Branch { then_branch, else_branch } => {
                lemma_push(rest.tasks, Task::Statement(then_branch));
                match else_branch {
                    Some(branch) => {
                        lemma_push(rest.tasks, Task::Statement(branch));
                    },
                    None => {},
                }
            },
            Task::Return(keyword) => {
                lemma_unwind(rest, keyword);
            },
            Task::BinaryRight { operator, right } => {
                let waiting = Task::BinaryApply { operator, left: rest.value };
                lemma_push(rest.tasks, waiting);
                lemma_push(rest.tasks.push(waiting), Task::Evaluate(right));
            },
            Task::Logical { operator, right } => {
                lemma_push(rest.tasks, Task::Evaluate(right));
            },
            Task::Callee { paren, arguments } => {
                match rest.value {
                    Object::LoxFunction(function) => {
                        let first = Task::Argument {
                            function,
                            paren,
                            arguments,
                            values: std::rc::Rc::new(crate::machine::Values::Empty),
                            done: 0,
                        };
                        assert(arguments_size(arguments@, 0) == 2 + expr_size(arguments@[0])
                            + arguments_size(arguments@, 1));
                        lemma_push(rest.tasks, first);
                        lemma_push(
                            rest.tasks.push(first),
                            Task::EvaluateArgument { arguments, index: 0 },
                        );
                    },
                    _ => {},
                }
            },
            Task::Argument { function, paren, arguments, values, done } => {
                let longer = std::rc::Rc::new(
                    crate::machine::Values::More { value: rest.value, before: values },
                );
                let following = Task::Argument {
                    function,
                    paren,
                    arguments,
                    values: longer,
                    done: (done + 1) as usize,
                };
                assert(arguments@.len() <= usize::MAX) by {
                    vstd::std_specs::vec::axiom_spec_len(&*arguments);
                }
                assert(arguments_size(arguments@, (done + 1) as nat) == 2 + expr_size(
                    arguments@[done + 1],
                ) + arguments_size(arguments@, (done + 2) as nat));
                lemma_push(rest.tasks, following);
                lemma_push(
                    rest.tasks.push(following),
                    Task::EvaluateArgument { arguments, index: (done + 1) as usize },
                );
            },
            _ => {},
        }
    }
}

} // verus!
