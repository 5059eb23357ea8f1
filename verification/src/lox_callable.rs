//! User-defined functions.

use crate::expr::Stmt;
use crate::interpreter::{follows, Action, ErrorKind, Interpreter, RuntimeError};
use crate::machine;
use crate::machine::{lemma_created, Machine, Next, Task};
use crate::token::{share, Object, Token};
use indextree::NodeId;
use std::rc::Rc;
use vstd::prelude::*;
use vstd::string::StringExecFns;

verus! {

/// What can be called.
pub trait LoxCallable {
    /// The number of arguments that a call must pass.
    spec fn parameters(&self) -> nat;

    /// What a call with the values `arguments` leads to, with `fresh` as the
    /// scope that the call creates.
    spec fn activated(&self, arguments: Seq<Object>, m: Machine, fresh: NodeId) -> Next;

    fn arity(&self) -> (r: usize)
        ensures
            r == self.parameters(),
    ;

    /// Begins a call with the values `arguments`.
    fn call(&self, interpreter: &mut Interpreter, arguments: Vec<Object>) -> (action: Action)
        requires
            old(interpreter).wf(),
        ensures
            final(interpreter).wf(),
            follows(
                final(interpreter)@,
                action,
                self.activated(
                    arguments@,
                    old(interpreter)@,
                    machine::created(old(interpreter)@.scopes, final(interpreter)@.scopes),
                ),
            ),
    ;
}

/// A function value: its declaration and the scope it was declared in.
#[derive(Debug)]
pub struct LoxFunction {
    pub name: Token,
    pub params: Rc<Vec<Token>>,
    pub body: Rc<Vec<Stmt>>,
    /// The scope that was current when the function was declared; a call
    /// runs the body in a fresh child of it.
    pub closure_env: NodeId,
}

impl LoxFunction {
    pub fn new(name: Token, p: Rc<Vec<Token>>, b: Rc<Vec<Stmt>>, closure_env: NodeId) -> (r: Self)
        ensures
            r == (LoxFunction { name, params: p, body: b, closure_env }),
    {
        Self { name, params: p, body: b, closure_env }
    }
}

impl LoxCallable for LoxFunction {
    open spec fn parameters(&self) -> nat {
        self.params@.len()
    }

    open spec fn activated(&self, arguments: Seq<Object>, m: Machine, fresh: NodeId) -> Next {
        machine::activation(*self, arguments, m, fresh)
    }

    fn arity(&self) -> (r: usize) {
        self.params.len()
    }

    fn call(&self, interpreter: &mut Interpreter, arguments: Vec<Object>) -> (action: Action) {
        if !interpreter.environment().contains(self.closure_env) {
            return interpreter.fail(
                RuntimeError {
                    kind: ErrorKind::NotCallable,
                    message: String::from_str("Can only call functions of this interpreter."),
                    line: self.name.line,
                    column: self.name.column,
                },
            );
        }
        if arguments.len() < self.params.len() {
            let param = &self.params[arguments.len()];
            let mut message = String::from_str("Missing argument for '");
            message.append(param.lexeme.as_str());
            message.append("'");
            return interpreter.fail(
                RuntimeError {
                    kind: ErrorKind::ArityMismatch,
                    message,
                    line: param.line,
                    column: param.column,
                },
            );
        }
        let saved = interpreter.environment().get_current();
        interpreter.go_to(self.closure_env);
        interpreter.enter_scope();
        let ghost entered = interpreter@.scopes;
        let ghost fresh = entered.current;
        let mut i: usize = 0;
        while i < self.params.len()
            invariant
                interpreter.wf(),
                0 <= i <= self.params@.len() <= arguments@.len(),
                entered == old(interpreter)@.scopes.at(self.closure_env).enter_child(fresh),
                interpreter@ == (Machine {
                    scopes: machine::bound(entered, self.params@, arguments@, i as nat),
                    ..old(interpreter)@
                }),
                interpreter@.scopes.current == fresh,
                interpreter@.scopes.scopes.dom() == entered.scopes.dom(),
            decreases self.params@.len() - i,
        {
            interpreter.define(self.params[i].lexeme.clone(), arguments[i].clone());
            i += 1;
            assert(interpreter@.scopes.scopes.dom() =~= entered.scopes.dom());
        }
        proof {
            lemma_created(old(interpreter)@.scopes, interpreter@.scopes, fresh);
        }
        interpreter.push(Task::EndCall { saved });
        interpreter.push(Task::Statements { list: share(&self.body), next: 0 });
        Action::Continue
    }
}

} // verus!
