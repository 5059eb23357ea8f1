//! The tree of scopes.

use crate::interpreter::{ErrorKind, RuntimeError};
use crate::token::{Object, Token};
use indextree::{Arena, NodeId};
use vstd::hash_map::StringHashMap;
use vstd::prelude::*;
use vstd::string::StringExecFns;

verus! {

/// `indextree::NodeId`, the handle of one node of an arena.
#[verifier::external_type_specification]
#[verifier::external_body]
pub struct ExNodeId(NodeId);

/// `indextree::Arena`, the storage of a forest of nodes.
#[verifier::external_type_specification]
#[verifier::external_body]
#[verifier::reject_recursive_types(T)]
pub struct ExArena<T>(Arena<T>);

/// The live nodes of an `indextree::Arena`, by their handles: for each its
/// datum and its parent, if it has one.
pub uninterp spec fn arena_nodes(arena: Arena<usize>) -> Map<NodeId, (usize, Option<NodeId>)>;

/// `Arena::new`: an arena without nodes.
#[verifier::external_body]
fn arena_new() -> (r: Arena<usize>)
    ensures
        forall|id: NodeId| !arena_nodes(r).contains_key(id),
{
    Arena::new()
}

/// `Arena::new_node`: adds a node that holds `data` and has no parent. Its
/// handle differs from that of every live node, whether it takes a new slot
/// or a freed one in a new generation, and no other node changes. (The call
/// gives up only in an arena of `usize::MAX` nodes, which no memory holds.)
#[verifier::external_body]
fn arena_new_node(arena: &mut Arena<usize>, data: usize) -> (id: NodeId)
    ensures
        !arena_nodes(*old(arena)).contains_key(id),
        arena_nodes(*final(arena)) == arena_nodes(*old(arena)).insert(id, (data, None)),
{
    arena.new_node(data)
}

/// `NodeId::append`: makes `child` the last child of `parent`. The call
/// panics for a removed node, for `child == parent` and for a `child` that is
/// an ancestor of `parent`; it is made only for two live, different nodes of
/// which `child` has neither a parent nor a child. `child` then has `parent`
/// as its parent; every node keeps its datum and every other node its
/// parent.
#[verifier::external_body]
fn arena_append(parent: NodeId, child: NodeId, arena: &mut Arena<usize>)
    requires
        arena_nodes(*old(arena)).contains_key(parent),
        arena_nodes(*old(arena)).contains_key(child),
        parent != child,
        arena_nodes(*old(arena))[child].1 is None,
        forall|n: NodeId| #[trigger]
            arena_nodes(*old(arena)).contains_key(n) ==> arena_nodes(*old(arena))[n].1 != Some(
                child,
            ),
    ensures
        arena_nodes(*final(arena)) == arena_nodes(*old(arena)).insert(
            child,
            (arena_nodes(*old(arena))[child].0, Some(parent)),
        ),
{
    parent.append(child, arena)
}

/// `NodeId::ancestors`, collected: `id` itself, then its parent, then the
/// parent of that, up to and including a node without a parent. (The arena
/// lets no node become its own ancestor, so the walk ends.)
#[verifier::external_body]
fn arena_ancestors(id: NodeId, arena: &Arena<usize>) -> (chain: Vec<NodeId>)
    requires
        arena_nodes(*arena).contains_key(id),
    ensures
        chain@.len() >= 1,
        chain@[0] == id,
        forall|i: int|
            0 <= i < chain@.len() - 1 ==> arena_nodes(*arena)[#[trigger] chain@[i]].1 == Some(
                chain@[i + 1],
            ),
        arena_nodes(*arena)[chain@[chain@.len() - 1]].1 is None,
{
    id.ancestors(arena).collect()
}

/// `Arena::get`, which finds a node exactly for the handle of a live node of
/// the arena.
#[verifier::external_body]
fn arena_contains(arena: &Arena<usize>, id: NodeId) -> (r: bool)
    ensures
        r == arena_nodes(*arena).contains_key(id),
{
    arena.get(id).is_some()
}

/// `Arena::index` and then `Node::get`: the datum of a live node. The first
/// panics for a handle beyond the arena, the second for a removed node.
#[verifier::external_body]
fn arena_data(arena: &Arena<usize>, id: NodeId) -> (data: usize)
    requires
        arena_nodes(*arena).contains_key(id),
    ensures
        data == arena_nodes(*arena)[id].0,
{
    *arena[id].get()
}

/// `NodeId::eq`, derived: two handles are equal when they name the same
/// slot in the same generation, that is, when they are the same value.
#[verifier::external_body]
pub(crate) fn same_node(a: NodeId, b: NodeId) -> (r: bool)
    ensures
        r == (a == b),
{
    a == b
}

/// One scope: the names bound in it and their values.
pub struct Environment {
    values: StringHashMap<Object>,
}

impl View for Environment {
    type V = Map<Seq<char>, Object>;

    closed spec fn view(&self) -> Map<Seq<char>, Object> {
        self.values@
    }
}

impl Environment {
    fn new() -> (r: Self)
        ensures
            r@ == Map::<Seq<char>, Object>::empty(),
    {
        Environment { values: StringHashMap::new() }
    }

    fn bind(&mut self, name: String, value: Object)
        ensures
            final(self)@ == old(self)@.insert(name@, value),
    {
        self.values.insert(name, value);
    }

    fn find(&self, name: &str) -> (r: Option<Object>)
        ensures
            r == (if self@.contains_key(name@) {
                Some(self@[name@])
            } else {
                None::<Object>
            }),
    {
        match self.values.get(name) {
            Some(v) => Some(v.clone()),
            None => None,
        }
    }
}

/// What a scope tree holds of one scope.
pub struct Scope {
    pub bindings: Map<Seq<char>, Object>,
    pub parent: Option<NodeId>,
    /// The number of scopes between this one and its root.
    pub depth: nat,
}

/// The mathematical model of a scope tree: its scopes by their handles, and
/// the handle of the current scope.
pub struct ScopeTree {
    pub scopes: Map<NodeId, Scope>,
    pub current: NodeId,
}

impl ScopeTree {
    /// The current scope exists, every parent exists, and a scope lies one
    /// level below its parent.
    pub open spec fn wf(self) -> bool {
        &&& self.scopes.contains_key(self.current)
        &&& forall|id: NodeId| #[trigger]
            self.scopes.contains_key(id) ==> match self.scopes[id].parent {
                Some(p) => self.scopes.contains_key(p) && self.scopes[id].depth
                    == self.scopes[p].depth + 1,
                None => true,
            }
    }

    /// The nearest scope, going from `from` towards the root, that binds
    /// `name`.
    pub open spec fn resolve(self, from: NodeId, name: Seq<char>) -> Option<NodeId>
        decreases self.scopes[from].depth,
    {
        if !self.wf() || !self.scopes.contains_key(from) {
            None
        } else if self.scopes[from].bindings.contains_key(name) {
            Some(from)
        } else {
            match self.scopes[from].parent {
                Some(p) => self.resolve(p, name),
                None => None,
            }
        }
    }

    /// The value that `name` has when looked up from the current scope.
    pub open spec fn get(self, name: Seq<char>) -> Option<Object> {
        match self.resolve(self.current, name) {
            Some(scope) => Some(self.scopes[scope].bindings[name]),
            None => None,
        }
    }

    /// The tree with `name` bound to `value` in `scope`.
    pub open spec fn bind_in(self, scope: NodeId, name: Seq<char>, value: Object) -> ScopeTree {
        ScopeTree {
            scopes: self.scopes.insert(
                scope,
                Scope {
                    bindings: self.scopes[scope].bindings.insert(name, value),
                    parent: self.scopes[scope].parent,
                    depth: self.scopes[scope].depth,
                },
            ),
            current: self.current,
        }
    }

    /// The tree after a definition in the current scope.
    pub open spec fn define(self, name: Seq<char>, value: Object) -> ScopeTree {
        self.bind_in(self.current, name, value)
    }

    /// The tree after an assignment: the nearest binding of `name` is
    /// overwritten; without one the tree stays as it is.
    pub open spec fn assign(self, name: Seq<char>, value: Object) -> ScopeTree {
        match self.resolve(self.current, name) {
            Some(scope) => self.bind_in(scope, name, value),
            None => self,
        }
    }

    /// The tree after entering a new, empty scope `child` below the current
    /// one.
    pub open spec fn enter_child(self, child: NodeId) -> ScopeTree {
        ScopeTree {
            scopes: self.scopes.insert(
                child,
                Scope {
                    bindings: Map::empty(),
                    parent: Some(self.current),
                    depth: self.scopes[self.current].depth + 1,
                },
            ),
            current: child,
        }
    }

    /// The tree with `scope` as the current scope.
    pub open spec fn at(self, scope: NodeId) -> ScopeTree {
        ScopeTree { scopes: self.scopes, current: scope }
    }

    /// The tree after leaving the current scope for its parent; at a root
    /// the tree stays as it is.
    pub open spec fn exit(self) -> ScopeTree {
        match self.scopes[self.current].parent {
            Some(p) => self.at(p),
            None => self,
        }
    }

    /// `chain` starts at some scope and lists its ancestors in order, up to a
    /// root.
    pub open spec fn is_chain(self, chain: Seq<NodeId>) -> bool {
        &&& chain.len() >= 1
        &&& forall|i: int| 0 <= i < chain.len() ==> self.scopes.contains_key(#[trigger] chain[i])
        &&& forall|i: int|
            0 <= i < chain.len() - 1 ==> self.scopes[#[trigger] chain[i]].parent == Some(
                chain[i + 1],
            )
        &&& self.scopes[chain[chain.len() - 1]].parent is None
    }

    /// Looking a name up from `chain[k]` finds the first scope of the chain,
    /// from `k` on, that binds it.
    pub proof fn lemma_resolve_along(self, chain: Seq<NodeId>, name: Seq<char>, k: int, i: int)
        requires
            self.wf(),
            self.is_chain(chain),
            0 <= k <= i <= chain.len(),
            k < chain.len(),
            forall|j: int| k <= j < i ==> !self.scopes[#[trigger] chain[j]].bindings.contains_key(name),
        ensures
            i < chain.len() && self.scopes[chain[i]].bindings.contains_key(name)
                ==> self.resolve(chain[k], name) == Some(chain[i]),
            i == chain.len() ==> self.resolve(chain[k], name) is None,
        decreases i - k,
    {
        if k < i {
            if k + 1 <= chain.len() - 1 {
                self.lemma_resolve_along(chain, name, k + 1, i);
            } else {
                assert(chain[k] == chain[chain.len() - 1]);
            }
        } else if i < chain.len() {
            assert(self.scopes.contains_key(chain[i]));
        }
    }
}

/// The error for a name that no scope on the way to the root binds.
pub open spec fn is_undefined_name(e: RuntimeError, name: Token) -> bool {
    &&& e.kind == ErrorKind::UndefinedName
    &&& e.message@ == "Undefined variable '"@ + name.lexeme@ + "'"@
    &&& e.line == name.line
    &&& e.column == name.column
}

fn undefined_name(name: &Token) -> (e: RuntimeError)
    ensures
        is_undefined_name(e, *name),
{
    let mut message = String::from_str("Undefined variable '");
    message.append(name.lexeme.as_str());
    message.append("'");
    RuntimeError {
        kind: ErrorKind::UndefinedName,
        message,
        line: name.line,
        column: name.column,
    }
}

/// All scopes created during a run, as a tree, with a cursor on the current
/// one. Scopes are never removed, so a handle stays valid once given out.
pub struct EnvironmentTree {
    arena: Arena<usize>,
    frames: Vec<Environment>,
    current: NodeId,
    depth: Ghost<Map<NodeId, nat>>,
}

impl View for EnvironmentTree {
    type V = ScopeTree;

    closed spec fn view(&self) -> ScopeTree {
        ScopeTree {
            scopes: Map::new(
                |id: NodeId| arena_nodes(self.arena).contains_key(id),
                |id: NodeId|
                    Scope {
                        bindings: self.frames@[arena_nodes(self.arena)[id].0 as int]@,
                        parent: arena_nodes(self.arena)[id].1,
                        depth: self.depth@[id],
                    },
            ),
            current: self.current,
        }
    }
}

impl EnvironmentTree {
    /// Each node of the arena names a frame of its own.
    pub closed spec fn inv(&self) -> bool {
        &&& forall|id: NodeId| #[trigger]
            arena_nodes(self.arena).contains_key(id) ==> arena_nodes(self.arena)[id].0
                < self.frames@.len()
        &&& forall|a: NodeId, b: NodeId|
            #![trigger arena_nodes(self.arena)[a], arena_nodes(self.arena)[b]]
            arena_nodes(self.arena).contains_key(a) && arena_nodes(self.arena).contains_key(b)
                && arena_nodes(self.arena)[a].0 == arena_nodes(self.arena)[b].0 ==> a == b
    }

    /// The tree is sound: its model is, and its storage agrees with it.
    pub open spec fn wf(&self) -> bool {
        self@.wf() && self.inv()
    }

    /// A tree with one scope, the global one, which is current.
    pub fn new() -> (r: Self)
        ensures
            r.wf(),
            r@.scopes.dom() == set![r@.current],
            r@.scopes[r@.current].bindings == Map::<Seq<char>, Object>::empty(),
            r@.scopes[r@.current].parent is None,
    {
        let mut arena = arena_new();
        let mut frames: Vec<Environment> = Vec::new();
        frames.push(Environment::new());
        let global = arena_new_node(&mut arena, 0);
        let r = Self { arena, frames, current: global, depth: Ghost(Map::empty().insert(global, 0nat)) };
        proof {
            assert(r@.scopes.dom() =~= set![r@.current]);
        }
        r
    }

    /// The current scope and its ancestors, up to the root.
    fn scope_chain(&self) -> (chain: Vec<NodeId>)
        requires
            self.wf(),
        ensures
            self@.is_chain(chain@),
            chain@[0] == self@.current,
    {
        let chain = arena_ancestors(self.current, &self.arena);
        proof {
            assert forall|i: int| 0 <= i < chain@.len() implies self@.scopes.contains_key(
                #[trigger] chain@[i],
            ) by {
                self.lemma_chain_contained(chain@, i);
            }
        }
        chain
    }

    /// Every scope on the way from a scope of the tree to the root is a
    /// scope of the tree.
    proof fn lemma_chain_contained(&self, chain: Seq<NodeId>, i: int)
        requires
            self.wf(),
            chain.len() >= 1,
            self@.scopes.contains_key(chain[0]),
            forall|j: int|
                0 <= j < chain.len() - 1 ==> arena_nodes(self.arena)[#[trigger] chain[j]].1
                    == Some(chain[j + 1]),
            0 <= i < chain.len(),
        ensures
            self@.scopes.contains_key(chain[i]),
        decreases i,
    {
        if i > 0 {
            self.lemma_chain_contained(chain, i - 1);
            assert(self@.scopes[chain[i - 1]].parent == Some(chain[i]));
        }
    }

    /// The handle of the current scope.
    pub fn get_current(&self) -> (r: NodeId)
        ensures
            r == self@.current,
    {
        self.current
    }

    /// Tells whether `scope` is a scope of this tree.
    pub fn contains(&self, scope: NodeId) -> (r: bool)
        requires
            self.wf(),
        ensures
            r == self@.scopes.contains_key(scope),
    {
        arena_contains(&self.arena, scope)
    }

    /// Makes `scope` the current scope.
    pub fn set_current(&mut self, scope: NodeId)
        requires
            old(self).wf(),
            old(self)@.scopes.contains_key(scope),
        ensures
            final(self).wf(),
            final(self)@ == old(self)@.at(scope),
    {
        self.current = scope;
    }

    /// Binds `name` to `value` in the current scope, in place of an earlier
    /// binding there if there is one.
    pub fn define(&mut self, name: String, value: Object)
        requires
            old(self).wf(),
        ensures
            final(self).wf(),
            final(self)@ == old(self)@.define(name@, value),
    {
        let idx = arena_data(&self.arena, self.current);
        self.frames[idx].bind(name, value);
        proof {
            assert(final(self)@.scopes =~= old(self)@.define(name@, value).scopes);
        }
    }

    /// The value of the nearest binding of `name`, seen from the current
    /// scope; without one, the error for an undefined name.
    pub fn get(&self, name: Token) -> (r: Result<Object, RuntimeError>)
        requires
            self.wf(),
        ensures
            match r {
                Ok(v) => self@.get(name.lexeme@) == Some(v),
                Err(e) => self@.get(name.lexeme@) is None && is_undefined_name(e, name),
            },
    {
        let chain = self.scope_chain();
        let mut i: usize = 0;
        while i < chain.len()
            invariant
                self.wf(),
                self@.is_chain(chain@),
                chain@[0] == self@.current,
                0 <= i <= chain@.len(),
                forall|j: int|
                    0 <= j < i ==> !self@.scopes[#[trigger] chain@[j]].bindings.contains_key(
                        name.lexeme@,
                    ),
            decreases chain@.len() - i,
        {
            let idx = arena_data(&self.arena, chain[i]);
            assert(self@.scopes.contains_key(chain@[i as int]));
            match self.frames[idx].find(name.lexeme.as_str()) {
                Some(v) => {
                    proof {
                        self@.lemma_resolve_along(chain@, name.lexeme@, 0, i as int);
                    }
                    return Ok(v);
                },
                None => {},
            }
            i += 1;
        }
        proof {
            self@.lemma_resolve_along(chain@, name.lexeme@, 0, i as int);
        }
        Err(undefined_name(&name))
    }

    /// Overwrites the nearest binding of `name`, seen from the current scope,
    /// with `value`; without one, nothing changes and the error for an
    /// undefined name comes back.
    pub fn assign(&mut self, name: Token, value: &Object) -> (r: Result<(), RuntimeError>)
        requires
            old(self).wf(),
        ensures
            final(self).wf(),
            final(self)@ == old(self)@.assign(name.lexeme@, *value),
            match r {
                Ok(_) => old(self)@.get(name.lexeme@) is Some,
                Err(e) => old(self)@.get(name.lexeme@) is None && is_undefined_name(e, name),
            },
    {
        let chain = self.scope_chain();
        let mut i: usize = 0;
        while i < chain.len()
            invariant
                self.wf(),
                *self == *old(self),
                self@.is_chain(chain@),
                chain@[0] == self@.current,
                0 <= i <= chain@.len(),
                forall|j: int|
                    0 <= j < i ==> !self@.scopes[#[trigger] chain@[j]].bindings.contains_key(
                        name.lexeme@,
                    ),
            decreases chain@.len() - i,
        {
            let idx = arena_data(&self.arena, chain[i]);
            assert(self@.scopes.contains_key(chain@[i as int]));
            if self.frames[idx].values.contains_key(name.lexeme.as_str()) {
                proof {
                    self@.lemma_resolve_along(chain@, name.lexeme@, 0, i as int);
                }
                self.frames[idx].bind(name.lexeme, value.clone());
                proof {
                    assert(final(self)@.scopes =~= old(self)@.assign(name.lexeme@, *value).scopes);
                }
                return Ok(());
            }
            i += 1;
        }
        proof {
            self@.lemma_resolve_along(chain@, name.lexeme@, 0, i as int);
        }
        Err(undefined_name(&name))
    }

    /// Enters a new, empty scope below the current one and makes it current.
    pub fn enter_child_scope(&mut self)
        requires
            old(self).wf(),
        ensures
            final(self).wf(),
            !old(self)@.scopes.contains_key(final(self)@.current),
            final(self)@ == old(self)@.enter_child(final(self)@.current),
    {
        let idx = self.frames.len();
        self.frames.push(Environment::new());
        let child = arena_new_node(&mut self.arena, idx);
        proof {
            assert forall|n: NodeId| #[trigger]
                arena_nodes(self.arena).contains_key(n) implies arena_nodes(self.arena)[n].1
                != Some(child) by {
                if n != child {
                    assert(old(self)@.scopes.contains_key(n));
                    assert(old(self)@.scopes[n].parent == arena_nodes(self.arena)[n].1);
                }
            }
        }
        arena_append(self.current, child, &mut self.arena);
        proof {
            self.depth@ = self.depth@.insert(child, self.depth@[self.current] + 1);
        }
        self.current = child;
        proof {
            assert(final(self)@.scopes =~= old(self)@.enter_child(child).scopes);
        }
    }

    /// Leaves the current scope for its parent. At a root nothing changes.
    pub fn exit_scope(&mut self)
        requires
            old(self).wf(),
        ensures
            final(self).wf(),
            final(self)@ == old(self)@.exit(),
    {
        let chain = self.scope_chain();
        if chain.len() > 1 {
            assert(self@.scopes.contains_key(chain@[0]));
            self.current = chain[1];
        }
    }
}

/// Every scope of `a` is a scope of `b`, with the same parent and depth, and
/// binds `name` in `b` exactly if it does in `a`.
pub open spec fn same_shape_for(a: ScopeTree, b: ScopeTree, name: Seq<char>) -> bool {
    forall|id: NodeId| #[trigger]
        a.scopes.contains_key(id) ==> {
            &&& b.scopes.contains_key(id)
            &&& b.scopes[id].parent == a.scopes[id].parent
            &&& b.scopes[id].depth == a.scopes[id].depth
            &&& b.scopes[id].bindings.contains_key(name) == a.scopes[id].bindings.contains_key(
                name,
            )
        }
}

/// Where a name resolves to depends only on the shape of the tree and on
/// which scopes bind the name.
pub proof fn lemma_resolve_same_shape(a: ScopeTree, b: ScopeTree, from: NodeId, name: Seq<char>)
    requires
        a.wf(),
        b.wf(),
        a.scopes.contains_key(from),
        same_shape_for(a, b, name),
    ensures
        b.resolve(from, name) == a.resolve(from, name),
    decreases a.scopes[from].depth,
{
    if !a.scopes[from].bindings.contains_key(name) {
        match a.scopes[from].parent {
            Some(p) => {
                lemma_resolve_same_shape(a, b, p, name);
            },
            None => {},
        }
    }
}

/// A name resolves, if at all, to a scope of the tree that binds it.
pub proof fn lemma_resolve_binds(t: ScopeTree, from: NodeId, name: Seq<char>)
    requires
        t.resolve(from, name) is Some,
    ensures
        t.scopes.contains_key(t.resolve(from, name).unwrap()),
        t.scopes[t.resolve(from, name).unwrap()].bindings.contains_key(name),
    decreases t.scopes[from].depth,
{
    if !t.scopes[from].bindings.contains_key(name) {
        match t.scopes[from].parent {
            Some(p) => {
                lemma_resolve_binds(t, p, name);
            },
            None => {},
        }
    }
}

/// Binding a name in a scope of a sound tree leaves the tree sound.
pub proof fn lemma_bind_in_wf(t: ScopeTree, scope: NodeId, name: Seq<char>, value: Object)
    requires
        t.wf(),
        t.scopes.contains_key(scope),
    ensures
        t.bind_in(scope, name, value).wf(),
{
    let u = t.bind_in(scope, name, value);
    assert forall|id: NodeId| #[trigger] u.scopes.contains_key(id) implies match u.scopes[id].parent {
        Some(p) => u.scopes.contains_key(p) && u.scopes[id].depth == u.scopes[p].depth + 1,
        None => true,
    } by {
        assert(t.scopes.contains_key(id));
    }
}

/// Entering a fresh scope leaves a sound tree sound.
pub proof fn lemma_enter_child_wf(t: ScopeTree, child: NodeId)
    requires
        t.wf(),
        !t.scopes.contains_key(child),
    ensures
        t.enter_child(child).wf(),
{
    let u = t.enter_child(child);
    assert forall|id: NodeId| #[trigger] u.scopes.contains_key(id) implies match u.scopes[id].parent {
        Some(p) => u.scopes.contains_key(p) && u.scopes[id].depth == u.scopes[p].depth + 1,
        None => true,
    } by {
        if id != child {
            assert(t.scopes.contains_key(id));
        }
    }
}

/// A name that was just defined reads back as the value it was given.
pub proof fn law_define_then_get(t: ScopeTree, name: Seq<char>, value: Object)
    requires
        t.wf(),
    ensures
        t.define(name, value).wf(),
        t.define(name, value).get(name) == Some(value),
{
    lemma_bind_in_wf(t, t.current, name, value);
}

/// What is defined in a child scope is gone once the scope is left: after
/// entering a fresh scope, defining a name there and leaving again, every
/// name reads from the scope around it as it did before, bound or not.
pub proof fn law_child_definition_is_local(
    t: ScopeTree,
    child: NodeId,
    name: Seq<char>,
    value: Object,
    other: Seq<char>,
)
    requires
        t.wf(),
        !t.scopes.contains_key(child),
    ensures
        t.enter_child(child).define(name, value).exit().wf(),
        t.enter_child(child).define(name, value).exit().current == t.current,
        t.enter_child(child).define(name, value).exit().get(other) == t.get(other),
{
    let inner = t.enter_child(child);
    lemma_enter_child_wf(t, child);
    let defined = inner.define(name, value);
    lemma_bind_in_wf(inner, child, name, value);
    let after = defined.exit();
    assert(after.wf());
    assert(same_shape_for(t, after, other));
    lemma_resolve_same_shape(t, after, t.current, other);
    if t.resolve(t.current, other) is Some {
        lemma_resolve_binds(t, t.current, other);
    }
}

/// An assignment made while `name` is bound in the scope `outer`, an ancestor
/// of the current scope or that scope itself, changes the binding in `outer`:
/// from every scope that sees that binding, the name then reads as the
/// assigned value.
pub proof fn law_assign_reaches_binding(
    t: ScopeTree,
    name: Seq<char>,
    value: Object,
    outer: NodeId,
    viewer: NodeId,
)
    requires
        t.wf(),
        t.resolve(t.current, name) == Some(outer),
        t.scopes.contains_key(viewer),
        t.resolve(viewer, name) == Some(outer),
    ensures
        t.assign(name, value).wf(),
        t.assign(name, value).scopes[outer].bindings[name] == value,
        t.assign(name, value).at(viewer).get(name) == Some(value),
        t.assign(name, value).get(name) == Some(value),
{
    lemma_resolve_binds(t, t.current, name);
    lemma_bind_in_wf(t, outer, name, value);
    let u = t.assign(name, value);
    assert(same_shape_for(t, u, name));
    lemma_resolve_same_shape(t, u, viewer, name);
    lemma_resolve_same_shape(t, u, t.current, name);
    assert(u.at(viewer).wf());
    assert(same_shape_for(u, u.at(viewer), name));
    lemma_resolve_same_shape(u, u.at(viewer), viewer, name);
}

/// Assigning a variable the value it already has changes nothing.
pub proof fn law_assign_own_value(t: ScopeTree, name: Seq<char>)
    requires
        t.wf(),
        t.get(name) is Some,
    ensures
        t.assign(name, t.get(name).unwrap()) == t,
{
    lemma_resolve_binds(t, t.current, name);
    let scope = t.resolve(t.current, name).unwrap();
    let u = t.assign(name, t.get(name).unwrap());
    assert(u.scopes[scope].bindings =~= t.scopes[scope].bindings);
    assert(u.scopes =~= t.scopes);
}

} // verus!
