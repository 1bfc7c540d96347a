//! The symbol table: a tree of scopes in which qualified names are declared
//! and resolved.

use crate::cache::StringKey;
use std::collections::HashMap;
use vstd::prelude::*;

verus! {

broadcast use vstd::std_specs::hash::group_hash_axioms;

#[derive(Copy, Clone, Debug, Hash, PartialEq, Eq, Structural)]
pub struct SymbolKey(pub usize);

impl SymbolKey {
    /// The key of the root scope.
    pub fn root() -> (k: SymbolKey)
        ensures
            k == SymbolKey(0),
    {
        SymbolKey(0)
    }
}

/// Represents the root of a symbol (sub)tree.
struct Node {
    /// The symbols that have this symbol as its context.
    subpaths: HashMap<usize, SymbolKey>,
    /// The index in the symbol table this symbol's context symbol is stored at.
    /// The root context's context is itself.
    context: SymbolKey,
    /// The string represented by this symbol.
    string_key: StringKey,
}

/// One symbol of the table: the symbols declared directly inside it, by
/// name, the symbol it was declared in, and its own name.
pub struct Scope {
    pub names: Map<StringKey, SymbolKey>,
    pub context: SymbolKey,
    pub name: StringKey,
}

impl Node {
    spec fn view(&self) -> Scope {
        Scope {
            names: Map::new(
                |k: StringKey| self.subpaths@.contains_key(k.0),
                |k: StringKey| self.subpaths@[k.0],
            ),
            context: self.context,
            name: self.string_key,
        }
    }

    fn with_context(string_key: StringKey, context: SymbolKey) -> (node: Node)
        ensures
            node@ == (Scope { names: Map::empty(), context, name: string_key }),
    {
        let node = Node { subpaths: HashMap::new(), context, string_key };
        assert(node@.names =~= Map::empty());
        node
    }
}

/// Whether the scopes form a tree that grows by appending: scope 0 is the
/// root and its own context, every other scope was declared in an earlier
/// one, and every name of a scope leads to a scope that was declared in it
/// under that name.
pub open spec fn is_tree(scopes: Seq<Scope>) -> bool {
    &&& scopes.len() >= 1
    &&& scopes[0].context == SymbolKey(0)
    &&& forall|i: int| 1 <= i < scopes.len() ==> (#[trigger] scopes[i]).context.0 < i
    &&& forall|i: int, name: StringKey|
        0 <= i < scopes.len() && (#[trigger] scopes[i].names.contains_key(name)) ==> {
            let child = scopes[i].names[name];
            &&& 0 < child.0 < scopes.len()
            &&& scopes[child.0 as int].context.0 == i
            &&& scopes[child.0 as int].name == name
        }
}

/// The symbol that `path` names when each segment is looked up directly in
/// the symbol that the segment before it named, the first one in `context`.
/// The empty path names nothing.
pub open spec fn walk(scopes: Seq<Scope>, path: Seq<StringKey>, context: SymbolKey) -> Option<
    SymbolKey,
>
    decreases path.len(),
{
    if path.len() == 0 || !(0 <= context.0 < scopes.len()) {
        None
    } else if !scopes[context.0 as int].names.contains_key(path[0]) {
        None
    } else if path.len() == 1 {
        Some(scopes[context.0 as int].names[path[0]])
    } else {
        walk(scopes, path.drop_first(), scopes[context.0 as int].names[path[0]])
    }
}

/// The symbol that `path` names seen from `context`: what the walk from
/// `context` finds, else what the walk from the scope around it finds, and so
/// on outwards; nothing where the walk from the root fails too.
pub open spec fn lookup(scopes: Seq<Scope>, path: Seq<StringKey>, context: SymbolKey) -> Option<
    SymbolKey,
>
    decreases context.0,
{
    if walk(scopes, path, context) is Some {
        walk(scopes, path, context)
    } else if context.0 == 0 || !(0 <= context.0 < scopes.len()) {
        None
    } else if scopes[context.0 as int].context.0 < context.0 {
        lookup(scopes, path, scopes[context.0 as int].context)
    } else {
        None
    }
}

/// The scopes after `name` was declared in `context`: the scope at `context`
/// knows the name, and the new scope stands at the end.
pub open spec fn with_symbol(scopes: Seq<Scope>, name: StringKey, context: SymbolKey) -> Seq<Scope> {
    let parent = scopes[context.0 as int];
    let key = SymbolKey(scopes.len() as usize);
    scopes.update(
        context.0 as int,
        Scope { names: parent.names.insert(name, key), context: parent.context, name: parent.name },
    ).push(Scope { names: Map::empty(), context, name })
}

pub struct SymbolTable {
    // symbols are stored as a tree, root is index 0
    nodes: Vec<Node>,
}

impl SymbolTable {
    /// The scopes of the table, each at the index that is its key.
    pub closed spec fn view(&self) -> Seq<Scope> {
        Seq::new(self.nodes@.len(), |i: int| self.nodes@[i]@)
    }

    /// The table's invariant.
    pub open spec fn wf(&self) -> bool {
        is_tree(self@)
    }

    pub fn new() -> (table: SymbolTable)
        ensures
            table.wf(),
            table@ == seq![(Scope { names: Map::empty(), context: SymbolKey(0), name: StringKey(0) })],
    {
        let mut nodes = Vec::new();
        nodes.push(Node::with_context(StringKey::empty(), SymbolKey::root()));
        let table = SymbolTable { nodes };
        assert(table@ =~= seq![
            (Scope { names: Map::empty(), context: SymbolKey(0), name: StringKey(0) }),
        ]);
        table
    }

    /// The number of symbols, the root included.
    pub fn len(&self) -> (len: usize)
        ensures
            len == self@.len(),
    {
        self.nodes.len()
    }

    /// Resolves a qualified symbol inside the given context.
    pub fn resolve(&self, name: &[StringKey], context: SymbolKey) -> (found: Option<SymbolKey>)
        requires
            self.wf(),
            context.0 < self@.len(),
        ensures
            found == lookup(self@, name@, context),
            found is Some ==> found.unwrap().0 < self@.len(),
    {
        // b::c in a::b looks for
        // - a::b::b::c
        // - a::b::c
        // - b::c
        let mut scope = context;
        loop
            invariant
                self.wf(),
                scope.0 < self@.len(),
                lookup(self@, name@, scope) == lookup(self@, name@, context),
            decreases scope.0,
        {
            match self.resolve_direct(name, scope) {
                Some(key) => return Some(key),
                None => {
                    if scope.0 == 0 {
                        return None;
                    }
                    assert(self@[scope.0 as int].context.0 < scope.0);
                    scope = self.nodes[scope.0].context;
                },
            }
        }
    }

    /// Resolve a qualified symbol directly inside the given context.
    pub fn resolve_direct(&self, path_parts: &[StringKey], context: SymbolKey) -> (found: Option<
        SymbolKey,
    >)
        requires
            self.wf(),
            context.0 < self@.len(),
        ensures
            found == walk(self@, path_parts@, context),
            found is Some ==> found.unwrap().0 < self@.len(),
    {
        let mut search_root = context;
        let mut key = None;
        let mut i: usize = 0;
        assert(path_parts@.skip(0) =~= path_parts@);
        while i < path_parts.len()
            invariant
                self.wf(),
                i <= path_parts@.len(),
                search_root.0 < self@.len(),
                i == 0 ==> key is None,
                i > 0 ==> key == Some(search_root),
                i < path_parts@.len() ==> walk(self@, path_parts@, context) == walk(
                    self@,
                    path_parts@.skip(i as int),
                    search_root,
                ),
                i == path_parts@.len() ==> walk(self@, path_parts@, context) == key,
            decreases path_parts@.len() - i,
        {
            let ghost rest = path_parts@.skip(i as int);
            assert(rest[0] == path_parts@[i as int]);
            assert(rest.drop_first() =~= path_parts@.skip(i + 1));
            let node = &self.nodes[search_root.0];
            assert(node@ == self@[search_root.0 as int]);
            match node.subpaths.get(&path_parts[i].0) {
                Some(k) => {
                    assert(node@.names.contains_key(path_parts@[i as int]));
                    assert(node@.names[path_parts@[i as int]] == *k);
                    key = Some(*k);
                    search_root = *k;
                },
                None => {
                    assert(!node@.names.contains_key(path_parts@[i as int]));
                    return None;
                },
            }
            i += 1;
        }
        key
    }

    /// Defines a symbol under the given context. Returns the symbol key, or `None` if a
    /// symbol with the given name has already been defined.
    pub fn define(&mut self, name: StringKey, context: SymbolKey) -> (key: Option<SymbolKey>)
        requires
            old(self).wf(),
            context.0 < old(self)@.len(),
        ensures
            final(self).wf(),
            key == if old(self)@[context.0 as int].names.contains_key(name) {
                None
            } else {
                Some(SymbolKey(old(self)@.len() as usize))
            },
            final(self)@ == if key is Some {
                with_symbol(old(self)@, name, context)
            } else {
                old(self)@
            },
    {
        let next_index = self.nodes.len();
        let ghost before = self@;
        assert(self.nodes@[context.0 as int]@ == before[context.0 as int]);
        if self.nodes[context.0].subpaths.contains_key(&name.0) {
            assert(before[context.0 as int].names.contains_key(name));
            return None;
        }
        assert(!before[context.0 as int].names.contains_key(name));
        let key = SymbolKey(next_index);
        let root = &mut self.nodes[context.0];
        root.subpaths.insert(name.0, key);
        self.nodes.push(Node::with_context(name, context));
        proof {
            let after = with_symbol(before, name, context);
            assert(self@.len() == after.len());
            assert forall|i: int| 0 <= i < after.len() implies self@[i] == after[i] by {
                if i == context.0 {
                    assert(self@[i].names =~= before[i].names.insert(name, key));
                } else if i < before.len() {
                    assert(self.nodes@[i] == old(self).nodes@[i]);
                }
            }
            assert(self@ =~= after);
            lemma_with_symbol_is_tree(before, name, context);
        }
        Some(key)
    }

    /// Retrieves the string key for a given symbol. Multiple symbols may have the same string key.
    pub fn string_key(&self, key: SymbolKey) -> (name: StringKey)
        requires
            key.0 < self@.len(),
        ensures
            name == self@[key.0 as int].name,
    {
        self.nodes[key.0].string_key
    }
}

/// Declaring a name that a scope does not know yet keeps the scopes a tree.
pub proof fn lemma_with_symbol_is_tree(scopes: Seq<Scope>, name: StringKey, context: SymbolKey)
    requires
        is_tree(scopes),
        0 <= context.0 < scopes.len(),
        scopes.len() <= usize::MAX,
        !scopes[context.0 as int].names.contains_key(name),
    ensures
        is_tree(with_symbol(scopes, name, context)),
{
    let after = with_symbol(scopes, name, context);
    let key = SymbolKey(scopes.len() as usize);
    assert forall|i: int| 1 <= i < after.len() implies (#[trigger] after[i]).context.0 < i by {
        if i < scopes.len() {
            assert(after[i].context == scopes[i].context);
        }
    }
    assert forall|i: int, n: StringKey|
        0 <= i < after.len() && (#[trigger] after[i].names.contains_key(n)) implies {
        let child = after[i].names[n];
        &&& 0 < child.0 < after.len()
        &&& after[child.0 as int].context.0 == i
        &&& after[child.0 as int].name == n
    } by {
        if i == context.0 && n == name {
        } else {
            assert(scopes[i].names.contains_key(n));
            let child = scopes[i].names[n];
            assert(after[child.0 as int].context == scopes[child.0 as int].context);
        }
    }
}

/// A name that was declared in a scope is found there, directly and by
/// resolution.
pub proof fn lemma_declared_is_found(scopes: Seq<Scope>, name: StringKey, context: SymbolKey)
    requires
        is_tree(scopes),
        0 <= context.0 < scopes.len(),
        scopes.len() <= usize::MAX,
        !scopes[context.0 as int].names.contains_key(name),
    ensures
        walk(with_symbol(scopes, name, context), seq![name], context) == Some(
            SymbolKey(scopes.len() as usize),
        ),
        lookup(with_symbol(scopes, name, context), seq![name], context) == Some(
            SymbolKey(scopes.len() as usize),
        ),
{
    let after = with_symbol(scopes, name, context);
    assert(after[context.0 as int].names.contains_key(name));
    assert(seq![name][0] == name);
}

/// Declaring a name leaves the scopes that were there with their contexts
/// and their names, and what the other scopes know.
pub proof fn lemma_declaring_keeps_the_rest(scopes: Seq<Scope>, name: StringKey, context: SymbolKey)
    requires
        is_tree(scopes),
        0 <= context.0 < scopes.len(),
    ensures
        with_symbol(scopes, name, context).len() == scopes.len() + 1,
        forall|i: int|
            0 <= i < scopes.len() ==> {
                &&& (#[trigger] with_symbol(scopes, name, context)[i]).context == scopes[i].context
                &&& with_symbol(scopes, name, context)[i].name == scopes[i].name
                &&& i != context.0 ==> with_symbol(scopes, name, context)[i].names == scopes[i].names
            },
{
}

} // verus!
