//! The scoped namespace registry: nested scopes of name bindings, with
//! innermost-to-outermost lookup and last-write-wins registration.

use vstd::prelude::*;
use crate::function_def::FunctionDef;

verus! {

/// What a registered name refers to.
#[derive(Debug, PartialEq)]
pub enum SymbolTableNode {
    /// A function definition, stored by value in the table.
    FunctionDef(FunctionDef),
}

/// One binding of a name in one scope.
#[derive(Debug, PartialEq)]
pub struct Binding {
    pub name: String,
    pub node: SymbolTableNode,
}

/// One scope: an ordered collection of bindings with pairwise distinct names.
#[derive(Debug, PartialEq)]
pub struct SymbolTable {
    pub entries: Vec<Binding>,
}

/// The scope chain: the last scope is the innermost.
#[derive(Debug, PartialEq)]
pub struct SymbolTableScopes {
    pub scopes: Vec<SymbolTable>,
}

/// The node a name resolves to within one scope: the first binding whose
/// name matches, or nothing.
pub open spec fn scope_lookup(entries: Seq<Binding>, name: Seq<char>) -> Option<SymbolTableNode>
    decreases entries.len(),
{
    if entries.len() == 0 {
        None
    } else if entries.first().name@ == name {
        Some(entries.first().node)
    } else {
        scope_lookup(entries.drop_first(), name)
    }
}

/// Registration within one scope: overwrites the binding whose name matches,
/// or appends a fresh binding. Idempotent-overwrite, never additive.
pub open spec fn scope_insert(entries: Seq<Binding>, b: Binding) -> Seq<Binding>
    decreases entries.len(),
{
    if entries.len() == 0 {
        seq![b]
    } else if entries.first().name@ == b.name@ {
        seq![b] + entries.drop_first()
    } else {
        seq![entries.first()] + scope_insert(entries.drop_first(), b)
    }
}

/// Each name is bound at most once within one scope.
pub open spec fn scope_unique(entries: Seq<Binding>) -> bool {
    forall|i: int, j: int|
        0 <= i < j < entries.len() ==> entries[i].name@ != entries[j].name@
}

/// The node a name resolves to in a scope chain: the innermost scope that
/// binds it wins.
pub open spec fn scopes_lookup(scopes: Seq<SymbolTable>, name: Seq<char>) -> Option<
    SymbolTableNode,
>
    decreases scopes.len(),
{
    if scopes.len() == 0 {
        None
    } else {
        match scope_lookup(scopes.last().entries@, name) {
            Some(n) => Some(n),
            None => scopes_lookup(scopes.drop_last(), name),
        }
    }
}

/// Registering a name makes it resolvable to exactly the registered node.
pub proof fn lemma_scope_insert_found(entries: Seq<Binding>, b: Binding)
    ensures
        scope_lookup(scope_insert(entries, b), b.name@) == Some(b.node),
    decreases entries.len(),
{
    if entries.len() == 0 {
        assert(scope_insert(entries, b).first() == b);
    } else if entries.first().name@ == b.name@ {
        assert(scope_insert(entries, b).first() == b);
    } else {
        lemma_scope_insert_found(entries.drop_first(), b);
        assert(scope_insert(entries, b).first() == entries.first());
        assert(scope_insert(entries, b).drop_first() =~= scope_insert(entries.drop_first(), b));
    }
}

/// Registering a name leaves every other name's resolution unchanged.
pub proof fn lemma_scope_insert_other(entries: Seq<Binding>, b: Binding, name: Seq<char>)
    requires
        name != b.name@,
    ensures
        scope_lookup(scope_insert(entries, b), name) == scope_lookup(entries, name),
    decreases entries.len(),
{
    if entries.len() == 0 {
        assert(scope_insert(entries, b).first() == b);
        assert(scope_insert(entries, b).drop_first() =~= Seq::<Binding>::empty());
        assert(scope_lookup(Seq::<Binding>::empty(), name) is None);
    } else if entries.first().name@ == b.name@ {
        assert(scope_insert(entries, b).first() == b);
        assert(scope_insert(entries, b).drop_first() =~= entries.drop_first());
    } else {
        lemma_scope_insert_other(entries.drop_first(), b, name);
        assert(scope_insert(entries, b).first() == entries.first());
        assert(scope_insert(entries, b).drop_first() =~= scope_insert(entries.drop_first(), b));
    }
}

/// Registration preserves the at-most-one-binding-per-name invariant.
pub proof fn lemma_scope_insert_unique(entries: Seq<Binding>, b: Binding)
    requires
        scope_unique(entries),
    ensures
        scope_unique(scope_insert(entries, b)),
    decreases entries.len(),
{
    let post = scope_insert(entries, b);
    if entries.len() == 0 {
    } else if entries.first().name@ == b.name@ {
        assert(post =~= seq![b] + entries.drop_first());
        assert forall|i: int, j: int| 0 <= i < j < post.len() implies post[i].name@
            != post[j].name@ by {
            if i == 0 {
                assert(post[j] == entries[j]);
                assert(entries[0].name@ != entries[j].name@);
            } else {
                assert(post[i] == entries[i]);
                assert(post[j] == entries[j]);
            }
        }
    } else {
        assert(scope_unique(entries.drop_first())) by {
            assert forall|i: int, j: int|
                0 <= i < j < entries.drop_first().len() implies entries.drop_first()[i].name@
                != entries.drop_first()[j].name@ by {
                assert(entries.drop_first()[i] == entries[i + 1]);
                assert(entries.drop_first()[j] == entries[j + 1]);
            }
        }
        lemma_scope_insert_unique(entries.drop_first(), b);
        lemma_scope_insert_in_names(entries.drop_first(), b);
        let tail = scope_insert(entries.drop_first(), b);
        assert(post =~= seq![entries.first()] + tail);
        assert forall|i: int, j: int| 0 <= i < j < post.len() implies post[i].name@
            != post[j].name@ by {
            if i == 0 {
                assert(post[j] == tail[j - 1]);
                assert(in_names(entries.drop_first(), b, tail[j - 1]));
            } else {
                assert(post[i] == tail[i - 1]);
                assert(post[j] == tail[j - 1]);
            }
        }
    }
}

/// Every binding of `scope_insert(entries, b)` is `b` or came from `entries`.
pub open spec fn in_names(entries: Seq<Binding>, b: Binding, x: Binding) -> bool {
    x.name@ == b.name@ || exists|k: int| 0 <= k < entries.len() && x.name@ == entries[k].name@
}

pub proof fn lemma_scope_insert_in_names(entries: Seq<Binding>, b: Binding)
    ensures
        forall|m: int|
            0 <= m < scope_insert(entries, b).len() ==> in_names(
                entries,
                b,
                scope_insert(entries, b)[m],
            ),
    decreases entries.len(),
{
    let post = scope_insert(entries, b);
    if entries.len() == 0 {
        assert(post[0] == b);
    } else if entries.first().name@ == b.name@ {
        assert forall|m: int| 0 <= m < post.len() implies in_names(entries, b, post[m]) by {
            if m > 0 {
                assert(post[m] == entries[m]);
            }
        }
    } else {
        lemma_scope_insert_in_names(entries.drop_first(), b);
        let tail = scope_insert(entries.drop_first(), b);
        assert(post =~= seq![entries.first()] + tail);
        assert forall|m: int| 0 <= m < post.len() implies in_names(entries, b, post[m]) by {
            if m == 0 {
                assert(post[0].name@ == entries[0].name@);
            } else {
                assert(post[m] == tail[m - 1]);
                assert(in_names(entries.drop_first(), b, tail[m - 1]));
                if tail[m - 1].name@ != b.name@ {
                    let k = choose|k: int|
                        0 <= k < entries.drop_first().len() && tail[m - 1].name@
                            == entries.drop_first()[k].name@;
                    assert(entries.drop_first()[k] == entries[k + 1]);
                }
            }
        }
    }
}

/// Where the first `i` bindings miss and binding `i` matches, registration
/// is exactly an in-place overwrite of binding `i`.
pub proof fn lemma_scope_insert_at(entries: Seq<Binding>, b: Binding, i: int)
    requires
        0 <= i < entries.len(),
        entries[i].name@ == b.name@,
        forall|k: int| 0 <= k < i ==> entries[k].name@ != b.name@,
    ensures
        scope_insert(entries, b) == entries.update(i, b),
    decreases i,
{
    if i == 0 {
        assert(scope_insert(entries, b) =~= entries.update(0, b));
    } else {
        assert(entries.first().name@ != b.name@);
        assert(entries.drop_first()[i - 1].name@ == b.name@);
        assert forall|k: int| 0 <= k < i - 1 implies entries.drop_first()[k].name@
            != b.name@ by {
            assert(entries.drop_first()[k] == entries[k + 1]);
        }
        lemma_scope_insert_at(entries.drop_first(), b, i - 1);
        assert(scope_insert(entries, b) =~= entries.update(i, b));
    }
}

/// Where no binding matches, registration is exactly an append.
pub proof fn lemma_scope_insert_missing(entries: Seq<Binding>, b: Binding)
    requires
        forall|k: int| 0 <= k < entries.len() ==> entries[k].name@ != b.name@,
    ensures
        scope_insert(entries, b) == entries.push(b),
    decreases entries.len(),
{
    if entries.len() == 0 {
        assert(scope_insert(entries, b) =~= entries.push(b));
    } else {
        assert(entries.first().name@ != b.name@);
        assert forall|k: int| 0 <= k < entries.drop_first().len() implies entries.drop_first()[k].name@
            != b.name@ by {
            assert(entries.drop_first()[k] == entries[k + 1]);
        }
        lemma_scope_insert_missing(entries.drop_first(), b);
        assert(scope_insert(entries, b) =~= entries.push(b));
    }
}

/// Registration overwrite law: registering the same name twice leaves only
/// the second node resolvable via lookup.
pub proof fn lemma_register_overwrite(
    entries: Seq<Binding>,
    name: Seq<char>,
    b1: Binding,
    b2: Binding,
)
    requires
        b1.name@ == name,
        b2.name@ == name,
    ensures
        scope_lookup(scope_insert(scope_insert(entries, b1), b2), name) == Some(b2.node),
{
    lemma_scope_insert_found(scope_insert(entries, b1), b2);
}

impl SymbolTableScopes {
    /// The scope chain is never empty and every scope binds each name at
    /// most once.
    pub open spec fn wf(&self) -> bool {
        &&& self.scopes@.len() >= 1
        &&& forall|k: int|
            0 <= k < self.scopes@.len() ==> scope_unique(#[trigger] self.scopes@[k].entries@)
    }

    /// What a name resolves to in this table.
    pub open spec fn spec_lookup(&self, name: Seq<char>) -> Option<SymbolTableNode> {
        scopes_lookup(self.scopes@, name)
    }

    /// A fresh table holding one empty scope: the module scope.
    pub fn new() -> (t: SymbolTableScopes)
        ensures
            t.wf(),
            t.scopes@.len() == 1,
            t.scopes@[0].entries@ == Seq::<Binding>::empty(),
    {
        let mut scopes: Vec<SymbolTable> = Vec::new();
        scopes.push(SymbolTable { entries: Vec::new() });
        SymbolTableScopes { scopes }
    }

    /// Opens a nested scope; it becomes the innermost.
    pub fn new_scope(&mut self)
        requires
            old(self).wf(),
        ensures
            final(self).wf(),
            final(self).scopes@.len() == old(self).scopes@.len() + 1,
            final(self).scopes@.drop_last() == old(self).scopes@,
            final(self).scopes@.last().entries@ == Seq::<Binding>::empty(),
    {
        self.scopes.push(SymbolTable { entries: Vec::new() });
        proof {
            assert(final(self).scopes@.drop_last() =~= old(self).scopes@);
        }
    }

    /// Closes the innermost scope, dropping its bindings.
    pub fn pop_scope(&mut self)
        requires
            old(self).wf(),
            old(self).scopes@.len() >= 2,
        ensures
            final(self).wf(),
            final(self).scopes@ == old(self).scopes@.drop_last(),
    {
        self.scopes.pop();
        proof {
            assert(final(self).scopes@ =~= old(self).scopes@.drop_last());
        }
    }

    /// Registers `name` in the innermost scope, overwriting any existing
    /// binding of the same name there. Last write wins; redefinition is
    /// never an error.
    pub fn insert(&mut self, name: String, node: SymbolTableNode)
        requires
            old(self).wf(),
        ensures
            final(self).wf(),
            final(self).scopes@.len() == old(self).scopes@.len(),
            forall|k: int|
                0 <= k < old(self).scopes@.len() - 1 ==> final(self).scopes@[k] == old(
                    self,
                ).scopes@[k],
            final(self).scopes@.last().entries@ == scope_insert(
                old(self).scopes@.last().entries@,
                Binding { name, node },
            ),
            final(self).spec_lookup(name@) == Some(node),
            forall|other: Seq<char>|
                other != name@ ==> final(self).spec_lookup(other) == old(self).spec_lookup(other),
    {
        let ghost pre = *self;
        let ghost b = Binding { name, node };
        let mut scope = match self.scopes.pop() {
            Some(s) => s,
            None => SymbolTable { entries: Vec::new() },
        };
        let ghost entries0 = scope.entries@;
        let n = scope.entries.len();
        let mut i: usize = 0;
        let mut found: bool = false;
        while i < n && !found
            invariant
                n == entries0.len(),
                scope.entries@ == entries0,
                i <= n,
                !found ==> forall|k: int| 0 <= k < i ==> entries0[k].name@ != name@,
                found ==> i < n && entries0[i as int].name@ == name@ && forall|k: int|
                    0 <= k < i ==> entries0[k].name@ != name@,
            decreases n - i + (if found { 0int } else { 1int }),
        {
            if scope.entries[i].name == name {
                found = true;
            } else {
                i = i + 1;
            }
        }
        let binding = Binding { name, node };
        if found {
            scope.entries[i] = binding;
            proof {
                lemma_scope_insert_at(entries0, b, i as int);
            }
        } else {
            scope.entries.push(binding);
            proof {
                lemma_scope_insert_missing(entries0, b);
            }
        }
        proof {
            assert(scope.entries@ == scope_insert(entries0, b));
        }
        self.scopes.push(scope);
        proof {
            let post = *self;
            let lastk = pre.scopes@.len() - 1;
            assert(post.scopes@.len() == pre.scopes@.len());
            assert forall|k: int| 0 <= k < lastk implies post.scopes@[k] == pre.scopes@[k] by {
                assert(pre.scopes@.subrange(0, lastk)[k] == pre.scopes@[k]);
            }
            assert(post.scopes@.last().entries@ == scope_insert(entries0, b));
            lemma_scope_insert_unique(entries0, b);
            assert(post.wf()) by {
                assert forall|k: int|
                    0 <= k < post.scopes@.len() implies scope_unique(
                    #[trigger] post.scopes@[k].entries@,
                ) by {
                    if k < lastk {
                        assert(post.scopes@[k] == pre.scopes@[k]);
                    }
                }
            }
            lemma_scope_insert_found(entries0, b);
            assert(post.spec_lookup(name@) == Some(node));
            assert(post.scopes@.drop_last() =~= pre.scopes@.drop_last());
            assert forall|other: Seq<char>| other != name@ implies post.spec_lookup(other)
                == pre.spec_lookup(other) by {
                lemma_scope_insert_other(entries0, b, other);
                assert(scopes_lookup(post.scopes@, other) == scopes_lookup(pre.scopes@, other));
            }
        }
    }

    /// Resolves a name, walking the scope chain from innermost to outermost
    /// and returning the first match.
    pub fn lookup(&self, name: &String) -> (r: Option<&SymbolTableNode>)
        requires
            self.wf(),
        ensures
            match r {
                Some(n) => self.spec_lookup(name@) == Some(*n),
                None => self.spec_lookup(name@) is None,
            },
    {
        let mut k = self.scopes.len();
        proof {
            assert(self.scopes@.take(self.scopes@.len() as int) =~= self.scopes@);
        }
        while k > 0
            invariant
                k <= self.scopes@.len(),
                scopes_lookup(self.scopes@, name@) == scopes_lookup(
                    self.scopes@.take(k as int),
                    name@,
                ),
            decreases k,
        {
            k = k - 1;
            let entries = &self.scopes[k].entries;
            let n = entries.len();
            let mut j: usize = 0;
            proof {
                assert(entries@.skip(0) =~= entries@);
            }
            while j < n
                invariant
                    k < self.scopes@.len(),
                    entries@ == self.scopes@[k as int].entries@,
                    scopes_lookup(self.scopes@, name@) == scopes_lookup(
                        self.scopes@.take(k as int + 1),
                        name@,
                    ),
                    n == entries@.len(),
                    j <= n,
                    scope_lookup(entries@, name@) == scope_lookup(
                        entries@.skip(j as int),
                        name@,
                    ),
                decreases n - j,
            {
                if entries[j].name == *name {
                    proof {
                        assert(entries@.skip(j as int).first() == entries@[j as int]);
                        assert(scope_lookup(entries@, name@) == Some(entries@[j as int].node));
                        let upto = self.scopes@.take(k as int + 1);
                        assert(upto.last() == self.scopes@[k as int]);
                        assert(scopes_lookup(upto, name@) == Some(entries@[j as int].node));
                    }
                    return Some(&entries[j].node);
                }
                proof {
                    assert(entries@.skip(j as int).first() == entries@[j as int]);
                    assert(entries@.skip(j as int).drop_first() =~= entries@.skip(j as int + 1));
                }
                j = j + 1;
            }
            proof {
                assert(entries@.skip(n as int) =~= Seq::<Binding>::empty());
                assert(scope_lookup(Seq::<Binding>::empty(), name@) is None);
                assert(scope_lookup(entries@, name@) is None);
                let upto = self.scopes@.take(k as int + 1);
                assert(upto.last() == self.scopes@[k as int]);
                assert(upto.drop_last() =~= self.scopes@.take(k as int));
                assert(scopes_lookup(upto, name@) == scopes_lookup(
                    self.scopes@.take(k as int),
                    name@,
                ));
            }
        }
        proof {
            assert(self.scopes@.take(0) =~= Seq::<SymbolTable>::empty());
        }
        None
    }
}

} // verus!
