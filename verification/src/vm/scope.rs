//! Binding environments: one table of names per scope, linked to the
//! enclosing scope by its index in the machine's scope table.

use vstd::prelude::*;
use crate::vm::opcode::{Value, ValueView};

verus! {

/// A scope: its own bindings and the index of the enclosing scope.
///
/// A binding without a value has been declared and not yet stored to.
pub struct Scope {
    names: Vec<String>,
    values: Vec<Option<Value>>,
    parent: Option<usize>,
}

/// Mathematical model of a [`Scope`].
pub struct ScopeView {
    pub vars: Map<Seq<char>, Option<ValueView>>,
    pub parent: Option<nat>,
}

/// The model of a binding's content.
pub open spec fn slot_view(slot: Option<Value>) -> Option<ValueView> {
    match slot {
        Some(v) => Some(v@),
        None => None,
    }
}

/// The model of a scope table, scope by scope.
pub open spec fn scopes_view(scopes: Seq<Scope>) -> Seq<ScopeView> {
    Seq::new(scopes.len(), |i: int| scopes[i]@)
}

impl View for Scope {
    type V = ScopeView;

    closed spec fn view(&self) -> ScopeView {
        ScopeView {
            vars: Map::new(
                |k: Seq<char>| self.declares(k),
                |k: Seq<char>| slot_view(self.values@[self.index_of(k)]),
            ),
            parent: match self.parent {
                Some(p) => Some(p as nat),
                None => None,
            },
        }
    }
}

impl Scope {
    /// Whether a slot holds `name`.
    spec fn declares(&self, name: Seq<char>) -> bool {
        exists|i: int| 0 <= i < self.names@.len() && self.names@[i]@ == name
    }

    /// A slot that holds `name`.
    spec fn index_of(&self, name: Seq<char>) -> int {
        choose|i: int| 0 <= i < self.names@.len() && self.names@[i]@ == name
    }

    /// Every name has one slot, and no name is held twice.
    pub closed spec fn wf(&self) -> bool {
        &&& self.names@.len() == self.values@.len()
        &&& forall|i: int, j: int|
            0 <= i < j < self.names@.len() ==> self.names@[i]@ != self.names@[j]@
    }

    /// A scope with no binding and no enclosing scope.
    pub fn new() -> (r: Self)
        ensures
            r.wf(),
            r@.vars == Map::<Seq<char>, Option<ValueView>>::empty(),
            r@.parent == None::<nat>,
    {
        let r = Scope { names: Vec::new(), values: Vec::new(), parent: None };
        assert(r@.vars =~= Map::<Seq<char>, Option<ValueView>>::empty());
        r
    }

    /// A scope with no binding, enclosed by the scope at index `parent`.
    pub fn new_child(parent: usize) -> (r: Self)
        ensures
            r.wf(),
            r@.vars == Map::<Seq<char>, Option<ValueView>>::empty(),
            r@.parent == Some(parent as nat),
    {
        let r = Scope { names: Vec::new(), values: Vec::new(), parent: Some(parent) };
        assert(r@.vars =~= Map::<Seq<char>, Option<ValueView>>::empty());
        r
    }

    /// The index of the enclosing scope.
    pub fn parent(&self) -> (r: Option<usize>)
        ensures
            match r {
                Some(p) => self@.parent == Some(p as nat),
                None => self@.parent == None::<nat>,
            },
    {
        self.parent
    }

    /// The slot of `name`, if this scope declares it.
    fn position(&self, name: &String) -> (r: Option<usize>)
        requires
            self.wf(),
        ensures
            match r {
                Some(i) => i < self.names@.len() && self.names@[i as int]@ == name@
                    && self.index_of(name@) == i && self.declares(name@),
                None => !self.declares(name@),
            },
    {
        let mut i: usize = 0;
        while i < self.names.len()
            invariant
                self.wf(),
                i <= self.names@.len(),
                forall|j: int| 0 <= j < i ==> self.names@[j]@ != name@,
            decreases self.names@.len() - i,
        {
            if self.names[i] == *name {
                proof {
                    let k = self.index_of(name@);
                    assert(self.names@[i as int]@ == name@);
                    assert(0 <= k < self.names@.len() && self.names@[k]@ == name@);
                    if k < i {
                        assert(self.names@[k]@ != self.names@[i as int]@);
                    }
                    if i < k {
                        assert(self.names@[i as int]@ != self.names@[k]@);
                    }
                }
                return Some(i);
            }
            i = i + 1;
        }
        None
    }

    /// Whether this scope itself declares `name`.
    pub fn contains(&self, name: &String) -> (r: bool)
        requires
            self.wf(),
        ensures
            r == self@.vars.contains_key(name@),
    {
        self.position(name).is_some()
    }

    /// The binding of `name` in this scope itself, if it declares one.
    pub fn get(&self, name: &String) -> (r: Option<&Option<Value>>)
        requires
            self.wf(),
        ensures
            match r {
                Some(slot) => self@.vars.contains_key(name@) && self@.vars[name@] == slot_view(
                    *slot,
                ),
                None => !self@.vars.contains_key(name@),
            },
    {
        match self.position(name) {
            Some(i) => Some(&self.values[i]),
            None => None,
        }
    }

    /// Binds `name` to `slot` in this scope, replacing an earlier binding of
    /// the same name.
    pub fn set(&mut self, name: String, slot: Option<Value>)
        requires
            old(self).wf(),
        ensures
            final(self).wf(),
            final(self)@.vars == old(self)@.vars.insert(name@, slot_view(slot)),
            final(self)@.parent == old(self)@.parent,
    {
        let ghost before = *self;
        match self.position(&name) {
            Some(i) => {
                self.values[i] = slot;
                proof {
                    assert forall|k: Seq<char>| self.declares(k) == before.declares(k) by {}
                    assert forall|k: Seq<char>| self.index_of(k) == before.index_of(k) by {}
                    assert(self@.vars =~= before@.vars.insert(name@, slot_view(slot)));
                }
            },
            None => {
                self.names.push(name);
                self.values.push(slot);
                proof {
                    let n = before.names@.len() as int;
                    assert(self.names@[n]@ == name@);
                    assert forall|k: Seq<char>| self.declares(k) == (before.declares(k) || k == name@) by {
                        if before.declares(k) {
                            let i = before.index_of(k);
                            assert(self.names@[i]@ == k);
                        }
                    }
                    assert forall|k: Seq<char>| before.declares(k) implies self.index_of(k)
                        == before.index_of(k) by {
                        let i = before.index_of(k);
                        assert(self.names@[i]@ == k);
                    }
                    assert(self@.vars =~= before@.vars.insert(name@, slot_view(slot)));
                }
            },
        }
    }
}

} // verus!
