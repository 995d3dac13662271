use crate::value::{LoxValue, SpecValue};
use vstd::hash_map::StringHashMap;
use vstd::prelude::*;

verus! {

/// The variables of one scope as a mathematical value.
pub type Bindings = Map<Seq<char>, SpecValue>;

/// The index of the innermost scope that binds `name`, if one does. The
/// innermost scope is the last.
pub open spec fn binding_scope(scopes: Seq<Bindings>, name: Seq<char>) -> Option<int>
    decreases scopes.len(),
{
    if scopes.len() == 0 {
        None
    } else if scopes.last().contains_key(name) {
        Some(scopes.len() - 1)
    } else {
        binding_scope(scopes.drop_last(), name)
    }
}

/// The value of `name`: that of its innermost binding.
pub open spec fn lookup(scopes: Seq<Bindings>, name: Seq<char>) -> Option<SpecValue> {
    match binding_scope(scopes, name) {
        Some(i) => Some(scopes[i][name]),
        None => None,
    }
}

/// The scopes after `name` is declared with `value` in the innermost one.
pub open spec fn declare(scopes: Seq<Bindings>, name: Seq<char>, value: SpecValue) -> Seq<Bindings> {
    scopes.update(scopes.len() - 1, scopes.last().insert(name, value))
}

/// The scopes after `value` is assigned to the innermost binding of `name`,
/// if there is one.
pub open spec fn assign(scopes: Seq<Bindings>, name: Seq<char>, value: SpecValue) -> Option<
    Seq<Bindings>,
> {
    match binding_scope(scopes, name) {
        Some(i) => Some(scopes.update(i, scopes[i].insert(name, value))),
        None => None,
    }
}

/// The innermost binding is in a scope that binds the name, and no scope
/// inside that one does.
pub proof fn lemma_binding_scope(scopes: Seq<Bindings>, name: Seq<char>)
    ensures
        match binding_scope(scopes, name) {
            Some(i) => 0 <= i < scopes.len() && scopes[i].contains_key(name) && forall|j: int|
                i < j < scopes.len() ==> !(#[trigger] scopes[j]).contains_key(name),
            None => forall|j: int| 0 <= j < scopes.len() ==> !(#[trigger] scopes[j]).contains_key(name),
        },
    decreases scopes.len(),
{
    if scopes.len() > 0 && !scopes.last().contains_key(name) {
        lemma_binding_scope(scopes.drop_last(), name);
        assert forall|j: int| 0 <= j < scopes.len() - 1 implies scopes[j] == scopes.drop_last()[j] by {}
    }
}

/// The scope `i` holds the innermost binding of `name` if it binds the name
/// and no scope inside it does.
pub proof fn lemma_binding_scope_is(scopes: Seq<Bindings>, name: Seq<char>, i: int)
    requires
        0 <= i < scopes.len(),
        scopes[i].contains_key(name),
        forall|j: int| i < j < scopes.len() ==> !(#[trigger] scopes[j]).contains_key(name),
    ensures
        binding_scope(scopes, name) == Some(i),
{
    lemma_binding_scope(scopes, name);
}

/// The variables of one scope.
pub struct Environment {
    map: StringHashMap<LoxValue>,
}

impl View for Environment {
    type V = Bindings;

    closed spec fn view(&self) -> Bindings {
        self.map@.map_values(|v: LoxValue| v@)
    }
}

impl Environment {
    /// A scope that binds nothing.
    pub fn new() -> (r: Environment)
        ensures
            r@ == Map::<Seq<char>, SpecValue>::empty(),
    {
        let r = Environment { map: StringHashMap::new() };
        assert(r@ =~= Map::<Seq<char>, SpecValue>::empty());
        r
    }

    /// Binds `name` to `val`, whether or not the scope binds it already.
    pub fn declare_var(&mut self, name: &str, val: LoxValue)
        ensures
            final(self)@ == old(self)@.insert(name@, val@),
    {
        self.map.insert(name.to_owned(), val);
        assert(self@ =~= old(self)@.insert(name@, val@));
    }

    /// The value that the scope binds `name` to.
    pub fn get_var(&self, name: &str) -> (r: Result<LoxValue, ()>)
        ensures
            r is Ok == self@.contains_key(name@),
            r matches Ok(v) ==> v@ == self@[name@],
    {
        match self.map.get(name) {
            Some(v) => Ok(v.clone()),
            None => Err(()),
        }
    }

    /// Binds `name` to `val` if the scope binds it already, and gives `val`
    /// back; fails, and changes nothing, if it does not.
    pub fn set_var(&mut self, name: &str, val: LoxValue) -> (r: Result<LoxValue, ()>)
        ensures
            r is Ok == old(self)@.contains_key(name@),
            r matches Ok(v) ==> v@ == val@ && final(self)@ == old(self)@.insert(name@, val@),
            r is Err ==> final(self)@ == old(self)@,
    {
        if self.map.contains_key(name) {
            self.map.insert(name.to_owned(), val.clone());
            assert(self@ =~= old(self)@.insert(name@, val@));
            Ok(val)
        } else {
            Err(())
        }
    }
}

/// The views of a sequence of scopes, in order.
pub open spec fn scope_views(scopes: Seq<Environment>) -> Seq<Bindings> {
    scopes.map_values(|e: Environment| e@)
}

/// The chain of scopes, the innermost last. The first is the global scope,
/// which is never removed.
pub struct EnvironmentList {
    env_list: Vec<Environment>,
}

impl View for EnvironmentList {
    type V = Seq<Bindings>;

    closed spec fn view(&self) -> Seq<Bindings> {
        scope_views(self.env_list@)
    }
}

impl EnvironmentList {
    /// The chain holds the global scope.
    pub open spec fn wf(&self) -> bool {
        self@.len() >= 1
    }

    /// The chain with the global scope alone, which binds nothing.
    pub fn new() -> (r: EnvironmentList)
        ensures
            r.wf(),
            r@ == seq![Map::<Seq<char>, SpecValue>::empty()],
    {
        let mut env_list: Vec<Environment> = Vec::new();
        env_list.push(Environment::new());
        let r = EnvironmentList { env_list };
        assert(r@ =~= seq![Map::<Seq<char>, SpecValue>::empty()]);
        r
    }

    /// Binds `name` to `val` in the innermost scope.
    pub fn declare_var(&mut self, name: &str, val: LoxValue)
        requires
            old(self).wf(),
        ensures
            final(self).wf(),
            final(self)@.len() == old(self)@.len(),
            final(self)@ == declare(old(self)@, name@, val@),
    {
        self.last_env_mut().declare_var(name, val);
        assert(self@ =~= declare(old(self)@, name@, val@));
    }

    /// The innermost scope.
    fn last_env_mut(&mut self) -> (r: &mut Environment)
        requires
            old(self).wf(),
        ensures
            *r == old(self).env_list@.last(),
            final(self).env_list@ == old(self).env_list@.update(old(self).env_list@.len() - 1, *final(r)),
    {
        let n = self.env_list.len();
        &mut self.env_list[n - 1]
    }

    /// The value of the innermost binding of `name`.
    pub fn get_var(&self, name: &str) -> (r: Result<LoxValue, ()>)
        ensures
            r is Ok == lookup(self@, name@) is Some,
            r matches Ok(v) ==> Some(v@) == lookup(self@, name@),
    {
        let mut i = self.env_list.len();
        while i > 0
            invariant
                i <= self.env_list@.len(),
                forall|j: int| i <= j < self@.len() ==> !(#[trigger] self@[j]).contains_key(name@),
            decreases i,
        {
            i -= 1;
            let value = self.env_list[i].get_var(name);
            if value.is_ok() {
                proof {
                    lemma_binding_scope_is(self@, name@, i as int);
                }
                return value;
            }
        }
        proof {
            lemma_binding_scope(self@, name@);
        }
        Err(())
    }

    /// Binds the innermost binding of `name` to `val` and gives `val` back;
    /// fails, and changes nothing, if no scope binds `name`.
    pub fn set_var(&mut self, name: &str, val: LoxValue) -> (r: Result<LoxValue, ()>)
        requires
            old(self).wf(),
        ensures
            final(self).wf(),
            final(self)@.len() == old(self)@.len(),
            r is Ok == assign(old(self)@, name@, val@) is Some,
            r matches Ok(v) ==> v@ == val@ && Some(final(self)@) == assign(old(self)@, name@, val@),
            r is Err ==> final(self)@ == old(self)@,
    {
        let mut i = self.env_list.len();
        while i > 0
            invariant
                i <= self.env_list@.len(),
                self@ == old(self)@,
                forall|j: int| i <= j < self@.len() ==> !(#[trigger] self@[j]).contains_key(name@),
            decreases i,
        {
            i -= 1;
            let value = self.env_list[i].set_var(name, val.clone());
            if value.is_ok() {
                proof {
                    lemma_binding_scope_is(old(self)@, name@, i as int);
                    assert(self@ =~= old(self)@.update(i as int, old(self)@[i as int].insert(name@, val@)));
                }
                return value;
            }
            assert(self@ =~= old(self)@);
        }
        proof {
            lemma_binding_scope(self@, name@);
        }
        Err(())
    }

    /// Opens a scope, which binds nothing, inside the innermost one.
    pub fn push_new_env(&mut self)
        requires
            old(self).wf(),
        ensures
            final(self).wf(),
            final(self)@ == old(self)@.push(Map::<Seq<char>, SpecValue>::empty()),
    {
        self.env_list.push(Environment::new());
        assert(self@ =~= old(self)@.push(Map::<Seq<char>, SpecValue>::empty()));
    }

    /// Closes the innermost scope. The global scope cannot be closed.
    pub fn pop_env(&mut self)
        requires
            old(self)@.len() >= 2,
        ensures
            final(self).wf(),
            final(self)@ == old(self)@.drop_last(),
    {
        self.env_list.pop();
        assert(self@ =~= old(self)@.drop_last());
    }

    /// The number of scopes.
    pub fn depth(&self) -> (r: usize)
        ensures
            r == self@.len(),
    {
        self.env_list.len()
    }
}

} // verus!
