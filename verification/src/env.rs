use crate::errors::{ErrVal, LispError};
use crate::lisp_type::{vals_seq, LispType, Val};
use crate::text::{str_eq, strs_view};
use vstd::prelude::*;
use vstd::string::StringExecFns;

verus! {

broadcast use vstd::std_specs::vec::group_vec_axioms;

/// One scope of the environment chain: a local mapping from symbol names to
/// values, plus the arena handle of the parent scope (absent for the root).
///
/// Scopes live in an arena (`Vec<Env>`); a handle is an index into it.  A
/// scope's parent always has a smaller handle, so chain lookup terminates.
pub struct Env {
    parent: Option<usize>,
    names: Vec<String>,
    values: Vec<LispType>,
}

/// The mathematical model of one scope.
pub struct ScopeVal {
    pub parent: Option<int>,
    pub vars: Map<Seq<char>, Val>,
}

/// The local mapping as a `Map`: later entries win, though a well-formed
/// scope never stores a name twice.
pub open spec fn scope_map(names: Seq<Seq<char>>, vals: Seq<Val>) -> Map<Seq<char>, Val>
    decreases names.len(),
{
    if names.len() == 0 || names.len() > vals.len() {
        Map::empty()
    } else {
        scope_map(names.drop_last(), vals.drop_last()).insert(names.last(), vals.last())
    }
}

impl Env {
    /// Well-formedness: the two columns line up and no name repeats.
    pub closed spec fn wf(self) -> bool {
        &&& self.names@.len() == self.values@.len()
        &&& forall|i: int, j: int|
            0 <= i < j < self.names@.len() ==> self.names@[i]@ != self.names@[j]@
    }
}

impl View for Env {
    type V = ScopeVal;

    closed spec fn view(&self) -> ScopeVal {
        ScopeVal {
            parent: match self.parent {
                Some(p) => Some(p as int),
                None => None,
            },
            vars: scope_map(strs_view(self.names@), vals_seq(self.values@)),
        }
    }
}

/// The model of a whole arena.
pub open spec fn arena_view(envs: Seq<Env>) -> Seq<ScopeVal> {
    Seq::new(envs.len(), |i: int| envs[i]@)
}

/// Arena well-formedness: every scope is well formed and every parent
/// handle points strictly downward.
pub open spec fn arena_ok(envs: Seq<Env>) -> bool {
    &&& forall|i: int| 0 <= i < envs.len() ==> (#[trigger] envs[i]).wf()
    &&& forall|i: int|
        0 <= i < envs.len() ==> ((#[trigger] envs[i])@.parent matches Some(p) ==> 0 <= p < i)
}

/// Lookup through the chain: the innermost scope holding the key wins; a
/// missing key walks to the parent; the root ends the walk.
pub open spec fn chain_find(arena: Seq<ScopeVal>, id: int, key: Seq<char>) -> Option<Val>
    decreases id,
{
    if id < 0 || id >= arena.len() {
        None
    } else if arena[id].vars.contains_key(key) {
        Some(arena[id].vars[key])
    } else {
        match arena[id].parent {
            Some(p) => if 0 <= p < id {
                chain_find(arena, p, key)
            } else {
                None
            },
            None => None,
        }
    }
}

/// With distinct names, the entry at `i` is in the map.
proof fn lemma_scope_map_lookup(names: Seq<Seq<char>>, vals: Seq<Val>, i: int)
    requires
        names.len() == vals.len(),
        0 <= i < names.len(),
        forall|a: int, b: int| 0 <= a < b < names.len() ==> names[a] != names[b],
    ensures
        scope_map(names, vals).contains_key(names[i]),
        scope_map(names, vals)[names[i]] == vals[i],
    decreases names.len(),
{
    let n = names.len() - 1;
    if i < n {
        lemma_scope_map_lookup(names.drop_last(), vals.drop_last(), i);
        assert(names[n] != names[i]);
    }
}

/// A key matching no name is not in the map.
proof fn lemma_scope_map_absent(names: Seq<Seq<char>>, vals: Seq<Val>, key: Seq<char>)
    requires
        names.len() == vals.len(),
        forall|a: int| 0 <= a < names.len() ==> names[a] != key,
    ensures
        !scope_map(names, vals).contains_key(key),
    decreases names.len(),
{
    if names.len() > 0 {
        lemma_scope_map_absent(names.drop_last(), vals.drop_last(), key);
    }
}

/// Overwriting the value at `i` is `insert` of that entry's name.
proof fn lemma_scope_map_replace(names: Seq<Seq<char>>, vals: Seq<Val>, i: int, v: Val)
    requires
        names.len() == vals.len(),
        0 <= i < names.len(),
        forall|a: int, b: int| 0 <= a < b < names.len() ==> names[a] != names[b],
    ensures
        scope_map(names, vals.update(i, v)) == scope_map(names, vals).insert(names[i], v),
    decreases names.len(),
{
    let n = names.len() - 1;
    let upd = vals.update(i, v);
    if i == n {
        assert(upd.drop_last() =~= vals.drop_last());
        assert(scope_map(names, upd) =~= scope_map(names, vals).insert(names[i], v));
    } else {
        lemma_scope_map_replace(names.drop_last(), vals.drop_last(), i, v);
        assert(upd.drop_last() =~= vals.drop_last().update(i, v));
        assert(names[n] != names[i]);
        assert(scope_map(names, upd) =~= scope_map(names, vals).insert(names[i], v));
    }
}

impl Env {
    /// An empty scope chained to `parent`; an absent parent makes a root.
    pub fn new(parent: Option<usize>) -> (e: Env)
        ensures
            e.wf(),
            e@.vars == Map::<Seq<char>, Val>::empty(),
            e@.parent == match parent {
                Some(p) => Some(p as int),
                None => None::<int>,
            },
    {
        Env { parent, names: Vec::new(), values: Vec::new() }
    }

    /// Binds `key` in this scope alone, inserting or overwriting; never
    /// touches an ancestor.
    pub fn set(&mut self, key: &str, value: LispType)
        requires
            old(self).wf(),
        ensures
            final(self).wf(),
            final(self)@.parent == old(self)@.parent,
            final(self)@.vars == old(self)@.vars.insert(key@, value@),
    {
        let ghost old_names = strs_view(self.names@);
        let ghost old_vals = vals_seq(self.values@);
        let mut i: usize = 0;
        while i < self.names.len()
            invariant
                self.wf(),
                *self == *old(self),
                old_names == strs_view(self.names@),
                old_vals == vals_seq(self.values@),
                i <= self.names@.len(),
                forall|j: int| 0 <= j < i ==> self.names@[j]@ != key@,
            decreases self.names@.len() - i,
        {
            if str_eq(self.names[i].as_str(), key) {
                self.values.set(i, value);
                proof {
                    assert(vals_seq(self.values@) =~= old_vals.update(i as int, value@));
                    lemma_scope_map_replace(old_names, old_vals, i as int, value@);
                    assert(old_names[i as int] == key@);
                }
                return ;
            }
            i = i + 1;
        }
        self.names.push(key.to_owned());
        self.values.push(value);
        proof {
            assert(strs_view(self.names@).drop_last() =~= old_names);
            assert(vals_seq(self.values@).drop_last() =~= old_vals);
            assert(strs_view(self.names@).last() == key@);
            assert(vals_seq(self.values@).last() == value@);
        }
    }

    /// The value bound to `key` in this scope alone.
    fn local_find(&self, key: &str) -> (r: Option<LispType>)
        requires
            self.wf(),
        ensures
            match r {
                Some(v) => self@.vars.contains_key(key@) && v@ == self@.vars[key@],
                None => !self@.vars.contains_key(key@),
            },
    {
        let mut i: usize = 0;
        while i < self.names.len()
            invariant
                self.wf(),
                i <= self.names@.len(),
                forall|j: int| 0 <= j < i ==> self.names@[j]@ != key@,
            decreases self.names@.len() - i,
        {
            if str_eq(self.names[i].as_str(), key) {
                let v = self.values[i].clone();
                proof {
                    lemma_scope_map_lookup(
                        strs_view(self.names@),
                        vals_seq(self.values@),
                        i as int,
                    );
                }
                return Some(v);
            }
            i = i + 1;
        }
        proof {
            lemma_scope_map_absent(strs_view(self.names@), vals_seq(self.values@), key@);
        }
        None
    }

    /// Chain lookup: this scope first, then the parents, innermost match
    /// wins; `None` only when no scope in the chain holds the key.
    pub fn find(envs: &Vec<Env>, id: usize, key: &str) -> (r: Option<LispType>)
        requires
            arena_ok(envs@),
            id < envs@.len(),
        ensures
            match r {
                Some(v) => chain_find(arena_view(envs@), id as int, key@) == Some(v@),
                None => chain_find(arena_view(envs@), id as int, key@) is None,
            },
        decreases id,
    {
        let local = envs[id].local_find(key);
        match local {
            Some(v) => Some(v),
            None => {
                match envs[id].parent {
                    Some(p) => Env::find(envs, p, key),
                    None => None,
                }
            }
        }
    }

    /// Chain lookup that fails with `SymbolNotFound` on a missing key.
    pub fn get(envs: &Vec<Env>, id: usize, key: &str) -> (r: Result<LispType, LispError>)
        requires
            arena_ok(envs@),
            id < envs@.len(),
        ensures
            match r {
                Ok(v) => chain_find(arena_view(envs@), id as int, key@) == Some(v@),
                Err(e) => chain_find(arena_view(envs@), id as int, key@) is None && e@
                    == ErrVal::SymbolNotFound(key@),
            },
    {
        match Env::find(envs, id, key) {
            Some(v) => Ok(v),
            None => Err(LispError::SymbolNotFound(key.to_owned())),
        }
    }
}

/// Appends a fresh scope whose parent is `parent`; returns its handle.
pub fn push_scope(envs: &mut Vec<Env>, parent: usize) -> (id: usize)
    requires
        arena_ok(old(envs)@),
        parent < old(envs)@.len(),
    ensures
        arena_ok(final(envs)@),
        id == old(envs)@.len(),
        final(envs)@.len() == old(envs)@.len() + 1,
        arena_view(final(envs)@) =~= arena_view(old(envs)@).push(
            ScopeVal { parent: Some(parent as int), vars: Map::empty() },
        ),
{
    let id = envs.len();
    envs.push(Env::new(Some(parent)));
    proof {
        assert(forall|i: int|
            0 <= i < old(envs)@.len() ==> final(envs)@[i] == #[trigger] old(envs)@[i]);
    }
    id
}

/// A one-scope arena holding only a fresh root; returns it and the root's
/// handle.
pub fn root_arena() -> (r: (Vec<Env>, usize))
    ensures
        arena_ok(r.0@),
        r.0@.len() == 1,
        r.1 == 0,
        arena_view(r.0@) =~= seq![ScopeVal { parent: None, vars: Map::empty() }],
{
    let mut envs: Vec<Env> = Vec::new();
    envs.push(Env::new(None));
    (envs, 0)
}

} // verus!
