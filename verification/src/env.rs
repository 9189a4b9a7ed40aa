//! The type environment: the registry in which a type identity finds the
//! type that was registered under it.

use crate::types::{Type, TypeId, TypeView};
use std::collections::HashMap;
use vstd::prelude::*;
use vstd::std_specs::hash::*;

verus! {

broadcast use vstd::std_specs::hash::group_hash_axioms;

/// A registry from type identities to types. It starts empty and only
/// grows: an entry can be overwritten, never removed.
#[derive(Debug)]
pub struct TypeEnv {
    map: HashMap<usize, Type>,
}

impl View for TypeEnv {
    type V = Map<TypeId, TypeView>;

    closed spec fn view(&self) -> Map<TypeId, TypeView> {
        Map::new(
            |id: TypeId| self.map@.contains_key(id.id),
            |id: TypeId| self.map@[id.id]@,
        )
    }
}

/// What a registry with the entries `env` answers when asked for `id`.
pub open spec fn lookup(env: Map<TypeId, TypeView>, id: TypeId) -> Option<TypeView> {
    if env.contains_key(id) {
        Some(env[id])
    } else {
        None
    }
}

/// The text that `{:?}` gives for `map`. The order of its entries is the
/// order in which the map is walked, so nothing is claimed of the text.
#[verifier::external_body]
fn debug_string(map: &HashMap<usize, Type>) -> String {
    format!("{:?}", map)
}

impl TypeEnv {
    /// The empty registry.
    pub fn new() -> (env: TypeEnv)
        ensures
            env@ == Map::<TypeId, TypeView>::empty(),
    {
        let env = TypeEnv { map: HashMap::new() };
        assert(env@ =~= Map::<TypeId, TypeView>::empty());
        env
    }

    /// A registry holds finitely many entries.
    pub proof fn lemma_finite(&self)
        ensures
            self@.dom().finite(),
    {
        let keys = self.map@.dom();
        let ids = keys.map(|k: usize| TypeId { id: k });
        keys.lemma_map_finite(|k: usize| TypeId { id: k });
        assert(self@.dom() =~= ids) by {
            assert forall|id: TypeId| self@.dom().contains(id) implies ids.contains(id) by {
                assert(keys.contains(id.id));
                assert(TypeId { id: id.id } == id);
            }
        }
    }
}

/// Looks up the type registered under `id` and returns a copy of it. An
/// identity that was never registered gives `None`: that is an ordinary
/// answer and no failure.
pub fn find_type(env: &TypeEnv, id: TypeId) -> (r: Option<Type>)
    ensures
        match r {
            Some(t) => lookup(env@, id) == Some(t@),
            None => lookup(env@, id) is None,
        },
{
    match env.map.get(&id.id) {
        None => None,
        Some(t) => Some(t.clone()),
    }
}

/// Registers `t` under `id`. A type registered under `id` before is
/// replaced; every other entry stays as it is.
pub fn env_add(env: &mut TypeEnv, id: TypeId, t: Type)
    ensures
        final(env)@ == old(env)@.insert(id, t@),
{
    let _ = env.map.insert(id.id, t);
    assert(env@ =~= old(env)@.insert(id, t@));
}

/// A rendering of every entry of `env` for diagnostics. Its wording and the
/// order of the entries are not fixed.
pub fn show_env(env: &TypeEnv) -> String {
    debug_string(&env.map)
}

/// The entries of a registry that started empty and took the insertions
/// `ops`, the first of them first.
pub open spec fn registered(ops: Seq<(TypeId, TypeView)>) -> Map<TypeId, TypeView>
    decreases ops.len(),
{
    if ops.len() == 0 {
        Map::empty()
    } else {
        registered(ops.drop_last()).insert(ops.last().0, ops.last().1)
    }
}

/// A lookup right after an insertion under the same identity gives the type
/// that was inserted, whatever was registered before; after a second
/// insertion under that identity it gives the second type.
pub proof fn lemma_lookup_after_insert(
    env: Map<TypeId, TypeView>,
    id: TypeId,
    t: TypeView,
    t2: TypeView,
)
    ensures
        lookup(env.insert(id, t), id) == Some(t),
        lookup(env.insert(id, t).insert(id, t2), id) == Some(t2),
{
}

/// An insertion under one identity does not change what a lookup of another
/// identity gives.
pub proof fn lemma_lookup_other(env: Map<TypeId, TypeView>, id: TypeId, other: TypeId, t: TypeView)
    requires
        id != other,
    ensures
        lookup(env.insert(other, t), id) == lookup(env, id),
{
}

/// An identity under which nothing was ever inserted is absent.
pub proof fn lemma_never_inserted(ops: Seq<(TypeId, TypeView)>, id: TypeId)
    requires
        forall|i: int| 0 <= i < ops.len() ==> (#[trigger] ops[i]).0 != id,
    ensures
        lookup(registered(ops), id) is None,
    decreases ops.len(),
{
    if ops.len() > 0 {
        assert(ops.last().0 != id);
        assert forall|i: int| 0 <= i < ops.drop_last().len() implies (#[trigger] ops.drop_last()[i]).0
            != id by {
            assert(ops.drop_last()[i] == ops[i]);
        }
        lemma_never_inserted(ops.drop_last(), id);
    }
}

/// A lookup gives the type of the last insertion under its identity: the
/// insertion at `i`, where none after `i` is under `id`.
pub proof fn lemma_last_insert_wins(ops: Seq<(TypeId, TypeView)>, id: TypeId, i: int)
    requires
        0 <= i < ops.len(),
        ops[i].0 == id,
        forall|j: int| i < j < ops.len() ==> (#[trigger] ops[j]).0 != id,
    ensures
        lookup(registered(ops), id) == Some(ops[i].1),
    decreases ops.len(),
{
    if i < ops.len() - 1 {
        assert(ops.last().0 != id);
        assert(ops.drop_last()[i] == ops[i]);
        assert forall|j: int| i < j < ops.drop_last().len() implies (#[trigger] ops.drop_last()[j]).0
            != id by {
            assert(ops.drop_last()[j] == ops[j]);
        }
        lemma_last_insert_wins(ops.drop_last(), id, i);
    }
}

} // verus!
