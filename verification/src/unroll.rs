//! Resolution of indirection nodes through a type environment.
//!
//! An indirection node `Knot(id)` stands for the type registered under `id`.
//! Unrolling replaces each node by that type, unrolled in turn. A type that
//! refers to itself would be unrolled for ever, so an identity is expanded
//! at most once on the way from the root to a node: where a node names an
//! identity that is being expanded already, it is replaced by the registered
//! type as it stands, and the indirection nodes in that copy stay.

use crate::env::{find_type, TypeEnv};
use crate::types::{Field, FieldView, Type, TypeId, TypeView};
use vstd::prelude::*;

verus! {

/// Expanding one more identity leaves fewer identities to expand.
pub proof fn lemma_fewer_to_expand(env: Map<TypeId, TypeView>, visited: Set<TypeId>, id: TypeId)
    requires
        env.dom().finite(),
        env.contains_key(id),
        !visited.contains(id),
    ensures
        env.dom().difference(visited.insert(id)).len() < env.dom().difference(visited).len(),
{
    let before = env.dom().difference(visited);
    let after = env.dom().difference(visited.insert(id));
    assert(before.finite());
    assert(before.contains(id));
    assert(after =~= before.remove(id));
}

/// Whether `t` can be unrolled in `env` while the identities in `visited`
/// are being expanded: every indirection node that is met names a registered
/// identity, and the placeholder `Unknown` is never met.
pub open spec fn resolvable(env: Map<TypeId, TypeView>, visited: Set<TypeId>, t: TypeView) -> bool
    decreases env.dom().difference(visited).len(), t,
    when env.dom().finite()
{
    match t {
        TypeView::Unknown => false,
        TypeView::Knot(id) => env.contains_key(id) && (visited.contains(id) || {
            proof {
                lemma_fewer_to_expand(env, visited, id);
            }
            resolvable(env, visited.insert(id), env[id])
        }),
        TypeView::Opt(inner) => resolvable(env, visited, *inner),
        TypeView::Vec(inner) => resolvable(env, visited, *inner),
        TypeView::Record(fs) => fields_resolvable(env, visited, fs),
        TypeView::Variant(fs) => fields_resolvable(env, visited, fs),
        _ => true,
    }
}

/// Whether the type of every field in `fs` can be unrolled.
pub open spec fn fields_resolvable(
    env: Map<TypeId, TypeView>,
    visited: Set<TypeId>,
    fs: Seq<FieldView>,
) -> bool
    decreases env.dom().difference(visited).len(), fs,
    when env.dom().finite()
{
    forall|i: int| 0 <= i < fs.len() ==> resolvable(env, visited, (#[trigger] fs[i]).ty)
}

/// The type that `t` unrolls to in `env` while the identities in `visited`
/// are being expanded.
pub open spec fn unrolled(env: Map<TypeId, TypeView>, visited: Set<TypeId>, t: TypeView) -> TypeView
    decreases env.dom().difference(visited).len(), t,
    when env.dom().finite()
{
    match t {
        TypeView::Knot(id) => if !env.contains_key(id) {
            t
        } else if visited.contains(id) {
            env[id]
        } else {
            proof {
                lemma_fewer_to_expand(env, visited, id);
            }
            unrolled(env, visited.insert(id), env[id])
        },
        TypeView::Opt(inner) => TypeView::Opt(Box::new(unrolled(env, visited, *inner))),
        TypeView::Vec(inner) => TypeView::Vec(Box::new(unrolled(env, visited, *inner))),
        TypeView::Record(fs) => TypeView::Record(unrolled_fields(env, visited, fs)),
        TypeView::Variant(fs) => TypeView::Variant(unrolled_fields(env, visited, fs)),
        _ => t,
    }
}

/// The fields `fs` with the type of each unrolled; labels and hashes stay.
pub open spec fn unrolled_fields(
    env: Map<TypeId, TypeView>,
    visited: Set<TypeId>,
    fs: Seq<FieldView>,
) -> Seq<FieldView>
    decreases env.dom().difference(visited).len(), fs,
    when env.dom().finite()
{
    Seq::new(
        fs.len(),
        |i: int|
            if 0 <= i < fs.len() {
                FieldView { id: fs[i].id, hash: fs[i].hash, ty: unrolled(env, visited, fs[i].ty) }
            } else {
                arbitrary()
            },
    )
}

/// Whether `t` can be unrolled in `env`, starting with no identity expanded.
pub open spec fn resolves(env: Map<TypeId, TypeView>, t: TypeView) -> bool {
    resolvable(env, Set::empty(), t)
}

/// The type that `t` unrolls to in `env`, starting with no identity expanded.
pub open spec fn unroll_of(env: Map<TypeId, TypeView>, t: TypeView) -> TypeView {
    unrolled(env, Set::empty(), t)
}

/// The elements of a sequence with one more at its end are the elements of
/// the sequence and that one.
proof fn lemma_push_to_set(s: Seq<TypeId>, id: TypeId)
    ensures
        s.push(id).to_set() == s.to_set().insert(id),
{
    assert forall|x: TypeId| s.to_set().insert(id).contains(x) implies s.push(id).to_set().contains(
        x,
    ) by {
        if x == id {
            assert(s.push(id)[s.len() as int] == x);
        } else {
            let j = choose|j: int| 0 <= j < s.len() && s[j] == x;
            assert(s.push(id)[j] == x);
        }
    }
    assert(s.push(id).to_set() =~= s.to_set().insert(id));
}

/// Whether `id` is among the identities in `path`.
fn on_path(path: &Vec<TypeId>, id: TypeId) -> (r: bool)
    ensures
        r == path@.to_set().contains(id),
{
    let mut i: usize = 0;
    while i < path.len()
        invariant
            i <= path.len(),
            forall|j: int| 0 <= j < i ==> path@[j] != id,
        decreases path.len() - i,
    {
        if path[i] == id {
            assert(path@.contains(id));
            return true;
        }
        i += 1;
    }
    assert(!path@.contains(id));
    false
}

/// Unrolls `t` while the identities in `path` are being expanded. `path` is
/// used as a stack and comes back as it was.
fn unroll_within(env: &TypeEnv, path: &mut Vec<TypeId>, t: &Type) -> (r: Option<Type>)
    ensures
        final(path)@ == old(path)@,
        r is Some <==> resolvable(env@, old(path)@.to_set(), t@),
        r matches Some(u) ==> u@ == unrolled(env@, old(path)@.to_set(), t@),
    decreases env@.dom().difference(old(path)@.to_set()).len(), t,
{
    proof {
        env.lemma_finite();
    }
    match t {
        Type::Unknown => None,
        Type::Knot(id) => {
            match find_type(env, *id) {
                None => None,
                Some(found) => {
                    if on_path(path, *id) {
                        Some(found)
                    } else {
                        proof {
                            lemma_fewer_to_expand(env@, path@.to_set(), *id);
                        }
                        path.push(*id);
                        proof {
                            lemma_push_to_set(old(path)@, *id);
                        }
                        let r = unroll_within(env, path, &found);
                        let _ = path.pop();
                        assert(path@ =~= old(path)@);
                        r
                    }
                },
            }
        },
        Type::Opt(inner) => {
            match unroll_within(env, path, inner) {
                Some(u) => Some(Type::Opt(Box::new(u))),
                None => None,
            }
        },
        Type::Vec(inner) => {
            match unroll_within(env, path, inner) {
                Some(u) => Some(Type::Vec(Box::new(u))),
                None => None,
            }
        },
        Type::Record(fs) => {
            match unroll_fields(env, path, fs) {
                Some(out) => Some(Type::Record(out)),
                None => None,
            }
        },
        Type::Variant(fs) => {
            match unroll_fields(env, path, fs) {
                Some(out) => Some(Type::Variant(out)),
                None => None,
            }
        },
        _ => Some(t.clone()),
    }
}

/// Unrolls the type of each field in `fs`, in order, and stops at the first
/// that cannot be unrolled.
fn unroll_fields(env: &TypeEnv, path: &mut Vec<TypeId>, fs: &Vec<Field>) -> (r: Option<Vec<Field>>)
    ensures
        final(path)@ == old(path)@,
        r is Some <==> fields_resolvable(env@, old(path)@.to_set(), Field::models(fs@)),
        r matches Some(out) ==> Field::models(out@) == unrolled_fields(
            env@,
            old(path)@.to_set(),
            Field::models(fs@),
        ),
    decreases env@.dom().difference(old(path)@.to_set()).len(), fs,
{
    proof {
        env.lemma_finite();
    }
    let ghost visited = path@.to_set();
    let ghost models = Field::models(fs@);
    let mut out: Vec<Field> = Vec::new();
    let mut i: usize = 0;
    while i < fs.len()
        invariant
            i <= fs.len(),
            out.len() == i,
            path@ == old(path)@,
            visited == old(path)@.to_set(),
            models == Field::models(fs@),
            env@.dom().finite(),
            forall|j: int| 0 <= j < i ==> resolvable(env@, visited, (#[trigger] models[j]).ty),
            forall|j: int|
                0 <= j < i ==> (#[trigger] out@[j]).model() == (FieldView {
                    id: models[j].id,
                    hash: models[j].hash,
                    ty: unrolled(env@, visited, models[j].ty),
                }),
        decreases fs.len() - i,
    {
        let f = &fs[i];
        assert(models[i as int] == f.model());
        match unroll_within(env, path, &f.ty) {
            None => {
                assert(!resolvable(env@, visited, models[i as int].ty));
                return None;
            },
            Some(ty) => {
                out.push(Field { id: f.id.clone(), hash: f.hash, ty });
            },
        }
        i += 1;
    }
    assert(Field::models(out@) =~= unrolled_fields(env@, visited, models));
    Some(out)
}

/// Unrolls `t` in `env`, or tells that it cannot be unrolled: `None` comes
/// back exactly where an indirection node that is met names no registered
/// identity, or the placeholder `Unknown` is met.
pub fn try_unroll(env: &TypeEnv, t: &Type) -> (r: Option<Type>)
    ensures
        r is Some <==> resolves(env@, t@),
        r matches Some(u) ==> u@ == unroll_of(env@, t@),
{
    let mut path: Vec<TypeId> = Vec::new();
    assert(path@.to_set() =~= Set::<TypeId>::empty());
    unroll_within(env, &mut path, t)
}

/// Unrolls `t` in `env`: every indirection node is replaced by the type
/// registered under its identity, unrolled in turn; atomic leaves are copied.
/// Every identity that is met must be registered, and `Unknown` may not
/// occur where the unrolling passes.
pub fn unroll(env: &TypeEnv, t: &Type) -> (r: Type)
    requires
        resolves(env@, t@),
    ensures
        r@ == unroll_of(env@, t@),
{
    try_unroll(env, t).unwrap()
}

/// Unrolling a type without indirection nodes gives the type itself, in
/// every environment.
pub proof fn lemma_unroll_knot_free(env: Map<TypeId, TypeView>, visited: Set<TypeId>, t: TypeView)
    requires
        env.dom().finite(),
        t.knot_free(),
    ensures
        unrolled(env, visited, t) == t,
    decreases t,
{
    match t {
        TypeView::Opt(inner) => {
            lemma_unroll_knot_free(env, visited, *inner);
        },
        TypeView::Vec(inner) => {
            lemma_unroll_knot_free(env, visited, *inner);
        },
        TypeView::Record(fs) => {
            lemma_unroll_fields_knot_free(env, visited, fs);
        },
        TypeView::Variant(fs) => {
            lemma_unroll_fields_knot_free(env, visited, fs);
        },
        _ => {},
    }
}

/// Unrolling fields whose types hold no indirection node gives the fields
/// themselves.
pub proof fn lemma_unroll_fields_knot_free(
    env: Map<TypeId, TypeView>,
    visited: Set<TypeId>,
    fs: Seq<FieldView>,
)
    requires
        env.dom().finite(),
        forall|i: int| 0 <= i < fs.len() ==> (#[trigger] fs[i]).ty.knot_free(),
    ensures
        unrolled_fields(env, visited, fs) == fs,
    decreases fs,
{
    assert forall|i: int| 0 <= i < fs.len() implies unrolled_fields(env, visited, fs)[i]
        == fs[i] by {
        lemma_unroll_knot_free(env, visited, fs[i].ty);
    }
    assert(unrolled_fields(env, visited, fs) =~= fs);
}

/// A finished type without indirection nodes can be unrolled in every
/// environment.
pub proof fn lemma_knot_free_resolvable(
    env: Map<TypeId, TypeView>,
    visited: Set<TypeId>,
    t: TypeView,
)
    requires
        env.dom().finite(),
        t.knot_free(),
        t.finished(),
    ensures
        resolvable(env, visited, t),
    decreases t,
{
    match t {
        TypeView::Opt(inner) => {
            lemma_knot_free_resolvable(env, visited, *inner);
        },
        TypeView::Vec(inner) => {
            lemma_knot_free_resolvable(env, visited, *inner);
        },
        TypeView::Record(fs) => {
            assert forall|i: int| 0 <= i < fs.len() implies resolvable(
                env,
                visited,
                (#[trigger] fs[i]).ty,
            ) by {
                lemma_knot_free_resolvable(env, visited, fs[i].ty);
            }
            assert(fields_resolvable(env, visited, fs));
        },
        TypeView::Variant(fs) => {
            assert forall|i: int| 0 <= i < fs.len() implies resolvable(
                env,
                visited,
                (#[trigger] fs[i]).ty,
            ) by {
                lemma_knot_free_resolvable(env, visited, fs[i].ty);
            }
            assert(fields_resolvable(env, visited, fs));
        },
        _ => {},
    }
}

/// Whether unrolling `t` meets no cycle: every indirection node that is met
/// names a registered identity that is not being expanded, and `Unknown` is
/// never met.
pub open spec fn acyclic(env: Map<TypeId, TypeView>, visited: Set<TypeId>, t: TypeView) -> bool
    decreases env.dom().difference(visited).len(), t,
    when env.dom().finite()
{
    match t {
        TypeView::Unknown => false,
        TypeView::Knot(id) => env.contains_key(id) && !visited.contains(id) && {
            proof {
                lemma_fewer_to_expand(env, visited, id);
            }
            acyclic(env, visited.insert(id), env[id])
        },
        TypeView::Opt(inner) => acyclic(env, visited, *inner),
        TypeView::Vec(inner) => acyclic(env, visited, *inner),
        TypeView::Record(fs) => fields_acyclic(env, visited, fs),
        TypeView::Variant(fs) => fields_acyclic(env, visited, fs),
        _ => true,
    }
}

/// Whether unrolling the type of any field in `fs` meets no cycle.
pub open spec fn fields_acyclic(
    env: Map<TypeId, TypeView>,
    visited: Set<TypeId>,
    fs: Seq<FieldView>,
) -> bool
    decreases env.dom().difference(visited).len(), fs,
    when env.dom().finite()
{
    forall|i: int| 0 <= i < fs.len() ==> acyclic(env, visited, (#[trigger] fs[i]).ty)
}

/// Where unrolling meets no cycle, it succeeds, and no indirection node and
/// no `Unknown` is left in what it gives.
pub proof fn lemma_acyclic_unrolls_fully(
    env: Map<TypeId, TypeView>,
    visited: Set<TypeId>,
    t: TypeView,
)
    requires
        env.dom().finite(),
        acyclic(env, visited, t),
    ensures
        resolvable(env, visited, t),
        unrolled(env, visited, t).knot_free(),
        unrolled(env, visited, t).finished(),
    decreases env.dom().difference(visited).len(), t,
{
    match t {
        TypeView::Knot(id) => {
            lemma_fewer_to_expand(env, visited, id);
            lemma_acyclic_unrolls_fully(env, visited.insert(id), env[id]);
        },
        TypeView::Opt(inner) => {
            lemma_acyclic_unrolls_fully(env, visited, *inner);
        },
        TypeView::Vec(inner) => {
            lemma_acyclic_unrolls_fully(env, visited, *inner);
        },
        TypeView::Record(fs) => {
            lemma_fields_acyclic_unroll_fully(env, visited, fs);
        },
        TypeView::Variant(fs) => {
            lemma_fields_acyclic_unroll_fully(env, visited, fs);
        },
        _ => {},
    }
}

/// Where unrolling the fields `fs` meets no cycle, every one of them can be
/// unrolled, and no indirection node and no `Unknown` is left in any.
pub proof fn lemma_fields_acyclic_unroll_fully(
    env: Map<TypeId, TypeView>,
    visited: Set<TypeId>,
    fs: Seq<FieldView>,
)
    requires
        env.dom().finite(),
        fields_acyclic(env, visited, fs),
    ensures
        fields_resolvable(env, visited, fs),
        forall|i: int|
            0 <= i < fs.len() ==> (#[trigger] unrolled_fields(env, visited, fs)[i]).ty.knot_free(),
        forall|i: int|
            0 <= i < fs.len() ==> (#[trigger] unrolled_fields(env, visited, fs)[i]).ty.finished(),
    decreases env.dom().difference(visited).len(), fs,
{
    let out = unrolled_fields(env, visited, fs);
    assert forall|i: int| 0 <= i < fs.len() implies resolvable(env, visited, (#[trigger] fs[i]).ty)
        && out[i].ty.knot_free() && out[i].ty.finished() by {
        lemma_acyclic_unrolls_fully(env, visited, fs[i].ty);
    }
}

} // verus!
