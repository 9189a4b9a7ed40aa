use candid_types::{env_add, try_unroll, unroll, Field, Type, TypeEnv, TypeId};

struct X;

struct Y;

struct Z;

fn field(id: &str, hash: u32, ty: Type) -> Field {
    Field {
        id: id.to_string(),
        hash,
        ty,
    }
}

fn knot<T>() -> Type {
    Type::Knot(TypeId::of::<T>())
}

fn list_of_x() -> Type {
    Type::Record(vec![
        field("next", 1224700491, Type::Opt(Box::new(knot::<X>()))),
        field("val", 4846783, Type::Nat),
    ])
}

#[test]
fn unroll_of_vec_of_bool_is_itself() {
    let env = TypeEnv::new();
    let t = Type::Vec(Box::new(Type::Bool));
    assert_eq!(unroll(&env, &t), Type::Vec(Box::new(Type::Bool)));
}

#[test]
fn unroll_without_knots_is_identity() {
    let mut env = TypeEnv::new();
    env_add(&mut env, TypeId::of::<X>(), list_of_x());
    let samples = vec![
        Type::Null,
        Type::Text,
        Type::Empty,
        Type::Reserved,
        Type::Float32,
        Type::Opt(Box::new(Type::Opt(Box::new(Type::Int64)))),
        Type::Record(Vec::new()),
        Type::Variant(vec![
            field("ok", 1, Type::Vec(Box::new(Type::Nat8))),
            field("err", 2, Type::Record(vec![field("code", 3, Type::Int32)])),
        ]),
    ];
    for t in samples {
        assert_eq!(unroll(&env, &t), t);
        assert_eq!(try_unroll(&env, &t), Some(t.clone()));
        assert_eq!(unroll(&env, &unroll(&env, &t)), t);
    }
}

#[test]
fn unroll_knot_of_self_referential_record() {
    let mut env = TypeEnv::new();
    env_add(&mut env, TypeId::of::<X>(), list_of_x());
    let t = knot::<X>();
    let expected = Type::Record(vec![
        field("next", 1224700491, Type::Opt(Box::new(list_of_x()))),
        field("val", 4846783, Type::Nat),
    ]);
    assert_eq!(unroll(&env, &t), expected);
    assert_eq!(try_unroll(&env, &t), Some(expected));
}

#[test]
fn unroll_keeps_labels_hashes_and_order() {
    let mut env = TypeEnv::new();
    env_add(&mut env, TypeId::of::<Y>(), Type::Int16);
    let t = Type::Variant(vec![
        field("b", 98, knot::<Y>()),
        field("a", 97, Type::Vec(Box::new(knot::<Y>()))),
        field("c", 99, Type::Text),
    ]);
    let expected = Type::Variant(vec![
        field("b", 98, Type::Int16),
        field("a", 97, Type::Vec(Box::new(Type::Int16))),
        field("c", 99, Type::Text),
    ]);
    assert_eq!(unroll(&env, &t), expected);
}

#[test]
fn unroll_expands_a_chain_of_definitions_fully() {
    let mut env = TypeEnv::new();
    env_add(&mut env, TypeId::of::<X>(), Type::Opt(Box::new(knot::<Y>())));
    env_add(
        &mut env,
        TypeId::of::<Y>(),
        Type::Record(vec![field("z", 122, knot::<Z>())]),
    );
    env_add(&mut env, TypeId::of::<Z>(), Type::Nat64);
    let expected = Type::Opt(Box::new(Type::Record(vec![field("z", 122, Type::Nat64)])));
    assert_eq!(unroll(&env, &knot::<X>()), expected);
    assert_eq!(
        unroll(&env, &Type::Vec(Box::new(knot::<X>()))),
        Type::Vec(Box::new(expected))
    );
}

#[test]
fn unroll_expands_the_same_identity_in_sibling_fields() {
    let mut env = TypeEnv::new();
    env_add(&mut env, TypeId::of::<Y>(), Type::Vec(Box::new(Type::Bool)));
    let t = Type::Record(vec![
        field("one", 1, knot::<Y>()),
        field("two", 2, knot::<Y>()),
    ]);
    let expected = Type::Record(vec![
        field("one", 1, Type::Vec(Box::new(Type::Bool))),
        field("two", 2, Type::Vec(Box::new(Type::Bool))),
    ]);
    assert_eq!(unroll(&env, &t), expected);
}

#[test]
fn unroll_of_the_registered_record_expands_its_knot_once() {
    let mut env = TypeEnv::new();
    env_add(&mut env, TypeId::of::<X>(), list_of_x());
    let inner = Type::Record(vec![
        field("next", 1224700491, Type::Opt(Box::new(list_of_x()))),
        field("val", 4846783, Type::Nat),
    ]);
    let expected = Type::Record(vec![
        field("next", 1224700491, Type::Opt(Box::new(inner))),
        field("val", 4846783, Type::Nat),
    ]);
    assert_eq!(unroll(&env, &list_of_x()), expected);
}

#[test]
fn unroll_stops_on_mutual_recursion() {
    let mut env = TypeEnv::new();
    let x_def = Type::Record(vec![field("y", 121, knot::<Y>())]);
    let y_def = Type::Variant(vec![
        field("x", 120, knot::<X>()),
        field("end", 6581, Type::Null),
    ]);
    env_add(&mut env, TypeId::of::<X>(), x_def.clone());
    env_add(&mut env, TypeId::of::<Y>(), y_def);
    let expected = Type::Record(vec![field(
        "y",
        121,
        Type::Variant(vec![field("x", 120, x_def), field("end", 6581, Type::Null)]),
    )]);
    assert_eq!(unroll(&env, &knot::<X>()), expected);
}

#[test]
fn unroll_of_directly_cyclic_identity_terminates() {
    let mut env = TypeEnv::new();
    env_add(&mut env, TypeId::of::<X>(), knot::<X>());
    assert_eq!(unroll(&env, &knot::<X>()), knot::<X>());
}

#[test]
fn try_unroll_refuses_an_unregistered_identity() {
    let mut env = TypeEnv::new();
    assert_eq!(try_unroll(&env, &knot::<X>()), None);
    env_add(&mut env, TypeId::of::<X>(), Type::Opt(Box::new(knot::<Y>())));
    assert_eq!(try_unroll(&env, &knot::<X>()), None);
    assert_eq!(
        try_unroll(
            &env,
            &Type::Record(vec![
                field("fine", 1, Type::Nat),
                field("dangling", 2, knot::<Z>())
            ])
        ),
        None
    );
    env_add(&mut env, TypeId::of::<Y>(), Type::Bool);
    assert_eq!(
        try_unroll(&env, &knot::<X>()),
        Some(Type::Opt(Box::new(Type::Bool)))
    );
}

#[test]
fn try_unroll_refuses_the_unknown_placeholder() {
    let mut env = TypeEnv::new();
    assert_eq!(try_unroll(&env, &Type::Unknown), None);
    assert_eq!(
        try_unroll(&env, &Type::Vec(Box::new(Type::Unknown))),
        None
    );
    assert_eq!(
        try_unroll(
            &env,
            &Type::Variant(vec![field("u", 117, Type::Opt(Box::new(Type::Unknown)))])
        ),
        None
    );
    env_add(&mut env, TypeId::of::<X>(), Type::Unknown);
    assert_eq!(try_unroll(&env, &knot::<X>()), None);
}

#[test]
fn unroll_does_not_change_the_registry_or_its_argument() {
    let mut env = TypeEnv::new();
    env_add(&mut env, TypeId::of::<X>(), list_of_x());
    let t = Type::Opt(Box::new(knot::<X>()));
    let _ = unroll(&env, &t);
    assert_eq!(t, Type::Opt(Box::new(knot::<X>())));
    assert_eq!(
        candid_types::find_type(&env, TypeId::of::<X>()),
        Some(list_of_x())
    );
}
