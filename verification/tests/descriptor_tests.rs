use mvu_core::descriptor::{
    FloatLength, Generics, IntKind, IntLength, MethodDescriptor, MethodDescriptorVariant,
    ModelDescriptor, Registry, ReturnTy, Ty, Visibility,
};

fn descriptor(name: &str, root: bool, methods: Vec<MethodDescriptor>) -> ModelDescriptor {
    ModelDescriptor {
        name: name.to_string(),
        path: format!("crate::{}", name),
        root,
        new_vis: Visibility::Public,
        methods,
    }
}

fn getter_of(model: &str) -> MethodDescriptor {
    MethodDescriptor {
        vis: Visibility::Public,
        name: format!("get_{}", model),
        variant: MethodDescriptorVariant::Getter { ret_ty: ReturnTy::Model(model.to_string()) },
    }
}

#[test]
fn known_scalar_names_resolve() {
    assert!(matches!(
        Ty::from_unknown("u8".to_string(), vec![]),
        Ty::Int(IntKind::Unsigned(IntLength::_8))
    ));
    assert!(matches!(
        Ty::from_unknown("i64".to_string(), vec![]),
        Ty::Int(IntKind::Signed(IntLength::_64))
    ));
    assert!(matches!(
        Ty::from_unknown("usize".to_string(), vec![]),
        Ty::Int(IntKind::Unsigned(IntLength::Size))
    ));
    assert!(matches!(Ty::from_unknown("f32".to_string(), vec![]), Ty::Float(FloatLength::_32)));
    assert!(matches!(Ty::from_unknown("bool".to_string(), vec![]), Ty::Bool));
    assert!(matches!(Ty::from_unknown("()".to_string(), vec![]), Ty::Unit));
    assert!(matches!(Ty::from_unknown("String".to_string(), vec![]), Ty::String));
    assert!(matches!(Ty::from_unknown("Duration".to_string(), vec![]), Ty::Duration));
}

#[test]
fn a_vec_of_bytes_is_bytes() {
    let t = Ty::from_unknown(
        "Vec".to_string(),
        vec![Ty::Int(IntKind::Unsigned(IntLength::_8))],
    );
    assert!(matches!(t, Ty::Bytes));
}

#[test]
fn a_vec_of_anything_else_stays_a_vec() {
    let t = Ty::from_unknown("Vec".to_string(), vec![Ty::String]);
    if let Ty::Vec(inner) = t {
        assert!(matches!(*inner, Ty::String));
    } else {
        panic!("Vec<String> must resolve to a Vec");
    }
}

#[test]
fn containers_resolve_with_their_arguments() {
    let t = Ty::from_unknown("HashMap".to_string(), vec![Ty::String, Ty::Bool]);
    if let Ty::HashMap(k, v) = t {
        assert!(matches!(*k, Ty::String));
        assert!(matches!(*v, Ty::Bool));
    } else {
        panic!("HashMap must resolve to a HashMap");
    }
    let r = Ty::from_unknown("Result".to_string(), vec![Ty::Unit, Ty::String]);
    assert!(matches!(r, Ty::Result(_, _)));
}

#[test]
fn unknown_names_keep_their_arguments() {
    let t = Ty::from_unknown("MyThing".to_string(), vec![Ty::Bool]);
    if let Ty::Unknown(name, generics) = t {
        assert_eq!(name, "MyThing");
        assert_eq!(generics.len(), 1);
        assert!(matches!(generics[0], Ty::Bool));
    } else {
        panic!("an unregistered name must stay unknown");
    }
}

#[test]
fn a_known_name_with_the_wrong_shape_stays_unknown() {
    let t = Ty::from_unknown("u8".to_string(), vec![Ty::Bool]);
    assert!(matches!(t, Ty::Unknown(_, _)));
}

#[test]
fn rendering_scalars_gives_their_names() {
    let (name, generics) = Ty::Int(IntKind::Unsigned(IntLength::_16)).to_unknown();
    assert_eq!(name, "u16");
    assert!(generics.is_none());
    let (name, generics) = Ty::Char.to_unknown();
    assert_eq!(name, "char");
    assert!(generics.is_none());
}

#[test]
fn rendering_bytes_gives_a_vec_of_bytes() {
    let (name, generics) = Ty::Bytes.to_unknown();
    assert_eq!(name, "Vec");
    match generics {
        Some(Generics::One(inner)) => {
            assert!(matches!(*inner, Ty::Int(IntKind::Unsigned(IntLength::_8))))
        },
        _ => panic!("Bytes must render with one generic argument"),
    }
}

#[test]
fn rendering_round_trips_through_resolution() {
    let t = Ty::from_unknown("Option".to_string(), vec![Ty::Bool]);
    let (name, generics) = t.to_unknown();
    assert_eq!(name, "Option");
    let args = match generics {
        Some(Generics::One(inner)) => vec![*inner],
        _ => panic!("Option must render with one generic argument"),
    };
    let back = Ty::from_unknown(name, args);
    if let Ty::Option(inner) = back {
        assert!(matches!(*inner, Ty::Bool));
    } else {
        panic!("the rendered Option must resolve back to an Option");
    }
}

#[test]
fn the_registry_finds_models_by_name() {
    let registry = Registry {
        models: vec![descriptor("A", false, vec![]), descriptor("B", true, vec![])],
    };
    assert_eq!(registry.find_model(&"A".to_string()), Some(0));
    assert_eq!(registry.find_model(&"B".to_string()), Some(1));
    assert_eq!(registry.find_model(&"C".to_string()), None);
}

#[test]
fn the_root_model_is_the_first_marked_root() {
    let registry = Registry {
        models: vec![
            descriptor("A", false, vec![]),
            descriptor("B", true, vec![]),
            descriptor("C", true, vec![]),
        ],
    };
    assert_eq!(ModelDescriptor::root(&registry), Some(1));
    let rootless = Registry { models: vec![descriptor("A", false, vec![])] };
    assert_eq!(ModelDescriptor::root(&rootless), None);
}

#[test]
fn nested_models_are_listed_in_method_order() {
    let parent = descriptor(
        "Parent",
        true,
        vec![
            getter_of("B"),
            MethodDescriptor {
                vis: Visibility::Inherited,
                name: "set".to_string(),
                variant: MethodDescriptorVariant::Updater { args: vec![] },
            },
            getter_of("Missing"),
            getter_of("A"),
        ],
    );
    let registry = Registry {
        models: vec![descriptor("A", false, vec![]), descriptor("B", false, vec![])],
    };
    assert_eq!(parent.models(&registry), vec![1, 0]);
}
