use typetag_core::expand::{
    augment_impl, expand, self_type_name, Mode, NameError, TagAccessor, TypeSyntax,
};

fn path(segments: &[&str]) -> TypeSyntax {
    TypeSyntax::Path { qualified: false, segments: segments.iter().map(|s| s.to_string()).collect() }
}

const BOTH: Mode = Mode { ser: true, de: true };

#[test]
fn name_is_last_path_segment() {
    assert_eq!(self_type_name(&path(&["a", "b", "Point"])), Some("Point".to_string()));
}

#[test]
fn name_looks_through_groups() {
    let ty = TypeSyntax::Group { elem: Box::new(TypeSyntax::Group { elem: Box::new(path(&["Circle"])) }) };
    assert_eq!(self_type_name(&ty), Some("Circle".to_string()));
}

#[test]
fn no_name_for_other_or_qualified_types() {
    assert_eq!(self_type_name(&TypeSyntax::Other), None);
    let q = TypeSyntax::Path { qualified: true, segments: vec!["Assoc".to_string()] };
    assert_eq!(self_type_name(&q), None);
    assert_eq!(self_type_name(&path(&[])), None);
}

#[test]
fn explicit_name_wins() {
    let e = expand(Some("circle".to_string()), &path(&["Circle"]), false, BOTH).ok().unwrap();
    assert_eq!(e.name, "circle");
    assert!(e.register_directly);
}

#[test]
fn explicit_name_rescues_unnamed_type() {
    let e = expand(Some("pair".to_string()), &TypeSyntax::Other, false, BOTH).ok().unwrap();
    assert_eq!(e.name, "pair");
}

#[test]
fn unnamed_type_without_override_fails() {
    let r = expand(None, &TypeSyntax::Other, false, BOTH);
    assert!(matches!(r, Err(NameError::NoDerivableName)));
}

#[test]
fn monomorphic_impl_registers_directly_with_fixed_tag() {
    let e = expand(None, &path(&["Point"]), false, BOTH).ok().unwrap();
    assert_eq!(e.name, "Point");
    assert!(e.register_directly);
    assert!(matches!(e.items.tag_accessor, Some(TagAccessor::Fixed(ref n)) if n == "Point"));
    assert!(!e.items.bound_self_tagged);
    assert!(e.items.deserialize_marker);
}

#[test]
fn generic_impl_defers_registration() {
    let e = expand(None, &path(&["G"]), true, BOTH).ok().unwrap();
    assert!(!e.register_directly);
    assert!(matches!(e.items.tag_accessor, Some(TagAccessor::ViaTagged)));
    assert!(e.items.bound_self_tagged);
}

#[test]
fn serialize_only_adds_no_marker_and_no_registration() {
    let e = expand(None, &path(&["Point"]), false, Mode { ser: true, de: false }).ok().unwrap();
    assert!(!e.register_directly);
    assert!(!e.items.deserialize_marker);
    assert!(e.items.tag_accessor.is_some());
}

#[test]
fn deserialize_only_adds_no_accessor() {
    let a = augment_impl(&"Point".to_string(), true, Mode { ser: false, de: true });
    assert!(a.tag_accessor.is_none());
    assert!(!a.bound_self_tagged);
    assert!(a.deserialize_marker);
}
