use typetag_core::tag::{GenericArg, TypeDesc};

fn plain(name: &str) -> TypeDesc {
    TypeDesc::Named { base: name.to_string(), args: Vec::new() }
}

fn generic(name: &str, args: Vec<GenericArg>) -> TypeDesc {
    TypeDesc::Named { base: name.to_string(), args }
}

#[test]
fn plain_type_is_its_base_name() {
    assert_eq!(plain("Point").tag(), "Point");
}

#[test]
fn single_argument_generic_tag() {
    let g = generic("G", vec![GenericArg::Type(plain("Int"))]);
    assert_eq!(g.tag(), "G<Int>");
}

#[test]
fn defaulted_parameter_is_elided() {
    let h = generic("H", vec![GenericArg::Defaulted]);
    assert_eq!(h.tag(), "H");
}

#[test]
fn explicit_non_default_argument_is_rendered() {
    let h = generic("H", vec![GenericArg::Type(plain("Str"))]);
    assert_eq!(h.tag(), "H<Str>");
}

#[test]
fn defaulted_parameters_are_skipped_among_others() {
    let m = generic(
        "Map",
        vec![GenericArg::Type(plain("K")), GenericArg::Defaulted, GenericArg::Type(plain("V"))],
    );
    assert_eq!(m.tag(), "Map<K,V>");
}

#[test]
fn delegated_tag_is_the_wrapped_tag() {
    let w = TypeDesc::Delegated { inner: Box::new(plain("Point")) };
    assert_eq!(w.tag(), plain("Point").tag());
    assert_eq!(w.tag(), "Point");
}

#[test]
fn delegated_generic_tag_is_not_wrapped() {
    let inner = generic("G", vec![GenericArg::Type(plain("Int"))]);
    let w = TypeDesc::Delegated { inner: Box::new(inner) };
    assert_eq!(w.tag(), "G<Int>");
}

#[test]
fn nested_generics() {
    let inner = generic("Inner", vec![GenericArg::Type(plain("Int"))]);
    let outer = generic("Outer", vec![GenericArg::Type(inner)]);
    assert_eq!(outer.tag(), "Outer<Inner<Int>>");
}

#[test]
fn const_arguments_render_as_literals() {
    let a = generic("Array", vec![GenericArg::Type(plain("u8")), GenericArg::Const("16".to_string())]);
    assert_eq!(a.tag(), "Array<u8,16>");
}

#[test]
fn several_arguments_keep_declaration_order() {
    let p = generic("Pair", vec![GenericArg::Type(plain("B")), GenericArg::Type(plain("A"))]);
    assert_eq!(p.tag(), "Pair<B,A>");
}

#[test]
fn argument_text_of_each_kind() {
    assert_eq!(GenericArg::Type(plain("Int")).text(), "Int");
    assert_eq!(GenericArg::Const("3".to_string()).text(), "3");
    assert_eq!(GenericArg::Defaulted.text(), "");
    assert!(GenericArg::Type(plain("Int")).is_shown());
    assert!(!GenericArg::Defaulted.is_shown());
}
