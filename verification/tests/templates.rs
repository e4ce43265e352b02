//! Tests of the template scanner, the placeholder compiler and the
//! printed interpolation of compiled calls.

use error_gen::decl::{FieldShape, NamedField};
use error_gen::impl_display::compile::{compile_template, interpolate, AccessMode};
use error_gen::impl_display::write::WriteImplementor;
use error_gen::test_helper::assert_tokens_are_equal;

fn named(name: &str, ty: &str) -> NamedField {
    NamedField { name: name.to_string(), ty: ty.to_string() }
}

fn positional(n: usize) -> FieldShape {
    FieldShape::Positional(vec!["usize".to_string(); n])
}

/// Compile a template and print it with the given argument values.
fn rendered(template: &str, shape: &FieldShape, values: &[&str]) -> String {
    let compiled = compile_template(template, shape, AccessMode::SelfAccess)
        .expect("template should compile");
    let values: Vec<String> = values.iter().map(|v| v.to_string()).collect();
    assert_eq!(compiled.call.args.len(), values.len(), "one value per argument");
    interpolate(&compiled.call, &values)
}

#[test]
fn write_implement_works() {
    let message = "some complex stuff: {e.foo()}, {if b {42} else {43}}".to_string();
    let ts = WriteImplementor::new().implement(message).unwrap();
    let expected = r#"write!(f, "some complex stuff: {}, {}", e.foo(), if b {42} else {43})"#;
    assert!(assert_tokens_are_equal(ts.as_str(), expected));
}

#[test]
fn implement_multiple_expressions_works() {
    let message = "complex: {{let mut i = 0; i += 1; i}}".to_string();
    let ts = WriteImplementor::new().implement(message).unwrap();
    let expected = r#"write!(f, "complex: {}", {let mut i = 0; i += 1; i})"#;
    assert!(assert_tokens_are_equal(ts.as_str(), expected));
}

#[test]
fn write_implementor_implement_works() {
    let message = "some complex stuff: {e.foo()}, {if b {42} else {43}}".to_string();
    let ts = WriteImplementor::new().implement(message).unwrap();
    let expected = r#"write!(f, "some complex stuff: {}, {}", e.foo(), if b {42} else {43})"#;
    assert!(assert_tokens_are_equal(ts.as_str(), expected));
}

#[test]
fn unbalanced_template_is_an_error() {
    assert!(WriteImplementor::new().implement("oh {no".to_string()).is_err());
    assert!(WriteImplementor::new().implement("worse {a{b}".to_string()).is_err());
    assert!(WriteImplementor::new().implement("fine {a{b}c} end".to_string()).is_ok());
}

#[test]
fn placeholder_round_trip_example() {
    // Template "{1} {2}" over values (41, 42, 43): the output uses the
    // values at original indices one and two; the unused index zero is
    // dropped without renumbering artifacts.
    assert_eq!(rendered("{1} {2}", &positional(3), &["42", "43"]), "42 43");
}

#[test]
fn unused_field_dropping_preserves_order() {
    // Template "{2} {0}" over a three-field shape: each reference
    // appears once, in template order, not field order.  The argument
    // values arrive in ascending field order.
    assert_eq!(rendered("{2} {0}", &positional(3), &["41", "43"]), "43 41");
}

#[test]
fn repeated_index_reuses_one_argument() {
    assert_eq!(rendered("{0} and {0}", &positional(1), &["x"]), "x and x");
}

#[test]
fn tuple_works() {
    assert_eq!(rendered("tuple like {0}", &positional(1), &["42"]), "tuple like 42");
}

#[test]
fn tuple_multiple_works() {
    assert_eq!(
        rendered("tuple like multiple {0} {2}", &positional(3), &["41", "43"]),
        "tuple like multiple 41 43"
    );
}

#[test]
fn named_fields_works() {
    let shape = FieldShape::Named(vec![named("i", "usize"), named("j", "usize")]);
    assert_eq!(rendered("named fields {i} {j}", &shape, &["41", "42"]), "named fields 41 42");
}

#[test]
fn generics_works() {
    assert_eq!(rendered("generics {0}", &positional(1), &["42"]), "generics 42");
}

#[test]
fn generics_where_clause_works() {
    assert_eq!(rendered("generics {0}", &positional(1), &["42"]), "generics 42");
}

#[test]
fn lifetimes_works() {
    assert_eq!(rendered("lifetimes {0}", &positional(1), &["42"]), "lifetimes 42");
}

#[test]
fn lifetimes_and_generics_works() {
    assert_eq!(
        rendered("lifetimes and generics {0}", &positional(1), &["42"]),
        "lifetimes and generics 42"
    );
}

#[test]
fn enum_check_positional_message_works() {
    // "Float: {1}, Int: {0}" over two fields with values 42 and 420.5.
    let shape = FieldShape::Positional(vec!["usize".to_string(), "f32".to_string()]);
    let compiled = compile_template("Float: {1}, Int: {0}", &shape, AccessMode::BoundVariables)
        .expect("template should compile");
    assert_eq!(compiled.call.args, vec!["_0".to_string(), "_1".to_string()]);
    let values = vec!["42".to_string(), "420.5".to_string()];
    assert_eq!(interpolate(&compiled.call, &values), "Float: 420.5, Int: 42");
}

#[test]
fn enum_check_named_message_works() {
    let shape = FieldShape::Named(vec![named("val", "usize")]);
    let compiled = compile_template("Value: {val}", &shape, AccessMode::BoundVariables)
        .expect("template should compile");
    assert_eq!(compiled.call.args, vec!["val".to_string()]);
    let values = vec!["42".to_string()];
    assert_eq!(interpolate(&compiled.call, &values), "Value: 42");
}

#[test]
fn self_access_arguments_name_the_fields() {
    let shape = FieldShape::Named(vec![named("i", "usize"), named("j", "usize")]);
    let compiled = compile_template("named fields {i} {j}", &shape, AccessMode::SelfAccess)
        .expect("template should compile");
    assert_eq!(compiled.call.args, vec!["self.i".to_string(), "self.j".to_string()]);

    let compiled = compile_template("tuple like {0}", &positional(1), AccessMode::SelfAccess)
        .expect("template should compile");
    assert_eq!(compiled.call.args, vec!["self.0".to_string()]);
}

#[test]
fn free_form_bodies_pass_through_verbatim() {
    let compiled = compile_template(
        "check {e.val() + 1}",
        &FieldShape::Unit,
        AccessMode::SelfAccess,
    )
    .expect("template should compile");
    assert_eq!(compiled.call.args, vec!["e.val() + 1".to_string()]);
}
