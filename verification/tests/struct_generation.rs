//! Generation tests for struct declarations.

use error_gen::decl::{FieldShape, Generics, ItemDecl, NamedField, StructDecl};
use error_gen::impl_display::DisplayImplementationError;
use error_gen::impl_from::FromImplementationError;
use error_gen::test_helper::assert_tokens_are_equal;
use error_gen::{error, GenError};

fn generics(ig: &str, tg: &str, wc: &str) -> Generics {
    Generics {
        impl_generics: ig.to_string(),
        type_generics: tg.to_string(),
        where_clause: wc.to_string(),
    }
}

fn named(name: &str, ty: &str) -> NamedField {
    NamedField { name: name.to_string(), ty: ty.to_string() }
}

fn plain_struct(item_text: &str, ident: &str, shape: FieldShape) -> StructDecl {
    StructDecl {
        item_text: item_text.to_string(),
        ident: ident.to_string(),
        generics: generics("", "", ""),
        shape,
    }
}

fn check(attr: &str, decl: StructDecl, expected: &str) {
    let out = error(attr, &ItemDecl::Struct(decl)).expect("generation should succeed");
    assert!(
        assert_tokens_are_equal(out.as_str(), expected),
        "generated: {out}\nexpected: {expected}"
    );
}

#[test]
fn named_no_parameters() {
    let decl = plain_struct(
        "struct S { foo: usize }",
        "S",
        FieldShape::Named(vec![named("foo", "usize")]),
    );
    check(
        "",
        decl,
        "#[derive(Debug)] struct S { foo: usize } impl std::error::Error for S {}",
    );
}

#[test]
fn named_no_fields_no_parameters() {
    let decl = plain_struct("struct S { }", "S", FieldShape::Named(vec![]));
    check("", decl, "#[derive(Debug)] struct S { } impl std::error::Error for S {}");
}

#[test]
fn unnamed_no_parameters() {
    let decl = plain_struct(
        "struct S (usize);",
        "S",
        FieldShape::Positional(vec!["usize".to_string()]),
    );
    check("", decl, "#[derive(Debug)] struct S (usize); impl std::error::Error for S {}");
}

#[test]
fn unnamed_no_fields_no_parameters() {
    let decl = plain_struct("struct S ();", "S", FieldShape::Positional(vec![]));
    check("", decl, "#[derive(Debug)] struct S (); impl std::error::Error for S {}");
}

#[test]
fn unit_no_parameters() {
    let decl = plain_struct("struct S;", "S", FieldShape::Unit);
    check("", decl, "#[derive(Debug)] struct S; impl std::error::Error for S {}");
}

#[test]
fn struct_error_other_attributes_remain() {
    let decl = plain_struct("#[derive(Clone)] struct S;", "S", FieldShape::Unit);
    check(
        "",
        decl,
        "#[derive(Debug)] #[derive(Clone)] struct S; impl std::error::Error for S {}",
    );
}

#[test]
fn struct_error_lifetimes_remain() {
    let mut decl = plain_struct(
        "struct S<'a> (&'a usize);",
        "S",
        FieldShape::Positional(vec!["&'a usize".to_string()]),
    );
    decl.generics = generics("<'a>", "<'a>", "");
    check(
        "",
        decl,
        "#[derive(Debug)] struct S<'a> (&'a usize); impl<'a> std::error::Error for S<'a> {}",
    );
}

#[test]
fn struct_error_generics_remain() {
    let mut decl = plain_struct(
        "struct S<A: Clone, B> (A, B) where B: Clone;",
        "S",
        FieldShape::Positional(vec!["A".to_string(), "B".to_string()]),
    );
    decl.generics = generics("<A: Clone, B>", "<A, B>", "where B: Clone");
    check(
        "",
        decl,
        "#[derive(Debug)] struct S<A: Clone, B> (A, B) where B: Clone; \
         impl<A: Clone, B> std::error::Error for S<A, B> where B: Clone {}",
    );
}

#[test]
fn struct_error_const_generics_remain() {
    let mut decl = plain_struct(
        "struct S<const C: usize> (C);",
        "S",
        FieldShape::Positional(vec!["C".to_string()]),
    );
    decl.generics = generics("<const C: usize>", "<C>", "");
    check(
        "",
        decl,
        "#[derive(Debug)] struct S<const C: usize> (C); \
         impl<const C: usize> std::error::Error for S<C> {}",
    );
}

#[test]
fn named_impl_from() {
    let decl = plain_struct(
        "struct S { foo: usize }",
        "S",
        FieldShape::Named(vec![named("foo", "usize")]),
    );
    check(
        "impl_from",
        decl,
        "#[derive(Debug)] struct S { foo: usize } impl std::error::Error for S {} \
         impl std::convert::From<usize> for S { fn from(val: usize) -> Self { S{ foo : val } } }",
    );
}

#[test]
fn unnamed_impl_from() {
    let decl = plain_struct(
        "struct S (usize);",
        "S",
        FieldShape::Positional(vec!["usize".to_string()]),
    );
    check(
        "impl_from",
        decl,
        "#[derive(Debug)] struct S (usize); impl std::error::Error for S {} \
         impl std::convert::From<usize> for S { fn from(val: usize) -> Self { S(val) } }",
    );
}

#[test]
fn named_impl_display() {
    let decl = plain_struct(
        "struct S { foo: usize }",
        "S",
        FieldShape::Named(vec![named("foo", "usize")]),
    );
    check(
        "message = \"My foo value: {e.foo}\"",
        decl,
        "#[derive(Debug)] struct S { foo: usize } impl std::error::Error for S {} \
         impl std::fmt::Display for S { \
             fn fmt(&self, f: &mut std::fmt::Formatter<'_>) -> std::fmt::Result { \
                 let e = self; \
                 write!(f, \"My foo value: {}\", e.foo) \
             } \
         }",
    );
}

#[test]
fn unnamed_impl_display() {
    let decl = plain_struct(
        "struct S (usize);",
        "S",
        FieldShape::Positional(vec!["usize".to_string()]),
    );
    check(
        "message = \"My single value: {e.0}\"",
        decl,
        "#[derive(Debug)] struct S (usize); impl std::error::Error for S {} \
         impl std::fmt::Display for S { \
             fn fmt(&self, f: &mut std::fmt::Formatter<'_>) -> std::fmt::Result { \
                 let e = self; \
                 write!(f, \"My single value: {}\", e.0) \
             } \
         }",
    );
}

#[test]
fn unit_impl_display() {
    let decl = plain_struct("struct S;", "S", FieldShape::Unit);
    check(
        "message = \"Something went wrong\"",
        decl,
        "#[derive(Debug)] struct S; impl std::error::Error for S {} \
         impl std::fmt::Display for S { \
             fn fmt(&self, f: &mut std::fmt::Formatter<'_>) -> std::fmt::Result { \
                 let e = self; \
                 write!(f, \"Something went wrong\") \
             } \
         }",
    );
}

#[test]
fn named_impl_from_and_display() {
    let decl = plain_struct(
        "struct S { foo: usize }",
        "S",
        FieldShape::Named(vec![named("foo", "usize")]),
    );
    check(
        "message = \"My foo value: {e.foo}\", impl_from",
        decl,
        "#[derive(Debug)] struct S { foo: usize } impl std::error::Error for S {} \
         impl std::fmt::Display for S { \
             fn fmt(&self, f: &mut std::fmt::Formatter<'_>) -> std::fmt::Result { \
                 let e = self; \
                 write!(f, \"My foo value: {}\", e.foo) \
             } \
         } \
         impl std::convert::From<usize> for S { fn from(val: usize) -> Self { S{ foo : val } } }",
    );
}

#[test]
fn unnamed_impl_from_and_display() {
    let decl = plain_struct(
        "struct S (usize);",
        "S",
        FieldShape::Positional(vec!["usize".to_string()]),
    );
    check(
        "message = \"My single value: {e.0}\", impl_from",
        decl,
        "#[derive(Debug)] struct S (usize); impl std::error::Error for S {} \
         impl std::fmt::Display for S { \
             fn fmt(&self, f: &mut std::fmt::Formatter<'_>) -> std::fmt::Result { \
                 let e = self; \
                 write!(f, \"My single value: {}\", e.0) \
             } \
         } \
         impl std::convert::From<usize> for S { fn from(val: usize) -> Self { S(val) } }",
    );
}

#[test]
fn impl_from_needs_exactly_one_field() {
    let two = plain_struct(
        "struct S(usize, usize);",
        "S",
        FieldShape::Positional(vec!["usize".to_string(), "usize".to_string()]),
    );
    let err = error("impl_from", &ItemDecl::Struct(two)).unwrap_err();
    match err {
        GenError::From(FromImplementationError::StructNotExactlyOneField(id)) => {
            assert_eq!(id, "S");
            assert_eq!(
                FromImplementationError::StructNotExactlyOneField(id).message(),
                "'std::convert::From' cannot be implemented for struct 'S', \
                 as it has not exactly one field."
            );
        },
        other => panic!("expected StructNotExactlyOneField, got {other:?}"),
    }

    let unit = plain_struct("struct S;", "S", FieldShape::Unit);
    let err = error("impl_from", &ItemDecl::Struct(unit)).unwrap_err();
    assert!(matches!(
        err,
        GenError::From(FromImplementationError::StructNotExactlyOneField(_))
    ));
}

#[test]
fn unbalanced_struct_template_is_fatal() {
    let decl = plain_struct("struct S;", "S", FieldShape::Unit);
    let err = error("message = \"oh {no\"", &ItemDecl::Struct(decl)).unwrap_err();
    match err {
        GenError::Display(DisplayImplementationError::UnbalancedTemplate(t)) => {
            assert_eq!(t, "oh {no");
        },
        other => panic!("expected UnbalancedTemplate, got {other:?}"),
    }
}
