//! End-to-end tests: whole declarations through the generator, and the
//! printed interpolation of their message templates.

use error_gen::decl::{EnumDecl, FieldShape, Generics, ItemDecl, NamedField, StructDecl, VariantEntry};
use error_gen::impl_display::compile::{compile_template, interpolate, AccessMode};
use error_gen::test_helper::assert_tokens_are_equal;
use error_gen::error;

fn generics(ig: &str, tg: &str, wc: &str) -> Generics {
    Generics {
        impl_generics: ig.to_string(),
        type_generics: tg.to_string(),
        where_clause: wc.to_string(),
    }
}

fn named(name: &str, ty: &str) -> NamedField {
    NamedField { name: name.to_string(), ty: ty.to_string() }
}

fn variant(ident: &str, shape: FieldShape, attr: Option<&str>, decl_text: &str) -> VariantEntry {
    VariantEntry {
        ident: ident.to_string(),
        shape,
        attr: attr.map(|a| a.to_string()),
        decl_text: decl_text.to_string(),
    }
}

/// Compile a message over a shape in bound-variables mode and print it
/// with the given argument values.
fn displayed(template: &str, shape: &FieldShape, values: &[&str]) -> String {
    let compiled = compile_template(template, shape, AccessMode::BoundVariables)
        .expect("template should compile");
    let values: Vec<String> = values.iter().map(|v| v.to_string()).collect();
    interpolate(&compiled.call, &values)
}

#[test]
fn unit_no_message_works() {
    let decl = StructDecl {
        item_text: "struct S;".to_string(),
        ident: "S".to_string(),
        generics: generics("", "", ""),
        shape: FieldShape::Unit,
    };
    let out = error("", &ItemDecl::Struct(decl)).unwrap();
    // No Display implementation is generated; a hand-written one is
    // free to print "unit message manual".
    assert!(assert_tokens_are_equal(
        out.as_str(),
        "#[derive(Debug)] struct S; impl std::error::Error for S {}"
    ));
    assert_eq!(displayed("unit message manual", &FieldShape::Unit, &[]), "unit message manual");
}

#[test]
fn unit_works() {
    assert_eq!(displayed("unit struct", &FieldShape::Unit, &[]), "unit struct");
}

#[test]
fn implement_from_for_named_works() {
    let decl = StructDecl {
        item_text: "struct S { val: usize }".to_string(),
        ident: "S".to_string(),
        generics: generics("", "", ""),
        shape: FieldShape::Named(vec![named("val", "usize")]),
    };
    let out = error("message = \"impl_from named: {val}\", impl_from", &ItemDecl::Struct(decl))
        .unwrap();
    assert!(assert_tokens_are_equal(
        out.as_str(),
        "#[derive(Debug)] struct S { val: usize } impl std::error::Error for S {} \
         impl std::fmt::Display for S { \
             fn fmt(&self, f: &mut std::fmt::Formatter<'_>) -> std::fmt::Result { \
                 let e = self; write!(f, \"impl_from named: {}\", self.val) \
             } \
         } \
         impl std::convert::From<usize> for S { fn from(val: usize) -> Self { S{ val : val } } }"
    ));
    let shape = FieldShape::Named(vec![named("val", "usize")]);
    assert_eq!(displayed("impl_from named: {val}", &shape, &["42"]), "impl_from named: 42");
}

#[test]
fn implement_from_for_unnamed_works() {
    let decl = StructDecl {
        item_text: "struct S(usize);".to_string(),
        ident: "S".to_string(),
        generics: generics("", "", ""),
        shape: FieldShape::Positional(vec!["usize".to_string()]),
    };
    let out = error("message = \"impl_from unnamed: {0}\", impl_from", &ItemDecl::Struct(decl))
        .unwrap();
    assert!(assert_tokens_are_equal(
        out.as_str(),
        "#[derive(Debug)] struct S(usize); impl std::error::Error for S {} \
         impl std::fmt::Display for S { \
             fn fmt(&self, f: &mut std::fmt::Formatter<'_>) -> std::fmt::Result { \
                 let e = self; write!(f, \"impl_from unnamed: {0}\", self.0) \
             } \
         } \
         impl std::convert::From<usize> for S { fn from(val: usize) -> Self { S(val) } }"
    ));
    let shape = FieldShape::Positional(vec!["usize".to_string()]);
    assert_eq!(displayed("impl_from unnamed: {0}", &shape, &["42"]), "impl_from unnamed: 42");
}

#[test]
fn enum_no_display_message_works() {
    let decl = EnumDecl {
        attrs_text: String::new(),
        ident: "E".to_string(),
        generics_decl: String::new(),
        where_decl: String::new(),
        generics: generics("", "", ""),
        variants: vec![variant("Foo", FieldShape::Unit, None, "Foo")],
    };
    let out = error("", &ItemDecl::Enum(decl)).unwrap();
    assert!(assert_tokens_are_equal(
        out.as_str(),
        "#[derive(Debug)] enum E { Foo } impl std::error::Error for E {}"
    ));
    assert_eq!(displayed("Foo", &FieldShape::Unit, &[]), "Foo");
}

#[test]
fn enum_default_message_works() {
    let decl = EnumDecl {
        attrs_text: String::new(),
        ident: "E".to_string(),
        generics_decl: String::new(),
        where_decl: String::new(),
        generics: generics("", "", ""),
        variants: vec![
            variant("Foo", FieldShape::Unit, None, "Foo"),
            variant("Bar", FieldShape::Unit, None, "Bar"),
        ],
    };
    let out = error("message = \"some default\"", &ItemDecl::Enum(decl)).unwrap();
    assert!(assert_tokens_are_equal(
        out.as_str(),
        "#[derive(Debug)] enum E { Foo, Bar } impl std::error::Error for E {} \
         impl std::fmt::Display for E { \
             fn fmt(&self, f: &mut std::fmt::Formatter<'_>) -> std::fmt::Result { \
                 match self { _ => write!(f, \"some default\") } \
             } \
         }"
    ));
    assert_eq!(displayed("some default", &FieldShape::Unit, &[]), "some default");
}

#[test]
fn enum_custom_message_works() {
    let decl = EnumDecl {
        attrs_text: String::new(),
        ident: "E".to_string(),
        generics_decl: String::new(),
        where_decl: String::new(),
        generics: generics("", "", ""),
        variants: vec![
            variant("Foo", FieldShape::Unit, None, "Foo"),
            variant(
                "Bar",
                FieldShape::Unit,
                Some("#[error(message = \"some custom for Bar\")]"),
                "Bar",
            ),
        ],
    };
    let out = error("message = \"some default\"", &ItemDecl::Enum(decl)).unwrap();
    assert!(assert_tokens_are_equal(
        out.as_str(),
        "#[derive(Debug)] enum E { Foo, Bar } impl std::error::Error for E {} \
         impl std::fmt::Display for E { \
             fn fmt(&self, f: &mut std::fmt::Formatter<'_>) -> std::fmt::Result { \
                 match self { \
                     E::Bar => write!(f, \"some custom for Bar\"), \
                     _ => write!(f, \"some default\") \
                 } \
             } \
         }"
    ));
    assert_eq!(displayed("some custom for Bar", &FieldShape::Unit, &[]), "some custom for Bar");
}

#[test]
fn enum_check_from_works() {
    let decl = EnumDecl {
        attrs_text: String::new(),
        ident: "E".to_string(),
        generics_decl: String::new(),
        where_decl: String::new(),
        generics: generics("", "", ""),
        variants: vec![variant(
            "Foo",
            FieldShape::Positional(vec!["usize".to_string()]),
            Some("#[error(impl_from)]"),
            "Foo(usize)",
        )],
    };
    let out = error("message = \"some default\"", &ItemDecl::Enum(decl)).unwrap();
    assert!(assert_tokens_are_equal(
        out.as_str(),
        "#[derive(Debug)] enum E { Foo(usize) } impl std::error::Error for E {} \
         impl std::convert::From<usize> for E { fn from(val: usize) -> Self { E::Foo(val) } } \
         impl std::fmt::Display for E { \
             fn fmt(&self, f: &mut std::fmt::Formatter<'_>) -> std::fmt::Result { \
                 match self { _ => write!(f, \"some default\") } \
             } \
         }"
    ));
    assert_eq!(displayed("some default", &FieldShape::Unit, &[]), "some default");
}

#[test]
fn enum_check_generics_and_lifetimes_works() {
    let decl = EnumDecl {
        attrs_text: String::new(),
        ident: "E".to_string(),
        generics_decl: "<'a, A, B: Debug + Display>".to_string(),
        where_decl: "where A: Debug + Display".to_string(),
        generics: generics("<'a, A, B: Debug + Display>", "<'a, A, B>", "where A: Debug + Display"),
        variants: vec![
            variant(
                "Where",
                FieldShape::Positional(vec!["A".to_string()]),
                Some("#[error(message = \"{0}\", impl_from)]"),
                "Where(A)",
            ),
            variant(
                "Generic",
                FieldShape::Positional(vec!["B".to_string()]),
                Some("#[error(message = \"{0}\")]"),
                "Generic(B)",
            ),
            variant(
                "Lifetime",
                FieldShape::Positional(vec!["&'a usize".to_string()]),
                Some("#[error(message = \"{0}\")]"),
                "Lifetime(&'a usize)",
            ),
        ],
    };
    let out = error("", &ItemDecl::Enum(decl)).unwrap();
    assert!(assert_tokens_are_equal(
        out.as_str(),
        "#[derive(Debug)] enum E<'a, A, B: Debug + Display> where A: Debug + Display \
         { Where(A), Generic(B), Lifetime(&'a usize) } \
         impl<'a, A, B: Debug + Display> std::error::Error for E<'a, A, B> where A: Debug + Display {} \
         impl<'a, A, B: Debug + Display> std::convert::From<A> for E<'a, A, B> where A: Debug + Display \
         { fn from(val: A) -> Self { E::Where(val) } } \
         impl<'a, A, B: Debug + Display> std::fmt::Display for E<'a, A, B> where A: Debug + Display { \
             fn fmt(&self, f: &mut std::fmt::Formatter<'_>) -> std::fmt::Result { \
                 match self { \
                     E::Where (_0,) => write!(f, \"{0}\", _0), \
                     E::Generic (_0,) => write!(f, \"{0}\", _0), \
                     E::Lifetime (_0,) => write!(f, \"{0}\", _0), \
                 } \
             } \
         }"
    ));
    let shape = FieldShape::Positional(vec!["A".to_string()]);
    assert_eq!(displayed("{0}", &shape, &["42"]), "42");
}

#[test]
fn check_global_impl_from_works() {
    let decl = EnumDecl {
        attrs_text: "#[derive(Clone)]".to_string(),
        ident: "Z".to_string(),
        generics_decl: String::new(),
        where_decl: String::new(),
        generics: generics("", "", ""),
        variants: vec![
            variant("A", FieldShape::Positional(vec!["usize".to_string()]), None, "A(usize)"),
            variant(
                "B",
                FieldShape::Positional(vec!["&'static str".to_string()]),
                None,
                "B(&'static str)",
            ),
        ],
    };
    let out = error("message = \"Error\", impl_from", &ItemDecl::Enum(decl)).unwrap();
    assert!(assert_tokens_are_equal(
        out.as_str(),
        "#[derive(Debug)] #[derive(Clone)] enum Z { A(usize), B(&'static str) } \
         impl std::error::Error for Z {} \
         impl std::convert::From<usize> for Z { fn from(val: usize) -> Self { Z::A(val) } } \
         impl std::convert::From<&'static str> for Z { fn from(val: &'static str) -> Self { Z::B(val) } } \
         impl std::fmt::Display for Z { \
             fn fmt(&self, f: &mut std::fmt::Formatter<'_>) -> std::fmt::Result { \
                 match self { _ => write!(f, \"Error\") } \
             } \
         }"
    ));
    assert_eq!(displayed("Error", &FieldShape::Unit, &[]), "Error");
}
