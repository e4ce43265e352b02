//! Generation tests for enum declarations.

use error_gen::decl::{EnumDecl, FieldShape, Generics, ItemDecl, NamedField, VariantEntry};
use error_gen::impl_display::DisplayImplementationError;
use error_gen::impl_from::FromImplementationError;
use error_gen::test_helper::assert_tokens_are_equal;
use error_gen::{error, GenError};

fn generics(ig: &str, tg: &str, wc: &str) -> Generics {
    Generics {
        impl_generics: ig.to_string(),
        type_generics: tg.to_string(),
        where_clause: wc.to_string(),
    }
}

fn named(name: &str, ty: &str) -> NamedField {
    NamedField { name: name.to_string(), ty: ty.to_string() }
}

fn variant(ident: &str, shape: FieldShape, attr: Option<&str>, decl_text: &str) -> VariantEntry {
    VariantEntry {
        ident: ident.to_string(),
        shape,
        attr: attr.map(|a| a.to_string()),
        decl_text: decl_text.to_string(),
    }
}

fn plain_enum(ident: &str, variants: Vec<VariantEntry>) -> EnumDecl {
    EnumDecl {
        attrs_text: String::new(),
        ident: ident.to_string(),
        generics_decl: String::new(),
        where_decl: String::new(),
        generics: generics("", "", ""),
        variants,
    }
}

fn check(attr: &str, decl: EnumDecl, expected: &str) {
    let out = error(attr, &ItemDecl::Enum(decl)).expect("generation should succeed");
    assert!(
        assert_tokens_are_equal(out.as_str(), expected),
        "generated: {out}\nexpected: {expected}"
    );
}

#[test]
fn no_parameters() {
    let decl = plain_enum(
        "E",
        vec![
            variant(
                "Named",
                FieldShape::Named(vec![named("foo", "usize")]),
                None,
                "Named {foo: usize}",
            ),
            variant(
                "Unnamed",
                FieldShape::Positional(vec!["usize".to_string()]),
                None,
                "Unnamed(usize)",
            ),
            variant("Unit", FieldShape::Unit, None, "Unit"),
        ],
    );
    check(
        "",
        decl,
        "#[derive(Debug)] enum E { Named {foo: usize}, Unnamed(usize), Unit } \
         impl std::error::Error for E {}",
    );
}

#[test]
fn no_parameters_no_fields() {
    let decl = plain_enum(
        "E",
        vec![
            variant("Named", FieldShape::Named(vec![]), None, "Named {}"),
            variant("Unnamed", FieldShape::Positional(vec![]), None, "Unnamed()"),
            variant("Unit", FieldShape::Unit, None, "Unit"),
        ],
    );
    check(
        "",
        decl,
        "#[derive(Debug)] enum E { Named {}, Unnamed(), Unit } impl std::error::Error for E {}",
    );
}

#[test]
fn enum_error_other_attributes_remain() {
    let mut decl = plain_enum("E", vec![variant("Unit", FieldShape::Unit, None, "Unit")]);
    decl.attrs_text = "#[derive(Clone)]".to_string();
    check(
        "",
        decl,
        "#[derive(Debug)] #[derive(Clone)] enum E { Unit } impl std::error::Error for E {}",
    );
}

#[test]
fn enum_error_lifetimes_remain() {
    let mut decl = plain_enum(
        "E",
        vec![variant(
            "Unnamed",
            FieldShape::Positional(vec!["&'a usize".to_string()]),
            None,
            "Unnamed(&'a usize)",
        )],
    );
    decl.generics_decl = "<'a>".to_string();
    decl.generics = generics("<'a>", "<'a>", "");
    check(
        "",
        decl,
        "#[derive(Debug)] enum E<'a> { Unnamed(&'a usize) } impl<'a> std::error::Error for E<'a> {}",
    );
}

#[test]
fn enum_error_generics_remain() {
    let mut decl = plain_enum(
        "E",
        vec![variant(
            "Unnamed",
            FieldShape::Positional(vec!["T".to_string()]),
            None,
            "Unnamed(T)",
        )],
    );
    decl.generics_decl = "<T>".to_string();
    decl.generics = generics("<T>", "<T>", "");
    check(
        "",
        decl,
        "#[derive(Debug)] enum E<T> { Unnamed(T) } impl<T> std::error::Error for E<T> {}",
    );
}

#[test]
fn enum_error_const_generics_remain() {
    let mut decl = plain_enum(
        "E",
        vec![variant(
            "Unnamed",
            FieldShape::Positional(vec!["C".to_string()]),
            None,
            "Unnamed(C)",
        )],
    );
    decl.generics_decl = "<const C: usize>".to_string();
    decl.generics = generics("<const C: usize>", "<C>", "");
    check(
        "",
        decl,
        "#[derive(Debug)] enum E<const C: usize> { Unnamed(C) } \
         impl<const C: usize> std::error::Error for E<C> {}",
    );
}

#[test]
fn named_unnamed_impl_from() {
    let decl = plain_enum(
        "E",
        vec![
            variant(
                "Named",
                FieldShape::Named(vec![named("foo", "usize")]),
                Some("#[error(impl_from)]"),
                "Named {foo: usize}",
            ),
            variant(
                "Unnamed",
                FieldShape::Positional(vec!["f32".to_string()]),
                Some("#[error(impl_from)]"),
                "Unnamed(f32)",
            ),
            variant("Unit", FieldShape::Unit, None, "Unit"),
        ],
    );
    check(
        "",
        decl,
        "#[derive(Debug)] enum E { Named {foo: usize}, Unnamed(f32), Unit } \
         impl std::error::Error for E {} \
         impl std::convert::From<usize> for E { fn from(val: usize) -> Self { E::Named {foo: val} } } \
         impl std::convert::From<f32> for E { fn from(val: f32) -> Self { E::Unnamed(val) } }",
    );
}

#[test]
fn named_unnamed_global_impl_from() {
    let decl = plain_enum(
        "E",
        vec![
            variant(
                "Named",
                FieldShape::Named(vec![named("foo", "usize")]),
                None,
                "Named {foo: usize}",
            ),
            variant(
                "Unnamed",
                FieldShape::Positional(vec!["f32".to_string()]),
                None,
                "Unnamed(f32)",
            ),
        ],
    );
    check(
        "impl_from",
        decl,
        "#[derive(Debug)] enum E { Named {foo: usize}, Unnamed(f32) } \
         impl std::error::Error for E {} \
         impl std::convert::From<usize> for E { fn from(val: usize) -> Self { E::Named {foo: val} } } \
         impl std::convert::From<f32> for E { fn from(val: f32) -> Self { E::Unnamed(val) } }",
    );
}

#[test]
fn impl_display() {
    let decl = plain_enum(
        "E",
        vec![
            variant(
                "Named",
                FieldShape::Named(vec![named("foo", "usize")]),
                Some("#[error(message = \"The foo value: {foo}\")]"),
                "Named {foo: usize}",
            ),
            variant(
                "Unnamed",
                FieldShape::Positional(vec!["f32".to_string()]),
                Some("#[error(message = \"The first value: {_0}\")]"),
                "Unnamed(f32)",
            ),
            variant(
                "Unit",
                FieldShape::Unit,
                Some("#[error(message = \"Something went wrong\")]"),
                "Unit",
            ),
        ],
    );
    check(
        "",
        decl,
        "#[derive(Debug)] enum E { Named {foo: usize}, Unnamed(f32), Unit } \
         impl std::error::Error for E {} \
         impl std::fmt::Display for E { \
             fn fmt(&self, f: &mut std::fmt::Formatter<'_>) -> std::fmt::Result { \
                 match self { \
                     E::Named {foo,} => write!(f, \"The foo value: {}\", foo), \
                     E::Unnamed (_0,) => write!(f, \"The first value: {}\", _0), \
                     E::Unit => write!(f, \"Something went wrong\"), \
                 } \
             } \
         }",
    );
}

#[test]
fn impl_display_default() {
    let decl = plain_enum(
        "E",
        vec![
            variant(
                "Named",
                FieldShape::Named(vec![named("foo", "usize")]),
                Some("#[error(message = \"The foo value: {foo}\")]"),
                "Named {foo: usize}",
            ),
            variant(
                "Unnamed",
                FieldShape::Positional(vec!["f32".to_string()]),
                Some("#[error(message = \"The first value: {_0}\")]"),
                "Unnamed(f32)",
            ),
            variant("Unit", FieldShape::Unit, None, "Unit"),
        ],
    );
    check(
        "message = \"Something went wrong\"",
        decl,
        "#[derive(Debug)] enum E { Named {foo: usize}, Unnamed(f32), Unit } \
         impl std::error::Error for E {} \
         impl std::fmt::Display for E { \
             fn fmt(&self, f: &mut std::fmt::Formatter<'_>) -> std::fmt::Result { \
                 match self { \
                     E::Named {foo,} => write!(f, \"The foo value: {}\", foo), \
                     E::Unnamed (_0,) => write!(f, \"The first value: {}\", _0), \
                     _ => write!(f, \"Something went wrong\") \
                 } \
             } \
         }",
    );
}

#[test]
fn impl_from_and_display() {
    let decl = plain_enum(
        "E",
        vec![
            variant(
                "Named",
                FieldShape::Named(vec![named("foo", "usize")]),
                Some("#[error(message = \"The foo value: {foo}\", impl_from)]"),
                "Named {foo: usize}",
            ),
            variant(
                "Unnamed",
                FieldShape::Positional(vec!["f32".to_string()]),
                Some("#[error(message = \"The first value: {_0}\", impl_from)]"),
                "Unnamed(f32)",
            ),
            variant(
                "Unit",
                FieldShape::Unit,
                Some("#[error(message = \"Something went wrong\")]"),
                "Unit",
            ),
        ],
    );
    check(
        "",
        decl,
        "#[derive(Debug)] enum E { Named {foo: usize}, Unnamed(f32), Unit } \
         impl std::error::Error for E {} \
         impl std::convert::From<usize> for E { fn from(val: usize) -> Self { E::Named {foo: val} } } \
         impl std::convert::From<f32> for E { fn from(val: f32) -> Self { E::Unnamed(val) } } \
         impl std::fmt::Display for E { \
             fn fmt(&self, f: &mut std::fmt::Formatter<'_>) -> std::fmt::Result { \
                 match self { \
                     E::Named {foo,} => write!(f, \"The foo value: {}\", foo), \
                     E::Unnamed (_0,) => write!(f, \"The first value: {}\", _0), \
                     E::Unit => write!(f, \"Something went wrong\"), \
                 } \
             } \
         }",
    );
}

#[test]
fn missing_message_is_fatal() {
    // One variant has a message, another has none, and no default is
    // set at the container.
    let decl = plain_enum(
        "E",
        vec![
            variant("Foo", FieldShape::Unit, None, "Foo"),
            variant(
                "Bar",
                FieldShape::Unit,
                Some("#[error(message = \"bar failed\")]"),
                "Bar",
            ),
        ],
    );
    let err = error("", &ItemDecl::Enum(decl)).unwrap_err();
    match err {
        GenError::Display(DisplayImplementationError::MissingMessages(id)) => {
            assert_eq!(id, "E");
        },
        other => panic!("expected MissingMessages, got {other:?}"),
    }
    assert!(
        GenError::Display(DisplayImplementationError::MissingMessages("E".to_string()))
            .message()
            .contains("'E'")
    );
}

#[test]
fn unnecessary_default_is_fatal() {
    // Every variant has its own message, yet a default is set as well.
    let decl = plain_enum(
        "E",
        vec![
            variant(
                "Foo",
                FieldShape::Unit,
                Some("#[error(message = \"foo failed\")]"),
                "Foo",
            ),
            variant(
                "Bar",
                FieldShape::Unit,
                Some("#[error(message = \"bar failed\")]"),
                "Bar",
            ),
        ],
    );
    let err = error("message = \"Some default\"", &ItemDecl::Enum(decl)).unwrap_err();
    match err {
        GenError::Display(DisplayImplementationError::UnnecessaryDefaultMessage(id)) => {
            assert_eq!(id, "E");
        },
        other => panic!("expected UnnecessaryDefaultMessage, got {other:?}"),
    }
}

#[test]
fn arity_offenders_are_aggregated() {
    // The container flag makes every variant a candidate; the variants
    // with two and with zero fields are both named in one error.
    let decl = plain_enum(
        "E",
        vec![
            variant(
                "One",
                FieldShape::Positional(vec!["usize".to_string()]),
                None,
                "One(usize)",
            ),
            variant(
                "Two",
                FieldShape::Positional(vec!["usize".to_string(), "usize".to_string()]),
                None,
                "Two(usize, usize)",
            ),
            variant("None", FieldShape::Unit, None, "None"),
        ],
    );
    let err = error("impl_from", &ItemDecl::Enum(decl)).unwrap_err();
    match err {
        GenError::From(FromImplementationError::EnumNotExactlyOneField(id, idents)) => {
            assert_eq!(id, "E");
            assert_eq!(idents, vec!["Two".to_string(), "None".to_string()]);
        },
        other => panic!("expected EnumNotExactlyOneField, got {other:?}"),
    }
}

#[test]
fn flag_on_enum_and_variant_conflicts() {
    // The variant would individually qualify, yet the two flags
    // together are rejected.
    let decl = plain_enum(
        "E",
        vec![
            variant(
                "Named",
                FieldShape::Named(vec![named("foo", "usize")]),
                Some("#[error(impl_from)]"),
                "Named {foo: usize}",
            ),
            variant(
                "Unnamed",
                FieldShape::Positional(vec!["f32".to_string()]),
                None,
                "Unnamed(f32)",
            ),
        ],
    );
    let err = error("impl_from", &ItemDecl::Enum(decl)).unwrap_err();
    match err {
        GenError::From(FromImplementationError::ParameterOnEnumAndVariant(id)) => {
            assert_eq!(id, "E");
        },
        other => panic!("expected ParameterOnEnumAndVariant, got {other:?}"),
    }
}

#[test]
fn unbalanced_variant_template_is_fatal() {
    let decl = plain_enum(
        "E",
        vec![variant(
            "Unit",
            FieldShape::Unit,
            Some("#[error(message = \"oh {no\")]"),
            "Unit",
        )],
    );
    let err = error("", &ItemDecl::Enum(decl)).unwrap_err();
    match err {
        GenError::Display(DisplayImplementationError::UnbalancedTemplate(t)) => {
            assert_eq!(t, "oh {no");
        },
        other => panic!("expected UnbalancedTemplate, got {other:?}"),
    }
}
