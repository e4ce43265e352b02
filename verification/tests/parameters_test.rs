//! Tests of the parameter model: attribute parsing and the typed
//! accessors.

use error_gen::parameters::{ParameterError, Parameters};

fn expect_err(r: Result<Parameters, ParameterError>) -> ParameterError {
    match r {
        Err(e) => e,
        Ok(_) => panic!("expected an error"),
    }
}

fn create_example_parameters() -> Parameters {
    Parameters::from_attribute_args("foo = \"bar\", baz").expect("example parameters parse")
}

#[test]
fn from_attribute_works() {
    let parameters = Parameters::from_attribute("#[foo(bar = true)]").unwrap();
    assert_eq!(parameters.size(), 1);
    assert_eq!(parameters.has_parameter("bar"), true);
    assert_eq!(parameters.bool_for_name("bar"), true);
}

#[test]
fn size_works() {
    let parameters = create_example_parameters();
    assert_eq!(parameters.size(), 2)
}

#[test]
fn has_parameter_works() {
    let parameters = create_example_parameters();
    assert_eq!(parameters.has_parameter("foo"), true);
    assert_eq!(parameters.has_parameter("baz"), true);
    assert_eq!(parameters.has_parameter("oof"), false);
}

#[test]
fn name_iter_works() {
    let parameters = create_example_parameters();
    let mut names: Vec<String> = Vec::new();
    let mut it = parameters.name_iter();
    while let Some(name) = it.next() {
        names.push(name);
    }
    assert_eq!(names.len(), parameters.size());
    assert!(names.iter().any(|n| n == "foo"));
    assert!(names.iter().any(|n| n == "baz"));
}

#[test]
fn string_values_are_read_back() {
    let parameters = create_example_parameters();
    assert_eq!(parameters.string_for_name("foo"), Some("bar".to_string()));
    assert_eq!(parameters.string_for_name("missing"), None);
}

#[test]
fn path_like_attribute_is_not_list() {
    assert_eq!(expect_err(Parameters::from_attribute("#[foo]")), ParameterError::NotList);
}

#[test]
fn key_value_attribute_is_not_list() {
    assert_eq!(expect_err(Parameters::from_attribute("#[foo = true]")), ParameterError::NotList);
}

#[test]
fn malformed_literal_is_rejected() {
    assert_eq!(
        expect_err(Parameters::from_attribute_args("message = 42")),
        ParameterError::MalformedParameter
    );
    assert_eq!(
        expect_err(Parameters::from_attribute_args("message = ")),
        ParameterError::MalformedParameter
    );
    assert_eq!(
        expect_err(Parameters::from_attribute_args("= true")),
        ParameterError::MalformedParameter
    );
}

#[test]
fn duplicate_name_is_rejected() {
    assert_eq!(
        expect_err(Parameters::from_attribute_args("message = \"a\", message = \"b\"")),
        ParameterError::DuplicateParameter
    );
}

#[test]
fn bare_name_reads_as_true() {
    let parameters = Parameters::from_attribute_args("impl_from").unwrap();
    assert_eq!(parameters.bool_for_name("impl_from"), true);
    assert_eq!(parameters.bool_for_name("absent"), false);
}

#[test]
fn explicit_booleans_are_read() {
    let parameters = Parameters::from_attribute_args("a = true, b = false").unwrap();
    assert_eq!(parameters.bool_for_name("a"), true);
    assert_eq!(parameters.bool_for_name("b"), false);
}

#[test]
fn commas_inside_string_literals_stay_in_the_value() {
    let parameters = Parameters::from_attribute_args("message = \"a, b = c\"").unwrap();
    assert_eq!(parameters.size(), 1);
    assert_eq!(parameters.string_for_name("message"), Some("a, b = c".to_string()));
}
