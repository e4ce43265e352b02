//! Tests of the parameter validator.

use error_gen::decl::{FieldShape, VariantEntry};
use error_gen::parameters::Parameters;
use error_gen::validator::{ValidationError, Validator};

fn params(args: &str) -> Parameters {
    Parameters::from_attribute_args(args).expect("parameters should parse")
}

#[test]
fn known_parameters_pass() {
    let mut validator = Validator::new();
    validator.check_struct_parameters(&params("message = \"x\""));
    validator.check_enum_parameters(&params("message = \"x\", impl_from"));
    assert_eq!(validator.errors.len(), 0);
}

#[test]
fn unknown_parameter_is_reported() {
    let mut validator = Validator::new();
    validator.check_struct_parameters(&params("massage = \"x\""));
    assert_eq!(
        validator.errors,
        vec![ValidationError::UnknownParameter { param: "massage".to_string() }]
    );
}

#[test]
fn impl_from_is_unknown_on_structs() {
    let mut validator = Validator::new();
    validator.check_struct_parameters(&params("impl_from"));
    assert_eq!(
        validator.errors,
        vec![ValidationError::UnknownParameter { param: "impl_from".to_string() }]
    );
}

#[test]
fn redundant_variant_flag_is_reported() {
    let mut validator = Validator::new();
    let variant = VariantEntry {
        ident: "Foo".to_string(),
        shape: FieldShape::Unit,
        attr: None,
        decl_text: "Foo".to_string(),
    };
    validator.check_impl_from(true, &params("impl_from"), &variant);
    assert_eq!(
        validator.errors,
        vec![ValidationError::UnnecessaryImplFrom { variant_name: "Foo".to_string() }]
    );
    let mut quiet = Validator::new();
    quiet.check_impl_from(false, &params("impl_from"), &variant);
    assert_eq!(quiet.errors.len(), 0);
}
