//! Generation of the `Display` implementation: the template scanner,
//! the placeholder compiler, and the struct and enum pipelines.

use vstd::prelude::*;
use vstd::string::StringExecFns;

pub mod compile;
pub mod enums;
pub mod structs;
pub mod write;

verus! {

/// Why a `Display` implementation could not be generated.
#[derive(Debug, PartialEq, Eq, Clone)]
pub enum DisplayImplementationError {
    /// Some variants of the named enum lack a message and no default
    /// message stands at the enum.
    MissingMessages(String),
    /// Every variant of the named enum has its own message, yet a
    /// default message stands at the enum and could never be reached.
    UnnecessaryDefaultMessage(String),
    /// The braces of the carried message template are unbalanced.
    UnbalancedTemplate(String),
}

/// The diagnostic text of a display-generation error.
pub open spec fn display_error_text(e: DisplayImplementationError) -> Seq<char> {
    match e {
        DisplayImplementationError::MissingMessages(id) => "Not all variants of enum '"@ + id@
            + "' have a Display message. Consider adding a default message at the enum item."@,
        DisplayImplementationError::UnnecessaryDefaultMessage(id) => "All variants for enum '"@
            + id@
            + "' have a Display message, but a default was provided anyways. Please remove the default."@,
        DisplayImplementationError::UnbalancedTemplate(t) => "The Display message '"@ + t@
            + "' has unbalanced braces."@,
    }
}

impl DisplayImplementationError {
    /// The diagnostic text for this error.
    pub fn message(&self) -> (r: String)
        ensures
            r@ == display_error_text(*self),
    {
        match self {
            DisplayImplementationError::MissingMessages(id) => {
                let mut r = String::from_str("Not all variants of enum '");
                r.append(id.as_str());
                r.append("' have a Display message. Consider adding a default message at the enum item.");
                r
            },
            DisplayImplementationError::UnnecessaryDefaultMessage(id) => {
                let mut r = String::from_str("All variants for enum '");
                r.append(id.as_str());
                r.append("' have a Display message, but a default was provided anyways. Please remove the default.");
                r
            },
            DisplayImplementationError::UnbalancedTemplate(t) => {
                let mut r = String::from_str("The Display message '");
                r.append(t.as_str());
                r.append("' has unbalanced braces.");
                r
            },
        }
    }
}

} // verus!
