//! The errors of reading the bot's settings from environment variables.

use vstd::prelude::*;
use crate::text::push_str;

verus! {

/// Why a setting could not be read.
pub enum EnvVariableError {
    /// The variable of the given name is not set.
    RequiredVariableMissing(String),
    /// The variable does not hold a value of the expected kind; what was
    /// expected, and what went wrong.
    InvalidVariableFormat(String, String),
}

impl EnvVariableError {
    /// The message of the error.
    pub fn message(&self) -> (m: String)
        ensures
            m@ == match self {
                EnvVariableError::RequiredVariableMissing(name) =>
                    "Required environment variable is missing: "@ + name@,
                EnvVariableError::InvalidVariableFormat(expected, got) =>
                    "Environment variable has an invalid format: required "@ + expected@ + " but got "@ + got@,
            },
    {
        match self {
            EnvVariableError::RequiredVariableMissing(name) => {
                let mut m = "Required environment variable is missing: ".to_owned();
                push_str(&mut m, name.as_str());
                m
            },
            EnvVariableError::InvalidVariableFormat(expected, got) => {
                let mut m = "Environment variable has an invalid format: required ".to_owned();
                push_str(&mut m, expected.as_str());
                push_str(&mut m, " but got ");
                push_str(&mut m, got.as_str());
                m
            },
        }
    }
}

} // verus!
