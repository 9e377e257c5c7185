//! The error type shared by every OpenCAD operation.

use vstd::prelude::*;

verus! {

/// The JSON serializer's error, carried by [`OpenCadError::Serialization`].
#[verifier::external_type_specification]
#[verifier::external_body]
pub struct ExSerdeJsonError(serde_json::Error);

/// Primary error type for OpenCAD operations.
#[derive(Debug)]
pub enum OpenCadError {
    InvalidId(String),
    InvalidUnit(String),
    InvalidExpression(String),
    Serialization(serde_json::Error),
    Validation(String),
    Transaction(String),
    NotFound(String),
    ChecksumMismatch { expected: String, actual: String },
    Other(String),
}

/// The text of a `serde_json::Error`, as its `Display` implementation writes it.
#[verifier::external_body]
fn serde_json_error_text(err: &serde_json::Error) -> String {
    err.to_string()
}

impl OpenCadError {
    /// A validation failure with the given message.
    pub fn validation(message: &str) -> (e: Self)
        ensures
            e matches OpenCadError::Validation(m) && m@ == message@,
    {
        OpenCadError::Validation(message.to_owned())
    }

    /// A transaction failure with the given message.
    pub fn transaction(message: &str) -> (e: Self)
        ensures
            e matches OpenCadError::Transaction(m) && m@ == message@,
    {
        OpenCadError::Transaction(message.to_owned())
    }

    /// A lookup failure with the given message.
    pub fn not_found(message: &str) -> (e: Self)
        ensures
            e matches OpenCadError::NotFound(m) && m@ == message@,
    {
        OpenCadError::NotFound(message.to_owned())
    }

    /// The human-readable message of the error, as displayed to users.
    pub fn to_message(&self) -> (s: String)
        ensures
            match self {
                OpenCadError::InvalidId(m) => s@ == "invalid id: "@ + m@,
                OpenCadError::InvalidUnit(m) => s@ == "invalid unit: "@ + m@,
                OpenCadError::InvalidExpression(m) => s@ == "invalid expression: "@ + m@,
                OpenCadError::Serialization(_) => s@.len() >= "serialization error: "@.len()
                    && s@.subrange(0, "serialization error: "@.len() as int)
                    == "serialization error: "@,
                OpenCadError::Validation(m) => s@ == "validation failed: "@ + m@,
                OpenCadError::Transaction(m) => s@ == "transaction error: "@ + m@,
                OpenCadError::NotFound(m) => s@ == "not found: "@ + m@,
                OpenCadError::ChecksumMismatch { expected, actual } => s@
                    == "checksum mismatch: expected "@ + expected@ + ", got "@ + actual@,
                OpenCadError::Other(m) => s@ == m@,
            },
    {
        match self {
            OpenCadError::InvalidId(m) => {
                let mut s = "invalid id: ".to_owned();
                s.push_str(m.as_str());
                s
            },
            OpenCadError::InvalidUnit(m) => {
                let mut s = "invalid unit: ".to_owned();
                s.push_str(m.as_str());
                s
            },
            OpenCadError::InvalidExpression(m) => {
                let mut s = "invalid expression: ".to_owned();
                s.push_str(m.as_str());
                s
            },
            OpenCadError::Serialization(e) => {
                let mut s = "serialization error: ".to_owned();
                let detail = serde_json_error_text(e);
                s.push_str(detail.as_str());
                assert(s@.subrange(0, "serialization error: "@.len() as int)
                    =~= "serialization error: "@);
                s
            },
            OpenCadError::Validation(m) => {
                let mut s = "validation failed: ".to_owned();
                s.push_str(m.as_str());
                s
            },
            OpenCadError::Transaction(m) => {
                let mut s = "transaction error: ".to_owned();
                s.push_str(m.as_str());
                s
            },
            OpenCadError::NotFound(m) => {
                let mut s = "not found: ".to_owned();
                s.push_str(m.as_str());
                s
            },
            OpenCadError::ChecksumMismatch { expected, actual } => {
                let mut s = "checksum mismatch: expected ".to_owned();
                s.push_str(expected.as_str());
                s.push_str(", got ");
                s.push_str(actual.as_str());
                s
            },
            OpenCadError::Other(m) => m.clone(),
        }
    }
}

} // verus!
