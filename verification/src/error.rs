//! What can go wrong with a vault.
use vstd::prelude::*;
use vstd::std_specs::convert::FromSpecImpl;
use vstd::string::*;

verus! {

/// An operating-system error, carried through unread.
#[verifier::external_type_specification]
#[verifier::external_body]
pub struct ExIoError(std::io::Error);

/// A JSON error, carried through unread.
#[verifier::external_type_specification]
#[verifier::external_body]
pub struct ExJsonError(serde_json::Error);

/// The ways in which a vault operation fails.
#[derive(Debug)]
pub enum VaultError {
    Io(std::io::Error),
    Serde(serde_json::Error),
    Crypto(&'static str),
    InvalidData(&'static str),
    InvalidInput(String),
}

/// What a [`VaultError`] says, with its text as characters.
pub enum Failure {
    Io(std::io::Error),
    Serde(serde_json::Error),
    Crypto(Seq<char>),
    InvalidData(Seq<char>),
    InvalidInput(Seq<char>),
}

impl View for VaultError {
    type V = Failure;

    open spec fn view(&self) -> Failure {
        match *self {
            VaultError::Io(err) => Failure::Io(err),
            VaultError::Serde(err) => Failure::Serde(err),
            VaultError::Crypto(msg) => Failure::Crypto(msg@),
            VaultError::InvalidData(msg) => Failure::InvalidData(msg@),
            VaultError::InvalidInput(msg) => Failure::InvalidInput(msg@),
        }
    }
}

/// A result with the value and the error taken by their views.
pub open spec fn outcome<T: View>(result: Result<T, VaultError>) -> Result<T::V, Failure> {
    match result {
        Ok(value) => Ok(value@),
        Err(err) => Err(err@),
    }
}

/// Whether `text` shows `err` to a person: the kind of failure, a colon and
/// the detail.
pub open spec fn shows(err: VaultError, text: Seq<char>) -> bool {
    match err {
        VaultError::Io(cause) => exists|detail: String| #[trigger]
            to_string_from_display_ensures(&cause, detail) && text == "io error: "@ + detail@,
        VaultError::Serde(cause) => exists|detail: String| #[trigger]
            to_string_from_display_ensures(&cause, detail) && text == "serialization error: "@
                + detail@,
        VaultError::Crypto(msg) => text == "crypto error: "@ + msg@,
        VaultError::InvalidData(msg) => text == "invalid data: "@ + msg@,
        VaultError::InvalidInput(msg) => text == "invalid input: "@ + msg@,
    }
}

impl VaultError {
    /// The text shown to a person: the kind of failure, a colon and the detail.
    pub fn message(&self) -> (text: String)
        ensures
            shows(*self, text@),
    {
        match self {
            VaultError::Io(err) => {
                let detail = err.to_string();
                "io error: ".to_owned().concat(detail.as_str())
            },
            VaultError::Serde(err) => {
                let detail = err.to_string();
                "serialization error: ".to_owned().concat(detail.as_str())
            },
            VaultError::Crypto(msg) => "crypto error: ".to_owned().concat(msg),
            VaultError::InvalidData(msg) => "invalid data: ".to_owned().concat(msg),
            VaultError::InvalidInput(msg) => "invalid input: ".to_owned().concat(msg.as_str()),
        }
    }
}

impl From<std::io::Error> for VaultError {
    fn from(value: std::io::Error) -> (err: Self) {
        VaultError::Io(value)
    }
}

impl FromSpecImpl<std::io::Error> for VaultError {
    open spec fn obeys_from_spec() -> bool {
        true
    }

    open spec fn from_spec(value: std::io::Error) -> Self {
        VaultError::Io(value)
    }
}

impl From<serde_json::Error> for VaultError {
    fn from(value: serde_json::Error) -> (err: Self) {
        VaultError::Serde(value)
    }
}

impl FromSpecImpl<serde_json::Error> for VaultError {
    open spec fn obeys_from_spec() -> bool {
        true
    }

    open spec fn from_spec(value: serde_json::Error) -> Self {
        VaultError::Serde(value)
    }
}

} // verus!
