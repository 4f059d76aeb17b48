//! Errors reported when a purl breaks the rules of its type.

use vstd::prelude::*;

verus! {

/// Why a purl was refused. Each variant carries the purl's type, and the offending
/// value where there is one.
#[derive(Debug, PartialEq, Eq)]
pub enum Error {
    /// The type needs a namespace and the purl has none.
    TypeRequiresNamespace(String),
    /// The type forbids a namespace and the purl has one.
    TypeProhibitsNamespace(String),
    /// The type needs a qualifier (the second field) that the purl lacks.
    MissingRequiredQualifier(String, String),
    /// The name (the second field) is not a valid name for the type.
    InvalidName(String, String),
    /// The version (the second field) is not a valid version for the type.
    InvalidVersion(String, String),
}

/// An [`Error`] with its strings taken as character sequences.
pub enum ErrorModel {
    TypeRequiresNamespace(Seq<char>),
    TypeProhibitsNamespace(Seq<char>),
    MissingRequiredQualifier(Seq<char>, Seq<char>),
    InvalidName(Seq<char>, Seq<char>),
    InvalidVersion(Seq<char>, Seq<char>),
}

impl View for Error {
    type V = ErrorModel;

    open spec fn view(&self) -> ErrorModel {
        match self {
            Error::TypeRequiresNamespace(t) => ErrorModel::TypeRequiresNamespace(t@),
            Error::TypeProhibitsNamespace(t) => ErrorModel::TypeProhibitsNamespace(t@),
            Error::MissingRequiredQualifier(t, k) => ErrorModel::MissingRequiredQualifier(t@, k@),
            Error::InvalidName(t, n) => ErrorModel::InvalidName(t@, n@),
            Error::InvalidVersion(t, v) => ErrorModel::InvalidVersion(t@, v@),
        }
    }
}

/// The outcome of a check, with the error taken by its view.
pub open spec fn outcome(r: Result<(), Error>) -> Result<(), ErrorModel> {
    match r {
        Ok(()) => Ok(()),
        Err(e) => Err(e@),
    }
}

} // verus!
