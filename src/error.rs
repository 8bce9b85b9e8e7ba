use vstd::prelude::*;

verus! {

/// Every failure the library reports.
#[derive(Debug, Clone, PartialEq, Eq)]
pub enum ProfileError {
    /// A library identifier that is not `group:artifact:version[:classifier]`.
    MalformedCoordinate(String),
    /// A manifest entry lacks a field that the pipeline needs; carries its name.
    MissingField(String),
    /// The version-qualifier pattern could not be compiled.
    InvalidPattern,
    /// An asset hash too short to name its bucket directory.
    InvalidAssetHash(String),
    /// A remote manifest could not be fetched.
    ManifestFetch(String),
    /// A remote manifest did not match its schema.
    ManifestParse(String),
    /// A download failed (transport error or non-success status).
    Download(String),
    /// A filesystem operation failed.
    Filesystem(String),
}

/// The mathematical value of a [`ProfileError`].
pub enum ErrorModel {
    MalformedCoordinate(Seq<char>),
    MissingField(Seq<char>),
    InvalidPattern,
    InvalidAssetHash(Seq<char>),
    ManifestFetch(Seq<char>),
    ManifestParse(Seq<char>),
    Download(Seq<char>),
    Filesystem(Seq<char>),
}

impl View for ProfileError {
    type V = ErrorModel;

    open spec fn view(&self) -> ErrorModel {
        match self {
            ProfileError::MalformedCoordinate(s) => ErrorModel::MalformedCoordinate(s@),
            ProfileError::MissingField(s) => ErrorModel::MissingField(s@),
            ProfileError::InvalidPattern => ErrorModel::InvalidPattern,
            ProfileError::InvalidAssetHash(s) => ErrorModel::InvalidAssetHash(s@),
            ProfileError::ManifestFetch(s) => ErrorModel::ManifestFetch(s@),
            ProfileError::ManifestParse(s) => ErrorModel::ManifestParse(s@),
            ProfileError::Download(s) => ErrorModel::Download(s@),
            ProfileError::Filesystem(s) => ErrorModel::Filesystem(s@),
        }
    }
}

} // verus!
