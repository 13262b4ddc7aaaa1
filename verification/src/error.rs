//! Error type for the library.
//!
//! Payloads carried from external collaborators are reduced to plain strings;
//! per-target variants carry the target path so that a failure in a batch can
//! always be attributed to its target.

use vstd::prelude::*;

verus! {

/// Errors that can occur during cache, conversion, and customization
/// operations.
#[derive(Debug, Clone, PartialEq, Eq)]
pub enum Error {
    /// Failed to determine the app data directory.
    AppDataDir(String),
    /// The external icon provider failed.
    IconSys(String),
    /// Error during icon caching.
    Cache(String),
    /// I/O error reported by the environment.
    Io(String),
    /// Failed to customize a folder; carries the folder path and the cause.
    FolderCustomization(String, String),
    /// Failed to reset a folder; carries the folder path and the cause.
    FolderReset(String, String),
    /// Image encoding or decoding error.
    Image(String),
    /// Context not properly initialized.
    NotInitialized(String),
    /// Manifest serialization or parse error.
    Serialization(String),
    /// Folder settings error reported by the per-target apply capability.
    FolderSettings(String),
    /// Icon rendering error.
    Render(String),
}

impl Error {
    /// A short label naming the error kind.
    pub fn kind_name(&self) -> (r: &'static str)
        ensures
            r@ == spec_kind_name(*self),
    {
        match self {
            Error::AppDataDir(_) => "app data directory error",
            Error::IconSys(_) => "icon system error",
            Error::Cache(_) => "cache error",
            Error::Io(_) => "IO error",
            Error::FolderCustomization(_, _) => "failed to customize folder",
            Error::FolderReset(_, _) => "failed to reset folder",
            Error::Image(_) => "image error",
            Error::NotInitialized(_) => "context not initialized",
            Error::Serialization(_) => "serialization error",
            Error::FolderSettings(_) => "folder settings error",
            Error::Render(_) => "rendering error",
        }
    }
}

/// The label that `kind_name` returns for each variant.
pub open spec fn spec_kind_name(e: Error) -> Seq<char> {
    match e {
        Error::AppDataDir(_) => "app data directory error"@,
        Error::IconSys(_) => "icon system error"@,
        Error::Cache(_) => "cache error"@,
        Error::Io(_) => "IO error"@,
        Error::FolderCustomization(_, _) => "failed to customize folder"@,
        Error::FolderReset(_, _) => "failed to reset folder"@,
        Error::Image(_) => "image error"@,
        Error::NotInitialized(_) => "context not initialized"@,
        Error::Serialization(_) => "serialization error"@,
        Error::FolderSettings(_) => "folder settings error"@,
        Error::Render(_) => "rendering error"@,
    }
}

} // verus!
