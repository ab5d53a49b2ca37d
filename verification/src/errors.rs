//! Error types surfaced by the pipeline.

use vstd::prelude::*;

verus! {

/// A top-level application error carrying a human-readable description.
#[derive(Debug, PartialEq, Eq)]
pub struct AppError(pub String);

impl AppError {
    /// The error's description.
    pub fn message(&self) -> (m: String)
        ensures
            m@ == self.0@,
    {
        self.0.clone()
    }
}

/// A failure of the persistent quest store.
#[derive(Debug, PartialEq, Eq)]
pub enum StorageError {
    /// The store was initialized with a backend identifier it does not know.
    UnknownBackend(String),
}

impl StorageError {
    /// The backend identifier the failing store was initialized with.
    pub open spec fn spec_backend_name(&self) -> Seq<char> {
        match self {
            StorageError::UnknownBackend(name) => name@,
        }
    }

    /// The error's description.
    pub fn message(&self) -> (m: String)
        ensures
            m@ == "unknown storage type: "@ + self.spec_backend_name(),
    {
        match self {
            StorageError::UnknownBackend(name) => {
                let mut m = String::from_str("unknown storage type: ");
                m.append(name.as_str());
                m
            },
        }
    }
}

/// A failure while loading or interpreting the configuration file.
#[derive(Debug, PartialEq, Eq)]
pub enum ConfigError {
    FileNotFound(String),
    IoError(String),
    ParseError(String),
    InvalidToken(String),
}

impl ConfigError {
    /// The detail string the error carries.
    pub open spec fn spec_detail(&self) -> Seq<char> {
        match self {
            ConfigError::FileNotFound(d) => d@,
            ConfigError::IoError(d) => d@,
            ConfigError::ParseError(d) => d@,
            ConfigError::InvalidToken(d) => d@,
        }
    }

    /// The error's description.
    pub fn message(&self) -> (m: String)
        ensures
            m@ == match self {
                ConfigError::FileNotFound(d) => "File not found: "@ + d@,
                ConfigError::IoError(d) => "IO error: "@ + d@,
                ConfigError::ParseError(d) => "Parse error: "@ + d@,
                ConfigError::InvalidToken(d) => "Invalid token: "@ + d@,
            },
    {
        match self {
            ConfigError::FileNotFound(d) => {
                let mut m = String::from_str("File not found: ");
                m.append(d.as_str());
                m
            },
            ConfigError::IoError(d) => {
                let mut m = String::from_str("IO error: ");
                m.append(d.as_str());
                m
            },
            ConfigError::ParseError(d) => {
                let mut m = String::from_str("Parse error: ");
                m.append(d.as_str());
                m
            },
            ConfigError::InvalidToken(d) => {
                let mut m = String::from_str("Invalid token: ");
                m.append(d.as_str());
                m
            },
        }
    }
}

} // verus!
