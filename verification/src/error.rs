//! What can go wrong.
use vstd::prelude::*;
use crate::text::{concat, concat3};

verus! {

/// What went wrong, where it went wrong, and what was said about it.
#[derive(Debug)]
pub enum Error {
    ReadConfig { path: String, source: String },
    WriteConfig { path: String, source: String },
    ParseConfig { path: String, source: String },
    SerializeConfig(String),
    NoConfigDir,
    Ssh { alias: String, source: String },
    Pty { alias: String, source: String },
}

/// The model of an error.
#[verifier::ext_equal]
pub enum ErrorView {
    ReadConfig { path: Seq<char>, source: Seq<char> },
    WriteConfig { path: Seq<char>, source: Seq<char> },
    ParseConfig { path: Seq<char>, source: Seq<char> },
    SerializeConfig(Seq<char>),
    NoConfigDir,
    Ssh { alias: Seq<char>, source: Seq<char> },
    Pty { alias: Seq<char>, source: Seq<char> },
}

impl View for Error {
    type V = ErrorView;

    open spec fn view(&self) -> ErrorView {
        match self {
            Error::ReadConfig { path, source } => ErrorView::ReadConfig {
                path: path@,
                source: source@,
            },
            Error::WriteConfig { path, source } => ErrorView::WriteConfig {
                path: path@,
                source: source@,
            },
            Error::ParseConfig { path, source } => ErrorView::ParseConfig {
                path: path@,
                source: source@,
            },
            Error::SerializeConfig(source) => ErrorView::SerializeConfig(source@),
            Error::NoConfigDir => ErrorView::NoConfigDir,
            Error::Ssh { alias, source } => ErrorView::Ssh { alias: alias@, source: source@ },
            Error::Pty { alias, source } => ErrorView::Pty { alias: alias@, source: source@ },
        }
    }
}

impl ErrorView {
    /// The sentence that tells the error.
    pub open spec fn text(self) -> Seq<char> {
        match self {
            ErrorView::ReadConfig { path, .. } => "failed to read config from "@ + path,
            ErrorView::WriteConfig { path, .. } => "failed to write config to "@ + path,
            ErrorView::ParseConfig { path, .. } => "failed to parse config from "@ + path,
            ErrorView::SerializeConfig(_) => "failed to serialize config"@,
            ErrorView::NoConfigDir => "could not determine config directory"@,
            ErrorView::Ssh { alias, .. } => "ssh connection to '"@ + alias + "' failed"@,
            ErrorView::Pty { alias, .. } => "PTY error for '"@ + alias + "'"@,
        }
    }
}

impl Error {
    /// The sentence that tells the error.
    pub fn to_string(&self) -> (text: String)
        ensures
            text@ == self@.text(),
    {
        match self {
            Error::ReadConfig { path, .. } => concat("failed to read config from ", path.as_str()),
            Error::WriteConfig { path, .. } => concat("failed to write config to ", path.as_str()),
            Error::ParseConfig { path, .. } => {
                concat("failed to parse config from ", path.as_str())
            },
            Error::SerializeConfig(_) => "failed to serialize config".to_string(),
            Error::NoConfigDir => "could not determine config directory".to_string(),
            Error::Ssh { alias, .. } => concat3("ssh connection to '", alias.as_str(), "' failed"),
            Error::Pty { alias, .. } => concat3("PTY error for '", alias.as_str(), "'"),
        }
    }
}

} // verus!
