//! The ways in which a pipeline run can fail.

use crate::text::{decimal, decimal_of};
use vstd::prelude::*;

verus! {

/// Why a stage of the pipeline failed.
#[derive(Debug, Clone, PartialEq, Eq)]
pub enum PipelineError {
    /// The input URL is malformed; no request was sent.
    UrlError,
    /// The remote host could not be reached or stopped answering; the cause.
    ConnectionError(String),
    /// The server answered with a status that is not a success; the status.
    HttpStatusError(u16),
    /// The local filesystem refused an operation; the path and the cause.
    IoError(String, String),
    /// The archive or one of its entries cannot be read; the cause.
    ArchiveError(String),
    /// The codec rejected a chart file; its message.
    CodecError(String),
    /// The destination is configured but cannot be used; the cause.
    ConfigError(String),
}

/// The model of an error: its kind, with what it carries as plain text.
pub enum ErrorModel {
    Url,
    Connection(Seq<char>),
    HttpStatus(u16),
    Io(Seq<char>, Seq<char>),
    Archive(Seq<char>),
    Codec(Seq<char>),
    Config(Seq<char>),
}

impl View for PipelineError {
    type V = ErrorModel;

    open spec fn view(&self) -> ErrorModel {
        match *self {
            PipelineError::UrlError => ErrorModel::Url,
            PipelineError::ConnectionError(cause) => ErrorModel::Connection(cause@),
            PipelineError::HttpStatusError(status) => ErrorModel::HttpStatus(status),
            PipelineError::IoError(path, cause) => ErrorModel::Io(path@, cause@),
            PipelineError::ArchiveError(cause) => ErrorModel::Archive(cause@),
            PipelineError::CodecError(message) => ErrorModel::Codec(message@),
            PipelineError::ConfigError(cause) => ErrorModel::Config(cause@),
        }
    }
}

impl ErrorModel {
    /// The error in words.
    pub open spec fn text(self) -> Seq<char> {
        match self {
            ErrorModel::Url => "Invalid URL"@,
            ErrorModel::Connection(cause) => "Connection error: "@ + cause,
            ErrorModel::HttpStatus(status) => "HTTP error: "@ + decimal(status as nat),
            ErrorModel::Io(path, cause) => "I/O error at "@ + path + ": "@ + cause,
            ErrorModel::Archive(cause) => "Archive error: "@ + cause,
            ErrorModel::Codec(message) => "Codec error: "@ + message,
            ErrorModel::Config(cause) => "Configuration error: "@ + cause,
        }
    }
}

impl PipelineError {
    /// Describes the error to a user.
    pub fn message(&self) -> (r: String)
        ensures
            r@ == self@.text(),
    {
        match self {
            PipelineError::UrlError => "Invalid URL".to_owned(),
            PipelineError::ConnectionError(cause) => "Connection error: ".to_owned().concat(
                cause.as_str(),
            ),
            PipelineError::HttpStatusError(status) => {
                let code: u64 = *status as u64;
                "HTTP error: ".to_owned().concat(decimal_of(code).as_str())
            },
            PipelineError::IoError(path, cause) => "I/O error at ".to_owned().concat(
                path.as_str(),
            ).concat(": ").concat(cause.as_str()),
            PipelineError::ArchiveError(cause) => "Archive error: ".to_owned().concat(
                cause.as_str(),
            ),
            PipelineError::CodecError(message) => "Codec error: ".to_owned().concat(
                message.as_str(),
            ),
            PipelineError::ConfigError(cause) => "Configuration error: ".to_owned().concat(
                cause.as_str(),
            ),
        }
    }
}

} // verus!
