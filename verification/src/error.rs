//! Errors: the parser-facing `IngestError`, and `AppError`, the errors an
//! HTTP handler answers with, each with its status code and message.

use vstd::prelude::*;

use crate::text::concat2;
use crate::text::concat3;
use crate::text::concat4;
use crate::text::owned;

verus! {

/// An error in the ingestion/parsing step, kept apart from `AppError` so
/// that ingestors need not know about HTTP.
#[derive(Debug)]
pub enum IngestError {
    Malformed(String),
}

impl IngestError {
    /// The text the error is shown as.
    pub open spec fn message(self) -> Seq<char> {
        match self {
            IngestError::Malformed(m) => m@,
        }
    }

    /// The text the error is shown as.
    pub fn to_string(&self) -> (s: String)
        ensures
            s@ == self.message(),
    {
        match self {
            IngestError::Malformed(m) => m.clone(),
        }
    }
}

/// The errors a request handler answers with. The causes that come from
/// outside (database, multipart stream, I/O) are held by their text.
#[derive(Debug)]
pub enum AppError {
    UnsupportedType(String),
    ParseError { filename: String, reason: String },
    Database(String),
    Multipart(String),
    NoFileProvided,
    Io(String),
    Unauthorized,
}

impl AppError {
    /// The HTTP status code the error is answered with.
    pub open spec fn status_spec(self) -> u16 {
        match self {
            AppError::UnsupportedType(_) => 422,
            AppError::ParseError { .. } => 422,
            AppError::NoFileProvided => 400,
            AppError::Multipart(_) => 400,
            AppError::Database(_) => 500,
            AppError::Io(_) => 500,
            AppError::Unauthorized => 401,
        }
    }

    /// The text of the `error` field of the JSON body.
    pub open spec fn message(self) -> Seq<char> {
        match self {
            AppError::UnsupportedType(f) => "unsupported asset type for file '"@ + f@ + "'"@,
            AppError::ParseError { filename, reason } => "failed to parse file '"@ + filename@
                + "': "@ + reason@,
            AppError::Database(e) => "database error: "@ + e@,
            AppError::Multipart(e) => "multipart error: "@ + e@,
            AppError::NoFileProvided => "no file provided in upload"@,
            AppError::Io(e) => "io error: "@ + e@,
            AppError::Unauthorized => "missing or invalid API key"@,
        }
    }

    /// The HTTP status code the error is answered with.
    pub fn status_code(&self) -> (code: u16)
        ensures
            code == self.status_spec(),
    {
        match self {
            AppError::UnsupportedType(_) => 422,
            AppError::ParseError { .. } => 422,
            AppError::NoFileProvided => 400,
            AppError::Multipart(_) => 400,
            AppError::Database(_) => 500,
            AppError::Io(_) => 500,
            AppError::Unauthorized => 401,
        }
    }

    /// The text of the `error` field of the JSON body.
    pub fn to_string(&self) -> (s: String)
        ensures
            s@ == self.message(),
    {
        match self {
            AppError::UnsupportedType(f) => concat3(
                "unsupported asset type for file '",
                f.as_str(),
                "'",
            ),
            AppError::ParseError { filename, reason } => concat4(
                "failed to parse file '",
                filename.as_str(),
                "': ",
                reason.as_str(),
            ),
            AppError::Database(e) => concat2("database error: ", e.as_str()),
            AppError::Multipart(e) => concat2("multipart error: ", e.as_str()),
            AppError::NoFileProvided => owned("no file provided in upload"),
            AppError::Io(e) => concat2("io error: ", e.as_str()),
            AppError::Unauthorized => owned("missing or invalid API key"),
        }
    }
}

} // verus!
