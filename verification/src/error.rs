//! The ways an operation can fail, and the text that tells of each.

use vstd::prelude::*;

verus! {

/// Why an operation failed. Failures of the network, of a parser or of the file system carry
/// the text that their source gave.
#[derive(Debug)]
pub enum Error {
    Http(String),
    Json(String),
    Io(String),
    NoCdnNode,
    MissingField(&'static str),
    NoLocalConfig(String),
    UnknownAppId(String),
    ChecksumMismatch { path: String, expected: String, actual: String },
    Patch(String),
    Unimplemented(&'static str),
    TokenMissing(String),
}

/// The model of [`Error`].
pub enum ErrorView {
    Http(Seq<char>),
    Json(Seq<char>),
    Io(Seq<char>),
    NoCdnNode,
    MissingField(Seq<char>),
    NoLocalConfig(Seq<char>),
    UnknownAppId(Seq<char>),
    ChecksumMismatch { path: Seq<char>, expected: Seq<char>, actual: Seq<char> },
    Patch(Seq<char>),
    Unimplemented(Seq<char>),
    TokenMissing(Seq<char>),
}

impl DeepView for Error {
    type V = ErrorView;

    open spec fn deep_view(&self) -> ErrorView {
        match self {
            Error::Http(s) => ErrorView::Http(s@),
            Error::Json(s) => ErrorView::Json(s@),
            Error::Io(s) => ErrorView::Io(s@),
            Error::NoCdnNode => ErrorView::NoCdnNode,
            Error::MissingField(s) => ErrorView::MissingField(s@),
            Error::NoLocalConfig(s) => ErrorView::NoLocalConfig(s@),
            Error::UnknownAppId(s) => ErrorView::UnknownAppId(s@),
            Error::ChecksumMismatch { path, expected, actual } => ErrorView::ChecksumMismatch {
                path: path@,
                expected: expected@,
                actual: actual@,
            },
            Error::Patch(s) => ErrorView::Patch(s@),
            Error::Unimplemented(s) => ErrorView::Unimplemented(s@),
            Error::TokenMissing(s) => ErrorView::TokenMissing(s@),
        }
    }
}

/// The text that tells of a failure.
pub open spec fn error_text(e: ErrorView) -> Seq<char> {
    match e {
        ErrorView::Http(s) => "HTTP request failed: "@ + s,
        ErrorView::Json(s) => "JSON parse failed: "@ + s,
        ErrorView::Io(s) => "I/O error: "@ + s,
        ErrorView::NoCdnNode => "no usable CDN node in cdnList"@,
        ErrorView::MissingField(s) => "missing required field `"@ + s + "`"@,
        ErrorView::NoLocalConfig(s) => "local launcher config not found at "@ + s
            + "; run with --path or set up the game first"@,
        ErrorView::UnknownAppId(s) => "unknown appId `"@ + s
            + "` — cannot map to a known game/server"@,
        ErrorView::ChecksumMismatch { path, expected, actual } => "checksum mismatch for "@ + path
            + ": expected "@ + expected + ", got "@ + actual,
        ErrorView::Patch(s) => "patch error: "@ + s,
        ErrorView::Unimplemented(s) => "unimplemented: "@ + s,
        ErrorView::TokenMissing(s) => s,
    }
}

impl Error {
    /// The text that tells of this failure.
    pub fn to_string(&self) -> (r: String)
        ensures
            r@ == error_text(self.deep_view()),
    {
        match self {
            Error::Http(s) => "HTTP request failed: ".to_owned().concat(s.as_str()),
            Error::Json(s) => "JSON parse failed: ".to_owned().concat(s.as_str()),
            Error::Io(s) => "I/O error: ".to_owned().concat(s.as_str()),
            Error::NoCdnNode => "no usable CDN node in cdnList".to_owned(),
            Error::MissingField(s) => "missing required field `".to_owned().concat(s).concat("`"),
            Error::NoLocalConfig(s) => "local launcher config not found at ".to_owned().concat(
                s.as_str(),
            ).concat("; run with --path or set up the game first"),
            Error::UnknownAppId(s) => "unknown appId `".to_owned().concat(s.as_str()).concat(
                "` — cannot map to a known game/server",
            ),
            Error::ChecksumMismatch { path, expected, actual } => "checksum mismatch for ".to_owned()
                .concat(path.as_str()).concat(": expected ").concat(expected.as_str()).concat(
                ", got ",
            ).concat(actual.as_str()),
            Error::Patch(s) => "patch error: ".to_owned().concat(s.as_str()),
            Error::Unimplemented(s) => "unimplemented: ".to_owned().concat(s),
            Error::TokenMissing(s) => s.clone(),
        }
    }
}

impl Clone for Error {
    fn clone(&self) -> (r: Self)
        ensures
            r.deep_view() == self.deep_view(),
    {
        match self {
            Error::Http(s) => Error::Http(s.clone()),
            Error::Json(s) => Error::Json(s.clone()),
            Error::Io(s) => Error::Io(s.clone()),
            Error::NoCdnNode => Error::NoCdnNode,
            Error::MissingField(s) => Error::MissingField(s),
            Error::NoLocalConfig(s) => Error::NoLocalConfig(s.clone()),
            Error::UnknownAppId(s) => Error::UnknownAppId(s.clone()),
            Error::ChecksumMismatch { path, expected, actual } => Error::ChecksumMismatch {
                path: path.clone(),
                expected: expected.clone(),
                actual: actual.clone(),
            },
            Error::Patch(s) => Error::Patch(s.clone()),
            Error::Unimplemented(s) => Error::Unimplemented(s),
            Error::TokenMissing(s) => Error::TokenMissing(s.clone()),
        }
    }
}

}
