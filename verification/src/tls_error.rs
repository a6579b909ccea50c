//! What can be wrong with the material of an mTLS profile.
use crate::paths::{path_text, shown_path};
use crate::text::{append_signed, decimal};
use vstd::prelude::*;
use vstd::string::StringExecFns;

verus! {

/// Role of one file of an mTLS profile.
#[derive(Clone, Copy, Debug, PartialEq, Eq, Structural)]
pub enum TlsMaterialKind {
    CaBundle,
    ClientCertificate,
    ClientKey,
}

impl TlsMaterialKind {
    /// The role in words.
    pub open spec fn text(self) -> Seq<char> {
        match self {
            TlsMaterialKind::CaBundle => "CA bundle"@,
            TlsMaterialKind::ClientCertificate => "client certificate"@,
            TlsMaterialKind::ClientKey => "client key"@,
        }
    }

    /// The role in words.
    pub fn label(&self) -> (r: &'static str)
        ensures
            r@ == self.text(),
    {
        match self {
            TlsMaterialKind::CaBundle => "CA bundle",
            TlsMaterialKind::ClientCertificate => "client certificate",
            TlsMaterialKind::ClientKey => "client key",
        }
    }
}

/// Why the material of an mTLS profile cannot be used.
#[derive(Clone, Debug, PartialEq, Eq)]
pub enum TlsError {
    /// A file could not be read.
    Read { kind: TlsMaterialKind, path: std::path::PathBuf, source: String },
    /// A file holds nothing but white space.
    Empty { kind: TlsMaterialKind, path: std::path::PathBuf },
    /// A file does not hold what it should.
    Parse { kind: TlsMaterialKind, path: std::path::PathBuf, message: String },
    /// A certificate is not valid yet.
    NotYetValid { kind: TlsMaterialKind, path: std::path::PathBuf, not_before: i64 },
    /// A certificate is not valid any more.
    Expired { kind: TlsMaterialKind, path: std::path::PathBuf, not_after: i64 },
    /// No certificate of the CA bundle is a trust anchor.
    NoTrustedCa { path: std::path::PathBuf },
    /// The client certificate and the client key do not make up an identity.
    InvalidIdentity { source: String },
    /// The HTTP client does not take the CA bundle.
    HttpCaBundle { source: String },
    /// The HTTP client does not take the client identity.
    HttpIdentity { source: String },
    /// The HTTP client could not be built.
    HttpClient { source: String },
}

/// Model of [`TlsError`].
pub enum TlsErrorView {
    Read { kind: TlsMaterialKind, path: std::path::PathBuf, source: Seq<char> },
    Empty { kind: TlsMaterialKind, path: std::path::PathBuf },
    Parse { kind: TlsMaterialKind, path: std::path::PathBuf, message: Seq<char> },
    NotYetValid { kind: TlsMaterialKind, path: std::path::PathBuf, not_before: i64 },
    Expired { kind: TlsMaterialKind, path: std::path::PathBuf, not_after: i64 },
    NoTrustedCa { path: std::path::PathBuf },
    InvalidIdentity { source: Seq<char> },
    HttpCaBundle { source: Seq<char> },
    HttpIdentity { source: Seq<char> },
    HttpClient { source: Seq<char> },
}

impl DeepView for TlsError {
    type V = TlsErrorView;

    open spec fn deep_view(&self) -> TlsErrorView {
        match self {
            TlsError::Read { kind, path, source } => TlsErrorView::Read {
                kind: *kind,
                path: *path,
                source: source@,
            },
            TlsError::Empty { kind, path } => TlsErrorView::Empty { kind: *kind, path: *path },
            TlsError::Parse { kind, path, message } => TlsErrorView::Parse {
                kind: *kind,
                path: *path,
                message: message@,
            },
            TlsError::NotYetValid { kind, path, not_before } => TlsErrorView::NotYetValid {
                kind: *kind,
                path: *path,
                not_before: *not_before,
            },
            TlsError::Expired { kind, path, not_after } => TlsErrorView::Expired {
                kind: *kind,
                path: *path,
                not_after: *not_after,
            },
            TlsError::NoTrustedCa { path } => TlsErrorView::NoTrustedCa { path: *path },
            TlsError::InvalidIdentity { source } => TlsErrorView::InvalidIdentity {
                source: source@,
            },
            TlsError::HttpCaBundle { source } => TlsErrorView::HttpCaBundle { source: source@ },
            TlsError::HttpIdentity { source } => TlsErrorView::HttpIdentity { source: source@ },
            TlsError::HttpClient { source } => TlsErrorView::HttpClient { source: source@ },
        }
    }
}

impl TlsErrorView {
    /// The file that the error is about: its role and its path.
    pub open spec fn file(self) -> Option<(TlsMaterialKind, std::path::PathBuf)> {
        match self {
            TlsErrorView::Read { kind, path, source } => Some((kind, path)),
            TlsErrorView::Empty { kind, path } => Some((kind, path)),
            TlsErrorView::Parse { kind, path, message } => Some((kind, path)),
            TlsErrorView::NotYetValid { kind, path, not_before } => Some((kind, path)),
            TlsErrorView::Expired { kind, path, not_after } => Some((kind, path)),
            TlsErrorView::NoTrustedCa { path } => Some((TlsMaterialKind::CaBundle, path)),
            _ => None,
        }
    }

    /// The text for an operator.
    pub open spec fn text(self) -> Seq<char> {
        match self {
            TlsErrorView::Read { kind, path, source } => "failed to read mTLS profile "@
                + kind.text() + " at "@ + path_text(path) + ": "@ + source,
            TlsErrorView::Empty { kind, path } => "mTLS profile "@ + kind.text() + " at "@
                + path_text(path) + " is empty"@,
            TlsErrorView::Parse { kind, path, message } => "failed to parse mTLS profile "@
                + kind.text() + " at "@ + path_text(path) + ": "@ + message,
            TlsErrorView::NotYetValid { kind, path, not_before } => "mTLS profile "@ + kind.text()
                + " certificate at "@ + path_text(path) + " is not valid before unix timestamp "@
                + decimal(not_before as int),
            TlsErrorView::Expired { kind, path, not_after } => "mTLS profile "@ + kind.text()
                + " certificate at "@ + path_text(path) + " expired at unix timestamp "@
                + decimal(not_after as int),
            TlsErrorView::NoTrustedCa { path } => "mTLS profile CA bundle at "@ + path_text(path)
                + " contains no usable trust anchors"@,
            TlsErrorView::InvalidIdentity { source } =>
                "mTLS profile client certificate and key are invalid or do not match: "@ + source,
            TlsErrorView::HttpCaBundle { source } =>
                "failed to create mTLS profile HTTP CA bundle: "@ + source,
            TlsErrorView::HttpIdentity { source } =>
                "failed to create mTLS profile HTTP client identity: "@ + source,
            TlsErrorView::HttpClient { source } => "failed to create mTLS profile HTTP client: "@
                + source,
        }
    }
}

/// A text made of a start, the role of a file, a link, the path of the file, and an end.
fn about_file(
    start: &str,
    kind: TlsMaterialKind,
    link: &str,
    path: &std::path::PathBuf,
    end: &str,
) -> (r: String)
    ensures
        r@ == start@ + kind.text() + link@ + path_text(*path) + end@,
{
    let mut text = start.to_owned();
    text.append(kind.label());
    text.append(link);
    text.append(shown_path(path).as_str());
    text.append(end);
    text
}

impl TlsError {
    /// The text for an operator.
    pub fn message(&self) -> (r: String)
        ensures
            r@ == self.deep_view().text(),
    {
        match self {
            TlsError::Read { kind, path, source } => {
                let mut text = about_file(
                    "failed to read mTLS profile ",
                    *kind,
                    " at ",
                    path,
                    ": ",
                );
                text.append(source.as_str());
                text
            },
            TlsError::Empty { kind, path } => about_file(
                "mTLS profile ",
                *kind,
                " at ",
                path,
                " is empty",
            ),
            TlsError::Parse { kind, path, message } => {
                let mut text = about_file(
                    "failed to parse mTLS profile ",
                    *kind,
                    " at ",
                    path,
                    ": ",
                );
                text.append(message.as_str());
                text
            },
            TlsError::NotYetValid { kind, path, not_before } => {
                let mut text = about_file(
                    "mTLS profile ",
                    *kind,
                    " certificate at ",
                    path,
                    " is not valid before unix timestamp ",
                );
                append_signed(&mut text, *not_before);
                text
            },
            TlsError::Expired { kind, path, not_after } => {
                let mut text = about_file(
                    "mTLS profile ",
                    *kind,
                    " certificate at ",
                    path,
                    " expired at unix timestamp ",
                );
                append_signed(&mut text, *not_after);
                text
            },
            TlsError::NoTrustedCa { path } => {
                let mut text = "mTLS profile CA bundle at ".to_owned();
                text.append(shown_path(path).as_str());
                text.append(" contains no usable trust anchors");
                text
            },
            TlsError::InvalidIdentity { source } => {
                "mTLS profile client certificate and key are invalid or do not match: ".to_owned()
                    .concat(source.as_str())
            },
            TlsError::HttpCaBundle { source } => {
                "failed to create mTLS profile HTTP CA bundle: ".to_owned().concat(source.as_str())
            },
            TlsError::HttpIdentity { source } => {
                "failed to create mTLS profile HTTP client identity: ".to_owned().concat(
                    source.as_str(),
                )
            },
            TlsError::HttpClient { source } => {
                "failed to create mTLS profile HTTP client: ".to_owned().concat(source.as_str())
            },
        }
    }
}

} // verus!
