//! The failures of a request, the kind each belongs to, and what a client
//! is told of it.

use vstd::prelude::*;

verus! {

/// The kinds of failure.
#[derive(Clone, Copy, Debug, PartialEq, Eq, Structural)]
pub enum ErrorKind {
    /// The crate or the artifact is not there. Expected, and the client's
    /// doing.
    NotFound,
    /// The request is malformed. The client's doing.
    BadInput,
    /// Every connection of the pool is taken.
    PoolExhausted,
    /// The artifact store failed to read or write.
    StorageIo,
    /// Anything else: a defect.
    Unexpected,
}

/// A failure of a request.
#[derive(Clone, Debug, PartialEq, Eq)]
pub enum Error {
    /// No crate has this canonical name.
    CrateNotFound { name: String },
    /// The crate is there, but the store has no artifact of this version.
    /// The version is held as the client wrote it.
    ArtifactNotFound { name: String, version: String },
    /// The text given for the version is no semantic version.
    BadRequest { version: String },
    /// No connection could be had from the pool.
    PoolExhausted,
    /// The artifact store failed.
    StorageIo,
    /// The database failed, or something happened that never should.
    Unexpected,
}

/// An error, as contracts see it.
pub enum ErrorView {
    CrateNotFound { name: Seq<char> },
    ArtifactNotFound { name: Seq<char>, version: Seq<char> },
    BadRequest { version: Seq<char> },
    PoolExhausted,
    StorageIo,
    Unexpected,
}

impl View for Error {
    type V = ErrorView;

    open spec fn view(&self) -> ErrorView {
        match self {
            Error::CrateNotFound { name } => ErrorView::CrateNotFound { name: name@ },
            Error::ArtifactNotFound { name, version } => ErrorView::ArtifactNotFound {
                name: name@,
                version: version@,
            },
            Error::BadRequest { version } => ErrorView::BadRequest { version: version@ },
            Error::PoolExhausted => ErrorView::PoolExhausted,
            Error::StorageIo => ErrorView::StorageIo,
            Error::Unexpected => ErrorView::Unexpected,
        }
    }
}

/// The kind that an error belongs to.
pub open spec fn kind_of(error: ErrorView) -> ErrorKind {
    match error {
        ErrorView::CrateNotFound { .. } => ErrorKind::NotFound,
        ErrorView::ArtifactNotFound { .. } => ErrorKind::NotFound,
        ErrorView::BadRequest { .. } => ErrorKind::BadInput,
        ErrorView::PoolExhausted => ErrorKind::PoolExhausted,
        ErrorView::StorageIo => ErrorKind::StorageIo,
        ErrorView::Unexpected => ErrorKind::Unexpected,
    }
}

/// The HTTP status that stands for a kind of failure.
pub open spec fn status_of(kind: ErrorKind) -> u16 {
    match kind {
        ErrorKind::NotFound => 404,
        ErrorKind::BadInput => 400,
        ErrorKind::PoolExhausted => 503,
        ErrorKind::StorageIo => 500,
        ErrorKind::Unexpected => 500,
    }
}

/// Whether a failure of this kind is the client's doing, and so is not
/// recorded as a failure of the server.
pub open spec fn is_client_caused(kind: ErrorKind) -> bool {
    kind == ErrorKind::NotFound || kind == ErrorKind::BadInput
}

/// What a client is told of an error: the crate and the version it asked
/// for, and nothing of the server's inside.
pub open spec fn detail_of(error: ErrorView) -> Seq<char> {
    match error {
        ErrorView::CrateNotFound { name } => "no crate named '"@ + name + "' found"@,
        ErrorView::ArtifactNotFound { name, version } => "crate '"@ + name + "' has no version '"@
            + version + "'"@,
        ErrorView::BadRequest { version } => "invalid version '"@ + version + "'"@,
        ErrorView::PoolExhausted => "the registry is busy, try again later"@,
        ErrorView::StorageIo => "the artifact store failed"@,
        ErrorView::Unexpected => "internal error"@,
    }
}

impl ErrorKind {
    /// The HTTP status that stands for this kind of failure.
    pub fn status(self) -> (status: u16)
        ensures
            status == status_of(self),
    {
        match self {
            ErrorKind::NotFound => 404,
            ErrorKind::BadInput => 400,
            ErrorKind::PoolExhausted => 503,
            ErrorKind::StorageIo => 500,
            ErrorKind::Unexpected => 500,
        }
    }

    /// Whether a failure of this kind is the client's doing.
    pub fn is_client_caused(self) -> (yes: bool)
        ensures
            yes == is_client_caused(self),
    {
        match self {
            ErrorKind::NotFound => true,
            ErrorKind::BadInput => true,
            _ => false,
        }
    }
}

impl Error {
    /// The kind that the error belongs to.
    pub fn kind(&self) -> (kind: ErrorKind)
        ensures
            kind == kind_of(self@),
    {
        match self {
            Error::CrateNotFound { .. } => ErrorKind::NotFound,
            Error::ArtifactNotFound { .. } => ErrorKind::NotFound,
            Error::BadRequest { .. } => ErrorKind::BadInput,
            Error::PoolExhausted => ErrorKind::PoolExhausted,
            Error::StorageIo => ErrorKind::StorageIo,
            Error::Unexpected => ErrorKind::Unexpected,
        }
    }

    /// The HTTP status that stands for the error.
    pub fn status(&self) -> (status: u16)
        ensures
            status == status_of(kind_of(self@)),
    {
        self.kind().status()
    }

    /// What a client is told of the error.
    pub fn detail(&self) -> (detail: String)
        ensures
            detail@ == detail_of(self@),
    {
        match self {
            Error::CrateNotFound { name } => {
                let mut detail = "no crate named '".to_owned();
                detail.append(name.as_str());
                detail.append("' found");
                detail
            },
            Error::ArtifactNotFound { name, version } => {
                let mut detail = "crate '".to_owned();
                detail.append(name.as_str());
                detail.append("' has no version '");
                detail.append(version.as_str());
                detail.append("'");
                detail
            },
            Error::BadRequest { version } => {
                let mut detail = "invalid version '".to_owned();
                detail.append(version.as_str());
                detail.append("'");
                detail
            },
            Error::PoolExhausted => "the registry is busy, try again later".to_owned(),
            Error::StorageIo => "the artifact store failed".to_owned(),
            Error::Unexpected => "internal error".to_owned(),
        }
    }

    /// A copy of the error.
    pub fn copy(&self) -> (copy: Error)
        ensures
            copy@ == self@,
    {
        match self {
            Error::CrateNotFound { name } => Error::CrateNotFound { name: name.clone() },
            Error::ArtifactNotFound { name, version } => Error::ArtifactNotFound {
                name: name.clone(),
                version: version.clone(),
            },
            Error::BadRequest { version } => Error::BadRequest { version: version.clone() },
            Error::PoolExhausted => Error::PoolExhausted,
            Error::StorageIo => Error::StorageIo,
            Error::Unexpected => Error::Unexpected,
        }
    }
}

} // verus!
