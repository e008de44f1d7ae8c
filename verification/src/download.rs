//! The download handler, as the decisions it takes.
//!
//! Serving a tarball takes work that is not the handler's own: a connection
//! of the pool, two statements on the crate table, a read from the artifact
//! store, a commit or a rollback. The handler is therefore written as a
//! machine. It asks for the next piece of work as an `Action`; whoever
//! drives it does that work and hands back what came of it as a `Reply`;
//! the machine then asks for the next action, until it is done and names
//! the outcome of the request.
//!
//! The download is counted by a statement that adds one to the counter, and
//! the response is made before the commit is asked for: so a download is
//! counted if and only if its tarball was read, and a counter is never
//! written from a number that was read earlier.

use crate::error::{Error, ErrorView};
use crate::names::{canonical, canonical_name};
use crate::response::{tarball, Response, ResponseView};
use crate::store::bytes_of;
use crate::version::{viewed, semver_parse, Version, VersionView};
use vstd::prelude::*;

verus! {

/// Where a download stands: what it waits for, and what it has to
/// remember.
#[derive(Clone, Debug, PartialEq, Eq)]
pub enum Download {
    /// Waits for a connection. `requested` is the version as the client
    /// wrote it.
    Beginning { canonical: String, version: Version, requested: String },
    /// Waits for the crate's row.
    Finding { canonical: String, version: Version, requested: String },
    /// Waits for the counter to be incremented.
    Counting { name: String, version: Version, requested: String },
    /// Waits for the tarball.
    Reading { name: String, requested: String },
    /// Waits for the commit that makes the count last.
    Committing { response: Response },
    /// Waits for the rollback that undoes the unit of work.
    RollingBack { error: Error },
    /// Has named its outcome.
    Finished,
}

/// A download, as contracts see it.
pub enum DownloadView {
    Beginning { canonical: Seq<char>, version: VersionView, requested: Seq<char> },
    Finding { canonical: Seq<char>, version: VersionView, requested: Seq<char> },
    Counting { name: Seq<char>, version: VersionView, requested: Seq<char> },
    Reading { name: Seq<char>, requested: Seq<char> },
    Committing { response: ResponseView },
    RollingBack { error: ErrorView },
    Finished,
}

impl View for Download {
    type V = DownloadView;

    open spec fn view(&self) -> DownloadView {
        match self {
            Download::Beginning { canonical, version, requested } => DownloadView::Beginning {
                canonical: canonical@,
                version: version@,
                requested: requested@,
            },
            Download::Finding { canonical, version, requested } => DownloadView::Finding {
                canonical: canonical@,
                version: version@,
                requested: requested@,
            },
            Download::Counting { name, version, requested } => DownloadView::Counting {
                name: name@,
                version: version@,
                requested: requested@,
            },
            Download::Reading { name, requested } => DownloadView::Reading {
                name: name@,
                requested: requested@,
            },
            Download::Committing { response } => DownloadView::Committing { response: response@ },
            Download::RollingBack { error } => DownloadView::RollingBack { error: error@ },
            Download::Finished => DownloadView::Finished,
        }
    }
}

/// The work that a download asks for next.
#[derive(Clone, Debug, PartialEq, Eq)]
pub enum Action {
    /// Take a connection from the pool and begin a unit of work on it.
    Begin,
    /// Look the crate with this canonical name up.
    FindCrate { canonical: String },
    /// Add one to the download counter of the crate with this name.
    IncrementDownloads { name: String },
    /// Read the tarball of this version of the crate with this name.
    ReadArtifact { name: String, version: Version },
    /// Commit the unit of work.
    Commit,
    /// Roll the unit of work back.
    Rollback,
}

/// What a download says after each reply: the work it asks for next, or,
/// once there is none, the outcome of the request.
#[derive(Debug, PartialEq, Eq)]
pub enum Step {
    Ask(Action),
    Done(Result<Response, Error>),
}

/// An outcome, as contracts see it.
pub type OutcomeView = Result<ResponseView, ErrorView>;

/// The view of an outcome.
pub open spec fn outcome_of(outcome: Result<Response, Error>) -> OutcomeView {
    match outcome {
        Ok(response) => Ok(response@),
        Err(error) => Err(error@),
    }
}

/// An action, as contracts see it.
pub enum ActionView {
    Begin,
    FindCrate { canonical: Seq<char> },
    IncrementDownloads { name: Seq<char> },
    ReadArtifact { name: Seq<char>, version: VersionView },
    Commit,
    Rollback,
}

/// A step, as contracts see it.
pub enum StepView {
    Ask(ActionView),
    Done(OutcomeView),
}

impl View for Action {
    type V = ActionView;

    open spec fn view(&self) -> ActionView {
        match self {
            Action::Begin => ActionView::Begin,
            Action::FindCrate { canonical } => ActionView::FindCrate { canonical: canonical@ },
            Action::IncrementDownloads { name } => ActionView::IncrementDownloads { name: name@ },
            Action::ReadArtifact { name, version } => ActionView::ReadArtifact {
                name: name@,
                version: version@,
            },
            Action::Commit => ActionView::Commit,
            Action::Rollback => ActionView::Rollback,
        }
    }
}

impl View for Step {
    type V = StepView;

    open spec fn view(&self) -> StepView {
        match self {
            Step::Ask(action) => StepView::Ask(action@),
            Step::Done(outcome) => StepView::Done(outcome_of(*outcome)),
        }
    }
}

/// What came of an action.
#[derive(Clone, Debug, PartialEq, Eq)]
pub enum Reply {
    /// A unit of work has begun.
    Begun,
    /// Every connection of the pool was taken, and stayed so for as long as
    /// one may wait.
    PoolExhausted,
    /// The name of the crate that was looked up; `None` where there is no
    /// such crate.
    Row(Option<String>),
    /// The statement that increments the counter was taken.
    Incremented,
    /// The bytes of the tarball; `None` where the store has no such
    /// artifact.
    Artifact(Option<Vec<u8>>),
    /// The unit of work is committed.
    Committed,
    /// The unit of work is rolled back.
    RolledBack,
    /// The database failed.
    DatabaseFailed,
    /// The artifact store failed.
    StoreFailed,
}

/// A reply, as contracts see it.
pub enum ReplyView {
    Begun,
    PoolExhausted,
    Row(Option<Seq<char>>),
    Incremented,
    Artifact(Option<Seq<u8>>),
    Committed,
    RolledBack,
    DatabaseFailed,
    StoreFailed,
}

impl View for Reply {
    type V = ReplyView;

    open spec fn view(&self) -> ReplyView {
        match self {
            Reply::Begun => ReplyView::Begun,
            Reply::PoolExhausted => ReplyView::PoolExhausted,
            Reply::Row(name) => ReplyView::Row(crate::response::text_of(*name)),
            Reply::Incremented => ReplyView::Incremented,
            Reply::Artifact(bytes) => ReplyView::Artifact(bytes_of(*bytes)),
            Reply::Committed => ReplyView::Committed,
            Reply::RolledBack => ReplyView::RolledBack,
            Reply::DatabaseFailed => ReplyView::DatabaseFailed,
            Reply::StoreFailed => ReplyView::StoreFailed,
        }
    }
}

/// A download that gives up with a unit of work open: the unit is rolled
/// back before the error is named.
pub open spec fn abandon(error: ErrorView) -> (DownloadView, StepView) {
    (DownloadView::RollingBack { error }, StepView::Ask(ActionView::Rollback))
}

/// A download that ends with no unit of work open.
pub open spec fn finish(outcome: OutcomeView) -> (DownloadView, StepView) {
    (DownloadView::Finished, StepView::Done(outcome))
}

/// How a download starts, given the name and the version as the client
/// wrote them and what reading the version gave: a text that is no version
/// ends it at once as a bad request; otherwise the name is made canonical
/// and a connection is asked for.
pub open spec fn opened(name: Seq<char>, requested: Seq<char>, parsed: Option<VersionView>) -> (
    DownloadView,
    StepView,
) {
    match parsed {
        Some(version) => (
            DownloadView::Beginning { canonical: canonical(name), version, requested },
            StepView::Ask(ActionView::Begin),
        ),
        None => finish(Err(ErrorView::BadRequest { version: requested })),
    }
}

/// How a download goes on once a reply is in.
pub open spec fn next(state: DownloadView, reply: ReplyView) -> (DownloadView, StepView) {
    match state {
        DownloadView::Beginning { canonical, version, requested } => match reply {
            ReplyView::Begun => (
                DownloadView::Finding { canonical, version, requested },
                StepView::Ask(ActionView::FindCrate { canonical }),
            ),
            ReplyView::PoolExhausted => finish(Err(ErrorView::PoolExhausted)),
            _ => finish(Err(ErrorView::Unexpected)),
        },
        DownloadView::Finding { canonical, version, requested } => match reply {
            ReplyView::Row(Some(name)) => (
                DownloadView::Counting { name, version, requested },
                StepView::Ask(ActionView::IncrementDownloads { name }),
            ),
            ReplyView::Row(None) => abandon(ErrorView::CrateNotFound { name: canonical }),
            _ => abandon(ErrorView::Unexpected),
        },
        DownloadView::Counting { name, version, requested } => match reply {
            ReplyView::Incremented => (
                DownloadView::Reading { name, requested },
                StepView::Ask(ActionView::ReadArtifact { name, version }),
            ),
            _ => abandon(ErrorView::Unexpected),
        },
        DownloadView::Reading { name, requested } => match reply {
            ReplyView::Artifact(Some(bytes)) => (
                DownloadView::Committing { response: tarball(bytes) },
                StepView::Ask(ActionView::Commit),
            ),
            ReplyView::Artifact(None) => abandon(
                ErrorView::ArtifactNotFound { name, version: requested },
            ),
            ReplyView::StoreFailed => abandon(ErrorView::StorageIo),
            _ => abandon(ErrorView::Unexpected),
        },
        DownloadView::Committing { response } => match reply {
            ReplyView::Committed => finish(Ok(response)),
            _ => finish(Err(ErrorView::Unexpected)),
        },
        DownloadView::RollingBack { error } => finish(Err(error)),
        DownloadView::Finished => finish(Err(ErrorView::Unexpected)),
    }
}

/// How many replies a download can still take before it has finished.
pub open spec fn steps_left(state: DownloadView) -> nat {
    match state {
        DownloadView::Beginning { .. } => 6,
        DownloadView::Finding { .. } => 5,
        DownloadView::Counting { .. } => 4,
        DownloadView::Reading { .. } => 3,
        DownloadView::Committing { .. } => 1,
        DownloadView::RollingBack { .. } => 1,
        DownloadView::Finished => 0,
    }
}

/// Every reply brings a download nearer its end, and a download names an
/// outcome exactly when it has finished.
pub proof fn download_ends(state: DownloadView, reply: ReplyView)
    ensures
        !(state is Finished) ==> steps_left(next(state, reply).0) < steps_left(state),
        next(state, reply).1 is Done <==> next(state, reply).0 is Finished,
{
}

/// A commit is asked for only once the tarball has been read, and the
/// response that is then kept is the tarball as it was read.
pub proof fn commit_follows_the_read(state: DownloadView, reply: ReplyView)
    ensures
        next(state, reply).1 == StepView::Ask(ActionView::Commit) <==> state is Reading
            && reply matches ReplyView::Artifact(Some(_)),
        next(state, reply).1 == StepView::Ask(ActionView::Commit) ==> next(state, reply).0 == (
        DownloadView::Committing { response: tarball(reply->Artifact_0->0) }),
{
}

/// A download succeeds only by a commit that was confirmed: every other
/// way to finish names an error.
pub proof fn success_follows_the_commit(state: DownloadView, reply: ReplyView)
    ensures
        next(state, reply).1 matches StepView::Done(Ok(response)) ==> state
            == (DownloadView::Committing { response }) && reply == ReplyView::Committed,
{
}

impl Download {
    fn abandon(error: Error) -> (step: (Download, Step))
        ensures
            (step.0@, step.1@) == abandon(error@),
    {
        (Download::RollingBack { error }, Step::Ask(Action::Rollback))
    }

    fn finish(outcome: Result<Response, Error>) -> (step: (Download, Step))
        ensures
            (step.0@, step.1@) == finish(outcome_of(outcome)),
    {
        (Download::Finished, Step::Done(outcome))
    }

    /// Starts a download of a version that has been read already.
    pub fn open_parsed(name: &str, requested: &str, parsed: Option<Version>) -> (step: (
        Download,
        Step,
    ))
        ensures
            (step.0@, step.1@) == opened(name@, requested@, viewed(parsed)),
    {
        match parsed {
            Some(version) => (
                Download::Beginning {
                    canonical: canonical_name(name),
                    version,
                    requested: requested.to_owned(),
                },
                Step::Ask(Action::Begin),
            ),
            None => Download::finish(Err(Error::BadRequest { version: requested.to_owned() })),
        }
    }

    /// Starts a download, given the crate's name and the version as the
    /// client wrote them.
    pub fn open(name: &str, requested: &str) -> (step: (Download, Step))
        ensures
            (step.0@, step.1@) == opened(name@, requested@, semver_parse(requested@)),
    {
        Download::open_parsed(name, requested, Version::parse(requested))
    }

    /// Takes the reply to the action that was asked for last, and says how
    /// the download goes on.
    pub fn advance(self, reply: Reply) -> (step: (Download, Step))
        ensures
            (step.0@, step.1@) == next(self@, reply@),
    {
        match self {
            Download::Beginning { canonical, version, requested } => match reply {
                Reply::Begun => {
                    let ask = Action::FindCrate { canonical: canonical.clone() };
                    (Download::Finding { canonical, version, requested }, Step::Ask(ask))
                },
                Reply::PoolExhausted => Download::finish(Err(Error::PoolExhausted)),
                _ => Download::finish(Err(Error::Unexpected)),
            },
            Download::Finding { canonical, version, requested } => match reply {
                Reply::Row(Some(name)) => {
                    let ask = Action::IncrementDownloads { name: name.clone() };
                    (Download::Counting { name, version, requested }, Step::Ask(ask))
                },
                Reply::Row(None) => Download::abandon(Error::CrateNotFound { name: canonical }),
                _ => Download::abandon(Error::Unexpected),
            },
            Download::Counting { name, version, requested } => match reply {
                Reply::Incremented => {
                    let ask = Action::ReadArtifact { name: name.clone(), version };
                    (Download::Reading { name, requested }, Step::Ask(ask))
                },
                _ => Download::abandon(Error::Unexpected),
            },
            Download::Reading { name, requested } => match reply {
                Reply::Artifact(Some(bytes)) => (
                    Download::Committing { response: Response::octet_stream(bytes) },
                    Step::Ask(Action::Commit),
                ),
                Reply::Artifact(None) => Download::abandon(
                    Error::ArtifactNotFound { name, version: requested },
                ),
                Reply::StoreFailed => Download::abandon(Error::StorageIo),
                _ => Download::abandon(Error::Unexpected),
            },
            Download::Committing { response } => match reply {
                Reply::Committed => Download::finish(Ok(response)),
                _ => Download::finish(Err(Error::Unexpected)),
            },
            Download::RollingBack { error } => Download::finish(Err(error)),
            Download::Finished => Download::finish(Err(Error::Unexpected)),
        }
    }
}

} // verus!
