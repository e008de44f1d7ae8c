//! A whole registry in memory: the repository and the artifact store, and
//! the download handler driven against them.

use crate::download::{
    download_ends, next, opened, outcome_of, steps_left, Action, ActionView, Download,
    DownloadView, OutcomeView, Reply, ReplyView, Step, StepView,
};
use crate::error::{Error, ErrorView};
use crate::names::{canonical, canonical_name};
use crate::repo::{
    applied, committed, is_keyed, looked_up, one_increment_counts_once, released, CrateView,
    Repository, RepositoryView, UnitOfWork,
};
use crate::response::{tarball, Response};
use crate::store::{stored, MemoryStore, Shelf};
use crate::version::{semver_parse, viewed, Version, VersionView};
use vstd::prelude::*;

verus! {

/// The hold that one request has on the repository: its unit of work, while
/// it has one.
pub struct Session {
    unit: Option<UnitOfWork>,
}

impl View for Session {
    type V = Option<Seq<Seq<char>>>;

    closed spec fn view(&self) -> Option<Seq<Seq<char>>> {
        match self.unit {
            Some(unit) => Some(unit@),
            None => None,
        }
    }
}

impl Session {
    /// The hold of a request that has not begun a unit of work.
    pub fn new() -> (session: Session)
        ensures
            session@ is None,
    {
        Session { unit: None }
    }
}

/// A registry kept in memory.
pub struct Registry {
    pub repo: Repository,
    pub store: MemoryStore,
}

/// A registry, as contracts see it.
pub struct RegistryView {
    pub repo: RepositoryView,
    pub store: Shelf,
}

impl View for Registry {
    type V = RegistryView;

    open spec fn view(&self) -> RegistryView {
        RegistryView { repo: self.repo@, store: self.store@ }
    }
}

/// A registry with another crate table and, where a connection was taken or
/// given back, another count of busy connections.
pub open spec fn with_repo(
    before: RegistryView,
    crates: crate::repo::Table,
    busy: nat,
) -> RegistryView {
    RegistryView {
        repo: RepositoryView { crates, capacity: before.repo.capacity, busy },
        store: before.store,
    }
}

/// The name of a row that may be absent.
pub open spec fn name_of(row: Option<CrateView>) -> Option<Seq<char>> {
    match row {
        Some(row) => Some(row.name),
        None => None,
    }
}

/// What the registry makes of an action that a download asks for, given
/// the hold that the request has: the reply, and the registry and the hold
/// as they then stand. Work on the table that is asked for without a unit
/// of work is answered as a failure of the database.
pub open spec fn answered(
    before: RegistryView,
    hold: Option<Seq<Seq<char>>>,
    action: ActionView,
) -> (ReplyView, RegistryView, Option<Seq<Seq<char>>>) {
    match action {
        ActionView::Begin => if hold is Some {
            (ReplyView::DatabaseFailed, before, hold)
        } else if before.repo.busy < before.repo.capacity {
            (
                ReplyView::Begun,
                with_repo(before, before.repo.crates, before.repo.busy + 1),
                Some(Seq::empty()),
            )
        } else {
            (ReplyView::PoolExhausted, before, hold)
        },
        ActionView::FindCrate { canonical } => match hold {
            Some(_) => (
                ReplyView::Row(name_of(looked_up(before.repo.crates, canonical))),
                before,
                hold,
            ),
            None => (ReplyView::DatabaseFailed, before, hold),
        },
        ActionView::IncrementDownloads { name } => match hold {
            Some(statements) => (ReplyView::Incremented, before, Some(statements.push(name))),
            None => (ReplyView::DatabaseFailed, before, hold),
        },
        ActionView::ReadArtifact { name, version } => (
            ReplyView::Artifact(stored(before.store, (name, version))),
            before,
            hold,
        ),
        ActionView::Commit => match hold {
            Some(statements) => (
                if applied(before.repo.crates, statements) is Some {
                    ReplyView::Committed
                } else {
                    ReplyView::DatabaseFailed
                },
                with_repo(
                    before,
                    committed(before.repo.crates, statements),
                    released(before.repo.busy),
                ),
                None,
            ),
            None => (ReplyView::DatabaseFailed, before, hold),
        },
        ActionView::Rollback => match hold {
            Some(_) => (
                ReplyView::RolledBack,
                with_repo(before, before.repo.crates, released(before.repo.busy)),
                None,
            ),
            None => (ReplyView::RolledBack, before, hold),
        },
    }
}

/// Where driving a download against the registry ends: the outcome of the
/// request, and the registry and the hold as they are left.
pub open spec fn driven(
    state: DownloadView,
    step: StepView,
    registry: RegistryView,
    hold: Option<Seq<Seq<char>>>,
) -> (OutcomeView, RegistryView, Option<Seq<Seq<char>>>)
    decreases steps_left(state), (if step is Ask { 1nat } else { 0nat }),
{
    match step {
        StepView::Done(outcome) => (outcome, registry, hold),
        StepView::Ask(action) => {
            let (reply, after, held) = answered(registry, hold, action);
            let (onward, asks) = next(state, reply);
            driven(onward, asks, after, held)
        },
    }
}

/// What a download request does to a registry, given the name and the
/// version as the client wrote them and what reading the version gave.
///
/// A version that cannot be read is a bad request. With every connection
/// taken the pool is exhausted. A crate that is not in the table is not
/// found. A crate without this version in the store has no such artifact.
/// Otherwise the tarball is served and the crate's counter grows by one,
/// unless the counter cannot grow. In every case but the last the registry
/// is left as it was.
pub open spec fn downloaded(
    before: RegistryView,
    name: Seq<char>,
    requested: Seq<char>,
    parsed: Option<VersionView>,
) -> (OutcomeView, RegistryView) {
    let key = canonical(name);
    match parsed {
        None => (Err(ErrorView::BadRequest { version: requested }), before),
        Some(version) => if before.repo.busy >= before.repo.capacity {
            (Err(ErrorView::PoolExhausted), before)
        } else if !before.repo.crates.contains_key(key) {
            (Err(ErrorView::CrateNotFound { name: key }), before)
        } else {
            let row = before.repo.crates[key];
            match stored(before.store, (row.name, version)) {
                None => (
                    Err(ErrorView::ArtifactNotFound { name: row.name, version: requested }),
                    before,
                ),
                Some(bytes) => if row.downloads < u64::MAX {
                    (
                        Ok(tarball(bytes)),
                        with_repo(
                            before,
                            before.repo.crates.insert(
                                key,
                                CrateView { name: row.name, downloads: (row.downloads + 1) as u64 },
                            ),
                            before.repo.busy,
                        ),
                    )
                } else {
                    (Err(ErrorView::Unexpected), before)
                },
            }
        },
    }
}

/// Driving a download against a registry, from its opening to its end,
/// does to the registry what a download request is said to do, and leaves
/// no unit of work open.
pub proof fn driving_is_downloading(
    before: RegistryView,
    name: Seq<char>,
    requested: Seq<char>,
    parsed: Option<VersionView>,
)
    requires
        is_keyed(before.repo.crates),
    ensures
        driven(opened(name, requested, parsed).0, opened(name, requested, parsed).1, before, None)
            == (
            downloaded(before, name, requested, parsed).0,
            downloaded(before, name, requested, parsed).1,
            None::<Seq<Seq<char>>>,
        ),
{
    reveal_with_fuel(driven, 8);
    let key = canonical(name);
    match parsed {
        None => {},
        Some(version) => {
            if before.repo.busy < before.repo.capacity {
                let begun = with_repo(before, before.repo.crates, before.repo.busy + 1);
                assert(released(begun.repo.busy) == before.repo.busy);
                assert(with_repo(begun, before.repo.crates, before.repo.busy) == before);
                if before.repo.crates.contains_key(key) {
                    let row = before.repo.crates[key];
                    assert(canonical(row.name) == key);
                    assert(Seq::<Seq<char>>::empty().push(row.name) =~= seq![row.name]);
                    assert(seq![row.name].drop_last() =~= Seq::<Seq<char>>::empty());
                    assert(applied(before.repo.crates, seq![row.name].drop_last()) == Some(
                        before.repo.crates,
                    ));
                    if row.downloads < u64::MAX {
                        one_increment_counts_once(before.repo.crates, row.name);
                    }
                }
            }
        },
    }
}

/// A download is served exactly when the version can be read, a connection
/// is free, the crate is in the table, the store holds the version and the
/// counter can grow. It then serves the tarball as the store holds it, adds
/// exactly one to the counter of its crate and changes nothing else. A
/// download that fails changes nothing at all. No download lowers a counter
/// or takes a crate away.
pub proof fn a_served_download_counts_once(
    before: RegistryView,
    name: Seq<char>,
    requested: Seq<char>,
    parsed: Option<VersionView>,
)
    ensures
        downloaded(before, name, requested, parsed).0 is Ok <==> {
            let key = canonical(name);
            &&& parsed is Some
            &&& before.repo.busy < before.repo.capacity
            &&& before.repo.crates.contains_key(key)
            &&& before.store.contains_key((before.repo.crates[key].name, parsed->0))
            &&& before.repo.crates[key].downloads < u64::MAX
        },
        downloaded(before, name, requested, parsed).0 is Ok ==> {
            let (outcome, after) = downloaded(before, name, requested, parsed);
            let key = canonical(name);
            &&& outcome == Ok::<crate::response::ResponseView, ErrorView>(
                tarball(before.store[(before.repo.crates[key].name, parsed->0)]),
            )
            &&& after.repo.crates == before.repo.crates.insert(
                key,
                CrateView {
                    name: before.repo.crates[key].name,
                    downloads: (before.repo.crates[key].downloads + 1) as u64,
                },
            )
            &&& after.repo.crates[key].downloads == before.repo.crates[key].downloads + 1
            &&& after.store == before.store
            &&& after.repo.busy == before.repo.busy
            &&& after.repo.capacity == before.repo.capacity
        },
        downloaded(before, name, requested, parsed).0 is Err ==> downloaded(
            before,
            name,
            requested,
            parsed,
        ).1 == before,
        forall|other: Seq<char>| #[trigger]
            before.repo.crates.contains_key(other) ==> {
                let after = downloaded(before, name, requested, parsed).1;
                after.repo.crates.contains_key(other) && after.repo.crates[other].downloads
                    >= before.repo.crates[other].downloads
            },
{
}

/// Publishing and downloading keep every crate under the canonical form of
/// its name.
pub proof fn the_table_stays_keyed(
    before: RegistryView,
    name: Seq<char>,
    requested: Seq<char>,
    parsed: Option<VersionView>,
    version: VersionView,
    bytes: Seq<u8>,
)
    requires
        is_keyed(before.repo.crates),
    ensures
        is_keyed(downloaded(before, name, requested, parsed).1.repo.crates),
        is_keyed(published(before, name, version, bytes).1.repo.crates),
{
}

/// With every connection taken a download is refused at once as pool
/// exhaustion, whatever it asks for, and changes nothing.
pub proof fn a_full_pool_refuses_at_once(
    before: RegistryView,
    name: Seq<char>,
    requested: Seq<char>,
    version: VersionView,
)
    requires
        before.repo.busy >= before.repo.capacity,
    ensures
        downloaded(before, name, requested, Some(version)) == (
            Err::<crate::response::ResponseView, ErrorView>(ErrorView::PoolExhausted),
            before,
        ),
{
}

/// A version that cannot be read is refused as a bad request before
/// anything is looked up, and changes nothing.
pub proof fn a_bad_version_is_refused_unread(
    before: RegistryView,
    name: Seq<char>,
    requested: Seq<char>,
)
    ensures
        downloaded(before, name, requested, None) == (
            Err::<crate::response::ResponseView, ErrorView>(
                ErrorView::BadRequest { version: requested },
            ),
            before,
        ),
{
}

/// A download of a version that the store does not hold, of a crate that
/// the table does hold, is answered as a missing artifact, not as a failure
/// of the store, and leaves every counter as it was.
pub proof fn a_missing_artifact_is_not_counted(
    before: RegistryView,
    name: Seq<char>,
    requested: Seq<char>,
    version: VersionView,
)
    requires
        before.repo.busy < before.repo.capacity,
        before.repo.crates.contains_key(canonical(name)),
        !before.store.contains_key((before.repo.crates[canonical(name)].name, version)),
    ensures
        downloaded(before, name, requested, Some(version)) == (
            Err::<crate::response::ResponseView, ErrorView>(
                ErrorView::ArtifactNotFound {
                    name: before.repo.crates[canonical(name)].name,
                    version: requested,
                },
            ),
            before,
        ),
{
}

/// A download of a crate that the table does not hold is answered as a
/// missing crate, named in its canonical form, and changes nothing.
pub proof fn a_missing_crate_changes_nothing(
    before: RegistryView,
    name: Seq<char>,
    requested: Seq<char>,
    version: VersionView,
)
    requires
        before.repo.busy < before.repo.capacity,
        !before.repo.crates.contains_key(canonical(name)),
    ensures
        downloaded(before, name, requested, Some(version)) == (
            Err::<crate::response::ResponseView, ErrorView>(
                ErrorView::CrateNotFound { name: canonical(name) },
            ),
            before,
        ),
{
}

/// What publishing a version does to a registry: the crate is entered
/// under this name unless it is there already, and the tarball is stored
/// under the name that the table has for the crate. A version that the
/// store holds already is not published again.
pub open spec fn published(
    before: RegistryView,
    name: Seq<char>,
    version: VersionView,
    bytes: Seq<u8>,
) -> (bool, RegistryView) {
    let key = canonical(name);
    let known = before.repo.crates.contains_key(key);
    let kept = if known {
        before.repo.crates[key].name
    } else {
        name
    };
    if before.store.contains_key((kept, version)) {
        (false, before)
    } else {
        (
            true,
            RegistryView {
                repo: RepositoryView {
                    crates: if known {
                        before.repo.crates
                    } else {
                        before.repo.crates.insert(key, CrateView { name, downloads: 0 })
                    },
                    capacity: before.repo.capacity,
                    busy: before.repo.busy,
                },
                store: before.store.insert((kept, version), bytes),
            },
        )
    }
}

impl Registry {
    /// An empty registry with a pool of `capacity` connections.
    pub fn new(capacity: usize) -> (registry: Registry)
        ensures
            registry@.repo.crates == Map::<Seq<char>, CrateView>::empty(),
            registry@.repo.capacity == capacity,
            registry@.repo.busy == 0,
            registry@.store == Map::<crate::store::Key, Seq<u8>>::empty(),
    {
        Registry { repo: Repository::new(capacity), store: MemoryStore::new() }
    }

    /// Publishes a version of a crate. Tells whether it was published.
    pub fn publish(&mut self, name: &str, version: &Version, bytes: Vec<u8>) -> (done: bool)
        ensures
            (done, final(self)@) == published(old(self)@, name@, version@, bytes@),
    {
        let key = canonical_name(name);
        let kept = match self.repo.find(key.as_str()) {
            Some(row) => row.name,
            None => name.to_owned(),
        };
        if self.store.contains(kept.as_str(), version) {
            return false;
        }
        self.repo.register(name);
        self.store.write(kept.as_str(), version, bytes);
        true
    }

    /// Does the work that a download asks for, and says what came of it.
    pub fn answer(&mut self, session: &mut Session, action: &Action) -> (reply: Reply)
        ensures
            (reply@, final(self)@, final(session)@) == answered(old(self)@, old(session)@, action@),
    {
        match action {
            Action::Begin => {
                if session.unit.is_some() {
                    return Reply::DatabaseFailed;
                }
                match self.repo.begin() {
                    Ok(unit) => {
                        session.unit = Some(unit);
                        Reply::Begun
                    },
                    Err(_) => Reply::PoolExhausted,
                }
            },
            Action::FindCrate { canonical } => {
                if session.unit.is_none() {
                    return Reply::DatabaseFailed;
                }
                match self.repo.find(canonical.as_str()) {
                    Some(row) => Reply::Row(Some(row.name)),
                    None => Reply::Row(None),
                }
            },
            Action::IncrementDownloads { name } => {
                match session.unit.take() {
                    Some(unit) => {
                        let mut unit = unit;
                        unit.increment_downloads(name.as_str());
                        session.unit = Some(unit);
                        Reply::Incremented
                    },
                    None => Reply::DatabaseFailed,
                }
            },
            Action::ReadArtifact { name, version } => Reply::Artifact(
                self.store.read(name.as_str(), version),
            ),
            Action::Commit => {
                match session.unit.take() {
                    Some(unit) => {
                        if self.repo.commit(unit) {
                            Reply::Committed
                        } else {
                            Reply::DatabaseFailed
                        }
                    },
                    None => Reply::DatabaseFailed,
                }
            },
            Action::Rollback => {
                match session.unit.take() {
                    Some(unit) => {
                        self.repo.rollback(unit);
                        Reply::RolledBack
                    },
                    None => Reply::RolledBack,
                }
            },
        }
    }

    /// Serves a download of a version that has been read already.
    pub fn download_parsed(
        &mut self,
        name: &str,
        requested: &str,
        parsed: Option<Version>,
    ) -> (served: Result<Response, Error>)
        ensures
            (outcome_of(served), final(self)@) == downloaded(
                old(self)@,
                name@,
                requested@,
                viewed(parsed),
            ),
    {
        let mut session = Session::new();
        let (mut state, mut step) = Download::open_parsed(name, requested, parsed);
        proof {
            self.repo.crates_are_keyed();
            driving_is_downloading(old(self)@, name@, requested@, viewed(parsed));
        }
        loop
            invariant
                driven(state@, step@, self@, session@) == (
                    downloaded(old(self)@, name@, requested@, viewed(parsed)).0,
                    downloaded(old(self)@, name@, requested@, viewed(parsed)).1,
                    None::<Seq<Seq<char>>>,
                ),
            decreases steps_left(state@), (if step@ is Ask { 1nat } else { 0nat }),
        {
            match step {
                Step::Done(outcome) => {
                    return outcome;
                },
                Step::Ask(action) => {
                    let reply = self.answer(&mut session, &action);
                    proof {
                        download_ends(state@, reply@);
                    }
                    let (onward, asks) = state.advance(reply);
                    state = onward;
                    step = asks;
                },
            }
        }
    }

    /// Serves a download, given the crate's name and the version as the
    /// client wrote them.
    pub fn download(&mut self, name: &str, requested: &str) -> (served: Result<Response, Error>)
        ensures
            (outcome_of(served), final(self)@) == downloaded(
                old(self)@,
                name@,
                requested@,
                semver_parse(requested@),
            ),
    {
        self.download_parsed(name, requested, Version::parse(requested))
    }

    /// How often the crate with this name, in any spelling, has been
    /// served.
    pub fn download_count(&self, name: &str) -> (count: Option<u64>)
        ensures
            count == match looked_up(self@.repo.crates, canonical(name@)) {
                Some(row) => Some(row.downloads),
                None => None,
            },
    {
        self.repo.downloads(name)
    }
}

} // verus!
