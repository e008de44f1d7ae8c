//! The transactional repository: the crate table, a bounded pool of
//! connections, and units of work that change the table all at once or not
//! at all.
//!
//! A unit of work takes one connection when it begins and gives it back
//! when it is committed or rolled back. What it changes is held back as
//! statements until the commit, which applies them to the table as it then
//! stands. A download is counted by the statement "add one to the counter",
//! never by writing a number that was read before: so of any number of
//! units under way at once, each one's increment arrives.

use crate::error::Error;
use crate::names::{canonical, canonical_name};
use crate::text::same_text;
use vstd::prelude::*;

verus! {

/// A crate as the table holds it.
#[derive(Clone, Debug, PartialEq, Eq)]
pub struct CrateRow {
    /// The name, spelled as at the first publication.
    pub name: String,
    /// The canonical form of the name, by which the crate is found.
    pub canonical: String,
    /// How often a version of the crate has been served.
    pub downloads: u64,
}

/// A crate, as contracts see it.
pub struct CrateView {
    pub name: Seq<char>,
    pub downloads: u64,
}

/// The crate table, as contracts see it: each crate under its canonical
/// name.
pub type Table = Map<Seq<char>, CrateView>;

/// A repository, as contracts see it.
pub struct RepositoryView {
    pub crates: Table,
    /// How many connections the pool has.
    pub capacity: nat,
    /// How many of them are taken.
    pub busy: nat,
}

/// A row that was read from the table, as contracts see it.
pub open spec fn row_of(found: Option<CrateRow>) -> Option<CrateView> {
    match found {
        Some(row) => Some(CrateView { name: row.name@, downloads: row.downloads }),
        None => None,
    }
}

/// What looking a canonical name up in a table gives.
pub open spec fn looked_up(table: Table, key: Seq<char>) -> Option<CrateView> {
    if table.contains_key(key) {
        Some(table[key])
    } else {
        None
    }
}

/// The table after the statement that adds one to the counter of the crate
/// with this name. Where no crate has the name nothing changes; where the
/// counter cannot grow the statement fails.
pub open spec fn bumped(table: Table, name: Seq<char>) -> Option<Table> {
    let key = canonical(name);
    if table.contains_key(key) && table[key].name == name {
        if table[key].downloads < u64::MAX {
            Some(
                table.insert(
                    key,
                    CrateView { name, downloads: (table[key].downloads + 1) as u64 },
                ),
            )
        } else {
            None
        }
    } else {
        Some(table)
    }
}

/// The table after the statements of one unit of work, in their order;
/// `None` where one of them fails.
pub open spec fn applied(table: Table, statements: Seq<Seq<char>>) -> Option<Table>
    decreases statements.len(),
{
    if statements.len() == 0 {
        Some(table)
    } else {
        match applied(table, statements.drop_last()) {
            Some(before) => bumped(before, statements.last()),
            None => None,
        }
    }
}

/// The table after a commit: with the unit's statements applied, or, where
/// one of them fails, as it was.
pub open spec fn committed(table: Table, statements: Seq<Seq<char>>) -> Table {
    match applied(table, statements) {
        Some(after) => after,
        None => table,
    }
}

/// The table after the commits of several units, one after another.
pub open spec fn committed_all(table: Table, units: Seq<Seq<Seq<char>>>) -> Table
    decreases units.len(),
{
    if units.len() == 0 {
        table
    } else {
        committed(committed_all(table, units.drop_last()), units.last())
    }
}

/// How many connections are taken once one is given back.
pub open spec fn released(busy: nat) -> nat {
    if busy > 0 {
        (busy - 1) as nat
    } else {
        0
    }
}

/// Whether every crate of a table stands under the canonical form of its
/// name.
pub open spec fn is_keyed(table: Table) -> bool {
    forall|key: Seq<char>|
        table.contains_key(key) ==> canonical((#[trigger] table[key]).name) == key
}

/// No commit takes a crate away or lowers a counter.
pub proof fn commit_never_lowers(table: Table, statements: Seq<Seq<char>>, key: Seq<char>)
    requires
        table.contains_key(key),
    ensures
        committed(table, statements).contains_key(key),
        committed(table, statements)[key].downloads >= table[key].downloads,
        committed(table, statements)[key].name == table[key].name,
    decreases statements.len(),
{
    if statements.len() > 0 {
        commit_never_lowers(table, statements.drop_last(), key);
    }
}

/// A commit keeps every crate under the canonical form of its name.
pub proof fn commit_keeps_keys(table: Table, statements: Seq<Seq<char>>)
    requires
        is_keyed(table),
    ensures
        is_keyed(committed(table, statements)),
        committed(table, statements).dom() == table.dom(),
    decreases statements.len(),
{
    if statements.len() > 0 {
        commit_keeps_keys(table, statements.drop_last());
        match applied(table, statements.drop_last()) {
            Some(before) => {
                assert(before == committed(table, statements.drop_last()));
                match bumped(before, statements.last()) {
                    Some(after) => {
                        assert(after.dom() =~= before.dom());
                    },
                    None => {},
                }
            },
            None => {},
        }
    }
}

/// Entering a crate keeps every crate under the canonical form of its
/// name.
pub proof fn entering_keeps_keys(table: Table, name: Seq<char>)
    requires
        is_keyed(table),
    ensures
        is_keyed(table.insert(canonical(name), CrateView { name, downloads: 0 })),
{
}

/// The one statement of a download adds exactly one to the counter of its
/// crate and leaves every other crate as it was.
pub proof fn one_increment_counts_once(table: Table, name: Seq<char>)
    requires
        table.contains_key(canonical(name)),
        table[canonical(name)].name == name,
        table[canonical(name)].downloads < u64::MAX,
    ensures
        applied(table, seq![name]) == Some(
            table.insert(
                canonical(name),
                CrateView { name, downloads: (table[canonical(name)].downloads + 1) as u64 },
            ),
        ),
{
    assert(seq![name].drop_last() =~= Seq::<Seq<char>>::empty());
    assert(applied(table, seq![name].drop_last()) == Some(table));
}

/// Of any number of downloads of one crate that are under way at once, each
/// one's increment arrives: once all their units are committed the counter
/// has grown by their number, and no other crate has changed.
pub proof fn every_increment_arrives(table: Table, name: Seq<char>, units: Seq<Seq<Seq<char>>>)
    requires
        table.contains_key(canonical(name)),
        table[canonical(name)].name == name,
        forall|i: int| 0 <= i < units.len() ==> #[trigger] units[i] == seq![name],
        table[canonical(name)].downloads + units.len() <= u64::MAX,
    ensures
        committed_all(table, units) == table.insert(
            canonical(name),
            CrateView { name, downloads: (table[canonical(name)].downloads + units.len()) as u64 },
        ),
    decreases units.len(),
{
    let key = canonical(name);
    if units.len() == 0 {
        assert(table.insert(key, CrateView { name, downloads: table[key].downloads }) =~= table);
    } else {
        let earlier = units.drop_last();
        every_increment_arrives(table, name, earlier);
        let before = committed_all(table, earlier);
        assert(units.last() == seq![name]);
        one_increment_counts_once(before, name);
        assert(committed(before, units.last()) =~= table.insert(
            key,
            CrateView { name, downloads: (table[key].downloads + units.len()) as u64 },
        ));
    }
}

/// Whether row `i` stands under this key: it is filed under it, and the
/// key is the canonical form of its name.
spec fn is_at(rows: Seq<CrateRow>, i: int, key: Seq<char>) -> bool {
    0 <= i < rows.len() && rows[i].canonical@ == key && canonical(rows[i].name@) == key
}

/// How the rows of a table stand for it.
spec fn table_of(rows: Seq<CrateRow>) -> Table {
    Map::new(
        |key: Seq<char>| exists|i: int| is_at(rows, i, key),
        |key: Seq<char>|
            {
                let i = choose|i: int| is_at(rows, i, key);
                CrateView { name: rows[i].name@, downloads: rows[i].downloads }
            },
    )
}

/// Rows that can stand for a table: each under the canonical form of its
/// name, and no canonical name twice.
spec fn rows_ok(rows: Seq<CrateRow>) -> bool {
    &&& forall|i: int|
        0 <= i < rows.len() ==> (#[trigger] rows[i]).canonical@ == canonical(rows[i].name@)
    &&& forall|i: int, j: int|
        0 <= i < j < rows.len() ==> (#[trigger] rows[i]).canonical@ != (
        #[trigger] rows[j]).canonical@
}

proof fn table_holds_row(rows: Seq<CrateRow>, i: int)
    requires
        rows_ok(rows),
        0 <= i < rows.len(),
    ensures
        table_of(rows).contains_key(rows[i].canonical@),
        table_of(rows)[rows[i].canonical@] == (CrateView {
            name: rows[i].name@,
            downloads: rows[i].downloads,
        }),
{
    let key = rows[i].canonical@;
    assert(is_at(rows, i, key));
    let j = choose|j: int| is_at(rows, j, key);
    assert(i == j);
}

proof fn table_after_set(before: Seq<CrateRow>, i: int, row: CrateRow)
    requires
        rows_ok(before),
        0 <= i < before.len(),
        row.canonical@ == before[i].canonical@,
        row.canonical@ == canonical(row.name@),
    ensures
        rows_ok(before.update(i, row)),
        table_of(before.update(i, row)) == table_of(before).insert(
            row.canonical@,
            CrateView { name: row.name@, downloads: row.downloads },
        ),
{
    let after = before.update(i, row);
    assert(forall|k: int| 0 <= k < before.len() ==> after[k].canonical@ == before[k].canonical@);
    assert(rows_ok(after));
    let wanted = table_of(before).insert(
        row.canonical@,
        CrateView { name: row.name@, downloads: row.downloads },
    );
    assert forall|key: Seq<char>| table_of(after).contains_key(key) <==> wanted.contains_key(key) by {
        if table_of(after).contains_key(key) {
            let k = choose|k: int| is_at(after, k, key);
            assert(is_at(before, k, key));
        }
        if table_of(before).contains_key(key) {
            let k = choose|k: int| is_at(before, k, key);
            assert(is_at(after, k, key));
        }
        if key == row.canonical@ {
            assert(is_at(after, i, key));
        }
    }
    assert forall|key: Seq<char>| table_of(after).contains_key(key) implies table_of(after)[key]
        == wanted[key] by {
        let k = choose|k: int| is_at(after, k, key);
        table_holds_row(after, k);
        if k != i {
            assert(after[k] == before[k]);
            table_holds_row(before, k);
        }
    }
    assert(table_of(after) =~= wanted);
}

proof fn table_after_push(before: Seq<CrateRow>, row: CrateRow)
    requires
        rows_ok(before),
        !table_of(before).contains_key(row.canonical@),
        row.canonical@ == canonical(row.name@),
    ensures
        rows_ok(before.push(row)),
        table_of(before.push(row)) == table_of(before).insert(
            row.canonical@,
            CrateView { name: row.name@, downloads: row.downloads },
        ),
{
    let after = before.push(row);
    assert(forall|k: int| 0 <= k < before.len() ==> after[k] == before[k]);
    assert forall|a: int, b: int| 0 <= a < b < after.len() implies (#[trigger] after[a]).canonical@ != (
    #[trigger] after[b]).canonical@ by {
        if b == before.len() {
            assert(before[a].canonical@ == canonical(before[a].name@));
            assert(is_at(before, a, before[a].canonical@));
        }
    }
    assert(rows_ok(after));
    let wanted = table_of(before).insert(
        row.canonical@,
        CrateView { name: row.name@, downloads: row.downloads },
    );
    assert forall|key: Seq<char>| table_of(after).contains_key(key) <==> wanted.contains_key(key) by {
        if table_of(after).contains_key(key) {
            let k = choose|k: int| is_at(after, k, key);
            if k < before.len() {
                assert(is_at(before, k, key));
            }
        }
        if table_of(before).contains_key(key) {
            let k = choose|k: int| is_at(before, k, key);
            assert(is_at(after, k, key));
        }
        if key == row.canonical@ {
            assert(is_at(after, before.len() as int, key));
        }
    }
    assert forall|key: Seq<char>| table_of(after).contains_key(key) implies table_of(after)[key]
        == wanted[key] by {
        let k = choose|k: int| is_at(after, k, key);
        table_holds_row(after, k);
        if k < before.len() {
            assert(after[k] == before[k]);
            table_holds_row(before, k);
        }
    }
    assert(table_of(after) =~= wanted);
}

/// Where the row of a canonical name stands, if there is one.
fn position(rows: &Vec<CrateRow>, key: &String) -> (at: Option<usize>)
    ensures
        match at {
            Some(i) => i < rows@.len() && rows@[i as int].canonical@ == key@,
            None => !table_of(rows@).contains_key(key@),
        },
{
    assert(forall|i: int| is_at(rows@, i, key@) ==> rows@[i].canonical@ == key@);
    let mut i: usize = 0;
    while i < rows.len()
        invariant
            i <= rows@.len(),
            forall|k: int| 0 <= k < i ==> rows@[k].canonical@ != key@,
        decreases rows.len() - i,
    {
        if same_text(&rows[i].canonical, key) {
            return Some(i);
        }
        i = i + 1;
    }
    None
}

/// Applies one statement to the rows. Tells whether it could be applied.
fn bump(rows: &mut Vec<CrateRow>, name: &String) -> (done: bool)
    requires
        rows_ok(old(rows)@),
    ensures
        rows_ok(final(rows)@),
        match bumped(table_of(old(rows)@), name@) {
            Some(after) => done && table_of(final(rows)@) == after,
            None => !done,
        },
{
    let key = canonical_name(name.as_str());
    match position(rows, &key) {
        Some(i) => {
            proof {
                table_holds_row(rows@, i as int);
            }
            if !same_text(&rows[i].name, name) {
                return true;
            }
            if rows[i].downloads == u64::MAX {
                return false;
            }
            let row = CrateRow {
                name: rows[i].name.clone(),
                canonical: rows[i].canonical.clone(),
                downloads: rows[i].downloads + 1,
            };
            proof {
                table_after_set(rows@, i as int, row);
            }
            rows.set(i, row);
            true
        },
        None => true,
    }
}

/// One unit of work: the statements that it will apply if it is committed.
pub struct UnitOfWork {
    increments: Vec<String>,
}

impl View for UnitOfWork {
    type V = Seq<Seq<char>>;

    closed spec fn view(&self) -> Seq<Seq<char>> {
        self.increments@.map_values(|name: String| name@)
    }
}

impl UnitOfWork {
    /// Adds the statement that counts one download of the crate with this
    /// name.
    pub fn increment_downloads(&mut self, name: &str)
        ensures
            final(self)@ == old(self)@.push(name@),
    {
        self.increments.push(name.to_owned());
        assert(self@ =~= old(self)@.push(name@));
    }
}

/// The crate table and its pool of connections, kept in memory.
pub struct Repository {
    rows: Vec<CrateRow>,
    capacity: usize,
    busy: usize,
}

impl View for Repository {
    type V = RepositoryView;

    closed spec fn view(&self) -> RepositoryView {
        RepositoryView {
            crates: table_of(self.rows@),
            capacity: self.capacity as nat,
            busy: self.busy as nat,
        }
    }
}

impl Repository {
    #[verifier::type_invariant]
    spec fn is_sound(self) -> bool {
        rows_ok(self.rows@) && self.busy <= self.capacity
    }

    /// Every crate of the table stands under the canonical form of its
    /// name.
    pub proof fn crates_are_keyed(&self)
        ensures
            is_keyed(self@.crates),
    {
        let rows = self.rows@;
        assert forall|key: Seq<char>| self@.crates.contains_key(key) implies canonical(
            (#[trigger] self@.crates[key]).name,
        ) == key by {
            let i = choose|i: int| is_at(rows, i, key);
            assert(is_at(rows, i, key));
        }
    }

    /// A repository with no crate and a pool of `capacity` connections.
    pub fn new(capacity: usize) -> (repo: Repository)
        ensures
            repo@.crates == Map::<Seq<char>, CrateView>::empty(),
            repo@.capacity == capacity,
            repo@.busy == 0,
    {
        let repo = Repository { rows: Vec::new(), capacity, busy: 0 };
        assert(repo@.crates =~= Map::<Seq<char>, CrateView>::empty());
        repo
    }

    /// Enters a crate under this name, never served yet, unless a crate
    /// with the same canonical name is there already. Tells whether it was
    /// entered.
    pub fn register(&mut self, name: &str) -> (entered: bool)
        ensures
            entered == !old(self)@.crates.contains_key(canonical(name@)),
            final(self)@.crates == if entered {
                old(self)@.crates.insert(canonical(name@), CrateView { name: name@, downloads: 0 })
            } else {
                old(self)@.crates
            },
            final(self)@.capacity == old(self)@.capacity,
            final(self)@.busy == old(self)@.busy,
    {
        proof {
            use_type_invariant(&*self);
        }
        let key = canonical_name(name);
        match position(&self.rows, &key) {
            Some(i) => {
                proof {
                    table_holds_row(self.rows@, i as int);
                }
                false
            },
            None => {
                let row = CrateRow { name: name.to_owned(), canonical: key, downloads: 0 };
                proof {
                    table_after_push(self.rows@, row);
                }
                let mut rows: Vec<CrateRow> = Vec::new();
                std::mem::swap(&mut rows, &mut self.rows);
                rows.push(row);
                self.rows = rows;
                true
            },
        }
    }

    /// The crate with this canonical name, as the table holds it now.
    pub fn find(&self, canonical: &str) -> (found: Option<CrateRow>)
        ensures
            row_of(found) == looked_up(self@.crates, canonical@),
            found matches Some(row) ==> row.canonical@ == canonical@ && crate::names::canonical(
                row.name@,
            ) == canonical@,
    {
        proof {
            use_type_invariant(self);
        }
        let key = canonical.to_owned();
        match position(&self.rows, &key) {
            Some(i) => {
                proof {
                    table_holds_row(self.rows@, i as int);
                }
                Some(
                    CrateRow {
                        name: self.rows[i].name.clone(),
                        canonical: self.rows[i].canonical.clone(),
                        downloads: self.rows[i].downloads,
                    },
                )
            },
            None => None,
        }
    }

    /// How often the crate with this name, in any spelling, has been
    /// served; `None` where there is no such crate.
    pub fn downloads(&self, name: &str) -> (count: Option<u64>)
        ensures
            count == match looked_up(self@.crates, canonical(name@)) {
                Some(row) => Some(row.downloads),
                None => None,
            },
    {
        let key = canonical_name(name);
        match self.find(key.as_str()) {
            Some(row) => Some(row.downloads),
            None => None,
        }
    }

    /// Begins a unit of work on a connection of the pool. Fails at once
    /// where every connection is taken.
    pub fn begin(&mut self) -> (begun: Result<UnitOfWork, Error>)
        ensures
            final(self)@.crates == old(self)@.crates,
            final(self)@.capacity == old(self)@.capacity,
            match begun {
                Ok(unit) => old(self)@.busy < old(self)@.capacity && final(self)@.busy == old(self)@.busy
                    + 1 && unit@ == Seq::<Seq<char>>::empty(),
                Err(error) => old(self)@.busy >= old(self)@.capacity && final(self)@.busy == old(
                    self,
                )@.busy && error@ == crate::error::ErrorView::PoolExhausted,
            },
    {
        proof {
            use_type_invariant(&*self);
        }
        if self.busy < self.capacity {
            self.busy = self.busy + 1;
            let unit = UnitOfWork { increments: Vec::new() };
            assert(unit@ =~= Seq::<Seq<char>>::empty());
            Ok(unit)
        } else {
            Err(Error::PoolExhausted)
        }
    }

    /// Ends a unit of work by applying its statements, all or none, and
    /// gives its connection back. Tells whether they were applied.
    pub fn commit(&mut self, unit: UnitOfWork) -> (done: bool)
        ensures
            done == applied(old(self)@.crates, unit@) is Some,
            final(self)@.crates == committed(old(self)@.crates, unit@),
            final(self)@.capacity == old(self)@.capacity,
            final(self)@.busy == released(old(self)@.busy),
    {
        proof {
            use_type_invariant(&*self);
        }
        if self.busy > 0 {
            self.busy = self.busy - 1;
        }
        let mut scratch: Vec<CrateRow> = Vec::new();
        let mut r: usize = 0;
        while r < self.rows.len()
            invariant
                r <= self.rows@.len(),
                scratch@.len() == r,
                forall|k: int| 0 <= k < r ==> (#[trigger] scratch@[k]).name@ == self.rows@[k].name@
                    && scratch@[k].canonical@ == self.rows@[k].canonical@ && scratch@[k].downloads
                    == self.rows@[k].downloads,
            decreases self.rows.len() - r,
        {
            scratch.push(
                CrateRow {
                    name: self.rows[r].name.clone(),
                    canonical: self.rows[r].canonical.clone(),
                    downloads: self.rows[r].downloads,
                },
            );
            r = r + 1;
        }
        proof {
            same_rows_same_table(self.rows@, scratch@);
        }
        let mut i: usize = 0;
        while i < unit.increments.len()
            invariant
                i <= unit.increments@.len(),
                rows_ok(scratch@),
                applied(old(self)@.crates, unit@.subrange(0, i as int)) == Some(table_of(scratch@)),
                self.rows@ == old(self).rows@,
                self.capacity == old(self).capacity,
                self.busy as nat == released(old(self).busy as nat),
            decreases unit.increments.len() - i,
        {
            let ghost so_far = unit@.subrange(0, i as int);
            let ghost next = unit@.subrange(0, i + 1);
            assert(next.drop_last() =~= so_far);
            assert(next.last() == unit.increments@[i as int]@);
            if !bump(&mut scratch, &unit.increments[i]) {
                proof {
                    statements_fail_for_good(old(self)@.crates, unit@, i + 1);
                }
                return false;
            }
            i = i + 1;
        }
        assert(unit@.subrange(0, unit.increments@.len() as int) =~= unit@);
        self.rows = scratch;
        true
    }

    /// Ends a unit of work as the outcome of its work says: on success the
    /// unit is committed before the value is handed on; on failure it is
    /// rolled back and the error is handed on unchanged. A commit that
    /// cannot be made is an unexpected failure and applies nothing.
    pub fn finish<T>(&mut self, unit: UnitOfWork, outcome: Result<T, Error>) -> (ended: Result<
        T,
        Error,
    >)
        ensures
            final(self)@.capacity == old(self)@.capacity,
            final(self)@.busy == released(old(self)@.busy),
            match outcome {
                Ok(value) => final(self)@.crates == committed(old(self)@.crates, unit@) && (
                if applied(old(self)@.crates, unit@) is Some {
                    ended == Ok::<T, Error>(value)
                } else {
                    ended matches Err(error) && error@ == crate::error::ErrorView::Unexpected
                }),
                Err(error) => final(self)@.crates == old(self)@.crates && ended == Err::<T, Error>(
                    error,
                ),
            },
    {
        match outcome {
            Ok(value) => {
                if self.commit(unit) {
                    Ok(value)
                } else {
                    Err(Error::Unexpected)
                }
            },
            Err(error) => {
                self.rollback(unit);
                Err(error)
            },
        }
    }

    /// Ends a unit of work without applying anything, and gives its
    /// connection back.
    pub fn rollback(&mut self, unit: UnitOfWork)
        ensures
            final(self)@.crates == old(self)@.crates,
            final(self)@.capacity == old(self)@.capacity,
            final(self)@.busy == released(old(self)@.busy),
    {
        proof {
            use_type_invariant(&*self);
        }
        if self.busy > 0 {
            self.busy = self.busy - 1;
        }
    }
}

proof fn same_rows_same_table(rows: Seq<CrateRow>, copy: Seq<CrateRow>)
    requires
        rows_ok(rows),
        copy.len() == rows.len(),
        forall|k: int| 0 <= k < rows.len() ==> (#[trigger] copy[k]).name@ == rows[k].name@
            && copy[k].canonical@ == rows[k].canonical@ && copy[k].downloads == rows[k].downloads,
    ensures
        rows_ok(copy),
        table_of(copy) == table_of(rows),
{
    assert(rows_ok(copy)) by {
        assert forall|i: int| 0 <= i < copy.len() implies (#[trigger] copy[i]).canonical@ == canonical(
            copy[i].name@,
        ) by {
            assert(rows[i].canonical@ == canonical(rows[i].name@));
        }
        assert forall|i: int, j: int| 0 <= i < j < copy.len() implies (#[trigger] copy[i]).canonical@
            != (#[trigger] copy[j]).canonical@ by {
            assert(rows[i].canonical@ != rows[j].canonical@);
        }
    }
    assert forall|key: Seq<char>| table_of(copy).contains_key(key) <==> table_of(rows).contains_key(
        key,
    ) by {
        if table_of(copy).contains_key(key) {
            let k = choose|k: int| is_at(copy, k, key);
            assert(is_at(rows, k, key));
        }
        if table_of(rows).contains_key(key) {
            let k = choose|k: int| is_at(rows, k, key);
            assert(is_at(copy, k, key));
        }
    }
    assert forall|key: Seq<char>| table_of(copy).contains_key(key) implies table_of(copy)[key]
        == table_of(rows)[key] by {
        let k = choose|k: int| is_at(copy, k, key);
        table_holds_row(copy, k);
        assert(is_at(rows, k, key));
        table_holds_row(rows, k);
    }
    assert(table_of(copy) =~= table_of(rows));
}

/// Once a statement of a unit has failed, the unit fails.
proof fn statements_fail_for_good(table: Table, statements: Seq<Seq<char>>, upto: int)
    requires
        0 <= upto <= statements.len(),
        applied(table, statements.subrange(0, upto)) is None,
    ensures
        applied(table, statements) is None,
    decreases statements.len() - upto,
{
    if upto < statements.len() {
        let next = statements.subrange(0, upto + 1);
        assert(next.drop_last() =~= statements.subrange(0, upto));
        statements_fail_for_good(table, statements, upto + 1);
    } else {
        assert(statements.subrange(0, upto) =~= statements);
    }
}

} // verus!
