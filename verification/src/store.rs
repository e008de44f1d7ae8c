//! The artifact store: the tarball of each published version of a crate,
//! kept under the crate's name and the version.
//!
//! A store knows nothing of requests or of the crate table. An artifact is
//! written whole or not at all, a missing artifact is an answer and no
//! failure, and deleting what is not there changes nothing.

use crate::text::same_text;
use crate::version::{Version, VersionView};
use vstd::prelude::*;

verus! {

/// What an artifact is kept under: the crate's name and the version.
pub type Key = (Seq<char>, VersionView);

/// What a store holds, as contracts see it.
pub type Shelf = Map<Key, Seq<u8>>;

/// What reading a key from a shelf gives.
pub open spec fn stored(shelf: Shelf, key: Key) -> Option<Seq<u8>> {
    if shelf.contains_key(key) {
        Some(shelf[key])
    } else {
        None
    }
}

/// The bytes of a read that may have found nothing.
pub open spec fn bytes_of(found: Option<Vec<u8>>) -> Option<Seq<u8>> {
    match found {
        Some(bytes) => Some(bytes@),
        None => None,
    }
}

/// What is read back after a write is what was written, byte for byte, and
/// every other artifact reads as before.
pub proof fn read_after_write(shelf: Shelf, key: Key, bytes: Seq<u8>, other: Key)
    ensures
        stored(shelf.insert(key, bytes), key) == Some(bytes),
        other != key ==> stored(shelf.insert(key, bytes), other) == stored(shelf, other),
{
}

/// After a delete the artifact is gone, whether or not it was there, every
/// other artifact reads as before, and a second delete changes nothing.
pub proof fn delete_is_idempotent(shelf: Shelf, key: Key, other: Key)
    ensures
        stored(shelf.remove(key), key) is None,
        other != key ==> stored(shelf.remove(key), other) == stored(shelf, other),
        shelf.remove(key).remove(key) == shelf.remove(key),
{
    assert(shelf.remove(key).remove(key) =~= shelf.remove(key));
}

/// One artifact of a store in memory.
struct Artifact {
    name: String,
    version: Version,
    bytes: Vec<u8>,
}

impl Artifact {
    spec fn key(self) -> Key {
        (self.name@, self.version@)
    }
}

/// A store that keeps its artifacts in memory.
pub struct MemoryStore {
    artifacts: Vec<Artifact>,
}

impl View for MemoryStore {
    type V = Shelf;

    closed spec fn view(&self) -> Shelf {
        Map::new(
            |key: Key|
                exists|i: int| 0 <= i < self.artifacts@.len() && self.artifacts@[i].key() == key,
            |key: Key|
                self.artifacts@[choose|i: int|
                    0 <= i < self.artifacts@.len() && self.artifacts@[i].key() == key].bytes@,
        )
    }
}

impl MemoryStore {
    /// No key is kept twice.
    #[verifier::type_invariant]
    spec fn keeps_each_key_once(self) -> bool {
        forall|i: int, j: int|
            0 <= i < j < self.artifacts@.len() ==> self.artifacts@[i].key()
                != self.artifacts@[j].key()
    }

    /// An empty store.
    pub fn new() -> (store: MemoryStore)
        ensures
            store@ == Map::<Key, Seq<u8>>::empty(),
    {
        let store = MemoryStore { artifacts: Vec::new() };
        assert(store@ =~= Map::<Key, Seq<u8>>::empty());
        store
    }

    /// Where the artifact of a key is kept, if it is kept.
    fn position(&self, name: &String, version: &Version) -> (at: Option<usize>)
        ensures
            match at {
                Some(i) => i < self.artifacts@.len() && self.artifacts@[i as int].key() == (
                    name@,
                    version@,
                ),
                None => forall|i: int|
                    0 <= i < self.artifacts@.len() ==> self.artifacts@[i].key() != (name@, version@),
            },
    {
        let mut i: usize = 0;
        while i < self.artifacts.len()
            invariant
                i <= self.artifacts@.len(),
                forall|k: int| 0 <= k < i ==> self.artifacts@[k].key() != (name@, version@),
            decreases self.artifacts.len() - i,
        {
            if same_text(&self.artifacts[i].name, name) && self.artifacts[i].version.same(version) {
                return Some(i);
            }
            i = i + 1;
        }
        None
    }

    /// Whether the store has an artifact under this name and version.
    pub fn contains(&self, name: &str, version: &Version) -> (yes: bool)
        ensures
            yes == self@.contains_key((name@, version@)),
    {
        let name = name.to_owned();
        self.position(&name, version).is_some()
    }

    /// The bytes of an artifact; `None` where the store has none under this
    /// name and version.
    pub fn read(&self, name: &str, version: &Version) -> (found: Option<Vec<u8>>)
        ensures
            bytes_of(found) == stored(self@, (name@, version@)),
    {
        proof {
            use_type_invariant(self);
        }
        let name = name.to_owned();
        match self.position(&name, version) {
            Some(i) => {
                let bytes = self.artifacts[i].bytes.clone();
                assert(bytes@ == self.artifacts@[i as int].bytes@);
                Some(bytes)
            },
            None => None,
        }
    }

    /// Stores an artifact, in place of the one kept under the same name and
    /// version if there is one.
    pub fn write(&mut self, name: &str, version: &Version, bytes: Vec<u8>)
        ensures
            final(self)@ == old(self)@.insert((name@, version@), bytes@),
    {
        proof {
            use_type_invariant(&*self);
        }
        let name = name.to_owned();
        let ghost key = (name@, version@);
        let ghost before = self.artifacts@;
        let artifact = Artifact { name: name.clone(), version: version.copy(), bytes };
        let at = self.position(&name, version);
        let mut artifacts: Vec<Artifact> = Vec::new();
        std::mem::swap(&mut artifacts, &mut self.artifacts);
        match at {
            Some(i) => {
                artifacts.set(i, artifact);
                assert(forall|k: int| 0 <= k < before.len() ==> artifacts@[k].key() == before[k].key());
            },
            None => {
                artifacts.push(artifact);
                assert(forall|k: int| 0 <= k < before.len() ==> artifacts@[k] == before[k]);
            },
        }
        self.artifacts = artifacts;
        proof {
            let after = self.artifacts@;
            let slot = match at {
                Some(i) => i as int,
                None => before.len() as int,
            };
            assert(after[slot] == artifact);
            assert(artifact.key() == key);
            assert(forall|k: int| 0 <= k < before.len() && k != slot ==> after[k] == before[k]);
            assert forall|k: Key| self@.contains_key(k) <==> old(self)@.insert(key, bytes@).contains_key(k) by {
                if old(self)@.contains_key(k) {
                    let i = choose|i: int| 0 <= i < before.len() && before[i].key() == k;
                    assert(after[i].key() == k);
                }
                if k == key {
                    assert(after[slot].key() == k);
                }
                if self@.contains_key(k) && k != key {
                    let i = choose|i: int| 0 <= i < after.len() && after[i].key() == k;
                    assert(i != slot);
                    assert(before[i].key() == k);
                }
            }
            assert forall|k: Key| self@.contains_key(k) implies self@[k] == old(self)@.insert(key, bytes@)[k] by {
                let i = choose|i: int| 0 <= i < after.len() && after[i].key() == k;
                if k != key {
                    let j = choose|j: int| 0 <= j < before.len() && before[j].key() == k;
                    assert(before[i].key() == k);
                    assert(i == j);
                    assert(after[i] == before[i]);
                } else {
                    assert(i == slot);
                }
            }
            assert(self@ =~= old(self)@.insert(key, bytes@));
        }
    }

    /// Removes an artifact. Tells whether it was there; where it was not,
    /// nothing changes.
    pub fn delete(&mut self, name: &str, version: &Version) -> (was_there: bool)
        ensures
            final(self)@ == old(self)@.remove((name@, version@)),
            was_there == old(self)@.contains_key((name@, version@)),
    {
        proof {
            use_type_invariant(&*self);
        }
        let name = name.to_owned();
        let ghost key = (name@, version@);
        let ghost before = self.artifacts@;
        match self.position(&name, version) {
            Some(i) => {
                let mut artifacts: Vec<Artifact> = Vec::new();
                std::mem::swap(&mut artifacts, &mut self.artifacts);
                artifacts.remove(i);
                assert(forall|k: int| 0 <= k < i ==> artifacts@[k] == before[k]);
                assert(forall|k: int| i <= k < artifacts@.len() ==> artifacts@[k] == before[k + 1]);
                self.artifacts = artifacts;
                proof {
                    let after = self.artifacts@;
                    assert(forall|k: int| 0 <= k < i ==> after[k] == before[k]);
                    assert(forall|k: int| i <= k < after.len() ==> after[k] == before[k + 1]);
                    assert(before[i as int].key() == key);
                    assert forall|k: Key| self@.contains_key(k) <==> old(self)@.remove(key).contains_key(k) by {
                        if self@.contains_key(k) {
                            let a = choose|a: int| 0 <= a < after.len() && after[a].key() == k;
                            if a < i {
                                assert(before[a].key() == k);
                            } else {
                                assert(before[a + 1].key() == k);
                            }
                        }
                        if old(self)@.contains_key(k) && k != key {
                            let b = choose|b: int| 0 <= b < before.len() && before[b].key() == k;
                            if b < i {
                                assert(after[b].key() == k);
                            } else {
                                assert(after[b - 1].key() == k);
                            }
                        }
                    }
                    assert forall|k: Key| self@.contains_key(k) implies self@[k] == old(self)@.remove(key)[k] by {
                        let a = choose|a: int| 0 <= a < after.len() && after[a].key() == k;
                        let b = choose|b: int| 0 <= b < before.len() && before[b].key() == k;
                        if a < i {
                            assert(before[a].key() == k);
                            assert(a == b);
                        } else {
                            assert(before[a + 1].key() == k);
                            assert(a + 1 == b);
                        }
                    }
                    assert(self@ =~= old(self)@.remove(key));
                }
                true
            },
            None => {
                assert(self@ =~= old(self)@.remove(key));
                false
            },
        }
    }
}

} // verus!
