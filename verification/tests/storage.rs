use alexandrie::error::Error;
use alexandrie::repo::{CrateRow, Repository};
use alexandrie::store::MemoryStore;
use alexandrie::version::Version;

fn v(text: &str) -> Version {
    Version::parse(text).unwrap()
}

#[test]
fn what_is_written_is_read_back_byte_for_byte() {
    let mut store = MemoryStore::new();
    let bytes: Vec<u8> = (0..=255u8).collect();
    store.write("foo", &v("1.0.0"), bytes.clone());
    assert_eq!(store.read("foo", &v("1.0.0")), Some(bytes));
    assert!(store.contains("foo", &v("1.0.0")));
}

#[test]
fn a_missing_artifact_reads_as_none() {
    let mut store = MemoryStore::new();
    assert_eq!(store.read("foo", &v("1.0.0")), None);
    store.write("foo", &v("1.0.0"), vec![1]);
    assert_eq!(store.read("foo", &v("1.0.1")), None);
    assert_eq!(store.read("bar", &v("1.0.0")), None);
    assert_eq!(store.read("Foo", &v("1.0.0")), None);
    assert_eq!(store.read("foo", &v("1.0.0+meta")), None);
    assert!(!store.contains("bar", &v("1.0.0")));
}

#[test]
fn a_second_write_replaces_the_first() {
    let mut store = MemoryStore::new();
    store.write("foo", &v("1.0.0"), vec![1, 2]);
    store.write("foo", &v("2.0.0"), vec![3]);
    store.write("foo", &v("1.0.0"), vec![4, 5, 6]);
    assert_eq!(store.read("foo", &v("1.0.0")), Some(vec![4, 5, 6]));
    assert_eq!(store.read("foo", &v("2.0.0")), Some(vec![3]));
}

#[test]
fn an_empty_artifact_is_still_an_artifact() {
    let mut store = MemoryStore::new();
    store.write("foo", &v("1.0.0"), vec![]);
    assert_eq!(store.read("foo", &v("1.0.0")), Some(vec![]));
}

#[test]
fn delete_removes_and_is_idempotent() {
    let mut store = MemoryStore::new();
    store.write("foo", &v("1.0.0"), vec![1]);
    store.write("bar", &v("1.0.0"), vec![2]);
    store.write("baz", &v("1.0.0"), vec![3]);
    assert!(store.delete("bar", &v("1.0.0")));
    assert_eq!(store.read("bar", &v("1.0.0")), None);
    assert!(!store.delete("bar", &v("1.0.0")));
    assert_eq!(store.read("foo", &v("1.0.0")), Some(vec![1]));
    assert_eq!(store.read("baz", &v("1.0.0")), Some(vec![3]));
    assert!(!MemoryStore::new().delete("foo", &v("1.0.0")));
}

#[test]
fn register_enters_a_crate_once_per_canonical_name() {
    let mut repo = Repository::new(2);
    assert!(repo.register("Foo_Bar"));
    assert!(!repo.register("foo-bar"));
    assert!(!repo.register("FOO_BAR"));
    assert!(repo.register("other"));
    assert_eq!(
        repo.find("foo-bar"),
        Some(CrateRow {
            name: "Foo_Bar".to_string(),
            canonical: "foo-bar".to_string(),
            downloads: 0,
        })
    );
    assert_eq!(repo.find("Foo_Bar"), None);
    assert_eq!(repo.find("missing"), None);
    assert_eq!(repo.downloads("FOO-bar"), Some(0));
    assert_eq!(repo.downloads("missing"), None);
}

#[test]
fn a_committed_unit_applies_its_increments() {
    let mut repo = Repository::new(1);
    repo.register("foo");
    repo.register("bar");
    let mut unit = repo.begin().ok().unwrap();
    unit.increment_downloads("foo");
    unit.increment_downloads("foo");
    unit.increment_downloads("bar");
    assert_eq!(repo.downloads("foo"), Some(0));
    assert!(repo.commit(unit));
    assert_eq!(repo.downloads("foo"), Some(2));
    assert_eq!(repo.downloads("bar"), Some(1));
}

#[test]
fn a_rolled_back_unit_applies_nothing() {
    let mut repo = Repository::new(1);
    repo.register("foo");
    let mut unit = repo.begin().ok().unwrap();
    unit.increment_downloads("foo");
    repo.rollback(unit);
    assert_eq!(repo.downloads("foo"), Some(0));
    assert!(repo.begin().is_ok());
}

#[test]
fn an_increment_names_the_crate_exactly() {
    let mut repo = Repository::new(1);
    repo.register("Foo");
    let mut unit = repo.begin().ok().unwrap();
    unit.increment_downloads("foo");
    unit.increment_downloads("missing");
    assert!(repo.commit(unit));
    assert_eq!(repo.downloads("Foo"), Some(0));
    let mut unit = repo.begin().ok().unwrap();
    unit.increment_downloads("Foo");
    assert!(repo.commit(unit));
    assert_eq!(repo.downloads("foo"), Some(1));
}

#[test]
fn the_pool_is_bounded_and_connections_come_back() {
    let mut repo = Repository::new(2);
    let first = repo.begin().ok().unwrap();
    let second = repo.begin().ok().unwrap();
    assert_eq!(repo.begin().err(), Some(Error::PoolExhausted));
    repo.rollback(first);
    let third = repo.begin().ok().unwrap();
    assert_eq!(repo.begin().err(), Some(Error::PoolExhausted));
    assert!(repo.commit(second));
    assert!(repo.commit(third));
    assert!(repo.begin().is_ok());
    assert!(repo.begin().is_ok());
    assert_eq!(Repository::new(0).begin().err(), Some(Error::PoolExhausted));
}

#[test]
fn units_under_way_at_once_lose_no_increment() {
    let n = 25;
    let mut repo = Repository::new(n);
    repo.register("foo");
    let mut units = Vec::new();
    for _ in 0..n {
        let mut unit = repo.begin().ok().unwrap();
        unit.increment_downloads("foo");
        units.push(unit);
    }
    assert_eq!(repo.downloads("foo"), Some(0));
    while let Some(unit) = units.pop() {
        assert!(repo.commit(unit));
    }
    assert_eq!(repo.downloads("foo"), Some(n as u64));
}

#[test]
fn finish_commits_on_success_and_rolls_back_on_failure() {
    let mut repo = Repository::new(1);
    repo.register("foo");
    let mut unit = repo.begin().ok().unwrap();
    unit.increment_downloads("foo");
    assert_eq!(repo.finish(unit, Ok(7u8)), Ok(7u8));
    assert_eq!(repo.downloads("foo"), Some(1));
    let mut unit = repo.begin().ok().unwrap();
    unit.increment_downloads("foo");
    let failed: Result<u8, Error> = Err(Error::StorageIo);
    assert_eq!(repo.finish(unit, failed), Err(Error::StorageIo));
    assert_eq!(repo.downloads("foo"), Some(1));
    assert!(repo.begin().is_ok());
}
