use alexandrie::download::{Action, Download, Reply, Step};
use alexandrie::error::Error;
use alexandrie::registry::{Registry, Session};
use alexandrie::response::Response;
use alexandrie::version::Version;

fn v(text: &str) -> Version {
    Version::parse(text).unwrap()
}

fn ask(step: Step) -> Action {
    match step {
        Step::Ask(action) => action,
        Step::Done(outcome) => panic!("done too early: {:?}", outcome),
    }
}

#[test]
fn publish_then_download_counts_each_download() {
    let bytes = b"tarball of foo".to_vec();
    let mut registry = Registry::new(4);
    assert!(registry.publish("foo", &v("1.0.0"), bytes.clone()));
    assert_eq!(registry.download_count("foo"), Some(0));
    let served = registry.download("foo", "1.0.0").unwrap();
    assert_eq!(served.status, 200);
    assert_eq!(served.content_type, Some("application/octet-stream".to_string()));
    assert_eq!(served.body, bytes);
    assert_eq!(served.error, None);
    assert_eq!(registry.download_count("foo"), Some(1));
    assert_eq!(registry.download("foo", "1.0.0"), Ok(Response::octet_stream(bytes)));
    assert_eq!(registry.download_count("foo"), Some(2));
}

#[test]
fn download_of_an_unknown_crate_is_not_found_and_creates_no_row() {
    let mut registry = Registry::new(4);
    registry.publish("foo", &v("1.0.0"), vec![1]);
    assert_eq!(
        registry.download("does-not-exist", "1.0.0"),
        Err(Error::CrateNotFound { name: "does-not-exist".to_string() })
    );
    assert_eq!(registry.download_count("does-not-exist"), None);
    assert_eq!(registry.repo.find("does-not-exist"), None);
    assert_eq!(registry.download_count("foo"), Some(0));
    assert!(registry.repo.begin().is_ok());
}

#[test]
fn crate_not_found_names_the_canonical_form() {
    let mut registry = Registry::new(1);
    assert_eq!(
        registry.download("Does_Not_Exist", "1.0.0"),
        Err(Error::CrateNotFound { name: "does-not-exist".to_string() })
    );
}

#[test]
fn download_with_the_pool_exhausted_fails_at_once() {
    let mut registry = Registry::new(2);
    registry.publish("foo", &v("1.0.0"), vec![1]);
    let first = registry.repo.begin().ok().unwrap();
    let second = registry.repo.begin().ok().unwrap();
    assert_eq!(registry.download("foo", "1.0.0"), Err(Error::PoolExhausted));
    assert_eq!(registry.download_count("foo"), Some(0));
    registry.repo.rollback(first);
    assert_eq!(registry.download("foo", "1.0.0"), Ok(Response::octet_stream(vec![1])));
    assert_eq!(registry.download_count("foo"), Some(1));
    registry.repo.rollback(second);
}

#[test]
fn download_of_a_missing_version_leaves_the_counter_alone() {
    let mut registry = Registry::new(1);
    registry.publish("Foo", &v("1.0.0"), vec![1]);
    assert_eq!(
        registry.download("foo", "2.0.0"),
        Err(Error::ArtifactNotFound { name: "Foo".to_string(), version: "2.0.0".to_string() })
    );
    assert_eq!(registry.download_count("foo"), Some(0));
    assert_eq!(registry.download("foo", "1.0.0"), Ok(Response::octet_stream(vec![1])));
    assert_eq!(registry.download_count("foo"), Some(1));
}

#[test]
fn download_of_an_invalid_version_is_a_bad_request() {
    let mut registry = Registry::new(1);
    registry.publish("foo", &v("1.0.0"), vec![1]);
    assert_eq!(
        registry.download("foo", "one.two"),
        Err(Error::BadRequest { version: "one.two".to_string() })
    );
    assert_eq!(registry.download_count("foo"), Some(0));
    assert_eq!(
        registry.download_parsed("foo", "1.0.0", None),
        Err(Error::BadRequest { version: "1.0.0".to_string() })
    );
    assert_eq!(
        registry.download_parsed("foo", "whatever", Some(v("1.0.0"))),
        Ok(Response::octet_stream(vec![1]))
    );
}

#[test]
fn download_finds_the_crate_in_any_spelling() {
    let mut registry = Registry::new(1);
    registry.publish("Foo_Bar", &v("0.1.0"), vec![7]);
    assert_eq!(registry.download("foo-bar", "0.1.0"), Ok(Response::octet_stream(vec![7])));
    assert_eq!(registry.download("FOO_BAR", "0.1.0"), Ok(Response::octet_stream(vec![7])));
    assert_eq!(registry.download_count("Foo_Bar"), Some(2));
}

#[test]
fn publish_keeps_the_first_spelling_and_refuses_a_second_copy() {
    let mut registry = Registry::new(1);
    assert!(registry.publish("Foo", &v("1.0.0"), vec![1]));
    assert!(!registry.publish("foo", &v("1.0.0"), vec![2]));
    assert!(registry.publish("FOO", &v("1.1.0"), vec![3]));
    assert_eq!(registry.repo.find("foo").unwrap().name, "Foo");
    assert_eq!(registry.store.read("Foo", &v("1.0.0")), Some(vec![1]));
    assert_eq!(registry.store.read("Foo", &v("1.1.0")), Some(vec![3]));
    assert_eq!(registry.store.read("FOO", &v("1.1.0")), None);
    assert_eq!(registry.download("foo", "1.1.0"), Ok(Response::octet_stream(vec![3])));
}

#[test]
fn simultaneous_downloads_are_all_counted() {
    let n = 12;
    let mut registry = Registry::new(n);
    registry.publish("foo", &v("1.0.0"), vec![1, 2, 3]);
    let mut sessions: Vec<Session> = (0..n).map(|_| Session::new()).collect();
    let mut states: Vec<Option<Download>> = Vec::new();
    let mut steps: Vec<Option<Step>> = Vec::new();
    for _ in 0..n {
        let (state, step) = Download::open("foo", "1.0.0");
        states.push(Some(state));
        steps.push(Some(step));
    }
    let mut served = 0;
    let mut rounds = 0;
    while served < n {
        rounds += 1;
        assert!(rounds <= 10);
        for i in 0..n {
            match steps[i].take() {
                Some(Step::Ask(action)) => {
                    let reply = registry.answer(&mut sessions[i], &action);
                    let (state, step) = states[i].take().unwrap().advance(reply);
                    states[i] = Some(state);
                    steps[i] = Some(step);
                }
                Some(Step::Done(outcome)) => {
                    assert_eq!(outcome, Ok(Response::octet_stream(vec![1, 2, 3])));
                    served += 1;
                }
                None => {}
            }
        }
        if rounds == 4 {
            assert_eq!(registry.download_count("foo"), Some(0));
        }
    }
    assert_eq!(registry.download_count("foo"), Some(n as u64));
    assert!(registry.repo.begin().is_ok());
}

#[test]
fn the_machine_asks_for_its_work_in_order() {
    let (state, step) = Download::open("Foo_Bar", "1.2.3");
    assert_eq!(ask(step), Action::Begin);
    let (state, step) = state.advance(Reply::Begun);
    assert_eq!(ask(step), Action::FindCrate { canonical: "foo-bar".to_string() });
    let (state, step) = state.advance(Reply::Row(Some("Foo_Bar".to_string())));
    assert_eq!(ask(step), Action::IncrementDownloads { name: "Foo_Bar".to_string() });
    let (state, step) = state.advance(Reply::Incremented);
    assert_eq!(
        ask(step),
        Action::ReadArtifact { name: "Foo_Bar".to_string(), version: v("1.2.3") }
    );
    let (state, step) = state.advance(Reply::Artifact(Some(vec![5, 6])));
    assert_eq!(state, Download::Committing { response: Response::octet_stream(vec![5, 6]) });
    assert_eq!(ask(step), Action::Commit);
    let (state, step) = state.advance(Reply::Committed);
    assert_eq!(state, Download::Finished);
    assert_eq!(step, Step::Done(Ok(Response::octet_stream(vec![5, 6]))));
    let (state, step) = state.advance(Reply::Committed);
    assert_eq!(state, Download::Finished);
    assert_eq!(step, Step::Done(Err(Error::Unexpected)));
}

#[test]
fn the_machine_ends_at_once_on_a_bad_version() {
    let (state, step) = Download::open("foo", "latest");
    assert_eq!(state, Download::Finished);
    assert_eq!(step, Step::Done(Err(Error::BadRequest { version: "latest".to_string() })));
    let (state, step) = Download::open_parsed("foo", "1.0.0", None);
    assert_eq!(state, Download::Finished);
    assert_eq!(step, Step::Done(Err(Error::BadRequest { version: "1.0.0".to_string() })));
}

#[test]
fn the_machine_reports_an_exhausted_pool_without_a_rollback() {
    let (state, _) = Download::open("foo", "1.0.0");
    let (state, step) = state.advance(Reply::PoolExhausted);
    assert_eq!(state, Download::Finished);
    assert_eq!(step, Step::Done(Err(Error::PoolExhausted)));
}

fn until_reading() -> Download {
    let (state, _) = Download::open("foo", "1.0.0");
    let (state, _) = state.advance(Reply::Begun);
    let (state, _) = state.advance(Reply::Row(Some("foo".to_string())));
    let (state, _) = state.advance(Reply::Incremented);
    state
}

fn rolled_back(state: Download, step: Step, error: Error) {
    assert_eq!(state, Download::RollingBack { error: error.clone() });
    assert_eq!(ask(step), Action::Rollback);
    let (state, step) = state.advance(Reply::RolledBack);
    assert_eq!(state, Download::Finished);
    assert_eq!(step, Step::Done(Err(error)));
}

#[test]
fn the_machine_rolls_back_when_the_crate_is_missing() {
    let (state, _) = Download::open("Foo", "1.0.0");
    let (state, _) = state.advance(Reply::Begun);
    let (state, step) = state.advance(Reply::Row(None));
    rolled_back(state, step, Error::CrateNotFound { name: "foo".to_string() });
}

#[test]
fn the_machine_rolls_back_when_the_artifact_is_missing() {
    let (state, step) = until_reading().advance(Reply::Artifact(None));
    rolled_back(
        state,
        step,
        Error::ArtifactNotFound { name: "foo".to_string(), version: "1.0.0".to_string() },
    );
}

#[test]
fn the_machine_rolls_back_when_the_store_fails() {
    let (state, step) = until_reading().advance(Reply::StoreFailed);
    rolled_back(state, step, Error::StorageIo);
}

#[test]
fn the_machine_rolls_back_when_the_database_fails() {
    let (state, _) = Download::open("foo", "1.0.0");
    let (state, _) = state.advance(Reply::Begun);
    let (failed, step) = state.clone().advance(Reply::DatabaseFailed);
    rolled_back(failed, step, Error::Unexpected);
    let (state, _) = state.advance(Reply::Row(Some("foo".to_string())));
    let (failed, step) = state.advance(Reply::DatabaseFailed);
    rolled_back(failed, step, Error::Unexpected);
}

#[test]
fn a_failed_commit_is_an_unexpected_failure() {
    let (state, _) = until_reading().advance(Reply::Artifact(Some(vec![1])));
    let (state, step) = state.advance(Reply::DatabaseFailed);
    assert_eq!(state, Download::Finished);
    assert_eq!(step, Step::Done(Err(Error::Unexpected)));
}

#[test]
fn a_reply_out_of_turn_is_an_unexpected_failure() {
    let (state, _) = Download::open("foo", "1.0.0");
    let (state, step) = state.advance(Reply::Committed);
    assert_eq!(state, Download::Finished);
    assert_eq!(step, Step::Done(Err(Error::Unexpected)));
    let (state, step) = until_reading().advance(Reply::Begun);
    rolled_back(state, step, Error::Unexpected);
}

#[test]
fn the_registry_answers_table_work_only_inside_a_unit() {
    let mut registry = Registry::new(1);
    registry.publish("foo", &v("1.0.0"), vec![1]);
    let mut session = Session::new();
    let find = Action::FindCrate { canonical: "foo".to_string() };
    let bump = Action::IncrementDownloads { name: "foo".to_string() };
    assert_eq!(registry.answer(&mut session, &find), Reply::DatabaseFailed);
    assert_eq!(registry.answer(&mut session, &bump), Reply::DatabaseFailed);
    assert_eq!(registry.answer(&mut session, &Action::Commit), Reply::DatabaseFailed);
    assert_eq!(registry.answer(&mut session, &Action::Rollback), Reply::RolledBack);
    assert_eq!(registry.answer(&mut session, &Action::Begin), Reply::Begun);
    assert_eq!(registry.answer(&mut session, &Action::Begin), Reply::DatabaseFailed);
    assert_eq!(registry.answer(&mut Session::new(), &Action::Begin), Reply::PoolExhausted);
    assert_eq!(registry.answer(&mut session, &find), Reply::Row(Some("foo".to_string())));
    assert_eq!(
        registry.answer(&mut session, &Action::FindCrate { canonical: "bar".to_string() }),
        Reply::Row(None)
    );
    assert_eq!(registry.answer(&mut session, &bump), Reply::Incremented);
    assert_eq!(
        registry.answer(
            &mut session,
            &Action::ReadArtifact { name: "foo".to_string(), version: v("1.0.0") }
        ),
        Reply::Artifact(Some(vec![1]))
    );
    assert_eq!(
        registry.answer(
            &mut session,
            &Action::ReadArtifact { name: "foo".to_string(), version: v("9.9.9") }
        ),
        Reply::Artifact(None)
    );
    assert_eq!(registry.download_count("foo"), Some(0));
    assert_eq!(registry.answer(&mut session, &Action::Commit), Reply::Committed);
    assert_eq!(registry.download_count("foo"), Some(1));
    assert_eq!(registry.answer(&mut session, &Action::Begin), Reply::Begun);
    assert_eq!(registry.answer(&mut session, &bump), Reply::Incremented);
    assert_eq!(registry.answer(&mut session, &Action::Rollback), Reply::RolledBack);
    assert_eq!(registry.download_count("foo"), Some(1));
}
