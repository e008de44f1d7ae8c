use alexandrie::error::{Error, ErrorKind};
use alexandrie::response::{error_body, wrap_detail, Response};
use alexandrie::version::Version;

fn version(major: u64, minor: u64, patch: u64, pre: &str, build: &str) -> Version {
    Version { major, minor, patch, pre: pre.to_string(), build: build.to_string() }
}

#[test]
fn version_parse_reads_the_three_numbers() {
    assert_eq!(Version::parse("1.0.0"), Some(version(1, 0, 0, "", "")));
    assert_eq!(Version::parse("0.12.345"), Some(version(0, 12, 345, "", "")));
    assert_eq!(
        Version::parse("18446744073709551615.0.0"),
        Some(version(u64::MAX, 0, 0, "", ""))
    );
}

#[test]
fn version_parse_reads_pre_release_and_build() {
    assert_eq!(Version::parse("1.2.3-alpha.1"), Some(version(1, 2, 3, "alpha.1", "")));
    assert_eq!(Version::parse("1.2.3+build.5"), Some(version(1, 2, 3, "", "build.5")));
    assert_eq!(
        Version::parse("1.2.3-rc.2+exp.sha.5114f85"),
        Some(version(1, 2, 3, "rc.2", "exp.sha.5114f85"))
    );
}

#[test]
fn version_parse_rejects_what_is_no_version() {
    for text in ["", "1", "1.0", "1.0.0.0", "a.b.c", "1.0.0-", "1.0.0+", " 1.0.0", "01.0.0", "v1.0.0"] {
        assert_eq!(Version::parse(text), None, "{:?} was accepted", text);
    }
}

#[test]
fn version_parse_agrees_with_semver() {
    for text in ["1.0.0", "2.3.4-beta+x", "not-a-version", "1.0.0-alpha..1", "0.0.0"] {
        let ours = Version::parse(text);
        match semver::Version::parse(text) {
            Ok(theirs) => {
                let ours = ours.unwrap();
                assert_eq!(ours.major, theirs.major);
                assert_eq!(ours.minor, theirs.minor);
                assert_eq!(ours.patch, theirs.patch);
                assert_eq!(ours.pre, theirs.pre.as_str());
                assert_eq!(ours.build, theirs.build.as_str());
            }
            Err(_) => assert_eq!(ours, None),
        }
    }
}

#[test]
fn version_same_compares_every_field() {
    let base = version(1, 2, 3, "rc.1", "b7");
    assert!(base.same(&base.copy()));
    assert!(!base.same(&version(2, 2, 3, "rc.1", "b7")));
    assert!(!base.same(&version(1, 3, 3, "rc.1", "b7")));
    assert!(!base.same(&version(1, 2, 4, "rc.1", "b7")));
    assert!(!base.same(&version(1, 2, 3, "rc.2", "b7")));
    assert!(!base.same(&version(1, 2, 3, "rc.1", "b8")));
    assert_eq!(base.copy(), base);
}

#[test]
fn each_error_has_its_kind_and_status() {
    let cases = [
        (Error::CrateNotFound { name: "foo".to_string() }, ErrorKind::NotFound, 404),
        (
            Error::ArtifactNotFound { name: "foo".to_string(), version: "1.0.0".to_string() },
            ErrorKind::NotFound,
            404,
        ),
        (Error::BadRequest { version: "x".to_string() }, ErrorKind::BadInput, 400),
        (Error::PoolExhausted, ErrorKind::PoolExhausted, 503),
        (Error::StorageIo, ErrorKind::StorageIo, 500),
        (Error::Unexpected, ErrorKind::Unexpected, 500),
    ];
    for (error, kind, status) in cases {
        assert_eq!(error.kind(), kind);
        assert_eq!(error.status(), status);
        assert_eq!(kind.status(), status);
        assert_eq!(error.copy(), error);
    }
}

#[test]
fn only_not_found_and_bad_input_are_the_clients_doing() {
    assert!(ErrorKind::NotFound.is_client_caused());
    assert!(ErrorKind::BadInput.is_client_caused());
    assert!(!ErrorKind::PoolExhausted.is_client_caused());
    assert!(!ErrorKind::StorageIo.is_client_caused());
    assert!(!ErrorKind::Unexpected.is_client_caused());
}

#[test]
fn each_error_tells_the_client_its_detail() {
    assert_eq!(
        Error::CrateNotFound { name: "foo".to_string() }.detail(),
        "no crate named 'foo' found"
    );
    assert_eq!(
        Error::ArtifactNotFound { name: "Foo".to_string(), version: "1.0.0".to_string() }.detail(),
        "crate 'Foo' has no version '1.0.0'"
    );
    assert_eq!(Error::BadRequest { version: "1.x".to_string() }.detail(), "invalid version '1.x'");
    assert_eq!(Error::PoolExhausted.detail(), "the registry is busy, try again later");
    assert_eq!(Error::StorageIo.detail(), "the artifact store failed");
    assert_eq!(Error::Unexpected.detail(), "internal error");
}

#[test]
fn wrap_detail_frames_a_quoted_detail() {
    assert_eq!(wrap_detail("\"x\""), "{\"errors\":[{\"detail\":\"x\"}]}");
    assert_eq!(wrap_detail(""), "{\"errors\":[{\"detail\":}]}");
}

#[test]
fn error_body_quotes_the_detail_as_json() {
    assert_eq!(
        error_body("no crate named 'foo' found"),
        "{\"errors\":[{\"detail\":\"no crate named 'foo' found\"}]}"
    );
    assert_eq!(
        error_body("say \"hi\"\\\n"),
        "{\"errors\":[{\"detail\":\"say \\\"hi\\\"\\\\\\n\"}]}"
    );
    assert_eq!(error_body(""), "{\"errors\":[{\"detail\":\"\"}]}");
}

#[test]
fn error_body_is_what_serde_json_writes_for_the_payload() {
    for detail in ["plain", "quote \" and \\ slash", "tab\tnewline\n", "ünï\u{1}code"] {
        let mut object = serde_json::Map::new();
        object.insert("detail".to_string(), serde_json::Value::String(detail.to_string()));
        let mut payload = serde_json::Map::new();
        payload.insert(
            "errors".to_string(),
            serde_json::Value::Array(vec![serde_json::Value::Object(object)]),
        );
        let expected = serde_json::to_string(&serde_json::Value::Object(payload)).unwrap();
        assert_eq!(error_body(detail), expected);
        let read: serde_json::Value = serde_json::from_str(&error_body(detail)).unwrap();
        assert_eq!(read["errors"][0]["detail"], serde_json::Value::String(detail.to_string()));
    }
}

#[test]
fn octet_stream_serves_the_bytes_with_200() {
    let response = Response::octet_stream(vec![1, 2, 3]);
    assert_eq!(response.status, 200);
    assert_eq!(response.content_type, Some("application/octet-stream".to_string()));
    assert_eq!(response.body, vec![1, 2, 3]);
    assert_eq!(response.error, None);
}

#[test]
fn from_error_keeps_status_and_detail() {
    let response = Response::from_error(&Error::CrateNotFound { name: "foo".to_string() });
    assert_eq!(response.status, 404);
    assert_eq!(response.content_type, None);
    assert_eq!(response.body, Vec::<u8>::new());
    assert_eq!(response.error, Some("no crate named 'foo' found".to_string()));
    assert_eq!(Response::from_error(&Error::PoolExhausted).status, 503);
    assert_eq!(Response::from_error(&Error::BadRequest { version: "q".to_string() }).status, 400);
    assert_eq!(Response::from_error(&Error::StorageIo).status, 500);
}

#[test]
fn shaped_turns_a_failure_into_200_with_a_json_body() {
    let shaped = Response::from_error(&Error::CrateNotFound { name: "foo".to_string() }).shaped();
    assert_eq!(shaped.status, 200);
    assert_eq!(shaped.content_type, Some("application/json".to_string()));
    assert_eq!(
        shaped.body,
        b"{\"errors\":[{\"detail\":\"no crate named 'foo' found\"}]}".to_vec()
    );
    assert_eq!(shaped.error, Some("no crate named 'foo' found".to_string()));
}

#[test]
fn shaped_leaves_a_success_alone_and_is_idempotent() {
    let served = Response::octet_stream(vec![9, 8, 7]);
    assert_eq!(served.clone().shaped(), served);
    let blank = Response::new(404);
    assert_eq!(blank.clone().shaped(), blank);
    let once = Response::from_error(&Error::StorageIo).shaped();
    assert_eq!(once.clone().shaped(), once);
}

#[test]
fn render_writes_a_version_as_semver_does() {
    assert_eq!(version(1, 0, 0, "", "").render(), "1.0.0");
    assert_eq!(version(0, 0, 0, "", "").render(), "0.0.0");
    assert_eq!(version(10, 200, 3000, "", "").render(), "10.200.3000");
    assert_eq!(version(1, 2, 3, "alpha.1", "").render(), "1.2.3-alpha.1");
    assert_eq!(version(1, 2, 3, "", "b5").render(), "1.2.3+b5");
    assert_eq!(version(1, 2, 3, "rc.2", "sha.5114f85").render(), "1.2.3-rc.2+sha.5114f85");
    assert_eq!(
        version(u64::MAX, 9, 109, "", "").render(),
        "18446744073709551615.9.109"
    );
    for text in ["1.0.0", "4.5.6-pre.7+meta", "0.0.1+x", "99.100.101-a"] {
        assert_eq!(Version::parse(text).unwrap().render(), text);
        assert_eq!(
            Version::parse(text).unwrap().render(),
            semver::Version::parse(text).unwrap().to_string()
        );
    }
}
