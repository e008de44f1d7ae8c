use alexandrie::names::canonical_name;
use alexandrie::path::split_path;
use alexandrie::pattern::{Binding, Pattern, Segment};

fn strings(items: &[&str]) -> Vec<String> {
    items.iter().map(|s| s.to_string()).collect()
}

#[test]
fn canonical_name_folds_case_and_underscores() {
    assert_eq!(canonical_name("Foo_Bar"), "foo-bar");
    assert_eq!(canonical_name("foo-bar"), "foo-bar");
    assert_eq!(canonical_name("FOO_bar"), "foo-bar");
    assert_eq!(canonical_name("serde"), "serde");
    assert_eq!(canonical_name(""), "");
    assert_eq!(canonical_name("AZaz09_-"), "azaz09--");
}

#[test]
fn canonical_name_leaves_other_characters_alone() {
    assert_eq!(canonical_name("@[`{"), "@[`{");
    assert_eq!(canonical_name("Ünï_X"), "Ünï-x");
    assert_eq!(canonical_name("a.b/c d"), "a.b/c d");
}

#[test]
fn canonical_name_is_idempotent_on_examples() {
    for name in ["Foo_Bar", "a__B--c", "", "Ünï_X", "ALREADY-canonical"] {
        let once = canonical_name(name);
        let twice = canonical_name(&once);
        assert_eq!(once, twice);
        assert_eq!(once.chars().count(), name.chars().count());
    }
}

#[test]
fn split_path_drops_empty_pieces() {
    assert_eq!(split_path("/a/b"), strings(&["a", "b"]));
    assert_eq!(split_path("a/b"), strings(&["a", "b"]));
    assert_eq!(split_path("/a//b/"), strings(&["a", "b"]));
    assert_eq!(split_path("/"), strings(&[]));
    assert_eq!(split_path(""), strings(&[]));
    assert_eq!(split_path("///"), strings(&[]));
    assert_eq!(split_path("abc"), strings(&["abc"]));
}

#[test]
fn split_path_keeps_the_download_path_whole() {
    assert_eq!(
        split_path("/api/v1/crates/foo/1.0.0/download"),
        strings(&["api", "v1", "crates", "foo", "1.0.0", "download"])
    );
}

#[test]
fn pattern_parse_tells_the_three_segments_apart() {
    let pattern = Pattern::parse("/crates/:name/*rest");
    assert_eq!(
        pattern.segments,
        vec![
            Segment::Literal("crates".to_string()),
            Segment::Param("name".to_string()),
            Segment::Rest("rest".to_string()),
        ]
    );
    assert_eq!(Pattern::parse("/").segments, Vec::<Segment>::new());
    assert_eq!(Pattern::parse(":").segments, vec![Segment::Param(String::new())]);
    assert_eq!(Pattern::parse("*").segments, vec![Segment::Rest(String::new())]);
}

#[test]
fn pattern_parse_keeps_nothing_after_a_star() {
    let pattern = Pattern::parse("/assets/*path/more/:x");
    assert_eq!(
        pattern.segments,
        vec![Segment::Literal("assets".to_string()), Segment::Rest("path".to_string())]
    );
    assert!(pattern.is_open_ended());
    assert!(!Pattern::parse("/assets/path").is_open_ended());
    assert!(!Pattern::parse("").is_open_ended());
}

#[test]
fn segment_rank_and_admits() {
    let literal = Segment::Literal("new".to_string());
    let param = Segment::Param("name".to_string());
    let rest = Segment::Rest("path".to_string());
    assert_eq!(literal.rank(), 0);
    assert_eq!(param.rank(), 1);
    assert_eq!(rest.rank(), 2);
    assert!(literal.admits(&"new".to_string()));
    assert!(!literal.admits(&"old".to_string()));
    assert!(param.admits(&"anything".to_string()));
    assert!(rest.admits(&"anything".to_string()));
    assert_eq!(literal.copy(), literal);
    assert_eq!(rest.copy(), rest);
}

#[test]
fn pattern_fits_segment_by_segment() {
    let pattern = Pattern::parse("/crates/:name/owners");
    assert!(pattern.fits(&strings(&["crates", "serde", "owners"])));
    assert!(!pattern.fits(&strings(&["crates", "serde"])));
    assert!(!pattern.fits(&strings(&["crates", "serde", "owners", "x"])));
    assert!(!pattern.fits(&strings(&["crates", "serde", "yank"])));
    assert!(Pattern::parse("/").fits(&strings(&[])));
    assert!(!Pattern::parse("/").fits(&strings(&["x"])));
}

#[test]
fn open_ended_pattern_takes_one_piece_or_more() {
    let pattern = Pattern::parse("/assets/*path");
    assert!(!pattern.fits(&strings(&["assets"])));
    assert!(pattern.fits(&strings(&["assets", "a.css"])));
    assert!(pattern.fits(&strings(&["assets", "css", "a.css"])));
    assert!(!pattern.fits(&strings(&["other", "a.css"])));
    assert_eq!(
        pattern.tail(&strings(&["assets", "css", "a.css"])),
        strings(&["css", "a.css"])
    );
    assert_eq!(pattern.tail(&strings(&["assets"])), strings(&[]));
    assert_eq!(
        Pattern::parse("/crates/:name").tail(&strings(&["crates", "x"])),
        strings(&[])
    );
}

#[test]
fn literal_outranks_param_outranks_star() {
    let literal = Pattern::parse("/crates/new");
    let param = Pattern::parse("/crates/:name");
    let star = Pattern::parse("/crates/*rest");
    assert!(literal.outranks(&param));
    assert!(param.outranks(&star));
    assert!(literal.outranks(&star));
    assert!(!param.outranks(&literal));
    assert!(!star.outranks(&param));
    assert!(!literal.outranks(&literal));
    assert!(!param.outranks(&Pattern::parse("/other/:x")));
}

#[test]
fn first_difference_decides_and_then_length() {
    let a = Pattern::parse("/a/:x/c");
    let b = Pattern::parse("/:y/b/c");
    assert!(a.outranks(&b));
    assert!(!b.outranks(&a));
    let longer = Pattern::parse("/a/b/c");
    let shorter = Pattern::parse("/a/b");
    assert!(longer.outranks(&shorter));
    assert!(!shorter.outranks(&longer));
}

#[test]
fn overlaps_ignores_names_only() {
    let a = Pattern::parse("/crates/:name/owners");
    let b = Pattern::parse("/crates/:crate/owners");
    let c = Pattern::parse("/crates/:name/yank");
    let d = Pattern::parse("/crates/:name");
    assert!(a.overlaps(&b));
    assert!(b.overlaps(&a));
    assert!(!a.overlaps(&c));
    assert!(!a.overlaps(&d));
    assert!(!Pattern::parse("/crates/new").overlaps(&d));
}

#[test]
fn bind_names_each_parameter_in_order() {
    let pattern = Pattern::parse("/crates/:name/:version/download");
    let found = pattern.bind(&strings(&["crates", "foo", "1.0.0", "download"]));
    assert_eq!(
        found,
        vec![
            Binding { name: "name".to_string(), value: "foo".to_string() },
            Binding { name: "version".to_string(), value: "1.0.0".to_string() },
        ]
    );
    assert_eq!(pattern.bind(&strings(&["crates"])), Vec::<Binding>::new());
    assert_eq!(
        pattern.bind(&strings(&["crates", "foo"])),
        vec![Binding { name: "name".to_string(), value: "foo".to_string() }]
    );
}

#[test]
fn followed_by_joins_two_patterns() {
    let joined = Pattern::parse("/api/v1").followed_by(&Pattern::parse("/crates/:name"));
    assert_eq!(joined, Pattern::parse("/api/v1/crates/:name"));
    assert_eq!(Pattern::parse("/").followed_by(&Pattern::parse("/me")), Pattern::parse("/me"));
}

#[test]
fn pieces_of_joined_paths_are_joined_pieces() {
    for (first, second) in [("/a/b", "c/d/"), ("", "x"), ("x", ""), ("//", "/"), ("a", "b")] {
        let mut expected = split_path(first);
        expected.extend(split_path(second));
        assert_eq!(split_path(format!("{}/{}", first, second).as_str()), expected);
    }
}
