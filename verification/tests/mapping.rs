use promptforge_cli::mapping::{FileMapping, MappingFault, STORE_MOUNT};

fn refusal(text: &str) -> String {
    FileMapping::parse(text).expect_err("the pair is malformed")
}

#[test]
fn every_fault_is_told_apart() {
    assert_eq!(FileMapping::check("paper.md"), Err(MappingFault::NoSeparator));
    assert_eq!(FileMapping::check(""), Err(MappingFault::NoSeparator));
    assert_eq!(FileMapping::check("=/tmp/x"), Err(MappingFault::EmptyName));
    assert_eq!(FileMapping::check("="), Err(MappingFault::EmptyName));
    assert_eq!(FileMapping::check("/a=/tmp/x"), Err(MappingFault::BadName));
    assert_eq!(FileMapping::check("a\\b=/tmp/x"), Err(MappingFault::BadName));
    assert_eq!(FileMapping::check("..=/tmp/x"), Err(MappingFault::BadName));
    assert_eq!(FileMapping::check("a/..=/tmp/x"), Err(MappingFault::BadName));
    assert_eq!(FileMapping::check("a="), Err(MappingFault::EmptyPath));
    // The name is looked at before the path.
    assert_eq!(FileMapping::check("..="), Err(MappingFault::BadName));
}

#[test]
fn every_fault_has_its_message() {
    assert_eq!(refusal("paper.md"), "expected NAME=PATH, got \"paper.md\"");
    assert_eq!(refusal("=/tmp/x"), "the store name is empty in \"=/tmp/x\"");
    assert_eq!(
        refusal("a/../b.md=/tmp/x"),
        "the store name \"a/../b.md\" must be a relative path without `..` or backslashes"
    );
    assert_eq!(
        refusal("a\\b.md=/tmp/x"),
        "the store name \"a\\\\b.md\" must be a relative path without `..` or backslashes"
    );
    assert_eq!(refusal("paper.md="), "the host path is empty in \"paper.md=\"");
    assert_eq!(refusal("a\tb\"c"), "expected NAME=PATH, got \"a\\tb\\\"c\"");
}

#[test]
fn a_message_is_made_around_its_subject() {
    assert_eq!(
        MappingFault::NoSeparator.message("<s>"),
        "expected NAME=PATH, got <s>"
    );
    assert_eq!(
        MappingFault::EmptyName.message("<s>"),
        "the store name is empty in <s>"
    );
    assert_eq!(
        MappingFault::BadName.message("<s>"),
        "the store name <s> must be a relative path without `..` or backslashes"
    );
    assert_eq!(
        MappingFault::EmptyPath.message("<s>"),
        "the host path is empty in <s>"
    );
}

#[test]
fn dots_that_are_no_parent_segment_are_accepted() {
    for name in ["...", "a..b", "..a", "a..", ".", "a/./b", "a//b", "a/", "é/ü.md"] {
        let mapping = FileMapping::parse(&format!("{name}=x")).expect("a store name");
        assert_eq!(mapping.name, name);
        assert_eq!(mapping.path, "x");
    }
}

#[test]
fn a_pair_reads_back() {
    for (name, path) in [("paper.md", "/tmp/in.txt"), ("a/b/c", "=x==y="), ("é", "ü=\n")] {
        let mapping = FileMapping::parse(&format!("{name}={path}")).expect("a pair");
        assert_eq!((mapping.name.as_str(), mapping.path.as_str()), (name, path));
    }
}

#[test]
fn locations_stay_below_the_mount_and_apart() {
    let location = |name: &str| {
        FileMapping {
            name: name.to_owned(),
            path: "x".to_owned(),
        }
        .store_path()
    };
    assert_eq!(location("a/b.md"), "/_promptforge/store/a/b.md");
    assert!(location("a").starts_with(&format!("{STORE_MOUNT}/")));
    assert!(!location("a/b").split('/').any(|segment| segment == ".."));
    assert_ne!(location("a"), location("b"));
}
