use buildplan::errors::Error;
use buildplan::paths::{make_relative, path_join, path_parent, sanitize_entry_path};
use buildplan::semver::Version;
use buildplan::{p, s};

#[test]
fn parent_dir_entries_are_rejected_before_anything_is_written() {
    assert_eq!(
        sanitize_entry_path("pkg/../evil"),
        Err(Error::ParentDirInArchive)
    );
    assert_eq!(sanitize_entry_path(".."), Err(Error::ParentDirInArchive));
    assert_eq!(
        sanitize_entry_path("a/b/.."),
        Err(Error::ParentDirInArchive)
    );
}

#[test]
fn entry_paths_lose_their_leading_package_directory() {
    assert_eq!(
        sanitize_entry_path("pkg-1.0.0/src/lib.rs"),
        Ok("src/lib.rs".to_string())
    );
    assert_eq!(sanitize_entry_path("pkg-1.0.0"), Ok("".to_string()));
    assert_eq!(sanitize_entry_path("./pkg/a"), Ok("a".to_string()));
    assert_eq!(sanitize_entry_path("//pkg//a"), Ok("a".to_string()));
}

#[test]
fn path_join_handles_absolute_and_relative() {
    assert_eq!(path_join("/base", "x/y"), "/base/x/y");
    assert_eq!(path_join("/base/", "x"), "/base/x");
    assert_eq!(path_join("/base", "/abs"), "/abs");
    assert_eq!(path_join("", "x"), "x");
}

#[test]
fn path_parent_walks_up_one_step() {
    assert_eq!(path_parent("/a/b/c"), Some("/a/b".to_string()));
    assert_eq!(path_parent("/a"), Some("/".to_string()));
    assert_eq!(path_parent("plain"), Some("".to_string()));
    assert_eq!(path_parent("/"), None);
    assert_eq!(path_parent(""), None);
}

#[test]
fn make_relative_prefers_the_project_root() {
    assert_eq!(
        make_relative("/proj/member/Cargo.toml", "/proj", "/vendor"),
        Ok("member/Cargo.toml".to_string())
    );
    assert_eq!(
        make_relative("relative/path", "/proj", "/vendor"),
        Ok("relative/path".to_string())
    );
    assert_eq!(
        make_relative("/vendor/pkg-1.0/src/lib.rs", "/proj", "/vendor"),
        Ok("src/lib.rs".to_string())
    );
    assert_eq!(
        make_relative("/nowhere/x", "/proj", "/vendor"),
        Err(Error::PathOutsideRoots)
    );
}

#[test]
fn option_helpers_match_the_toolchain_contract() {
    assert_eq!(s(&Some("x".to_string())), "x");
    assert_eq!(s(&None), "");
    assert_eq!(p(&Some("doc/README.md".to_string()), "/src"), "/src/doc/README.md");
    assert_eq!(p(&None, "/src"), "");
}

#[test]
fn versions_parse_into_their_parts() {
    let v = Version::parse("1.2.3").expect("plain version");
    assert_eq!((v.major, v.minor, v.patch), (1, 2, 3));
    assert_eq!(v.pre, "");
    assert_eq!(v.build, "");

    let v = Version::parse("10.0.255-alpha.1+build5").expect("tagged version");
    assert_eq!((v.major, v.minor, v.patch), (10, 0, 255));
    assert_eq!(v.pre, "alpha.1");
    assert_eq!(v.build, "build5");
}

#[test]
fn malformed_versions_are_refused() {
    assert!(matches!(Version::parse("1.2"), Err(Error::VersionParse)));
    assert!(matches!(Version::parse("01.2.3"), Err(Error::VersionParse)));
    assert!(matches!(Version::parse("1.2.3-"), Err(Error::VersionParse)));
    assert!(matches!(Version::parse("1.2.3-a..b"), Err(Error::VersionParse)));
    assert!(matches!(Version::parse("a.b.c"), Err(Error::VersionParse)));
    assert!(matches!(
        Version::parse("99999999999999999999999.0.0"),
        Err(Error::VersionParse)
    ));
}

#[test]
fn the_vendor_root_itself_has_no_package_directory() {
    assert_eq!(
        make_relative("/vendor", "/proj", "/vendor"),
        Err(Error::NoPrefix)
    );
}

#[test]
fn version_parts_fill_the_whole_machine_word() {
    let v = Version::parse("18446744073709551615.0.0").expect("fits exactly");
    assert_eq!(v.major, u64::MAX);
    assert!(matches!(
        Version::parse("18446744073709551616.0.0"),
        Err(Error::VersionParse)
    ));
}

#[test]
fn numeric_pre_release_identifiers_reject_leading_zeros() {
    assert!(matches!(Version::parse("1.0.0-01"), Err(Error::VersionParse)));
    assert!(matches!(Version::parse("1.0.0-alpha.01"), Err(Error::VersionParse)));
    let v = Version::parse("1.0.0-0").expect("a lone zero is a lawful identifier");
    assert_eq!(v.pre, "0");
    let v = Version::parse("1.0.0-0a").expect("alphanumeric identifiers may start with zero");
    assert_eq!(v.pre, "0a");
    let v = Version::parse("1.0.0+01").expect("build identifiers may carry leading zeros");
    assert_eq!(v.build, "01");
}
