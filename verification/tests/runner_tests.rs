use buildplan::compile::{CrateJobCommon, RustLibMetadata};
use buildplan::errors::Error;
use buildplan::lockfile::{prepare_vendor_map, LockPackage, Vendor};
use buildplan::runner::{build_script_env, dep_metadata_env, feature_env_pairs};
use buildplan::vendor::vendor_config;

fn strs(fs: &[&str]) -> Vec<String> {
    fs.iter().map(|f| f.to_string()).collect()
}

fn env_get(pairs: &[(String, String)], name: &str) -> Option<String> {
    pairs
        .iter()
        .rev()
        .find(|(k, _)| k == name)
        .map(|(_, v)| v.clone())
}

fn info() -> CrateJobCommon {
    CrateJobCommon {
        rustc_flags: strs(&["-Zone", "-Ztwo"]),
        cfgs: Vec::new(),
        link_args: Vec::new(),
        manifest_path: "pkg/Cargo.toml".to_string(),
        version: "1.2.3-rc.1".to_string(),
        authors: Some("a:b".to_string()),
        pname: "my-pkg".to_string(),
        description: None,
        homepage: None,
        repository: None,
        license: None,
        license_file: None,
        rust_version: None,
        readme: None,
        target: "x86_64-unknown-linux-gnu".to_string(),
        features: strs(&["ab-c"]),
        all_features: strs(&["ab-c", "other"]),
        crate_name: "my_pkg".to_string(),
        edition: "2021".to_string(),
        deps: Vec::new(),
        links: Some("mylinks".to_string()),
        optimize: true,
        debuginfo: false,
    }
}

fn record_with(links: Option<&str>, md: &[(&str, &str)]) -> RustLibMetadata {
    RustLibMetadata {
        lib: "/out/dep/libdep.rlib".to_string(),
        deps: Vec::new(),
        metadata: md
            .iter()
            .map(|(k, v)| (k.to_string(), v.to_string()))
            .collect(),
        lib_path: Vec::new(),
        links: links.map(|l| l.to_string()),
    }
}

#[test]
fn dependency_metadata_becomes_dep_variables() {
    let recs = vec![record_with(Some("z"), &[("k", "v"), ("other-key", "w")])];
    let pairs = dep_metadata_env(&recs).expect("links declared");
    assert_eq!(env_get(&pairs, "DEP_Z_K"), Some("v".to_string()));
    assert_eq!(env_get(&pairs, "DEP_Z_OTHER-KEY"), Some("w".to_string()));
}

#[test]
fn dependency_metadata_without_links_fails() {
    let recs = vec![record_with(None, &[("k", "v")])];
    assert_eq!(dep_metadata_env(&recs), Err(Error::DepLinksMissing));
    let empty = vec![record_with(None, &[])];
    assert!(dep_metadata_env(&empty).is_ok());
}

#[test]
fn features_become_flags() {
    let pairs = feature_env_pairs(&strs(&["ab-c"]));
    assert_eq!(
        pairs,
        vec![("CARGO_FEATURE_AB_C".to_string(), "1".to_string())]
    );
}

#[test]
fn the_whole_script_environment_assembles() {
    let entries = buildplan::cfg::merge_cfgs(
        &strs(&["ab-c"]),
        "unix\ntarget_os=\"linux\"\n",
        &strs(&[]),
    )
    .expect("cfgs parse");
    let recs = vec![record_with(Some("z"), &[("k", "v")])];
    let env = build_script_env(
        &info(),
        "/bin/cargo",
        "/bin/rustc",
        "/bin/rustdoc",
        "/src",
        "/out/run/output",
        "host-triple\n",
        &entries,
        &recs,
    )
    .expect("assembles");
    assert_eq!(env_get(&env, "CARGO_PKG_NAME"), Some("my-pkg".to_string()));
    assert_eq!(env_get(&env, "CARGO_PKG_VERSION_MAJOR"), Some("1".to_string()));
    assert_eq!(env_get(&env, "CARGO_PKG_VERSION_PRE"), Some("rc.1".to_string()));
    assert_eq!(env_get(&env, "HOST"), Some("host-triple".to_string()));
    assert_eq!(env_get(&env, "OUT_DIR"), Some("/out/run/output".to_string()));
    assert_eq!(env_get(&env, "OPT_LEVEL"), Some("3".to_string()));
    assert_eq!(env_get(&env, "PROFILE"), Some("release".to_string()));
    assert_eq!(env_get(&env, "DEBUG"), Some("false".to_string()));
    assert_eq!(env_get(&env, "CARGO_MANIFEST_LINKS"), Some("mylinks".to_string()));
    assert_eq!(env_get(&env, "CARGO_FEATURE_AB_C"), Some("1".to_string()));
    assert_eq!(env_get(&env, "CARGO_CFG_UNIX"), Some("".to_string()));
    assert_eq!(env_get(&env, "CARGO_CFG_TARGET_OS"), Some("linux".to_string()));
    assert_eq!(env_get(&env, "DEP_Z_K"), Some("v".to_string()));
    assert_eq!(
        env_get(&env, "CARGO_ENCODED_RUSTFLAGS"),
        Some("-Zone\u{1f}-Ztwo".to_string())
    );
    assert_eq!(env_get(&env, "CARGO_MANIFEST_DIR"), Some("/src/pkg".to_string()));
}

#[test]
fn vendor_entries_render_checksum_and_registry() {
    let p = LockPackage {
        name: "foo".to_string(),
        version: "1.0.0".to_string(),
        source: Some("registry+https://github.com/rust-lang/crates.io-index".to_string()),
        checksum: Some("00ff10".to_string()),
    };
    let v = Vendor::from_package(&p, "foo".to_string()).expect("well-formed entry");
    assert_eq!(v.checksum, "sha256-AP8Q");
    assert_eq!(v.registry, "https://github.com/rust-lang/crates.io-index");
    assert_eq!(v.dir_name, "foo");
}

#[test]
fn malformed_vendor_entries_are_refused() {
    let mut p = LockPackage {
        name: "foo".to_string(),
        version: "1.0.0".to_string(),
        source: Some("registry+x".to_string()),
        checksum: Some("xyz".to_string()),
    };
    assert!(matches!(
        Vendor::from_package(&p, "foo".to_string()),
        Err(Error::ChecksumNotHex)
    ));
    p.checksum = Some("00".to_string());
    p.source = Some("git+https://example".to_string());
    assert!(matches!(
        Vendor::from_package(&p, "foo".to_string()),
        Err(Error::RegistryPrefixMissing)
    ));
    p.checksum = None;
    assert!(matches!(
        Vendor::from_package(&p, "foo".to_string()),
        Err(Error::AlreadyFiltered)
    ));
}

fn lock(name: &str, version: &str) -> LockPackage {
    LockPackage {
        name: name.to_string(),
        version: version.to_string(),
        source: Some("registry+https://r".to_string()),
        checksum: Some("00".to_string()),
    }
}

#[test]
fn newest_version_unpacks_under_the_plain_name() {
    let packages = vec![lock("foo", "1.0.0"), lock("foo", "1.2.0"), lock("bar", "0.1.0")];
    let out = prepare_vendor_map(&packages).expect("entries are well-formed");
    assert_eq!(out.len(), 3);
    let by_key = |k: &str| {
        out.iter()
            .find(|(key, _)| key == k)
            .map(|(_, v)| v.dir_name.clone())
            .expect("key present")
    };
    assert_eq!(by_key("foo-1.0.0"), "foo-1.0.0");
    assert_eq!(by_key("foo-1.2.0"), "foo");
    assert_eq!(by_key("bar-0.1.0"), "bar");
}

#[test]
fn local_packages_are_filtered_out() {
    let mut local = lock("local", "0.1.0");
    local.source = None;
    let out = prepare_vendor_map(&vec![local]).expect("nothing to vendor");
    assert!(out.is_empty());
}

#[test]
fn vendor_config_names_every_registry_once() {
    let regs = strs(&[
        "https://github.com/rust-lang/crates.io-index",
        "https://custom.example/index",
        "https://github.com/rust-lang/crates.io-index",
    ]);
    let config = vendor_config("/vendor", &regs);
    let expected = "[source.vendored-sources]\ndirectory=\"/vendor\"\n[source.crates-io]\nreplace-with = \"vendored-sources\"\n[source.\"https://custom.example/index\"]\nregistry=\"https://custom.example/index\"\nreplace-with=\"vendored-sources\"\n";
    assert_eq!(config, expected);
}

#[test]
fn a_rootless_manifest_path_is_refused() {
    let mut bad = info();
    bad.manifest_path = "".to_string();
    let r = build_script_env(
        &bad,
        "/bin/cargo",
        "/bin/rustc",
        "/bin/rustdoc",
        "/src",
        "/out",
        "host\n",
        &Vec::new(),
        &Vec::new(),
    );
    assert_eq!(r.err(), Some(Error::ManifestNoParent));
}
