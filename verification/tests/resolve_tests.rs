use buildplan::errors::Error;
use buildplan::resolve::{
    make_crate_name, partition_deps, CrateType, DepKind, Node, NodeDep, Package, PkgId,
    ResolvedPackage, Target, TargetKind,
};

fn strs(fs: &[&str]) -> Vec<String> {
    fs.iter().map(|f| f.to_string()).collect()
}

fn lib_target(name: &str) -> Target {
    Target {
        name: name.to_string(),
        kinds: vec![TargetKind::Lib],
        crate_types: vec![CrateType::Lib],
        src_path: "src/lib.rs".to_string(),
    }
}

fn package(name: &str, targets: Vec<Target>) -> Package {
    Package {
        id: format!("registry+https://example#{name}@1.0.0"),
        name: name.to_string(),
        version: "1.0.0".to_string(),
        manifest_path: "Cargo.toml".to_string(),
        authors: Vec::new(),
        description: None,
        homepage: None,
        repository: None,
        license: None,
        license_file: None,
        readme: None,
        rust_version: None,
        edition: "2021".to_string(),
        all_features: Vec::new(),
        targets,
        main_workspace: false,
    }
}

fn node(id: &str) -> Node {
    Node {
        id: id.to_string(),
        features: Vec::new(),
        deps: Vec::new(),
    }
}

#[test]
fn two_plain_libraries_are_a_structural_error() {
    let p = package("two", vec![lib_target("one"), lib_target("other")]);
    let r = ResolvedPackage::from_package(&p, &node(&p.id.clone()), "/proj", "/vendor", "t");
    match r {
        Err(e) => {
            assert_eq!(e, Error::MoreThanOneLib);
            assert_eq!(e.message(), "more than one lib in crate");
        },
        Ok(_) => panic!("two libraries must not resolve"),
    }
}

#[test]
fn one_library_resolves() {
    let p = package("one", vec![lib_target("one")]);
    let rp = ResolvedPackage::from_package(&p, &node(&p.id.clone()), "/proj", "/vendor", "t")
        .expect("well-formed package");
    let lib = rp.rust_lib.expect("library job");
    assert_eq!(lib.crate_name, "one");
    assert_eq!(lib.crate_type, "lib");
    assert_eq!(lib.entrypoint, "src/lib.rs");
    assert!(rp.build_script.is_none());
    assert!(rp.c_lib.is_none());
    assert!(rp.bins.is_none());
}

#[test]
fn build_script_target_must_be_custom_build() {
    let bad = Target {
        name: "build-script-build".to_string(),
        kinds: vec![TargetKind::Bin],
        crate_types: vec![CrateType::Bin],
        src_path: "build.rs".to_string(),
    };
    let p = package("s", vec![bad]);
    let r = ResolvedPackage::from_package(&p, &node(&p.id.clone()), "/proj", "/vendor", "t");
    assert!(matches!(r, Err(Error::BuildScriptWrongKind)));
}

#[test]
fn build_script_resolves_with_its_own_edges() {
    let script = Target {
        name: "build-script-build".to_string(),
        kinds: vec![TargetKind::CustomBuild],
        crate_types: vec![CrateType::Bin],
        src_path: "build.rs".to_string(),
    };
    let p = package("with-script", vec![script, lib_target("with-script")]);
    let mut n = node(&p.id.clone());
    n.deps.push(NodeDep {
        name: "serde".to_string(),
        pkg: "serde-id".to_string(),
        kinds: vec![DepKind::Normal],
    });
    n.deps.push(NodeDep {
        name: "cc".to_string(),
        pkg: "cc-id".to_string(),
        kinds: vec![DepKind::Build],
    });
    let rp = ResolvedPackage::from_package(&p, &n, "/proj", "/vendor", "t").expect("resolves");
    let bs = rp.build_script.expect("script job");
    assert_eq!(bs.main_crate_name, "with_script");
    assert_eq!(bs.common.crate_name, "build_script_build");
    assert_eq!(bs.common.deps.len(), 1);
    assert_eq!(bs.common.deps[0].name, "cc");
    assert_eq!(bs.main_deps.len(), 1);
    assert_eq!(bs.main_deps[0].name, "serde");
    let lib = rp.rust_lib.expect("library job");
    assert_eq!(lib.deps.len(), 1);
    assert_eq!(lib.deps[0].name, "serde");
}

#[test]
fn dynamic_library_tolerates_no_plain_library() {
    let cdylib = Target {
        name: "foo".to_string(),
        kinds: vec![TargetKind::CDyLib],
        crate_types: vec![CrateType::CDyLib],
        src_path: "src/lib.rs".to_string(),
    };
    let p = package("foo", vec![lib_target("foo"), cdylib]);
    let r = ResolvedPackage::from_package(&p, &node(&p.id.clone()), "/proj", "/vendor", "t");
    assert!(matches!(r, Err(Error::AlreadyRustLib)));
}

#[test]
fn test_targets_are_dropped() {
    let test_target = Target {
        name: "itest".to_string(),
        kinds: vec![TargetKind::Other],
        crate_types: vec![CrateType::Bin],
        src_path: "tests/itest.rs".to_string(),
    };
    let p = package("one", vec![lib_target("one"), test_target]);
    let rp = ResolvedPackage::from_package(&p, &node(&p.id.clone()), "/proj", "/vendor", "t")
        .expect("resolves");
    assert!(rp.bins.is_none());
}

#[test]
fn dep_edges_partition_by_kind() {
    let mut n = node("x");
    n.deps.push(NodeDep {
        name: "both".to_string(),
        pkg: "both-id".to_string(),
        kinds: vec![DepKind::Normal, DepKind::Build],
    });
    n.deps.push(NodeDep {
        name: "devonly".to_string(),
        pkg: "dev-id".to_string(),
        kinds: vec![DepKind::Other],
    });
    let (normal, build) = partition_deps(&n, "/proj");
    assert_eq!(normal.len(), 1);
    assert_eq!(normal[0].name, "both");
    assert_eq!(build.len(), 1);
    assert_eq!(build[0].name, "both");
    assert_eq!(normal[0].pkg.as_ref(), "both-id");
}

#[test]
fn package_identity_is_made_path_independent() {
    let k = PkgId::new("path+file:///work/proj/member#0.1.0", "/work/proj");
    assert_eq!(k.as_ref(), "path+file://source/member#0.1.0");
    let unchanged = PkgId::new("registry+https://example#foo@1.0.0", "/work/proj");
    assert_eq!(unchanged.as_ref(), "registry+https://example#foo@1.0.0");
}

#[test]
fn crate_names_normalize_separators() {
    assert_eq!(make_crate_name("my-nice-lib"), "my_nice_lib");
    assert_eq!(make_crate_name("plain"), "plain");
}

#[test]
fn paths_outside_both_roots_are_refused() {
    let mut p = package("one", vec![lib_target("one")]);
    p.manifest_path = "/elsewhere/Cargo.toml".to_string();
    let r = ResolvedPackage::from_package(&p, &node(&p.id.clone()), "/proj", "/vendor", "t");
    assert!(matches!(r, Err(Error::PathOutsideRoots)));
}

#[test]
fn vendored_paths_lose_their_package_directory() {
    let mut p = package("one", vec![lib_target("one")]);
    p.manifest_path = "/vendor/one-1.0.0/Cargo.toml".to_string();
    p.targets[0].src_path = "/vendor/one-1.0.0/src/lib.rs".to_string();
    let rp = ResolvedPackage::from_package(&p, &node(&p.id.clone()), "/proj", "/vendor", "t")
        .expect("resolves");
    assert_eq!(rp.common.manifest_path, "Cargo.toml");
    assert_eq!(rp.rust_lib.expect("lib").entrypoint, "src/lib.rs");
}

#[test]
fn whole_graphs_resolve_with_workspace_index() {
    let member = {
        let mut p = package("member", vec![lib_target("member")]);
        p.id = "path+file:///work/proj/member#0.1.0".to_string();
        p.main_workspace = true;
        p
    };
    let dep = package("dep", vec![lib_target("dep")]);
    let nodes = vec![node(&member.id.clone()), node(&dep.id.clone())];
    let packages = vec![member, dep];
    let workspace = vec!["path+file:///work/proj/member#0.1.0".to_string()];
    let root = Some("path+file:///work/proj/member#0.1.0".to_string());
    let out = buildplan::resolve::resolve_graph(
        &packages,
        &nodes,
        &workspace,
        &root,
        "/work/proj",
        "/vendor",
        "t",
    )
    .expect("graph resolves");
    assert_eq!(out.packages.len(), 2);
    assert_eq!(out.packages[0].0.as_ref(), "path+file://source/member#0.1.0");
    assert_eq!(out.workspace.len(), 1);
    assert_eq!(out.workspace[0].0, "member");
    assert_eq!(
        out.main_package.expect("root carried over").as_ref(),
        "path+file://source/member#0.1.0"
    );
}

#[test]
fn unknown_node_identity_fails_the_graph() {
    let p = package("one", vec![lib_target("one")]);
    let nodes = vec![node("missing-id")];
    let out = buildplan::resolve::resolve_graph(
        &vec![p],
        &nodes,
        &Vec::new(),
        &None,
        "/proj",
        "/vendor",
        "t",
    );
    assert!(matches!(out, Err(Error::UnknownPackage)));
}

#[test]
fn second_build_script_is_refused() {
    let script = |src: &str| Target {
        name: "build-script-build".to_string(),
        kinds: vec![TargetKind::CustomBuild],
        crate_types: vec![CrateType::Bin],
        src_path: src.to_string(),
    };
    let p = package("s", vec![script("build.rs"), script("other.rs")]);
    let r = ResolvedPackage::from_package(&p, &node(&p.id.clone()), "/proj", "/vendor", "t");
    assert!(matches!(r, Err(Error::MoreThanOneBuildScript)));
}

#[test]
fn build_script_with_wrong_crate_type_is_refused() {
    let bad = Target {
        name: "build-script-build".to_string(),
        kinds: vec![TargetKind::CustomBuild],
        crate_types: vec![CrateType::Lib],
        src_path: "build.rs".to_string(),
    };
    let p = package("s", vec![bad]);
    let r = ResolvedPackage::from_package(&p, &node(&p.id.clone()), "/proj", "/vendor", "t");
    assert!(matches!(r, Err(Error::BuildScriptWrongType)));
}

fn cdylib_target(name: &str) -> Target {
    Target {
        name: name.to_string(),
        kinds: vec![TargetKind::CDyLib],
        crate_types: vec![CrateType::CDyLib],
        src_path: "src/lib.rs".to_string(),
    }
}

#[test]
fn second_dynamic_library_is_refused() {
    let p = package("d", vec![cdylib_target("one"), cdylib_target("two")]);
    let r = ResolvedPackage::from_package(&p, &node(&p.id.clone()), "/proj", "/vendor", "t");
    assert!(matches!(r, Err(Error::MoreThanOneCLib)));
}

#[test]
fn library_beside_a_dynamic_library_is_refused() {
    let p = package("d", vec![cdylib_target("one"), lib_target("one")]);
    let r = ResolvedPackage::from_package(&p, &node(&p.id.clone()), "/proj", "/vendor", "t");
    assert!(matches!(r, Err(Error::AlreadyCLib)));
}

#[test]
fn executable_before_a_dynamic_library_is_refused() {
    let bin = Target {
        name: "tool".to_string(),
        kinds: vec![TargetKind::Bin],
        crate_types: vec![CrateType::Bin],
        src_path: "src/main.rs".to_string(),
    };
    let p = package("d", vec![bin, cdylib_target("one")]);
    let r = ResolvedPackage::from_package(&p, &node(&p.id.clone()), "/proj", "/vendor", "t");
    assert!(matches!(r, Err(Error::AlreadyBin)));
}

#[test]
fn two_libraries_never_resolve_whatever_stands_between() {
    let bin = Target {
        name: "tool".to_string(),
        kinds: vec![TargetKind::Bin],
        crate_types: vec![CrateType::Bin],
        src_path: "src/main.rs".to_string(),
    };
    let p = package("two", vec![lib_target("one"), bin, lib_target("other")]);
    let r = ResolvedPackage::from_package(&p, &node(&p.id.clone()), "/proj", "/vendor", "t");
    assert!(matches!(r, Err(Error::MoreThanOneLib)));

    let cdylib = Target {
        name: "c".to_string(),
        kinds: vec![TargetKind::CDyLib],
        crate_types: vec![CrateType::CDyLib],
        src_path: "src/lib.rs".to_string(),
    };
    let p2 = package("two", vec![lib_target("one"), cdylib, lib_target("other")]);
    let r2 = ResolvedPackage::from_package(&p2, &node(&p2.id.clone()), "/proj", "/vendor", "t");
    assert!(r2.is_err());
    assert!(matches!(r2, Err(Error::AlreadyRustLib)));
}
