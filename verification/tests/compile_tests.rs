use buildplan::compile::{CommandPlan, CrateJob, CrateJobCommon, ResolvedDep, RustLibMetadata};
use buildplan::errors::Error;
use buildplan::script::BuildScriptResult;

fn strs(fs: &[&str]) -> Vec<String> {
    fs.iter().map(|f| f.to_string()).collect()
}

fn common(pname: &str, version: &str, features: &[&str]) -> CrateJobCommon {
    CrateJobCommon {
        rustc_flags: Vec::new(),
        cfgs: Vec::new(),
        link_args: Vec::new(),
        manifest_path: "pkg/Cargo.toml".to_string(),
        version: version.to_string(),
        authors: None,
        pname: pname.to_string(),
        description: None,
        homepage: None,
        repository: None,
        license: None,
        license_file: None,
        rust_version: None,
        readme: None,
        target: "x86_64-unknown-linux-gnu".to_string(),
        features: strs(features),
        all_features: strs(features),
        crate_name: pname.replace('-', "_"),
        edition: "2021".to_string(),
        deps: Vec::new(),
        links: None,
        optimize: false,
        debuginfo: false,
    }
}

fn job(pname: &str, crate_type: &str) -> CrateJob {
    CrateJob {
        common: common(pname, "1.2.3", &[]),
        crate_type: crate_type.to_string(),
        entrypoint: "pkg/src/lib.rs".to_string(),
        target_name: pname.to_string(),
        build_script_run: None,
        metadata: Vec::new(),
        lib_path: Vec::new(),
        link_lib: Vec::new(),
        all_deps: Vec::new(),
        check_cfgs: Vec::new(),
        envs: Vec::new(),
    }
}

fn has_pair(args: &[String], a: &str, b: &str) -> bool {
    args.windows(2).any(|w| w[0] == a && w[1] == b)
}

#[test]
fn command_common_emits_identity_flags() {
    let mut j = job("mylib", "lib");
    let plan = j
        .command_common("/bin/cargo", "/bin/rustc", "/src", &Vec::new())
        .expect("plan");
    assert_eq!(plan.program, "/bin/rustc");
    assert!(has_pair(&plan.args, "--crate-name", "mylib"));
    assert!(plan.args.contains(&"--edition=2021".to_string()));
    assert!(plan.args.contains(&"/src/pkg/src/lib.rs".to_string()));
    assert!(has_pair(&plan.args, "--crate-type", "lib"));
    assert!(has_pair(&plan.args, "--emit", "link"));
    assert!(has_pair(&plan.args, "-C", "strip=debuginfo"));
    assert!(!plan.args.contains(&"opt-level=3".to_string()));
}

#[test]
fn command_common_propagates_transitive_search_paths() {
    // A depends on B alone; B's record closes over C's directory.
    let mut j = job("a", "lib");
    j.common.deps.push(ResolvedDep {
        name: "b".to_string(),
        path: "/out/b".to_string(),
    });
    let rec_b = RustLibMetadata {
        lib: "/out/b/libb-cafe.rlib".to_string(),
        deps: strs(&["/out/c"]),
        metadata: Vec::new(),
        lib_path: Vec::new(),
        links: None,
    };
    let plan = j
        .command_common("/bin/cargo", "/bin/rustc", "/src", &vec![rec_b])
        .expect("plan");
    assert!(has_pair(&plan.args, "--extern", "b=/out/b/libb-cafe.rlib"));
    assert!(has_pair(&plan.args, "-L", "dependency=/out/b"));
    assert!(has_pair(&plan.args, "-L", "dependency=/out/c"));
    assert_eq!(j.all_deps, strs(&["/out/b", "/out/c"]));
}

#[test]
fn command_common_emits_feature_cfgs_and_check_cfg() {
    let mut j = job("a", "lib");
    j.common.features = strs(&["f1"]);
    j.common.all_features = strs(&["f1", "f2"]);
    let plan = j
        .command_common("/bin/cargo", "/bin/rustc", "/src", &Vec::new())
        .expect("plan");
    assert!(has_pair(&plan.args, "--cfg", "feature=\"f1\""));
    assert!(has_pair(
        &plan.args,
        "--check-cfg",
        "cfg(feature, values(\"f1\", \"f2\"))"
    ));
}

#[test]
fn link_flags_only_for_linked_crate_types() {
    let mut lib_job = job("a", "lib");
    lib_job.common.link_args = strs(&["-s"]);
    lib_job.lib_path = strs(&["/opt/lib"]);
    let plan = lib_job
        .command_common("/bin/cargo", "/bin/rustc", "/src", &Vec::new())
        .expect("plan");
    assert!(!has_pair(&plan.args, "-C", "link-arg=-s"));
    assert!(!has_pair(&plan.args, "-L", "/opt/lib"));

    let mut bin_job = job("a", "bin");
    bin_job.common.link_args = strs(&["-s"]);
    bin_job.lib_path = strs(&["/opt/lib"]);
    let plan = bin_job
        .command_common("/bin/cargo", "/bin/rustc", "/src", &Vec::new())
        .expect("plan");
    assert!(has_pair(&plan.args, "-C", "link-arg=-s"));
    assert!(has_pair(&plan.args, "-L", "/opt/lib"));
}

fn empty_plan() -> CommandPlan {
    CommandPlan {
        program: "rustc".to_string(),
        args: Vec::new(),
        envs: Vec::new(),
        cwd: None,
    }
}

#[test]
fn lib_placement_uses_content_hash() {
    let j = job("foo", "lib");
    let mut plan = empty_plan();
    let a = j.lib(&mut plan, "/out").expect("no metadata, fine");
    assert!(has_pair(&plan.args, "-C", "metadata=20feca869891d9a0"));
    assert!(has_pair(&plan.args, "-C", "extra-filename=-20feca869891d9a0"));
    assert!(has_pair(&plan.args, "--out-dir", "/out"));
    assert_eq!(a.record.lib, "/out/libfoo-20feca869891d9a0.rlib");
    assert_eq!(a.record_path, "/out/rust-lib.toml");
    assert_eq!(a.record.links, None);
}

#[test]
fn lib_metadata_without_links_is_refused() {
    let mut j = job("foo", "lib");
    j.metadata.push(("k".to_string(), "v".to_string()));
    let mut plan = empty_plan();
    assert!(matches!(j.lib(&mut plan, "/out"), Err(Error::MetadataWithoutLinks)));

    let mut j2 = job("foo", "lib");
    j2.metadata.push(("k".to_string(), "v".to_string()));
    j2.common.links = Some("foo".to_string());
    let mut plan2 = empty_plan();
    let a = j2.lib(&mut plan2, "/out").expect("links present");
    assert_eq!(a.record.links, Some("foo".to_string()));
}

#[test]
fn proc_macro_record_carries_no_closure_and_no_metadata() {
    let mut j = job("mymacro", "proc-macro");
    j.all_deps = strs(&["/out/b"]);
    j.metadata.push(("k".to_string(), "v".to_string()));
    let mut plan = empty_plan();
    let a = j.proc_macro(&mut plan, "/out");
    assert!(has_pair(&plan.args, "--extern", "proc_macro"));
    assert!(a.record.lib.starts_with("/out/libmymacro-"));
    assert!(a.record.lib.ends_with(".so"));
    assert!(a.record.deps.is_empty());
    assert!(a.record.lib_path.is_empty());
    assert!(a.record.metadata.is_empty());
    assert_eq!(a.record.links, None);
}

#[test]
fn cdylib_produces_three_linked_names() {
    let j = job("foo", "cdylib");
    let mut plan = empty_plan();
    let a = j.cdylib(&mut plan, "/out").expect("version parses");
    assert_eq!(a.lib, "/out/lib/libfoo.so");
    assert_eq!(a.lib_major, "/out/lib/libfoo.so.1");
    assert_eq!(a.lib_full, "/out/lib/libfoo.so.1.2.3");
    assert_eq!(plan.cwd, Some("/out/lib".to_string()));
    assert!(has_pair(&plan.args, "-o", "/out/lib/libfoo.so.1.2.3"));
}

#[test]
fn bin_placement_names_the_target() {
    let j = job("mytool", "bin");
    let mut plan = empty_plan();
    j.bin(&mut plan, "/out");
    assert_eq!(plan.cwd, Some("/out/bin".to_string()));
    assert!(has_pair(&plan.args, "-o", "mytool"));
    assert!(plan
        .envs
        .contains(&("CARGO_BIN_NAME".to_string(), "mytool".to_string())));
}

#[test]
fn build_script_merge_routes_link_args_by_crate_type() {
    let mut script = BuildScriptResult::new();
    script.flags = strs(&["-Zx"]);
    script.link_args = strs(&["generic"]);
    script.link_args_bins = strs(&["forbins"]);
    script
        .link_args_bin
        .push(("mybin".to_string(), strs(&["specific"])));
    script.envs.push(("E".to_string(), "1".to_string()));
    script
        .metadata
        .push(("key".to_string(), "val".to_string()));

    let mut j = job("mybin", "bin");
    j.build_script_run = Some("/out/script-run".to_string());
    j.with_build_script(script);
    assert_eq!(j.common.rustc_flags, strs(&["-Zx"]));
    assert_eq!(j.common.link_args, strs(&["generic", "forbins", "specific"]));
    assert_eq!(j.metadata, vec![("key".to_string(), "val".to_string())]);
    let out_dir = j
        .envs
        .iter()
        .find(|(k, _)| k == "OUT_DIR")
        .map(|(_, v)| v.clone());
    assert_eq!(out_dir, Some("/out/script-run/output".to_string()));

    let mut script2 = BuildScriptResult::new();
    script2.link_args = strs(&["generic"]);
    script2.link_args_cdylib = strs(&["fordylib"]);
    let mut j2 = job("foo", "cdylib");
    j2.build_script_run = Some("/run".to_string());
    j2.with_build_script(script2);
    assert_eq!(j2.common.link_args, strs(&["generic", "fordylib"]));
}

#[test]
fn lib_path_from_env_splits_search_paths() {
    let mut j = job("a", "lib");
    buildplan::compile::lib_path_from_env(&mut j, Some("/x:/y:/x".to_string()));
    assert_eq!(j.lib_path, strs(&["/x", "/y"]));
    let mut j2 = job("a", "lib");
    buildplan::compile::lib_path_from_env(&mut j2, None);
    assert!(j2.lib_path.is_empty());
}
