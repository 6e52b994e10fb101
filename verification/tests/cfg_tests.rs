use buildplan::cfg::{cfg_add, cfg_env_pairs, merge_cfgs, parse_cfg, parse_cfg_output};
use buildplan::errors::Error;

fn strs(fs: &[&str]) -> Vec<String> {
    fs.iter().map(|f| f.to_string()).collect()
}

fn env_get(pairs: &[(String, String)], name: &str) -> Option<String> {
    pairs
        .iter()
        .rev()
        .find(|(k, _)| k == name)
        .map(|(_, v)| v.clone())
}

#[test]
fn parses_bare_cfg() {
    assert_eq!(parse_cfg("unix"), Ok(("unix".to_string(), None)));
}

#[test]
fn parses_valued_cfg() {
    assert_eq!(
        parse_cfg("target_os=\"linux\""),
        Ok(("target_os".to_string(), Some("linux".to_string())))
    );
}

#[test]
fn rejects_unquoted_value() {
    assert_eq!(parse_cfg("foo=bar"), Err(Error::CfgParse));
    assert_eq!(parse_cfg("foo=\"bar"), Err(Error::CfgParse));
}

#[test]
fn parses_compiler_output_lines() {
    let parsed = parse_cfg_output("unix\ntarget_os=\"linux\"\n").expect("well-formed");
    assert_eq!(parsed.len(), 2);
    assert_eq!(parsed[0], ("unix".to_string(), None));
    assert_eq!(
        parsed[1],
        ("target_os".to_string(), Some("linux".to_string()))
    );
}

#[test]
fn cfg_values_join_as_sorted_set() {
    let entries = merge_cfgs(
        &strs(&[]),
        "",
        &strs(&["foo=\"a\"", "foo=\"b\""]),
    )
    .expect("all lines parse");
    let env = cfg_env_pairs(&entries);
    assert_eq!(env_get(&env, "CARGO_CFG_FOO"), Some("a,b".to_string()));
}

#[test]
fn cfg_value_accumulation_is_order_independent() {
    let e1 = merge_cfgs(&strs(&[]), "", &strs(&["foo=\"a\"", "foo=\"b\""])).unwrap();
    let e2 = merge_cfgs(&strs(&[]), "", &strs(&["foo=\"b\"", "foo=\"a\""])).unwrap();
    assert_eq!(cfg_env_pairs(&e1), cfg_env_pairs(&e2));
}

#[test]
fn duplicate_cfg_value_is_kept_once() {
    let entries = merge_cfgs(&strs(&[]), "", &strs(&["foo=\"a\"", "foo=\"a\""])).unwrap();
    let env = cfg_env_pairs(&entries);
    assert_eq!(env_get(&env, "CARGO_CFG_FOO"), Some("a".to_string()));
}

#[test]
fn features_become_the_feature_cfg() {
    let entries = merge_cfgs(&strs(&["x", "y"]), "", &strs(&[])).unwrap();
    let env = cfg_env_pairs(&entries);
    assert_eq!(env_get(&env, "CARGO_CFG_FEATURE"), Some("x,y".to_string()));
}

#[test]
fn feature_entry_exists_even_without_features() {
    let entries = merge_cfgs(&strs(&[]), "", &strs(&[])).unwrap();
    let env = cfg_env_pairs(&entries);
    assert_eq!(env_get(&env, "CARGO_CFG_FEATURE"), Some("".to_string()));
}

#[test]
fn bad_job_cfg_fails_the_merge() {
    assert_eq!(
        merge_cfgs(&strs(&[]), "", &strs(&["foo=bar"])).err(),
        Some(Error::CfgParse)
    );
}

#[test]
fn bare_existing_name_changes_nothing() {
    let mut entries: Vec<(String, Vec<String>)> = Vec::new();
    cfg_add(&mut entries, "foo".to_string(), Some("a".to_string()));
    cfg_add(&mut entries, "foo".to_string(), None);
    assert_eq!(entries, vec![("foo".to_string(), vec!["a".to_string()])]);
}
