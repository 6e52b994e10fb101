use buildplan::errors::Error;
use buildplan::script::{
    apply_directive, check_script_result, parse_directive, parse_script_output_line, trim_str,
    BuildScriptResult, Directive,
};

#[test]
fn parses_link_arg() {
    assert!(matches!(
        parse_directive("cargo::rustc-link-arg=-lfoo "),
        Directive::LinkArg(a) if a == "-lfoo"
    ));
}

#[test]
fn parses_legacy_single_colon() {
    assert!(matches!(
        parse_directive("cargo:rustc-cfg=abc"),
        Directive::Cfg(c) if c == "abc"
    ));
}

#[test]
fn parses_metadata_strict_form() {
    assert!(matches!(
        parse_directive("cargo::metadata=key=value"),
        Directive::Metadata(k, v) if k == "key" && v == "value"
    ));
}

#[test]
fn parses_metadata_legacy_plain_value() {
    assert!(matches!(
        parse_directive("cargo:metadata=value"),
        Directive::Metadata(k, v) if k == "metadata" && v == "value"
    ));
}

#[test]
fn legacy_unknown_key_becomes_metadata() {
    assert!(matches!(
        parse_directive("cargo:somekey=v"),
        Directive::Metadata(k, v) if k == "somekey" && v == "v"
    ));
}

#[test]
fn strict_unknown_key_is_ignored() {
    assert!(matches!(
        parse_directive("cargo::unknown-thing=v"),
        Directive::Unrecognized
    ));
}

#[test]
fn non_directive_line_is_ignored() {
    assert!(matches!(parse_directive("plain progress output"), Directive::Unrecognized));
    assert!(matches!(parse_directive("cargo::rustc-cfg="), Directive::Unrecognized));
}

#[test]
fn parses_env_pair_with_spaces() {
    assert!(matches!(
        parse_directive("cargo::rustc-env=FOO=bar baz "),
        Directive::Env(k, v) if k == "FOO" && v == "bar baz"
    ));
}

#[test]
fn parses_warning_with_leading_whitespace() {
    assert!(matches!(
        parse_directive("  cargo::warning=watch out"),
        Directive::Warning(w) if w == "watch out"
    ));
}

#[test]
fn parses_bin_specific_link_arg() {
    assert!(matches!(
        parse_directive("cargo::rustc-link-arg-bin=mybin=-s"),
        Directive::LinkArgBin(n, a) if n == "mybin" && a == "-s"
    ));
}

#[test]
fn rerun_directives_change_nothing() {
    assert!(matches!(
        parse_directive("cargo::rerun-if-changed=build.rs"),
        Directive::Noop
    ));
}

#[test]
fn apply_accumulates_fields() {
    let mut out = BuildScriptResult::new();
    let mut error = false;
    parse_script_output_line("cargo::rustc-link-search=/opt/lib", &mut out, &mut error);
    parse_script_output_line("cargo::rustc-link-search=/opt/lib", &mut out, &mut error);
    parse_script_output_line("cargo::rustc-link-lib=z", &mut out, &mut error);
    parse_script_output_line("cargo::rustc-flags=-Cfoo", &mut out, &mut error);
    parse_script_output_line("cargo::rustc-env=A=b", &mut out, &mut error);
    parse_script_output_line("cargo::rustc-env=A=c", &mut out, &mut error);
    assert_eq!(out.lib_path, vec!["/opt/lib".to_string()]);
    assert_eq!(out.link_lib, vec!["z".to_string()]);
    assert_eq!(out.flags, vec!["-Cfoo".to_string()]);
    assert_eq!(out.envs, vec![("A".to_string(), "c".to_string())]);
    assert!(!error);
}

#[test]
fn error_directive_is_deferred() {
    let mut out = BuildScriptResult::new();
    let mut error = false;
    parse_script_output_line("cargo::error=something broke", &mut out, &mut error);
    parse_script_output_line("cargo::rustc-cfg=still_recorded", &mut out, &mut error);
    assert!(error);
    assert_eq!(out.cfgs, vec!["still_recorded".to_string()]);
    let r = check_script_result(&out, &None, error);
    assert_eq!(r, Err(Error::ScriptReportedError));
}

#[test]
fn metadata_without_links_is_structural_error() {
    let mut out = BuildScriptResult::new();
    let mut error = false;
    let d = parse_directive("cargo::metadata=key=value");
    apply_directive(&mut out, &mut error, d);
    assert_eq!(check_script_result(&out, &None, error), Err(Error::MetadataWithoutLinks));
    assert_eq!(
        check_script_result(&out, &Some("mylinks".to_string()), error),
        Ok(())
    );
}

#[test]
fn trim_strips_both_ends() {
    assert_eq!(trim_str("  x y\t\n"), "x y");
    assert_eq!(trim_str(""), "");
}

#[test]
fn values_keep_inner_equals_signs() {
    assert!(matches!(
        parse_directive("cargo::rustc-link-arg=a=b"),
        Directive::LinkArg(v) if v == "a=b"
    ));
}
