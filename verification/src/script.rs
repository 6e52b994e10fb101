//! The build-script output protocol: the directive grammar, what
//! each directive does to the accumulating result, and the checks
//! made once the script has exited.

use vstd::prelude::*;
use vstd::string::StrSliceExecFns;

use crate::errors::Error;
use crate::kvmap::{distinct_views, gen_keys_distinct, gen_lookup, keys_distinct, lookup, map_insert, set_insert};
use crate::text::{matches_at, str_eq, views};

verus! {

/// What one line of build-script output asks for, after the directive
/// grammar has been read once. Lines that are no directive at all, and
/// strict-form (`cargo::`) directives this library does not know, are
/// `Unrecognized`: they are echoed and change nothing, so that newer
/// directives never break a build.
pub enum Directive {
    /// A recognized directive that changes nothing (`rerun-if-changed`,
    /// `rerun-if-env-changed`, `rustc-link-arg-tests`,
    /// `rustc-link-arg-examples`, `rustc-link-arg-benches`, and a
    /// name-value directive whose value held no `name=value` pair).
    Noop,
    /// `rustc-link-arg`: a linker argument for every produced artifact.
    LinkArg(String),
    /// `rustc-link-arg-cdylib`: a linker argument for dynamic libraries.
    LinkArgCdylib(String),
    /// `rustc-link-arg-bin`: a linker argument for one named binary.
    LinkArgBin(String, String),
    /// `rustc-link-arg-bins`: a linker argument for all binaries.
    LinkArgBins(String),
    /// `rustc-link-lib`: a native library to link.
    LinkLib(String),
    /// `rustc-link-search`: a library search path.
    LinkSearch(String),
    /// `rustc-flags`: extra compiler flags.
    Flags(String),
    /// `rustc-cfg`: a cfg to set for the crate's own compilation.
    Cfg(String),
    /// `rustc-check-cfg`: a cfg the compiler should accept as known.
    CheckCfg(String),
    /// `rustc-env`: an environment variable for the crate's own
    /// compilation.
    Env(String, String),
    /// `warning`: printed, never fatal.
    Warning(String),
    /// `error`: printed, and fatal once the script has exited.
    Error(String),
    /// `metadata` (strict form), or any unknown legacy `cargo:key=value`
    /// directive: a key-value pair for dependents.
    Metadata(String, String),
    /// No directive: echoed, nothing changes.
    Unrecognized,
}

/// The spec-level shape of a directive, over character sequences.
pub enum DirView {
    Noop,
    LinkArg(Seq<char>),
    LinkArgCdylib(Seq<char>),
    LinkArgBin(Seq<char>, Seq<char>),
    LinkArgBins(Seq<char>),
    LinkLib(Seq<char>),
    LinkSearch(Seq<char>),
    Flags(Seq<char>),
    Cfg(Seq<char>),
    CheckCfg(Seq<char>),
    Env(Seq<char>, Seq<char>),
    Warning(Seq<char>),
    Error(Seq<char>),
    Metadata(Seq<char>, Seq<char>),
    Unrecognized,
}

impl Directive {
    /// The spec view of this directive.
    pub open spec fn view(&self) -> DirView {
        match self {
            Directive::Noop => DirView::Noop,
            Directive::LinkArg(a) => DirView::LinkArg(a@),
            Directive::LinkArgCdylib(a) => DirView::LinkArgCdylib(a@),
            Directive::LinkArgBin(n, a) => DirView::LinkArgBin(n@, a@),
            Directive::LinkArgBins(a) => DirView::LinkArgBins(a@),
            Directive::LinkLib(a) => DirView::LinkLib(a@),
            Directive::LinkSearch(a) => DirView::LinkSearch(a@),
            Directive::Flags(a) => DirView::Flags(a@),
            Directive::Cfg(a) => DirView::Cfg(a@),
            Directive::CheckCfg(a) => DirView::CheckCfg(a@),
            Directive::Env(n, a) => DirView::Env(n@, a@),
            Directive::Warning(a) => DirView::Warning(a@),
            Directive::Error(a) => DirView::Error(a@),
            Directive::Metadata(n, a) => DirView::Metadata(n@, a@),
            Directive::Unrecognized => DirView::Unrecognized,
        }
    }
}

/// Whether `c` counts as whitespace when directive values and tool
/// output are trimmed.
pub open spec fn is_ws(c: char) -> bool {
    c == ' ' || c == '\t' || c == '\r' || c == '\n'
}

/// `s` without its leading whitespace.
pub open spec fn skip_ws(s: Seq<char>) -> Seq<char>
    decreases s.len(),
{
    if s.len() > 0 && is_ws(s[0]) {
        skip_ws(s.drop_first())
    } else {
        s
    }
}

/// `s` without its trailing whitespace.
pub open spec fn rtrim_ws(s: Seq<char>) -> Seq<char>
    decreases s.len(),
{
    if s.len() > 0 && is_ws(s.last()) {
        rtrim_ws(s.drop_last())
    } else {
        s
    }
}

/// `s` without leading and trailing whitespace.
pub open spec fn trim_ws(s: Seq<char>) -> Seq<char> {
    rtrim_ws(skip_ws(s))
}

/// Whether `c` may stand in a directive name: a lowercase ASCII
/// letter, `-` or `_`.
pub open spec fn is_name_char(c: char) -> bool {
    (('a' as u32) <= (c as u32) && (c as u32) <= ('z' as u32)) || c == '-' || c == '_'
}

/// How many name characters `s` starts with.
pub open spec fn name_run(s: Seq<char>) -> int
    decreases s.len(),
{
    if s.len() > 0 && is_name_char(s[0]) {
        1 + name_run(s.drop_first())
    } else {
        0
    }
}

/// Whether `c` may stand in the key of a `name=value` pair: anything
/// but `=` and whitespace.
pub open spec fn is_key_char(c: char) -> bool {
    c != '=' && !is_ws(c)
}

/// How many key characters `s` starts with.
pub open spec fn key_run(s: Seq<char>) -> int
    decreases s.len(),
{
    if s.len() > 0 && is_key_char(s[0]) {
        1 + key_run(s.drop_first())
    } else {
        0
    }
}

/// How a directive value splits into a `name=value` pair: the name is
/// the maximal nonempty run of key characters from the start, the `=`
/// right behind it is dropped, and what follows must be nonempty.
pub open spec fn spec_kv(v: Seq<char>) -> Option<(Seq<char>, Seq<char>)> {
    let kl = key_run(v);
    if kl > 0 && kl + 1 < v.len() && v[kl] == '=' {
        Some((v.take(kl), v.skip(kl + 1)))
    } else {
        None
    }
}

/// How one output line is read: optional whitespace, `cargo`, one or
/// two colons, a nonempty directive name of lowercase letters, `-` and
/// `_`, then `=` and a nonempty value. The result carries whether the
/// strict double-colon form was used, the name, and the raw value.
pub open spec fn spec_parse_line(line: Seq<char>) -> Option<(bool, Seq<char>, Seq<char>)> {
    let t = skip_ws(line);
    if t.len() < 6 || t.take(5) != "cargo"@ || t[5] != ':' {
        None
    } else {
        let double = t.len() > 6 && t[6] == ':';
        let rest = if double {
            t.skip(7)
        } else {
            t.skip(6)
        };
        let nl = name_run(rest);
        if nl == 0 || nl + 1 >= rest.len() || rest[nl] != '=' {
            None
        } else {
            Some((double, rest.take(nl), rest.skip(nl + 1)))
        }
    }
}

/// What a parsed line means, as the directive table says.
pub open spec fn spec_directive(line: Seq<char>) -> DirView {
    match spec_parse_line(line) {
        None => DirView::Unrecognized,
        Some((double, name, value)) => {
            if name == "rerun-if-changed"@ || name == "rerun-if-env-changed"@ || name
                == "rustc-link-arg-tests"@ || name == "rustc-link-arg-examples"@ || name
                == "rustc-link-arg-benches"@ {
                DirView::Noop
            } else if name == "rustc-link-arg"@ {
                DirView::LinkArg(trim_ws(value))
            } else if name == "rustc-link-arg-cdylib"@ {
                DirView::LinkArgCdylib(trim_ws(value))
            } else if name == "rustc-link-arg-bin"@ {
                match spec_kv(value) {
                    Some((k, v)) => DirView::LinkArgBin(k, trim_ws(v)),
                    None => DirView::Noop,
                }
            } else if name == "rustc-link-arg-bins"@ {
                DirView::LinkArgBins(trim_ws(value))
            } else if name == "rustc-link-lib"@ {
                DirView::LinkLib(trim_ws(value))
            } else if name == "rustc-link-search"@ {
                DirView::LinkSearch(trim_ws(value))
            } else if name == "rustc-flags"@ {
                DirView::Flags(trim_ws(value))
            } else if name == "rustc-cfg"@ {
                DirView::Cfg(trim_ws(value))
            } else if name == "rustc-check-cfg"@ {
                DirView::CheckCfg(trim_ws(value))
            } else if name == "rustc-env"@ {
                match spec_kv(value) {
                    Some((k, v)) => DirView::Env(k, trim_ws(v)),
                    None => DirView::Noop,
                }
            } else if name == "error"@ {
                DirView::Error(value)
            } else if name == "warning"@ {
                DirView::Warning(value)
            } else if name == "metadata"@ {
                if double {
                    match spec_kv(value) {
                        Some((k, v)) => DirView::Metadata(k, trim_ws(v)),
                        None => DirView::Noop,
                    }
                } else {
                    DirView::Metadata("metadata"@, trim_ws(value))
                }
            } else {
                if double {
                    DirView::Unrecognized
                } else {
                    DirView::Metadata(name, trim_ws(value))
                }
            }
        },
    }
}

/// Trims line whitespace from both ends of `s`.
pub fn trim_str(s: &str) -> (r: String)
    ensures
        r@ == trim_ws(s@),
{
    let n: usize = s.unicode_len();
    let mut a: usize = 0;
    proof {
        assert(s@.skip(0) =~= s@);
    }
    while a < n && is_ws_exec(s.get_char(a))
        invariant
            n == s@.len(),
            a <= n,
            skip_ws(s@) == skip_ws(s@.skip(a as int)),
        decreases n - a,
    {
        proof {
            assert(s@.skip(a as int)[0] == s@[a as int]);
            assert(s@.skip(a as int).drop_first() =~= s@.skip(a + 1 as int));
        }
        a += 1;
    }
    proof {
        if a < n {
            assert(s@.skip(a as int)[0] == s@[a as int]);
        } else {
            assert(s@.skip(a as int) =~= Seq::<char>::empty());
        }
        assert(skip_ws(s@) == s@.skip(a as int));
        assert(s@.skip(a as int) =~= s@.subrange(a as int, n as int));
    }
    let mut b: usize = n;
    while b > a && is_ws_exec(s.get_char(b - 1))
        invariant
            n == s@.len(),
            a <= b <= n,
            skip_ws(s@) == s@.skip(a as int),
            rtrim_ws(s@.skip(a as int)) == rtrim_ws(s@.subrange(a as int, b as int)),
        decreases b,
    {
        proof {
            assert(s@.subrange(a as int, b as int).last() == s@[b - 1]);
            assert(s@.subrange(a as int, b as int).drop_last() =~= s@.subrange(a as int, b - 1));
        }
        b -= 1;
    }
    proof {
        if b > a {
            assert(s@.subrange(a as int, b as int).last() == s@[b - 1]);
        }
        assert(rtrim_ws(s@.subrange(a as int, b as int)) == s@.subrange(a as int, b as int));
    }
    let r = s.substring_char(a, b).to_owned();
    proof {
        assert(r@ =~= s@.subrange(a as int, b as int));
    }
    r
}

fn is_ws_exec(c: char) -> (r: bool)
    ensures
        r == is_ws(c),
{
    c == ' ' || c == '\t' || c == '\r' || c == '\n'
}

fn is_name_char_exec(c: char) -> (r: bool)
    ensures
        r == is_name_char(c),
{
    ((c as u32) >= ('a' as u32) && (c as u32) <= ('z' as u32)) || c == '-' || c == '_'
}

fn is_key_char_exec(c: char) -> (r: bool)
    ensures
        r == is_key_char(c),
{
    c != '=' && !is_ws_exec(c)
}

/// Splits a directive value into its `name=value` pair, as
/// [`spec_kv`] says.
fn split_kv(v: &str) -> (r: Option<(String, String)>)
    ensures
        match r {
            Some(p) => spec_kv(v@) == Some((p.0@, p.1@)),
            None => spec_kv(v@) is None,
        },
{
    let n: usize = v.unicode_len();
    let mut i: usize = 0;
    proof {
        assert(v@.skip(0) =~= v@);
    }
    while i < n && is_key_char_exec(v.get_char(i))
        invariant
            n == v@.len(),
            i <= n,
            key_run(v@) == i + key_run(v@.skip(i as int)),
        decreases n - i,
    {
        proof {
            assert(v@.skip(i as int)[0] == v@[i as int]);
            assert(v@.skip(i as int).drop_first() =~= v@.skip(i + 1 as int));
        }
        i += 1;
    }
    proof {
        if i < n {
            assert(v@.skip(i as int)[0] == v@[i as int]);
        } else {
            assert(v@.skip(i as int) =~= Seq::<char>::empty());
        }
        assert(key_run(v@) == i);
    }
    if i > 0 && n - i > 1 && v.get_char(i) == '=' {
        let k = v.substring_char(0, i).to_owned();
        let val = v.substring_char(i + 1, n).to_owned();
        proof {
            assert(k@ =~= v@.take(i as int));
            assert(val@ =~= v@.skip(i as int + 1));
        }
        Some((k, val))
    } else {
        None
    }
}

/// Reads one output line against the directive grammar, as
/// [`spec_directive`] says.
#[verifier::rlimit(60)]
pub fn parse_directive(line: &str) -> (d: Directive)
    ensures
        d.view() == spec_directive(line@),
{
    let n: usize = line.unicode_len();
    let mut a: usize = 0;
    proof {
        assert(line@.skip(0) =~= line@);
    }
    while a < n && is_ws_exec(line.get_char(a))
        invariant
            n == line@.len(),
            a <= n,
            skip_ws(line@) == skip_ws(line@.skip(a as int)),
        decreases n - a,
    {
        proof {
            assert(line@.skip(a as int)[0] == line@[a as int]);
            assert(line@.skip(a as int).drop_first() =~= line@.skip(a + 1 as int));
        }
        a += 1;
    }
    proof {
        if a < n {
            assert(line@.skip(a as int)[0] == line@[a as int]);
        } else {
            assert(line@.skip(a as int) =~= Seq::<char>::empty());
        }
        assert(skip_ws(line@) == line@.skip(a as int));
    }
    let ghost t = skip_ws(line@);
    // `cargo` and at least `:x=y` behind it
    if n - a < 6 {
        return Directive::Unrecognized;
    }
    proof {
        reveal_strlit("cargo");
    }
    if !matches_at(line, "cargo", a) {
        proof {
            assert(t.take(5) =~= line@.subrange(a as int, a as int + 5));
        }
        return Directive::Unrecognized;
    }
    proof {
        assert(t.take(5) =~= line@.subrange(a as int, a as int + 5));
    }
    if line.get_char(a + 5) != ':' {
        proof {
            assert(t[5] == line@[a + 5]);
        }
        return Directive::Unrecognized;
    }
    proof {
        assert(t[5] == line@[a + 5]);
    }
    let double = n - a > 6 && line.get_char(a + 6) == ':';
    let start: usize = if double {
        a + 7
    } else {
        a + 6
    };
    proof {
        if n - a > 6 {
            assert(t[6] == line@[a + 6]);
        }
        assert(double == (t.len() > 6 && t[6] == ':'));
        if double {
            assert(t.skip(7) =~= line@.skip(start as int));
        } else {
            assert(t.skip(6) =~= line@.skip(start as int));
        }
    }
    let ghost rest = if double {
        t.skip(7)
    } else {
        t.skip(6)
    };
    let mut i: usize = start;
    proof {
        assert(name_run(rest) == i - start + name_run(line@.skip(i as int)));
    }
    while i < n && is_name_char_exec(line.get_char(i))
        invariant
            n == line@.len(),
            start <= i <= n,
            rest == line@.skip(start as int),
            name_run(rest) == i - start + name_run(line@.skip(i as int)),
        decreases n - i,
    {
        proof {
            assert(line@.skip(i as int)[0] == line@[i as int]);
            assert(line@.skip(i as int).drop_first() =~= line@.skip(i + 1 as int));
        }
        i += 1;
    }
    proof {
        if i < n {
            assert(line@.skip(i as int)[0] == line@[i as int]);
        } else {
            assert(line@.skip(i as int) =~= Seq::<char>::empty());
        }
        assert(name_run(rest) == i - start);
    }
    if i == start || n - i <= 1 || line.get_char(i) != '=' {
        proof {
            if i - start < rest.len() {
                assert(rest[i - start] == line@[i as int]);
            }
        }
        return Directive::Unrecognized;
    }
    proof {
        assert(rest[i - start] == line@[i as int]);
    }
    let name = line.substring_char(start, i).to_owned();
    let value = line.substring_char(i + 1, n).to_owned();
    proof {
        assert(name@ =~= rest.take(name_run(rest)));
        assert(value@ =~= rest.skip(name_run(rest) + 1));
        assert(spec_parse_line(line@) == Some((double, name@, value@)));
        reveal_strlit("rerun-if-changed");
        reveal_strlit("rerun-if-env-changed");
        reveal_strlit("rustc-link-arg-tests");
        reveal_strlit("rustc-link-arg-examples");
        reveal_strlit("rustc-link-arg-benches");
        reveal_strlit("rustc-link-arg");
        reveal_strlit("rustc-link-arg-cdylib");
        reveal_strlit("rustc-link-arg-bin");
        reveal_strlit("rustc-link-arg-bins");
        reveal_strlit("rustc-link-lib");
        reveal_strlit("rustc-link-search");
        reveal_strlit("rustc-flags");
        reveal_strlit("rustc-cfg");
        reveal_strlit("rustc-check-cfg");
        reveal_strlit("rustc-env");
        reveal_strlit("error");
        reveal_strlit("warning");
        reveal_strlit("metadata");
    }
    if str_eq(name.as_str(), "rerun-if-changed") || str_eq(name.as_str(), "rerun-if-env-changed")
        || str_eq(name.as_str(), "rustc-link-arg-tests") || str_eq(
        name.as_str(),
        "rustc-link-arg-examples",
    ) || str_eq(name.as_str(), "rustc-link-arg-benches") {
        return Directive::Noop;
    }
    if str_eq(name.as_str(), "rustc-link-arg") {
        return Directive::LinkArg(trim_str(value.as_str()));
    }
    if str_eq(name.as_str(), "rustc-link-arg-cdylib") {
        return Directive::LinkArgCdylib(trim_str(value.as_str()));
    }
    if str_eq(name.as_str(), "rustc-link-arg-bin") {
        return match split_kv(value.as_str()) {
            Some((k, v)) => Directive::LinkArgBin(k, trim_str(v.as_str())),
            None => Directive::Noop,
        };
    }
    if str_eq(name.as_str(), "rustc-link-arg-bins") {
        return Directive::LinkArgBins(trim_str(value.as_str()));
    }
    if str_eq(name.as_str(), "rustc-link-lib") {
        return Directive::LinkLib(trim_str(value.as_str()));
    }
    if str_eq(name.as_str(), "rustc-link-search") {
        return Directive::LinkSearch(trim_str(value.as_str()));
    }
    if str_eq(name.as_str(), "rustc-flags") {
        return Directive::Flags(trim_str(value.as_str()));
    }
    if str_eq(name.as_str(), "rustc-cfg") {
        return Directive::Cfg(trim_str(value.as_str()));
    }
    if str_eq(name.as_str(), "rustc-check-cfg") {
        return Directive::CheckCfg(trim_str(value.as_str()));
    }
    if str_eq(name.as_str(), "rustc-env") {
        return match split_kv(value.as_str()) {
            Some((k, v)) => Directive::Env(k, trim_str(v.as_str())),
            None => Directive::Noop,
        };
    }
    if str_eq(name.as_str(), "error") {
        return Directive::Error(value);
    }
    if str_eq(name.as_str(), "warning") {
        return Directive::Warning(value);
    }
    if str_eq(name.as_str(), "metadata") {
        if double {
            return match split_kv(value.as_str()) {
                Some((k, v)) => Directive::Metadata(k, trim_str(v.as_str())),
                None => Directive::Noop,
            };
        }
        return Directive::Metadata("metadata".to_owned(), trim_str(value.as_str()));
    }
    if double {
        return Directive::Unrecognized;
    }
    Directive::Metadata(name, trim_str(value.as_str()))
}


/// What a build script's output accumulates to: the structured result
/// of one run, merged later into the crate's own compile job.
pub struct BuildScriptResult {
    /// Key-value metadata for dependents; only lawful when the owning
    /// package declares a links token.
    pub metadata: Vec<(String, String)>,
    /// Linker arguments for every produced artifact.
    pub link_args: Vec<String>,
    /// Linker arguments only for dynamic libraries.
    pub link_args_cdylib: Vec<String>,
    /// Linker arguments for all binaries.
    pub link_args_bins: Vec<String>,
    /// Linker arguments for single named binaries.
    pub link_args_bin: Vec<(String, Vec<String>)>,
    /// Native libraries to link.
    pub link_lib: Vec<String>,
    /// Extra library search paths; a set remembering insertion order.
    pub lib_path: Vec<String>,
    /// Extra compiler flags.
    pub flags: Vec<String>,
    /// Extra cfgs for the crate's own compilation.
    pub cfgs: Vec<String>,
    /// Extra check-cfgs.
    pub check_cfgs: Vec<String>,
    /// Environment overrides for the crate's own compilation.
    pub envs: Vec<(String, String)>,
}

impl BuildScriptResult {
    /// The list-backed maps have distinct keys and the search-path set
    /// holds no duplicates.
    pub open spec fn wf(&self) -> bool {
        &&& keys_distinct(self.metadata@)
        &&& keys_distinct(self.envs@)
        &&& distinct_views(views(self.lib_path@))
        &&& gen_keys_distinct(self.link_args_bin@)
    }

    /// An empty result: what a script that printed nothing reports.
    pub fn new() -> (r: Self)
        ensures
            r.wf(),
            r.metadata@.len() == 0,
            r.link_args@.len() == 0,
            r.link_args_cdylib@.len() == 0,
            r.link_args_bins@.len() == 0,
            r.link_args_bin@.len() == 0,
            r.link_lib@.len() == 0,
            r.lib_path@.len() == 0,
            r.flags@.len() == 0,
            r.cfgs@.len() == 0,
            r.check_cfgs@.len() == 0,
            r.envs@.len() == 0,
    {
        BuildScriptResult {
            metadata: Vec::new(),
            link_args: Vec::new(),
            link_args_cdylib: Vec::new(),
            link_args_bins: Vec::new(),
            link_args_bin: Vec::new(),
            link_lib: Vec::new(),
            lib_path: Vec::new(),
            flags: Vec::new(),
            cfgs: Vec::new(),
            check_cfgs: Vec::new(),
            envs: Vec::new(),
        }
    }
}

/// Every field but `metadata` is unchanged.
pub open spec fn only_metadata_changed(o: BuildScriptResult, f: BuildScriptResult) -> bool {
    f.link_args == o.link_args &&
    f.link_args_cdylib == o.link_args_cdylib &&
    f.link_args_bins == o.link_args_bins &&
    f.link_args_bin == o.link_args_bin &&
    f.link_lib == o.link_lib &&
    f.lib_path == o.lib_path &&
    f.flags == o.flags &&
    f.cfgs == o.cfgs &&
    f.check_cfgs == o.check_cfgs &&
    f.envs == o.envs
}

/// Every field but `link_args` is unchanged.
pub open spec fn only_link_args_changed(o: BuildScriptResult, f: BuildScriptResult) -> bool {
    f.metadata == o.metadata &&
    f.link_args_cdylib == o.link_args_cdylib &&
    f.link_args_bins == o.link_args_bins &&
    f.link_args_bin == o.link_args_bin &&
    f.link_lib == o.link_lib &&
    f.lib_path == o.lib_path &&
    f.flags == o.flags &&
    f.cfgs == o.cfgs &&
    f.check_cfgs == o.check_cfgs &&
    f.envs == o.envs
}

/// Every field but `link_args_cdylib` is unchanged.
pub open spec fn only_link_args_cdylib_changed(o: BuildScriptResult, f: BuildScriptResult) -> bool {
    f.metadata == o.metadata &&
    f.link_args == o.link_args &&
    f.link_args_bins == o.link_args_bins &&
    f.link_args_bin == o.link_args_bin &&
    f.link_lib == o.link_lib &&
    f.lib_path == o.lib_path &&
    f.flags == o.flags &&
    f.cfgs == o.cfgs &&
    f.check_cfgs == o.check_cfgs &&
    f.envs == o.envs
}

/// Every field but `link_args_bins` is unchanged.
pub open spec fn only_link_args_bins_changed(o: BuildScriptResult, f: BuildScriptResult) -> bool {
    f.metadata == o.metadata &&
    f.link_args == o.link_args &&
    f.link_args_cdylib == o.link_args_cdylib &&
    f.link_args_bin == o.link_args_bin &&
    f.link_lib == o.link_lib &&
    f.lib_path == o.lib_path &&
    f.flags == o.flags &&
    f.cfgs == o.cfgs &&
    f.check_cfgs == o.check_cfgs &&
    f.envs == o.envs
}

/// Every field but `link_args_bin` is unchanged.
pub open spec fn only_link_args_bin_changed(o: BuildScriptResult, f: BuildScriptResult) -> bool {
    f.metadata == o.metadata &&
    f.link_args == o.link_args &&
    f.link_args_cdylib == o.link_args_cdylib &&
    f.link_args_bins == o.link_args_bins &&
    f.link_lib == o.link_lib &&
    f.lib_path == o.lib_path &&
    f.flags == o.flags &&
    f.cfgs == o.cfgs &&
    f.check_cfgs == o.check_cfgs &&
    f.envs == o.envs
}

/// Every field but `link_lib` is unchanged.
pub open spec fn only_link_lib_changed(o: BuildScriptResult, f: BuildScriptResult) -> bool {
    f.metadata == o.metadata &&
    f.link_args == o.link_args &&
    f.link_args_cdylib == o.link_args_cdylib &&
    f.link_args_bins == o.link_args_bins &&
    f.link_args_bin == o.link_args_bin &&
    f.lib_path == o.lib_path &&
    f.flags == o.flags &&
    f.cfgs == o.cfgs &&
    f.check_cfgs == o.check_cfgs &&
    f.envs == o.envs
}

/// Every field but `lib_path` is unchanged.
pub open spec fn only_lib_path_changed(o: BuildScriptResult, f: BuildScriptResult) -> bool {
    f.metadata == o.metadata &&
    f.link_args == o.link_args &&
    f.link_args_cdylib == o.link_args_cdylib &&
    f.link_args_bins == o.link_args_bins &&
    f.link_args_bin == o.link_args_bin &&
    f.link_lib == o.link_lib &&
    f.flags == o.flags &&
    f.cfgs == o.cfgs &&
    f.check_cfgs == o.check_cfgs &&
    f.envs == o.envs
}

/// Every field but `flags` is unchanged.
pub open spec fn only_flags_changed(o: BuildScriptResult, f: BuildScriptResult) -> bool {
    f.metadata == o.metadata &&
    f.link_args == o.link_args &&
    f.link_args_cdylib == o.link_args_cdylib &&
    f.link_args_bins == o.link_args_bins &&
    f.link_args_bin == o.link_args_bin &&
    f.link_lib == o.link_lib &&
    f.lib_path == o.lib_path &&
    f.cfgs == o.cfgs &&
    f.check_cfgs == o.check_cfgs &&
    f.envs == o.envs
}

/// Every field but `cfgs` is unchanged.
pub open spec fn only_cfgs_changed(o: BuildScriptResult, f: BuildScriptResult) -> bool {
    f.metadata == o.metadata &&
    f.link_args == o.link_args &&
    f.link_args_cdylib == o.link_args_cdylib &&
    f.link_args_bins == o.link_args_bins &&
    f.link_args_bin == o.link_args_bin &&
    f.link_lib == o.link_lib &&
    f.lib_path == o.lib_path &&
    f.flags == o.flags &&
    f.check_cfgs == o.check_cfgs &&
    f.envs == o.envs
}

/// Every field but `check_cfgs` is unchanged.
pub open spec fn only_check_cfgs_changed(o: BuildScriptResult, f: BuildScriptResult) -> bool {
    f.metadata == o.metadata &&
    f.link_args == o.link_args &&
    f.link_args_cdylib == o.link_args_cdylib &&
    f.link_args_bins == o.link_args_bins &&
    f.link_args_bin == o.link_args_bin &&
    f.link_lib == o.link_lib &&
    f.lib_path == o.lib_path &&
    f.flags == o.flags &&
    f.cfgs == o.cfgs &&
    f.envs == o.envs
}

/// Every field but `envs` is unchanged.
pub open spec fn only_envs_changed(o: BuildScriptResult, f: BuildScriptResult) -> bool {
    f.metadata == o.metadata &&
    f.link_args == o.link_args &&
    f.link_args_cdylib == o.link_args_cdylib &&
    f.link_args_bins == o.link_args_bins &&
    f.link_args_bin == o.link_args_bin &&
    f.link_lib == o.link_lib &&
    f.lib_path == o.lib_path &&
    f.flags == o.flags &&
    f.cfgs == o.cfgs &&
    f.check_cfgs == o.check_cfgs
}


/// Appends `arg` to the named binary's argument list, opening the
/// list when the name is new.
pub fn bin_args_push(m: &mut Vec<(String, Vec<String>)>, name: String, arg: String)
    requires
        gen_keys_distinct(old(m)@),
    ensures
        gen_keys_distinct(final(m)@),
        (match gen_lookup(old(m)@, name@) {
            Some(vals) => gen_lookup(final(m)@, name@) matches Some(nv) && nv@ == vals@.push(arg),
            None => gen_lookup(final(m)@, name@) matches Some(nv) && nv@ == seq![arg],
        }),
        forall|q: Seq<char>| q != name@ ==> gen_lookup(final(m)@, q) == gen_lookup(old(m)@, q),
{
    let ghost m0 = old(m)@;
    let n: usize = m.len();
    let mut i: usize = 0;
    while i < n
        invariant
            n == m@.len(),
            i <= n,
            m@ == m0,
            m0 == old(m)@,
            gen_keys_distinct(m0),
            forall|j: int| 0 <= j < i ==> m0[j].0@ != name@,
        decreases n - i,
    {
        if str_eq(m[i].0.as_str(), name.as_str()) {
            proof {
                crate::kvmap::lemma_gen_lookup_at(m0, i as int);
            }
            let (k0, mut vals) = m.remove(i);
            let ghost vals0 = vals;
            vals.push(arg);
            m.insert(i, (k0, vals));
            proof {
                assert(forall|j: int| 0 <= j < m0.len() && j != i ==> m@[j] == m0[j]);
                assert(m@[i as int].0@ == name@);
                crate::kvmap::lemma_gen_update_at(m0, m@, i as int, name@);
                assert(gen_lookup(m0, name@) == Some(vals0));
            }
            return ;
        }
        i += 1;
    }
    let mut nv: Vec<String> = Vec::new();
    nv.push(arg);
    let ghost gname = name;
    let ghost gnv = nv;
    m.push((name, nv));
    proof {
        assert(m@ =~= m0.push((gname, gnv)));
        crate::kvmap::lemma_gen_push(m0, gname, gnv);
        assert(gen_lookup(m0, gname@) is None) by {
            crate::kvmap::lemma_gen_lookup_none(m0, gname@);
        }
        assert(gen_keys_distinct(m@)) by {
            assert(forall|j: int| 0 <= j < m0.len() ==> m@[j] == m0[j]);
        }
    }
}

/// What applying one directive does: the one touched field changes as
/// the directive says, everything else stays, and only an `error`
/// directive raises the failure flag.
pub open spec fn applied(
    o: BuildScriptResult,
    f: BuildScriptResult,
    e0: bool,
    e1: bool,
    d: DirView,
) -> bool {
    match d {
        DirView::Noop => f == o && e1 == e0,
        DirView::Unrecognized => f == o && e1 == e0,
        DirView::Warning(_) => f == o && e1 == e0,
        DirView::Error(_) => f == o && e1 == true,
        DirView::LinkArg(a) => only_link_args_changed(o, f) && e1 == e0 && views(f.link_args@)
            == views(o.link_args@).push(a),
        DirView::LinkArgCdylib(a) => only_link_args_cdylib_changed(o, f) && e1 == e0 && views(
            f.link_args_cdylib@,
        ) == views(o.link_args_cdylib@).push(a),
        DirView::LinkArgBins(a) => only_link_args_bins_changed(o, f) && e1 == e0 && views(
            f.link_args_bins@,
        ) == views(o.link_args_bins@).push(a),
        DirView::LinkLib(a) => only_link_lib_changed(o, f) && e1 == e0 && views(f.link_lib@)
            == views(o.link_lib@).push(a),
        DirView::Flags(a) => only_flags_changed(o, f) && e1 == e0 && views(f.flags@) == views(
            o.flags@,
        ).push(a),
        DirView::Cfg(a) => only_cfgs_changed(o, f) && e1 == e0 && views(f.cfgs@) == views(
            o.cfgs@,
        ).push(a),
        DirView::CheckCfg(a) => only_check_cfgs_changed(o, f) && e1 == e0 && views(f.check_cfgs@)
            == views(o.check_cfgs@).push(a),
        DirView::LinkSearch(p) => only_lib_path_changed(o, f) && e1 == e0 && views(f.lib_path@)
            == (if views(o.lib_path@).contains(p) {
            views(o.lib_path@)
        } else {
            views(o.lib_path@).push(p)
        }),
        DirView::LinkArgBin(n, a) => only_link_args_bin_changed(o, f) && e1 == e0 && (match
            gen_lookup(o.link_args_bin@, n) {
            Some(vals) => gen_lookup(f.link_args_bin@, n) matches Some(nv) && views(nv@) == views(
                vals@,
            ).push(a),
            None => gen_lookup(f.link_args_bin@, n) matches Some(nv) && views(nv@) == seq![a],
        }) && (forall|q: Seq<char>|
            q != n ==> gen_lookup(f.link_args_bin@, q) == gen_lookup(o.link_args_bin@, q)),
        DirView::Env(k, v) => only_envs_changed(o, f) && e1 == e0 && lookup(f.envs@, k) == Some(v)
            && (forall|q: Seq<char>| q != k ==> lookup(f.envs@, q) == lookup(o.envs@, q)),
        DirView::Metadata(k, v) => only_metadata_changed(o, f) && e1 == e0 && lookup(f.metadata@, k)
            == Some(v) && (forall|q: Seq<char>| q != k ==> lookup(f.metadata@, q) == lookup(
            o.metadata@,
            q,
        )),
    }
}

/// Applies one parsed directive to the accumulating result, as
/// [`applied`] says.
pub fn apply_directive(out: &mut BuildScriptResult, error: &mut bool, d: Directive)
    requires
        old(out).wf(),
    ensures
        final(out).wf(),
        applied(*old(out), *final(out), *old(error), *final(error), d.view()),
{
    match d {
        Directive::Noop => {},
        Directive::Unrecognized => {},
        Directive::Warning(_) => {},
        Directive::Error(_) => {
            *error = true;
        },
        Directive::LinkArg(a) => {
            out.link_args.push(a);
            proof {
                assert(views(out.link_args@) =~= views(old(out).link_args@).push(
                    out.link_args@.last()@,
                ));
            }
        },
        Directive::LinkArgCdylib(a) => {
            out.link_args_cdylib.push(a);
            proof {
                assert(views(out.link_args_cdylib@) =~= views(old(out).link_args_cdylib@).push(
                    out.link_args_cdylib@.last()@,
                ));
            }
        },
        Directive::LinkArgBins(a) => {
            out.link_args_bins.push(a);
            proof {
                assert(views(out.link_args_bins@) =~= views(old(out).link_args_bins@).push(
                    out.link_args_bins@.last()@,
                ));
            }
        },
        Directive::LinkLib(a) => {
            out.link_lib.push(a);
            proof {
                assert(views(out.link_lib@) =~= views(old(out).link_lib@).push(
                    out.link_lib@.last()@,
                ));
            }
        },
        Directive::Flags(a) => {
            out.flags.push(a);
            proof {
                assert(views(out.flags@) =~= views(old(out).flags@).push(out.flags@.last()@));
            }
        },
        Directive::Cfg(a) => {
            out.cfgs.push(a);
            proof {
                assert(views(out.cfgs@) =~= views(old(out).cfgs@).push(out.cfgs@.last()@));
            }
        },
        Directive::CheckCfg(a) => {
            out.check_cfgs.push(a);
            proof {
                assert(views(out.check_cfgs@) =~= views(old(out).check_cfgs@).push(
                    out.check_cfgs@.last()@,
                ));
            }
        },
        Directive::LinkSearch(p) => {
            set_insert(&mut out.lib_path, p);
        },
        Directive::LinkArgBin(n, a) => {
            let ghost a0 = a;
            bin_args_push(&mut out.link_args_bin, n, a);
            proof {
                match gen_lookup(old(out).link_args_bin@, d.view()->LinkArgBin_0) {
                    Some(vals) => {
                        let nv = gen_lookup(
                            out.link_args_bin@,
                            d.view()->LinkArgBin_0,
                        )->Some_0;
                        assert(views(nv@) =~= views(vals@).push(a0@));
                    },
                    None => {
                        let nv = gen_lookup(
                            out.link_args_bin@,
                            d.view()->LinkArgBin_0,
                        )->Some_0;
                        assert(views(nv@) =~= seq![a0@]);
                    },
                }
            }
        },
        Directive::Env(k, v) => {
            map_insert(&mut out.envs, k, v);
        },
        Directive::Metadata(k, v) => {
            map_insert(&mut out.metadata, k, v);
        },
    }
}

/// Reads one line of build-script output and applies what it asks
/// for: parsing as [`spec_directive`] says, application as
/// [`applied`] says. The caller echoes the line itself.
pub fn parse_script_output_line(line: &str, out: &mut BuildScriptResult, error: &mut bool)
    requires
        old(out).wf(),
    ensures
        final(out).wf(),
        applied(*old(out), *final(out), *old(error), *final(error), spec_directive(line@)),
{
    let d = parse_directive(line);
    apply_directive(out, error, d);
}

/// The two checks made after the script has exited cleanly: metadata
/// demands a links token (a structural error that outranks the
/// script's own failure flag), and an `error` directive makes the run
/// fail even though its output was kept.
pub fn check_script_result(result: &BuildScriptResult, links: &Option<String>, error: bool) -> (r:
    Result<(), Error>)
    ensures
        match r {
            Ok(_) => !(result.metadata@.len() > 0 && links is None) && !error,
            Err(e) => (e == Error::MetadataWithoutLinks && result.metadata@.len() > 0
                && links is None) || (e == Error::ScriptReportedError && error && !(
            result.metadata@.len() > 0 && links is None)),
        },
{
    if result.metadata.len() > 0 && links.is_none() {
        return Err(Error::MetadataWithoutLinks);
    }
    if error {
        return Err(Error::ScriptReportedError);
    }
    Ok(())
}

} // verus!

