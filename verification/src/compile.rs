//! The compile-job synthesizer: merging a build-script result into
//! a job, assembling the full compiler invocation in required order,
//! and placing outputs per crate type with content-addressed names.

use vstd::prelude::*;
use vstd::string::StrSliceExecFns;
use vstd::string::StringExecFns;

use crate::errors::Error;
use crate::kvmap::{
    distinct_views, gen_keys_distinct, gen_lookup, keys_distinct, lookup, map_insert, pair_views,
    set_insert,
};
use crate::paths::{path_join, path_parent, spec_parent, spec_path_join};
use crate::script::BuildScriptResult;
use crate::semver::{dec_str, spec_version, u64_to_string, Version};
use crate::text::{split_seq, split_string, str_eq, views};

verus! {

/// The record a library compile leaves beside its artifact: where the
/// artifact is, the transitive dependency closure (upstream output
/// directories), the metadata visible to downstream build scripts,
/// extra search paths, and the links token. Written once, read by
/// every dependent, never mutated.
pub struct RustLibMetadata {
    /// The compiled artifact's path.
    pub lib: String,
    /// The transitive closure of upstream output directories.
    pub deps: Vec<String>,
    /// Metadata for downstream build scripts; lawful only with links.
    pub metadata: Vec<(String, String)>,
    /// Extra library search paths.
    pub lib_path: Vec<String>,
    /// The links token, if the package declared one.
    pub links: Option<String>,
}

impl RustLibMetadata {
    /// Sets behave as sets and maps as maps.
    pub open spec fn wf(&self) -> bool {
        &&& distinct_views(views(self.deps@))
        &&& distinct_views(views(self.lib_path@))
        &&& keys_distinct(self.metadata@)
    }
}

/// One direct dependency of a job: its declared name and the
/// directory its own job wrote its outputs to.
pub struct ResolvedDep {
    /// The name the dependency is bound under.
    pub name: String,
    /// The dependency's output directory.
    pub path: String,
}

/// The fields every crate job shares, for the build-script runner and
/// the compile-job synthesizer alike.
pub struct CrateJobCommon {
    /// Raw compiler flags accumulated so far.
    pub rustc_flags: Vec<String>,
    /// Cfgs accumulated so far.
    pub cfgs: Vec<String>,
    /// Linker arguments accumulated so far.
    pub link_args: Vec<String>,
    /// The manifest path, relative to the source root.
    pub manifest_path: String,
    /// The package version string.
    pub version: String,
    /// The declared authors, already joined with `:`.
    pub authors: Option<String>,
    /// The package name.
    pub pname: String,
    /// The declared description.
    pub description: Option<String>,
    /// The declared homepage.
    pub homepage: Option<String>,
    /// The declared repository.
    pub repository: Option<String>,
    /// The declared license.
    pub license: Option<String>,
    /// The declared license file, relative to the source root.
    pub license_file: Option<String>,
    /// The declared minimum toolchain version.
    pub rust_version: Option<String>,
    /// The declared readme, relative to the source root.
    pub readme: Option<String>,
    /// The target triple.
    pub target: String,
    /// The enabled features.
    pub features: Vec<String>,
    /// Every feature the package declares.
    pub all_features: Vec<String>,
    /// The crate symbol name (separators normalized).
    pub crate_name: String,
    /// The language edition, as the compiler spells it.
    pub edition: String,
    /// The normal-dependency closure's direct edges.
    pub deps: Vec<ResolvedDep>,
    /// The links token, if declared.
    pub links: Option<String>,
    /// Whether to optimize.
    pub optimize: bool,
    /// Whether to keep debug info.
    pub debuginfo: bool,
}

/// The string held in an optional field, or nothing.
pub open spec fn opt_str(v: Option<String>) -> Seq<char> {
    match v {
        Some(x) => x@,
        None => Seq::<char>::empty(),
    }
}

/// An optional path joined below `base`, or nothing.
pub open spec fn opt_join(base: Seq<char>, v: Option<String>) -> Seq<char> {
    match v {
        Some(x) => spec_path_join(base, x@),
        None => Seq::<char>::empty(),
    }
}

/// The package-metadata environment of one crate: what the upstream
/// toolchain promises a build script and a compiler invocation about
/// the package itself. The version must parse and the manifest must
/// have a parent directory.
pub open spec fn spec_metadata_env(c: CrateJobCommon, cargo: Seq<char>, src: Seq<char>) -> Result<
    Seq<(Seq<char>, Seq<char>)>,
    Error,
> {
    match spec_version(c.version@) {
        None => Err(Error::VersionParse),
        Some(v) => {
            let mp = spec_path_join(src, c.manifest_path@);
            match spec_parent(mp) {
                None => Err(Error::ManifestNoParent),
                Some(dir) => Ok(
                    seq![
                        ("CARGO"@, cargo),
                        ("CARGO_MANIFEST_DIR"@, dir),
                        ("CARGO_MANIFEST_PATH"@, mp),
                        ("CARGO_PKG_VERSION"@, c.version@),
                        ("CARGO_PKG_VERSION_MAJOR"@, dec_str(v.0 as nat)),
                        ("CARGO_PKG_VERSION_MINOR"@, dec_str(v.1 as nat)),
                        ("CARGO_PKG_VERSION_PATCH"@, dec_str(v.2 as nat)),
                        ("CARGO_PKG_VERSION_PRE"@, v.3),
                        ("CARGO_PKG_AUTHORS"@, opt_str(c.authors)),
                        ("CARGO_PKG_NAME"@, c.pname@),
                        ("CARGO_PKG_DESCRIPTION"@, opt_str(c.description)),
                        ("CARGO_PKG_HOMEPAGE"@, opt_str(c.homepage)),
                        ("CARGO_PKG_REPOSITORY"@, opt_str(c.repository)),
                        ("CARGO_PKG_LICENSE"@, opt_str(c.license)),
                        ("CARGO_PKG_LICENSE_FILE"@, opt_join(src, c.license_file)),
                        ("CARGO_PKG_RUST_VERSION"@, opt_str(c.rust_version)),
                        ("CARGO_PKG_README"@, opt_join(src, c.readme)),
                        ("CARGO_CRATE_NAME"@, c.crate_name@),
                    ],
                ),
            }
        },
    }
}

impl CrateJobCommon {
    /// Computes the package-metadata environment, as
    /// [`spec_metadata_env`] says.
    pub fn add_metadata_env(&self, cargo: &str, src: &str) -> (r: Result<
        Vec<(String, String)>,
        Error,
    >)
        ensures
            match r {
                Ok(pairs) => spec_metadata_env(*self, cargo@, src@) == Ok::<_, Error>(
                    pair_views(pairs@),
                ),
                Err(e) => spec_metadata_env(*self, cargo@, src@) == Err::<
                    Seq<(Seq<char>, Seq<char>)>,
                    _,
                >(e),
            },
    {
        let version = match Version::parse(self.version.as_str()) {
            Ok(v) => v,
            Err(e) => {
                return Err(e);
            },
        };
        let manifest_path = path_join(src, self.manifest_path.as_str());
        let dir = match path_parent(manifest_path.as_str()) {
            Some(d) => d,
            None => {
                return Err(Error::ManifestNoParent);
            },
        };
        let mut pairs: Vec<(String, String)> = Vec::new();
        pairs.push(("CARGO".to_owned(), cargo.to_owned()));
        pairs.push(("CARGO_MANIFEST_DIR".to_owned(), dir));
        pairs.push(("CARGO_MANIFEST_PATH".to_owned(), manifest_path));
        pairs.push(("CARGO_PKG_VERSION".to_owned(), self.version.clone()));
        pairs.push(("CARGO_PKG_VERSION_MAJOR".to_owned(), u64_to_string(version.major)));
        pairs.push(("CARGO_PKG_VERSION_MINOR".to_owned(), u64_to_string(version.minor)));
        pairs.push(("CARGO_PKG_VERSION_PATCH".to_owned(), u64_to_string(version.patch)));
        pairs.push(("CARGO_PKG_VERSION_PRE".to_owned(), version.pre));
        pairs.push(("CARGO_PKG_AUTHORS".to_owned(), crate::s(&self.authors).to_owned()));
        pairs.push(("CARGO_PKG_NAME".to_owned(), self.pname.clone()));
        pairs.push(("CARGO_PKG_DESCRIPTION".to_owned(), crate::s(&self.description).to_owned()));
        pairs.push(("CARGO_PKG_HOMEPAGE".to_owned(), crate::s(&self.homepage).to_owned()));
        pairs.push(("CARGO_PKG_REPOSITORY".to_owned(), crate::s(&self.repository).to_owned()));
        pairs.push(("CARGO_PKG_LICENSE".to_owned(), crate::s(&self.license).to_owned()));
        pairs.push(("CARGO_PKG_LICENSE_FILE".to_owned(), crate::p(&self.license_file, src)));
        pairs.push(("CARGO_PKG_RUST_VERSION".to_owned(), crate::s(&self.rust_version).to_owned()));
        pairs.push(("CARGO_PKG_README".to_owned(), crate::p(&self.readme, src)));
        pairs.push(("CARGO_CRATE_NAME".to_owned(), self.crate_name.clone()));
        proof {
            assert(pair_views(pairs@) =~= spec_metadata_env(*self, cargo@, src@)->Ok_0);
        }
        Ok(pairs)
    }
}

/// One full compile job: the shared fields plus what only the
/// synthesizer needs.
pub struct CrateJob {
    /// The shared fields.
    pub common: CrateJobCommon,
    /// The crate type tag: `bin`, `lib`, `proc-macro` or `cdylib`.
    pub crate_type: String,
    /// The entry-point source file, relative to the source root.
    pub entrypoint: String,
    /// The build target's own name.
    pub target_name: String,
    /// The directory of the build-script run to merge, if any.
    pub build_script_run: Option<String>,
    /// Metadata taken over from the build script.
    pub metadata: Vec<(String, String)>,
    /// Library search paths accumulated so far; a set.
    pub lib_path: Vec<String>,
    /// Native libraries to link.
    pub link_lib: Vec<String>,
    /// The transitive closure of upstream output directories; a set.
    pub all_deps: Vec<String>,
    /// Check-cfgs taken over from the build script.
    pub check_cfgs: Vec<String>,
    /// Environment overrides for this compilation.
    pub envs: Vec<(String, String)>,
}

impl CrateJob {
    /// Sets behave as sets and maps as maps.
    pub open spec fn wf(&self) -> bool {
        &&& distinct_views(views(self.lib_path@))
        &&& distinct_views(views(self.all_deps@))
        &&& keys_distinct(self.metadata@)
        &&& keys_distinct(self.envs@)
    }

    /// Merges a build-script result into this job: the script's
    /// metadata, search paths, check-cfgs and environment replace the
    /// job's; its flags, cfgs and link arguments are appended, link
    /// arguments routed by crate type (dynamic libraries also get the
    /// cdylib-specific ones, executables the all-binaries ones plus
    /// those for this package's name); and the script's dedicated
    /// output-data directory becomes `OUT_DIR`. The script's native
    /// library names are deliberately left behind in its result
    /// record: the job file already carries the `link_lib` list the
    /// orchestrator assembled for this compilation.
    pub fn with_build_script(&mut self, script: BuildScriptResult)
        requires
            old(self).wf(),
            script.wf(),
            old(self).build_script_run is Some,
        ensures
            final(self).wf(),
            final(self).metadata == script.metadata,
            final(self).lib_path == script.lib_path,
            final(self).check_cfgs == script.check_cfgs,
            views(final(self).common.rustc_flags@) == views(old(self).common.rustc_flags@)
                + views(script.flags@),
            views(final(self).common.cfgs@) == views(old(self).common.cfgs@) + views(
                script.cfgs@,
            ),
            views(final(self).common.link_args@) == views(old(self).common.link_args@) + views(
                script.link_args@,
            ) + (if old(self).crate_type@ == "cdylib"@ {
                views(script.link_args_cdylib@)
            } else if old(self).crate_type@ == "bin"@ {
                views(script.link_args_bins@) + (match gen_lookup(
                    script.link_args_bin@,
                    old(self).common.pname@,
                ) {
                    Some(a) => views(a@),
                    None => Seq::<Seq<char>>::empty(),
                })
            } else {
                Seq::<Seq<char>>::empty()
            }),
            keys_distinct(final(self).envs@),
            lookup(final(self).envs@, "OUT_DIR"@) == Some(
                spec_path_join(old(self).build_script_run->Some_0@, "output"@),
            ),
            forall|q: Seq<char>|
                q != "OUT_DIR"@ ==> lookup(final(self).envs@, q) == lookup(script.envs@, q),
            final(self).common.manifest_path == old(self).common.manifest_path,
            final(self).common.version == old(self).common.version,
            final(self).common.authors == old(self).common.authors,
            final(self).common.pname == old(self).common.pname,
            final(self).common.description == old(self).common.description,
            final(self).common.homepage == old(self).common.homepage,
            final(self).common.repository == old(self).common.repository,
            final(self).common.license == old(self).common.license,
            final(self).common.license_file == old(self).common.license_file,
            final(self).common.rust_version == old(self).common.rust_version,
            final(self).common.readme == old(self).common.readme,
            final(self).common.target == old(self).common.target,
            final(self).common.features == old(self).common.features,
            final(self).common.all_features == old(self).common.all_features,
            final(self).common.crate_name == old(self).common.crate_name,
            final(self).common.edition == old(self).common.edition,
            final(self).common.deps == old(self).common.deps,
            final(self).common.links == old(self).common.links,
            final(self).common.optimize == old(self).common.optimize,
            final(self).common.debuginfo == old(self).common.debuginfo,
            final(self).crate_type == old(self).crate_type,
            final(self).entrypoint == old(self).entrypoint,
            final(self).target_name == old(self).target_name,
            final(self).build_script_run == old(self).build_script_run,
            final(self).link_lib == old(self).link_lib,
            final(self).all_deps == old(self).all_deps,
    {
        let BuildScriptResult {
            metadata,
            link_args,
            link_args_cdylib,
            link_args_bins,
            link_args_bin,
            link_lib: _,
            lib_path,
            flags,
            cfgs,
            check_cfgs,
            envs,
        } = script;
        self.metadata = metadata;
        self.lib_path = lib_path;
        let mut flags = flags;
        let mut cfgs = cfgs;
        let mut link_args = link_args;
        append_strings(&mut self.common.rustc_flags, &mut flags);
        append_strings(&mut self.common.cfgs, &mut cfgs);
        append_strings(&mut self.common.link_args, &mut link_args);
        if str_eq(self.crate_type.as_str(), "cdylib") {
            let mut extra = link_args_cdylib;
            append_strings(&mut self.common.link_args, &mut extra);
        } else if str_eq(self.crate_type.as_str(), "bin") {
            let mut extra = link_args_bins;
            append_strings(&mut self.common.link_args, &mut extra);
            if let Some(mut specific) = take_bin_args(link_args_bin, self.common.pname.as_str()) {
                append_strings(&mut self.common.link_args, &mut specific);
            }
        }
        self.check_cfgs = check_cfgs;
        self.envs = envs;
        let dir = match &self.build_script_run {
            Some(d) => d.clone(),
            None => String::new(),
        };
        let out_dir = path_join(dir.as_str(), "output");
        map_insert(&mut self.envs, "OUT_DIR".to_owned(), out_dir);
    }
}

/// Moves every string of `other` to the end of `v`, in order.
fn append_strings(v: &mut Vec<String>, other: &mut Vec<String>)
    ensures
        final(v)@ == old(v)@ + old(other)@,
        final(other)@.len() == 0,
        views(final(v)@) == views(old(v)@) + views(old(other)@),
{
    v.append(other);
    proof {
        assert(views(v@) =~= views(old(v)@) + views(old(other)@));
    }
}

/// Takes the argument list stored for `name` out of the per-binary
/// map, if one is there.
#[verifier::loop_isolation(false)]
fn take_bin_args(m: Vec<(String, Vec<String>)>, name: &str) -> (r: Option<Vec<String>>)
    requires
        gen_keys_distinct(m@),
    ensures
        match r {
            Some(vals) => gen_lookup(m@, name@) == Some(vals),
            None => gen_lookup(m@, name@) is None,
        },
{
    let mut m = m;
    let ghost m0 = m@;
    let n: usize = m.len();
    let mut i: usize = 0;
    while i < n
        invariant
            n == m@.len(),
            i <= n,
            m@ == m0,
            gen_keys_distinct(m0),
            forall|j: int| 0 <= j < i ==> m0[j].0@ != name@,
        decreases n - i,
    {
        if str_eq(m[i].0.as_str(), name) {
            proof {
                crate::kvmap::lemma_gen_lookup_at(m0, i as int);
            }
            let (_, vals) = m.remove(i);
            return Some(vals);
        }
        i += 1;
    }
    proof {
        crate::kvmap::lemma_gen_lookup_none(m0, name@);
    }
    None
}

/// Splits a search-path variable on `:` and adds each piece to the
/// job's search-path set, in order.
pub fn lib_path_from_env(job: &mut CrateJob, var: Option<String>)
    requires
        old(job).wf(),
    ensures
        final(job).wf(),
        views(final(job).lib_path@) == (match var {
            Some(v) => add_paths_view(views(old(job).lib_path@), split_seq(v@, ':')),
            None => views(old(job).lib_path@),
        }),
        final(job).common == old(job).common,
        final(job).crate_type == old(job).crate_type,
        final(job).entrypoint == old(job).entrypoint,
        final(job).target_name == old(job).target_name,
        final(job).build_script_run == old(job).build_script_run,
        final(job).metadata == old(job).metadata,
        final(job).link_lib == old(job).link_lib,
        final(job).all_deps == old(job).all_deps,
        final(job).check_cfgs == old(job).check_cfgs,
        final(job).envs == old(job).envs,
{
    match var {
        None => {},
        Some(v) => {
            let pieces = split_string(v.as_str(), ':');
            let ghost all = split_seq(v@, ':');
            let mut i: usize = 0;
            proof {
                assert(all.skip(0) =~= all);
            }
            while i < pieces.len()
                invariant
                    views(pieces@) == all,
                    i <= pieces@.len(),
                    job.wf(),
                    job.common == old(job).common,
                    job.crate_type == old(job).crate_type,
                    job.entrypoint == old(job).entrypoint,
                    job.target_name == old(job).target_name,
                    job.build_script_run == old(job).build_script_run,
                    job.metadata == old(job).metadata,
                    job.link_lib == old(job).link_lib,
                    job.all_deps == old(job).all_deps,
                    job.check_cfgs == old(job).check_cfgs,
                    job.envs == old(job).envs,
                    add_paths_view(views(old(job).lib_path@), all) == add_paths_view(
                        views(job.lib_path@),
                        all.skip(i as int),
                    ),
                decreases pieces@.len() - i,
            {
                proof {
                    assert(all.skip(i as int)[0] == all[i as int]);
                    assert(all.skip(i as int).drop_first() =~= all.skip(i + 1 as int));
                    assert(all[i as int] == pieces@[i as int]@);
                }
                set_insert(&mut job.lib_path, pieces[i].clone());
                i += 1;
            }
            proof {
                assert(all.skip(pieces@.len() as int) =~= Seq::<Seq<char>>::empty());
            }
        },
    }
}

/// Adds `x` to a set kept as a sequence, unless it is already there.
pub open spec fn view_set_insert(s: Seq<Seq<char>>, x: Seq<char>) -> Seq<Seq<char>> {
    if s.contains(x) {
        s
    } else {
        s.push(x)
    }
}

/// Adds each path in turn to the set.
pub open spec fn add_paths_view(s: Seq<Seq<char>>, xs: Seq<Seq<char>>) -> Seq<Seq<char>>
    decreases xs.len(),
{
    if xs.len() == 0 {
        s
    } else {
        add_paths_view(view_set_insert(s, xs[0]), xs.drop_first())
    }
}


/// One synthesized compiler invocation: the program, its arguments in
/// order, the environment pairs in application order (later pairs
/// override earlier ones), and the working directory, if one is set.
pub struct CommandPlan {
    /// The compiler binary to run.
    pub program: String,
    /// The arguments, in order.
    pub args: Vec<String>,
    /// The environment pairs, in application order.
    pub envs: Vec<(String, String)>,
    /// The working directory, when the crate type demands one.
    pub cwd: Option<String>,
}

/// `flag item` for each item, in order.
pub open spec fn flag_pairs(flag: Seq<char>, items: Seq<Seq<char>>) -> Seq<Seq<char>>
    decreases items.len(),
{
    if items.len() == 0 {
        Seq::empty()
    } else {
        seq![flag, items[0]] + flag_pairs(flag, items.drop_first())
    }
}

/// `--extern name=artifact` for each direct dependency, in order,
/// binding the declared name to the recorded artifact path.
pub open spec fn extern_args_view(deps: Seq<ResolvedDep>, recs: Seq<RustLibMetadata>) -> Seq<
    Seq<char>,
>
    decreases deps.len(),
{
    if deps.len() == 0 || recs.len() == 0 {
        Seq::empty()
    } else {
        seq!["--extern"@, deps[0].name@ + "="@ + recs[0].lib@] + extern_args_view(
            deps.drop_first(),
            recs.drop_first(),
        )
    }
}

/// The search-path set after every direct dependency's recorded extra
/// search paths have been unioned in.
pub open spec fn lib_path_after(lp: Seq<Seq<char>>, recs: Seq<RustLibMetadata>) -> Seq<Seq<char>>
    decreases recs.len(),
{
    if recs.len() == 0 {
        lp
    } else {
        lib_path_after(add_paths_view(lp, views(recs[0].lib_path@)), recs.drop_first())
    }
}

/// The transitive dependency closure after every direct dependency's
/// own output directory and recorded closure have been unioned in.
pub open spec fn all_deps_after(
    ad: Seq<Seq<char>>,
    deps: Seq<ResolvedDep>,
    recs: Seq<RustLibMetadata>,
) -> Seq<Seq<char>>
    decreases deps.len(),
{
    if deps.len() == 0 || recs.len() == 0 {
        ad
    } else {
        all_deps_after(
            add_paths_view(view_set_insert(ad, deps[0].path@), views(recs[0].deps@)),
            deps.drop_first(),
            recs.drop_first(),
        )
    }
}

/// `-C link-arg=<a>` for each accumulated linker argument.
pub open spec fn link_arg_flags(args: Seq<Seq<char>>) -> Seq<Seq<char>>
    decreases args.len(),
{
    if args.len() == 0 {
        Seq::empty()
    } else {
        seq!["-C"@, "link-arg="@ + args[0]] + link_arg_flags(args.drop_first())
    }
}

/// Each item with `prefix` put in front.
pub open spec fn prefixed(prefix: Seq<char>, items: Seq<Seq<char>>) -> Seq<Seq<char>> {
    items.map_values(|x: Seq<char>| prefix + x)
}

/// `--cfg feature="<f>"` for each enabled feature.
pub open spec fn feature_cfg_args(fs: Seq<Seq<char>>) -> Seq<Seq<char>>
    decreases fs.len(),
{
    if fs.len() == 0 {
        Seq::empty()
    } else {
        seq!["--cfg"@, "feature=\""@ + fs[0] + "\""@] + feature_cfg_args(fs.drop_first())
    }
}

/// The check-cfg value that names every declared feature, so that the
/// compiler rejects undeclared feature names even when never enabled.
pub open spec fn check_features_value(fs: Seq<Seq<char>>) -> Seq<char> {
    "cfg(feature, values("@ + crate::text::join_seqs(
        fs.map_values(|f: Seq<char>| "\""@ + f + "\""@),
        ", "@,
    ) + "))"@
}

/// The debug and optimization tail: full debug info or stripped, and
/// a fixed high optimization level only when asked for.
pub open spec fn tail_flags(optimize: bool, debuginfo: bool) -> Seq<Seq<char>> {
    (if debuginfo {
        seq!["-C"@, "debuginfo=2"@]
    } else {
        seq!["-C"@, "strip=debuginfo"@]
    }) + (if optimize {
        seq!["-C"@, "opt-level=3"@]
    } else {
        Seq::<Seq<char>>::empty()
    })
}

/// The identity flags every invocation starts with.
pub open spec fn identity_args(job: CrateJob, src: Seq<char>) -> Seq<Seq<char>> {
    seq![
        "--crate-name"@,
        job.common.crate_name@,
        "--edition="@ + job.common.edition@,
        spec_path_join(src, job.entrypoint@),
        "--check-cfg"@,
        "cfg(docsrs,test)"@,
        "-C"@,
        "embed-bitcode=no"@,
        "--cap-lints"@,
        "allow"@,
        "--target"@,
        job.common.target@,
        "--emit"@,
        "link"@,
        "--crate-type"@,
        job.crate_type@,
    ]
}

/// Whether a crate type is linked at this step, so that link-time
/// flags belong on its invocation.
pub open spec fn linkable(ct: Seq<char>) -> bool {
    ct == "bin"@ || ct == "cdylib"@ || ct == "proc-macro"@
}

/// The full argument list of one invocation, in required order: the
/// identity flags, the raw flags, the cfgs, the check-cfgs, one extern
/// binding per direct dependency, link arguments and search paths only
/// for linked crate types, native libraries, one dependency search
/// path per member of the transitive closure, the enabled-feature
/// cfgs, the declared-feature check-cfg, and the debug/optimization
/// tail.
pub open spec fn spec_command_args(job: CrateJob, src: Seq<char>, recs: Seq<RustLibMetadata>) -> Seq<
    Seq<char>,
> {
    let lp1 = lib_path_after(views(job.lib_path@), recs);
    let ad1 = all_deps_after(views(job.all_deps@), job.common.deps@, recs);
    identity_args(job, src) + views(job.common.rustc_flags@) + flag_pairs(
        "--cfg"@,
        views(job.common.cfgs@),
    ) + flag_pairs("--check-cfg"@, views(job.check_cfgs@)) + extern_args_view(
        job.common.deps@,
        recs,
    ) + (if linkable(job.crate_type@) {
        link_arg_flags(views(job.common.link_args@)) + flag_pairs("-L"@, lp1)
    } else {
        Seq::<Seq<char>>::empty()
    }) + flag_pairs("-l"@, views(job.link_lib@)) + flag_pairs(
        "-L"@,
        prefixed("dependency="@, ad1),
    ) + feature_cfg_args(views(job.common.features@)) + seq![
        "--check-cfg"@,
        check_features_value(views(job.common.all_features@)),
    ] + tail_flags(job.common.optimize, job.common.debuginfo)
}

/// Appends a clone of every string, in order.
#[verifier::loop_isolation(false)]
fn extend_strings(v: &mut Vec<String>, xs: &Vec<String>)
    ensures
        views(final(v)@) == views(old(v)@) + views(xs@),
{
    let mut i: usize = 0;
    while i < xs.len()
        invariant
            i <= xs@.len(),
            views(v@) == views(old(v)@) + views(xs@).take(i as int),
        decreases xs@.len() - i,
    {
        let ghost prevv = views(v@);
        v.push(xs[i].clone());
        proof {
            assert(views(v@) =~= prevv.push(views(xs@)[i as int]));
            assert((views(old(v)@) + views(xs@).take(i as int)).push(views(xs@)[i as int])
                =~= views(old(v)@) + views(xs@).take(i + 1 as int));
        }
        i += 1;
    }
    proof {
        assert(views(xs@).take(xs@.len() as int) =~= views(xs@));
    }
}

/// Appends `flag item` for each item, as [`flag_pairs`] says.
#[verifier::loop_isolation(false)]
fn push_flag_pairs(args: &mut Vec<String>, flag: &str, items: &Vec<String>)
    ensures
        views(final(args)@) == views(old(args)@) + flag_pairs(flag@, views(items@)),
{
    let ghost goal = views(old(args)@) + flag_pairs(flag@, views(items@));
    let mut i: usize = 0;
    proof {
        assert(views(items@).skip(0) =~= views(items@));
    }
    while i < items.len()
        invariant
            i <= items@.len(),
            goal == views(args@) + flag_pairs(flag@, views(items@).skip(i as int)),
        decreases items@.len() - i,
    {
        args.push(flag.to_owned());
        args.push(items[i].clone());
        proof {
            let rest = views(items@).skip(i as int);
            assert(rest[0] == views(items@)[i as int]);
            assert(rest.drop_first() =~= views(items@).skip(i + 1 as int));
            assert(views(args@) + flag_pairs(flag@, views(items@).skip(i + 1 as int)) =~= (views(
                args@,
            ).subrange(0, views(args@).len() - 2)) + (seq![flag@, rest[0]] + flag_pairs(
                flag@,
                rest.drop_first(),
            )));
        }
        i += 1;
    }
    proof {
        assert(views(items@).skip(items@.len() as int) =~= Seq::<Seq<char>>::empty());
        assert(views(args@) + Seq::<Seq<char>>::empty() =~= views(args@));
    }
}

/// Unions every string into the set, in order.
#[verifier::loop_isolation(false)]
fn set_extend(v: &mut Vec<String>, xs: &Vec<String>)
    requires
        distinct_views(views(old(v)@)),
    ensures
        distinct_views(views(final(v)@)),
        views(final(v)@) == add_paths_view(views(old(v)@), views(xs@)),
{
    let ghost goal = add_paths_view(views(old(v)@), views(xs@));
    let mut i: usize = 0;
    proof {
        assert(views(xs@).skip(0) =~= views(xs@));
    }
    while i < xs.len()
        invariant
            i <= xs@.len(),
            distinct_views(views(v@)),
            goal == add_paths_view(views(v@), views(xs@).skip(i as int)),
        decreases xs@.len() - i,
    {
        proof {
            let rest = views(xs@).skip(i as int);
            assert(rest[0] == views(xs@)[i as int]);
            assert(rest.drop_first() =~= views(xs@).skip(i + 1 as int));
        }
        set_insert(v, xs[i].clone());
        i += 1;
    }
    proof {
        assert(views(xs@).skip(xs@.len() as int) =~= Seq::<Seq<char>>::empty());
    }
}

impl CrateJob {
    /// Synthesizes the shared part of the compiler invocation, as
    /// [`spec_command_args`] says; unions each direct dependency's
    /// recorded search paths and closure into the job's sets on the
    /// way. `dep_records` holds, in order, the record each direct
    /// dependency's own compile left behind.
    #[verifier::loop_isolation(false)]
    #[verifier::rlimit(100)]
    pub fn command_common(&mut self, cargo: &str, rustc: &str, src: &str, dep_records: &Vec<
        RustLibMetadata,
    >) -> (r: Result<CommandPlan, Error>)
        requires
            old(self).wf(),
            dep_records@.len() == old(self).common.deps@.len(),
        ensures
            match r {
                Ok(plan) => {
                    &&& plan.program@ == rustc@
                    &&& spec_metadata_env(old(self).common, cargo@, src@) is Ok
                    &&& pair_views(plan.envs@) == spec_metadata_env(
                        old(self).common,
                        cargo@,
                        src@,
                    )->Ok_0 + pair_views(old(self).envs@)
                    &&& views(plan.args@) == spec_command_args(*old(self), src@, dep_records@)
                    &&& plan.cwd is None
                    &&& views(final(self).lib_path@) == lib_path_after(
                        views(old(self).lib_path@),
                        dep_records@,
                    )
                    &&& views(final(self).all_deps@) == all_deps_after(
                        views(old(self).all_deps@),
                        old(self).common.deps@,
                        dep_records@,
                    )
                    &&& final(self).wf()
                    &&& final(self).common == old(self).common
                    &&& final(self).crate_type == old(self).crate_type
                    &&& final(self).entrypoint == old(self).entrypoint
                    &&& final(self).target_name == old(self).target_name
                    &&& final(self).metadata == old(self).metadata
                    &&& final(self).link_lib == old(self).link_lib
                    &&& final(self).check_cfgs == old(self).check_cfgs
                    &&& final(self).envs == old(self).envs
                },
                Err(e) => spec_metadata_env(old(self).common, cargo@, src@) == Err::<
                    Seq<(Seq<char>, Seq<char>)>,
                    _,
                >(e),
            },
    {
        let menv = match self.common.add_metadata_env(cargo, src) {
            Ok(pairs) => pairs,
            Err(e) => {
                return Err(e);
            },
        };
        let mut envs = menv;
        let mut own_envs: Vec<(String, String)> = Vec::new();
        let mut i: usize = 0;
        while i < self.envs.len()
            invariant
                i <= self.envs@.len(),
                self == old(self),
                pair_views(own_envs@) == pair_views(self.envs@).take(i as int),
            decreases self.envs@.len() - i,
        {
            own_envs.push((self.envs[i].0.clone(), self.envs[i].1.clone()));
            proof {
                assert(pair_views(own_envs@) =~= pair_views(self.envs@).take(i + 1 as int));
            }
            i += 1;
        }
        proof {
            assert(pair_views(self.envs@).take(self.envs@.len() as int) =~= pair_views(
                self.envs@,
            ));
        }
        let mut own_envs = own_envs;
        envs.append(&mut own_envs);
        proof {
            assert(pair_views(envs@) =~= spec_metadata_env(old(self).common, cargo@, src@)->Ok_0
                + pair_views(old(self).envs@));
        }
        let mut args: Vec<String> = Vec::new();
        args.push("--crate-name".to_owned());
        args.push(self.common.crate_name.clone());
        let mut edition_arg = "--edition=".to_owned();
        edition_arg.append(self.common.edition.as_str());
        args.push(edition_arg);
        args.push(path_join(src, self.entrypoint.as_str()));
        args.push("--check-cfg".to_owned());
        args.push("cfg(docsrs,test)".to_owned());
        args.push("-C".to_owned());
        args.push("embed-bitcode=no".to_owned());
        args.push("--cap-lints".to_owned());
        args.push("allow".to_owned());
        args.push("--target".to_owned());
        args.push(self.common.target.clone());
        args.push("--emit".to_owned());
        args.push("link".to_owned());
        args.push("--crate-type".to_owned());
        args.push(self.crate_type.clone());
        proof {
            assert(views(args@) =~= identity_args(*old(self), src@));
        }
        let ghost mut pre: Seq<Seq<char>> = identity_args(*old(self), src@);
        extend_strings(&mut args, &self.common.rustc_flags);
        proof {
            pre = pre + views(old(self).common.rustc_flags@);
            assert(views(args@) == pre);
        }
        push_flag_pairs(&mut args, "--cfg", &self.common.cfgs);
        proof {
            pre = pre + flag_pairs("--cfg"@, views(old(self).common.cfgs@));
            assert(views(args@) == pre);
        }
        push_flag_pairs(&mut args, "--check-cfg", &self.check_cfgs);
        proof {
            pre = pre + flag_pairs("--check-cfg"@, views(old(self).check_cfgs@));
            assert(views(args@) == pre);
        }
        let ghost base_args = views(args@);
        let ghost deps0 = self.common.deps@;
        let ghost recs0 = dep_records@;
        let ghost lp_goal = lib_path_after(views(self.lib_path@), recs0);
        let ghost ad_goal = all_deps_after(views(self.all_deps@), deps0, recs0);
        let ghost args_goal = base_args + extern_args_view(deps0, recs0);
        let n: usize = self.common.deps.len();
        let mut d: usize = 0;
        proof {
            assert(deps0.skip(0) =~= deps0);
            assert(recs0.skip(0) =~= recs0);
        }
        while d < n
            invariant
                d <= n,
                self.common == old(self).common,
                self.crate_type == old(self).crate_type,
                self.entrypoint == old(self).entrypoint,
                self.target_name == old(self).target_name,
                self.build_script_run == old(self).build_script_run,
                self.metadata == old(self).metadata,
                self.link_lib == old(self).link_lib,
                self.check_cfgs == old(self).check_cfgs,
                self.envs == old(self).envs,
                distinct_views(views(self.lib_path@)),
                distinct_views(views(self.all_deps@)),
                args_goal == views(args@) + extern_args_view(
                    deps0.skip(d as int),
                    recs0.skip(d as int),
                ),
                lp_goal == lib_path_after(views(self.lib_path@), recs0.skip(d as int)),
                ad_goal == all_deps_after(
                    views(self.all_deps@),
                    deps0.skip(d as int),
                    recs0.skip(d as int),
                ),
            decreases n - d,
        {
            proof {
                assert(deps0.skip(d as int)[0] == deps0[d as int]);
                assert(recs0.skip(d as int)[0] == recs0[d as int]);
                assert(deps0.skip(d as int).drop_first() =~= deps0.skip(d + 1 as int));
                assert(recs0.skip(d as int).drop_first() =~= recs0.skip(d + 1 as int));
            }
            let rec = &dep_records[d];
            args.push("--extern".to_owned());
            let mut binding = self.common.deps[d].name.clone();
            binding.append("=");
            binding.append(rec.lib.as_str());
            let ghost bv = binding@;
            args.push(binding);
            proof {
                assert(bv =~= deps0[d as int].name@ + "="@ + recs0[d as int].lib@);
                assert(views(args@) + extern_args_view(
                    deps0.skip(d + 1 as int),
                    recs0.skip(d + 1 as int),
                ) =~= views(args@).subrange(0, views(args@).len() - 2) + (seq![
                    "--extern"@,
                    deps0[d as int].name@ + "="@ + recs0[d as int].lib@,
                ] + extern_args_view(deps0.skip(d + 1 as int), recs0.skip(d + 1 as int))));
            }
            set_extend(&mut self.lib_path, &rec.lib_path);
            set_insert(&mut self.all_deps, self.common.deps[d].path.clone());
            set_extend(&mut self.all_deps, &rec.deps);
            d += 1;
        }
        proof {
            assert(deps0.skip(n as int) =~= Seq::<ResolvedDep>::empty());
            assert(extern_args_view(deps0.skip(n as int), recs0.skip(n as int))
                =~= Seq::<Seq<char>>::empty());
            assert(views(args@) + Seq::<Seq<char>>::empty() =~= views(args@));
            if recs0.len() == n {
                assert(recs0.skip(n as int) =~= Seq::<RustLibMetadata>::empty());
            }
            pre = pre + extern_args_view(deps0, recs0);
            assert(views(args@) == pre);
            assert(views(self.lib_path@) == lib_path_after(views(old(self).lib_path@), recs0));
            assert(views(self.all_deps@) == all_deps_after(
                views(old(self).all_deps@),
                deps0,
                recs0,
            ));
        }
        let is_bin = str_eq(self.crate_type.as_str(), "bin");
        let is_cdylib = str_eq(self.crate_type.as_str(), "cdylib");
        let is_proc_macro = str_eq(self.crate_type.as_str(), "proc-macro");
        if is_bin || is_cdylib || is_proc_macro {
            let mut la: usize = 0;
            let ghost la_goal = views(args@) + link_arg_flags(views(self.common.link_args@));
            proof {
                assert(views(self.common.link_args@).skip(0) =~= views(self.common.link_args@));
            }
            while la < self.common.link_args.len()
                invariant
                    la <= self.common.link_args@.len(),
                    self.common == old(self).common,
                    la_goal == views(args@) + link_arg_flags(
                        views(self.common.link_args@).skip(la as int),
                    ),
                decreases self.common.link_args@.len() - la,
            {
                proof {
                    let rest = views(self.common.link_args@).skip(la as int);
                    assert(rest[0] == views(self.common.link_args@)[la as int]);
                    assert(rest.drop_first() =~= views(self.common.link_args@).skip(
                        la + 1 as int,
                    ));
                }
                args.push("-C".to_owned());
                let mut linkarg = "link-arg=".to_owned();
                linkarg.append(self.common.link_args[la].as_str());
                let ghost lv = linkarg@;
                args.push(linkarg);
                proof {
                    assert(views(args@) + link_arg_flags(
                        views(self.common.link_args@).skip(la + 1 as int),
                    ) =~= views(args@).subrange(0, views(args@).len() - 2) + (seq!["-C"@, lv]
                        + link_arg_flags(views(self.common.link_args@).skip(la + 1 as int))));
                }
                la += 1;
            }
            proof {
                assert(views(self.common.link_args@).skip(self.common.link_args@.len() as int)
                    =~= Seq::<Seq<char>>::empty());
                assert(views(args@) + Seq::<Seq<char>>::empty() =~= views(args@));
            }
            push_flag_pairs(&mut args, "-L", &self.lib_path);
        }
        proof {
            let part = if linkable(old(self).crate_type@) {
                link_arg_flags(views(old(self).common.link_args@)) + flag_pairs(
                    "-L"@,
                    lib_path_after(views(old(self).lib_path@), recs0),
                )
            } else {
                Seq::<Seq<char>>::empty()
            };
            pre = pre + part;
            assert(views(args@) =~= pre);
        }
        push_flag_pairs(&mut args, "-l", &self.link_lib);
        proof {
            pre = pre + flag_pairs("-l"@, views(old(self).link_lib@));
            assert(views(args@) == pre);
        }
        let mut dl: usize = 0;
        let ghost dl_goal = views(args@) + flag_pairs(
            "-L"@,
            prefixed("dependency="@, views(self.all_deps@)),
        );
        proof {
            assert(prefixed("dependency="@, views(self.all_deps@)).skip(0) =~= prefixed(
                "dependency="@,
                views(self.all_deps@),
            ));
        }
        while dl < self.all_deps.len()
            invariant
                dl <= self.all_deps@.len(),
                self.common == old(self).common,
                dl_goal == views(args@) + flag_pairs(
                    "-L"@,
                    prefixed("dependency="@, views(self.all_deps@)).skip(dl as int),
                ),
            decreases self.all_deps@.len() - dl,
        {
            proof {
                let ps = prefixed("dependency="@, views(self.all_deps@));
                assert(ps.skip(dl as int)[0] == ps[dl as int]);
                assert(ps.skip(dl as int).drop_first() =~= ps.skip(dl + 1 as int));
            }
            args.push("-L".to_owned());
            let mut dep_arg = "dependency=".to_owned();
            dep_arg.append(self.all_deps[dl].as_str());
            let ghost dv = dep_arg@;
            args.push(dep_arg);
            proof {
                let ps = prefixed("dependency="@, views(self.all_deps@));
                assert(dv == ps[dl as int]);
                assert(views(args@) + flag_pairs("-L"@, ps.skip(dl + 1 as int)) =~= views(
                    args@,
                ).subrange(0, views(args@).len() - 2) + (seq!["-L"@, ps[dl as int]] + flag_pairs(
                    "-L"@,
                    ps.skip(dl + 1 as int),
                )));
            }
            dl += 1;
        }
        proof {
            assert(prefixed("dependency="@, views(self.all_deps@)).skip(
                self.all_deps@.len() as int,
            ) =~= Seq::<Seq<char>>::empty());
            assert(views(args@) + Seq::<Seq<char>>::empty() =~= views(args@));
            pre = pre + flag_pairs(
                "-L"@,
                prefixed(
                    "dependency="@,
                    all_deps_after(views(old(self).all_deps@), deps0, recs0),
                ),
            );
            assert(views(args@) == pre);
        }
        let mut fc: usize = 0;
        let ghost fc_goal = views(args@) + feature_cfg_args(views(self.common.features@));
        proof {
            assert(views(self.common.features@).skip(0) =~= views(self.common.features@));
        }
        while fc < self.common.features.len()
            invariant
                fc <= self.common.features@.len(),
                self.common == old(self).common,
                fc_goal == views(args@) + feature_cfg_args(
                    views(self.common.features@).skip(fc as int),
                ),
            decreases self.common.features@.len() - fc,
        {
            proof {
                let rest = views(self.common.features@).skip(fc as int);
                assert(rest[0] == views(self.common.features@)[fc as int]);
                assert(rest.drop_first() =~= views(self.common.features@).skip(fc + 1 as int));
            }
            args.push("--cfg".to_owned());
            let mut fcfg = "feature=\"".to_owned();
            fcfg.append(self.common.features[fc].as_str());
            fcfg.append("\"");
            let ghost fv = fcfg@;
            args.push(fcfg);
            proof {
                assert(fv =~= "feature=\""@ + views(self.common.features@)[fc as int] + "\""@);
                assert(views(args@) + feature_cfg_args(
                    views(self.common.features@).skip(fc + 1 as int),
                ) =~= views(args@).subrange(0, views(args@).len() - 2) + (seq!["--cfg"@, fv]
                    + feature_cfg_args(views(self.common.features@).skip(fc + 1 as int))));
            }
            fc += 1;
        }
        proof {
            assert(views(self.common.features@).skip(self.common.features@.len() as int)
                =~= Seq::<Seq<char>>::empty());
            assert(views(args@) + Seq::<Seq<char>>::empty() =~= views(args@));
            pre = pre + feature_cfg_args(views(old(self).common.features@));
            assert(views(args@) == pre);
        }
        args.push("--check-cfg".to_owned());
        let mut quoted: Vec<String> = Vec::new();
        let mut qf: usize = 0;
        let ghost quoted_goal = views(self.common.all_features@).map_values(
            |f: Seq<char>| "\""@ + f + "\""@,
        );
        while qf < self.common.all_features.len()
            invariant
                qf <= self.common.all_features@.len(),
                self.common == old(self).common,
                quoted_goal == views(self.common.all_features@).map_values(
                    |f: Seq<char>| "\""@ + f + "\""@,
                ),
                views(quoted@) == quoted_goal.take(qf as int),
            decreases self.common.all_features@.len() - qf,
        {
            let mut q = "\"".to_owned();
            q.append(self.common.all_features[qf].as_str());
            q.append("\"");
            let ghost qv = q@;
            quoted.push(q);
            proof {
                assert(qv == quoted_goal[qf as int]);
                assert(views(quoted@) =~= quoted_goal.take(qf + 1 as int));
            }
            qf += 1;
        }
        proof {
            assert(quoted_goal.take(self.common.all_features@.len() as int) =~= quoted_goal);
        }
        let joined = crate::text::join_strings(&quoted, ", ");
        let mut check_features = "cfg(feature, values(".to_owned();
        check_features.append(joined.as_str());
        check_features.append("))");
        let ghost cfv = check_features@;
        args.push(check_features);
        proof {
            assert(cfv == check_features_value(views(self.common.all_features@)));
            pre = pre + seq![
                "--check-cfg"@,
                check_features_value(views(old(self).common.all_features@)),
            ];
            assert(views(args@) =~= pre);
        }
        if self.common.debuginfo {
            args.push("-C".to_owned());
            args.push("debuginfo=2".to_owned());
        } else {
            args.push("-C".to_owned());
            args.push("strip=debuginfo".to_owned());
        }
        if self.common.optimize {
            args.push("-C".to_owned());
            args.push("opt-level=3".to_owned());
        }
        proof {
            pre = pre + tail_flags(old(self).common.optimize, old(self).common.debuginfo);
            assert(views(args@) =~= pre);
            assert(views(args@) == spec_command_args(*old(self), src@, dep_records@));
        }
        Ok(CommandPlan { program: rustc.to_owned(), args, envs, cwd: None })
    }
}


/// What a library or proc-macro compile leaves behind besides the
/// artifact: the metadata record and where to write it.
pub struct LibArtifact {
    /// The record downstream jobs read.
    pub record: RustLibMetadata,
    /// Where the record is written, under the job's output directory.
    pub record_path: String,
}

/// The three names of one dynamic library, all resolving to the same
/// content: the fully versioned file the compiler writes, and the
/// major-version and unversioned names linked to it.
pub struct CdylibArtifact {
    /// `lib<name>.so`: the unversioned name.
    pub lib: String,
    /// `lib<name>.so.<major>`: the major-version name.
    pub lib_major: String,
    /// `lib<name>.so.<major>.<minor>.<patch>`: the file itself.
    pub lib_full: String,
}

impl CrateJob {
    /// Places an executable: the job runs in the `bin` subdirectory,
    /// names its output after the target, and tells the binary its
    /// own package name.
    pub fn bin(self, plan: &mut CommandPlan, out: &str)
        ensures
            final(plan).program == old(plan).program,
            views(final(plan).args@) == views(old(plan).args@) + seq!["-o"@, self.target_name@],
            pair_views(final(plan).envs@) == pair_views(old(plan).envs@) + seq![
                ("CARGO_BIN_NAME"@, self.target_name@),
            ],
            final(plan).cwd matches Some(c) && c@ == spec_path_join(out@, "bin"@),
    {
        plan.cwd = Some(path_join(out, "bin"));
        plan.args.push("-o".to_owned());
        plan.args.push(self.target_name.clone());
        plan.envs.push(("CARGO_BIN_NAME".to_owned(), self.target_name));
        proof {
            assert(views(plan.args@) =~= views(old(plan).args@) + seq!["-o"@, self.target_name@]);
            assert(pair_views(plan.envs@) =~= pair_views(old(plan).envs@) + seq![
                ("CARGO_BIN_NAME"@, self.target_name@),
            ]);
        }
    }

    /// Places a plain library: the content hash over (name, version,
    /// enabled features) becomes the compiler's metadata tag and the
    /// artifact's filename suffix, and the metadata record is prepared
    /// for downstream jobs. Metadata without a links token is a
    /// structural error.
    pub fn lib(self, plan: &mut CommandPlan, out: &str) -> (r: Result<LibArtifact, Error>)
        ensures
            ({
                let h = crate::hashing::spec_artifact_hash(
                    self.common.pname@,
                    self.common.version@,
                    views(self.common.features@),
                );
                &&& views(final(plan).args@) == views(old(plan).args@) + seq![
                    "-C"@,
                    "metadata="@ + h,
                    "-C"@,
                    "extra-filename=-"@ + h,
                    "--out-dir"@,
                    out@,
                ]
                &&& final(plan).program == old(plan).program
                &&& final(plan).envs == old(plan).envs
                &&& final(plan).cwd == old(plan).cwd
                &&& match r {
                    Err(e) => e == Error::MetadataWithoutLinks && self.metadata@.len() > 0
                        && self.common.links is None,
                    Ok(a) => {
                        &&& !(self.metadata@.len() > 0 && self.common.links is None)
                        &&& a.record.lib@ == spec_path_join(
                            out@,
                            "lib"@ + self.common.crate_name@ + "-"@ + h + ".rlib"@,
                        )
                        &&& a.record.deps == self.all_deps
                        &&& a.record.metadata == self.metadata
                        &&& a.record.lib_path == self.lib_path
                        &&& a.record.links == self.common.links
                        &&& a.record_path@ == spec_path_join(out@, "rust-lib.toml"@)
                    },
                }
            }),
    {
        let hash = crate::hashing::artifact_hash(
            self.common.pname.as_str(),
            self.common.version.as_str(),
            &self.common.features,
        );
        let mut marg = "metadata=".to_owned();
        marg.append(hash.as_str());
        let mut earg = "extra-filename=-".to_owned();
        earg.append(hash.as_str());
        plan.args.push("-C".to_owned());
        plan.args.push(marg);
        plan.args.push("-C".to_owned());
        plan.args.push(earg);
        plan.args.push("--out-dir".to_owned());
        plan.args.push(out.to_owned());
        proof {
            let h = crate::hashing::spec_artifact_hash(
                self.common.pname@,
                self.common.version@,
                views(self.common.features@),
            );
            assert(views(plan.args@) =~= views(old(plan).args@) + seq![
                "-C"@,
                "metadata="@ + h,
                "-C"@,
                "extra-filename=-"@ + h,
                "--out-dir"@,
                out@,
            ]);
        }
        let mut lib_file = "lib".to_owned();
        lib_file.append(self.common.crate_name.as_str());
        lib_file.append("-");
        lib_file.append(hash.as_str());
        lib_file.append(".rlib");
        let lib_path_full = path_join(out, lib_file.as_str());
        let record_path = path_join(out, "rust-lib.toml");
        if self.metadata.len() > 0 && self.common.links.is_none() {
            return Err(Error::MetadataWithoutLinks);
        }
        Ok(
            LibArtifact {
                record: RustLibMetadata {
                    lib: lib_path_full,
                    deps: self.all_deps,
                    metadata: self.metadata,
                    lib_path: self.lib_path,
                    links: self.common.links,
                },
                record_path,
            },
        )
    }

    /// Places a proc-macro: the same hashing scheme as a plain
    /// library, a dynamically loadable artifact, `proc_macro` bound as
    /// an extern, and a record that carries no closure, no search
    /// paths and no metadata, since the compiler itself loads the
    /// plugin and nothing downstream links or queries it.
    pub fn proc_macro(self, plan: &mut CommandPlan, out: &str) -> (a: LibArtifact)
        ensures
            ({
                let h = crate::hashing::spec_artifact_hash(
                    self.common.pname@,
                    self.common.version@,
                    views(self.common.features@),
                );
                &&& views(final(plan).args@) == views(old(plan).args@) + seq![
                    "-C"@,
                    "metadata="@ + h,
                    "-C"@,
                    "extra-filename=-"@ + h,
                    "--out-dir"@,
                    out@,
                    "--extern"@,
                    "proc_macro"@,
                ]
                &&& final(plan).program == old(plan).program
                &&& final(plan).envs == old(plan).envs
                &&& final(plan).cwd == old(plan).cwd
                &&& a.record.lib@ == spec_path_join(
                    out@,
                    "lib"@ + self.common.crate_name@ + "-"@ + h + ".so"@,
                )
                &&& a.record.deps@.len() == 0
                &&& a.record.metadata@.len() == 0
                &&& a.record.lib_path@.len() == 0
                &&& a.record.links is None
                &&& a.record_path@ == spec_path_join(out@, "rust-lib.toml"@)
            }),
    {
        let hash = crate::hashing::artifact_hash(
            self.common.pname.as_str(),
            self.common.version.as_str(),
            &self.common.features,
        );
        let mut marg = "metadata=".to_owned();
        marg.append(hash.as_str());
        let mut earg = "extra-filename=-".to_owned();
        earg.append(hash.as_str());
        plan.args.push("-C".to_owned());
        plan.args.push(marg);
        plan.args.push("-C".to_owned());
        plan.args.push(earg);
        plan.args.push("--out-dir".to_owned());
        plan.args.push(out.to_owned());
        plan.args.push("--extern".to_owned());
        plan.args.push("proc_macro".to_owned());
        proof {
            let h = crate::hashing::spec_artifact_hash(
                self.common.pname@,
                self.common.version@,
                views(self.common.features@),
            );
            assert(views(plan.args@) =~= views(old(plan).args@) + seq![
                "-C"@,
                "metadata="@ + h,
                "-C"@,
                "extra-filename=-"@ + h,
                "--out-dir"@,
                out@,
                "--extern"@,
                "proc_macro"@,
            ]);
        }
        let mut lib_file = "lib".to_owned();
        lib_file.append(self.common.crate_name.as_str());
        lib_file.append("-");
        lib_file.append(hash.as_str());
        lib_file.append(".so");
        let lib_path_full = path_join(out, lib_file.as_str());
        let record_path = path_join(out, "rust-lib.toml");
        LibArtifact {
            record: RustLibMetadata {
                lib: lib_path_full,
                deps: Vec::new(),
                metadata: Vec::new(),
                lib_path: Vec::new(),
                links: None,
            },
            record_path,
        }
    }

    /// Places a dynamic library: the job runs in the `lib`
    /// subdirectory and writes the fully versioned filename; the
    /// major-version and unversioned names are linked to it, so that
    /// both conventional dynamic-linker resolution and versioned
    /// distribution work from one compilation.
    pub fn cdylib(self, plan: &mut CommandPlan, out: &str) -> (r: Result<CdylibArtifact, Error>)
        ensures
            match r {
                Err(e) => {
                    &&& e == Error::VersionParse
                    &&& spec_version(self.common.version@) is None
                    &&& *final(plan) == *old(plan)
                },
                Ok(a) => {
                    let v = spec_version(self.common.version@)->Some_0;
                    let libdir = spec_path_join(out@, "lib"@);
                    let name = "lib"@ + self.target_name@ + ".so"@;
                    &&& spec_version(self.common.version@) is Some
                    &&& a.lib@ == spec_path_join(libdir, name)
                    &&& a.lib_major@ == spec_path_join(libdir, name + "."@ + dec_str(v.0 as nat))
                    &&& a.lib_full@ == spec_path_join(
                        libdir,
                        name + "."@ + dec_str(v.0 as nat) + "."@ + dec_str(v.1 as nat) + "."@
                            + dec_str(v.2 as nat),
                    )
                    &&& final(plan).cwd matches Some(c) && c@ == libdir
                    &&& views(final(plan).args@) == views(old(plan).args@) + seq!["-o"@, a.lib_full@]
                    &&& final(plan).program == old(plan).program
                    &&& final(plan).envs == old(plan).envs
                },
            },
    {
        let version = match Version::parse(self.common.version.as_str()) {
            Ok(v) => v,
            Err(e) => {
                return Err(e);
            },
        };
        let lib_dir = path_join(out, "lib");
        let mut name = "lib".to_owned();
        name.append(self.target_name.as_str());
        name.append(".so");
        let lib = path_join(lib_dir.as_str(), name.as_str());
        let mut major_name = name.clone();
        major_name.append(".");
        major_name.append(u64_to_string(version.major).as_str());
        let lib_major = path_join(lib_dir.as_str(), major_name.as_str());
        let mut full_name = major_name;
        full_name.append(".");
        full_name.append(u64_to_string(version.minor).as_str());
        full_name.append(".");
        full_name.append(u64_to_string(version.patch).as_str());
        let lib_full = path_join(lib_dir.as_str(), full_name.as_str());
        plan.cwd = Some(lib_dir);
        plan.args.push("-o".to_owned());
        plan.args.push(lib_full.clone());
        proof {
            assert(views(plan.args@) =~= views(old(plan).args@) + seq!["-o"@, lib_full@]);
        }
        Ok(CdylibArtifact { lib, lib_major, lib_full })
    }
}


/// Membership after a union: exactly the old members and the added
/// ones.
pub proof fn lemma_add_paths_contains(s: Seq<Seq<char>>, xs: Seq<Seq<char>>, x: Seq<char>)
    ensures
        add_paths_view(s, xs).contains(x) <==> (s.contains(x) || xs.contains(x)),
    decreases xs.len(),
{
    if xs.len() == 0 {
        assert(!xs.contains(x));
    } else {
        lemma_add_paths_contains(view_set_insert(s, xs[0]), xs.drop_first(), x);
        assert(view_set_insert(s, xs[0]).contains(x) <==> (s.contains(x) || x == xs[0])) by {
            if !s.contains(xs[0]) {
                if s.contains(x) {
                    let w = choose|w: int| 0 <= w < s.len() && s[w] == x;
                    assert(s.push(xs[0])[w] == x);
                }
                if x == xs[0] {
                    assert(s.push(xs[0]).last() == x);
                }
                if s.push(xs[0]).contains(x) {
                    let w = choose|w: int| 0 <= w < s.push(xs[0]).len() && s.push(xs[0])[w] == x;
                    if w < s.len() {
                        assert(s[w] == x);
                    }
                }
            }
        }
        assert(xs.contains(x) <==> (x == xs[0] || xs.drop_first().contains(x))) by {
            if xs.contains(x) {
                let w = choose|w: int| 0 <= w < xs.len() && xs[w] == x;
                if w > 0 {
                    assert(xs.drop_first()[w - 1] == x);
                }
            }
            if xs.drop_first().contains(x) {
                let w = choose|w: int| 0 <= w < xs.drop_first().len() && xs.drop_first()[w] == x;
                assert(xs[w + 1] == x);
            }
        }
    }
}

/// The accumulated closure keeps everything it already holds.
pub proof fn lemma_all_deps_monotone(
    ad: Seq<Seq<char>>,
    deps: Seq<ResolvedDep>,
    recs: Seq<RustLibMetadata>,
    x: Seq<char>,
)
    requires
        ad.contains(x),
    ensures
        all_deps_after(ad, deps, recs).contains(x),
    decreases deps.len(),
{
    if deps.len() == 0 || recs.len() == 0 {
    } else {
        lemma_add_paths_contains(view_set_insert(ad, deps[0].path@), views(recs[0].deps@), x);
        assert(view_set_insert(ad, deps[0].path@).contains(x)) by {
            if !ad.contains(deps[0].path@) {
                let w = choose|w: int| 0 <= w < ad.len() && ad[w] == x;
                assert(ad.push(deps[0].path@)[w] == x);
            }
        }
        lemma_all_deps_monotone(
            add_paths_view(view_set_insert(ad, deps[0].path@), views(recs[0].deps@)),
            deps.drop_first(),
            recs.drop_first(),
            x,
        );
    }
}

/// Transitive closure propagation: whatever any direct dependency's
/// record names, and every direct dependency's own output directory,
/// ends up in the accumulated closure.
pub proof fn lemma_all_deps_closure(
    ad: Seq<Seq<char>>,
    deps: Seq<ResolvedDep>,
    recs: Seq<RustLibMetadata>,
    k: int,
    x: Seq<char>,
)
    requires
        deps.len() == recs.len(),
        0 <= k < deps.len(),
        x == deps[k].path@ || views(recs[k].deps@).contains(x),
    ensures
        all_deps_after(ad, deps, recs).contains(x),
    decreases k,
{
    let ad1 = add_paths_view(view_set_insert(ad, deps[0].path@), views(recs[0].deps@));
    if k == 0 {
        lemma_add_paths_contains(view_set_insert(ad, deps[0].path@), views(recs[0].deps@), x);
        if x == deps[0].path@ {
            assert(view_set_insert(ad, deps[0].path@).contains(x)) by {
                if ad.contains(x) {
                } else {
                    assert(ad.push(x).last() == x);
                }
            }
        }
        lemma_all_deps_monotone(ad1, deps.drop_first(), recs.drop_first(), x);
    } else {
        assert(deps.drop_first()[k - 1] == deps[k]);
        assert(recs.drop_first()[k - 1] == recs[k]);
        lemma_all_deps_closure(ad1, deps.drop_first(), recs.drop_first(), k - 1, x);
    }
}

/// Where each flag pair sits: the flag at every even index, the item
/// behind it.
pub proof fn lemma_flag_pairs_at(flag: Seq<char>, items: Seq<Seq<char>>, i: int)
    requires
        0 <= i < items.len(),
    ensures
        flag_pairs(flag, items).len() == 2 * items.len(),
        flag_pairs(flag, items)[2 * i] == flag,
        flag_pairs(flag, items)[2 * i + 1] == items[i],
    decreases items.len(),
{
    lemma_flag_pairs_len(flag, items);
    if i > 0 {
        lemma_flag_pairs_at(flag, items.drop_first(), i - 1);
        assert(items.drop_first()[i - 1] == items[i]);
    }
}

/// A flag-pair list is twice as long as its items.
pub proof fn lemma_flag_pairs_len(flag: Seq<char>, items: Seq<Seq<char>>)
    ensures
        flag_pairs(flag, items).len() == 2 * items.len(),
    decreases items.len(),
{
    if items.len() > 0 {
        lemma_flag_pairs_len(flag, items.drop_first());
    }
}

/// Transitive search-path propagation at the flag level: the
/// synthesized arguments pass `-L dependency=<dir>` for every
/// directory in any direct dependency's recorded closure, even though
/// no direct edge names it, and for every direct dependency's own
/// output directory.
pub proof fn lemma_search_path_for_closure(
    job: CrateJob,
    src: Seq<char>,
    recs: Seq<RustLibMetadata>,
    k: int,
    x: Seq<char>,
)
    requires
        job.common.deps@.len() == recs.len(),
        0 <= k < recs.len(),
        x == job.common.deps@[k].path@ || views(recs[k].deps@).contains(x),
    ensures
        exists|j: int|
            0 <= j && j + 1 < spec_command_args(job, src, recs).len() && #[trigger] spec_command_args(
                job,
                src,
                recs,
            )[j] == "-L"@ && spec_command_args(job, src, recs)[j + 1] == "dependency="@ + x,
{
    let ad1 = all_deps_after(views(job.all_deps@), job.common.deps@, recs);
    lemma_all_deps_closure(views(job.all_deps@), job.common.deps@, recs, k, x);
    let w = choose|w: int| 0 <= w < ad1.len() && ad1[w] == x;
    let items = prefixed("dependency="@, ad1);
    assert(items[w] == "dependency="@ + x);
    lemma_flag_pairs_at("-L"@, items, w);
    let lp1 = lib_path_after(views(job.lib_path@), recs);
    let pre = identity_args(job, src) + views(job.common.rustc_flags@) + flag_pairs(
        "--cfg"@,
        views(job.common.cfgs@),
    ) + flag_pairs("--check-cfg"@, views(job.check_cfgs@)) + extern_args_view(
        job.common.deps@,
        recs,
    ) + (if linkable(job.crate_type@) {
        link_arg_flags(views(job.common.link_args@)) + flag_pairs("-L"@, lp1)
    } else {
        Seq::<Seq<char>>::empty()
    }) + flag_pairs("-l"@, views(job.link_lib@));
    let fp = flag_pairs("-L"@, items);
    let j = pre.len() + 2 * w;
    assert(spec_command_args(job, src, recs)[j] == fp[2 * w]);
    assert(spec_command_args(job, src, recs)[j + 1] == fp[2 * w + 1]);
}

} // verus!



