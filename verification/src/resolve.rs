//! The metadata resolver: dependency edges partitioned by kind,
//! package records collected with root-relative paths, build targets
//! classified under the resolver's shape rules, and the whole graph
//! turned into schedulable jobs.

use vstd::prelude::*;
use vstd::string::StrSliceExecFns;
use vstd::string::StringExecFns;

use crate::errors::Error;
use crate::paths::{make_relative, spec_make_relative};
use crate::text::{
    contains_str, has_match, join_seqs, join_strings, push_char, replace_seq, replace_string,
    str_eq, views,
};

verus! {

/// What a build target declares itself to be.
#[derive(Clone, Copy, PartialEq, Eq, Structural, Debug)]
pub enum TargetKind {
    /// A build script.
    CustomBuild,
    /// A plain library.
    Lib,
    /// A compiler plugin.
    ProcMacro,
    /// A dynamic library with a foreign interface.
    CDyLib,
    /// An executable.
    Bin,
    /// Anything else (tests, examples, benches, other library shapes).
    Other,
}

/// The output shape a build target asks the compiler for.
#[derive(Clone, Copy, PartialEq, Eq, Structural, Debug)]
pub enum CrateType {
    /// An executable.
    Bin,
    /// A plain library.
    Lib,
    /// A compiler plugin.
    ProcMacro,
    /// A dynamic library with a foreign interface.
    CDyLib,
    /// Anything else.
    Other,
}

/// The kind of one dependency edge.
#[derive(Clone, Copy, PartialEq, Eq, Structural, Debug)]
pub enum DepKind {
    /// Visible to the library and binaries.
    Normal,
    /// Visible only to the build script.
    Build,
    /// Dropped (test, bench, dev).
    Other,
}

/// One declared build target of a package.
pub struct Target {
    /// The target's name.
    pub name: String,
    /// Its declared kinds.
    pub kinds: Vec<TargetKind>,
    /// Its declared crate types.
    pub crate_types: Vec<CrateType>,
    /// Its entry-point source file, absolute or relative.
    pub src_path: String,
}

/// One resolved dependency edge of a graph node.
pub struct NodeDep {
    /// The name the dependency is bound under.
    pub name: String,
    /// The target package's identity string.
    pub pkg: String,
    /// The edge kinds; one edge may carry several.
    pub kinds: Vec<DepKind>,
}

/// One node of the resolved dependency graph.
pub struct Node {
    /// The package's identity string.
    pub id: String,
    /// The features enabled for this resolution.
    pub features: Vec<String>,
    /// The node's direct dependency edges.
    pub deps: Vec<NodeDep>,
}

/// One package of the graph, with its declared metadata and targets.
pub struct Package {
    /// The package's identity string.
    pub id: String,
    /// The package name.
    pub name: String,
    /// The version string.
    pub version: String,
    /// The manifest path, absolute or relative.
    pub manifest_path: String,
    /// The declared authors.
    pub authors: Vec<String>,
    /// The declared description.
    pub description: Option<String>,
    /// The declared homepage.
    pub homepage: Option<String>,
    /// The declared repository.
    pub repository: Option<String>,
    /// The declared license.
    pub license: Option<String>,
    /// The declared license file.
    pub license_file: Option<String>,
    /// The declared readme.
    pub readme: Option<String>,
    /// The declared minimum toolchain version.
    pub rust_version: Option<String>,
    /// The language edition, as the compiler spells it.
    pub edition: String,
    /// Every feature the package declares.
    pub all_features: Vec<String>,
    /// The declared build targets.
    pub targets: Vec<Target>,
    /// Whether the package lives in the main workspace (no source).
    pub main_workspace: bool,
}

/// A package identity after path-independence rewriting: kept as it
/// came, or with the project root replaced by a stable placeholder, so
/// that a locally overridden package never aliases another and its
/// computed identity does not depend on where the sandbox lives.
pub enum PkgId {
    /// The identity as the metadata query produced it.
    Original(String),
    /// The identity with the project root replaced by `source`.
    Modified(String),
}

/// How an identity is rewritten: when the raw identity mentions the
/// project root anywhere, every occurrence is replaced by `source`.
pub open spec fn spec_pkg_id(pkg: Seq<char>, src: Seq<char>) -> Seq<char> {
    if has_match(pkg, src) {
        replace_seq(pkg, src, "source"@)
    } else {
        pkg
    }
}

impl PkgId {
    /// The identity string this key renders as.
    pub open spec fn key_view(&self) -> Seq<char> {
        match self {
            PkgId::Original(s) => s@,
            PkgId::Modified(s) => s@,
        }
    }

    /// Builds the identity key for one package, as [`spec_pkg_id`]
    /// says.
    pub fn new(pkg: &str, src: &str) -> (r: PkgId)
        ensures
            r.key_view() == spec_pkg_id(pkg@, src@),
            r is Modified <==> has_match(pkg@, src@),
    {
        if contains_str(pkg, src) {
            PkgId::Modified(replace_string(pkg, src, "source"))
        } else {
            PkgId::Original(pkg.to_owned())
        }
    }

    /// The identity string itself.
    pub fn as_ref(&self) -> (r: &str)
        ensures
            r@ == self.key_view(),
    {
        match self {
            PkgId::Original(s) => s.as_str(),
            PkgId::Modified(s) => s.as_str(),
        }
    }

    /// A copy of this key.
    pub fn duplicate(&self) -> (r: PkgId)
        ensures
            r.key_view() == self.key_view(),
            r is Modified <==> self is Modified,
    {
        match self {
            PkgId::Original(s) => PkgId::Original(s.clone()),
            PkgId::Modified(s) => PkgId::Modified(s.clone()),
        }
    }
}

/// The crate symbol name of a target: its name with `-` turned into
/// `_`.
pub open spec fn crate_name_seq(s: Seq<char>) -> Seq<char> {
    s.map_values(
        |c: char|
            if c == '-' {
                '_'
            } else {
                c
            },
    )
}

/// Normalizes a target name into a crate symbol name, as
/// [`crate_name_seq`] says.
pub fn make_crate_name(name: &str) -> (r: String)
    ensures
        r@ == crate_name_seq(name@),
{
    let n: usize = name.unicode_len();
    let mut r = String::new();
    let mut i: usize = 0;
    while i < n
        invariant
            n == name@.len(),
            i <= n,
            r@ == crate_name_seq(name@.take(i as int)),
        decreases n - i,
    {
        let c = name.get_char(i);
        let m = if c == '-' {
            '_'
        } else {
            c
        };
        push_char(&mut r, m);
        proof {
            assert(name@.take(i + 1 as int) =~= name@.take(i as int).push(name@[i as int]));
            assert(crate_name_seq(name@.take(i + 1 as int)) =~= crate_name_seq(
                name@.take(i as int),
            ).push(
                if name@[i as int] == '-' {
                    '_'
                } else {
                    name@[i as int]
                },
            ));
        }
        i += 1;
    }
    proof {
        assert(name@.take(n as int) =~= name@);
    }
    r
}

/// One dependency edge as a compile job records it.
pub struct Dep {
    /// The name the dependency is bound under.
    pub name: String,
    /// The target package's rewritten identity.
    pub pkg: PkgId,
}

/// The view of a dependency list: names with identity keys.
pub open spec fn dep_views(v: Seq<Dep>) -> Seq<(Seq<char>, Seq<char>)> {
    v.map_values(|d: Dep| (d.name@, d.pkg.key_view()))
}

/// The normal-kind entries one edge contributes: one per `Normal` in
/// its kind list.
pub open spec fn normal_entries(kinds: Seq<DepKind>, e: (Seq<char>, Seq<char>)) -> Seq<
    (Seq<char>, Seq<char>),
>
    decreases kinds.len(),
{
    if kinds.len() == 0 {
        Seq::empty()
    } else if kinds[0] is Normal {
        seq![e] + normal_entries(kinds.drop_first(), e)
    } else {
        normal_entries(kinds.drop_first(), e)
    }
}

/// The build-kind entries one edge contributes.
pub open spec fn build_entries(kinds: Seq<DepKind>, e: (Seq<char>, Seq<char>)) -> Seq<
    (Seq<char>, Seq<char>),
>
    decreases kinds.len(),
{
    if kinds.len() == 0 {
        Seq::empty()
    } else if kinds[0] is Build {
        seq![e] + build_entries(kinds.drop_first(), e)
    } else {
        build_entries(kinds.drop_first(), e)
    }
}

/// The whole normal partition of a node's edges.
pub open spec fn normal_deps_view(nds: Seq<NodeDep>, src: Seq<char>) -> Seq<
    (Seq<char>, Seq<char>),
>
    decreases nds.len(),
{
    if nds.len() == 0 {
        Seq::empty()
    } else {
        normal_entries(nds[0].kinds@, (nds[0].name@, spec_pkg_id(nds[0].pkg@, src)))
            + normal_deps_view(nds.drop_first(), src)
    }
}

/// The whole build-time partition of a node's edges.
pub open spec fn build_deps_view(nds: Seq<NodeDep>, src: Seq<char>) -> Seq<(Seq<char>, Seq<char>)>
    decreases nds.len(),
{
    if nds.len() == 0 {
        Seq::empty()
    } else {
        build_entries(nds[0].kinds@, (nds[0].name@, spec_pkg_id(nds[0].pkg@, src)))
            + build_deps_view(nds.drop_first(), src)
    }
}

/// Partitions a node's dependency edges by kind: the normal edges,
/// visible to the library and binaries, and the build-time edges,
/// visible only to the build script; test, bench and dev edges are
/// dropped. Identities are rewritten as [`spec_pkg_id`] says.
#[verifier::loop_isolation(false)]
pub fn partition_deps(node: &Node, project_dir: &str) -> (r: (Vec<Dep>, Vec<Dep>))
    ensures
        dep_views(r.0@) == normal_deps_view(node.deps@, project_dir@),
        dep_views(r.1@) == build_deps_view(node.deps@, project_dir@),
{
    let mut normal: Vec<Dep> = Vec::new();
    let mut build: Vec<Dep> = Vec::new();
    let ghost nds = node.deps@;
    let ghost goal_n = normal_deps_view(nds, project_dir@);
    let ghost goal_b = build_deps_view(nds, project_dir@);
    let mut i: usize = 0;
    proof {
        assert(nds.skip(0) =~= nds);
        assert(dep_views(normal@) =~= Seq::<(Seq<char>, Seq<char>)>::empty());
        assert(dep_views(build@) =~= Seq::<(Seq<char>, Seq<char>)>::empty());
    }
    while i < node.deps.len()
        invariant
            i <= nds.len(),
            goal_n == dep_views(normal@) + normal_deps_view(nds.skip(i as int), project_dir@),
            goal_b == dep_views(build@) + build_deps_view(nds.skip(i as int), project_dir@),
        decreases nds.len() - i,
    {
        proof {
            assert(nds.skip(i as int)[0] == nds[i as int]);
            assert(nds.skip(i as int).drop_first() =~= nds.skip(i + 1 as int));
        }
        let nd = &node.deps[i];
        let key = PkgId::new(nd.pkg.as_str(), project_dir);
        let ghost e = (nd.name@, spec_pkg_id(nd.pkg@, project_dir@));
        let ghost kinds = nd.kinds@;
        let ghost base_n = dep_views(normal@);
        let ghost base_b = dep_views(build@);
        let mut k: usize = 0;
        proof {
            assert(kinds.skip(0) =~= kinds);
        }
        while k < nd.kinds.len()
            invariant
                k <= kinds.len(),
                key.key_view() == e.1,
                dep_views(normal@) + normal_entries(kinds.skip(k as int), e) == base_n
                    + normal_entries(kinds, e),
                dep_views(build@) + build_entries(kinds.skip(k as int), e) == base_b
                    + build_entries(kinds, e),
            decreases kinds.len() - k,
        {
            proof {
                assert(kinds.skip(k as int)[0] == kinds[k as int]);
                assert(kinds.skip(k as int).drop_first() =~= kinds.skip(k + 1 as int));
            }
            match nd.kinds[k] {
                DepKind::Normal => {
                    let ghost prev = dep_views(normal@);
                    normal.push(Dep { name: nd.name.clone(), pkg: key.duplicate() });
                    proof {
                        assert(dep_views(normal@) =~= prev.push(e));
                        assert(prev.push(e) + normal_entries(kinds.skip(k + 1 as int), e)
                            =~= prev + (seq![e] + normal_entries(kinds.skip(k + 1 as int), e)));
                    }
                },
                DepKind::Build => {
                    let ghost prev = dep_views(build@);
                    build.push(Dep { name: nd.name.clone(), pkg: key.duplicate() });
                    proof {
                        assert(dep_views(build@) =~= prev.push(e));
                        assert(prev.push(e) + build_entries(kinds.skip(k + 1 as int), e) =~= prev
                            + (seq![e] + build_entries(kinds.skip(k + 1 as int), e)));
                    }
                },
                DepKind::Other => {},
            }
            k += 1;
        }
        proof {
            assert(kinds.skip(kinds.len() as int) =~= Seq::<DepKind>::empty());
            assert(dep_views(normal@) + Seq::<(Seq<char>, Seq<char>)>::empty() =~= dep_views(
                normal@,
            ));
            assert(dep_views(build@) + Seq::<(Seq<char>, Seq<char>)>::empty() =~= dep_views(
                build@,
            ));
            assert(base_n + (normal_entries(kinds, e) + normal_deps_view(
                nds.skip(i + 1 as int),
                project_dir@,
            )) =~= (base_n + normal_entries(kinds, e)) + normal_deps_view(
                nds.skip(i + 1 as int),
                project_dir@,
            ));
            assert(base_b + (build_entries(kinds, e) + build_deps_view(
                nds.skip(i + 1 as int),
                project_dir@,
            )) =~= (base_b + build_entries(kinds, e)) + build_deps_view(
                nds.skip(i + 1 as int),
                project_dir@,
            ));
        }
        i += 1;
    }
    proof {
        assert(nds.skip(nds.len() as int) =~= Seq::<NodeDep>::empty());
        assert(dep_views(normal@) + Seq::<(Seq<char>, Seq<char>)>::empty() =~= dep_views(normal@));
        assert(dep_views(build@) + Seq::<(Seq<char>, Seq<char>)>::empty() =~= dep_views(build@));
    }
    (normal, build)
}


/// The shared metadata record of one resolved package.
pub struct Common {
    /// The manifest path, rewritten relative to a root.
    pub manifest_path: String,
    /// The version string.
    pub version: String,
    /// The authors joined with `:`, or nothing when none are declared.
    pub authors: Option<String>,
    /// The package name.
    pub pname: String,
    /// The declared description.
    pub description: Option<String>,
    /// The declared homepage.
    pub homepage: Option<String>,
    /// The declared repository.
    pub repository: Option<String>,
    /// The declared license.
    pub license: Option<String>,
    /// The declared license file, rewritten relative to a root.
    pub license_file: Option<String>,
    /// The declared minimum toolchain version.
    pub rust_version: Option<String>,
    /// The declared readme, rewritten relative to a root.
    pub readme: Option<String>,
    /// The target triple this resolution was made for.
    pub target: String,
    /// The features enabled for this resolution.
    pub features: Vec<String>,
    /// Every feature the package declares.
    pub all_features: Vec<String>,
    /// The language edition.
    pub edition: String,
    /// Whether the package lives in the main workspace.
    pub main_workspace: bool,
}


/// Every field of a collected record is what the package and node
/// declare: paths rewritten as [`spec_make_relative`] says, authors
/// joined with `:`, the node's enabled features and the package's
/// declared ones taken over.
pub open spec fn common_fields_ok(
    c: Common,
    package: Package,
    node: Node,
    project: Seq<char>,
    vendor: Seq<char>,
    target: Seq<char>,
) -> bool {
    &&& (spec_make_relative(package.manifest_path@, project, vendor) matches Ok(mp)
        && c.manifest_path@ == mp)
    &&& c.version == package.version
    &&& (if package.authors@.len() == 0 {
        c.authors is None
    } else {
        c.authors matches Some(a) && a@ == join_seqs(views(package.authors@), ":"@)
    })
    &&& c.pname == package.name
    &&& c.description == package.description
    &&& c.homepage == package.homepage
    &&& c.repository == package.repository
    &&& c.license == package.license
    &&& (match package.license_file {
        None => c.license_file is None,
        Some(f) => spec_make_relative(f@, project, vendor) matches Ok(lf) && (
        c.license_file matches Some(x) && x@ == lf),
    })
    &&& c.rust_version == package.rust_version
    &&& (match package.readme {
        None => c.readme is None,
        Some(f) => spec_make_relative(f@, project, vendor) matches Ok(rm) && (
        c.readme matches Some(x) && x@ == rm),
    })
    &&& c.target@ == target
    &&& c.features@ == node.features@
    &&& c.all_features@ == package.all_features@
    &&& c.edition == package.edition
    &&& c.main_workspace == package.main_workspace
}

/// The first path of a package that cannot be rewritten below a root:
/// manifest first, then license file, then readme; `None` when all
/// rewrite.
pub open spec fn spec_common_error(package: Package, project: Seq<char>, vendor: Seq<char>) -> Option<
    Error,
> {
    match spec_make_relative(package.manifest_path@, project, vendor) {
        Err(e) => Some(e),
        Ok(_) => match package.license_file {
            Some(f) => match spec_make_relative(f@, project, vendor) {
                Err(e) => Some(e),
                Ok(_) => spec_readme_error(package, project, vendor),
            },
            None => spec_readme_error(package, project, vendor),
        },
    }
}

/// The readme's own rewrite error, if any.
pub open spec fn spec_readme_error(package: Package, project: Seq<char>, vendor: Seq<char>) -> Option<
    Error,
> {
    match package.readme {
        Some(f) => match spec_make_relative(f@, project, vendor) {
            Err(e) => Some(e),
            Ok(_) => None,
        },
        None => None,
    }
}

impl Common {
    /// Collects one package's shared record: paths rewritten as
    /// [`spec_make_relative`] says, authors joined with `:`, the
    /// node's enabled features and the package's declared ones taken
    /// over. The first path outside both roots fails the resolution,
    /// manifest first, then license file, then readme.
    pub fn from_package(
        package: &Package,
        node: &Node,
        project_dir: &str,
        vendor_dir: &str,
        target: &str,
    ) -> (r: Result<Common, Error>)
        ensures
            match r {
                Ok(c) => common_fields_ok(
                    c,
                    *package,
                    *node,
                    project_dir@,
                    vendor_dir@,
                    target@,
                ),
                Err(e) => spec_common_error(*package, project_dir@, vendor_dir@) == Some(e),
            },
    {
        let manifest_path = match make_relative(
            package.manifest_path.as_str(),
            project_dir,
            vendor_dir,
        ) {
            Ok(p) => p,
            Err(e) => {
                return Err(e);
            },
        };
        let authors: Option<String> = if package.authors.len() == 0 {
            None
        } else {
            Some(join_strings(&package.authors, ":"))
        };
        let license_file: Option<String> = match &package.license_file {
            None => None,
            Some(f) => match make_relative(f.as_str(), project_dir, vendor_dir) {
                Ok(p) => Some(p),
                Err(e) => {
                    return Err(e);
                },
            },
        };
        let readme: Option<String> = match &package.readme {
            None => None,
            Some(f) => match make_relative(f.as_str(), project_dir, vendor_dir) {
                Ok(p) => Some(p),
                Err(e) => {
                    return Err(e);
                },
            },
        };
        Ok(
            Common {
                manifest_path,
                version: package.version.clone(),
                authors,
                pname: package.name.clone(),
                description: clone_opt(&package.description),
                homepage: clone_opt(&package.homepage),
                repository: clone_opt(&package.repository),
                license: clone_opt(&package.license),
                license_file,
                rust_version: clone_opt(&package.rust_version),
                readme,
                target: target.to_owned(),
                features: clone_strings(&node.features),
                all_features: clone_strings(&package.all_features),
                edition: package.edition.clone(),
                main_workspace: package.main_workspace,
            },
        )
    }
}

/// A copy of an optional string.
fn clone_opt(v: &Option<String>) -> (r: Option<String>)
    ensures
        r == *v,
{
    match v {
        Some(s) => Some(s.clone()),
        None => None,
    }
}

/// A copy of a string list.
#[verifier::loop_isolation(false)]
fn clone_strings(v: &Vec<String>) -> (r: Vec<String>)
    ensures
        r@ == v@,
{
    let mut r: Vec<String> = Vec::new();
    let mut i: usize = 0;
    while i < v.len()
        invariant
            i <= v@.len(),
            r@ == v@.take(i as int),
        decreases v@.len() - i,
    {
        r.push(v[i].clone());
        proof {
            assert(v@.take(i + 1 as int) =~= v@.take(i as int).push(v@[i as int]));
        }
        i += 1;
    }
    proof {
        assert(v@.take(v@.len() as int) =~= v@);
        assert(r@ =~= v@);
    }
    r
}

/// A copy of a dependency list, view for view.
#[verifier::loop_isolation(false)]
fn clone_deps(v: &Vec<Dep>) -> (r: Vec<Dep>)
    ensures
        dep_views(r@) == dep_views(v@),
{
    let mut r: Vec<Dep> = Vec::new();
    let mut i: usize = 0;
    proof {
        assert(dep_views(r@) =~= dep_views(v@).take(0));
    }
    while i < v.len()
        invariant
            i <= v@.len(),
            dep_views(r@) == dep_views(v@).take(i as int),
        decreases v@.len() - i,
    {
        r.push(Dep { name: v[i].name.clone(), pkg: v[i].pkg.duplicate() });
        proof {
            assert(dep_views(r@) =~= dep_views(v@).take(i + 1 as int));
        }
        i += 1;
    }
    proof {
        assert(dep_views(v@).take(v@.len() as int) =~= dep_views(v@));
    }
    r
}

/// One compile job of a resolved package.
pub struct CompileJobCommon {
    /// The build target's own name.
    pub target_name: String,
    /// The crate symbol name.
    pub crate_name: String,
    /// The dependency edges this job sees.
    pub deps: Vec<Dep>,
    /// The crate type tag.
    pub crate_type: String,
    /// The entry-point source file, rewritten relative to a root.
    pub entrypoint: String,
}

/// The build-script job of a resolved package: the script's own
/// compile job plus what the main crate's jobs will need from it.
pub struct CompileJobBuildScript {
    /// The main crate's normal dependencies.
    pub main_deps: Vec<Dep>,
    /// The main crate's symbol name.
    pub main_crate_name: String,
    /// The script's own compile job.
    pub common: CompileJobCommon,
}

/// The spec view of one compile job, without its dependency list.
pub struct JobView {
    /// The build target's own name.
    pub target_name: Seq<char>,
    /// The crate symbol name.
    pub crate_name: Seq<char>,
    /// The crate type tag.
    pub crate_type: Seq<char>,
    /// The entry point.
    pub entrypoint: Seq<char>,
}

/// The spec view of a whole classification.
pub struct SplitView {
    /// The build-script job, if one was declared.
    pub build_script: Option<JobView>,
    /// The plain-library or proc-macro job, if one was declared.
    pub rust_lib: Option<JobView>,
    /// The dynamic-library job, if one was declared.
    pub c_lib: Option<JobView>,
    /// The executable jobs.
    pub bins: Seq<JobView>,
}

/// The view of one exec job.
pub open spec fn job_view(j: CompileJobCommon) -> JobView {
    JobView {
        target_name: j.target_name@,
        crate_name: j.crate_name@,
        crate_type: j.crate_type@,
        entrypoint: j.entrypoint@,
    }
}

/// Classification starts with nothing declared.
pub open spec fn empty_split() -> SplitView {
    SplitView { build_script: None, rust_lib: None, c_lib: None, bins: Seq::empty() }
}

/// How one target changes the classification, or fails it: the rules
/// of the resolver. A target named as the build-script entry point
/// must have exactly the custom-build kind and the binary crate type;
/// at most one plain library or proc-macro, at most one dynamic
/// library and at most one build script may be declared; a dynamic
/// library tolerates no plain library or executable beside it, and
/// conversely; every entry point must be rewritable below a root.
/// Targets of other shapes (tests, examples, benches) are dropped.
pub open spec fn spec_classify_one(t: Target, project: Seq<char>, vendor: Seq<char>, acc: SplitView) -> Result<
    SplitView,
    Error,
> {
    if t.name@ == "build-script-build"@ {
        if t.kinds@ != seq![TargetKind::CustomBuild] {
            Err(Error::BuildScriptWrongKind)
        } else if t.crate_types@ != seq![CrateType::Bin] {
            Err(Error::BuildScriptWrongType)
        } else {
            match spec_make_relative(t.src_path@, project, vendor) {
                Err(e) => Err(e),
                Ok(entry) => if acc.build_script is Some {
                    Err(Error::MoreThanOneBuildScript)
                } else {
                    Ok(
                        SplitView {
                            build_script: Some(
                                JobView {
                                    target_name: t.name@,
                                    crate_name: "build_script_build"@,
                                    crate_type: "bin"@,
                                    entrypoint: entry,
                                },
                            ),
                            rust_lib: acc.rust_lib,
                            c_lib: acc.c_lib,
                            bins: acc.bins,
                        },
                    )
                },
            }
        }
    } else if t.kinds@.contains(TargetKind::Lib) && t.crate_types@.contains(CrateType::Lib) {
        if acc.c_lib is Some {
            Err(Error::AlreadyCLib)
        } else {
            match spec_make_relative(t.src_path@, project, vendor) {
                Err(e) => Err(e),
                Ok(entry) => if acc.rust_lib is Some {
                    Err(Error::MoreThanOneLib)
                } else {
                    Ok(
                        SplitView {
                            build_script: acc.build_script,
                            rust_lib: Some(
                                JobView {
                                    target_name: t.name@,
                                    crate_name: crate_name_seq(t.name@),
                                    crate_type: "lib"@,
                                    entrypoint: entry,
                                },
                            ),
                            c_lib: acc.c_lib,
                            bins: acc.bins,
                        },
                    )
                },
            }
        }
    } else if t.kinds@.contains(TargetKind::ProcMacro) && t.crate_types@.contains(
        CrateType::ProcMacro,
    ) {
        if acc.c_lib is Some {
            Err(Error::AlreadyCLib)
        } else {
            match spec_make_relative(t.src_path@, project, vendor) {
                Err(e) => Err(e),
                Ok(entry) => if acc.rust_lib is Some {
                    Err(Error::MoreThanOneLib)
                } else {
                    Ok(
                        SplitView {
                            build_script: acc.build_script,
                            rust_lib: Some(
                                JobView {
                                    target_name: t.name@,
                                    crate_name: crate_name_seq(t.name@),
                                    crate_type: "proc-macro"@,
                                    entrypoint: entry,
                                },
                            ),
                            c_lib: acc.c_lib,
                            bins: acc.bins,
                        },
                    )
                },
            }
        }
    } else if t.kinds@.contains(TargetKind::CDyLib) && t.crate_types@.contains(CrateType::CDyLib) {
        if acc.rust_lib is Some {
            Err(Error::AlreadyRustLib)
        } else if acc.bins.len() > 0 {
            Err(Error::AlreadyBin)
        } else {
            match spec_make_relative(t.src_path@, project, vendor) {
                Err(e) => Err(e),
                Ok(entry) => if acc.c_lib is Some {
                    Err(Error::MoreThanOneCLib)
                } else {
                    Ok(
                        SplitView {
                            build_script: acc.build_script,
                            rust_lib: acc.rust_lib,
                            c_lib: Some(
                                JobView {
                                    target_name: t.name@,
                                    crate_name: crate_name_seq(t.name@),
                                    crate_type: "cdylib"@,
                                    entrypoint: entry,
                                },
                            ),
                            bins: acc.bins,
                        },
                    )
                },
            }
        }
    } else if t.kinds@.contains(TargetKind::Bin) && t.crate_types@.contains(CrateType::Bin) {
        if acc.c_lib is Some {
            Err(Error::AlreadyCLib)
        } else {
            match spec_make_relative(t.src_path@, project, vendor) {
                Err(e) => Err(e),
                Ok(entry) => Ok(
                    SplitView {
                        build_script: acc.build_script,
                        rust_lib: acc.rust_lib,
                        c_lib: acc.c_lib,
                        bins: acc.bins.push(
                            JobView {
                                target_name: t.name@,
                                crate_name: crate_name_seq(t.name@),
                                crate_type: "bin"@,
                                entrypoint: entry,
                            },
                        ),
                    },
                ),
            }
        }
    } else {
        Ok(acc)
    }
}

/// The whole classification: targets are taken in declaration order,
/// each as [`spec_classify_one`] says, and the first violation fails
/// the resolution.
pub open spec fn spec_classify(ts: Seq<Target>, project: Seq<char>, vendor: Seq<char>, acc: SplitView) -> Result<
    SplitView,
    Error,
>
    decreases ts.len(),
{
    if ts.len() == 0 {
        Ok(acc)
    } else {
        match spec_classify_one(ts[0], project, vendor, acc) {
            Err(e) => Err(e),
            Ok(acc2) => spec_classify(ts.drop_first(), project, vendor, acc2),
        }
    }
}

/// The classification a package's targets resolve to.
pub struct TargetSplit {
    /// The build-script job, if one was declared.
    pub build_script: Option<CompileJobBuildScript>,
    /// The plain-library or proc-macro job, if one was declared.
    pub rust_lib: Option<CompileJobCommon>,
    /// The dynamic-library job, if one was declared.
    pub c_lib: Option<CompileJobCommon>,
    /// The executable jobs.
    pub bins: Vec<CompileJobCommon>,
}

/// The view of an exec classification.
pub open spec fn split_view(s: TargetSplit) -> SplitView {
    SplitView {
        build_script: match s.build_script {
            Some(bs) => Some(job_view(bs.common)),
            None => None,
        },
        rust_lib: match s.rust_lib {
            Some(j) => Some(job_view(j)),
            None => None,
        },
        c_lib: match s.c_lib {
            Some(j) => Some(job_view(j)),
            None => None,
        },
        bins: s.bins@.map_values(|j: CompileJobCommon| job_view(j)),
    }
}

/// Whether every job of a classification carries the expected
/// dependency lists: the build script sees the build-time edges and
/// remembers the main crate's normal edges and symbol name; every
/// other job sees the normal edges.
pub open spec fn split_deps_ok(
    s: TargetSplit,
    nviews: Seq<(Seq<char>, Seq<char>)>,
    bviews: Seq<(Seq<char>, Seq<char>)>,
    main_crate: Seq<char>,
) -> bool {
    &&& (match s.build_script {
        Some(bs) => dep_views(bs.common.deps@) == bviews && dep_views(bs.main_deps@) == nviews
            && bs.main_crate_name@ == main_crate,
        None => true,
    })
    &&& (match s.rust_lib {
        Some(j) => dep_views(j.deps@) == nviews,
        None => true,
    })
    &&& (match s.c_lib {
        Some(j) => dep_views(j.deps@) == nviews,
        None => true,
    })
    &&& (forall|i: int|
        0 <= i < s.bins@.len() ==> dep_views(#[trigger] s.bins@[i].deps@) == nviews)
}

/// Classifies a package's declared targets, as [`spec_classify`]
/// says, handing each produced job the dependency lists
/// [`split_deps_ok`] describes.
#[verifier::loop_isolation(false)]
#[verifier::rlimit(100)]
pub fn classify_targets(
    targets: &Vec<Target>,
    pname: &str,
    deps: &Vec<Dep>,
    build_deps: &Vec<Dep>,
    project_dir: &str,
    vendor_dir: &str,
) -> (r: Result<TargetSplit, Error>)
    ensures
        match r {
            Ok(split) => spec_classify(targets@, project_dir@, vendor_dir@, empty_split())
                == Ok::<_, Error>(split_view(split)) && split_deps_ok(
                split,
                dep_views(deps@),
                dep_views(build_deps@),
                crate_name_seq(pname@),
            ),
            Err(e) => spec_classify(targets@, project_dir@, vendor_dir@, empty_split()) == Err::<
                SplitView,
                _,
            >(e),
        },
{
    let mut split = TargetSplit { build_script: None, rust_lib: None, c_lib: None, bins: Vec::new() };
    let ghost ts = targets@;
    let ghost goal = spec_classify(ts, project_dir@, vendor_dir@, empty_split());
    let mut i: usize = 0;
    proof {
        assert(ts.skip(0) =~= ts);
        assert(split_view(split).bins =~= Seq::<JobView>::empty());
        assert(split_view(split) == empty_split());
    }
    while i < targets.len()
        invariant
            i <= ts.len(),
            goal == spec_classify(ts.skip(i as int), project_dir@, vendor_dir@, split_view(split)),
            split_deps_ok(split, dep_views(deps@), dep_views(build_deps@), crate_name_seq(pname@)),
        decreases ts.len() - i,
    {
        proof {
            assert(ts.skip(i as int)[0] == ts[i as int]);
            assert(ts.skip(i as int).drop_first() =~= ts.skip(i + 1 as int));
        }
        let t = &targets[i];
        let ghost acc0 = split_view(split);
        if str_eq(t.name.as_str(), "build-script-build") {
            if !(t.kinds.len() == 1 && t.kinds[0] == TargetKind::CustomBuild) {
                proof {
                    assert(t.kinds@ != seq![TargetKind::CustomBuild]) by {
                        if t.kinds@ == seq![TargetKind::CustomBuild] {
                            assert(t.kinds@.len() == 1);
                            assert(t.kinds@[0] == TargetKind::CustomBuild);
                        }
                    }
                }
                return Err(Error::BuildScriptWrongKind);
            }
            proof {
                assert(t.kinds@ =~= seq![TargetKind::CustomBuild]);
            }
            if !(t.crate_types.len() == 1 && t.crate_types[0] == CrateType::Bin) {
                proof {
                    assert(t.crate_types@ != seq![CrateType::Bin]) by {
                        if t.crate_types@ == seq![CrateType::Bin] {
                            assert(t.crate_types@.len() == 1);
                            assert(t.crate_types@[0] == CrateType::Bin);
                        }
                    }
                }
                return Err(Error::BuildScriptWrongType);
            }
            proof {
                assert(t.crate_types@ =~= seq![CrateType::Bin]);
            }
            let entry = match make_relative(t.src_path.as_str(), project_dir, vendor_dir) {
                Ok(p) => p,
                Err(e) => {
                    return Err(e);
                },
            };
            if split.build_script.is_some() {
                return Err(Error::MoreThanOneBuildScript);
            }
            split.build_script = Some(
                CompileJobBuildScript {
                    main_deps: clone_deps(deps),
                    main_crate_name: make_crate_name(pname),
                    common: CompileJobCommon {
                        target_name: t.name.clone(),
                        crate_name: "build_script_build".to_owned(),
                        deps: clone_deps(build_deps),
                        crate_type: "bin".to_owned(),
                        entrypoint: entry,
                    },
                },
            );
            proof {
                assert(split_view(split) == spec_classify_one(
                    ts[i as int],
                    project_dir@,
                    vendor_dir@,
                    acc0,
                )->Ok_0);
            }
        } else if kinds_contains(&t.kinds, TargetKind::Lib) && types_contains(
            &t.crate_types,
            CrateType::Lib,
        ) {
            if split.c_lib.is_some() {
                return Err(Error::AlreadyCLib);
            }
            let entry = match make_relative(t.src_path.as_str(), project_dir, vendor_dir) {
                Ok(p) => p,
                Err(e) => {
                    return Err(e);
                },
            };
            if split.rust_lib.is_some() {
                return Err(Error::MoreThanOneLib);
            }
            split.rust_lib = Some(
                CompileJobCommon {
                    target_name: t.name.clone(),
                    crate_name: make_crate_name(t.name.as_str()),
                    deps: clone_deps(deps),
                    crate_type: "lib".to_owned(),
                    entrypoint: entry,
                },
            );
            proof {
                assert(split_view(split) == spec_classify_one(
                    ts[i as int],
                    project_dir@,
                    vendor_dir@,
                    acc0,
                )->Ok_0);
            }
        } else if kinds_contains(&t.kinds, TargetKind::ProcMacro) && types_contains(
            &t.crate_types,
            CrateType::ProcMacro,
        ) {
            if split.c_lib.is_some() {
                return Err(Error::AlreadyCLib);
            }
            let entry = match make_relative(t.src_path.as_str(), project_dir, vendor_dir) {
                Ok(p) => p,
                Err(e) => {
                    return Err(e);
                },
            };
            if split.rust_lib.is_some() {
                return Err(Error::MoreThanOneLib);
            }
            split.rust_lib = Some(
                CompileJobCommon {
                    target_name: t.name.clone(),
                    crate_name: make_crate_name(t.name.as_str()),
                    deps: clone_deps(deps),
                    crate_type: "proc-macro".to_owned(),
                    entrypoint: entry,
                },
            );
            proof {
                assert(split_view(split) == spec_classify_one(
                    ts[i as int],
                    project_dir@,
                    vendor_dir@,
                    acc0,
                )->Ok_0);
            }
        } else if kinds_contains(&t.kinds, TargetKind::CDyLib) && types_contains(
            &t.crate_types,
            CrateType::CDyLib,
        ) {
            if split.rust_lib.is_some() {
                return Err(Error::AlreadyRustLib);
            }
            if split.bins.len() > 0 {
                return Err(Error::AlreadyBin);
            }
            let entry = match make_relative(t.src_path.as_str(), project_dir, vendor_dir) {
                Ok(p) => p,
                Err(e) => {
                    return Err(e);
                },
            };
            if split.c_lib.is_some() {
                return Err(Error::MoreThanOneCLib);
            }
            split.c_lib = Some(
                CompileJobCommon {
                    target_name: t.name.clone(),
                    crate_name: make_crate_name(t.name.as_str()),
                    deps: clone_deps(deps),
                    crate_type: "cdylib".to_owned(),
                    entrypoint: entry,
                },
            );
            proof {
                assert(split_view(split) == spec_classify_one(
                    ts[i as int],
                    project_dir@,
                    vendor_dir@,
                    acc0,
                )->Ok_0);
            }
        } else if kinds_contains(&t.kinds, TargetKind::Bin) && types_contains(
            &t.crate_types,
            CrateType::Bin,
        ) {
            if split.c_lib.is_some() {
                return Err(Error::AlreadyCLib);
            }
            let entry = match make_relative(t.src_path.as_str(), project_dir, vendor_dir) {
                Ok(p) => p,
                Err(e) => {
                    return Err(e);
                },
            };
            let ghost prev_bins = split.bins@;
            split.bins.push(
                CompileJobCommon {
                    target_name: t.name.clone(),
                    crate_name: make_crate_name(t.name.as_str()),
                    deps: clone_deps(deps),
                    crate_type: "bin".to_owned(),
                    entrypoint: entry,
                },
            );
            proof {
                assert(split.bins@.map_values(|j: CompileJobCommon| job_view(j))
                    =~= prev_bins.map_values(|j: CompileJobCommon| job_view(j)).push(
                    job_view(split.bins@.last()),
                ));
                assert(split_view(split) == spec_classify_one(
                    ts[i as int],
                    project_dir@,
                    vendor_dir@,
                    acc0,
                )->Ok_0);
                assert(forall|k: int|
                    0 <= k < split.bins@.len() - 1 ==> split.bins@[k] == prev_bins[k]);
            }
        } else {
            proof {
                assert(spec_classify_one(ts[i as int], project_dir@, vendor_dir@, acc0)
                    == Ok::<_, Error>(acc0));
            }
        }
        i += 1;
    }
    proof {
        assert(ts.skip(ts.len() as int) =~= Seq::<Target>::empty());
    }
    Ok(split)
}

/// Whether a kind list holds `k`.
fn kinds_contains(v: &Vec<TargetKind>, k: TargetKind) -> (r: bool)
    ensures
        r == v@.contains(k),
{
    let mut i: usize = 0;
    while i < v.len()
        invariant
            i <= v@.len(),
            forall|j: int| 0 <= j < i ==> v@[j] != k,
        decreases v@.len() - i,
    {
        if v[i] == k {
            proof {
                assert(v@[i as int] == k);
            }
            return true;
        }
        i += 1;
    }
    proof {
        if v@.contains(k) {
            let w = choose|w: int| 0 <= w < v@.len() && v@[w] == k;
        }
    }
    false
}

/// Whether a crate-type list holds `k`.
fn types_contains(v: &Vec<CrateType>, k: CrateType) -> (r: bool)
    ensures
        r == v@.contains(k),
{
    let mut i: usize = 0;
    while i < v.len()
        invariant
            i <= v@.len(),
            forall|j: int| 0 <= j < i ==> v@[j] != k,
        decreases v@.len() - i,
    {
        if v[i] == k {
            proof {
                assert(v@[i as int] == k);
            }
            return true;
        }
        i += 1;
    }
    proof {
        if v@.contains(k) {
            let w = choose|w: int| 0 <= w < v@.len() && v@[w] == k;
        }
    }
    false
}


/// One fully resolved package: the shared record, at most one build
/// script, at most one of a plain library or proc-macro, at most one
/// dynamic library, and the executables.
pub struct ResolvedPackage {
    /// The shared record.
    pub common: Common,
    /// The build-script job, if one was declared.
    pub build_script: Option<CompileJobBuildScript>,
    /// The plain-library or proc-macro job, if one was declared.
    pub rust_lib: Option<CompileJobCommon>,
    /// The dynamic-library job, if one was declared.
    pub c_lib: Option<CompileJobCommon>,
    /// The executable jobs; nothing when none were declared.
    pub bins: Option<Vec<CompileJobCommon>>,
}

/// The classification view of a resolved package.
pub open spec fn resolved_split_view(rp: ResolvedPackage) -> SplitView {
    SplitView {
        build_script: match rp.build_script {
            Some(bs) => Some(job_view(bs.common)),
            None => None,
        },
        rust_lib: match rp.rust_lib {
            Some(j) => Some(job_view(j)),
            None => None,
        },
        c_lib: match rp.c_lib {
            Some(j) => Some(job_view(j)),
            None => None,
        },
        bins: match rp.bins {
            Some(b) => b@.map_values(|j: CompileJobCommon| job_view(j)),
            None => Seq::empty(),
        },
    }
}

/// Whether every job of a resolved package carries the expected
/// dependency lists, as [`split_deps_ok`] says of a classification.
pub open spec fn resolved_deps_ok(
    rp: ResolvedPackage,
    nviews: Seq<(Seq<char>, Seq<char>)>,
    bviews: Seq<(Seq<char>, Seq<char>)>,
    main_crate: Seq<char>,
) -> bool {
    &&& (match rp.build_script {
        Some(bs) => dep_views(bs.common.deps@) == bviews && dep_views(bs.main_deps@) == nviews
            && bs.main_crate_name@ == main_crate,
        None => true,
    })
    &&& (match rp.rust_lib {
        Some(j) => dep_views(j.deps@) == nviews,
        None => true,
    })
    &&& (match rp.c_lib {
        Some(j) => dep_views(j.deps@) == nviews,
        None => true,
    })
    &&& (match rp.bins {
        Some(b) => forall|i: int|
            0 <= i < b@.len() ==> dep_views(#[trigger] b@[i].deps@) == nviews,
        None => true,
    })
}

/// The first structural or path error one package's resolution hits:
/// a path outside both roots (manifest, license file, readme, or a
/// target's entry point) or a shape violation among the targets, in
/// the order the resolution looks at them.
pub open spec fn spec_package_error(package: Package, project: Seq<char>, vendor: Seq<char>) -> Option<
    Error,
> {
    match spec_common_error(package, project, vendor) {
        Some(e) => Some(e),
        None => match spec_classify(package.targets@, project, vendor, empty_split()) {
            Err(e) => Some(e),
            Ok(_) => None,
        },
    }
}

impl ResolvedPackage {
    /// Resolves one graph node into its schedulable jobs: the edges
    /// partitioned by kind, the shared record collected, and the
    /// targets classified. Fails if and only if
    /// [`spec_package_error`] names an error, with exactly that
    /// error.
    pub fn from_package(
        package: &Package,
        node: &Node,
        project_dir: &str,
        vendor_dir: &str,
        target: &str,
    ) -> (r: Result<ResolvedPackage, Error>)
        ensures
            match r {
                Ok(rp) => {
                    &&& spec_package_error(*package, project_dir@, vendor_dir@) is None
                    &&& common_fields_ok(
                        rp.common,
                        *package,
                        *node,
                        project_dir@,
                        vendor_dir@,
                        target@,
                    )
                    &&& spec_classify(package.targets@, project_dir@, vendor_dir@, empty_split())
                        == Ok::<_, Error>(resolved_split_view(rp))
                    &&& resolved_deps_ok(
                        rp,
                        normal_deps_view(node.deps@, project_dir@),
                        build_deps_view(node.deps@, project_dir@),
                        crate_name_seq(package.name@),
                    )
                    &&& (rp.bins matches Some(b) ==> b@.len() > 0)
                },
                Err(e) => spec_package_error(*package, project_dir@, vendor_dir@) == Some(e),
            },
    {
        let (deps, build_deps) = partition_deps(node, project_dir);
        let common = match Common::from_package(package, node, project_dir, vendor_dir, target) {
            Ok(c) => c,
            Err(e) => {
                return Err(e);
            },
        };
        let split = match classify_targets(
            &package.targets,
            package.name.as_str(),
            &deps,
            &build_deps,
            project_dir,
            vendor_dir,
        ) {
            Ok(s) => s,
            Err(e) => {
                return Err(e);
            },
        };
        let TargetSplit { build_script, rust_lib, c_lib, bins } = split;
        let bins_opt: Option<Vec<CompileJobCommon>> = if bins.len() == 0 {
            None
        } else {
            Some(bins)
        };
        let rp = ResolvedPackage { common, build_script, rust_lib, c_lib, bins: bins_opt };
        proof {
            assert(resolved_split_view(rp) == split_view(split)) by {
                if split.bins@.len() == 0 {
                    assert(resolved_split_view(rp).bins =~= split_view(split).bins);
                }
            }
        }
        Ok(rp)
    }
}

/// Two declared plain-library targets never resolve: the second fails
/// the classification with the structural error naming more than one
/// library, whatever else the package declares after it.
pub proof fn lemma_two_libs_refused(ts: Seq<Target>, project: Seq<char>, vendor: Seq<char>)
    requires
        ts.len() >= 2,
        is_plain_lib_target(ts[0]),
        is_plain_lib_target(ts[1]),
        spec_make_relative(ts[0].src_path@, project, vendor) is Ok,
        spec_make_relative(ts[1].src_path@, project, vendor) is Ok,
    ensures
        spec_classify(ts, project, vendor, empty_split()) == Err::<SplitView, _>(
            Error::MoreThanOneLib,
        ),
{
    let acc0 = empty_split();
    let step1 = spec_classify_one(ts[0], project, vendor, acc0);
    assert(step1 is Ok);
    let acc1 = step1->Ok_0;
    assert(acc1.rust_lib is Some);
    assert(acc1.c_lib is None);
    assert(ts.drop_first()[0] == ts[1]);
    assert(spec_classify_one(ts[1], project, vendor, acc1) == Err::<SplitView, _>(
        Error::MoreThanOneLib,
    ));
    assert(spec_classify(ts.drop_first(), project, vendor, acc1) == Err::<SplitView, _>(
        Error::MoreThanOneLib,
    ));
}

/// Once a plain library or proc-macro is classified and no dynamic
/// library is, any later plain-library target fails the whole
/// classification, whatever stands between.
proof fn lemma_second_lib_fails(
    ts: Seq<Target>,
    project: Seq<char>,
    vendor: Seq<char>,
    acc: SplitView,
    j: int,
)
    requires
        acc.rust_lib is Some,
        acc.c_lib is None,
        0 <= j < ts.len(),
        is_plain_lib_target(ts[j]),
        spec_make_relative(ts[j].src_path@, project, vendor) is Ok,
    ensures
        spec_classify(ts, project, vendor, acc) is Err,
    decreases j,
{
    let step = spec_classify_one(ts[0], project, vendor, acc);
    if j == 0 {
        assert(step == Err::<SplitView, Error>(Error::MoreThanOneLib));
    } else {
        match step {
            Err(_) => {},
            Ok(acc2) => {
                assert(acc2.rust_lib is Some && acc2.c_lib is None);
                assert(ts.drop_first()[j - 1] == ts[j]);
                lemma_second_lib_fails(ts.drop_first(), project, vendor, acc2, j - 1);
            },
        }
    }
}

/// Two declared plain-library targets never resolve, wherever they
/// stand among a package's targets and whatever stands between them:
/// the classification fails, at the second library at the latest.
/// Started from [`empty_split`] this is the resolver's own run.
pub proof fn lemma_two_libs_never_resolve(
    ts: Seq<Target>,
    project: Seq<char>,
    vendor: Seq<char>,
    acc: SplitView,
    i: int,
    j: int,
)
    requires
        0 <= i < j < ts.len(),
        is_plain_lib_target(ts[i]),
        is_plain_lib_target(ts[j]),
        spec_make_relative(ts[j].src_path@, project, vendor) is Ok,
    ensures
        spec_classify(ts, project, vendor, acc) is Err,
    decreases i,
{
    let step = spec_classify_one(ts[0], project, vendor, acc);
    match step {
        Err(_) => {},
        Ok(acc2) => {
            assert(ts.drop_first()[j - 1] == ts[j]);
            if i == 0 {
                assert(acc2.rust_lib is Some && acc2.c_lib is None);
                lemma_second_lib_fails(ts.drop_first(), project, vendor, acc2, j - 1);
            } else {
                assert(ts.drop_first()[i - 1] == ts[i]);
                lemma_two_libs_never_resolve(
                    ts.drop_first(),
                    project,
                    vendor,
                    acc2,
                    i - 1,
                    j - 1,
                );
            }
        },
    }
}

/// A target that declares a plain library and nothing that would make
/// it a build script.
pub open spec fn is_plain_lib_target(t: Target) -> bool {
    &&& t.name@ != "build-script-build"@
    &&& t.kinds@.contains(TargetKind::Lib)
    &&& t.crate_types@.contains(CrateType::Lib)
}

/// The resolver's whole output: every package's jobs keyed by
/// rewritten identity, the workspace name index, and the root
/// package's identity, if the graph has one.
pub struct Output {
    /// One resolved package per graph node, in node order.
    pub packages: Vec<(PkgId, ResolvedPackage)>,
    /// Workspace member names with their identities.
    pub workspace: Vec<(String, PkgId)>,
    /// The root package's identity, if the graph has a root.
    pub main_package: Option<PkgId>,
}

/// What holds of one node's resolved package: its shared record
/// collects the package as declared, its jobs are the package's
/// classified targets, and every job carries the node's partitioned
/// edges.
pub open spec fn node_resolved_ok(
    rp: ResolvedPackage,
    pkg: Package,
    node: Node,
    project: Seq<char>,
    vendor: Seq<char>,
    target: Seq<char>,
) -> bool {
    &&& common_fields_ok(rp.common, pkg, node, project, vendor, target)
    &&& spec_classify(pkg.targets@, project, vendor, empty_split()) == Ok::<_, Error>(
        resolved_split_view(rp),
    )
    &&& resolved_deps_ok(
        rp,
        normal_deps_view(node.deps@, project),
        build_deps_view(node.deps@, project),
        crate_name_seq(pkg.name@),
    )
}

/// The first package with the given identity, if any.
pub open spec fn find_package(packages: Seq<Package>, id: Seq<char>) -> Option<Package>
    decreases packages.len(),
{
    if packages.len() == 0 {
        None
    } else if packages[0].id@ == id {
        Some(packages[0])
    } else {
        find_package(packages.drop_first(), id)
    }
}

/// Looks an identity up among the packages.
#[verifier::loop_isolation(false)]
fn lookup_package<'a>(packages: &'a Vec<Package>, id: &str) -> (r: Option<&'a Package>)
    ensures
        match r {
            Some(p) => find_package(packages@, id@) == Some(*p),
            None => find_package(packages@, id@) is None,
        },
{
    let mut i: usize = 0;
    proof {
        assert(packages@.skip(0) =~= packages@);
    }
    while i < packages.len()
        invariant
            i <= packages@.len(),
            find_package(packages@, id@) == find_package(packages@.skip(i as int), id@),
        decreases packages@.len() - i,
    {
        proof {
            assert(packages@.skip(i as int)[0] == packages@[i as int]);
            assert(packages@.skip(i as int).drop_first() =~= packages@.skip(i + 1 as int));
        }
        if str_eq(packages[i].id.as_str(), id) {
            return Some(&packages[i]);
        }
        i += 1;
    }
    proof {
        assert(packages@.skip(packages@.len() as int) =~= Seq::<Package>::empty());
    }
    None
}

/// Resolves the whole graph: one [`ResolvedPackage`] per node, keyed
/// by the rewritten identity; the workspace member names indexed to
/// their identities; and the root's identity carried over. Succeeds
/// if and only if every node and workspace member names a known
/// package and no package's resolution fails.
#[verifier::loop_isolation(false)]
pub fn resolve_graph(
    packages: &Vec<Package>,
    nodes: &Vec<Node>,
    workspace_members: &Vec<String>,
    root: &Option<String>,
    project_dir: &str,
    vendor_dir: &str,
    target: &str,
) -> (r: Result<Output, Error>)
    ensures
        match r {
            Ok(out) => {
                &&& out.packages@.len() == nodes@.len()
                &&& (forall|i: int|
                    0 <= i < nodes@.len() ==> (#[trigger] out.packages@[i].0).key_view()
                        == spec_pkg_id(nodes@[i].id@, project_dir@))
                &&& (forall|i: int|
                    0 <= i < nodes@.len() ==> find_package(packages@, #[trigger] nodes@[i].id@)
                        is Some)
                &&& (forall|i: int|
                    0 <= i < nodes@.len() ==> spec_package_error(
                        find_package(packages@, #[trigger] nodes@[i].id@)->Some_0,
                        project_dir@,
                        vendor_dir@,
                    ) is None)
                &&& (forall|i: int|
                    0 <= i < nodes@.len() ==> node_resolved_ok(
                        (#[trigger] out.packages@[i]).1,
                        find_package(packages@, nodes@[i].id@)->Some_0,
                        nodes@[i],
                        project_dir@,
                        vendor_dir@,
                        target@,
                    ))
                &&& out.workspace@.len() == workspace_members@.len()
                &&& (forall|i: int|
                    0 <= i < workspace_members@.len() ==> (find_package(
                        packages@,
                        #[trigger] workspace_members@[i]@,
                    ) matches Some(p) && (out.workspace@[i].0@ == p.name@
                        && out.workspace@[i].1.key_view() == spec_pkg_id(
                        workspace_members@[i]@,
                        project_dir@,
                    ))))
                &&& (match root {
                    None => out.main_package is None,
                    Some(rt) => out.main_package matches Some(k) && k.key_view() == spec_pkg_id(
                        rt@,
                        project_dir@,
                    ),
                })
            },
            Err(e) => {
                ||| (e == Error::UnknownPackage && ((exists|i: int|
                    0 <= i < nodes@.len() && find_package(packages@, #[trigger] nodes@[i].id@)
                        is None) || (exists|i: int|
                    0 <= i < workspace_members@.len() && find_package(
                        packages@,
                        #[trigger] workspace_members@[i]@,
                    ) is None)))
                ||| (exists|i: int|
                    0 <= i < nodes@.len() && (find_package(packages@, #[trigger] nodes@[i].id@)
                        matches Some(p) && spec_package_error(p, project_dir@, vendor_dir@)
                        == Some(e)))
            },
        },
{
    let mut workspace: Vec<(String, PkgId)> = Vec::new();
    let mut i: usize = 0;
    while i < workspace_members.len()
        invariant
            i <= workspace_members@.len(),
            workspace@.len() == i,
            forall|j: int|
                0 <= j < i ==> (find_package(packages@, #[trigger] workspace_members@[j]@)
                    matches Some(p) && (workspace@[j].0@ == p.name@ && workspace@[j].1.key_view()
                    == spec_pkg_id(workspace_members@[j]@, project_dir@))),
        decreases workspace_members@.len() - i,
    {
        let id = &workspace_members[i];
        match lookup_package(packages, id.as_str()) {
            Some(p) => {
                workspace.push((p.name.clone(), PkgId::new(id.as_str(), project_dir)));
            },
            None => {
                return Err(Error::UnknownPackage);
            },
        }
        i += 1;
    }
    let main_package: Option<PkgId> = match root {
        Some(rt) => Some(PkgId::new(rt.as_str(), project_dir)),
        None => None,
    };
    let mut ready: Vec<(PkgId, ResolvedPackage)> = Vec::new();
    let mut k: usize = 0;
    while k < nodes.len()
        invariant
            k <= nodes@.len(),
            ready@.len() == k,
            forall|j: int|
                0 <= j < i ==> (find_package(packages@, #[trigger] workspace_members@[j]@)
                    matches Some(p) && (workspace@[j].0@ == p.name@ && workspace@[j].1.key_view()
                    == spec_pkg_id(workspace_members@[j]@, project_dir@))),
            forall|j: int|
                0 <= j < k ==> (#[trigger] ready@[j].0).key_view() == spec_pkg_id(
                    nodes@[j].id@,
                    project_dir@,
                ),
            forall|j: int|
                0 <= j < k ==> find_package(packages@, #[trigger] nodes@[j].id@) is Some,
            forall|j: int|
                0 <= j < k ==> spec_package_error(
                    find_package(packages@, #[trigger] nodes@[j].id@)->Some_0,
                    project_dir@,
                    vendor_dir@,
                ) is None,
            forall|j: int|
                0 <= j < k ==> node_resolved_ok(
                    (#[trigger] ready@[j]).1,
                    find_package(packages@, nodes@[j].id@)->Some_0,
                    nodes@[j],
                    project_dir@,
                    vendor_dir@,
                    target@,
                ),
        decreases nodes@.len() - k,
    {
        let node = &nodes[k];
        let package = match lookup_package(packages, node.id.as_str()) {
            Some(p) => p,
            None => {
                return Err(Error::UnknownPackage);
            },
        };
        let rp = match ResolvedPackage::from_package(package, node, project_dir, vendor_dir, target)
            {
            Ok(rp) => rp,
            Err(e) => {
                return Err(e);
            },
        };
        ready.push((PkgId::new(node.id.as_str(), project_dir), rp));
        k += 1;
    }
    Ok(Output { packages: ready, workspace, main_package })
}

} // verus!


