//! The build-script runner's environment contract: every variable a
//! script is owed, assembled in application order.

use vstd::prelude::*;

use crate::cfg::{cfg_env_pairs, cfg_env_view, entries_view};
use crate::compile::{spec_metadata_env, CrateJobCommon, RustLibMetadata};
use crate::errors::Error;
use crate::kvmap::pair_views;
use crate::paths::spec_parent;
use crate::script::trim_ws;
use crate::text::{env_seq, join_seqs, upper_seq, views};

verus! {

/// The fixed environment every build script starts from: manifest
/// location, package name, output directory, target and host triples,
/// tool paths, and the encoded flag channel. The manifest must have a
/// parent directory.
pub open spec fn spec_base_env(
    info: CrateJobCommon,
    out_dir: Seq<char>,
    host: Seq<char>,
    rustc: Seq<char>,
    rustdoc: Seq<char>,
) -> Result<Seq<(Seq<char>, Seq<char>)>, Error> {
    match spec_parent(info.manifest_path@) {
        None => Err(Error::ManifestNoParent),
        Some(dir) => Ok(
            seq![
                ("CARGO_MAKEFLAGS"@, Seq::<char>::empty()),
                ("CARGO_MANIFEST_PATH"@, info.manifest_path@),
                ("CARGO_MANIFEST_DIR"@, dir),
                ("CARGO_PKG_NAME"@, info.pname@),
                ("OUT_DIR"@, out_dir),
                ("TARGET"@, info.target@),
                ("HOST"@, trim_ws(host)),
                ("NUM_JOBS"@, "1"@),
                ("RUSTC"@, rustc),
                ("RUSTDOC"@, rustdoc),
                ("CARGO_ENCODED_RUSTFLAGS"@, join_seqs(views(info.rustc_flags@), "\x1f"@)),
            ],
        ),
    }
}

/// The links declaration, when the package carries one.
pub open spec fn links_pairs(links: Option<String>) -> Seq<(Seq<char>, Seq<char>)> {
    match links {
        Some(l) => seq![("CARGO_MANIFEST_LINKS"@, l@)],
        None => Seq::empty(),
    }
}

/// The profile part: a fixed high level and a release profile when
/// optimizing, and the debug flag as declared.
pub open spec fn profile_pairs(optimize: bool, debuginfo: bool) -> Seq<(Seq<char>, Seq<char>)> {
    (if optimize {
        seq![("OPT_LEVEL"@, "3"@), ("PROFILE"@, "release"@)]
    } else {
        seq![("OPT_LEVEL"@, "1"@), ("PROFILE"@, "debug"@)]
    }) + seq![
        ("DEBUG"@, if debuginfo {
            "true"@
        } else {
            "false"@
        }),
    ]
}

/// One `CARGO_FEATURE_<NAME>` flag per enabled feature.
pub open spec fn feature_env_view(fs: Seq<Seq<char>>) -> Seq<(Seq<char>, Seq<char>)> {
    fs.map_values(|f: Seq<char>| ("CARGO_FEATURE_"@ + env_seq(f), "1"@))
}

/// Renders the enabled features into environment pairs, as
/// [`feature_env_view`] says.
#[verifier::loop_isolation(false)]
pub fn feature_env_pairs(features: &Vec<String>) -> (r: Vec<(String, String)>)
    ensures
        pair_views(r@) == feature_env_view(views(features@)),
{
    let mut r: Vec<(String, String)> = Vec::new();
    let mut i: usize = 0;
    proof {
        assert(pair_views(r@) =~= feature_env_view(views(features@)).take(0));
    }
    while i < features.len()
        invariant
            i <= features@.len(),
            pair_views(r@) == feature_env_view(views(features@)).take(i as int),
        decreases features@.len() - i,
    {
        let mut name = "CARGO_FEATURE_".to_owned();
        name.append(crate::text::env_mangle(features[i].as_str()).as_str());
        let ghost nv = name@;
        r.push((name, "1".to_owned()));
        proof {
            assert(pair_views(r@) =~= feature_env_view(views(features@)).take(i as int).push(
                (nv, "1"@),
            ));
            assert(feature_env_view(views(features@)).take(i + 1 as int) =~= feature_env_view(
                views(features@),
            ).take(i as int).push((nv, "1"@)));
        }
        i += 1;
    }
    proof {
        assert(feature_env_view(views(features@)).take(features@.len() as int)
            =~= feature_env_view(views(features@)));
    }
    r
}

/// The `DEP_<LINKS>_<KEY>` pairs one dependency record contributes.
pub open spec fn md_pairs(links: Seq<char>, md: Seq<(String, String)>) -> Seq<
    (Seq<char>, Seq<char>),
>
    decreases md.len(),
{
    if md.len() == 0 {
        Seq::empty()
    } else {
        seq![("DEP_"@ + upper_seq(links) + "_"@ + upper_seq(md[0].0@), md[0].1@)] + md_pairs(
            links,
            md.drop_first(),
        )
    }
}

/// The metadata environment all build-time dependencies contribute:
/// one `DEP_<LINKS>_<KEY>` pair per exposed key. A dependency that
/// exposes metadata without declaring a links token is a structural
/// violation and fails the whole run.
pub open spec fn spec_dep_env(recs: Seq<RustLibMetadata>) -> Option<Seq<(Seq<char>, Seq<char>)>>
    decreases recs.len(),
{
    if recs.len() == 0 {
        Some(Seq::empty())
    } else if recs[0].metadata@.len() > 0 && recs[0].links is None {
        None
    } else {
        let head = match recs[0].links {
            Some(l) => md_pairs(l@, recs[0].metadata@),
            None => Seq::empty(),
        };
        match spec_dep_env(recs.drop_first()) {
            None => None,
            Some(rest) => Some(head + rest),
        }
    }
}

/// Renders the dependency metadata environment, as [`spec_dep_env`]
/// says; fails if and only if some dependency exposes metadata
/// without a links token.
#[verifier::loop_isolation(false)]
pub fn dep_metadata_env(recs: &Vec<RustLibMetadata>) -> (r: Result<Vec<(String, String)>, Error>)
    ensures
        match r {
            Ok(pairs) => spec_dep_env(recs@) == Some(pair_views(pairs@)),
            Err(e) => e == Error::DepLinksMissing && spec_dep_env(recs@) is None,
        },
{
    let mut out: Vec<(String, String)> = Vec::new();
    let ghost rs = recs@;
    let ghost goal = spec_dep_env(rs);
    let mut i: usize = 0;
    proof {
        assert(rs.skip(0) =~= rs);
        assert(pair_views(out@) =~= Seq::<(Seq<char>, Seq<char>)>::empty());
    }
    while i < recs.len()
        invariant
            i <= rs.len(),
            (match spec_dep_env(rs.skip(i as int)) {
                None => goal is None,
                Some(rest) => goal == Some(pair_views(out@) + rest),
            }),
        decreases rs.len() - i,
    {
        proof {
            assert(rs.skip(i as int)[0] == rs[i as int]);
            assert(rs.skip(i as int).drop_first() =~= rs.skip(i + 1 as int));
        }
        let rec = &recs[i];
        match &rec.links {
            None => {
                if rec.metadata.len() > 0 {
                    proof {
                        assert(spec_dep_env(rs.skip(i as int)) is None);
                    }
                    return Err(Error::DepLinksMissing);
                }
            },
            Some(links) => {
                let up_links = crate::text::upper_ascii(links.as_str());
                let ghost md = rec.metadata@;
                let ghost base = pair_views(out@);
                let mut k: usize = 0;
                proof {
                    assert(md.skip(0) =~= md);
                    assert(base + md_pairs(links@, md) =~= pair_views(out@) + md_pairs(
                        links@,
                        md.skip(0),
                    ));
                }
                while k < rec.metadata.len()
                    invariant
                        k <= md.len(),
                        md == rec.metadata@,
                        up_links@ == upper_seq(links@),
                        base + md_pairs(links@, md) == pair_views(out@) + md_pairs(
                            links@,
                            md.skip(k as int),
                        ),
                    decreases md.len() - k,
                {
                    proof {
                        assert(md.skip(k as int)[0] == md[k as int]);
                        assert(md.skip(k as int).drop_first() =~= md.skip(k + 1 as int));
                    }
                    let mut name = "DEP_".to_owned();
                    name.append(up_links.as_str());
                    name.append("_");
                    name.append(crate::text::upper_ascii(rec.metadata[k].0.as_str()).as_str());
                    let ghost nv = name@;
                    let ghost prev = pair_views(out@);
                    out.push((name, rec.metadata[k].1.clone()));
                    proof {
                        assert(nv =~= "DEP_"@ + upper_seq(links@) + "_"@ + upper_seq(
                            md[k as int].0@,
                        ));
                        assert(pair_views(out@) =~= prev.push((nv, md[k as int].1@)));
                        assert(prev.push((nv, md[k as int].1@)) + md_pairs(
                            links@,
                            md.skip(k + 1 as int),
                        ) =~= prev + (seq![(nv, md[k as int].1@)] + md_pairs(
                            links@,
                            md.skip(k + 1 as int),
                        )));
                    }
                    k += 1;
                }
                proof {
                    assert(md.skip(md.len() as int) =~= Seq::<(String, String)>::empty());
                    assert(pair_views(out@) + Seq::<(Seq<char>, Seq<char>)>::empty() =~= pair_views(
                        out@,
                    ));
                    assert(pair_views(out@) =~= base + md_pairs(links@, md));
                }
            },
        }
        i += 1;
    }
    proof {
        assert(rs.skip(rs.len() as int) =~= Seq::<RustLibMetadata>::empty());
        assert(pair_views(out@) + Seq::<(Seq<char>, Seq<char>)>::empty() =~= pair_views(out@));
    }
    Ok(out)
}


/// Moves every pair of `other` to the end of `v`, in order.
fn append_pairs(v: &mut Vec<(String, String)>, other: &mut Vec<(String, String)>)
    ensures
        pair_views(final(v)@) == pair_views(old(v)@) + pair_views(old(other)@),
{
    v.append(other);
    proof {
        assert(pair_views(v@) =~= pair_views(old(v)@) + pair_views(old(other)@));
    }
}

/// Assembles the whole environment one build-script run sees, in
/// application order (later pairs override earlier ones): the fixed
/// base, the package-metadata environment, the links declaration, the
/// profile, one variable per resolved cfg name, one flag per enabled
/// feature, and the build-time dependencies' metadata. Fails when the
/// manifest has no parent directory, the version does not parse, or a
/// dependency exposes metadata without a links token.
#[verifier::rlimit(60)]
pub fn build_script_env(
    info: &CrateJobCommon,
    cargo: &str,
    rustc: &str,
    rustdoc: &str,
    src: &str,
    out_dir: &str,
    host: &str,
    cfg_entries: &Vec<(String, Vec<String>)>,
    dep_records: &Vec<RustLibMetadata>,
) -> (r: Result<Vec<(String, String)>, Error>)
    ensures
        match r {
            Ok(pairs) => {
                &&& spec_base_env(*info, out_dir@, host@, rustc@, rustdoc@) is Ok
                &&& spec_metadata_env(*info, cargo@, src@) is Ok
                &&& spec_dep_env(dep_records@) is Some
                &&& pair_views(pairs@) == spec_base_env(
                    *info,
                    out_dir@,
                    host@,
                    rustc@,
                    rustdoc@,
                )->Ok_0 + spec_metadata_env(*info, cargo@, src@)->Ok_0 + links_pairs(info.links)
                    + profile_pairs(info.optimize, info.debuginfo) + cfg_env_view(
                    entries_view(cfg_entries@),
                ) + feature_env_view(views(info.features@)) + spec_dep_env(
                    dep_records@,
                )->Some_0
            },
            Err(e) => {
                ||| spec_base_env(*info, out_dir@, host@, rustc@, rustdoc@) == Err::<
                    Seq<(Seq<char>, Seq<char>)>,
                    _,
                >(e)
                ||| (spec_base_env(*info, out_dir@, host@, rustc@, rustdoc@) is Ok
                    && spec_metadata_env(*info, cargo@, src@) == Err::<
                    Seq<(Seq<char>, Seq<char>)>,
                    _,
                >(e))
                ||| (spec_base_env(*info, out_dir@, host@, rustc@, rustdoc@) is Ok
                    && spec_metadata_env(*info, cargo@, src@) is Ok && e == Error::DepLinksMissing
                    && spec_dep_env(dep_records@) is None)
            },
        },
{
    let dir = match crate::paths::path_parent(info.manifest_path.as_str()) {
        Some(d) => d,
        None => {
            return Err(Error::ManifestNoParent);
        },
    };
    let mut pairs: Vec<(String, String)> = Vec::new();
    pairs.push(("CARGO_MAKEFLAGS".to_owned(), String::new()));
    pairs.push(("CARGO_MANIFEST_PATH".to_owned(), info.manifest_path.clone()));
    pairs.push(("CARGO_MANIFEST_DIR".to_owned(), dir));
    pairs.push(("CARGO_PKG_NAME".to_owned(), info.pname.clone()));
    pairs.push(("OUT_DIR".to_owned(), out_dir.to_owned()));
    pairs.push(("TARGET".to_owned(), info.target.clone()));
    pairs.push(("HOST".to_owned(), crate::script::trim_str(host)));
    pairs.push(("NUM_JOBS".to_owned(), "1".to_owned()));
    pairs.push(("RUSTC".to_owned(), rustc.to_owned()));
    pairs.push(("RUSTDOC".to_owned(), rustdoc.to_owned()));
    pairs.push(
        ("CARGO_ENCODED_RUSTFLAGS".to_owned(), crate::text::join_strings(
            &info.rustc_flags,
            "\x1f",
        )),
    );
    proof {
        assert(pair_views(pairs@) =~= spec_base_env(
            *info,
            out_dir@,
            host@,
            rustc@,
            rustdoc@,
        )->Ok_0);
    }
    let ghost mut pre: Seq<(Seq<char>, Seq<char>)> = pair_views(pairs@);
    let mut menv = match info.add_metadata_env(cargo, src) {
        Ok(m) => m,
        Err(e) => {
            return Err(e);
        },
    };
    append_pairs(&mut pairs, &mut menv);
    proof {
        pre = pre + spec_metadata_env(*info, cargo@, src@)->Ok_0;
        assert(pair_views(pairs@) == pre);
    }
    match &info.links {
        Some(l) => {
            pairs.push(("CARGO_MANIFEST_LINKS".to_owned(), l.clone()));
        },
        None => {},
    }
    proof {
        pre = pre + links_pairs(info.links);
        assert(pair_views(pairs@) =~= pre);
    }
    if info.optimize {
        pairs.push(("OPT_LEVEL".to_owned(), "3".to_owned()));
        pairs.push(("PROFILE".to_owned(), "release".to_owned()));
    } else {
        pairs.push(("OPT_LEVEL".to_owned(), "1".to_owned()));
        pairs.push(("PROFILE".to_owned(), "debug".to_owned()));
    }
    if info.debuginfo {
        pairs.push(("DEBUG".to_owned(), "true".to_owned()));
    } else {
        pairs.push(("DEBUG".to_owned(), "false".to_owned()));
    }
    proof {
        pre = pre + profile_pairs(info.optimize, info.debuginfo);
        assert(pair_views(pairs@) =~= pre);
    }
    let mut cenv = cfg_env_pairs(cfg_entries);
    append_pairs(&mut pairs, &mut cenv);
    proof {
        pre = pre + cfg_env_view(entries_view(cfg_entries@));
        assert(pair_views(pairs@) == pre);
    }
    let mut fenv = feature_env_pairs(&info.features);
    append_pairs(&mut pairs, &mut fenv);
    proof {
        pre = pre + feature_env_view(views(info.features@));
        assert(pair_views(pairs@) == pre);
    }
    let mut denv = match dep_metadata_env(dep_records) {
        Ok(d) => d,
        Err(e) => {
            return Err(e);
        },
    };
    append_pairs(&mut pairs, &mut denv);
    proof {
        pre = pre + spec_dep_env(dep_records@)->Some_0;
        assert(pair_views(pairs@) == pre);
    }
    Ok(pairs)
}

} // verus!

