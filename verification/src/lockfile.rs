//! The lockfile boundary: vendorable entries with re-rendered
//! checksums, and the vendor directory layout that gives the newest
//! version of each name the plain directory.

use vstd::prelude::*;
use vstd::string::StrSliceExecFns;
use vstd::string::StringExecFns;

use crate::errors::Error;
use crate::hashing::{base64_of, base64_standard, hex_decode, spec_hex_decode};
use crate::text::{lex_lt, matches_at, str_eq, str_lt};

verus! {

/// One package entry of a lockfile.
pub struct LockPackage {
    /// The package name.
    pub name: String,
    /// The version string.
    pub version: String,
    /// The source the package came from, when it is not local.
    pub source: Option<String>,
    /// The registry checksum, in hexadecimal, when the source has one.
    pub checksum: Option<String>,
}

/// One vendored package: where it came from, its checksum rendered
/// for the consuming store, and the directory it unpacks under.
pub struct Vendor {
    /// The package name.
    pub name: String,
    /// The version string.
    pub version: String,
    /// The registry address, without the `registry+` prefix.
    pub registry: String,
    /// The checksum as `sha256-` followed by the base64 of the raw
    /// digest bytes.
    pub checksum: String,
    /// The directory name the package unpacks under.
    pub dir_name: String,
}

/// The `registry+` prefix a registry source carries.
pub open spec fn spec_registry_of(source: Seq<char>) -> Option<Seq<char>> {
    if source.len() >= 9 && source.take(9) == "registry+"@ {
        Some(source.skip(9))
    } else {
        None
    }
}

impl Vendor {
    /// Builds one vendored entry: the hexadecimal checksum is decoded
    /// and re-rendered as `sha256-<base64>`, and the registry address
    /// is read off behind the `registry+` prefix. An entry without a
    /// checksum or source was filtered too early; a checksum that is
    /// no hexadecimal string and a source that names no registry are
    /// refused.
    pub fn from_package(p: &LockPackage, dir_name: String) -> (r: Result<Vendor, Error>)
        ensures
            match r {
                Ok(v) => {
                    &&& p.checksum matches Some(cs) && (spec_hex_decode(cs@) matches Some(raw)
                        && v.checksum@ == "sha256-"@ + base64_of(raw))
                    &&& p.source matches Some(so) && (spec_registry_of(so@) matches Some(reg)
                        && v.registry@ == reg)
                    &&& v.name == p.name
                    &&& v.version == p.version
                    &&& v.dir_name == dir_name
                },
                Err(e) => {
                    ||| (e == Error::AlreadyFiltered && (p.checksum is None || (
                    p.checksum matches Some(cs) && spec_hex_decode(cs@) is Some
                        && p.source is None)))
                    ||| (e == Error::ChecksumNotHex && (p.checksum matches Some(cs)
                        && spec_hex_decode(cs@) is None))
                    ||| (e == Error::RegistryPrefixMissing && (p.checksum matches Some(cs)
                        && spec_hex_decode(cs@) is Some) && (p.source matches Some(so)
                        && spec_registry_of(so@) is None))
                },
            },
    {
        let cs = match &p.checksum {
            Some(cs) => cs,
            None => {
                return Err(Error::AlreadyFiltered);
            },
        };
        let raw = match hex_decode(cs.as_str()) {
            Some(raw) => raw,
            None => {
                return Err(Error::ChecksumNotHex);
            },
        };
        let mut checksum = "sha256-".to_owned();
        checksum.append(base64_standard(&raw).as_str());
        let so = match &p.source {
            Some(so) => so,
            None => {
                return Err(Error::AlreadyFiltered);
            },
        };
        let sn: usize = so.as_str().unicode_len();
        if sn < 9 {
            return Err(Error::RegistryPrefixMissing);
        }
        proof {
            reveal_strlit("registry+");
        }
        if !matches_at(so.as_str(), "registry+", 0) {
            proof {
                assert(so@.subrange(0, 9) =~= so@.take(9));
            }
            return Err(Error::RegistryPrefixMissing);
        }
        let registry = so.as_str().substring_char(9, sn).to_owned();
        proof {
            assert(so@.subrange(0, 9) =~= so@.take(9));
            assert(registry@ =~= so@.skip(9));
        }
        Ok(
            Vendor {
                name: p.name.clone(),
                version: p.version.clone(),
                registry,
                checksum,
                dir_name,
            },
        )
    }
}

/// Whether a lockfile entry names a vendorable package: it has a
/// source and a checksum.
pub open spec fn eligible(p: LockPackage) -> bool {
    p.source is Some && p.checksum is Some
}

/// Whether a later entry repeats this entry's name and version; the
/// later one wins.
pub open spec fn later_dup(all: Seq<LockPackage>, i: int) -> bool {
    exists|j: int|
        i < j < all.len() && eligible(#[trigger] all[j]) && all[j].name@ == all[i].name@
            && all[j].version@ == all[i].version@
}

/// Whether no eligible entry of the same name has a strictly greater
/// version (in lexicographic order): the entry that unpacks under the
/// plain package name.
pub open spec fn is_top(all: Seq<LockPackage>, i: int) -> bool {
    forall|j: int|
        0 <= j < all.len() && eligible(#[trigger] all[j]) && all[j].name@ == all[i].name@
            ==> !lex_lt(all[i].version@, all[j].version@)
}

/// The directory one entry unpacks under: the plain package name for
/// the newest version of a name, `name-version` for every older one.
pub open spec fn spec_dir_name(all: Seq<LockPackage>, i: int) -> Seq<char> {
    if is_top(all, i) {
        all[i].name@
    } else {
        all[i].name@ + "-"@ + all[i].version@
    }
}

/// The key one entry is filed under: always `name-version`.
pub open spec fn spec_key(p: LockPackage) -> Seq<char> {
    p.name@ + "-"@ + p.version@
}

/// Whether one output slot matches one lockfile entry.
pub open spec fn vendor_matches(all: Seq<LockPackage>, i: int, key: String, v: Vendor) -> bool {
    &&& key@ == spec_key(all[i])
    &&& v.name@ == all[i].name@
    &&& v.version@ == all[i].version@
    &&& (all[i].checksum matches Some(cs) && (spec_hex_decode(cs@) matches Some(raw)
        && v.checksum@ == "sha256-"@ + base64_of(raw)))
    &&& (all[i].source matches Some(so) && (spec_registry_of(so@) matches Some(reg)
        && v.registry@ == reg))
    &&& v.dir_name@ == spec_dir_name(all, i)
}

/// Whether one lockfile entry survives the filter: eligible and not
/// superseded by a later duplicate.
pub open spec fn surviving(all: Seq<LockPackage>, i: int) -> bool {
    eligible(all[i]) && !later_dup(all, i)
}

/// What is wrong with one entry's recorded origin, if anything: a
/// checksum that is no hexadecimal string, or, the checksum decoding,
/// a source that names no registry.
pub open spec fn entry_malformed(p: LockPackage) -> Option<Error> {
    match (p.checksum, p.source) {
        (Some(cs), Some(so)) => if spec_hex_decode(cs@) is None {
            Some(Error::ChecksumNotHex)
        } else if spec_registry_of(so@) is None {
            Some(Error::RegistryPrefixMissing)
        } else {
            None
        },
        _ => None,
    }
}

/// The entries that survive the filter, in order: eligible and not
/// superseded by a later duplicate.
pub open spec fn kept_indexes(all: Seq<LockPackage>, i: int) -> Seq<int>
    decreases all.len() - i when 0 <= i <= all.len()
{
    if i >= all.len() {
        Seq::empty()
    } else if eligible(all[i]) && !later_dup(all, i) {
        seq![i] + kept_indexes(all, i + 1)
    } else {
        kept_indexes(all, i + 1)
    }
}

/// Builds the vendor map of a lockfile: one entry per surviving
/// package, keyed `name-version`, the newest version of each name
/// unpacking under the plain name. Fails if and only if some
/// surviving entry's checksum is no hexadecimal string or its source
/// names no registry, with that entry's own error: a well-formed
/// lockfile is always given its map.
#[verifier::loop_isolation(false)]
pub fn prepare_vendor_map(packages: &Vec<LockPackage>) -> (r: Result<Vec<(String, Vendor)>, Error>)
    ensures
        match r {
            Ok(out) => {
                &&& out@.len() == kept_indexes(packages@, 0).len()
                &&& (forall|k: int|
                    0 <= k < out@.len() ==> vendor_matches(
                        packages@,
                        kept_indexes(packages@, 0)[k],
                        (#[trigger] out@[k]).0,
                        out@[k].1,
                    ))
                &&& (forall|i: int|
                    0 <= i < packages@.len() && surviving(packages@, i) ==> entry_malformed(
                        #[trigger] packages@[i],
                    ) is None)
            },
            Err(e) => exists|i: int|
                0 <= i < packages@.len() && surviving(packages@, i) && entry_malformed(
                    #[trigger] packages@[i],
                ) == Some(e),
        },
{
    let n: usize = packages.len();
    let mut out: Vec<(String, Vendor)> = Vec::new();
    let mut i: usize = 0;
    proof {
        assert(kept_indexes(packages@, 0).take(0) =~= Seq::<int>::empty());
    }
    while i < n
        invariant
            n == packages@.len(),
            i <= n,
            kept_indexes(packages@, 0) == kept_indexes(packages@, 0).take(
                kept_prefix_len(packages@, i as int),
            ) + kept_indexes(packages@, i as int),
            out@.len() == kept_prefix_len(packages@, i as int),
            forall|k: int|
                0 <= k < out@.len() ==> vendor_matches(
                    packages@,
                    kept_indexes(packages@, 0)[k],
                    (#[trigger] out@[k]).0,
                    out@[k].1,
                ),
            forall|j: int|
                0 <= j < i && surviving(packages@, j) ==> entry_malformed(
                    #[trigger] packages@[j],
                ) is None,
        decreases n - i,
    {
        let p = &packages[i];
        let el = p.source.is_some() && p.checksum.is_some();
        let dup = has_later_dup(packages, i);
        if el && !dup {
            let top = compute_is_top(packages, i);
            let dir_name: String = if top {
                p.name.clone()
            } else {
                let mut d = p.name.clone();
                d.append("-");
                d.append(p.version.as_str());
                d
            };
            let vendor = match Vendor::from_package(p, dir_name) {
                Ok(v) => v,
                Err(e) => {
                    proof {
                        assert(e != Error::AlreadyFiltered);
                        assert(surviving(packages@, i as int));
                        assert(entry_malformed(packages@[i as int]) == Some(e));
                    }
                    return Err(e);
                },
            };
            let mut key = p.name.clone();
            key.append("-");
            key.append(p.version.as_str());
            proof {
                lemma_kept_prefix_step(packages@, i as int);
                assert(kept_indexes(packages@, i as int)[0] == i as int);
                assert(kept_indexes(packages@, 0)[out@.len() as int] == i as int) by {
                    assert(kept_indexes(packages@, 0) == kept_indexes(packages@, 0).take(
                        kept_prefix_len(packages@, i as int),
                    ) + kept_indexes(packages@, i as int));
                }
            }
            out.push((key, vendor));
            proof {
                assert(kept_indexes(packages@, i as int).drop_first() =~= kept_indexes(
                    packages@,
                    i + 1 as int,
                ));
                assert(kept_indexes(packages@, 0).take(kept_prefix_len(packages@, i as int)).push(
                    i as int,
                ) =~= kept_indexes(packages@, 0).take(kept_prefix_len(packages@, i + 1 as int)));
                assert(kept_indexes(packages@, 0) =~= kept_indexes(packages@, 0).take(
                    kept_prefix_len(packages@, i + 1 as int),
                ) + kept_indexes(packages@, i + 1 as int));
            }
        } else {
            proof {
                lemma_kept_prefix_step(packages@, i as int);
                assert(kept_indexes(packages@, i as int) =~= kept_indexes(
                    packages@,
                    i + 1 as int,
                ));
            }
        }
        i += 1;
    }
    proof {
        assert(kept_indexes(packages@, n as int) =~= Seq::<int>::empty());
        assert(kept_indexes(packages@, 0) =~= kept_indexes(packages@, 0).take(
            kept_prefix_len(packages@, n as int),
        ));
        assert(out@.len() == kept_indexes(packages@, 0).len());
    }
    Ok(out)
}

/// How many entries survive before position `i`.
pub open spec fn kept_prefix_len(all: Seq<LockPackage>, i: int) -> int {
    kept_indexes(all, 0).len() - kept_indexes(all, i).len()
}

/// One step of the survivor count.
proof fn lemma_kept_prefix_step(all: Seq<LockPackage>, i: int)
    requires
        0 <= i < all.len(),
    ensures
        kept_indexes(all, i).len() == (if eligible(all[i]) && !later_dup(all, i) {
            1int
        } else {
            0int
        }) + kept_indexes(all, i + 1).len(),
        kept_prefix_len(all, i) >= 0,
        kept_prefix_len(all, i + 1) <= kept_indexes(all, 0).len(),
{
    lemma_kept_suffix(all, 0, i);
    lemma_kept_suffix(all, 0, i + 1);
}

/// A later suffix never keeps more entries.
proof fn lemma_kept_suffix(all: Seq<LockPackage>, i: int, j: int)
    requires
        0 <= i <= j <= all.len(),
    ensures
        kept_indexes(all, i).len() >= kept_indexes(all, j).len(),
    decreases j - i,
{
    if i < j {
        lemma_kept_suffix(all, i + 1, j);
    }
}

/// Whether a later eligible entry repeats entry `i`'s name and
/// version.
#[verifier::loop_isolation(false)]
fn has_later_dup(packages: &Vec<LockPackage>, i: usize) -> (r: bool)
    requires
        i < packages@.len(),
    ensures
        r == later_dup(packages@, i as int),
{
    let n: usize = packages.len();
    let mut j: usize = i + 1;
    while j < n
        invariant
            i < j <= n,
            forall|k: int|
                i < k < j ==> !(eligible(#[trigger] packages@[k]) && packages@[k].name@
                    == packages@[i as int].name@ && packages@[k].version@
                    == packages@[i as int].version@),
        decreases n - j,
    {
        let q = &packages[j];
        if q.source.is_some() && q.checksum.is_some() && str_eq(
            q.name.as_str(),
            packages[i].name.as_str(),
        ) && str_eq(q.version.as_str(), packages[i].version.as_str()) {
            proof {
                assert(eligible(packages@[j as int]));
            }
            return true;
        }
        j += 1;
    }
    false
}

/// Whether no eligible entry of the same name has a strictly greater
/// version.
#[verifier::loop_isolation(false)]
fn compute_is_top(packages: &Vec<LockPackage>, i: usize) -> (r: bool)
    requires
        i < packages@.len(),
    ensures
        r == is_top(packages@, i as int),
{
    let n: usize = packages.len();
    let mut j: usize = 0;
    while j < n
        invariant
            j <= n,
            i < n,
            forall|k: int|
                0 <= k < j ==> !(eligible(#[trigger] packages@[k]) && packages@[k].name@
                    == packages@[i as int].name@ && lex_lt(
                    packages@[i as int].version@,
                    packages@[k].version@,
                )),
        decreases n - j,
    {
        let q = &packages[j];
        if q.source.is_some() && q.checksum.is_some() && str_eq(
            q.name.as_str(),
            packages[i].name.as_str(),
        ) && str_lt(packages[i].version.as_str(), q.version.as_str()) {
            proof {
                assert(eligible(packages@[j as int]));
            }
            return false;
        }
        j += 1;
    }
    true
}

} // verus!
