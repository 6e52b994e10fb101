//! The vendor-store boundary: the registry-override configuration
//! text and the checksum of unpacked files.

use vstd::prelude::*;
use vstd::string::StringExecFns;

use crate::hashing::{hex_encode, sha256, sha256_of, spec_hex};
use crate::kvmap::vec_contains_str;
use crate::text::views;

verus! {

/// Keeps the first occurrence of every string, in order.
pub open spec fn dedup_view(s: Seq<Seq<char>>) -> Seq<Seq<char>>
    decreases s.len(),
{
    if s.len() == 0 {
        Seq::empty()
    } else if s.drop_last().contains(s.last()) {
        dedup_view(s.drop_last())
    } else {
        dedup_view(s.drop_last()).push(s.last())
    }
}

/// Deduplication keeps exactly the members.
proof fn lemma_dedup_contains(s: Seq<Seq<char>>, x: Seq<char>)
    ensures
        dedup_view(s).contains(x) <==> s.contains(x),
    decreases s.len(),
{
    if s.len() > 0 {
        lemma_dedup_contains(s.drop_last(), x);
        assert(s.contains(x) <==> (s.drop_last().contains(x) || x == s.last())) by {
            if s.contains(x) {
                let w = choose|w: int| 0 <= w < s.len() && s[w] == x;
                if w < s.len() - 1 {
                    assert(s.drop_last()[w] == x);
                }
            }
            if s.drop_last().contains(x) {
                let w = choose|w: int| 0 <= w < s.drop_last().len() && s.drop_last()[w] == x;
                assert(s[w] == x);
            }
        }
        if !s.drop_last().contains(s.last()) {
            let d = dedup_view(s.drop_last());
            assert(dedup_view(s) == d.push(s.last()));
            assert(d.push(s.last()).contains(x) <==> (d.contains(x) || x == s.last())) by {
                if d.push(s.last()).contains(x) {
                    let w = choose|w: int| 0 <= w < d.push(s.last()).len() && d.push(s.last())[w] == x;
                    if w < d.len() {
                        assert(d[w] == x);
                    }
                }
                if d.contains(x) {
                    let w = choose|w: int| 0 <= w < d.len() && d[w] == x;
                    assert(d.push(s.last())[w] == x);
                }
                if x == s.last() {
                    assert(d.push(s.last()).last() == x);
                }
            }
        }
    }
}

/// The configuration block one registry contributes: the well-known
/// public index is replaced wholesale, any other registry is named,
/// addressed and replaced.
pub open spec fn spec_registry_section(reg: Seq<char>) -> Seq<char> {
    if reg == "https://github.com/rust-lang/crates.io-index"@ {
        "[source.crates-io]\nreplace-with = \"vendored-sources\"\n"@
    } else {
        "[source.\""@ + reg + "\"]\nregistry=\""@ + reg + "\"\nreplace-with=\"vendored-sources\"\n"@
    }
}

/// The blocks of a registry list, in order.
pub open spec fn spec_registry_sections(regs: Seq<Seq<char>>) -> Seq<char>
    decreases regs.len(),
{
    if regs.len() == 0 {
        Seq::empty()
    } else {
        spec_registry_section(regs[0]) + spec_registry_sections(regs.drop_first())
    }
}

/// Sections grow one registry at a time from the right.
proof fn lemma_sections_push(regs: Seq<Seq<char>>, last: Seq<char>)
    ensures
        spec_registry_sections(regs.push(last)) == spec_registry_sections(regs)
            + spec_registry_section(last),
    decreases regs.len(),
{
    if regs.len() == 0 {
        assert(regs.push(last).drop_first() =~= regs);
        assert(spec_registry_sections(regs.push(last)) =~= spec_registry_sections(regs)
            + spec_registry_section(last));
    } else {
        assert(regs.push(last).drop_first() =~= regs.drop_first().push(last));
        lemma_sections_push(regs.drop_first(), last);
        assert(spec_registry_sections(regs.push(last)) =~= spec_registry_sections(regs)
            + spec_registry_section(last));
    }
}

/// The whole vendor configuration: the vendored-sources directory
/// followed by one replacement block per distinct registry, in first
/// occurrence order.
pub open spec fn spec_vendor_config(out: Seq<char>, regs: Seq<Seq<char>>) -> Seq<char> {
    "[source.vendored-sources]\ndirectory=\""@ + out + "\"\n"@ + spec_registry_sections(
        dedup_view(regs),
    )
}

/// Writes the registry-override configuration, as
/// [`spec_vendor_config`] says.
#[verifier::loop_isolation(false)]
pub fn vendor_config(out: &str, registries: &Vec<String>) -> (r: String)
    ensures
        r@ == spec_vendor_config(out@, views(registries@)),
{
    let mut seen: Vec<String> = Vec::new();
    let mut i: usize = 0;
    proof {
        assert(views(registries@).take(0) =~= Seq::<Seq<char>>::empty());
        assert(views(seen@) =~= dedup_view(views(registries@).take(0)));
    }
    while i < registries.len()
        invariant
            i <= registries@.len(),
            views(seen@) == dedup_view(views(registries@).take(i as int)),
        decreases registries@.len() - i,
    {
        proof {
            assert(views(registries@).take(i + 1 as int).drop_last() =~= views(
                registries@,
            ).take(i as int));
            assert(views(registries@).take(i + 1 as int).last() == views(registries@)[i as int]);
        }
        proof {
            lemma_dedup_contains(views(registries@).take(i as int), views(registries@)[i as int]);
        }
        if !vec_contains_str(&seen, registries[i].as_str()) {
            let ghost prev = views(seen@);
            seen.push(registries[i].clone());
            proof {
                assert(views(seen@) =~= prev.push(views(registries@)[i as int]));
            }
        }
        i += 1;
    }
    proof {
        assert(views(registries@).take(registries@.len() as int) =~= views(registries@));
    }
    let mut config = "[source.vendored-sources]\ndirectory=\"".to_owned();
    config.append(out);
    config.append("\"\n");
    let ghost header = config@;
    let ghost dd = views(seen@);
    let mut k: usize = 0;
    proof {
        assert(dd.take(0) =~= Seq::<Seq<char>>::empty());
        assert(config@ =~= header + spec_registry_sections(dd.take(0)));
    }
    while k < seen.len()
        invariant
            k <= seen@.len(),
            dd == views(seen@),
            config@ == header + spec_registry_sections(dd.take(k as int)),
        decreases seen@.len() - k,
    {
        let reg = &seen[k];
        if crate::text::str_eq(reg.as_str(), "https://github.com/rust-lang/crates.io-index") {
            config.append("[source.crates-io]\nreplace-with = \"vendored-sources\"\n");
        } else {
            config.append("[source.\"");
            config.append(reg.as_str());
            config.append("\"]\nregistry=\"");
            config.append(reg.as_str());
            config.append("\"\nreplace-with=\"vendored-sources\"\n");
        }
        proof {
            assert(dd.take(k + 1 as int) =~= dd.take(k as int).push(dd[k as int]));
            lemma_sections_push(dd.take(k as int), dd[k as int]);
            assert(config@ =~= header + spec_registry_sections(dd.take(k + 1 as int)));
        }
        k += 1;
    }
    proof {
        assert(dd.take(seen@.len() as int) =~= dd);
    }
    config
}

/// The recorded hash of one unpacked file, and of the whole source
/// archive: the SHA-256 of the bytes, in lowercase hexadecimal.
pub fn file_hash(data: &Vec<u8>) -> (r: String)
    ensures
        r@ == spec_hex(sha256_of(data@)),
{
    let digest = sha256(data);
    hex_encode(&digest)
}

} // verus!
