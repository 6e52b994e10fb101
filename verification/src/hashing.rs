//! The content-addressing primitives: the SHA-256 digest,
//! hexadecimal and base64 renderings, and the artifact hash that
//! keeps concurrent builds of one package apart.

use vstd::prelude::*;
use vstd::string::StrSliceExecFns;
use vstd::utf8::encode_utf8;

use base64::Engine;
use sha2::{Digest, Sha256};

use crate::text::{concat_seqs, lemma_concat_push, views};

verus! {

/// The SHA-256 digest of a byte sequence: a pure function of the bytes
/// alone, the same in every process and on every machine.
pub uninterp spec fn sha256_of(data: Seq<u8>) -> Seq<u8>;

/// Relies on sha2's `Sha256::digest`: the one-shot SHA-256 of the whole
/// input, depending on the input bytes alone, always 32 bytes long.
#[verifier::external_body]
pub fn sha256(data: &Vec<u8>) -> (r: Vec<u8>)
    ensures
        r@ == sha256_of(data@),
        r@.len() == 32,
{
    Sha256::digest(data.as_slice()).to_vec()
}

/// The sixteen lowercase hexadecimal digits.
pub open spec fn hex_digit(v: u8) -> char {
    match v {
        0 => '0',
        1 => '1',
        2 => '2',
        3 => '3',
        4 => '4',
        5 => '5',
        6 => '6',
        7 => '7',
        8 => '8',
        9 => '9',
        10 => 'a',
        11 => 'b',
        12 => 'c',
        13 => 'd',
        14 => 'e',
        15 => 'f',
        _ => '0',
    }
}

/// The lowercase hexadecimal rendering of a byte sequence: two digits
/// per byte, high digit first.
pub open spec fn spec_hex(data: Seq<u8>) -> Seq<char>
    decreases data.len(),
{
    if data.len() == 0 {
        Seq::empty()
    } else {
        seq![hex_digit(data.first() / 16), hex_digit(data.first() % 16)] + spec_hex(
            data.drop_first(),
        )
    }
}

/// Relies on `hex::encode`: two lowercase hexadecimal digits per input
/// byte, high digit first, in input order.
#[verifier::external_body]
pub fn hex_encode(data: &Vec<u8>) -> (r: String)
    ensures
        r@ == spec_hex(data@),
{
    hex::encode(data.as_slice())
}

/// The value of one hexadecimal digit, upper or lower case.
pub open spec fn hex_val(c: char) -> Option<u8> {
    match c {
        '0' => Some(0u8),
        '1' => Some(1u8),
        '2' => Some(2u8),
        '3' => Some(3u8),
        '4' => Some(4u8),
        '5' => Some(5u8),
        '6' => Some(6u8),
        '7' => Some(7u8),
        '8' => Some(8u8),
        '9' => Some(9u8),
        'a' | 'A' => Some(10u8),
        'b' | 'B' => Some(11u8),
        'c' | 'C' => Some(12u8),
        'd' | 'D' => Some(13u8),
        'e' | 'E' => Some(14u8),
        'f' | 'F' => Some(15u8),
        _ => None,
    }
}

/// The bytes a hexadecimal string decodes to: `None` for an odd length
/// or any character that is no hexadecimal digit.
pub open spec fn spec_hex_decode(s: Seq<char>) -> Option<Seq<u8>>
    decreases s.len(),
{
    if s.len() == 0 {
        Some(Seq::empty())
    } else if s.len() == 1 {
        None
    } else {
        match (hex_val(s[0]), hex_val(s[1]), spec_hex_decode(s.skip(2))) {
            (Some(h), Some(l), Some(rest)) => Some(seq![(h * 16 + l) as u8] + rest),
            _ => None,
        }
    }
}

/// Relies on `hex::decode`: accepts upper and lower case digits, two
/// per byte, and refuses odd lengths and other characters.
#[verifier::external_body]
pub fn hex_decode(s: &str) -> (r: Option<Vec<u8>>)
    ensures
        match r {
            Some(v) => spec_hex_decode(s@) == Some(v@),
            None => spec_hex_decode(s@) is None,
        },
{
    match hex::decode(s) {
        Ok(v) => Some(v),
        Err(_) => None,
    }
}

/// The standard base64 rendering (with padding) of a byte sequence: a
/// pure function of the bytes alone.
pub uninterp spec fn base64_of(data: Seq<u8>) -> Seq<char>;

/// Relies on base64's `STANDARD` engine and `Engine::encode`: the
/// padded standard-alphabet encoding, depending on the bytes alone.
#[verifier::external_body]
pub fn base64_standard(data: &Vec<u8>) -> (r: String)
    ensures
        r@ == base64_of(data@),
{
    base64::engine::general_purpose::STANDARD.encode(data.as_slice())
}

/// The UTF-8 bytes fed to the artifact digest: package name, then
/// version, then every enabled feature name, in that order, with
/// nothing between them.
pub open spec fn spec_hash_input(name: Seq<char>, version: Seq<char>, features: Seq<Seq<char>>) -> Seq<u8> {
    encode_utf8(name) + encode_utf8(version) + concat_seqs(
        features.map_values(|f: Seq<char>| encode_utf8(f)),
    )
}

/// The content hash that names a library artifact: the first 8 bytes of
/// the SHA-256 of [`spec_hash_input`], in lowercase hexadecimal.
pub open spec fn spec_artifact_hash(name: Seq<char>, version: Seq<char>, features: Seq<Seq<char>>) -> Seq<char> {
    spec_hex(sha256_of(spec_hash_input(name, version, features)).take(8))
}

/// Computes the content hash of one library compilation: 16 lowercase
/// hexadecimal characters derived from the package name, the version
/// and the enabled feature set.
pub fn artifact_hash(pname: &str, version: &str, features: &Vec<String>) -> (r: String)
    ensures
        r@ == spec_artifact_hash(pname@, version@, views(features@)),
{
    let mut input: Vec<u8> = pname.as_bytes_vec();
    let mut vb: Vec<u8> = version.as_bytes_vec();
    input.append(&mut vb);
    let ghost fbytes = views(features@).map_values(|f: Seq<char>| encode_utf8(f));
    let mut i: usize = 0;
    proof {
        assert(fbytes.take(0) =~= Seq::<Seq<u8>>::empty());
        assert(input@ + concat_seqs(fbytes.take(0)) =~= input@);
    }
    let ghost base = input@;
    while i < features.len()
        invariant
            i <= features@.len(),
            fbytes == views(features@).map_values(|f: Seq<char>| encode_utf8(f)),
            input@ == base + concat_seqs(fbytes.take(i as int)),
        decreases features@.len() - i,
    {
        let mut fb: Vec<u8> = features[i].as_str().as_bytes_vec();
        input.append(&mut fb);
        proof {
            assert(fbytes.take(i + 1 as int) =~= fbytes.take(i as int).push(fbytes[i as int]));
            lemma_concat_push(fbytes.take(i as int), fbytes[i as int]);
        }
        i += 1;
    }
    proof {
        assert(fbytes.take(features@.len() as int) =~= fbytes);
        assert(input@ =~= spec_hash_input(pname@, version@, views(features@)));
    }
    let digest = sha256(&input);
    let mut first: Vec<u8> = Vec::new();
    let mut j: usize = 0;
    while j < 8
        invariant
            digest@.len() == 32,
            j <= 8,
            first@ == digest@.take(j as int),
        decreases 8 - j,
    {
        first.push(digest[j]);
        proof {
            assert(digest@.take(j + 1 as int) =~= digest@.take(j as int).push(digest@[j as int]));
        }
        j += 1;
    }
    hex_encode(&first)
}

/// Determinism of the content hash: resolving the same package name,
/// version and enabled feature set twice computes byte-identical
/// hashes.
pub proof fn lemma_hash_deterministic(
    n1: Seq<char>,
    v1: Seq<char>,
    f1: Seq<Seq<char>>,
    n2: Seq<char>,
    v2: Seq<char>,
    f2: Seq<Seq<char>>,
)
    requires
        n1 == n2,
        v1 == v2,
        f1 == f2,
    ensures
        spec_artifact_hash(n1, v1, f1) == spec_artifact_hash(n2, v2, f2),
{
}

/// The bytes the enabled feature set contributes to the digest input.
pub open spec fn feature_bytes(features: Seq<Seq<char>>) -> Seq<u8> {
    concat_seqs(features.map_values(|f: Seq<char>| encode_utf8(f)))
}

/// Within one package name and version, the digest input is determined
/// by exactly the concatenated feature bytes: two feature sets feed the
/// digest the same input if and only if those bytes agree. Distinctness
/// of the final hashes for distinct inputs rests on the digest's
/// collision resistance, which no proof here can supply.
pub proof fn lemma_hash_input_feature_sensitive(
    n: Seq<char>,
    v: Seq<char>,
    f1: Seq<Seq<char>>,
    f2: Seq<Seq<char>>,
)
    ensures
        (spec_hash_input(n, v, f1) == spec_hash_input(n, v, f2)) <==> (feature_bytes(f1)
            == feature_bytes(f2)),
{
    let prefix = encode_utf8(n) + encode_utf8(v);
    assert(spec_hash_input(n, v, f1) =~= prefix + feature_bytes(f1));
    assert(spec_hash_input(n, v, f2) =~= prefix + feature_bytes(f2));
    if spec_hash_input(n, v, f1) == spec_hash_input(n, v, f2) {
        assert((prefix + feature_bytes(f1)).skip(prefix.len() as int) =~= feature_bytes(f1));
        assert((prefix + feature_bytes(f2)).skip(prefix.len() as int) =~= feature_bytes(f2));
    }
}

/// Within one package name and version, equal concatenated feature
/// bytes always give the equal artifact hash: the hash depends on
/// nothing else of the feature list.
pub proof fn lemma_equal_features_equal_hash(
    n: Seq<char>,
    v: Seq<char>,
    f1: Seq<Seq<char>>,
    f2: Seq<Seq<char>>,
)
    requires
        feature_bytes(f1) == feature_bytes(f2),
    ensures
        spec_artifact_hash(n, v, f1) == spec_artifact_hash(n, v, f2),
{
    lemma_hash_input_feature_sensitive(n, v, f1, f2);
}

/// Two artifact hashes of one package that differ witness different
/// enabled-feature byte concatenations: the hash depends on nothing
/// else.
pub proof fn lemma_distinct_hash_distinct_features(
    n: Seq<char>,
    v: Seq<char>,
    f1: Seq<Seq<char>>,
    f2: Seq<Seq<char>>,
)
    requires
        spec_artifact_hash(n, v, f1) != spec_artifact_hash(n, v, f2),
    ensures
        feature_bytes(f1) != feature_bytes(f2),
{
    lemma_hash_input_feature_sensitive(n, v, f1, f2);
}

} // verus!
