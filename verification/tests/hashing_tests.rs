use buildplan::hashing::{artifact_hash, base64_standard, hex_decode, hex_encode};
use buildplan::vendor::file_hash;

fn feats(fs: &[&str]) -> Vec<String> {
    fs.iter().map(|f| f.to_string()).collect()
}

#[test]
fn artifact_hash_known_value() {
    let h = artifact_hash("foo", "1.2.3", &feats(&["a", "b"]));
    assert_eq!(h, "2e399d13f26a413c");
}

#[test]
fn artifact_hash_deterministic() {
    let h1 = artifact_hash("foo", "1.2.3", &feats(&["a", "b"]));
    let h2 = artifact_hash("foo", "1.2.3", &feats(&["a", "b"]));
    assert_eq!(h1, h2);
}

#[test]
fn artifact_hash_differs_per_feature_set() {
    let ha = artifact_hash("foo", "1.2.3", &feats(&["a"]));
    let hb = artifact_hash("foo", "1.2.3", &feats(&["b"]));
    assert_eq!(ha, "229e510ad6288961");
    assert_eq!(hb, "2c962b9cb1a2629f");
    assert_ne!(ha, hb);
}

#[test]
fn artifact_hash_empty_features() {
    let h = artifact_hash("foo", "1.2.3", &feats(&[]));
    assert_eq!(h.len(), 16);
}

#[test]
fn file_hash_known_value() {
    let h = file_hash(&b"hello".to_vec());
    assert_eq!(
        h,
        "2cf24dba5fb0a30e26e83b2ac5b9e29e1b161e5c1fa7425e73043362938b9824"
    );
}

#[test]
fn file_hash_empty() {
    let h = file_hash(&Vec::new());
    assert_eq!(
        h,
        "e3b0c44298fc1c149afbf4c8996fb92427ae41e4649b934ca495991b7852b855"
    );
}

#[test]
fn hex_encode_known() {
    assert_eq!(hex_encode(&vec![0x00u8, 0xff, 0x10]), "00ff10");
}

#[test]
fn hex_decode_round_trip() {
    let bytes = hex_decode("00Ff10").expect("valid hex");
    assert_eq!(bytes, vec![0x00u8, 0xff, 0x10]);
    assert_eq!(hex_encode(&bytes), "00ff10");
}

#[test]
fn hex_decode_rejects_odd_and_junk() {
    assert!(hex_decode("123").is_none());
    assert!(hex_decode("zz").is_none());
}

#[test]
fn base64_standard_known() {
    assert_eq!(base64_standard(&vec![0x00u8, 0xff, 0x10]), "AP8Q");
    assert_eq!(base64_standard(&Vec::new()), "");
}
