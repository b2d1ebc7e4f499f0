use two_face::fingerprint::AssetFingerprint;
use two_face::pipeline::{check_exemption, exemption_expected_hash, is_license_stem,
    is_relevant_ext, should_stage, sort_paths, ExemptionCheck, RegexImpl};

#[test]
fn staging_accepts_allow_listed_extensions() {
    assert!(is_relevant_ext("patch"));
    assert!(is_relevant_ext("sublime-syntax"));
    assert!(is_relevant_ext("tmtheme"));
    assert!(is_relevant_ext("tmTheme"));
    assert!(is_relevant_ext("PATCH"));
    assert!(!is_relevant_ext("md"));
    assert!(!is_relevant_ext(""));
}

#[test]
fn staging_accepts_license_stems() {
    assert!(is_license_stem("LICENSE"));
    assert!(is_license_stem("license"));
    assert!(is_license_stem("License"));
    assert!(is_license_stem("NOTICE"));
    assert!(is_license_stem("COPYING"));
    assert!(!is_license_stem("README"));
    assert!(!is_license_stem("licenses"));
}

#[test]
fn should_stage_combines_both_rules() {
    assert!(should_stage(Some("Rust"), Some("sublime-syntax")));
    assert!(should_stage(Some("LICENSE"), Some("txt")));
    assert!(should_stage(Some("LICENSE"), None));
    assert!(should_stage(None, Some("tmTheme")));
    assert!(!should_stage(Some("README"), Some("md")));
    assert!(!should_stage(None, None));
}

#[test]
fn sort_paths_orders_bytewise() {
    let paths: Vec<Vec<u8>> = vec![
        b"themes/zen".to_vec(),
        b"syntaxes/a".to_vec(),
        b"syntaxes/A".to_vec(),
        b"syntaxes".to_vec(),
        b"themes/zen".to_vec(),
    ];
    let sorted = sort_paths(paths);
    let expected: Vec<Vec<u8>> = vec![
        b"syntaxes".to_vec(),
        b"syntaxes/A".to_vec(),
        b"syntaxes/a".to_vec(),
        b"themes/zen".to_vec(),
        b"themes/zen".to_vec(),
    ];
    assert_eq!(sorted, expected);
}

#[test]
fn sort_paths_is_deterministic() {
    let paths: Vec<Vec<u8>> = vec![
        b"b".to_vec(),
        b"a".to_vec(),
        b"c/inner".to_vec(),
        b"c".to_vec(),
    ];
    let once = sort_paths(paths.clone());
    let twice = sort_paths(paths);
    assert_eq!(once, twice);
}

#[test]
fn exemption_list_names_one_file() {
    assert_eq!(
        exemption_expected_hash("syntaxes/02_Extra/Idris2/NOTICE"),
        Some(0x432a39028e111f67)
    );
    assert_eq!(exemption_expected_hash("syntaxes/02_Extra/Idris2/LICENSE"), None);
    assert_eq!(exemption_expected_hash(""), None);
}

#[test]
fn exemption_check_follows_content_hash() {
    let contents = b"Some notice text that is not the recorded one";
    assert_eq!(
        check_exemption("themes/Nord/LICENSE", contents),
        ExemptionCheck::NotExempt
    );
    // The same digest the pipeline computes, straight from the hasher.
    let digest = twox_hash::XxHash64::oneshot(0xc0ffee, contents);
    let expected = if digest == 0x432a39028e111f67 {
        ExemptionCheck::Exempt
    } else {
        ExemptionCheck::HashMismatch
    };
    assert_eq!(
        check_exemption("syntaxes/02_Extra/Idris2/NOTICE", contents),
        expected
    );
    assert_eq!(expected, ExemptionCheck::HashMismatch);
}

#[test]
fn asset_names_follow_engine_and_newline_mode() {
    assert_eq!(
        RegexImpl::Onig.newlines_asset_name(),
        "syntaxes-onig-newlines.bin"
    );
    assert_eq!(
        RegexImpl::Onig.no_newlines_asset_name(),
        "syntaxes-onig-no-newlines.bin"
    );
    assert_eq!(
        RegexImpl::Fancy.newlines_asset_name(),
        "syntaxes-fancy-newlines.bin"
    );
    assert_eq!(
        RegexImpl::Fancy.no_newlines_asset_name(),
        "syntaxes-fancy-no-newlines.bin"
    );
}

#[test]
fn xxhash_matches_reference_hasher() {
    for bytes in [&b""[..], &b"abc"[..], &b"Some slightly longer input data."[..]] {
        let reference = (twox_hash::XxHash64::oneshot(0, bytes) >> 32) as u32;
        assert_eq!(two_face::fingerprint::xxhash(bytes), reference);
    }
}

#[test]
fn fingerprint_records_size_hash_and_prefix() {
    let bytes = b"some asset contents";
    let fp = AssetFingerprint::new(4, bytes);
    assert_eq!(fp.size(), bytes.len());
    assert_eq!(fp.prefix().as_slice(), &bytes[..4]);
    assert_eq!(fp.hash(), two_face::fingerprint::xxhash(bytes));

    let short = AssetFingerprint::new(64, b"tiny");
    assert_eq!(short.prefix().as_slice(), b"tiny");
    assert_eq!(short.size(), 4);
}

#[test]
fn fingerprint_is_found_within_embedding_region() {
    let asset = b"ASSET-DATA-0123456789";
    let fp = AssetFingerprint::new(5, asset);

    let mut region = Vec::new();
    region.extend_from_slice(b"prelude bytes ");
    region.extend_from_slice(asset);
    region.extend_from_slice(b" trailing bytes");
    assert!(fp.is_found_within(&region));

    let mut corrupted = region.clone();
    let pos = b"prelude bytes ".len() + 7;
    corrupted[pos] ^= 0xff;
    assert!(!fp.is_found_within(&corrupted));

    assert!(!fp.is_found_within(b"nothing to see here"));
}
