use whashreonator::domain::{AssetBundle, AssetMetadata, AssetRecord};
use whashreonator::error::AppError;
use whashreonator::ingest::local::{
    build_local_asset, local_asset_records, matches_ignore_ascii_case, should_skip_dir,
    should_skip_file, validate_bundle,
};
use whashreonator::ingest::pak_extractor::{
    matches_filter, normalize_pak_entry_path, normalize_path_for_json, record_extracted_entry,
    truncated_entry_count, AesKey, PakExtractionEntry, MANIFEST_ENTRY_CAP, plan_pak_entry,
    PakEntryPlan, PakExtractionTally,
};

fn record(id: &str, path: &str) -> AssetRecord {
    AssetRecord {
        id: id.to_string(),
        path: path.to_string(),
        kind: None,
        metadata: AssetMetadata::default(),
    }
}

fn key_error(text: &str) -> String {
    match AesKey::from_hex(text) {
        Ok(_) => panic!("expected the key to be refused"),
        Err(AppError::InvalidInput(m)) => m,
        Err(other) => panic!("unexpected error {other:?}"),
    }
}

#[test]
fn aes_key_reads_hex_with_prefix_and_spaces() {
    let hex = format!("  0x{}  ", "0f".repeat(31) + "A1");
    let key = match AesKey::from_hex(&hex) {
        Ok(k) => k,
        Err(e) => panic!("key refused: {e:?}"),
    };
    let bytes = key.as_bytes();
    assert_eq!(bytes[0], 0x0f);
    assert_eq!(bytes[30], 0x0f);
    assert_eq!(bytes[31], 0xa1);
    assert!(key.to_repak_key().is_ok());
}

#[test]
fn aes_key_refuses_wrong_length_and_non_hex() {
    assert_eq!(key_error("abcd"), "AES-256 key must be exactly 64 hex characters");
    assert_eq!(
        key_error(&"zz".repeat(32)),
        "AES-256 key must contain only hexadecimal characters"
    );
}

#[test]
fn aes_key_reads_a_plus_sign_as_in_from_str_radix() {
    let key = match AesKey::from_hex(&("+f".to_string() + &"00".repeat(31))) {
        Ok(k) => k,
        Err(e) => panic!("key refused: {e:?}"),
    };
    assert_eq!(key.as_bytes()[0], 0x0f);
}

#[test]
fn pak_filter_matches_substring_without_double_stars() {
    assert!(matches_filter("Client/Content/Character/Body.uasset", None));
    assert!(matches_filter("anything", Some("  ")));
    assert!(matches_filter("anything", Some("**")));
    assert!(matches_filter("Client/Content/Character/Body.uasset", Some("**/Character/**")));
    assert!(!matches_filter("Client/Content/Weapon/Sword.uasset", Some("**/Character/**")));
}

#[test]
fn pak_entry_paths_are_made_relative_and_safe() {
    assert_eq!(
        normalize_pak_entry_path("Client/./Content//Body.uasset"),
        Some("Client/Content/Body.uasset".to_string())
    );
    assert_eq!(normalize_pak_entry_path("/etc/passwd"), None);
    assert_eq!(normalize_pak_entry_path("Client/../../escape"), None);
    assert_eq!(normalize_pak_entry_path("./"), None);
}

#[test]
fn json_paths_use_forward_slashes() {
    assert_eq!(normalize_path_for_json(r"C:\game\Client\a.pak"), "C:/game/Client/a.pak");
}

#[test]
fn truncated_count_is_what_the_manifest_left_out() {
    assert_eq!(truncated_entry_count(1500, 1000), 500);
    assert_eq!(truncated_entry_count(10, 10), 0);
}

#[test]
fn bundle_validation_names_the_first_blank_field() {
    let good = AssetBundle {
        old_assets: vec![record("a", "x/a.mesh")],
        new_assets: vec![record("b", "x/b.mesh")],
    };
    assert!(validate_bundle(&good).is_ok());
    let bad = AssetBundle {
        old_assets: vec![record("a", "x/a.mesh")],
        new_assets: vec![record("b", "x/b.mesh"), record("c", "  ")],
    };
    assert_eq!(
        validate_bundle(&bad),
        Err(AppError::InvalidInput("new_assets[1].path must not be empty".to_string()))
    );
    let bad_old = AssetBundle { old_assets: vec![record(" ", "p")], new_assets: vec![] };
    assert_eq!(
        validate_bundle(&bad_old),
        Err(AppError::InvalidInput("old_assets[0].id must not be empty".to_string()))
    );
}

#[test]
fn local_scan_skips_runtime_and_cache_paths() {
    assert!(should_skip_dir("Client/Saved"));
    assert!(should_skip_dir("Client/Binaries/Win64/.quality"));
    assert!(should_skip_dir("launcherDownload"));
    assert!(!should_skip_dir("Client/Content/Paks"));
    assert!(should_skip_file("Client/Logs/Client.LOG"));
    assert!(!should_skip_file("Client/Content/Paks/pakchunk0-WindowsNoEditor.pak"));
    assert!(matches_ignore_ascii_case("SaVeD", "saved"));
}

#[test]
fn local_records_are_sorted_and_named_by_stem() {
    let records = local_asset_records(vec![
        "b/Body.MESH".to_string(),
        "a/pakchunk0.pak".to_string(),
    ]);
    assert_eq!(records.len(), 2);
    assert_eq!(records[0].path, "a/pakchunk0.pak");
    assert_eq!(records[0].kind, Some("pak".to_string()));
    assert_eq!(records[1].id, "b/Body.MESH");
    assert_eq!(records[1].kind, Some("mesh".to_string()));
    assert_eq!(records[1].metadata.logical_name, Some("Body".to_string()));
    let single = build_local_asset("README");
    assert_eq!(single.kind, None);
    assert_eq!(single.metadata.logical_name, Some("README".to_string()));
}

#[test]
fn manifest_lists_entries_up_to_the_cap_and_counts_all() {
    let mut entries = Vec::new();
    let mut count = 0usize;
    for i in 0..(MANIFEST_ENTRY_CAP + 5) {
        let entry = PakExtractionEntry {
            pak_path: format!("a/{i}.uasset"),
            output_relative_path: format!("a/{i}.uasset"),
            size_bytes: 1,
        };
        record_extracted_entry(&mut entries, &mut count, entry);
    }
    assert_eq!(entries.len(), MANIFEST_ENTRY_CAP);
    assert_eq!(count, MANIFEST_ENTRY_CAP + 5);
    assert_eq!(truncated_entry_count(count, entries.len()), 5);
    assert_eq!(entries[0].pak_path, "a/0.uasset");
}

#[test]
fn aes_key_text_form_never_shows_the_bytes() {
    let hex = "ab".repeat(32);
    let key = AesKey::from_hex(&hex).expect("valid key");
    assert_eq!(key.redacted(), "AesKey([redacted])");
    assert!(!key.redacted().contains("ab"));
}

#[test]
fn pak_entry_paths_with_backslashes_or_drives_are_checked() {
    assert_eq!(normalize_pak_entry_path("..\\x"), None);
    assert_eq!(normalize_pak_entry_path("\\x"), None);
    assert_eq!(normalize_pak_entry_path("C:x"), None);
    assert_eq!(normalize_pak_entry_path("Client\\Content\\Body.uasset"), Some("Client/Content/Body.uasset".to_string()));
}

#[test]
fn pak_entries_are_planned_by_filter_then_path() {
    assert!(matches!(plan_pak_entry("Game/Content/a.uasset", Some("Other")), PakEntryPlan::FilteredOut));
    assert!(matches!(plan_pak_entry("../escape.uasset", None), PakEntryPlan::UnsafePath));
    match plan_pak_entry("Game\\Content\\a.uasset", None) {
        PakEntryPlan::Extract(relative) => assert_eq!(relative, "Game/Content/a.uasset"),
        _ => panic!("expected an extraction"),
    }
}

#[test]
fn extraction_tally_counts_bytes_and_caps_the_listing() {
    let mut tally = PakExtractionTally::new();
    tally.skip();
    for i in 0..(MANIFEST_ENTRY_CAP + 2) {
        tally.record(PakExtractionEntry {
            pak_path: format!("e{i}"),
            output_relative_path: format!("e{i}"),
            size_bytes: 3,
        });
    }
    assert_eq!(tally.filtered_out_entries, 1);
    assert_eq!(tally.extracted_entry_count, MANIFEST_ENTRY_CAP + 2);
    assert_eq!(tally.extracted_bytes, 3 * (MANIFEST_ENTRY_CAP as u64 + 2));
    assert_eq!(tally.entries.len(), MANIFEST_ENTRY_CAP);
    assert_eq!(tally.truncated_entries(), 2);
}
