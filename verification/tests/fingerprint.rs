use whashreonator::domain::{AssetInternalStructure, AssetMetadata, AssetRecord};
use whashreonator::fingerprint::{normalize_text, tokenize, DefaultFingerprinter, Fingerprinter};

#[test]
fn normalize_text_collapses_symbols() {
    assert_eq!(normalize_text("HeroA_Body-v2.mesh"), "heroa body v2 mesh");
}

#[test]
fn tokenize_deduplicates_tokens() {
    let tokens = tokenize("Hero Hero Body");
    assert_eq!(tokens.len(), 2);
    assert!(tokens.contains(&"hero".to_string()));
    assert!(tokens.contains(&"body".to_string()));
}

#[test]
fn tokenize_returns_sorted_distinct_words() {
    let tokens = tokenize("zeta  Alpha zeta beta");
    assert_eq!(tokens, vec!["alpha".to_string(), "beta".to_string(), "zeta".to_string()]);
}

#[test]
fn normalize_text_of_only_symbols_is_empty() {
    assert_eq!(normalize_text("__--..//"), "");
}

#[test]
fn normalizing_twice_gives_the_same_text_and_tokens() {
    let once = normalize_text("  __Hero--A__Body.V2 ");
    assert_eq!(once, "hero a body v2");
    assert_eq!(normalize_text(&once), once);
    assert_eq!(tokenize(&once), tokenize("  __Hero--A__Body.V2 "));
}

#[test]
fn fingerprint_carries_its_record_and_derives_the_name() {
    let asset = AssetRecord {
        id: "old-asset-001".to_string(),
        path: "Content/Character/HeroA/Body_v2.mesh".to_string(),
        kind: Some("Mesh".to_string()),
        metadata: AssetMetadata {
            logical_name: None,
            vertex_count: Some(12000),
            index_count: Some(18000),
            material_slots: Some(3),
            section_count: Some(2),
            vertex_stride: None,
            vertex_buffer_count: None,
            index_format: None,
            primitive_topology: None,
            layout_markers: vec![],
            internal_structure: AssetInternalStructure {
                section_labels: vec![],
                buffer_roles: vec![],
                binding_targets: vec![],
                subresource_roles: vec![],
                has_skeleton: None,
                has_shapekey_data: None,
            },
            tags: vec!["Hero".to_string(), "--".to_string()],
        },
    };
    let fp = DefaultFingerprinter.fingerprint(&asset);
    assert_eq!(fp.asset, asset);
    assert_eq!(fp.normalized_name.as_deref(), Some("body v2"));
    assert_eq!(fp.normalized_kind.as_deref(), Some("mesh"));
    assert_eq!(fp.tags, vec!["hero".to_string()]);
    assert_eq!(fp.vertex_count, Some(12000));
}
