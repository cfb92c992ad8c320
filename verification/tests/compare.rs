use whashreonator::compare::change::{field_change_message, SnapshotAssetSummary};
use whashreonator::compare::engine::{distinct_paths, summarize_compare, SnapshotComparer};
use whashreonator::compare::fields::{changed_fields, classify_changed_fields};
use whashreonator::compare::outcome::{assess_candidate_lineage, CandidateMappingChange};
use whashreonator::compare::{
    has_reason_code, local_capture_scope_rank, scope_narrowing_interpretation_note,
    AssetLineageKind, RemapCompatibility, RiskLevel, SnapshotChangeType, SnapshotCompareReason,
    SnapshotCompareSummary,
};
use whashreonator::domain::{
    AssetHashFields, AssetInternalStructure, AssetMetadata, AssetSourceContext,
};
use whashreonator::snapshot::{
    GameSnapshot, SnapshotAsset, SnapshotCoverageSignals, SnapshotFingerprint,
    SnapshotScopeAssessment,
};

fn asset(path: &str, normalized_name: Option<&str>, vertex_count: Option<u32>) -> SnapshotAsset {
    let mut metadata = AssetMetadata::default();
    metadata.logical_name = normalized_name.map(|n| n.to_string());
    metadata.vertex_count = vertex_count;
    metadata.index_count = Some(2000);
    metadata.material_slots = Some(1);
    metadata.section_count = Some(1);
    metadata.tags = vec!["weapon".to_string()];
    SnapshotAsset {
        id: path.to_string(),
        path: path.to_string(),
        kind: Some("mesh".to_string()),
        metadata,
        fingerprint: SnapshotFingerprint {
            normalized_kind: Some("mesh".to_string()),
            normalized_name: normalized_name.map(|n| n.to_string()),
            vertex_count,
            index_count: Some(2000),
            material_slots: Some(1),
            section_count: Some(1),
            vertex_stride: None,
            vertex_buffer_count: None,
            index_format: None,
            primitive_topology: None,
            layout_markers: Vec::new(),
            internal_structure: AssetInternalStructure::default(),
            tags: vec!["weapon".to_string()],
        },
        hash_fields: AssetHashFields::default(),
        source: AssetSourceContext::default(),
    }
}

fn snapshot(version: &str, assets: Vec<SnapshotAsset>) -> GameSnapshot {
    GameSnapshot {
        schema_version: "whashreonator.snapshot.v1".to_string(),
        version_id: version.to_string(),
        created_at_unix_ms: 1,
        source_root: "root".to_string(),
        asset_count: assets.len(),
        assets,
    }
}

fn scope(mode: Option<&str>) -> SnapshotScopeAssessment {
    SnapshotScopeAssessment {
        acquisition_kind: None,
        capture_mode: mode.map(|m| m.to_string()),
        mostly_install_or_package_level: false,
        meaningful_content_coverage: true,
        meaningful_character_coverage: true,
        meaningful_asset_record_enrichment: true,
        observed_fallback_used: false,
        note: None,
        coverage: SnapshotCoverageSignals {
            content_like_path_count: 0,
            character_path_count: 0,
            non_content_path_count: 0,
        },
        low_signal_for_character_analysis: false,
    }
}

fn summary(total_old: usize, total_new: usize, added: usize, removed: usize) -> SnapshotCompareSummary {
    SnapshotCompareSummary {
        total_old_assets: total_old,
        total_new_assets: total_new,
        unchanged_assets: 0,
        added_assets: added,
        removed_assets: removed,
        changed_assets: 0,
        candidate_mapping_changes: 0,
        identity_changed_assets: 0,
        layout_changed_assets: 0,
        structural_changed_assets: 0,
        naming_only_changed_assets: 0,
        cosmetic_only_changed_assets: 0,
        provenance_changed_assets: 0,
        container_moved_assets: 0,
        lineage_rename_or_repath_assets: 0,
        lineage_container_movement_assets: 0,
        lineage_layout_drift_assets: 0,
        lineage_replacement_assets: 0,
        lineage_ambiguous_assets: 0,
        lineage_insufficient_evidence_assets: 0,
        ambiguous_candidate_mapping_changes: 0,
        high_confidence_candidate_mapping_changes: 0,
    }
}

fn old_and_new() -> (GameSnapshot, GameSnapshot) {
    let old = snapshot(
        "2.4.0",
        vec![
            asset("Content/Character/HeroA/Body.mesh", Some("heroa body"), Some(12000)),
            asset("Content/Weapon/Sword.weapon", Some("sword main"), Some(1000)),
        ],
    );
    let mut changed_body = asset("Content/Character/HeroA/Body.mesh", Some("heroa body"), Some(18000));
    changed_body.metadata.section_count = Some(2);
    changed_body.fingerprint.section_count = Some(2);
    let new = snapshot(
        "2.5.0",
        vec![changed_body, asset("Content/Weapon/Sword_v2.weapon", Some("sword main"), Some(1000))],
    );
    (old, new)
}

#[test]
fn compare_assets_detects_added_removed_and_changed() {
    let (old, new) = old_and_new();
    let delta = SnapshotComparer {}.compare_assets(&old, &new);
    assert_eq!(delta.changed_assets.len(), 1);
    assert_eq!(delta.removed_assets.len(), 1);
    assert_eq!(delta.added_assets.len(), 1);
    assert_eq!(delta.unchanged_assets, 0);

    let changed = &delta.changed_assets[0];
    assert_eq!(changed.change_type, SnapshotChangeType::Changed);
    assert_eq!(changed.probable_impact, RiskLevel::High);
    assert_eq!(changed.changed_fields, vec!["vertex_count".to_string(), "section_count".to_string()]);
    assert_eq!(changed.lineage, AssetLineageKind::LayoutDrift);
    assert!(changed.suspected_mapping_change);

    let removed = &delta.removed_assets[0];
    assert_eq!(removed.change_type, SnapshotChangeType::Removed);
    assert_eq!(removed.old_asset.as_ref().unwrap().path, "Content/Weapon/Sword.weapon");
    assert!(removed.new_asset.is_none());

    let added = &delta.added_assets[0];
    assert_eq!(added.change_type, SnapshotChangeType::Added);
    assert_eq!(added.new_asset.as_ref().unwrap().path, "Content/Weapon/Sword_v2.weapon");
    assert!(added.old_asset.is_none());
}

#[test]
fn comparing_a_snapshot_with_itself_changes_nothing() {
    let (old, _) = old_and_new();
    let delta = SnapshotComparer {}.compare_assets(&old, &old);
    assert!(delta.added_assets.is_empty());
    assert!(delta.removed_assets.is_empty());
    assert!(delta.changed_assets.is_empty());
    assert_eq!(delta.unchanged_assets, 2);
}

#[test]
fn later_asset_stands_for_a_repeated_path() {
    let old = snapshot(
        "1.0.0",
        vec![
            asset("Content/A.mesh", Some("a"), Some(1)),
            asset("Content/A.mesh", Some("a"), Some(2)),
        ],
    );
    let new = snapshot("1.1.0", vec![asset("Content/A.mesh", Some("a"), Some(2))]);
    let delta = SnapshotComparer {}.compare_assets(&old, &new);
    assert!(delta.changed_assets.is_empty());
    assert_eq!(delta.unchanged_assets, 1);
}

#[test]
fn distinct_paths_are_sorted_and_unique() {
    let assets = vec![
        asset("b/two.mesh", None, None),
        asset("a/one.mesh", None, None),
        asset("b/two.mesh", None, None),
    ];
    assert_eq!(distinct_paths(&assets), vec!["a/one.mesh".to_string(), "b/two.mesh".to_string()]);
}

#[test]
fn changed_fields_lists_differences_in_fixed_order() {
    let old = asset("x.mesh", Some("x"), Some(1));
    let mut new = asset("x.mesh", Some("y"), Some(2));
    new.hash_fields.asset_hash = Some("h".to_string());
    new.source.container_path = Some("pak1".to_string());
    assert_eq!(
        changed_fields(&old, &new),
        vec![
            "normalized_name".to_string(),
            "logical_name".to_string(),
            "vertex_count".to_string(),
            "asset_hash".to_string(),
            "container_path".to_string(),
        ]
    );
    assert!(changed_fields(&old, &old).is_empty());
}

#[test]
fn naming_only_change_is_a_low_risk_rename() {
    let old = asset("x.mesh", Some("x"), Some(1));
    let new = asset("x.mesh", Some("y"), Some(1));
    let delta = SnapshotComparer {}.compare_assets(&snapshot("1", vec![old]), &snapshot("2", vec![new]));
    let entry = &delta.changed_assets[0];
    assert_eq!(entry.lineage, AssetLineageKind::RenameOrRepath);
    assert_eq!(entry.crash_risk, RiskLevel::Low);
    assert!(has_reason_code(&entry.reasons, "naming_only_change"));
}

#[test]
fn breakdown_sorts_fields_into_groups() {
    let fields = vec![
        "signature".to_string(),
        "vertex_stride".to_string(),
        "vertex_count".to_string(),
        "logical_name".to_string(),
        "tags".to_string(),
        "source_kind".to_string(),
    ];
    let b = classify_changed_fields(&fields);
    assert_eq!(b.identity_fields, vec!["signature".to_string()]);
    assert_eq!(b.layout_fields, vec!["vertex_stride".to_string()]);
    assert_eq!(b.structural_fields, vec!["vertex_count".to_string()]);
    assert_eq!(b.naming_fields, vec!["logical_name".to_string()]);
    assert_eq!(b.cosmetic_fields, vec!["tags".to_string()]);
    assert_eq!(b.provenance_fields, vec!["source_kind".to_string()]);
    assert!(b.has_hash_like_identity_change());
    assert!(b.has_layout_change());
    assert!(!b.is_naming_only());
}

#[test]
fn field_change_message_explains_the_field() {
    assert_eq!(
        field_change_message("vertex_count", "a/b.mesh"),
        "vertex_count changed for asset path a/b.mesh; mod mappings that assume the previous layout may need review"
    );
    assert_eq!(
        field_change_message("container_path", "p"),
        "container_path changed for asset path p; package origin moved across snapshots"
    );
}

#[test]
fn summary_of_an_asset_keeps_its_identity() {
    let a = asset("Content/A.mesh", Some("a"), Some(7));
    let s = SnapshotAssetSummary::from_asset(&a);
    assert_eq!(s.path, "Content/A.mesh");
    assert_eq!(s.vertex_count, Some(7));
    assert_eq!(s.normalized_name, Some("a".to_string()));
}

#[test]
fn capture_scope_ranks_narrow_modes_lower() {
    assert_eq!(local_capture_scope_rank(Some("local_filesystem_inventory")), Some(3));
    assert_eq!(local_capture_scope_rank(Some("local_filesystem_inventory_content_focused")), Some(2));
    assert_eq!(local_capture_scope_rank(Some("local_filesystem_inventory_character_focused")), Some(1));
    assert_eq!(local_capture_scope_rank(Some("extractor")), None);
    assert_eq!(local_capture_scope_rank(None), None);
}

#[test]
fn narrower_scope_with_mostly_removals_is_flagged_as_scope_induced() {
    let note = scope_narrowing_interpretation_note(
        &scope(Some("local_filesystem_inventory")),
        &scope(Some("local_filesystem_inventory_character_focused")),
        &summary(10, 4, 1, 6),
    );
    assert_eq!(
        note.unwrap(),
        "scope-induced removal caution: new snapshot capture mode 'local_filesystem_inventory_character_focused' is narrower than old 'local_filesystem_inventory'; 6 removed assets likely reflect scope filtering rather than true game-version drift"
    );
    let zero = scope_narrowing_interpretation_note(
        &scope(Some("local_filesystem_inventory")),
        &scope(Some("local_filesystem_inventory_content_focused")),
        &summary(10, 0, 0, 10),
    );
    assert!(zero.unwrap().ends_with(", and the narrower scope yielded 0 visible assets"));
}

#[test]
fn narrower_scope_with_other_changes_gets_a_softer_note() {
    let note = scope_narrowing_interpretation_note(
        &scope(Some("local_filesystem_inventory")),
        &scope(Some("local_filesystem_inventory_content_focused")),
        &summary(10, 12, 3, 2),
    );
    assert!(note.unwrap().starts_with("scope-narrowing note: new snapshot capture mode 'local_filesystem_inventory_content_focused'"));
    let same = scope_narrowing_interpretation_note(
        &scope(Some("local_filesystem_inventory")),
        &scope(Some("local_filesystem_inventory")),
        &summary(10, 0, 0, 10),
    );
    assert!(same.is_none());
}

#[test]
fn summary_counts_the_delta() {
    let (old, new) = old_and_new();
    let delta = SnapshotComparer {}.compare_assets(&old, &new);
    let lineages = vec![AssetLineageKind::RenameOrRepath];
    let s = summarize_compare(2, 2, &delta, &lineages, 0, 1);
    assert_eq!(s.added_assets, 1);
    assert_eq!(s.removed_assets, 1);
    assert_eq!(s.changed_assets, 1);
    assert_eq!(s.candidate_mapping_changes, 1);
    assert_eq!(s.structural_changed_assets, 1);
    assert_eq!(s.lineage_layout_drift_assets, 1);
    assert_eq!(s.lineage_rename_or_repath_assets, 1);
    assert_eq!(s.high_confidence_candidate_mapping_changes, 1);
}

#[test]
fn only_usable_compatibility_supports_auto_proposal() {
    assert!(RemapCompatibility::LikelyCompatible.supports_auto_proposal());
    assert!(RemapCompatibility::CompatibleWithCaution.supports_auto_proposal());
    assert!(!RemapCompatibility::StructurallyRisky.supports_auto_proposal());
    assert!(!RemapCompatibility::IncompatibleBlocked.supports_auto_proposal());
    assert!(!RemapCompatibility::InsufficientEvidence.supports_auto_proposal());
}

fn quality(asset_count: usize) -> whashreonator::snapshot::SnapshotCaptureQualitySummary {
    whashreonator::snapshot::SnapshotCaptureQualitySummary {
        asset_count,
        launcher_detected_version: None,
        launcher_reuse_version: None,
        launcher_version_matches_snapshot: None,
        manifest_resource_count: 0,
        manifest_matched_assets: 0,
        manifest_unmatched_snapshot_assets: 0,
        assets_with_asset_hash: 0,
        assets_with_any_hash: 0,
        assets_with_signature: 0,
        assets_with_source_context: 0,
        assets_with_rich_metadata: 0,
        meaningfully_enriched_assets: 0,
        extractor_record_count: 0,
        extractor_records_with_hashes: 0,
        extractor_records_with_source_context: 0,
        extractor_records_with_rich_metadata: 0,
        extractor_inventory_schema_version: None,
        extractor_inventory_version_id: None,
        extractor_inventory_version_matches_snapshot: None,
        launcher_version_matches_extractor_inventory: None,
        extractor_alignment_status: "not_applicable".to_string(),
        extractor_alignment_caution: false,
        extractor_alignment_reason: None,
        evidence_tier: "local_inventory".to_string(),
    }
}

#[test]
fn assembled_report_keeps_the_delta_and_counts_candidates() {
    let (old, new) = old_and_new();
    let comparer = SnapshotComparer {};
    let delta = comparer.compare_assets(&old, &new);
    let removed = SnapshotAssetSummary::from_asset(&old.assets[1]);
    let added = SnapshotAssetSummary::from_asset(&new.assets[1]);
    let candidate = CandidateMappingChange {
        old_asset: removed,
        new_asset: added,
        confidence_milli: 910,
        compatibility: RemapCompatibility::LikelyCompatible,
        lineage: AssetLineageKind::RenameOrRepath,
        reasons: Vec::new(),
        runner_up_confidence_milli: None,
        confidence_gap_milli: None,
        ambiguous: true,
    };
    let mut low = scope(Some("local_filesystem_inventory"));
    low.low_signal_for_character_analysis = true;
    let report = comparer.assemble_report(
        &old,
        &new,
        delta,
        vec![candidate],
        1,
        &scope(Some("local_filesystem_inventory")),
        &low,
        &quality(2),
        &quality(2),
    );
    assert_eq!(report.schema_version, "whashreonator.snapshot-compare.v1");
    assert_eq!(report.old_snapshot.version_id, "2.4.0");
    assert_eq!(report.new_snapshot.version_id, "2.5.0");
    assert_eq!(report.summary.changed_assets, 1);
    assert_eq!(report.summary.added_assets, 1);
    assert_eq!(report.summary.removed_assets, 1);
    assert_eq!(report.summary.candidate_mapping_changes, 1);
    assert_eq!(report.summary.ambiguous_candidate_mapping_changes, 1);
    assert_eq!(report.summary.high_confidence_candidate_mapping_changes, 1);
    assert_eq!(report.summary.lineage_rename_or_repath_assets, 1);
    assert_eq!(report.summary.lineage_layout_drift_assets, 1);
    assert!(report.scope.low_signal_compare);
    assert!(!report.scope.scope_narrowing_detected);
    assert_eq!(report.candidate_mapping_changes[0].confidence_milli, 910);
}

#[test]
fn candidate_lineage_follows_the_strongest_anchor() {
    let a = SnapshotAssetSummary::from_asset(&asset("a/x.mesh", Some("x"), Some(1)));
    let b = SnapshotAssetSummary::from_asset(&asset("a/y.mesh", Some("x"), Some(1)));
    let with = |codes: &[&str], ambiguous: bool| CandidateMappingChange {
        old_asset: a.clone(),
        new_asset: b.clone(),
        confidence_milli: 900,
        compatibility: RemapCompatibility::InsufficientEvidence,
        lineage: AssetLineageKind::InsufficientEvidence,
        reasons: codes
            .iter()
            .map(|c| SnapshotCompareReason { code: c.to_string(), message: String::new() })
            .collect(),
        runner_up_confidence_milli: None,
        confidence_gap_milli: None,
        ambiguous,
    };
    assert_eq!(assess_candidate_lineage(&with(&["normalized_name_exact"], true)), AssetLineageKind::Ambiguous);
    assert_eq!(
        assess_candidate_lineage(&with(&["normalized_name_exact", "kind_mismatch"], false)),
        AssetLineageKind::Replacement
    );
    assert_eq!(
        assess_candidate_lineage(&with(&["container_path_mismatch", "normalized_name_exact"], false)),
        AssetLineageKind::ContainerMovement
    );
    assert_eq!(
        assess_candidate_lineage(&with(&["buffer_layout_validation_needed"], false)),
        AssetLineageKind::LayoutDrift
    );
    assert_eq!(
        assess_candidate_lineage(&with(&["likely_same_asset_repathed"], false)),
        AssetLineageKind::RenameOrRepath
    );
    assert_eq!(assess_candidate_lineage(&with(&[], false)), AssetLineageKind::InsufficientEvidence);
}

#[test]
fn compare_composes_the_delta_and_counts_high_confidence_candidates() {
    let (old, new) = old_and_new();
    let comparer = SnapshotComparer {};
    let removed = SnapshotAssetSummary::from_asset(&old.assets[1]);
    let added = SnapshotAssetSummary::from_asset(&new.assets[1]);
    let candidate = |milli: u32| CandidateMappingChange {
        old_asset: removed.clone(),
        new_asset: added.clone(),
        confidence_milli: milli,
        compatibility: RemapCompatibility::LikelyCompatible,
        lineage: AssetLineageKind::RenameOrRepath,
        reasons: Vec::new(),
        runner_up_confidence_milli: None,
        confidence_gap_milli: None,
        ambiguous: false,
    };
    let report = comparer.compare(
        &old,
        &new,
        vec![candidate(850), candidate(849)],
        &scope(Some("local_filesystem_inventory")),
        &scope(Some("local_filesystem_inventory")),
        &quality(2),
        &quality(2),
    );
    assert_eq!(report.summary.changed_assets, 1);
    assert_eq!(report.summary.added_assets, 1);
    assert_eq!(report.summary.removed_assets, 1);
    assert_eq!(report.summary.candidate_mapping_changes, 2);
    assert_eq!(report.summary.high_confidence_candidate_mapping_changes, 1);
    assert_eq!(report.changed_assets[0].changed_fields.len() > 0, true);
}
