use whashreonator::compare::change::{SnapshotAssetChange, SnapshotAssetSummary};
use whashreonator::compare::engine::summarize_compare;
use whashreonator::compare::engine::AssetDelta;
use whashreonator::compare::outcome::{CandidateMappingChange, SnapshotCompareReport};
use whashreonator::compare::scope::{
    SnapshotCompareScopeContext, SnapshotCompareScopeInfo, SnapshotVersionInfo,
};
use whashreonator::compare::{
    AssetLineageKind, RemapCompatibility, RiskLevel, SnapshotChangeType, SnapshotCompareReason,
};
use whashreonator::domain::{
    AssetHashFields, AssetInternalStructure, AssetMetadata, AssetSourceContext,
};
use whashreonator::inference::WwmiModDependencySurfaceClass;
use whashreonator::snapshot::{SnapshotAsset, SnapshotFingerprint};
use whashreonator::surfaces::{
    append_scope_capture_quality_guardrail, buffer_layout_projection_signals,
    collect_game_side_surfaces, draw_call_filter_hook_projection_signals,
    game_side_surface_affected_assets, has_hook_targeting_review_surface,
    is_resource_or_skeleton_candidate, mapping_hash_projection_signals,
    resource_or_skeleton_affected_assets, resource_skeleton_projection_signals,
};

const BODY: &str = "Content/Character/HeroA/Body.mesh";
const SWORD: &str = "Content/Weapon/Sword.weapon";
const SWORD_V2: &str = "Content/Weapon/Sword_v2.weapon";

fn summary_of(path: &str) -> SnapshotAssetSummary {
    let asset = SnapshotAsset {
        id: path.to_string(),
        path: path.to_string(),
        kind: Some("mesh".to_string()),
        metadata: AssetMetadata::default(),
        fingerprint: SnapshotFingerprint {
            normalized_kind: None,
            normalized_name: None,
            vertex_count: None,
            index_count: None,
            material_slots: None,
            section_count: None,
            vertex_stride: None,
            vertex_buffer_count: None,
            index_format: None,
            primitive_topology: None,
            layout_markers: Vec::new(),
            internal_structure: AssetInternalStructure::default(),
            tags: Vec::new(),
        },
        hash_fields: AssetHashFields::default(),
        source: AssetSourceContext::default(),
    };
    SnapshotAssetSummary::from_asset(&asset)
}

fn change(kind: SnapshotChangeType, old: Option<&str>, new: Option<&str>, fields: &[&str]) -> SnapshotAssetChange {
    SnapshotAssetChange {
        change_type: kind,
        old_asset: old.map(summary_of),
        new_asset: new.map(summary_of),
        changed_fields: fields.iter().map(|f| f.to_string()).collect(),
        probable_impact: RiskLevel::Medium,
        crash_risk: RiskLevel::Medium,
        suspected_mapping_change: true,
        lineage: AssetLineageKind::InsufficientEvidence,
        reasons: Vec::new(),
    }
}

fn candidate(compatibility: RemapCompatibility, codes: &[&str]) -> CandidateMappingChange {
    CandidateMappingChange {
        old_asset: summary_of(SWORD),
        new_asset: summary_of(SWORD_V2),
        confidence_milli: 910,
        compatibility,
        lineage: AssetLineageKind::RenameOrRepath,
        reasons: codes
            .iter()
            .map(|c| SnapshotCompareReason { code: c.to_string(), message: "m".to_string() })
            .collect(),
        runner_up_confidence_milli: None,
        confidence_gap_milli: None,
        ambiguous: false,
    }
}

fn scope_info(manifest: usize, enriched: bool) -> SnapshotCompareScopeInfo {
    SnapshotCompareScopeInfo {
        acquisition_kind: None,
        capture_mode: None,
        launcher_detected_version: None,
        launcher_reuse_version: None,
        launcher_version_matches_snapshot: None,
        manifest_resource_count: manifest,
        manifest_matched_assets: 0,
        manifest_unmatched_snapshot_assets: 0,
        assets_with_asset_hash: 0,
        assets_with_any_hash: 0,
        assets_with_signature: 0,
        assets_with_source_context: 0,
        assets_with_rich_metadata: 0,
        meaningfully_enriched_assets: 0,
        extractor_record_count: 0,
        extractor_records_with_hashes: 0,
        extractor_records_with_source_context: 0,
        extractor_records_with_rich_metadata: 0,
        extractor_inventory_schema_version: None,
        extractor_inventory_version_id: None,
        extractor_inventory_version_matches_snapshot: None,
        launcher_version_matches_extractor_inventory: None,
        mostly_install_or_package_level: false,
        meaningful_content_coverage: true,
        meaningful_character_coverage: true,
        meaningful_asset_record_enrichment: enriched,
        content_like_path_count: 0,
        character_path_count: 0,
        non_content_path_count: 0,
        low_signal_for_character_analysis: false,
        note: None,
    }
}

fn report(
    removed: Vec<SnapshotAssetChange>,
    changed: Vec<SnapshotAssetChange>,
    candidates: Vec<CandidateMappingChange>,
) -> SnapshotCompareReport {
    let delta = AssetDelta {
        added_assets: Vec::new(),
        removed_assets: removed.clone(),
        changed_assets: changed.clone(),
        unchanged_assets: 0,
    };
    let lineages: Vec<AssetLineageKind> = candidates.iter().map(|c| c.lineage).collect();
    let mut summary = summarize_compare(2, 2, &delta, &lineages, 0, 0);
    summary.lineage_layout_drift_assets = 1;
    SnapshotCompareReport {
        schema_version: "whashreonator.snapshot-compare.v1".to_string(),
        old_snapshot: SnapshotVersionInfo {
            version_id: "2.4.0".to_string(),
            source_root: "old".to_string(),
            asset_count: 2,
        },
        new_snapshot: SnapshotVersionInfo {
            version_id: "2.5.0".to_string(),
            source_root: "new".to_string(),
            asset_count: 2,
        },
        scope: SnapshotCompareScopeContext {
            old_snapshot: scope_info(0, true),
            new_snapshot: scope_info(0, true),
            low_signal_compare: false,
            scope_narrowing_detected: false,
            scope_induced_removals_likely: false,
            notes: Vec::new(),
        },
        summary,
        added_assets: Vec::new(),
        removed_assets: removed,
        changed_assets: changed,
        candidate_mapping_changes: candidates,
    }
}

fn sample() -> SnapshotCompareReport {
    report(
        vec![change(SnapshotChangeType::Removed, Some(SWORD), None, &["path_presence"])],
        vec![change(
            SnapshotChangeType::Changed,
            Some(BODY),
            Some(BODY),
            &["vertex_count", "container_path"],
        )],
        vec![candidate(RemapCompatibility::StructurallyRisky, &["container_path_exact"])],
    )
}

fn strings(v: &[&str]) -> Vec<String> {
    v.iter().map(|s| s.to_string()).collect()
}

#[test]
fn projection_signals_name_each_surface_trigger() {
    let r = sample();
    assert_eq!(
        mapping_hash_projection_signals(&r),
        strings(&["removed_assets", "candidate_mapping_changes"])
    );
    assert_eq!(
        buffer_layout_projection_signals(&r),
        strings(&[
            "structural_changed_assets",
            "structurally_risky_candidate_remaps",
            "lineage_layout_drift"
        ])
    );
    assert_eq!(
        resource_skeleton_projection_signals(&r),
        strings(&["container_moved_assets", "resource_or_skeleton_field_drift"])
    );
    assert_eq!(
        draw_call_filter_hook_projection_signals(&r),
        strings(&["candidate_mapping_changes", "removed_assets", "hook_targeting_context_drift"])
    );
}

#[test]
fn affected_assets_are_sorted_and_distinct() {
    let r = sample();
    assert_eq!(
        game_side_surface_affected_assets(&r, &WwmiModDependencySurfaceClass::MappingHash),
        strings(&[SWORD, SWORD_V2])
    );
    assert_eq!(
        game_side_surface_affected_assets(&r, &WwmiModDependencySurfaceClass::BufferLayout),
        strings(&[BODY, SWORD, SWORD_V2])
    );
    assert_eq!(resource_or_skeleton_affected_assets(&r), strings(&[BODY, SWORD, SWORD_V2]));
    assert!(has_hook_targeting_review_surface(&r));
    assert!(is_resource_or_skeleton_candidate(&r.candidate_mapping_changes[0]));
}

#[test]
fn game_side_surfaces_skip_silent_ones() {
    let r = sample();
    let surfaces = collect_game_side_surfaces(&r);
    assert_eq!(surfaces.len(), 4);
    assert_eq!(surfaces[0].surface_class, WwmiModDependencySurfaceClass::MappingHash);
    assert_eq!(surfaces[3].surface_class, WwmiModDependencySurfaceClass::DrawCallFilterHook);
    assert_eq!(surfaces[3].affected_assets, strings(&[BODY, SWORD, SWORD_V2]));

    let quiet = report(
        Vec::new(),
        vec![change(SnapshotChangeType::Changed, Some(BODY), Some(BODY), &["tags"])],
        Vec::new(),
    );
    let surfaces = collect_game_side_surfaces(&quiet);
    assert_eq!(surfaces.len(), 1);
    assert_eq!(surfaces[0].surface_class, WwmiModDependencySurfaceClass::BufferLayout);
    assert_eq!(surfaces[0].compare_signals, strings(&["lineage_layout_drift"]));
    assert!(surfaces[0].affected_assets.is_empty());
    assert!(!has_hook_targeting_review_surface(&quiet));
    assert!(game_side_surface_affected_assets(&quiet, &WwmiModDependencySurfaceClass::DrawCallFilterHook)
        .is_empty());
}

#[test]
fn shallow_coverage_gets_a_caution_note() {
    let mut notes = vec!["first".to_string()];
    append_scope_capture_quality_guardrail(&mut notes, &scope_info(3, false));
    assert_eq!(notes.len(), 2);
    assert!(notes[1].starts_with("manifest/hash coverage is present"));
    append_scope_capture_quality_guardrail(&mut notes, &scope_info(3, true));
    append_scope_capture_quality_guardrail(&mut notes, &scope_info(0, false));
    assert_eq!(notes.len(), 2);
}
