use whashreonator::compare::change::{SnapshotAssetChange, SnapshotAssetSummary};
use whashreonator::compare::outcome::{CandidateMappingChange, SnapshotCompareReport};
use whashreonator::compare::scope::{
    SnapshotCompareScopeContext, SnapshotCompareScopeInfo, SnapshotVersionInfo,
};
use whashreonator::compare::{
    AssetLineageKind, RemapCompatibility, RiskLevel, SnapshotChangeType, SnapshotCompareReason,
    SnapshotCompareSummary,
};
use whashreonator::domain::{AssetInternalStructure, AssetSourceContext};
use whashreonator::findings::{WwmiFixPattern, WwmiKnowledgeBase, WwmiPatternKind};
use whashreonator::inference::{
    FixInferenceEngine, InferenceReport, InferenceSurfaceIntersection,
    InferenceSurfaceOverlapPosture, InferredMappingHint, ProbableCrashCause, SuggestedFix,
};
use whashreonator::continuity::build_inference_continuity_context;
use whashreonator::inference::{
    InferenceModDependencyInput, ModDependencySurfaceSummary, WwmiModDependencyKind,
    WwmiModDependencySurfaceClass,
};
use whashreonator::inference_engine::{apply_low_signal_inference_guardrails, base_scope_notes};
use whashreonator::mod_adjust::ModDependencyInsights;
use whashreonator::report::{
    TechnicalMetadata, VersionContinuityIndex, VersionContinuityObservation,
    VersionContinuityRelation, VersionContinuityThread, VersionedItem,
};

fn asset_summary(path: &str) -> SnapshotAssetSummary {
    SnapshotAssetSummary {
        id: path.to_string(),
        path: path.to_string(),
        kind: Some("mesh".to_string()),
        logical_name: Some("Asset".to_string()),
        normalized_name: Some("asset".to_string()),
        vertex_count: Some(1000),
        index_count: Some(2000),
        material_slots: Some(1),
        section_count: Some(1),
        vertex_stride: None,
        vertex_buffer_count: None,
        index_format: None,
        primitive_topology: None,
        layout_markers: Vec::new(),
        internal_structure: AssetInternalStructure::default(),
        asset_hash: None,
        shader_hash: None,
        signature: None,
        tags: vec!["character".to_string()],
        source: AssetSourceContext::default(),
    }
}

fn scope_info() -> SnapshotCompareScopeInfo {
    SnapshotCompareScopeInfo {
        acquisition_kind: None,
        capture_mode: None,
        launcher_detected_version: None,
        launcher_reuse_version: None,
        launcher_version_matches_snapshot: None,
        manifest_resource_count: 0,
        manifest_matched_assets: 0,
        manifest_unmatched_snapshot_assets: 0,
        assets_with_asset_hash: 0,
        assets_with_any_hash: 0,
        assets_with_signature: 0,
        assets_with_source_context: 0,
        assets_with_rich_metadata: 0,
        meaningfully_enriched_assets: 0,
        extractor_record_count: 0,
        extractor_records_with_hashes: 0,
        extractor_records_with_source_context: 0,
        extractor_records_with_rich_metadata: 0,
        extractor_inventory_schema_version: None,
        extractor_inventory_version_id: None,
        extractor_inventory_version_matches_snapshot: None,
        launcher_version_matches_extractor_inventory: None,
        mostly_install_or_package_level: false,
        meaningful_content_coverage: false,
        meaningful_character_coverage: false,
        meaningful_asset_record_enrichment: false,
        content_like_path_count: 0,
        character_path_count: 0,
        non_content_path_count: 0,
        low_signal_for_character_analysis: false,
        note: None,
    }
}

fn low_signal_info(content: usize, character: usize, non_content: usize, note: &str) -> SnapshotCompareScopeInfo {
    let mut info = scope_info();
    info.acquisition_kind = Some("shallow_filesystem_inventory".to_string());
    info.capture_mode = Some("local_filesystem_inventory".to_string());
    info.mostly_install_or_package_level = true;
    info.content_like_path_count = content;
    info.character_path_count = character;
    info.non_content_path_count = non_content;
    info.low_signal_for_character_analysis = true;
    info.note = Some(note.to_string());
    info
}

fn default_scope() -> SnapshotCompareScopeContext {
    SnapshotCompareScopeContext {
        old_snapshot: scope_info(),
        new_snapshot: scope_info(),
        low_signal_compare: false,
        scope_narrowing_detected: false,
        scope_induced_removals_likely: false,
        notes: Vec::new(),
    }
}

fn summary(total: usize, added: usize, removed: usize, changed: usize, candidates: usize, high: usize) -> SnapshotCompareSummary {
    SnapshotCompareSummary {
        total_old_assets: total,
        total_new_assets: total,
        unchanged_assets: 0,
        added_assets: added,
        removed_assets: removed,
        changed_assets: changed,
        candidate_mapping_changes: candidates,
        identity_changed_assets: 0,
        layout_changed_assets: 0,
        structural_changed_assets: changed,
        naming_only_changed_assets: 0,
        cosmetic_only_changed_assets: 0,
        provenance_changed_assets: 0,
        container_moved_assets: 0,
        lineage_rename_or_repath_assets: 0,
        lineage_container_movement_assets: 0,
        lineage_layout_drift_assets: 0,
        lineage_replacement_assets: 0,
        lineage_ambiguous_assets: 0,
        lineage_insufficient_evidence_assets: 0,
        ambiguous_candidate_mapping_changes: 0,
        high_confidence_candidate_mapping_changes: high,
    }
}

fn version(id: &str, root: &str, count: usize) -> SnapshotVersionInfo {
    SnapshotVersionInfo {
        version_id: id.to_string(),
        source_root: root.to_string(),
        asset_count: count,
    }
}

fn reason(code: &str, message: &str) -> SnapshotCompareReason {
    SnapshotCompareReason {
        code: code.to_string(),
        message: message.to_string(),
    }
}

fn removed(path: &str, lineage: AssetLineageKind) -> SnapshotAssetChange {
    SnapshotAssetChange {
        change_type: SnapshotChangeType::Removed,
        old_asset: Some(asset_summary(path)),
        new_asset: None,
        changed_fields: vec!["path_presence".to_string()],
        probable_impact: RiskLevel::Medium,
        crash_risk: RiskLevel::Medium,
        suspected_mapping_change: true,
        lineage,
        reasons: vec![reason("asset_removed", "old path removed")],
    }
}

fn candidate(
    old: &str,
    new: &str,
    confidence_milli: u32,
    compatibility: RemapCompatibility,
    lineage: AssetLineageKind,
    reasons: Vec<SnapshotCompareReason>,
    runner_up: Option<u32>,
    gap: Option<u32>,
) -> CandidateMappingChange {
    CandidateMappingChange {
        old_asset: asset_summary(old),
        new_asset: asset_summary(new),
        confidence_milli,
        compatibility,
        lineage,
        reasons,
        runner_up_confidence_milli: runner_up,
        confidence_gap_milli: gap,
        ambiguous: false,
    }
}

fn pattern(kind: WwmiPatternKind, frequency: usize, likelihood_milli: u32, commit: &str) -> WwmiFixPattern {
    WwmiFixPattern {
        kind,
        frequency,
        average_fix_likelihood_milli: likelihood_milli,
        example_commits: vec![commit.to_string()],
    }
}

fn knowledge(analyzed: usize, fix_like: usize, discovered: usize, patterns: Vec<WwmiFixPattern>) -> WwmiKnowledgeBase {
    WwmiKnowledgeBase {
        repo: "repo".to_string(),
        analyzed_commits: analyzed,
        fix_like_commits: fix_like,
        discovered_patterns: discovered,
        patterns,
    }
}

fn no_surfaces() -> InferenceSurfaceIntersection {
    InferenceSurfaceIntersection {
        mod_side_surfaces: Vec::new(),
        game_side_surfaces: Vec::new(),
        overlapping_surface_classes: Vec::new(),
        overlap_posture: InferenceSurfaceOverlapPosture::Absent,
        weak_or_absent_overlap: true,
        notes: Vec::new(),
    }
}

fn infer(report: &SnapshotCompareReport, kb: &WwmiKnowledgeBase) -> InferenceReport {
    FixInferenceEngine {}.infer_with_context(report, kb, None, None, Vec::new(), no_surfaces(), 7)
}

#[test]
fn inference_combines_compare_and_wwmi_patterns() {
    let compare_report = SnapshotCompareReport {
        schema_version: "whashreonator.snapshot-compare.v1".to_string(),
        old_snapshot: version("2.4.0", "old", 2),
        new_snapshot: version("2.5.0", "new", 2),
        scope: default_scope(),
        summary: summary(2, 1, 1, 1, 1, 0),
        added_assets: Vec::new(),
        removed_assets: vec![removed("Content/Weapon/Sword.weapon", AssetLineageKind::InsufficientEvidence)],
        changed_assets: vec![SnapshotAssetChange {
            change_type: SnapshotChangeType::Changed,
            old_asset: Some(asset_summary("Content/Character/HeroA/Body.mesh")),
            new_asset: Some(asset_summary("Content/Character/HeroA/Body.mesh")),
            changed_fields: vec!["vertex_count".to_string(), "section_count".to_string()],
            probable_impact: RiskLevel::High,
            crash_risk: RiskLevel::High,
            suspected_mapping_change: true,
            lineage: AssetLineageKind::LayoutDrift,
            reasons: vec![reason("vertex_count_changed", "vertex count changed")],
        }],
        candidate_mapping_changes: vec![candidate(
            "Content/Weapon/Sword.weapon",
            "Content/Weapon/Sword_v2.weapon",
            820,
            RemapCompatibility::CompatibleWithCaution,
            AssetLineageKind::RenameOrRepath,
            vec![reason("normalized_name_exact", "normalized name matched")],
            None,
            None,
        )],
    };
    let kb = knowledge(
        10,
        6,
        3,
        vec![
            pattern(WwmiPatternKind::BufferLayoutOrCapacityFix, 2, 800, "abc123"),
            pattern(WwmiPatternKind::MappingOrHashUpdate, 3, 750, "def456"),
            pattern(WwmiPatternKind::RuntimeConfigChange, 1, 700, "ghi789"),
        ],
    );

    let report = infer(&compare_report, &kb);

    assert!(report.probable_crash_causes.iter().any(|cause| cause.code == "buffer_layout_changed"));
    assert!(report
        .probable_crash_causes
        .iter()
        .any(|cause| cause.code == "asset_paths_or_mapping_shifted"));
    assert!(report.suggested_fixes.iter().any(|fix| fix.code == "review_candidate_asset_remaps"));
    assert_eq!(report.candidate_mapping_hints.len(), 1);
    assert!(!report.candidate_mapping_hints[0].ambiguous);
    assert_eq!(
        report.candidate_mapping_hints[0].compatibility,
        RemapCompatibility::CompatibleWithCaution
    );
    assert!(report.summary.highest_confidence_milli >= 750);
    assert!(!report.scope.low_signal_compare);
}

#[test]
fn inference_adds_low_signal_caution_without_stopping_generation() {
    let mut compare_report = SnapshotCompareReport {
        schema_version: "whashreonator.snapshot-compare.v1".to_string(),
        old_snapshot: version("3.0.0", "old", 1),
        new_snapshot: version("3.1.0", "new", 1),
        scope: SnapshotCompareScopeContext {
            old_snapshot: low_signal_info(1, 0, 2, "install-level snapshot"),
            new_snapshot: low_signal_info(1, 0, 3, "install-level snapshot"),
            low_signal_compare: true,
            scope_narrowing_detected: false,
            scope_induced_removals_likely: false,
            notes: vec!["low-signal compare scope".to_string()],
        },
        summary: summary(1, 1, 1, 0, 1, 1),
        added_assets: Vec::new(),
        removed_assets: vec![removed(
            "Client/Content/Paks/pakchunk0-WindowsNoEditor.pak",
            AssetLineageKind::InsufficientEvidence,
        )],
        changed_assets: Vec::new(),
        candidate_mapping_changes: vec![candidate(
            "Client/Content/Paks/pakchunk0-WindowsNoEditor.pak",
            "Client/Content/Paks/pakchunk1-WindowsNoEditor.pak",
            900,
            RemapCompatibility::InsufficientEvidence,
            AssetLineageKind::ContainerMovement,
            vec![reason("same_parent_directory", "same folder")],
            None,
            None,
        )],
    };
    compare_report.summary.candidate_mapping_changes = compare_report.candidate_mapping_changes.len();
    compare_report.summary.removed_assets = compare_report.removed_assets.len();
    let kb = knowledge(1, 1, 1, vec![pattern(WwmiPatternKind::MappingOrHashUpdate, 1, 800, "abc")]);

    let report = infer(&compare_report, &kb);

    assert!(report.scope.low_signal_compare);
    assert!(report.scope.notes.iter().any(|note| note.contains("low-signal")));
    assert!(!report.candidate_mapping_hints.is_empty());
    assert!(report.candidate_mapping_hints[0].needs_review);
    assert_eq!(
        report.candidate_mapping_hints[0].compatibility,
        RemapCompatibility::InsufficientEvidence
    );
    assert!(report.candidate_mapping_hints[0]
        .reasons
        .iter()
        .any(|reason| reason.contains("low-signal")));
}

#[test]
fn inference_keeps_strong_structural_remaps_visible_in_low_signal_scope() {
    let compare_report = SnapshotCompareReport {
        schema_version: "whashreonator.snapshot-compare.v1".to_string(),
        old_snapshot: version("2.4.0", "old", 1),
        new_snapshot: version("2.5.0", "new", 1),
        scope: SnapshotCompareScopeContext {
            old_snapshot: low_signal_info(2, 1, 2, "legacy low-signal snapshot"),
            new_snapshot: low_signal_info(2, 1, 2, "legacy low-signal snapshot"),
            low_signal_compare: true,
            scope_narrowing_detected: false,
            scope_induced_removals_likely: false,
            notes: vec!["low-signal compare scope".to_string()],
        },
        summary: summary(1, 1, 1, 0, 1, 1),
        added_assets: Vec::new(),
        removed_assets: Vec::new(),
        changed_assets: Vec::new(),
        candidate_mapping_changes: vec![candidate(
            "Content/Character/Encore/Hair.mesh",
            "Content/Character/Encore/Hair_LOD0.mesh",
            960,
            RemapCompatibility::LikelyCompatible,
            AssetLineageKind::RenameOrRepath,
            vec![
                reason("normalized_name_exact", "same logical asset"),
                reason("same_parent_directory", "same folder"),
                reason("structural_layout_compatible", "layout signals stayed aligned"),
            ],
            Some(700),
            Some(260),
        )],
    };
    let kb = knowledge(1, 1, 1, vec![pattern(WwmiPatternKind::MappingOrHashUpdate, 1, 800, "abc")]);

    let report = infer(&compare_report, &kb);

    assert_eq!(
        report.candidate_mapping_hints[0].compatibility,
        RemapCompatibility::LikelyCompatible
    );
    assert!(report.candidate_mapping_hints[0].needs_review);
}

fn single_candidate_report(
    old: &str,
    new: &str,
    confidence_milli: u32,
    compatibility: RemapCompatibility,
    lineage: AssetLineageKind,
    reasons: Vec<SnapshotCompareReason>,
    gap: Option<u32>,
) -> SnapshotCompareReport {
    SnapshotCompareReport {
        schema_version: "whashreonator.snapshot-compare.v1".to_string(),
        old_snapshot: version("6.0.0", "old", 1),
        new_snapshot: version("6.1.0", "new", 1),
        scope: default_scope(),
        summary: summary(1, 1, 1, 0, 1, 1),
        added_assets: Vec::new(),
        removed_assets: Vec::new(),
        changed_assets: Vec::new(),
        candidate_mapping_changes: vec![candidate(
            old,
            new,
            confidence_milli,
            compatibility,
            lineage,
            reasons,
            None,
            gap,
        )],
    }
}

#[test]
fn inference_flags_structurally_drifted_remap_candidates() {
    let compare_report = single_candidate_report(
        "Content/Character/Encore/Body.mesh",
        "Content/Character/Encore/Body_v2.mesh",
        910,
        RemapCompatibility::StructurallyRisky,
        AssetLineageKind::LayoutDrift,
        vec![
            reason("signature_exact", "asset signature matched"),
            reason("same_asset_but_structural_drift", "structural fields drifted"),
            reason("vertex_count_mismatch", "vertex count changed"),
        ],
        Some(220),
    );
    let kb = knowledge(
        3,
        2,
        2,
        vec![
            pattern(WwmiPatternKind::BufferLayoutOrCapacityFix, 2, 850, "abc"),
            pattern(WwmiPatternKind::MappingOrHashUpdate, 2, 800, "def"),
        ],
    );

    let report = infer(&compare_report, &kb);

    assert!(report
        .probable_crash_causes
        .iter()
        .any(|cause| cause.code == "candidate_remap_structural_drift"));
    assert!(report
        .suggested_fixes
        .iter()
        .any(|fix| fix.code == "validate_candidate_remaps_against_layout"));
    assert_eq!(
        report.candidate_mapping_hints[0].compatibility,
        RemapCompatibility::StructurallyRisky
    );
    assert!(report.candidate_mapping_hints[0]
        .reasons
        .iter()
        .any(|reason| reason.contains("structural drift")));
}

#[test]
fn inference_surfaces_blocked_identity_conflicts() {
    let compare_report = single_candidate_report(
        "Content/Character/Encore/Face.mesh",
        "Content/Character/Encore/Face_LOD0.mesh",
        870,
        RemapCompatibility::IncompatibleBlocked,
        AssetLineageKind::Replacement,
        vec![
            reason("signature_mismatch", "signature changed"),
            reason("identity_conflict_detected", "identity conflict"),
        ],
        Some(180),
    );
    let kb = knowledge(
        2,
        2,
        2,
        vec![
            pattern(WwmiPatternKind::MappingOrHashUpdate, 2, 800, "abc"),
            pattern(WwmiPatternKind::ShaderLogicChange, 1, 700, "def"),
        ],
    );

    let report = infer(&compare_report, &kb);

    assert_eq!(
        report.candidate_mapping_hints[0].compatibility,
        RemapCompatibility::IncompatibleBlocked
    );
    assert!(report
        .probable_crash_causes
        .iter()
        .any(|cause| cause.code == "candidate_remap_identity_conflict"));
    assert!(report
        .suggested_fixes
        .iter()
        .any(|fix| fix.code == "inspect_identity_conflicts_before_remap"));
}

fn continuity_mapping_compare_report() -> SnapshotCompareReport {
    SnapshotCompareReport {
        schema_version: "whashreonator.snapshot-compare.v1".to_string(),
        old_snapshot: version("1.2.0", "old", 1),
        new_snapshot: version("1.3.0", "new", 1),
        scope: default_scope(),
        summary: summary(1, 1, 1, 0, 1, 1),
        added_assets: Vec::new(),
        removed_assets: vec![removed("Content/Character/Encore/Body.mesh", AssetLineageKind::RenameOrRepath)],
        changed_assets: Vec::new(),
        candidate_mapping_changes: vec![candidate(
            "Content/Character/Encore/Body.mesh",
            "Content/Character/Encore/Body_LOD0.mesh",
            950,
            RemapCompatibility::LikelyCompatible,
            AssetLineageKind::RenameOrRepath,
            vec![
                reason("normalized_name_exact", "same logical asset"),
                reason("same_parent_directory", "same folder"),
                reason("structural_layout_compatible", "layout stayed aligned"),
            ],
            None,
            Some(220),
        )],
    }
}

fn continuity_test_knowledge() -> WwmiKnowledgeBase {
    knowledge(
        2,
        2,
        2,
        vec![
            pattern(WwmiPatternKind::MappingOrHashUpdate, 2, 800, "abc"),
            pattern(WwmiPatternKind::BufferLayoutOrCapacityFix, 2, 850, "def"),
        ],
    )
}

#[test]
fn infer_with_none_continuity_keeps_pairwise_behavior() {
    let engine = FixInferenceEngine {};
    let compare_report = continuity_mapping_compare_report();
    let kb = continuity_test_knowledge();

    let mut pairwise = engine.infer_with_context(&compare_report, &kb, None, None, Vec::new(), no_surfaces(), 1);
    let mut with_none = engine.infer_with_context(&compare_report, &kb, None, None, Vec::new(), no_surfaces(), 2);

    pairwise.generated_at_unix_ms = 0;
    with_none.generated_at_unix_ms = 0;

    assert_eq!(pairwise, with_none);
}

#[test]
fn report_copies_inputs_and_counts_its_lists() {
    let compare_report = continuity_mapping_compare_report();
    let kb = continuity_test_knowledge();
    let report = FixInferenceEngine {}.infer_with_context(
        &compare_report,
        &kb,
        None,
        None,
        vec!["surface overlap posture: none".to_string()],
        no_surfaces(),
        42,
    );
    assert_eq!(report.schema_version, "whashreonator.inference.v1");
    assert_eq!(report.generated_at_unix_ms, 42);
    assert_eq!(report.compare_input.old_version_id, "1.2.0");
    assert_eq!(report.compare_input.new_version_id, "1.3.0");
    assert_eq!(report.compare_input.removed_assets, 1);
    assert_eq!(report.knowledge_input.repo, "repo");
    assert_eq!(report.knowledge_input.analyzed_commits, 2);
    assert!(report.mod_dependency_input.is_none());
    assert_eq!(report.scope.notes, vec!["surface overlap posture: none".to_string()]);
    assert_eq!(report.summary.probable_crash_causes, report.probable_crash_causes.len());
    assert_eq!(report.summary.suggested_fixes, report.suggested_fixes.len());
    assert_eq!(report.summary.candidate_mapping_hints, 1);
    // 0.55 + 0.25 * 0.80 + 0.05 = 0.80 for the remap cause; the hint blends 0.7 * 0.95 + 0.3 * 0.80 = 0.905.
    assert_eq!(report.probable_crash_causes[0].code, "asset_paths_or_mapping_shifted");
    assert_eq!(report.probable_crash_causes[0].confidence_milli, 800);
    assert_eq!(report.candidate_mapping_hints[0].confidence_milli, 905);
    assert_eq!(report.summary.highest_confidence_milli, 905);
}

fn cause(code: &str, confidence_milli: u32) -> ProbableCrashCause {
    ProbableCrashCause {
        code: code.to_string(),
        summary: String::new(),
        confidence_milli,
        risk: RiskLevel::Medium,
        affected_assets: Vec::new(),
        reasons: Vec::new(),
        evidence: Vec::new(),
    }
}

#[test]
fn causes_and_fixes_are_ranked_by_confidence_then_code() {
    let compare_report = SnapshotCompareReport {
        changed_assets: vec![SnapshotAssetChange {
            change_type: SnapshotChangeType::Changed,
            old_asset: Some(asset_summary("Content/A.mesh")),
            new_asset: Some(asset_summary("Content/A.mesh")),
            changed_fields: vec!["vertex_count".to_string(), "signature".to_string()],
            probable_impact: RiskLevel::High,
            crash_risk: RiskLevel::High,
            suspected_mapping_change: true,
            lineage: AssetLineageKind::LayoutDrift,
            reasons: Vec::new(),
        }],
        ..continuity_mapping_compare_report()
    };
    let report = infer(&compare_report, &continuity_test_knowledge());
    let confs: Vec<u32> = report.probable_crash_causes.iter().map(|c| c.confidence_milli).collect();
    assert!(confs.len() >= 2);
    for pair in report.probable_crash_causes.windows(2) {
        assert!(
            pair[0].confidence_milli > pair[1].confidence_milli
                || (pair[0].confidence_milli == pair[1].confidence_milli && pair[0].code <= pair[1].code)
        );
    }
    for pair in report.suggested_fixes.windows(2) {
        assert!(pair[0].confidence_milli >= pair[1].confidence_milli);
    }
}

#[test]
fn low_signal_guardrails_mark_every_finding() {
    let mut causes = vec![cause("a", 100)];
    let mut fixes = vec![SuggestedFix {
        code: "f".to_string(),
        summary: String::new(),
        confidence_milli: 100,
        priority: RiskLevel::Low,
        actions: Vec::new(),
        reasons: Vec::new(),
        evidence: Vec::new(),
    }];
    let mut hints = vec![InferredMappingHint {
        old_asset_path: "a".to_string(),
        new_asset_path: "b".to_string(),
        confidence_milli: 500,
        compatibility: RemapCompatibility::LikelyCompatible,
        needs_review: false,
        ambiguous: false,
        confidence_gap_milli: None,
        continuity: None,
        reasons: Vec::new(),
        evidence: Vec::new(),
    }];
    let scope = whashreonator::inference::InferenceScopeContext {
        low_signal_compare: true,
        old_snapshot_low_signal: true,
        new_snapshot_low_signal: true,
        notes: vec!["n1".to_string(), "n2".to_string(), "n3".to_string(), "n4".to_string()],
    };
    apply_low_signal_inference_guardrails(&mut causes, &mut fixes, &mut hints, &scope);
    assert_eq!(
        causes[0].reasons,
        vec!["low-signal compare scope limits semantic certainty; confidence should be interpreted conservatively".to_string()]
    );
    assert_eq!(
        causes[0].evidence,
        vec![
            "scope context: n1".to_string(),
            "scope context: n2".to_string(),
            "scope context: n3".to_string()
        ]
    );
    assert_eq!(
        fixes[0].reasons,
        vec!["low-signal compare scope limits semantic certainty; validate fixes manually before applying changes".to_string()]
    );
    assert_eq!(fixes[0].evidence.len(), 3);
    assert!(hints[0].needs_review);
    assert_eq!(
        hints[0].reasons,
        vec!["low-signal compare scope keeps this mapping hint in review-first mode".to_string()]
    );
}

#[test]
fn base_scope_notes_add_low_signal_scope_induced_and_shallow_capture_notes() {
    let mut report = continuity_mapping_compare_report();
    report.scope.notes = vec!["compare note".to_string()];
    report.scope.low_signal_compare = true;
    report.scope.scope_induced_removals_likely = true;
    report.scope.old_snapshot.manifest_resource_count = 3;
    let notes = base_scope_notes(&report);
    assert_eq!(notes.len(), 4);
    assert_eq!(notes[0], "compare note");
    assert!(notes[1].starts_with("inference confidence is conservative"));
    assert!(notes[2].starts_with("removed-only compare deltas"));
    assert!(notes[3].starts_with("manifest/hash coverage is present"));
}

fn continuity_layout_compare_report() -> SnapshotCompareReport {
    SnapshotCompareReport {
        schema_version: "whashreonator.snapshot-compare.v1".to_string(),
        old_snapshot: version("2.1.0", "old", 1),
        new_snapshot: version("2.2.0", "new", 1),
        scope: default_scope(),
        summary: summary(1, 1, 1, 0, 1, 1),
        added_assets: Vec::new(),
        removed_assets: vec![removed("Content/Character/Encore/Cloak.mesh", AssetLineageKind::LayoutDrift)],
        changed_assets: Vec::new(),
        candidate_mapping_changes: vec![candidate(
            "Content/Character/Encore/Cloak.mesh",
            "Content/Character/Encore/Cloak_v2.mesh",
            930,
            RemapCompatibility::CompatibleWithCaution,
            AssetLineageKind::RenameOrRepath,
            vec![
                reason("normalized_name_exact", "same logical asset"),
                reason("same_parent_directory", "same folder"),
            ],
            None,
            Some(180),
        )],
    }
}

fn continuity_mapping_hint(report: &InferenceReport) -> &InferredMappingHint {
    report
        .candidate_mapping_hints
        .iter()
        .find(|hint| hint.old_asset_path.contains("Body") || hint.old_asset_path.contains("Cloak"))
        .expect("mapping hint")
}

fn continuity_observation(
    from_version_id: &str,
    to_version_id: &str,
    from_path: &str,
    to_path: Option<&str>,
    relation: VersionContinuityRelation,
) -> VersionContinuityObservation {
    VersionContinuityObservation {
        from_version_id: from_version_id.to_string(),
        to_version_id: to_version_id.to_string(),
        from_path: from_path.to_string(),
        to_path: to_path.map(|p| p.to_string()),
        relation,
    }
}

fn continuity_item(path: &str) -> VersionedItem {
    VersionedItem {
        key: path.to_string(),
        label: path.to_string(),
        path: Some(path.to_string()),
        metadata: TechnicalMetadata::default(),
    }
}

fn infer_with_continuity(
    report: &SnapshotCompareReport,
    kb: &WwmiKnowledgeBase,
    continuity: Option<&VersionContinuityIndex>,
) -> InferenceReport {
    let context = continuity.map(|index| build_inference_continuity_context(report, index));
    FixInferenceEngine {}.infer_with_context(report, kb, context.as_ref(), None, Vec::new(), no_surfaces(), 7)
}

#[test]
fn inference_uses_continuity_history_for_mapping_review_and_new_fix() {
    let compare_report = continuity_mapping_compare_report();
    let kb = continuity_test_knowledge();
    let continuity = VersionContinuityIndex {
        threads: vec![VersionContinuityThread {
            thread_id: "1.0.0:Content/Character/Encore/Body.mesh".to_string(),
            anchor_version_id: "1.0.0".to_string(),
            anchor: continuity_item("Content/Character/Encore/Body.mesh"),
            observations: vec![
                continuity_observation(
                    "1.0.0",
                    "1.1.0",
                    "Content/Character/Encore/Body.mesh",
                    Some("Content/Character/Encore/Body.mesh"),
                    VersionContinuityRelation::Persisted,
                ),
                continuity_observation(
                    "1.1.0",
                    "1.2.0",
                    "Content/Character/Encore/Body.mesh",
                    Some("Content/Character/Encore/Body.mesh"),
                    VersionContinuityRelation::Persisted,
                ),
                continuity_observation(
                    "1.2.0",
                    "1.3.0",
                    "Content/Character/Encore/Body.mesh",
                    Some("Content/Character/Encore/Body_LOD0.mesh"),
                    VersionContinuityRelation::RenameOrRepath,
                ),
                continuity_observation(
                    "1.3.0",
                    "1.4.0",
                    "Content/Character/Encore/Body_LOD0.mesh",
                    None,
                    VersionContinuityRelation::Removed,
                ),
            ],
            review_required: false,
        }],
        thread_summaries: Vec::new(),
    };

    let base_report = infer_with_continuity(&compare_report, &kb, None);
    let continuity_report = infer_with_continuity(&compare_report, &kb, Some(&continuity));
    let base_hint = continuity_mapping_hint(&base_report);
    let continuity_hint = continuity_mapping_hint(&continuity_report);

    assert!(continuity_report
        .probable_crash_causes
        .iter()
        .any(|cause| cause.code == "continuity_thread_instability"));
    assert!(continuity_report
        .suggested_fixes
        .iter()
        .any(|fix| fix.code == "review_continuity_thread_history_before_repair"));
    assert!(base_report
        .probable_crash_causes
        .iter()
        .all(|cause| cause.code != "continuity_thread_instability"));
    assert!(base_report
        .suggested_fixes
        .iter()
        .all(|fix| fix.code != "review_continuity_thread_history_before_repair"));
    assert!(continuity_hint.confidence_milli < base_hint.confidence_milli);
    assert_eq!(continuity_hint.compatibility, RemapCompatibility::CompatibleWithCaution);
    assert!(continuity_hint
        .reasons
        .iter()
        .any(|reason| reason.contains("continuity kept this thread stable")));
    assert!(continuity_hint.reasons.iter().any(|reason| reason.contains("removed in 1.4.0")));
    assert!(continuity_hint
        .evidence
        .iter()
        .any(|evidence| evidence.contains("spans 1.0.0 -> 1.4.0")));
}

#[test]
fn inference_downgrades_mapping_hints_when_continuity_shows_repeated_layout_drift() {
    let compare_report = continuity_layout_compare_report();
    let kb = continuity_test_knowledge();
    let continuity = VersionContinuityIndex {
        threads: vec![VersionContinuityThread {
            thread_id: "2.0.0:Content/Character/Encore/Cloak.mesh".to_string(),
            anchor_version_id: "2.0.0".to_string(),
            anchor: continuity_item("Content/Character/Encore/Cloak.mesh"),
            observations: vec![
                continuity_observation(
                    "2.0.0",
                    "2.1.0",
                    "Content/Character/Encore/Cloak.mesh",
                    Some("Content/Character/Encore/Cloak.mesh"),
                    VersionContinuityRelation::LayoutDrift,
                ),
                continuity_observation(
                    "2.1.0",
                    "2.2.0",
                    "Content/Character/Encore/Cloak.mesh",
                    Some("Content/Character/Encore/Cloak_v2.mesh"),
                    VersionContinuityRelation::RenameOrRepath,
                ),
                continuity_observation(
                    "2.2.0",
                    "2.3.0",
                    "Content/Character/Encore/Cloak_v2.mesh",
                    Some("Content/Character/Encore/Cloak_v3.mesh"),
                    VersionContinuityRelation::LayoutDrift,
                ),
            ],
            review_required: true,
        }],
        thread_summaries: Vec::new(),
    };

    let base_report = infer_with_continuity(&compare_report, &kb, None);
    let continuity_report = infer_with_continuity(&compare_report, &kb, Some(&continuity));
    let base_hint = continuity_mapping_hint(&base_report);
    let continuity_hint = continuity_mapping_hint(&continuity_report);

    assert_eq!(base_hint.compatibility, RemapCompatibility::CompatibleWithCaution);
    assert_eq!(continuity_hint.compatibility, RemapCompatibility::StructurallyRisky);
    assert!(continuity_hint.confidence_milli < base_hint.confidence_milli);
    assert!(continuity_hint
        .reasons
        .iter()
        .any(|reason| reason.contains("repeated layout drift")));
    assert!(continuity_report
        .probable_crash_causes
        .iter()
        .any(|cause| cause.code == "continuity_thread_instability"));
    assert!(continuity_report
        .suggested_fixes
        .iter()
        .any(|fix| fix.code == "review_continuity_thread_history_before_repair"));
}

#[test]
fn continuity_instability_cause_counts_threads_and_blends_support() {
    // One unstable removed thread: 0.42 + 0.08 + 0.10 * 0.85 + 0.08 * 0.80 = 0.649.
    let compare_report = continuity_mapping_compare_report();
    let kb = continuity_test_knowledge();
    let continuity = VersionContinuityIndex {
        threads: vec![VersionContinuityThread {
            thread_id: "1.0.0:Content/Character/Encore/Body.mesh".to_string(),
            anchor_version_id: "1.0.0".to_string(),
            anchor: continuity_item("Content/Character/Encore/Body.mesh"),
            observations: vec![
                continuity_observation(
                    "1.2.0",
                    "1.3.0",
                    "Content/Character/Encore/Body.mesh",
                    Some("Content/Character/Encore/Body_LOD0.mesh"),
                    VersionContinuityRelation::RenameOrRepath,
                ),
                continuity_observation(
                    "1.3.0",
                    "1.4.0",
                    "Content/Character/Encore/Body_LOD0.mesh",
                    None,
                    VersionContinuityRelation::Removed,
                ),
            ],
            review_required: false,
        }],
        thread_summaries: Vec::new(),
    };
    let report = infer_with_continuity(&compare_report, &kb, Some(&continuity));
    let cause = report
        .probable_crash_causes
        .iter()
        .find(|cause| cause.code == "continuity_thread_instability")
        .expect("instability cause");
    assert_eq!(cause.confidence_milli, 649);
    assert_eq!(cause.risk, RiskLevel::Medium);
    assert_eq!(
        cause.reasons[0],
        "continuity surfaces 1 relevant thread(s) with repeated drift or terminal/review history"
    );
    assert_eq!(
        cause.evidence.last().unwrap(),
        "continuity-informed confidence blended instability count with WWMI buffer 0.850 and mapping 0.800 support"
    );
}

fn hook_surface() -> ModDependencySurfaceSummary {
    ModDependencySurfaceSummary {
        dependency_kinds: vec![WwmiModDependencyKind::ObjectGuid],
        signal_count: 2,
        source_files: vec!["mod.ini".to_string()],
        sections: vec!["TextureOverrideBody".to_string()],
        label: "hook-targeting-sensitive".to_string(),
    }
}

fn hook_insights() -> ModDependencyInsights {
    ModDependencyInsights {
        input: InferenceModDependencyInput {
            mod_name: Some("Encore Mod".to_string()),
            mod_root: "Mods/Encore".to_string(),
            ini_file_count: 1,
            signal_count: 2,
            dependency_kinds: vec![WwmiModDependencyKind::ObjectGuid],
        },
        mapping_hash: None,
        buffer_layout: None,
        resource_or_skeleton: None,
        hook_targeting: Some(hook_surface()),
    }
}

fn hook_overlap() -> InferenceSurfaceIntersection {
    InferenceSurfaceIntersection {
        mod_side_surfaces: Vec::new(),
        game_side_surfaces: Vec::new(),
        overlapping_surface_classes: vec![WwmiModDependencySurfaceClass::DrawCallFilterHook],
        overlap_posture: InferenceSurfaceOverlapPosture::Strong,
        weak_or_absent_overlap: false,
        notes: Vec::new(),
    }
}

#[test]
fn hook_targeting_mod_keeps_remaps_review_first() {
    let compare_report = continuity_mapping_compare_report();
    let kb = continuity_test_knowledge();
    let insights = hook_insights();
    let base = FixInferenceEngine {}.infer_with_context(&compare_report, &kb, None, None, Vec::new(), hook_overlap(), 7);
    let report = FixInferenceEngine {}.infer_with_context(
        &compare_report,
        &kb,
        None,
        Some(&insights),
        Vec::new(),
        hook_overlap(),
        7,
    );
    assert_eq!(report.mod_dependency_input.as_ref().unwrap().mod_root, "Mods/Encore");
    assert!(report.scope.notes.iter().any(|n| n
        .starts_with("mod dependency profile Encore Mod scanned 1 ini file(s), 2 signal(s), dependency kinds=")));
    assert!(base.mod_dependency_input.is_none());
    let hint = &report.candidate_mapping_hints[0];
    // 0.905 less 0.07; a likely-compatible remap is capped at caution.
    assert_eq!(hint.confidence_milli, base.candidate_mapping_hints[0].confidence_milli - 70);
    assert_eq!(hint.compatibility, RemapCompatibility::CompatibleWithCaution);
    assert!(hint.reasons.iter().any(|r| r
        == "mod_dependency_review_first: this mod uses hook-targeting-sensitive surfaces, so even plausible remaps require manual hook revalidation"));
    let cause = report
        .probable_crash_causes
        .iter()
        .find(|c| c.code == "mod_hook_targeting_surface_requires_manual_review")
        .expect("hook cause");
    // 0.42 + 0.18 * 0.80 = 0.564.
    assert_eq!(cause.confidence_milli, 564);
    assert_eq!(
        cause.affected_assets,
        vec![
            "Content/Character/Encore/Body.mesh".to_string(),
            "Content/Character/Encore/Body_LOD0.mesh".to_string()
        ]
    );
    let fix = report
        .suggested_fixes
        .iter()
        .find(|f| f.code == "review_draw_call_and_filter_hooks_before_remap")
        .expect("hook fix");
    // 0.44 + 0.15 * 0.80 = 0.560.
    assert_eq!(fix.confidence_milli, 560);
}

#[test]
fn mod_surface_without_overlap_changes_nothing() {
    let compare_report = continuity_mapping_compare_report();
    let kb = continuity_test_knowledge();
    let insights = hook_insights();
    let base = FixInferenceEngine {}.infer_with_context(&compare_report, &kb, None, None, Vec::new(), no_surfaces(), 7);
    let report = FixInferenceEngine {}.infer_with_context(
        &compare_report,
        &kb,
        None,
        Some(&insights),
        Vec::new(),
        no_surfaces(),
        7,
    );
    assert_eq!(report.probable_crash_causes, base.probable_crash_causes);
    assert_eq!(report.suggested_fixes, base.suggested_fixes);
    assert_eq!(report.candidate_mapping_hints, base.candidate_mapping_hints);
}

#[test]
fn continuity_without_a_matching_thread_changes_no_finding() {
    let compare_report = continuity_mapping_compare_report();
    let kb = continuity_test_knowledge();
    let unrelated = VersionContinuityIndex {
        threads: vec![VersionContinuityThread {
            thread_id: "1.0.0:Content/Other.mesh".to_string(),
            anchor_version_id: "1.0.0".to_string(),
            anchor: continuity_item("Content/Other.mesh"),
            observations: vec![continuity_observation(
                "1.2.0",
                "1.3.0",
                "Content/Other.mesh",
                None,
                VersionContinuityRelation::Removed,
            )],
            review_required: true,
        }],
        thread_summaries: Vec::new(),
    };
    let base = infer_with_continuity(&compare_report, &kb, None);
    let with_index = infer_with_continuity(&compare_report, &kb, Some(&unrelated));
    assert_eq!(with_index.probable_crash_causes, base.probable_crash_causes);
    assert_eq!(with_index.suggested_fixes, base.suggested_fixes);
    assert_eq!(with_index.candidate_mapping_hints, base.candidate_mapping_hints);
}
