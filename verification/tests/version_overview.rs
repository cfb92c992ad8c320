use whashreonator::compare::RiskLevel;
use whashreonator::gui_app::{VersionArtifactEntry, VersionArtifactKind};
use whashreonator::inference::{
    InferenceCompareInput, InferenceKnowledgeInput, InferenceReport, InferenceScopeContext,
    InferenceSummary, InferenceSurfaceIntersection, InferenceSurfaceOverlapPosture,
    InferredMappingContinuityContext, ProbableCrashCause, SuggestedFix,
};
use whashreonator::proposal::{
    MappingProposalEntry, MappingProposalOutput, MappingProposalSummary, ProposalPatchDraftAction,
    ProposalPatchDraftOutput,
};
use whashreonator::report::{ProposalStatus, VersionContinuityRelation};
use whashreonator::version_summary::render_version_summary;

fn continuity_flagged_inference() -> InferenceReport {
    InferenceReport {
        schema_version: "whashreonator.inference.v1".to_string(),
        generated_at_unix_ms: 1,
        compare_input: InferenceCompareInput {
            old_version_id: "8.0.0".to_string(),
            new_version_id: "8.1.0".to_string(),
            changed_assets: 0,
            added_assets: 1,
            removed_assets: 1,
            candidate_mapping_changes: 1,
        },
        knowledge_input: InferenceKnowledgeInput {
            repo: "repo".to_string(),
            analyzed_commits: 4,
            fix_like_commits: 2,
            discovered_patterns: 2,
        },
        mod_dependency_input: None,
        scope: InferenceScopeContext {
            low_signal_compare: false,
            old_snapshot_low_signal: false,
            new_snapshot_low_signal: false,
            notes: vec![],
        },
        summary: InferenceSummary {
            probable_crash_causes: 1,
            suggested_fixes: 1,
            candidate_mapping_hints: 1,
            highest_confidence_milli: 880,
        },
        probable_crash_causes: vec![ProbableCrashCause {
            code: "continuity_thread_instability".to_string(),
            summary: "broader continuity history is unstable".to_string(),
            confidence_milli: 830,
            risk: RiskLevel::High,
            affected_assets: vec!["Content/Character/Encore/Body.mesh".to_string()],
            reasons: vec!["continuity thread later degrades".to_string()],
            evidence: vec![],
        }],
        suggested_fixes: vec![SuggestedFix {
            code: "review_continuity_thread_history_before_repair".to_string(),
            summary: "review broader continuity history".to_string(),
            confidence_milli: 810,
            priority: RiskLevel::High,
            actions: vec!["inspect continuity milestones".to_string()],
            reasons: vec!["unstable thread history".to_string()],
            evidence: vec![],
        }],
        candidate_mapping_hints: vec![],
        surface_intersection: InferenceSurfaceIntersection {
            mod_side_surfaces: vec![],
            game_side_surfaces: vec![],
            overlapping_surface_classes: vec![],
            overlap_posture: InferenceSurfaceOverlapPosture::Absent,
            weak_or_absent_overlap: true,
            notes: vec![],
        },
    }
}

fn review_mapping() -> MappingProposalOutput {
    MappingProposalOutput {
        schema_version: "whashreonator.mapping-proposal.v1".to_string(),
        min_confidence_milli: 850,
        summary: MappingProposalSummary {
            total_mapping_candidates: 1,
            proposed_mappings: 0,
            needs_review_mappings: 1,
            highest_confidence_milli: 920,
        },
        mappings: vec![MappingProposalEntry {
            old_asset_path: "Content/Character/Encore/Body.mesh".to_string(),
            new_asset_path: "Content/Character/Encore/Body_v2.mesh".to_string(),
            confidence_milli: 920,
            status: ProposalStatus::NeedsReview,
            reasons: vec!["same_parent_directory: same folder".to_string()],
            evidence: vec![],
            related_fix_codes: vec![],
            continuity: Some(InferredMappingContinuityContext {
                thread_id: Some("encore_body".to_string()),
                first_seen_version: Some("7.0.0".to_string()),
                latest_observed_version: Some("8.2.0".to_string()),
                latest_live_version: None,
                stable_before_current_change: false,
                total_rename_steps: 1,
                total_container_movement_steps: 0,
                total_layout_drift_steps: 0,
                review_required_history: true,
                terminal_relation: Some(VersionContinuityRelation::Removed),
                terminal_version: Some("8.2.0".to_string()),
                terminal_after_current: true,
                instability_detected: true,
            }),
        }],
    }
}

#[test]
fn version_summary_surfaces_continuity_backed_review_behavior() {
    let inference = continuity_flagged_inference();
    let mapping = review_mapping();
    let draft = ProposalPatchDraftOutput {
        schema_version: "whashreonator.proposal-patch-draft.v1".to_string(),
        mode: "draft".to_string(),
        min_confidence_milli: 850,
        actions: vec![],
    };
    let summary = render_version_summary(
        "8.1.0",
        None,
        None,
        Some(&inference),
        Some(&mapping),
        Some(&draft),
        Some("# summary"),
        &vec![],
    );

    assert!(summary.contains("Continuity caution: unstable_causes=1 review_fix=yes"));
    assert!(summary.contains("continuity cause [continuity_thread_instability]"));
    assert!(summary.contains("continuity-backed review mappings=1"));
    assert!(summary.contains("continuity review Content/Character/Encore/Body.mesh -> Content/Character/Encore/Body_v2.mesh"));
}

#[test]
fn version_summary_says_what_is_missing() {
    let artifacts = vec![VersionArtifactEntry {
        kind: VersionArtifactKind::Snapshot,
        path: "out/report/wuwa_1.0/snapshot.json".to_string(),
    }];
    let summary = render_version_summary("1.0", None, None, None, None, None, None, &artifacts);
    assert_eq!(
        summary,
        "Version: wuwa_1.0\nArtifacts: 1\nSnapshot: not found\nLatest report bundle: not found\n\
Inference: not found\nMapping proposal: not found\nPatch draft: not found\n\
Human summary preview: not found"
    );
}

#[test]
fn version_summary_lists_proposals_and_draft() {
    let mapping = review_mapping();
    let draft = ProposalPatchDraftOutput {
        schema_version: "whashreonator.proposal-patch-draft.v1".to_string(),
        mode: "draft".to_string(),
        min_confidence_milli: 850,
        actions: vec![ProposalPatchDraftAction {
            action: "review_mapping".to_string(),
            old_asset_path: "a".to_string(),
            new_asset_path: "b".to_string(),
            confidence_milli: 920,
        }],
    };
    let summary = render_version_summary(
        "8.1.0",
        None,
        None,
        None,
        Some(&mapping),
        Some(&draft),
        Some("line one\nline two\n"),
        &vec![],
    );
    assert!(summary.contains("Mapping proposal: proposed=0 review=1 total=1 highest_confidence=0.920"));
    assert!(summary.contains("  Content/Character/Encore/Body.mesh -> Content/Character/Encore/Body_v2.mesh | status=NeedsReview confidence=0.920"));
    assert!(summary.contains("later terminal state removed in 8.2.0 keeps this mapping review-first"));
    assert!(summary.contains("Patch draft: actions=1 min_confidence=0.850"));
    assert!(summary.ends_with("Human summary preview:\n  line one\n  line two"));
}
