use whashreonator::compare::RiskLevel;
use whashreonator::human_summary::HumanSummaryRenderer;
use whashreonator::inference::{
    InferenceCompareInput, InferenceKnowledgeInput, InferenceReport, InferenceScopeContext,
    InferenceSummary, InferenceSurfaceIntersection, InferenceSurfaceOverlapPosture,
    InferredMappingContinuityContext, ProbableCrashCause, SuggestedFix,
};
use whashreonator::proposal::{
    MappingProposalEntry, MappingProposalOutput, MappingProposalSummary, ProposalArtifacts,
};
use whashreonator::remap_summary::mapping_review_rank;
use whashreonator::report::{ProposalStatus, VersionContinuityRelation};

fn strings(items: &[&str]) -> Vec<String> {
    items.iter().map(|item| item.to_string()).collect()
}

fn report(
    old: &str,
    new: &str,
    causes: Vec<ProbableCrashCause>,
    fixes: Vec<SuggestedFix>,
) -> InferenceReport {
    InferenceReport {
        schema_version: "whashreonator.inference.v1".to_string(),
        generated_at_unix_ms: 1,
        compare_input: InferenceCompareInput {
            old_version_id: old.to_string(),
            new_version_id: new.to_string(),
            changed_assets: 1,
            added_assets: 1,
            removed_assets: 1,
            candidate_mapping_changes: 1,
        },
        knowledge_input: InferenceKnowledgeInput {
            repo: "repo".to_string(),
            analyzed_commits: 10,
            fix_like_commits: 6,
            discovered_patterns: 3,
        },
        mod_dependency_input: None,
        scope: InferenceScopeContext {
            low_signal_compare: false,
            old_snapshot_low_signal: false,
            new_snapshot_low_signal: false,
            notes: vec![],
        },
        summary: InferenceSummary {
            probable_crash_causes: causes.len(),
            suggested_fixes: fixes.len(),
            candidate_mapping_hints: 0,
            highest_confidence_milli: 910,
        },
        probable_crash_causes: causes,
        suggested_fixes: fixes,
        candidate_mapping_hints: vec![],
        surface_intersection: InferenceSurfaceIntersection {
            mod_side_surfaces: vec![],
            game_side_surfaces: vec![],
            overlapping_surface_classes: vec![],
            overlap_posture: InferenceSurfaceOverlapPosture::Absent,
            weak_or_absent_overlap: true,
            notes: vec![],
        },
    }
}

fn cause(code: &str, milli: u32, risk: RiskLevel, asset: &str) -> ProbableCrashCause {
    ProbableCrashCause {
        code: code.to_string(),
        summary: format!("{code} summary"),
        confidence_milli: milli,
        risk,
        affected_assets: strings(&[asset]),
        reasons: strings(&["reason"]),
        evidence: strings(&["evidence"]),
    }
}

fn fix(code: &str, milli: u32, priority: RiskLevel) -> SuggestedFix {
    SuggestedFix {
        code: code.to_string(),
        summary: format!("{code} summary"),
        confidence_milli: milli,
        priority,
        actions: strings(&["act"]),
        reasons: strings(&["why"]),
        evidence: vec![],
    }
}

fn entry(
    old: &str,
    new: &str,
    milli: u32,
    status: ProposalStatus,
    reasons: &[&str],
    evidence: &[&str],
    continuity: Option<InferredMappingContinuityContext>,
) -> MappingProposalEntry {
    MappingProposalEntry {
        old_asset_path: old.to_string(),
        new_asset_path: new.to_string(),
        confidence_milli: milli,
        status,
        reasons: strings(reasons),
        evidence: strings(evidence),
        related_fix_codes: vec![],
        continuity,
    }
}

fn proposals(mappings: Vec<MappingProposalEntry>) -> ProposalArtifacts {
    let proposed = mappings.iter().filter(|m| m.status == ProposalStatus::Proposed).count();
    let review = mappings.len() - proposed;
    ProposalArtifacts {
        mapping_proposal: MappingProposalOutput {
            schema_version: "whashreonator.mapping-proposal.v1".to_string(),
            min_confidence_milli: 850,
            summary: MappingProposalSummary {
                total_mapping_candidates: mappings.len(),
                proposed_mappings: proposed,
                needs_review_mappings: review,
                highest_confidence_milli: 930,
            },
            mappings,
        },
    }
}

#[test]
fn renderer_outputs_human_readable_sections() {
    let inference = report(
        "2.4.0",
        "2.5.0",
        vec![
            cause("asset_removed_without_clear_replacement", 720, RiskLevel::Medium, "Content/Weapon/Old.weapon"),
            cause("buffer_layout_changed", 910, RiskLevel::High, "Content/Character/Encore/Body.mesh"),
        ],
        vec![
            fix("review_runtime_init_path", 440, RiskLevel::Low),
            fix("review_candidate_asset_remaps", 880, RiskLevel::High),
        ],
    );
    let props = proposals(vec![
        entry(
            "Content/Character/Encore/Hair.mesh",
            "Content/Character/Encore/Hair_LOD0.mesh",
            890,
            ProposalStatus::Proposed,
            &["same_parent_directory: same folder"],
            &["compare candidate confidence 0.890"],
            None,
        ),
        entry(
            "Content/Weapon/Old.weapon",
            "Content/Weapon/New.weapon",
            610,
            ProposalStatus::NeedsReview,
            &["ambiguous runner-up remap candidate"],
            &["mapping hint marked ambiguous with confidence gap 0.030"],
            None,
        ),
        entry(
            "Content/Character/Encore/Body.mesh",
            "Content/Character/Encore/Body_v2.mesh",
            930,
            ProposalStatus::NeedsReview,
            &["high-risk structural drift blocks this remap"],
            &["blocking crash cause buffer_layout_changed"],
            None,
        ),
    ]);

    let markdown = HumanSummaryRenderer {}.render(&inference, &props);

    assert!(markdown.starts_with("# WhashReonator Summary\n\n- Versions: `2.4.0` -> `2.5.0`\n"));
    assert!(markdown.contains("- Highest confidence: 0.930"));
    assert!(markdown.contains("## Fix Before Remap"));
    assert!(markdown.contains("### Likely Crash Causes"));
    assert!(markdown.contains("- `buffer_layout_changed` [High, 0.910] buffer_layout_changed summary"));
    assert!(markdown.contains("### Suggested Fixes"));
    assert!(markdown.contains("## Safe To Try Now"));
    assert!(markdown.contains("### Proposed Mappings"));
    assert!(markdown.contains("Hair.mesh"));
    assert!(!markdown.contains("### Continuity Caution"));
    assert!(markdown.find("buffer_layout_changed") < markdown.find("asset_removed_without_clear_replacement"));
    assert!(markdown.find("review_candidate_asset_remaps") < markdown.find("review_runtime_init_path"));
    assert!(
        markdown.find("- `Content/Character/Encore/Body.mesh` ->")
            < markdown.find("- `Content/Weapon/Old.weapon` ->")
    );
    assert!(
        markdown.find("Content/Character/Encore/Body.mesh")
            < markdown.find("Content/Weapon/Old.weapon")
    );
    assert!(markdown.ends_with("- Re-scan snapshots when richer game metadata or hashes become available."));
}

#[test]
fn renderer_surfaces_continuity_backed_caution() {
    let continuity = InferredMappingContinuityContext {
        thread_id: Some("encore_body".to_string()),
        first_seen_version: Some("7.0.0".to_string()),
        latest_observed_version: Some("8.2.0".to_string()),
        latest_live_version: None,
        stable_before_current_change: false,
        total_rename_steps: 1,
        total_container_movement_steps: 0,
        total_layout_drift_steps: 0,
        review_required_history: true,
        terminal_relation: Some(VersionContinuityRelation::Removed),
        terminal_version: Some("8.2.0".to_string()),
        terminal_after_current: true,
        instability_detected: true,
    };
    let inference = report(
        "8.0.0",
        "8.1.0",
        vec![cause("continuity_thread_instability", 830, RiskLevel::High, "Content/Character/Encore/Body.mesh")],
        vec![fix("review_continuity_thread_history_before_repair", 810, RiskLevel::High)],
    );
    let props = proposals(vec![entry(
        "Content/Character/Encore/Body.mesh",
        "Content/Character/Encore/Body_v2.mesh",
        920,
        ProposalStatus::NeedsReview,
        &["same_parent_directory: same folder"],
        &["compare candidate confidence 0.920"],
        Some(continuity),
    )]);
    assert_eq!(mapping_review_rank(&props.mapping_proposal.mappings[0]), 4);

    let markdown = HumanSummaryRenderer {}.render(&inference, &props);

    assert!(markdown.contains("- Continuity-backed caution: causes=1, fixes=1, review_only_mappings=1"));
    assert!(markdown.contains("Continuity-backed caution"));
    assert!(markdown.contains("### Continuity Caution"));
    assert!(markdown.contains("broader continuity history"));
    assert!(markdown.contains("Continuity:"));
    assert!(markdown.contains("Continuity evidence:"));
    assert!(markdown.contains(
        "  Continuity: broader continuity history later reaches terminal state removed in 8.2.0"
    ));
    assert!(markdown.contains("Continuity evidence: thread span 7.0.0 -> 8.2.0"));
    assert!(markdown.contains("- Review broader continuity thread history before trusting remap-only repair"));
}

#[test]
fn summary_without_findings_says_nothing_blocks() {
    let inference = report("1.0", "1.1", vec![], vec![]);
    let markdown = HumanSummaryRenderer {}.render(&inference, &proposals(vec![]));
    assert!(markdown.contains("## Fix Before Remap\n- No blocking issue was inferred before remapping.\n"));
    assert!(markdown.contains("- No mapping candidate is strong enough to propose automatically."));
}

#[test]
fn mod_dependency_reason_ranks_a_mapping_first() {
    let e = entry(
        "a",
        "b",
        500,
        ProposalStatus::NeedsReview,
        &["mod_dependency_surface: hash-bound ini"],
        &[],
        None,
    );
    assert_eq!(mapping_review_rank(&e), 5);
    let plain = entry("a", "b", 500, ProposalStatus::NeedsReview, &["plain"], &[], None);
    assert_eq!(mapping_review_rank(&plain), 1);
}
