use whashreonator::compare::RemapCompatibility;
use whashreonator::human_summary::{
    markdown_table_row, mapping_continuity_note, sanitize_markdown_table_cell,
    structured_continuity_evidence, structured_continuity_reason, ReviewBundleRenderer,
};
use whashreonator::inference::InferredMappingContinuityContext;
use whashreonator::report::{
    ProposalStatus, VersionContinuityRelation, VersionContinuityReviewSection,
    VersionDiffReportV2, VersionDiffSummary, VersionLineageSection, VersionReviewCause,
    VersionReviewFix, VersionReviewMapping, VersionReviewSection, VersionReviewSummary,
    VersionSide,
};

fn sample_review_report(with_caution: bool) -> VersionDiffReportV2 {
    VersionDiffReportV2 {
        schema_version: "whashreonator.report.v2".to_string(),
        generated_at_unix_ms: 1,
        old_version: VersionSide {
            version_id: if with_caution { "8.0.0".to_string() } else { "3.2.1".to_string() },
            source_root: "old".to_string(),
            asset_count: 1,
        },
        new_version: VersionSide {
            version_id: if with_caution { "8.1.0".to_string() } else { "3.3.1".to_string() },
            source_root: "new".to_string(),
            asset_count: 1,
        },
        resonators: Vec::new(),
        lineage: VersionLineageSection::default(),
        summary: VersionDiffSummary {
            resonator_count: 0,
            unchanged_items: 0,
            changed_items: 0,
            added_items: 0,
            removed_items: 0,
            uncertain_items: 0,
            mapping_candidates: 0,
        },
        scope_notes: Vec::new(),
        review: if with_caution {
            VersionReviewSection {
                summary: VersionReviewSummary {
                    review_mapping_count: 1,
                    continuity_review_mapping_count: 1,
                    continuity_caution_present: true,
                },
                continuity: VersionContinuityReviewSection {
                    caution_present: true,
                    cause_count: 1,
                    fix_count: 1,
                    review_mapping_count: 1,
                    causes: vec![VersionReviewCause {
                        code: "continuity_thread_instability".to_string(),
                        summary: "broader continuity history is unstable".to_string(),
                        confidence_milli: 840,
                        affected_assets: vec!["Content/Character/Encore/Body.mesh".to_string()],
                        evidence: vec![
                            "continuity thread Content/Character/Encore/Body_v2.mesh spans 7.0.0 -> 8.2.0; later terminates as removed in 8.2.0".to_string(),
                        ],
                    }],
                    fixes: vec![VersionReviewFix {
                        code: "review_continuity_thread_history_before_repair".to_string(),
                        summary: "review broader continuity history".to_string(),
                        confidence_milli: 820,
                        actions: vec!["inspect continuity milestones".to_string()],
                        evidence: vec![
                            "continuity thread later terminates as removed in 8.2.0".to_string(),
                        ],
                    }],
                    mappings: vec![VersionReviewMapping {
                        old_asset_path: "Content/Character/Encore/Body.mesh".to_string(),
                        new_asset_path: "Content/Character/Encore/Body_v2.mesh".to_string(),
                        status: ProposalStatus::NeedsReview,
                        confidence_milli: 950,
                        compatibility: RemapCompatibility::CompatibleWithCaution,
                        continuity: None,
                        continuity_notes: vec![
                            "thread span 7.0.0 -> 8.2.0".to_string(),
                            "later terminal removed in 8.2.0".to_string(),
                        ],
                        reasons: vec![
                            "broader continuity history reaches a later terminal state for this thread; do not auto-promote this mapping".to_string(),
                        ],
                        evidence: vec![
                            "structured continuity history reaches terminal state removed in 8.2.0".to_string(),
                        ],
                        related_fix_codes: vec![
                            "review_continuity_thread_history_before_repair".to_string(),
                        ],
                    }],
                    notes: vec![
                        "continuity-backed caution present: causes=1 fixes=1 review_mappings=1".to_string(),
                        "mapping Content/Character/Encore/Body.mesh -> Content/Character/Encore/Body_v2.mesh stays review-first because broader continuity history is unstable".to_string(),
                    ],
                },
            }
        } else {
            VersionReviewSection::default()
        },
    }
}

#[test]
fn review_bundle_renderer_uses_saved_review_context() {
    let markdown = ReviewBundleRenderer {}.render(&sample_review_report(true));

    assert!(markdown.contains("# WhashReonator Review Bundle"));
    assert!(markdown.contains("| `8.0.0` | `8.1.0` | Yes | 1 | 1 | 1 | 1 |"));
    assert!(markdown.contains("## Continuity-backed Causes"));
    assert!(markdown.contains("continuity_thread_instability"));
    assert!(markdown.contains("## Continuity-backed Fixes"));
    assert!(markdown.contains("review_continuity_thread_history_before_repair"));
    assert!(markdown.contains("## Continuity-backed Review Mappings"));
    assert!(markdown.contains("Content/Character/Encore/Body.mesh"));
    assert!(markdown.contains("thread span 7.0.0 -> 8.2.0"));
    assert!(markdown.contains("later terminal removed in 8.2.0"));
}

#[test]
fn review_bundle_renderer_stays_sensible_without_continuity_caution() {
    let markdown = ReviewBundleRenderer {}.render(&sample_review_report(false));

    assert!(markdown.contains("| `3.2.1` | `3.3.1` | No | 0 | 0 | 0 | 0 |"));
    assert!(markdown.contains("Continuity caution is not present"));
    assert!(markdown.contains("No continuity-backed causes were saved in this bundle."));
    assert!(markdown.contains("No continuity-backed fixes were saved in this bundle."));
    assert!(markdown
        .contains("No mapping stays in `NeedsReview` because of broader continuity history."));
}

#[test]
fn review_bundle_renders_confidence_with_three_decimals() {
    let markdown = ReviewBundleRenderer {}.render(&sample_review_report(true));
    assert!(markdown.contains("| `continuity_thread_instability` | 0.840 | broader continuity history is unstable |"));
    assert!(markdown.contains("| needs_review | 0.950 | compatible_with_caution |"));
}

#[test]
fn review_bundle_without_caution_has_exact_summary_lines() {
    let markdown = ReviewBundleRenderer {}.render(&sample_review_report(false));
    let lines: Vec<&str> = markdown.lines().collect();
    assert_eq!(lines[0], "# WhashReonator Review Bundle");
    assert_eq!(lines[6], "## Continuity Summary");
    assert_eq!(lines[7], "- Continuity caution is not present for this saved version pair.");
    assert_eq!(
        lines[8],
        "- Review-only mappings: 0 total, 0 kept review-first by broader continuity history."
    );
    assert_eq!(lines[9], "- No extra continuity notes were saved in the review surface.");
}

#[test]
fn table_cells_escape_pipes_and_newlines() {
    assert_eq!(sanitize_markdown_table_cell("a|b\nc"), "a\\|b<br>c");
    assert_eq!(
        markdown_table_row(&vec!["x|y".to_string(), "z".to_string()]),
        "| x\\|y | z |"
    );
}

fn mapping_with_notes(notes: &[&str]) -> VersionReviewMapping {
    VersionReviewMapping {
        old_asset_path: "a".to_string(),
        new_asset_path: "b".to_string(),
        status: ProposalStatus::Proposed,
        confidence_milli: 1000,
        compatibility: RemapCompatibility::LikelyCompatible,
        continuity: None,
        continuity_notes: notes.iter().map(|n| n.to_string()).collect(),
        reasons: Vec::new(),
        evidence: Vec::new(),
        related_fix_codes: Vec::new(),
    }
}

#[test]
fn continuity_note_prefers_terminal_note_after_the_first() {
    let mapping = mapping_with_notes(&["first", "layout drift seen", "terminal removed"]);
    assert_eq!(mapping_continuity_note(&mapping), "first; terminal removed");
    assert_eq!(mapping_continuity_note(&mapping_with_notes(&[])), "-");
    assert_eq!(mapping_continuity_note(&mapping_with_notes(&["only", "only", "next"])), "only; next");
}

fn continuity() -> InferredMappingContinuityContext {
    InferredMappingContinuityContext {
        thread_id: None,
        first_seen_version: Some("7.0.0".to_string()),
        latest_observed_version: Some("8.2.0".to_string()),
        latest_live_version: None,
        stable_before_current_change: false,
        total_rename_steps: 0,
        total_container_movement_steps: 0,
        total_layout_drift_steps: 0,
        review_required_history: false,
        terminal_relation: Some(VersionContinuityRelation::Removed),
        terminal_version: Some("8.2.0".to_string()),
        terminal_after_current: true,
        instability_detected: false,
    }
}

#[test]
fn structured_continuity_texts() {
    let c = continuity();
    assert_eq!(
        structured_continuity_reason(&c).as_deref(),
        Some("broader continuity history later reaches terminal state removed in 8.2.0")
    );
    assert_eq!(
        structured_continuity_evidence(&c).as_deref(),
        Some("thread span 7.0.0 -> 8.2.0; terminal removed in 8.2.0")
    );
    let mut calm = continuity();
    calm.terminal_relation = None;
    assert_eq!(structured_continuity_reason(&calm), None);
    assert_eq!(structured_continuity_evidence(&calm), None);
    let mut drift = calm.clone();
    drift.total_layout_drift_steps = 3;
    assert_eq!(
        structured_continuity_reason(&drift).as_deref(),
        Some("broader continuity history shows repeated layout drift across 3 step(s); keep review-first")
    );
}
