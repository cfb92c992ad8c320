use whashreonator::gui_app::{format_hash_transition, optional_text, render_detail_view, GuiController};
use whashreonator::report::{
    DiffStatus, ReportItemType, ReportReason, ResonatorDiffEntry, ResonatorItemDiff,
    ResonatorVersionView, TechnicalMetadata, VersionDiffReportV2, VersionDiffSummary,
    VersionLineageSection, VersionReviewSection, VersionSide, VersionedItem,
};

fn item(path: &str) -> VersionedItem {
    VersionedItem {
        key: path.to_string(),
        label: path.to_string(),
        path: Some(path.to_string()),
        metadata: TechnicalMetadata::default(),
    }
}

fn report_with_items(items: Vec<ResonatorItemDiff>, unchanged: usize) -> VersionDiffReportV2 {
    VersionDiffReportV2 {
        schema_version: "whashreonator.report.v2".to_string(),
        generated_at_unix_ms: 1,
        old_version: VersionSide {
            version_id: "2.4.0".to_string(),
            source_root: "old".to_string(),
            asset_count: 1,
        },
        new_version: VersionSide {
            version_id: "2.5.0".to_string(),
            source_root: "new".to_string(),
            asset_count: 1,
        },
        lineage: VersionLineageSection::default(),
        summary: VersionDiffSummary {
            resonator_count: 1,
            unchanged_items: unchanged,
            changed_items: 1,
            added_items: 0,
            removed_items: 0,
            uncertain_items: 0,
            mapping_candidates: 0,
        },
        resonators: vec![ResonatorDiffEntry {
            resonator: "Encore".to_string(),
            old_version: ResonatorVersionView { asset_count: 1, buffer_count: 1, mapping_count: 0 },
            new_version: ResonatorVersionView { asset_count: 1, buffer_count: 1, mapping_count: 0 },
            items,
        }],
        scope_notes: vec![
            "scope warning: compare results are based on install/package-level snapshots"
                .to_string(),
        ],
        review: VersionReviewSection::default(),
    }
}

fn changed_item() -> ResonatorItemDiff {
    ResonatorItemDiff {
        item_type: ReportItemType::Asset,
        status: DiffStatus::Changed,
        confidence_milli: Some(900),
        compatibility: None,
        old: Some(item("Content/Character/Encore/Body.mesh")),
        new: Some(item("Content/Character/Encore/Body_v2.mesh")),
        reasons: vec![ReportReason {
            code: "vertex_count_changed".to_string(),
            message: "vertex count changed".to_string(),
        }],
    }
}

#[test]
fn detail_view_renders_table_rows_for_resonator_items() {
    let report = report_with_items(vec![changed_item()], 0);

    let detail = render_detail_view(&report, "", false);
    assert!(detail.summary.contains("Compare 2.4.0 -> 2.5.0"));
    assert!(detail.summary.contains("Scope note: scope warning"));
    assert_eq!(detail.table_rows.len(), 1);
    let row = &detail.table_rows[0];
    assert_eq!(row.resonator, "Encore");
    assert_eq!(row.item_type, "Asset");
    assert_eq!(row.status, "Changed");
    assert_eq!(row.path, "Content/Character/Encore/Body_v2.mesh");
}

#[test]
fn detail_view_formats_confidence_and_hashes() {
    let detail = render_detail_view(&report_with_items(vec![changed_item()], 0), "", false);
    let row = &detail.table_rows[0];
    assert_eq!(row.confidence, "0.900");
    assert_eq!(row.asset_hash, "-");
}

#[test]
fn detail_view_filters_resonators_and_hides_unchanged() {
    let mut unchanged = changed_item();
    unchanged.status = DiffStatus::Unchanged;
    let report = report_with_items(vec![changed_item(), unchanged], 1);
    assert_eq!(render_detail_view(&report, "ENC", false).table_rows.len(), 2);
    assert_eq!(render_detail_view(&report, "zzz", false).table_rows.len(), 0);
    let hidden = render_detail_view(&report, "", true);
    assert_eq!(hidden.table_rows.len(), 1);
    assert!(hidden
        .summary
        .contains("\nFilter: hiding 1 unchanged item(s) — toggle 'Show unchanged' to see them."));
}

#[test]
fn detail_view_caps_rows_and_counts_the_rest() {
    let items: Vec<ResonatorItemDiff> = (0..405).map(|_| changed_item()).collect();
    let detail = render_detail_view(&report_with_items(items, 0), "", false);
    assert_eq!(detail.table_rows.len(), 401);
    let last = &detail.table_rows[400];
    assert_eq!(last.item_type, "truncated");
    assert_eq!(last.status, "+5");
}

#[test]
fn hash_transitions_cover_all_cases() {
    assert_eq!(format_hash_transition(None, None), "-");
    assert_eq!(format_hash_transition(Some("a"), None), "a → (removed)");
    assert_eq!(format_hash_transition(None, Some("b")), "(added) → b");
    assert_eq!(format_hash_transition(Some("a"), Some("a")), "a");
    assert_eq!(format_hash_transition(Some("a"), Some("b")), "a → b");
}

#[test]
fn optional_text_trims_and_drops_blank() {
    assert_eq!(optional_text("  2.4.0 "), Some("2.4.0".to_string()));
    assert_eq!(optional_text("   "), None);
}

#[test]
fn controller_labels_show_its_roots() {
    let c = GuiController::new("/data/report".to_string(), "/data".to_string());
    assert_eq!(c.reports_root_label(), "/data/report");
    assert_eq!(c.artifact_root_label(), "/data");
}
