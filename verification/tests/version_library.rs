use whashreonator::gui_app::{
    artifact_kind_label, render_human_summary_preview, render_scan_summary,
    render_version_artifact_lines, scan_outcome_view, version_position, ScanRunResult,
    VersionArtifactEntry, VersionArtifactKind,
};
use whashreonator::snapshot::{GameSnapshot, SnapshotCoverageSignals, SnapshotScopeAssessment};

#[test]
fn artifact_lines_name_kind_and_path() {
    let lines = render_version_artifact_lines(&vec![
        VersionArtifactEntry {
            kind: VersionArtifactKind::Snapshot,
            path: "out/reports/3.2.1/snapshot.json".to_string(),
        },
        VersionArtifactEntry {
            kind: VersionArtifactKind::ContinuityData,
            path: "out/reports/3.2.1/continuity.json".to_string(),
        },
    ]);
    assert_eq!(
        lines,
        vec![
            "snapshot | out/reports/3.2.1/snapshot.json".to_string(),
            "continuity | out/reports/3.2.1/continuity.json".to_string(),
        ]
    );
    assert_eq!(artifact_kind_label(VersionArtifactKind::BufferData), "buffer");
    assert_eq!(artifact_kind_label(VersionArtifactKind::LegacyReportBundle), "legacy_report_bundle");
}

#[test]
fn version_position_finds_the_first_match() {
    let ids = vec!["3.2.1".to_string(), "3.3.1".to_string(), "3.3.1".to_string()];
    assert_eq!(version_position(&ids, "3.3.1"), Some(1));
    assert_eq!(version_position(&ids, "9.9.9"), None);
}

#[test]
fn scan_outcome_texts_follow_the_result() {
    let created = scan_outcome_view(&ScanRunResult::Created {
        version_id: "3.2.1".to_string(),
        saved_path: "out/reports/3.2.1/snapshot.json".to_string(),
        summary: "Scan Version 3.2.1".to_string(),
    });
    assert_eq!(created.status_text, "Scan completed for version 3.2.1. Saved: out/reports/3.2.1/snapshot.json");
    assert_eq!(created.summary_text, "Scan Version 3.2.1");
    assert_eq!(created.version_id, "3.2.1");

    let same = scan_outcome_view(&ScanRunResult::NoChangesDetected {
        version_id: "3.2.1".to_string(),
        saved_path: "s.json".to_string(),
        summary: "sum".to_string(),
    });
    assert_eq!(same.status_text, "No changes detected");
    assert_eq!(same.summary_text, "sum\nStored snapshot: s.json");

    let over = scan_outcome_view(&ScanRunResult::Overwritten {
        version_id: "3.2.1".to_string(),
        saved_path: "s.json".to_string(),
        summary: "sum".to_string(),
    });
    assert_eq!(over.status_text, "Overwritten successfully");
    assert_eq!(over.summary_text, "sum\nOverwritten snapshot: s.json");
}

#[test]
fn human_summary_preview_keeps_thirty_lines() {
    assert_eq!(
        render_human_summary_preview(None),
        "Human summary preview: not stored yet for the new version."
    );
    assert_eq!(render_human_summary_preview(Some("a\r\nb\n")), "a\nb");
    let long: String = (0..35).map(|i| format!("line {i}\n")).collect();
    let preview = render_human_summary_preview(Some(&long));
    let lines: Vec<&str> = preview.lines().collect();
    assert_eq!(lines.len(), 31);
    assert_eq!(lines[0], "line 0");
    assert_eq!(lines[29], "line 29");
    assert_eq!(
        lines[30],
        "... (human summary truncated in GUI preview; open the stored .md file for the full text)"
    );
}

#[test]
fn scan_summary_lists_scope_and_coverage() {
    let snapshot = GameSnapshot {
        schema_version: "whashreonator.snapshot.v1".to_string(),
        version_id: "3.2.2".to_string(),
        created_at_unix_ms: 1,
        source_root: "D:/game".to_string(),
        asset_count: 3,
        assets: Vec::new(),
    };
    let scope = SnapshotScopeAssessment {
        acquisition_kind: None,
        capture_mode: Some("local_filesystem_inventory".to_string()),
        mostly_install_or_package_level: true,
        meaningful_content_coverage: false,
        meaningful_character_coverage: false,
        meaningful_asset_record_enrichment: false,
        observed_fallback_used: false,
        note: Some("install-level snapshot".to_string()),
        coverage: SnapshotCoverageSignals {
            content_like_path_count: 1,
            character_path_count: 0,
            non_content_path_count: 2,
        },
        low_signal_for_character_analysis: true,
    };
    let text = render_scan_summary(&snapshot, &scope, None);
    assert_eq!(
        text,
        "Scan Version 3.2.2\n\
Assets: 3\n\
Source root: D:/game\n\
Launcher version: n/a\n\
Snapshot scope: mode=local_filesystem_inventory install_or_package_level=true meaningful_content=false meaningful_character=false\n\
Coverage signals: content_like_paths=1 character_paths=0 non_content_paths=2\n\
Scope caution: this snapshot is install/package-level or low-coverage; deep character-level interpretation may be limited.\n\
Scope note: install-level snapshot"
    );
    assert!(render_scan_summary(&snapshot, &scope, Some("3.2.2")).contains("Launcher version: 3.2.2"));
}
