use whashreonator::compare::{RemapCompatibility, SnapshotCompareReason};
use whashreonator::inference::{
    append_surface_evidence, compatibility_phrase, has_reason_code_text,
    join_dependency_kind_labels, ordered_surface_classes, push_unique, reason_to_string,
    representative_risk_class_label, surface_evidence, surface_intersection_has_overlap,
    InferenceSurfaceIntersection, InferenceSurfaceOverlapPosture, ModDependencySurfaceSummary,
    RepresentativeModRiskClass, WwmiModDependencyKind, WwmiModDependencySurfaceClass,
};

fn surface(files: Vec<&str>, sections: Vec<&str>) -> ModDependencySurfaceSummary {
    ModDependencySurfaceSummary {
        dependency_kinds: vec![
            WwmiModDependencyKind::TextureOverrideHash,
            WwmiModDependencyKind::MeshVertexCount,
        ],
        signal_count: 4,
        source_files: files.into_iter().map(|s| s.to_string()).collect(),
        sections: sections.into_iter().map(|s| s.to_string()).collect(),
        label: "mapping/hash".to_string(),
    }
}

#[test]
fn dependency_kinds_join_with_commas() {
    assert_eq!(
        join_dependency_kind_labels(&vec![
            WwmiModDependencyKind::ObjectGuid,
            WwmiModDependencyKind::ShapeKeyVertexCount,
            WwmiModDependencyKind::FilterIndex,
        ]),
        "object_guid, shapekey_vertex_count, filter_index"
    );
    assert_eq!(join_dependency_kind_labels(&Vec::new()), "");
}

#[test]
fn push_unique_keeps_one_copy() {
    let mut v = vec!["a".to_string()];
    push_unique(&mut v, "b".to_string());
    push_unique(&mut v, "a".to_string());
    assert_eq!(v, vec!["a".to_string(), "b".to_string()]);
}

#[test]
fn reason_lines_are_matched_by_code() {
    let reason = SnapshotCompareReason {
        code: "vertex_count_changed".to_string(),
        message: "vertex count changed".to_string(),
    };
    let line = reason_to_string(&reason);
    assert_eq!(line, "vertex_count_changed: vertex count changed");
    let lines = vec![line, "  naming_only_change  ".to_string()];
    assert!(has_reason_code_text(&lines, "vertex_count_changed"));
    assert!(has_reason_code_text(&lines, "naming_only_change"));
    assert!(!has_reason_code_text(&lines, "vertex_count"));
}

#[test]
fn labels_name_each_value() {
    assert_eq!(compatibility_phrase(&RemapCompatibility::IncompatibleBlocked), "incompatible/blocked");
    assert_eq!(
        representative_risk_class_label(&RepresentativeModRiskClass::DrawCallFilterHookSensitive),
        "draw-call/filter/hook-sensitive"
    );
    assert_eq!(InferenceSurfaceOverlapPosture::Absent.label(), "none");
    assert_eq!(InferenceSurfaceOverlapPosture::Strong.label(), "strong");
}

#[test]
fn surface_overlap_is_looked_up_by_class() {
    let intersection = InferenceSurfaceIntersection {
        mod_side_surfaces: Vec::new(),
        game_side_surfaces: Vec::new(),
        overlapping_surface_classes: vec![WwmiModDependencySurfaceClass::BufferLayout],
        overlap_posture: InferenceSurfaceOverlapPosture::Partial,
        weak_or_absent_overlap: false,
        notes: Vec::new(),
    };
    assert!(surface_intersection_has_overlap(&intersection, WwmiModDependencySurfaceClass::BufferLayout));
    assert!(!surface_intersection_has_overlap(&intersection, WwmiModDependencySurfaceClass::MappingHash));
    assert_eq!(
        ordered_surface_classes(),
        vec![
            WwmiModDependencySurfaceClass::MappingHash,
            WwmiModDependencySurfaceClass::BufferLayout,
            WwmiModDependencySurfaceClass::ResourceSkeleton,
            WwmiModDependencySurfaceClass::DrawCallFilterHook,
        ]
    );
}

#[test]
fn surface_evidence_names_kinds_and_first_three_files() {
    let s = surface(vec!["a.ini", "b.ini", "c.ini", "d.ini"], vec![]);
    assert_eq!(
        surface_evidence(&s, "mod surface overlaps"),
        vec![
            "mod surface overlaps; matched dependency kinds=texture_override_hash, mesh_vertex_count across 4 signal(s)"
                .to_string(),
            "mod dependency files: a.ini, b.ini, c.ini".to_string(),
        ]
    );
    let mut evidence = vec!["mod dependency files: a.ini, b.ini, c.ini".to_string()];
    append_surface_evidence(&mut evidence, &s, "mod surface overlaps");
    assert_eq!(evidence.len(), 2);
    assert_eq!(evidence[0], "mod dependency files: a.ini, b.ini, c.ini");
    let with_sections = surface(vec![], vec!["TextureOverrideBody"]);
    assert_eq!(
        surface_evidence(&with_sections, "d")[1],
        "mod dependency sections: TextureOverrideBody"
    );
}
