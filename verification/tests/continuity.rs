use whashreonator::compare::RemapCompatibility;
use whashreonator::continuity::{
    append_continuity_signal_context, build_mapping_hint_continuity_context,
    collect_continuity_affected_assets, continuity_relation_continues_thread,
    continuity_signal_evidence, count_continuity_relation, dedup_continuity_signals,
    downgrade_compatibility_for_layout_history, downgrade_compatibility_for_terminal_history,
    downgrade_hook_targeting_compatibility, find_continuity_signal,
    summarize_continuity_thread_for_inference, ContinuitySignal,
};
use whashreonator::report::{
    TechnicalMetadata, VersionContinuityIndex, VersionContinuityObservation,
    VersionContinuityRelation, VersionContinuityThread, VersionedItem,
};

fn signal(current: VersionContinuityRelation) -> ContinuitySignal {
    ContinuitySignal {
        thread_id: "1.0.0:Content/Character/Encore/Body.mesh".to_string(),
        current_from_path: "Content/Character/Encore/Body.mesh".to_string(),
        current_to_path: Some("Content/Character/Encore/Body_LOD0.mesh".to_string()),
        first_seen_version: "1.0.0".to_string(),
        latest_observed_version: "1.4.0".to_string(),
        latest_live_version: Some("1.3.0".to_string()),
        current_relation: current,
        prior_persisted_steps: 2,
        prior_rename_steps: 0,
        prior_container_movement_steps: 0,
        prior_layout_drift_steps: 0,
        prior_material_steps: 0,
        later_rename_steps: 0,
        later_container_movement_steps: 0,
        later_layout_drift_steps: 0,
        terminal_relation: None,
        terminal_version: None,
        review_required: false,
    }
}

fn all_calls() -> Vec<RemapCompatibility> {
    vec![
        RemapCompatibility::LikelyCompatible,
        RemapCompatibility::CompatibleWithCaution,
        RemapCompatibility::StructurallyRisky,
        RemapCompatibility::InsufficientEvidence,
        RemapCompatibility::IncompatibleBlocked,
    ]
}

fn rank(c: RemapCompatibility) -> u8 {
    match c {
        RemapCompatibility::LikelyCompatible => 4,
        RemapCompatibility::CompatibleWithCaution => 3,
        RemapCompatibility::StructurallyRisky => 2,
        RemapCompatibility::InsufficientEvidence => 1,
        RemapCompatibility::IncompatibleBlocked => 0,
    }
}

#[test]
fn stable_thread_evidence_names_span_and_live_version() {
    let s = signal(VersionContinuityRelation::RenameOrRepath);
    assert_eq!(
        continuity_signal_evidence(&s, "1.4.0"),
        "continuity thread Content/Character/Encore/Body_LOD0.mesh spans 1.0.0 -> 1.4.0; 2 prior persisted step(s) before current rename/repath; latest live version 1.3.0"
    );
    let ctx = build_mapping_hint_continuity_context(&s, "1.4.0");
    assert!(ctx.stable_before_current_change);
    assert_eq!(ctx.total_rename_steps, 1);
    assert!(!ctx.instability_detected);
    assert!(!ctx.has_review_caution());
}

#[test]
fn terminal_removal_marks_the_thread_unstable() {
    let mut s = signal(VersionContinuityRelation::LayoutDrift);
    s.later_layout_drift_steps = 1;
    s.terminal_relation = Some(VersionContinuityRelation::Removed);
    s.terminal_version = Some("1.4.0".to_string());
    assert_eq!(
        continuity_signal_evidence(&s, "1.3.0"),
        "continuity thread Content/Character/Encore/Body_LOD0.mesh spans 1.0.0 -> 1.4.0; 2 prior persisted step(s) before current layout drift; 2 layout-drift step(s); later terminates as removed in 1.4.0"
    );
    assert_eq!(
        continuity_signal_evidence(&s, "1.4.0"),
        "continuity thread Content/Character/Encore/Body_LOD0.mesh spans 1.0.0 -> 1.4.0; 2 prior persisted step(s) before current layout drift; 2 layout-drift step(s); terminates as removed in 1.4.0"
    );
    let ctx = build_mapping_hint_continuity_context(&s, "1.3.0");
    assert_eq!(ctx.total_layout_drift_steps, 2);
    assert!(ctx.terminal_after_current);
    assert!(ctx.instability_detected);
    assert!(ctx.has_review_caution());
}

#[test]
fn relations_that_continue_a_thread() {
    assert!(continuity_relation_continues_thread(&VersionContinuityRelation::Persisted));
    assert!(continuity_relation_continues_thread(&VersionContinuityRelation::RenameOrRepath));
    assert!(continuity_relation_continues_thread(&VersionContinuityRelation::ContainerMovement));
    assert!(continuity_relation_continues_thread(&VersionContinuityRelation::LayoutDrift));
    assert!(!continuity_relation_continues_thread(&VersionContinuityRelation::Replacement));
    assert!(!continuity_relation_continues_thread(&VersionContinuityRelation::Removed));
    assert!(!continuity_relation_continues_thread(&VersionContinuityRelation::Ambiguous));
}

#[test]
fn hook_cap_is_a_ceiling_on_every_call() {
    for c in all_calls() {
        let once = downgrade_hook_targeting_compatibility(c);
        assert!(rank(once) <= rank(c));
        assert!(rank(once) <= 3);
        assert_eq!(downgrade_hook_targeting_compatibility(once), once);
    }
    assert_eq!(
        downgrade_hook_targeting_compatibility(RemapCompatibility::LikelyCompatible),
        RemapCompatibility::CompatibleWithCaution
    );
}

#[test]
fn layout_history_lowers_usable_remaps_one_step() {
    assert_eq!(
        downgrade_compatibility_for_layout_history(RemapCompatibility::LikelyCompatible),
        RemapCompatibility::CompatibleWithCaution
    );
    assert_eq!(
        downgrade_compatibility_for_layout_history(RemapCompatibility::CompatibleWithCaution),
        RemapCompatibility::StructurallyRisky
    );
    assert_eq!(
        downgrade_compatibility_for_layout_history(RemapCompatibility::IncompatibleBlocked),
        RemapCompatibility::IncompatibleBlocked
    );
}

#[test]
fn terminal_history_tempers_the_remap() {
    assert_eq!(
        downgrade_compatibility_for_terminal_history(
            RemapCompatibility::LikelyCompatible,
            &VersionContinuityRelation::Ambiguous
        ),
        RemapCompatibility::InsufficientEvidence
    );
    assert_eq!(
        downgrade_compatibility_for_terminal_history(
            RemapCompatibility::LikelyCompatible,
            &VersionContinuityRelation::Replacement
        ),
        RemapCompatibility::CompatibleWithCaution
    );
    assert_eq!(
        downgrade_compatibility_for_terminal_history(
            RemapCompatibility::LikelyCompatible,
            &VersionContinuityRelation::Removed
        ),
        RemapCompatibility::CompatibleWithCaution
    );
    assert_eq!(
        downgrade_compatibility_for_terminal_history(
            RemapCompatibility::StructurallyRisky,
            &VersionContinuityRelation::Persisted
        ),
        RemapCompatibility::StructurallyRisky
    );
    // The one case where the result ranks above its input.
    assert_eq!(
        downgrade_compatibility_for_terminal_history(
            RemapCompatibility::IncompatibleBlocked,
            &VersionContinuityRelation::InsufficientEvidence
        ),
        RemapCompatibility::InsufficientEvidence
    );
}

const BODY: &str = "Content/Character/Encore/Body.mesh";
const BODY_LOD: &str = "Content/Character/Encore/Body_LOD0.mesh";

fn step(from: &str, to: &str, from_path: &str, to_path: Option<&str>, relation: VersionContinuityRelation) -> VersionContinuityObservation {
    VersionContinuityObservation {
        from_version_id: from.to_string(),
        to_version_id: to.to_string(),
        from_path: from_path.to_string(),
        to_path: to_path.map(|p| p.to_string()),
        relation,
    }
}

fn body_thread() -> VersionContinuityThread {
    VersionContinuityThread {
        thread_id: format!("1.0.0:{BODY}"),
        anchor_version_id: "1.0.0".to_string(),
        anchor: VersionedItem {
            key: BODY.to_string(),
            label: BODY.to_string(),
            path: Some(BODY.to_string()),
            metadata: TechnicalMetadata::default(),
        },
        observations: vec![
            step("1.0.0", "1.1.0", BODY, Some(BODY), VersionContinuityRelation::Persisted),
            step("1.1.0", "1.2.0", BODY, Some(BODY), VersionContinuityRelation::Persisted),
            step("1.2.0", "1.3.0", BODY, Some(BODY_LOD), VersionContinuityRelation::RenameOrRepath),
            step("1.3.0", "1.4.0", BODY_LOD, None, VersionContinuityRelation::Removed),
        ],
        review_required: false,
    }
}

#[test]
fn thread_summary_ends_at_a_removal() {
    let thread = body_thread();
    let summary = summarize_continuity_thread_for_inference(&thread);
    assert_eq!(summary.first_seen_version, "1.0.0");
    assert_eq!(summary.latest_observed_version, "1.4.0");
    assert_eq!(summary.latest_live_version, None);
    assert_eq!(summary.terminal_relation, Some(VersionContinuityRelation::Removed));
    assert_eq!(summary.terminal_version, Some("1.4.0".to_string()));
    assert_eq!(count_continuity_relation(&thread.observations, VersionContinuityRelation::Persisted), 2);

    let mut live = body_thread();
    live.observations.pop();
    let summary = summarize_continuity_thread_for_inference(&live);
    assert_eq!(summary.latest_live_version, Some("1.3.0".to_string()));
    assert_eq!(summary.terminal_relation, None);
}

#[test]
fn index_gives_the_signal_of_the_current_step() {
    let index = VersionContinuityIndex { threads: vec![body_thread()], thread_summaries: Vec::new() };
    let signal = find_continuity_signal(&index, "1.2.0", "1.3.0", BODY, Some(BODY_LOD)).expect("thread step");
    assert_eq!(signal.prior_persisted_steps, 2);
    assert_eq!(signal.prior_material_steps, 0);
    assert_eq!(signal.current_relation, VersionContinuityRelation::RenameOrRepath);
    assert_eq!(signal.first_seen_version, "1.0.0");
    assert_eq!(signal.terminal_relation, Some(VersionContinuityRelation::Removed));
    let evidence = continuity_signal_evidence(&signal, "1.3.0");
    assert!(evidence.contains("spans 1.0.0 -> 1.4.0"));
    assert!(evidence.contains("later terminates as removed in 1.4.0"));
    assert!(find_continuity_signal(&index, "1.2.0", "1.3.0", BODY, None).is_none());
    assert!(find_continuity_signal(&index, "1.1.0", "1.3.0", BODY, Some(BODY_LOD)).is_none());
}

#[test]
fn threads_are_kept_once_and_paths_in_first_order() {
    let a = signal(VersionContinuityRelation::RenameOrRepath);
    let mut b = signal(VersionContinuityRelation::LayoutDrift);
    b.current_to_path = None;
    let mut c = signal(VersionContinuityRelation::Persisted);
    c.thread_id = "other".to_string();
    c.current_from_path = "Content/Other.mesh".to_string();
    c.current_to_path = Some("Content/Character/Encore/Body.mesh".to_string());
    let kept = dedup_continuity_signals(vec![a.clone(), b.clone(), c.clone()]);
    assert_eq!(kept.len(), 2);
    assert_eq!(kept[0].current_relation, VersionContinuityRelation::RenameOrRepath);
    assert_eq!(kept[1].thread_id, "other");
    assert_eq!(
        collect_continuity_affected_assets(&vec![a, b, c]),
        vec![
            "Content/Character/Encore/Body.mesh".to_string(),
            "Content/Character/Encore/Body_LOD0.mesh".to_string(),
            "Content/Other.mesh".to_string(),
        ]
    );
}

#[test]
fn signal_context_counts_threads_and_quotes_four() {
    let mut reasons = Vec::new();
    let mut evidence = Vec::new();
    let mut review = signal(VersionContinuityRelation::LayoutDrift);
    review.later_layout_drift_steps = 1;
    review.review_required = true;
    let signals = vec![
        signal(VersionContinuityRelation::RenameOrRepath),
        review,
        signal(VersionContinuityRelation::RenameOrRepath),
        signal(VersionContinuityRelation::RenameOrRepath),
        signal(VersionContinuityRelation::RenameOrRepath),
    ];
    append_continuity_signal_context(&mut reasons, &mut evidence, &signals, "1.4.0", "mapping");
    assert_eq!(
        reasons,
        vec![
            "continuity shows 5 mapping thread(s) stayed stable across earlier versions before the current pair drifted".to_string(),
            "continuity records repeated layout drift on 1 mapping thread(s)".to_string(),
            "continuity marks 1 mapping thread(s) as terminal or review-required somewhere in the broader chain".to_string(),
        ]
    );
    assert_eq!(evidence.len(), 4);
    let mut untouched = vec!["x".to_string()];
    append_continuity_signal_context(&mut untouched, &mut evidence, &Vec::new(), "1.4.0", "mapping");
    assert_eq!(untouched, vec!["x".to_string()]);
    assert_eq!(evidence.len(), 4);
}
