//! What a mod's dependency profile changes in inference: where the mod depends on
//! a surface that the compare also touches, the findings on that surface gain or
//! lose confidence, name the mod's surface, and may add a cause and a fix of their
//! own; remap hints on such surfaces stay review-first. Confidences are thousandths.
use vstd::prelude::*;
use crate::compare::outcome::SnapshotCompareReport;
use crate::compare::{RemapCompatibility, RiskLevel};
use crate::continuity::{downgrade_hook_targeting_compatibility, spec_downgrade_hook};
use crate::continuity_adjust::{
    cap_add, cap_add_exec, find_cause, find_fix, lemma_no_cause, lemma_no_fix, lemma_update_first_cause,
    lemma_update_first_fix, update_first_cause, update_first_fix,
};
use crate::findings::{blend, blend_exec, cause_model, fix_model, scaled, CauseModel, FixModel};
use crate::inference::{
    append_surface_evidence, append_unique, has_reason_code_text, names_code, push_unique,
    push_unique_seq, spec_surface_evidence, surface_evidence, surface_intersection_has_overlap,
    InferenceModDependencyInput, InferenceSurfaceIntersection, InferredMappingHint,
    ModDependencySurfaceSummary, ProbableCrashCause, SuggestedFix, WwmiModDependencySurfaceClass,
};
use crate::inference_engine::{cause_models, fix_models, hint_models};
use crate::mapping_hints::{hint_model, sat_sub, HintModel};
use crate::order::{ascending, lemma_ascending_is, sorted_set_of, sorted_strict};
use crate::surfaces::{
    has_hook_targeting_review_surface, resource_or_skeleton_affected_assets,
    spec_hook_review_surface, spec_resource_skeleton_paths,
};
use crate::text::{clone_string, new_string, push_str, push_text, str_eq, views};

verus! {

/// What a mod's dependency scan found, by the game surface it depends on.
pub struct ModDependencyInsights {
    pub input: InferenceModDependencyInput,
    pub mapping_hash: Option<ModDependencySurfaceSummary>,
    pub buffer_layout: Option<ModDependencySurfaceSummary>,
    pub resource_or_skeleton: Option<ModDependencySurfaceSummary>,
    pub hook_targeting: Option<ModDependencySurfaceSummary>,
}

/// The mod's surface, where the compare overlaps it too.
pub open spec fn active(
    s: Option<ModDependencySurfaceSummary>,
    ix: InferenceSurfaceIntersection,
    class: WwmiModDependencySurfaceClass,
) -> Option<ModDependencySurfaceSummary> {
    if ix.overlapping_surface_classes@.contains(class) {
        s
    } else {
        None
    }
}

pub open spec fn uses_line(prefix: Seq<char>, surface: ModDependencySurfaceSummary, tail: Seq<char>) -> Seq<char> {
    prefix + "this mod uses "@ + surface.label@ + tail
}

pub open spec fn surface_cause(m: CauseModel, bump: nat, reason: Seq<char>, ev: Seq<Seq<char>>) -> CauseModel {
    CauseModel {
        code: m.code,
        summary: m.summary,
        confidence_milli: cap_add(m.confidence_milli, bump),
        risk: m.risk,
        affected: m.affected,
        reasons: push_unique_seq(m.reasons, reason),
        evidence: append_unique(m.evidence, ev),
    }
}

pub open spec fn cause_step_fn(bump: nat, reason: Seq<char>, ev: Seq<Seq<char>>) -> spec_fn(CauseModel) -> CauseModel {
    |m: CauseModel| surface_cause(m, bump, reason, ev)
}

pub open spec fn surface_fix(
    m: FixModel,
    bump: nat,
    reason: Seq<char>,
    action: Option<Seq<char>>,
    ev: Seq<Seq<char>>,
) -> FixModel {
    FixModel {
        code: m.code,
        summary: m.summary,
        confidence_milli: cap_add(m.confidence_milli, bump),
        priority: m.priority,
        actions: match action {
            Some(a) => push_unique_seq(m.actions, a),
            None => m.actions,
        },
        reasons: push_unique_seq(m.reasons, reason),
        evidence: append_unique(m.evidence, ev),
    }
}

pub open spec fn fix_step_fn(bump: nat, reason: Seq<char>, action: Option<Seq<char>>, ev: Seq<Seq<char>>) -> spec_fn(
    FixModel,
) -> FixModel {
    |m: FixModel| surface_fix(m, bump, reason, action, ev)
}








/// The first cause with `code` raised by `bump`, naming the mod's surface.
fn surface_cause_step(
    causes: &mut Vec<ProbableCrashCause>,
    code: &str,
    bump: u32,
    reason: &String,
    surface: &ModDependencySurfaceSummary,
    detail: &str,
)
    requires
        bump <= 1000,
    ensures
        cause_models(final(causes)@) == update_first_cause(
            cause_models(old(causes)@),
            code@,
            cause_step_fn(bump as nat, reason@, spec_surface_evidence(*surface, detail@)),
        ),
{
    let ghost f = cause_step_fn(bump as nat, reason@, spec_surface_evidence(*surface, detail@));
    let ghost c0 = causes@;
    let ghost m = cause_models(c0);
    match find_cause(causes, code) {
        Some(k) => {
            let mut c = causes.remove(k);
            c.confidence_milli = cap_add_exec(c.confidence_milli, bump);
            push_unique(&mut c.reasons, clone_string(reason));
            append_surface_evidence(&mut c.evidence, surface, detail);
            causes.insert(k, c);
            proof {
                assert forall|j: int| 0 <= j < k implies (#[trigger] m[j]).code != code@ by {
                    assert(m[j] == cause_model(c0[j]));
                }
                lemma_update_first_cause(m, code@, f, k as int);
                assert(cause_models(causes@) =~= m.update(k as int, f(m[k as int])));
            }
        },
        None => {
            proof {
                assert forall|j: int| 0 <= j < m.len() implies (#[trigger] m[j]).code != code@ by {
                    assert(m[j] == cause_model(c0[j]));
                }
                lemma_no_cause(m, code@, f);
            }
        },
    }
}

/// The first fix with `code` raised by `bump`, naming the mod's surface and, when
/// given, gaining `action`.
fn surface_fix_step(
    fixes: &mut Vec<SuggestedFix>,
    code: &str,
    bump: u32,
    reason: &String,
    action: Option<&str>,
    surface: &ModDependencySurfaceSummary,
    detail: &str,
)
    requires
        bump <= 1000,
    ensures
        fix_models(final(fixes)@) == update_first_fix(
            fix_models(old(fixes)@),
            code@,
            fix_step_fn(
                bump as nat,
                reason@,
                match action {
                    Some(a) => Some(a@),
                    None => None,
                },
                spec_surface_evidence(*surface, detail@),
            ),
        ),
{
    let ghost f = fix_step_fn(
        bump as nat,
        reason@,
        match action {
            Some(a) => Some(a@),
            None => None,
        },
        spec_surface_evidence(*surface, detail@),
    );
    let ghost f0 = fixes@;
    let ghost m = fix_models(f0);
    match find_fix(fixes, code) {
        Some(k) => {
            let mut x = fixes.remove(k);
            x.confidence_milli = cap_add_exec(x.confidence_milli, bump);
            push_unique(&mut x.reasons, clone_string(reason));
            match action {
                Some(a) => push_unique(&mut x.actions, new_string(a)),
                None => {},
            }
            append_surface_evidence(&mut x.evidence, surface, detail);
            fixes.insert(k, x);
            proof {
                assert forall|j: int| 0 <= j < k implies (#[trigger] m[j]).code != code@ by {
                    assert(m[j] == fix_model(f0[j]));
                }
                lemma_update_first_fix(m, code@, f, k as int);
                assert(fix_models(fixes@) =~= m.update(k as int, f(m[k as int])));
            }
        },
        None => {
            proof {
                assert forall|j: int| 0 <= j < m.len() implies (#[trigger] m[j]).code != code@ by {
                    assert(m[j] == fix_model(f0[j]));
                }
                lemma_no_fix(m, code@, f);
            }
        },
    }
}


// ---------------------------------------------------------------------------
// The findings a mod's surfaces touch
// ---------------------------------------------------------------------------

pub open spec fn surface_prefix() -> Seq<char> {
    "mod_dependency_surface: "@
}

pub open spec fn review_prefix() -> Seq<char> {
    "mod_dependency_review_first: "@
}

/// The mapping/hash surface raises the remap, removal, identity and evidence causes.
pub open spec fn mapping_causes(s: Seq<CauseModel>, sf: ModDependencySurfaceSummary) -> Seq<CauseModel> {
    let f = cause_step_fn(
        50,
        uses_line(surface_prefix(), sf, " surfaces, so mapping/hash change evidence is more repair-relevant here"@),
        spec_surface_evidence(sf, "mod-side ini files already depend on hash/resource-driven targeting"@),
    );
    update_first_cause(
        update_first_cause(
            update_first_cause(
                update_first_cause(
                    update_first_cause(s, "asset_paths_or_mapping_shifted"@, f),
                    "asset_removed_without_clear_replacement"@,
                    f,
                ),
                "asset_signature_or_hash_changed"@,
                f,
            ),
            "candidate_remap_identity_conflict"@,
            f,
        ),
        "candidate_remap_insufficient_evidence"@,
        f,
    )
}

pub open spec fn mapping_fix_reason(sf: ModDependencySurfaceSummary) -> Seq<char> {
    uses_line(surface_prefix(), sf, " surfaces, so mapping/hash repair paths deserve stronger priority"@)
}

pub open spec fn mapping_fix_detail() -> Seq<char> {
    "mod-side dependency profile points at mapping/hash-sensitive repair touchpoints"@
}

pub open spec fn mapping_fixes(s: Seq<FixModel>, sf: ModDependencySurfaceSummary) -> Seq<FixModel> {
    let ev = spec_surface_evidence(sf, mapping_fix_detail());
    let f = fix_step_fn(50, mapping_fix_reason(sf), None, ev);
    update_first_fix(
        update_first_fix(
            update_first_fix(
                s,
                "review_candidate_asset_remaps"@,
                fix_step_fn(
                    50,
                    mapping_fix_reason(sf),
                    Some(
                        "Start with texture/resource override sections from the mod dependency profile before broad asset browsing."@,
                    ),
                    ev,
                ),
            ),
            "inspect_identity_conflicts_before_remap"@,
            f,
        ),
        "gather_stronger_asset_evidence"@,
        f,
    )
}

/// The buffer/layout surface raises the structural causes and fixes.
pub open spec fn buffer_causes(s: Seq<CauseModel>, sf: ModDependencySurfaceSummary) -> Seq<CauseModel> {
    let f = cause_step_fn(
        60,
        uses_line(surface_prefix(), sf, " surfaces, so structural drift is directly repair-relevant"@),
        spec_surface_evidence(sf, "mod-side ini files already encode buffer/layout assumptions"@),
    );
    update_first_cause(
        update_first_cause(
            update_first_cause(s, "buffer_layout_changed"@, f),
            "candidate_remap_structural_drift"@,
            f,
        ),
        "asset_signature_or_hash_changed"@,
        f,
    )
}

pub open spec fn buffer_fixes(s: Seq<FixModel>, sf: ModDependencySurfaceSummary) -> Seq<FixModel> {
    let f = fix_step_fn(
        60,
        uses_line(surface_prefix(), sf, " surfaces, so layout-sensitive fixes should be inspected first"@),
        Some(
            "Cross-check the mod's override stride/count/layout sections before approving any remap or runtime guard."@,
        ),
        spec_surface_evidence(sf, "mod-side dependency profile points at buffer/layout-sensitive hooks"@),
    );
    update_first_fix(
        update_first_fix(s, "review_buffer_layout_and_runtime_guards"@, f),
        "validate_candidate_remaps_against_layout"@,
        f,
    )
}

pub open spec fn resource_cause(
    sf: ModDependencySurfaceSummary,
    affected: Seq<Seq<char>>,
    buffer: nat,
    runtime: nat,
    low: bool,
) -> CauseModel {
    CauseModel {
        code: "mod_resource_or_skeleton_surface_changed"@,
        summary: "The mod depends on skeleton/resource reference surfaces, and compare evidence suggests those surfaces moved or changed."@,
        confidence_milli: scaled(blend(460, 180 * buffer + 140 * runtime), low),
        risk: RiskLevel::High,
        affected,
        reasons: seq![
            uses_line(surface_prefix(), sf, " surfaces and compare evidence shows related movement/drift"@),
        ],
        evidence: spec_surface_evidence(
            sf,
            "resource/container/skeleton signals changed on game-side assets that this mod style commonly touches"@,
        ),
    }
}

pub open spec fn resource_fix(sf: ModDependencySurfaceSummary, mapping: nat, buffer: nat, low: bool) -> FixModel {
    FixModel {
        code: "review_resource_and_skeleton_bindings"@,
        summary: "Review resource references, skeleton merge bindings, and moved package/context surfaces before trusting remaps."@,
        confidence_milli: scaled(blend(450, 150 * buffer + 100 * mapping), low),
        priority: RiskLevel::High,
        actions: seq![
            "Inspect resource filename references and merged-skeleton related ini sections first."@,
            "Verify container/source-kind movement and skeleton presence markers before promoting a remap."@,
        ],
        reasons: seq![
            uses_line(
                surface_prefix(),
                sf,
                " surfaces, so resource/skeleton drift is a first-pass review target"@,
            ),
        ],
        evidence: spec_surface_evidence(
            sf,
            "mod-side dependency profile includes resource references or skeleton merge hooks"@,
        ),
    }
}

/// The old and new paths of the hints.
pub open spec fn hint_path_set(hs: Seq<HintModel>) -> Set<Seq<char>> {
    Set::new(
        |p: Seq<char>|
            exists|i: int|
                0 <= i < hs.len() && (#[trigger] hs[i].old_asset_path == p || hs[i].new_asset_path == p),
    )
}

pub open spec fn hook_cause(sf: ModDependencySurfaceSummary, hints: Seq<HintModel>, mapping: nat, low: bool) -> CauseModel {
    CauseModel {
        code: "mod_hook_targeting_surface_requires_manual_review"@,
        summary: "This mod uses draw-call/filter/object-guid targeting, so plausible remaps still need manual hook revalidation."@,
        confidence_milli: scaled(blend(420, 180 * mapping), low),
        risk: RiskLevel::Medium,
        affected: ascending(hint_path_set(hints)),
        reasons: seq![
            uses_line(
                surface_prefix(),
                sf,
                " surfaces that stay review-first even when compare candidates look plausible"@,
            ),
        ],
        evidence: spec_surface_evidence(
            sf,
            "hook-targeting ini sections often need manual retargeting beyond asset remap confidence"@,
        ),
    }
}

pub open spec fn hook_fix(sf: ModDependencySurfaceSummary, mapping: nat, low: bool) -> FixModel {
    FixModel {
        code: "review_draw_call_and_filter_hooks_before_remap"@,
        summary: "Review draw-call/filter/object-guid hook sections before promoting any mapping candidate."@,
        confidence_milli: scaled(blend(440, 150 * mapping), low),
        priority: RiskLevel::High,
        actions: seq![
            "Start with match_first_index/match_index_count/filter_index/object_guid sections from the mod dependency profile."@,
            "Keep remaps in manual review until hook targeting is revalidated on real runtime behavior."@,
        ],
        reasons: seq![
            uses_line(surface_prefix(), sf, " surfaces, so remap promotion should stay review-first"@),
        ],
        evidence: spec_surface_evidence(
            sf,
            "draw-call/filter/object-guid targeting is present in the scanned mod ini files"@,
        ),
    }
}

/// The causes after the mod's surfaces: the mapping/hash and buffer/layout surfaces
/// raise their causes; the resource/skeleton surface adds a cause where the compare
/// moved such assets, and the hook surface adds one where the compare gives remaps,
/// removals or identity drift to review.
pub open spec fn mod_adjusted_causes(
    s: Seq<CauseModel>,
    ins: ModDependencyInsights,
    ix: InferenceSurfaceIntersection,
    cr: SnapshotCompareReport,
    hints: Seq<HintModel>,
    buffer: nat,
    runtime: nat,
    mapping: nat,
    low: bool,
) -> Seq<CauseModel> {
    let s1 = match active(ins.mapping_hash, ix, WwmiModDependencySurfaceClass::MappingHash) {
        Some(sf) => mapping_causes(s, sf),
        None => s,
    };
    let s2 = match active(ins.buffer_layout, ix, WwmiModDependencySurfaceClass::BufferLayout) {
        Some(sf) => buffer_causes(s1, sf),
        None => s1,
    };
    let affected = ascending(spec_resource_skeleton_paths(cr));
    let s3 = match active(ins.resource_or_skeleton, ix, WwmiModDependencySurfaceClass::ResourceSkeleton) {
        Some(sf) => if affected.len() > 0 {
            s2.push(resource_cause(sf, affected, buffer, runtime, low))
        } else {
            s2
        },
        None => s2,
    };
    match active(ins.hook_targeting, ix, WwmiModDependencySurfaceClass::DrawCallFilterHook) {
        Some(sf) => if spec_hook_review_surface(cr) {
            s3.push(hook_cause(sf, hints, mapping, low))
        } else {
            s3
        },
        None => s3,
    }
}

pub open spec fn mod_adjusted_fixes(
    s: Seq<FixModel>,
    ins: ModDependencyInsights,
    ix: InferenceSurfaceIntersection,
    cr: SnapshotCompareReport,
    buffer: nat,
    mapping: nat,
    low: bool,
) -> Seq<FixModel> {
    let s1 = match active(ins.mapping_hash, ix, WwmiModDependencySurfaceClass::MappingHash) {
        Some(sf) => mapping_fixes(s, sf),
        None => s,
    };
    let s2 = match active(ins.buffer_layout, ix, WwmiModDependencySurfaceClass::BufferLayout) {
        Some(sf) => buffer_fixes(s1, sf),
        None => s1,
    };
    let s3 = match active(ins.resource_or_skeleton, ix, WwmiModDependencySurfaceClass::ResourceSkeleton) {
        Some(sf) => if ascending(spec_resource_skeleton_paths(cr)).len() > 0 {
            s2.push(resource_fix(sf, mapping, buffer, low))
        } else {
            s2
        },
        None => s2,
    };
    match active(ins.hook_targeting, ix, WwmiModDependencySurfaceClass::DrawCallFilterHook) {
        Some(sf) => if spec_hook_review_surface(cr) {
            s3.push(hook_fix(sf, mapping, low))
        } else {
            s3
        },
        None => s3,
    }
}

// ---------------------------------------------------------------------------
// Hints on a mod's surfaces
// ---------------------------------------------------------------------------

pub open spec fn rs_names(rs: Seq<Seq<char>>, code: Seq<char>) -> bool {
    exists|i: int| 0 <= i < rs.len() && names_code(#[trigger] rs[i], code)
}

pub open spec fn is_resource_hint(rs: Seq<Seq<char>>) -> bool {
    ||| rs_names(rs, "container_path_exact"@)
    ||| rs_names(rs, "container_path_mismatch"@)
    ||| rs_names(rs, "source_kind_exact"@)
    ||| rs_names(rs, "source_kind_mismatch"@)
    ||| rs_names(rs, "internal_binding_targets_exact"@)
    ||| rs_names(rs, "internal_binding_targets_overlap"@)
    ||| rs_names(rs, "internal_binding_targets_mismatch"@)
    ||| rs_names(rs, "internal_subresource_roles_exact"@)
    ||| rs_names(rs, "internal_subresource_roles_overlap"@)
    ||| rs_names(rs, "internal_subresource_roles_mismatch"@)
    ||| rs_names(rs, "internal_skeleton_presence_exact"@)
    ||| rs_names(rs, "internal_skeleton_presence_mismatch"@)
}

pub open spec fn adjust_hint(
    h: HintModel,
    conf: nat,
    compat: RemapCompatibility,
    reason: Seq<char>,
    ev: Seq<Seq<char>>,
) -> HintModel {
    HintModel {
        old_asset_path: h.old_asset_path,
        new_asset_path: h.new_asset_path,
        confidence_milli: conf,
        compatibility: compat,
        needs_review: h.needs_review,
        ambiguous: h.ambiguous,
        confidence_gap_milli: h.confidence_gap_milli,
        reasons: push_unique_seq(h.reasons, reason),
        evidence: append_unique(h.evidence, ev),
    }
}

/// A hint after the mod's surfaces: a hash- or signature-aligned remap gains 30
/// on a mapping/hash surface; a structurally drifted one loses 60 on a
/// buffer/layout surface; one on resource or skeleton reasons loses 30 on that
/// surface; every hint loses 70 and is capped at caution on a hook surface.
pub open spec fn spec_mod_hint(
    h: HintModel,
    mh: Option<ModDependencySurfaceSummary>,
    bl: Option<ModDependencySurfaceSummary>,
    rs: Option<ModDependencySurfaceSummary>,
    hk: Option<ModDependencySurfaceSummary>,
) -> HintModel {
    let h1 = match mh {
        Some(sf) => if rs_names(h.reasons, "asset_hash_exact"@) || rs_names(h.reasons, "signature_exact"@) {
            adjust_hint(
                h,
                cap_add(h.confidence_milli, 30),
                h.compatibility,
                uses_line(
                    surface_prefix(),
                    sf,
                    " surfaces, so this hash/identity-aligned remap is more repair-relevant"@,
                ),
                spec_surface_evidence(
                    sf,
                    "texture/resource override sections provide a direct review entry point for this remap"@,
                ),
            )
        } else {
            h
        },
        None => h,
    };
    let h2 = match bl {
        Some(sf) => if h1.compatibility == RemapCompatibility::StructurallyRisky || rs_names(
            h1.reasons,
            "same_asset_but_structural_drift"@,
        ) || rs_names(h1.reasons, "buffer_layout_validation_needed"@) {
            adjust_hint(
                h1,
                sat_sub(h1.confidence_milli, 60),
                h1.compatibility,
                uses_line(review_prefix(), sf, " surfaces, so structurally drifted remaps stay review-first"@),
                spec_surface_evidence(sf, "buffer/layout-sensitive mod hooks raise the cost of a wrong remap"@),
            )
        } else {
            h1
        },
        None => h1,
    };
    let h3 = match rs {
        Some(sf) => if is_resource_hint(h2.reasons) {
            adjust_hint(
                h2,
                sat_sub(h2.confidence_milli, 30),
                h2.compatibility,
                uses_line(
                    review_prefix(),
                    sf,
                    " surfaces, so container/resource/skeleton movement stays review-first"@,
                ),
                spec_surface_evidence(
                    sf,
                    "resource references or skeleton merge hooks are present in the mod dependency profile"@,
                ),
            )
        } else {
            h2
        },
        None => h2,
    };
    match hk {
        Some(sf) => adjust_hint(
            h3,
            sat_sub(h3.confidence_milli, 70),
            spec_downgrade_hook(h3.compatibility),
            uses_line(
                review_prefix(),
                sf,
                " surfaces, so even plausible remaps require manual hook revalidation"@,
            ),
            spec_surface_evidence(sf, "draw-call/filter/object-guid hooks can break independently of asset similarity"@),
        ),
        None => h3,
    }
}


/// A mod's surfaces that the compare does not overlap change no cause, no fix and
/// no hint.
pub proof fn surfaces_without_overlap_change_nothing(
    s: Seq<CauseModel>,
    f: Seq<FixModel>,
    h: HintModel,
    ins: ModDependencyInsights,
    ix: InferenceSurfaceIntersection,
    cr: SnapshotCompareReport,
    hints: Seq<HintModel>,
    buffer: nat,
    runtime: nat,
    mapping: nat,
    low: bool,
)
    requires
        ix.overlapping_surface_classes@.len() == 0,
    ensures
        mod_adjusted_causes(s, ins, ix, cr, hints, buffer, runtime, mapping, low) == s,
        mod_adjusted_fixes(f, ins, ix, cr, buffer, mapping, low) == f,
        spec_mod_hint(
            h,
            active(ins.mapping_hash, ix, WwmiModDependencySurfaceClass::MappingHash),
            active(ins.buffer_layout, ix, WwmiModDependencySurfaceClass::BufferLayout),
            active(ins.resource_or_skeleton, ix, WwmiModDependencySurfaceClass::ResourceSkeleton),
            active(ins.hook_targeting, ix, WwmiModDependencySurfaceClass::DrawCallFilterHook),
        ) == h,
{
    assert(!ix.overlapping_surface_classes@.contains(WwmiModDependencySurfaceClass::MappingHash));
    assert(!ix.overlapping_surface_classes@.contains(WwmiModDependencySurfaceClass::BufferLayout));
    assert(!ix.overlapping_surface_classes@.contains(WwmiModDependencySurfaceClass::ResourceSkeleton));
    assert(!ix.overlapping_surface_classes@.contains(WwmiModDependencySurfaceClass::DrawCallFilterHook));
}

// ---------------------------------------------------------------------------
// Executable pieces
// ---------------------------------------------------------------------------

fn uses_line_exec(prefix: &str, sf: &ModDependencySurfaceSummary, tail: &str) -> (r: String)
    ensures
        r@ == uses_line(prefix@, *sf, tail@),
{
    let mut l = new_string(prefix);
    push_str(&mut l, "this mod uses ");
    push_str(&mut l, sf.label.as_str());
    push_str(&mut l, tail);
    l
}

fn mapping_hash_step(
    causes: &mut Vec<ProbableCrashCause>,
    fixes: &mut Vec<SuggestedFix>,
    sf: &ModDependencySurfaceSummary,
)
    ensures
        cause_models(final(causes)@) == mapping_causes(cause_models(old(causes)@), *sf),
        fix_models(final(fixes)@) == mapping_fixes(fix_models(old(fixes)@), *sf),
{
    let reason = uses_line_exec(
        "mod_dependency_surface: ",
        sf,
        " surfaces, so mapping/hash change evidence is more repair-relevant here",
    );
    let detail = "mod-side ini files already depend on hash/resource-driven targeting";
    surface_cause_step(causes, "asset_paths_or_mapping_shifted", 50, &reason, sf, detail);
    surface_cause_step(causes, "asset_removed_without_clear_replacement", 50, &reason, sf, detail);
    surface_cause_step(causes, "asset_signature_or_hash_changed", 50, &reason, sf, detail);
    surface_cause_step(causes, "candidate_remap_identity_conflict", 50, &reason, sf, detail);
    surface_cause_step(causes, "candidate_remap_insufficient_evidence", 50, &reason, sf, detail);
    let fix_reason = uses_line_exec(
        "mod_dependency_surface: ",
        sf,
        " surfaces, so mapping/hash repair paths deserve stronger priority",
    );
    let fix_detail = "mod-side dependency profile points at mapping/hash-sensitive repair touchpoints";
    surface_fix_step(
        fixes,
        "review_candidate_asset_remaps",
        50,
        &fix_reason,
        Some(
            "Start with texture/resource override sections from the mod dependency profile before broad asset browsing.",
        ),
        sf,
        fix_detail,
    );
    surface_fix_step(fixes, "inspect_identity_conflicts_before_remap", 50, &fix_reason, None, sf, fix_detail);
    surface_fix_step(fixes, "gather_stronger_asset_evidence", 50, &fix_reason, None, sf, fix_detail);
}

fn buffer_layout_step(
    causes: &mut Vec<ProbableCrashCause>,
    fixes: &mut Vec<SuggestedFix>,
    sf: &ModDependencySurfaceSummary,
)
    ensures
        cause_models(final(causes)@) == buffer_causes(cause_models(old(causes)@), *sf),
        fix_models(final(fixes)@) == buffer_fixes(fix_models(old(fixes)@), *sf),
{
    let reason = uses_line_exec(
        "mod_dependency_surface: ",
        sf,
        " surfaces, so structural drift is directly repair-relevant",
    );
    let detail = "mod-side ini files already encode buffer/layout assumptions";
    surface_cause_step(causes, "buffer_layout_changed", 60, &reason, sf, detail);
    surface_cause_step(causes, "candidate_remap_structural_drift", 60, &reason, sf, detail);
    surface_cause_step(causes, "asset_signature_or_hash_changed", 60, &reason, sf, detail);
    let fix_reason = uses_line_exec(
        "mod_dependency_surface: ",
        sf,
        " surfaces, so layout-sensitive fixes should be inspected first",
    );
    let action = "Cross-check the mod's override stride/count/layout sections before approving any remap or runtime guard.";
    let fix_detail = "mod-side dependency profile points at buffer/layout-sensitive hooks";
    surface_fix_step(fixes, "review_buffer_layout_and_runtime_guards", 60, &fix_reason, Some(action), sf, fix_detail);
    surface_fix_step(fixes, "validate_candidate_remaps_against_layout", 60, &fix_reason, Some(action), sf, fix_detail);
}

fn resource_findings(
    sf: &ModDependencySurfaceSummary,
    affected: Vec<String>,
    mapping_support: u32,
    buffer_support: u32,
    runtime_support: u32,
    low_signal: bool,
) -> (r: (ProbableCrashCause, SuggestedFix))
    requires
        mapping_support <= 1000,
        buffer_support <= 1000,
        runtime_support <= 1000,
    ensures
        cause_model(r.0) == resource_cause(
            *sf,
            views(affected@),
            buffer_support as nat,
            runtime_support as nat,
            low_signal,
        ),
        fix_model(r.1) == resource_fix(*sf, mapping_support as nat, buffer_support as nat, low_signal),
{
    let cconf = blend_exec(460, 180 * (buffer_support as u64) + 140 * (runtime_support as u64), low_signal);
    let mut creasons: Vec<String> = Vec::new();
    push_text(
        &mut creasons,
        uses_line_exec(
            "mod_dependency_surface: ",
            sf,
            " surfaces and compare evidence shows related movement/drift",
        ),
    );
    let cause = ProbableCrashCause {
        code: new_string("mod_resource_or_skeleton_surface_changed"),
        summary: new_string(
            "The mod depends on skeleton/resource reference surfaces, and compare evidence suggests those surfaces moved or changed.",
        ),
        confidence_milli: cconf,
        risk: RiskLevel::High,
        affected_assets: affected,
        reasons: creasons,
        evidence: surface_evidence(
            sf,
            "resource/container/skeleton signals changed on game-side assets that this mod style commonly touches",
        ),
    };
    let fconf = blend_exec(450, 150 * (buffer_support as u64) + 100 * (mapping_support as u64), low_signal);
    let mut actions: Vec<String> = Vec::new();
    push_text(
        &mut actions,
        new_string("Inspect resource filename references and merged-skeleton related ini sections first."),
    );
    push_text(
        &mut actions,
        new_string(
            "Verify container/source-kind movement and skeleton presence markers before promoting a remap.",
        ),
    );
    let mut freasons: Vec<String> = Vec::new();
    push_text(
        &mut freasons,
        uses_line_exec(
            "mod_dependency_surface: ",
            sf,
            " surfaces, so resource/skeleton drift is a first-pass review target",
        ),
    );
    let fix = SuggestedFix {
        code: new_string("review_resource_and_skeleton_bindings"),
        summary: new_string(
            "Review resource references, skeleton merge bindings, and moved package/context surfaces before trusting remaps.",
        ),
        confidence_milli: fconf,
        priority: RiskLevel::High,
        actions,
        reasons: freasons,
        evidence: surface_evidence(
            sf,
            "mod-side dependency profile includes resource references or skeleton merge hooks",
        ),
    };
    proof {
        assert(views(cause.reasons@) =~= seq![
            uses_line(surface_prefix(), *sf, " surfaces and compare evidence shows related movement/drift"@),
        ]);
        assert(views(fix.actions@) =~= seq![
            "Inspect resource filename references and merged-skeleton related ini sections first."@,
            "Verify container/source-kind movement and skeleton presence markers before promoting a remap."@,
        ]);
        assert(views(fix.reasons@) =~= seq![
            uses_line(
                surface_prefix(),
                *sf,
                " surfaces, so resource/skeleton drift is a first-pass review target"@,
            ),
        ]);
    }
    (cause, fix)
}

fn hint_paths(hints: &Vec<InferredMappingHint>) -> (r: Vec<String>)
    ensures
        views(r@) == ascending(hint_path_set(hint_models(hints@))),
{
    let ghost hm = hint_models(hints@);
    let mut all: Vec<String> = Vec::new();
    let mut i: usize = 0;
    while i < hints.len()
        invariant
            i <= hints@.len(),
            hm == hint_models(hints@),
            views(all@).to_set() == hint_path_set(hm.take(i as int)),
        decreases hints.len() - i,
    {
        let ghost before = views(all@);
        push_text(&mut all, clone_string(&hints[i].old_asset_path));
        push_text(&mut all, clone_string(&hints[i].new_asset_path));
        proof {
            let t0 = hm.take(i as int);
            let t1 = hm.take(i + 1);
            assert(views(all@) =~= before.push(hm[i as int].old_asset_path).push(hm[i as int].new_asset_path));
            assert forall|p: Seq<char>| #[trigger] views(all@).to_set().contains(p) == hint_path_set(t1).contains(p) by {
                if views(all@).to_set().contains(p) {
                    if before.contains(p) {
                        assert(hint_path_set(t0).contains(p));
                        let j = choose|j: int|
                            0 <= j < t0.len() && (#[trigger] t0[j].old_asset_path == p || t0[j].new_asset_path == p);
                        assert(t1[j] == t0[j]);
                    } else {
                        assert(t1[i as int] == hm[i as int]);
                    }
                }
                if hint_path_set(t1).contains(p) {
                    let j = choose|j: int|
                        0 <= j < t1.len() && (#[trigger] t1[j].old_asset_path == p || t1[j].new_asset_path == p);
                    if j < i {
                        assert(t0[j] == t1[j]);
                        assert(hint_path_set(t0).contains(p));
                        assert(before.to_set().contains(p));
                        assert(before.contains(p));
                        let k = choose|k: int| 0 <= k < before.len() && before[k] == p;
                        assert(views(all@)[k] == p);
                    } else {
                        assert(j == i);
                        if p == hm[i as int].old_asset_path {
                            assert(views(all@)[before.len() as int] == p);
                        } else {
                            assert(views(all@)[before.len() as int + 1] == p);
                        }
                    }
                }
            }
            assert(views(all@).to_set() =~= hint_path_set(t1));
        }
        i = i + 1;
    }
    proof {
        assert(hm.take(i as int) =~= hm);
    }
    let r = sorted_set_of(all);
    proof {
        lemma_ascending_is(views(r@), hint_path_set(hm));
    }
    r
}

fn hook_findings(
    sf: &ModDependencySurfaceSummary,
    hints: &Vec<InferredMappingHint>,
    mapping_support: u32,
    low_signal: bool,
) -> (r: (ProbableCrashCause, SuggestedFix))
    requires
        mapping_support <= 1000,
    ensures
        cause_model(r.0) == hook_cause(*sf, hint_models(hints@), mapping_support as nat, low_signal),
        fix_model(r.1) == hook_fix(*sf, mapping_support as nat, low_signal),
{
    let cconf = blend_exec(420, 180 * (mapping_support as u64), low_signal);
    let mut creasons: Vec<String> = Vec::new();
    push_text(
        &mut creasons,
        uses_line_exec(
            "mod_dependency_surface: ",
            sf,
            " surfaces that stay review-first even when compare candidates look plausible",
        ),
    );
    let cause = ProbableCrashCause {
        code: new_string("mod_hook_targeting_surface_requires_manual_review"),
        summary: new_string(
            "This mod uses draw-call/filter/object-guid targeting, so plausible remaps still need manual hook revalidation.",
        ),
        confidence_milli: cconf,
        risk: RiskLevel::Medium,
        affected_assets: hint_paths(hints),
        reasons: creasons,
        evidence: surface_evidence(
            sf,
            "hook-targeting ini sections often need manual retargeting beyond asset remap confidence",
        ),
    };
    let fconf = blend_exec(440, 150 * (mapping_support as u64), low_signal);
    let mut actions: Vec<String> = Vec::new();
    push_text(
        &mut actions,
        new_string(
            "Start with match_first_index/match_index_count/filter_index/object_guid sections from the mod dependency profile.",
        ),
    );
    push_text(
        &mut actions,
        new_string("Keep remaps in manual review until hook targeting is revalidated on real runtime behavior."),
    );
    let mut freasons: Vec<String> = Vec::new();
    push_text(
        &mut freasons,
        uses_line_exec("mod_dependency_surface: ", sf, " surfaces, so remap promotion should stay review-first"),
    );
    let fix = SuggestedFix {
        code: new_string("review_draw_call_and_filter_hooks_before_remap"),
        summary: new_string(
            "Review draw-call/filter/object-guid hook sections before promoting any mapping candidate.",
        ),
        confidence_milli: fconf,
        priority: RiskLevel::High,
        actions,
        reasons: freasons,
        evidence: surface_evidence(
            sf,
            "draw-call/filter/object-guid targeting is present in the scanned mod ini files",
        ),
    };
    proof {
        assert(views(cause.reasons@) =~= seq![
            uses_line(
                surface_prefix(),
                *sf,
                " surfaces that stay review-first even when compare candidates look plausible"@,
            ),
        ]);
        assert(views(fix.actions@) =~= seq![
            "Start with match_first_index/match_index_count/filter_index/object_guid sections from the mod dependency profile."@,
            "Keep remaps in manual review until hook targeting is revalidated on real runtime behavior."@,
        ]);
        assert(views(fix.reasons@) =~= seq![
            uses_line(surface_prefix(), *sf, " surfaces, so remap promotion should stay review-first"@),
        ]);
    }
    (cause, fix)
}

pub open spec fn opt_surface(o: Option<&ModDependencySurfaceSummary>) -> Option<ModDependencySurfaceSummary> {
    match o {
        Some(x) => Some(*x),
        None => None,
    }
}

fn names(rs: &Vec<String>, code: &str) -> (r: bool)
    ensures
        r == rs_names(views(rs@), code@),
{
    let r = has_reason_code_text(rs, code);
    proof {
        if r {
            let i = choose|i: int| 0 <= i < rs@.len() && names_code(#[trigger] rs@[i]@, code@);
            assert(views(rs@)[i] == rs@[i]@);
        }
        if rs_names(views(rs@), code@) {
            let i = choose|i: int| 0 <= i < views(rs@).len() && names_code(#[trigger] views(rs@)[i], code@);
            assert(views(rs@)[i] == rs@[i]@);
        }
    }
    r
}

fn resource_hint_exec(rs: &Vec<String>) -> (r: bool)
    ensures
        r == is_resource_hint(views(rs@)),
{
    names(rs, "container_path_exact") || names(rs, "container_path_mismatch") || names(
        rs,
        "source_kind_exact",
    ) || names(rs, "source_kind_mismatch") || names(rs, "internal_binding_targets_exact") || names(
        rs,
        "internal_binding_targets_overlap",
    ) || names(rs, "internal_binding_targets_mismatch") || names(rs, "internal_subresource_roles_exact")
        || names(rs, "internal_subresource_roles_overlap") || names(
        rs,
        "internal_subresource_roles_mismatch",
    ) || names(rs, "internal_skeleton_presence_exact") || names(rs, "internal_skeleton_presence_mismatch")
}

fn adjust_hint_exec(
    h: InferredMappingHint,
    conf: u32,
    compat: RemapCompatibility,
    reason: String,
    sf: &ModDependencySurfaceSummary,
    detail: &str,
) -> (r: InferredMappingHint)
    ensures
        hint_model(r) == adjust_hint(hint_model(h), conf as nat, compat, reason@, spec_surface_evidence(*sf, detail@)),
{
    let mut h = h;
    h.confidence_milli = conf;
    h.compatibility = compat;
    push_unique(&mut h.reasons, reason);
    append_surface_evidence(&mut h.evidence, sf, detail);
    h
}

fn sat_sub_u32(x: u32, y: u32) -> (r: u32)
    ensures
        r == sat_sub(x as nat, y as nat),
{
    if x >= y {
        x - y
    } else {
        0
    }
}

fn mod_hint_exec(
    h: InferredMappingHint,
    mh: Option<&ModDependencySurfaceSummary>,
    bl: Option<&ModDependencySurfaceSummary>,
    rs: Option<&ModDependencySurfaceSummary>,
    hk: Option<&ModDependencySurfaceSummary>,
) -> (r: InferredMappingHint)
    ensures
        hint_model(r) == spec_mod_hint(
            hint_model(h),
            opt_surface(mh),
            opt_surface(bl),
            opt_surface(rs),
            opt_surface(hk),
        ),
{
    let mut h = h;
    match mh {
        Some(sf) => {
            if names(&h.reasons, "asset_hash_exact") || names(&h.reasons, "signature_exact") {
                let conf = cap_add_exec(h.confidence_milli, 30);
                let compat = h.compatibility;
                let reason = uses_line_exec(
                    "mod_dependency_surface: ",
                    sf,
                    " surfaces, so this hash/identity-aligned remap is more repair-relevant",
                );
                h = adjust_hint_exec(
                    h,
                    conf,
                    compat,
                    reason,
                    sf,
                    "texture/resource override sections provide a direct review entry point for this remap",
                );
            }
        },
        None => {},
    }
    match bl {
        Some(sf) => {
            if matches!(h.compatibility, RemapCompatibility::StructurallyRisky) || names(
                &h.reasons,
                "same_asset_but_structural_drift",
            ) || names(&h.reasons, "buffer_layout_validation_needed") {
                let conf = sat_sub_u32(h.confidence_milli, 60);
                let compat = h.compatibility;
                let reason = uses_line_exec(
                    "mod_dependency_review_first: ",
                    sf,
                    " surfaces, so structurally drifted remaps stay review-first",
                );
                h = adjust_hint_exec(
                    h,
                    conf,
                    compat,
                    reason,
                    sf,
                    "buffer/layout-sensitive mod hooks raise the cost of a wrong remap",
                );
            }
        },
        None => {},
    }
    match rs {
        Some(sf) => {
            if resource_hint_exec(&h.reasons) {
                let conf = sat_sub_u32(h.confidence_milli, 30);
                let compat = h.compatibility;
                let reason = uses_line_exec(
                    "mod_dependency_review_first: ",
                    sf,
                    " surfaces, so container/resource/skeleton movement stays review-first",
                );
                h = adjust_hint_exec(
                    h,
                    conf,
                    compat,
                    reason,
                    sf,
                    "resource references or skeleton merge hooks are present in the mod dependency profile",
                );
            }
        },
        None => {},
    }
    match hk {
        Some(sf) => {
            let conf = sat_sub_u32(h.confidence_milli, 70);
            let compat = downgrade_hook_targeting_compatibility(h.compatibility);
            let reason = uses_line_exec(
                "mod_dependency_review_first: ",
                sf,
                " surfaces, so even plausible remaps require manual hook revalidation",
            );
            h = adjust_hint_exec(
                h,
                conf,
                compat,
                reason,
                sf,
                "draw-call/filter/object-guid hooks can break independently of asset similarity",
            );
        },
        None => {},
    }
    h
}

fn active_exec<'a>(
    s: &'a Option<ModDependencySurfaceSummary>,
    ix: &InferenceSurfaceIntersection,
    class: WwmiModDependencySurfaceClass,
) -> (r: Option<&'a ModDependencySurfaceSummary>)
    ensures
        opt_surface(r) == active(*s, *ix, class),
{
    if surface_intersection_has_overlap(ix, class) {
        match s {
            Some(x) => Some(x),
            None => None,
        }
    } else {
        None
    }
}

/// The causes, fixes and hints after the mod's dependency surfaces that the compare
/// overlaps: see `mod_adjusted_causes`, `mod_adjusted_fixes` and `spec_mod_hint`.
pub fn apply_mod_dependency_inference_adjustments(
    causes: &mut Vec<ProbableCrashCause>,
    fixes: &mut Vec<SuggestedFix>,
    hints: &mut Vec<InferredMappingHint>,
    compare_report: &SnapshotCompareReport,
    mod_dependency: &ModDependencyInsights,
    surface_intersection: &InferenceSurfaceIntersection,
    mapping_support: u32,
    buffer_support: u32,
    runtime_support: u32,
    low_signal: bool,
)
    requires
        mapping_support <= 1000,
        buffer_support <= 1000,
        runtime_support <= 1000,
    ensures
        cause_models(final(causes)@) == mod_adjusted_causes(
            cause_models(old(causes)@),
            *mod_dependency,
            *surface_intersection,
            *compare_report,
            hint_models(old(hints)@),
            buffer_support as nat,
            runtime_support as nat,
            mapping_support as nat,
            low_signal,
        ),
        fix_models(final(fixes)@) == mod_adjusted_fixes(
            fix_models(old(fixes)@),
            *mod_dependency,
            *surface_intersection,
            *compare_report,
            buffer_support as nat,
            mapping_support as nat,
            low_signal,
        ),
        hint_models(final(hints)@) == hint_models(old(hints)@).map_values(
            |h: HintModel|
                spec_mod_hint(
                    h,
                    active(mod_dependency.mapping_hash, *surface_intersection, WwmiModDependencySurfaceClass::MappingHash),
                    active(mod_dependency.buffer_layout, *surface_intersection, WwmiModDependencySurfaceClass::BufferLayout),
                    active(
                        mod_dependency.resource_or_skeleton,
                        *surface_intersection,
                        WwmiModDependencySurfaceClass::ResourceSkeleton,
                    ),
                    active(
                        mod_dependency.hook_targeting,
                        *surface_intersection,
                        WwmiModDependencySurfaceClass::DrawCallFilterHook,
                    ),
                ),
        ),
{
    let ix = surface_intersection;
    let mh = active_exec(&mod_dependency.mapping_hash, ix, WwmiModDependencySurfaceClass::MappingHash);
    let bl = active_exec(&mod_dependency.buffer_layout, ix, WwmiModDependencySurfaceClass::BufferLayout);
    let rsk = active_exec(&mod_dependency.resource_or_skeleton, ix, WwmiModDependencySurfaceClass::ResourceSkeleton);
    let hk = active_exec(&mod_dependency.hook_targeting, ix, WwmiModDependencySurfaceClass::DrawCallFilterHook);
    let ghost hm0 = hint_models(hints@);
    match mh {
        Some(sf) => mapping_hash_step(causes, fixes, sf),
        None => {},
    }
    match bl {
        Some(sf) => buffer_layout_step(causes, fixes, sf),
        None => {},
    }
    match rsk {
        Some(sf) => {
            let affected = resource_or_skeleton_affected_assets(compare_report);
            proof {
                lemma_ascending_is(views(affected@), spec_resource_skeleton_paths(*compare_report));
            }
            if affected.len() > 0 {
                let (c, f) = resource_findings(sf, affected, mapping_support, buffer_support, runtime_support, low_signal);
                let ghost cb = causes@;
                let ghost fb = fixes@;
                causes.push(c);
                fixes.push(f);
                proof {
                    assert(cause_models(causes@) =~= cause_models(cb).push(cause_model(c)));
                    assert(fix_models(fixes@) =~= fix_models(fb).push(fix_model(f)));
                }
            }
        },
        None => {},
    }
    match hk {
        Some(sf) => {
            if has_hook_targeting_review_surface(compare_report) {
                let (c, f) = hook_findings(sf, hints, mapping_support, low_signal);
                let ghost cb = causes@;
                let ghost fb = fixes@;
                causes.push(c);
                fixes.push(f);
                proof {
                    assert(cause_models(causes@) =~= cause_models(cb).push(cause_model(c)));
                    assert(fix_models(fixes@) =~= fix_models(fb).push(fix_model(f)));
                }
            }
        },
        None => {},
    }
    let ghost (gm, gb, gr, gk) = (opt_surface(mh), opt_surface(bl), opt_surface(rsk), opt_surface(hk));
    let mut taken: Vec<InferredMappingHint> = Vec::new();
    std::mem::swap(hints, &mut taken);
    let ghost orig = taken@;
    let mut i: usize = 0;
    proof {
        assert(taken@ =~= orig.skip(0));
        assert(orig.len() == taken.len());
        assert(hint_models(hints@) =~= hint_models(orig.take(0)).map_values(
            |h: HintModel| spec_mod_hint(h, gm, gb, gr, gk),
        ));
    }
    while taken.len() > 0
        invariant
            i <= orig.len() <= usize::MAX,
            taken@ == orig.skip(i as int),
            gm == opt_surface(mh),
            gb == opt_surface(bl),
            gr == opt_surface(rsk),
            gk == opt_surface(hk),
            hint_models(hints@) == hint_models(orig.take(i as int)).map_values(
                |h: HintModel| spec_mod_hint(h, gm, gb, gr, gk),
            ),
        decreases taken.len(),
    {
        let ghost before = hints@;
        let h = taken.remove(0);
        let ghost h0 = h;
        let h2 = mod_hint_exec(h, mh, bl, rsk, hk);
        hints.push(h2);
        proof {
            assert(h0 == orig[i as int]);
            assert(orig.take(i + 1) =~= orig.take(i as int).push(h0));
            assert(hint_models(hints@) =~= hint_models(before).push(hint_model(h2)));
            assert(hint_models(orig.take(i + 1)).map_values(|h: HintModel| spec_mod_hint(h, gm, gb, gr, gk))
                =~= hint_models(orig.take(i as int)).map_values(
                |h: HintModel| spec_mod_hint(h, gm, gb, gr, gk),
            ).push(spec_mod_hint(hint_model(h0), gm, gb, gr, gk)));
            assert(taken@ =~= orig.skip(i + 1));
        }
        i = i + 1;
    }
    proof {
        assert(orig.take(i as int) =~= orig);
        assert(orig == old(hints)@);
    }
}

} // verus!
