//! Which game-side surfaces a compare touches: the mapping/hash, buffer-layout,
//! resource/skeleton and draw-call/hook surfaces a mod can depend on, the compare
//! signals that point at each, and the assets involved.
use vstd::prelude::*;
use crate::compare::change::SnapshotAssetChange;
use crate::compare::outcome::{CandidateMappingChange, SnapshotCompareReport};
use crate::compare::scope::SnapshotCompareScopeInfo;
use crate::compare::RemapCompatibility;
use crate::inference::{
    is_structural_field_label, is_structural_field_text, InferenceGameSideSurface,
    WwmiModDependencySurfaceClass,
};
use crate::order::{sorted_set_of, sorted_strict};
use crate::text::{new_string, push_text, str_eq, views};

verus! {

broadcast use vstd::seq_lib::group_seq_properties;

// ---------------------------------------------------------------------------
// Changed fields and candidate reasons
// ---------------------------------------------------------------------------

/// The groups of changed fields that point at a surface.
#[derive(Debug, Clone, Copy, PartialEq, Eq)]
pub enum FieldSet {
    /// Hash, signature or presence drift: `asset_hash`, `shader_hash`, `signature`, `path_presence`.
    IdentityDrift,
    /// Structural, layout or hash-like fields.
    ShapeOrLayout,
    /// Origin and internal bindings: `container_path`, `source_kind`, and the binding,
    /// subresource, skeleton and shape-key markers of the internal structure.
    ResourceSkeleton,
    /// What hook targeting keys on: `container_path`, `source_kind`, `asset_hash`, `signature`.
    HookContext,
    /// What calls for a hook-targeting review: `asset_hash`, `shader_hash`, `signature`,
    /// `container_path`, `source_kind`.
    HookReview,
}

pub open spec fn in_field_set(f: Seq<char>, s: FieldSet) -> bool {
    match s {
        FieldSet::IdentityDrift => f == "asset_hash"@ || f == "shader_hash"@ || f == "signature"@
            || f == "path_presence"@,
        FieldSet::ShapeOrLayout => is_structural_field_label(f),
        FieldSet::ResourceSkeleton => f == "container_path"@ || f == "source_kind"@ || f
            == "internal_structure.binding_targets"@ || f == "internal_structure.subresource_roles"@
            || f == "internal_structure.has_skeleton"@ || f == "internal_structure.has_shapekey_data"@,
        FieldSet::HookContext => f == "container_path"@ || f == "source_kind"@ || f == "asset_hash"@
            || f == "signature"@,
        FieldSet::HookReview => f == "asset_hash"@ || f == "shader_hash"@ || f == "signature"@ || f
            == "container_path"@ || f == "source_kind"@,
    }
}

fn field_in_set(f: &str, s: FieldSet) -> (r: bool)
    ensures
        r == in_field_set(f@, s),
{
    match s {
        FieldSet::IdentityDrift => str_eq(f, "asset_hash") || str_eq(f, "shader_hash") || str_eq(
            f,
            "signature",
        ) || str_eq(f, "path_presence"),
        FieldSet::ShapeOrLayout => is_structural_field_text(f),
        FieldSet::ResourceSkeleton => str_eq(f, "container_path") || str_eq(f, "source_kind")
            || str_eq(f, "internal_structure.binding_targets") || str_eq(
            f,
            "internal_structure.subresource_roles",
        ) || str_eq(f, "internal_structure.has_skeleton") || str_eq(
            f,
            "internal_structure.has_shapekey_data",
        ),
        FieldSet::HookContext => str_eq(f, "container_path") || str_eq(f, "source_kind") || str_eq(
            f,
            "asset_hash",
        ) || str_eq(f, "signature"),
        FieldSet::HookReview => str_eq(f, "asset_hash") || str_eq(f, "shader_hash") || str_eq(
            f,
            "signature",
        ) || str_eq(f, "container_path") || str_eq(f, "source_kind"),
    }
}

/// Some changed field of the change is in the set.
pub open spec fn touches(c: SnapshotAssetChange, s: FieldSet) -> bool {
    exists|i: int| 0 <= i < c.changed_fields@.len() && in_field_set(#[trigger] c.changed_fields@[i]@, s)
}

pub fn change_touches(c: &SnapshotAssetChange, s: FieldSet) -> (r: bool)
    ensures
        r == touches(*c, s),
{
    let fields = &c.changed_fields;
    let mut i: usize = 0;
    while i < fields.len()
        invariant
            i <= fields@.len(),
            fields@ == c.changed_fields@,
            forall|j: int| 0 <= j < i ==> !in_field_set(#[trigger] fields@[j]@, s),
        decreases fields.len() - i,
    {
        if field_in_set(fields[i].as_str(), s) {
            return true;
        }
        i = i + 1;
    }
    false
}

/// Some change of the list touches the set.
pub open spec fn any_touches(cs: Seq<SnapshotAssetChange>, s: FieldSet) -> bool {
    exists|i: int| 0 <= i < cs.len() && touches(#[trigger] cs[i], s)
}

fn any_change_touches(cs: &Vec<SnapshotAssetChange>, s: FieldSet) -> (r: bool)
    ensures
        r == any_touches(cs@, s),
{
    let mut i: usize = 0;
    while i < cs.len()
        invariant
            i <= cs@.len(),
            forall|j: int| 0 <= j < i ==> !touches(#[trigger] cs@[j], s),
        decreases cs.len() - i,
    {
        if change_touches(&cs[i], s) {
            return true;
        }
        i = i + 1;
    }
    false
}

/// The reason codes that tie a candidate remap to origin, bindings or skeleton.
pub open spec fn is_resource_skeleton_code(code: Seq<char>) -> bool {
    ||| code == "container_path_exact"@
    ||| code == "container_path_mismatch"@
    ||| code == "source_kind_exact"@
    ||| code == "source_kind_mismatch"@
    ||| code == "internal_binding_targets_exact"@
    ||| code == "internal_binding_targets_overlap"@
    ||| code == "internal_binding_targets_mismatch"@
    ||| code == "internal_subresource_roles_exact"@
    ||| code == "internal_subresource_roles_overlap"@
    ||| code == "internal_subresource_roles_mismatch"@
    ||| code == "internal_skeleton_presence_exact"@
    ||| code == "internal_skeleton_presence_mismatch"@
}

fn resource_skeleton_code(code: &str) -> (r: bool)
    ensures
        r == is_resource_skeleton_code(code@),
{
    str_eq(code, "container_path_exact") || str_eq(code, "container_path_mismatch") || str_eq(
        code,
        "source_kind_exact",
    ) || str_eq(code, "source_kind_mismatch") || str_eq(code, "internal_binding_targets_exact")
        || str_eq(code, "internal_binding_targets_overlap") || str_eq(
        code,
        "internal_binding_targets_mismatch",
    ) || str_eq(code, "internal_subresource_roles_exact") || str_eq(
        code,
        "internal_subresource_roles_overlap",
    ) || str_eq(code, "internal_subresource_roles_mismatch") || str_eq(
        code,
        "internal_skeleton_presence_exact",
    ) || str_eq(code, "internal_skeleton_presence_mismatch")
}

pub open spec fn spec_resource_skeleton_candidate(c: CandidateMappingChange) -> bool {
    exists|i: int| 0 <= i < c.reasons@.len() && is_resource_skeleton_code(#[trigger] c.reasons@[i].code@)
}

/// The candidate's reasons speak of container, source kind, bindings, subresources or skeleton.
pub fn is_resource_or_skeleton_candidate(candidate: &CandidateMappingChange) -> (r: bool)
    ensures
        r == spec_resource_skeleton_candidate(*candidate),
{
    let reasons = &candidate.reasons;
    let mut i: usize = 0;
    while i < reasons.len()
        invariant
            i <= reasons@.len(),
            reasons@ == candidate.reasons@,
            forall|j: int| 0 <= j < i ==> !is_resource_skeleton_code(#[trigger] reasons@[j].code@),
        decreases reasons.len() - i,
    {
        if resource_skeleton_code(reasons[i].code.as_str()) {
            return true;
        }
        i = i + 1;
    }
    false
}

/// Which candidates a surface looks at.
#[derive(Debug, Clone, Copy, PartialEq, Eq)]
pub enum CandidatePick {
    All,
    StructurallyRisky,
    ResourceSkeleton,
}

pub open spec fn picks(c: CandidateMappingChange, p: CandidatePick) -> bool {
    match p {
        CandidatePick::All => true,
        CandidatePick::StructurallyRisky => c.compatibility == RemapCompatibility::StructurallyRisky,
        CandidatePick::ResourceSkeleton => spec_resource_skeleton_candidate(c),
    }
}

fn candidate_picked(c: &CandidateMappingChange, p: CandidatePick) -> (r: bool)
    ensures
        r == picks(*c, p),
{
    match p {
        CandidatePick::All => true,
        CandidatePick::StructurallyRisky => match c.compatibility {
            RemapCompatibility::StructurallyRisky => true,
            _ => false,
        },
        CandidatePick::ResourceSkeleton => is_resource_or_skeleton_candidate(c),
    }
}

pub open spec fn any_picked(cs: Seq<CandidateMappingChange>, p: CandidatePick) -> bool {
    exists|i: int| 0 <= i < cs.len() && picks(#[trigger] cs[i], p)
}

fn any_candidate_picked(cs: &Vec<CandidateMappingChange>, p: CandidatePick) -> (r: bool)
    ensures
        r == any_picked(cs@, p),
{
    let mut i: usize = 0;
    while i < cs.len()
        invariant
            i <= cs@.len(),
            forall|j: int| 0 <= j < i ==> !picks(#[trigger] cs@[j], p),
        decreases cs.len() - i,
    {
        if candidate_picked(&cs[i], p) {
            return true;
        }
        i = i + 1;
    }
    false
}

// ---------------------------------------------------------------------------
// The paths a surface involves
// ---------------------------------------------------------------------------

/// The path a change stands for: its new asset's, else its old asset's.
pub open spec fn side_path(c: SnapshotAssetChange) -> Option<Seq<char>> {
    match c.new_asset {
        Some(a) => Some(a.path@),
        None => match c.old_asset {
            Some(a) => Some(a.path@),
            None => None,
        },
    }
}

/// The paths of the changes that touch the set.
pub open spec fn touched_paths(cs: Seq<SnapshotAssetChange>, s: FieldSet) -> Set<Seq<char>>
    decreases cs.len(),
{
    if cs.len() == 0 {
        Set::empty()
    } else {
        let rest = touched_paths(cs.drop_last(), s);
        if touches(cs.last(), s) && side_path(cs.last()) is Some {
            rest.insert(side_path(cs.last())->0)
        } else {
            rest
        }
    }
}

/// The old paths of the removed assets.
pub open spec fn removed_paths(cs: Seq<SnapshotAssetChange>) -> Set<Seq<char>>
    decreases cs.len(),
{
    if cs.len() == 0 {
        Set::empty()
    } else {
        let rest = removed_paths(cs.drop_last());
        match cs.last().old_asset {
            Some(a) => rest.insert(a.path@),
            None => rest,
        }
    }
}

/// Both paths of each picked candidate.
pub open spec fn candidate_paths(cs: Seq<CandidateMappingChange>, p: CandidatePick) -> Set<Seq<char>>
    decreases cs.len(),
{
    if cs.len() == 0 {
        Set::empty()
    } else {
        let rest = candidate_paths(cs.drop_last(), p);
        if picks(cs.last(), p) {
            rest.insert(cs.last().old_asset.path@).insert(cs.last().new_asset.path@)
        } else {
            rest
        }
    }
}

fn add_touched_paths(all: &mut Vec<String>, cs: &Vec<SnapshotAssetChange>, s: FieldSet)
    ensures
        views(final(all)@).to_set() == views(old(all)@).to_set().union(touched_paths(cs@, s)),
{
    let ghost start = views(all@).to_set();
    let mut i: usize = 0;
    proof {
        assert(cs@.take(0) =~= Seq::<SnapshotAssetChange>::empty());
        assert(start.union(touched_paths(cs@.take(0), s)) =~= start);
    }
    while i < cs.len()
        invariant
            i <= cs@.len(),
            views(all@).to_set() == start.union(touched_paths(cs@.take(i as int), s)),
        decreases cs.len() - i,
    {
        proof {
            assert(cs@.take(i + 1).drop_last() =~= cs@.take(i as int));
            assert(cs@.take(i + 1).last() == cs@[i as int]);
        }
        let c = &cs[i];
        if change_touches(c, s) {
            let p: Option<&String> = match &c.new_asset {
                Some(a) => Some(&a.path),
                None => match &c.old_asset {
                    Some(a) => Some(&a.path),
                    None => None,
                },
            };
            match p {
                Some(path) => {
                    let ghost before = views(all@);
                    push_text(all, path.clone());
                    proof {
                        assert(views(all@).to_set() =~= before.to_set().insert(path@));
                        assert(start.union(touched_paths(cs@.take(i + 1), s)) =~= start.union(
                            touched_paths(cs@.take(i as int), s),
                        ).insert(path@));
                    }
                },
                None => {},
            }
        }
        i = i + 1;
    }
    proof {
        assert(cs@.take(cs@.len() as int) =~= cs@);
    }
}

fn add_removed_paths(all: &mut Vec<String>, cs: &Vec<SnapshotAssetChange>)
    ensures
        views(final(all)@).to_set() == views(old(all)@).to_set().union(removed_paths(cs@)),
{
    let ghost start = views(all@).to_set();
    let mut i: usize = 0;
    proof {
        assert(cs@.take(0) =~= Seq::<SnapshotAssetChange>::empty());
        assert(start.union(removed_paths(cs@.take(0))) =~= start);
    }
    while i < cs.len()
        invariant
            i <= cs@.len(),
            views(all@).to_set() == start.union(removed_paths(cs@.take(i as int))),
        decreases cs.len() - i,
    {
        proof {
            assert(cs@.take(i + 1).drop_last() =~= cs@.take(i as int));
            assert(cs@.take(i + 1).last() == cs@[i as int]);
        }
        match &cs[i].old_asset {
            Some(a) => {
                let ghost before = views(all@);
                push_text(all, a.path.clone());
                proof {
                    assert(views(all@).to_set() =~= before.to_set().insert(a.path@));
                    assert(start.union(removed_paths(cs@.take(i + 1))) =~= start.union(
                        removed_paths(cs@.take(i as int)),
                    ).insert(a.path@));
                }
            },
            None => {},
        }
        i = i + 1;
    }
    proof {
        assert(cs@.take(cs@.len() as int) =~= cs@);
    }
}

fn add_candidate_paths(all: &mut Vec<String>, cs: &Vec<CandidateMappingChange>, p: CandidatePick)
    ensures
        views(final(all)@).to_set() == views(old(all)@).to_set().union(candidate_paths(cs@, p)),
{
    let ghost start = views(all@).to_set();
    let mut i: usize = 0;
    proof {
        assert(cs@.take(0) =~= Seq::<CandidateMappingChange>::empty());
        assert(start.union(candidate_paths(cs@.take(0), p)) =~= start);
    }
    while i < cs.len()
        invariant
            i <= cs@.len(),
            views(all@).to_set() == start.union(candidate_paths(cs@.take(i as int), p)),
        decreases cs.len() - i,
    {
        proof {
            assert(cs@.take(i + 1).drop_last() =~= cs@.take(i as int));
            assert(cs@.take(i + 1).last() == cs@[i as int]);
        }
        let c = &cs[i];
        if candidate_picked(c, p) {
            let ghost before = views(all@);
            push_text(all, c.old_asset.path.clone());
            push_text(all, c.new_asset.path.clone());
            proof {
                assert(views(all@).to_set() =~= before.to_set().insert(c.old_asset.path@).insert(
                    c.new_asset.path@,
                ));
                assert(start.union(candidate_paths(cs@.take(i + 1), p)) =~= start.union(
                    candidate_paths(cs@.take(i as int), p),
                ).insert(c.old_asset.path@).insert(c.new_asset.path@));
            }
        }
        i = i + 1;
    }
    proof {
        assert(cs@.take(cs@.len() as int) =~= cs@);
    }
}

pub open spec fn spec_resource_skeleton_paths(report: SnapshotCompareReport) -> Set<Seq<char>> {
    touched_paths(report.changed_assets@, FieldSet::ResourceSkeleton).union(
        candidate_paths(report.candidate_mapping_changes@, CandidatePick::ResourceSkeleton),
    )
}

/// The assets, ascending, whose origin, bindings or skeleton changed, or that take part
/// in a candidate remap whose reasons speak of them.
pub fn resource_or_skeleton_affected_assets(compare_report: &SnapshotCompareReport) -> (r: Vec<String>)
    ensures
        sorted_strict(views(r@)),
        views(r@).to_set() == spec_resource_skeleton_paths(*compare_report),
{
    let mut all: Vec<String> = Vec::new();
    proof {
        assert(views(all@).to_set() =~= Set::<Seq<char>>::empty());
    }
    add_touched_paths(&mut all, &compare_report.changed_assets, FieldSet::ResourceSkeleton);
    add_candidate_paths(
        &mut all,
        &compare_report.candidate_mapping_changes,
        CandidatePick::ResourceSkeleton,
    );
    proof {
        assert(views(all@).to_set() =~= spec_resource_skeleton_paths(*compare_report));
    }
    sorted_set_of(all)
}

pub open spec fn spec_hook_review_surface(report: SnapshotCompareReport) -> bool {
    report.candidate_mapping_changes@.len() > 0 || report.removed_assets@.len() > 0 || any_touches(
        report.changed_assets@,
        FieldSet::HookReview,
    )
}

/// The compare shows remaps, removals or hash/origin drift that hook targeting may ride on.
pub fn has_hook_targeting_review_surface(compare_report: &SnapshotCompareReport) -> (r: bool)
    ensures
        r == spec_hook_review_surface(*compare_report),
{
    !compare_report.candidate_mapping_changes.is_empty() || !compare_report.removed_assets.is_empty()
        || any_change_touches(&compare_report.changed_assets, FieldSet::HookReview)
}

/// The assets a surface involves.
pub open spec fn spec_surface_paths(
    report: SnapshotCompareReport,
    class: WwmiModDependencySurfaceClass,
) -> Set<Seq<char>> {
    let cands = report.candidate_mapping_changes@;
    let changed = report.changed_assets@;
    match class {
        WwmiModDependencySurfaceClass::MappingHash => removed_paths(report.removed_assets@).union(
            candidate_paths(cands, CandidatePick::All),
        ).union(touched_paths(changed, FieldSet::IdentityDrift)),
        WwmiModDependencySurfaceClass::BufferLayout => touched_paths(changed, FieldSet::ShapeOrLayout).union(
            candidate_paths(cands, CandidatePick::StructurallyRisky),
        ),
        WwmiModDependencySurfaceClass::ResourceSkeleton => spec_resource_skeleton_paths(report),
        WwmiModDependencySurfaceClass::DrawCallFilterHook => if spec_hook_review_surface(report) {
            candidate_paths(cands, CandidatePick::All).union(
                touched_paths(changed, FieldSet::HookContext),
            )
        } else {
            Set::empty()
        },
    }
}

/// The assets, ascending, that a surface involves: for mapping/hash the removed
/// assets, every candidate remap and the hash-drifted changes; for buffer layout the
/// structurally changed assets and the structurally risky remaps; for
/// resource/skeleton the origin and binding drift; for draw-call/hook targeting,
/// when the compare calls for that review, every remap and the hook-context drift.
pub fn game_side_surface_affected_assets(
    compare_report: &SnapshotCompareReport,
    surface_class: &WwmiModDependencySurfaceClass,
) -> (r: Vec<String>)
    ensures
        sorted_strict(views(r@)),
        views(r@).to_set() == spec_surface_paths(*compare_report, *surface_class),
{
    let mut all: Vec<String> = Vec::new();
    proof {
        assert(views(all@).to_set() =~= Set::<Seq<char>>::empty());
    }
    match surface_class {
        WwmiModDependencySurfaceClass::MappingHash => {
            add_removed_paths(&mut all, &compare_report.removed_assets);
            add_candidate_paths(&mut all, &compare_report.candidate_mapping_changes, CandidatePick::All);
            add_touched_paths(&mut all, &compare_report.changed_assets, FieldSet::IdentityDrift);
        },
        WwmiModDependencySurfaceClass::BufferLayout => {
            add_touched_paths(&mut all, &compare_report.changed_assets, FieldSet::ShapeOrLayout);
            add_candidate_paths(
                &mut all,
                &compare_report.candidate_mapping_changes,
                CandidatePick::StructurallyRisky,
            );
        },
        WwmiModDependencySurfaceClass::ResourceSkeleton => {
            let v = resource_or_skeleton_affected_assets(compare_report);
            return v;
        },
        WwmiModDependencySurfaceClass::DrawCallFilterHook => {
            if has_hook_targeting_review_surface(compare_report) {
                add_candidate_paths(&mut all, &compare_report.candidate_mapping_changes, CandidatePick::All);
                add_touched_paths(&mut all, &compare_report.changed_assets, FieldSet::HookContext);
            }
        },
    }
    proof {
        assert(views(all@).to_set() =~= spec_surface_paths(*compare_report, *surface_class));
    }
    sorted_set_of(all)
}

// ---------------------------------------------------------------------------
// The compare signals of each surface
// ---------------------------------------------------------------------------

pub open spec fn push_if(s: Seq<Seq<char>>, c: bool, x: Seq<char>) -> Seq<Seq<char>> {
    if c {
        s.push(x)
    } else {
        s
    }
}

fn push_text_if(v: &mut Vec<String>, c: bool, x: &str)
    ensures
        views(final(v)@) == push_if(views(old(v)@), c, x@),
{
    if c {
        let ghost before = views(v@);
        push_text(v, new_string(x));
        proof {
            assert(views(v@) =~= before.push(x@));
        }
    }
}

pub open spec fn spec_mapping_hash_signals(report: SnapshotCompareReport) -> Seq<Seq<char>> {
    let s1 = push_if(
        Seq::empty(),
        !report.scope.scope_induced_removals_likely && report.removed_assets@.len() > 0,
        "removed_assets"@,
    );
    let s2 = push_if(s1, report.candidate_mapping_changes@.len() > 0, "candidate_mapping_changes"@);
    push_if(
        s2,
        any_touches(report.changed_assets@, FieldSet::IdentityDrift),
        "hash_or_identity_field_drift"@,
    )
}

pub fn mapping_hash_projection_signals(compare_report: &SnapshotCompareReport) -> (r: Vec<String>)
    ensures
        views(r@) == spec_mapping_hash_signals(*compare_report),
{
    let mut signals: Vec<String> = Vec::new();
    proof {
        assert(views(signals@) =~= Seq::<Seq<char>>::empty());
    }
    push_text_if(
        &mut signals,
        !compare_report.scope.scope_induced_removals_likely && !compare_report.removed_assets.is_empty(),
        "removed_assets",
    );
    push_text_if(
        &mut signals,
        !compare_report.candidate_mapping_changes.is_empty(),
        "candidate_mapping_changes",
    );
    push_text_if(
        &mut signals,
        any_change_touches(&compare_report.changed_assets, FieldSet::IdentityDrift),
        "hash_or_identity_field_drift",
    );
    signals
}

pub open spec fn spec_buffer_layout_signals(report: SnapshotCompareReport) -> Seq<Seq<char>> {
    let s1 = push_if(
        Seq::empty(),
        any_touches(report.changed_assets@, FieldSet::ShapeOrLayout),
        "structural_changed_assets"@,
    );
    let s2 = push_if(
        s1,
        any_picked(report.candidate_mapping_changes@, CandidatePick::StructurallyRisky),
        "structurally_risky_candidate_remaps"@,
    );
    push_if(s2, report.summary.lineage_layout_drift_assets > 0, "lineage_layout_drift"@)
}

pub fn buffer_layout_projection_signals(compare_report: &SnapshotCompareReport) -> (r: Vec<String>)
    ensures
        views(r@) == spec_buffer_layout_signals(*compare_report),
{
    let mut signals: Vec<String> = Vec::new();
    proof {
        assert(views(signals@) =~= Seq::<Seq<char>>::empty());
    }
    push_text_if(
        &mut signals,
        any_change_touches(&compare_report.changed_assets, FieldSet::ShapeOrLayout),
        "structural_changed_assets",
    );
    push_text_if(
        &mut signals,
        any_candidate_picked(
            &compare_report.candidate_mapping_changes,
            CandidatePick::StructurallyRisky,
        ),
        "structurally_risky_candidate_remaps",
    );
    push_text_if(
        &mut signals,
        compare_report.summary.lineage_layout_drift_assets > 0,
        "lineage_layout_drift",
    );
    signals
}

pub open spec fn spec_resource_skeleton_signals(report: SnapshotCompareReport) -> Seq<Seq<char>> {
    let s1 = push_if(
        Seq::empty(),
        report.summary.container_moved_assets > 0,
        "container_moved_assets"@,
    );
    push_if(
        s1,
        !spec_resource_skeleton_paths(report).is_empty(),
        "resource_or_skeleton_field_drift"@,
    )
}

pub fn resource_skeleton_projection_signals(compare_report: &SnapshotCompareReport) -> (r: Vec<
    String,
>)
    ensures
        views(r@) == spec_resource_skeleton_signals(*compare_report),
{
    let mut signals: Vec<String> = Vec::new();
    proof {
        assert(views(signals@) =~= Seq::<Seq<char>>::empty());
    }
    push_text_if(
        &mut signals,
        compare_report.summary.container_moved_assets > 0,
        "container_moved_assets",
    );
    let assets = resource_or_skeleton_affected_assets(compare_report);
    proof {
        let s = spec_resource_skeleton_paths(*compare_report);
        if assets@.len() > 0 {
            assert(views(assets@).to_set().contains(views(assets@)[0]));
        } else {
            assert(views(assets@) =~= Seq::<Seq<char>>::empty());
            assert(s =~= Set::<Seq<char>>::empty());
        }
    }
    push_text_if(&mut signals, !assets.is_empty(), "resource_or_skeleton_field_drift");
    signals
}

pub open spec fn spec_hook_signals(report: SnapshotCompareReport) -> Seq<Seq<char>> {
    let mapping_shift = report.candidate_mapping_changes@.len() > 0 && report.removed_assets@.len()
        > 0;
    let drift = any_touches(report.changed_assets@, FieldSet::HookContext)
        || report.summary.container_moved_assets > 0;
    if !drift {
        Seq::empty()
    } else if mapping_shift {
        seq!["candidate_mapping_changes"@, "removed_assets"@, "hook_targeting_context_drift"@]
    } else {
        seq!["hook_targeting_context_drift"@]
    }
}

pub fn draw_call_filter_hook_projection_signals(compare_report: &SnapshotCompareReport) -> (r: Vec<
    String,
>)
    ensures
        views(r@) == spec_hook_signals(*compare_report),
{
    let mut signals: Vec<String> = Vec::new();
    let has_mapping_shift = !compare_report.candidate_mapping_changes.is_empty()
        && !compare_report.removed_assets.is_empty();
    let has_hook_context_drift = any_change_touches(
        &compare_report.changed_assets,
        FieldSet::HookContext,
    ) || compare_report.summary.container_moved_assets > 0;
    if !has_hook_context_drift {
        proof {
            assert(views(signals@) =~= Seq::<Seq<char>>::empty());
        }
        return signals;
    }
    if has_mapping_shift {
        push_text(&mut signals, new_string("candidate_mapping_changes"));
        push_text(&mut signals, new_string("removed_assets"));
    }
    push_text(&mut signals, new_string("hook_targeting_context_drift"));
    proof {
        if has_mapping_shift {
            assert(views(signals@) =~= seq![
                "candidate_mapping_changes"@,
                "removed_assets"@,
                "hook_targeting_context_drift"@,
            ]);
        } else {
            assert(views(signals@) =~= seq!["hook_targeting_context_drift"@]);
        }
    }
    signals
}

pub open spec fn spec_surface_signals(
    report: SnapshotCompareReport,
    class: WwmiModDependencySurfaceClass,
) -> Seq<Seq<char>> {
    match class {
        WwmiModDependencySurfaceClass::MappingHash => spec_mapping_hash_signals(report),
        WwmiModDependencySurfaceClass::BufferLayout => spec_buffer_layout_signals(report),
        WwmiModDependencySurfaceClass::ResourceSkeleton => spec_resource_skeleton_signals(report),
        WwmiModDependencySurfaceClass::DrawCallFilterHook => spec_hook_signals(report),
    }
}

pub open spec fn all_surface_classes() -> Seq<WwmiModDependencySurfaceClass> {
    seq![
        WwmiModDependencySurfaceClass::MappingHash,
        WwmiModDependencySurfaceClass::BufferLayout,
        WwmiModDependencySurfaceClass::ResourceSkeleton,
        WwmiModDependencySurfaceClass::DrawCallFilterHook,
    ]
}

/// The surfaces, in report order, that have at least one compare signal.
pub open spec fn signalled_classes(
    report: SnapshotCompareReport,
    classes: Seq<WwmiModDependencySurfaceClass>,
) -> Seq<WwmiModDependencySurfaceClass> {
    classes.filter(|c: WwmiModDependencySurfaceClass| spec_surface_signals(report, c).len() > 0)
}

/// `s` is the game-side surface of `class`: its signals and its assets, ascending.
pub open spec fn surface_is(
    s: InferenceGameSideSurface,
    report: SnapshotCompareReport,
    class: WwmiModDependencySurfaceClass,
) -> bool {
    &&& s.surface_class == class
    &&& views(s.compare_signals@) == spec_surface_signals(report, class)
    &&& sorted_strict(views(s.affected_assets@))
    &&& views(s.affected_assets@).to_set() == spec_surface_paths(report, class)
}

fn surface_signals(
    compare_report: &SnapshotCompareReport,
    surface_class: WwmiModDependencySurfaceClass,
) -> (r: Vec<String>)
    ensures
        views(r@) == spec_surface_signals(*compare_report, surface_class),
{
    match surface_class {
        WwmiModDependencySurfaceClass::MappingHash => mapping_hash_projection_signals(compare_report),
        WwmiModDependencySurfaceClass::BufferLayout => buffer_layout_projection_signals(compare_report),
        WwmiModDependencySurfaceClass::ResourceSkeleton => resource_skeleton_projection_signals(
            compare_report,
        ),
        WwmiModDependencySurfaceClass::DrawCallFilterHook => draw_call_filter_hook_projection_signals(
            compare_report,
        ),
    }
}

/// The game-side surfaces of a compare, in report order, each with its compare
/// signals and affected assets; a surface with no signal is left out.
pub fn collect_game_side_surfaces(compare_report: &SnapshotCompareReport) -> (r: Vec<
    InferenceGameSideSurface,
>)
    ensures
        r@.len() == signalled_classes(*compare_report, all_surface_classes()).len(),
        forall|i: int|
            0 <= i < r@.len() ==> surface_is(
                #[trigger] r@[i],
                *compare_report,
                signalled_classes(*compare_report, all_surface_classes())[i],
            ),
{
    let classes = crate::inference::ordered_surface_classes();
    let ghost all = all_surface_classes();
    let ghost pick = |c: WwmiModDependencySurfaceClass|
        spec_surface_signals(*compare_report, c).len() > 0;
    let mut surfaces: Vec<InferenceGameSideSurface> = Vec::new();
    let mut i: usize = 0;
    proof {
        assert(classes@ =~= all);
        assert(all.take(0) =~= Seq::<WwmiModDependencySurfaceClass>::empty());
        assert(all.take(0).filter(pick) =~= Seq::<WwmiModDependencySurfaceClass>::empty());
    }
    while i < classes.len()
        invariant
            i <= classes@.len(),
            classes@ == all,
            pick == (|c: WwmiModDependencySurfaceClass|
                spec_surface_signals(*compare_report, c).len() > 0),
            surfaces@.len() == all.take(i as int).filter(pick).len(),
            forall|k: int|
                0 <= k < surfaces@.len() ==> surface_is(
                    #[trigger] surfaces@[k],
                    *compare_report,
                    all.take(i as int).filter(pick)[k],
                ),
        decreases classes.len() - i,
    {
        let class = classes[i];
        let signals = surface_signals(compare_report, class);
        proof {
            assert(all.take(i + 1) =~= all.take(i as int).push(all[i as int]));
            all.take(i as int).lemma_filter_push(all[i as int], pick);
        }
        if !signals.is_empty() {
            let assets = game_side_surface_affected_assets(compare_report, &class);
            proof {
                assert(views(signals@).len() > 0);
            }
            surfaces.push(
                InferenceGameSideSurface {
                    surface_class: class,
                    compare_signals: signals,
                    affected_assets: assets,
                },
            );
        } else {
            proof {
                assert(views(signals@).len() == 0);
            }
        }
        i = i + 1;
    }
    proof {
        assert(all.take(classes@.len() as int) =~= all);
    }
    surfaces
}

// ---------------------------------------------------------------------------
// Scope notes
// ---------------------------------------------------------------------------

pub open spec fn spec_quality_guardrail(scope: SnapshotCompareScopeInfo) -> bool {
    (scope.manifest_resource_count > 0 || scope.assets_with_asset_hash > 0
        || scope.assets_with_any_hash > 0 || scope.assets_with_signature > 0)
        && !scope.meaningful_asset_record_enrichment
}

/// Adds the caution that manifest or hash coverage alone is shallow evidence.
pub fn append_scope_capture_quality_guardrail(notes: &mut Vec<String>, scope: &SnapshotCompareScopeInfo)
    ensures
        views(final(notes)@) == push_if(
            views(old(notes)@),
            spec_quality_guardrail(*scope),
            "manifest/hash coverage is present, but that remains shallow evidence and should not be treated as rich asset-level enrichment"@,
        ),
{
    let has_hash_or_manifest_coverage = scope.manifest_resource_count > 0
        || scope.assets_with_asset_hash > 0 || scope.assets_with_any_hash > 0
        || scope.assets_with_signature > 0;
    push_text_if(
        notes,
        has_hash_or_manifest_coverage && !scope.meaningful_asset_record_enrichment,
        "manifest/hash coverage is present, but that remains shallow evidence and should not be treated as rich asset-level enrichment",
    );
}

} // verus!
