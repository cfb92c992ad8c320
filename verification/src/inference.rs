//! Inputs and structured context of fix inference: what a compare, the mod-side
//! dependency scan and the continuity history hand to the inference step.
use vstd::prelude::*;
use crate::compare::change::SnapshotAssetChange;
use crate::compare::{RemapCompatibility, SnapshotCompareReason};
use crate::report::VersionContinuityRelation;
use crate::text::{
    chars_of, contains_text, decimal, decimal_string, is_prefix, join, join_seq, new_string,
    opt_view, push_str, push_text, starts_with, str_eq, string_of, trim, trim_bounds, trim_seq,
    trim_start_seq, vec_subrange, views,
};

verus! {

#[derive(Debug, Clone, PartialEq, Eq)]
pub struct InferenceScopeContext {
    pub low_signal_compare: bool,
    pub old_snapshot_low_signal: bool,
    pub new_snapshot_low_signal: bool,
    pub notes: Vec<String>,
}

#[derive(Debug, Clone, PartialEq, Eq)]
pub struct InferenceCompareInput {
    pub old_version_id: String,
    pub new_version_id: String,
    pub changed_assets: usize,
    pub added_assets: usize,
    pub removed_assets: usize,
    pub candidate_mapping_changes: usize,
}

#[derive(Debug, Clone, PartialEq, Eq)]
pub struct InferenceKnowledgeInput {
    pub repo: String,
    pub analyzed_commits: usize,
    pub fix_like_commits: usize,
    pub discovered_patterns: usize,
}

/// What a mod's ini files depend on in the game's assets.
#[derive(Debug, Clone, Copy, PartialEq, Eq)]
pub enum WwmiModDependencyKind {
    ObjectGuid,
    DrawCallTarget,
    TextureOverrideHash,
    ResourceFileReference,
    MeshVertexCount,
    ShapeKeyVertexCount,
    BufferLayoutHint,
    SkeletonMergeDependency,
    FilterIndex,
}

pub open spec fn spec_dependency_kind_label(kind: WwmiModDependencyKind) -> Seq<char> {
    match kind {
        WwmiModDependencyKind::ObjectGuid => "object_guid"@,
        WwmiModDependencyKind::DrawCallTarget => "draw_call_target"@,
        WwmiModDependencyKind::TextureOverrideHash => "texture_override_hash"@,
        WwmiModDependencyKind::ResourceFileReference => "resource_file_reference"@,
        WwmiModDependencyKind::MeshVertexCount => "mesh_vertex_count"@,
        WwmiModDependencyKind::ShapeKeyVertexCount => "shapekey_vertex_count"@,
        WwmiModDependencyKind::BufferLayoutHint => "buffer_layout_hint"@,
        WwmiModDependencyKind::SkeletonMergeDependency => "skeleton_merge_dependency"@,
        WwmiModDependencyKind::FilterIndex => "filter_index"@,
    }
}

/// The machine label of a dependency kind.
pub fn mod_dependency_kind_label(kind: &WwmiModDependencyKind) -> (r: &'static str)
    ensures
        r@ == spec_dependency_kind_label(*kind),
{
    match kind {
        WwmiModDependencyKind::ObjectGuid => "object_guid",
        WwmiModDependencyKind::DrawCallTarget => "draw_call_target",
        WwmiModDependencyKind::TextureOverrideHash => "texture_override_hash",
        WwmiModDependencyKind::ResourceFileReference => "resource_file_reference",
        WwmiModDependencyKind::MeshVertexCount => "mesh_vertex_count",
        WwmiModDependencyKind::ShapeKeyVertexCount => "shapekey_vertex_count",
        WwmiModDependencyKind::BufferLayoutHint => "buffer_layout_hint",
        WwmiModDependencyKind::SkeletonMergeDependency => "skeleton_merge_dependency",
        WwmiModDependencyKind::FilterIndex => "filter_index",
    }
}

/// The part of the game a mod dependency touches.
#[derive(Debug, Clone, Copy, PartialEq, Eq)]
pub enum WwmiModDependencySurfaceClass {
    MappingHash,
    BufferLayout,
    ResourceSkeleton,
    DrawCallFilterHook,
}

#[derive(Debug, Clone, PartialEq, Eq)]
pub struct InferenceModDependencyInput {
    pub mod_name: Option<String>,
    pub mod_root: String,
    pub ini_file_count: usize,
    pub signal_count: usize,
    pub dependency_kinds: Vec<WwmiModDependencyKind>,
}

/// How sensitive a representative mod is to a class of game-side change.
#[derive(Debug, Clone, Copy, PartialEq, Eq)]
pub enum RepresentativeModRiskClass {
    MappingHashSensitive,
    BufferLayoutSensitive,
    ResourceSkeletonSensitive,
    DrawCallFilterHookSensitive,
}

impl Default for RepresentativeModRiskClass {
    fn default() -> (r: Self)
        ensures
            r == RepresentativeModRiskClass::MappingHashSensitive,
    {
        RepresentativeModRiskClass::MappingHashSensitive
    }
}

#[derive(Debug, Clone, Copy, PartialEq, Eq)]
pub struct InferenceRepresentativeRiskClassCount {
    pub risk_class: RepresentativeModRiskClass,
    pub profile_count: usize,
}

#[derive(Debug, Clone, PartialEq, Eq)]
pub struct InferenceModSideSurface {
    pub surface_class: WwmiModDependencySurfaceClass,
    pub sources: Vec<String>,
    pub dependency_kinds: Vec<WwmiModDependencyKind>,
    pub signal_count: usize,
    pub representative_profile_count: usize,
}

#[derive(Debug, Clone, PartialEq, Eq)]
pub struct InferenceGameSideSurface {
    pub surface_class: WwmiModDependencySurfaceClass,
    pub compare_signals: Vec<String>,
    pub affected_assets: Vec<String>,
}

/// How much the mod-side and game-side surfaces overlap.
#[derive(Debug, Clone, Copy, PartialEq, Eq)]
pub enum InferenceSurfaceOverlapPosture {
    Absent,
    Partial,
    Strong,
}

impl Default for InferenceSurfaceOverlapPosture {
    fn default() -> (r: Self)
        ensures
            r == InferenceSurfaceOverlapPosture::Absent,
    {
        InferenceSurfaceOverlapPosture::Absent
    }
}

pub open spec fn spec_overlap_label(p: InferenceSurfaceOverlapPosture) -> Seq<char> {
    match p {
        InferenceSurfaceOverlapPosture::Absent => "none"@,
        InferenceSurfaceOverlapPosture::Partial => "partial"@,
        InferenceSurfaceOverlapPosture::Strong => "strong"@,
    }
}

impl InferenceSurfaceOverlapPosture {
    pub fn label(&self) -> (r: &'static str)
        ensures
            r@ == spec_overlap_label(*self),
    {
        match self {
            InferenceSurfaceOverlapPosture::Absent => "none",
            InferenceSurfaceOverlapPosture::Partial => "partial",
            InferenceSurfaceOverlapPosture::Strong => "strong",
        }
    }
}

#[derive(Debug, Clone, PartialEq, Eq)]
pub struct InferenceSurfaceIntersection {
    pub mod_side_surfaces: Vec<InferenceModSideSurface>,
    pub game_side_surfaces: Vec<InferenceGameSideSurface>,
    pub overlapping_surface_classes: Vec<WwmiModDependencySurfaceClass>,
    pub overlap_posture: InferenceSurfaceOverlapPosture,
    pub weak_or_absent_overlap: bool,
    pub notes: Vec<String>,
}

/// What the broader continuity history says about the thread a mapping belongs to.
#[derive(Debug, Clone, PartialEq, Eq)]
pub struct InferredMappingContinuityContext {
    pub thread_id: Option<String>,
    pub first_seen_version: Option<String>,
    pub latest_observed_version: Option<String>,
    pub latest_live_version: Option<String>,
    pub stable_before_current_change: bool,
    pub total_rename_steps: usize,
    pub total_container_movement_steps: usize,
    pub total_layout_drift_steps: usize,
    pub review_required_history: bool,
    pub terminal_relation: Option<VersionContinuityRelation>,
    pub terminal_version: Option<String>,
    pub terminal_after_current: bool,
    pub instability_detected: bool,
}

impl InferredMappingContinuityContext {
    pub open spec fn spec_has_review_caution(&self) -> bool {
        self.instability_detected || self.total_layout_drift_steps >= 2
            || self.review_required_history || self.terminal_relation is Some
    }

    /// The history calls for review: instability, repeated layout drift, a
    /// review-required mark or a terminal state.
    pub fn has_review_caution(&self) -> (r: bool)
        ensures
            r == self.spec_has_review_caution(),
    {
        self.instability_detected || self.total_layout_drift_steps >= 2
            || self.review_required_history || self.terminal_relation.is_some()
    }
}

/// The fix-inference step.
#[derive(Debug, Clone, Copy, PartialEq, Eq)]
pub struct FixInferenceEngine {}

// ---------------------------------------------------------------------------
// Inference helpers
// ---------------------------------------------------------------------------

pub open spec fn is_structural_field_label(f: Seq<char>) -> bool {
    ||| f == "vertex_count"@
    ||| f == "index_count"@
    ||| f == "material_slots"@
    ||| f == "section_count"@
    ||| f == "internal_structure.section_labels"@
    ||| f == "internal_structure.buffer_roles"@
    ||| f == "internal_structure.binding_targets"@
    ||| f == "internal_structure.subresource_roles"@
    ||| f == "internal_structure.has_skeleton"@
    ||| f == "internal_structure.has_shapekey_data"@
    ||| f == "vertex_stride"@
    ||| f == "vertex_buffer_count"@
    ||| f == "index_format"@
    ||| f == "primitive_topology"@
    ||| f == "layout_markers"@
    ||| f == "asset_hash"@
    ||| f == "shader_hash"@
    ||| f == "signature"@
}

pub(crate) fn is_structural_field_text(f: &str) -> (r: bool)
    ensures
        r == is_structural_field_label(f@),
{
    str_eq(f, "vertex_count") || str_eq(f, "index_count") || str_eq(f, "material_slots") || str_eq(
        f,
        "section_count",
    ) || str_eq(f, "internal_structure.section_labels") || str_eq(
        f,
        "internal_structure.buffer_roles",
    ) || str_eq(f, "internal_structure.binding_targets") || str_eq(
        f,
        "internal_structure.subresource_roles",
    ) || str_eq(f, "internal_structure.has_skeleton") || str_eq(
        f,
        "internal_structure.has_shapekey_data",
    ) || str_eq(f, "vertex_stride") || str_eq(f, "vertex_buffer_count") || str_eq(
        f,
        "index_format",
    ) || str_eq(f, "primitive_topology") || str_eq(f, "layout_markers") || str_eq(f, "asset_hash")
        || str_eq(f, "shader_hash") || str_eq(f, "signature")
}

/// Some changed field of the change is a structural, layout or hash-like one.
pub fn is_structural_change(change: &SnapshotAssetChange) -> (r: bool)
    ensures
        r == exists|i: int|
            0 <= i < change.changed_fields@.len() && is_structural_field_label(
                #[trigger] change.changed_fields@[i]@,
            ),
{
    let fields = &change.changed_fields;
    let mut i: usize = 0;
    while i < fields.len()
        invariant
            i <= fields@.len(),
            fields@ == change.changed_fields@,
            forall|j: int| 0 <= j < i ==> !is_structural_field_label(#[trigger] fields@[j]@),
        decreases fields.len() - i,
    {
        if is_structural_field_text(fields[i].as_str()) {
            proof {
                assert(is_structural_field_label(change.changed_fields@[i as int]@));
            }
            return true;
        }
        i = i + 1;
    }
    false
}

pub open spec fn spec_risk_class_label(c: RepresentativeModRiskClass) -> Seq<char> {
    match c {
        RepresentativeModRiskClass::MappingHashSensitive => "mapping/hash-sensitive"@,
        RepresentativeModRiskClass::BufferLayoutSensitive => "buffer/layout-sensitive"@,
        RepresentativeModRiskClass::ResourceSkeletonSensitive => "resource/skeleton-sensitive"@,
        RepresentativeModRiskClass::DrawCallFilterHookSensitive => "draw-call/filter/hook-sensitive"@,
    }
}

pub fn representative_risk_class_label(risk_class: &RepresentativeModRiskClass) -> (r: &'static str)
    ensures
        r@ == spec_risk_class_label(*risk_class),
{
    match risk_class {
        RepresentativeModRiskClass::MappingHashSensitive => "mapping/hash-sensitive",
        RepresentativeModRiskClass::BufferLayoutSensitive => "buffer/layout-sensitive",
        RepresentativeModRiskClass::ResourceSkeletonSensitive => "resource/skeleton-sensitive",
        RepresentativeModRiskClass::DrawCallFilterHookSensitive => "draw-call/filter/hook-sensitive",
    }
}

/// The dependency kinds' labels joined by `, `.
pub fn join_dependency_kind_labels(kinds: &Vec<WwmiModDependencyKind>) -> (r: String)
    ensures
        r@ == join_seq(
            kinds@.map_values(|k: WwmiModDependencyKind| spec_dependency_kind_label(k)),
            ", "@,
        ),
{
    let mut labels: Vec<String> = Vec::new();
    let mut i: usize = 0;
    while i < kinds.len()
        invariant
            i <= kinds@.len(),
            views(labels@) == kinds@.take(i as int).map_values(
                |k: WwmiModDependencyKind| spec_dependency_kind_label(k),
            ),
        decreases kinds.len() - i,
    {
        push_text(&mut labels, new_string(mod_dependency_kind_label(&kinds[i])));
        proof {
            assert(kinds@.take(i + 1).map_values(|k: WwmiModDependencyKind| spec_dependency_kind_label(k))
                =~= kinds@.take(i as int).map_values(
                |k: WwmiModDependencyKind| spec_dependency_kind_label(k),
            ).push(spec_dependency_kind_label(kinds@[i as int])));
        }
        i = i + 1;
    }
    proof {
        assert(kinds@.take(kinds@.len() as int) =~= kinds@);
    }
    join(&labels, ", ")
}

/// `s` with `x` appended unless it has it.
pub open spec fn push_unique_seq(s: Seq<Seq<char>>, x: Seq<char>) -> Seq<Seq<char>> {
    if s.contains(x) {
        s
    } else {
        s.push(x)
    }
}

/// `s` with each of `items` appended in turn unless already there.
pub open spec fn append_unique(s: Seq<Seq<char>>, items: Seq<Seq<char>>) -> Seq<Seq<char>>
    decreases items.len(),
{
    if items.len() == 0 {
        s
    } else {
        push_unique_seq(append_unique(s, items.drop_last()), items.last())
    }
}

/// Appends `value` unless the list has it.
pub fn push_unique(target: &mut Vec<String>, value: String)
    ensures
        views(old(target)@).contains(value@) ==> views(final(target)@) == views(old(target)@),
        !views(old(target)@).contains(value@) ==> views(final(target)@) == views(old(target)@).push(
            value@,
        ),
{
    if !contains_text(target, value.as_str()) {
        push_text(target, value);
    }
}

/// The old and new path of a change, when it has an old side.
pub fn asset_change_transition_key(change: &SnapshotAssetChange) -> (r: Option<(String, Option<String>)>)
    ensures
        match r {
            Some((o, n)) => change.old_asset is Some && o@ == change.old_asset->0.path@
                && opt_view(n) == match change.new_asset {
                Some(a) => Some(a.path@),
                None => None,
            },
            None => change.old_asset is None,
        },
{
    let old_path = match &change.old_asset {
        Some(a) => a.path.clone(),
        None => return None,
    };
    let new_path = match &change.new_asset {
        Some(a) => Some(a.path.clone()),
        None => None,
    };
    Some((old_path, new_path))
}

/// A reason as `code: message`.
pub fn reason_to_string(reason: &SnapshotCompareReason) -> (r: String)
    ensures
        r@ == reason.code@ + ": "@ + reason.message@,
{
    let mut s = reason.code.clone();
    push_str(&mut s, ": ");
    push_str(&mut s, reason.message.as_str());
    s
}

/// A reason line names `code`: it is `code` once trimmed, or starts with `code:` after
/// leading whitespace.
pub open spec fn names_code(reason: Seq<char>, code: Seq<char>) -> bool {
    trim_seq(reason) == code || is_prefix(code + ":"@, trim_start_seq(reason))
}

pub fn has_reason_code_text(reasons: &Vec<String>, code: &str) -> (r: bool)
    ensures
        r == exists|i: int| 0 <= i < reasons@.len() && names_code(#[trigger] reasons@[i]@, code@),
{
    let mut prefix = new_string(code);
    push_str(&mut prefix, ":");
    let mut i: usize = 0;
    while i < reasons.len()
        invariant
            i <= reasons@.len(),
            prefix@ == code@ + ":"@,
            forall|j: int| 0 <= j < i ==> !names_code(#[trigger] reasons@[j]@, code@),
        decreases reasons.len() - i,
    {
        let t = trim(reasons[i].as_str());
        let v = chars_of(reasons[i].as_str());
        let (a, _b) = trim_bounds(&v, true, false);
        let start = string_of(&vec_subrange(&v, a, v.len()));
        if str_eq(t.as_str(), code) || starts_with(start.as_str(), prefix.as_str()) {
            return true;
        }
        i = i + 1;
    }
    false
}

pub open spec fn spec_compatibility_phrase(c: RemapCompatibility) -> Seq<char> {
    match c {
        RemapCompatibility::LikelyCompatible => "likely compatible"@,
        RemapCompatibility::CompatibleWithCaution => "compatible with caution"@,
        RemapCompatibility::StructurallyRisky => "structurally risky"@,
        RemapCompatibility::IncompatibleBlocked => "incompatible/blocked"@,
        RemapCompatibility::InsufficientEvidence => "insufficient evidence"@,
    }
}

/// The compatibility in words, as inference evidence writes it.
pub fn compatibility_phrase(compatibility: &RemapCompatibility) -> (r: &'static str)
    ensures
        r@ == spec_compatibility_phrase(*compatibility),
{
    match compatibility {
        RemapCompatibility::LikelyCompatible => "likely compatible",
        RemapCompatibility::CompatibleWithCaution => "compatible with caution",
        RemapCompatibility::StructurallyRisky => "structurally risky",
        RemapCompatibility::IncompatibleBlocked => "incompatible/blocked",
        RemapCompatibility::InsufficientEvidence => "insufficient evidence",
    }
}

/// The surface classes in their report order.
pub fn ordered_surface_classes() -> (r: Vec<WwmiModDependencySurfaceClass>)
    ensures
        r@ == seq![
            WwmiModDependencySurfaceClass::MappingHash,
            WwmiModDependencySurfaceClass::BufferLayout,
            WwmiModDependencySurfaceClass::ResourceSkeleton,
            WwmiModDependencySurfaceClass::DrawCallFilterHook,
        ],
{
    let mut v: Vec<WwmiModDependencySurfaceClass> = Vec::new();
    v.push(WwmiModDependencySurfaceClass::MappingHash);
    v.push(WwmiModDependencySurfaceClass::BufferLayout);
    v.push(WwmiModDependencySurfaceClass::ResourceSkeleton);
    v.push(WwmiModDependencySurfaceClass::DrawCallFilterHook);
    proof {
        assert(v@ =~= seq![
            WwmiModDependencySurfaceClass::MappingHash,
            WwmiModDependencySurfaceClass::BufferLayout,
            WwmiModDependencySurfaceClass::ResourceSkeleton,
            WwmiModDependencySurfaceClass::DrawCallFilterHook,
        ]);
    }
    v
}

fn same_surface(a: &WwmiModDependencySurfaceClass, b: &WwmiModDependencySurfaceClass) -> (r: bool)
    ensures
        r == (*a == *b),
{
    match (a, b) {
        (WwmiModDependencySurfaceClass::MappingHash, WwmiModDependencySurfaceClass::MappingHash) => true,
        (WwmiModDependencySurfaceClass::BufferLayout, WwmiModDependencySurfaceClass::BufferLayout) => true,
        (
            WwmiModDependencySurfaceClass::ResourceSkeleton,
            WwmiModDependencySurfaceClass::ResourceSkeleton,
        ) => true,
        (
            WwmiModDependencySurfaceClass::DrawCallFilterHook,
            WwmiModDependencySurfaceClass::DrawCallFilterHook,
        ) => true,
        _ => false,
    }
}

/// The intersection lists the surface class among the overlapping ones.
pub fn surface_intersection_has_overlap(
    surface_intersection: &InferenceSurfaceIntersection,
    surface_class: WwmiModDependencySurfaceClass,
) -> (r: bool)
    ensures
        r == surface_intersection.overlapping_surface_classes@.contains(surface_class),
{
    let v = &surface_intersection.overlapping_surface_classes;
    let mut i: usize = 0;
    while i < v.len()
        invariant
            i <= v@.len(),
            v@ == surface_intersection.overlapping_surface_classes@,
            forall|j: int| 0 <= j < i ==> v@[j] != surface_class,
        decreases v.len() - i,
    {
        if same_surface(&v[i], &surface_class) {
            proof {
                assert(v@[i as int] == surface_class);
            }
            return true;
        }
        i = i + 1;
    }
    false
}

/// What a mod's dependency scan found on one game surface.
#[derive(Debug, Clone, PartialEq, Eq)]
pub struct ModDependencySurfaceSummary {
    pub dependency_kinds: Vec<WwmiModDependencyKind>,
    pub signal_count: usize,
    pub source_files: Vec<String>,
    pub sections: Vec<String>,
    pub label: String,
}

/// The evidence lines of a mod surface: the matched kinds, then up to three files and
/// three sections.
pub open spec fn spec_surface_evidence(s: ModDependencySurfaceSummary, detail: Seq<char>) -> Seq<Seq<char>> {
    let files = views(s.source_files@);
    let sections = views(s.sections@);
    let e1 = seq![
        detail + "; matched dependency kinds="@ + join_seq(
            s.dependency_kinds@.map_values(|k: WwmiModDependencyKind| spec_dependency_kind_label(k)),
            ", "@,
        ) + " across "@ + decimal(s.signal_count as nat) + " signal(s)"@,
    ];
    let e2 = if files.len() > 0 {
        e1.push("mod dependency files: "@ + join_seq(files.take(first_three(files.len())), ", "@))
    } else {
        e1
    };
    if sections.len() > 0 {
        e2.push(
            "mod dependency sections: "@ + join_seq(sections.take(first_three(sections.len())), ", "@),
        )
    } else {
        e2
    }
}

pub open spec fn first_three(len: nat) -> int {
    if len < 3 {
        len as int
    } else {
        3
    }
}

fn first_strings(v: &Vec<String>, n: usize) -> (r: Vec<String>)
    requires
        n <= v@.len(),
    ensures
        views(r@) == views(v@).take(n as int),
{
    let mut out: Vec<String> = Vec::new();
    let mut i: usize = 0;
    while i < n
        invariant
            i <= n <= v@.len(),
            views(out@) == views(v@).take(i as int),
        decreases n - i,
    {
        push_text(&mut out, v[i].clone());
        proof {
            assert(views(v@).take(i + 1) =~= views(v@).take(i as int).push(v@[i as int]@));
        }
        i = i + 1;
    }
    out
}

pub fn surface_evidence(surface: &ModDependencySurfaceSummary, detail: &str) -> (r: Vec<String>)
    ensures
        views(r@) == spec_surface_evidence(*surface, detail@),
{
    let mut first = new_string(detail);
    push_str(&mut first, "; matched dependency kinds=");
    let kinds = join_dependency_kind_labels(&surface.dependency_kinds);
    push_str(&mut first, kinds.as_str());
    push_str(&mut first, " across ");
    let n = decimal_string(surface.signal_count);
    push_str(&mut first, n.as_str());
    push_str(&mut first, " signal(s)");
    let mut evidence: Vec<String> = Vec::new();
    push_text(&mut evidence, first);
    proof {
        assert(views(evidence@) =~= seq![first@]);
    }
    if surface.source_files.len() > 0 {
        let k = if surface.source_files.len() < 3 {
            surface.source_files.len()
        } else {
            3
        };
        let files = first_strings(&surface.source_files, k);
        let mut line = new_string("mod dependency files: ");
        let joined = join(&files, ", ");
        push_str(&mut line, joined.as_str());
        push_text(&mut evidence, line);
    }
    if surface.sections.len() > 0 {
        let k = if surface.sections.len() < 3 {
            surface.sections.len()
        } else {
            3
        };
        let sections = first_strings(&surface.sections, k);
        let mut line = new_string("mod dependency sections: ");
        let joined = join(&sections, ", ");
        push_str(&mut line, joined.as_str());
        push_text(&mut evidence, line);
    }
    evidence
}

/// Adds the evidence lines of a mod surface that are not there yet.
pub fn append_surface_evidence(
    evidence: &mut Vec<String>,
    surface: &ModDependencySurfaceSummary,
    detail: &str,
)
    ensures
        forall|i: int| 0 <= i < views(old(evidence)@).len() ==> views(final(evidence)@)[i] == views(old(evidence)@)[i],
        forall|x: Seq<char>| #[trigger] views(final(evidence)@).contains(x) <==> (views(old(evidence)@).contains(x)
            || spec_surface_evidence(*surface, detail@).contains(x)),
        views(final(evidence)@) == append_unique(views(old(evidence)@), spec_surface_evidence(*surface, detail@)),
{
    let items = surface_evidence(surface, detail);
    let ghost start = views(evidence@);
    let ghost added = views(items@);
    let mut i: usize = 0;
    proof {
        assert(added.take(0) =~= Seq::<Seq<char>>::empty());
    }
    while i < items.len()
        invariant
            i <= items@.len(),
            added == views(items@),
            start.len() <= views(evidence@).len(),
            forall|k: int| 0 <= k < start.len() ==> views(evidence@)[k] == start[k],
            forall|x: Seq<char>| #[trigger] views(evidence@).contains(x) <==> (start.contains(x)
                || added.take(i as int).contains(x)),
            views(evidence@) == append_unique(start, added.take(i as int)),
        decreases items.len() - i,
    {
        let ghost before = views(evidence@);
        push_unique(evidence, items[i].clone());
        proof {
            assert(added.take(i + 1).drop_last() =~= added.take(i as int));
            assert(added.take(i + 1).last() == added[i as int]);
            assert(added.take(i + 1) =~= added.take(i as int).push(added[i as int]));
            assert forall|x: Seq<char>| #[trigger] views(evidence@).contains(x) <==> (start.contains(x)
                || added.take(i + 1).contains(x)) by {
                if views(evidence@).contains(x) && !before.contains(x) {
                    let k = choose|k: int| 0 <= k < views(evidence@).len() && views(evidence@)[k] == x;
                    assert(k == before.len());
                    assert(added.take(i + 1)[i as int] == x);
                }
                let a1 = added.take(i + 1);
                let a0 = added.take(i as int);
                if a1.contains(x) && !a0.contains(x) {
                    let k = choose|k: int| 0 <= k < a1.len() && a1[k] == x;
                    if k < i {
                        assert(a0[k] == x);
                    }
                    assert(k == i);
                    if !before.contains(x) {
                        assert(views(evidence@)[before.len() as int] == x);
                    }
                }
                if before.contains(x) {
                    let k = choose|k: int| 0 <= k < before.len() && before[k] == x;
                    assert(views(evidence@)[k] == x);
                }
                if a0.contains(x) {
                    let k = choose|k: int| 0 <= k < a0.len() && a0[k] == x;
                    assert(a1[k] == x);
                }
            }
        }
        i = i + 1;
    }
    proof {
        assert(added.take(items@.len() as int) =~= added);
        assert(start.take(0) =~= start.take(0));
    }
}

// ---------------------------------------------------------------------------
// The inference report
// ---------------------------------------------------------------------------

/// A crash cause that the inference step holds probable, with its confidence in
/// thousandths.
#[derive(Debug, Clone, PartialEq, Eq)]
pub struct ProbableCrashCause {
    pub code: String,
    pub summary: String,
    pub confidence_milli: u32,
    pub risk: crate::compare::RiskLevel,
    pub affected_assets: Vec<String>,
    pub reasons: Vec<String>,
    pub evidence: Vec<String>,
}

/// A fix the inference step suggests, with its confidence in thousandths.
#[derive(Debug, Clone, PartialEq, Eq)]
pub struct SuggestedFix {
    pub code: String,
    pub summary: String,
    pub confidence_milli: u32,
    pub priority: crate::compare::RiskLevel,
    pub actions: Vec<String>,
    pub reasons: Vec<String>,
    pub evidence: Vec<String>,
}

/// A remap the inference step hints at, with its confidence in thousandths.
#[derive(Debug, Clone, PartialEq, Eq)]
pub struct InferredMappingHint {
    pub old_asset_path: String,
    pub new_asset_path: String,
    pub confidence_milli: u32,
    pub compatibility: RemapCompatibility,
    pub needs_review: bool,
    pub ambiguous: bool,
    pub confidence_gap_milli: Option<u32>,
    pub continuity: Option<InferredMappingContinuityContext>,
    pub reasons: Vec<String>,
    pub evidence: Vec<String>,
}

#[derive(Debug, Clone, PartialEq, Eq)]
pub struct InferenceSummary {
    pub probable_crash_causes: usize,
    pub suggested_fixes: usize,
    pub candidate_mapping_hints: usize,
    pub highest_confidence_milli: u32,
}

/// What inference found for a version pair: its inputs, probable crash causes,
/// suggested fixes and remap hints.
#[derive(Debug, Clone, PartialEq, Eq)]
pub struct InferenceReport {
    pub schema_version: String,
    pub generated_at_unix_ms: u64,
    pub compare_input: InferenceCompareInput,
    pub knowledge_input: InferenceKnowledgeInput,
    pub mod_dependency_input: Option<InferenceModDependencyInput>,
    pub scope: InferenceScopeContext,
    pub summary: InferenceSummary,
    pub probable_crash_causes: Vec<ProbableCrashCause>,
    pub suggested_fixes: Vec<SuggestedFix>,
    pub candidate_mapping_hints: Vec<InferredMappingHint>,
    pub surface_intersection: InferenceSurfaceIntersection,
}

} // verus!
