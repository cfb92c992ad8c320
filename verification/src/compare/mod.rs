//! Classifying how an asset changed between two snapshots.
use vstd::prelude::*;
use crate::domain::{AssetInternalStructure, AssetSourceContext};
use crate::snapshot::{SnapshotAsset, SnapshotCaptureQualitySummary, SnapshotScopeAssessment};
use crate::text::{
    clone_opt_string, clone_string, clone_strings, decimal, decimal_string, join, join_seq,
    new_string, opt_view, push_str, seq_contains, str_eq, views,
};

pub mod fields;
pub mod change;
pub mod scope;
pub mod engine;
pub mod outcome;

verus! {

#[derive(Debug, Clone, Copy, PartialEq, Eq)]
pub enum SnapshotChangeType {
    Added,
    Removed,
    Changed,
}

#[derive(Debug, Clone, Copy, PartialEq, Eq)]
pub enum RiskLevel {
    Low,
    Medium,
    High,
}

/// How safe it looks to repair a mod by remapping to a candidate asset.
#[derive(Debug, Clone, Copy, PartialEq, Eq)]
pub enum RemapCompatibility {
    LikelyCompatible,
    CompatibleWithCaution,
    StructurallyRisky,
    IncompatibleBlocked,
    InsufficientEvidence,
}

impl Default for RemapCompatibility {
    fn default() -> (r: Self)
        ensures
            r == RemapCompatibility::InsufficientEvidence,
    {
        RemapCompatibility::InsufficientEvidence
    }
}

impl RemapCompatibility {
    pub open spec fn spec_supports_auto_proposal(self) -> bool {
        self is LikelyCompatible || self is CompatibleWithCaution
    }

    /// Only likely-compatible and compatible-with-caution remaps may be proposed automatically.
    pub fn supports_auto_proposal(&self) -> (r: bool)
        ensures
            r == self.spec_supports_auto_proposal(),
    {
        match self {
            RemapCompatibility::LikelyCompatible | RemapCompatibility::CompatibleWithCaution => true,
            _ => false,
        }
    }
}

/// What kind of movement an asset's change most likely is.
#[derive(Debug, Clone, Copy, PartialEq, Eq)]
pub enum AssetLineageKind {
    RenameOrRepath,
    ContainerMovement,
    LayoutDrift,
    Replacement,
    Ambiguous,
    InsufficientEvidence,
}

impl Default for AssetLineageKind {
    fn default() -> (r: Self)
        ensures
            r == AssetLineageKind::InsufficientEvidence,
    {
        AssetLineageKind::InsufficientEvidence
    }
}

pub open spec fn spec_lineage_code(k: AssetLineageKind) -> Seq<char> {
    match k {
        AssetLineageKind::RenameOrRepath => "lineage_rename_or_repath"@,
        AssetLineageKind::ContainerMovement => "lineage_container_movement"@,
        AssetLineageKind::LayoutDrift => "lineage_layout_drift"@,
        AssetLineageKind::Replacement => "lineage_replacement"@,
        AssetLineageKind::Ambiguous => "lineage_ambiguous"@,
        AssetLineageKind::InsufficientEvidence => "lineage_insufficient_evidence"@,
    }
}

pub open spec fn spec_lineage_message(k: AssetLineageKind) -> Seq<char> {
    match k {
        AssetLineageKind::RenameOrRepath => "lineage assessment: asset looks like a rename or repath of the same logical item"@,
        AssetLineageKind::ContainerMovement => "lineage assessment: asset appears to have moved with container/package regrouping"@,
        AssetLineageKind::LayoutDrift => "lineage assessment: asset is still related, but its layout drifted across versions"@,
        AssetLineageKind::Replacement => "lineage assessment: surface similarity is likely masking a real asset replacement"@,
        AssetLineageKind::Ambiguous => "lineage assessment: compare evidence is too ambiguous to trust the movement call"@,
        AssetLineageKind::InsufficientEvidence => "lineage assessment: snapshot evidence is not strong enough to classify movement safely"@,
    }
}

impl AssetLineageKind {
    pub fn reason_code(&self) -> (r: &'static str)
        ensures
            r@ == spec_lineage_code(*self),
    {
        match self {
            AssetLineageKind::RenameOrRepath => "lineage_rename_or_repath",
            AssetLineageKind::ContainerMovement => "lineage_container_movement",
            AssetLineageKind::LayoutDrift => "lineage_layout_drift",
            AssetLineageKind::Replacement => "lineage_replacement",
            AssetLineageKind::Ambiguous => "lineage_ambiguous",
            AssetLineageKind::InsufficientEvidence => "lineage_insufficient_evidence",
        }
    }

    pub fn message(&self) -> (r: &'static str)
        ensures
            r@ == spec_lineage_message(*self),
    {
        match self {
            AssetLineageKind::RenameOrRepath => "lineage assessment: asset looks like a rename or repath of the same logical item",
            AssetLineageKind::ContainerMovement => "lineage assessment: asset appears to have moved with container/package regrouping",
            AssetLineageKind::LayoutDrift => "lineage assessment: asset is still related, but its layout drifted across versions",
            AssetLineageKind::Replacement => "lineage assessment: surface similarity is likely masking a real asset replacement",
            AssetLineageKind::Ambiguous => "lineage assessment: compare evidence is too ambiguous to trust the movement call",
            AssetLineageKind::InsufficientEvidence => "lineage assessment: snapshot evidence is not strong enough to classify movement safely",
        }
    }
}

#[derive(Debug, Clone, PartialEq, Eq)]
pub struct SnapshotCompareReason {
    pub code: String,
    pub message: String,
}

pub struct ReasonModel {
    pub code: Seq<char>,
    pub message: Seq<char>,
}

impl View for SnapshotCompareReason {
    type V = ReasonModel;

    open spec fn view(&self) -> ReasonModel {
        ReasonModel { code: self.code@, message: self.message@ }
    }
}

pub open spec fn reason_models(v: Seq<SnapshotCompareReason>) -> Seq<ReasonModel> {
    v.map_values(|r: SnapshotCompareReason| r@)
}

pub fn make_reason(code: String, message: String) -> (r: SnapshotCompareReason)
    ensures
        r@ == (ReasonModel { code: code@, message: message@ }),
{
    SnapshotCompareReason { code, message }
}

pub open spec fn spec_lineage_reason(k: AssetLineageKind) -> ReasonModel {
    ReasonModel { code: spec_lineage_code(k), message: spec_lineage_message(k) }
}

/// The reason that records a lineage call.
pub fn lineage_reason(lineage: &AssetLineageKind) -> (r: SnapshotCompareReason)
    ensures
        r@ == spec_lineage_reason(*lineage),
{
    make_reason(new_string(lineage.reason_code()), new_string(lineage.message()))
}

pub open spec fn spec_compatibility_reason(c: RemapCompatibility) -> ReasonModel {
    match c {
        RemapCompatibility::LikelyCompatible => ReasonModel {
            code: "compatibility_likely_compatible"@,
            message: "repair-oriented compatibility assessment: likely compatible for a mapping-first fix path"@,
        },
        RemapCompatibility::CompatibleWithCaution => ReasonModel {
            code: "compatibility_compatible_with_caution"@,
            message: "repair-oriented compatibility assessment: candidate looks usable, but validate it before treating the remap as fully safe"@,
        },
        RemapCompatibility::StructurallyRisky => ReasonModel {
            code: "compatibility_structurally_risky"@,
            message: "repair-oriented compatibility assessment: same logical asset may exist, but structural drift makes remap-only repair risky"@,
        },
        RemapCompatibility::IncompatibleBlocked => ReasonModel {
            code: "compatibility_incompatible_blocked"@,
            message: "repair-oriented compatibility assessment: conflicting identity signals block this candidate from auto-remap use"@,
        },
        RemapCompatibility::InsufficientEvidence => ReasonModel {
            code: "compatibility_insufficient_evidence"@,
            message: "repair-oriented compatibility assessment: snapshot evidence is not strong enough to treat this candidate as repair-safe"@,
        },
    }
}

/// The reason that records a compatibility call.
pub fn compatibility_reason(compatibility: &RemapCompatibility) -> (r: SnapshotCompareReason)
    ensures
        r@ == spec_compatibility_reason(*compatibility),
{
    match compatibility {
        RemapCompatibility::LikelyCompatible => make_reason(
            new_string("compatibility_likely_compatible"),
            new_string(
                "repair-oriented compatibility assessment: likely compatible for a mapping-first fix path",
            ),
        ),
        RemapCompatibility::CompatibleWithCaution => make_reason(
            new_string("compatibility_compatible_with_caution"),
            new_string(
                "repair-oriented compatibility assessment: candidate looks usable, but validate it before treating the remap as fully safe",
            ),
        ),
        RemapCompatibility::StructurallyRisky => make_reason(
            new_string("compatibility_structurally_risky"),
            new_string(
                "repair-oriented compatibility assessment: same logical asset may exist, but structural drift makes remap-only repair risky",
            ),
        ),
        RemapCompatibility::IncompatibleBlocked => make_reason(
            new_string("compatibility_incompatible_blocked"),
            new_string(
                "repair-oriented compatibility assessment: conflicting identity signals block this candidate from auto-remap use",
            ),
        ),
        RemapCompatibility::InsufficientEvidence => make_reason(
            new_string("compatibility_insufficient_evidence"),
            new_string(
                "repair-oriented compatibility assessment: snapshot evidence is not strong enough to treat this candidate as repair-safe",
            ),
        ),
    }
}

/// Whether some reason carries `code`.
pub fn has_reason_code(reasons: &Vec<SnapshotCompareReason>, code: &str) -> (r: bool)
    ensures
        r == exists|i: int| 0 <= i < reasons@.len() && #[trigger] reasons@[i].code@ == code@,
{
    let mut i: usize = 0;
    while i < reasons.len()
        invariant
            i <= reasons.len(),
            forall|j: int| 0 <= j < i ==> #[trigger] reasons@[j].code@ != code@,
        decreases reasons.len() - i,
    {
        if str_eq(reasons[i].code.as_str(), code) {
            return true;
        }
        i = i + 1;
    }
    false
}

/// Rank of a capture mode by breadth: full inventory 3, content-focused 2,
/// character-focused 1; other modes have no rank.
pub open spec fn spec_capture_rank(mode: Option<Seq<char>>) -> Option<u8> {
    match mode {
        Some(m) => if m == "local_filesystem_inventory"@ {
            Some(3u8)
        } else if m == "local_filesystem_inventory_content_focused"@ {
            Some(2u8)
        } else if m == "local_filesystem_inventory_character_focused"@ {
            Some(1u8)
        } else {
            None
        },
        None => None,
    }
}

pub fn local_capture_scope_rank(capture_mode: Option<&str>) -> (r: Option<u8>)
    ensures
        r == spec_capture_rank(
            match capture_mode {
                Some(m) => Some(m@),
                None => None,
            },
        ),
{
    match capture_mode {
        Some(m) => if str_eq(m, "local_filesystem_inventory") {
            Some(3)
        } else if str_eq(m, "local_filesystem_inventory_content_focused") {
            Some(2)
        } else if str_eq(m, "local_filesystem_inventory_character_focused") {
            Some(1)
        } else {
            None
        },
        None => None,
    }
}

/// Manifest or hash coverage is present, but the asset records are not enriched.
pub open spec fn spec_shallow_support(
    scope: SnapshotScopeAssessment,
    quality: SnapshotCaptureQualitySummary,
) -> bool {
    !scope.meaningful_asset_record_enrichment && (quality.manifest_resource_count > 0
        || quality.assets_with_asset_hash > 0 || quality.assets_with_any_hash > 0
        || quality.assets_with_signature > 0)
}

pub fn has_shallow_hash_or_manifest_only_support(
    scope: &SnapshotScopeAssessment,
    quality: &SnapshotCaptureQualitySummary,
) -> (r: bool)
    ensures
        r == spec_shallow_support(*scope, *quality),
{
    !scope.meaningful_asset_record_enrichment && (quality.manifest_resource_count > 0
        || quality.assets_with_asset_hash > 0 || quality.assets_with_any_hash > 0
        || quality.assets_with_signature > 0)
}

/// The counts of a snapshot compare.
#[derive(Debug, Clone, Copy, PartialEq, Eq)]
pub struct SnapshotCompareSummary {
    pub total_old_assets: usize,
    pub total_new_assets: usize,
    pub unchanged_assets: usize,
    pub added_assets: usize,
    pub removed_assets: usize,
    pub changed_assets: usize,
    pub candidate_mapping_changes: usize,
    pub identity_changed_assets: usize,
    pub layout_changed_assets: usize,
    pub structural_changed_assets: usize,
    pub naming_only_changed_assets: usize,
    pub cosmetic_only_changed_assets: usize,
    pub provenance_changed_assets: usize,
    pub container_moved_assets: usize,
    pub lineage_rename_or_repath_assets: usize,
    pub lineage_container_movement_assets: usize,
    pub lineage_layout_drift_assets: usize,
    pub lineage_replacement_assets: usize,
    pub lineage_ambiguous_assets: usize,
    pub lineage_insufficient_evidence_assets: usize,
    pub ambiguous_candidate_mapping_changes: usize,
    pub high_confidence_candidate_mapping_changes: usize,
}

/// The removals are likely an artefact of the narrower scope: nothing else changed,
/// at least half of the old assets vanished, or nothing is visible at all.
pub open spec fn spec_scope_induced(c: SnapshotCompareSummary) -> bool {
    (c.added_assets == 0 && c.changed_assets == 0 && c.candidate_mapping_changes == 0) || (
    c.total_old_assets > 0 && 2 * c.removed_assets >= c.total_old_assets) || c.total_new_assets
        == 0
}

pub open spec fn mode_or_unknown(m: Option<Seq<char>>) -> Seq<char> {
    match m {
        Some(s) => s,
        None => "unknown"@,
    }
}

/// The interpretation note for a compare whose new capture mode ranks narrower than the old.
pub open spec fn spec_scope_note(
    old_mode: Option<Seq<char>>,
    new_mode: Option<Seq<char>>,
    c: SnapshotCompareSummary,
) -> Option<Seq<char>> {
    match (spec_capture_rank(old_mode), spec_capture_rank(new_mode)) {
        (Some(o), Some(n)) => if n >= o || c.removed_assets == 0 {
            None
        } else if spec_scope_induced(c) {
            Some(
                "scope-induced removal caution: new snapshot capture mode '"@ + mode_or_unknown(
                    new_mode,
                ) + "' is narrower than old '"@ + mode_or_unknown(old_mode) + "'; "@ + decimal(
                    c.removed_assets as nat,
                )
                    + " removed assets likely reflect scope filtering rather than true game-version drift"@
                    + if c.total_new_assets == 0 {
                    ", and the narrower scope yielded 0 visible assets"@
                } else {
                    Seq::empty()
                },
            )
        } else {
            Some(
                "scope-narrowing note: new snapshot capture mode '"@ + mode_or_unknown(new_mode)
                    + "' is narrower than old '"@ + mode_or_unknown(old_mode)
                    + "'; review removals conservatively because part of the delta may be scope-induced rather than true game-version drift"@,
            )
        },
        _ => None,
    }
}

fn opt_str(o: &Option<String>) -> (r: Option<&str>)
    ensures
        match r {
            Some(s) => o is Some && s@ == o->0@,
            None => o is None,
        },
{
    match o {
        Some(s) => Some(s.as_str()),
        None => None,
    }
}

/// The caution note for a compare whose new snapshot's capture mode is narrower than
/// the old one's (the share of removed assets is compared as `2 * removed >= total`,
/// the exact form of `removed / total >= 0.5`).
pub fn scope_narrowing_interpretation_note(
    old_scope: &SnapshotScopeAssessment,
    new_scope: &SnapshotScopeAssessment,
    summary: &SnapshotCompareSummary,
) -> (r: Option<String>)
    ensures
        opt_view(r) == spec_scope_note(
            opt_view(old_scope.capture_mode),
            opt_view(new_scope.capture_mode),
            *summary,
        ),
{
    let old_rank = match local_capture_scope_rank(opt_str(&old_scope.capture_mode)) {
        Some(r) => r,
        None => return None,
    };
    let new_rank = match local_capture_scope_rank(opt_str(&new_scope.capture_mode)) {
        Some(r) => r,
        None => return None,
    };
    if new_rank >= old_rank || summary.removed_assets == 0 {
        return None;
    }
    let old_mode = match &old_scope.capture_mode {
        Some(m) => m.as_str(),
        None => "unknown",
    };
    let new_mode = match &new_scope.capture_mode {
        Some(m) => m.as_str(),
        None => "unknown",
    };
    let removed_only_delta = summary.added_assets == 0 && summary.changed_assets == 0
        && summary.candidate_mapping_changes == 0;
    let half_removed = summary.total_old_assets > 0 && (summary.removed_assets
        > summary.total_old_assets || summary.removed_assets >= summary.total_old_assets
        - summary.removed_assets);
    let new_zero_visibility = summary.total_new_assets == 0;
    if removed_only_delta || half_removed || new_zero_visibility {
        let mut note = new_string("scope-induced removal caution: new snapshot capture mode '");
        push_str(&mut note, new_mode);
        push_str(&mut note, "' is narrower than old '");
        push_str(&mut note, old_mode);
        push_str(&mut note, "'; ");
        let removed = decimal_string(summary.removed_assets);
        push_str(&mut note, removed.as_str());
        push_str(
            &mut note,
            " removed assets likely reflect scope filtering rather than true game-version drift",
        );
        if new_zero_visibility {
            push_str(&mut note, ", and the narrower scope yielded 0 visible assets");
        } else {
            proof {
                assert(note@ =~= note@ + Seq::<char>::empty());
            }
        }
        Some(note)
    } else {
        let mut note = new_string("scope-narrowing note: new snapshot capture mode '");
        push_str(&mut note, new_mode);
        push_str(&mut note, "' is narrower than old '");
        push_str(&mut note, old_mode);
        push_str(
            &mut note,
            "'; review removals conservatively because part of the delta may be scope-induced rather than true game-version drift",
        );
        Some(note)
    }
}

} // verus!
