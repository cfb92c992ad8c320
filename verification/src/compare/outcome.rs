//! What a snapshot compare reports: the asset delta, the candidate remaps and the
//! scope it was made in.
use vstd::prelude::*;
use crate::compare::change::{SnapshotAssetChange, SnapshotAssetSummary};
use crate::compare::engine::{
    added_entries_are, changed_entries_are, changed_paths, path_set, paths_of, removed_entries_are,
    removed_paths, summarize_compare, summary_is, unchanged_count, AssetDelta, SnapshotComparer,
};
use crate::order::{ascending, lemma_ascending_exists, lemma_singleton_of};
use crate::compare::scope::{
    build_compare_scope_context, scope_context_is, SnapshotCompareScopeContext,
    SnapshotVersionInfo,
};
use crate::compare::{
    has_reason_code, AssetLineageKind, RemapCompatibility, SnapshotCompareReason,
    SnapshotCompareSummary,
};
use crate::snapshot::{SnapshotAsset, GameSnapshot, SnapshotCaptureQualitySummary, SnapshotScopeAssessment};
use crate::text::{clone_string, new_string};

verus! {

/// A removed asset paired with an added one that may replace it. Confidences are
/// in thousandths.
#[derive(Debug, Clone)]
pub struct CandidateMappingChange {
    pub old_asset: SnapshotAssetSummary,
    pub new_asset: SnapshotAssetSummary,
    pub confidence_milli: u32,
    pub compatibility: RemapCompatibility,
    pub lineage: AssetLineageKind,
    pub reasons: Vec<SnapshotCompareReason>,
    pub runner_up_confidence_milli: Option<u32>,
    pub confidence_gap_milli: Option<u32>,
    pub ambiguous: bool,
}

/// The report of a compare between two snapshots.
#[derive(Debug, Clone)]
pub struct SnapshotCompareReport {
    pub schema_version: String,
    pub old_snapshot: SnapshotVersionInfo,
    pub new_snapshot: SnapshotVersionInfo,
    pub scope: SnapshotCompareScopeContext,
    pub summary: SnapshotCompareSummary,
    pub added_assets: Vec<SnapshotAssetChange>,
    pub removed_assets: Vec<SnapshotAssetChange>,
    pub changed_assets: Vec<SnapshotAssetChange>,
    pub candidate_mapping_changes: Vec<CandidateMappingChange>,
}


pub open spec fn candidate_lineages(cs: Seq<CandidateMappingChange>) -> Seq<AssetLineageKind> {
    cs.map_values(|c: CandidateMappingChange| c.lineage)
}

/// How many candidates are marked ambiguous.
pub open spec fn ambiguous_count(cs: Seq<CandidateMappingChange>) -> nat
    decreases cs.len(),
{
    if cs.len() == 0 {
        0
    } else {
        ambiguous_count(cs.drop_last()) + if cs.last().ambiguous {
            1nat
        } else {
            0nat
        }
    }
}

fn count_ambiguous(cs: &Vec<CandidateMappingChange>) -> (r: usize)
    ensures
        r == ambiguous_count(cs@),
{
    let mut n: usize = 0;
    let mut i: usize = 0;
    while i < cs.len()
        invariant
            i <= cs@.len(),
            n == ambiguous_count(cs@.take(i as int)),
            n <= i,
        decreases cs.len() - i,
    {
        proof {
            assert(cs@.take(i + 1).drop_last() =~= cs@.take(i as int));
        }
        if cs[i].ambiguous {
            n = n + 1;
        }
        i = i + 1;
    }
    proof {
        assert(cs@.take(cs@.len() as int) =~= cs@);
    }
    n
}

fn lineages_of(cs: &Vec<CandidateMappingChange>) -> (r: Vec<AssetLineageKind>)
    ensures
        r@ == candidate_lineages(cs@),
{
    let mut r: Vec<AssetLineageKind> = Vec::new();
    let mut i: usize = 0;
    while i < cs.len()
        invariant
            i <= cs@.len(),
            r@ == candidate_lineages(cs@.take(i as int)),
        decreases cs.len() - i,
    {
        proof {
            assert(candidate_lineages(cs@.take(i + 1)) =~= candidate_lineages(cs@.take(i as int)).push(
                cs@[i as int].lineage,
            ));
        }
        r.push(cs[i].lineage);
        i = i + 1;
    }
    proof {
        assert(cs@.take(cs@.len() as int) =~= cs@);
    }
    r
}

pub open spec fn version_info_is(v: SnapshotVersionInfo, s: GameSnapshot) -> bool {
    &&& v.version_id@ == s.version_id@
    &&& v.source_root@ == s.source_root@
    &&& v.asset_count == s.asset_count
}

fn version_info(s: &GameSnapshot) -> (r: SnapshotVersionInfo)
    ensures
        version_info_is(r, *s),
{
    SnapshotVersionInfo {
        version_id: clone_string(&s.version_id),
        source_root: clone_string(&s.source_root),
        asset_count: s.asset_count,
    }
}

impl SnapshotComparer {
    /// The compare report of two snapshots, from their asset delta, the candidate remaps
    /// found for its removed and added assets (with how many of them reach high
    /// confidence), and each side's scope assessment and capture quality.
    pub fn assemble_report(
        &self,
        old_snapshot: &GameSnapshot,
        new_snapshot: &GameSnapshot,
        delta: AssetDelta,
        candidate_mapping_changes: Vec<CandidateMappingChange>,
        high_confidence_candidate_mapping_changes: usize,
        old_scope: &SnapshotScopeAssessment,
        new_scope: &SnapshotScopeAssessment,
        old_quality: &SnapshotCaptureQualitySummary,
        new_quality: &SnapshotCaptureQualitySummary,
    ) -> (r: SnapshotCompareReport)
        requires
            delta.changed_assets@.len() + candidate_mapping_changes@.len() <= usize::MAX,
        ensures
            r.schema_version@ == "whashreonator.snapshot-compare.v1"@,
            version_info_is(r.old_snapshot, *old_snapshot),
            version_info_is(r.new_snapshot, *new_snapshot),
            summary_is(
                r.summary,
                old_snapshot.asset_count,
                new_snapshot.asset_count,
                delta,
                candidate_lineages(candidate_mapping_changes@),
                ambiguous_count(candidate_mapping_changes@) as usize,
                high_confidence_candidate_mapping_changes,
            ),
            scope_context_is(
                r.scope,
                old_snapshot.version_id@,
                new_snapshot.version_id@,
                *old_scope,
                *new_scope,
                *old_quality,
                *new_quality,
                r.summary,
            ),
            r.added_assets@ == delta.added_assets@,
            r.removed_assets@ == delta.removed_assets@,
            r.changed_assets@ == delta.changed_assets@,
            r.candidate_mapping_changes@ == candidate_mapping_changes@,
    {
        let lineages = lineages_of(&candidate_mapping_changes);
        let ambiguous = count_ambiguous(&candidate_mapping_changes);
        let summary = summarize_compare(
            old_snapshot.asset_count,
            new_snapshot.asset_count,
            &delta,
            &lineages,
            ambiguous,
            high_confidence_candidate_mapping_changes,
        );
        let scope = build_compare_scope_context(
            old_snapshot.version_id.as_str(),
            new_snapshot.version_id.as_str(),
            old_scope,
            new_scope,
            old_quality,
            new_quality,
            &summary,
        );
        SnapshotCompareReport {
            schema_version: new_string("whashreonator.snapshot-compare.v1"),
            old_snapshot: version_info(old_snapshot),
            new_snapshot: version_info(new_snapshot),
            scope,
            summary,
            added_assets: delta.added_assets,
            removed_assets: delta.removed_assets,
            changed_assets: delta.changed_assets,
            candidate_mapping_changes,
        }
    }
}


/// Some reason of the candidate carries `code`.
pub open spec fn has_code(c: CandidateMappingChange, code: Seq<char>) -> bool {
    exists|i: int| 0 <= i < c.reasons@.len() && #[trigger] c.reasons@[i].code@ == code
}

/// The movement a candidate remap most likely is: ambiguous when a runner-up came too
/// close; else a replacement on identity conflict, kind or signature mismatch; else
/// container movement when the package or source path moved; else layout drift on
/// structural drift; else a rename/repath when the name or repath anchors hold.
pub open spec fn spec_candidate_lineage(c: CandidateMappingChange) -> AssetLineageKind {
    if c.ambiguous {
        AssetLineageKind::Ambiguous
    } else if has_code(c, "identity_conflict_detected"@) || has_code(c, "kind_mismatch"@)
        || has_code(c, "signature_mismatch"@) {
        AssetLineageKind::Replacement
    } else if has_code(c, "package_origin_moved"@) || has_code(c, "container_path_mismatch"@)
        || has_code(c, "source_path_mismatch"@) {
        AssetLineageKind::ContainerMovement
    } else if has_code(c, "same_asset_but_structural_drift"@) || has_code(
        c,
        "buffer_layout_validation_needed"@,
    ) {
        AssetLineageKind::LayoutDrift
    } else if has_code(c, "likely_same_asset_repathed"@) || has_code(c, "normalized_name_exact"@) {
        AssetLineageKind::RenameOrRepath
    } else {
        AssetLineageKind::InsufficientEvidence
    }
}

pub fn assess_candidate_lineage(candidate: &CandidateMappingChange) -> (r: AssetLineageKind)
    ensures
        r == spec_candidate_lineage(*candidate),
{
    let rs = &candidate.reasons;
    let has_rename_or_repath_anchor = has_reason_code(rs, "likely_same_asset_repathed")
        || has_reason_code(rs, "normalized_name_exact");
    let has_container_movement_anchor = has_reason_code(rs, "package_origin_moved")
        || has_reason_code(rs, "container_path_mismatch") || has_reason_code(
        rs,
        "source_path_mismatch",
    );
    let has_layout_drift_anchor = has_reason_code(rs, "same_asset_but_structural_drift")
        || has_reason_code(rs, "buffer_layout_validation_needed");
    let has_replacement_anchor = has_reason_code(rs, "identity_conflict_detected")
        || has_reason_code(rs, "kind_mismatch") || has_reason_code(rs, "signature_mismatch");
    if candidate.ambiguous {
        AssetLineageKind::Ambiguous
    } else if has_replacement_anchor {
        AssetLineageKind::Replacement
    } else if has_container_movement_anchor {
        AssetLineageKind::ContainerMovement
    } else if has_layout_drift_anchor {
        AssetLineageKind::LayoutDrift
    } else if has_rename_or_repath_anchor {
        AssetLineageKind::RenameOrRepath
    } else {
        AssetLineageKind::InsufficientEvidence
    }
}

/// How many candidates reach high confidence: 850 thousandths or more.
pub open spec fn high_confidence_count(cs: Seq<CandidateMappingChange>) -> nat
    decreases cs.len(),
{
    if cs.len() == 0 {
        0
    } else {
        high_confidence_count(cs.drop_last()) + if cs.last().confidence_milli >= 850 {
            1nat
        } else {
            0nat
        }
    }
}

fn count_high_confidence(cs: &Vec<CandidateMappingChange>) -> (r: usize)
    ensures
        r == high_confidence_count(cs@),
{
    let mut n: usize = 0;
    let mut i: usize = 0;
    while i < cs.len()
        invariant
            i <= cs@.len(),
            n == high_confidence_count(cs@.take(i as int)),
            n <= i,
        decreases cs.len() - i,
    {
        proof {
            assert(cs@.take(i + 1).drop_last() =~= cs@.take(i as int));
        }
        if cs[i].confidence_milli >= 850 {
            n = n + 1;
        }
        i = i + 1;
    }
    proof {
        assert(cs@.take(cs@.len() as int) =~= cs@);
    }
    n
}

proof fn lemma_changed_paths_len(ps: Seq<Seq<char>>, old: Seq<SnapshotAsset>, new: Seq<SnapshotAsset>)
    ensures
        changed_paths(ps, old, new).len() <= ps.len(),
    decreases ps.len(),
{
    if ps.len() > 0 {
        lemma_changed_paths_len(ps.drop_last(), old, new);
    }
}

/// The delta that a compare report carries.
pub open spec fn report_delta(r: SnapshotCompareReport) -> AssetDelta {
    AssetDelta {
        added_assets: r.added_assets,
        removed_assets: r.removed_assets,
        changed_assets: r.changed_assets,
        unchanged_assets: r.summary.unchanged_assets,
    }
}

impl SnapshotComparer {
    /// Compares two snapshots: the asset delta by path, the candidate remaps scored
    /// for its removed and added assets, and the scope both were captured in.
    pub fn compare(
        &self,
        old_snapshot: &GameSnapshot,
        new_snapshot: &GameSnapshot,
        candidate_mapping_changes: Vec<CandidateMappingChange>,
        old_scope: &SnapshotScopeAssessment,
        new_scope: &SnapshotScopeAssessment,
        old_quality: &SnapshotCaptureQualitySummary,
        new_quality: &SnapshotCaptureQualitySummary,
    ) -> (r: SnapshotCompareReport)
        requires
            old_snapshot.assets@.len() + candidate_mapping_changes@.len() <= usize::MAX,
        ensures
            r.schema_version@ == "whashreonator.snapshot-compare.v1"@,
            version_info_is(r.old_snapshot, *old_snapshot),
            version_info_is(r.new_snapshot, *new_snapshot),
            removed_entries_are(
                r.removed_assets@,
                removed_paths(ascending(path_set(old_snapshot.assets@)), new_snapshot.assets@),
                old_snapshot.assets@,
            ),
            added_entries_are(
                r.added_assets@,
                removed_paths(ascending(path_set(new_snapshot.assets@)), old_snapshot.assets@),
                new_snapshot.assets@,
            ),
            changed_entries_are(
                r.changed_assets@,
                changed_paths(
                    ascending(path_set(old_snapshot.assets@)),
                    old_snapshot.assets@,
                    new_snapshot.assets@,
                ),
                old_snapshot.assets@,
                new_snapshot.assets@,
            ),
            r.summary.unchanged_assets == unchanged_count(
                ascending(path_set(old_snapshot.assets@)),
                old_snapshot.assets@,
                new_snapshot.assets@,
            ),
            summary_is(
                r.summary,
                old_snapshot.asset_count,
                new_snapshot.asset_count,
                report_delta(r),
                candidate_lineages(candidate_mapping_changes@),
                ambiguous_count(candidate_mapping_changes@) as usize,
                high_confidence_count(candidate_mapping_changes@) as usize,
            ),
            scope_context_is(
                r.scope,
                old_snapshot.version_id@,
                new_snapshot.version_id@,
                *old_scope,
                *new_scope,
                *old_quality,
                *new_quality,
                r.summary,
            ),
            r.candidate_mapping_changes@ == candidate_mapping_changes@,
    {
        let delta = self.compare_assets(old_snapshot, new_snapshot);
        proof {
            let s = path_set(old_snapshot.assets@);
            assert(s.finite()) by {
                paths_of(old_snapshot.assets@).lemma_cardinality_of_set();
            }
            paths_of(old_snapshot.assets@).lemma_cardinality_of_set();
            lemma_ascending_exists(s);
            lemma_singleton_of(ascending(s), s);
            lemma_changed_paths_len(ascending(s), old_snapshot.assets@, new_snapshot.assets@);
        }
        let high = count_high_confidence(&candidate_mapping_changes);
        self.assemble_report(
            old_snapshot,
            new_snapshot,
            delta,
            candidate_mapping_changes,
            high,
            old_scope,
            new_scope,
            old_quality,
            new_quality,
        )
    }
}

} // verus!
