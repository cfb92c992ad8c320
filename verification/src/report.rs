//! The version-diff report a compare produces for review, with its saved review surface.
use vstd::prelude::*;
use crate::compare::RemapCompatibility;
use crate::inference::InferredMappingContinuityContext;
use crate::text::{clone_opt_string, clone_string, opt_view};

verus! {

#[derive(Debug, Clone, PartialEq, Eq)]
pub struct VersionSide {
    pub version_id: String,
    pub source_root: String,
    pub asset_count: usize,
}

#[derive(Debug, Clone, Copy, PartialEq, Eq)]
pub struct VersionDiffSummary {
    pub resonator_count: usize,
    pub unchanged_items: usize,
    pub changed_items: usize,
    pub added_items: usize,
    pub removed_items: usize,
    pub uncertain_items: usize,
    pub mapping_candidates: usize,
}

/// Lineage observations across versions; the review surfaces do not read it.
#[derive(Debug, Clone, Copy, PartialEq, Eq)]
pub struct VersionLineageSection {}

impl Default for VersionLineageSection {
    fn default() -> (r: Self)
        ensures
            r == (VersionLineageSection {}),
    {
        VersionLineageSection {  }
    }
}

#[derive(Debug, Clone, Copy, PartialEq, Eq)]
pub struct ResonatorVersionView {
    pub asset_count: usize,
    pub buffer_count: usize,
    pub mapping_count: usize,
}

#[derive(Debug, Clone, Copy, PartialEq, Eq)]
pub enum ReportItemType {
    Asset,
    Buffer,
    Mapping,
}

#[derive(Debug, Clone, Copy, PartialEq, Eq)]
pub enum DiffStatus {
    Unchanged,
    Changed,
    Added,
    Removed,
    Uncertain,
}

/// The hashes a versioned item carries.
#[derive(Debug, Clone, PartialEq, Eq)]
pub struct TechnicalMetadata {
    pub asset_hash: Option<String>,
    pub shader_hash: Option<String>,
}

impl Default for TechnicalMetadata {
    fn default() -> (r: Self)
        ensures
            r.asset_hash is None,
            r.shader_hash is None,
    {
        TechnicalMetadata { asset_hash: None, shader_hash: None }
    }
}

/// One side (old or new) of an item in a resonator's diff.
#[derive(Debug, Clone, PartialEq, Eq)]
pub struct VersionedItem {
    pub key: String,
    pub label: String,
    pub path: Option<String>,
    pub metadata: TechnicalMetadata,
}

#[derive(Debug, Clone, PartialEq, Eq)]
pub struct ReportReason {
    pub code: String,
    pub message: String,
}

/// How one item of a resonator differs between the versions; the confidence is
/// kept in thousandths.
#[derive(Debug, Clone, PartialEq, Eq)]
pub struct ResonatorItemDiff {
    pub item_type: ReportItemType,
    pub status: DiffStatus,
    pub confidence_milli: Option<u32>,
    pub compatibility: Option<RemapCompatibility>,
    pub old: Option<VersionedItem>,
    pub new: Option<VersionedItem>,
    pub reasons: Vec<ReportReason>,
}

#[derive(Debug, Clone, PartialEq, Eq)]
pub struct ResonatorDiffEntry {
    pub resonator: String,
    pub old_version: ResonatorVersionView,
    pub new_version: ResonatorVersionView,
    pub items: Vec<ResonatorItemDiff>,
}

#[derive(Debug, Clone, Copy, PartialEq, Eq)]
pub enum ProposalStatus {
    Proposed,
    NeedsReview,
}

/// How an asset thread continued from one version to the next.
#[derive(Debug, Clone, Copy, PartialEq, Eq)]
pub enum VersionContinuityRelation {
    Persisted,
    RenameOrRepath,
    ContainerMovement,
    LayoutDrift,
    Replacement,
    Ambiguous,
    InsufficientEvidence,
    Removed,
}

/// A continuity-backed crash cause saved for review (confidence in thousandths).
#[derive(Debug, Clone, PartialEq, Eq)]
pub struct VersionReviewCause {
    pub code: String,
    pub summary: String,
    pub confidence_milli: u32,
    pub affected_assets: Vec<String>,
    pub evidence: Vec<String>,
}

/// A continuity-backed fix saved for review (confidence in thousandths).
#[derive(Debug, Clone, PartialEq, Eq)]
pub struct VersionReviewFix {
    pub code: String,
    pub summary: String,
    pub confidence_milli: u32,
    pub actions: Vec<String>,
    pub evidence: Vec<String>,
}

/// A mapping kept review-only, as saved for review (confidence in thousandths).
#[derive(Debug, Clone, PartialEq, Eq)]
pub struct VersionReviewMapping {
    pub old_asset_path: String,
    pub new_asset_path: String,
    pub status: ProposalStatus,
    pub confidence_milli: u32,
    pub compatibility: RemapCompatibility,
    pub continuity: Option<InferredMappingContinuityContext>,
    pub continuity_notes: Vec<String>,
    pub reasons: Vec<String>,
    pub evidence: Vec<String>,
    pub related_fix_codes: Vec<String>,
}

#[derive(Debug, Clone, PartialEq, Eq)]
pub struct VersionReviewSummary {
    pub review_mapping_count: usize,
    pub continuity_review_mapping_count: usize,
    pub continuity_caution_present: bool,
}

#[derive(Debug, Clone, PartialEq, Eq)]
pub struct VersionContinuityReviewSection {
    pub caution_present: bool,
    pub cause_count: usize,
    pub fix_count: usize,
    pub review_mapping_count: usize,
    pub causes: Vec<VersionReviewCause>,
    pub fixes: Vec<VersionReviewFix>,
    pub mappings: Vec<VersionReviewMapping>,
    pub notes: Vec<String>,
}

#[derive(Debug, Clone, PartialEq, Eq)]
pub struct VersionReviewSection {
    pub summary: VersionReviewSummary,
    pub continuity: VersionContinuityReviewSection,
}

impl Default for VersionReviewSection {
    fn default() -> (r: Self)
        ensures
            r.summary.review_mapping_count == 0,
            r.summary.continuity_review_mapping_count == 0,
            !r.summary.continuity_caution_present,
            !r.continuity.caution_present,
            r.continuity.cause_count == 0,
            r.continuity.fix_count == 0,
            r.continuity.review_mapping_count == 0,
            r.continuity.causes@.len() == 0,
            r.continuity.fixes@.len() == 0,
            r.continuity.mappings@.len() == 0,
            r.continuity.notes@.len() == 0,
    {
        VersionReviewSection {
            summary: VersionReviewSummary {
                review_mapping_count: 0,
                continuity_review_mapping_count: 0,
                continuity_caution_present: false,
            },
            continuity: VersionContinuityReviewSection {
                caution_present: false,
                cause_count: 0,
                fix_count: 0,
                review_mapping_count: 0,
                causes: Vec::new(),
                fixes: Vec::new(),
                mappings: Vec::new(),
                notes: Vec::new(),
            },
        }
    }
}

/// The version-diff report of one saved version pair.
#[derive(Debug, Clone, PartialEq, Eq)]
pub struct VersionDiffReportV2 {
    pub schema_version: String,
    pub generated_at_unix_ms: u64,
    pub old_version: VersionSide,
    pub new_version: VersionSide,
    pub resonators: Vec<ResonatorDiffEntry>,
    pub lineage: VersionLineageSection,
    pub summary: VersionDiffSummary,
    pub scope_notes: Vec<String>,
    pub review: VersionReviewSection,
}


impl VersionedItem {
    /// Field-wise equality of the texts.
    pub open spec fn same_as(&self, other: &VersionedItem) -> bool {
        &&& self.key@ == other.key@
        &&& self.label@ == other.label@
        &&& opt_view(self.path) == opt_view(other.path)
        &&& opt_view(self.metadata.asset_hash) == opt_view(other.metadata.asset_hash)
        &&& opt_view(self.metadata.shader_hash) == opt_view(other.metadata.shader_hash)
    }

    pub fn copy(&self) -> (r: Self)
        ensures
            r.same_as(self),
    {
        VersionedItem {
            key: clone_string(&self.key),
            label: clone_string(&self.label),
            path: clone_opt_string(&self.path),
            metadata: TechnicalMetadata {
                asset_hash: clone_opt_string(&self.metadata.asset_hash),
                shader_hash: clone_opt_string(&self.metadata.shader_hash),
            },
        }
    }
}

/// One step of an asset thread: how the asset at `from_path` in one version continued
/// into the next.
#[derive(Debug, Clone, PartialEq, Eq)]
pub struct VersionContinuityObservation {
    pub from_version_id: String,
    pub to_version_id: String,
    pub from_path: String,
    pub to_path: Option<String>,
    pub relation: VersionContinuityRelation,
}

/// An asset followed across versions from its anchor.
#[derive(Debug, Clone, PartialEq, Eq)]
pub struct VersionContinuityThread {
    pub thread_id: String,
    pub anchor_version_id: String,
    pub anchor: VersionedItem,
    pub observations: Vec<VersionContinuityObservation>,
    pub review_required: bool,
}

/// What a thread's history comes to: where it starts, how far it was seen, whether it
/// is still live, and how it ended.
#[derive(Debug, Clone, PartialEq, Eq)]
pub struct VersionContinuityThreadSummary {
    pub thread_id: String,
    pub anchor_version_id: String,
    pub anchor: VersionedItem,
    pub first_seen_version: String,
    pub latest_observed_version: String,
    pub latest_live_version: Option<String>,
    pub terminal_relation: Option<VersionContinuityRelation>,
    pub terminal_version: Option<String>,
    pub review_required: bool,
}

/// The threads of a version library, with the summaries saved for them.
#[derive(Debug, Clone, PartialEq, Eq)]
pub struct VersionContinuityIndex {
    pub threads: Vec<VersionContinuityThread>,
    pub thread_summaries: Vec<VersionContinuityThreadSummary>,
}

} // verus!
