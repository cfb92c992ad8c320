//! Mapping proposals drawn from an inference report.
use vstd::prelude::*;
use crate::inference::InferredMappingContinuityContext;
use crate::report::ProposalStatus;

verus! {

/// A proposed or review-only remap, with its confidence in thousandths.
#[derive(Debug, Clone, PartialEq, Eq)]
pub struct MappingProposalEntry {
    pub old_asset_path: String,
    pub new_asset_path: String,
    pub confidence_milli: u32,
    pub status: ProposalStatus,
    pub reasons: Vec<String>,
    pub evidence: Vec<String>,
    pub related_fix_codes: Vec<String>,
    pub continuity: Option<InferredMappingContinuityContext>,
}

#[derive(Debug, Clone, PartialEq, Eq)]
pub struct MappingProposalSummary {
    pub total_mapping_candidates: usize,
    pub proposed_mappings: usize,
    pub needs_review_mappings: usize,
    pub highest_confidence_milli: u32,
}

/// The mapping proposal output: its summary and entries.
#[derive(Debug, Clone, PartialEq, Eq)]
pub struct MappingProposalOutput {
    pub schema_version: String,
    pub min_confidence_milli: u32,
    pub summary: MappingProposalSummary,
    pub mappings: Vec<MappingProposalEntry>,
}

/// What the proposal step produced for a version pair.
#[derive(Debug, Clone, PartialEq, Eq)]
pub struct ProposalArtifacts {
    pub mapping_proposal: MappingProposalOutput,
}

/// One drafted remap action of the proposal patch draft.
#[derive(Debug, Clone, PartialEq, Eq)]
pub struct ProposalPatchDraftAction {
    pub action: String,
    pub old_asset_path: String,
    pub new_asset_path: String,
    pub confidence_milli: u32,
}

/// The proposal patch draft: the remap actions at or above its confidence floor.
#[derive(Debug, Clone, PartialEq, Eq)]
pub struct ProposalPatchDraftOutput {
    pub schema_version: String,
    pub mode: String,
    pub min_confidence_milli: u32,
    pub actions: Vec<ProposalPatchDraftAction>,
}

} // verus!
