//! Versioned snapshots of a game folder: the assets and their normalized signals.
use vstd::prelude::*;
use crate::domain::{AssetHashFields, AssetInternalStructure, AssetMetadata, AssetSourceContext};

verus! {

/// The normalized signals a snapshot keeps per asset.
#[derive(Debug, Clone, PartialEq, Eq)]
pub struct SnapshotFingerprint {
    pub normalized_kind: Option<String>,
    pub normalized_name: Option<String>,
    pub vertex_count: Option<u32>,
    pub index_count: Option<u32>,
    pub material_slots: Option<u32>,
    pub section_count: Option<u32>,
    pub vertex_stride: Option<u32>,
    pub vertex_buffer_count: Option<u32>,
    pub index_format: Option<String>,
    pub primitive_topology: Option<String>,
    pub layout_markers: Vec<String>,
    pub internal_structure: AssetInternalStructure,
    pub tags: Vec<String>,
}

#[derive(Debug, Clone, PartialEq, Eq)]
pub struct SnapshotAsset {
    pub id: String,
    pub path: String,
    pub kind: Option<String>,
    pub metadata: AssetMetadata,
    pub fingerprint: SnapshotFingerprint,
    pub hash_fields: AssetHashFields,
    pub source: AssetSourceContext,
}

#[derive(Debug, Clone, PartialEq, Eq)]
pub struct GameSnapshot {
    pub schema_version: String,
    pub version_id: String,
    pub created_at_unix_ms: u64,
    pub source_root: String,
    pub asset_count: usize,
    pub assets: Vec<SnapshotAsset>,
}

/// How many observed paths fall in each coverage class.
#[derive(Debug, Clone, Copy, PartialEq, Eq)]
pub struct SnapshotCoverageSignals {
    pub content_like_path_count: usize,
    pub character_path_count: usize,
    pub non_content_path_count: usize,
}

/// How much a snapshot's capture covers, as the snapshot assessment judged it.
#[derive(Debug, Clone, PartialEq, Eq)]
pub struct SnapshotScopeAssessment {
    pub acquisition_kind: Option<String>,
    pub capture_mode: Option<String>,
    pub mostly_install_or_package_level: bool,
    pub meaningful_content_coverage: bool,
    pub meaningful_character_coverage: bool,
    pub meaningful_asset_record_enrichment: bool,
    pub observed_fallback_used: bool,
    pub note: Option<String>,
    pub coverage: SnapshotCoverageSignals,
    /// The assessment's judgement that the snapshot says too little for character-level analysis.
    pub low_signal_for_character_analysis: bool,
}

/// Hash, manifest and extractor coverage of a snapshot, with the assessment's
/// judgements on extractor alignment and evidence strength.
#[derive(Debug, Clone, PartialEq, Eq)]
pub struct SnapshotCaptureQualitySummary {
    pub asset_count: usize,
    pub launcher_detected_version: Option<String>,
    pub launcher_reuse_version: Option<String>,
    pub launcher_version_matches_snapshot: Option<bool>,
    pub manifest_resource_count: usize,
    pub manifest_matched_assets: usize,
    pub manifest_unmatched_snapshot_assets: usize,
    pub assets_with_asset_hash: usize,
    pub assets_with_any_hash: usize,
    pub assets_with_signature: usize,
    pub assets_with_source_context: usize,
    pub assets_with_rich_metadata: usize,
    pub meaningfully_enriched_assets: usize,
    pub extractor_record_count: usize,
    pub extractor_records_with_hashes: usize,
    pub extractor_records_with_source_context: usize,
    pub extractor_records_with_rich_metadata: usize,
    pub extractor_inventory_schema_version: Option<String>,
    pub extractor_inventory_version_id: Option<String>,
    pub extractor_inventory_version_matches_snapshot: Option<bool>,
    pub launcher_version_matches_extractor_inventory: Option<bool>,
    /// The machine label of the extractor inventory's alignment with the snapshot.
    pub extractor_alignment_status: String,
    /// Whether the alignment calls for caution, and why.
    pub extractor_alignment_caution: bool,
    pub extractor_alignment_reason: Option<String>,
    /// The machine label of the snapshot's evidence posture.
    pub evidence_tier: String,
}

/// The launcher's version record found beside a game install.
#[derive(Debug, Clone, PartialEq, Eq)]
pub struct LauncherVersionInfo {
    pub detected_version: String,
    pub reuse_version: Option<String>,
}

/// How far a resource manifest covers the snapshot's assets.
#[derive(Debug, Clone, Copy, PartialEq, Eq)]
pub struct ResourceManifestCoverage {
    pub resource_count: usize,
    pub matched_assets: usize,
    pub unmatched_snapshot_assets: usize,
}

/// What was found beside a snapshot's assets.
#[derive(Debug, Clone, PartialEq, Eq)]
pub struct SnapshotContext {
    pub launcher: Option<LauncherVersionInfo>,
    pub resource_manifest: Option<ResourceManifestCoverage>,
}

} // verus!
