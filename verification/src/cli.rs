//! The arguments of the command-line subcommands, as plain values.
use vstd::prelude::*;

verus! {

#[derive(Debug, Clone, PartialEq, Eq)]
pub struct MapArgs {
    pub input: String,
    pub output: String,
    pub config: Option<String>,
}

#[derive(Debug, Clone, PartialEq, Eq)]
pub struct MapLocalArgs {
    pub old_root: String,
    pub new_root: String,
    pub report_output: Option<String>,
    pub mapping_output: Option<String>,
    pub patch_draft_output: Option<String>,
    pub config: Option<String>,
    pub dry_run: bool,
}

/// How much of a game folder a snapshot captures.
#[derive(Debug, Clone, Copy, PartialEq, Eq)]
pub enum SnapshotCaptureScopeArg {
    Full,
    Content,
    Character,
    Extractor,
}

impl Default for SnapshotCaptureScopeArg {
    fn default() -> (r: Self)
        ensures
            r == SnapshotCaptureScopeArg::Full,
    {
        SnapshotCaptureScopeArg::Full
    }
}

#[derive(Debug, Clone, PartialEq, Eq)]
pub struct SnapshotArgs {
    pub source_root: String,
    pub version_id: String,
    pub output: String,
    pub capture_scope: SnapshotCaptureScopeArg,
    pub extractor_inventory: Option<String>,
    pub store_in_report: bool,
    pub report_root: Option<String>,
}

#[derive(Debug, Clone, PartialEq, Eq)]
pub struct SnapshotReportArgs {
    pub snapshots: Vec<String>,
    pub output: String,
}

#[derive(Debug, Clone, PartialEq, Eq)]
pub struct CompareSnapshotsArgs {
    pub old_snapshot: String,
    pub new_snapshot: String,
    pub output: String,
}

/// Whether a failed quality gate only warns or stops the run.
#[derive(Debug, Clone, Copy, PartialEq, Eq)]
pub enum QualityGateModeArg {
    Advisory,
    Enforce,
}

impl Default for QualityGateModeArg {
    fn default() -> (r: Self)
        ensures
            r == QualityGateModeArg::Advisory,
    {
        QualityGateModeArg::Advisory
    }
}

#[derive(Debug, Clone, PartialEq, Eq)]
pub struct ScanModDependenciesArgs {
    pub version_id: String,
    pub mod_roots: Vec<String>,
    pub output: String,
    pub store_in_report: bool,
    pub report_root: Option<String>,
}

/// The commit count `extract-wwmi-knowledge` reads when none is given.
pub const DEFAULT_MAX_COMMITS: usize = 200;

#[derive(Debug, Clone, PartialEq, Eq)]
pub struct ExtractWwmiKnowledgeArgs {
    pub repo: String,
    pub output: String,
    pub max_commits: usize,
}

#[derive(Debug, Clone, PartialEq, Eq)]
pub struct InferFixesArgs {
    pub compare_report: String,
    pub wwmi_knowledge: String,
    pub continuity_artifact: Option<String>,
    pub report_root: Option<String>,
    pub mod_root: Option<String>,
    pub mod_dependency_profile: Option<String>,
    pub representative_mod_baseline_set: Option<String>,
    pub output: String,
}

} // verus!
