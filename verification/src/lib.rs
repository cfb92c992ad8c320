//! Snapshot, compare and review logic for WWMI hash-mapping updates.
pub mod text;
pub mod order;
pub mod domain;
pub mod fingerprint;
pub mod scan;
pub mod error;
pub mod ingest;
pub mod snapshot;
pub mod compare;
pub mod report;
pub mod inference;
pub mod proposal;
pub mod human_summary;
pub mod remap_summary;
pub mod version_summary;
pub mod gui_app;
pub mod output_policy;
pub mod cli;
pub mod continuity;
pub mod surfaces;
pub mod findings;
pub mod inference_engine;
pub mod continuity_adjust;
pub mod mod_adjust;
pub mod mapping_hints;
