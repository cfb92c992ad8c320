//! Turning extractor output and local folders into asset records.
pub mod frame_analysis;
pub mod pak_extractor;
pub mod inventory;
pub mod local;
