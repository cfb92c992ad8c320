//! Asset records as the ingest sources and extractors deliver them.
use vstd::prelude::*;
use crate::text::{clone_opt_string, clone_string, clone_strings, opt_view, views};

verus! {

#[derive(Debug, Clone, PartialEq, Eq)]
pub struct AssetBundle {
    pub old_assets: Vec<AssetRecord>,
    pub new_assets: Vec<AssetRecord>,
}

#[derive(Debug, Clone, PartialEq, Eq)]
pub struct AssetRecord {
    pub id: String,
    pub path: String,
    pub kind: Option<String>,
    pub metadata: AssetMetadata,
}

#[derive(Debug, Clone, PartialEq, Eq)]
pub struct AssetMetadata {
    pub logical_name: Option<String>,
    pub vertex_count: Option<u32>,
    pub index_count: Option<u32>,
    pub material_slots: Option<u32>,
    pub section_count: Option<u32>,
    pub vertex_stride: Option<u32>,
    pub vertex_buffer_count: Option<u32>,
    pub index_format: Option<String>,
    pub primitive_topology: Option<String>,
    pub layout_markers: Vec<String>,
    pub internal_structure: AssetInternalStructure,
    pub tags: Vec<String>,
}

impl Default for AssetMetadata {
    fn default() -> (r: Self)
        ensures
            r.logical_name is None,
            r.vertex_count is None,
            r.index_count is None,
            r.material_slots is None,
            r.section_count is None,
            r.vertex_stride is None,
            r.vertex_buffer_count is None,
            r.index_format is None,
            r.primitive_topology is None,
            r.layout_markers@.len() == 0,
            r.internal_structure.is_empty(),
            r.tags@.len() == 0,
    {
        AssetMetadata {
            logical_name: None,
            vertex_count: None,
            index_count: None,
            material_slots: None,
            section_count: None,
            vertex_stride: None,
            vertex_buffer_count: None,
            index_format: None,
            primitive_topology: None,
            layout_markers: Vec::new(),
            internal_structure: AssetInternalStructure::default(),
            tags: Vec::new(),
        }
    }
}

impl AssetRecord {
    /// The same record, compared by the views of its fields.
    pub open spec fn same_as(&self, other: &AssetRecord) -> bool {
        &&& self.id@ == other.id@
        &&& self.path@ == other.path@
        &&& opt_view(self.kind) == opt_view(other.kind)
        &&& self.metadata.same_as(&other.metadata)
    }

    /// A copy of the record.
    pub fn copy(&self) -> (r: Self)
        ensures
            r.same_as(self),
    {
        AssetRecord {
            id: clone_string(&self.id),
            path: clone_string(&self.path),
            kind: clone_opt_string(&self.kind),
            metadata: self.metadata.copy(),
        }
    }
}

impl AssetMetadata {
    /// The same metadata, compared by the views of its fields.
    pub open spec fn same_as(&self, other: &AssetMetadata) -> bool {
        &&& opt_view(self.logical_name) == opt_view(other.logical_name)
        &&& self.vertex_count == other.vertex_count
        &&& self.index_count == other.index_count
        &&& self.material_slots == other.material_slots
        &&& self.section_count == other.section_count
        &&& self.vertex_stride == other.vertex_stride
        &&& self.vertex_buffer_count == other.vertex_buffer_count
        &&& opt_view(self.index_format) == opt_view(other.index_format)
        &&& opt_view(self.primitive_topology) == opt_view(other.primitive_topology)
        &&& views(self.layout_markers@) == views(other.layout_markers@)
        &&& self.internal_structure.same_as(&other.internal_structure)
        &&& views(self.tags@) == views(other.tags@)
    }

    /// A copy of the metadata.
    pub fn copy(&self) -> (r: Self)
        ensures
            r.same_as(self),
    {
        AssetMetadata {
            logical_name: clone_opt_string(&self.logical_name),
            vertex_count: self.vertex_count,
            index_count: self.index_count,
            material_slots: self.material_slots,
            section_count: self.section_count,
            vertex_stride: self.vertex_stride,
            vertex_buffer_count: self.vertex_buffer_count,
            index_format: clone_opt_string(&self.index_format),
            primitive_topology: clone_opt_string(&self.primitive_topology),
            layout_markers: clone_strings(&self.layout_markers),
            internal_structure: self.internal_structure.copy(),
            tags: clone_strings(&self.tags),
        }
    }
}

/// Internal layout markers of an asset (sections, buffers, bindings, components).
#[derive(Debug, Clone, PartialEq, Eq)]
pub struct AssetInternalStructure {
    pub section_labels: Vec<String>,
    pub buffer_roles: Vec<String>,
    pub binding_targets: Vec<String>,
    pub subresource_roles: Vec<String>,
    pub has_skeleton: Option<bool>,
    pub has_shapekey_data: Option<bool>,
}

impl AssetInternalStructure {
    pub open spec fn is_empty(&self) -> bool {
        &&& self.section_labels@.len() == 0
        &&& self.buffer_roles@.len() == 0
        &&& self.binding_targets@.len() == 0
        &&& self.subresource_roles@.len() == 0
        &&& self.has_skeleton is None
        &&& self.has_shapekey_data is None
    }

    /// Field-wise equality of the text views and flags.
    pub open spec fn same_as(&self, other: &AssetInternalStructure) -> bool {
        &&& views(self.section_labels@) == views(other.section_labels@)
        &&& views(self.buffer_roles@) == views(other.buffer_roles@)
        &&& views(self.binding_targets@) == views(other.binding_targets@)
        &&& views(self.subresource_roles@) == views(other.subresource_roles@)
        &&& self.has_skeleton == other.has_skeleton
        &&& self.has_shapekey_data == other.has_shapekey_data
    }

    pub fn copy(&self) -> (r: Self)
        ensures
            r.same_as(self),
    {
        AssetInternalStructure {
            section_labels: clone_strings(&self.section_labels),
            buffer_roles: clone_strings(&self.buffer_roles),
            binding_targets: clone_strings(&self.binding_targets),
            subresource_roles: clone_strings(&self.subresource_roles),
            has_skeleton: self.has_skeleton,
            has_shapekey_data: self.has_shapekey_data,
        }
    }
}

impl Default for AssetInternalStructure {
    fn default() -> (r: Self)
        ensures
            r.is_empty(),
    {
        AssetInternalStructure {
            section_labels: Vec::new(),
            buffer_roles: Vec::new(),
            binding_targets: Vec::new(),
            subresource_roles: Vec::new(),
            has_skeleton: None,
            has_shapekey_data: None,
        }
    }
}

/// Where an extracted asset came from.
#[derive(Debug, Clone, PartialEq, Eq)]
pub struct AssetSourceContext {
    pub extraction_tool: Option<String>,
    pub source_root: Option<String>,
    pub source_path: Option<String>,
    pub container_path: Option<String>,
    pub source_kind: Option<String>,
}

impl AssetSourceContext {
    /// Field-wise equality of the texts.
    pub open spec fn same_as(&self, other: &AssetSourceContext) -> bool {
        &&& opt_view(self.extraction_tool) == opt_view(other.extraction_tool)
        &&& opt_view(self.source_root) == opt_view(other.source_root)
        &&& opt_view(self.source_path) == opt_view(other.source_path)
        &&& opt_view(self.container_path) == opt_view(other.container_path)
        &&& opt_view(self.source_kind) == opt_view(other.source_kind)
    }

    pub fn copy(&self) -> (r: Self)
        ensures
            r.same_as(self),
    {
        AssetSourceContext {
            extraction_tool: clone_opt_string(&self.extraction_tool),
            source_root: clone_opt_string(&self.source_root),
            source_path: clone_opt_string(&self.source_path),
            container_path: clone_opt_string(&self.container_path),
            source_kind: clone_opt_string(&self.source_kind),
        }
    }
}

/// Hash-like identity fields of an asset.
#[derive(Debug, Clone, PartialEq, Eq)]
pub struct AssetHashFields {
    pub asset_hash: Option<String>,
    pub shader_hash: Option<String>,
    pub signature: Option<String>,
    pub identity_tuple: Option<String>,
}

impl Default for AssetHashFields {
    fn default() -> (r: Self)
        ensures
            r.asset_hash is None,
            r.shader_hash is None,
            r.signature is None,
            r.identity_tuple is None,
    {
        AssetHashFields { asset_hash: None, shader_hash: None, signature: None, identity_tuple: None }
    }
}

impl Default for AssetSourceContext {
    fn default() -> (r: Self)
        ensures
            r.extraction_tool is None,
            r.source_root is None,
            r.source_path is None,
            r.container_path is None,
            r.source_kind is None,
    {
        AssetSourceContext {
            extraction_tool: None,
            source_root: None,
            source_path: None,
            container_path: None,
            source_kind: None,
        }
    }
}

/// An asset record together with the hashes and origin an extractor observed.
#[derive(Debug, Clone, PartialEq, Eq)]
pub struct ExtractedAssetRecord {
    pub asset: AssetRecord,
    pub hash_fields: AssetHashFields,
    pub source: AssetSourceContext,
}

#[derive(Debug, Clone, PartialEq, Eq)]
pub struct PreparedAssetInventoryContext {
    pub extraction_tool: Option<String>,
    pub extraction_kind: Option<String>,
    pub source_root: Option<String>,
    pub version_id: Option<String>,
    pub tags: Vec<String>,
    pub meaningful_content_coverage: Option<bool>,
    pub meaningful_character_coverage: Option<bool>,
    pub note: Option<String>,
}

/// An extractor's asset inventory, ready to be turned into a snapshot.
#[derive(Debug, Clone, PartialEq, Eq)]
pub struct PreparedAssetInventory {
    pub schema_version: String,
    pub context: PreparedAssetInventoryContext,
    pub assets: Vec<ExtractedAssetRecord>,
}

#[derive(Debug, Clone, PartialEq, Eq)]
pub struct AssetSummary {
    pub id: String,
    pub path: String,
    pub kind: Option<String>,
}

impl AssetSummary {
    /// The identifying part of a record.
    pub fn from_record(value: &AssetRecord) -> (r: Self)
        ensures
            r.id@ == value.id@,
            r.path@ == value.path@,
            opt_view(r.kind) == opt_view(value.kind),
    {
        AssetSummary {
            id: clone_string(&value.id),
            path: clone_string(&value.path),
            kind: clone_opt_string(&value.kind),
        }
    }
}

#[derive(Debug, Clone, Copy, PartialEq, Eq)]
pub enum MatchStatus {
    Matched,
    NeedsReview,
    Rejected,
}

#[derive(Debug, Clone, PartialEq, Eq)]
pub struct PipelineSummary {
    pub total_old_assets: usize,
    pub matched: usize,
    pub needs_review: usize,
    pub rejected: usize,
}

pub open spec fn spec_draft_action(status: MatchStatus, has_new_asset: bool) -> Seq<char> {
    match status {
        MatchStatus::Matched => if has_new_asset {
            "propose_mapping"@
        } else {
            "skip"@
        },
        MatchStatus::NeedsReview => "review_mapping"@,
        MatchStatus::Rejected => "skip"@,
    }
}

/// The patch-draft action for a match decision: only a matched decision with a
/// new asset proposes a mapping, review decisions ask for review, the rest are skipped.
pub fn draft_action(status: MatchStatus, has_new_asset: bool) -> (r: &'static str)
    ensures
        r@ == spec_draft_action(status, has_new_asset),
{
    match status {
        MatchStatus::Matched => if has_new_asset {
            "propose_mapping"
        } else {
            "skip"
        },
        MatchStatus::NeedsReview => "review_mapping",
        MatchStatus::Rejected => "skip",
    }
}

} // verus!
